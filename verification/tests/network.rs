use na_libp2p::command::{Command, CompletionItem};
use na_libp2p::multiaddr::Multiaddr;
use na_libp2p::peer::PeerId;
use na_libp2p::protocol::{read_message, write_message, MessageType, ReadError, WireHeader};
use na_libp2p::sender::{
    PeerSenderPool, SendEvent, SendNext, SendStep, Sending, MAX_ATTEMPTS, MERCURY_PROTOCOL,
};
use na_libp2p::startup::{plan_relay, Phase, StartAction, StartEvent, Startup};
use na_libp2p::status::NaReturn;
use na_libp2p::swarm::{
    ended_well, report_send, route, CloseAction, CommandAction, Report, Route, SendOutcome,
    SwarmState,
};
use na_libp2p::transport::parse_transport_config;

fn peer(fill: u8) -> PeerId {
    let mut bytes = vec![0x12, 0x20];
    bytes.extend(vec![fill; 32]);
    PeerId::from_bytes(&bytes).expect("a multihash")
}

fn ma(text: &str) -> Multiaddr {
    Multiaddr::parse(text).expect("a multiaddr")
}

fn known(fill: u8, text: &str) -> Command {
    Command::AddKnownAddr { peer_id: peer(fill), multiaddr: ma(text) }
}

fn message(fill: u8, payload: &[u8]) -> Command {
    Command::SendMessage {
        dest_peer_id: peer(fill),
        msg_type: MessageType::Expected,
        tag: 5,
        payload: payload.to_vec(),
        op_ptr: 77,
        source_peer_id: peer(1),
    }
}

fn dial_of(action: CommandAction) -> Option<Multiaddr> {
    match action {
        CommandAction::Send { dial, .. } => dial,
        other => panic!("{:?}", other),
    }
}

#[test]
fn requests_that_end_the_network_side() {
    let mut s = SwarmState::new(None);
    assert_eq!(s.on_command(None, false), CommandAction::Stop);
    assert_eq!(s.on_command(Some(Command::Shutdown), true), CommandAction::Stop);
}

#[test]
fn a_plain_message_has_no_memory_fields() {
    let mut s = SwarmState::new(None);
    let action = s.on_command(Some(message(2, b"hey")), true);
    assert_eq!(
        action,
        CommandAction::Send {
            peer_id: peer(2),
            dial: None,
            header: WireHeader {
                msg_type: MessageType::Expected,
                tag: 5,
                payload_size: 3,
                source_peer_id: peer(1),
                handle_id: 0,
                offset: 0,
                rma_length: 0,
                local_handle_id: 0,
                local_offset: 0,
            },
            payload: b"hey".to_vec(),
            op_ptr: 77,
            report: Report::Always,
        }
    );
    if let CommandAction::Send { header, payload, .. } = action {
        let bytes = write_message(&header, &payload);
        let (read, data, _) = read_message(&bytes).expect("a message");
        assert_eq!((read, data), (header, payload));
    }
}

#[test]
fn requests_for_remote_memory() {
    let mut s = SwarmState::new(None);
    let put = s.on_command(
        Some(Command::RmaPut {
            remote_peer_id: peer(2),
            data: vec![1, 2],
            remote_handle_id: 3,
            remote_offset: 4,
            op_ptr: 5,
            source_peer_id: peer(1),
        }),
        true,
    );
    assert_eq!(
        put,
        CommandAction::Send {
            peer_id: peer(2),
            dial: None,
            header: WireHeader {
                msg_type: MessageType::RmaPut,
                tag: 0,
                payload_size: 2,
                source_peer_id: peer(1),
                handle_id: 3,
                offset: 4,
                rma_length: 2,
                local_handle_id: 0,
                local_offset: 0,
            },
            payload: vec![1, 2],
            op_ptr: 5,
            report: Report::Always,
        }
    );
    let get = s.on_command(
        Some(Command::RmaGetRequest {
            remote_peer_id: peer(2),
            remote_handle_id: 3,
            remote_offset: 4,
            length: 100,
            local_handle_id: 6,
            local_offset: 7,
            op_ptr: 5,
            source_peer_id: peer(1),
        }),
        true,
    );
    assert_eq!(
        get,
        CommandAction::Send {
            peer_id: peer(2),
            dial: None,
            header: WireHeader {
                msg_type: MessageType::RmaGetReq,
                tag: 0,
                payload_size: 0,
                source_peer_id: peer(1),
                handle_id: 3,
                offset: 4,
                rma_length: 100,
                local_handle_id: 6,
                local_offset: 7,
            },
            payload: vec![],
            op_ptr: 5,
            report: Report::OnFailure,
        }
    );
}

#[test]
fn known_addresses_are_dialled() {
    let mut s = SwarmState::new(None);
    assert_eq!(dial_of(s.on_command(Some(message(2, b"")), false)), None);
    assert_eq!(
        s.on_command(Some(known(2, "/ip4/1.1.1.1/tcp/1")), false),
        CommandAction::Dial { peer_id: peer(2), multiaddr: ma("/ip4/1.1.1.1/tcp/1") }
    );
    assert_eq!(dial_of(s.on_command(Some(message(2, b"")), false)), Some(ma("/ip4/1.1.1.1/tcp/1")));
    assert_eq!(dial_of(s.on_command(Some(message(2, b"")), true)), None);
    assert_eq!(dial_of(s.on_command(Some(message(3, b"")), false)), None);
    // The latest address counts.
    s.on_command(Some(known(2, "/ip4/2.2.2.2/tcp/2")), false);
    s.on_command(Some(known(3, "/ip4/3.3.3.3/tcp/3")), false);
    assert_eq!(dial_of(s.on_command(Some(message(2, b"")), false)), Some(ma("/ip4/2.2.2.2/tcp/2")));
    assert_eq!(dial_of(s.on_command(Some(message(3, b"")), false)), Some(ma("/ip4/3.3.3.3/tcp/3")));
}

#[test]
fn destinations() {
    assert_eq!(message(2, b"").destination(), Some(&peer(2)));
    assert_eq!(known(2, "").destination(), None);
    assert_eq!(Command::Shutdown.destination(), None);
}

#[test]
fn closed_connections_are_opened_again() {
    let mut s = SwarmState::new(Some((peer(9), ma("/ip4/9.9.9.9/tcp/9"))));
    s.on_command(Some(known(2, "/ip4/1.1.1.1/tcp/1")), false);
    let nothing = CloseAction { dial: None, relay_dial: None, drop_sender: false };
    assert_eq!(s.on_connection_closed(&peer(2), 1), nothing);
    assert_eq!(
        s.on_connection_closed(&peer(2), 0),
        CloseAction { dial: Some(ma("/ip4/1.1.1.1/tcp/1")), relay_dial: None, drop_sender: true }
    );
    assert_eq!(
        s.on_connection_closed(&peer(3), 0),
        CloseAction { dial: None, relay_dial: None, drop_sender: true }
    );
    assert_eq!(
        s.on_connection_closed(&peer(9), 0),
        CloseAction { dial: None, relay_dial: Some(ma("/ip4/9.9.9.9/tcp/9")), drop_sender: true }
    );
    assert_eq!(s.on_connection_closed(&peer(9), 2), nothing);
}

#[test]
fn reports_of_sends() {
    let item = |result| Some(CompletionItem { op_ptr: 4, result, recv_info: None });
    assert_eq!(report_send(4, Report::Always, SendOutcome::Sent), item(NaReturn::Success));
    assert_eq!(report_send(4, Report::OnFailure, SendOutcome::Sent), None);
    for report in [Report::Always, Report::OnFailure] {
        for outcome in [SendOutcome::Failed, SendOutcome::Dropped] {
            assert_eq!(report_send(4, report, outcome), item(NaReturn::ProtocolError));
        }
    }
}

#[test]
fn each_request_has_its_report() {
    let mut s = SwarmState::new(None);
    let put = |op_ptr| Command::RmaPut {
        remote_peer_id: peer(2),
        data: vec![1],
        remote_handle_id: 3,
        remote_offset: 4,
        op_ptr,
        source_peer_id: peer(1),
    };
    let get = |op_ptr| Command::RmaGetRequest {
        remote_peer_id: peer(2),
        remote_handle_id: 3,
        remote_offset: 4,
        length: 1,
        local_handle_id: 6,
        local_offset: 7,
        op_ptr,
        source_peer_id: peer(1),
    };
    let steps = vec![
        (message(2, b"a"), SendOutcome::Sent),
        (known(2, "/ip4/1.1.1.1/tcp/1"), SendOutcome::Sent),
        (put(11), SendOutcome::Failed),
        (get(12), SendOutcome::Sent),
        (put(13), SendOutcome::Sent),
        (get(14), SendOutcome::Dropped),
        (message(3, b"b"), SendOutcome::Dropped),
    ];
    let mut reports = Vec::new();
    for (command, outcome) in steps {
        if let CommandAction::Send { op_ptr, report, .. } = s.on_command(Some(command), false) {
            reports.extend(report_send(op_ptr, report, outcome).map(|r| (r.op_ptr, r.result)));
        }
    }
    assert_eq!(
        reports,
        vec![
            (77, NaReturn::Success),
            (11, NaReturn::ProtocolError),
            (13, NaReturn::Success),
            (14, NaReturn::ProtocolError),
            (77, NaReturn::ProtocolError),
        ]
    );
}

#[test]
fn who_takes_what_comes_in() {
    let to = |msg_type| {
        route(&WireHeader {
            msg_type,
            tag: 0,
            payload_size: 0,
            source_peer_id: peer(1),
            handle_id: 0,
            offset: 0,
            rma_length: 0,
            local_handle_id: 0,
            local_offset: 0,
        })
    };
    assert_eq!(to(MessageType::Unexpected), Route::Receive { expected: false });
    assert_eq!(to(MessageType::Expected), Route::Receive { expected: true });
    assert_eq!(to(MessageType::RmaPut), Route::Put);
    assert_eq!(to(MessageType::RmaGetReq), Route::GetRequest);
    assert_eq!(to(MessageType::RmaGetResp), Route::GetResponse);
    assert!(ended_well(ReadError::UnexpectedEof));
    assert!(!ended_well(ReadError::BadMessageType));
    assert!(!ended_well(ReadError::BadPeerId));
}

#[test]
fn one_sender_for_each_peer() {
    let mut pool: PeerSenderPool<u32> = PeerSenderPool::new();
    assert_eq!(pool.get_or_create(&peer(1), false), None);
    pool.install(peer(1), 10);
    pool.install(peer(2), 20);
    assert_eq!(pool.get_or_create(&peer(1), false), Some(&10));
    // A closed sender is replaced.
    assert_eq!(pool.get_or_create(&peer(1), true), None);
    pool.install(peer(1), 11);
    assert_eq!(pool.find(&peer(1)), Some(&11));
    assert_eq!(pool.find(&peer(2)), Some(&20));
    pool.remove(&peer(1));
    pool.remove(&peer(5));
    assert_eq!(pool.find(&peer(1)), None);
    assert_eq!(pool.find(&peer(2)), Some(&20));
    assert_eq!(MERCURY_PROTOCOL, "/mercury-na/1.0.0");
}

#[test]
fn a_stream_is_opened_once_and_kept() {
    let s = Sending::start(false);
    assert_eq!(s.step(), SendStep::Open);
    let s = match s.on_event(SendEvent::Opened) {
        SendNext::Continue(s) => s,
        other => panic!("{:?}", other),
    };
    assert_eq!(s.step(), SendStep::Write);
    assert_eq!(s.on_event(SendEvent::Written), SendNext::Sent);
    assert_eq!(Sending::start(true).step(), SendStep::Write);
}

#[test]
fn three_attempts_with_growing_pauses() {
    assert_eq!(MAX_ATTEMPTS, 3);
    for failure in [SendEvent::OpenFailed, SendEvent::WriteFailed] {
        let mut s = Sending::start(failure == SendEvent::WriteFailed);
        for pause in [20, 40] {
            match s.on_event(failure) {
                SendNext::Backoff { millis, next } => {
                    assert_eq!(millis, pause);
                    assert_eq!(next.step(), SendStep::Open);
                    s = next;
                }
                other => panic!("{:?}", other),
            }
        }
        assert_eq!(s.on_event(failure), SendNext::GiveUp { millis: 80 });
    }
}

#[test]
fn starting_with_both_transports() {
    let mut s = Startup::new(parse_transport_config("tcp,quic"), None);
    assert_eq!(s.on_event(StartEvent::Other), StartAction::Wait);
    assert_eq!(s.on_event(StartEvent::NewListenAddr(ma("/dns/x/tcp/1"))), StartAction::Wait);
    assert_eq!(s.on_event(StartEvent::NewListenAddr(ma("/ip4/1.1.1.1/tcp/1"))), StartAction::Wait);
    assert_eq!(s.on_event(StartEvent::Connected(peer(1))), StartAction::Wait);
    assert_eq!(s.phase, Phase::Listening);
    assert_eq!(
        s.on_event(StartEvent::NewListenAddr(ma("/ip4/1.1.1.1/udp/1/quic-v1"))),
        StartAction::Ready
    );
    assert_eq!(s.addrs, vec![ma("/ip4/1.1.1.1/tcp/1"), ma("/ip4/1.1.1.1/udp/1/quic-v1")]);
}

#[test]
fn starting_fails_when_nothing_more_happens() {
    let mut s = Startup::new(parse_transport_config("tcp"), None);
    assert_eq!(s.on_event(StartEvent::Ended), StartAction::Fail);
    assert_eq!(s.on_event(StartEvent::NewListenAddr(ma("/ip4/1.1.1.1/tcp/1"))), StartAction::Ready);
    assert_eq!(s.on_event(StartEvent::Ended), StartAction::Ready);
}

#[test]
fn starting_with_a_relay() {
    let id = peer(9).to_text();
    let text = format!("/ip4/10.0.0.1/tcp/4001/p2p/{}", id);
    let relay = plan_relay(true, Some(&text)).expect("a relay").expect("a relay");
    assert_eq!(relay.peer_id, peer(9));
    assert_eq!(relay.transport, ma("/ip4/10.0.0.1/tcp/4001"));
    assert_eq!(relay.circuit.to_text(), format!("{}/p2p-circuit", text));
    let circuit = relay.circuit.duplicate();
    let mut s = Startup::new(parse_transport_config("tcp,relay"), Some(relay));
    assert_eq!(s.on_event(StartEvent::NewListenAddr(ma("/ip4/1.1.1.1/tcp/1"))), StartAction::DialRelay);
    assert_eq!(s.on_event(StartEvent::Connected(peer(8))), StartAction::Wait);
    assert_eq!(s.on_event(StartEvent::Connected(peer(9))), StartAction::ListenOnRelay);
    assert_eq!(s.on_event(StartEvent::NewListenAddr(ma("/ip4/2.2.2.2/tcp/1"))), StartAction::Wait);
    assert_eq!(s.on_event(StartEvent::NewListenAddr(circuit.duplicate())), StartAction::Ready);
    assert_eq!(s.addrs, vec![ma("/ip4/1.1.1.1/tcp/1"), circuit]);
}

#[test]
fn relays_that_are_not_used() {
    assert_eq!(plan_relay(true, None), Ok(None));
    assert_eq!(plan_relay(false, Some("nonsense")), Ok(None));
    assert_eq!(plan_relay(true, Some("nonsense")), Err(NaReturn::ProtocolError));
    assert_eq!(plan_relay(true, Some("/ip4/10.0.0.1/tcp/4001")), Err(NaReturn::ProtocolError));
}
