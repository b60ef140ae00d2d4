use na_libp2p::addr::NaLibp2pAddr;
use na_libp2p::command::Command;
use na_libp2p::mem::{
    get, handle_rma_get_request, handle_rma_put, mem_handle_deserialize, mem_handle_serialize, put,
    rma_place, take_get_response, MemRegistry,
};
use na_libp2p::peer::PeerId;
use na_libp2p::plugin::{
    cancel, msg_recv_expected, msg_recv_unexpected, msg_send_expected, msg_send_unexpected,
};
use na_libp2p::protocol::{read_message, write_message, WireHeader};
use na_libp2p::queues::{OperationQueues, RmaOp};
use na_libp2p::swarm::{route, CommandAction, Route, SwarmState};

fn peer(fill: u8) -> PeerId {
    let mut bytes = vec![0x12, 0x20];
    bytes.extend(vec![fill; 32]);
    PeerId::from_bytes(&bytes).expect("a multihash")
}

fn addr(fill: u8) -> NaLibp2pAddr {
    NaLibp2pAddr { peer_id: peer(fill), multiaddr: None, is_self: false }
}

/// What the other side reads of a request.
fn transmit(command: Command) -> (WireHeader, Vec<u8>) {
    match SwarmState::new(None).on_command(Some(command), true) {
        CommandAction::Send { header, payload, .. } => {
            let mut bytes = write_message(&header, &payload);
            bytes.extend(b"what follows");
            let (header, payload, used) = read_message(&bytes).expect("a message");
            assert_eq!(&bytes[used..], b"what follows");
            (header, payload)
        }
        other => panic!("{:?}", other),
    }
}

#[test]
fn a_message_reaches_its_receive() {
    let mut q = OperationQueues::new();
    assert_eq!(msg_recv_expected(&mut q, 100, true, Some(&addr(1)), 42, 7), None);
    let (h, p) = transmit(msg_send_expected(&addr(2), 42, Some(b"an answer"), 99, &peer(1)));
    assert_eq!(route(&h), Route::Receive { expected: true });
    let d = q.handle_incoming_msg(h, p, true).expect("the receive");
    assert_eq!((d.item.op_ptr, d.data), (7, b"an answer".to_vec()));
    assert_eq!(q, OperationQueues::new());

    let (h, p) = transmit(msg_send_unexpected(&addr(2), 5, Some(b"hello"), 99, &peer(1)));
    assert_eq!(route(&h), Route::Receive { expected: false });
    assert_eq!(q.handle_incoming_msg(h, p, false), None);
    let (data, done) = msg_recv_unexpected(&mut q, 3, true, 8).expect("the message");
    assert_eq!((done.op_ptr, data), (8, b"hel".to_vec()));
}

#[test]
fn a_put_reaches_the_memory() {
    let mut registry = MemRegistry::new();
    let mut target = [0u8; 10];
    let owned = registry.mem_handle_create(0x1000, target.len(), 0);
    let (_, bytes) = mem_handle_serialize(Some(&owned), &peer(2), Some(100));
    let remote = mem_handle_deserialize(Some(&bytes), true).expect("a handle");
    let command = put(Some(b"0123456789"), 4, &remote, 2, 3, &addr(9), 1, &peer(1));
    assert_eq!(command.destination(), Some(&peer(2)));
    let (h, p) = transmit(command);
    assert_eq!(route(&h), Route::Put);
    assert_eq!(rma_place(&registry, &h).map(|e| e.buf_size), Some(10));
    assert!(handle_rma_put(&registry, &mut target, &h, &p));
    assert_eq!(&target, b"\0\x00456\0\0\0\0\0");
}

#[test]
fn a_get_fetches_the_memory() {
    let mut q = OperationQueues::new();
    let mut local_registry = MemRegistry::new();
    let local = local_registry.mem_handle_create(0x2000, 6, 0);
    let mut remote_registry = MemRegistry::new();
    let owned = remote_registry.mem_handle_create(0x1000, 10, 0);
    let (_, bytes) = mem_handle_serialize(Some(&owned), &peer(2), Some(100));
    let remote = mem_handle_deserialize(Some(&bytes), true).expect("a handle");

    let command = get(&mut q, &local, 1, &remote, 5, 4, &addr(9), 77, &peer(1));
    let (h, p) = transmit(command);
    assert_eq!((route(&h), p.len()), (Route::GetRequest, 0));
    let reply = handle_rma_get_request(&remote_registry, b"0123456789", &h, &peer(2));
    let reply = reply.expect("an answer");
    assert_eq!(reply.to, peer(1));
    let bytes = write_message(&reply.header, &reply.data);
    let (back, data, _) = read_message(&bytes).expect("a message");
    assert_eq!(route(&back), Route::GetResponse);
    let (item, write) =
        take_get_response(&mut q, &local_registry, &back, data).expect("a read that waits");
    assert_eq!(item.op_ptr, 77);
    let write = write.expect("registered memory");
    assert_eq!(write.entry.buf, 0x2000);
    let mut memory = *b"......";
    write.store(&mut memory);
    assert_eq!(&memory, b".5678.");
    assert_eq!(q, OperationQueues::new());
}

#[test]
fn what_was_read_is_written_again() {
    let (h, p) = transmit(msg_send_unexpected(&addr(2), 5, Some(b"hello"), 99, &peer(1)));
    let mut stream = write_message(&h, &p);
    stream.extend([1, 2, 3]);
    let (header, payload, used) = read_message(&stream).expect("a message");
    let mut again = write_message(&header, &payload);
    again.extend(&stream[used..]);
    assert_eq!(again, stream);
}

#[test]
fn cancelling_undoes_posting() {
    let prepared = || {
        let mut q = OperationQueues::new();
        msg_recv_unexpected(&mut q, 1, true, 1);
        msg_recv_expected(&mut q, 1, true, None, 9, 2);
        q.post_rma(RmaOp { op_ptr: 3, local_handle_id: 1, local_offset: 0, rma_length: 1 });
        q
    };
    let mut q = prepared();
    assert_eq!(msg_recv_unexpected(&mut q, 1, true, 4), None);
    assert!(cancel(&mut q, 4).is_some());
    assert_eq!(q, prepared());
    assert_eq!(msg_recv_expected(&mut q, 1, true, Some(&addr(1)), 9, 5), None);
    assert!(cancel(&mut q, 5).is_some());
    assert_eq!(q, prepared());
    q.post_rma(RmaOp { op_ptr: 6, local_handle_id: 1, local_offset: 0, rma_length: 1 });
    assert!(cancel(&mut q, 6).is_some());
    assert_eq!(q, prepared());
}
