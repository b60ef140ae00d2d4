use std::collections::VecDeque;

use na_libp2p::addr::NaLibp2pAddr;
use na_libp2p::command::{Command, CompletionItem, RecvInfo};
use na_libp2p::peer::PeerId;
use na_libp2p::plugin::{
    cancel, finish, msg_get_max_expected_size, msg_get_max_tag, msg_get_max_unexpected_size,
    msg_recv_expected, msg_recv_unexpected, msg_send_expected, msg_send_unexpected, poll,
    CallbackInfo, CbType, Finished,
};
use na_libp2p::protocol::{MessageType, WireHeader};
use na_libp2p::queues::{OperationQueues, RmaOp};
use na_libp2p::status::NaReturn;

fn peer(fill: u8) -> PeerId {
    let mut bytes = vec![0x12, 0x20];
    bytes.extend(vec![fill; 32]);
    PeerId::from_bytes(&bytes).expect("a multihash")
}

fn addr(fill: u8) -> NaLibp2pAddr {
    NaLibp2pAddr { peer_id: peer(fill), multiaddr: None, is_self: false }
}

fn header(fill: u8, tag: u32, size: usize) -> WireHeader {
    WireHeader {
        msg_type: MessageType::Unexpected,
        tag,
        payload_size: size as u32,
        source_peer_id: peer(fill),
        handle_id: 0,
        offset: 0,
        rma_length: 0,
        local_handle_id: 0,
        local_offset: 0,
    }
}

fn arrive(q: &mut OperationQueues, fill: u8, tag: u32, payload: &[u8], expected: bool) -> Option<(usize, Vec<u8>)> {
    q.handle_incoming_msg(header(fill, tag, payload.len()), payload.to_vec(), expected)
        .map(|d| (d.item.op_ptr, d.data))
}

#[test]
fn unexpected_messages_are_served_in_order() {
    let mut q = OperationQueues::new();
    assert_eq!(arrive(&mut q, 1, 10, b"first", false), None);
    assert_eq!(arrive(&mut q, 2, 20, b"second", false), None);
    let (data, done) = msg_recv_unexpected(&mut q, 64, true, 100).expect("a message");
    assert_eq!(data, b"first".to_vec());
    assert_eq!(
        done,
        Finished {
            op_ptr: 100,
            ret: NaReturn::Success,
            info: CallbackInfo::RecvUnexpected { actual_buf_size: 5, source: Some(addr(1)), tag: 10 },
        }
    );
    assert_eq!(msg_recv_unexpected(&mut q, 64, true, 101).expect("a message").0, b"second".to_vec());
    assert_eq!(msg_recv_unexpected(&mut q, 64, true, 102), None);
    assert_eq!(msg_recv_unexpected(&mut q, 64, true, 103), None);
    assert_eq!(arrive(&mut q, 1, 1, b"third", false), Some((102, b"third".to_vec())));
    assert_eq!(arrive(&mut q, 1, 1, b"fourth", false), Some((103, b"fourth".to_vec())));
    assert_eq!(q, OperationQueues::new());
}

#[test]
fn a_short_buffer_gets_the_start_of_the_message() {
    let mut q = OperationQueues::new();
    assert_eq!(msg_recv_unexpected(&mut q, 3, true, 1), None);
    let d = q.handle_incoming_msg(header(1, 9, 5), b"hello".to_vec(), false).expect("a receive");
    assert_eq!(d.data, b"hel".to_vec());
    assert_eq!(
        d.item,
        CompletionItem {
            op_ptr: 1,
            result: NaReturn::Success,
            recv_info: Some(RecvInfo { actual_size: 5, source_addr: Some(addr(1)), tag: 9 }),
        }
    );
    assert_eq!(msg_recv_unexpected(&mut q, 3, false, 2), None);
    assert_eq!(arrive(&mut q, 1, 9, b"hello", false), Some((2, vec![])));
    assert_eq!(msg_recv_unexpected(&mut q, 0, true, 3), None);
    assert_eq!(arrive(&mut q, 1, 9, b"hello", false), Some((3, vec![])));
}

#[test]
fn expected_messages_are_matched_by_peer_and_tag() {
    let mut q = OperationQueues::new();
    assert_eq!(msg_recv_expected(&mut q, 64, true, Some(&addr(1)), 7, 1), None);
    assert_eq!(msg_recv_expected(&mut q, 64, true, Some(&addr(2)), 7, 2), None);
    assert_eq!(msg_recv_expected(&mut q, 64, true, None, 8, 3), None);
    assert_eq!(arrive(&mut q, 2, 7, b"b", true), Some((2, b"b".to_vec())));
    assert_eq!(arrive(&mut q, 2, 7, b"again", true), None);
    assert_eq!(arrive(&mut q, 5, 8, b"any", true), Some((3, b"any".to_vec())));
    assert_eq!(arrive(&mut q, 1, 6, b"tag", true), None);
    assert_eq!(arrive(&mut q, 1, 7, b"a", true), Some((1, b"a".to_vec())));
    // What was stashed is found by peer and tag as well, the oldest first.
    assert_eq!(arrive(&mut q, 2, 7, b"more", true), None);
    let (data, done) = msg_recv_expected(&mut q, 64, true, Some(&addr(2)), 7, 4).expect("a message");
    assert_eq!(data, b"again".to_vec());
    assert_eq!(
        done,
        Finished {
            op_ptr: 4,
            ret: NaReturn::Success,
            info: CallbackInfo::RecvExpected { actual_buf_size: 5 },
        }
    );
    assert_eq!(msg_recv_expected(&mut q, 64, true, Some(&addr(2)), 6, 5), None);
    assert_eq!(msg_recv_expected(&mut q, 64, true, None, 6, 6).expect("a message").0, b"tag".to_vec());
    assert_eq!(msg_recv_expected(&mut q, 64, true, None, 7, 7).expect("a message").0, b"more".to_vec());
}

#[test]
fn expected_and_unexpected_messages_do_not_mix() {
    let mut q = OperationQueues::new();
    assert_eq!(msg_recv_unexpected(&mut q, 64, true, 1), None);
    assert_eq!(arrive(&mut q, 1, 0, b"x", true), None);
    assert_eq!(msg_recv_expected(&mut q, 64, true, None, 5, 2), None);
    assert_eq!(arrive(&mut q, 1, 5, b"y", false), Some((1, b"y".to_vec())));
    assert_eq!(arrive(&mut q, 1, 5, b"z", true), Some((2, b"z".to_vec())));
}

#[test]
fn the_order_of_receive_and_message_makes_no_difference() {
    let mut a = OperationQueues::new();
    assert_eq!(msg_recv_unexpected(&mut a, 4, true, 1), None);
    let d = a.handle_incoming_msg(header(1, 2, 6), b"abcdef".to_vec(), false).expect("a receive");
    let first = (d.data, finish(CbType::RecvUnexpected, d.item));
    let mut b = OperationQueues::new();
    assert_eq!(arrive(&mut b, 1, 2, b"abcdef", false), None);
    assert_eq!(msg_recv_unexpected(&mut b, 4, true, 1), Some(first));
    assert_eq!(a, b);
    assert_eq!(a, OperationQueues::new());
}

#[test]
fn cancelled_operations_wait_no_more() {
    let mut q = OperationQueues::new();
    assert_eq!(msg_recv_unexpected(&mut q, 4, true, 1), None);
    assert_eq!(msg_recv_unexpected(&mut q, 4, true, 2), None);
    assert_eq!(msg_recv_expected(&mut q, 4, true, None, 5, 3), None);
    q.post_rma(RmaOp { op_ptr: 4, local_handle_id: 1, local_offset: 2, rma_length: 3 });
    for op_ptr in [1, 3, 4] {
        assert_eq!(
            cancel(&mut q, op_ptr),
            Some(Finished { op_ptr, ret: NaReturn::Canceled, info: CallbackInfo::Plain })
        );
        assert_eq!(cancel(&mut q, op_ptr), None);
    }
    assert_eq!(cancel(&mut q, 77), None);
    assert_eq!(arrive(&mut q, 1, 5, b"x", false), Some((2, b"x".to_vec())));
    assert_eq!(arrive(&mut q, 1, 5, b"x", true), None);
    assert_eq!(q.take_rma(1, 2), None);
}

#[test]
fn sends_become_requests() {
    let c = msg_send_unexpected(&addr(2), 5, Some(b"hi"), 9, &peer(1));
    assert_eq!(
        c,
        Command::SendMessage {
            dest_peer_id: peer(2),
            msg_type: MessageType::Unexpected,
            tag: 5,
            payload: b"hi".to_vec(),
            op_ptr: 9,
            source_peer_id: peer(1),
        }
    );
    let c = msg_send_expected(&addr(2), u32::MAX, None, 9, &peer(1));
    assert_eq!(
        c,
        Command::SendMessage {
            dest_peer_id: peer(2),
            msg_type: MessageType::Expected,
            tag: u32::MAX,
            payload: vec![],
            op_ptr: 9,
            source_peer_id: peer(1),
        }
    );
}

#[test]
fn limits() {
    assert_eq!(msg_get_max_unexpected_size(), 65536);
    assert_eq!(msg_get_max_expected_size(), 65536);
    assert_eq!(msg_get_max_tag(), 4294967295);
}

#[test]
fn reports_are_taken_in_order() {
    assert_eq!(poll(VecDeque::new()), (NaReturn::Success, 0, vec![]));
    let info = || Some(RecvInfo { actual_size: 7, source_addr: Some(addr(3)), tag: 4 });
    let item = |op_ptr, result, recv_info| CompletionItem { op_ptr, result, recv_info };
    let items = VecDeque::from(vec![
        (CbType::SendExpected, item(1, NaReturn::ProtocolError, None)),
        (CbType::RecvUnexpected, item(2, NaReturn::Success, info())),
        (CbType::RecvExpected, item(3, NaReturn::Success, info())),
        (CbType::Get, item(4, NaReturn::Success, info())),
        (CbType::RecvUnexpected, item(5, NaReturn::Success, None)),
    ]);
    let (ret, count, done) = poll(items);
    assert_eq!((ret, count), (NaReturn::Success, 5));
    assert_eq!(
        done,
        vec![
            Finished { op_ptr: 1, ret: NaReturn::ProtocolError, info: CallbackInfo::Plain },
            Finished {
                op_ptr: 2,
                ret: NaReturn::Success,
                info: CallbackInfo::RecvUnexpected { actual_buf_size: 7, source: Some(addr(3)), tag: 4 },
            },
            Finished {
                op_ptr: 3,
                ret: NaReturn::Success,
                info: CallbackInfo::RecvExpected { actual_buf_size: 7 },
            },
            Finished { op_ptr: 4, ret: NaReturn::Success, info: CallbackInfo::Plain },
            Finished { op_ptr: 5, ret: NaReturn::Success, info: CallbackInfo::Plain },
        ]
    );
}
