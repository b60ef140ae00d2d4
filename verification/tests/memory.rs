use na_libp2p::addr::NaLibp2pAddr;
use na_libp2p::command::{Command, CompletionItem};
use na_libp2p::mem::{
    get, handle_rma_get_request, handle_rma_get_response, handle_rma_put, mem_handle_deserialize,
    mem_handle_get_serialize_size, mem_handle_serialize, place_answer, put, rma_place, rma_read,
    rma_write, take_get_response, GetReply, LocalWrite, MemHandleEntry, MemRegistry,
    NaLibp2pMemHandle,
};
use na_libp2p::peer::PeerId;
use na_libp2p::protocol::{MessageType, WireHeader};
use na_libp2p::queues::{OperationQueues, RmaOp};
use na_libp2p::status::NaReturn;

fn peer(fill: u8) -> PeerId {
    let mut bytes = vec![0x12, 0x20];
    bytes.extend(vec![fill; 32]);
    PeerId::from_bytes(&bytes).expect("a multihash")
}

fn addr(fill: u8) -> NaLibp2pAddr {
    NaLibp2pAddr { peer_id: peer(fill), multiaddr: None, is_self: false }
}

fn header(offset: u64, rma_length: u64) -> WireHeader {
    WireHeader {
        msg_type: MessageType::RmaGetReq,
        tag: 0,
        payload_size: 0,
        source_peer_id: peer(2),
        handle_id: 6,
        offset,
        rma_length,
        local_handle_id: 8,
        local_offset: 3,
    }
}

/// A registry with one piece of memory, under this number.
fn registry(handle_id: u64, buf_size: usize) -> MemRegistry {
    let mut r = MemRegistry::new();
    r.next_handle_id = handle_id;
    r.mem_handle_create(0x1000, buf_size, 0);
    r
}

#[test]
fn handles_are_numbered_and_freed() {
    let mut r = MemRegistry::new();
    let a = r.mem_handle_create(0x1000, 16, 1);
    let b = r.mem_handle_create(0x2000, 32, 2);
    assert_eq!((a.handle_id, b.handle_id), (1, 2));
    assert_eq!(a.owner_peer_id, None);
    assert_eq!(r.get(1), Some(MemHandleEntry { buf: 0x1000, buf_size: 16, flags: 1 }));
    assert_eq!(r.get(3), None);
    r.mem_handle_free(a);
    assert_eq!(r.get(1), None);
    assert_eq!(r.get(2), Some(MemHandleEntry { buf: 0x2000, buf_size: 32, flags: 2 }));
    // Freeing a handle of another peer does not touch local memory with the same number.
    r.mem_handle_free(NaLibp2pMemHandle {
        buf: 0,
        buf_size: 32,
        handle_id: 2,
        flags: 0,
        owner_peer_id: Some(peer(1)),
    });
    assert!(r.get(2).is_some());
    assert_eq!(r.mem_handle_create(0, 0, 0).handle_id, 3);
    r.next_handle_id = u64::MAX;
    assert_eq!(r.mem_handle_create(0, 0, 0).handle_id, u64::MAX);
    assert_eq!(r.mem_handle_create(0, 0, 0).handle_id, 0);
}

#[test]
fn serialized_handles() {
    let mut r = MemRegistry::new();
    let h = r.mem_handle_create(0x1000, 300, 5);
    let size = mem_handle_get_serialize_size(Some(&h), &peer(1));
    assert_eq!(size, 26 + 34);
    assert_eq!(mem_handle_get_serialize_size(None, &peer(1)), 0);
    let (ret, bytes) = mem_handle_serialize(Some(&h), &peer(1), Some(size));
    assert_eq!(ret, NaReturn::Success);
    let mut expected = Vec::new();
    for n in [1u64, 300, 5] {
        expected.extend(n.to_be_bytes());
    }
    expected.extend([0, 34, 0x12, 0x20]);
    expected.extend(vec![1; 32]);
    assert_eq!(bytes, expected);
    let remote = mem_handle_deserialize(Some(&bytes), true).expect("a handle");
    assert_eq!(
        remote,
        NaLibp2pMemHandle {
            buf: 0,
            buf_size: 300,
            handle_id: 1,
            flags: 5,
            owner_peer_id: Some(peer(1)),
        }
    );
    // Handed on, it still names its owner.
    assert_eq!(mem_handle_serialize(Some(&remote), &peer(9), Some(60)).1, bytes);
}

#[test]
fn serialized_handles_that_do_not_fit() {
    let mut r = MemRegistry::new();
    let h = r.mem_handle_create(0x1000, 300, 5);
    let all = mem_handle_serialize(Some(&h), &peer(1), Some(60)).1;
    for (room, stored) in [(7, 0), (8, 8), (23, 16), (25, 24), (26, 26), (59, 26)] {
        let (ret, bytes) = mem_handle_serialize(Some(&h), &peer(1), Some(room));
        assert_eq!(ret, NaReturn::Overflow);
        assert_eq!(bytes, all[..stored].to_vec());
    }
    assert_eq!(mem_handle_serialize(None, &peer(1), Some(60)), (NaReturn::InvalidArg, vec![]));
    assert_eq!(mem_handle_serialize(Some(&h), &peer(1), None), (NaReturn::InvalidArg, vec![]));
}

#[test]
fn bytes_that_are_no_handle() {
    let mut r = MemRegistry::new();
    let h = r.mem_handle_create(0x1000, 300, 5);
    let good = mem_handle_serialize(Some(&h), &peer(1), Some(60)).1;
    assert_eq!(mem_handle_deserialize(None, true), Err(NaReturn::InvalidArg));
    assert_eq!(mem_handle_deserialize(Some(&good), false), Err(NaReturn::InvalidArg));
    assert_eq!(mem_handle_deserialize(Some(&good[..25]), true), Err(NaReturn::InvalidArg));
    for n in 26..good.len() {
        assert_eq!(mem_handle_deserialize(Some(&good[..n]), true), Err(NaReturn::ProtocolError));
    }
    let mut bad = good[..24].to_vec();
    bad.extend([0, 1, 9]);
    assert_eq!(mem_handle_deserialize(Some(&bad), true), Err(NaReturn::ProtocolError));
}

#[test]
fn writes_stay_inside_the_memory() {
    let mut mem = [0, 1, 2, 3, 4, 5];
    rma_write(&mut mem, 2, &[9, 8]);
    assert_eq!(mem, [0, 1, 9, 8, 4, 5]);
    assert_eq!(rma_read(&mem, 2, 2), vec![9, 8]);
    rma_write(&mut mem, 4, &[7, 7, 7]);
    assert_eq!(mem, [0, 1, 9, 8, 7, 7]);
    rma_write(&mut mem, 6, &[1]);
    rma_write(&mut mem, u64::MAX, &[1]);
    rma_write(&mut mem, 0, &[]);
    assert_eq!(mem, [0, 1, 9, 8, 7, 7]);
    assert_eq!(rma_read(&mem, 4, 100), vec![7, 7]);
    assert_eq!(rma_read(&mem, 6, 1), Vec::<u8>::new());
    assert_eq!(rma_read(&mem, u64::MAX, u64::MAX), Vec::<u8>::new());
    assert_eq!(rma_read(&mem, 0, 0), Vec::<u8>::new());
    assert!(handle_rma_put(&registry(6, 6), &mut mem, &header(1, 0), &[3]));
    assert_eq!(mem, [0, 3, 9, 8, 7, 7]);
    // Memory that is not registered is left alone.
    assert!(!handle_rma_put(&registry(8, 6), &mut mem, &header(1, 0), &[4]));
    assert_eq!(mem, [0, 3, 9, 8, 7, 7]);
}

#[test]
fn a_read_of_remote_memory() {
    let mut q = OperationQueues::new();
    let local = NaLibp2pMemHandle { buf: 1, buf_size: 8, handle_id: 8, flags: 0, owner_peer_id: None };
    let remote = NaLibp2pMemHandle {
        buf: 0,
        buf_size: 6,
        handle_id: 6,
        flags: 0,
        owner_peer_id: Some(peer(1)),
    };
    let c = get(&mut q, &local, 3, &remote, 2, 4, &addr(5), 99, &peer(2));
    assert_eq!(
        c,
        Command::RmaGetRequest {
            remote_peer_id: peer(1),
            remote_handle_id: 6,
            remote_offset: 2,
            length: 4,
            local_handle_id: 8,
            local_offset: 3,
            op_ptr: 99,
            source_peer_id: peer(2),
        }
    );
    assert_eq!(
        q.pending_rma_ops[0],
        RmaOp { op_ptr: 99, local_handle_id: 8, local_offset: 3, rma_length: 4 }
    );
    let reply =
        handle_rma_get_request(&registry(6, 6), &[10, 11, 12, 13, 14, 15], &header(2, 4), &peer(1));
    let GetReply { to, header: response, data } = reply.expect("an answer");
    assert_eq!(to, peer(2));
    assert_eq!(data, vec![12, 13, 14, 15]);
    assert_eq!(
        response,
        WireHeader {
            msg_type: MessageType::RmaGetResp,
            tag: 0,
            payload_size: 4,
            source_peer_id: peer(1),
            handle_id: 6,
            offset: 2,
            rma_length: 4,
            local_handle_id: 8,
            local_offset: 3,
        }
    );
    let (item, write) =
        take_get_response(&mut q, &registry(8, 8), &response, data.clone()).expect("a read that waits");
    assert_eq!(item, CompletionItem { op_ptr: 99, result: NaReturn::Success, recv_info: None });
    let write = write.expect("registered memory");
    assert_eq!(
        write,
        LocalWrite {
            entry: MemHandleEntry { buf: 0x1000, buf_size: 8, flags: 0 },
            offset: 3,
            data: data.clone(),
        }
    );
    let mut mem = [0; 8];
    write.store(&mut mem);
    assert_eq!(mem, [0, 0, 0, 12, 13, 14, 15, 0]);
    // Nobody waits for it any more.
    assert_eq!(take_get_response(&mut q, &registry(8, 8), &response, data.clone()), None);
    assert_eq!(handle_rma_get_response(&mut q, &response, data), None);
}

#[test]
fn an_answer_for_memory_that_was_freed() {
    let mut q = OperationQueues::new();
    let answer = header(0, 1);
    for op_ptr in [1, 2] {
        q.post_rma(RmaOp { op_ptr, local_handle_id: 8, local_offset: 3, rma_length: 1 });
    }
    // The read is finished all the same; there is nothing to write to.
    let item = |op_ptr| CompletionItem { op_ptr, result: NaReturn::Success, recv_info: None };
    assert_eq!(
        take_get_response(&mut q, &registry(9, 8), &answer, vec![5]),
        Some((item(1), None))
    );
    let found = handle_rma_get_response(&mut q, &answer, vec![5]).expect("a read that waits");
    assert_eq!((found.local_handle_id, found.local_offset), (8, 3));
    assert_eq!(place_answer(&registry(9, 8), found), (item(2), None));
}

#[test]
fn messages_name_their_memory() {
    assert_eq!(
        rma_place(&registry(6, 4), &header(0, 0)),
        Some(MemHandleEntry { buf: 0x1000, buf_size: 4, flags: 0 })
    );
    // The number of the local memory is another one.
    assert_eq!(rma_place(&registry(8, 4), &header(0, 0)), None);
    assert_eq!(handle_rma_get_request(&registry(8, 4), &[1], &header(0, 1), &peer(1)), None);
}

#[test]
fn a_request_beyond_the_end_is_cut() {
    let ask = |offset| {
        handle_rma_get_request(&registry(6, 3), &[1, 2, 3], &header(offset, 4), &peer(1))
            .expect("an answer")
    };
    let reply = ask(2);
    assert_eq!(reply.data, vec![3]);
    assert_eq!((reply.header.payload_size, reply.header.rma_length), (1, 1));
    let reply = ask(3);
    assert_eq!(reply.data, Vec::<u8>::new());
    assert_eq!((reply.header.payload_size, reply.header.rma_length), (0, 0));
}

#[test]
fn answers_go_to_the_oldest_read_of_the_place() {
    let mut q = OperationQueues::new();
    for (op_ptr, local_offset) in [(1, 0), (2, 3), (3, 3)] {
        q.post_rma(RmaOp { op_ptr, local_handle_id: 8, local_offset, rma_length: 1 });
    }
    let answer = header(0, 1);
    let done = |q: &mut OperationQueues| {
        handle_rma_get_response(q, &answer, vec![1]).map(|a| a.item.op_ptr)
    };
    assert_eq!(done(&mut q), Some(2));
    assert_eq!(done(&mut q), Some(3));
    assert_eq!(done(&mut q), None);
    assert_eq!(q.pending_rma_ops.len(), 1);
}

#[test]
fn a_write_to_remote_memory() {
    let remote = NaLibp2pMemHandle { buf: 0, buf_size: 6, handle_id: 6, flags: 0, owner_peer_id: None };
    let c = put(Some(&[1, 2, 3, 4]), 1, &remote, 7, 2, &addr(5), 99, &peer(2));
    assert_eq!(
        c,
        Command::RmaPut {
            remote_peer_id: peer(5),
            data: vec![2, 3],
            remote_handle_id: 6,
            remote_offset: 7,
            op_ptr: 99,
            source_peer_id: peer(2),
        }
    );
    let data = |c: Command| match c {
        Command::RmaPut { data, .. } => data,
        other => panic!("{:?}", other),
    };
    assert_eq!(data(put(None, 1, &remote, 7, 2, &addr(5), 99, &peer(2))), Vec::<u8>::new());
    assert_eq!(data(put(Some(&[1]), 9, &remote, 7, 0, &addr(5), 99, &peer(2))), Vec::<u8>::new());
}
