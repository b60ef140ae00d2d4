//! Which message a receive gets, and what it gets of it.

use crate::protocol::HeaderView;
use crate::queues::{
    answered, arrive, arrive_expected, arrive_unexpected, cancelled, delivered, first_read,
    message_of, nothing_waits, post_expected, post_read, post_unexpected, read_of, receive_of, suits,
    DeliveryView, QueuesView, RecvOpView, RmaOp, StashView,
};
use crate::search::first_where_meaning;
use crate::status::NaReturn;
use vstd::prelude::*;

verus! {

/// The delivery finishes the receive with success. It brings the payload of the message, byte by
/// byte, up to the size of the buffer, and tells the size, the sender and the tag of the message.
pub open spec fn brings(d: DeliveryView, op: RecvOpView, msg: StashView) -> bool {
    &&& d.item.op_ptr == op.op_ptr
    &&& d.item.result == NaReturn::Success
    &&& d.item.recv_info is Some
    &&& msg.payload.len() <= usize::MAX ==> (d.item.recv_info->0).actual_size == msg.payload.len()
    &&& (d.item.recv_info->0).source == msg.source
    &&& (d.item.recv_info->0).tag == msg.tag
    &&& !op.has_buf ==> d.data.len() == 0
    &&& op.has_buf && msg.payload.len() < op.buf_size ==> d.data.len() == msg.payload.len()
    &&& op.has_buf && op.buf_size <= msg.payload.len() ==> d.data.len() == op.buf_size
    &&& forall|k: int| 0 <= k < d.data.len() ==> #[trigger] d.data[k] == msg.payload[k]
}

/// An expected message that is delivered goes to a receive with its tag. If that receive names a peer
/// and the sender is known, the two identities are the same, byte for byte; no receive that stood
/// before it could have had the message. Only that receive leaves its queue. The message is held
/// exactly if no receive could have it.
pub proof fn law_arrival_is_for_its_receive(q: QueuesView, msg: StashView)
    ensures
        arrive_expected(q, msg).1 matches Some(d) ==> exists|i: int|
            {
                &&& 0 <= i < q.expected_ops.len()
                &&& (#[trigger] q.expected_ops[i]).tag == msg.tag
                &&& q.expected_ops[i].source is Some && msg.source is Some ==> {
                    let named = q.expected_ops[i].source->0;
                    let sender = (msg.source->0).peer;
                    &&& named.len() == sender.len()
                    &&& forall|k: int| 0 <= k < named.len() ==> #[trigger] named[k] == sender[k]
                }
                &&& forall|j: int|
                    0 <= j < i ==> {
                        ||| (#[trigger] q.expected_ops[j]).tag != msg.tag
                        ||| q.expected_ops[j].source is Some && msg.source is Some
                            && q.expected_ops[j].source->0 != (msg.source->0).peer
                    }
                &&& brings(d, q.expected_ops[i], msg)
                &&& arrive_expected(q, msg).0 == (QueuesView {
                    expected_ops: q.expected_ops.remove(i),
                    ..q
                })
            },
        arrive_expected(q, msg).1 is None ==> arrive_expected(q, msg).0 == (QueuesView {
            expected_stash: q.expected_stash.push(msg),
            ..q
        }),
        arrive_expected(q, msg).1 is None <==> forall|j: int|
            0 <= j < q.expected_ops.len() ==> {
                ||| (#[trigger] q.expected_ops[j]).tag != msg.tag
                ||| q.expected_ops[j].source is Some && msg.source is Some
                    && q.expected_ops[j].source->0 != (msg.source->0).peer
            },
        arrive(q, msg, true) == arrive_expected(q, msg),
{
    let p = |o: RecvOpView| suits(o, msg);
    first_where_meaning(q.expected_ops, p);
    assert forall|j: int| 0 <= j < q.expected_ops.len() implies p(#[trigger] q.expected_ops[j]) == {
        &&& q.expected_ops[j].tag == msg.tag
        &&& q.expected_ops[j].source is Some && msg.source is Some ==> q.expected_ops[j].source->0
            == (msg.source->0).peer
    } by {
    }
    if arrive_expected(q, msg).1 is Some {
        let i = crate::queues::first_receive(q.expected_ops, msg)->0;
        assert(p(q.expected_ops[i]));
        assert(brings(arrive_expected(q, msg).1->0, q.expected_ops[i], msg));
    }
}

/// A receive for an expected message that gets one at once gets one with its tag. If it names a peer
/// and the sender is known, the two identities are the same, byte for byte; no message that came
/// before could have been for it. Only that message leaves its queue. The receive waits exactly if no
/// message is for it.
pub proof fn law_posted_receive_gets_its_message(q: QueuesView, op: RecvOpView)
    ensures
        post_expected(q, op).1 matches Some(d) ==> exists|i: int|
            {
                &&& 0 <= i < q.expected_stash.len()
                &&& (#[trigger] q.expected_stash[i]).tag == op.tag
                &&& op.source is Some && q.expected_stash[i].source is Some ==> {
                    let named = op.source->0;
                    let sender = (q.expected_stash[i].source->0).peer;
                    &&& named.len() == sender.len()
                    &&& forall|k: int| 0 <= k < named.len() ==> #[trigger] named[k] == sender[k]
                }
                &&& forall|j: int|
                    0 <= j < i ==> {
                        ||| (#[trigger] q.expected_stash[j]).tag != op.tag
                        ||| op.source is Some && q.expected_stash[j].source is Some && op.source->0
                            != (q.expected_stash[j].source->0).peer
                    }
                &&& brings(d, op, q.expected_stash[i])
                &&& post_expected(q, op).0 == (QueuesView {
                    expected_stash: q.expected_stash.remove(i),
                    ..q
                })
            },
        post_expected(q, op).1 is None ==> post_expected(q, op).0 == (QueuesView {
            expected_ops: q.expected_ops.push(op),
            ..q
        }),
        post_expected(q, op).1 is None <==> forall|j: int|
            0 <= j < q.expected_stash.len() ==> {
                ||| (#[trigger] q.expected_stash[j]).tag != op.tag
                ||| op.source is Some && q.expected_stash[j].source is Some && op.source->0 != (
                q.expected_stash[j].source->0).peer
            },
{
    let p = |m: StashView| suits(op, m);
    first_where_meaning(q.expected_stash, p);
    assert forall|j: int| 0 <= j < q.expected_stash.len() implies p(#[trigger] q.expected_stash[j])
        == {
        &&& q.expected_stash[j].tag == op.tag
        &&& op.source is Some && q.expected_stash[j].source is Some ==> op.source->0 == (
        q.expected_stash[j].source->0).peer
    } by {
    }
    if post_expected(q, op).1 is Some {
        let i = crate::queues::first_message(q.expected_stash, op)->0;
        assert(p(q.expected_stash[i]));
        assert(brings(post_expected(q, op).1->0, op, q.expected_stash[i]));
    }
}

/// An unexpected message goes to the receive that was posted first, from whomever it comes and
/// whatever its tag is; if none waits it is held behind those that came before.
pub proof fn law_unexpected_message_goes_to_the_first(q: QueuesView, msg: StashView)
    ensures
        q.unexpected_ops.len() == 0 ==> arrive_unexpected(q, msg) == (
            QueuesView { unexpected_stash: q.unexpected_stash.push(msg), ..q },
            None::<DeliveryView>,
        ),
        q.unexpected_ops.len() > 0 ==> {
            let (after, d) = arrive_unexpected(q, msg);
            &&& after == (QueuesView { unexpected_ops: q.unexpected_ops.drop_first(), ..q })
            &&& d is Some
            &&& brings(d->0, q.unexpected_ops.first(), msg)
        },
        arrive(q, msg, false) == arrive_unexpected(q, msg),
{
    if q.unexpected_ops.len() > 0 {
        assert(q.unexpected_ops.remove(0) =~= q.unexpected_ops.drop_first());
        assert(brings(arrive_unexpected(q, msg).1->0, q.unexpected_ops.first(), msg));
    }
}

/// A receive for an unexpected message gets the message that came first, from whomever it comes and
/// whatever its tag is; if none is held it waits behind those that were posted before.
pub proof fn law_unexpected_receive_gets_the_first(q: QueuesView, op: RecvOpView)
    ensures
        q.unexpected_stash.len() == 0 ==> post_unexpected(q, op) == (
            QueuesView { unexpected_ops: q.unexpected_ops.push(op), ..q },
            None::<DeliveryView>,
        ),
        q.unexpected_stash.len() > 0 ==> {
            let (after, d) = post_unexpected(q, op);
            &&& after == (QueuesView { unexpected_stash: q.unexpected_stash.drop_first(), ..q })
            &&& d is Some
            &&& brings(d->0, op, q.unexpected_stash.first())
        },
{
    if q.unexpected_stash.len() > 0 {
        assert(q.unexpected_stash.remove(0) =~= q.unexpected_stash.drop_first());
        assert(brings(post_unexpected(q, op).1->0, op, q.unexpected_stash.first()));
    }
}

/// A message that is delivered at once and one that is held first bring the receive the same.
pub proof fn law_delivered_brings_the_message(op: RecvOpView, msg: StashView)
    ensures
        brings(delivered(op, msg), op, msg),
{
}

/// The message that comes in has the payload of the wire message, its tag, and the identity that its
/// header names as the sender; no transport address of the sender is known, and it is not this end.
pub proof fn law_incoming_message(h: HeaderView, payload: Seq<u8>)
    ensures
        message_of(h, payload).payload == payload,
        message_of(h, payload).tag == h.tag,
        message_of(h, payload).source is Some,
        (message_of(h, payload).source->0).peer == h.source,
        (message_of(h, payload).source->0).multiaddr is None,
        !(message_of(h, payload).source->0).is_self,
{
}

/// The handle is not among these receives.
pub open spec fn no_receive(ops: Seq<RecvOpView>, op_ptr: usize) -> bool {
    forall|j: int| 0 <= j < ops.len() ==> (#[trigger] ops[j]).op_ptr != op_ptr
}

/// A cancelled operation leaves the queue in which it waits, and the others stay as they were, in
/// their order. The receives for unexpected messages are looked through first, then those for expected
/// messages, then the reads. Messages that are held stay. If it does not wait nothing changes.
pub proof fn law_cancel_takes_one_operation(q: QueuesView, op_ptr: usize)
    ensures
        cancelled(q, op_ptr).1 <==> {
            ||| exists|i: int|
                0 <= i < q.unexpected_ops.len() && (#[trigger] q.unexpected_ops[i]).op_ptr == op_ptr
            ||| exists|i: int|
                0 <= i < q.expected_ops.len() && (#[trigger] q.expected_ops[i]).op_ptr == op_ptr
            ||| exists|i: int| 0 <= i < q.rma_ops.len() && (#[trigger] q.rma_ops[i]).op_ptr == op_ptr
        },
        !cancelled(q, op_ptr).1 ==> cancelled(q, op_ptr).0 == q,
        !no_receive(q.unexpected_ops, op_ptr) ==> exists|i: int|
            {
                &&& 0 <= i < q.unexpected_ops.len()
                &&& (#[trigger] q.unexpected_ops[i]).op_ptr == op_ptr
                &&& no_receive(q.unexpected_ops.take(i), op_ptr)
                &&& cancelled(q, op_ptr).0 == (QueuesView {
                    unexpected_ops: q.unexpected_ops.remove(i),
                    ..q
                })
            },
        no_receive(q.unexpected_ops, op_ptr) && !no_receive(q.expected_ops, op_ptr) ==> exists|i: int|
            {
                &&& 0 <= i < q.expected_ops.len()
                &&& (#[trigger] q.expected_ops[i]).op_ptr == op_ptr
                &&& no_receive(q.expected_ops.take(i), op_ptr)
                &&& cancelled(q, op_ptr).0 == (QueuesView {
                    expected_ops: q.expected_ops.remove(i),
                    ..q
                })
            },
        no_receive(q.unexpected_ops, op_ptr) && no_receive(q.expected_ops, op_ptr) && cancelled(
            q,
            op_ptr,
        ).1 ==> exists|i: int|
            {
                &&& 0 <= i < q.rma_ops.len()
                &&& (#[trigger] q.rma_ops[i]).op_ptr == op_ptr
                &&& forall|j: int| 0 <= j < i ==> (#[trigger] q.rma_ops[j]).op_ptr != op_ptr
                &&& cancelled(q, op_ptr).0 == (QueuesView { rma_ops: q.rma_ops.remove(i), ..q })
            },
{
    let p = |o: RecvOpView| o.op_ptr == op_ptr;
    let r = |o: RmaOp| o.op_ptr == op_ptr;
    first_where_meaning(q.unexpected_ops, p);
    first_where_meaning(q.expected_ops, p);
    first_where_meaning(q.rma_ops, r);
    assert forall|j: int| 0 <= j < q.unexpected_ops.len() implies p(#[trigger] q.unexpected_ops[j])
        == (q.unexpected_ops[j].op_ptr == op_ptr) by {
    }
    assert forall|j: int| 0 <= j < q.expected_ops.len() implies p(#[trigger] q.expected_ops[j]) == (
    q.expected_ops[j].op_ptr == op_ptr) by {
    }
    assert forall|j: int| 0 <= j < q.rma_ops.len() implies r(#[trigger] q.rma_ops[j]) == (
    q.rma_ops[j].op_ptr == op_ptr) by {
    }
    if receive_of(q.unexpected_ops, op_ptr) is Some {
        let i = receive_of(q.unexpected_ops, op_ptr)->0;
        assert(q.unexpected_ops[i].op_ptr == op_ptr);
        assert forall|j: int| 0 <= j < i implies (#[trigger] q.unexpected_ops.take(i)[j]).op_ptr
            != op_ptr by {
            assert(q.unexpected_ops.take(i)[j] == q.unexpected_ops[j]);
        }
    } else if receive_of(q.expected_ops, op_ptr) is Some {
        let i = receive_of(q.expected_ops, op_ptr)->0;
        assert(q.expected_ops[i].op_ptr == op_ptr);
        assert forall|j: int| 0 <= j < i implies (#[trigger] q.expected_ops.take(i)[j]).op_ptr
            != op_ptr by {
            assert(q.expected_ops.take(i)[j] == q.expected_ops[j]);
        }
    } else if read_of(q.rma_ops, op_ptr) is Some {
        assert(q.rma_ops[read_of(q.rma_ops, op_ptr)->0].op_ptr == op_ptr);
    }
}

/// A read of remote memory waits behind those that were posted before it.
pub proof fn law_read_waits_last(q: QueuesView, read: RmaOp)
    ensures
        post_read(q, read) == (QueuesView { rma_ops: q.rma_ops.push(read), ..q }),
{
}

/// Data for a place in local memory finishes the first read that waits for data at exactly that
/// place; the others keep their order. If no read waits for it, nothing changes.
pub proof fn law_answer_takes_the_first_read(q: QueuesView, local_handle_id: u64, local_offset: u64)
    ensures
        answered(q, local_handle_id, local_offset).1 matches Some(op) ==> exists|i: int|
            {
                &&& 0 <= i < q.rma_ops.len()
                &&& #[trigger] q.rma_ops[i] == op
                &&& op.local_handle_id == local_handle_id
                &&& op.local_offset == local_offset
                &&& forall|j: int|
                    0 <= j < i ==> (#[trigger] q.rma_ops[j]).local_handle_id != local_handle_id
                        || q.rma_ops[j].local_offset != local_offset
                &&& answered(q, local_handle_id, local_offset).0 == (QueuesView {
                    rma_ops: q.rma_ops.remove(i),
                    ..q
                })
            },
        answered(q, local_handle_id, local_offset).1 is None ==> {
            &&& answered(q, local_handle_id, local_offset).0 == q
            &&& forall|j: int|
                0 <= j < q.rma_ops.len() ==> (#[trigger] q.rma_ops[j]).local_handle_id
                    != local_handle_id || q.rma_ops[j].local_offset != local_offset
        },
{
    let p = |o: RmaOp| o.local_handle_id == local_handle_id && o.local_offset == local_offset;
    first_where_meaning(q.rma_ops, p);
    assert forall|j: int| 0 <= j < q.rma_ops.len() implies p(#[trigger] q.rma_ops[j]) == (
    q.rma_ops[j].local_handle_id == local_handle_id && q.rma_ops[j].local_offset == local_offset) by {
    }
    if first_read(q.rma_ops, local_handle_id, local_offset) is Some {
        let i = first_read(q.rma_ops, local_handle_id, local_offset)->0;
        assert(p(q.rma_ops[i]));
    }
}

/// At the start nothing waits and nothing is held.
pub proof fn law_queues_start_empty()
    ensures
        nothing_waits().unexpected_ops.len() == 0,
        nothing_waits().expected_ops.len() == 0,
        nothing_waits().unexpected_stash.len() == 0,
        nothing_waits().expected_stash.len() == 0,
        nothing_waits().rma_ops.len() == 0,
{
}

} // verus!
