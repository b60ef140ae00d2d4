//! What holds of the queues whatever happens to them.

use crate::queues::{
    answered, arrive, arrive_expected, arrive_unexpected, cancelled, delivered, first_message,
    first_read, first_receive, nothing_waits, post_expected, post_read, post_unexpected, read_of,
    receive_of, suits, DeliveryView, QueuesView, RecvOpView, RmaOp, StashView,
};
use crate::search::{first_where_is, first_where_meaning};
use vstd::multiset::Multiset;
use vstd::prelude::*;

verus! {

/// No receive waits while a message for it is stashed.
pub open spec fn settled(q: QueuesView) -> bool {
    &&& q.unexpected_ops.len() == 0 || q.unexpected_stash.len() == 0
    &&& forall|i: int, j: int|
        0 <= i < q.expected_ops.len() && 0 <= j < q.expected_stash.len() ==> !suits(
            #[trigger] q.expected_ops[i],
            #[trigger] q.expected_stash[j],
        )
}

/// Queues start settled and stay so, whatever happens to them.
pub proof fn law_queues_stay_settled(
    q: QueuesView,
    op: RecvOpView,
    msg: StashView,
    expected: bool,
    read: RmaOp,
    op_ptr: usize,
    local_handle_id: u64,
    local_offset: u64,
)
    requires
        settled(q),
    ensures
        settled(nothing_waits()),
        settled(post_unexpected(q, op).0),
        settled(post_expected(q, op).0),
        settled(arrive(q, msg, expected).0),
        settled(cancelled(q, op_ptr).0),
        settled(post_read(q, read)),
        settled(answered(q, local_handle_id, local_offset).0),
{
    first_where_meaning(q.expected_stash, |m: StashView| suits(op, m));
    first_where_meaning(q.expected_ops, |o: RecvOpView| suits(o, msg));
    first_where_meaning(q.unexpected_ops, |o: RecvOpView| o.op_ptr == op_ptr);
    first_where_meaning(q.expected_ops, |o: RecvOpView| o.op_ptr == op_ptr);
    let after = post_expected(q, op).0;
    assert forall|i: int, j: int|
        0 <= i < after.expected_ops.len() && 0 <= j < after.expected_stash.len() implies !suits(
        #[trigger] after.expected_ops[i],
        #[trigger] after.expected_stash[j],
    ) by {
        match first_message(q.expected_stash, op) {
            Some(k) => {
                let l = if j < k {
                    j
                } else {
                    j + 1
                };
                assert(after.expected_stash[j] == q.expected_stash[l]);
            },
            None => {
                if i == q.expected_ops.len() {
                    let p = |m: StashView| suits(op, m);
                    assert(!p(q.expected_stash[j]));
                }
            },
        }
    }
    let after = arrive_expected(q, msg).0;
    assert forall|i: int, j: int|
        0 <= i < after.expected_ops.len() && 0 <= j < after.expected_stash.len() implies !suits(
        #[trigger] after.expected_ops[i],
        #[trigger] after.expected_stash[j],
    ) by {
        match first_receive(q.expected_ops, msg) {
            Some(k) => {
                let l = if i < k {
                    i
                } else {
                    i + 1
                };
                assert(after.expected_ops[i] == q.expected_ops[l]);
            },
            None => {
                if j == q.expected_stash.len() {
                    let p = |o: RecvOpView| suits(o, msg);
                    assert(!p(q.expected_ops[i]));
                }
            },
        }
    }
    let after = cancelled(q, op_ptr).0;
    assert forall|i: int, j: int|
        0 <= i < after.expected_ops.len() && 0 <= j < after.expected_stash.len() implies !suits(
        #[trigger] after.expected_ops[i],
        #[trigger] after.expected_stash[j],
    ) by {
        if after.expected_ops.len() < q.expected_ops.len() {
            let k = receive_of(q.expected_ops, op_ptr)->0;
            let l = if i < k {
                i
            } else {
                i + 1
            };
            assert(after.expected_ops[i] == q.expected_ops[l]);
        }
    }
}

// ---------------------------------------------------------------------------
//  Nothing is lost, nothing happens twice
// ---------------------------------------------------------------------------

/// The handles of receives.
pub open spec fn receive_handles(ops: Seq<RecvOpView>) -> Seq<usize> {
    ops.map_values(|o: RecvOpView| o.op_ptr)
}

/// The handles of reads.
pub open spec fn read_handles(ops: Seq<RmaOp>) -> Seq<usize> {
    ops.map_values(|o: RmaOp| o.op_ptr)
}

/// The handles of all operations that wait.
pub open spec fn pending(q: QueuesView) -> Multiset<usize> {
    receive_handles(q.unexpected_ops).to_multiset().add(
        receive_handles(q.expected_ops).to_multiset(),
    ).add(read_handles(q.rma_ops).to_multiset())
}

/// All messages that wait.
pub open spec fn held(q: QueuesView) -> Multiset<StashView> {
    q.unexpected_stash.to_multiset().add(q.expected_stash.to_multiset())
}

proof fn removed_receive(ops: Seq<RecvOpView>, i: int)
    requires
        0 <= i < ops.len(),
    ensures
        receive_handles(ops.remove(i)).to_multiset() == receive_handles(ops).to_multiset().remove(
            ops[i].op_ptr,
        ),
        receive_handles(ops).to_multiset().contains(ops[i].op_ptr),
{
    broadcast use vstd::seq_lib::group_to_multiset_ensures;

    assert(receive_handles(ops.remove(i)) == receive_handles(ops).remove(i));
    assert(receive_handles(ops)[i] == ops[i].op_ptr);
    assert(receive_handles(ops).contains(ops[i].op_ptr));
}

proof fn removed_read(ops: Seq<RmaOp>, i: int)
    requires
        0 <= i < ops.len(),
    ensures
        read_handles(ops.remove(i)).to_multiset() == read_handles(ops).to_multiset().remove(
            ops[i].op_ptr,
        ),
        read_handles(ops).to_multiset().contains(ops[i].op_ptr),
{
    broadcast use vstd::seq_lib::group_to_multiset_ensures;

    assert(read_handles(ops.remove(i)) == read_handles(ops).remove(i));
    assert(read_handles(ops)[i] == ops[i].op_ptr);
    assert(read_handles(ops).contains(ops[i].op_ptr));
}

proof fn added_receive(ops: Seq<RecvOpView>, op: RecvOpView)
    ensures
        receive_handles(ops.push(op)).to_multiset() == receive_handles(ops).to_multiset().insert(
            op.op_ptr,
        ),
{
    broadcast use vstd::seq_lib::group_to_multiset_ensures;

    assert(receive_handles(ops.push(op)) == receive_handles(ops).push(op.op_ptr));
}

proof fn removed_message(stash: Seq<StashView>, i: int)
    requires
        0 <= i < stash.len(),
    ensures
        stash.remove(i).to_multiset() == stash.to_multiset().remove(stash[i]),
        stash.to_multiset().contains(stash[i]),
{
    broadcast use vstd::seq_lib::group_to_multiset_ensures;

    assert(stash.contains(stash[i]));
}

/// A posted receive is either served at once, by exactly one of the messages that are held, which is
/// then held no more, or it waits.
pub proof fn law_post_keeps_account(q: QueuesView, op: RecvOpView, expected: bool)
    ensures
        ({
            let (after, d) = if expected {
                post_expected(q, op)
            } else {
                post_unexpected(q, op)
            };
            match d {
                Some(delivery) => {
                    &&& pending(after) == pending(q)
                    &&& exists|m: StashView|
                        {
                            &&& #[trigger] held(q).contains(m)
                            &&& held(after) == held(q).remove(m)
                            &&& delivery == delivered(op, m)
                        }
                },
                None => {
                    &&& pending(after) == pending(q).insert(op.op_ptr)
                    &&& held(after) == held(q)
                },
            }
        }),
{
    added_receive(q.unexpected_ops, op);
    added_receive(q.expected_ops, op);
    if expected {
        first_where_meaning(q.expected_stash, |m: StashView| suits(op, m));
        match first_message(q.expected_stash, op) {
            Some(i) => {
                removed_message(q.expected_stash, i);
                let m = q.expected_stash[i];
                assert(held(q).contains(m));
                assert(held(post_expected(q, op).0) =~= held(q).remove(m));
            },
            None => {
                assert(pending(post_expected(q, op).0) =~= pending(q).insert(op.op_ptr));
            },
        }
    } else {
        if q.unexpected_stash.len() > 0 {
            removed_message(q.unexpected_stash, 0);
            let m = q.unexpected_stash[0];
            assert(held(q).contains(m));
            assert(held(post_unexpected(q, op).0) =~= held(q).remove(m));
        } else {
            assert(pending(post_unexpected(q, op).0) =~= pending(q).insert(op.op_ptr));
        }
    }
}

/// A message that comes in either completes exactly one of the operations that wait, which then
/// waits no more, or it is held.
pub proof fn law_arrival_keeps_account(q: QueuesView, msg: StashView, expected: bool)
    ensures
        ({
            let (after, d) = arrive(q, msg, expected);
            match d {
                Some(delivery) => {
                    &&& pending(q).contains(delivery.item.op_ptr)
                    &&& pending(after) == pending(q).remove(delivery.item.op_ptr)
                    &&& held(after) == held(q)
                },
                None => {
                    &&& pending(after) == pending(q)
                    &&& held(after) == held(q).insert(msg)
                },
            }
        }),
{
    broadcast use vstd::seq_lib::group_to_multiset_ensures;

    let after = arrive(q, msg, expected).0;
    if expected {
        first_where_meaning(q.expected_ops, |o: RecvOpView| suits(o, msg));
        match first_receive(q.expected_ops, msg) {
            Some(i) => {
                removed_receive(q.expected_ops, i);
                assert(pending(after) =~= pending(q).remove(q.expected_ops[i].op_ptr));
            },
            None => {
                assert(held(after) =~= held(q).insert(msg));
            },
        }
    } else {
        if q.unexpected_ops.len() > 0 {
            removed_receive(q.unexpected_ops, 0);
            assert(pending(after) =~= pending(q).remove(q.unexpected_ops[0].op_ptr));
        } else {
            assert(held(after) =~= held(q).insert(msg));
        }
    }
}

proof fn absent_receive(ops: Seq<RecvOpView>, op_ptr: usize)
    requires
        receive_of(ops, op_ptr) is None,
    ensures
        !receive_handles(ops).to_multiset().contains(op_ptr),
{
    broadcast use vstd::seq_lib::group_to_multiset_ensures;

    let p = |o: RecvOpView| o.op_ptr == op_ptr;
    first_where_meaning(ops, p);
    let hs = receive_handles(ops);
    if hs.contains(op_ptr) {
        let i = choose|i: int| 0 <= i < hs.len() && hs[i] == op_ptr;
        assert(p(ops[i]));
    }
}

proof fn absent_read(ops: Seq<RmaOp>, op_ptr: usize)
    requires
        read_of(ops, op_ptr) is None,
    ensures
        !read_handles(ops).to_multiset().contains(op_ptr),
{
    broadcast use vstd::seq_lib::group_to_multiset_ensures;

    let p = |o: RmaOp| o.op_ptr == op_ptr;
    first_where_meaning(ops, p);
    let hs = read_handles(ops);
    if hs.contains(op_ptr) {
        let i = choose|i: int| 0 <= i < hs.len() && hs[i] == op_ptr;
        assert(p(ops[i]));
    }
}

/// Cancelling takes exactly the named operation out, if it waits, and does nothing otherwise. No
/// message is touched.
pub proof fn law_cancel_keeps_account(q: QueuesView, op_ptr: usize)
    ensures
        ({
            let (after, found) = cancelled(q, op_ptr);
            &&& found == pending(q).contains(op_ptr)
            &&& found ==> pending(after) == pending(q).remove(op_ptr)
            &&& !found ==> after == q
            &&& held(after) == held(q)
        }),
{
    let after = cancelled(q, op_ptr).0;
    first_where_meaning(q.unexpected_ops, |o: RecvOpView| o.op_ptr == op_ptr);
    first_where_meaning(q.expected_ops, |o: RecvOpView| o.op_ptr == op_ptr);
    first_where_meaning(q.rma_ops, |o: RmaOp| o.op_ptr == op_ptr);
    match receive_of(q.unexpected_ops, op_ptr) {
        Some(i) => {
            removed_receive(q.unexpected_ops, i);
            assert(pending(after) =~= pending(q).remove(op_ptr));
        },
        None => match receive_of(q.expected_ops, op_ptr) {
            Some(i) => {
                removed_receive(q.expected_ops, i);
                assert(pending(after) =~= pending(q).remove(op_ptr));
            },
            None => match read_of(q.rma_ops, op_ptr) {
                Some(i) => {
                    removed_read(q.rma_ops, i);
                    assert(pending(after) =~= pending(q).remove(op_ptr));
                },
                None => {
                    absent_receive(q.unexpected_ops, op_ptr);
                    absent_receive(q.expected_ops, op_ptr);
                    absent_read(q.rma_ops, op_ptr);
                },
            },
        },
    }
}

/// Where each handle is used once, an operation that was cancelled does not wait any more; no
/// message can complete it afterwards.
pub proof fn law_cancelled_is_gone(q: QueuesView, op_ptr: usize, msg: StashView, expected: bool)
    requires
        pending(q).count(op_ptr) <= 1,
    ensures
        ({
            let after = cancelled(q, op_ptr).0;
            &&& !pending(after).contains(op_ptr)
            &&& cancelled(after, op_ptr) == (after, false)
            &&& arrive(after, msg, expected).1 matches Some(d) ==> d.item.op_ptr != op_ptr
        }),
{
    let after = cancelled(q, op_ptr).0;
    law_cancel_keeps_account(q, op_ptr);
    law_cancel_keeps_account(after, op_ptr);
    law_arrival_keeps_account(after, msg, expected);
}

/// A read of remote memory that is posted waits; the answer for its place completes exactly one of
/// the reads that wait for data at that place.
pub proof fn law_reads_keep_account(q: QueuesView, read: RmaOp, local_handle_id: u64, local_offset: u64)
    ensures
        pending(post_read(q, read)) == pending(q).insert(read.op_ptr),
        ({
            let (after, done) = answered(q, local_handle_id, local_offset);
            match done {
                Some(op) => {
                    &&& op.local_handle_id == local_handle_id
                    &&& op.local_offset == local_offset
                    &&& pending(q).contains(op.op_ptr)
                    &&& pending(after) == pending(q).remove(op.op_ptr)
                },
                None => after == q,
            }
        }),
        held(post_read(q, read)) == held(q),
        held(answered(q, local_handle_id, local_offset).0) == held(q),
{
    broadcast use vstd::seq_lib::group_to_multiset_ensures;

    assert(read_handles(q.rma_ops.push(read)) == read_handles(q.rma_ops).push(read.op_ptr));
    assert(pending(post_read(q, read)) =~= pending(q).insert(read.op_ptr));
    first_where_meaning(
        q.rma_ops,
        |o: RmaOp| o.local_handle_id == local_handle_id && o.local_offset == local_offset,
    );
    match first_read(q.rma_ops, local_handle_id, local_offset) {
        Some(i) => {
            removed_read(q.rma_ops, i);
            let after = answered(q, local_handle_id, local_offset).0;
            assert(pending(after) =~= pending(q).remove(q.rma_ops[i].op_ptr));
        },
        None => {},
    }
}

/// The answer for a place finishes the read that was posted for it, if none was waiting there before,
/// and leaves the queues as they were before the read was posted.
pub proof fn law_answer_finds_its_read(q: QueuesView, read: RmaOp)
    requires
        first_read(q.rma_ops, read.local_handle_id, read.local_offset) is None,
    ensures
        answered(post_read(q, read), read.local_handle_id, read.local_offset) == (q, Some(read)),
{
    let p = |o: RmaOp|
        o.local_handle_id == read.local_handle_id && o.local_offset == read.local_offset;
    first_where_meaning(q.rma_ops, p);
    let more = q.rma_ops.push(read);
    assert forall|j: int| 0 <= j < q.rma_ops.len() implies !p(#[trigger] more[j]) by {
        assert(more[j] == q.rma_ops[j]);
    }
    first_where_is(more, p, q.rma_ops.len() as int);
    assert(more.remove(q.rma_ops.len() as int) == q.rma_ops);
    assert(answered(post_read(q, read), read.local_handle_id, read.local_offset).0 =~= q);
}

proof fn last_of_handle(ops: Seq<RecvOpView>, op: RecvOpView)
    requires
        receive_of(ops, op.op_ptr) is None,
    ensures
        receive_of(ops.push(op), op.op_ptr) == Some(ops.len() as int),
        ops.push(op).remove(ops.len() as int) == ops,
{
    let p = |o: RecvOpView| o.op_ptr == op.op_ptr;
    first_where_meaning(ops, p);
    let more = ops.push(op);
    assert forall|j: int| 0 <= j < ops.len() implies !p(#[trigger] more[j]) by {
        assert(more[j] == ops[j]);
    }
    first_where_is(more, p, ops.len() as int);
}

/// Cancelling an operation that has just been posted and waits leaves the queues as they were before
/// it was posted.
pub proof fn law_cancel_undoes_post(q: QueuesView, op: RecvOpView, read: RmaOp)
    requires
        !pending(q).contains(op.op_ptr),
        !pending(q).contains(read.op_ptr),
    ensures
        post_unexpected(q, op).1 is None ==> cancelled(post_unexpected(q, op).0, op.op_ptr) == (
            q,
            true,
        ),
        post_expected(q, op).1 is None ==> cancelled(post_expected(q, op).0, op.op_ptr) == (q, true),
        cancelled(post_read(q, read), read.op_ptr) == (q, true),
{
    law_cancel_keeps_account(q, op.op_ptr);
    law_cancel_keeps_account(q, read.op_ptr);
    assert(receive_of(q.unexpected_ops, op.op_ptr) is None);
    assert(receive_of(q.expected_ops, op.op_ptr) is None);
    last_of_handle(q.unexpected_ops, op);
    last_of_handle(q.expected_ops, op);
    assert(cancelled(post_unexpected(q, op).0, op.op_ptr).0 =~= q || post_unexpected(q, op).1 is Some);
    assert(cancelled(post_expected(q, op).0, op.op_ptr).0 =~= q || post_expected(q, op).1 is Some);
    let p = |o: RmaOp| o.op_ptr == read.op_ptr;
    first_where_meaning(q.rma_ops, p);
    let more = q.rma_ops.push(read);
    assert forall|j: int| 0 <= j < q.rma_ops.len() implies !p(#[trigger] more[j]) by {
        assert(more[j] == q.rma_ops[j]);
    }
    first_where_is(more, p, q.rma_ops.len() as int);
    assert(more.remove(q.rma_ops.len() as int) == q.rma_ops);
    assert(cancelled(post_read(q, read), read.op_ptr).0 =~= q);
}

// ---------------------------------------------------------------------------
//  Order
// ---------------------------------------------------------------------------

/// It makes no difference whether a receive is posted before or after its message comes in: the
/// same is delivered, and the queues are as before.
pub proof fn law_either_order(q: QueuesView, op: RecvOpView, msg: StashView)
    ensures
        q.unexpected_ops.len() == 0 && q.unexpected_stash.len() == 0 ==> {
            &&& arrive_unexpected(post_unexpected(q, op).0, msg) == (q, Some(delivered(op, msg)))
            &&& post_unexpected(arrive_unexpected(q, msg).0, op) == (q, Some(delivered(op, msg)))
        },
        suits(op, msg) && first_receive(q.expected_ops, msg) is None && first_message(
            q.expected_stash,
            op,
        ) is None ==> {
            &&& arrive_expected(post_expected(q, op).0, msg) == (q, Some(delivered(op, msg)))
            &&& post_expected(arrive_expected(q, msg).0, op) == (q, Some(delivered(op, msg)))
        },
{
    if q.unexpected_ops.len() == 0 && q.unexpected_stash.len() == 0 {
        assert(arrive_unexpected(post_unexpected(q, op).0, msg).0 =~= q);
        assert(post_unexpected(arrive_unexpected(q, msg).0, op).0 =~= q);
    }
    if suits(op, msg) && first_receive(q.expected_ops, msg) is None && first_message(
        q.expected_stash,
        op,
    ) is None {
        let p = |o: RecvOpView| suits(o, msg);
        first_where_meaning(q.expected_ops, p);
        let ops = q.expected_ops.push(op);
        assert forall|j: int| 0 <= j < q.expected_ops.len() implies !p(#[trigger] ops[j]) by {
            assert(ops[j] == q.expected_ops[j]);
        }
        first_where_is(ops, p, q.expected_ops.len() as int);
        assert(ops.remove(q.expected_ops.len() as int) == q.expected_ops);
        assert(arrive_expected(post_expected(q, op).0, msg).0 =~= q);
        let r = |m: StashView| suits(op, m);
        first_where_meaning(q.expected_stash, r);
        let stash = q.expected_stash.push(msg);
        assert forall|j: int| 0 <= j < q.expected_stash.len() implies !r(#[trigger] stash[j]) by {
            assert(stash[j] == q.expected_stash[j]);
        }
        first_where_is(stash, r, q.expected_stash.len() as int);
        assert(stash.remove(q.expected_stash.len() as int) == q.expected_stash);
        assert(post_expected(arrive_expected(q, msg).0, op).0 =~= q);
    }
}

/// What can happen around unexpected messages.
pub enum UnexpectedEvent {
    Post(RecvOpView),
    Arrive(StashView),
}

/// The queues after some events.
pub open spec fn queues_after(events: Seq<UnexpectedEvent>) -> QueuesView
    decreases events.len(),
{
    if events.len() == 0 {
        nothing_waits()
    } else {
        let before = queues_after(events.drop_last());
        match events.last() {
            UnexpectedEvent::Post(op) => post_unexpected(before, op).0,
            UnexpectedEvent::Arrive(msg) => arrive_unexpected(before, msg).0,
        }
    }
}

/// What was delivered in the course of some events, in order.
pub open spec fn deliveries(events: Seq<UnexpectedEvent>) -> Seq<DeliveryView>
    decreases events.len(),
{
    if events.len() == 0 {
        Seq::empty()
    } else {
        let before = queues_after(events.drop_last());
        let d = match events.last() {
            UnexpectedEvent::Post(op) => post_unexpected(before, op).1,
            UnexpectedEvent::Arrive(msg) => arrive_unexpected(before, msg).1,
        };
        match d {
            Some(delivery) => deliveries(events.drop_last()).push(delivery),
            None => deliveries(events.drop_last()),
        }
    }
}

/// The receives that were posted, in order.
pub open spec fn posted(events: Seq<UnexpectedEvent>) -> Seq<RecvOpView>
    decreases events.len(),
{
    if events.len() == 0 {
        Seq::empty()
    } else {
        match events.last() {
            UnexpectedEvent::Post(op) => posted(events.drop_last()).push(op),
            UnexpectedEvent::Arrive(_) => posted(events.drop_last()),
        }
    }
}

/// The messages that came in, in order.
pub open spec fn arrived(events: Seq<UnexpectedEvent>) -> Seq<StashView>
    decreases events.len(),
{
    if events.len() == 0 {
        Seq::empty()
    } else {
        match events.last() {
            UnexpectedEvent::Post(_) => arrived(events.drop_last()),
            UnexpectedEvent::Arrive(msg) => arrived(events.drop_last()).push(msg),
        }
    }
}

/// Unexpected messages are matched first come, first served, however receives and messages
/// interleave: the first receive gets the first message, the second the second, and so on, as far
/// as there are both; what is left over waits, in order.
pub proof fn law_first_come_first_served(events: Seq<UnexpectedEvent>)
    ensures
        ({
            let ops = posted(events);
            let msgs = arrived(events);
            let n = if ops.len() <= msgs.len() {
                ops.len()
            } else {
                msgs.len()
            } as int;
            &&& deliveries(events) == Seq::new(n as nat, |i: int| delivered(ops[i], msgs[i]))
            &&& queues_after(events).unexpected_ops == ops.subrange(n, ops.len() as int)
            &&& queues_after(events).unexpected_stash == msgs.subrange(n, msgs.len() as int)
        }),
    decreases events.len(),
{
    if events.len() > 0 {
        law_first_come_first_served(events.drop_last());
        let ops = posted(events.drop_last());
        let msgs = arrived(events.drop_last());
        let before = queues_after(events.drop_last());
        match events.last() {
            UnexpectedEvent::Post(op) => {
                if ops.len() < msgs.len() {
                    assert(before.unexpected_stash[0] == msgs[ops.len() as int]);
                }
            },
            UnexpectedEvent::Arrive(msg) => {
                if msgs.len() < ops.len() {
                    assert(before.unexpected_ops[0] == ops[msgs.len() as int]);
                }
            },
        }
    }
}

/// Among the receives that an expected message suits, the one posted first gets it; among the
/// messages that suit a receive, it gets the one that came first.
pub proof fn law_oldest_match_wins(q: QueuesView, op: RecvOpView, msg: StashView)
    ensures
        arrive_expected(q, msg).1 matches Some(d) ==> exists|i: int|
            {
                &&& 0 <= i < q.expected_ops.len()
                &&& suits(#[trigger] q.expected_ops[i], msg)
                &&& d == delivered(q.expected_ops[i], msg)
                &&& forall|j: int| 0 <= j < i ==> !suits(#[trigger] q.expected_ops[j], msg)
            },
        arrive_expected(q, msg).1 is None ==> forall|j: int|
            0 <= j < q.expected_ops.len() ==> !suits(#[trigger] q.expected_ops[j], msg),
        post_expected(q, op).1 matches Some(d) ==> exists|i: int|
            {
                &&& 0 <= i < q.expected_stash.len()
                &&& suits(op, #[trigger] q.expected_stash[i])
                &&& d == delivered(op, q.expected_stash[i])
                &&& forall|j: int| 0 <= j < i ==> !suits(op, #[trigger] q.expected_stash[j])
            },
        post_expected(q, op).1 is None ==> forall|j: int|
            0 <= j < q.expected_stash.len() ==> !suits(op, #[trigger] q.expected_stash[j]),
{
    let p = |o: RecvOpView| suits(o, msg);
    let r = |m: StashView| suits(op, m);
    first_where_meaning(q.expected_ops, p);
    first_where_meaning(q.expected_stash, r);
    assert forall|j: int| 0 <= j < q.expected_ops.len() implies p(#[trigger] q.expected_ops[j])
        == suits(q.expected_ops[j], msg) by {
    }
    assert forall|j: int| 0 <= j < q.expected_stash.len() implies r(#[trigger] q.expected_stash[j])
        == suits(op, q.expected_stash[j]) by {
    }
}

} // verus!
