//! Operations that wait for the network, and messages that wait for a receive.

use crate::addr::{addr_view, AddrView, NaLibp2pAddr};
use crate::command::{CompletionItem, CompletionView, RecvInfo, RecvInfoView};
use crate::peer::{peer_view, PeerId};
use crate::protocol::{HeaderView, WireHeader};
use crate::search::{first_where, first_where_is, first_where_none};
use crate::status::NaReturn;
use std::collections::VecDeque;
use vstd::prelude::*;
use vstd::slice::{slice_subrange, slice_to_vec};

verus! {

/// A receive that waits for its message.
#[derive(Debug, PartialEq, Eq)]
pub struct RecvOp {
    /// The handle of the operation.
    pub op_ptr: usize,
    pub tag: u32,
    /// The peer whose message is wanted; any peer's, if none is named.
    pub source: Option<PeerId>,
    pub buf_size: usize,
    /// Whether there is a buffer at all.
    pub has_buf: bool,
}

/// A receive, as a mathematical value.
pub struct RecvOpView {
    pub op_ptr: usize,
    pub tag: u32,
    pub source: Option<Seq<u8>>,
    pub buf_size: usize,
    pub has_buf: bool,
}

impl View for RecvOp {
    type V = RecvOpView;

    open spec fn view(&self) -> RecvOpView {
        RecvOpView {
            op_ptr: self.op_ptr,
            tag: self.tag,
            source: peer_view(self.source),
            buf_size: self.buf_size,
            has_buf: self.has_buf,
        }
    }
}

/// A read of remote memory that waits for the data.
#[derive(Debug, Clone, Copy, PartialEq, Eq, Structural)]
pub struct RmaOp {
    /// The handle of the operation.
    pub op_ptr: usize,
    pub local_handle_id: u64,
    pub local_offset: u64,
    pub rma_length: usize,
}

/// A message that came before a receive for it was posted.
#[derive(Debug, PartialEq, Eq)]
pub struct StashedMessage {
    pub payload: Vec<u8>,
    pub source_addr: Option<NaLibp2pAddr>,
    pub tag: u32,
}

/// A message, as a mathematical value.
pub struct StashView {
    pub payload: Seq<u8>,
    pub source: Option<AddrView>,
    pub tag: u32,
}

impl View for StashedMessage {
    type V = StashView;

    open spec fn view(&self) -> StashView {
        StashView { payload: self.payload@, source: addr_view(self.source_addr), tag: self.tag }
    }
}

/// What waits.
#[derive(Debug, PartialEq, Eq)]
pub struct OperationQueues {
    pub unexpected_recv_ops: VecDeque<RecvOp>,
    pub expected_recv_ops: VecDeque<RecvOp>,
    pub unexpected_msg_stash: VecDeque<StashedMessage>,
    pub expected_msg_stash: VecDeque<StashedMessage>,
    pub pending_rma_ops: VecDeque<RmaOp>,
}

/// What waits, as a mathematical value; what came first stands first.
#[verifier::ext_equal]
pub struct QueuesView {
    pub unexpected_ops: Seq<RecvOpView>,
    pub expected_ops: Seq<RecvOpView>,
    pub unexpected_stash: Seq<StashView>,
    pub expected_stash: Seq<StashView>,
    pub rma_ops: Seq<RmaOp>,
}

/// The receives that a list stands for.
pub open spec fn op_views(ops: Seq<RecvOp>) -> Seq<RecvOpView> {
    ops.map_values(|o: RecvOp| o@)
}

/// The messages that a list stands for.
pub open spec fn stash_views(msgs: Seq<StashedMessage>) -> Seq<StashView> {
    msgs.map_values(|m: StashedMessage| m@)
}

impl View for OperationQueues {
    type V = QueuesView;

    open spec fn view(&self) -> QueuesView {
        QueuesView {
            unexpected_ops: op_views(self.unexpected_recv_ops@),
            expected_ops: op_views(self.expected_recv_ops@),
            unexpected_stash: stash_views(self.unexpected_msg_stash@),
            expected_stash: stash_views(self.expected_msg_stash@),
            rma_ops: self.pending_rma_ops@,
        }
    }
}

/// A message that has met its receive: what goes into the buffer, and the report.
#[derive(Debug, PartialEq, Eq)]
pub struct Delivery {
    pub data: Vec<u8>,
    pub item: CompletionItem,
}

/// See `Delivery`.
pub struct DeliveryView {
    pub data: Seq<u8>,
    pub item: CompletionView,
}

impl View for Delivery {
    type V = DeliveryView;

    open spec fn view(&self) -> DeliveryView {
        DeliveryView { data: self.data@, item: self.item@ }
    }
}

/// The view of an optional delivery.
pub open spec fn delivery_view(d: Option<Delivery>) -> Option<DeliveryView> {
    match d {
        Some(x) => Some(x@),
        None => None,
    }
}

// ---------------------------------------------------------------------------
//  What happens to the queues
// ---------------------------------------------------------------------------

/// The part of a payload that a receive has room for.
pub open spec fn landed(op: RecvOpView, payload: Seq<u8>) -> Seq<u8> {
    if !op.has_buf {
        Seq::empty()
    } else if payload.len() <= op.buf_size {
        payload
    } else {
        payload.subrange(0, op.buf_size as int)
    }
}

/// A receive meets a message. The report tells the full size of the message even where the buffer
/// was too small for it.
pub open spec fn delivered(op: RecvOpView, msg: StashView) -> DeliveryView {
    DeliveryView {
        data: landed(op, msg.payload),
        item: CompletionView {
            op_ptr: op.op_ptr,
            result: NaReturn::Success,
            recv_info: Some(
                RecvInfoView {
                    actual_size: msg.payload.len() as usize,
                    source: msg.source,
                    tag: msg.tag,
                },
            ),
        },
    }
}

/// An expected message is for a receive with the same tag, if the receive wants that peer's or any
/// peer's messages. A message of unknown origin suits every receive.
pub open spec fn suits(op: RecvOpView, msg: StashView) -> bool {
    &&& op.tag == msg.tag
    &&& match (op.source, msg.source) {
        (Some(wanted), Some(from)) => wanted == from.peer,
        _ => true,
    }
}

/// The first stashed message for a receive.
pub open spec fn first_message(stash: Seq<StashView>, op: RecvOpView) -> Option<int> {
    first_where(stash, |m: StashView| suits(op, m))
}

/// The first receive for a message.
pub open spec fn first_receive(ops: Seq<RecvOpView>, msg: StashView) -> Option<int> {
    first_where(ops, |o: RecvOpView| suits(o, msg))
}

/// A receive for an unexpected message is posted: it gets the oldest stashed message, or waits.
pub open spec fn post_unexpected(q: QueuesView, op: RecvOpView) -> (QueuesView, Option<DeliveryView>) {
    if q.unexpected_stash.len() > 0 {
        (
            QueuesView { unexpected_stash: q.unexpected_stash.remove(0), ..q },
            Some(delivered(op, q.unexpected_stash[0])),
        )
    } else {
        (QueuesView { unexpected_ops: q.unexpected_ops.push(op), ..q }, None)
    }
}

/// A receive for an expected message is posted: it gets the oldest stashed message that suits it, or
/// waits.
pub open spec fn post_expected(q: QueuesView, op: RecvOpView) -> (QueuesView, Option<DeliveryView>) {
    match first_message(q.expected_stash, op) {
        Some(i) => (
            QueuesView { expected_stash: q.expected_stash.remove(i), ..q },
            Some(delivered(op, q.expected_stash[i])),
        ),
        None => (QueuesView { expected_ops: q.expected_ops.push(op), ..q }, None),
    }
}

/// An unexpected message comes in: the oldest receive gets it, or it is stashed.
pub open spec fn arrive_unexpected(q: QueuesView, msg: StashView) -> (
    QueuesView,
    Option<DeliveryView>,
) {
    if q.unexpected_ops.len() > 0 {
        (
            QueuesView { unexpected_ops: q.unexpected_ops.remove(0), ..q },
            Some(delivered(q.unexpected_ops[0], msg)),
        )
    } else {
        (QueuesView { unexpected_stash: q.unexpected_stash.push(msg), ..q }, None)
    }
}

/// An expected message comes in: the oldest receive that it suits gets it, or it is stashed.
pub open spec fn arrive_expected(q: QueuesView, msg: StashView) -> (
    QueuesView,
    Option<DeliveryView>,
) {
    match first_receive(q.expected_ops, msg) {
        Some(i) => (
            QueuesView { expected_ops: q.expected_ops.remove(i), ..q },
            Some(delivered(q.expected_ops[i], msg)),
        ),
        None => (QueuesView { expected_stash: q.expected_stash.push(msg), ..q }, None),
    }
}

/// A message comes in.
pub open spec fn arrive(q: QueuesView, msg: StashView, expected: bool) -> (
    QueuesView,
    Option<DeliveryView>,
) {
    if expected {
        arrive_expected(q, msg)
    } else {
        arrive_unexpected(q, msg)
    }
}

/// The first receive with this handle.
pub open spec fn receive_of(ops: Seq<RecvOpView>, op_ptr: usize) -> Option<int> {
    first_where(ops, |o: RecvOpView| o.op_ptr == op_ptr)
}

/// The first read of remote memory with this handle.
pub open spec fn read_of(ops: Seq<RmaOp>, op_ptr: usize) -> Option<int> {
    first_where(ops, |o: RmaOp| o.op_ptr == op_ptr)
}

/// An operation is cancelled: it leaves the queue in which it waits. The flag says whether it waited
/// at all.
pub open spec fn cancelled(q: QueuesView, op_ptr: usize) -> (QueuesView, bool) {
    match receive_of(q.unexpected_ops, op_ptr) {
        Some(i) => (QueuesView { unexpected_ops: q.unexpected_ops.remove(i), ..q }, true),
        None => match receive_of(q.expected_ops, op_ptr) {
            Some(i) => (QueuesView { expected_ops: q.expected_ops.remove(i), ..q }, true),
            None => match read_of(q.rma_ops, op_ptr) {
                Some(i) => (QueuesView { rma_ops: q.rma_ops.remove(i), ..q }, true),
                None => (q, false),
            },
        },
    }
}

/// The first read of remote memory whose data goes to this place.
pub open spec fn first_read(ops: Seq<RmaOp>, local_handle_id: u64, local_offset: u64) -> Option<int> {
    first_where(
        ops,
        |o: RmaOp| o.local_handle_id == local_handle_id && o.local_offset == local_offset,
    )
}

/// A read of remote memory is posted.
pub open spec fn post_read(q: QueuesView, op: RmaOp) -> QueuesView {
    QueuesView { rma_ops: q.rma_ops.push(op), ..q }
}

/// The data for a read of remote memory comes in: the read leaves the queue, if there is one.
pub open spec fn answered(q: QueuesView, local_handle_id: u64, local_offset: u64) -> (
    QueuesView,
    Option<RmaOp>,
) {
    match first_read(q.rma_ops, local_handle_id, local_offset) {
        Some(i) => (QueuesView { rma_ops: q.rma_ops.remove(i), ..q }, Some(q.rma_ops[i])),
        None => (q, None),
    }
}

/// The message that a header and a payload make. Of its sender only the identity is known.
pub open spec fn message_of(h: HeaderView, payload: Seq<u8>) -> StashView {
    StashView {
        payload,
        source: Some(AddrView { peer: h.source, multiaddr: None, is_self: false }),
        tag: h.tag,
    }
}

// ---------------------------------------------------------------------------
//  The queues at work
// ---------------------------------------------------------------------------

/// Whether a message is for a receive. See `suits`.
fn is_for(op: &RecvOp, msg: &StashedMessage) -> (r: bool)
    ensures
        r == suits(op@, msg@),
{
    if op.tag != msg.tag {
        return false;
    }
    match (&op.source, &msg.source_addr) {
        (Some(wanted), Some(from)) => wanted.same(&from.peer_id),
        _ => true,
    }
}

/// Puts a message into the hands of a receive.
fn deliver(op: &RecvOp, msg: StashedMessage) -> (r: Delivery)
    ensures
        r@ == delivered(op@, msg@),
{
    let size: usize = msg.payload.len();
    let data = if !op.has_buf {
        let d: Vec<u8> = Vec::new();
        assert(d@ == Seq::<u8>::empty());
        d
    } else if size <= op.buf_size {
        let d = slice_to_vec(msg.payload.as_slice());
        assert(d@ == msg.payload@);
        d
    } else {
        slice_to_vec(slice_subrange(msg.payload.as_slice(), 0, op.buf_size))
    };
    Delivery {
        data,
        item: CompletionItem {
            op_ptr: op.op_ptr,
            result: NaReturn::Success,
            recv_info: Some(
                RecvInfo { actual_size: size, source_addr: msg.source_addr, tag: msg.tag },
            ),
        },
    }
}

fn find_message(stash: &VecDeque<StashedMessage>, op: &RecvOp) -> (r: Option<usize>)
    ensures
        (match r {
            Some(i) => Some(i as int),
            None => None,
        }) == first_message(stash_views(stash@), op@),
        r matches Some(i) ==> i < stash@.len(),
{
    let ghost views = stash_views(stash@);
    let ghost p = |m: StashView| suits(op@, m);
    let mut i: usize = 0;
    while i < stash.len()
        invariant
            i <= stash@.len(),
            views == stash_views(stash@),
            p == (|m: StashView| suits(op@, m)),
            forall|j: int| 0 <= j < i ==> !p(#[trigger] views[j]),
        decreases stash@.len() - i,
    {
        assert(views[i as int] == stash@[i as int]@);
        if is_for(op, &stash[i]) {
            proof {
                first_where_is(views, p, i as int);
            }
            return Some(i);
        }
        i += 1;
    }
    proof {
        first_where_none(views, p);
    }
    None
}

fn find_receive(ops: &VecDeque<RecvOp>, msg: &StashedMessage) -> (r: Option<usize>)
    ensures
        (match r {
            Some(i) => Some(i as int),
            None => None,
        }) == first_receive(op_views(ops@), msg@),
        r matches Some(i) ==> i < ops@.len(),
{
    let ghost views = op_views(ops@);
    let ghost p = |o: RecvOpView| suits(o, msg@);
    let mut i: usize = 0;
    while i < ops.len()
        invariant
            i <= ops@.len(),
            views == op_views(ops@),
            p == (|o: RecvOpView| suits(o, msg@)),
            forall|j: int| 0 <= j < i ==> !p(#[trigger] views[j]),
        decreases ops@.len() - i,
    {
        assert(views[i as int] == ops@[i as int]@);
        if is_for(&ops[i], msg) {
            proof {
                first_where_is(views, p, i as int);
            }
            return Some(i);
        }
        i += 1;
    }
    proof {
        first_where_none(views, p);
    }
    None
}

fn find_handle(ops: &VecDeque<RecvOp>, op_ptr: usize) -> (r: Option<usize>)
    ensures
        (match r {
            Some(i) => Some(i as int),
            None => None,
        }) == receive_of(op_views(ops@), op_ptr),
        r matches Some(i) ==> i < ops@.len(),
{
    let ghost views = op_views(ops@);
    let ghost p = |o: RecvOpView| o.op_ptr == op_ptr;
    let mut i: usize = 0;
    while i < ops.len()
        invariant
            i <= ops@.len(),
            views == op_views(ops@),
            p == (|o: RecvOpView| o.op_ptr == op_ptr),
            forall|j: int| 0 <= j < i ==> !p(#[trigger] views[j]),
        decreases ops@.len() - i,
    {
        assert(views[i as int] == ops@[i as int]@);
        if ops[i].op_ptr == op_ptr {
            proof {
                first_where_is(views, p, i as int);
            }
            return Some(i);
        }
        i += 1;
    }
    proof {
        first_where_none(views, p);
    }
    None
}

fn find_read_handle(ops: &VecDeque<RmaOp>, op_ptr: usize) -> (r: Option<usize>)
    ensures
        (match r {
            Some(i) => Some(i as int),
            None => None,
        }) == read_of(ops@, op_ptr),
        r matches Some(i) ==> i < ops@.len(),
{
    let ghost p = |o: RmaOp| o.op_ptr == op_ptr;
    let mut i: usize = 0;
    while i < ops.len()
        invariant
            i <= ops@.len(),
            p == (|o: RmaOp| o.op_ptr == op_ptr),
            forall|j: int| 0 <= j < i ==> !p(#[trigger] ops@[j]),
        decreases ops@.len() - i,
    {
        if ops[i].op_ptr == op_ptr {
            proof {
                first_where_is(ops@, p, i as int);
            }
            return Some(i);
        }
        i += 1;
    }
    proof {
        first_where_none(ops@, p);
    }
    None
}

fn find_read(ops: &VecDeque<RmaOp>, local_handle_id: u64, local_offset: u64) -> (r: Option<usize>)
    ensures
        (match r {
            Some(i) => Some(i as int),
            None => None,
        }) == first_read(ops@, local_handle_id, local_offset),
        r matches Some(i) ==> i < ops@.len(),
{
    let ghost p = |o: RmaOp| o.local_handle_id == local_handle_id && o.local_offset == local_offset;
    let mut i: usize = 0;
    while i < ops.len()
        invariant
            i <= ops@.len(),
            p == (|o: RmaOp| o.local_handle_id == local_handle_id && o.local_offset == local_offset),
            forall|j: int| 0 <= j < i ==> !p(#[trigger] ops@[j]),
        decreases ops@.len() - i,
    {
        if ops[i].local_handle_id == local_handle_id && ops[i].local_offset == local_offset {
            proof {
                first_where_is(ops@, p, i as int);
            }
            return Some(i);
        }
        i += 1;
    }
    proof {
        first_where_none(ops@, p);
    }
    None
}

/// Takes an element out of a queue.
fn take_at<T>(queue: &mut VecDeque<T>, i: usize) -> (r: T)
    requires
        i < old(queue)@.len(),
    ensures
        r == old(queue)@[i as int],
        final(queue)@ == old(queue)@.remove(i as int),
{
    queue.remove(i).unwrap()
}

impl OperationQueues {
    /// Nothing waits.
    pub fn new() -> (r: Self)
        ensures
            r@ == nothing_waits(),
    {
        let r = OperationQueues {
            unexpected_recv_ops: VecDeque::new(),
            expected_recv_ops: VecDeque::new(),
            unexpected_msg_stash: VecDeque::new(),
            expected_msg_stash: VecDeque::new(),
            pending_rma_ops: VecDeque::new(),
        };
        assert(r@ =~= nothing_waits());
        r
    }

    /// Posts a receive for an unexpected message.
    pub fn recv_unexpected(&mut self, op: RecvOp) -> (r: Option<Delivery>)
        ensures
            (final(self)@, delivery_view(r)) == post_unexpected(old(self)@, op@),
    {
        let ghost before = self@;
        if self.unexpected_msg_stash.len() > 0 {
            let msg = take_at(&mut self.unexpected_msg_stash, 0);
            let d = deliver(&op, msg);
            assert(self@ =~= post_unexpected(before, op@).0);
            Some(d)
        } else {
            self.unexpected_recv_ops.push_back(op);
            assert(self@ =~= post_unexpected(before, op@).0);
            None
        }
    }

    /// Posts a receive for an expected message.
    pub fn recv_expected(&mut self, op: RecvOp) -> (r: Option<Delivery>)
        ensures
            (final(self)@, delivery_view(r)) == post_expected(old(self)@, op@),
    {
        let ghost before = self@;
        match find_message(&self.expected_msg_stash, &op) {
            Some(i) => {
                let msg = take_at(&mut self.expected_msg_stash, i);
                let d = deliver(&op, msg);
                assert(self@ =~= post_expected(before, op@).0);
                Some(d)
            },
            None => {
                self.expected_recv_ops.push_back(op);
                assert(self@ =~= post_expected(before, op@).0);
                None
            },
        }
    }

    /// Takes in a message from the network.
    pub fn handle_incoming_msg(
        &mut self,
        header: WireHeader,
        payload: Vec<u8>,
        expected: bool,
    ) -> (r: Option<Delivery>)
        ensures
            (final(self)@, delivery_view(r)) == arrive(
                old(self)@,
                message_of(header@, payload@),
                expected,
            ),
    {
        let ghost before = self@;
        let msg = StashedMessage {
            payload,
            source_addr: Some(
                NaLibp2pAddr {
                    peer_id: header.source_peer_id,
                    multiaddr: None,
                    is_self: false,
                },
            ),
            tag: header.tag,
        };
        assert(msg@ == message_of(header@, payload@));
        if expected {
            match find_receive(&self.expected_recv_ops, &msg) {
                Some(i) => {
                    let op = take_at(&mut self.expected_recv_ops, i);
                    assert(self@ =~= arrive_expected(before, msg@).0);
                    Some(deliver(&op, msg))
                },
                None => {
                    self.expected_msg_stash.push_back(msg);
                    assert(self@ =~= arrive_expected(before, msg@).0);
                    None
                },
            }
        } else if self.unexpected_recv_ops.len() > 0 {
            let op = take_at(&mut self.unexpected_recv_ops, 0);
            assert(self@ =~= arrive_unexpected(before, msg@).0);
            Some(deliver(&op, msg))
        } else {
            self.unexpected_msg_stash.push_back(msg);
            assert(self@ =~= arrive_unexpected(before, msg@).0);
            None
        }
    }

    /// Cancels an operation, if it waits: it is then to be completed as cancelled.
    pub fn cancel(&mut self, op_ptr: usize) -> (r: bool)
        ensures
            (final(self)@, r) == cancelled(old(self)@, op_ptr),
    {
        let ghost before = self@;
        if let Some(i) = find_handle(&self.unexpected_recv_ops, op_ptr) {
            let _ = take_at(&mut self.unexpected_recv_ops, i);
            assert(self@ =~= cancelled(before, op_ptr).0);
            return true;
        }
        if let Some(i) = find_handle(&self.expected_recv_ops, op_ptr) {
            let _ = take_at(&mut self.expected_recv_ops, i);
            assert(self@ =~= cancelled(before, op_ptr).0);
            return true;
        }
        if let Some(i) = find_read_handle(&self.pending_rma_ops, op_ptr) {
            let _ = take_at(&mut self.pending_rma_ops, i);
            assert(self@ =~= cancelled(before, op_ptr).0);
            return true;
        }
        false
    }

    /// Posts a read of remote memory.
    pub fn post_rma(&mut self, op: RmaOp)
        ensures
            final(self)@ == post_read(old(self)@, op),
    {
        let ghost before = self@;
        self.pending_rma_ops.push_back(op);
        assert(self@ =~= post_read(before, op));
    }

    /// Takes out the read of remote memory whose data goes to this place.
    pub fn take_rma(&mut self, local_handle_id: u64, local_offset: u64) -> (r: Option<RmaOp>)
        ensures
            (final(self)@, r) == answered(old(self)@, local_handle_id, local_offset),
    {
        let ghost before = self@;
        match find_read(&self.pending_rma_ops, local_handle_id, local_offset) {
            Some(i) => {
                let op = take_at(&mut self.pending_rma_ops, i);
                assert(self@ =~= answered(before, local_handle_id, local_offset).0);
                Some(op)
            },
            None => None,
        }
    }
}

/// Queues in which nothing waits.
pub open spec fn nothing_waits() -> QueuesView {
    QueuesView {
        unexpected_ops: Seq::empty(),
        expected_ops: Seq::empty(),
        unexpected_stash: Seq::empty(),
        expected_stash: Seq::empty(),
        rma_ops: Seq::empty(),
    }
}

} // verus!
