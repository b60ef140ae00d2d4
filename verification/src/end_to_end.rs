//! What one peer asks for happens at the other.

use crate::command::CommandView;
use crate::mem::{
    contents_at, get_response, law_get_brings_remote_contents, law_read_gives_back_written,
    overwritten, place_of, reply_to, write_at, LocalWriteView, RegistryView, ReplyView,
};
use crate::peer::valid_peer_id;
use crate::protocol::{
    law_read_gives_back_write, read_as, wire_bytes, MessageType, MessageView, Reading,
};
use crate::queue_laws::{law_answer_finds_its_read, law_either_order};
use crate::queues::{
    answered, arrive, delivered, first_message, first_read, first_receive, message_of, post_expected,
    post_read, post_unexpected, QueuesView, RecvOpView, RmaOp,
};
use crate::swarm::{law_sent_is_read, outbound, route_of, Route};
use vstd::prelude::*;

verus! {

/// The message stands at the start of what a stream holds, with `rest` behind it.
pub open spec fn comes_through(m: MessageView, rest: Seq<u8>) -> bool {
    read_as(wire_bytes(m.header, m.payload) + rest) == (Reading::Message {
        header: m.header,
        payload: m.payload,
        rest,
    })
}

/// A message that a peer sends comes through, and the receive that was posted for it gets its
/// payload, as far as there is room, with its size, its tag and its sender.
pub proof fn law_message_reaches_its_receive(
    c: CommandView,
    rest: Seq<u8>,
    q: QueuesView,
    op: RecvOpView,
)
    requires
        c is SendMessage,
        valid_peer_id(c->SendMessage_source),
        c->SendMessage_payload.len() <= u32::MAX,
        c->SendMessage_msg_type == MessageType::Unexpected || c->SendMessage_msg_type
            == MessageType::Expected,
        c->SendMessage_msg_type == MessageType::Unexpected ==> q.unexpected_ops.len() == 0
            && q.unexpected_stash.len() == 0,
        c->SendMessage_msg_type == MessageType::Expected ==> {
            let m = message_of((outbound(c)->0).header, c->SendMessage_payload);
            &&& op.tag == c->SendMessage_tag
            &&& op.source matches Some(p) ==> p == c->SendMessage_source
            &&& first_receive(q.expected_ops, m) is None
            &&& first_message(q.expected_stash, op) is None
        },
    ensures
        ({
            let m = outbound(c)->0;
            let expected = c->SendMessage_msg_type == MessageType::Expected;
            let waiting = if expected {
                post_expected(q, op).0
            } else {
                post_unexpected(q, op).0
            };
            let msg = message_of(m.header, m.payload);
            &&& comes_through(m, rest)
            &&& route_of(m.header.msg_type) == (Route::Receive { expected })
            &&& arrive(waiting, msg, expected) == (q, Some(delivered(op, msg)))
            &&& msg.payload == c->SendMessage_payload
            &&& msg.tag == c->SendMessage_tag
            &&& (msg.source->0).peer == c->SendMessage_source
        }),
{
    law_sent_is_read(c, rest);
    let m = outbound(c)->0;
    law_either_order(q, op, message_of(m.header, m.payload));
}

/// Data that a peer writes to remote memory comes through, and the memory then holds it at the place
/// that was named; elsewhere it is as it was.
pub proof fn law_put_reaches_the_memory(c: CommandView, rest: Seq<u8>, mem: Seq<u8>)
    requires
        c is RmaPut,
        valid_peer_id(c->RmaPut_source),
        c->data.len() <= u32::MAX,
        mem.len() <= usize::MAX,
        c->RmaPut_remote_offset + c->data.len() <= mem.len(),
    ensures
        ({
            let m = outbound(c)->0;
            let at = c->RmaPut_remote_offset as int;
            let after = overwritten(mem, m.header.offset as usize as int, m.payload);
            &&& comes_through(m, rest)
            &&& route_of(m.header.msg_type) == Route::Put
            &&& m.header.handle_id == c->RmaPut_remote_handle_id
            &&& contents_at(after, at, c->data.len()) == c->data
            &&& forall|i: int|
                0 <= i < mem.len() && !(at <= i < at + c->data.len()) ==> #[trigger] after[i] == mem[i]
        }),
{
    law_sent_is_read(c, rest);
    law_read_gives_back_written(mem, c->RmaPut_remote_offset as int, c->data);
}

/// A read of remote memory comes through, as does the answer, which goes to the peer that asked. The
/// answer finishes the read that waits for it; it is written to the local memory that was named, and
/// that then holds the remote contents at the place that was named.
pub proof fn law_get_fetches_the_memory(
    c: CommandView,
    q: QueuesView,
    remote_registry: RegistryView,
    remote: Seq<u8>,
    local_registry: RegistryView,
    local: Seq<u8>,
    remote_peer: Seq<u8>,
    rest: Seq<u8>,
)
    requires
        c is RmaGetRequest,
        valid_peer_id(c->RmaGetRequest_source),
        valid_peer_id(remote_peer),
        c->length <= u32::MAX,
        remote.len() <= usize::MAX,
        local.len() <= usize::MAX,
        c->RmaGetRequest_remote_offset + c->length <= remote.len(),
        c->local_offset + c->length <= local.len(),
        first_read(q.rma_ops, c->local_handle_id, c->local_offset) is None,
        place_of(remote_registry, c->RmaGetRequest_remote_handle_id) is Some,
        place_of(local_registry, c->local_handle_id) is Some,
    ensures
        ({
            let op = RmaOp {
                op_ptr: c->RmaGetRequest_op_ptr,
                local_handle_id: c->local_handle_id,
                local_offset: c->local_offset,
                rma_length: c->length,
            };
            let request = outbound(c)->0;
            let (header, data) = get_response(remote, request.header, remote_peer);
            let after = overwritten(local, header.local_offset as usize as int, data);
            let at = c->RmaGetRequest_remote_offset as int;
            &&& comes_through(request, rest)
            &&& route_of(request.header.msg_type) == Route::GetRequest
            &&& request.header.handle_id == c->RmaGetRequest_remote_handle_id
            &&& reply_to(remote_registry, remote, request.header, remote_peer) == Some(
                ReplyView { to: c->RmaGetRequest_source, header, data },
            )
            &&& comes_through(MessageView { header, payload: data }, rest)
            &&& route_of(header.msg_type) == Route::GetResponse
            &&& answered(post_read(q, op), header.local_handle_id, header.local_offset) == (
                q,
                Some(op),
            )
            &&& write_at(local_registry, header.local_handle_id, header.local_offset, data) == Some(
                LocalWriteView {
                    entry: place_of(local_registry, c->local_handle_id)->0,
                    offset: c->local_offset,
                    data,
                },
            )
            &&& after.subrange(c->local_offset as int, c->local_offset + c->length)
                == remote.subrange(at, at + c->length)
        }),
{
    let op = RmaOp {
        op_ptr: c->RmaGetRequest_op_ptr,
        local_handle_id: c->local_handle_id,
        local_offset: c->local_offset,
        rma_length: c->length,
    };
    law_sent_is_read(c, rest);
    let request = outbound(c)->0;
    law_get_brings_remote_contents(local, remote, request.header, remote_peer);
    let (header, data) = get_response(remote, request.header, remote_peer);
    assert(data.len() == c->length);
    law_read_gives_back_write(header, data, rest);
    law_answer_finds_its_read(q, op);
}

} // verus!
