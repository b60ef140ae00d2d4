//! What the network side does with a request, field by field, and what it does about connections.

use crate::addr::{known_addr, looked_up, AddrView};
use crate::command::CommandView;
use crate::mem::{overwritten, put_data};
use crate::multiaddr::ProtocolView;
use crate::peer::valid_peer_id;
use crate::protocol::{
    law_read_gives_back_write, read_as, wire_bytes, HeaderView, MessageType, Reading,
};
use crate::status::NaReturn;
use crate::swarm::{
    closed, commanded, destination_of, known_for, outbound, plain_header, route_of, send_report,
    ActionView, Report, Route, SendOutcome, SwarmView,
};
use vstd::prelude::*;

verus! {

/// The action for a plain message goes to the peer that the request names. Its header has the type,
/// the tag and the sender of the request and the size of the payload; the payload is the request's.
/// The operation is reported in any case.
pub proof fn law_message_is_sent_as_asked(
    s: SwarmView,
    dest: Seq<u8>,
    msg_type: MessageType,
    tag: u32,
    payload: Seq<u8>,
    op_ptr: usize,
    source: Seq<u8>,
    connected: bool,
)
    ensures
        ({
            let c = CommandView::SendMessage { dest, msg_type, tag, payload, op_ptr, source };
            let (after, action) = commanded(s, Some(c), connected);
            &&& after == s
            &&& destination_of(c) == Some(dest)
            &&& outbound(c) is Some
            &&& action matches ActionView::Send { peer, dial, header: h, payload: p, op_ptr: op, report }
                && {
                &&& peer == dest
                &&& connected ==> dial is None
                &&& !connected ==> dial == known_for(s, dest)
                &&& h.msg_type == msg_type
                &&& h.tag == tag
                &&& payload.len() <= u32::MAX ==> h.payload_size == payload.len()
                &&& h.source == source
                &&& h.handle_id == 0 && h.offset == 0 && h.rma_length == 0
                &&& h.local_handle_id == 0 && h.local_offset == 0
                &&& p == payload
                &&& op == op_ptr
                &&& report == Report::Always
                &&& h == outbound(c)->0.header
                &&& p == outbound(c)->0.payload
            }
        }),
{
}

/// The action for a write to remote memory goes to the peer that owns it. Its header names the handle
/// and the offset of the request and tells how many bytes there are; the payload is the data. The
/// operation is reported in any case.
pub proof fn law_put_is_sent_as_asked(
    s: SwarmView,
    remote: Seq<u8>,
    data: Seq<u8>,
    remote_handle_id: u64,
    remote_offset: u64,
    op_ptr: usize,
    source: Seq<u8>,
    connected: bool,
)
    ensures
        ({
            let c = CommandView::RmaPut {
                remote,
                data,
                remote_handle_id,
                remote_offset,
                op_ptr,
                source,
            };
            let (after, action) = commanded(s, Some(c), connected);
            &&& after == s
            &&& destination_of(c) == Some(remote)
            &&& outbound(c) is Some
            &&& action matches ActionView::Send { peer, dial, header: h, payload: p, op_ptr: op, report }
                && {
                &&& peer == remote
                &&& connected ==> dial is None
                &&& !connected ==> dial == known_for(s, remote)
                &&& h.msg_type == MessageType::RmaPut
                &&& h.tag == 0
                &&& data.len() <= u32::MAX ==> h.payload_size == data.len()
                &&& h.source == source
                &&& h.handle_id == remote_handle_id
                &&& h.offset == remote_offset
                &&& data.len() <= u64::MAX ==> h.rma_length == data.len()
                &&& h.local_handle_id == 0 && h.local_offset == 0
                &&& p == data
                &&& op == op_ptr
                &&& report == Report::Always
                &&& h == outbound(c)->0.header
                &&& p == outbound(c)->0.payload
            }
        }),
{
}

/// The action for a read of remote memory goes to the peer that owns it. Its header names the handle,
/// the offset and the length of the request and the local place for the answer; there is no payload.
/// The operation is reported only if the request could not be sent.
pub proof fn law_get_is_sent_as_asked(
    s: SwarmView,
    remote: Seq<u8>,
    remote_handle_id: u64,
    remote_offset: u64,
    length: usize,
    local_handle_id: u64,
    local_offset: u64,
    op_ptr: usize,
    source: Seq<u8>,
    connected: bool,
)
    ensures
        ({
            let c = CommandView::RmaGetRequest {
                remote,
                remote_handle_id,
                remote_offset,
                length,
                local_handle_id,
                local_offset,
                op_ptr,
                source,
            };
            let (after, action) = commanded(s, Some(c), connected);
            &&& after == s
            &&& destination_of(c) == Some(remote)
            &&& outbound(c) is Some
            &&& action matches ActionView::Send { peer, dial, header: h, payload: p, op_ptr: op, report }
                && {
                &&& peer == remote
                &&& connected ==> dial is None
                &&& !connected ==> dial == known_for(s, remote)
                &&& h.msg_type == MessageType::RmaGetReq
                &&& h.tag == 0
                &&& h.payload_size == 0
                &&& h.source == source
                &&& h.handle_id == remote_handle_id
                &&& h.offset == remote_offset
                &&& h.rma_length == length
                &&& h.local_handle_id == local_handle_id
                &&& h.local_offset == local_offset
                &&& p.len() == 0
                &&& op == op_ptr
                &&& report == Report::OnFailure
                &&& h == outbound(c)->0.header
                &&& p == outbound(c)->0.payload
            }
        }),
{
}

/// The other requests send nothing. An address that is made known is dialled, and stands for its peer
/// from then on; what is known of the other peers, and the relay, stay. A shutdown, or the end of all
/// requests, stops the network side.
pub proof fn law_other_requests(
    s: SwarmView,
    peer: Seq<u8>,
    multiaddr: Seq<ProtocolView>,
    other: Seq<u8>,
    connected: bool,
)
    ensures
        ({
            let c = CommandView::AddKnownAddr { peer, multiaddr };
            let (after, action) = commanded(s, Some(c), connected);
            &&& destination_of(c) is None
            &&& outbound(c) is None
            &&& action == (ActionView::Dial { peer, multiaddr })
            &&& known_for(after, peer) == Some(multiaddr)
            &&& other != peer ==> known_for(after, other) == known_for(s, other)
            &&& after.relay == s.relay
        }),
        commanded(s, Some(CommandView::Shutdown), connected) == (s, ActionView::Stop),
        commanded(s, None, connected) == (s, ActionView::Stop),
        destination_of(CommandView::Shutdown) is None,
        outbound(CommandView::Shutdown) is None,
{
}

/// What the action for a request puts on the stream is read at the other end as the header and the
/// payload of that action, with whatever follows left over. The payload that is read is that of the
/// request, whole, and so are the type, the tag and the sender.
pub proof fn law_sent_action_is_read(
    s: SwarmView,
    c: CommandView,
    connected: bool,
    rest: Seq<u8>,
)
    requires
        destination_of(c) is Some,
        c is SendMessage ==> valid_peer_id(c->SendMessage_source) && c->SendMessage_payload.len()
            <= u32::MAX,
        c is RmaPut ==> valid_peer_id(c->RmaPut_source) && c->data.len() <= u32::MAX,
        c is RmaGetRequest ==> valid_peer_id(c->RmaGetRequest_source),
    ensures
        commanded(s, Some(c), connected).1 matches ActionView::Send { header, payload, .. } && {
            &&& header.payload_size == payload.len()
            &&& header == outbound(c)->0.header
            &&& payload == outbound(c)->0.payload
            &&& read_as(wire_bytes(header, payload) + rest) == (Reading::Message {
                header,
                payload,
                rest,
            })
            &&& c matches CommandView::SendMessage { msg_type, tag, payload: p, source, .. } ==> {
                &&& header.msg_type == msg_type
                &&& header.tag == tag
                &&& header.source == source
                &&& payload == p
            }
            &&& c matches CommandView::RmaPut { data, source, .. } ==> {
                &&& header.msg_type == MessageType::RmaPut
                &&& header.source == source
                &&& payload == data
            }
            &&& c matches CommandView::RmaGetRequest { length, source, .. } ==> {
                &&& header.msg_type == MessageType::RmaGetReq
                &&& header.source == source
                &&& header.rma_length == length
                &&& payload.len() == 0
            }
        },
{
    law_read_gives_back_write(outbound(c)->0.header, outbound(c)->0.payload, rest);
}

/// What a put takes from local memory stands in the remote memory after the put has come through:
/// at the remote offset and `i`, for every `i` below the length, is the byte that stood at the local
/// offset and `i`. The remote memory is otherwise as it was.
pub proof fn law_put_moves_the_local_bytes(
    s: SwarmView,
    connected: bool,
    local: Seq<u8>,
    local_offset: u64,
    length: usize,
    remote: Seq<u8>,
    remote_handle_id: u64,
    remote_offset: u64,
    op_ptr: usize,
    source: Seq<u8>,
    mem: Seq<u8>,
    rest: Seq<u8>,
)
    requires
        valid_peer_id(source),
        length <= u32::MAX,
        local_offset + length <= local.len(),
        mem.len() <= usize::MAX,
        remote_offset + length <= mem.len(),
    ensures
        ({
            let c = CommandView::RmaPut {
                remote,
                data: put_data(Some(local), local_offset, length),
                remote_handle_id,
                remote_offset,
                op_ptr,
                source,
            };
            commanded(s, Some(c), connected).1 matches ActionView::Send { peer, header, payload, .. }
                && {
                let after = overwritten(mem, header.offset as usize as int, payload);
                &&& peer == remote
                &&& read_as(wire_bytes(header, payload) + rest) == (Reading::Message {
                    header,
                    payload,
                    rest,
                })
                &&& route_of(header.msg_type) == Route::Put
                &&& header.handle_id == remote_handle_id
                &&& after.len() == mem.len()
                &&& forall|i: int|
                    0 <= i < length ==> after[remote_offset + i] == #[trigger] local[local_offset + i]
                &&& forall|j: int|
                    0 <= j < mem.len() && !(remote_offset <= j < remote_offset + length)
                        ==> #[trigger] after[j] == mem[j]
            }
        }),
{
    let c = CommandView::RmaPut {
        remote,
        data: put_data(Some(local), local_offset, length),
        remote_handle_id,
        remote_offset,
        op_ptr,
        source,
    };
    law_sent_action_is_read(s, c, connected, rest);
    let data = put_data(Some(local), local_offset, length);
    assert(data.len() == length);
    let after = overwritten(mem, remote_offset as int, data);
    assert forall|i: int| 0 <= i < length implies after[remote_offset + i] == #[trigger] local[
    local_offset + i] by {
        assert(data[i] == local[local_offset + i]);
    }
}

/// Whenever a lookup gives an address with a transport address, that one goes along as known for
/// exactly the looked-up identity, whatever the transport. The network side then dials it, and dials
/// it again for every request to that peer while there is no connection, and when the last connection
/// has closed. Without a transport address nothing goes along.
pub proof fn law_looked_up_peer_is_dialled(
    name: Seq<char>,
    a: AddrView,
    s: SwarmView,
    connected: bool,
    c: CommandView,
)
    requires
        looked_up(name) == Some(a),
        destination_of(c) == Some(a.peer),
    ensures
        a.multiaddr matches Some(ps) ==> {
            &&& known_addr(a) == Some(CommandView::AddKnownAddr { peer: a.peer, multiaddr: ps })
            &&& commanded(s, known_addr(a), connected).1 == (ActionView::Dial {
                peer: a.peer,
                multiaddr: ps,
            })
            &&& commanded(commanded(s, known_addr(a), connected).0, Some(c), false).1->Send_dial
                == Some(ps)
            &&& closed(commanded(s, known_addr(a), connected).0, a.peer, 0).dial == Some(ps)
        },
        a.multiaddr is None ==> known_addr(a) is None,
{
}

/// When the last connection to a peer has closed its sender is forgotten, and it is dialled where it
/// is known to be; if it is the relay server it is dialled at the relay's address too. As long as a
/// connection is left nothing happens.
pub proof fn law_closed_connection(s: SwarmView, peer: Seq<u8>, remaining: u32)
    ensures
        remaining > 0 ==> {
            &&& closed(s, peer, remaining).dial is None
            &&& closed(s, peer, remaining).relay_dial is None
            &&& !closed(s, peer, remaining).drop_sender
        },
        remaining == 0 ==> {
            &&& closed(s, peer, remaining).drop_sender
            &&& s.known.contains_key(peer) ==> closed(s, peer, remaining).dial == Some(s.known[peer])
            &&& !s.known.contains_key(peer) ==> closed(s, peer, remaining).dial is None
            &&& s.relay is None ==> closed(s, peer, remaining).relay_dial is None
            &&& s.relay matches Some((relay, at)) ==> {
                &&& relay == peer ==> closed(s, peer, remaining).relay_dial == Some(at)
                &&& relay != peer ==> closed(s, peer, remaining).relay_dial is None
            }
        },
{
}

/// The address of a peer is the one that stands for it, if any does.
pub proof fn law_known_for(s: SwarmView, peer: Seq<u8>)
    ensures
        known_for(s, peer) is Some <==> s.known.contains_key(peer),
        known_for(s, peer) matches Some(at) ==> at == s.known[peer],
{
}

/// A plain header has the given fields, and zero for all that concerns remote memory.
pub proof fn law_plain_header(t: MessageType, tag: u32, size: nat, source: Seq<u8>)
    ensures
        ({
            let h: HeaderView = plain_header(t, tag, size, source);
            &&& h.msg_type == t
            &&& h.tag == tag
            &&& size <= u32::MAX ==> h.payload_size == size
            &&& h.source == source
            &&& h.handle_id == 0 && h.offset == 0 && h.rma_length == 0
            &&& h.local_handle_id == 0 && h.local_offset == 0
        }),
{
}

/// Messages of the two plain types go to receives, each to its own queue; a put writes local memory, a
/// request reads it, and an answer goes to the read that waits for it.
pub proof fn law_routes()
    ensures
        route_of(MessageType::Unexpected) == (Route::Receive { expected: false }),
        route_of(MessageType::Expected) == (Route::Receive { expected: true }),
        route_of(MessageType::RmaPut) == Route::Put,
        route_of(MessageType::RmaGetReq) == Route::GetRequest,
        route_of(MessageType::RmaGetResp) == Route::GetResponse,
{
}

/// A report of a send names the operation and tells nothing of a receive.
pub proof fn law_report_names_the_operation(op_ptr: usize, report: Report, outcome: SendOutcome)
    ensures
        send_report(op_ptr, report, outcome) matches Some(r) ==> {
            &&& r.op_ptr == op_ptr
            &&& r.recv_info is None
            &&& outcome == SendOutcome::Sent <==> r.result == NaReturn::Success
            &&& outcome != SendOutcome::Sent <==> r.result == NaReturn::ProtocolError
        },
        send_report(op_ptr, report, outcome) is None <==> outcome == SendOutcome::Sent && report
            == Report::OnFailure,
{
}

} // verus!
