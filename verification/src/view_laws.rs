//! Every field of a value stands unchanged in the mathematical value that contracts speak of.

use crate::addr::{addr_ref_view, addr_view, outcome_view, NaLibp2pAddr};
use crate::command::{
    command_view, completion_view, Command, CommandView, CompletionItem, RecvInfo,
};
use crate::fields::byte_views;
use crate::mem::{
    local_write_view, mem_outcome_view, reply_view, GetReply, LocalWrite, MemRegistry,
    NaLibp2pMemHandle,
};
use crate::multiaddr::{multiaddr_view, views, Multiaddr, Protocol, ProtocolView};
use crate::peer::{peer_view, PeerId};
use crate::plugin::{CallbackInfo, Finished, InfoView};
use crate::protocol::{reading_of, MessageType, ReadError, Reading, WireHeader};
use crate::queues::{
    delivery_view, op_views, stash_views, Delivery, OperationQueues, RecvOp, StashedMessage,
};
use crate::relay_server::{arg_views, ArgsOutcome, ArgsView};
use crate::startup::{
    relay_plan_view, relay_view, RelayTarget, StartEvent, StartEventView, Startup,
};
use crate::status::NaReturn;
use crate::swarm::{ActionView, CloseAction, CommandAction, Report, SwarmState};
use crate::text::texts;
use crate::transport::{address_views, text_view, utf8_reading};
use vstd::prelude::*;
use vstd::utf8::{decode_utf8, encode_utf8, encode_utf8_decode_utf8, encode_utf8_valid_utf8, valid_utf8};

verus! {

/// An address: the identity, the transport address and whether it is the own one.
pub proof fn law_address_fields(a: NaLibp2pAddr, p: Option<PeerId>, m: Option<Multiaddr>)
    ensures
        a@.peer == a.peer_id@,
        a@.multiaddr is Some <==> a.multiaddr is Some,
        a.multiaddr matches Some(x) ==> a@.multiaddr == Some(x@),
        a@.is_self == a.is_self,
        addr_view(Some(a)) == Some(a@),
        addr_view(None) is None,
        addr_ref_view(Some(&a)) == Some(a@),
        addr_ref_view(None) is None,
        p matches Some(x) ==> peer_view(p) == Some(x@),
        p is None ==> peer_view(p) is None,
        m matches Some(x) ==> multiaddr_view(m) == Some(x@),
        m is None ==> multiaddr_view(m) is None,
        outcome_view(Ok(a)) == Ok::<crate::addr::AddrView, NaReturn>(a@),
        outcome_view(Err(NaReturn::InvalidArg)) == Err::<crate::addr::AddrView, NaReturn>(
            NaReturn::InvalidArg,
        ),
        outcome_view(Err(NaReturn::ProtocolError)) == Err::<crate::addr::AddrView, NaReturn>(
            NaReturn::ProtocolError,
        ),
{
}

/// The components of a transport address, each with its value.
pub proof fn law_component_fields(
    ip4: u32,
    ip6: u128,
    port: u16,
    id: PeerId,
    text: String,
    ps: Seq<Protocol>,
    i: int,
)
    ensures
        Protocol::Ip4(ip4)@ == ProtocolView::Ip4(ip4),
        Protocol::Ip6(ip6)@ == ProtocolView::Ip6(ip6),
        Protocol::Tcp(port)@ == ProtocolView::Tcp(port),
        Protocol::Udp(port)@ == ProtocolView::Udp(port),
        Protocol::QuicV1@ == ProtocolView::QuicV1,
        Protocol::P2p(id)@ == ProtocolView::P2p(id@),
        Protocol::P2pCircuit@ == ProtocolView::P2pCircuit,
        Protocol::Other(text)@ == ProtocolView::Other(text@),
        views(ps).len() == ps.len(),
        0 <= i < ps.len() ==> views(ps)[i] == ps[i]@,
{
}

/// The header of a message, and what was read of a stream.
pub proof fn law_header_fields(
    h: WireHeader,
    payload: Vec<u8>,
    used: usize,
    input: Seq<u8>,
    e: ReadError,
)
    ensures
        h@.msg_type == h.msg_type,
        h@.tag == h.tag,
        h@.payload_size == h.payload_size,
        h@.source == h.source_peer_id@,
        h@.handle_id == h.handle_id,
        h@.offset == h.offset,
        h@.rma_length == h.rma_length,
        h@.local_handle_id == h.local_handle_id,
        h@.local_offset == h.local_offset,
        used <= input.len() ==> reading_of(Ok((h, payload, used)), input) == (Reading::Message {
            header: h@,
            payload: payload@,
            rest: input.skip(used as int),
        }),
        reading_of(Err(e), input) == Reading::Fails(e),
{
    if used <= input.len() {
        assert(input.skip(used as int) == input.subrange(used as int, input.len() as int));
    }
}

/// Requests to the network side.
pub proof fn law_command_fields(
    to: PeerId,
    from: PeerId,
    t: MessageType,
    tag: u32,
    bytes: Vec<u8>,
    op_ptr: usize,
    remote_handle_id: u64,
    remote_offset: u64,
    length: usize,
    local_handle_id: u64,
    local_offset: u64,
    at: Multiaddr,
    c: Command,
)
    ensures
        (Command::SendMessage {
            dest_peer_id: to,
            msg_type: t,
            tag,
            payload: bytes,
            op_ptr,
            source_peer_id: from,
        })@ == (CommandView::SendMessage {
            dest: to@,
            msg_type: t,
            tag,
            payload: bytes@,
            op_ptr,
            source: from@,
        }),
        (Command::RmaPut {
            remote_peer_id: to,
            data: bytes,
            remote_handle_id,
            remote_offset,
            op_ptr,
            source_peer_id: from,
        })@ == (CommandView::RmaPut {
            remote: to@,
            data: bytes@,
            remote_handle_id,
            remote_offset,
            op_ptr,
            source: from@,
        }),
        (Command::RmaGetRequest {
            remote_peer_id: to,
            remote_handle_id,
            remote_offset,
            length,
            local_handle_id,
            local_offset,
            op_ptr,
            source_peer_id: from,
        })@ == (CommandView::RmaGetRequest {
            remote: to@,
            remote_handle_id,
            remote_offset,
            length,
            local_handle_id,
            local_offset,
            op_ptr,
            source: from@,
        }),
        (Command::AddKnownAddr { peer_id: to, multiaddr: at })@ == (CommandView::AddKnownAddr {
            peer: to@,
            multiaddr: at@,
        }),
        Command::Shutdown@ == CommandView::Shutdown,
        command_view(Some(c)) == Some(c@),
        command_view(None) is None,
{
}

/// Reports of finished operations.
pub proof fn law_report_fields(i: RecvInfo, c: CompletionItem)
    ensures
        i@.actual_size == i.actual_size,
        i@.source == addr_view(i.source_addr),
        i@.tag == i.tag,
        c@.op_ptr == c.op_ptr,
        c@.result == c.result,
        c.recv_info matches Some(x) ==> c@.recv_info == Some(x@),
        c.recv_info is None ==> c@.recv_info is None,
        completion_view(Some(c)) == Some(c@),
        completion_view(None) is None,
{
}

/// Receives, messages and the queues in which they stand, one after the other.
pub proof fn law_queue_fields(o: RecvOp, m: StashedMessage, q: OperationQueues, d: Delivery, i: int)
    ensures
        o@.op_ptr == o.op_ptr,
        o@.tag == o.tag,
        o@.source == peer_view(o.source),
        o@.buf_size == o.buf_size,
        o@.has_buf == o.has_buf,
        m@.payload == m.payload@,
        m@.source == addr_view(m.source_addr),
        m@.tag == m.tag,
        q@.unexpected_ops.len() == q.unexpected_recv_ops@.len(),
        q@.expected_ops.len() == q.expected_recv_ops@.len(),
        q@.unexpected_stash.len() == q.unexpected_msg_stash@.len(),
        q@.expected_stash.len() == q.expected_msg_stash@.len(),
        q@.rma_ops == q.pending_rma_ops@,
        0 <= i < q.unexpected_recv_ops@.len() ==> q@.unexpected_ops[i] == q.unexpected_recv_ops@[i]@,
        0 <= i < q.expected_recv_ops@.len() ==> q@.expected_ops[i] == q.expected_recv_ops@[i]@,
        0 <= i < q.unexpected_msg_stash@.len() ==> q@.unexpected_stash[i]
            == q.unexpected_msg_stash@[i]@,
        0 <= i < q.expected_msg_stash@.len() ==> q@.expected_stash[i] == q.expected_msg_stash@[i]@,
        op_views(q.expected_recv_ops@) == q@.expected_ops,
        stash_views(q.expected_msg_stash@) == q@.expected_stash,
        d@.data == d.data@,
        d@.item == d.item@,
        delivery_view(Some(d)) == Some(d@),
        delivery_view(None) is None,
{
}

/// Memory handles, their registry, and what goes to and fro.
pub proof fn law_memory_fields(h: NaLibp2pMemHandle, r: MemRegistry, g: GetReply, w: LocalWrite)
    ensures
        h@.buf == h.buf,
        h@.buf_size == h.buf_size,
        h@.handle_id == h.handle_id,
        h@.flags == h.flags,
        h@.owner == peer_view(h.owner_peer_id),
        r@.handles == r.handles@,
        r@.next == r.next_handle_id,
        g@.to == g.to@,
        g@.header == g.header@,
        g@.data == g.data@,
        reply_view(Some(g)) == Some(g@),
        reply_view(None) is None,
        w@.entry == w.entry,
        w@.offset == w.offset,
        w@.data == w.data@,
        local_write_view(Some(w)) == Some(w@),
        local_write_view(None) is None,
        mem_outcome_view(Ok(h)) == Ok::<crate::mem::MemHandleView, NaReturn>(h@),
        mem_outcome_view(Err(NaReturn::InvalidArg)) == Err::<crate::mem::MemHandleView, NaReturn>(
            NaReturn::InvalidArg,
        ),
        mem_outcome_view(Err(NaReturn::ProtocolError)) == Err::<crate::mem::MemHandleView, NaReturn>(
            NaReturn::ProtocolError,
        ),
{
}

/// What a callback is told.
pub proof fn law_callback_fields(
    size: usize,
    source: Option<NaLibp2pAddr>,
    tag: u32,
    f: Finished,
)
    ensures
        CallbackInfo::Plain@ == InfoView::Plain,
        (CallbackInfo::RecvUnexpected { actual_buf_size: size, source, tag })@
            == (InfoView::RecvUnexpected { actual_buf_size: size, source: addr_view(source), tag }),
        (CallbackInfo::RecvExpected { actual_buf_size: size })@ == (InfoView::RecvExpected {
            actual_buf_size: size,
        }),
        f@.op_ptr == f.op_ptr,
        f@.ret == f.ret,
        f@.info == f.info@,
{
}

/// What the network side does, and what it knows.
pub proof fn law_network_fields(
    peer: PeerId,
    at: Multiaddr,
    dial: Option<Multiaddr>,
    header: WireHeader,
    payload: Vec<u8>,
    op_ptr: usize,
    report: Report,
    s: SwarmState,
    key: Seq<u8>,
    c: CloseAction,
)
    ensures
        CommandAction::Stop@ == ActionView::Stop,
        (CommandAction::Dial { peer_id: peer, multiaddr: at })@ == (ActionView::Dial {
            peer: peer@,
            multiaddr: at@,
        }),
        (CommandAction::Send { peer_id: peer, dial, header, payload, op_ptr, report })@
            == (ActionView::Send {
            peer: peer@,
            dial: multiaddr_view(dial),
            header: header@,
            payload: payload@,
            op_ptr,
            report,
        }),
        s@.known.contains_key(key) <==> s.peer_addrs@.contains_key(key),
        s.peer_addrs@.contains_key(key) ==> s@.known[key] == s.peer_addrs@[key]@,
        s.relay is None <==> s@.relay is None,
        s.relay matches Some((p, m)) ==> s@.relay == Some((p@, m@)),
        c@.dial == multiaddr_view(c.dial),
        c@.relay_dial == multiaddr_view(c.relay_dial),
        c@.drop_sender == c.drop_sender,
{
}

/// The start of the network side.
pub proof fn law_start_fields(
    t: RelayTarget,
    m: Multiaddr,
    p: PeerId,
    s: Startup,
    addrs: Seq<Multiaddr>,
    i: int,
)
    ensures
        t@.peer == t.peer_id@,
        t@.transport == t.transport@,
        t@.circuit == t.circuit@,
        relay_view(Some(t)) == Some(t@),
        relay_view(None) is None,
        relay_plan_view(Ok(Some(t))) == Ok::<Option<crate::startup::RelayView>, NaReturn>(Some(t@)),
        relay_plan_view(Ok(None)) == Ok::<Option<crate::startup::RelayView>, NaReturn>(None),
        relay_plan_view(Err(NaReturn::ProtocolError)) == Err::<
            Option<crate::startup::RelayView>,
            NaReturn,
        >(NaReturn::ProtocolError),
        StartEvent::NewListenAddr(m)@ == StartEventView::NewListenAddr(m@),
        StartEvent::Connected(p)@ == StartEventView::Connected(p@),
        StartEvent::Other@ == StartEventView::Other,
        StartEvent::Ended@ == StartEventView::Ended,
        s@.config == s.config,
        s@.relay == relay_view(s.relay),
        s@.addrs == address_views(s.addrs@),
        s@.phase == s.phase,
        address_views(addrs).len() == addrs.len(),
        0 <= i < addrs.len() ==> address_views(addrs)[i] == addrs[i]@,
{
}

/// What the relay server is asked to do.
pub proof fn law_arguments_fields(
    port: u16,
    seed: u8,
    text: String,
    args: Seq<String>,
    lists: Seq<Vec<char>>,
    fields: Seq<Vec<u8>>,
    i: int,
)
    ensures
        ArgsOutcome::Help@ == ArgsView::Help,
        (ArgsOutcome::Run { port, seed, addr_file: text })@ == (ArgsView::Run {
            port,
            seed,
            addr_file: text@,
        }),
        (ArgsOutcome::Unknown { argument: text })@ == (ArgsView::Unknown { argument: text@ }),
        ArgsOutcome::Incomplete@ == ArgsView::Incomplete,
        (ArgsOutcome::MissingValue { option: text })@ == (ArgsView::MissingValue { option: text@ }),
        ArgsOutcome::InvalidPort@ == ArgsView::InvalidPort,
        ArgsOutcome::InvalidSeed@ == ArgsView::InvalidSeed,
        arg_views(args).len() == args.len(),
        0 <= i < args.len() ==> arg_views(args)[i] == args[i]@,
        texts(lists).len() == lists.len(),
        0 <= i < lists.len() ==> texts(lists)[i] == lists[i]@,
        byte_views(fields).len() == fields.len(),
        0 <= i < fields.len() ==> byte_views(fields)[i] == fields[i]@,
{
}

/// A text in UTF-8 is read back as that text, and what is not UTF-8 is no text.
pub proof fn law_utf8_reading(text: Seq<char>, v: Seq<u8>, s: String)
    ensures
        utf8_reading(encode_utf8(text)) == Some(text),
        !valid_utf8(v) ==> utf8_reading(v) is None,
        valid_utf8(v) ==> utf8_reading(v) == Some(decode_utf8(v)),
        text_view(Some(s)) == Some(s@),
        text_view(None) is None,
{
    encode_utf8_valid_utf8(text);
    encode_utf8_decode_utf8(text);
}

} // verus!
