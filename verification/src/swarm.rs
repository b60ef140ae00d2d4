//! The decisions of the network side: what follows from a request, from a connection that closes,
//! and from what comes in on a stream.

use crate::command::{
    completion_view, Command, CommandView, CompletionItem, CompletionView,
};
use crate::multiaddr::{multiaddr_view, Multiaddr, ProtocolView};
use crate::peer::{valid_peer_id, PeerId};
use crate::peer_map::PeerMap;
use crate::protocol::{
    law_read_gives_back_write, read_as, wire_bytes, HeaderView, MessageType, MessageView, ReadError,
    Reading, WireHeader,
};
use crate::queues::message_of;
use crate::status::NaReturn;
use vstd::prelude::*;

verus! {

// ---------------------------------------------------------------------------
//  Requests
// ---------------------------------------------------------------------------

/// When the end of a send is reported.
#[derive(Debug, Clone, Copy, PartialEq, Eq, Structural)]
pub enum Report {
    /// In any case.
    Always,
    /// Only if it failed. Otherwise the operation goes on until its answer comes.
    OnFailure,
}

/// What came of a send.
#[derive(Debug, Clone, Copy, PartialEq, Eq, Structural)]
pub enum SendOutcome {
    Sent,
    Failed,
    /// The sender went away before it came to the message.
    Dropped,
}

/// What follows from a request.
#[derive(Debug, PartialEq, Eq)]
pub enum CommandAction {
    /// The network side ends.
    Stop,
    /// The swarm is told of the address and dials the peer there, unless it is connected to it or
    /// dials it already.
    Dial { peer_id: PeerId, multiaddr: Multiaddr },
    /// The peer is dialled, where an address is given, and the message goes to the peer's sender.
    Send {
        peer_id: PeerId,
        dial: Option<Multiaddr>,
        header: WireHeader,
        payload: Vec<u8>,
        op_ptr: usize,
        report: Report,
    },
}

/// What follows from a request, as a mathematical value.
pub enum ActionView {
    Stop,
    Dial { peer: Seq<u8>, multiaddr: Seq<ProtocolView> },
    Send {
        peer: Seq<u8>,
        dial: Option<Seq<ProtocolView>>,
        header: HeaderView,
        payload: Seq<u8>,
        op_ptr: usize,
        report: Report,
    },
}

impl View for CommandAction {
    type V = ActionView;

    open spec fn view(&self) -> ActionView {
        match self {
            CommandAction::Stop => ActionView::Stop,
            CommandAction::Dial { peer_id, multiaddr } => ActionView::Dial {
                peer: peer_id@,
                multiaddr: multiaddr@,
            },
            CommandAction::Send { peer_id, dial, header, payload, op_ptr, report } =>
                ActionView::Send {
                    peer: peer_id@,
                    dial: multiaddr_view(*dial),
                    header: header@,
                    payload: payload@,
                    op_ptr: *op_ptr,
                    report: *report,
                },
        }
    }
}

/// The peer to which a request sends something.
pub open spec fn destination_of(c: CommandView) -> Option<Seq<u8>> {
    match c {
        CommandView::SendMessage { dest, .. } => Some(dest),
        CommandView::RmaPut { remote, .. } => Some(remote),
        CommandView::RmaGetRequest { remote, .. } => Some(remote),
        _ => None,
    }
}

/// The header of a message without use of remote memory.
pub open spec fn plain_header(msg_type: MessageType, tag: u32, size: nat, source: Seq<u8>) -> HeaderView {
    HeaderView {
        msg_type,
        tag,
        payload_size: size as u32,
        source,
        handle_id: 0,
        offset: 0,
        rma_length: 0,
        local_handle_id: 0,
        local_offset: 0,
    }
}

/// The message that a request sends.
pub open spec fn outbound(c: CommandView) -> Option<MessageView> {
    match c {
        CommandView::SendMessage { msg_type, tag, payload, source, .. } => Some(
            MessageView { header: plain_header(msg_type, tag, payload.len(), source), payload },
        ),
        CommandView::RmaPut { data, remote_handle_id, remote_offset, source, .. } => Some(
            MessageView {
                header: HeaderView {
                    handle_id: remote_handle_id,
                    offset: remote_offset,
                    rma_length: data.len() as u64,
                    ..plain_header(MessageType::RmaPut, 0, data.len(), source)
                },
                payload: data,
            },
        ),
        CommandView::RmaGetRequest {
            remote_handle_id,
            remote_offset,
            length,
            local_handle_id,
            local_offset,
            source,
            ..
        } => Some(
            MessageView {
                header: HeaderView {
                    handle_id: remote_handle_id,
                    offset: remote_offset,
                    rma_length: length as u64,
                    local_handle_id,
                    local_offset,
                    ..plain_header(MessageType::RmaGetReq, 0, 0, source)
                },
                payload: Seq::empty(),
            },
        ),
        _ => None,
    }
}

/// The addresses of peers that the network side knows, and the relay that it uses.
#[derive(Debug)]
pub struct SwarmState {
    pub peer_addrs: PeerMap<Multiaddr>,
    /// The relay server, and the transport address at which it is dialled.
    pub relay: Option<(PeerId, Multiaddr)>,
}

/// See `SwarmState`.
#[verifier::ext_equal]
pub struct SwarmView {
    pub known: Map<Seq<u8>, Seq<ProtocolView>>,
    pub relay: Option<(Seq<u8>, Seq<ProtocolView>)>,
}

impl View for SwarmState {
    type V = SwarmView;

    open spec fn view(&self) -> SwarmView {
        SwarmView {
            known: self.peer_addrs@.map_values(|m: Multiaddr| m@),
            relay: match self.relay {
                Some((p, m)) => Some((p@, m@)),
                None => None,
            },
        }
    }
}

/// The address that is known for a peer.
pub open spec fn known_for(s: SwarmView, peer: Seq<u8>) -> Option<Seq<ProtocolView>> {
    if s.known.dom().contains(peer) {
        Some(s.known[peer])
    } else {
        None
    }
}

/// What follows from a request, and the state after it. No request at all means that nobody can
/// make one any more. `connected` says whether there is a connection to the peer to which the
/// request sends.
pub open spec fn commanded(s: SwarmView, c: Option<CommandView>, connected: bool) -> (
    SwarmView,
    ActionView,
) {
    match c {
        None | Some(CommandView::Shutdown) => (s, ActionView::Stop),
        Some(CommandView::AddKnownAddr { peer, multiaddr }) => (
            SwarmView { known: s.known.insert(peer, multiaddr), ..s },
            ActionView::Dial { peer, multiaddr },
        ),
        Some(
            CommandView::SendMessage { dest: peer, op_ptr, .. }
            | CommandView::RmaPut { remote: peer, op_ptr, .. }
            | CommandView::RmaGetRequest { remote: peer, op_ptr, .. },
        ) => (
            s,
            ActionView::Send {
                peer,
                dial: if connected {
                    None
                } else {
                    known_for(s, peer)
                },
                header: outbound(c->0)->0.header,
                payload: outbound(c->0)->0.payload,
                op_ptr,
                report: if c->0 is RmaGetRequest {
                    Report::OnFailure
                } else {
                    Report::Always
                },
            },
        ),
    }
}

/// What follows when the last of the connections to a peer has closed.
#[derive(Debug, PartialEq, Eq)]
pub struct CloseAction {
    /// Where the peer is dialled again.
    pub dial: Option<Multiaddr>,
    /// Where the peer is dialled again as the relay server.
    pub relay_dial: Option<Multiaddr>,
    /// Whether the sender of the peer is forgotten.
    pub drop_sender: bool,
}

/// See `CloseAction`.
pub struct CloseView {
    pub dial: Option<Seq<ProtocolView>>,
    pub relay_dial: Option<Seq<ProtocolView>>,
    pub drop_sender: bool,
}

impl View for CloseAction {
    type V = CloseView;

    open spec fn view(&self) -> CloseView {
        CloseView {
            dial: multiaddr_view(self.dial),
            relay_dial: multiaddr_view(self.relay_dial),
            drop_sender: self.drop_sender,
        }
    }
}

/// What follows when a connection has closed and `remaining` others to the same peer are left.
pub open spec fn closed(s: SwarmView, peer: Seq<u8>, remaining: u32) -> CloseView {
    if remaining == 0 {
        CloseView {
            dial: known_for(s, peer),
            relay_dial: match s.relay {
                Some((relay, at)) => if relay == peer {
                    Some(at)
                } else {
                    None
                },
                None => None,
            },
            drop_sender: true,
        }
    } else {
        CloseView { dial: None, relay_dial: None, drop_sender: false }
    }
}

impl Command {
    /// The peer to which the request sends something.
    pub fn destination(&self) -> (r: Option<&PeerId>)
        ensures
            (match r {
                Some(p) => Some(p@),
                None => None,
            }) == destination_of(self@),
    {
        match self {
            Command::SendMessage { dest_peer_id, .. } => Some(dest_peer_id),
            Command::RmaPut { remote_peer_id, .. } => Some(remote_peer_id),
            Command::RmaGetRequest { remote_peer_id, .. } => Some(remote_peer_id),
            _ => None,
        }
    }
}

impl SwarmState {
    /// No address is known.
    pub fn new(relay: Option<(PeerId, Multiaddr)>) -> (r: Self)
        ensures
            r@.known == Map::<Seq<u8>, Seq<ProtocolView>>::empty(),
            r@.relay == (match relay {
                Some((p, m)) => Some((p@, m@)),
                None => None,
            }),
    {
        let r = SwarmState { peer_addrs: PeerMap::new(), relay };
        assert(r@.known =~= Map::<Seq<u8>, Seq<ProtocolView>>::empty());
        r
    }

    fn known_addr(&self, peer: &PeerId) -> (r: Option<Multiaddr>)
        ensures
            multiaddr_view(r) == known_for(self@, peer@),
    {
        match self.peer_addrs.get(peer) {
            Some(m) => Some(m.duplicate()),
            None => None,
        }
    }

    fn dial_addr(&self, peer: &PeerId, connected: bool) -> (r: Option<Multiaddr>)
        ensures
            multiaddr_view(r) == (if connected {
                None
            } else {
                known_for(self@, peer@)
            }),
    {
        if connected {
            None
        } else {
            self.known_addr(peer)
        }
    }

    /// Decides what follows from a request. See `commanded`.
    pub fn on_command(&mut self, command: Option<Command>, connected: bool) -> (r: CommandAction)
        ensures
            (final(self)@, r@) == commanded(
                old(self)@,
                match command {
                    Some(c) => Some(c@),
                    None => None,
                },
                connected,
            ),
    {
        let ghost before = self@;
        match command {
            None | Some(Command::Shutdown) => CommandAction::Stop,
            Some(Command::AddKnownAddr { peer_id, multiaddr }) => {
                self.peer_addrs.insert(peer_id.clone(), multiaddr.duplicate());
                assert(self@ =~= (SwarmView {
                    known: before.known.insert(peer_id@, multiaddr@),
                    ..before
                }));
                CommandAction::Dial { peer_id, multiaddr }
            },
            Some(
                Command::SendMessage {
                    dest_peer_id,
                    msg_type,
                    tag,
                    payload,
                    op_ptr,
                    source_peer_id,
                },
            ) => {
                let dial = self.dial_addr(&dest_peer_id, connected);
                let header = WireHeader {
                    msg_type,
                    tag,
                    payload_size: payload.len() as u32,
                    source_peer_id,
                    handle_id: 0,
                    offset: 0,
                    rma_length: 0,
                    local_handle_id: 0,
                    local_offset: 0,
                };
                CommandAction::Send {
                    peer_id: dest_peer_id,
                    dial,
                    header,
                    payload,
                    op_ptr,
                    report: Report::Always,
                }
            },
            Some(
                Command::RmaPut {
                    remote_peer_id,
                    data,
                    remote_handle_id,
                    remote_offset,
                    op_ptr,
                    source_peer_id,
                },
            ) => {
                let dial = self.dial_addr(&remote_peer_id, connected);
                let header = WireHeader {
                    msg_type: MessageType::RmaPut,
                    tag: 0,
                    payload_size: data.len() as u32,
                    source_peer_id,
                    handle_id: remote_handle_id,
                    offset: remote_offset,
                    rma_length: data.len() as u64,
                    local_handle_id: 0,
                    local_offset: 0,
                };
                CommandAction::Send {
                    peer_id: remote_peer_id,
                    dial,
                    header,
                    payload: data,
                    op_ptr,
                    report: Report::Always,
                }
            },
            Some(
                Command::RmaGetRequest {
                    remote_peer_id,
                    remote_handle_id,
                    remote_offset,
                    length,
                    local_handle_id,
                    local_offset,
                    op_ptr,
                    source_peer_id,
                },
            ) => {
                let dial = self.dial_addr(&remote_peer_id, connected);
                let header = WireHeader {
                    msg_type: MessageType::RmaGetReq,
                    tag: 0,
                    payload_size: 0,
                    source_peer_id,
                    handle_id: remote_handle_id,
                    offset: remote_offset,
                    rma_length: length as u64,
                    local_handle_id,
                    local_offset,
                };
                let payload: Vec<u8> = Vec::new();
                assert(payload@ == Seq::<u8>::empty());
                CommandAction::Send {
                    peer_id: remote_peer_id,
                    dial,
                    header,
                    payload,
                    op_ptr,
                    report: Report::OnFailure,
                }
            },
        }
    }

    /// Decides what follows when a connection has closed. See `closed`.
    pub fn on_connection_closed(&self, peer: &PeerId, remaining: u32) -> (r: CloseAction)
        ensures
            r@ == closed(self@, peer@, remaining),
    {
        if remaining != 0 {
            return CloseAction { dial: None, relay_dial: None, drop_sender: false };
        }
        let relay_dial = match &self.relay {
            Some((relay, at)) => if relay.same(peer) {
                Some(at.duplicate())
            } else {
                None
            },
            None => None,
        };
        CloseAction { dial: self.known_addr(peer), relay_dial, drop_sender: true }
    }
}

/// The report that follows from what came of a send, if any.
pub open spec fn send_report(op_ptr: usize, report: Report, outcome: SendOutcome) -> Option<
    CompletionView,
> {
    if outcome == SendOutcome::Sent {
        if report == Report::Always {
            Some(CompletionView { op_ptr, result: NaReturn::Success, recv_info: None })
        } else {
            None
        }
    } else {
        Some(CompletionView { op_ptr, result: NaReturn::ProtocolError, recv_info: None })
    }
}

/// Reports what came of a send.
pub fn report_send(op_ptr: usize, report: Report, outcome: SendOutcome) -> (r: Option<CompletionItem>)
    ensures
        completion_view(r) == send_report(op_ptr, report, outcome),
{
    match (outcome, report) {
        (SendOutcome::Sent, Report::Always) => Some(
            CompletionItem { op_ptr, result: NaReturn::Success, recv_info: None },
        ),
        (SendOutcome::Sent, Report::OnFailure) => None,
        _ => Some(CompletionItem { op_ptr, result: NaReturn::ProtocolError, recv_info: None }),
    }
}

// ---------------------------------------------------------------------------
//  What comes in
// ---------------------------------------------------------------------------

/// Who takes a message that comes in.
#[derive(Debug, Clone, Copy, PartialEq, Eq, Structural)]
pub enum Route {
    /// A receive.
    Receive { expected: bool },
    /// Local memory, which is written.
    Put,
    /// Local memory, which is read.
    GetRequest,
    /// A read of remote memory that waits for the data.
    GetResponse,
}

/// Who takes a message of a type.
pub open spec fn route_of(t: MessageType) -> Route {
    match t {
        MessageType::Unexpected => Route::Receive { expected: false },
        MessageType::Expected => Route::Receive { expected: true },
        MessageType::RmaPut => Route::Put,
        MessageType::RmaGetReq => Route::GetRequest,
        MessageType::RmaGetResp => Route::GetResponse,
    }
}

/// Who takes a message.
pub fn route(header: &WireHeader) -> (r: Route)
    ensures
        r == route_of(header@.msg_type),
{
    match header.msg_type {
        MessageType::Unexpected => Route::Receive { expected: false },
        MessageType::Expected => Route::Receive { expected: true },
        MessageType::RmaPut => Route::Put,
        MessageType::RmaGetReq => Route::GetRequest,
        MessageType::RmaGetResp => Route::GetResponse,
    }
}

/// Whether a stream on which no further message can be read has ended as it should: the peer closed
/// it.
pub fn ended_well(e: ReadError) -> (r: bool)
    ensures
        r == (e == ReadError::UnexpectedEof),
{
    match e {
        ReadError::UnexpectedEof => true,
        _ => false,
    }
}

// ---------------------------------------------------------------------------
//  Laws
// ---------------------------------------------------------------------------

/// What a request sends arrives as it was sent, whatever follows on the stream: the peer reads the
/// same header and payload, and so the same kind of message, tag and sender.
pub proof fn law_sent_is_read(c: CommandView, rest: Seq<u8>)
    requires
        outbound(c) is Some,
        valid_peer_id(outbound(c)->0.header.source),
        outbound(c)->0.payload.len() <= u32::MAX,
    ensures
        read_as(wire_bytes(outbound(c)->0.header, outbound(c)->0.payload) + rest) == (Reading::Message {
            header: outbound(c)->0.header,
            payload: outbound(c)->0.payload,
            rest,
        }),
        c matches CommandView::SendMessage { msg_type, tag, payload, source, .. } ==> {
            let h = outbound(c)->0.header;
            &&& h.msg_type == msg_type
            &&& message_of(h, outbound(c)->0.payload).tag == tag
            &&& message_of(h, outbound(c)->0.payload).payload == payload
            &&& message_of(h, outbound(c)->0.payload).source->0.peer == source
        },
{
    law_read_gives_back_write(outbound(c)->0.header, outbound(c)->0.payload, rest);
}

/// The fields for remote memory are zero in every plain message, and those that name the place for
/// an answer are zero in every message but a request for one.
pub proof fn law_unused_fields_are_zero(c: CommandView)
    requires
        outbound(c) is Some,
    ensures
        c is SendMessage ==> {
            let h = outbound(c)->0.header;
            h.handle_id == 0 && h.offset == 0 && h.rma_length == 0 && h.local_handle_id == 0
                && h.local_offset == 0
        },
        c is RmaPut ==> outbound(c)->0.header.tag == 0 && outbound(c)->0.header.local_handle_id == 0
            && outbound(c)->0.header.local_offset == 0,
        c is RmaGetRequest ==> outbound(c)->0.header.tag == 0 && outbound(c)->0.payload.len() == 0,
{
}

/// A send that fails is always reported, as a protocol error. One that succeeds is reported as a
/// success, but for a request for remote contents: that is left to its answer.
pub proof fn law_send_reports(op_ptr: usize, report: Report, outcome: SendOutcome)
    ensures
        outcome != SendOutcome::Sent ==> send_report(op_ptr, report, outcome) == Some(
            CompletionView { op_ptr, result: NaReturn::ProtocolError, recv_info: None },
        ),
        send_report(op_ptr, Report::Always, SendOutcome::Sent) == Some(
            CompletionView { op_ptr, result: NaReturn::Success, recv_info: None },
        ),
        send_report(op_ptr, Report::OnFailure, SendOutcome::Sent) is None,
{
}

/// The operation of a request that sends something.
pub open spec fn operation_of(c: CommandView) -> Option<usize> {
    match c {
        CommandView::SendMessage { op_ptr, .. } => Some(op_ptr),
        CommandView::RmaPut { op_ptr, .. } => Some(op_ptr),
        CommandView::RmaGetRequest { op_ptr, .. } => Some(op_ptr),
        _ => None,
    }
}

/// The report that is due for a request when it is known what came of its send. A plain message or a
/// put has one in any case, a read of remote memory only if its request could not be sent; what
/// sends nothing has none.
pub open spec fn due_report(c: CommandView, outcome: SendOutcome) -> Option<CompletionView> {
    match operation_of(c) {
        Some(op_ptr) => if outcome != SendOutcome::Sent {
            Some(CompletionView { op_ptr, result: NaReturn::ProtocolError, recv_info: None })
        } else if c is RmaGetRequest {
            None
        } else {
            Some(CompletionView { op_ptr, result: NaReturn::Success, recv_info: None })
        },
        None => None,
    }
}

/// The report that an action leads to.
pub open spec fn action_report(a: ActionView, outcome: SendOutcome) -> Option<CompletionView> {
    match a {
        ActionView::Send { op_ptr, report, .. } => send_report(op_ptr, report, outcome),
        _ => None,
    }
}

/// A request that sends something is carried out as a send of its own operation, to its own peer.
/// For a plain message or a put that is reported once: as a success if and only if the message was
/// sent, and as a protocol error otherwise. For a read of remote memory it is reported only if the
/// request was not sent.
pub proof fn law_each_send_is_reported(
    s: SwarmView,
    c: CommandView,
    connected: bool,
    outcome: SendOutcome,
)
    requires
        destination_of(c) is Some,
    ensures
        ({
            let action = commanded(s, Some(c), connected).1;
            let report = send_report(action->op_ptr, action->report, outcome);
            &&& action is Send
            &&& destination_of(c) == Some(action->Send_peer)
            &&& operation_of(c) == Some(action->op_ptr)
            &&& action_report(action, outcome) == report
            &&& report == due_report(c, outcome)
            &&& c is SendMessage || c is RmaPut ==> {
                &&& report is Some
                &&& (report->0).op_ptr == action->op_ptr
                &&& (report->0).recv_info is None
                &&& (report->0).result == NaReturn::Success <==> outcome == SendOutcome::Sent
                &&& outcome != SendOutcome::Sent ==> (report->0).result == NaReturn::ProtocolError
            }
            &&& c is RmaGetRequest ==> (report is None <==> outcome == SendOutcome::Sent)
        }),
{
}

/// A request, with what decides about it: whether there is a connection to its peer when it is
/// taken, and what comes of its send.
pub struct RequestStep {
    pub command: CommandView,
    pub connected: bool,
    pub outcome: SendOutcome,
}

/// The reports of a run of the network side, in the order of the requests.
pub open spec fn run_reports(s: SwarmView, steps: Seq<RequestStep>) -> Seq<CompletionView>
    decreases steps.len(),
{
    if steps.len() == 0 {
        Seq::empty()
    } else {
        let (next, action) = commanded(s, Some(steps[0].command), steps[0].connected);
        if action is Stop {
            Seq::empty()
        } else {
            (match action_report(action, steps[0].outcome) {
                Some(report) => seq![report],
                None => Seq::empty(),
            }) + run_reports(next, steps.drop_first())
        }
    }
}

/// The reports that are due for requests, in their order.
pub open spec fn due_reports(steps: Seq<RequestStep>) -> Seq<CompletionView>
    decreases steps.len(),
{
    if steps.len() == 0 {
        Seq::empty()
    } else {
        (match due_report(steps[0].command, steps[0].outcome) {
            Some(report) => seq![report],
            None => Seq::empty(),
        }) + due_reports(steps.drop_first())
    }
}

/// Of all requests that come before a shutdown, each has the report that is due for it and no other,
/// whatever else was asked for before and after. So where all of them are plain messages and puts,
/// there is exactly one report for each.
pub proof fn law_run_reports_what_is_due(s: SwarmView, steps: Seq<RequestStep>)
    requires
        forall|i: int| 0 <= i < steps.len() ==> !((#[trigger] steps[i]).command is Shutdown),
    ensures
        run_reports(s, steps) == due_reports(steps),
        (forall|i: int|
            0 <= i < steps.len() ==> (#[trigger] steps[i]).command is SendMessage
                || steps[i].command is RmaPut) ==> {
            &&& run_reports(s, steps).len() == steps.len()
            &&& forall|i: int|
                0 <= i < steps.len() ==> Some(#[trigger] run_reports(s, steps)[i]) == due_report(
                    steps[i].command,
                    steps[i].outcome,
                )
        },
    decreases steps.len(),
{
    if steps.len() > 0 {
        let first = steps[0];
        let rest = steps.drop_first();
        let next = commanded(s, Some(first.command), first.connected).0;
        assert forall|i: int| 0 <= i < rest.len() implies #[trigger] rest[i] == steps[i + 1] by {
        }
        law_run_reports_what_is_due(next, rest);
        if destination_of(first.command) is Some {
            law_each_send_is_reported(s, first.command, first.connected, first.outcome);
        }
        let plain = forall|i: int|
            0 <= i < steps.len() ==> (#[trigger] steps[i]).command is SendMessage
                || steps[i].command is RmaPut;
        if plain {
            let all = run_reports(s, steps);
            let later = run_reports(next, rest);
            assert(first.command is SendMessage || first.command is RmaPut);
            let report = due_report(first.command, first.outcome)->0;
            assert(all == seq![report] + later);
            assert forall|i: int| 0 <= i < steps.len() implies Some(#[trigger] all[i])
                == due_report(steps[i].command, steps[i].outcome) by {
                if i > 0 {
                    assert(all[i] == later[i - 1]);
                    assert(rest[i - 1] == steps[i]);
                }
            }
        }
    }
}

/// An address that was made known is the one that is dialled when the peer is next written to
/// without a connection, and when its last connection closes.
pub proof fn law_known_addr_is_dialled(
    s: SwarmView,
    peer: Seq<u8>,
    multiaddr: Seq<ProtocolView>,
    c: CommandView,
)
    requires
        destination_of(c) == Some(peer),
    ensures
        ({
            let after = commanded(s, Some(CommandView::AddKnownAddr { peer, multiaddr }), false).0;
            &&& commanded(after, Some(c), false).1->Send_dial == Some(multiaddr)
            &&& commanded(after, Some(c), true).1->Send_dial is None
            &&& closed(after, peer, 0).dial == Some(multiaddr)
        }),
{
}

} // verus!
