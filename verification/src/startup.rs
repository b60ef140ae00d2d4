//! How the network side comes up: it waits for its listen addresses and, where a relay is used, for
//! an address there.

use crate::multiaddr::{
    multiaddr_of_text, names_ip, names_port, peer_at_end, uses_quic, uses_relay, uses_tcp,
    Multiaddr, ProtocolView,
};
use crate::peer::PeerId;
use crate::status::NaReturn;
use crate::transport::{address_views, TransportConfig};
use vstd::prelude::*;

verus! {

/// A relay server.
#[derive(Debug, PartialEq, Eq)]
pub struct RelayTarget {
    pub peer_id: PeerId,
    /// Where it is dialled.
    pub transport: Multiaddr,
    /// Where to listen so as to be reached through it.
    pub circuit: Multiaddr,
}

/// See `RelayTarget`.
pub struct RelayView {
    pub peer: Seq<u8>,
    pub transport: Seq<ProtocolView>,
    pub circuit: Seq<ProtocolView>,
}

impl View for RelayTarget {
    type V = RelayView;

    open spec fn view(&self) -> RelayView {
        RelayView { peer: self.peer_id@, transport: self.transport@, circuit: self.circuit@ }
    }
}

/// The view of an optional relay server.
pub open spec fn relay_view(r: Option<RelayTarget>) -> Option<RelayView> {
    match r {
        Some(x) => Some(x@),
        None => None,
    }
}

/// The relay server that a full address stands for: one with the identity of the server at its end.
pub open spec fn relay_of(ps: Seq<ProtocolView>) -> Option<RelayView> {
    match peer_at_end(ps) {
        Some((peer, transport)) => Some(
            RelayView { peer, transport, circuit: ps.push(ProtocolView::P2pCircuit) },
        ),
        None => None,
    }
}

/// The relay server that a full address stands for.
pub fn relay_target(addr: &Multiaddr) -> (r: Option<RelayTarget>)
    ensures
        relay_view(r) == relay_of(addr@),
{
    match addr.split_peer() {
        Some((peer_id, transport)) => Some(
            RelayTarget { peer_id, transport, circuit: addr.with_circuit() },
        ),
        None => None,
    }
}

/// The value that an outcome of `plan_relay` stands for.
pub open spec fn relay_plan_view(r: Result<Option<RelayTarget>, NaReturn>) -> Result<
    Option<RelayView>,
    NaReturn,
> {
    match r {
        Ok(t) => Ok(relay_view(t)),
        Err(e) => Err(e),
    }
}

/// The relay server that an address in text form stands for.
pub open spec fn relay_of_text(text: Seq<char>) -> Option<RelayView> {
    match multiaddr_of_text(text) {
        Some(ps) => relay_of(ps),
        None => None,
    }
}

/// The relay server to use, if the relay is in use and the address of a server is given. An address
/// that names no server is an error.
pub fn plan_relay(enabled: bool, relay_addr: Option<&str>) -> (r: Result<Option<RelayTarget>, NaReturn>)
    ensures
        relay_plan_view(r) == (match relay_addr {
            Some(text) => if !enabled {
                Ok(None)
            } else {
                match relay_of_text(text@) {
                    Some(t) => Ok(Some(t)),
                    None => Err(NaReturn::ProtocolError),
                }
            },
            None => Ok::<Option<RelayView>, NaReturn>(None),
        }),
{
    match relay_addr {
        Some(text) => if !enabled {
            Ok(None)
        } else {
            match Multiaddr::parse(text) {
                Some(m) => match relay_target(&m) {
                    Some(t) => Ok(Some(t)),
                    None => Err(NaReturn::ProtocolError),
                },
                None => Err(NaReturn::ProtocolError),
            }
        },
        None => Ok(None),
    }
}

/// How far the start has come.
#[derive(Debug, Clone, Copy, PartialEq, Eq, Structural)]
pub enum Phase {
    /// It waits for the listen addresses.
    Listening,
    /// It waits for a connection to the relay server.
    DialingRelay,
    /// It waits for an address at the relay server.
    Reserving,
    /// All is there.
    Ready,
}

/// Something that happens during the start.
#[derive(Debug, PartialEq, Eq)]
pub enum StartEvent {
    NewListenAddr(Multiaddr),
    Connected(PeerId),
    Other,
    /// Nothing more will happen.
    Ended,
}

/// See `StartEvent`.
pub enum StartEventView {
    NewListenAddr(Seq<ProtocolView>),
    Connected(Seq<u8>),
    Other,
    Ended,
}

impl View for StartEvent {
    type V = StartEventView;

    open spec fn view(&self) -> StartEventView {
        match self {
            StartEvent::NewListenAddr(m) => StartEventView::NewListenAddr(m@),
            StartEvent::Connected(p) => StartEventView::Connected(p@),
            StartEvent::Other => StartEventView::Other,
            StartEvent::Ended => StartEventView::Ended,
        }
    }
}

/// What is to be done next.
#[derive(Debug, Clone, Copy, PartialEq, Eq, Structural)]
pub enum StartAction {
    /// Wait for the next event.
    Wait,
    /// Dial the relay server, and wait.
    DialRelay,
    /// Listen at the relay server, and wait.
    ListenOnRelay,
    /// Go on: all is there.
    Ready,
    /// Give up.
    Fail,
}

/// The start of the network side.
#[derive(Debug)]
pub struct Startup {
    pub config: TransportConfig,
    pub relay: Option<RelayTarget>,
    /// The addresses that are there.
    pub addrs: Vec<Multiaddr>,
    pub phase: Phase,
}

/// See `Startup`.
#[verifier::ext_equal]
pub struct StartView {
    pub config: TransportConfig,
    pub relay: Option<RelayView>,
    pub addrs: Seq<Seq<ProtocolView>>,
    pub phase: Phase,
}

impl View for Startup {
    type V = StartView;

    open spec fn view(&self) -> StartView {
        StartView {
            config: self.config,
            relay: relay_view(self.relay),
            addrs: address_views(self.addrs@),
            phase: self.phase,
        }
    }
}

/// One of the addresses is one of TCP.
pub open spec fn some_tcp(addrs: Seq<Seq<ProtocolView>>) -> bool {
    exists|i: int| 0 <= i < addrs.len() && uses_tcp(#[trigger] addrs[i])
}

/// One of the addresses is one of QUIC.
pub open spec fn some_quic(addrs: Seq<Seq<ProtocolView>>) -> bool {
    exists|i: int| 0 <= i < addrs.len() && uses_quic(#[trigger] addrs[i])
}

/// There is an address for each transport in use.
pub open spec fn all_heard(config: TransportConfig, addrs: Seq<Seq<ProtocolView>>) -> bool {
    &&& config.tcp ==> some_tcp(addrs)
    &&& config.quic ==> some_quic(addrs)
}

/// The start before anything has happened.
pub open spec fn start_of(config: TransportConfig, relay: Option<RelayView>) -> StartView {
    StartView { config, relay, addrs: Seq::empty(), phase: Phase::Listening }
}

/// A listen address comes up while the start waits for those. Only one with an IP address and a port
/// counts.
pub open spec fn heard(s: StartView, ps: Seq<ProtocolView>) -> (StartView, StartAction) {
    if names_ip(ps) && names_port(ps) {
        let addrs = s.addrs.push(ps);
        if !all_heard(s.config, addrs) {
            (StartView { addrs, ..s }, StartAction::Wait)
        } else if s.relay is Some {
            (StartView { addrs, phase: Phase::DialingRelay, ..s }, StartAction::DialRelay)
        } else {
            (StartView { addrs, phase: Phase::Ready, ..s }, StartAction::Ready)
        }
    } else {
        (s, StartAction::Wait)
    }
}

/// How the start goes on when something happens.
pub open spec fn started(s: StartView, e: StartEventView) -> (StartView, StartAction) {
    match (s.phase, e) {
        (Phase::Ready, _) => (s, StartAction::Ready),
        (_, StartEventView::Ended) => (s, StartAction::Fail),
        (Phase::Listening, StartEventView::NewListenAddr(ps)) => heard(s, ps),
        (Phase::DialingRelay, StartEventView::Connected(peer)) => if s.relay is Some && (
        s.relay->0).peer == peer {
            (StartView { phase: Phase::Reserving, ..s }, StartAction::ListenOnRelay)
        } else {
            (s, StartAction::Wait)
        },
        (Phase::Reserving, StartEventView::NewListenAddr(ps)) => if uses_relay(ps) {
            (StartView { addrs: s.addrs.push(ps), phase: Phase::Ready, ..s }, StartAction::Ready)
        } else {
            (s, StartAction::Wait)
        },
        _ => (s, StartAction::Wait),
    }
}

fn any_tcp(addrs: &Vec<Multiaddr>) -> (r: bool)
    ensures
        r == some_tcp(address_views(addrs@)),
{
    let mut i: usize = 0;
    while i < addrs.len()
        invariant
            i <= addrs@.len(),
            forall|j: int| 0 <= j < i ==> !uses_tcp(#[trigger] address_views(addrs@)[j]),
        decreases addrs@.len() - i,
    {
        assert(address_views(addrs@)[i as int] == addrs@[i as int]@);
        if addrs[i].has_tcp() {
            return true;
        }
        i += 1;
    }
    false
}

fn any_quic(addrs: &Vec<Multiaddr>) -> (r: bool)
    ensures
        r == some_quic(address_views(addrs@)),
{
    let mut i: usize = 0;
    while i < addrs.len()
        invariant
            i <= addrs@.len(),
            forall|j: int| 0 <= j < i ==> !uses_quic(#[trigger] address_views(addrs@)[j]),
        decreases addrs@.len() - i,
    {
        assert(address_views(addrs@)[i as int] == addrs@[i as int]@);
        if addrs[i].has_quic() {
            return true;
        }
        i += 1;
    }
    false
}

impl Startup {
    /// Starts to wait.
    pub fn new(config: TransportConfig, relay: Option<RelayTarget>) -> (r: Self)
        ensures
            r@ == start_of(config, relay_view(relay)),
    {
        let r = Startup { config, relay, addrs: Vec::new(), phase: Phase::Listening };
        assert(r@ =~= start_of(config, relay_view(relay)));
        r
    }

    fn add(&mut self, m: Multiaddr)
        ensures
            final(self)@ == (StartView { addrs: old(self)@.addrs.push(m@), ..old(self)@ }),
    {
        let ghost before = self@;
        self.addrs.push(m);
        assert(self@ =~= (StartView { addrs: before.addrs.push(m@), ..before }));
    }

    /// Decides how the start goes on when something happens. See `started`.
    pub fn on_event(&mut self, e: StartEvent) -> (r: StartAction)
        ensures
            (final(self)@, r) == started(old(self)@, e@),
    {
        match (self.phase, e) {
            (Phase::Ready, _) => StartAction::Ready,
            (_, StartEvent::Ended) => StartAction::Fail,
            (Phase::Listening, StartEvent::NewListenAddr(m)) => {
                if !m.has_ip() || !m.has_port() {
                    return StartAction::Wait;
                }
                self.add(m);
                if (self.config.tcp && !any_tcp(&self.addrs)) || (self.config.quic && !any_quic(
                    &self.addrs,
                )) {
                    return StartAction::Wait;
                }
                if self.relay.is_some() {
                    self.phase = Phase::DialingRelay;
                    StartAction::DialRelay
                } else {
                    self.phase = Phase::Ready;
                    StartAction::Ready
                }
            },
            (Phase::DialingRelay, StartEvent::Connected(p)) => {
                let is_relay = match &self.relay {
                    Some(t) => t.peer_id.same(&p),
                    None => false,
                };
                if is_relay {
                    self.phase = Phase::Reserving;
                    StartAction::ListenOnRelay
                } else {
                    StartAction::Wait
                }
            },
            (Phase::Reserving, StartEvent::NewListenAddr(m)) => {
                if m.has_circuit() {
                    self.add(m);
                    self.phase = Phase::Ready;
                    StartAction::Ready
                } else {
                    StartAction::Wait
                }
            },
            _ => StartAction::Wait,
        }
    }
}

/// What holds of the start in each phase.
pub open spec fn start_in_order(s: StartView) -> bool {
    match s.phase {
        Phase::Listening => true,
        Phase::DialingRelay | Phase::Reserving => s.relay is Some && all_heard(s.config, s.addrs),
        Phase::Ready => {
            &&& all_heard(s.config, s.addrs)
            &&& s.relay is Some ==> exists|i: int|
                0 <= i < s.addrs.len() && uses_relay(#[trigger] s.addrs[i])
        },
    }
}

proof fn still_heard(config: TransportConfig, addrs: Seq<Seq<ProtocolView>>, ps: Seq<ProtocolView>)
    requires
        all_heard(config, addrs),
    ensures
        all_heard(config, addrs.push(ps)),
{
    let more = addrs.push(ps);
    if config.tcp {
        let i = choose|i: int| 0 <= i < addrs.len() && uses_tcp(#[trigger] addrs[i]);
        assert(more[i] == addrs[i]);
    }
    if config.quic {
        let i = choose|i: int| 0 <= i < addrs.len() && uses_quic(#[trigger] addrs[i]);
        assert(more[i] == addrs[i]);
    }
}

/// The start is over only when there is an address for each transport in use and, where a relay is
/// used, one that goes through it. So there is an address at all.
pub proof fn law_ready_means_reachable(
    config: TransportConfig,
    relay: Option<RelayView>,
    s: StartView,
    e: StartEventView,
)
    requires
        start_in_order(s),
    ensures
        start_in_order(start_of(config, relay)),
        start_in_order(started(s, e).0),
        started(s, e).1 == StartAction::Ready <==> started(s, e).0.phase == Phase::Ready,
        started(s, e).0.phase == Phase::Ready && (s.config.tcp || s.config.quic) ==> started(
            s,
            e,
        ).0.addrs.len() > 0,
{
    if s.phase == Phase::Reserving {
        if let StartEventView::NewListenAddr(ps) = e {
            still_heard(s.config, s.addrs, ps);
            assert(s.addrs.push(ps)[s.addrs.len() as int] == ps);
        }
    }
}

} // verus!
