//! How the sending of a message and the start of the network side go on, step by step.

use crate::multiaddr::{multiaddr_of_text, ProtocolView};
use crate::sender::{
    after_event, can_follow, can_happen, course, failures, sending_from, step_of, Course, SendEvent,
    SendNext, SendStep, Sending, MERCURY_PROTOCOL,
};
use crate::startup::{
    all_heard, relay_of, relay_of_text, start_of, started, Phase, RelayView, StartAction,
    StartEventView, StartView,
};
use crate::transport::{TransportConfig, TransportHint};
use crate::transport_laws::{holds_hinted, law_address_components, law_identity_at_the_end};
use vstd::prelude::*;

verus! {

// ---------------------------------------------------------------------------
//  Sending
// ---------------------------------------------------------------------------

/// The message is written on the stream that is open; where none is, one is opened. Only what can come
/// of that step follows.
pub proof fn law_send_step(s: Sending, e: SendEvent, has_stream: bool)
    ensures
        step_of(s) == SendStep::Write <==> s.has_stream,
        step_of(s) == SendStep::Open <==> !s.has_stream,
        can_follow(s, e) <==> (step_of(s) == SendStep::Write) == (e == SendEvent::Written || e
            == SendEvent::WriteFailed),
        sending_from(has_stream).attempt == 0,
        sending_from(has_stream).has_stream == has_stream,
{
}

/// An opened stream is there for the next step, and costs no attempt. A written message is sent. After
/// the first failure there is a pause of twenty milliseconds, after the second one of forty; both
/// times it goes on without a stream. After the third there is one of eighty, and the message is given
/// up.
pub proof fn law_send_goes_on(s: Sending, e: SendEvent)
    ensures
        e == SendEvent::Opened ==> after_event(s, e) == SendNext::Continue(
            Sending { attempt: s.attempt, has_stream: true },
        ),
        e == SendEvent::Written ==> after_event(s, e) == SendNext::Sent,
        e == SendEvent::OpenFailed || e == SendEvent::WriteFailed ==> {
            &&& s.attempt == 0 ==> after_event(s, e) == (SendNext::Backoff {
                millis: 20,
                next: Sending { attempt: 1, has_stream: false },
            })
            &&& s.attempt == 1 ==> after_event(s, e) == (SendNext::Backoff {
                millis: 40,
                next: Sending { attempt: 2, has_stream: false },
            })
            &&& s.attempt >= 2 ==> after_event(s, e) == (SendNext::GiveUp { millis: 80 })
        },
{
    reveal_with_fuel(crate::sender::backoff_millis, 4);
}

/// A message counts as sent exactly if the last thing that happened is that it was written, and as
/// given up exactly if three attempts have failed. Until then a stream is open exactly if the last
/// thing that happened is that it was opened, or nothing has happened and one was open before.
pub proof fn law_sent_means_written(has_stream: bool, events: Seq<SendEvent>)
    requires
        can_happen(has_stream, events),
    ensures
        course(has_stream, events) is Sent <==> events.len() > 0 && events.last() == SendEvent::Written,
        course(has_stream, events) is GaveUp <==> failures(events) == 3,
        course(has_stream, events) matches Course::Going(s) ==> {
            &&& failures(events) < 3
            &&& s.attempt == failures(events)
            &&& events.len() == 0 ==> s.has_stream == has_stream
            &&& events.len() > 0 ==> (s.has_stream <==> events.last() == SendEvent::Opened)
        },
    decreases events.len(),
{
    if events.len() > 0 {
        law_sent_means_written(has_stream, events.drop_last());
    }
}

/// The name under which peers open streams to each other.
pub proof fn law_stream_protocol()
    ensures
        MERCURY_PROTOCOL@ == "/mercury-na/1.0.0"@,
{
}

// ---------------------------------------------------------------------------
//  Start
// ---------------------------------------------------------------------------

/// The address names a host and a port.
pub open spec fn can_be_reached(ps: Seq<ProtocolView>) -> bool {
    &&& {
        ||| exists|a: u32| #[trigger] ps.contains(ProtocolView::Ip4(a))
        ||| exists|a: u128| #[trigger] ps.contains(ProtocolView::Ip6(a))
    }
    &&& {
        ||| exists|port: u16| #[trigger] ps.contains(ProtocolView::Tcp(port))
        ||| exists|port: u16| #[trigger] ps.contains(ProtocolView::Udp(port))
    }
}

/// There is a TCP address if TCP is in use, and one of QUIC if that is.
pub open spec fn enough(config: TransportConfig, addrs: Seq<Seq<ProtocolView>>) -> bool {
    &&& config.tcp ==> exists|i: int|
        0 <= i < addrs.len() && holds_hinted(#[trigger] addrs[i], TransportHint::Tcp)
    &&& config.quic ==> exists|i: int|
        0 <= i < addrs.len() && holds_hinted(#[trigger] addrs[i], TransportHint::Quic)
}

proof fn heard_is_enough(config: TransportConfig, addrs: Seq<Seq<ProtocolView>>)
    ensures
        all_heard(config, addrs) <==> enough(config, addrs),
{
    assert forall|i: int| 0 <= i < addrs.len() implies {
        &&& crate::multiaddr::uses_tcp(#[trigger] addrs[i]) == holds_hinted(
            addrs[i],
            TransportHint::Tcp,
        )
        &&& crate::multiaddr::uses_quic(addrs[i]) == holds_hinted(addrs[i], TransportHint::Quic)
    } by {
        law_address_components(addrs[i]);
    }
}

/// At first no address is there, and the start waits for listen addresses.
pub proof fn law_start_begins(config: TransportConfig, relay: Option<RelayView>)
    ensures
        start_of(config, relay).config == config,
        start_of(config, relay).relay == relay,
        start_of(config, relay).addrs.len() == 0,
        start_of(config, relay).phase == Phase::Listening,
{
}

/// While the start waits for listen addresses, each one with a host and a port is kept, behind those
/// before; others change nothing. As soon as there is one for each transport in use the relay is
/// dialled, or, where none is used, all is there.
pub proof fn law_start_hears_an_address(s: StartView, ps: Seq<ProtocolView>)
    requires
        s.phase == Phase::Listening,
    ensures
        ({
            let (after, action) = started(s, StartEventView::NewListenAddr(ps));
            &&& after.config == s.config
            &&& after.relay == s.relay
            &&& !can_be_reached(ps) ==> after == s && action == StartAction::Wait
            &&& can_be_reached(ps) ==> {
                &&& after.addrs == s.addrs.push(ps)
                &&& !enough(s.config, s.addrs.push(ps)) ==> after.phase == Phase::Listening && action
                    == StartAction::Wait
                &&& enough(s.config, s.addrs.push(ps)) && s.relay is Some ==> after.phase
                    == Phase::DialingRelay && action == StartAction::DialRelay
                &&& enough(s.config, s.addrs.push(ps)) && s.relay is None ==> after.phase
                    == Phase::Ready && action == StartAction::Ready
            }
        }),
{
    law_address_components(ps);
    heard_is_enough(s.config, s.addrs.push(ps));
}

/// Once the relay is dialled only a connection to that peer counts; the start then listens there. Once
/// it listens there only an address through a relay counts; it is kept, and all is there.
pub proof fn law_start_uses_the_relay(s: StartView, peer: Seq<u8>, ps: Seq<ProtocolView>)
    ensures
        s.phase == Phase::DialingRelay && s.relay is Some && (s.relay->0).peer == peer ==> started(
            s,
            StartEventView::Connected(peer),
        ) == (StartView { phase: Phase::Reserving, ..s }, StartAction::ListenOnRelay),
        s.phase == Phase::DialingRelay && !(s.relay is Some && (s.relay->0).peer == peer) ==> started(
            s,
            StartEventView::Connected(peer),
        ) == (s, StartAction::Wait),
        s.phase == Phase::DialingRelay ==> started(s, StartEventView::NewListenAddr(ps)) == (
            s,
            StartAction::Wait,
        ),
        s.phase == Phase::Reserving && ps.contains(ProtocolView::P2pCircuit) ==> started(
            s,
            StartEventView::NewListenAddr(ps),
        ) == (
            StartView { addrs: s.addrs.push(ps), phase: Phase::Ready, ..s },
            StartAction::Ready,
        ),
        s.phase == Phase::Reserving && !ps.contains(ProtocolView::P2pCircuit) ==> started(
            s,
            StartEventView::NewListenAddr(ps),
        ) == (s, StartAction::Wait),
        s.phase == Phase::Reserving || s.phase == Phase::Listening ==> started(
            s,
            StartEventView::Connected(peer),
        ) == (s, StartAction::Wait),
{
    law_address_components(ps);
}

/// When nothing more will happen before all is there, the start fails. When all is there, nothing
/// changes any more. What does not concern the start changes nothing.
pub proof fn law_start_ends(s: StartView, e: StartEventView)
    ensures
        s.phase != Phase::Ready ==> started(s, StartEventView::Ended) == (s, StartAction::Fail),
        s.phase != Phase::Ready ==> started(s, StartEventView::Other) == (s, StartAction::Wait),
        s.phase == Phase::Ready ==> started(s, e) == (s, StartAction::Ready),
{
}

/// A full address of a relay server is its transport address with its identity at the end. The server
/// is dialled at the one, and the circuit is the other with that component behind it. An address
/// without an identity at the end names no server, nor does a text that is no address.
pub proof fn law_relay_of_full_address(ps: Seq<ProtocolView>, id: Seq<u8>, text: Seq<char>)
    ensures
        ({
            let full = ps.push(ProtocolView::P2p(id));
            relay_of(full) == Some(
                RelayView { peer: id, transport: ps, circuit: full.push(ProtocolView::P2pCircuit) },
            )
        }),
        relay_of(ps) matches Some(r) ==> ps == r.transport.push(ProtocolView::P2p(r.peer)),
        relay_of(ps) is None <==> ps.len() == 0 || !(ps.last() is P2p),
        multiaddr_of_text(text) is None ==> relay_of_text(text) is None,
        multiaddr_of_text(text) matches Some(qs) ==> relay_of_text(text) == relay_of(qs),
{
    law_identity_at_the_end(ps, id);
}

} // verus!
