//! Sending to a peer: one sender for each peer, and retries where a stream breaks.

use crate::peer::PeerId;
use crate::peer_map::PeerMap;
use vstd::prelude::*;

verus! {

/// The name of the protocol on its streams.
pub const MERCURY_PROTOCOL: &'static str = "/mercury-na/1.0.0";

/// How often a message is tried.
pub const MAX_ATTEMPTS: u32 = 3;

// ---------------------------------------------------------------------------
//  The senders
// ---------------------------------------------------------------------------

/// The senders that are in use, at most one for each peer. All messages to a peer go through its
/// sender, one at a time.
#[derive(Debug)]
pub struct PeerSenderPool<S> {
    pub senders: PeerMap<S>,
}

impl<S> View for PeerSenderPool<S> {
    type V = Map<Seq<u8>, S>;

    open spec fn view(&self) -> Map<Seq<u8>, S> {
        self.senders@
    }
}

impl<S> PeerSenderPool<S> {
    /// No sender is in use.
    pub fn new() -> (r: Self)
        ensures
            r@ == Map::<Seq<u8>, S>::empty(),
    {
        PeerSenderPool { senders: PeerMap::new() }
    }

    /// The sender of a peer.
    pub fn find(&self, peer: &PeerId) -> (r: Option<&S>)
        ensures
            match r {
                Some(s) => self@.dom().contains(peer@) && *s == self@[peer@],
                None => !self@.dom().contains(peer@),
            },
    {
        self.senders.get(peer)
    }

    /// The sender to use for a peer: the one that is there, unless it was found closed. Where there
    /// is none to use, a new one is to be made and installed.
    pub fn get_or_create(&self, peer: &PeerId, closed: bool) -> (r: Option<&S>)
        ensures
            match r {
                Some(s) => !closed && self@.dom().contains(peer@) && *s == self@[peer@],
                None => closed || !self@.dom().contains(peer@),
            },
    {
        if closed {
            None
        } else {
            self.senders.get(peer)
        }
    }

    /// Takes a new sender into use, in place of the one that the peer had.
    pub fn install(&mut self, peer: PeerId, sender: S)
        ensures
            final(self)@ == old(self)@.insert(peer@, sender),
    {
        self.senders.insert(peer, sender);
    }

    /// Forgets the sender of a peer.
    pub fn remove(&mut self, peer: &PeerId)
        ensures
            final(self)@ == old(self)@.remove(peer@),
    {
        self.senders.remove(peer);
    }
}

// ---------------------------------------------------------------------------
//  One message
// ---------------------------------------------------------------------------

/// How far the sending of one message has come.
#[derive(Debug, Clone, Copy, PartialEq, Eq, Structural)]
pub struct Sending {
    /// How many attempts have failed.
    pub attempt: u32,
    /// Whether a stream to the peer is open.
    pub has_stream: bool,
}

/// What is to be done next for a message.
#[derive(Debug, Clone, Copy, PartialEq, Eq, Structural)]
pub enum SendStep {
    /// Open a stream.
    Open,
    /// Write the message on the stream.
    Write,
}

/// What came of a step.
#[derive(Debug, Clone, Copy, PartialEq, Eq, Structural)]
pub enum SendEvent {
    Opened,
    OpenFailed,
    Written,
    WriteFailed,
}

/// How it goes on after a step.
#[derive(Debug, Clone, Copy, PartialEq, Eq, Structural)]
pub enum SendNext {
    /// With the next step.
    Continue(Sending),
    /// With the next step, after a pause. A stream on which a write failed is dropped.
    Backoff { millis: u64, next: Sending },
    /// The message is sent; the stream stays open for the next one.
    Sent,
    /// The message is not sent, and no stream is open. This is reported after a last pause.
    GiveUp { millis: u64 },
}

/// Where the sending of a message starts.
pub open spec fn sending_from(has_stream: bool) -> Sending {
    Sending { attempt: 0, has_stream }
}

/// What is to be done next.
pub open spec fn step_of(s: Sending) -> SendStep {
    if s.has_stream {
        SendStep::Write
    } else {
        SendStep::Open
    }
}

/// What can come of a step.
pub open spec fn can_follow(s: Sending, e: SendEvent) -> bool {
    match e {
        SendEvent::Opened | SendEvent::OpenFailed => !s.has_stream,
        SendEvent::Written | SendEvent::WriteFailed => s.has_stream,
    }
}

/// How long the pause after a failed attempt is: twenty milliseconds after the first, twice as long
/// after each further one.
pub open spec fn backoff_millis(attempt: nat) -> nat
    decreases attempt,
{
    if attempt == 0 {
        20
    } else {
        2 * backoff_millis((attempt - 1) as nat)
    }
}

/// How it goes on after a failed attempt.
pub open spec fn after_failure(s: Sending) -> SendNext {
    if s.attempt + 1 < MAX_ATTEMPTS {
        SendNext::Backoff {
            millis: backoff_millis(s.attempt as nat) as u64,
            next: Sending { attempt: (s.attempt + 1) as u32, has_stream: false },
        }
    } else {
        SendNext::GiveUp { millis: backoff_millis((MAX_ATTEMPTS - 1) as nat) as u64 }
    }
}

/// How it goes on after a step.
pub open spec fn after_event(s: Sending, e: SendEvent) -> SendNext {
    match e {
        SendEvent::Opened => SendNext::Continue(Sending { has_stream: true, ..s }),
        SendEvent::Written => SendNext::Sent,
        SendEvent::OpenFailed | SendEvent::WriteFailed => after_failure(s),
    }
}

impl Sending {
    /// Starts to send a message, on the stream that is open, if there is one.
    pub fn start(has_stream: bool) -> (r: Self)
        ensures
            r == sending_from(has_stream),
    {
        Sending { attempt: 0, has_stream }
    }

    /// What is to be done next.
    pub fn step(&self) -> (r: SendStep)
        ensures
            r == step_of(*self),
    {
        if self.has_stream {
            SendStep::Write
        } else {
            SendStep::Open
        }
    }

    /// How it goes on after a step.
    pub fn on_event(self, e: SendEvent) -> (r: SendNext)
        ensures
            r == after_event(self, e),
    {
        match e {
            SendEvent::Opened => SendNext::Continue(
                Sending { attempt: self.attempt, has_stream: true },
            ),
            SendEvent::Written => SendNext::Sent,
            SendEvent::OpenFailed | SendEvent::WriteFailed => if self.attempt < MAX_ATTEMPTS - 1 {
                assert(backoff_millis(0) == 20 && backoff_millis(1) == 40) by {
                    reveal_with_fuel(backoff_millis, 3);
                }
                let millis: u64 = if self.attempt == 0 {
                    20
                } else {
                    40
                };
                SendNext::Backoff {
                    millis,
                    next: Sending { attempt: self.attempt + 1, has_stream: false },
                }
            } else {
                assert(backoff_millis(2) == 80) by {
                    reveal_with_fuel(backoff_millis, 4);
                }
                SendNext::GiveUp { millis: 80 }
            },
        }
    }
}

// ---------------------------------------------------------------------------
//  The whole course of it
// ---------------------------------------------------------------------------

/// How the sending of one message stands.
pub enum Course {
    Going(Sending),
    Sent,
    GaveUp,
}

/// How the sending stands after some events.
pub open spec fn course(has_stream: bool, events: Seq<SendEvent>) -> Course
    decreases events.len(),
{
    if events.len() == 0 {
        Course::Going(sending_from(has_stream))
    } else {
        match course(has_stream, events.drop_last()) {
            Course::Going(s) => match after_event(s, events.last()) {
                SendNext::Continue(next) => Course::Going(next),
                SendNext::Backoff { next, .. } => Course::Going(next),
                SendNext::Sent => Course::Sent,
                SendNext::GiveUp { .. } => Course::GaveUp,
            },
            ended => ended,
        }
    }
}

/// The events are such as can happen: each comes of the step that was to be done, and none comes
/// after the end.
pub open spec fn can_happen(has_stream: bool, events: Seq<SendEvent>) -> bool
    decreases events.len(),
{
    events.len() == 0 || {
        &&& can_happen(has_stream, events.drop_last())
        &&& course(has_stream, events.drop_last()) matches Course::Going(s) && can_follow(
            s,
            events.last(),
        )
    }
}

/// The pauses that were made, in order.
pub open spec fn pauses(has_stream: bool, events: Seq<SendEvent>) -> Seq<u64>
    decreases events.len(),
{
    if events.len() == 0 {
        Seq::empty()
    } else {
        let before = pauses(has_stream, events.drop_last());
        match course(has_stream, events.drop_last()) {
            Course::Going(s) => match after_event(s, events.last()) {
                SendNext::Backoff { millis, .. } => before.push(millis),
                SendNext::GiveUp { millis } => before.push(millis),
                _ => before,
            },
            _ => before,
        }
    }
}

/// How many attempts failed.
pub open spec fn failures(events: Seq<SendEvent>) -> nat
    decreases events.len(),
{
    if events.len() == 0 {
        0
    } else {
        failures(events.drop_last()) + if events.last() is OpenFailed || events.last() is WriteFailed {
            1nat
        } else {
            0nat
        }
    }
}

/// How many times the message was written, whole or not.
pub open spec fn writes(events: Seq<SendEvent>) -> nat
    decreases events.len(),
{
    if events.len() == 0 {
        0
    } else {
        writes(events.drop_last()) + if events.last() is Written || events.last() is WriteFailed {
            1nat
        } else {
            0nat
        }
    }
}

/// A message is given up exactly when its third attempt has failed, and is never written more than
/// three times. After each failed attempt there is a pause, each twice as long as the one before: of
/// a message that is given up, twenty, forty and eighty milliseconds.
pub proof fn law_three_attempts(has_stream: bool, events: Seq<SendEvent>)
    requires
        can_happen(has_stream, events),
    ensures
        match course(has_stream, events) {
            Course::Going(s) => s.attempt == failures(events) && failures(events) < MAX_ATTEMPTS
                && writes(events) <= failures(events),
            Course::Sent => failures(events) < MAX_ATTEMPTS && writes(events) <= failures(events) + 1,
            Course::GaveUp => failures(events) == MAX_ATTEMPTS && writes(events) <= failures(events),
        },
        pauses(has_stream, events).len() == failures(events),
        course(has_stream, events) is GaveUp ==> pauses(has_stream, events) == seq![20u64, 40, 80],
        forall|i: int|
            0 <= i < pauses(has_stream, events).len() ==> #[trigger] pauses(has_stream, events)[i]
                == backoff_millis(i as nat),
    decreases events.len(),
{
    reveal_with_fuel(backoff_millis, 4);
    if events.len() > 0 {
        law_three_attempts(has_stream, events.drop_last());
    }
    let made = pauses(has_stream, events);
    if course(has_stream, events) is GaveUp {
        assert(made[0] == 20 && made[1] == 40 && made[2] == 80);
        assert(made == seq![20u64, 40, 80]);
    }
}

} // verus!
