//! One client's streaming session, as decisions from state and event to next
//! state and action. The caller performs each action and reports back.

use crate::bus::{
    deliveries, drain, lag_report, lemma_drain_shape, readable, window_start, Recv,
};
use vstd::prelude::*;

verus! {

#[verifier::external_type_specification]
#[verifier::external_body]
pub struct ExJsonError(serde_json::Error);

/// A lowercase hexadecimal digit.
pub open spec fn hex_digit(n: u32) -> char {
    seq!['0', '1', '2', '3', '4', '5', '6', '7', '8', '9', 'a', 'b', 'c', 'd', 'e', 'f'][n as int]
}

/// One character inside a JSON string literal: quote and backslash are
/// escaped, the common control characters get their short escape, the other
/// control characters a `\u00XX` escape, and everything else stands as is.
pub open spec fn escape_char(c: char) -> Seq<char> {
    if c == '"' {
        seq!['\\', '"']
    } else if c == '\\' {
        seq!['\\', '\\']
    } else if c == '\x08' {
        seq!['\\', 'b']
    } else if c == '\t' {
        seq!['\\', 't']
    } else if c == '\n' {
        seq!['\\', 'n']
    } else if c == '\x0c' {
        seq!['\\', 'f']
    } else if c == '\r' {
        seq!['\\', 'r']
    } else if (c as u32) < 0x20 {
        seq!['\\', 'u', '0', '0', hex_digit((c as u32) / 16), hex_digit((c as u32) % 16)]
    } else {
        seq![c]
    }
}

/// Every character of `s`, escaped.
pub open spec fn escape_all(s: Seq<char>) -> Seq<char>
    decreases s.len(),
{
    if s.len() == 0 {
        seq![]
    } else {
        escape_char(s[0]) + escape_all(s.drop_first())
    }
}

/// The JSON string literal for `s`: the wire form of an event.
pub open spec fn json_string(s: Seq<char>) -> Seq<char> {
    seq!['"'] + escape_all(s) + seq!['"']
}

/// Relies on `serde_json::to_string` on a string: it writes the string
/// literal into a `Vec`, which cannot fail, escaping only `"`, `\` and the
/// control characters below 0x20.
#[verifier::external_body]
fn encode_json(event: &String) -> (r: Result<String, serde_json::Error>)
    ensures
        r is Ok,
        r matches Ok(t) ==> t@ == json_string(event@),
{
    serde_json::to_string(event)
}

/// The frame a streaming session writes for what its subscription returned.
pub open spec fn frame_of(recv: Recv) -> Option<Seq<char>> {
    match recv {
        Recv::Event(e) => Some(json_string(e@)),
        _ => None,
    }
}

/// The frames a streaming session writes, all writes succeeding, for what
/// its subscription returned, in order.
pub open spec fn session_frames(rs: Seq<Recv>) -> Seq<Seq<char>>
    decreases rs.len(),
{
    if rs.len() == 0 {
        seq![]
    } else {
        match frame_of(rs[0]) {
            Some(t) => seq![t] + session_frames(rs.drop_first()),
            None => session_frames(rs.drop_first()),
        }
    }
}

/// The wire form of each event.
pub open spec fn wire(events: Seq<String>) -> Seq<Seq<char>> {
    events.map_values(|e: String| json_string(e@))
}

/// An event that could not be put in wire form.
#[derive(Debug, Clone, Copy, PartialEq, Eq)]
pub struct EncodeError;

/// Where a session is in its life.
#[derive(Debug, Clone, Copy, PartialEq, Eq)]
pub enum SessionState {
    /// Waiting for the protocol upgrade.
    Upgrading,
    /// Subscribed and forwarding events.
    Streaming,
    /// Finished; a new session is needed to receive again.
    Closed,
}

/// What happened since the last step.
#[derive(Debug, PartialEq, Eq)]
pub enum SessionEvent {
    /// The connection was upgraded.
    Upgraded,
    /// The upgrade failed.
    UpgradeFailed,
    /// The subscription's `next` returned this.
    Received(Recv),
    /// The last frame was written.
    Sent,
    /// Writing to the connection failed.
    SendFailed,
}

/// What the caller does next.
#[derive(Debug, PartialEq, Eq)]
pub enum SessionAction {
    /// Subscribe to the bus, then ask it for the next event.
    Subscribe,
    /// Ask the subscription for its next event.
    Receive,
    /// Suspend until something is published, then ask again.
    Wait,
    /// Write this text frame to the connection.
    Send(String),
    /// Drop the subscription and the connection.
    Release,
    /// Nothing: the session is over.
    Stop,
}

/// Sends the encoded event; an event that could not be encoded ends the
/// session, since skipping it would hide a gap from the client.
pub fn after_encoding(encoded: Result<String, EncodeError>) -> (r: (SessionState, SessionAction))
    ensures
        encoded matches Ok(t) ==> (r.0 == SessionState::Streaming && r.1 == SessionAction::Send(t)),
        encoded is Err ==> r == (SessionState::Closed, SessionAction::Release),
{
    match encoded {
        Ok(t) => (SessionState::Streaming, SessionAction::Send(t)),
        Err(_) => (SessionState::Closed, SessionAction::Release),
    }
}

/// The wire form of an event.
pub fn encode_event(event: &String) -> (r: Result<String, EncodeError>)
    ensures
        r matches Ok(t) && t@ == json_string(event@),
{
    match encode_json(event) {
        Ok(t) => Ok(t),
        Err(_) => Err(EncodeError),
    }
}

impl SessionState {
    /// Decides the next state and action. A lag report is skipped and the
    /// session reads on from the oldest retained event.
    pub fn step(self, event: SessionEvent) -> (r: (SessionState, SessionAction))
        ensures
            self == SessionState::Closed ==> r == (SessionState::Closed, SessionAction::Stop),
            self == SessionState::Upgrading ==> r == match event {
                SessionEvent::Upgraded => (SessionState::Streaming, SessionAction::Subscribe),
                _ => (SessionState::Closed, SessionAction::Release),
            },
            self == SessionState::Streaming ==> (event matches SessionEvent::Received(recv) ==> (
            frame_of(recv) is Some <==> r.1 is Send) && (r.1 matches SessionAction::Send(t)
                ==> frame_of(recv) == Some(t@))),
            self == SessionState::Streaming ==> match event {
                SessionEvent::Received(Recv::Event(e)) => r.0 == SessionState::Streaming && (
                r.1 matches SessionAction::Send(t) && t@ == json_string(e@)),
                SessionEvent::Received(Recv::Lagged(_)) => r == (
                    SessionState::Streaming,
                    SessionAction::Receive,
                ),
                SessionEvent::Received(Recv::Empty) => r == (SessionState::Streaming, SessionAction::Wait),
                SessionEvent::Received(Recv::Closed) => r == (SessionState::Closed, SessionAction::Release),
                SessionEvent::Sent => r == (SessionState::Streaming, SessionAction::Receive),
                _ => r == (SessionState::Closed, SessionAction::Release),
            },
    {
        match self {
            SessionState::Closed => (SessionState::Closed, SessionAction::Stop),
            SessionState::Upgrading => match event {
                SessionEvent::Upgraded => (SessionState::Streaming, SessionAction::Subscribe),
                _ => (SessionState::Closed, SessionAction::Release),
            },
            SessionState::Streaming => match event {
                SessionEvent::Received(Recv::Event(e)) => after_encoding(encode_event(&e)),
                SessionEvent::Received(Recv::Lagged(_)) => (SessionState::Streaming, SessionAction::Receive),
                SessionEvent::Received(Recv::Empty) => (SessionState::Streaming, SessionAction::Wait),
                SessionEvent::Received(Recv::Closed) => (SessionState::Closed, SessionAction::Release),
                SessionEvent::Sent => (SessionState::Streaming, SessionAction::Receive),
                _ => (SessionState::Closed, SessionAction::Release),
            },
        }
    }
}

proof fn lemma_frames_of_deliveries(events: Seq<String>)
    ensures
        session_frames(deliveries(events)) == wire(events),
    decreases events.len(),
{
    if events.len() > 0 {
        lemma_frames_of_deliveries(events.drop_first());
        assert(deliveries(events).drop_first() =~= deliveries(events.drop_first()));
        assert(wire(events) =~= seq![json_string(events[0]@)] + wire(events.drop_first()));
    } else {
        assert(wire(events) =~= seq![]);
    }
}

/// A streaming session whose writes succeed sends, for any position of its
/// subscription, the wire form of every event it can still read, once each
/// and in publish order; a lag report sends nothing.
pub proof fn lemma_session_frames(events: Seq<String>, capacity: nat, cursor: nat)
    ensures
        session_frames(drain(events, capacity, cursor)) == wire(readable(events, capacity, cursor)),
{
    let d = deliveries(readable(events, capacity, cursor));
    lemma_drain_shape(events, capacity, cursor);
    lemma_frames_of_deliveries(readable(events, capacity, cursor));
    if cursor < window_start(events.len(), capacity) {
        assert((lag_report(events, capacity, cursor) + d).drop_first() =~= d);
    } else {
        assert(lag_report(events, capacity, cursor) + d =~= d);
    }
}

/// A session subscribed before `later` was published sends exactly the
/// wire form of `later`, in order, and nothing of `earlier`, when `later`
/// fits in the window.
pub proof fn lemma_session_sends_exactly_later(
    earlier: Seq<String>,
    later: Seq<String>,
    capacity: nat,
)
    requires
        later.len() <= capacity,
    ensures
        session_frames(drain(earlier + later, capacity, earlier.len())) == wire(later),
{
    let events = earlier + later;
    lemma_session_frames(events, capacity, earlier.len());
    assert(readable(events, capacity, earlier.len()) =~= later);
}

/// Two sessions send in one order: what the session further ahead sends is
/// the tail of what the other sends.
pub proof fn lemma_sessions_one_order(events: Seq<String>, capacity: nat, c1: nat, c2: nat)
    requires
        c1 <= c2 <= events.len(),
    ensures
        ({
            let f1 = session_frames(drain(events, capacity, c1));
            let f2 = session_frames(drain(events, capacity, c2));
            f2 == f1.subrange(f1.len() - f2.len(), f1.len() as int)
        }),
{
    lemma_session_frames(events, capacity, c1);
    lemma_session_frames(events, capacity, c2);
    let r1 = readable(events, capacity, c1);
    let r2 = readable(events, capacity, c2);
    assert(r2 =~= r1.subrange(r1.len() - r2.len(), r1.len() as int));
    assert(wire(r2) =~= wire(r1).subrange(r1.len() - r2.len(), r1.len() as int));
}

} // verus!
