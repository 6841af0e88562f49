use vstd::prelude::*;

verus! {

/// Where one accepted connection stands on its way to a relay session.
#[derive(Clone, Copy, Debug, PartialEq, Eq, Structural)]
pub enum SessionState {
    Listening,
    Accepted,
    HandshakeInFlight,
    Relaying,
    Closed,
}

/// What can happen to a connection attempt.
#[derive(Clone, Copy, Debug, PartialEq, Eq, Structural)]
pub enum SessionEvent {
    AcceptSucceeded,
    AcceptFailed,
    HandshakeStarted,
    HandshakeSucceeded,
    HandshakeFailed,
    PumpsFinished,
}

/// The next state after one event: an accepted connection negotiates the
/// transport and then relays until both pumps finish; a failed accept keeps
/// listening; a failed handshake is fatal for this one attempt. An event
/// that does not apply to the current state changes nothing, and Closed is
/// terminal: no event leaves it.
pub open spec fn spec_session_step(s: SessionState, e: SessionEvent) -> SessionState {
    match (s, e) {
        (SessionState::Listening, SessionEvent::AcceptSucceeded) => SessionState::Accepted,
        (SessionState::Listening, SessionEvent::AcceptFailed) => SessionState::Listening,
        (SessionState::Accepted, SessionEvent::HandshakeStarted) => SessionState::HandshakeInFlight,
        (SessionState::HandshakeInFlight, SessionEvent::HandshakeSucceeded) => (
        SessionState::Relaying),
        (SessionState::HandshakeInFlight, SessionEvent::HandshakeFailed) => SessionState::Closed,
        (SessionState::Relaying, SessionEvent::PumpsFinished) => SessionState::Closed,
        (_, _) => s,
    }
}

/// Drives a session one event forward.
pub fn session_step(s: SessionState, e: SessionEvent) -> (r: SessionState)
    ensures
        r == spec_session_step(s, e),
{
    match (s, e) {
        (SessionState::Listening, SessionEvent::AcceptSucceeded) => SessionState::Accepted,
        (SessionState::Listening, SessionEvent::AcceptFailed) => SessionState::Listening,
        (SessionState::Accepted, SessionEvent::HandshakeStarted) => SessionState::HandshakeInFlight,
        (SessionState::HandshakeInFlight, SessionEvent::HandshakeSucceeded) => {
            SessionState::Relaying
        },
        (SessionState::HandshakeInFlight, SessionEvent::HandshakeFailed) => SessionState::Closed,
        (SessionState::Relaying, SessionEvent::PumpsFinished) => SessionState::Closed,
        (_, _) => s,
    }
}

/// Closed is terminal and idempotent: however many further events arrive, a
/// closed session stays closed.
pub proof fn lemma_closed_is_terminal(events: Seq<SessionEvent>)
    ensures
        spec_session_run(SessionState::Closed, events) == SessionState::Closed,
    decreases events.len(),
{
    if events.len() > 0 {
        lemma_closed_is_terminal(events.drop_first());
    }
}

/// The state after a whole run of events.
pub open spec fn spec_session_run(s: SessionState, events: Seq<SessionEvent>) -> SessionState
    decreases events.len(),
{
    if events.len() == 0 {
        s
    } else {
        spec_session_run(spec_session_step(s, events[0]), events.drop_first())
    }
}

} // verus!
