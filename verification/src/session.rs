//! The life of one observer connection, as a state machine.
//!
//! The transport is driven elsewhere. Whoever drives it reports what happened
//! as a [`SessionEvent`] and carries out the [`SessionAction`] it gets back.

use vstd::prelude::*;

verus! {

/// Where a connection stands.
#[derive(Clone, Copy, Debug, PartialEq, Eq, Structural)]
pub enum SessionPhase {
    /// The transport handshake is under way.
    Connecting,
    /// Payloads are forwarded and inbound frames are read.
    Active,
    /// One of the two duties has ended; the other is being stopped.
    Closing,
    /// Nothing runs any more.
    Closed,
}

/// An inbound transport frame, as far as the session cares.
#[derive(Debug, PartialEq, Eq)]
pub enum Frame {
    /// A liveness probe with its payload.
    Ping(Vec<u8>),
    /// The client asks to close.
    Close,
    /// Anything else; observers have nothing to say.
    Other,
}

/// Something that happened on a connection.
#[derive(Debug, PartialEq, Eq)]
pub enum SessionEvent {
    /// The transport handshake completed.
    Upgraded,
    /// The observer's channel yielded a payload.
    Payload(String),
    /// The observer's channel was closed.
    ChannelClosed,
    /// An outbound frame could not be sent.
    SendFailed,
    /// An inbound frame arrived.
    Inbound(Frame),
    /// The inbound stream ended or failed.
    InboundEnded,
    /// Both duties have come to rest.
    DutiesStopped,
}

/// What to do about an event.
#[derive(Debug, PartialEq, Eq)]
pub enum SessionAction {
    /// Register the observer and send it the initial snapshot, if there is one.
    Admit,
    /// Send this payload as the next outbound frame.
    Forward(String),
    /// Answer a liveness probe, echoing its payload.
    AnswerProbe(Vec<u8>),
    /// Stop both duties and abandon the channel.
    StopDuties,
    /// Nothing.
    Nothing,
}

impl SessionPhase {
    /// How far along its life a connection is.
    pub open spec fn rank(self) -> nat {
        match self {
            SessionPhase::Connecting => 0,
            SessionPhase::Active => 1,
            SessionPhase::Closing => 2,
            SessionPhase::Closed => 3,
        }
    }

    /// Whether the connection has run its course.
    pub fn is_closed(&self) -> (closed: bool)
        ensures
            closed == (*self == SessionPhase::Closed),
    {
        match self {
            SessionPhase::Closed => true,
            _ => false,
        }
    }
}

/// Whether `event` means that one of the two duties has ended: the channel is
/// closed, a frame could not be sent, the client asked to close, or the inbound
/// stream is over.
pub open spec fn ends_a_duty(event: SessionEvent) -> bool {
    match event {
        SessionEvent::ChannelClosed => true,
        SessionEvent::SendFailed => true,
        SessionEvent::InboundEnded => true,
        SessionEvent::Inbound(Frame::Close) => true,
        _ => false,
    }
}

/// The transition function: the next phase and the action to take.
///
/// - While connecting, a completed handshake activates the session and admits
///   the observer; the end of a duty closes the session at once, since nothing
///   has been started yet.
/// - While active, payloads are forwarded, probes are answered, and the end of
///   either duty starts the shutdown.
/// - While closing, only the report that both duties have stopped matters.
/// - A closed session stays closed and does nothing.
pub open spec fn next(phase: SessionPhase, event: SessionEvent) -> (SessionPhase, SessionAction) {
    match phase {
        SessionPhase::Connecting => match event {
            SessionEvent::Upgraded => (SessionPhase::Active, SessionAction::Admit),
            _ => if ends_a_duty(event) {
                (SessionPhase::Closed, SessionAction::Nothing)
            } else {
                (SessionPhase::Connecting, SessionAction::Nothing)
            },
        },
        SessionPhase::Active => match event {
            SessionEvent::Payload(payload) => (SessionPhase::Active, SessionAction::Forward(payload)),
            SessionEvent::Inbound(Frame::Ping(probe)) => (
                SessionPhase::Active,
                SessionAction::AnswerProbe(probe),
            ),
            SessionEvent::DutiesStopped => (SessionPhase::Closed, SessionAction::Nothing),
            _ => if ends_a_duty(event) {
                (SessionPhase::Closing, SessionAction::StopDuties)
            } else {
                (SessionPhase::Active, SessionAction::Nothing)
            },
        },
        SessionPhase::Closing => match event {
            SessionEvent::DutiesStopped => (SessionPhase::Closed, SessionAction::Nothing),
            _ => (SessionPhase::Closing, SessionAction::Nothing),
        },
        SessionPhase::Closed => (SessionPhase::Closed, SessionAction::Nothing),
    }
}

/// Advances a session by one event.
pub fn step(phase: SessionPhase, event: SessionEvent) -> (outcome: (SessionPhase, SessionAction))
    ensures
        outcome == next(phase, event),
{
    match phase {
        SessionPhase::Connecting => match event {
            SessionEvent::Upgraded => (SessionPhase::Active, SessionAction::Admit),
            SessionEvent::ChannelClosed
            | SessionEvent::SendFailed
            | SessionEvent::InboundEnded
            | SessionEvent::Inbound(Frame::Close) => (SessionPhase::Closed, SessionAction::Nothing),
            _ => (SessionPhase::Connecting, SessionAction::Nothing),
        },
        SessionPhase::Active => match event {
            SessionEvent::Payload(payload) => (SessionPhase::Active, SessionAction::Forward(payload)),
            SessionEvent::Inbound(Frame::Ping(probe)) => (
                SessionPhase::Active,
                SessionAction::AnswerProbe(probe),
            ),
            SessionEvent::DutiesStopped => (SessionPhase::Closed, SessionAction::Nothing),
            SessionEvent::ChannelClosed
            | SessionEvent::SendFailed
            | SessionEvent::InboundEnded
            | SessionEvent::Inbound(Frame::Close) => (
                SessionPhase::Closing,
                SessionAction::StopDuties,
            ),
            _ => (SessionPhase::Active, SessionAction::Nothing),
        },
        SessionPhase::Closing => match event {
            SessionEvent::DutiesStopped => (SessionPhase::Closed, SessionAction::Nothing),
            _ => (SessionPhase::Closing, SessionAction::Nothing),
        },
        SessionPhase::Closed => (SessionPhase::Closed, SessionAction::Nothing),
    }
}

/// The phase a session is in after `events`, starting from `phase`.
pub open spec fn phase_after(phase: SessionPhase, events: Seq<SessionEvent>) -> SessionPhase
    decreases events.len(),
{
    if events.len() == 0 {
        phase
    } else {
        next(phase_after(phase, events.drop_last()), events.last()).0
    }
}

/// The payloads a session forwards while it works through `events`, starting
/// from `phase`, in the order in which it forwards them.
pub open spec fn forwarded(phase: SessionPhase, events: Seq<SessionEvent>) -> Seq<String>
    decreases events.len(),
{
    if events.len() == 0 {
        Seq::empty()
    } else {
        let earlier = forwarded(phase, events.drop_last());
        match next(phase_after(phase, events.drop_last()), events.last()).1 {
            SessionAction::Forward(payload) => earlier.push(payload),
            _ => earlier,
        }
    }
}

/// The payloads that the observer's channel yielded among `events`, in order.
pub open spec fn yielded(events: Seq<SessionEvent>) -> Seq<String>
    decreases events.len(),
{
    if events.len() == 0 {
        Seq::empty()
    } else {
        match events.last() {
            SessionEvent::Payload(payload) => yielded(events.drop_last()).push(payload),
            _ => yielded(events.drop_last()),
        }
    }
}

/// A session only ever moves forward: connecting, active, closing, closed.
pub proof fn law_phases_advance(phase: SessionPhase, event: SessionEvent)
    ensures
        phase.rank() <= next(phase, event).0.rank(),
{
}

/// A closed session stays closed and does nothing, whatever happens.
pub proof fn law_closed_is_final(event: SessionEvent)
    ensures
        next(SessionPhase::Closed, event) == (SessionPhase::Closed, SessionAction::Nothing),
{
}

/// The end of either duty ends an active session: the shutdown of the other
/// duty is the very next thing asked for, and nothing is forwarded afterwards.
pub proof fn law_either_duty_ends_the_session(event: SessionEvent, later: SessionEvent)
    requires
        ends_a_duty(event),
    ensures
        next(SessionPhase::Active, event) == (SessionPhase::Closing, SessionAction::StopDuties),
        !(next(SessionPhase::Closing, later).1 is Forward),
        next(SessionPhase::Closing, later).0 != SessionPhase::Active,
{
}

/// An observer is admitted once: when the handshake of a connecting session
/// completes, and at no other moment.
pub proof fn law_admission_follows_the_handshake(phase: SessionPhase, event: SessionEvent)
    ensures
        next(phase, event).1 is Admit <==> phase == SessionPhase::Connecting && event is Upgraded,
        next(phase, event).1 is Admit ==> next(phase, event).0 == SessionPhase::Active,
        next(phase, event).0 == SessionPhase::Connecting ==> phase == SessionPhase::Connecting,
{
}

/// Payloads are forwarded only by an active session, and each is forwarded as
/// it came.
pub proof fn law_forwarding_is_faithful(phase: SessionPhase, event: SessionEvent)
    ensures
        next(phase, event).1 is Forward <==> phase == SessionPhase::Active && event is Payload,
        next(phase, event).1 matches SessionAction::Forward(sent) ==> event
            == SessionEvent::Payload(sent),
{
}

/// As long as an active session stays active, it forwards exactly what the
/// observer's channel yields, in the order in which the channel yields it:
/// nothing is left out, doubled or moved.
pub proof fn law_active_session_forwards_in_order(events: Seq<SessionEvent>)
    requires
        phase_after(SessionPhase::Active, events) == SessionPhase::Active,
    ensures
        forwarded(SessionPhase::Active, events) == yielded(events),
    decreases events.len(),
{
    if events.len() > 0 {
        let before = phase_after(SessionPhase::Active, events.drop_last());
        law_phases_advance(before, events.last());
        lemma_phases_never_return(SessionPhase::Active, events.drop_last());
        assert(before == SessionPhase::Active);
        law_active_session_forwards_in_order(events.drop_last());
    }
}

/// Over any run of events the phase can only have advanced.
pub proof fn lemma_phases_never_return(phase: SessionPhase, events: Seq<SessionEvent>)
    ensures
        phase.rank() <= phase_after(phase, events).rank(),
    decreases events.len(),
{
    if events.len() > 0 {
        lemma_phases_never_return(phase, events.drop_last());
        law_phases_advance(phase_after(phase, events.drop_last()), events.last());
    }
}

} // verus!
