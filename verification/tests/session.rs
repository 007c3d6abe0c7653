use tatic_server::session::{step, Frame, SessionAction, SessionEvent, SessionPhase};

fn run(mut phase: SessionPhase, events: Vec<SessionEvent>) -> (SessionPhase, Vec<SessionAction>) {
    let mut actions = Vec::new();
    for event in events {
        let (next, action) = step(phase, event);
        phase = next;
        actions.push(action);
    }
    (phase, actions)
}

#[test]
fn handshake_activates_and_admits() {
    assert_eq!(
        step(SessionPhase::Connecting, SessionEvent::Upgraded),
        (SessionPhase::Active, SessionAction::Admit)
    );
}

#[test]
fn connecting_session_ignores_traffic_and_closes_on_failure() {
    assert_eq!(
        step(SessionPhase::Connecting, SessionEvent::Payload("p".to_string())),
        (SessionPhase::Connecting, SessionAction::Nothing)
    );
    assert_eq!(
        step(SessionPhase::Connecting, SessionEvent::Inbound(Frame::Other)),
        (SessionPhase::Connecting, SessionAction::Nothing)
    );
    assert_eq!(
        step(SessionPhase::Connecting, SessionEvent::InboundEnded),
        (SessionPhase::Closed, SessionAction::Nothing)
    );
    assert_eq!(
        step(SessionPhase::Connecting, SessionEvent::SendFailed),
        (SessionPhase::Closed, SessionAction::Nothing)
    );
}

#[test]
fn active_session_forwards_payloads_as_they_come() {
    assert_eq!(
        step(SessionPhase::Active, SessionEvent::Payload("{\"type\":\"state_update\"}".to_string())),
        (SessionPhase::Active, SessionAction::Forward("{\"type\":\"state_update\"}".to_string()))
    );
}

#[test]
fn active_session_answers_probes_and_ignores_the_rest() {
    assert_eq!(
        step(SessionPhase::Active, SessionEvent::Inbound(Frame::Ping(vec![1, 2, 3]))),
        (SessionPhase::Active, SessionAction::AnswerProbe(vec![1, 2, 3]))
    );
    assert_eq!(
        step(SessionPhase::Active, SessionEvent::Inbound(Frame::Other)),
        (SessionPhase::Active, SessionAction::Nothing)
    );
    assert_eq!(
        step(SessionPhase::Active, SessionEvent::Upgraded),
        (SessionPhase::Active, SessionAction::Nothing)
    );
}

#[test]
fn the_end_of_either_duty_starts_the_shutdown() {
    let endings = vec![
        SessionEvent::ChannelClosed,
        SessionEvent::SendFailed,
        SessionEvent::InboundEnded,
        SessionEvent::Inbound(Frame::Close),
    ];
    for event in endings {
        assert_eq!(
            step(SessionPhase::Active, event),
            (SessionPhase::Closing, SessionAction::StopDuties)
        );
    }
}

#[test]
fn closing_session_waits_for_the_duties_to_stop() {
    assert_eq!(
        step(SessionPhase::Closing, SessionEvent::Payload("late".to_string())),
        (SessionPhase::Closing, SessionAction::Nothing)
    );
    assert_eq!(
        step(SessionPhase::Closing, SessionEvent::Inbound(Frame::Ping(vec![9]))),
        (SessionPhase::Closing, SessionAction::Nothing)
    );
    assert_eq!(
        step(SessionPhase::Closing, SessionEvent::DutiesStopped),
        (SessionPhase::Closed, SessionAction::Nothing)
    );
    assert_eq!(
        step(SessionPhase::Active, SessionEvent::DutiesStopped),
        (SessionPhase::Closed, SessionAction::Nothing)
    );
}

#[test]
fn closed_session_stays_closed() {
    let events = vec![
        SessionEvent::Upgraded,
        SessionEvent::Payload("p".to_string()),
        SessionEvent::ChannelClosed,
        SessionEvent::SendFailed,
        SessionEvent::Inbound(Frame::Ping(vec![])),
        SessionEvent::Inbound(Frame::Close),
        SessionEvent::Inbound(Frame::Other),
        SessionEvent::InboundEnded,
        SessionEvent::DutiesStopped,
    ];
    for event in events {
        assert_eq!(step(SessionPhase::Closed, event), (SessionPhase::Closed, SessionAction::Nothing));
    }
    assert!(SessionPhase::Closed.is_closed());
    assert!(!SessionPhase::Closing.is_closed());
    assert!(!SessionPhase::Active.is_closed());
    assert!(!SessionPhase::Connecting.is_closed());
}

#[test]
fn a_whole_session_forwards_in_order_until_the_client_closes() {
    let (phase, actions) = run(
        SessionPhase::Connecting,
        vec![
            SessionEvent::Upgraded,
            SessionEvent::Payload("one".to_string()),
            SessionEvent::Inbound(Frame::Ping(vec![7])),
            SessionEvent::Payload("two".to_string()),
            SessionEvent::Payload("three".to_string()),
            SessionEvent::Inbound(Frame::Close),
            SessionEvent::Payload("four".to_string()),
            SessionEvent::DutiesStopped,
            SessionEvent::Payload("five".to_string()),
        ],
    );
    assert_eq!(phase, SessionPhase::Closed);
    assert_eq!(
        actions,
        vec![
            SessionAction::Admit,
            SessionAction::Forward("one".to_string()),
            SessionAction::AnswerProbe(vec![7]),
            SessionAction::Forward("two".to_string()),
            SessionAction::Forward("three".to_string()),
            SessionAction::StopDuties,
            SessionAction::Nothing,
            SessionAction::Nothing,
            SessionAction::Nothing,
        ]
    );
}
