use tatic_server::event::{frame, Event, EventKind};
use tatic_server::game::GameState;

fn snapshot(document: &str) -> GameState {
    GameState {
        player_a: "a".to_string(),
        player_b: "b".to_string(),
        turn: "a".to_string(),
        turn_count: 1,
        phase: "Playing".to_string(),
        document: document.to_string(),
    }
}

#[test]
fn state_update_wire_form_is_exact() {
    assert_eq!(
        frame(EventKind::StateUpdate, "m1", "{\"turn\":\"b\"}"),
        "{\"match_id\":\"m1\",\"state\":{\"turn\":\"b\"},\"type\":\"state_update\"}"
    );
}

#[test]
fn initial_state_wire_form_is_exact() {
    assert_eq!(
        frame(EventKind::InitialState, "match-7", "null"),
        "{\"match_id\":\"match-7\",\"state\":null,\"type\":\"initial_state\"}"
    );
}

#[test]
fn match_id_is_quoted_as_a_json_string() {
    assert_eq!(
        frame(EventKind::StateUpdate, "a\"b\\c\n\u{1}é", "0"),
        "{\"match_id\":\"a\\\"b\\\\c\\n\\u0001é\",\"state\":0,\"type\":\"state_update\"}"
    );
    assert_eq!(
        frame(EventKind::StateUpdate, "", "0"),
        "{\"match_id\":\"\",\"state\":0,\"type\":\"state_update\"}"
    );
}

#[test]
fn wire_form_parses_back() {
    let event = Event {
        kind: EventKind::StateUpdate,
        match_id: "m \"1\"".to_string(),
        state: snapshot("{\"turn\":\"b\",\"units\":[1,2,3]}"),
    };
    let payload = event.encode();
    let parsed: serde_json::Value = serde_json::from_str(&payload).unwrap();
    assert_eq!(parsed.get("type").unwrap(), "state_update");
    assert_eq!(parsed.get("match_id").unwrap(), "m \"1\"");
    assert_eq!(parsed.get("state").unwrap().get("turn").unwrap(), "b");
    assert_eq!(parsed.get("state").unwrap().get("units").unwrap().as_array().unwrap().len(), 3);
    assert_eq!(parsed.to_string(), payload);
}

#[test]
fn encode_agrees_with_frame() {
    let event = Event {
        kind: EventKind::InitialState,
        match_id: "m1".to_string(),
        state: snapshot("{\"turn\":\"a\"}"),
    };
    assert_eq!(event.encode(), frame(EventKind::InitialState, "m1", "{\"turn\":\"a\"}"));
}

#[test]
fn duplicate_copies_every_field() {
    let state = snapshot("{\"turn\":\"a\"}");
    assert_eq!(state.duplicate(), state);
}
