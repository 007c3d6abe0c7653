//! The events pushed to observers, and their wire form.

use vstd::prelude::*;
use vstd::string::StringExecFns;
use crate::game::GameState;

verus! {

/// What an event announces.
#[derive(Clone, Copy, Debug, PartialEq, Eq, Structural)]
pub enum EventKind {
    /// The state of a match at the moment an observer connected.
    InitialState,
    /// The state of a match right after a successful action.
    StateUpdate,
}

/// An event: always a full snapshot of one match, never a delta.
#[derive(Clone, Debug, PartialEq, Eq)]
pub struct Event {
    pub kind: EventKind,
    pub match_id: String,
    pub state: GameState,
}

/// The JSON string literal for `text`, quotes included, as `serde_json` writes it.
pub uninterp spec fn json_string(text: Seq<char>) -> Seq<char>;

/// Renders `text` as a JSON string literal by printing
/// `serde_json::Value::String` through its `Display` impl, which writes compact
/// JSON. The result is a function of `text` alone.
#[verifier::external_body]
fn quote_json(text: &str) -> (quoted: String)
    ensures
        quoted@ == json_string(text@),
{
    serde_json::Value::String(text.to_owned()).to_string()
}

/// The value of the `type` member for each kind of event.
pub open spec fn tag(kind: EventKind) -> Seq<char> {
    match kind {
        EventKind::InitialState => "initial_state"@,
        EventKind::StateUpdate => "state_update"@,
    }
}

/// The wire form of an event: one JSON object with the members `match_id`,
/// `state` and `type`, in that order and without whitespace. `document` is
/// placed as the value of `state` exactly as given.
pub open spec fn wire_text(kind: EventKind, match_id: Seq<char>, document: Seq<char>) -> Seq<char> {
    "{\"match_id\":"@ + json_string(match_id) + ",\"state\":"@ + document + ",\"type\":\""@ + tag(
        kind,
    ) + "\"}"@
}

/// Writes the wire form of an event of kind `kind` about the match `match_id`
/// whose state has the JSON encoding `document`.
pub fn frame(kind: EventKind, match_id: &str, document: &str) -> (payload: String)
    ensures
        payload@ == wire_text(kind, match_id@, document@),
{
    let quoted = quote_json(match_id);
    let mut payload = String::from_str("{\"match_id\":");
    payload.append(quoted.as_str());
    payload.append(",\"state\":");
    payload.append(document);
    payload.append(",\"type\":\"");
    match kind {
        EventKind::InitialState => payload.append("initial_state"),
        EventKind::StateUpdate => payload.append("state_update"),
    }
    payload.append("\"}");
    payload
}

impl Event {
    /// The event's wire form.
    pub open spec fn wire(self) -> Seq<char> {
        wire_text(self.kind, self.match_id@, self.state.document@)
    }

    /// Serialises the event.
    pub fn encode(&self) -> (payload: String)
        ensures
            payload@ == self.wire(),
    {
        frame(self.kind, self.match_id.as_str(), self.state.document.as_str())
    }
}

} // verus!
