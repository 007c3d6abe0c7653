//! What each endpoint answers: requests in, responses out, both as plain
//! values. Decoding requests and encoding responses is left to the transport.

use vstd::prelude::*;
use vstd::string::StringExecFns;
use vstd::string::to_string_from_display_ensures;
use crate::clock::Timestamp;
use crate::game::GameState;
use crate::ident::is_match_id;
use crate::observers::watchers;
use crate::state::{AppState, MutationError};
use crate::store::Match;

verus! {

/// Status of a failure that names a match nobody knows.
pub const NOT_FOUND: u16 = 404;

/// Status of a failure caused by an action the engine refused.
pub const BAD_REQUEST: u16 = 400;

/// Status of a failure on the server's side.
pub const INTERNAL_SERVER_ERROR: u16 = 500;

/// The query of a state request.
#[derive(Clone, Debug, PartialEq, Eq)]
pub struct StateQuery {
    pub match_id: String,
}

/// The body of an action request.
#[derive(Clone, Debug, PartialEq, Eq)]
pub struct ActionRequest<A> {
    pub match_id: String,
    pub player_id: String,
    pub action: A,
}

/// The body of a successful response.
#[derive(Clone, Debug, PartialEq, Eq)]
pub struct SuccessResponse<T> {
    pub success: bool,
    pub data: T,
}

/// The body of a failed response.
#[derive(Clone, Debug, PartialEq, Eq)]
pub struct ErrorResponse {
    pub success: bool,
    pub error: String,
}

/// The body of a request to create a match.
#[derive(Clone, Debug, PartialEq, Eq)]
pub struct CreateMatchRequest {
    pub player1: String,
    pub player2: String,
}

/// The body of a request for a move suggestion.
#[derive(Clone, Debug, PartialEq, Eq)]
pub struct AiActionRequest {
    pub match_id: String,
    pub ai_player: String,
}

/// A failed response: its status and its body.
#[derive(Clone, Debug, PartialEq, Eq)]
pub struct Failure {
    pub status: u16,
    pub body: ErrorResponse,
}

/// One line of the match listing.
#[derive(Clone, Debug, PartialEq, Eq)]
pub struct MatchSummary {
    pub id: String,
    pub player_a: String,
    pub player_b: String,
    pub turn: String,
    pub turn_count: u64,
    pub phase: String,
    pub created_at: Timestamp,
    pub updated_at: Timestamp,
}

impl<T> SuccessResponse<T> {
    /// A successful response carrying `data`.
    pub fn new(data: T) -> (response: SuccessResponse<T>)
        ensures
            response == (SuccessResponse { success: true, data }),
    {
        SuccessResponse { success: true, data }
    }
}

impl ErrorResponse {
    /// A failed response carrying the message `error`.
    pub fn new(error: String) -> (response: ErrorResponse)
        ensures
            response == (ErrorResponse { success: false, error }),
    {
        ErrorResponse { success: false, error }
    }
}

/// The message for a match that does not exist.
pub open spec fn missing_match_text(match_id: Seq<char>) -> Seq<char> {
    "Partida "@ + match_id + " não encontrada"@
}

/// The message for a move suggestion that could not be made.
pub open spec fn no_suggestion_text() -> Seq<char> {
    "IA não conseguiu escolher ação"@
}

/// Whether `failure` is the answer to a request about the unknown match
/// `match_id`.
pub open spec fn is_missing_match(failure: Failure, match_id: Seq<char>) -> bool {
    &&& failure.status == NOT_FOUND
    &&& !failure.body.success
    &&& failure.body.error@ == missing_match_text(match_id)
}

/// The failure for a request about a match that does not exist.
pub fn missing_match(match_id: &str) -> (failure: Failure)
    ensures
        is_missing_match(failure, match_id@),
{
    let mut error = String::from_str("Partida ");
    error.append(match_id);
    error.append(" não encontrada");
    Failure { status: NOT_FOUND, body: ErrorResponse::new(error) }
}

/// The line of the listing that describes `record`.
pub open spec fn summary_of(record: Match) -> MatchSummary {
    MatchSummary {
        id: record.id,
        player_a: record.state.player_a,
        player_b: record.state.player_b,
        turn: record.state.turn,
        turn_count: record.state.turn_count,
        phase: record.state.phase,
        created_at: record.created_at,
        updated_at: record.updated_at,
    }
}

/// Summarises one match for the listing.
pub fn summarize(record: &Match) -> (summary: MatchSummary)
    ensures
        summary == summary_of(*record),
{
    MatchSummary {
        id: record.id.clone(),
        player_a: record.state.player_a.clone(),
        player_b: record.state.player_b.clone(),
        turn: record.state.turn.clone(),
        turn_count: record.state.turn_count,
        phase: record.state.phase.clone(),
        created_at: record.created_at,
        updated_at: record.updated_at,
    }
}

/// Answers a state request: the current state of the match, or a 404 that
/// names the match.
pub fn get_state(state: &AppState, query: &StateQuery) -> (answer: Result<
    SuccessResponse<GameState>,
    Failure,
>)
    ensures
        match answer {
            Ok(response) => response.success && state@.lookup(query.match_id@) is Some
                && response.data == state@.matches[query.match_id@].state,
            Err(failure) => state@.lookup(query.match_id@) is None && is_missing_match(
                failure,
                query.match_id@,
            ),
        },
{
    match state.get_match(query.match_id.as_str()) {
        Some(record) => Ok(SuccessResponse::new(record.state)),
        None => Err(missing_match(query.match_id.as_str())),
    }
}

/// Whether `engine` may be asked to judge `action` by the player named `player`
/// against `state`.
pub open spec fn may_judge<A, E, F: Fn(&GameState, &str, A) -> Result<GameState, E>>(
    engine: F,
    state: GameState,
    player: Seq<char>,
    action: A,
) -> bool {
    forall|name: &str| name@ == player ==> #[trigger] call_requires(engine, (&state, name, action))
}

/// Whether `verdict` is what `engine` returned when asked to judge `action` by
/// the player named `player` against `state`.
pub open spec fn judged<A, E, F: Fn(&GameState, &str, A) -> Result<GameState, E>>(
    engine: F,
    state: GameState,
    player: Seq<char>,
    action: A,
    verdict: Result<GameState, E>,
) -> bool {
    exists|name: &str|
        name@ == player && #[trigger] call_ensures(engine, (&state, name, action), verdict)
}

/// Whether `advisor` may be asked for a move of the player named `player` in
/// `state`.
pub open spec fn may_advise<A, F: Fn(&GameState, &str) -> Option<A>>(
    advisor: F,
    state: GameState,
    player: Seq<char>,
) -> bool {
    forall|name: &str| name@ == player ==> #[trigger] call_requires(advisor, (&state, name))
}

/// Whether `advice` is what `advisor` returned when asked for a move of the
/// player named `player` in `state`.
pub open spec fn advised<A, F: Fn(&GameState, &str) -> Option<A>>(
    advisor: F,
    state: GameState,
    player: Seq<char>,
    advice: Option<A>,
) -> bool {
    exists|name: &str| name@ == player && #[trigger] call_ensures(advisor, (&state, name), advice)
}

/// Answers an action request by passing it through the mutation gateway.
///
/// An accepted action is answered with the new state. An unknown match is
/// answered with a 404 that names it, a refused action with a 400 whose
/// message is the engine's error as the engine prints it; in both cases
/// nothing has changed.
pub fn post_action<A, E: core::fmt::Display, F: Fn(&GameState, &str, A) -> Result<GameState, E>>(
    state: &mut AppState,
    request: ActionRequest<A>,
    engine: &F,
) -> (answer: Result<SuccessResponse<GameState>, Failure>)
    requires
        old(state)@.matches.contains_key(request.match_id@) ==> may_judge(
            *engine,
            old(state)@.matches[request.match_id@].state,
            request.player_id@,
            request.action,
        ),
    ensures
        match answer {
            Ok(response) => {
                &&& response.success
                &&& old(state)@.matches.contains_key(request.match_id@)
                &&& judged(
                    *engine,
                    old(state)@.matches[request.match_id@].state,
                    request.player_id@,
                    request.action,
                    Ok(response.data),
                )
                &&& old(state)@.stamp_grows(final(state)@, request.match_id@)
                &&& exists|now: Timestamp, outcomes: Seq<bool>|
                    outcomes.len() == watchers(old(state)@.observers, request.match_id@).len()
                        && final(state)@ == #[trigger] old(state)@.advanced(
                        request.match_id@,
                        response.data,
                        now,
                        outcomes,
                    )
            },
            Err(failure) => {
                &&& final(state)@ == old(state)@
                &&& !failure.body.success
                &&& if old(state)@.matches.contains_key(request.match_id@) {
                    &&& failure.status == BAD_REQUEST
                    &&& exists|refusal: E|
                        judged(
                            *engine,
                            old(state)@.matches[request.match_id@].state,
                            request.player_id@,
                            request.action,
                            Err(refusal),
                        ) && #[trigger] to_string_from_display_ensures::<E>(
                            &refusal,
                            failure.body.error,
                        )
                } else {
                    is_missing_match(failure, request.match_id@)
                }
            },
        },
{
    let ActionRequest { match_id, player_id, action } = request;
    let name = player_id.as_str();
    let ghost current = old(state)@.matches[match_id@].state;
    match state.mutate(match_id.as_str(), name, action, engine) {
        Ok(new_state) => {
            assert(call_ensures(*engine, (&current, name, action), Ok(new_state)));
            Ok(SuccessResponse::new(new_state))
        },
        Err(MutationError::NotFound) => Err(missing_match(match_id.as_str())),
        Err(MutationError::EngineRejected(refusal)) => {
            assert(call_ensures(*engine, (&current, name, action), Err(refusal)));
            let error = refusal.to_string();
            let failure = Failure { status: BAD_REQUEST, body: ErrorResponse::new(error) };
            assert(judged(*engine, current, player_id@, action, Err(refusal)));
            assert(to_string_from_display_ensures::<E>(&refusal, failure.body.error));
            Err(failure)
        },
    }
}

/// Answers a listing request: one line per match, oldest match first.
pub fn list_matches(state: &AppState) -> (response: SuccessResponse<Vec<MatchSummary>>)
    ensures
        response.success,
        response.data@.len() == state@.order.len(),
        state@.order.no_duplicates(),
        forall|id: Seq<char>| state@.order.contains(id) <==> state@.matches.contains_key(id),
        forall|i: int|
            0 <= i < response.data@.len() ==> (#[trigger] response.data@[i]).id@ == state@.order[i],
        forall|i: int|
            0 <= i < response.data@.len() ==> state@.matches.contains_key(#[trigger] state@.order[i]),
        forall|i: int|
            0 <= i < response.data@.len() ==> (#[trigger] response.data@[i]) == summary_of(
                state@.matches[state@.order[i]],
            ),
{
    let mut lines: Vec<MatchSummary> = Vec::new();
    let n: usize = state.matches.len();
    let mut i: usize = 0;
    while i < n
        invariant
            n == state.matches.ids().len(),
            i <= n,
            lines@.len() == i,
            forall|j: int| 0 <= j < i ==> (#[trigger] lines@[j]).id@ == state@.order[j],
            forall|j: int|
                0 <= j < i ==> state@.matches.contains_key(#[trigger] state.matches.ids()[j]),
            forall|j: int|
                0 <= j < i ==> (#[trigger] lines@[j]) == summary_of(
                    state@.matches[state.matches.ids()[j]],
                ),
        decreases n - i,
    {
        let record = state.matches.record_at(i);
        lines.push(summarize(record));
        assert(lines@[i as int] == summary_of(state@.matches[state.matches.ids()[i as int]]));
        i = i + 1;
    }
    SuccessResponse::new(lines)
}

/// Answers a request to create a match with the identifier of the new match,
/// which is one that no match had before.
pub fn create_match<F: Fn(String, String) -> GameState>(
    state: &mut AppState,
    request: CreateMatchRequest,
    new_game: &F,
) -> (response: SuccessResponse<String>)
    requires
        call_requires(*new_game, (request.player1, request.player2)),
    ensures
        response.success,
        is_match_id(response.data@),
        !old(state)@.matches.contains_key(response.data@),
        final(state)@.matches.contains_key(response.data@),
        final(state)@ == old(state)@.created(final(state)@.matches[response.data@]),
        final(state)@.order == old(state)@.order.push(response.data@),
        forall|other: Seq<char>|
            old(state)@.matches.contains_key(other) ==> final(state)@.matches.contains_key(other)
                && #[trigger] final(state)@.matches[other] == old(state)@.matches[other],
        final(state)@.matches[response.data@].created_at
            == final(state)@.matches[response.data@].updated_at,
        call_ensures(
            *new_game,
            (request.player1, request.player2),
            final(state)@.matches[response.data@].state,
        ),
{
    let CreateMatchRequest { player1, player2 } = request;
    let id = state.create_match(player1, player2, new_game);
    SuccessResponse::new(id)
}

/// Answers a request for a move suggestion: what `advisor` picks for
/// `ai_player` in the current state of the match. An unknown match is answered
/// with a 404 that names it; an advisor without a suggestion is answered with
/// a 500.
pub fn ai_action<A, F: Fn(&GameState, &str) -> Option<A>>(
    state: &AppState,
    request: &AiActionRequest,
    advisor: &F,
) -> (answer: Result<SuccessResponse<A>, Failure>)
    requires
        state@.matches.contains_key(request.match_id@) ==> may_advise(
            *advisor,
            state@.matches[request.match_id@].state,
            request.ai_player@,
        ),
    ensures
        match answer {
            Ok(response) => {
                &&& response.success
                &&& state@.matches.contains_key(request.match_id@)
                &&& advised(
                    *advisor,
                    state@.matches[request.match_id@].state,
                    request.ai_player@,
                    Some(response.data),
                )
            },
            Err(failure) => if state@.matches.contains_key(request.match_id@) {
                &&& advised(
                    *advisor,
                    state@.matches[request.match_id@].state,
                    request.ai_player@,
                    None,
                )
                &&& failure.status == INTERNAL_SERVER_ERROR
                &&& !failure.body.success
                &&& failure.body.error@ == no_suggestion_text()
            } else {
                is_missing_match(failure, request.match_id@)
            },
        },
{
    match state.matches.get(request.match_id.as_str()) {
        Some(record) => match advisor(&record.state, request.ai_player.as_str()) {
            Some(action) => Ok(SuccessResponse::new(action)),
            None => Err(
                Failure {
                    status: INTERNAL_SERVER_ERROR,
                    body: ErrorResponse::new(String::from_str("IA não conseguiu escolher ação")),
                },
            ),
        },
        None => Err(missing_match(request.match_id.as_str())),
    }
}

} // verus!
