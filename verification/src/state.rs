//! The server's shared state: the match store and the observer registry, and
//! the mutation gateway that ties the two together.

use vstd::prelude::*;
use vstd::string::StringExecFns;
use tokio::sync::mpsc::Receiver;
use tokio::sync::mpsc::Sender;
use crate::clock::Timestamp;
use crate::event::{frame, wire_text, Event, EventKind};
use crate::game::GameState;
use crate::ident::is_match_id;
use crate::observers::{
    buffer_bound, fanned_out, open_channel, subscribed, watchers, Observer, ObserverRegistry,
    CHANNEL_CAPACITY,
};
use crate::store::{revise, MatchStore};
pub use crate::store::{Match, MatchId};

verus! {

/// Why an action did not change a match.
#[derive(Debug, PartialEq, Eq)]
pub enum MutationError<E> {
    /// No match has the identifier that was named.
    NotFound,
    /// The engine refused the action; its error is passed on as it came.
    EngineRejected(E),
}

/// The shared state as plain mathematics: match records by identifier, the
/// identifiers in the order in which a listing gives them, and observers by the
/// identifier of the match they watch.
pub struct AppView {
    pub matches: Map<Seq<char>, Match>,
    pub order: Seq<Seq<char>>,
    pub observers: Map<Seq<char>, Seq<Observer>>,
}

impl AppView {
    /// The state of a server that holds nothing.
    pub open spec fn empty() -> AppView {
        AppView { matches: Map::empty(), order: Seq::empty(), observers: Map::empty() }
    }

    /// What a reader finds under `id`.
    pub open spec fn lookup(self, id: Seq<char>) -> Option<Match> {
        if self.matches.contains_key(id) {
            Some(self.matches[id])
        } else {
            None
        }
    }

    /// The state after `record` was stored under its identifier.
    /// A new identifier is listed last; a known one keeps its place.
    pub open spec fn created(self, record: Match) -> AppView {
        AppView {
            matches: self.matches.insert(record.id@, record),
            order: if self.matches.contains_key(record.id@) {
                self.order
            } else {
                self.order.push(record.id@)
            },
            observers: self.observers,
        }
    }

    /// The state after the match `id` was given the state `state` when the
    /// clock read `now`.
    pub open spec fn updated(self, id: Seq<char>, state: GameState, now: Timestamp) -> AppView {
        AppView {
            matches: revise(self.matches, id, state, now),
            order: self.order,
            observers: self.observers,
        }
    }

    /// The state after `observer` started watching `id`.
    pub open spec fn joined(self, id: Seq<char>, observer: Observer) -> AppView {
        AppView {
            matches: self.matches,
            order: self.order,
            observers: subscribed(self.observers, id, observer),
        }
    }

    /// The state after `payload` was offered to everyone watching `id`, with
    /// `outcomes` as the answers of their channels.
    pub open spec fn notified(self, id: Seq<char>, payload: Seq<char>, outcomes: Seq<bool>) -> AppView {
        AppView {
            matches: self.matches,
            order: self.order,
            observers: fanned_out(self.observers, id, payload, outcomes),
        }
    }

    /// The state after a successful action on the match `id`: first the new
    /// state is committed, then the update is announced to the observers.
    pub open spec fn advanced(
        self,
        id: Seq<char>,
        state: GameState,
        now: Timestamp,
        outcomes: Seq<bool>,
    ) -> AppView {
        self.updated(id, state, now).notified(
            id,
            wire_text(EventKind::StateUpdate, id, state.document@),
            outcomes,
        )
    }

    /// The state after the engine's verdict on an action for the match `id` was
    /// carried out. Only an accepted action on an existing match changes
    /// anything.
    pub open spec fn concluded<E>(
        self,
        id: Seq<char>,
        verdict: Result<GameState, E>,
        now: Timestamp,
        outcomes: Seq<bool>,
    ) -> AppView {
        match verdict {
            Ok(state) if self.matches.contains_key(id) => self.advanced(id, state, now, outcomes),
            _ => self,
        }
    }

    /// The state after one accepted action per entry of `states` was carried out
    /// on the match `id`, in order: the `r`-th at `times[r]`, with `answers[r]`
    /// as the answers of the observers' channels.
    pub open spec fn replayed(
        self,
        id: Seq<char>,
        states: Seq<GameState>,
        times: Seq<Timestamp>,
        answers: Seq<Seq<bool>>,
    ) -> AppView
        decreases states.len(),
    {
        if states.len() == 0 {
            self
        } else {
            self.replayed(id, states.drop_last(), times, answers).advanced(
                id,
                states.last(),
                times[states.len() - 1],
                answers[states.len() - 1],
            )
        }
    }

    /// Whether the update time of the match `id` in `later` is strictly after
    /// the one it has here. Nothing is asked of a match that is not stored, nor
    /// of one whose update time is the last instant that can be written down.
    pub open spec fn stamp_grows(self, later: AppView, id: Seq<char>) -> bool {
        self.matches.contains_key(id) && !self.matches[id].updated_at.is_last()
            ==> later.matches.contains_key(id) && self.matches[id].updated_at.precedes(
            later.matches[id].updated_at,
        )
    }

    /// What the caller of the gateway is told.
    pub open spec fn reply<E>(self, id: Seq<char>, verdict: Result<GameState, E>) -> Result<
        GameState,
        MutationError<E>,
    > {
        if !self.matches.contains_key(id) {
            Err(MutationError::NotFound)
        } else {
            match verdict {
                Ok(state) => Ok(state),
                Err(refusal) => Err(MutationError::EngineRejected(refusal)),
            }
        }
    }
}

/// What a newly connected observer is handed: the receiving half of its
/// channel, and the first payload to send it, if the match exists.
pub struct Subscription {
    pub receiver: Receiver<String>,
    pub initial: Option<String>,
}

/// The match store and the observer registry of one server.
pub struct AppState {
    pub matches: MatchStore,
    pub observers: ObserverRegistry,
}

impl View for AppState {
    type V = AppView;

    open spec fn view(&self) -> AppView {
        AppView { matches: self.matches@, order: self.matches.ids(), observers: self.observers@ }
    }
}

/// Whether `record` is a match as it is created for `player1` and `player2`:
/// under an identifier of the usual shape, untouched since its creation, and in
/// the state that `new_game` built for the two.
pub open spec fn is_new_match<F: Fn(String, String) -> GameState>(
    new_game: F,
    player1: Seq<char>,
    player2: Seq<char>,
    record: Match,
) -> bool {
    &&& is_match_id(record.id@)
    &&& record.created_at == record.updated_at
    &&& exists|first: String, second: String|
        first@ == player1 && second@ == player2 && #[trigger] call_ensures(
            new_game,
            (first, second),
            record.state,
        )
}

/// Whether `new_game` may be asked for a game between `player1` and `player2`.
pub open spec fn may_build<F: Fn(String, String) -> GameState>(
    new_game: F,
    player1: Seq<char>,
    player2: Seq<char>,
) -> bool {
    forall|first: String, second: String|
        first@ == player1 && second@ == player2 ==> #[trigger] call_requires(
            new_game,
            (first, second),
        )
}

/// The state of a server that has created `first`, `second` and `third`, in
/// that order, and nothing else.
pub open spec fn seeded(first: Match, second: Match, third: Match) -> AppView {
    AppView::empty().created(first).created(second).created(third)
}

impl AppState {
    /// The state of a server that has just started: nobody is watching, and
    /// exactly three matches exist, created in this order under three different
    /// identifiers: alice against bob, player1 against player2, human against
    /// ai.
    pub fn new<F: Fn(String, String) -> GameState>(new_game: &F) -> (state: AppState)
        requires
            may_build(*new_game, "alice"@, "bob"@),
            may_build(*new_game, "player1"@, "player2"@),
            may_build(*new_game, "human"@, "ai"@),
        ensures
            exists|first: Match, second: Match, third: Match|
                {
                    &&& is_new_match(*new_game, "alice"@, "bob"@, first)
                    &&& is_new_match(*new_game, "player1"@, "player2"@, second)
                    &&& is_new_match(*new_game, "human"@, "ai"@, third)
                    &&& state@ == #[trigger] seeded(first, second, third)
                    &&& state@.order == seq![first.id@, second.id@, third.id@]
                    &&& state@.order.no_duplicates()
                },
            state@.order.len() == 3,
            state@.observers == Map::<Seq<char>, Seq<Observer>>::empty(),
    {
        let mut state = AppState::empty();
        let first = state.create_match(String::from_str("alice"), String::from_str("bob"), new_game);
        let ghost first = state@.matches[first@];
        let second = state.create_match(
            String::from_str("player1"),
            String::from_str("player2"),
            new_game,
        );
        let ghost second = state@.matches[second@];
        let third = state.create_match(String::from_str("human"), String::from_str("ai"), new_game);
        let ghost third = state@.matches[third@];
        assert(state@ == seeded(first, second, third));
        assert(state@.order =~= seq![first.id@, second.id@, third.id@]);
        state
    }

    /// A state without matches and without observers.
    pub fn empty() -> (state: AppState)
        ensures
            state@ == AppView::empty(),
    {
        AppState { matches: MatchStore::new(), observers: ObserverRegistry::new() }
    }

    /// A snapshot of the match `match_id`, or `None` if there is no such match.
    pub fn get_match(&self, match_id: &str) -> (found: Option<Match>)
        ensures
            found == self@.lookup(match_id@),
    {
        match self.matches.get(match_id) {
            Some(record) => Some(record.duplicate()),
            None => None,
        }
    }

    /// Replaces the state of the match `match_id` and moves its update time
    /// on: to the current time where that is later than the previous update,
    /// and by one nanosecond where it is not. Does nothing if there is no such
    /// match.
    pub fn update_match(&mut self, match_id: &str, new_state: GameState)
        ensures
            exists|now: Timestamp|
                final(self)@ == #[trigger] old(self)@.updated(match_id@, new_state, now),
            old(self)@.stamp_grows(final(self)@, match_id@),
    {
        let now = Timestamp::now();
        self.matches.update(match_id, new_state, now);
        assert(final(self)@ == old(self)@.updated(match_id@, new_state, now));
    }

    /// Creates a match between `player1` and `player2` in the state that
    /// `new_game` builds for them, and returns its identifier. The identifier
    /// is one that no stored match has: the new match is listed last, and every
    /// match that was stored stays as it was.
    pub fn create_match<F: Fn(String, String) -> GameState>(
        &mut self,
        player1: String,
        player2: String,
        new_game: &F,
    ) -> (id: String)
        requires
            call_requires(*new_game, (player1, player2)),
        ensures
            is_match_id(id@),
            !old(self)@.matches.contains_key(id@),
            final(self)@.matches.contains_key(id@),
            final(self)@ == old(self)@.created(final(self)@.matches[id@]),
            final(self)@.order == old(self)@.order.push(id@),
            forall|other: Seq<char>|
                old(self)@.matches.contains_key(other) ==> final(self)@.matches.contains_key(other)
                    && #[trigger] final(self)@.matches[other] == old(self)@.matches[other],
            final(self)@.matches[id@].id == id,
            final(self)@.matches[id@].created_at == final(self)@.matches[id@].updated_at,
            call_ensures(*new_game, (player1, player2), final(self)@.matches[id@].state),
    {
        let now = Timestamp::now();
        let id = self.matches.unused_id();
        let state = new_game(player1, player2);
        let record = Match::open(id.clone(), state, now);
        self.matches.insert(record);
        id
    }

    /// The identifiers of all matches, oldest first, each listed once.
    pub fn list_matches(&self) -> (ids: Vec<String>)
        ensures
            ids@.len() == self@.order.len(),
            forall|i: int| 0 <= i < ids@.len() ==> (#[trigger] ids@[i])@ == self@.order[i],
            self@.order.no_duplicates(),
            forall|id: Seq<char>| self@.order.contains(id) <==> self@.matches.contains_key(id),
    {
        self.matches.list()
    }

    /// Offers `message` to every observer of the match `match_id`, without
    /// waiting for any of them, and drops the observers whose channel did not
    /// take it. Having nobody to tell is not an error.
    pub fn notify_observers(&mut self, match_id: &str, message: String)
        ensures
            exists|outcomes: Seq<bool>|
                outcomes.len() == watchers(old(self)@.observers, match_id@).len() && final(self)@
                    == #[trigger] old(self)@.notified(match_id@, message@, outcomes),
    {
        let outcomes = self.observers.deliver(match_id, message.as_str());
        assert(final(self)@ == old(self)@.notified(match_id@, message@, outcomes@));
    }

    /// Serialises `event` once and offers the result to every observer of the
    /// match it is about.
    pub fn notify(&mut self, event: &Event)
        ensures
            exists|outcomes: Seq<bool>|
                outcomes.len() == watchers(old(self)@.observers, event.match_id@).len() && final(self)@
                    == #[trigger] old(self)@.notified(event.match_id@, event.wire(), outcomes),
    {
        let payload = event.encode();
        let outcomes = self.observers.deliver(event.match_id.as_str(), payload.as_str());
        assert(final(self)@ == old(self)@.notified(event.match_id@, event.wire(), outcomes@));
    }

    /// Registers `sender` as the channel of a new observer of `match_id`. The
    /// match need not exist.
    pub fn add_observer(&mut self, match_id: String, sender: Sender<String>)
        ensures
            final(self)@ == old(self)@.joined(match_id@, Observer::fresh(sender)),
    {
        self.observers.subscribe(match_id, sender);
    }

    /// Carries out the engine's verdict on an action for the match `match_id`.
    ///
    /// An accepted action replaces the state of the match, moves its update time
    /// on (to the clock reading `now`, or by one nanosecond where `now` is not
    /// later than the previous update), and then announces the new state to the
    /// observers of the match; the new state is also returned. A refused action, or a verdict for a match
    /// that does not exist, changes nothing and tells nobody.
    pub fn conclude<E>(
        &mut self,
        match_id: &str,
        verdict: Result<GameState, E>,
        now: Timestamp,
    ) -> (reply: Result<GameState, MutationError<E>>)
        ensures
            reply == old(self)@.reply(match_id@, verdict),
            exists|outcomes: Seq<bool>|
                outcomes.len() == watchers(old(self)@.observers, match_id@).len() && final(self)@
                    == #[trigger] old(self)@.concluded(match_id@, verdict, now, outcomes),
            reply is Ok ==> old(self)@.stamp_grows(final(self)@, match_id@),
    {
        if !self.matches.contains(match_id) {
            assert(final(self)@ == old(self)@.concluded(
                match_id@,
                verdict,
                now,
                Seq::new(watchers(old(self)@.observers, match_id@).len(), |i: int| true),
            ));
            return Err(MutationError::NotFound);
        }
        match verdict {
            Ok(state) => {
                let payload = frame(
                    EventKind::StateUpdate,
                    match_id,
                    state.document.as_str(),
                );
                let committed = state.duplicate();
                self.matches.update(match_id, committed, now);
                let outcomes = self.observers.deliver(match_id, payload.as_str());
                assert(final(self)@ == old(self)@.concluded(match_id@, verdict, now, outcomes@));
                Ok(state)
            },
            Err(refusal) => {
                assert(final(self)@ == old(self)@.concluded(
                    match_id@,
                    verdict,
                    now,
                    Seq::new(watchers(old(self)@.observers, match_id@).len(), |i: int| true),
                ));
                Err(MutationError::EngineRejected(refusal))
            },
        }
    }

    /// The mutation gateway: the one way in which the state of a match changes.
    ///
    /// Looks up the match, lets `engine` judge `action` by `player_id` against
    /// its current state, and carries out the verdict as [`AppState::conclude`]
    /// does, with the current time. The commit comes before the announcement,
    /// and both come before the reply.
    pub fn mutate<A, E, F: Fn(&GameState, &str, A) -> Result<GameState, E>>(
        &mut self,
        match_id: &str,
        player_id: &str,
        action: A,
        engine: &F,
    ) -> (reply: Result<GameState, MutationError<E>>)
        requires
            old(self)@.matches.contains_key(match_id@) ==> call_requires(
                *engine,
                (&old(self)@.matches[match_id@].state, player_id, action),
            ),
        ensures
            match reply {
                Err(MutationError::NotFound) => !old(self)@.matches.contains_key(match_id@)
                    && final(self)@ == old(self)@,
                Err(MutationError::EngineRejected(refusal)) => old(self)@.matches.contains_key(
                    match_id@,
                ) && call_ensures(
                    *engine,
                    (&old(self)@.matches[match_id@].state, player_id, action),
                    Err(refusal),
                ) && final(self)@ == old(self)@,
                Ok(state) => old(self)@.matches.contains_key(match_id@) && call_ensures(
                    *engine,
                    (&old(self)@.matches[match_id@].state, player_id, action),
                    Ok(state),
                ) && old(self)@.stamp_grows(final(self)@, match_id@) && exists|
                    now: Timestamp,
                    outcomes: Seq<bool>,
                |
                    outcomes.len() == watchers(old(self)@.observers, match_id@).len() && final(self)@
                        == #[trigger] old(self)@.advanced(match_id@, state, now, outcomes),
            },
    {
        let verdict = match self.matches.get(match_id) {
            Some(record) => engine(&record.state, player_id, action),
            None => {
                return Err(MutationError::NotFound);
            },
        };
        let now = Timestamp::now();
        let ghost judged = verdict;
        let reply = self.conclude(match_id, verdict, now);
        proof {
            let outcomes = choose|outcomes: Seq<bool>|
                outcomes.len() == watchers(old(self)@.observers, match_id@).len() && final(self)@
                    == #[trigger] old(self)@.concluded(match_id@, judged, now, outcomes);
            if let Ok(state) = judged {
                assert(final(self)@ == old(self)@.advanced(match_id@, state, now, outcomes));
            }
        }
        reply
    }

    /// Admits a new observer of `match_id`: opens a channel for it with room for
    /// [`CHANNEL_CAPACITY`] payloads, registers the sending half, and prepares
    /// the snapshot that the observer is to be sent first. There is no snapshot
    /// if the match does not exist; the observer is registered all the same.
    pub fn connect(&mut self, match_id: String) -> (subscription: Subscription)
        ensures
            exists|channel: Sender<String>|
                buffer_bound(channel) == CHANNEL_CAPACITY && final(self)@
                    == #[trigger] old(self)@.joined(match_id@, Observer::fresh(channel)),
            match subscription.initial {
                Some(payload) => old(self)@.matches.contains_key(match_id@) && payload@ == wire_text(
                    EventKind::InitialState,
                    match_id@,
                    old(self)@.matches[match_id@].state.document@,
                ),
                None => !old(self)@.matches.contains_key(match_id@),
            },
    {
        let (sender, receiver) = open_channel();
        let initial = match self.matches.get(match_id.as_str()) {
            Some(record) => Some(
                frame(EventKind::InitialState, match_id.as_str(), record.state.document.as_str()),
            ),
            None => None,
        };
        self.observers.subscribe(match_id, sender);
        assert(final(self)@ == old(self)@.joined(match_id@, Observer::fresh(sender)));
        Subscription { receiver, initial }
    }
}

} // verus!
