//! The match store: every match the server knows, by identifier.

use vstd::prelude::*;
use crate::clock::Timestamp;
use crate::game::GameState;
use crate::ident::{fresh_match_id, is_match_id, numbered_match_id, serial_of};
use crate::table::Table;

verus! {

/// The identifier of a match.
pub type MatchId = String;

/// One match: its identifier, the current game state, and when it was created
/// and last changed.
#[derive(Clone, Debug, PartialEq, Eq)]
pub struct Match {
    pub id: MatchId,
    pub state: GameState,
    pub created_at: Timestamp,
    pub updated_at: Timestamp,
}

impl Match {
    /// The record of a match that came into being at `now` in state `state`.
    pub open spec fn opened(id: String, state: GameState, now: Timestamp) -> Match {
        Match { id, state, created_at: now, updated_at: now }
    }

    /// This record after its state was replaced when the clock read `now`: the
    /// identifier and the creation time stay, and the update time moves on, to
    /// `now` where that is later and by one nanosecond where it is not.
    pub open spec fn revised(self, state: GameState, now: Timestamp) -> Match {
        Match {
            id: self.id,
            state,
            created_at: self.created_at,
            updated_at: self.updated_at.stamp_after(now),
        }
    }

    /// Builds the record of a match created at `now`.
    pub fn open(id: String, state: GameState, now: Timestamp) -> (record: Match)
        ensures
            record == Match::opened(id, state, now),
    {
        Match { id, state, created_at: now, updated_at: now }
    }

    /// A new match between `player1` and `player2`: a freshly drawn
    /// identifier, the state that `new_game` builds for the two, and the
    /// current time as both timestamps.
    pub fn new<F: FnOnce(String, String) -> GameState>(
        player1: String,
        player2: String,
        new_game: F,
    ) -> (record: Match)
        requires
            call_requires(new_game, (player1, player2)),
        ensures
            is_match_id(record.id@),
            call_ensures(new_game, (player1, player2), record.state),
            record.created_at == record.updated_at,
    {
        let now = Timestamp::now();
        let id = fresh_match_id();
        let state = new_game(player1, player2);
        Match::open(id, state, now)
    }

    /// An independent copy of the record.
    pub fn duplicate(&self) -> (copy: Match)
        ensures
            copy == *self,
    {
        Match {
            id: self.id.clone(),
            state: self.state.duplicate(),
            created_at: self.created_at,
            updated_at: self.updated_at,
        }
    }
}

/// What a store holds after the match `id` was given the state `state` when the
/// clock read `now`. A store that lacks `id` is left as it is.
pub open spec fn revise(
    matches: Map<Seq<char>, Match>,
    id: Seq<char>,
    state: GameState,
    now: Timestamp,
) -> Map<Seq<char>, Match> {
    if matches.contains_key(id) {
        matches.insert(id, matches[id].revised(state, now))
    } else {
        matches
    }
}

/// How many identifiers are drawn at random for a new match before the
/// counted identifiers are tried.
pub const DRAWS: usize = 4;

/// The mapping from match identifier to match record.
///
/// There is one record per identifier, filed under the identifier it carries.
pub struct MatchStore {
    table: Table<Match>,
}

impl View for MatchStore {
    type V = Map<Seq<char>, Match>;

    closed spec fn view(&self) -> Map<Seq<char>, Match> {
        self.table@
    }
}

impl MatchStore {
    #[verifier::type_invariant]
    spec fn filed_by_id(self) -> bool {
        &&& self.table.wf()
        &&& forall|k: Seq<char>| self.table@.contains_key(k) ==> (#[trigger] self.table@[k]).id@ == k
    }

    /// The identifiers of the stored matches, in the order in which they were
    /// first stored.
    pub closed spec fn ids(self) -> Seq<Seq<char>> {
        self.table.keys()
    }

    /// A store without matches.
    pub fn new() -> (store: MatchStore)
        ensures
            store@ == Map::<Seq<char>, Match>::empty(),
            store.ids() == Seq::<Seq<char>>::empty(),
    {
        MatchStore { table: Table::new() }
    }

    /// The number of stored matches. Every match is counted once: the listing
    /// order names each stored identifier once and nothing else.
    pub fn len(&self) -> (n: usize)
        ensures
            n == self.ids().len(),
            self.ids().no_duplicates(),
            forall|id: Seq<char>| self.ids().contains(id) <==> self@.contains_key(id),
    {
        proof {
            use_type_invariant(self);
            self.table.lemma_keys_enumerate_domain();
        }
        self.table.len()
    }

    /// An identifier of the usual shape under which nothing is stored.
    ///
    /// Identifiers are drawn at random until one is free. Should [`DRAWS`] of
    /// them in a row be taken, the counted identifiers are tried, from number
    /// zero upwards; a store of `n` matches cannot hold the first `n + 1` of
    /// them.
    pub fn unused_id(&self) -> (id: String)
        ensures
            is_match_id(id@),
            !self@.contains_key(id@),
    {
        proof {
            use_type_invariant(self);
            self.table.lemma_domain_size();
        }
        let mut draws: usize = 0;
        while draws < DRAWS
            invariant
                draws <= DRAWS,
            decreases DRAWS - draws,
        {
            let id = fresh_match_id();
            if !self.table.contains_key(id.as_str()) {
                return id;
            }
            draws = draws + 1;
        }
        let n: usize = self.table.len();
        let mut serial: usize = 0;
        let ghost mut taken: Set<Seq<char>> = Set::empty();
        loop
            invariant
                n == self.table@.dom().len(),
                self.table@.dom().finite(),
                serial <= n,
                taken.finite(),
                taken.len() == serial,
                taken.subset_of(self.table@.dom()),
                forall|held: Seq<char>| taken.contains(held) ==> serial_of(held) < serial,
            decreases n - serial,
        {
            let id = numbered_match_id(serial as u64);
            if !self.table.contains_key(id.as_str()) {
                return id;
            }
            proof {
                taken = taken.insert(id@);
                vstd::set_lib::lemma_len_subset(taken, self.table@.dom());
            }
            serial = serial + 1;
        }
    }

    /// Whether a match is stored under `id`.
    pub fn contains(&self, id: &str) -> (present: bool)
        ensures
            present == self@.contains_key(id@),
    {
        self.table.contains_key(id)
    }

    /// The record stored under `id`, or `None` if there is none.
    pub fn get(&self, id: &str) -> (found: Option<&Match>)
        ensures
            match found {
                Some(record) => self@.contains_key(id@) && *record == self@[id@] && record.id@ == id@,
                None => !self@.contains_key(id@),
            },
    {
        proof {
            use_type_invariant(self);
        }
        self.table.get(id)
    }

    /// Files `record` under its own identifier. A record already filed under
    /// that identifier is replaced and keeps its place in the listing order.
    pub fn insert(&mut self, record: Match)
        ensures
            final(self)@ == old(self)@.insert(record.id@, record),
            final(self).ids() == if old(self)@.contains_key(record.id@) {
                old(self).ids()
            } else {
                old(self).ids().push(record.id@)
            },
    {
        proof {
            use_type_invariant(&*self);
        }
        let mut taken = MatchStore::new();
        core::mem::swap(self, &mut taken);
        let MatchStore { mut table } = taken;
        let key = record.id.clone();
        table.insert(key, record);
        *self = MatchStore { table };
    }

    /// Replaces the state of the match `id`, as one replacement of the whole
    /// record, and moves its update time on: to the clock reading `now` where
    /// that is later than the previous update, and by one nanosecond where it is
    /// not. Returns whether the match exists; if it does not, the store is left
    /// untouched.
    pub fn update(&mut self, id: &str, state: GameState, now: Timestamp) -> (present: bool)
        ensures
            present == old(self)@.contains_key(id@),
            final(self)@ == revise(old(self)@, id@, state, now),
            final(self).ids() == old(self).ids(),
            present && !old(self)@[id@].updated_at.is_last() ==> old(self)@[id@].updated_at.precedes(
                final(self)@[id@].updated_at,
            ),
    {
        proof {
            use_type_invariant(&*self);
        }
        let mut taken = MatchStore::new();
        core::mem::swap(self, &mut taken);
        let MatchStore { mut table } = taken;
        let present = match table.get(id) {
            Some(current) => {
                let mut record = Match {
                    id: current.id.clone(),
                    state,
                    created_at: current.created_at,
                    updated_at: current.updated_at.stamp(&now),
                };
                table.exchange(id, &mut record);
                true
            },
            None => false,
        };
        *self = MatchStore { table };
        present
    }

    /// The identifiers of all stored matches, oldest first. Each stored match is
    /// listed once.
    pub fn list(&self) -> (ids: Vec<String>)
        ensures
            ids@.len() == self.ids().len(),
            forall|i: int| 0 <= i < ids@.len() ==> (#[trigger] ids@[i])@ == self.ids()[i],
            self.ids().no_duplicates(),
            forall|k: Seq<char>| self.ids().contains(k) <==> self@.contains_key(k),
    {
        proof {
            use_type_invariant(self);
            self.table.lemma_keys_enumerate_domain();
        }
        let mut ids: Vec<String> = Vec::new();
        let n: usize = self.table.len();
        let mut i: usize = 0;
        while i < n
            invariant
                self.table.wf(),
                n == self.table.keys().len(),
                i <= n,
                ids@.len() == i,
                forall|j: int| 0 <= j < i ==> (#[trigger] ids@[j])@ == self.table.keys()[j],
            decreases n - i,
        {
            ids.push(self.table.key_at(i).clone());
            i = i + 1;
        }
        ids
    }

    /// The record of the match at `position` in listing order.
    pub fn record_at(&self, position: usize) -> (record: &Match)
        requires
            position < self.ids().len(),
        ensures
            record.id@ == self.ids()[position as int],
            self@.contains_key(record.id@),
            *record == self@[record.id@],
    {
        proof {
            use_type_invariant(self);
        }
        self.table.value_at(position)
    }
}

} // verus!
