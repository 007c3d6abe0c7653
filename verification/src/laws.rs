//! What holds across several operations on the shared state.
//!
//! Each statement is about the maps that the operations' contracts speak of, so
//! it applies to every run of the operations, whatever the engine, the clock
//! and the observers' channels did.

use vstd::prelude::*;
use crate::clock::Timestamp;
use crate::event::{wire_text, EventKind};
use crate::game::GameState;
use crate::observers::{survivors, watchers, Observer};
use crate::state::{AppView, MutationError};
use crate::store::Match;

verus! {

/// The wire forms of the updates that announce `states`, one after the other,
/// for the match `id`.
pub open spec fn announcements(id: Seq<char>, states: Seq<GameState>) -> Seq<Seq<char>> {
    Seq::new(states.len(), |r: int| wire_text(EventKind::StateUpdate, id, states[r].document@))
}

/// `observer` after its channel took each of `payloads`, in order.
pub open spec fn trail(observer: Observer, payloads: Seq<Seq<char>>) -> Observer
    decreases payloads.len(),
{
    if payloads.len() == 0 {
        observer
    } else {
        trail(observer, payloads.drop_last()).after(payloads.last())
    }
}

/// A match that was just created reads back as it was created: under its
/// identifier, in the state it was given, and with equal timestamps.
pub proof fn law_created_match_reads_back(
    before: AppView,
    id: String,
    state: GameState,
    now: Timestamp,
)
    ensures
        before.created(Match::opened(id, state, now)).lookup(id@) == Some(
            Match::opened(id, state, now),
        ),
        Match::opened(id, state, now).state == state,
        Match::opened(id, state, now).created_at == Match::opened(id, state, now).updated_at,
{
}

/// A match that is not stored cannot be read, and no verdict changes that or
/// anything else.
pub proof fn law_unknown_match_stays_unknown<E>(
    before: AppView,
    id: Seq<char>,
    verdict: Result<GameState, E>,
    now: Timestamp,
    outcomes: Seq<bool>,
)
    requires
        !before.matches.contains_key(id),
    ensures
        before.lookup(id) is None,
        before.reply(id, verdict) == Err::<GameState, MutationError<E>>(MutationError::NotFound),
        before.concluded(id, verdict, now, outcomes) == before,
{
}

/// After an accepted action the caller holds the state the engine returned,
/// and the match reads back in that state however often it is read; its
/// identifier and creation time are the old ones, its update time is the clock
/// reading of the commit where that is later than the previous update, and no
/// other match has changed.
pub proof fn law_accepted_action_is_committed<E>(
    before: AppView,
    id: Seq<char>,
    state: GameState,
    now: Timestamp,
    outcomes: Seq<bool>,
)
    requires
        before.matches.contains_key(id),
    ensures
        before.reply(id, Ok::<GameState, E>(state)) == Ok::<GameState, MutationError<E>>(state),
        before.concluded(id, Ok::<GameState, E>(state), now, outcomes).lookup(id) == Some(
            before.matches[id].revised(state, now),
        ),
        before.matches[id].revised(state, now).state == state,
        before.matches[id].updated_at.precedes(now) ==> before.matches[id].revised(
            state,
            now,
        ).updated_at == now,
        before.matches[id].revised(state, now).created_at == before.matches[id].created_at,
        before.matches[id].revised(state, now).id == before.matches[id].id,
        forall|other: Seq<char>|
            other != id ==> before.concluded(id, Ok::<GameState, E>(state), now, outcomes).lookup(
                other,
            ) == before.lookup(other),
{
}

/// Every accepted action strictly increases the update time of its match,
/// whatever the clock read: also where the clock stood still or was set back
/// between two commits. The one exception is a match whose update time is
/// already the last instant that can be written down.
pub proof fn law_update_time_grows(
    before: AppView,
    id: Seq<char>,
    state: GameState,
    now: Timestamp,
    outcomes: Seq<bool>,
)
    requires
        before.matches.contains_key(id),
        !before.matches[id].updated_at.is_last(),
    ensures
        before.matches[id].updated_at.precedes(
            before.advanced(id, state, now, outcomes).matches[id].updated_at,
        ),
        before.matches[id].updated_at.precedes(before.updated(id, state, now).matches[id].updated_at),
        before.stamp_grows(before.advanced(id, state, now, outcomes), id),
        before.advanced(id, state, now, outcomes).matches[id].created_at
            == before.matches[id].created_at,
{
}

/// A new match takes nothing away. When a match is created under an
/// identifier that no stored match has, there is one match more than before,
/// it is listed last, and every match that was stored reads as it did.
pub proof fn law_creation_adds_one_match(before: AppView, record: Match)
    requires
        !before.matches.contains_key(record.id@),
    ensures
        before.created(record).order == before.order.push(record.id@),
        before.created(record).order.len() == before.order.len() + 1,
        before.created(record).lookup(record.id@) == Some(record),
        before.created(record).observers == before.observers,
        forall|other: Seq<char>|
            before.matches.contains_key(other) ==> before.created(record).lookup(other)
                == before.lookup(other),
{
}

/// A refused action leaves every match and every observer as it was: nothing
/// is committed and nobody is told.
pub proof fn law_refused_action_changes_nothing<E>(
    before: AppView,
    id: Seq<char>,
    refusal: E,
    now: Timestamp,
    outcomes: Seq<bool>,
)
    ensures
        before.concluded(id, Err::<GameState, E>(refusal), now, outcomes) == before,
        before.matches.contains_key(id) ==> before.reply(id, Err::<GameState, E>(refusal))
            == Err::<GameState, MutationError<E>>(MutationError::EngineRejected(refusal)),
{
}

/// `later` is `list[i]` after its channel took `payload`, which `outcomes`
/// says it did.
pub open spec fn took(
    list: Seq<Observer>,
    payload: Seq<char>,
    outcomes: Seq<bool>,
    i: int,
    later: Observer,
) -> bool {
    0 <= i < list.len() && outcomes[i] && later == list[i].after(payload)
}

/// An observer whose channel takes the payload is served and stays, whatever
/// the channels of the other observers of the same match did.
pub proof fn law_healthy_observer_is_served(
    list: Seq<Observer>,
    payload: Seq<char>,
    outcomes: Seq<bool>,
    healthy: int,
)
    requires
        0 <= healthy < list.len(),
        outcomes[healthy],
    ensures
        survivors(list, payload, outcomes).contains(list[healthy].after(payload)),
    decreases list.len(),
{
    let rest = survivors(list.drop_last(), payload, outcomes);
    let all = survivors(list, payload, outcomes);
    if healthy == list.len() - 1 {
        assert(all[rest.len() as int] == list[healthy].after(payload));
    } else {
        law_healthy_observer_is_served(list.drop_last(), payload, outcomes, healthy);
        let j = choose|j: int|
            0 <= j < rest.len() && rest[j] == list.drop_last()[healthy].after(payload);
        assert(all[j] == list[healthy].after(payload));
    }
}

/// `later` is one of `list`, at position `floor` or beyond, after its channel
/// took `payload`.
pub open spec fn served(
    list: Seq<Observer>,
    payload: Seq<char>,
    outcomes: Seq<bool>,
    floor: int,
    later: Observer,
) -> bool {
    exists|i: int| floor <= i && #[trigger] took(list, payload, outcomes, i, later)
}

/// Whoever is left after a fan-out was there before and took the payload;
/// nobody is left whose channel refused, and nobody has moved ahead of where
/// they stood.
pub proof fn law_survivors_were_served(
    list: Seq<Observer>,
    payload: Seq<char>,
    outcomes: Seq<bool>,
)
    ensures
        survivors(list, payload, outcomes).len() <= list.len(),
        forall|j: int|
            0 <= j < survivors(list, payload, outcomes).len() ==> served(
                list,
                payload,
                outcomes,
                j,
                #[trigger] survivors(list, payload, outcomes)[j],
            ),
    decreases list.len(),
{
    if list.len() > 0 {
        let shorter = list.drop_last();
        law_survivors_were_served(shorter, payload, outcomes);
        let rest = survivors(shorter, payload, outcomes);
        let all = survivors(list, payload, outcomes);
        assert forall|j: int| 0 <= j < all.len() implies served(
            list,
            payload,
            outcomes,
            j,
            #[trigger] all[j],
        ) by {
            if j < rest.len() {
                let i = choose|i: int| j <= i && #[trigger] took(shorter, payload, outcomes, i, rest[j]);
                assert(took(list, payload, outcomes, i, all[j]));
            } else {
                assert(took(list, payload, outcomes, list.len() - 1, all[j]));
            }
        }
    }
}

/// Nobody is told of a state that the store does not hold. Right after an
/// accepted action, the newest payload on the record of every observer of the
/// match is the update that announces the state found in the store.
pub proof fn law_announced_state_is_stored(
    before: AppView,
    id: Seq<char>,
    state: GameState,
    now: Timestamp,
    outcomes: Seq<bool>,
)
    requires
        before.matches.contains_key(id),
    ensures
        forall|j: int|
            0 <= j < watchers(before.advanced(id, state, now, outcomes).observers, id).len() ==> {
                let observer = #[trigger] watchers(
                    before.advanced(id, state, now, outcomes).observers,
                    id,
                )[j];
                &&& observer.received().len() > 0
                &&& observer.received().last() == wire_text(
                    EventKind::StateUpdate,
                    id,
                    before.advanced(id, state, now, outcomes).matches[id].state.document@,
                )
            },
{
    let after = before.advanced(id, state, now, outcomes);
    let list = watchers(before.observers, id);
    let payload = wire_text(EventKind::StateUpdate, id, state.document@);
    let left = watchers(after.observers, id);
    law_survivors_were_served(list, payload, outcomes);
    assert forall|j: int| 0 <= j < left.len() implies {
        let observer = #[trigger] left[j];
        &&& observer.received().len() > 0
        &&& observer.received().last() == payload
    } by {
        let i = choose|i: int| j <= i && #[trigger] took(list, payload, outcomes, i, left[j]);
        list[i].lemma_after(payload);
    }
}

/// The record of an observer that took `payloads` one after the other is its
/// old record followed by exactly those payloads, in that order; its channel
/// is the one it had.
pub proof fn law_trail_appends(observer: Observer, payloads: Seq<Seq<char>>)
    ensures
        trail(observer, payloads).received() == observer.received() + payloads,
        trail(observer, payloads).channel() == observer.channel(),
    decreases payloads.len(),
{
    if payloads.len() == 0 {
        assert(observer.received() + payloads =~= observer.received());
    } else {
        law_trail_appends(observer, payloads.drop_last());
        trail(observer, payloads.drop_last()).lemma_after(payloads.last());
        assert((observer.received() + payloads.drop_last()).push(payloads.last())
            =~= observer.received() + payloads);
    }
}

/// `later` is `earlier[i]` after its channel took exactly `payloads`.
pub open spec fn followed(
    earlier: Seq<Observer>,
    payloads: Seq<Seq<char>>,
    i: int,
    later: Observer,
) -> bool {
    0 <= i < earlier.len() && later == trail(earlier[i], payloads)
}

/// `later` is one of `earlier` after its channel took exactly `payloads`.
pub open spec fn stems_from(
    earlier: Seq<Observer>,
    payloads: Seq<Seq<char>>,
    later: Observer,
) -> bool {
    exists|i: int| #[trigger] followed(earlier, payloads, i, later)
}

/// Every observer in `later` is one of `earlier` whose channel took exactly
/// `payloads` in between.
pub open spec fn each_stems_from(
    later: Seq<Observer>,
    earlier: Seq<Observer>,
    payloads: Seq<Seq<char>>,
) -> bool {
    forall|j: int| 0 <= j < later.len() ==> stems_from(earlier, payloads, #[trigger] later[j])
}

/// Ordered delivery. When `n` actions on one match are accepted one after the
/// other, every observer that is still watching the match afterwards was
/// watching it before, and in between its channel took exactly the `n` updates,
/// in the order of the actions, each carrying the state that was committed by
/// the action it announces. Observers of other matches are told nothing, and
/// the store ends up holding the state of the last action.
pub proof fn law_updates_arrive_in_order(
    before: AppView,
    id: Seq<char>,
    states: Seq<GameState>,
    times: Seq<Timestamp>,
    answers: Seq<Seq<bool>>,
)
    requires
        states.len() <= times.len(),
        states.len() <= answers.len(),
    ensures
        each_stems_from(
            watchers(before.replayed(id, states, times, answers).observers, id),
            watchers(before.observers, id),
            announcements(id, states),
        ),
        forall|other: Seq<char>|
            other != id ==> watchers(before.replayed(id, states, times, answers).observers, other)
                == watchers(before.observers, other),
        before.replayed(id, states, times, answers).matches.contains_key(id)
            == before.matches.contains_key(id),
        before.matches.contains_key(id) && states.len() > 0 ==> before.replayed(
            id,
            states,
            times,
            answers,
        ).matches[id].state == states.last(),
    decreases states.len(),
{
    let first = watchers(before.observers, id);
    if states.len() == 0 {
        assert(before.replayed(id, states, times, answers) == before);
        assert(announcements(id, states) =~= Seq::<Seq<char>>::empty());
        assert forall|j: int| 0 <= j < first.len() implies stems_from(
            first,
            announcements(id, states),
            #[trigger] first[j],
        ) by {
            assert(followed(first, announcements(id, states), j, first[j]));
        }
    } else {
        let earlier_states = states.drop_last();
        law_updates_arrive_in_order(before, id, earlier_states, times, answers);
        let middle_view = before.replayed(id, earlier_states, times, answers);
        let middle = watchers(middle_view.observers, id);
        let payload = wire_text(EventKind::StateUpdate, id, states.last().document@);
        let outcomes = answers[states.len() - 1];
        let last_view = before.replayed(id, states, times, answers);
        let last = watchers(last_view.observers, id);
        law_survivors_were_served(middle, payload, outcomes);
        assert(announcements(id, states).drop_last() =~= announcements(id, earlier_states));
        assert(announcements(id, states).last() == payload);
        assert forall|j: int| 0 <= j < last.len() implies stems_from(
            first,
            announcements(id, states),
            #[trigger] last[j],
        ) by {
            let m = choose|m: int| j <= m && #[trigger] took(middle, payload, outcomes, m, last[j]);
            let i = choose|i: int| #[trigger]
                followed(first, announcements(id, earlier_states), i, middle[m]);
            assert(followed(first, announcements(id, states), i, last[j]));
        }
    }
}

/// Watching may begin before the match exists. An observer that subscribes to
/// an identifier nobody holds yet is registered and finds nothing to read;
/// once a match is stored under that identifier and an action on it is
/// accepted, the update is offered to that observer, and if its channel takes
/// it, the observer has it and stays.
pub proof fn law_early_observer_is_served(
    before: AppView,
    observer: Observer,
    record: Match,
    state: GameState,
    now: Timestamp,
    outcomes: Seq<bool>,
)
    requires
        !before.matches.contains_key(record.id@),
        outcomes.len() == watchers(before.observers, record.id@).len() + 1,
        outcomes.last(),
    ensures
        before.lookup(record.id@) is None,
        before.joined(record.id@, observer).lookup(record.id@) is None,
        watchers(before.joined(record.id@, observer).created(record).observers, record.id@)
            == watchers(before.observers, record.id@).push(observer),
        watchers(
            before.joined(record.id@, observer).created(record).advanced(
                record.id@,
                state,
                now,
                outcomes,
            ).observers,
            record.id@,
        ).contains(observer.after(wire_text(EventKind::StateUpdate, record.id@, state.document@))),
{
    let id = record.id@;
    let list = watchers(before.observers, id).push(observer);
    let payload = wire_text(EventKind::StateUpdate, id, state.document@);
    let ready = before.joined(id, observer).created(record);
    assert(ready.observers[id] == list);
    law_healthy_observer_is_served(list, payload, outcomes, list.len() - 1);
}

} // verus!
