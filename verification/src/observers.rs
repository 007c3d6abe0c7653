//! The observer registry: who is watching which match, and the fan-out of one
//! payload to everyone watching a match.

use vstd::prelude::*;
use tokio::sync::mpsc::{Receiver, Sender};
use crate::table::Table;

verus! {

/// `tokio::sync::mpsc::Sender`, the sending half of a bounded channel. Nothing
/// is known about a value of this type; it is only stored and handed on.
#[verifier::external_type_specification]
#[verifier::external_body]
#[verifier::reject_recursive_types(T)]
pub struct ExSender<T>(Sender<T>);

/// `tokio::sync::mpsc::Receiver`, the receiving half of a bounded channel.
/// Nothing is known about a value of this type; it is only handed on.
#[verifier::external_type_specification]
#[verifier::external_body]
#[verifier::reject_recursive_types(T)]
pub struct ExReceiver<T>(Receiver<T>);

/// Hands `payload` to `channel` with `tokio::sync::mpsc::Sender::try_send`,
/// which never waits. Returns whether the channel took it; it does not when its
/// buffer is full or its receiver is gone. Nothing is promised of the answer.
#[verifier::external_body]
fn try_push(channel: &Sender<String>, payload: String) -> (accepted: bool) {
    channel.try_send(payload).is_ok()
}

/// Creates a bounded channel with `tokio::sync::mpsc::channel`. That function
/// panics on a capacity of zero or above `usize::MAX >> 3`.
#[verifier::external_body]
fn bounded_channel(capacity: usize) -> (ends: (Sender<String>, Receiver<String>))
    requires
        0 < capacity <= usize::MAX / 8,
    ensures
        buffer_bound(ends.0) == capacity,
{
    tokio::sync::mpsc::channel(capacity)
}

/// How many undelivered payloads an observer's channel buffers.
pub const CHANNEL_CAPACITY: usize = 100;

/// Opens the channel of one observer, with room for [`CHANNEL_CAPACITY`]
/// payloads.
pub fn open_channel() -> (ends: (Sender<String>, Receiver<String>))
    ensures
        buffer_bound(ends.0) == CHANNEL_CAPACITY,
{
    bounded_channel(CHANNEL_CAPACITY)
}

/// One observer: the sending half of its channel, and the record of what the
/// channel has taken so far. The record is kept by this crate, not read back
/// from the channel: [`Observer::settle`] appends a payload when told that the
/// channel took it, and [`Observer::offer`] tells it so when, and only when,
/// the channel said so. The channel hands payloads on in the order it took them.
pub struct Observer {
    channel: Sender<String>,
    taken: Ghost<Seq<Seq<char>>>,
}

impl Observer {
    /// The sending half of the observer's channel.
    pub closed spec fn channel(self) -> Sender<String> {
        self.channel
    }

    /// The payloads the observer's channel has taken, oldest first.
    pub closed spec fn received(self) -> Seq<Seq<char>> {
        self.taken@
    }

    /// An observer on `channel` that has not been sent anything.
    pub closed spec fn fresh(channel: Sender<String>) -> Observer {
        Observer { channel, taken: Ghost(Seq::empty()) }
    }

    /// This observer after its channel took `payload`.
    pub closed spec fn after(self, payload: Seq<char>) -> Observer {
        Observer { channel: self.channel, taken: Ghost(self.taken@.push(payload)) }
    }

    /// A fresh observer has the channel it was given and an empty record.
    pub proof fn lemma_fresh(channel: Sender<String>)
        ensures
            Observer::fresh(channel).channel() == channel,
            Observer::fresh(channel).received() == Seq::<Seq<char>>::empty(),
    {
    }

    /// Taking a payload appends it to the record and leaves the channel alone.
    pub proof fn lemma_after(self, payload: Seq<char>)
        ensures
            self.after(payload).channel() == self.channel(),
            self.after(payload).received() == self.received().push(payload),
    {
    }

    /// Wraps the sending half of a channel that nothing was sent on yet.
    pub fn new(channel: Sender<String>) -> (observer: Observer)
        ensures
            observer == Observer::fresh(channel),
    {
        Observer { channel, taken: Ghost(Seq::empty()) }
    }

    /// Concludes one delivery attempt: an observer whose channel took the
    /// payload stays, with the payload on its record; one whose channel did not
    /// is dropped.
    pub fn settle(self, payload: &str, accepted: bool) -> (kept: Option<Observer>)
        ensures
            kept == settled(self, payload@, accepted),
    {
        if accepted {
            Some(Observer { channel: self.channel, taken: Ghost(self.taken@.push(payload@)) })
        } else {
            None
        }
    }

    /// Offers `payload` to the observer's channel without waiting, and settles
    /// the attempt. Returns what is left of the observer and whether the channel
    /// took the payload.
    pub fn offer(self, payload: &str) -> (outcome: (Option<Observer>, bool))
        ensures
            outcome.0 == settled(self, payload@, outcome.1),
    {
        let accepted = try_push(&self.channel, payload.to_owned());
        (self.settle(payload, accepted), accepted)
    }
}

/// What is left of `observer` after a delivery attempt of `payload`.
pub open spec fn settled(observer: Observer, payload: Seq<char>, accepted: bool) -> Option<
    Observer,
> {
    if accepted {
        Some(observer.after(payload))
    } else {
        None
    }
}

/// The observers of `list` that are left after `payload` was offered to each,
/// in their old order. `outcomes[i]` says whether the channel of `list[i]` took
/// the payload.
pub open spec fn survivors(list: Seq<Observer>, payload: Seq<char>, outcomes: Seq<bool>) -> Seq<
    Observer,
>
    decreases list.len(),
{
    if list.len() == 0 {
        Seq::empty()
    } else {
        let earlier = survivors(list.drop_last(), payload, outcomes);
        if outcomes[list.len() - 1] {
            earlier.push(list.last().after(payload))
        } else {
            earlier
        }
    }
}

/// `survivors` reads only the answers that belong to the observers it is given.
pub proof fn lemma_survivors_ignore_later_answers(
    list: Seq<Observer>,
    payload: Seq<char>,
    a: Seq<bool>,
    b: Seq<bool>,
)
    requires
        forall|i: int| 0 <= i < list.len() ==> a[i] == b[i],
    ensures
        survivors(list, payload, a) == survivors(list, payload, b),
    decreases list.len(),
{
    if list.len() > 0 {
        lemma_survivors_ignore_later_answers(list.drop_last(), payload, a, b);
    }
}

/// The observers watching `id`; none if the registry has no entry for `id`.
pub open spec fn watchers(registry: Map<Seq<char>, Seq<Observer>>, id: Seq<char>) -> Seq<
    Observer,
> {
    if registry.contains_key(id) {
        registry[id]
    } else {
        Seq::empty()
    }
}

/// The registry after `observer` started watching `id`.
pub open spec fn subscribed(
    registry: Map<Seq<char>, Seq<Observer>>,
    id: Seq<char>,
    observer: Observer,
) -> Map<Seq<char>, Seq<Observer>> {
    registry.insert(id, watchers(registry, id).push(observer))
}

/// The registry after `payload` was offered to everyone watching `id`, with
/// `outcomes` as the answers of their channels. Observers of other matches are
/// not touched.
pub open spec fn fanned_out(
    registry: Map<Seq<char>, Seq<Observer>>,
    id: Seq<char>,
    payload: Seq<char>,
    outcomes: Seq<bool>,
) -> Map<Seq<char>, Seq<Observer>> {
    if registry.contains_key(id) {
        registry.insert(id, survivors(registry[id], payload, outcomes))
    } else {
        registry
    }
}

/// The mapping from match identifier to the observers watching that match.
pub struct ObserverRegistry {
    groups: Table<Vec<Observer>>,
}

impl View for ObserverRegistry {
    type V = Map<Seq<char>, Seq<Observer>>;

    closed spec fn view(&self) -> Map<Seq<char>, Seq<Observer>> {
        Map::new(|k: Seq<char>| self.groups@.contains_key(k), |k: Seq<char>| self.groups@[k]@)
    }
}

impl ObserverRegistry {
    #[verifier::type_invariant]
    spec fn indexed(self) -> bool {
        self.groups.wf()
    }

    /// A registry without observers.
    pub fn new() -> (registry: ObserverRegistry)
        ensures
            registry@ == Map::<Seq<char>, Seq<Observer>>::empty(),
    {
        let registry = ObserverRegistry { groups: Table::new() };
        assert(registry@ =~= Map::<Seq<char>, Seq<Observer>>::empty());
        registry
    }

    /// How many observers are watching `id`.
    pub fn watching(&self, id: &str) -> (n: usize)
        ensures
            n == watchers(self@, id@).len(),
    {
        proof {
            use_type_invariant(self);
        }
        match self.groups.get(id) {
            Some(group) => group.len(),
            None => 0,
        }
    }

    /// Adds an observer on `channel` to those watching `id`, after the ones
    /// already there. Whether a match `id` exists plays no part.
    pub fn subscribe(&mut self, id: String, channel: Sender<String>)
        ensures
            final(self)@ == subscribed(old(self)@, id@, Observer::fresh(channel)),
    {
        proof {
            use_type_invariant(&*self);
        }
        let mut taken = ObserverRegistry::new();
        core::mem::swap(self, &mut taken);
        let ObserverRegistry { mut groups } = taken;
        let mut group: Vec<Observer> = Vec::new();
        let known = groups.exchange(id.as_str(), &mut group);
        group.push(Observer::new(channel));
        if known {
            groups.exchange(id.as_str(), &mut group);
        } else {
            groups.insert(id, group);
        }
        *self = ObserverRegistry { groups };
        assert(final(self)@ =~= subscribed(old(self)@, id@, Observer::fresh(channel)));
    }

    /// Offers `payload` to every observer watching `id`, in subscription order
    /// and without waiting for any of them. An observer whose channel does not
    /// take the payload is removed on the spot; the others stay, in order. The
    /// answers of the channels are returned, one per observer that was watching.
    pub fn deliver(&mut self, id: &str, payload: &str) -> (outcomes: Vec<bool>)
        ensures
            outcomes@.len() == watchers(old(self)@, id@).len(),
            final(self)@ == fanned_out(old(self)@, id@, payload@, outcomes@),
    {
        proof {
            use_type_invariant(&*self);
        }
        let mut taken = ObserverRegistry::new();
        core::mem::swap(self, &mut taken);
        let ObserverRegistry { mut groups } = taken;
        let mut outcomes: Vec<bool> = Vec::new();
        let mut group: Vec<Observer> = Vec::new();
        let known = groups.exchange(id, &mut group);
        if known {
            let ghost before = group@;
            let mut kept: Vec<Observer> = Vec::new();
            for observer in it: group.into_iter()
                invariant
                    it.seq() == before,
                    outcomes@.len() == it.index(),
                    kept@ == survivors(before.take(it.index() as int), payload@, outcomes@),
            {
                let ghost earlier = outcomes@;
                let ghost position = it.index() as int;
                let (left, accepted) = observer.offer(payload);
                outcomes.push(accepted);
                match left {
                    Some(observer) => kept.push(observer),
                    None => {},
                }
                proof {
                    assert(before.take(position + 1).drop_last() =~= before.take(position));
                    assert(before.take(position + 1).last() == observer);
                    lemma_survivors_ignore_later_answers(
                        before.take(position),
                        payload@,
                        earlier,
                        outcomes@,
                    );
                }
            }
            assert(before.take(before.len() as int) =~= before);
            groups.exchange(id, &mut kept);
        }
        *self = ObserverRegistry { groups };
        assert(final(self)@ =~= fanned_out(old(self)@, id@, payload@, outcomes@));
        outcomes
    }
}

/// The number of payloads that the channel behind `sender` was made to buffer.
/// It is fixed when the channel is created and never changes;
/// `tokio::sync::mpsc::Sender::max_capacity` reports it.
pub uninterp spec fn buffer_bound(sender: Sender<String>) -> usize;

} // verus!
