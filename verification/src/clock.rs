//! Instants on the UTC time line, as the registry records them.

use vstd::prelude::*;

verus! {

/// An instant: whole seconds since 1970-01-01T00:00:00Z and the nanoseconds
/// into that second.
#[derive(Clone, Copy, Debug, PartialEq, Eq, Structural)]
pub struct Timestamp {
    pub secs: i64,
    pub nanos: u32,
}

impl Timestamp {
    /// `self` lies strictly before `other`: seconds decide, nanoseconds break ties.
    pub open spec fn precedes(self, other: Timestamp) -> bool {
        self.secs < other.secs || (self.secs == other.secs && self.nanos < other.nanos)
    }

    /// Whether `self` lies strictly before `other`.
    pub fn is_before(&self, other: &Timestamp) -> (earlier: bool)
        ensures
            earlier == self.precedes(*other),
    {
        self.secs < other.secs || (self.secs == other.secs && self.nanos < other.nanos)
    }

    /// The current instant according to the system clock.
    pub fn now() -> (t: Timestamp)
        ensures
            t.is_reading(),
    {
        read_clock()
    }

    /// What every reading of the system clock looks like: an instant at or
    /// after the start of 1970, with less than a second's worth of nanoseconds.
    pub open spec fn is_reading(self) -> bool {
        0 <= self.secs && self.nanos < 1_000_000_000
    }

    /// Whether `self` is the last instant that can be written down.
    pub open spec fn is_last(self) -> bool {
        self.secs == i64::MAX && self.nanos == u32::MAX
    }

    /// The instant one nanosecond after `self`. The nanoseconds roll over into
    /// the next second at a full second; only where no next second can be
    /// written are they counted further. The last instant is its own successor.
    pub open spec fn successor(self) -> Timestamp {
        if self.nanos < 999_999_999 {
            Timestamp { secs: self.secs, nanos: (self.nanos + 1) as u32 }
        } else if self.secs < i64::MAX {
            Timestamp { secs: (self.secs + 1) as i64, nanos: 0 }
        } else if self.nanos < u32::MAX {
            Timestamp { secs: self.secs, nanos: (self.nanos + 1) as u32 }
        } else {
            self
        }
    }

    /// The instant one nanosecond after `self`.
    pub fn next(&self) -> (later: Timestamp)
        ensures
            later == self.successor(),
    {
        if self.nanos < 999_999_999 {
            Timestamp { secs: self.secs, nanos: self.nanos + 1 }
        } else if self.secs < i64::MAX {
            Timestamp { secs: self.secs + 1, nanos: 0 }
        } else if self.nanos < u32::MAX {
            Timestamp { secs: self.secs, nanos: self.nanos + 1 }
        } else {
            *self
        }
    }

    /// The stamp for a change that is made at the clock reading `reading` to
    /// something last changed at `self`: the reading where it is later than
    /// `self`, else the instant after `self`. Stamps so chosen keep growing
    /// even where the clock stands still or is set back.
    pub open spec fn stamp_after(self, reading: Timestamp) -> Timestamp {
        if self.precedes(reading) {
            reading
        } else {
            self.successor()
        }
    }

    /// Chooses the stamp for a change made at `reading` to something last
    /// changed at `self`.
    pub fn stamp(&self, reading: &Timestamp) -> (chosen: Timestamp)
        ensures
            chosen == self.stamp_after(*reading),
            !self.is_last() ==> self.precedes(chosen),
    {
        if self.is_before(reading) {
            *reading
        } else {
            self.next()
        }
    }

    /// A stamp chosen by `stamp_after` is later than the one before it, unless
    /// that was the last instant there is.
    pub proof fn lemma_stamps_grow(self, reading: Timestamp)
        ensures
            !self.is_last() ==> self.precedes(self.stamp_after(reading)),
            self.precedes(reading) ==> self.stamp_after(reading) == reading,
            self.is_last() ==> self.stamp_after(reading) == self,
    {
    }
}

/// Calls `chrono::Utc::now` and splits the reading with `DateTime::timestamp`
/// and `DateTime::timestamp_subsec_nanos`. `Utc::now` builds its result from
/// the time elapsed since the start of 1970, as whole seconds and the
/// nanoseconds of the running second, and panics if the system clock stands
/// before 1970; the two accessors give those two numbers back. Nothing else is
/// claimed: two readings may be equal, and a clock that is set back yields an
/// earlier one.
#[verifier::external_body]
fn read_clock() -> (t: Timestamp)
    ensures
        t.is_reading(),
{
    let reading = chrono::Utc::now();
    Timestamp { secs: reading.timestamp(), nanos: reading.timestamp_subsec_nanos() }
}

/// Before-ness is a strict order: nothing precedes itself, and it chains.
pub proof fn lemma_precedes_is_strict_order(a: Timestamp, b: Timestamp, c: Timestamp)
    ensures
        !a.precedes(a),
        a.precedes(b) ==> !b.precedes(a),
        a.precedes(b) && b.precedes(c) ==> a.precedes(c),
        a.precedes(b) || b.precedes(a) || a == b,
{
}

} // verus!
