//! Version clock: a monotonic timestamp used to order edits and detect
//! staleness. Wall-clock reads come from the `time` crate; every local
//! mutation strictly advances the clock even if the wall clock stalls.

use vstd::prelude::*;

verus! {

/// A version clock holding a nanosecond-resolution instant.
#[derive(Clone, Copy, Debug, PartialEq, Eq, Structural)]
pub struct Cache {
    lastUpdate: i64,
}

impl Cache {
    /// The instant this clock holds, as a mathematical integer.
    pub closed spec fn timestamp(self) -> int {
        self.lastUpdate as int
    }

    /// Whether clock `a` orders strictly after clock `b`.
    pub open spec fn spec_is_newer(a: Cache, b: Cache) -> bool {
        a.timestamp() > b.timestamp()
    }

    /// Whether clock `a` orders strictly before clock `b`.
    pub open spec fn spec_is_older(a: Cache, b: Cache) -> bool {
        a.timestamp() < b.timestamp()
    }

    /// Relies on time::UtcDateTime::now for the current wall-clock instant,
    /// in nanoseconds since the Unix epoch. Nothing is assumed of the value.
    #[verifier::external_body]
    pub fn now() -> i64 {
        time::UtcDateTime::now().unix_timestamp_nanos() as i64
    }

    /// Advance this clock: take the current wall-clock reading, but never
    /// move backwards or stall, so the new value is strictly greater.
    pub fn update(&mut self)
        requires
            old(self).timestamp() < i64::MAX,
        ensures
            final(self).timestamp() > old(self).timestamp(),
    {
        let now = Self::now();
        if now > self.lastUpdate {
            self.lastUpdate = now;
        } else {
            self.lastUpdate = self.lastUpdate + 1;
        }
    }

    /// Overwrite the clock with an authoritative remote value.
    pub fn update_from(&mut self, value: i64)
        ensures
            final(self).timestamp() == value as int,
    {
        self.lastUpdate = value;
    }

    pub fn newFrom(value: i64) -> (r: Self)
        ensures
            r.timestamp() == value as int,
    {
        Self { lastUpdate: value }
    }

    /// Whether this clock is older than `other`.
    pub fn isOlder(&self, other: &Cache) -> (r: bool)
        ensures
            r == Self::spec_is_older(*self, *other),
    {
        self.lastUpdate < other.lastUpdate
    }

    /// Whether this clock is newer than `other`.
    pub fn isNewer(&self, other: &Cache) -> (r: bool)
        ensures
            r == Self::spec_is_newer(*self, *other),
    {
        self.lastUpdate > other.lastUpdate
    }

    pub fn get(&self) -> (r: i64)
        ensures
            r as int == self.timestamp(),
    {
        self.lastUpdate
    }
}

impl Default for Cache {
    /// A fresh clock holds the wall-clock instant of its creation.
    fn default() -> Self {
        Self { lastUpdate: Self::now() }
    }
}

/// Law: clock comparison is a strict total order. For any two clocks,
/// exactly one of `isNewer(a, b)`, `isOlder(a, b)`, `a == b` holds.
pub proof fn lemma_clock_ordering(a: Cache, b: Cache)
    ensures
        Cache::spec_is_newer(a, b) || Cache::spec_is_older(a, b) || a == b,
        Cache::spec_is_newer(a, b) ==> !Cache::spec_is_older(a, b) && a != b,
        Cache::spec_is_older(a, b) ==> !Cache::spec_is_newer(a, b) && a != b,
        a == b ==> !Cache::spec_is_newer(a, b) && !Cache::spec_is_older(a, b),
        a == b <==> a.timestamp() == b.timestamp(),
{
}

} // verus!
