use vstd::prelude::*;

verus! {

/// A timestamp reported by the tracking service, in microseconds.
#[derive(Clone, Copy, Debug, PartialEq, Eq, Structural)]
pub struct Timestamp(i64);

impl Timestamp {
    /// The raw microsecond count carried by this timestamp.
    pub closed spec fn spec_raw(&self) -> i64 {
        self.0
    }

    /// Wraps a raw microsecond count.
    pub fn from_raw(raw: i64) -> (t: Self)
        ensures
            t.spec_raw() == raw,
    {
        Timestamp(raw)
    }

    /// Returns the raw microsecond count.
    pub fn as_raw(self) -> (raw: i64)
        ensures
            raw == self.spec_raw(),
    {
        self.0
    }

    /// Returns the number of microseconds elapsed between `earlier` and `self`.
    ///
    /// Raw timestamps are compared after conversion to `u64`, so `earlier`
    /// must not come after `self` under that conversion.
    pub fn duration_since(&self, earlier: Timestamp) -> (micros: u64)
        requires
            earlier.spec_raw() as u64 <= self.spec_raw() as u64,
        ensures
            micros == self.spec_raw() as u64 - earlier.spec_raw() as u64,
    {
        (self.0 as u64) - (earlier.0 as u64)
    }
}

} // verus!
