//! A `u64` stored in a signed 64-bit database column, shifted by 2^63 so
//! that the order of values is kept.
use vstd::prelude::*;

verus! {

/// Distance between a `u64` and its stored form.
pub const SHIFT: i128 = 9_223_372_036_854_775_808;

#[derive(Clone, Copy, Debug, PartialEq, Eq, Structural)]
pub struct PgU64(pub u64);

/// The stored form of `v`.
pub open spec fn stored(v: u64) -> int {
    v as int - SHIFT
}

/// The value whose stored form is `s`.
pub open spec fn loaded(s: i64) -> int {
    s as int + SHIFT
}

impl PgU64 {
    /// The stored form: the value less 2^63.
    pub fn to_i64(&self) -> (r: i64)
        ensures
            r as int == stored(self.0),
    {
        (self.0 as i128 - SHIFT) as i64
    }

    /// The value whose stored form is `value`.
    pub fn from_i64(value: i64) -> (r: Self)
        ensures
            r.0 as int == loaded(value),
    {
        PgU64((value as i128 + SHIFT) as u64)
    }

    pub fn from_u64(value: u64) -> (r: Self)
        ensures
            r.0 == value,
    {
        PgU64(value)
    }

    pub fn new(value: u64) -> (r: Self)
        ensures
            r.0 == value,
    {
        PgU64(value)
    }
}

/// Every value has a stored form, reading it back gives the value, and
/// stored forms keep the order of values.
pub proof fn lemma_pgu64_round_trip(a: u64, b: u64)
    ensures
        i64::MIN <= stored(a) <= i64::MAX,
        loaded(stored(a) as i64) == a,
        a < b <==> stored(a) < stored(b),
{
}

} // verus!
