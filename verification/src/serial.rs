//! Serial (auto-increment) number generators that saturate at their
//! maximum instead of overflowing, so that every value they hand out is
//! unique except the greatest one.
use vstd::prelude::*;

verus! {

/// The value that follows `v`, saturating at `u64::MAX`.
pub open spec fn saturating_next(v: u64) -> u64 {
    if v < u64::MAX { (v + 1) as u64 } else { v }
}

/// A generator of `u64` serial values, starting at 0.
pub struct SerialU64 {
    value: u64,
}

impl SerialU64 {
    /// The value that the next call of `generate` hands out.
    pub closed spec fn next_value(&self) -> u64 {
        self.value
    }

    /// Whether the generator has reached `u64::MAX` and hands it out forever.
    pub open spec fn at_max(&self) -> bool {
        self.next_value() == u64::MAX
    }

    pub fn new() -> (g: Self)
        ensures
            g.next_value() == 0,
    {
        SerialU64 { value: 0 }
    }

    /// Hands out the current value and moves on to the next one.
    pub fn generate(&mut self) -> (v: u64)
        ensures
            v == old(self).next_value(),
            final(self).next_value() == saturating_next(v),
            v < u64::MAX ==> final(self).next_value() == v + 1,
            v == u64::MAX ==> final(self).next_value() == u64::MAX,
    {
        let v = self.value;
        self.value = self.value.saturating_add(1);
        v
    }

    /// Whether unique values can no longer be generated.
    pub fn is_at_max(&self) -> (b: bool)
        ensures
            b == self.at_max(),
    {
        self.value == u64::MAX
    }
}

/// A generator of `u32` serial values, starting at 0.
pub struct SerialU32 {
    value: u32,
}

impl SerialU32 {
    /// The value that the next call of `generate` hands out.
    pub closed spec fn next_value(&self) -> u32 {
        self.value
    }

    pub fn new() -> (g: Self)
        ensures
            g.next_value() == 0,
    {
        SerialU32 { value: 0 }
    }

    /// Hands out the current value and moves on to the next one, saturating
    /// at `u32::MAX`.
    pub fn generate(&mut self) -> (v: u32)
        ensures
            v == old(self).next_value(),
            final(self).next_value() == (if v < u32::MAX { (v + 1) as u32 } else { v }),
    {
        let v = self.value;
        self.value = self.value.saturating_add(1);
        v
    }
}

/// Below the maximum the next value is exactly one more than the value
/// handed out; at the maximum it stays there.
pub proof fn lemma_next_is_successor(v: u64)
    ensures
        v < u64::MAX ==> saturating_next(v) == v + 1,
        v == u64::MAX ==> saturating_next(v) == v,
{
}

/// From the first value 0, the `n`-th value handed out is `n - 1`: after `n`
/// steps of `saturating_next` from 0 (with `n` below the maximum) the
/// generator stands at `n`.
pub open spec fn after_steps(n: nat) -> u64
    decreases n,
{
    if n == 0 { 0 } else { saturating_next(after_steps((n - 1) as nat)) }
}

pub proof fn lemma_counts_up(n: nat)
    requires
        n <= u64::MAX,
    ensures
        after_steps(n) == n,
    decreases n,
{
    if n > 0 {
        lemma_counts_up((n - 1) as nat);
    }
}

/// Below the maximum, the next value is strictly greater than the one just
/// handed out, so values generated one after another never repeat.
pub proof fn lemma_next_is_greater(v: u64)
    requires
        v < u64::MAX,
    ensures
        saturating_next(v) > v,
{
}

} // verus!
