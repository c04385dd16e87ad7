use vstd::prelude::*;

verus! {

/// Multiplier of the linear congruential step.
pub const LCG_MUL: u64 = 6364136223846793005;

/// Increment of the linear congruential step.
pub const LCG_ADD: u64 = 1442695040888963407;

/// One step of the linear congruential recurrence.
pub open spec fn lcg_next(s: u64) -> u64 {
    s.wrapping_mul(LCG_MUL).wrapping_add(LCG_ADD)
}

/// The draw below `bound` taken at state `s`, with the state that
/// follows it.
pub open spec fn spec_below(s: u64, bound: u64) -> (u64, u64) {
    ((lcg_next(s) >> 32) % bound, lcg_next(s))
}

/// The draw in `[-m, m]` taken at state `s`, with the state that
/// follows it.
pub open spec fn spec_signed(s: u64, m: u64) -> (i64, u64) {
    ((spec_below(s, (2 * m + 1) as u64).0 as int - m as int) as i64, lcg_next(s))
}

/// Linear congruential generator driving every random draw in the
/// renderer. The random source is injected as a value rather than read
/// from a hidden global, so a fixed seed reproduces a rendering exactly.
pub struct Lcg {
    pub state: u64,
}

impl Lcg {
    /// A generator starting from the given seed.
    pub fn new(seed: u64) -> (r: Lcg)
        ensures
            r.state == seed,
    {
        Lcg { state: seed }
    }

    /// A generator seeded from the process-wide entropy source; nothing
    /// is known of the seed it starts from.
    pub fn from_entropy() -> (r: Lcg) {
        Lcg { state: fresh_seed() }
    }

    /// Advances the state once and returns a draw below `bound`.
    pub fn next_below(&mut self, bound: u64) -> (r: u64)
        requires
            bound > 0,
        ensures
            final(self).state == lcg_next(old(self).state),
            r < bound,
            r == spec_below(old(self).state, bound).0,
    {
        self.state = self.state.wrapping_mul(LCG_MUL).wrapping_add(LCG_ADD);
        (self.state >> 32) % bound
    }

    /// Advances the state once and returns a draw in `[-m, m]`.
    pub fn next_signed(&mut self, m: u64) -> (r: i64)
        requires
            0 < m <= 0x1_0000_0000,
        ensures
            final(self).state == lcg_next(old(self).state),
            -(m as int) <= r as int <= m as int,
            r == spec_signed(old(self).state, m).0,
    {
        let v = self.next_below(2 * m + 1);
        (v as i64) - (m as i64)
    }
}

/// Relies on rand::random: an arbitrary 64-bit value from the thread's
/// entropy-seeded generator.
#[verifier::external_body]
pub(crate) fn fresh_seed() -> u64 {
    rand::random::<u64>()
}

} // verus!
