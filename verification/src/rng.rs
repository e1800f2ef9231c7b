use vstd::prelude::*;

verus! {

/// Mixing constant folded into the seed so that a zero seed still yields a
/// non-trivial generator state.
pub const SEED_MIX: u64 = 0xA2E3_4F9B_781C_D012;

/// One xorshift64 step: shift-xor by 13 left, 7 right, 17 left.
pub open spec fn xorshift(s: u64) -> u64 {
    let a = s ^ (s << 13u64);
    let b = a ^ (a >> 7u64);
    b ^ (b << 17u64)
}

/// Small deterministic xorshift generator used for offers, checkpoints and
/// proc rolls.
pub struct OfferRng {
    pub state: u64,
}

impl OfferRng {
    /// The generator that `new(seed)` builds.
    pub open spec fn spec_new(seed: u64) -> OfferRng {
        OfferRng { state: seed ^ SEED_MIX }
    }

    /// Seeds the generator: the state is the seed mixed with `SEED_MIX`.
    pub fn new(seed: u64) -> (rng: Self)
        ensures
            rng == OfferRng::spec_new(seed),
    {
        OfferRng { state: seed ^ SEED_MIX }
    }

    /// Advances the state by one xorshift step and returns the new state
    /// reduced modulo `upper_bound`.
    pub fn next_index(&mut self, upper_bound: usize) -> (index: usize)
        requires
            upper_bound > 0,
        ensures
            final(self).state == xorshift(old(self).state),
            index == (final(self).state as usize) % upper_bound,
            index < upper_bound,
    {
        let mut s = self.state;
        s = s ^ (s << 13u64);
        s = s ^ (s >> 7u64);
        s = s ^ (s << 17u64);
        self.state = s;
        (s as usize) % upper_bound
    }
}

} // verus!
