use vstd::prelude::*;

use core::time::Duration;
use rand::rngs::StdRng;
use rand::{Rng, SeedableRng};
use std::time::SystemTime;

verus! {

#[verifier::external_type_specification]
#[verifier::external_body]
pub struct ExSystemTime(SystemTime);

#[verifier::external_type_specification]
#[verifier::external_body]
pub struct ExStdRng(StdRng);

/// Is `c` a lowercase hexadecimal digit?
pub open spec fn is_lower_hex(c: char) -> bool {
    ('0' <= c <= '9') || ('a' <= c <= 'f')
}

/// `std::time::SystemTime::now`: the current wall-clock time. Nothing is
/// claimed about the value.
#[verifier::external_body]
pub(crate) fn system_time_now() -> SystemTime {
    SystemTime::now()
}

/// `SystemTime::duration_since(UNIX_EPOCH)`: the time elapsed since the Unix
/// epoch, or `None` when the clock reads earlier than the epoch. Nothing is
/// claimed about the value.
#[verifier::external_body]
pub(crate) fn duration_since_unix_epoch(time: &SystemTime) -> Option<Duration> {
    time.duration_since(std::time::UNIX_EPOCH).ok()
}

/// `Duration::as_nanos`: the whole number of nanoseconds in the duration.
/// Nothing is claimed about the value.
#[verifier::external_body]
pub(crate) fn duration_as_nanos(duration: &Duration) -> u128 {
    duration.as_nanos()
}

/// `uuid::Uuid::new_v4`, rendered with its `simple` formatter: a fresh random
/// identifier written as 32 lowercase hexadecimal digits (`Simple::LENGTH`).
#[verifier::external_body]
pub(crate) fn new_uuid_simple() -> (id: String)
    ensures
        id@.len() == 32,
        forall|i: int| 0 <= i < 32 ==> is_lower_hex(#[trigger] id@[i]),
{
    uuid::Uuid::new_v4().simple().to_string()
}

/// `rand::rng().random::<u64>()`: a random number from the thread-local
/// generator. Nothing is claimed about the value.
#[verifier::external_body]
pub(crate) fn random_u64() -> u64 {
    rand::rng().random::<u64>()
}

/// What `Rng::random_range(low..high)` gives on a `StdRng` made by
/// `StdRng::seed_from_u64(seed)`, after the calls `random_range(l..h)` for
/// each `(l, h)` of `earlier`, in order. The generator is ChaCha12 keyed by
/// the seed, so the value is a function of these arguments alone.
pub uninterp spec fn std_rng_draw(seed: u64, earlier: Seq<(i32, i32)>, low: i32, high: i32) -> i32;

/// A `StdRng` together with the seed it was made from and the ranges drawn
/// from it so far. Only its own methods make or advance one.
pub struct SeededRng {
    rng: StdRng,
    seed: Ghost<u64>,
    history: Ghost<Seq<(i32, i32)>>,
}

impl SeededRng {
    /// The seed the generator was made from.
    pub closed spec fn seed(&self) -> u64 {
        self.seed@
    }

    /// The ranges drawn from the generator so far, in order.
    pub closed spec fn history(&self) -> Seq<(i32, i32)> {
        self.history@
    }

    /// `rand::rngs::StdRng::seed_from_u64(seed)`: a generator made from `seed`
    /// with nothing drawn yet.
    #[verifier::external_body]
    pub(crate) fn from_seed(seed: u64) -> (rng: SeededRng)
        ensures
            rng.seed() == seed,
            rng.history() == Seq::<(i32, i32)>::empty(),
    {
        SeededRng { rng: StdRng::seed_from_u64(seed), seed: Ghost(seed), history: Ghost(Seq::empty()) }
    }

    /// `Rng::random_range(low..high)`: a value of the half-open range (the call
    /// panics on an empty one), which is `std_rng_draw` of the seed, the
    /// ranges drawn before and this range; the range joins the history.
    #[verifier::external_body]
    pub(crate) fn range(&mut self, low: i32, high: i32) -> (value: i32)
        requires
            low < high,
        ensures
            low <= value < high,
            value == std_rng_draw(old(self).seed(), old(self).history(), low, high),
            final(self).seed() == old(self).seed(),
            final(self).history() == old(self).history().push((low, high)),
    {
        self.rng.random_range(low..high)
    }
}

} // verus!
