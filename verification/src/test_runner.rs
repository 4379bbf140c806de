//! The random source that the strategies draw from, and the reason a
//! strategy gives when it cannot produce a value.

use vstd::prelude::*;
use rand::Rng;
use rand::SeedableRng;
use rand::prng::XorShiftRng;

verus! {

/// rand's xorshift generator. Its state is opaque to the verifier.
#[verifier::external_type_specification]
#[verifier::external_body]
pub struct ExXorShiftRng(rand::prng::XorShiftRng);

/// Why a strategy could not produce a value.
#[derive(Clone, Copy, Debug, PartialEq, Eq, Structural)]
pub enum Reason {
    /// More different positions were asked for than the range of positions
    /// holds; `available` is how many it holds.
    NotEnoughBits { available: usize },
}

impl Reason {
    /// A description of the failure for people to read.
    pub fn message(&self) -> (text: &'static str)
        ensures
            text@ == "not enough bits to sample"@,
    {
        match self {
            Reason::NotEnoughBits { .. } => "not enough bits to sample",
        }
    }
}

/// The source of the random draws made while a value is generated.
pub struct TestRunner {
    rng: XorShiftRng,
}

/// The number of positions in `[low, high)`.
pub open spec fn span(low: nat, high: nat) -> nat {
    if low <= high {
        (high - low) as nat
    } else {
        0
    }
}

/// `picked` holds `amount` different positions, all of them in `[low, high)`.
pub open spec fn is_sample(picked: Seq<usize>, low: nat, high: nat, amount: nat) -> bool {
    &&& picked.len() == amount
    &&& picked.no_duplicates()
    &&& forall|k: int| 0 <= k < picked.len() ==> low <= #[trigger] picked[k] < high
}

/// `all` holds every position of `[low, high)`, in rising order.
pub open spec fn is_whole_range(all: Seq<usize>, low: nat, high: nat) -> bool {
    &&& all.len() == span(low, high)
    &&& forall|k: int| 0 <= k < all.len() ==> #[trigger] all[k] == low + k
}

/// A vector of `amount` positions can be allocated: its size in bytes fits
/// in `isize`.
pub open spec fn sample_fits(amount: nat) -> bool {
    amount * (usize::BITS / 8) <= isize::MAX
}

/// Tells whether a vector of `amount` positions can be allocated.
pub fn sample_can_be_held(amount: usize) -> (ok: bool)
    ensures
        ok == sample_fits(amount as nat),
{
    let word_bytes: usize = (usize::BITS / 8) as usize;
    match amount.checked_mul(word_bytes) {
        Some(bytes) => bytes <= isize::MAX as usize,
        None => false,
    }
}

/// A sample of no more positions than the widest integer has bits can always
/// be allocated.
pub proof fn lemma_small_sample_fits(amount: nat)
    requires
        amount <= 64,
    ensures
        sample_fits(amount),
{
    assert(usize::BITS == 32 || usize::BITS == 64);
    assert(isize::MAX >= 0x7fff_ffff);
    if usize::BITS == 32 {
        assert(amount * (usize::BITS / 8) == amount * 4);
    } else {
        assert(amount * (usize::BITS / 8) == amount * 8);
    }
}

/// The generator that rand makes from a seed of sixteen bytes.
pub uninterp spec fn seeded_generator(seed: Seq<u8>) -> XorShiftRng;

/// Calls `SeedableRng::from_seed` of rand's `XorShiftRng`, which reads the
/// seed as four little-endian words and takes them as the generator's state
/// (preset words where all four are zero). The generator is a function of
/// the seed alone; what state that is stays unsaid.
#[verifier::external_body]
fn rng_from_seed(seed: [u8; 16]) -> (rng: XorShiftRng)
    ensures
        rng == seeded_generator(seed@),
{
    XorShiftRng::from_seed(seed)
}

/// Calls `Rng::gen::<bool>` on the runner's generator. Nothing is claimed of
/// the draw: it may be either value.
#[verifier::external_body]
pub(crate) fn draw_bool(runner: &mut TestRunner) -> bool {
    runner.rng.gen()
}

/// Calls `Rng::gen_range` on the runner's generator. rand panics unless
/// `low < high`, and hands back a number of the half-open range
/// `[low, high)`; which one is not claimed.
#[verifier::external_body]
pub(crate) fn draw_in_range(runner: &mut TestRunner, low: usize, high: usize) -> (drawn: usize)
    requires
        low < high,
    ensures
        low <= drawn < high,
{
    runner.rng.gen_range(low, high)
}

/// Calls `rand::seq::sample_iter` on the range `low..high`. rand first
/// allocates room for `amount` items, then answers `Ok` with `amount`
/// different items of the range where the range holds that many, and `Err`
/// with the whole range in order where it does not. Which items are picked
/// is not claimed.
#[verifier::external_body]
pub(crate) fn draw_sample(runner: &mut TestRunner, low: usize, high: usize, amount: usize) -> (picked:
    Result<Vec<usize>, Vec<usize>>)
    requires
        sample_fits(amount as nat),
    ensures
        match picked {
            Ok(v) => amount <= span(low as nat, high as nat) && is_sample(
                v@,
                low as nat,
                high as nat,
                amount as nat,
            ),
            Err(v) => span(low as nat, high as nat) < amount && is_whole_range(
                v@,
                low as nat,
                high as nat,
            ),
        },
{
    rand::seq::sample_iter(&mut runner.rng, low..high, amount)
}

impl TestRunner {
    /// The generator that the next draw is made from.
    pub closed spec fn generator(&self) -> XorShiftRng {
        self.rng
    }

    /// Creates a runner that draws from the generator made from `seed`:
    /// runners made from equal seeds start out alike.
    pub fn new(seed: [u8; 16]) -> (runner: Self)
        ensures
            runner.generator() == seeded_generator(seed@),
    {
        TestRunner { rng: rng_from_seed(seed) }
    }
}

impl Default for TestRunner {
    /// Creates a runner with a fixed seed, so that every run draws alike.
    fn default() -> Self {
        TestRunner::new(
            [
                0x19, 0x3a, 0x67, 0x54, 0xa8, 0xa7, 0xd4, 0x69, 0x97, 0x83, 0x0e, 0x05, 0x11,
                0x3b, 0xa7, 0xbb,
            ],
        )
    }
}

} // verus!
