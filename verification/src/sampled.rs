//! The sampled strategy: a drawn number of bits is set, at positions drawn
//! without repetition from a range.

use vstd::prelude::*;
use core::marker::PhantomData;
use core::ops::Range;
use crate::bit_set_like::BitSetLike;
use crate::test_runner::draw_in_range;
use crate::test_runner::draw_sample;
use crate::test_runner::sample_can_be_held;
use crate::test_runner::sample_fits;
use crate::test_runner::Reason;
use crate::test_runner::TestRunner;
use crate::value_tree::BitSetValueTree;
use crate::value_tree::ShrinkState;

verus! {

/// What a sampled strategy is, mathematically: the number of bits set is
/// drawn from `[size_start, size_end)`, their positions from
/// `[bits_start, bits_end)`.
pub struct SampledModel {
    /// The least number of bits set.
    pub size_start: nat,
    /// The number after the greatest number of bits set.
    pub size_end: nat,
    /// The first position that may be set.
    pub bits_start: nat,
    /// The position after the last one that may be set.
    pub bits_end: nat,
}

impl SampledModel {
    /// The range of positions holds at least as many positions as the
    /// greatest number of bits that may be asked for.
    pub open spec fn valid(self) -> bool {
        &&& self.bits_start <= self.bits_end
        &&& self.size_end <= self.bits_end - self.bits_start + 1
    }
}

/// The strategy that a range of sizes and a range of positions stand for.
pub open spec fn model_of(size: Range<usize>, bits: Range<usize>) -> SampledModel {
    SampledModel {
        size_start: size.start as nat,
        size_end: size.end as nat,
        bits_start: bits.start as nat,
        bits_end: bits.end as nat,
    }
}

/// The positions that occur in `picked`.
pub open spec fn positions(picked: Seq<usize>) -> Set<nat> {
    Set::new(|i: nat| exists|k: int| 0 <= k < picked.len() && #[trigger] picked[k] == i)
}

/// The first `k + 1` items picked occupy the positions of the first `k`,
/// and that of item `k`.
pub proof fn lemma_positions_step(picked: Seq<usize>, k: int)
    requires
        0 <= k < picked.len(),
    ensures
        positions(picked.take(k + 1)) == positions(picked.take(k)).insert(picked[k] as nat),
{
    let shorter = picked.take(k);
    let longer = picked.take(k + 1);
    let added = picked[k] as nat;
    assert forall|i: nat| positions(longer).contains(i) implies positions(shorter).insert(
        added,
    ).contains(i) by {
        let j = choose|j: int| 0 <= j < longer.len() && #[trigger] longer[j] == i;
        if j < k {
            assert(shorter[j] == i);
        }
    }
    assert forall|i: nat| positions(shorter).insert(added).contains(i) implies positions(
        longer,
    ).contains(i) by {
        if positions(shorter).contains(i) {
            let j = choose|j: int| 0 <= j < shorter.len() && #[trigger] shorter[j] == i;
            assert(longer[j] == i);
        } else {
            assert(longer[k] == i);
        }
    }
    assert(positions(longer) =~= positions(shorter).insert(added));
}

/// Positions picked without repetition are as many as were picked.
pub proof fn lemma_positions_len(picked: Seq<usize>)
    requires
        picked.no_duplicates(),
    ensures
        positions(picked).finite(),
        positions(picked).len() == picked.len(),
    decreases picked.len(),
{
    if picked.len() == 0 {
        assert(positions(picked) =~= Set::<nat>::empty());
    } else {
        let k = picked.len() - 1;
        let head = picked.take(k);
        lemma_positions_len(head);
        lemma_positions_step(picked, k);
        assert(picked.take(k + 1) =~= picked);
        assert(!positions(head).contains(picked[k] as nat)) by {
            if positions(head).contains(picked[k] as nat) {
                let j = choose|j: int| 0 <= j < head.len() && #[trigger] head[j] == picked[k];
                assert(picked[j] == picked[k]);
            }
        }
    }
}

/// Generates bit sets with a drawn number of bits set.
///
/// The strategy holds a range of sizes and a range of positions. To produce
/// a value it draws a size, then draws that many different positions from
/// the range of positions, each choice of positions being as likely as any
/// other. Shrinking clears one bit after the other, and stops at the least
/// size.
#[derive(Debug)]
pub struct SampledBitSetStrategy<T: BitSetLike> {
    size: Range<usize>,
    bits: Range<usize>,
    _marker: PhantomData<T>,
}

impl<T: BitSetLike> View for SampledBitSetStrategy<T> {
    type V = SampledModel;

    closed spec fn view(&self) -> SampledModel {
        SampledModel {
            size_start: self.size.start as nat,
            size_end: self.size.end as nat,
            bits_start: self.bits.start as nat,
            bits_end: self.bits.end as nat,
        }
    }
}

impl<T: BitSetLike> Clone for SampledBitSetStrategy<T> {
    fn clone(&self) -> (copy: Self)
        ensures
            copy@ == self@,
    {
        SampledBitSetStrategy {
            size: Range { start: self.size.start, end: self.size.end },
            bits: Range { start: self.bits.start, end: self.bits.end },
            _marker: PhantomData,
        }
    }
}

/// Tells whether `bits` holds enough positions for every size in `size`.
pub fn config_is_valid(size: &Range<usize>, bits: &Range<usize>) -> (ok: bool)
    ensures
        ok == model_of(*size, *bits).valid(),
{
    bits.start <= bits.end && (size.end == 0 || size.end - 1 <= bits.end - bits.start)
}

impl<T: BitSetLike> SampledBitSetStrategy<T> {
    /// A value can be generated: the configuration is valid, there is a size
    /// to draw, every position can be addressed in a `T`, and a vector of
    /// the greatest size can be allocated.
    pub open spec fn wf(&self) -> bool {
        &&& self@.valid()
        &&& self@.size_start < self@.size_end
        &&& self@.bits_end <= T::width()
        &&& sample_fits((self@.size_end - 1) as nat)
    }

    /// Creates a strategy that generates values in which bits at positions
    /// in `bits` may be set, and the number of bits set lies in `size`.
    ///
    /// `size` must not hold a number greater than the number of positions
    /// in `bits`.
    pub fn new(size: Range<usize>, bits: Range<usize>) -> (strategy: Self)
        requires
            model_of(size, bits).valid(),
        ensures
            strategy@ == model_of(size, bits),
    {
        SampledBitSetStrategy { size, bits, _marker: PhantomData }
    }

    /// Tells whether values can be generated: whether the strategy is well
    /// formed. A fresh container made for the range of positions is asked
    /// for its length.
    pub fn can_generate(&self) -> (ok: bool)
        ensures
            ok == self.wf(),
    {
        let fresh = T::new_bitset(self.bits.end);
        let bound = fresh.len();
        assert(fresh.is_len(bound as nat));
        config_is_valid(&self.size, &self.bits) && self.size.start < self.size.end
            && self.bits.end <= bound && sample_can_be_held(self.size.end - 1)
    }

    /// Builds the value tree for what the random source handed back when it
    /// was asked for a sample of positions.
    ///
    /// Of `Ok`, exactly the positions picked are set; the tree starts with
    /// its cursor at the first position of the range, nothing to undo, and
    /// the least size as its floor. `Err` means that the range of positions
    /// held fewer positions than were asked for, and is reported as such.
    pub fn value_from_sample(&self, picked: Result<Vec<usize>, Vec<usize>>) -> (made: Result<
        BitSetValueTree<T>,
        Reason,
    >)
        requires
            picked matches Ok(v) ==> forall|k: int| 0 <= k < v.len() ==> #[trigger] v[k] < T::width(),
        ensures
            match picked {
                Ok(v) => made matches Ok(tree) && tree.wf() && tree@ == (ShrinkState {
                    bits: positions(v@),
                    cursor: self@.bits_start,
                    undo: None,
                    floor: self@.size_start,
                }),
                Err(v) => made matches Err(reason) && reason == (Reason::NotEnoughBits {
                    available: v.len(),
                }),
            },
    {
        match picked {
            Ok(v) => {
                let mut bits = T::new_bitset(self.bits.end);
                let mut k: usize = 0;
                while k < v.len()
                    invariant
                        k <= v.len(),
                        forall|j: int| 0 <= j < v.len() ==> #[trigger] v[j] < T::width(),
                        bits.bits().finite(),
                        bits.bits() == positions(v@.take(k as int)),
                    decreases v.len() - k,
                {
                    bits.set(v[k]);
                    k += 1;
                    proof {
                        lemma_positions_step(v@, k - 1);
                    }
                }
                assert(v@.take(v.len() as int) =~= v@);
                Ok(BitSetValueTree::new(bits, self.bits.start, self.size.start))
            },
            Err(v) => Err(Reason::NotEnoughBits { available: v.len() }),
        }
    }

    /// Generates a value: draws a size from the range of sizes, then that
    /// many different positions from the range of positions.
    ///
    /// Whatever is drawn, the number of bits set lies in the range of sizes
    /// and every bit set lies in the range of positions.
    pub fn new_value(&self, runner: &mut TestRunner) -> (made: Result<BitSetValueTree<T>, Reason>)
        requires
            self.wf(),
        ensures
            made matches Ok(tree) && {
                &&& tree.wf()
                &&& self@.size_start <= tree@.bits.len() < self@.size_end
                &&& forall|i: nat|
                    #[trigger] tree@.bits.contains(i) ==> self@.bits_start <= i < self@.bits_end
                &&& tree@.cursor == self@.bits_start
                &&& tree@.undo is None
                &&& tree@.floor == self@.size_start
            },
    {
        let count = draw_in_range(runner, self.size.start, self.size.end);
        proof {
            lemma_sample_fits_below(count as nat, (self.size.end - 1) as nat);
        }
        let picked = draw_sample(runner, self.bits.start, self.bits.end, count);
        proof {
            let v = picked->Ok_0;
            lemma_positions_len(v@);
        }
        self.value_from_sample(picked)
    }
}

/// Where a vector of `more` positions can be allocated, so can one of fewer.
pub proof fn lemma_sample_fits_below(fewer: nat, more: nat)
    requires
        fewer <= more,
        sample_fits(more),
    ensures
        sample_fits(fewer),
{
    assert(fewer * (usize::BITS / 8) <= more * (usize::BITS / 8)) by (nonlinear_arith)
        requires
            fewer <= more,
    ;
}

} // verus!
