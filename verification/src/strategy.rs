//! The uniform strategy: every eligible position is set or left clear by a
//! coin flip of its own.

use vstd::prelude::*;
use crate::bit_set_like::BitSetLike;
use crate::test_runner::draw_bool;
use crate::test_runner::span;
use crate::test_runner::Reason;
use crate::test_runner::TestRunner;
use crate::value_tree::BitSetValueTree;
use crate::value_tree::ShrinkState;

verus! {

/// What a uniform strategy is, mathematically.
pub struct UniformModel {
    /// The first position that may be set.
    pub min: nat,
    /// The position after the last one that may be set.
    pub max: nat,
    /// Where present, the only positions that may be set.
    pub mask: Option<Set<nat>>,
}

impl UniformModel {
    /// Position `i` may be set: it lies in `[min, max)` and, where there is a
    /// mask, the mask holds it.
    pub open spec fn eligible(self, i: nat) -> bool {
        &&& self.min <= i < self.max
        &&& self.mask matches Some(m) ==> m.contains(i)
    }

    /// The number of positions in `[min, max)`: one draw is made for each.
    pub open spec fn draws_needed(self) -> nat {
        span(self.min, self.max)
    }

    /// The value that the draws stand for: an eligible position is set
    /// exactly when the draw made for it came out true. `draws[k]` is the
    /// draw for position `min + k`.
    pub open spec fn value(self, draws: Seq<bool>) -> Set<nat> {
        Set::new(|i: nat| self.eligible(i) && draws[i - self.min])
    }
}

/// Generates values as a set of bits between two bounds.
///
/// Each bit between the bounds is set or cleared by a fair coin flip.
/// Shrinking clears one bit after the other.
#[derive(Clone, Copy, Debug)]
pub struct BitSetStrategy<T: BitSetLike> {
    min: usize,
    max: usize,
    mask: Option<T>,
}

impl<T: BitSetLike> View for BitSetStrategy<T> {
    type V = UniformModel;

    closed spec fn view(&self) -> UniformModel {
        UniformModel {
            min: self.min as nat,
            max: self.max as nat,
            mask: match self.mask {
                Some(m) => Some(m.bits()),
                None => None,
            },
        }
    }
}

impl<T: BitSetLike> BitSetStrategy<T> {
    /// Every position that may be set can be addressed in a `T`.
    pub open spec fn wf(&self) -> bool {
        self@.max <= T::width()
    }

    /// Creates a strategy that generates values in which the bits from
    /// `min` (inclusive) to `max` (exclusive) may be set.
    pub fn new(min: usize, max: usize) -> (strategy: Self)
        ensures
            strategy@ == (UniformModel { min: min as nat, max: max as nat, mask: None }),
    {
        BitSetStrategy { min, max, mask: None }
    }

    /// Creates a strategy that generates values in which the bits set in
    /// `mask`, and only those, may be set.
    ///
    /// The upper bound is what `mask.len()` reports: no bit of the mask lies
    /// at or after it.
    pub fn masked(mask: T) -> (strategy: Self)
        ensures
            strategy.wf(),
            strategy@.min == 0,
            strategy@.mask == Some(mask.bits()),
            mask.is_len(strategy@.max),
            forall|i: nat| mask.bits().contains(i) ==> i < strategy@.max,
            forall|i: nat|
                #![trigger strategy@.eligible(i)]
                #![trigger mask.bits().contains(i)]
                strategy@.eligible(i) <==> mask.bits().contains(i),
    {
        let max = mask.len();
        BitSetStrategy { min: 0, max, mask: Some(mask) }
    }

    /// Tells whether values can be generated: whether every position below
    /// the upper bound can be addressed in a `T`. A fresh container made for
    /// that many positions is asked for its length.
    pub fn can_generate(&self) -> (ok: bool)
        ensures
            ok == self.wf(),
    {
        let fresh = T::new_bitset(self.max);
        let bound = fresh.len();
        assert(fresh.is_len(bound as nat));
        self.max <= bound
    }

    /// Returns the number of draws that a value is built from: one for each
    /// position from `min` (inclusive) to `max` (exclusive).
    pub fn draw_count(&self) -> (n: usize)
        ensures
            n == self@.draws_needed(),
    {
        if self.min <= self.max {
            self.max - self.min
        } else {
            0
        }
    }

    /// Tells whether the mask, where there is one, lets position `bit` be set.
    fn admits(&self, bit: usize) -> (admitted: bool)
        requires
            bit < T::width(),
        ensures
            admitted == (self@.mask matches Some(m) ==> m.contains(bit as nat)),
    {
        match &self.mask {
            Some(mask) => mask.test(bit),
            None => true,
        }
    }

    /// Builds the value tree that the given draws stand for.
    ///
    /// `draws[k]` decides position `min + k`; the draw of a position that is
    /// not eligible is ignored. The tree starts with its cursor at `min`,
    /// nothing to undo and a floor of no bits.
    pub fn value_from_draws(&self, draws: &Vec<bool>) -> (tree: BitSetValueTree<T>)
        requires
            self.wf(),
            draws.len() == self@.draws_needed(),
        ensures
            tree.wf(),
            tree@ == (ShrinkState {
                bits: self@.value(draws@),
                cursor: self@.min,
                undo: None,
                floor: 0,
            }),
    {
        let mut inner = T::new_bitset(self.max);
        let ghost model = self@;
        let mut bit = self.min;
        while bit < self.max
            invariant
                model == self@,
                self.min <= bit,
                self.max <= T::width(),
                draws.len() == model.draws_needed(),
                inner.bits().finite(),
                inner.bits() == Set::new(
                    |i: nat| i < bit && model.eligible(i) && draws@[i - model.min],
                ),
            decreases self.max - bit,
        {
            if self.admits(bit) && draws[bit - self.min] {
                inner.set(bit);
            }
            bit += 1;
            assert(inner.bits() =~= Set::new(
                |i: nat| i < bit && model.eligible(i) && draws@[i - model.min],
            ));
        }
        assert(inner.bits() =~= model.value(draws@));
        BitSetValueTree::new(inner, self.min, 0)
    }

    /// Generates a value: one coin flip is drawn from `runner` for each
    /// eligible position, in rising order.
    ///
    /// Whatever the flips, only eligible positions are set: none outside
    /// `[min, max)`, and none outside the mask where there is one.
    pub fn new_value(&self, runner: &mut TestRunner) -> (made: Result<BitSetValueTree<T>, Reason>)
        requires
            self.wf(),
        ensures
            made matches Ok(tree) && {
                &&& tree.wf()
                &&& forall|i: nat| #[trigger] tree@.bits.contains(i) ==> self@.eligible(i)
                &&& tree@.cursor == self@.min
                &&& tree@.undo is None
                &&& tree@.floor == 0
            },
    {
        let mut draws: Vec<bool> = Vec::new();
        let mut bit = self.min;
        while bit < self.max
            invariant
                self.min <= bit,
                bit <= self.max || bit == self.min,
                self.max <= T::width(),
                draws.len() == bit - self.min,
            decreases self.max - bit,
        {
            let flip = self.admits(bit) && draw_bool(runner);
            draws.push(flip);
            bit += 1;
        }
        Ok(self.value_from_draws(&draws))
    }
}

} // verus!
