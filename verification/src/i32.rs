//! `i32` as a container of 32 bits, and strategies for it.
//!
//! Bit `i` of the integer is position `i` of the container.

use vstd::prelude::*;
use core::ops::Range;
use crate::bit_set_like::BitSetLike;
use crate::sampled::SampledBitSetStrategy;
use crate::sampled::model_of;
use crate::strategy::BitSetStrategy;
use crate::strategy::UniformModel;
use crate::test_runner::lemma_small_sample_fits;

verus! {

/// Whether `x` has the bit that a shift by `i` reaches.
pub open spec fn bit_at(x: i32, i: u32) -> bool {
    x & (1i32 << i) != 0
}

/// Whether bit `i` of `x` is set.
pub open spec fn has_bit(x: i32, i: nat) -> bool {
    i < 32 && bit_at(x, i as u32)
}

/// Zero has no bit set.
proof fn lemma_zero_has_no_bit()
    by (bit_vector)
    ensures
        forall|i: u32| i < 32 ==> !bit_at(0i32, i),
{
}

/// `with_j` is `x` with bit `j` set and every other bit as it was;
/// `without_j` is `x` with bit `j` cleared and every other bit as it was.
proof fn lemma_bit_ops(x: i32, j: u32, with_j: i32, without_j: i32)
    by (bit_vector)
    requires
        j < 32,
        with_j == x | (1i32 << j),
        without_j == x & !(1i32 << j),
    ensures
        forall|i: u32| i < 32 ==> (bit_at(with_j, i) <==> i == j || bit_at(x, i)),
        forall|i: u32| i < 32 ==> (bit_at(without_j, i) <==> i != j && bit_at(x, i)),
{
}

impl BitSetLike for i32 {
    open spec fn bits(&self) -> Set<nat> {
        Set::new(|i: nat| has_bit(*self, i))
    }

    open spec fn width() -> nat {
        32
    }

    /// The length is the width of the type in bits, whatever the value.
    open spec fn is_len(&self, bound: nat) -> bool {
        bound == 32
    }

    /// Returns zero: the width is fixed, and `max` plays no part.
    fn new_bitset(_max: usize) -> (fresh: Self) {
        proof {
            lemma_zero_has_no_bit();
            assert(Set::new(|i: nat| has_bit(0i32, i)) =~= Set::<nat>::empty());
            assert(Self::width() == 32);
        }
        0
    }

    /// Returns the width of the type in bits.
    fn len(&self) -> (bound: usize) {
        assert(Self::width() == 32);
        assert(self.is_len(32));
        32
    }

    fn test(&self, ix: usize) -> (is_set: bool) {
        assert(Self::width() == 32);
        0 != (*self & (1i32 << (ix as u32)))
    }

    fn set(&mut self, ix: usize) {
        assert(Self::width() == 32);
        proof {
            let j = ix as u32;
            lemma_bit_ops(*self, j, *self | (1i32 << j), *self & !(1i32 << j));
        }
        *self |= 1i32 << (ix as u32);
        assert(self.bits() =~= old(self).bits().insert(ix as nat));
    }

    fn clear(&mut self, ix: usize) {
        assert(Self::width() == 32);
        proof {
            let j = ix as u32;
            lemma_bit_ops(*self, j, *self | (1i32 << j), *self & !(1i32 << j));
        }
        *self &= !(1i32 << (ix as u32));
        assert(self.bits() =~= old(self).bits().remove(ix as nat));
    }

    fn duplicate(&self) -> (copy: Self) {
        *self
    }
}

/// Generates integers in which every bit may be set.
pub fn any() -> (strategy: BitSetStrategy<i32>)
    ensures
        strategy@ == (UniformModel { min: 0, max: 32, mask: None }),
        strategy.wf(),
{
    assert(<i32 as BitSetLike>::width() == 32);
    BitSetStrategy::new(0, 32)
}

/// Generates values in which the bits from `min` (inclusive) to `max`
/// (exclusive) may be set.
pub fn between(min: usize, max: usize) -> (strategy: BitSetStrategy<i32>)
    ensures
        strategy@ == (UniformModel { min: min as nat, max: max as nat, mask: None }),
        max <= 32 ==> strategy.wf(),
{
    assert(<i32 as BitSetLike>::width() == 32);
    BitSetStrategy::new(min, max)
}

/// Generates values in which the bits set in `mask`, and no others, may be
/// set.
pub fn masked(mask: i32) -> (strategy: BitSetStrategy<i32>)
    ensures
        strategy.wf(),
        strategy@ == (UniformModel { min: 0, max: 32, mask: Some(mask.bits()) }),
        forall|i: nat|
            #![trigger strategy@.eligible(i)]
            #![trigger has_bit(mask, i)]
            strategy@.eligible(i) <==> has_bit(mask, i),
{
    BitSetStrategy::masked(mask)
}

/// Generates values in which bits at positions in `bits` may be set, and the
/// number of bits set lies in `size`.
///
/// `size` must not hold a number greater than the number of positions in
/// `bits`.
pub fn sampled(size: Range<usize>, bits: Range<usize>) -> (strategy: SampledBitSetStrategy<i32>)
    requires
        model_of(size, bits).valid(),
    ensures
        strategy@ == model_of(size, bits),
        size.start < size.end && bits.end <= 32 ==> strategy.wf(),
{
    assert(<i32 as BitSetLike>::width() == 32);
    proof {
        if 0 < size.end && bits.end <= 32 {
            lemma_small_sample_fits((size.end - 1) as nat);
        }
    }
    SampledBitSetStrategy::new(size, bits)
}

} // verus!
