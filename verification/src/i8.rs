//! `i8` as a container of 8 bits, and strategies for it.
//!
//! Bit `i` of the integer is position `i` of the container.

use vstd::prelude::*;
use core::ops::Range;
use crate::bit_set_like::BitSetLike;
use crate::sampled::SampledBitSetStrategy;
use crate::sampled::model_of;
use crate::strategy::BitSetStrategy;
use crate::strategy::UniformModel;
use crate::test_runner::lemma_small_sample_fits;

verus! {

/// Whether `x` has the bit that a shift by `i` reaches.
pub open spec fn bit_at(x: i8, i: u8) -> bool {
    x & (1i8 << i) != 0
}

/// Whether bit `i` of `x` is set.
pub open spec fn has_bit(x: i8, i: nat) -> bool {
    i < 8 && bit_at(x, i as u8)
}

/// Zero has no bit set.
proof fn lemma_zero_has_no_bit()
    by (bit_vector)
    ensures
        forall|i: u8| i < 8 ==> !bit_at(0i8, i),
{
}

/// `with_j` is `x` with bit `j` set and every other bit as it was;
/// `without_j` is `x` with bit `j` cleared and every other bit as it was.
proof fn lemma_bit_ops(x: i8, j: u8, with_j: i8, without_j: i8)
    by (bit_vector)
    requires
        j < 8,
        with_j == x | (1i8 << j),
        without_j == x & !(1i8 << j),
    ensures
        forall|i: u8| i < 8 ==> (bit_at(with_j, i) <==> i == j || bit_at(x, i)),
        forall|i: u8| i < 8 ==> (bit_at(without_j, i) <==> i != j && bit_at(x, i)),
{
}

impl BitSetLike for i8 {
    open spec fn bits(&self) -> Set<nat> {
        Set::new(|i: nat| has_bit(*self, i))
    }

    open spec fn width() -> nat {
        8
    }

    /// The length is the width of the type in bits, whatever the value.
    open spec fn is_len(&self, bound: nat) -> bool {
        bound == 8
    }

    /// Returns zero: the width is fixed, and `max` plays no part.
    fn new_bitset(_max: usize) -> (fresh: Self) {
        proof {
            lemma_zero_has_no_bit();
            assert(Set::new(|i: nat| has_bit(0i8, i)) =~= Set::<nat>::empty());
            assert(Self::width() == 8);
        }
        0
    }

    /// Returns the width of the type in bits.
    fn len(&self) -> (bound: usize) {
        assert(Self::width() == 8);
        assert(self.is_len(8));
        8
    }

    fn test(&self, ix: usize) -> (is_set: bool) {
        assert(Self::width() == 8);
        0 != (*self & (1i8 << (ix as u8)))
    }

    fn set(&mut self, ix: usize) {
        assert(Self::width() == 8);
        proof {
            let j = ix as u8;
            lemma_bit_ops(*self, j, *self | (1i8 << j), *self & !(1i8 << j));
        }
        *self |= 1i8 << (ix as u8);
        assert(self.bits() =~= old(self).bits().insert(ix as nat));
    }

    fn clear(&mut self, ix: usize) {
        assert(Self::width() == 8);
        proof {
            let j = ix as u8;
            lemma_bit_ops(*self, j, *self | (1i8 << j), *self & !(1i8 << j));
        }
        *self &= !(1i8 << (ix as u8));
        assert(self.bits() =~= old(self).bits().remove(ix as nat));
    }

    fn duplicate(&self) -> (copy: Self) {
        *self
    }
}

/// Generates integers in which every bit may be set.
pub fn any() -> (strategy: BitSetStrategy<i8>)
    ensures
        strategy@ == (UniformModel { min: 0, max: 8, mask: None }),
        strategy.wf(),
{
    assert(<i8 as BitSetLike>::width() == 8);
    BitSetStrategy::new(0, 8)
}

/// Generates values in which the bits from `min` (inclusive) to `max`
/// (exclusive) may be set.
pub fn between(min: usize, max: usize) -> (strategy: BitSetStrategy<i8>)
    ensures
        strategy@ == (UniformModel { min: min as nat, max: max as nat, mask: None }),
        max <= 8 ==> strategy.wf(),
{
    assert(<i8 as BitSetLike>::width() == 8);
    BitSetStrategy::new(min, max)
}

/// Generates values in which the bits set in `mask`, and no others, may be
/// set.
pub fn masked(mask: i8) -> (strategy: BitSetStrategy<i8>)
    ensures
        strategy.wf(),
        strategy@ == (UniformModel { min: 0, max: 8, mask: Some(mask.bits()) }),
        forall|i: nat|
            #![trigger strategy@.eligible(i)]
            #![trigger has_bit(mask, i)]
            strategy@.eligible(i) <==> has_bit(mask, i),
{
    BitSetStrategy::masked(mask)
}

/// Generates values in which bits at positions in `bits` may be set, and the
/// number of bits set lies in `size`.
///
/// `size` must not hold a number greater than the number of positions in
/// `bits`.
pub fn sampled(size: Range<usize>, bits: Range<usize>) -> (strategy: SampledBitSetStrategy<i8>)
    requires
        model_of(size, bits).valid(),
    ensures
        strategy@ == model_of(size, bits),
        size.start < size.end && bits.end <= 8 ==> strategy.wf(),
{
    assert(<i8 as BitSetLike>::width() == 8);
    proof {
        if 0 < size.end && bits.end <= 8 {
            lemma_small_sample_fits((size.end - 1) as nat);
        }
    }
    SampledBitSetStrategy::new(size, bits)
}

} // verus!
