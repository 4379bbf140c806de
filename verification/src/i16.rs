//! `i16` as a container of 16 bits, and strategies for it.
//!
//! Bit `i` of the integer is position `i` of the container.

use vstd::prelude::*;
use core::ops::Range;
use crate::bit_set_like::BitSetLike;
use crate::sampled::SampledBitSetStrategy;
use crate::sampled::model_of;
use crate::strategy::BitSetStrategy;
use crate::strategy::UniformModel;
use crate::test_runner::lemma_small_sample_fits;

verus! {

/// Whether `x` has the bit that a shift by `i` reaches.
pub open spec fn bit_at(x: i16, i: u16) -> bool {
    x & (1i16 << i) != 0
}

/// Whether bit `i` of `x` is set.
pub open spec fn has_bit(x: i16, i: nat) -> bool {
    i < 16 && bit_at(x, i as u16)
}

/// Zero has no bit set.
proof fn lemma_zero_has_no_bit()
    by (bit_vector)
    ensures
        forall|i: u16| i < 16 ==> !bit_at(0i16, i),
{
}

/// `with_j` is `x` with bit `j` set and every other bit as it was;
/// `without_j` is `x` with bit `j` cleared and every other bit as it was.
proof fn lemma_bit_ops(x: i16, j: u16, with_j: i16, without_j: i16)
    by (bit_vector)
    requires
        j < 16,
        with_j == x | (1i16 << j),
        without_j == x & !(1i16 << j),
    ensures
        forall|i: u16| i < 16 ==> (bit_at(with_j, i) <==> i == j || bit_at(x, i)),
        forall|i: u16| i < 16 ==> (bit_at(without_j, i) <==> i != j && bit_at(x, i)),
{
}

impl BitSetLike for i16 {
    open spec fn bits(&self) -> Set<nat> {
        Set::new(|i: nat| has_bit(*self, i))
    }

    open spec fn width() -> nat {
        16
    }

    /// The length is the width of the type in bits, whatever the value.
    open spec fn is_len(&self, bound: nat) -> bool {
        bound == 16
    }

    /// Returns zero: the width is fixed, and `max` plays no part.
    fn new_bitset(_max: usize) -> (fresh: Self) {
        proof {
            lemma_zero_has_no_bit();
            assert(Set::new(|i: nat| has_bit(0i16, i)) =~= Set::<nat>::empty());
            assert(Self::width() == 16);
        }
        0
    }

    /// Returns the width of the type in bits.
    fn len(&self) -> (bound: usize) {
        assert(Self::width() == 16);
        assert(self.is_len(16));
        16
    }

    fn test(&self, ix: usize) -> (is_set: bool) {
        assert(Self::width() == 16);
        0 != (*self & (1i16 << (ix as u16)))
    }

    fn set(&mut self, ix: usize) {
        assert(Self::width() == 16);
        proof {
            let j = ix as u16;
            lemma_bit_ops(*self, j, *self | (1i16 << j), *self & !(1i16 << j));
        }
        *self |= 1i16 << (ix as u16);
        assert(self.bits() =~= old(self).bits().insert(ix as nat));
    }

    fn clear(&mut self, ix: usize) {
        assert(Self::width() == 16);
        proof {
            let j = ix as u16;
            lemma_bit_ops(*self, j, *self | (1i16 << j), *self & !(1i16 << j));
        }
        *self &= !(1i16 << (ix as u16));
        assert(self.bits() =~= old(self).bits().remove(ix as nat));
    }

    fn duplicate(&self) -> (copy: Self) {
        *self
    }
}

/// Generates integers in which every bit may be set.
pub fn any() -> (strategy: BitSetStrategy<i16>)
    ensures
        strategy@ == (UniformModel { min: 0, max: 16, mask: None }),
        strategy.wf(),
{
    assert(<i16 as BitSetLike>::width() == 16);
    BitSetStrategy::new(0, 16)
}

/// Generates values in which the bits from `min` (inclusive) to `max`
/// (exclusive) may be set.
pub fn between(min: usize, max: usize) -> (strategy: BitSetStrategy<i16>)
    ensures
        strategy@ == (UniformModel { min: min as nat, max: max as nat, mask: None }),
        max <= 16 ==> strategy.wf(),
{
    assert(<i16 as BitSetLike>::width() == 16);
    BitSetStrategy::new(min, max)
}

/// Generates values in which the bits set in `mask`, and no others, may be
/// set.
pub fn masked(mask: i16) -> (strategy: BitSetStrategy<i16>)
    ensures
        strategy.wf(),
        strategy@ == (UniformModel { min: 0, max: 16, mask: Some(mask.bits()) }),
        forall|i: nat|
            #![trigger strategy@.eligible(i)]
            #![trigger has_bit(mask, i)]
            strategy@.eligible(i) <==> has_bit(mask, i),
{
    BitSetStrategy::masked(mask)
}

/// Generates values in which bits at positions in `bits` may be set, and the
/// number of bits set lies in `size`.
///
/// `size` must not hold a number greater than the number of positions in
/// `bits`.
pub fn sampled(size: Range<usize>, bits: Range<usize>) -> (strategy: SampledBitSetStrategy<i16>)
    requires
        model_of(size, bits).valid(),
    ensures
        strategy@ == model_of(size, bits),
        size.start < size.end && bits.end <= 16 ==> strategy.wf(),
{
    assert(<i16 as BitSetLike>::width() == 16);
    proof {
        if 0 < size.end && bits.end <= 16 {
            lemma_small_sample_fits((size.end - 1) as nat);
        }
    }
    SampledBitSetStrategy::new(size, bits)
}

} // verus!
