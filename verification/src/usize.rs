//! `usize` as a container of 32 or 64 bits, and strategies for it.
//!
//! Bit `i` of the integer is position `i` of the container.

use vstd::prelude::*;
use core::ops::Range;
use crate::bit_set_like::BitSetLike;
use crate::sampled::SampledBitSetStrategy;
use crate::sampled::model_of;
use crate::strategy::BitSetStrategy;
use crate::strategy::UniformModel;
use crate::test_runner::lemma_small_sample_fits;

verus! {

/// Whether `x` has the bit that a shift by `i` reaches.
pub open spec fn bit_at(x: usize, i: usize) -> bool {
    x & (1usize << i) != 0
}

/// Whether bit `i` of `x` is set.
pub open spec fn has_bit(x: usize, i: nat) -> bool {
    i < usize::BITS && bit_at(x, i as usize)
}

/// Zero has no bit set.
proof fn lemma_zero_has_no_bit()
    by (bit_vector)
    ensures
        forall|i: usize| i < usize::BITS ==> !bit_at(0usize, i),
{
}

/// `with_j` is `x` with bit `j` set and every other bit as it was;
/// `without_j` is `x` with bit `j` cleared and every other bit as it was.
proof fn lemma_bit_ops(x: usize, j: usize, with_j: usize, without_j: usize)
    by (bit_vector)
    requires
        j < usize::BITS,
        with_j == x | (1usize << j),
        without_j == x & !(1usize << j),
    ensures
        forall|i: usize| i < usize::BITS ==> (bit_at(with_j, i) <==> i == j || bit_at(x, i)),
        forall|i: usize| i < usize::BITS ==> (bit_at(without_j, i) <==> i != j && bit_at(x, i)),
{
}

impl BitSetLike for usize {
    open spec fn bits(&self) -> Set<nat> {
        Set::new(|i: nat| has_bit(*self, i))
    }

    open spec fn width() -> nat {
        usize::BITS as nat
    }

    /// The length is the width of the type in bits, whatever the value.
    open spec fn is_len(&self, bound: nat) -> bool {
        bound == usize::BITS
    }

    /// Returns zero: the width is fixed, and `max` plays no part.
    fn new_bitset(_max: usize) -> (fresh: Self) {
        proof {
            lemma_zero_has_no_bit();
            assert(Set::new(|i: nat| has_bit(0usize, i)) =~= Set::<nat>::empty());
            assert(Self::width() == usize::BITS);
        }
        0
    }

    /// Returns the width of the type in bits.
    fn len(&self) -> (bound: usize) {
        assert(Self::width() == usize::BITS);
        assert(self.is_len(usize::BITS as nat));
        usize::BITS as usize
    }

    fn test(&self, ix: usize) -> (is_set: bool) {
        assert(Self::width() == usize::BITS);
        0 != (*self & (1usize << (ix as usize)))
    }

    fn set(&mut self, ix: usize) {
        assert(Self::width() == usize::BITS);
        proof {
            let j = ix as usize;
            lemma_bit_ops(*self, j, *self | (1usize << j), *self & !(1usize << j));
        }
        *self |= 1usize << (ix as usize);
        assert(self.bits() =~= old(self).bits().insert(ix as nat));
    }

    fn clear(&mut self, ix: usize) {
        assert(Self::width() == usize::BITS);
        proof {
            let j = ix as usize;
            lemma_bit_ops(*self, j, *self | (1usize << j), *self & !(1usize << j));
        }
        *self &= !(1usize << (ix as usize));
        assert(self.bits() =~= old(self).bits().remove(ix as nat));
    }

    fn duplicate(&self) -> (copy: Self) {
        *self
    }
}

/// Generates values in which the bits from `min` (inclusive) to `max`
/// (exclusive) may be set.
pub fn between(min: usize, max: usize) -> (strategy: BitSetStrategy<usize>)
    ensures
        strategy@ == (UniformModel { min: min as nat, max: max as nat, mask: None }),
        max <= usize::BITS ==> strategy.wf(),
{
    assert(<usize as BitSetLike>::width() == usize::BITS);
    BitSetStrategy::new(min, max)
}

/// Generates values in which the bits set in `mask`, and no others, may be
/// set.
pub fn masked(mask: usize) -> (strategy: BitSetStrategy<usize>)
    ensures
        strategy.wf(),
        strategy@ == (UniformModel { min: 0, max: usize::BITS as nat, mask: Some(mask.bits()) }),
        forall|i: nat|
            #![trigger strategy@.eligible(i)]
            #![trigger has_bit(mask, i)]
            strategy@.eligible(i) <==> has_bit(mask, i),
{
    BitSetStrategy::masked(mask)
}

/// Generates values in which bits at positions in `bits` may be set, and the
/// number of bits set lies in `size`.
///
/// `size` must not hold a number greater than the number of positions in
/// `bits`.
pub fn sampled(size: Range<usize>, bits: Range<usize>) -> (strategy: SampledBitSetStrategy<usize>)
    requires
        model_of(size, bits).valid(),
    ensures
        strategy@ == model_of(size, bits),
        size.start < size.end && bits.end <= usize::BITS ==> strategy.wf(),
{
    assert(<usize as BitSetLike>::width() == usize::BITS);
    proof {
        if 0 < size.end && bits.end <= usize::BITS {
            lemma_small_sample_fits((size.end - 1) as nat);
        }
    }
    SampledBitSetStrategy::new(size, bits)
}

} // verus!
