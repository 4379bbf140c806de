//! `isize` as a container of 32 or 64 bits, and strategies for it.
//!
//! Bit `i` of the integer is position `i` of the container.

use vstd::prelude::*;
use core::ops::Range;
use crate::bit_set_like::BitSetLike;
use crate::sampled::SampledBitSetStrategy;
use crate::sampled::model_of;
use crate::strategy::BitSetStrategy;
use crate::strategy::UniformModel;
use crate::test_runner::lemma_small_sample_fits;

verus! {

/// Whether `x` has the bit that a shift by `i` reaches.
pub open spec fn bit_at(x: isize, i: usize) -> bool {
    x & (1isize << i) != 0
}

/// Whether bit `i` of `x` is set.
pub open spec fn has_bit(x: isize, i: nat) -> bool {
    i < isize::BITS && bit_at(x, i as usize)
}

/// Zero has no bit set.
proof fn lemma_zero_has_no_bit()
    by (bit_vector)
    ensures
        forall|i: usize| i < isize::BITS ==> !bit_at(0isize, i),
{
}

/// `with_j` is `x` with bit `j` set and every other bit as it was;
/// `without_j` is `x` with bit `j` cleared and every other bit as it was.
proof fn lemma_bit_ops(x: isize, j: usize, with_j: isize, without_j: isize)
    by (bit_vector)
    requires
        j < isize::BITS,
        with_j == x | (1isize << j),
        without_j == x & !(1isize << j),
    ensures
        forall|i: usize| i < isize::BITS ==> (bit_at(with_j, i) <==> i == j || bit_at(x, i)),
        forall|i: usize| i < isize::BITS ==> (bit_at(without_j, i) <==> i != j && bit_at(x, i)),
{
}

impl BitSetLike for isize {
    open spec fn bits(&self) -> Set<nat> {
        Set::new(|i: nat| has_bit(*self, i))
    }

    open spec fn width() -> nat {
        isize::BITS as nat
    }

    /// The length is the width of the type in bits, whatever the value.
    open spec fn is_len(&self, bound: nat) -> bool {
        bound == isize::BITS
    }

    /// Returns zero: the width is fixed, and `max` plays no part.
    fn new_bitset(_max: usize) -> (fresh: Self) {
        proof {
            lemma_zero_has_no_bit();
            assert(Set::new(|i: nat| has_bit(0isize, i)) =~= Set::<nat>::empty());
            assert(Self::width() == isize::BITS);
        }
        0
    }

    /// Returns the width of the type in bits.
    fn len(&self) -> (bound: usize) {
        assert(Self::width() == isize::BITS);
        assert(self.is_len(isize::BITS as nat));
        isize::BITS as usize
    }

    fn test(&self, ix: usize) -> (is_set: bool) {
        assert(Self::width() == isize::BITS);
        0 != (*self & (1isize << (ix as usize)))
    }

    fn set(&mut self, ix: usize) {
        assert(Self::width() == isize::BITS);
        proof {
            let j = ix as usize;
            lemma_bit_ops(*self, j, *self | (1isize << j), *self & !(1isize << j));
        }
        *self |= 1isize << (ix as usize);
        assert(self.bits() =~= old(self).bits().insert(ix as nat));
    }

    fn clear(&mut self, ix: usize) {
        assert(Self::width() == isize::BITS);
        proof {
            let j = ix as usize;
            lemma_bit_ops(*self, j, *self | (1isize << j), *self & !(1isize << j));
        }
        *self &= !(1isize << (ix as usize));
        assert(self.bits() =~= old(self).bits().remove(ix as nat));
    }

    fn duplicate(&self) -> (copy: Self) {
        *self
    }
}

/// Generates values in which the bits from `min` (inclusive) to `max`
/// (exclusive) may be set.
pub fn between(min: usize, max: usize) -> (strategy: BitSetStrategy<isize>)
    ensures
        strategy@ == (UniformModel { min: min as nat, max: max as nat, mask: None }),
        max <= isize::BITS ==> strategy.wf(),
{
    assert(<isize as BitSetLike>::width() == isize::BITS);
    BitSetStrategy::new(min, max)
}

/// Generates values in which the bits set in `mask`, and no others, may be
/// set.
pub fn masked(mask: isize) -> (strategy: BitSetStrategy<isize>)
    ensures
        strategy.wf(),
        strategy@ == (UniformModel { min: 0, max: isize::BITS as nat, mask: Some(mask.bits()) }),
        forall|i: nat|
            #![trigger strategy@.eligible(i)]
            #![trigger has_bit(mask, i)]
            strategy@.eligible(i) <==> has_bit(mask, i),
{
    BitSetStrategy::masked(mask)
}

/// Generates values in which bits at positions in `bits` may be set, and the
/// number of bits set lies in `size`.
///
/// `size` must not hold a number greater than the number of positions in
/// `bits`.
pub fn sampled(size: Range<usize>, bits: Range<usize>) -> (strategy: SampledBitSetStrategy<isize>)
    requires
        model_of(size, bits).valid(),
    ensures
        strategy@ == model_of(size, bits),
        size.start < size.end && bits.end <= isize::BITS ==> strategy.wf(),
{
    assert(<isize as BitSetLike>::width() == isize::BITS);
    proof {
        if 0 < size.end && bits.end <= isize::BITS {
            lemma_small_sample_fits((size.end - 1) as nat);
        }
    }
    SampledBitSetStrategy::new(size, bits)
}

} // verus!
