//! The growable bit set of the `bit-set` crate as a bit container, and
//! strategies for it.

use vstd::prelude::*;
use bit_set::BitSet;
use core::ops::Range;
use crate::bit_set_like::BitSetLike;
use crate::sampled::SampledBitSetStrategy;
use crate::sampled::model_of;
use crate::strategy::BitSetStrategy;
use crate::strategy::UniformModel;
use crate::test_runner::sample_fits;

verus! {

/// The `bit-set` crate's set of `usize` values. Its storage is opaque to the
/// verifier.
#[verifier::external_type_specification]
#[verifier::external_body]
#[verifier::reject_recursive_types(B)]
pub struct ExBitSet<B>(bit_set::BitSet<B>);

/// The values that a `BitSet` holds.
pub uninterp spec fn bit_set_members(set: BitSet) -> Set<nat>;

/// The number of bits that a `BitSet` keeps, set or clear: the length of its
/// bit vector, which is not the room that was allocated for it.
pub uninterp spec fn bit_set_span(set: BitSet) -> nat;

/// Calls `BitSet::with_capacity`, which builds a set of `nbits` cleared bits:
/// it holds no value and keeps `nbits` bits.
#[verifier::external_body]
fn with_capacity(nbits: usize) -> (set: BitSet)
    ensures
        bit_set_members(set) == Set::<nat>::empty(),
        bit_set_span(set) == nbits,
{
    BitSet::with_capacity(nbits)
}

/// Calls `BitSet::capacity`, the number of bits that the storage has room
/// for. How much room was allocated is not claimed, only that it holds the
/// bits kept, so that every value held lies below it.
#[verifier::external_body]
fn capacity(set: &BitSet) -> (bound: usize)
    ensures
        bit_set_span(*set) <= bound,
        forall|i: nat| bit_set_members(*set).contains(i) ==> i < bound,
{
    set.capacity()
}

/// Calls `BitSet::contains`, which tells whether `value` is held.
#[verifier::external_body]
fn contains(set: &BitSet, value: usize) -> (held: bool)
    ensures
        held == bit_set_members(*set).contains(value as nat),
{
    set.contains(value)
}

/// Calls `BitSet::insert`, which adds `value`, and first grows the bit
/// vector to `value + 1` bits where it is shorter; that sum must not
/// overflow.
#[verifier::external_body]
fn insert(set: &mut BitSet, value: usize)
    requires
        value < usize::MAX,
    ensures
        bit_set_members(*final(set)) == bit_set_members(*old(set)).insert(value as nat),
        bit_set_span(*final(set)) == if bit_set_span(*old(set)) <= value {
            (value + 1) as nat
        } else {
            bit_set_span(*old(set))
        },
{
    set.insert(value);
}

/// Calls `BitSet::remove`, which takes `value` out where it is held, and
/// keeps as many bits as before.
#[verifier::external_body]
fn remove(set: &mut BitSet, value: usize)
    ensures
        bit_set_members(*final(set)) == bit_set_members(*old(set)).remove(value as nat),
        bit_set_span(*final(set)) == bit_set_span(*old(set)),
{
    set.remove(value);
}

/// Calls `BitSet::len`, which counts the values held.
#[verifier::external_body]
fn len(set: &BitSet) -> (n: usize)
    ensures
        n == bit_set_members(*set).len(),
{
    set.len()
}

/// Calls `BitSet::clone`, which copies the bit vector: the copy holds the
/// same values and keeps as many bits.
#[verifier::external_body]
fn clone(set: &BitSet) -> (copy: BitSet)
    ensures
        bit_set_members(copy) == bit_set_members(*set),
        bit_set_span(copy) == bit_set_span(*set),
{
    set.clone()
}

impl BitSetLike for BitSet {
    open spec fn bits(&self) -> Set<nat> {
        bit_set_members(*self)
    }

    /// Every position but the greatest `usize` can be addressed.
    open spec fn width() -> nat {
        usize::MAX as nat
    }

    /// The length is the room that the storage has. How much was allocated
    /// is not known from the set: it may be any number that is no less than
    /// the number of bits kept, and above every value held.
    open spec fn is_len(&self, bound: nat) -> bool {
        &&& bound <= usize::MAX
        &&& bit_set_span(*self) <= bound
        &&& forall|i: nat| bit_set_members(*self).contains(i) ==> i < bound
    }

    /// Creates a set that holds no value and keeps `max` cleared bits.
    fn new_bitset(max: usize) -> (fresh: Self)
        ensures
            bit_set_span(fresh) == max,
    {
        assert(Self::width() == usize::MAX);
        with_capacity(max)
    }

    fn len(&self) -> (bound: usize) {
        assert(Self::width() == usize::MAX);
        capacity(self)
    }

    fn test(&self, ix: usize) -> (is_set: bool) {
        contains(self, ix)
    }

    /// Adds `ix`; the set then keeps at least `ix + 1` bits, and no fewer
    /// than before.
    fn set(&mut self, ix: usize)
        ensures
            bit_set_span(*final(self)) == if bit_set_span(*old(self)) <= ix {
                (ix + 1) as nat
            } else {
                bit_set_span(*old(self))
            },
    {
        assert(Self::width() == usize::MAX);
        insert(self, ix)
    }

    /// Takes `ix` out; the set keeps as many bits as before.
    fn clear(&mut self, ix: usize)
        ensures
            bit_set_span(*final(self)) == bit_set_span(*old(self)),
    {
        remove(self, ix)
    }

    fn count(&self) -> (n: usize) {
        len(self)
    }

    /// Copies the set; the copy keeps as many bits.
    fn duplicate(&self) -> (copy: Self)
        ensures
            bit_set_span(copy) == bit_set_span(*self),
    {
        clone(self)
    }
}

/// Generates sets in which the values from `min` (inclusive) to `max`
/// (exclusive) may be held.
pub fn between(min: usize, max: usize) -> (strategy: BitSetStrategy<BitSet>)
    ensures
        strategy@ == (UniformModel { min: min as nat, max: max as nat, mask: None }),
        strategy.wf(),
{
    assert(<BitSet as BitSetLike>::width() == usize::MAX);
    BitSetStrategy::new(min, max)
}

/// Generates sets in which the values held by `mask`, and no others, may be
/// held.
pub fn masked(mask: BitSet) -> (strategy: BitSetStrategy<BitSet>)
    ensures
        strategy.wf(),
        strategy@.min == 0,
        strategy@.mask == Some(mask.bits()),
        forall|i: nat|
            #![trigger strategy@.eligible(i)]
            #![trigger bit_set_members(mask).contains(i)]
            strategy@.eligible(i) <==> bit_set_members(mask).contains(i),
{
    BitSetStrategy::masked(mask)
}

/// Generates sets that hold values of `bits`, as many of them as a number
/// in `size`.
///
/// `size` must not hold a number greater than the number of values in
/// `bits`.
pub fn sampled(size: Range<usize>, bits: Range<usize>) -> (strategy: SampledBitSetStrategy<BitSet>)
    requires
        model_of(size, bits).valid(),
    ensures
        strategy@ == model_of(size, bits),
        size.start < size.end && sample_fits((size.end - 1) as nat) ==> strategy.wf(),
{
    assert(<BitSet as BitSetLike>::width() == usize::MAX);
    SampledBitSetStrategy::new(size, bits)
}

} // verus!
