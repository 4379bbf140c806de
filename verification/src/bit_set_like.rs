//! The capability that a type must offer to be generated and shrunk as a set
//! of bits.

use vstd::prelude::*;

verus! {

/// A container of bits addressed by position.
///
/// The mathematical content of a value is `bits()`, the set of positions whose
/// bit is set. Positions below `width()` can be read and written. An
/// implementation says what these are for its type, and what `len` may
/// report, and is then held to the contracts below.
///
/// `duplicate` is the copy that the strategies rely on: unlike `Clone`, it
/// promises that the copy holds the same bits.
pub trait BitSetLike: Sized {
    /// The positions whose bit is set.
    spec fn bits(&self) -> Set<nat>;

    /// Every position below this bound can be tested, set and cleared.
    spec fn width() -> nat;

    /// `bound` is a length that `len` may report of this value. A container
    /// of fixed width has one such length; one that grows its storage as it
    /// sees fit may have many.
    spec fn is_len(&self, bound: nat) -> bool;

    /// Creates a value with room for positions below `max` and no bit set.
    ///
    /// Where a container of this type can address `max` positions at all,
    /// whatever length the fresh value reports is at least `max`.
    fn new_bitset(max: usize) -> (fresh: Self)
        ensures
            fresh.bits() == Set::<nat>::empty(),
            forall|bound: nat|
                max <= Self::width() && #[trigger] fresh.is_len(bound) ==> max <= bound,
    ;

    /// Returns an upper bound on the greatest position set, plus one.
    fn len(&self) -> (bound: usize)
        ensures
            self.is_len(bound as nat),
            bound <= Self::width(),
            forall|i: nat| self.bits().contains(i) ==> i < bound,
    ;

    /// Tells whether the bit at `ix` is set.
    fn test(&self, ix: usize) -> (is_set: bool)
        requires
            ix < Self::width(),
        ensures
            is_set == self.bits().contains(ix as nat),
    ;

    /// Sets the bit at `ix`.
    fn set(&mut self, ix: usize)
        requires
            ix < Self::width(),
        ensures
            final(self).bits() == old(self).bits().insert(ix as nat),
    ;

    /// Clears the bit at `ix`.
    fn clear(&mut self, ix: usize)
        requires
            ix < Self::width(),
        ensures
            final(self).bits() == old(self).bits().remove(ix as nat),
    ;

    /// Returns the number of bits set.
    ///
    /// The provided body scans every position below `len()`.
    fn count(&self) -> (n: usize)
        ensures
            n == self.bits().len(),
    {
        let bound = self.len();
        let mut n: usize = 0;
        let mut i: usize = 0;
        proof {
            lemma_below_empty(self.bits());
        }
        while i < bound
            invariant
                i <= bound,
                bound <= Self::width(),
                below(self.bits(), i as nat).finite(),
                n == below(self.bits(), i as nat).len(),
                n <= i,
            decreases bound - i,
        {
            proof {
                lemma_below_step(self.bits(), i as nat);
            }
            if self.test(i) {
                n += 1;
            }
            i += 1;
        }
        proof {
            lemma_below_all(self.bits(), bound as nat);
        }
        n
    }

    /// Returns an independent value with the same bits set.
    fn duplicate(&self) -> (copy: Self)
        ensures
            copy.bits() == self.bits(),
    ;
}

/// The members of `s` that lie below `bound`.
pub open spec fn below(s: Set<nat>, bound: nat) -> Set<nat> {
    s.filter(|i: nat| i < bound)
}

/// Nothing lies below position 0.
pub proof fn lemma_below_empty(s: Set<nat>)
    ensures
        below(s, 0) == Set::<nat>::empty(),
        below(s, 0).finite(),
        below(s, 0).len() == 0,
{
    assert(below(s, 0) =~= Set::<nat>::empty());
}

/// Raising the bound by one adds position `bound` exactly when `s` holds it.
pub proof fn lemma_below_step(s: Set<nat>, bound: nat)
    requires
        below(s, bound).finite(),
    ensures
        below(s, bound + 1).finite(),
        s.contains(bound) ==> below(s, bound + 1) == below(s, bound).insert(bound)
            && below(s, bound + 1).len() == below(s, bound).len() + 1,
        !s.contains(bound) ==> below(s, bound + 1) == below(s, bound),
{
    if s.contains(bound) {
        assert(below(s, bound + 1) =~= below(s, bound).insert(bound));
    } else {
        assert(below(s, bound + 1) =~= below(s, bound));
    }
}

/// A set whose members all lie below `bound` is what lies below `bound`.
pub proof fn lemma_below_all(s: Set<nat>, bound: nat)
    requires
        forall|i: nat| s.contains(i) ==> i < bound,
    ensures
        below(s, bound) == s,
{
    assert(below(s, bound) =~= s);
}

} // verus!
