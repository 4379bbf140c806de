//! The value tree shared by the bit-set strategies: a generated value, a
//! cursor over its positions, and one level of undo.

use vstd::prelude::*;
use crate::bit_set_like::BitSetLike;

verus! {

/// What a value tree is, mathematically.
pub struct ShrinkState {
    /// The positions set in the current value.
    pub bits: Set<nat>,
    /// The next position that simplification will consider.
    pub cursor: nat,
    /// The position cleared by the latest simplification, while it can still
    /// be undone.
    pub undo: Option<nat>,
    /// The number of set bits below which simplification never goes.
    pub floor: nat,
}

impl ShrinkState {
    /// The current value is finite, and a pending undo lies behind the cursor.
    pub open spec fn wf(self) -> bool {
        &&& self.bits.finite()
        &&& self.undo matches Some(b) ==> b < self.cursor
    }

    /// The number of set bits is already at the floor, or under it.
    pub open spec fn at_floor(self) -> bool {
        self.bits.len() <= self.floor
    }

    /// No set bit is left at or after the cursor.
    pub open spec fn exhausted(self) -> bool {
        forall|i: nat| self.bits.contains(i) ==> i < self.cursor
    }

    /// `b` is the first set bit at or after the cursor.
    pub open spec fn is_next(self, b: nat) -> bool {
        &&& self.cursor <= b
        &&& self.bits.contains(b)
        &&& forall|j: nat| self.cursor <= j < b ==> !self.bits.contains(j)
    }

    /// The set bits that simplification can still clear.
    pub open spec fn candidates(self) -> Set<nat> {
        self.bits.filter(|i: nat| self.cursor <= i)
    }

    /// Whether a simplification of this state succeeds.
    pub open spec fn can_simplify(self) -> bool {
        !self.at_floor() && !self.exhausted()
    }
}

/// How one simplification takes `pre` to `post`, and whether it reports a
/// change.
///
/// At the floor nothing happens. Otherwise the first set bit at or after the
/// cursor is cleared and remembered, and the cursor moves just past it. When
/// there is no such bit, the pending undo is dropped and the cursor may only
/// have advanced.
pub open spec fn simplified(pre: ShrinkState, post: ShrinkState, changed: bool) -> bool {
    if pre.at_floor() {
        !changed && post == pre
    } else if pre.exhausted() {
        &&& !changed
        &&& post.bits == pre.bits
        &&& post.undo is None
        &&& post.floor == pre.floor
        &&& post.cursor >= pre.cursor
    } else {
        &&& changed
        &&& post.undo matches Some(b)
        &&& pre.is_next(b)
        &&& post.bits == pre.bits.remove(b)
        &&& post.cursor == b + 1
        &&& post.floor == pre.floor
    }
}

/// How one complication takes `pre` to `post`, and whether it reports a
/// change: a pending undo is put back and consumed.
pub open spec fn complicated(pre: ShrinkState, post: ShrinkState, changed: bool) -> bool {
    &&& changed == pre.undo.is_some()
    &&& post.undo is None
    &&& post.cursor == pre.cursor
    &&& post.floor == pre.floor
    &&& post.bits == match pre.undo {
        Some(b) => pre.bits.insert(b),
        None => pre.bits,
    }
}

/// `post` follows `pre` by one call of simplify or of complicate, whatever it
/// reported.
pub open spec fn shrink_step(pre: ShrinkState, post: ShrinkState) -> bool {
    ||| simplified(pre, post, true)
    ||| simplified(pre, post, false)
    ||| complicated(pre, post, true)
    ||| complicated(pre, post, false)
}

/// Step `k` of `run` is a simplification that reported a change.
pub open spec fn simplifies_at(run: Seq<ShrinkState>, k: int) -> bool {
    simplified(run[k], run[k + 1], true)
}

/// Step `k` of `run` is a call of simplify or of complicate.
pub open spec fn steps_at(run: Seq<ShrinkState>, k: int) -> bool {
    shrink_step(run[k], run[k + 1])
}

/// A simplification reports a change exactly when the state is above its
/// floor and a set bit is left at or after the cursor.
pub proof fn lemma_simplify_succeeds_iff(pre: ShrinkState, post: ShrinkState, changed: bool)
    requires
        simplified(pre, post, changed),
    ensures
        changed == pre.can_simplify(),
{
}

/// A simplification that reports a change clears exactly one bit: the value
/// loses one set bit and gains none, and one candidate fewer is left.
pub proof fn lemma_simplify_clears_one_bit(pre: ShrinkState, post: ShrinkState)
    requires
        pre.wf(),
        simplified(pre, post, true),
    ensures
        post.wf(),
        post.bits.subset_of(pre.bits),
        post.bits.len() + 1 == pre.bits.len(),
        pre.candidates().finite(),
        post.candidates().len() + 1 == pre.candidates().len(),
        post.cursor > pre.cursor,
{
    let b = post.undo->0;
    pre.bits.lemma_len_filter(|i: nat| pre.cursor <= i);
    assert(pre.candidates().contains(b));
    assert(post.candidates() =~= pre.candidates().remove(b));
}

/// A simplification that reports no change leaves the value as it was.
pub proof fn lemma_failed_simplify_keeps_value(pre: ShrinkState, post: ShrinkState)
    requires
        simplified(pre, post, false),
    ensures
        post.bits == pre.bits,
        post.floor == pre.floor,
{
}

/// Repeated simplification strictly shrinks the value and comes to an end:
/// along a run of simplifications that each reported a change, every step
/// lowers the number of set bits by exactly one, so the run has no more steps
/// than the first state has candidates, and none once the floor is reached.
pub proof fn lemma_simplify_run_terminates(run: Seq<ShrinkState>)
    requires
        run.len() > 0,
        run[0].wf(),
        forall|k: int| 0 <= k < run.len() - 1 ==> #[trigger] simplifies_at(run, k),
    ensures
        forall|k: int|
            0 <= k < run.len() ==> {
                &&& (#[trigger] run[k]).wf()
                &&& run[k].floor == run[0].floor
                &&& run[k].bits.len() + k == run[0].bits.len()
                &&& run[k].candidates().len() + k == run[0].candidates().len()
            },
        run.len() - 1 <= run[0].candidates().len(),
        run.len() - 1 <= run[0].bits.len(),
        run.len() > 1 ==> run.last().bits.len() >= run[0].floor,
    decreases run.len(),
{
    run[0].bits.lemma_len_filter(|i: nat| run[0].cursor <= i);
    if run.len() > 1 {
        let head = run.drop_last();
        assert forall|k: int| 0 <= k < head.len() - 1 implies #[trigger] simplifies_at(head, k) by {
            assert(simplifies_at(run, k));
        }
        lemma_simplify_run_terminates(head);
        let n = run.len() - 1;
        assert(simplifies_at(run, n - 1));
        assert(head[n - 1].wf());
        lemma_simplify_clears_one_bit(run[n - 1], run[n]);
        assert forall|k: int| 0 <= k < run.len() implies {
            &&& (#[trigger] run[k]).wf()
            &&& run[k].floor == run[0].floor
            &&& run[k].bits.len() + k == run[0].bits.len()
            &&& run[k].candidates().len() + k == run[0].candidates().len()
        } by {
            if k < n {
                assert(run[k] == head[k]);
            }
        }
    }
}

/// No simplification takes the number of set bits under the floor, and no
/// sequence of calls does: along any run of calls of simplify and complicate
/// that starts at or above the floor, every state is at or above it.
pub proof fn lemma_floor_is_respected(run: Seq<ShrinkState>)
    requires
        run.len() > 0,
        run[0].wf(),
        run[0].bits.len() >= run[0].floor,
        forall|k: int| 0 <= k < run.len() - 1 ==> #[trigger] steps_at(run, k),
    ensures
        forall|k: int|
            0 <= k < run.len() ==> {
                &&& (#[trigger] run[k]).wf()
                &&& run[k].floor == run[0].floor
                &&& run[k].bits.len() >= run[0].floor
            },
    decreases run.len(),
{
    if run.len() > 1 {
        let head = run.drop_last();
        assert forall|k: int| 0 <= k < head.len() - 1 implies #[trigger] steps_at(head, k) by {
            assert(steps_at(run, k));
        }
        lemma_floor_is_respected(head);
        let n = run.len() - 1;
        assert(steps_at(run, n - 1));
        assert(head[n - 1].wf());
        let pre = run[n - 1];
        let post = run[n];
        if simplified(pre, post, true) {
            lemma_simplify_clears_one_bit(pre, post);
        }
        assert forall|k: int| 0 <= k < run.len() implies {
            &&& (#[trigger] run[k]).wf()
            &&& run[k].floor == run[0].floor
            &&& run[k].bits.len() >= run[0].floor
        } by {
            if k < n {
                assert(run[k] == head[k]);
            }
        }
    }
}

/// The number of steps of `run` that are simplifications which reported a
/// change.
pub open spec fn successes(run: Seq<ShrinkState>) -> nat
    decreases run.len(),
{
    if run.len() < 2 {
        0
    } else {
        let earlier = successes(run.drop_last());
        if simplified(run[run.len() - 2], run.last(), true) {
            earlier + 1
        } else {
            earlier
        }
    }
}

/// Shrinking comes to an end however simplify and complicate are mixed:
/// along any run of calls, each simplification that reports a change uses up
/// one candidate, and nothing brings a candidate back, because what
/// complicate puts back lies behind the cursor. So simplify reports a change
/// no more often than the first state has candidates.
pub proof fn lemma_shrinking_terminates(run: Seq<ShrinkState>)
    requires
        run.len() > 0,
        run[0].wf(),
        forall|k: int| 0 <= k < run.len() - 1 ==> #[trigger] steps_at(run, k),
    ensures
        run.last().wf(),
        run[0].candidates().finite(),
        successes(run) + run.last().candidates().len() == run[0].candidates().len(),
        successes(run) <= run[0].bits.len(),
    decreases run.len(),
{
    run[0].bits.lemma_len_filter(|i: nat| run[0].cursor <= i);
    if run.len() > 1 {
        let head = run.drop_last();
        assert forall|k: int| 0 <= k < head.len() - 1 implies #[trigger] steps_at(head, k) by {
            assert(steps_at(run, k));
        }
        lemma_shrinking_terminates(head);
        let n = run.len() - 1;
        assert(steps_at(run, n - 1));
        let pre = run[n - 1];
        let post = run[n];
        assert(pre == head.last());
        if simplified(pre, post, true) {
            lemma_simplify_clears_one_bit(pre, post);
        } else if simplified(pre, post, false) {
            assert(post.candidates() =~= pre.candidates());
        } else {
            assert(post.candidates() =~= pre.candidates());
        }
    }
}

/// A complication right after a simplification that reported a change
/// reports a change too, and brings back the value that was there before the
/// simplification.
pub proof fn lemma_complicate_undoes_simplify(
    before: ShrinkState,
    simpler: ShrinkState,
    after: ShrinkState,
    changed: bool,
)
    requires
        simplified(before, simpler, true),
        complicated(simpler, after, changed),
    ensures
        changed,
        after.bits == before.bits,
        after.floor == before.floor,
{
    let b = simpler.undo->0;
    assert(before.bits.remove(b).insert(b) =~= before.bits);
}

/// Only one level of undo is kept: a second complication in a row reports
/// no change and leaves the value alone.
pub proof fn lemma_second_complicate_is_idle(
    pre: ShrinkState,
    mid: ShrinkState,
    post: ShrinkState,
    first: bool,
    second: bool,
)
    requires
        complicated(pre, mid, first),
        complicated(mid, post, second),
    ensures
        !second,
        post == mid,
{
    assert(post.bits =~= mid.bits);
}

/// Value tree produced by the bit-set strategies.
#[derive(Clone, Copy, Debug)]
pub struct BitSetValueTree<T: BitSetLike> {
    inner: T,
    shrink: usize,
    prev_shrink: Option<usize>,
    min_count: usize,
}

impl<T: BitSetLike> View for BitSetValueTree<T> {
    type V = ShrinkState;

    closed spec fn view(&self) -> ShrinkState {
        ShrinkState {
            bits: self.inner.bits(),
            cursor: self.shrink as nat,
            undo: match self.prev_shrink {
                Some(b) => Some(b as nat),
                None => None,
            },
            floor: self.min_count as nat,
        }
    }
}

impl<T: BitSetLike> BitSetValueTree<T> {
    /// The container that holds the current value.
    pub closed spec fn container(&self) -> T {
        self.inner
    }

    /// The state is well formed, its value is what the container holds, and
    /// a pending undo can be written back.
    pub open spec fn wf(&self) -> bool {
        &&& self@.wf()
        &&& self@.bits == self.container().bits()
        &&& self@.undo matches Some(b) ==> b < T::width()
    }

    /// Starts a tree at `inner`, with the cursor at `shrink`, nothing to undo
    /// and the floor at `min_count`.
    pub(crate) fn new(inner: T, shrink: usize, min_count: usize) -> (tree: Self)
        requires
            inner.bits().finite(),
        ensures
            tree.wf(),
            tree@ == (ShrinkState {
                bits: inner.bits(),
                cursor: shrink as nat,
                undo: None,
                floor: min_count as nat,
            }),
    {
        BitSetValueTree { inner, shrink, prev_shrink: None, min_count }
    }

    /// Returns a copy of the current value.
    pub fn current(&self) -> (value: T)
        ensures
            value.bits() == self@.bits,
    {
        self.inner.duplicate()
    }

    /// Tries to make the current value simpler by clearing one bit.
    ///
    /// Where the value is above its floor and no set bit is left at or after
    /// the cursor, the cursor is left at the length that the container
    /// reported, unless it was past it already.
    pub fn simplify(&mut self) -> (changed: bool)
        requires
            old(self).wf(),
        ensures
            final(self).wf(),
            simplified(old(self)@, final(self)@, changed),
            !changed && !old(self)@.at_floor() ==> exists|bound: nat|
                {
                    &&& #[trigger] old(self).container().is_len(bound)
                    &&& final(self)@.cursor == if old(self)@.cursor < bound {
                        bound
                    } else {
                        old(self)@.cursor
                    }
                },
    {
        if self.inner.count() <= self.min_count {
            return false;
        }
        let bound = self.inner.len();
        while self.shrink < bound && !self.inner.test(self.shrink)
            invariant
                bound <= T::width(),
                self.inner == old(self).inner,
                self.inner.is_len(bound as nat),
                self.shrink <= bound || self.shrink == old(self).shrink,
                self.prev_shrink == old(self).prev_shrink,
                self.min_count == old(self).min_count,
                old(self).shrink <= self.shrink,
                forall|j: nat| old(self).shrink <= j < self.shrink ==> !self.inner.bits().contains(j),
            decreases bound - self.shrink,
        {
            self.shrink += 1;
        }

        if self.shrink >= bound {
            self.prev_shrink = None;
            assert(old(self).container().is_len(bound as nat));
            false
        } else {
            self.prev_shrink = Some(self.shrink);
            self.inner.clear(self.shrink);
            self.shrink += 1;
            true
        }
    }

    /// Undoes the latest simplification, if it has not been undone yet.
    pub fn complicate(&mut self) -> (changed: bool)
        requires
            old(self).wf(),
        ensures
            final(self).wf(),
            complicated(old(self)@, final(self)@, changed),
    {
        if let Some(bit) = self.prev_shrink.take() {
            self.inner.set(bit);
            true
        } else {
            false
        }
    }
}

} // verus!
