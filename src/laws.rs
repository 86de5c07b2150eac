use vstd::prelude::*;

use crate::node::NodeRef;
use crate::stack::Stack;

verus! {

/// The content of a stack whose content was `s` after `vs` were pushed on it
/// one by one, `vs[0]` first. Each push puts its value in front, as
/// `Stack::push` states (`seq![v] + s`).
pub open spec fn after_pushes<T>(s: Seq<T>, vs: Seq<T>) -> Seq<T>
    decreases vs.len(),
{
    if vs.len() == 0 {
        s
    } else {
        seq![vs.last()] + after_pushes(s, vs.drop_last())
    }
}

/// Last in, first out: after `v1`, `v2` and `v3` are pushed in that order on
/// an empty stack, the content that `Stack::pop_all` hands back is
/// `v3, v2, v1`.
pub proof fn lemma_three_pushes_drain_reversed<T>(v1: T, v2: T, v3: T)
    ensures
        seq![v3] + (seq![v2] + (seq![v1] + Seq::<T>::empty())) == seq![v3, v2, v1],
        after_pushes(Seq::<T>::empty(), seq![v1, v2, v3]) == seq![v3, v2, v1],
{
    assert(seq![v3] + (seq![v2] + (seq![v1] + Seq::<T>::empty())) =~= seq![v3, v2, v1]);
    lemma_pushes_drain_reversed(seq![v1, v2, v3]);
    assert(seq![v1, v2, v3].reverse() =~= seq![v3, v2, v1]);
}

/// Pushing any run of values on an empty stack and draining it hands the
/// values back in the reverse order of the pushes: every value exactly once,
/// none lost and none twice.
pub proof fn lemma_pushes_drain_reversed<T>(vs: Seq<T>)
    ensures
        after_pushes(Seq::<T>::empty(), vs) == vs.reverse(),
        after_pushes(Seq::<T>::empty(), vs).to_multiset() == vs.to_multiset(),
    decreases vs.len(),
{
    if vs.len() > 0 {
        lemma_pushes_drain_reversed(vs.drop_last());
        assert(seq![vs.last()] + vs.drop_last().reverse() =~= vs.reverse());
    } else {
        assert(vs.reverse() =~= Seq::<T>::empty());
    }
    vs.lemma_reverse_to_multiset();
}

/// A walk taken from the head of `before` is not disturbed by a later push:
/// on `after`, the stack that `Stack::push` made of `before` by publishing
/// `v` under the fresh handle `fresh`, the walk that `StackIter::from_ptr`
/// starts at the old head yields exactly the old content, never the new
/// value.
pub proof fn lemma_snapshot_ignores_later_push<T>(
    before: Stack<T>,
    after: Stack<T>,
    v: T,
    fresh: NodeRef,
)
    requires
        before.wf(),
        after.wf(),
        before@.len() > 0,
        after@ == seq![v] + before@,
        after.handles() == seq![fresh] + before.handles(),
    ensures
        forall|i: int|
            0 <= i < after.handles().len() && before.top() == Some(#[trigger] after.handles()[i])
                ==> after@.subrange(i, after@.len() as int) == before@,
{
    after.lemma_handles_distinct();
    before.lemma_handles_distinct();
    assert forall|i: int|
        0 <= i < after.handles().len() && before.top() == Some(#[trigger] after.handles()[i])
            implies after@.subrange(i, after@.len() as int) == before@ by {
        assert(after.handles()[1] == before.handles()[0]);
        assert(i == 1);
        assert(after@.subrange(1, after@.len() as int) =~= before@);
    }
}

} // verus!
