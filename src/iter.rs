use vstd::prelude::*;

use crate::node::{Node, NodeRef};
use crate::stack::Stack;

verus! {

/// A read-only walk down a chain as it stood when the walk began. It borrows
/// the chain, so the nodes it has yet to visit stay where they are for as
/// long as it lives.
pub struct StackIter<'a, T> {
    nodes: &'a Vec<Node<T>>,
    remaining: usize,
}

impl<'a, T> View for StackIter<'a, T> {
    type V = Seq<T>;

    /// The values still to come, the next one at index 0.
    closed spec fn view(&self) -> Seq<T> {
        Seq::new(self.remaining as nat, |i: int| self.nodes@[self.remaining - 1 - i].val())
    }
}

impl<'a, T> StackIter<'a, T> {
    /// The walk has no more to visit than the chain holds.
    pub closed spec fn wf(&self) -> bool {
        self.remaining <= self.nodes@.len()
    }

    /// A walk down from the node at `remaining - 1` of a chain kept from the
    /// bottom up.
    pub(crate) fn over(nodes: &'a Vec<Node<T>>, remaining: usize) -> (r: StackIter<'a, T>)
        requires
            remaining <= nodes@.len(),
        ensures
            r.wf(),
            r@ == Seq::new(remaining as nat, |i: int| nodes@[remaining - 1 - i].val()),
    {
        StackIter { nodes, remaining }
    }

    /// The next value of the walk, or `None` once the bottom is passed.
    pub fn next(&mut self) -> (r: Option<&'a T>)
        requires
            old(self).wf(),
        ensures
            final(self).wf(),
            old(self)@.len() == 0 ==> r is None && final(self)@ == old(self)@,
            old(self)@.len() > 0 ==> {
                &&& r is Some
                &&& *r->Some_0 == old(self)@[0]
                &&& final(self)@ == old(self)@.drop_first()
            },
    {
        if self.remaining == 0 {
            None
        } else {
            self.remaining = self.remaining - 1;
            let nodes: &'a Vec<Node<T>> = self.nodes;
            let r = nodes[self.remaining].value();
            assert(self@ =~= old(self)@.drop_first());
            Some(r)
        }
    }

    /// The number of values still to come.
    pub fn len(&self) -> (r: usize)
        ensures
            r == self@.len(),
    {
        self.remaining
    }

    /// A walk from the node of `stack` with handle `start` down to the
    /// bottom; empty when `start` is `None` or names no node of `stack`.
    pub fn from_ptr(stack: &'a Stack<T>, start: Option<NodeRef>) -> (r: StackIter<'a, T>)
        requires
            stack.wf(),
        ensures
            r.wf(),
            forall|i: int|
                0 <= i < stack.handles().len() && start == Some(#[trigger] stack.handles()[i])
                    ==> r@ == stack@.subrange(i, stack@.len() as int),
            (start is None || !stack.handles().contains(start->Some_0)) ==> r@.len() == 0,
    {
        proof {
            stack.lemma_handles_distinct();
        }
        match start {
            Some(h) => match stack.position(h) {
                Some(i) => stack.walk_from(i),
                None => stack.walk_from(stack.len()),
            },
            None => stack.walk_from(stack.len()),
        }
    }
}

} // verus!
