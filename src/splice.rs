use vstd::prelude::*;

use crate::chain::Chain;
use crate::node::NodeRef;
use crate::stack::Stack;

verus! {

impl<T> Stack<T> {
    /// Replaces the whole content by the values of `chain`, in its order,
    /// each in a freshly published node.
    pub(crate) fn install_chain(&mut self, chain: Chain<T>)
        requires
            old(self).wf(),
            old(self).handles_left() >= chain@.len(),
        ensures
            final(self).wf(),
            final(self)@ == chain@,
            final(self).handles().len() == chain@.len(),
            forall|h: NodeRef| final(self).handles().contains(h) ==> !old(self).issued(h),
            final(self).handles_left() == old(self).handles_left() - chain@.len(),
            final(self).injected() == old(self).injected(),
    {
        let ghost src = chain@;
        let mut items = chain.into_vec();
        self.clear();
        assert(items@ =~= src.subrange(0, items@.len() as int));
        assert(self@ =~= src.subrange(items@.len() as int, src.len() as int));
        while items.len() > 0
            invariant
                self.wf(),
                items@.len() <= src.len(),
                items@ == src.subrange(0, items@.len() as int),
                self@ == src.subrange(items@.len() as int, src.len() as int),
                self.handles().len() == self@.len(),
                self.handles_left() + src.len() == old(self).handles_left() + items@.len(),
                old(self).handles_left() >= src.len(),
                forall|h: NodeRef| self.handles().contains(h) ==> !old(self).issued(h),
                forall|h: NodeRef| old(self).issued(h) ==> self.issued(h),
                self.injected() == old(self).injected(),
            decreases items@.len(),
        {
            let ghost before = self.handles();
            let ghost rest = items@;
            match items.pop() {
                Some(v) => {
                    assert(v == src[items@.len() as int]);
                    assert(items@ =~= src.subrange(0, items@.len() as int));
                    assert(src.subrange(items@.len() as int, src.len() as int) =~= seq![v]
                        + src.subrange(rest.len() as int, src.len() as int));
                    let h = self.publish(v);
                    assert(self@ =~= src.subrange(items@.len() as int, src.len() as int));
                    assert forall|k: NodeRef| self.handles().contains(k) implies !old(
                        self,
                    ).issued(k) by {
                        if k != h {
                            let i = choose|i: int|
                                0 <= i < self.handles().len() && self.handles()[i] == k;
                            assert(before[i - 1] == k);
                        }
                    }
                },
                None => {},
            }
        }
        assert(items@.len() == 0);
    }

    /// Raw compare-and-swap on the head: if the head still is `expected`,
    /// the chain `new` replaces the whole content in one step and the new
    /// head comes back; otherwise the head that was found comes back, with
    /// the chain untouched.
    pub fn cas(&mut self, expected: Option<NodeRef>, new: Chain<T>) -> (r: Result<
        Option<NodeRef>,
        (Option<NodeRef>, Chain<T>),
    >)
        requires
            old(self).wf(),
            old(self).handles_left() >= new@.len(),
        ensures
            final(self).wf(),
            r is Ok <==> (old(self).injected() == 0 && old(self).top() == expected),
            r is Ok ==> {
                &&& final(self)@ == new@
                &&& final(self).handles().len() == new@.len()
                &&& r->Ok_0 == final(self).top()
                &&& forall|h: NodeRef| final(self).handles().contains(h) ==> !old(self).issued(h)
                &&& final(self).handles_left() == old(self).handles_left() - new@.len()
                &&& final(self).injected() == 0
            },
            r is Err ==> {
                &&& r->Err_0.0 == old(self).top()
                &&& r->Err_0.1@ == new@
                &&& final(self)@ == old(self)@
                &&& final(self).handles() == old(self).handles()
                &&& final(self).handles_left() == old(self).handles_left()
                &&& final(self).injected() == old(self).injected_after_loss()
            },
    {
        if self.take_injected_failure() {
            return Err((self.head(), new));
        }
        let current = self.head();
        if current == expected {
            self.install_chain(new);
            Ok(self.head())
        } else {
            Err((current, new))
        }
    }

    /// A stack whose content is `from`, its first value on top.
    pub fn from_raw(from: Chain<T>) -> (r: Stack<T>)
        ensures
            r.wf(),
            r@ == from@,
            r.handles().len() == from@.len(),
            r.handles_left() == u64::MAX - from@.len(),
            r.injected() == 0,
    {
        let mut r = Stack::new();
        let n = from.len();
        assert(n as nat <= u64::MAX as nat);
        r.install_chain(from);
        r
    }

    /// A stack whose content is `from`, its first value on top: the values
    /// are pushed from the last one to the first.
    pub fn from_vec(from: Vec<T>) -> (r: Stack<T>)
        ensures
            r.wf(),
            r@ == from@,
            r.handles().len() == from@.len(),
            r.handles_left() == u64::MAX - from@.len(),
            r.injected() == 0,
    {
        let ghost src = from@;
        let mut items = from;
        let n = items.len();
        let mut r = Stack::new();
        assert(items@ =~= src.subrange(0, items@.len() as int));
        assert(r@ =~= src.subrange(items@.len() as int, src.len() as int));
        while items.len() > 0
            invariant
                r.wf(),
                items@.len() <= src.len(),
                items@ == src.subrange(0, items@.len() as int),
                r@ == src.subrange(items@.len() as int, src.len() as int),
                r.handles().len() == r@.len(),
                r.handles_left() + src.len() == u64::MAX + items@.len(),
                n == src.len(),
                r.injected() == 0,
            decreases items@.len(),
        {
            let ghost rest = items@;
            match items.pop() {
                Some(v) => {
                    assert(v == src[items@.len() as int]);
                    assert(items@ =~= src.subrange(0, items@.len() as int));
                    assert(src.subrange(items@.len() as int, src.len() as int) =~= seq![v]
                        + src.subrange(rest.len() as int, src.len() as int));
                    r.push(v);
                    assert(r@ =~= src.subrange(items@.len() as int, src.len() as int));
                },
                None => {},
            }
        }
        r
    }
}

} // verus!
