use vstd::prelude::*;

use crate::iter::StackIter;
use crate::node::{Node, NodeRef};

verus! {

/// A last-in-first-out stack whose only shared slot is its head.
///
/// Every change of the head goes through one compare-and-swap step: it takes
/// the head that the caller expects and wins only if the head still is that
/// one. A caller may ask for a number of upcoming steps to lose as if another
/// party had changed the head first (`inject_cas_failures`); `push` and `pop`
/// then retry, `cap` and `cas` report the loss.
///
/// The nodes are kept from the bottom up; each node links to the one below.
/// Every node ever published gets a fresh handle, so the head slot never
/// holds a handle that it held before with another node behind it.
pub struct Stack<T> {
    nodes: Vec<Node<T>>,
    next_id: u64,
    failures: u64,
}

impl<T> Default for Stack<T> {
    fn default() -> (r: Stack<T>)
        ensures
            r.wf(),
            r@ == Seq::<T>::empty(),
            r.handles() == Seq::<NodeRef>::empty(),
            r.injected() == 0,
            r.handles_left() == u64::MAX as nat,
    {
        Stack::new()
    }
}

impl<T> View for Stack<T> {
    type V = Seq<T>;

    /// The values on the stack, the top at index 0.
    closed spec fn view(&self) -> Seq<T> {
        Seq::new(self.nodes@.len(), |i: int| self.nodes@[self.nodes@.len() - 1 - i].val())
    }
}

impl<T> Stack<T> {
    /// The links of the chain run from each node to the one below it, and
    /// the handles grow from the bottom up, below the next one to be issued.
    pub closed spec fn wf(&self) -> bool {
        &&& forall|i: int|
            0 <= i < self.nodes@.len() ==> #[trigger] self.nodes@[i].link() == (if i == 0 {
                None::<NodeRef>
            } else {
                Some(self.nodes@[i - 1].handle_spec())
            })
        &&& forall|i: int, j: int|
            0 <= i < j < self.nodes@.len() ==> (#[trigger] self.nodes@[i]).handle_spec().id
                < (#[trigger] self.nodes@[j]).handle_spec().id
        &&& forall|i: int|
            0 <= i < self.nodes@.len() ==> (#[trigger] self.nodes@[i]).handle_spec().id
                < self.next_id
    }

    /// The handles of the nodes on the stack, the top at index 0.
    pub closed spec fn handles(&self) -> Seq<NodeRef> {
        Seq::new(
            self.nodes@.len(),
            |i: int| self.nodes@[self.nodes@.len() - 1 - i].handle_spec(),
        )
    }

    /// What the head slot holds: the handle of the top node, or nothing.
    pub open spec fn top(&self) -> Option<NodeRef> {
        if self.handles().len() == 0 {
            None
        } else {
            Some(self.handles()[0])
        }
    }

    /// Whether `h` has been handed out by this stack.
    pub closed spec fn issued(&self, h: NodeRef) -> bool {
        h.id < self.next_id
    }

    /// How many more nodes this stack can publish.
    pub closed spec fn handles_left(&self) -> nat {
        (u64::MAX - self.next_id) as nat
    }

    /// How many upcoming compare-and-swap steps are to lose.
    pub closed spec fn injected(&self) -> nat {
        self.failures as nat
    }

    /// What the failure hook holds after one step that lost.
    pub open spec fn injected_after_loss(&self) -> nat {
        if self.injected() > 0 {
            (self.injected() - 1) as nat
        } else {
            0
        }
    }

    /// An empty stack.
    pub fn new() -> (r: Stack<T>)
        ensures
            r.wf(),
            r@ == Seq::<T>::empty(),
            r.handles() == Seq::<NodeRef>::empty(),
            r.injected() == 0,
            r.handles_left() == u64::MAX as nat,
    {
        let r = Stack { nodes: Vec::new(), next_id: 0, failures: 0 };
        assert(r@ =~= Seq::<T>::empty());
        assert(r.handles() =~= Seq::<NodeRef>::empty());
        r
    }

    /// Makes the next `n` compare-and-swap steps on the head lose, as if
    /// another party had changed the head just before each of them.
    pub fn inject_cas_failures(&mut self, n: u64)
        requires
            old(self).wf(),
        ensures
            final(self).wf(),
            final(self)@ == old(self)@,
            final(self).handles() == old(self).handles(),
            final(self).handles_left() == old(self).handles_left(),
            final(self).injected() == n,
    {
        self.failures = n;
    }

    /// How many upcoming compare-and-swap steps are still to lose.
    pub fn injected_failures(&self) -> (r: u64)
        ensures
            r == self.injected(),
    {
        self.failures
    }

    /// The handle in the head slot: that of the top node, or `None` when the
    /// stack is empty.
    pub fn head(&self) -> (r: Option<NodeRef>)
        requires
            self.wf(),
        ensures
            r == self.top(),
            r is None <==> self@.len() == 0,
    {
        let n = self.nodes.len();
        if n == 0 {
            None
        } else {
            Some(self.nodes[n - 1].handle())
        }
    }

    /// The number of values on the stack.
    pub fn len(&self) -> (r: usize)
        ensures
            r == self@.len(),
    {
        self.nodes.len()
    }

    /// Whether the stack holds no value.
    pub fn is_empty(&self) -> (r: bool)
        ensures
            r <==> self@.len() == 0,
    {
        self.nodes.len() == 0
    }

    /// Empties the stack; the handles issued so far stay issued.
    pub(crate) fn clear(&mut self)
        requires
            old(self).wf(),
        ensures
            final(self).wf(),
            final(self)@ == Seq::<T>::empty(),
            final(self).handles() == Seq::<NodeRef>::empty(),
            final(self).handles_left() == old(self).handles_left(),
            final(self).injected() == old(self).injected(),
            forall|h: NodeRef| final(self).issued(h) == old(self).issued(h),
    {
        self.nodes = Vec::new();
        assert(self@ =~= Seq::<T>::empty());
        assert(self.handles() =~= Seq::<NodeRef>::empty());
    }

    /// Consumes one injected loss, if any is pending, and says whether it did.
    pub(crate) fn take_injected_failure(&mut self) -> (r: bool)
        requires
            old(self).wf(),
        ensures
            final(self).wf(),
            r <==> old(self).injected() > 0,
            final(self)@ == old(self)@,
            final(self).handles() == old(self).handles(),
            final(self).handles_left() == old(self).handles_left(),
            final(self).injected() == old(self).injected_after_loss(),
            forall|h: NodeRef| final(self).issued(h) == old(self).issued(h),
    {
        if self.failures > 0 {
            self.failures = self.failures - 1;
            true
        } else {
            false
        }
    }

    /// Publishes a new node holding `inner` on top, linked to the current top.
    pub(crate) fn publish(&mut self, inner: T) -> (r: NodeRef)
        requires
            old(self).wf(),
            old(self).handles_left() > 0,
        ensures
            final(self).wf(),
            final(self)@ == seq![inner] + old(self)@,
            final(self).handles() == seq![r] + old(self).handles(),
            !old(self).issued(r),
            final(self).handles_left() == old(self).handles_left() - 1,
            final(self).injected() == old(self).injected(),
            forall|h: NodeRef| final(self).issued(h) <==> (old(self).issued(h) || h == r),
    {
        let below = self.head();
        let r = NodeRef { id: self.next_id };
        self.nodes.push(Node::new(inner, r, below));
        self.next_id = self.next_id + 1;
        assert(self@ =~= seq![inner] + old(self)@);
        assert(self.handles() =~= seq![r] + old(self).handles());
        assert forall|h: NodeRef| self.issued(h) <==> (old(self).issued(h) || h == r) by {
            if h.id == r.id {
                assert(h == r);
            }
        }
        r
    }

    /// One compare-and-swap step that installs a node holding `inner`, linked
    /// to `expected`, if the head still is `expected`. On a loss the value
    /// comes back.
    fn try_install(&mut self, expected: Option<NodeRef>, inner: T) -> (r: Result<NodeRef, T>)
        requires
            old(self).wf(),
            old(self).handles_left() > 0,
        ensures
            final(self).wf(),
            r is Ok <==> (old(self).injected() == 0 && old(self).top() == expected),
            r is Ok ==> {
                &&& final(self)@ == seq![inner] + old(self)@
                &&& final(self).handles() == seq![r->Ok_0] + old(self).handles()
                &&& !old(self).issued(r->Ok_0)
                &&& final(self).handles_left() == old(self).handles_left() - 1
                &&& final(self).injected() == 0
            },
            r is Err ==> {
                &&& r->Err_0 == inner
                &&& final(self)@ == old(self)@
                &&& final(self).handles() == old(self).handles()
                &&& final(self).handles_left() == old(self).handles_left()
                &&& final(self).injected() == old(self).injected_after_loss()
            },
    {
        if self.failures > 0 {
            self.failures = self.failures - 1;
            return Err(inner);
        }
        let current = self.head();
        if current == expected {
            Ok(self.publish(inner))
        } else {
            Err(inner)
        }
    }

    /// Pushes `inner` on top. The step that installs the node is retried
    /// until it wins.
    pub fn push(&mut self, inner: T)
        requires
            old(self).wf(),
            old(self).handles_left() > 0,
        ensures
            final(self).wf(),
            final(self)@ == seq![inner] + old(self)@,
            final(self).handles().len() == old(self).handles().len() + 1,
            final(self).handles().drop_first() == old(self).handles(),
            !old(self).issued(final(self).handles()[0]),
            final(self).handles_left() == old(self).handles_left() - 1,
            final(self).injected() == 0,
    {
        let mut item = inner;
        loop
            invariant
                self.wf(),
                item == inner,
                self@ == old(self)@,
                self.handles() == old(self).handles(),
                self.handles_left() == old(self).handles_left(),
                old(self).handles_left() > 0,
                forall|h: NodeRef| self.issued(h) == old(self).issued(h),
            decreases self.injected(),
        {
            let expected = self.head();
            match self.try_install(expected, item) {
                Ok(_) => {
                    return;
                },
                Err(back) => {
                    item = back;
                },
            }
        }
    }

    /// One compare-and-swap step that swings the head from `expected` to
    /// `below`, the node under it, if the head still is `expected`. The step
    /// that wins owns the detached node and takes its value out.
    fn try_detach(&mut self, expected: NodeRef, below: Option<NodeRef>) -> (r: Option<T>)
        requires
            old(self).wf(),
            old(self).top() == Some(expected),
            old(self).handles().len() > 1 ==> below == Some(old(self).handles()[1]),
            old(self).handles().len() == 1 ==> below is None,
        ensures
            final(self).wf(),
            r is Some <==> old(self).injected() == 0,
            r is Some ==> {
                &&& r == Some(old(self)@[0])
                &&& final(self)@ == old(self)@.drop_first()
                &&& final(self).handles() == old(self).handles().drop_first()
                &&& final(self).handles_left() == old(self).handles_left()
                &&& final(self).injected() == 0
            },
            r is None ==> {
                &&& final(self)@ == old(self)@
                &&& final(self).handles() == old(self).handles()
                &&& final(self).handles_left() == old(self).handles_left()
                &&& final(self).injected() == old(self).injected_after_loss()
            },
    {
        if self.failures > 0 {
            self.failures = self.failures - 1;
            return None;
        }
        match self.nodes.pop() {
            Some(node) => {
                assert(self@ =~= old(self)@.drop_first());
                assert(self.handles() =~= old(self).handles().drop_first());
                Some(node.into_inner())
            },
            None => None,
        }
    }

    /// Pops the top value, or returns `None` when the stack is empty. The
    /// step that detaches the top node is retried until it wins.
    pub fn pop(&mut self) -> (r: Option<T>)
        requires
            old(self).wf(),
        ensures
            final(self).wf(),
            final(self).handles_left() == old(self).handles_left(),
            old(self)@.len() == 0 ==> {
                &&& r is None
                &&& final(self)@ == old(self)@
                &&& final(self).handles() == old(self).handles()
                &&& final(self).injected() == old(self).injected()
            },
            old(self)@.len() > 0 ==> {
                &&& r == Some(old(self)@[0])
                &&& final(self)@ == old(self)@.drop_first()
                &&& final(self).handles() == old(self).handles().drop_first()
                &&& final(self).injected() == 0
            },
    {
        loop
            invariant
                self.wf(),
                self@ == old(self)@,
                self.handles() == old(self).handles(),
                self.handles_left() == old(self).handles_left(),
                self@.len() == 0 ==> self.injected() == old(self).injected(),
            decreases self.injected(),
        {
            let expected = self.head();
            match expected {
                None => {
                    return None;
                },
                Some(top) => {
                    let below = self.nodes[self.nodes.len() - 1].next();
                    if let Some(v) = self.try_detach(top, below) {
                        return Some(v);
                    }
                },
            }
        }
    }

    /// Pops until the stack is empty and returns the values in the order in
    /// which they were popped.
    pub fn pop_all(&mut self) -> (r: Vec<T>)
        requires
            old(self).wf(),
        ensures
            final(self).wf(),
            r@ == old(self)@,
            final(self)@.len() == 0,
            final(self).handles_left() == old(self).handles_left(),
    {
        let mut res: Vec<T> = Vec::new();
        loop
            invariant
                self.wf(),
                res@ + self@ == old(self)@,
                self.handles_left() == old(self).handles_left(),
            decreases self@.len(),
        {
            let ghost before = self@;
            match self.pop() {
                Some(v) => {
                    res.push(v);
                    assert(res@ + self@ =~= old(self)@) by {
                        assert(before =~= seq![v] + self@);
                    }
                },
                None => {
                    assert(res@ =~= old(self)@);
                    return res;
                },
            }
        }
    }
}

impl<T> Stack<T> {
    /// Compare-and-push: one compare-and-swap step, with no retry, that puts
    /// `new` on top if the head still is `expected`. It returns the handle of
    /// the new node when it wins, and the handle that the head held when it
    /// loses.
    pub fn cap(&mut self, expected: Option<NodeRef>, new: T) -> (r: Result<NodeRef, Option<NodeRef>>)
        requires
            old(self).wf(),
            old(self).handles_left() > 0,
        ensures
            final(self).wf(),
            r is Ok <==> (old(self).injected() == 0 && old(self).top() == expected),
            r is Ok ==> {
                &&& final(self)@ == seq![new] + old(self)@
                &&& final(self).handles() == seq![r->Ok_0] + old(self).handles()
                &&& final(self).top() == Some(r->Ok_0)
                &&& !old(self).issued(r->Ok_0)
                &&& final(self).handles_left() == old(self).handles_left() - 1
                &&& final(self).injected() == 0
            },
            r is Err ==> {
                &&& r->Err_0 == old(self).top()
                &&& final(self)@ == old(self)@
                &&& final(self).handles() == old(self).handles()
                &&& final(self).handles_left() == old(self).handles_left()
                &&& final(self).injected() == old(self).injected_after_loss()
            },
    {
        match self.try_install(expected, new) {
            Ok(h) => Ok(h),
            Err(_) => Err(self.head()),
        }
    }

    /// Where the node with handle `h` stands, counted from the top.
    pub fn position(&self, h: NodeRef) -> (r: Option<usize>)
        requires
            self.wf(),
        ensures
            r is Some <==> self.handles().contains(h),
            r is Some ==> r->Some_0 < self@.len() && self.handles()[r->Some_0 as int] == h,
    {
        let n = self.nodes.len();
        let mut i: usize = 0;
        while i < n
            invariant
                n == self.nodes@.len(),
                i <= n,
                forall|k: int| 0 <= k < i ==> self.handles()[k] != h,
            decreases n - i,
        {
            if self.nodes[n - 1 - i].handle() == h {
                assert(self.handles()[i as int] == h);
                return Some(i);
            }
            i = i + 1;
        }
        assert(!self.handles().contains(h));
        None
    }

    /// Two places on the stack never hold the same handle, and each place
    /// holds one.
    pub proof fn lemma_handles_distinct(&self)
        requires
            self.wf(),
        ensures
            self.handles().len() == self@.len(),
            forall|i: int, j: int|
                0 <= i < self.handles().len() && 0 <= j < self.handles().len() && i != j
                    ==> self.handles()[i] != self.handles()[j],
    {
        let n = self.nodes@.len();
        assert forall|i: int, j: int|
            0 <= i < self.handles().len() && 0 <= j < self.handles().len() && i != j
                implies self.handles()[i] != self.handles()[j] by {
            let a = n - 1 - i;
            let b = n - 1 - j;
            if a < b {
                assert(self.nodes@[a].handle_spec().id < self.nodes@[b].handle_spec().id);
            } else {
                assert(self.nodes@[b].handle_spec().id < self.nodes@[a].handle_spec().id);
            }
        }
    }

    /// The node with handle `h`, if it is on the stack: its value, and the
    /// link to the node below it.
    pub fn get(&self, h: NodeRef) -> (r: Option<&Node<T>>)
        requires
            self.wf(),
        ensures
            r is Some <==> self.handles().contains(h),
            forall|i: int|
                0 <= i < self.handles().len() && self.handles()[i] == h ==> {
                    &&& r is Some
                    &&& r->Some_0.val() == self@[i]
                    &&& r->Some_0.handle_spec() == h
                    &&& r->Some_0.link() == (if i + 1 < self.handles().len() {
                        Some(self.handles()[i + 1])
                    } else {
                        None
                    })
                },
    {
        proof {
            self.lemma_handles_distinct();
        }
        match self.position(h) {
            Some(i) => {
                let n = self.nodes.len();
                Some(&self.nodes[n - 1 - i])
            },
            None => None,
        }
    }

    /// A walk over the values from position `i` down to the bottom.
    pub(crate) fn walk_from(&self, i: usize) -> (r: StackIter<'_, T>)
        requires
            self.wf(),
            i <= self@.len(),
        ensures
            r.wf(),
            r@ == self@.subrange(i as int, self@.len() as int),
    {
        let r = StackIter::over(&self.nodes, self.nodes.len() - i);
        assert(r@ =~= self@.subrange(i as int, self@.len() as int));
        r
    }

    /// A walk over all values, from the top down.
    pub fn iter(&self) -> (r: StackIter<'_, T>)
        requires
            self.wf(),
        ensures
            r.wf(),
            r@ == self@,
    {
        let r = self.walk_from(0);
        assert(self@.subrange(0, self@.len() as int) =~= self@);
        r
    }

    /// The handle in the head slot together with a walk over all values from
    /// the top down. A non-empty stack is required: there is no head to hand
    /// back otherwise.
    pub fn iter_at_head(&self) -> (r: (NodeRef, StackIter<'_, T>))
        requires
            self.wf(),
            self@.len() > 0,
        ensures
            self.top() == Some(r.0),
            r.1.wf(),
            r.1@ == self@,
    {
        let n = self.nodes.len();
        (self.nodes[n - 1].handle(), self.iter())
    }
}

} // verus!
