use vstd::prelude::*;

verus! {

/// The identity of a node. Handles are handed out from a counter that only
/// grows, so a handle never names two different nodes: a compare-and-swap on
/// handles cannot be fooled by a node that left and a new one that came back.
#[derive(Clone, Copy, Debug, PartialEq, Eq, Structural)]
pub struct NodeRef {
    pub id: u64,
}

/// A value together with the handle of the node below it. The link is fixed
/// when the node is published and never changes afterwards.
pub struct Node<T> {
    pub(crate) inner: T,
    pub(crate) handle: NodeRef,
    pub(crate) next: Option<NodeRef>,
}

impl<T> Node<T> {
    /// The value this node holds.
    pub closed spec fn val(self) -> T {
        self.inner
    }

    /// The handle of this node.
    pub closed spec fn handle_spec(self) -> NodeRef {
        self.handle
    }

    /// The handle of the node below this one, if any.
    pub closed spec fn link(self) -> Option<NodeRef> {
        self.next
    }

    pub(crate) fn new(inner: T, handle: NodeRef, next: Option<NodeRef>) -> (r: Node<T>)
        ensures
            r.val() == inner,
            r.handle_spec() == handle,
            r.link() == next,
    {
        Node { inner, handle, next }
    }

    /// The handle of the node below this one.
    pub fn next(&self) -> (r: Option<NodeRef>)
        ensures
            r == self.link(),
    {
        self.next
    }

    /// The handle of this node.
    pub fn handle(&self) -> (r: NodeRef)
        ensures
            r == self.handle_spec(),
    {
        self.handle
    }

    /// A reference to the value this node holds.
    pub fn value(&self) -> (r: &T)
        ensures
            *r == self.val(),
    {
        &self.inner
    }

    /// Takes the value out of a node that has left the stack.
    pub fn into_inner(self) -> (r: T)
        ensures
            r == self.val(),
    {
        self.inner
    }
}

} // verus!
