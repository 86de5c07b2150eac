use vstd::prelude::*;

verus! {

/// A run of values built off to the side of any stack, in the order in which
/// they will be popped once the run is spliced onto a stack by one
/// compare-and-swap (see `Stack::cas`). Nobody else can see it until then.
pub struct Chain<T> {
    pub(crate) items: Vec<T>,
}

impl<T> View for Chain<T> {
    type V = Seq<T>;

    /// The values of the chain, the one that would be popped first at index 0.
    closed spec fn view(&self) -> Seq<T> {
        self.items@
    }
}

impl<T> Chain<T> {
    /// The number of values in the chain.
    pub fn len(&self) -> (r: usize)
        ensures
            r == self@.len(),
    {
        self.items.len()
    }

    /// Takes the values back out, in pop order.
    pub fn into_vec(self) -> (r: Vec<T>)
        ensures
            r@ == self@,
    {
        self.items
    }
}

/// Builds an unshared chain from `from`, whose first value ends up closest to
/// the top once the chain is spliced onto a stack.
pub fn node_from_frag_vec<T>(from: Vec<T>) -> (r: Chain<T>)
    ensures
        r@ == from@,
{
    Chain { items: from }
}

} // verus!
