//! A last-in-first-out stack built around a single head slot that is only
//! ever changed by compare-and-swap, with node handles that are never reused.

pub mod node;
pub mod chain;
pub mod stack;
pub mod splice;
pub mod iter;
pub mod laws;

pub use chain::{node_from_frag_vec, Chain};
pub use iter::StackIter;
pub use node::{Node, NodeRef};
pub use stack::Stack;
