use vstd::prelude::*;

verus! {

/// The kind of network that a node talks over.
pub trait Type {

}

/// The network of a deployed node.
#[derive(Clone, Copy, Debug, Default)]
pub struct Production;

/// The network of nodes that run in one process, for tests.
#[derive(Clone, Copy, Debug, Default)]
pub struct Memory;

impl Type for Production {

}

impl Type for Memory {

}

} // verus!
