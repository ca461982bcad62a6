use vstd::prelude::*;
use crate::crypto::{Header, Root};

verus! {

/// What the reducers of a batch sign together: the batch's root.
#[derive(Clone, Copy, Debug, PartialEq, Eq)]
pub struct ReductionStatement {
    pub root: Root,
}

impl ReductionStatement {
    pub fn new(root: Root) -> (statement: ReductionStatement)
        ensures
            statement.root == root,
    {
        ReductionStatement { root }
    }

    /// The role under which the statement is signed.
    pub fn header(&self) -> (header: Header)
        ensures
            header == Header::Reduction,
    {
        Header::Reduction
    }
}

} // verus!
