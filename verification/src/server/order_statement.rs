use vstd::prelude::*;
use crate::crypto::{Header, Root};

verus! {

/// What a server signs once it has put a batch to the order: the batch's
/// root.
#[derive(Clone, Copy, Debug, PartialEq, Eq)]
pub struct OrderStatement {
    pub root: Root,
}

impl OrderStatement {
    pub fn new(root: Root) -> (statement: OrderStatement)
        ensures
            statement.root == root,
    {
        OrderStatement { root }
    }

    /// The role under which the statement is signed.
    pub fn header(&self) -> (header: Header)
        ensures
            header == Header::Order,
    {
        Header::Order
    }
}

} // verus!
