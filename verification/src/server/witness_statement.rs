use vstd::prelude::*;
use crate::crypto::{Header, Root};

verus! {

/// What a server signs to witness a batch: the batch's root.
#[derive(Clone, Copy, Debug, PartialEq, Eq)]
pub struct WitnessStatement {
    pub root: Root,
}

impl WitnessStatement {
    pub fn new(root: Root) -> (statement: WitnessStatement)
        ensures
            statement.root == root,
    {
        WitnessStatement { root }
    }

    /// The role under which the statement is signed.
    pub fn header(&self) -> (header: Header)
        ensures
            header == Header::Witness,
    {
        Header::Witness
    }
}

} // verus!
