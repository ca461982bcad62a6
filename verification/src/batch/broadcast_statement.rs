use vstd::prelude::*;
use crate::batch::payload::Message;
use crate::crypto::Header;

verus! {

/// What a straggler signs on its own: its message.
#[derive(Clone, Copy, Debug, PartialEq, Eq)]
pub struct BroadcastStatement(pub Message);

impl BroadcastStatement {
    pub fn new(message: Message) -> (statement: BroadcastStatement)
        ensures
            statement.0 == message,
    {
        BroadcastStatement(message)
    }

    /// The role under which the statement is signed.
    pub fn header(&self) -> (header: Header)
        ensures
            header == Header::Broadcast,
    {
        Header::Broadcast
    }
}

} // verus!
