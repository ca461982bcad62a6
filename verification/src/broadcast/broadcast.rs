use vstd::prelude::*;

verus! {

/// A total order among the servers: what one server puts to the order,
/// every server is delivered, all in the same sequence.
pub trait Broadcast {
    /// Puts the payload to the order.
    fn order(&self, payload: &[u8]);

    /// The next payload of the order.
    fn deliver(&self) -> Vec<u8>;
}

} // verus!
