use std::collections::VecDeque;
use vstd::prelude::*;
use vstd::slice::slice_to_vec;

verus! {

/// An order of one server's own: what is put to it is delivered in the
/// sequence in which it was put.
#[derive(Clone, Debug)]
pub struct LoopBack {
    queue: VecDeque<Vec<u8>>,
}

impl View for LoopBack {
    type V = Seq<Vec<u8>>;

    closed spec fn view(&self) -> Seq<Vec<u8>> {
        self.queue@
    }
}

impl LoopBack {
    /// An order to which nothing was put.
    pub fn new() -> (order: LoopBack)
        ensures
            order@.len() == 0,
    {
        LoopBack { queue: VecDeque::new() }
    }

    /// Number of payloads that wait to be delivered.
    pub fn len(&self) -> (len: usize)
        ensures
            len == self@.len(),
    {
        self.queue.len()
    }

    /// Puts the payload to the order, behind all that wait.
    pub fn order(&mut self, payload: &[u8])
        ensures
            final(self)@.len() == old(self)@.len() + 1,
            final(self)@.drop_last() == old(self)@,
            final(self)@.last()@ == payload@,
    {
        let copy = slice_to_vec(payload);
        self.queue.push_back(copy);
        assert(self@.drop_last() =~= old(self)@);
    }

    /// Delivers the payload that has waited longest, if any waits.
    pub fn deliver(&mut self) -> (payload: Option<Vec<u8>>)
        ensures
            old(self)@.len() == 0 ==> payload is None && final(self)@ == old(self)@,
            old(self)@.len() > 0 ==> payload == Some(old(self)@[0]) && final(self)@ == old(
                self,
            )@.subrange(1, old(self)@.len() as int),
    {
        self.queue.pop_front()
    }
}

} // verus!
