use vstd::prelude::*;

verus! {

/// Role of a signed statement. Every signature covers the role's one-byte
/// code, so a signature made for one role is never accepted for another.
#[derive(Clone, Copy, Debug, PartialEq, Eq, Hash, Structural)]
pub enum Header {
    Broadcast,
    Reduction,
    Witness,
    Order,
}

impl Header {
    /// The byte that stands for the role on the wire.
    pub open spec fn spec_code(self) -> u8 {
        match self {
            Header::Broadcast => 0,
            Header::Reduction => 1,
            Header::Witness => 2,
            Header::Order => 3,
        }
    }

    #[verifier::when_used_as_spec(spec_code)]
    pub fn code(self) -> (code: u8)
        ensures
            code == self.spec_code(),
    {
        match self {
            Header::Broadcast => 0,
            Header::Reduction => 1,
            Header::Witness => 2,
            Header::Order => 3,
        }
    }

    /// The role that a byte stands for, if any.
    pub fn from_code(code: u8) -> (header: Option<Header>)
        ensures
            code > 3 <==> header is None,
            header matches Some(h) ==> h.code() == code,
    {
        if code == 0 {
            Some(Header::Broadcast)
        } else if code == 1 {
            Some(Header::Reduction)
        } else if code == 2 {
            Some(Header::Witness)
        } else if code == 3 {
            Some(Header::Order)
        } else {
            None
        }
    }

    /// Whether a statement that arrived under the byte `code` may be taken
    /// for one of role `self`.
    pub fn admits(self, code: u8) -> (admitted: bool)
        ensures
            admitted == (code == self.code()),
    {
        code == self.code()
    }
}

/// Distinct roles have distinct codes, and no code is above three.
pub proof fn lemma_header_codes(a: Header, b: Header)
    ensures
        a.code() == b.code() ==> a == b,
        a.code() <= 3,
{
}

} // verus!
