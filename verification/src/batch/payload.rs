use vstd::prelude::*;

verus! {

/// Number of payloads in one leaf of the vector that commits to a batch.
pub const NIBBLE: usize = 16;

/// Id that marks a padding slot. No client has it.
pub const NULL_ID: u64 = u64::MAX;

/// What a client broadcasts: eight opaque bytes.
pub type Message = [u8; 8];

/// A client's id and its message.
#[derive(Clone, Copy, Debug, PartialEq, Eq)]
pub struct Payload {
    pub id: u64,
    pub message: Message,
}

impl Payload {
    /// The payload that fills a padding slot.
    pub open spec fn spec_padding() -> Payload {
        Payload { id: NULL_ID, message: vstd::array::spec_array_fill_for_copy_type::<u8, 8>(0xff) }
    }

    #[verifier::when_used_as_spec(spec_padding)]
    pub fn padding() -> (payload: Payload)
        ensures
            payload == Payload::spec_padding(),
    {
        Payload { id: NULL_ID, message: [0xffu8; 8] }
    }

    /// Whether the payload only fills a slot.
    pub open spec fn spec_is_padding(&self) -> bool {
        self.id == NULL_ID
    }

    #[verifier::when_used_as_spec(spec_is_padding)]
    pub fn is_padding(&self) -> (padding: bool)
        ensures
            padding == self.spec_is_padding(),
    {
        self.id == NULL_ID
    }
}

/// Number of padding slots that bring `len` payloads to a whole number of
/// leaves.
pub open spec fn padding_for(len: nat) -> nat {
    ((NIBBLE - len % (NIBBLE as nat)) % (NIBBLE as int)) as nat
}

/// The payloads followed by as few padding slots as make their number a
/// multiple of `NIBBLE`.
pub open spec fn padded(payloads: Seq<Payload>) -> Seq<Payload> {
    payloads + Seq::new(padding_for(payloads.len()), |i: int| Payload::padding())
}

/// The payloads of clients among the slots, in order: the slots without the
/// padding.
pub open spec fn reals(slots: Seq<Payload>) -> Seq<Payload>
    decreases slots.len(),
{
    if slots.len() == 0 {
        Seq::empty()
    } else if slots.last().is_padding() {
        reals(slots.drop_last())
    } else {
        reals(slots.drop_last()).push(slots.last())
    }
}

/// Slots that hold no padding are all real.
pub proof fn lemma_reals_of_real(slots: Seq<Payload>)
    requires
        forall|i: int| 0 <= i < slots.len() ==> !(#[trigger] slots[i]).is_padding(),
    ensures
        reals(slots) == slots,
    decreases slots.len(),
{
    if slots.len() > 0 {
        lemma_reals_of_real(slots.drop_last());
        assert(slots =~= slots.drop_last().push(slots.last()));
    }
}

/// Padding slots at the end add no real payload.
pub proof fn lemma_reals_of_padding(slots: Seq<Payload>, count: nat)
    ensures
        reals(slots + Seq::new(count, |i: int| Payload::padding())) == reals(slots),
    decreases count,
{
    let tail = Seq::new(count, |i: int| Payload::padding());
    if count == 0 {
        assert(slots + tail =~= slots);
    } else {
        let shorter = Seq::new((count - 1) as nat, |i: int| Payload::padding());
        assert((slots + tail).drop_last() =~= slots + shorter);
        assert((slots + tail).last() == Payload::padding());
        lemma_reals_of_padding(slots, (count - 1) as nat);
    }
}

/// Padding changes nothing about which payloads are real.
pub proof fn lemma_reals_of_padded(payloads: Seq<Payload>)
    ensures
        reals(padded(payloads)) == reals(payloads),
{
    lemma_reals_of_padding(payloads, padding_for(payloads.len()));
}

} // verus!
