use vstd::prelude::*;
use crate::batch::batch::{Batch, BatchError};
use crate::batch::payload::Message;
use crate::crypto::{MultiSignature, Signature};

verus! {

/// Wire form of a batch: the ids and the messages of its slots as two
/// parallel sequences, with the batch's signatures.
#[derive(Clone, Debug, PartialEq, Eq)]
pub struct CompressedBatch {
    pub ids: Vec<u64>,
    pub messages: Vec<Message>,
    pub reduction: Option<MultiSignature>,
    pub stragglers: Vec<(u64, Signature)>,
}

impl CompressedBatch {
    pub fn new(
        ids: Vec<u64>,
        messages: Vec<Message>,
        reduction: Option<MultiSignature>,
        stragglers: Vec<(u64, Signature)>,
    ) -> (compressed: CompressedBatch)
        ensures
            compressed.ids == ids,
            compressed.messages == messages,
            compressed.reduction == reduction,
            compressed.stragglers == stragglers,
    {
        CompressedBatch { ids, messages, reduction, stragglers }
    }

    /// Rebuilds the batch: ids and messages are paired again in order and
    /// padded to whole leaves. Fails where there is not one message for
    /// each id.
    pub fn decompress(self) -> (batch: Result<Batch, BatchError>)
        ensures
            batch is Ok <==> self.ids.len() == self.messages.len(),
            batch matches Ok(b) ==> b.agrees(
                Some(self.ids@),
                self.messages@,
                self.reduction,
                self.stragglers,
            ),
    {
        Batch::from_compressed_batch(
            Some(self.ids),
            self.messages,
            self.reduction,
            self.stragglers,
        )
    }
}

} // verus!
