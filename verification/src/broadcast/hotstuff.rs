use sha1::{Digest, Sha1};
use vstd::prelude::*;
use crate::broadcast::wire::{from_le32, le32, push_bytes, push_le32, read_le32};

verus! {

/// Length of the header that comes before the payload of a frame.
pub const HEADER_LENGTH: usize = 13;

/// The code of the operation that puts a payload to the order.
pub const OPCODE: u8 = 100;

/// The SHA-1 digest of the data: twenty bytes.
pub uninterp spec fn sha1_digest(data: Seq<u8>) -> Seq<u8>;

/// Calls `Sha1::new`, `update` and `finalize` of `sha1`: the SHA-1 digest
/// of the data, which is a function of the data alone.
#[verifier::external_body]
pub(crate) fn sha1(data: &[u8]) -> (digest: [u8; 20])
    ensures
        digest@ == sha1_digest(data@),
{
    let mut hasher = Sha1::new();
    hasher.update(data);
    hasher.finalize().into()
}

/// The frame of a payload with the given digest: a magic number of zero
/// and the payload's length as four bytes each, least significant first,
/// with the operation's code between them; then the digest's first four
/// bytes, and the payload.
pub open spec fn framed(payload: Seq<u8>, digest: Seq<u8>) -> Seq<u8> {
    le32(0) + seq![OPCODE] + le32(payload.len() as u32) + digest.subrange(0, 4) + payload
}

/// The frame of `payload`, whose digest is `digest`. Nothing where the
/// payload is too long for a frame.
pub fn frame(payload: &[u8], digest: &[u8; 20]) -> (frame: Option<Vec<u8>>)
    ensures
        frame is Some <==> payload@.len() <= u32::MAX,
        frame matches Some(f) ==> f@ == framed(payload@, digest@) && f@.len() == payload@.len()
            + 13,
{
    if payload.len() > 0xffff_ffff {
        return None;
    }
    let mut frame: Vec<u8> = Vec::new();
    push_le32(&mut frame, 0);
    frame.push(OPCODE);
    push_le32(&mut frame, payload.len() as u32);
    let mut i: usize = 0;
    let ghost head = frame@;
    while i < 4
        invariant
            i <= 4,
            frame@ == head + digest@.subrange(0, i as int),
        decreases 4 - i,
    {
        frame.push(digest[i]);
        i += 1;
        assert(frame@ =~= head + digest@.subrange(0, i as int));
    }
    push_bytes(&mut frame, payload);
    assert(frame@ =~= framed(payload@, digest@));
    Some(frame)
}

/// The frame that puts `payload` to the order. Nothing where the payload
/// is too long for a frame.
pub fn order(payload: &[u8]) -> (frame: Option<Vec<u8>>)
    ensures
        frame is Some <==> payload@.len() <= u32::MAX,
        frame matches Some(f) ==> f@ == framed(payload@, sha1_digest(payload@)) && f@.len()
            == payload@.len() + 13,
{
    let digest = sha1(payload);
    frame(payload, &digest)
}

/// The length of the payload that follows the header of a delivered
/// frame: the four bytes after the operation's code, least significant
/// first.
pub fn payload_length(header: &[u8; 13]) -> (length: u32)
    ensures
        length == from_le32(header@.subrange(5, 9)),
{
    read_le32(header.as_slice(), 5)
}

/// The header of a frame tells the length of its payload.
pub proof fn lemma_frame_tells_length(payload: Seq<u8>, digest: Seq<u8>)
    requires
        payload.len() <= u32::MAX,
        digest.len() == 20,
    ensures
        framed(payload, digest).len() == payload.len() + 13,
        from_le32(framed(payload, digest).subrange(5, 9)) == payload.len(),
        framed(payload, digest).subrange(13, 13 + payload.len() as int) == payload,
{
    let frame = framed(payload, digest);
    assert(frame.subrange(5, 9) =~= le32(payload.len() as u32));
    assert(frame.subrange(13, 13 + payload.len() as int) =~= payload);
}

} // verus!
