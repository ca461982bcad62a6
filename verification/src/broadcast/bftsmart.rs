use vstd::prelude::*;
use crate::broadcast::wire::{be32, from_be32, push_be32, push_bytes, read_be32};

verus! {

/// Length of the header that comes before the content of a frame.
pub const HEADER_LENGTH: usize = 40;

/// Length of the padding that comes after the content of a frame.
pub const PADDING_LENGTH: usize = 4;

/// Sequence number of a client's first request.
pub const FIRST_SEQUENCE: u32 = 1;

/// The frame of a request with the given content: the length of all that
/// follows, the length of the message, the client's id, the view, the
/// request type, the session, the sequence number, the operation, the
/// reply server, the length of the content, the content, and padding; each
/// number as four bytes, most significant first.
pub open spec fn request(id: u32, session: u32, sequence: u32, content: Seq<u8>) -> Seq<u8> {
    preamble(id, session, sequence, content.len()) + be32(content.len() as u32) + content + be32(0)
}

/// The first nine numbers of a request's frame, for content of the given
/// length.
pub open spec fn preamble(id: u32, session: u32, sequence: u32, length: nat) -> Seq<u8> {
    be32((length + 40) as u32) + be32((length + 32) as u32) + be32(id) + be32(0) + be32(0) + be32(
        session,
    ) + be32(sequence) + be32(0) + be32(u32::MAX)
}

/// The preamble has thirty-six bytes.
pub proof fn lemma_preamble_length(id: u32, session: u32, sequence: u32, length: nat)
    ensures
        preamble(id, session, sequence, length).len() == 36,
{
}

fn request_frame(id: u32, session: u32, sequence: u32, content: &[u8]) -> (frame: Vec<u8>)
    requires
        content@.len() + 40 <= u32::MAX,
    ensures
        frame@ == request(id, session, sequence, content@),
        frame@.len() == content@.len() + 44,
{
    let length = content.len() as u32;
    let mut frame: Vec<u8> = Vec::new();
    push_be32(&mut frame, length + 40);
    push_be32(&mut frame, length + 32);
    push_be32(&mut frame, id);
    push_be32(&mut frame, 0);
    push_be32(&mut frame, 0);
    push_be32(&mut frame, session);
    push_be32(&mut frame, sequence);
    push_be32(&mut frame, 0);
    push_be32(&mut frame, u32::MAX);
    assert(frame@ =~= preamble(id, session, sequence, content@.len()));
    push_be32(&mut frame, length);
    push_bytes(&mut frame, content);
    push_be32(&mut frame, 0);
    proof {
        lemma_preamble_length(id, session, sequence, content@.len());
    }
    frame
}

/// The frame by which the client `id` subscribes in a new session: a
/// request without content, with sequence number zero.
pub fn subscribe(id: u32, session: u32) -> (frame: Vec<u8>)
    ensures
        frame@ == request(id, session, 0, Seq::<u8>::empty()),
        frame@.len() == 44,
{
    let content: Vec<u8> = Vec::new();
    request_frame(id, session, 0, content.as_slice())
}

/// The frame that puts `payload` to the order, as the client's request
/// number `sequence`. Nothing where the payload is too long for a frame.
pub fn order(id: u32, session: u32, sequence: u32, payload: &[u8]) -> (frame: Option<Vec<u8>>)
    ensures
        frame is Some <==> payload@.len() + 40 <= u32::MAX,
        frame matches Some(f) ==> f@ == request(id, session, sequence, payload@) && f@.len()
            == payload@.len() + 44,
{
    if payload.len() > 0xffff_ffff - 40 {
        None
    } else {
        Some(request_frame(id, session, sequence, payload))
    }
}

/// The sequence number of the request after the one numbered `sequence`.
/// Nothing where the numbers are used up.
pub fn following(sequence: u32) -> (next: Option<u32>)
    ensures
        sequence < u32::MAX ==> next == Some((sequence + 1) as u32),
        sequence == u32::MAX ==> next is None,
{
    sequence.checked_add(1)
}

/// The length of the content that follows the header of a delivered
/// frame: the header's last four bytes, most significant first. After the
/// content come `PADDING_LENGTH` bytes of padding.
pub fn content_length(header: &[u8; 40]) -> (length: u32)
    ensures
        length == from_be32(header@.subrange(36, 40)),
{
    read_be32(header.as_slice(), 36)
}

/// The header of a request tells the length of its content.
pub proof fn lemma_request_tells_length(id: u32, session: u32, sequence: u32, content: Seq<u8>)
    requires
        content.len() + 40 <= u32::MAX,
    ensures
        request(id, session, sequence, content).len() == content.len() + 44,
        from_be32(request(id, session, sequence, content).subrange(36, 40)) == content.len(),
        request(id, session, sequence, content).subrange(40, 40 + content.len() as int) == content,
{
    let frame = request(id, session, sequence, content);
    let head = preamble(id, session, sequence, content.len());
    lemma_preamble_length(id, session, sequence, content.len());
    let length = be32(content.len() as u32);
    assert(length.len() == 4);
    assert(frame.len() == content.len() + 44);
    assert(frame.subrange(36, 40) =~= length);
    assert(from_be32(length) == content.len()) by {
        crate::broadcast::wire::lemma_bytes_round_trip(content.len() as u32);
    }
    assert(frame.subrange(40, 40 + content.len() as int) =~= content);
}

} // verus!
