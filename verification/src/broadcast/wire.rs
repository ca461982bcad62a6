use vstd::prelude::*;

verus! {

/// The four bytes of a number, most significant first.
pub open spec fn be32(value: u32) -> Seq<u8> {
    seq![
        (value / 0x100_0000) as u8,
        (value / 0x1_0000 % 0x100) as u8,
        (value / 0x100 % 0x100) as u8,
        (value % 0x100) as u8,
    ]
}

/// The four bytes of a number, least significant first.
pub open spec fn le32(value: u32) -> Seq<u8> {
    seq![
        (value % 0x100) as u8,
        (value / 0x100 % 0x100) as u8,
        (value / 0x1_0000 % 0x100) as u8,
        (value / 0x100_0000) as u8,
    ]
}

/// The number that four bytes stand for, most significant first.
pub open spec fn from_be32(bytes: Seq<u8>) -> int {
    bytes[0] * 0x100_0000 + bytes[1] * 0x1_0000 + bytes[2] * 0x100 + bytes[3]
}

/// The number that four bytes stand for, least significant first.
pub open spec fn from_le32(bytes: Seq<u8>) -> int {
    bytes[3] * 0x100_0000 + bytes[2] * 0x1_0000 + bytes[1] * 0x100 + bytes[0]
}

/// A number is read back from its bytes, in either order.
pub proof fn lemma_bytes_round_trip(value: u32)
    ensures
        from_be32(be32(value)) == value,
        from_le32(le32(value)) == value,
        be32(value).len() == 4,
        le32(value).len() == 4,
{
}

/// Appends the four bytes of `value`, most significant first.
pub fn push_be32(frame: &mut Vec<u8>, value: u32)
    ensures
        final(frame)@ == old(frame)@ + be32(value),
{
    frame.push((value / 0x100_0000) as u8);
    frame.push((value / 0x1_0000 % 0x100) as u8);
    frame.push((value / 0x100 % 0x100) as u8);
    frame.push((value % 0x100) as u8);
    assert(frame@ =~= old(frame)@ + be32(value));
}

/// Appends the four bytes of `value`, least significant first.
pub fn push_le32(frame: &mut Vec<u8>, value: u32)
    ensures
        final(frame)@ == old(frame)@ + le32(value),
{
    frame.push((value % 0x100) as u8);
    frame.push((value / 0x100 % 0x100) as u8);
    frame.push((value / 0x1_0000 % 0x100) as u8);
    frame.push((value / 0x100_0000) as u8);
    assert(frame@ =~= old(frame)@ + le32(value));
}

/// Appends the bytes.
pub fn push_bytes(frame: &mut Vec<u8>, bytes: &[u8])
    ensures
        final(frame)@ == old(frame)@ + bytes@,
{
    let mut i: usize = 0;
    while i < bytes.len()
        invariant
            i <= bytes.len(),
            frame@ == old(frame)@ + bytes@.take(i as int),
        decreases bytes.len() - i,
    {
        frame.push(bytes[i]);
        i += 1;
        assert(frame@ =~= old(frame)@ + bytes@.take(i as int));
    }
    assert(bytes@.take(i as int) =~= bytes@);
}

/// Reads the number that the four bytes from `at` on stand for, most
/// significant first.
pub fn read_be32(bytes: &[u8], at: usize) -> (value: u32)
    requires
        at + 4 <= bytes.len(),
    ensures
        value == from_be32(bytes@.subrange(at as int, at + 4)),
{
    let b0 = bytes[at] as u32;
    let b1 = bytes[at + 1] as u32;
    let b2 = bytes[at + 2] as u32;
    let b3 = bytes[at + 3] as u32;
    b0 * 0x100_0000 + b1 * 0x1_0000 + b2 * 0x100 + b3
}

/// Reads the number that the four bytes from `at` on stand for, least
/// significant first.
pub fn read_le32(bytes: &[u8], at: usize) -> (value: u32)
    requires
        at + 4 <= bytes.len(),
    ensures
        value == from_le32(bytes@.subrange(at as int, at + 4)),
{
    let b0 = bytes[at] as u32;
    let b1 = bytes[at + 1] as u32;
    let b2 = bytes[at + 2] as u32;
    let b3 = bytes[at + 3] as u32;
    b3 * 0x100_0000 + b2 * 0x1_0000 + b1 * 0x100 + b0
}

} // verus!
