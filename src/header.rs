use vstd::prelude::*;

verus! {

/// Magic identifier that opens every frame and every announcement (ASCII "RC").
pub const MSG_MAGIC_ID: u16 = 0x5243;

/// Size in bytes of the header that precedes every framed message.
pub const HEADER_LEN: usize = 8;

/// Big-endian bytes of a 16-bit value.
pub open spec fn be16(v: u16) -> Seq<u8> {
    seq![(v / 256) as u8, (v % 256) as u8]
}

/// Big-endian bytes of a 32-bit value.
pub open spec fn be32(v: u32) -> Seq<u8> {
    seq![(v / 0x100_0000) as u8, ((v / 0x1_0000) % 256) as u8, ((v / 256) % 256) as u8, (v % 256) as u8]
}

/// The 16-bit value whose big-endian bytes are `a`, `b`.
pub open spec fn from_be16(a: u8, b: u8) -> u16 {
    (a as int * 256 + b as int) as u16
}

/// The 32-bit value whose big-endian bytes are `a`, `b`, `c`, `d`.
pub open spec fn from_be32(a: u8, b: u8, c: u8, d: u8) -> u32 {
    (a as int * 0x100_0000 + b as int * 0x1_0000 + c as int * 256 + d as int) as u32
}

/// Fixed 8-byte header that precedes every wire protocol message.
#[derive(Debug, Clone, Copy, PartialEq, Eq, Structural)]
pub struct MessageHeader {
    /// Magic identifier (`MSG_MAGIC_ID`).
    pub id: u16,
    /// Message type identifier.
    pub msg_id: u16,
    /// Length of the message body in bytes.
    pub len: u32,
}

impl MessageHeader {
    /// The eight bytes of this header on the wire.
    pub open spec fn spec_bytes(self) -> Seq<u8> {
        be16(self.id) + be16(self.msg_id) + be32(self.len)
    }

    /// Create a new header with the given message type and body length.
    pub fn new(msg_id: u16, len: u32) -> (r: MessageHeader)
        ensures
            r == (MessageHeader { id: MSG_MAGIC_ID, msg_id, len }),
    {
        MessageHeader { id: MSG_MAGIC_ID, msg_id, len }
    }

    /// The header's eight bytes, in wire order.
    pub fn to_bytes(&self) -> (r: Vec<u8>)
        ensures
            r@ == self.spec_bytes(),
            r@.len() == HEADER_LEN,
    {
        let mut v: Vec<u8> = Vec::with_capacity(HEADER_LEN);
        push_be16(&mut v, self.id);
        push_be16(&mut v, self.msg_id);
        push_be32(&mut v, self.len);
        v
    }
}

/// Appends the big-endian bytes of `x` to `v`.
pub fn push_be16(v: &mut Vec<u8>, x: u16)
    ensures
        final(v)@ == old(v)@ + be16(x),
{
    v.push((x / 256) as u8);
    v.push((x % 256) as u8);
    assert(final(v)@ =~= old(v)@ + be16(x));
}

/// Appends the big-endian bytes of `x` to `v`.
pub fn push_be32(v: &mut Vec<u8>, x: u32)
    ensures
        final(v)@ == old(v)@ + be32(x),
{
    v.push((x / 0x100_0000) as u8);
    v.push(((x / 0x1_0000) % 256) as u8);
    v.push(((x / 256) % 256) as u8);
    v.push((x % 256) as u8);
    assert(final(v)@ =~= old(v)@ + be32(x));
}

/// Decoding the big-endian bytes of a 16-bit value gives it back.
pub proof fn lemma_be16_round_trip(v: u16)
    ensures
        be16(v).len() == 2,
        from_be16(be16(v)[0], be16(v)[1]) == v,
{
}

/// Decoding the big-endian bytes of a 32-bit value gives it back.
pub proof fn lemma_be32_round_trip(v: u32)
    ensures
        be32(v).len() == 4,
        from_be32(be32(v)[0], be32(v)[1], be32(v)[2], be32(v)[3]) == v,
{
}

} // verus!
