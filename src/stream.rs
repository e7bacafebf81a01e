use vstd::prelude::*;
use bytes::BytesMut;
use crate::buffer::{buf_advance, buf_bytes, buf_contents, buf_extend, buf_with_capacity};
use crate::codec::{decode_frame, decode_spec, encodable, encode_message, frame_of, CodecError, Decoded};
use crate::header::{MessageHeader, HEADER_LEN};
use crate::types::Message;

verus! {

impl MessageHeader {
    /// The header's eight bytes in a fresh buffer.
    pub fn as_bytes(&self) -> (r: BytesMut)
        ensures
            buf_contents(r) == self.spec_bytes(),
    {
        let mut buf = buf_with_capacity(HEADER_LEN);
        let bytes = self.to_bytes();
        buf_extend(&mut buf, bytes.as_slice());
        buf
    }
}

/// Frames messages onto, and reads them off, a buffered byte stream.
#[derive(Debug, Clone, Copy, Default)]
pub struct MessageCodec;

impl MessageCodec {
    /// Appends the frame of `item` to `dst`; on error `dst` is left as it was.
    pub fn encode(&mut self, item: Message, dst: &mut BytesMut) -> (r: Result<(), CodecError>)
        ensures
            *final(self) == *old(self),
            r is Ok <==> encodable(item@),
            r is Ok ==> buf_contents(*final(dst)) == buf_contents(*old(dst)) + frame_of(item@),
            r matches Err(e) ==> e == CodecError::StringTooLong && *final(dst) == *old(dst),
    {
        match encode_message(&item) {
            Ok(bytes) => {
                buf_extend(dst, bytes.as_slice());
                Ok(())
            },
            Err(e) => Err(e),
        }
    }

    /// Takes the next whole message off the front of `src`. While the frame is
    /// incomplete nothing is consumed and the result is `Ok(None)`; on error
    /// nothing is consumed either.
    pub fn decode(&mut self, src: &mut BytesMut) -> (r: Result<Option<Message>, CodecError>)
        ensures
            *final(self) == *old(self),
            match decode_spec(buf_contents(*old(src))) {
                Decoded::NeedMore => r == Ok::<Option<Message>, CodecError>(None) && *final(src) == *old(src),
                Decoded::Frame(m, n) => r matches Ok(Some(x)) && x@ == m
                    && buf_contents(*final(src)) == buf_contents(*old(src)).subrange(n as int, buf_contents(*old(src)).len() as int),
                Decoded::Failed(e) => r == Err::<Option<Message>, CodecError>(e) && *final(src) == *old(src),
            },
    {
        let res = decode_frame(buf_bytes(src));
        match res {
            Ok(Some((m, n))) => {
                buf_advance(src, n);
                Ok(Some(m))
            },
            Ok(None) => Ok(None),
            Err(e) => Err(e),
        }
    }
}

} // verus!
