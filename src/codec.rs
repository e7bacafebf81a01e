use vstd::prelude::*;
use vstd::utf8::{decode_utf8, encode_utf8, valid_utf8};
use vstd::string::StringSliceAdditionalSpecFns;
use vstd::slice::{slice_subrange, slice_to_vec};
use vstd::arithmetic::div_mod::lemma_fundamental_div_mod_converse;
use crate::header::{
    lemma_be16_round_trip, lemma_be32_round_trip, be16, be32, from_be16, from_be32, push_be16, push_be32, MessageHeader, HEADER_LEN, MSG_MAGIC_ID,
};
use crate::types::{
    id_value, is_known_id, AddInfo, AddRecord, ClientGreet, DelRecord, Message, MessageID,
    MessageView, Ping, Pong, ServerGreet, UploadDone,
};

verus! {

/// Largest byte length of a string carried behind a one-byte length field.
pub const MAX_SHORT_STRING: usize = 255;

/// Largest byte length of a string carried behind a two-byte length field.
pub const MAX_LONG_STRING: usize = 65535;

/// Errors of the message codec.
#[derive(Debug, Clone, Copy, PartialEq, Eq, Structural)]
pub enum CodecError {
    /// A string is longer than its length field can state.
    StringTooLong,
    /// The frame does not start with the magic identifier.
    BadMagic,
    /// The header names no known message type.
    UnknownMessageType,
    /// The body does not match the layout of its message type.
    MalformedBody,
}

/// The UTF-8 bytes of a string.
pub open spec fn utf8(s: Seq<char>) -> Seq<u8> {
    encode_utf8(s)
}

/// Whether every string of `m` fits its length field.
pub open spec fn encodable(m: MessageView) -> bool {
    match m {
        MessageView::AddRecord { rtype, rname, .. } => utf8(rtype).len() <= MAX_SHORT_STRING
            && utf8(rname).len() <= MAX_LONG_STRING,
        MessageView::AddInfo { key, value, .. } => utf8(key).len() <= MAX_SHORT_STRING
            && utf8(value).len() <= MAX_LONG_STRING,
        _ => true,
    }
}

/// The body bytes of `m`: integer fields first, then the strings' bytes.
pub open spec fn body_of(m: MessageView) -> Seq<u8> {
    match m {
        MessageView::ServerGreet => Seq::empty(),
        MessageView::Ping { nonce } => be32(nonce),
        MessageView::ClientGreet { serv_key } => be32(serv_key),
        MessageView::Pong { nonce } => be32(nonce),
        MessageView::AddRecord { recid, atype, rtype, rname } => be32(recid) + seq![
            atype,
            utf8(rtype).len() as u8,
        ] + be16(utf8(rname).len() as u16) + utf8(rtype) + utf8(rname),
        MessageView::DelRecord { recid } => be32(recid),
        MessageView::UploadDone => Seq::empty(),
        MessageView::AddInfo { recid, key, value } => be32(recid) + seq![utf8(key).len() as u8]
            + be16(utf8(value).len() as u16) + utf8(key) + utf8(value),
    }
}

/// The header that precedes `m` on the wire.
pub open spec fn header_of(m: MessageView) -> MessageHeader {
    MessageHeader { id: MSG_MAGIC_ID, msg_id: id_value(m.kind()), len: body_of(m).len() as u32 }
}

/// The complete frame of `m`: header, then body.
pub open spec fn frame_of(m: MessageView) -> Seq<u8> {
    header_of(m).spec_bytes() + body_of(m)
}

/// The magic field of a buffered header.
pub open spec fn magic_field(buf: Seq<u8>) -> u16 {
    from_be16(buf[0], buf[1])
}

/// The message type field of a buffered header.
pub open spec fn msg_id_field(buf: Seq<u8>) -> u16 {
    from_be16(buf[2], buf[3])
}

/// The body length field of a buffered header.
pub open spec fn len_field(buf: Seq<u8>) -> u32 {
    from_be32(buf[4], buf[5], buf[6], buf[7])
}

/// Length of the frame whose header `buf` starts with.
pub open spec fn frame_len(buf: Seq<u8>) -> int {
    HEADER_LEN + len_field(buf)
}

/// Whether `buf` starts with a well-formed header and holds the whole frame.
pub open spec fn holds_frame(buf: Seq<u8>) -> bool {
    &&& buf.len() >= HEADER_LEN
    &&& magic_field(buf) == MSG_MAGIC_ID
    &&& buf.len() >= frame_len(buf)
}

/// Reads the body of a message of type `id`; `None` where it does not fit the
/// layout of that type exactly.
pub open spec fn parse_body(id: MessageID, b: Seq<u8>) -> Option<MessageView> {
    match id {
        MessageID::ServerGreet => if b.len() == 0 {
            Some(MessageView::ServerGreet)
        } else {
            None
        },
        MessageID::UploadDone => if b.len() == 0 {
            Some(MessageView::UploadDone)
        } else {
            None
        },
        MessageID::Ping => if b.len() == 4 {
            Some(MessageView::Ping { nonce: from_be32(b[0], b[1], b[2], b[3]) })
        } else {
            None
        },
        MessageID::Pong => if b.len() == 4 {
            Some(MessageView::Pong { nonce: from_be32(b[0], b[1], b[2], b[3]) })
        } else {
            None
        },
        MessageID::ClientGreet => if b.len() == 4 {
            Some(MessageView::ClientGreet { serv_key: from_be32(b[0], b[1], b[2], b[3]) })
        } else {
            None
        },
        MessageID::DelRecord => if b.len() == 4 {
            Some(MessageView::DelRecord { recid: from_be32(b[0], b[1], b[2], b[3]) })
        } else {
            None
        },
        MessageID::AddRecord => if b.len() >= 8 {
            let t = b[5] as int;
            let n = from_be16(b[6], b[7]) as int;
            let ts = b.subrange(8, 8 + t);
            let ns = b.subrange(8 + t, 8 + t + n);
            if b.len() == 8 + t + n && valid_utf8(ts) && valid_utf8(ns) {
                Some(
                    MessageView::AddRecord {
                        recid: from_be32(b[0], b[1], b[2], b[3]),
                        atype: b[4],
                        rtype: decode_utf8(ts),
                        rname: decode_utf8(ns),
                    },
                )
            } else {
                None
            }
        } else {
            None
        },
        MessageID::AddInfo => if b.len() >= 7 {
            let k = b[4] as int;
            let n = from_be16(b[5], b[6]) as int;
            let ks = b.subrange(7, 7 + k);
            let vs = b.subrange(7 + k, 7 + k + n);
            if b.len() == 7 + k + n && valid_utf8(ks) && valid_utf8(vs) {
                Some(
                    MessageView::AddInfo {
                        recid: from_be32(b[0], b[1], b[2], b[3]),
                        key: decode_utf8(ks),
                        value: decode_utf8(vs),
                    },
                )
            } else {
                None
            }
        } else {
            None
        },
    }
}

/// The message type whose discriminant is `v`.
pub open spec fn id_of(v: u16) -> MessageID
    recommends
        is_known_id(v),
{
    choose|m: MessageID| id_value(m) == v
}

/// What one decoding step makes of a buffer.
pub enum Decoded {
    /// The buffer does not yet hold a whole frame; nothing is consumed.
    NeedMore,
    /// The buffer starts with the frame of this message, of this many bytes.
    Frame(MessageView, nat),
    /// The buffer starts with something that is no frame.
    Failed(CodecError),
}

/// One decoding step on a buffer, read from its start.
pub open spec fn decode_spec(buf: Seq<u8>) -> Decoded {
    if buf.len() < HEADER_LEN {
        Decoded::NeedMore
    } else if magic_field(buf) != MSG_MAGIC_ID {
        Decoded::Failed(CodecError::BadMagic)
    } else if buf.len() < frame_len(buf) {
        Decoded::NeedMore
    } else if !is_known_id(msg_id_field(buf)) {
        Decoded::Failed(CodecError::UnknownMessageType)
    } else {
        match parse_body(id_of(msg_id_field(buf)), buf.subrange(HEADER_LEN as int, frame_len(buf))) {
            Some(m) => Decoded::Frame(m, frame_len(buf) as nat),
            None => Decoded::Failed(CodecError::MalformedBody),
        }
    }
}

/// The decoding step that an executable result stands for.
pub open spec fn decoded_of(r: Result<Option<(Message, usize)>, CodecError>) -> Decoded {
    match r {
        Ok(None) => Decoded::NeedMore,
        Ok(Some((m, n))) => Decoded::Frame(m@, n as nat),
        Err(e) => Decoded::Failed(e),
    }
}

/// Reading back the body of an encodable message gives the message.
pub proof fn lemma_parse_body_of(m: MessageView)
    requires
        encodable(m),
    ensures
        parse_body(m.kind(), body_of(m)) == Some(m),
{
    let b = body_of(m);
    match m {
        MessageView::AddRecord { recid, atype, rtype, rname } => {
            vstd::utf8::encode_utf8_valid_utf8(rtype);
            vstd::utf8::encode_utf8_valid_utf8(rname);
            vstd::utf8::encode_utf8_decode_utf8(rtype);
            vstd::utf8::encode_utf8_decode_utf8(rname);
            lemma_be32_round_trip(recid);
            lemma_be16_round_trip(utf8(rname).len() as u16);
            let t = utf8(rtype).len() as int;
            let n = utf8(rname).len() as int;
            assert(b[5] as int == t);
            assert(from_be16(b[6], b[7]) as int == n);
            assert(b.subrange(8, 8 + t) =~= utf8(rtype));
            assert(b.subrange(8 + t, 8 + t + n) =~= utf8(rname));
        },
        MessageView::AddInfo { recid, key, value } => {
            vstd::utf8::encode_utf8_valid_utf8(key);
            vstd::utf8::encode_utf8_valid_utf8(value);
            vstd::utf8::encode_utf8_decode_utf8(key);
            vstd::utf8::encode_utf8_decode_utf8(value);
            lemma_be32_round_trip(recid);
            lemma_be16_round_trip(utf8(value).len() as u16);
            let k = utf8(key).len() as int;
            let n = utf8(value).len() as int;
            assert(b[4] as int == k);
            assert(from_be16(b[5], b[6]) as int == n);
            assert(b.subrange(7, 7 + k) =~= utf8(key));
            assert(b.subrange(7 + k, 7 + k + n) =~= utf8(value));
        },
        MessageView::Ping { nonce } => lemma_be32_round_trip(nonce),
        MessageView::Pong { nonce } => lemma_be32_round_trip(nonce),
        MessageView::ClientGreet { serv_key } => lemma_be32_round_trip(serv_key),
        MessageView::DelRecord { recid } => lemma_be32_round_trip(recid),
        _ => {},
    }
}

/// The big-endian bytes of the value read from four bytes are those bytes.
pub proof fn lemma_from_be32_bytes(b: Seq<u8>)
    requires
        b.len() >= 4,
    ensures
        be32(from_be32(b[0], b[1], b[2], b[3])) == b.subrange(0, 4),
{
    let (w, x, y, z) = (b[0] as int, b[1] as int, b[2] as int, b[3] as int);
    let v = w * 0x100_0000 + x * 0x1_0000 + y * 256 + z;
    assert(from_be32(b[0], b[1], b[2], b[3]) as int == v);
    lemma_fundamental_div_mod_converse(v, 0x100_0000, w, x * 0x1_0000 + y * 256 + z);
    lemma_fundamental_div_mod_converse(v, 0x1_0000, w * 256 + x, y * 256 + z);
    lemma_fundamental_div_mod_converse(w * 256 + x, 256, w, x);
    lemma_fundamental_div_mod_converse(v, 256, w * 0x1_0000 + x * 256 + y, z);
    lemma_fundamental_div_mod_converse(w * 0x1_0000 + x * 256 + y, 256, w * 256 + x, y);
    assert(be32(from_be32(b[0], b[1], b[2], b[3])) =~= b.subrange(0, 4));
}

/// The big-endian bytes of the value read from two bytes are those bytes.
pub proof fn lemma_from_be16_bytes(a: u8, b: u8)
    ensures
        be16(from_be16(a, b)) == seq![a, b],
{
    assert(be16(from_be16(a, b)) =~= seq![a, b]);
}

/// A body that reads back as a message is exactly that message's body.
pub proof fn lemma_parse_body_exact(id: MessageID, b: Seq<u8>)
    requires
        parse_body(id, b) is Some,
    ensures
        encodable(parse_body(id, b)->0),
        parse_body(id, b)->0.kind() == id,
        body_of(parse_body(id, b)->0) == b,
{
    let v = parse_body(id, b)->0;
    match id {
        MessageID::AddRecord => {
            let t = b[5] as int;
            let n = from_be16(b[6], b[7]) as int;
            let ts = b.subrange(8, 8 + t);
            let ns = b.subrange(8 + t, 8 + t + n);
            vstd::utf8::decode_utf8_encode_utf8(ts);
            vstd::utf8::decode_utf8_encode_utf8(ns);
            lemma_from_be32_bytes(b);
            lemma_from_be16_bytes(b[6], b[7]);
            assert(body_of(v) =~= b);
        },
        MessageID::AddInfo => {
            let k = b[4] as int;
            let n = from_be16(b[5], b[6]) as int;
            let ks = b.subrange(7, 7 + k);
            let vs = b.subrange(7 + k, 7 + k + n);
            vstd::utf8::decode_utf8_encode_utf8(ks);
            vstd::utf8::decode_utf8_encode_utf8(vs);
            lemma_from_be32_bytes(b);
            lemma_from_be16_bytes(b[5], b[6]);
            assert(body_of(v) =~= b);
        },
        MessageID::ServerGreet | MessageID::UploadDone => {
            assert(body_of(v) =~= b);
        },
        _ => {
            lemma_from_be32_bytes(b);
            assert(body_of(v) =~= b);
        },
    }
}

/// Relies on std::str::from_utf8: it succeeds exactly on valid UTF-8, and the
/// string it returns consists of the given bytes.
#[verifier::external_body]
fn str_from_utf8(b: &[u8]) -> (r: Option<&str>)
    ensures
        r is Some <==> valid_utf8(b@),
        r matches Some(s) ==> s.spec_bytes() == b@,
{
    std::str::from_utf8(b).ok()
}

/// Reads the big-endian 16-bit value at `i`.
fn read_be16(b: &[u8], i: usize) -> (r: u16)
    requires
        i + 2 <= b@.len(),
    ensures
        r == from_be16(b@[i as int], b@[i + 1]),
{
    (b[i] as u16) * 256 + b[i + 1] as u16
}

/// Reads the big-endian 32-bit value at `i`.
fn read_be32(b: &[u8], i: usize) -> (r: u32)
    requires
        i + 4 <= b@.len(),
    ensures
        r == from_be32(b@[i as int], b@[i + 1], b@[i + 2], b@[i + 3]),
{
    (b[i] as u32) * 0x100_0000 + (b[i + 1] as u32) * 0x1_0000 + (b[i + 2] as u32) * 256
        + b[i + 3] as u32
}

/// Reads the UTF-8 string held by bytes `from..to`.
fn read_str(b: &[u8], from: usize, to: usize) -> (r: Option<String>)
    requires
        from <= to <= b@.len(),
    ensures
        r is Some <==> valid_utf8(b@.subrange(from as int, to as int)),
        r matches Some(s) ==> s@ == decode_utf8(b@.subrange(from as int, to as int)),
{
    let part = slice_subrange(b, from, to);
    match str_from_utf8(part) {
        Some(s) => {
            proof {
                vstd::utf8::encode_utf8_decode_utf8(s@);
            }
            Some(s.to_owned())
        },
        None => None,
    }
}

/// Appends the UTF-8 bytes of `s` to `v`.
fn push_str(v: &mut Vec<u8>, s: &String)
    ensures
        final(v)@ == old(v)@ + utf8(s@),
{
    let mut bytes = slice_to_vec(s.as_str().as_bytes());
    v.append(&mut bytes);
}

/// Byte length of the UTF-8 form of `s`.
fn utf8_len(s: &String) -> (r: usize)
    ensures
        r == utf8(s@).len(),
{
    s.as_str().as_bytes().len()
}

/// Reads the body of a message of type `id`.
pub fn parse_message(id: MessageID, body: &[u8]) -> (r: Option<Message>)
    ensures
        r is None ==> parse_body(id, body@) is None,
        r matches Some(m) ==> parse_body(id, body@) == Some(m@),
{
    let n = body.len();
    match id {
        MessageID::ServerGreet => if n == 0 {
            Some(Message::ServerGreet(ServerGreet))
        } else {
            None
        },
        MessageID::UploadDone => if n == 0 {
            Some(Message::UploadDone(UploadDone))
        } else {
            None
        },
        MessageID::Ping => if n == 4 {
            Some(Message::Ping(Ping { nonce: read_be32(body, 0) }))
        } else {
            None
        },
        MessageID::Pong => if n == 4 {
            Some(Message::Pong(Pong { nonce: read_be32(body, 0) }))
        } else {
            None
        },
        MessageID::ClientGreet => if n == 4 {
            Some(Message::ClientGreet(ClientGreet { serv_key: read_be32(body, 0) }))
        } else {
            None
        },
        MessageID::DelRecord => if n == 4 {
            Some(Message::DelRecord(DelRecord { recid: read_be32(body, 0) }))
        } else {
            None
        },
        MessageID::AddRecord => {
            if n < 8 {
                return None;
            }
            let t = body[5] as usize;
            let l = read_be16(body, 6) as usize;
            if n != 8 + t + l {
                return None;
            }
            let rtype = match read_str(body, 8, 8 + t) {
                Some(s) => s,
                None => return None,
            };
            let rname = match read_str(body, 8 + t, 8 + t + l) {
                Some(s) => s,
                None => return None,
            };
            Some(Message::AddRecord(AddRecord { recid: read_be32(body, 0), atype: body[4], rtype, rname }))
        },
        MessageID::AddInfo => {
            if n < 7 {
                return None;
            }
            let k = body[4] as usize;
            let l = read_be16(body, 5) as usize;
            if n != 7 + k + l {
                return None;
            }
            let key = match read_str(body, 7, 7 + k) {
                Some(s) => s,
                None => return None,
            };
            let value = match read_str(body, 7 + k, 7 + k + l) {
                Some(s) => s,
                None => return None,
            };
            Some(Message::AddInfo(AddInfo { recid: read_be32(body, 0), key, value }))
        },
    }
}

/// Decodes the frame at the start of `buf`: the message and the number of
/// bytes it takes, `None` while the frame is incomplete, or the error.
pub fn decode_frame(buf: &[u8]) -> (r: Result<Option<(Message, usize)>, CodecError>)
    ensures
        decoded_of(r) == decode_spec(buf@),
{
    if buf.len() < HEADER_LEN {
        return Ok(None);
    }
    if read_be16(buf, 0) != MSG_MAGIC_ID {
        return Err(CodecError::BadMagic);
    }
    let len = read_be32(buf, 4);
    if ((buf.len() - HEADER_LEN) as u64) < len as u64 {
        return Ok(None);
    }
    let total = HEADER_LEN + len as usize;
    let id = match MessageID::from_u16(read_be16(buf, 2)) {
        Some(id) => id,
        None => return Err(CodecError::UnknownMessageType),
    };
    assert(id == id_of(msg_id_field(buf@)));
    let body = slice_subrange(buf, HEADER_LEN, total);
    match parse_message(id, body) {
        Some(m) => Ok(Some((m, total))),
        None => Err(CodecError::MalformedBody),
    }
}

/// Encodes the body of `m`; fails where a string does not fit its length field.
pub fn encode_body(m: &Message) -> (r: Result<Vec<u8>, CodecError>)
    ensures
        r is Ok <==> encodable(m@),
        r matches Ok(v) ==> v@ == body_of(m@),
        r matches Err(e) ==> e == CodecError::StringTooLong,
{
    let mut v: Vec<u8> = Vec::new();
    match m {
        Message::ServerGreet(_) | Message::UploadDone(_) => {},
        Message::Ping(p) => push_be32(&mut v, p.nonce),
        Message::Pong(p) => push_be32(&mut v, p.nonce),
        Message::ClientGreet(g) => push_be32(&mut v, g.serv_key),
        Message::DelRecord(d) => push_be32(&mut v, d.recid),
        Message::AddRecord(a) => {
            let t = utf8_len(&a.rtype);
            let n = utf8_len(&a.rname);
            if t > MAX_SHORT_STRING || n > MAX_LONG_STRING {
                return Err(CodecError::StringTooLong);
            }
            push_be32(&mut v, a.recid);
            v.push(a.atype);
            v.push(t as u8);
            push_be16(&mut v, n as u16);
            push_str(&mut v, &a.rtype);
            push_str(&mut v, &a.rname);
        },
        Message::AddInfo(i) => {
            let k = utf8_len(&i.key);
            let n = utf8_len(&i.value);
            if k > MAX_SHORT_STRING || n > MAX_LONG_STRING {
                return Err(CodecError::StringTooLong);
            }
            push_be32(&mut v, i.recid);
            v.push(k as u8);
            push_be16(&mut v, n as u16);
            push_str(&mut v, &i.key);
            push_str(&mut v, &i.value);
        },
    }
    assert(v@ =~= body_of(m@));
    Ok(v)
}

/// Encodes `m` as one complete frame: header, then body.
pub fn encode_message(m: &Message) -> (r: Result<Vec<u8>, CodecError>)
    ensures
        r is Ok <==> encodable(m@),
        r matches Ok(v) ==> v@ == frame_of(m@),
        r matches Err(e) ==> e == CodecError::StringTooLong,
{
    let mut body = match encode_body(m) {
        Ok(b) => b,
        Err(e) => return Err(e),
    };
    assert(body@.len() <= 8 + MAX_SHORT_STRING + MAX_LONG_STRING);
    let header = MessageHeader::new(m.message_id().to_u16(), body.len() as u32);
    let mut out = header.to_bytes();
    out.append(&mut body);
    Ok(out)
}

/// Any encodable message has a frame whose length field fits and whose
/// length is that of its body plus the header.
pub proof fn lemma_frame_shape(m: MessageView)
    requires
        encodable(m),
    ensures
        body_of(m).len() <= 8 + MAX_SHORT_STRING + MAX_LONG_STRING,
        frame_of(m).len() == HEADER_LEN + body_of(m).len(),
        frame_of(m).subrange(HEADER_LEN as int, frame_of(m).len() as int) == body_of(m),
{
    let f = frame_of(m);
    assert(f.subrange(HEADER_LEN as int, f.len() as int) =~= body_of(m));
}

/// What the header fields of a buffer starting with the frame of `m` read as.
proof fn lemma_frame_header_fields(m: MessageView, buf: Seq<u8>)
    requires
        encodable(m),
        buf.len() >= frame_of(m).len(),
        buf.subrange(0, frame_of(m).len() as int) == frame_of(m),
    ensures
        buf.len() >= HEADER_LEN,
        magic_field(buf) == MSG_MAGIC_ID,
        msg_id_field(buf) == id_value(m.kind()),
        frame_len(buf) == frame_of(m).len(),
        buf.subrange(HEADER_LEN as int, frame_len(buf)) == body_of(m),
{
    let f = frame_of(m);
    lemma_frame_shape(m);
    lemma_be16_round_trip(MSG_MAGIC_ID);
    lemma_be16_round_trip(id_value(m.kind()));
    lemma_be32_round_trip(body_of(m).len() as u32);
    assert(buf[0] == f[0] && buf[1] == f[1] && buf[2] == f[2] && buf[3] == f[3]);
    assert(buf[4] == f[4] && buf[5] == f[5] && buf[6] == f[6] && buf[7] == f[7]);
    assert(buf.subrange(HEADER_LEN as int, f.len() as int) =~= f.subrange(HEADER_LEN as int, f.len() as int));
}

/// Round trip: decoding a buffer that starts with the frame of an encodable
/// message yields that message and consumes exactly its frame, whatever follows.
pub proof fn lemma_round_trip(m: MessageView, rest: Seq<u8>)
    requires
        encodable(m),
    ensures
        decode_spec(frame_of(m) + rest) == Decoded::Frame(m, frame_of(m).len()),
{
    let buf = frame_of(m) + rest;
    assert(buf.subrange(0, frame_of(m).len() as int) =~= frame_of(m));
    lemma_frame_header_fields(m, buf);
    assert(id_value(m.kind()) == msg_id_field(buf));
    assert(is_known_id(msg_id_field(buf)));
    lemma_id_value_injective(id_of(msg_id_field(buf)), m.kind());
    lemma_parse_body_of(m);
}

/// Distinct message types have distinct discriminants.
pub proof fn lemma_id_value_injective(a: MessageID, b: MessageID)
    requires
        id_value(a) == id_value(b),
    ensures
        a == b,
{
}

/// A decoded frame is exactly the frame of the decoded message.
pub proof fn lemma_decoded_frame_exact(buf: Seq<u8>)
    requires
        decode_spec(buf) is Frame,
    ensures
        encodable(decode_spec(buf)->Frame_0),
        decode_spec(buf)->Frame_1 <= buf.len(),
        frame_of(decode_spec(buf)->Frame_0) == buf.subrange(0, decode_spec(buf)->Frame_1 as int),
{
    let m = decode_spec(buf)->Frame_0;
    let id = id_of(msg_id_field(buf));
    let body = buf.subrange(HEADER_LEN as int, frame_len(buf));
    lemma_parse_body_exact(id, body);
    lemma_from_be16_bytes(buf[0], buf[1]);
    lemma_from_be16_bytes(buf[2], buf[3]);
    lemma_from_be32_bytes(buf.subrange(4, 8));
    assert(buf.subrange(4, 8).subrange(0, 4) =~= buf.subrange(4, 8));
    assert(frame_of(m) =~= buf.subrange(0, frame_len(buf)));
}

/// Partial input: every proper prefix of a frame asks for more input, so no
/// byte is consumed before the whole frame has arrived.
pub proof fn lemma_partial_frame(m: MessageView, i: int)
    requires
        encodable(m),
        0 <= i < frame_of(m).len(),
    ensures
        decode_spec(frame_of(m).subrange(0, i)) == Decoded::NeedMore,
{
    let f = frame_of(m);
    let p = f.subrange(0, i);
    if i >= HEADER_LEN {
        assert(f.subrange(0, f.len() as int) =~= f);
        lemma_frame_header_fields(m, f);
        assert(p[0] == f[0] && p[1] == f[1] && p[4] == f[4] && p[5] == f[5]);
        assert(p[6] == f[6] && p[7] == f[7]);
    }
}

/// Splitting a frame in two at any point: the first part asks for more input,
/// and the first part followed by the second decodes to the message.
pub proof fn lemma_split_frame(m: MessageView, i: int)
    requires
        encodable(m),
        0 <= i <= frame_of(m).len(),
    ensures
        i < frame_of(m).len() ==> decode_spec(frame_of(m).subrange(0, i)) == Decoded::NeedMore,
        decode_spec(frame_of(m).subrange(0, i) + frame_of(m).subrange(i, frame_of(m).len() as int))
            == Decoded::Frame(m, frame_of(m).len()),
{
    let f = frame_of(m);
    if i < f.len() {
        lemma_partial_frame(m, i);
    }
    assert(f.subrange(0, i) + f.subrange(i, f.len() as int) =~= f + Seq::<u8>::empty());
    lemma_round_trip(m, Seq::empty());
}

/// A buffer whose first two bytes are not the magic identifier fails with
/// `BadMagic` once a header's worth has arrived, and keeps failing however
/// much more input follows.
pub proof fn lemma_bad_magic(buf: Seq<u8>, more: Seq<u8>)
    requires
        buf.len() >= HEADER_LEN,
        magic_field(buf) != MSG_MAGIC_ID,
    ensures
        decode_spec(buf) == Decoded::Failed(CodecError::BadMagic),
        decode_spec(buf + more) == Decoded::Failed(CodecError::BadMagic),
{
    let b2 = buf + more;
    assert(b2[0] == buf[0] && b2[1] == buf[1]);
}

/// A whole frame whose type field names no message type fails with
/// `UnknownMessageType`.
pub proof fn lemma_unknown_type(buf: Seq<u8>)
    requires
        holds_frame(buf),
        !is_known_id(msg_id_field(buf)),
    ensures
        decode_spec(buf) == Decoded::Failed(CodecError::UnknownMessageType),
{
}

} // verus!
