use bytes::BytesMut;
use reccaster::codec::{decode_frame, encode_message, CodecError};
use reccaster::header::{MessageHeader, MSG_MAGIC_ID};
use reccaster::stream::MessageCodec;
use reccaster::types::{
    AddInfo, AddRecord, ClientGreet, DelRecord, Message, MessageID, Ping, Pong, ServerGreet,
    UploadDone, ATYPE_ALIAS, ATYPE_RECORD,
};

fn all_messages() -> Vec<Message> {
    vec![
        Message::ServerGreet(ServerGreet),
        Message::ClientGreet(ClientGreet { serv_key: 0xDEADBEEF }),
        Message::Ping(Ping { nonce: 7 }),
        Message::Pong(Pong { nonce: 0xFFFF_FFFF }),
        Message::AddRecord(AddRecord {
            recid: 100,
            atype: ATYPE_RECORD,
            rtype: "ai".to_string(),
            rname: "DEV:AI:1".to_string(),
        }),
        Message::AddRecord(AddRecord {
            recid: 101,
            atype: ATYPE_ALIAS,
            rtype: "bo".to_string(),
            rname: "DEV:ALIAS:é".to_string(),
        }),
        Message::DelRecord(DelRecord { recid: 42 }),
        Message::UploadDone(UploadDone),
        Message::AddInfo(AddInfo { recid: 100, key: "desc".to_string(), value: "a value".to_string() }),
        Message::AddInfo(AddInfo { recid: 3, key: String::new(), value: String::new() }),
    ]
}

fn round_trip(m: &Message) {
    let bytes = encode_message(m).unwrap();
    let (back, used) = decode_frame(&bytes).unwrap().unwrap();
    assert_eq!(&back, m);
    assert_eq!(used, bytes.len());
}

#[test]
fn round_trip_every_variant() {
    for m in all_messages() {
        round_trip(&m);
    }
}

#[test]
fn round_trip_maximum_lengths() {
    let m = Message::AddRecord(AddRecord {
        recid: 1,
        atype: ATYPE_RECORD,
        rtype: "t".repeat(255),
        rname: "n".repeat(65535),
    });
    round_trip(&m);
    let m = Message::AddInfo(AddInfo { recid: 2, key: "k".repeat(255), value: "v".repeat(65535) });
    round_trip(&m);
}

#[test]
fn string_too_long_is_refused() {
    let m = Message::AddRecord(AddRecord {
        recid: 1,
        atype: ATYPE_RECORD,
        rtype: "t".repeat(256),
        rname: "n".to_string(),
    });
    assert_eq!(encode_message(&m), Err(CodecError::StringTooLong));
    let m = Message::AddInfo(AddInfo { recid: 2, key: "k".to_string(), value: "v".repeat(65536) });
    assert_eq!(encode_message(&m), Err(CodecError::StringTooLong));
    let mut codec = MessageCodec;
    let mut dst = BytesMut::new();
    assert_eq!(codec.encode(m, &mut dst), Err(CodecError::StringTooLong));
    assert!(dst.is_empty());
}

#[test]
fn encoded_bytes_are_big_endian() {
    let bytes = encode_message(&Message::ClientGreet(ClientGreet { serv_key: 0x01020304 })).unwrap();
    assert_eq!(bytes, vec![0x52, 0x43, 0x00, 0x01, 0, 0, 0, 4, 1, 2, 3, 4]);
    let bytes = encode_message(&Message::ServerGreet(ServerGreet)).unwrap();
    assert_eq!(bytes, vec![0x52, 0x43, 0x80, 0x01, 0, 0, 0, 0]);
    let bytes = encode_message(&Message::AddRecord(AddRecord {
        recid: 100,
        atype: ATYPE_ALIAS,
        rtype: "ai".to_string(),
        rname: "X".to_string(),
    }))
    .unwrap();
    assert_eq!(
        bytes,
        vec![0x52, 0x43, 0x00, 0x03, 0, 0, 0, 11, 0, 0, 0, 100, 1, 2, 0, 1, b'a', b'i', b'X']
    );
    let bytes = encode_message(&Message::AddInfo(AddInfo {
        recid: 5,
        key: "k".to_string(),
        value: "vv".to_string(),
    }))
    .unwrap();
    assert_eq!(bytes, vec![0x52, 0x43, 0x00, 0x06, 0, 0, 0, 10, 0, 0, 0, 5, 1, 0, 2, b'k', b'v', b'v']);
}

#[test]
fn header_bytes() {
    let h = MessageHeader::new(0x8002, 4);
    assert_eq!(h.id, MSG_MAGIC_ID);
    assert_eq!(h.to_bytes(), vec![0x52, 0x43, 0x80, 0x02, 0, 0, 0, 4]);
    assert_eq!(&h.as_bytes()[..], &[0x52, 0x43, 0x80, 0x02, 0, 0, 0, 4]);
}

#[test]
fn message_id_values() {
    assert_eq!(MessageID::from_u16(0x8001), Some(MessageID::ServerGreet));
    assert_eq!(MessageID::from_u16(0x0006), Some(MessageID::AddInfo));
    assert_eq!(MessageID::from_u16(0x0007), None);
    assert_eq!(MessageID::Ping.to_u16(), 0x8002);
    assert_eq!(MessageID::UploadDone.to_u16(), 0x0005);
}

#[test]
fn split_at_every_boundary() {
    for m in all_messages() {
        let frame = encode_message(&m).unwrap();
        for i in 0..=frame.len() {
            let mut codec = MessageCodec;
            let mut buf = BytesMut::new();
            buf.extend_from_slice(&frame[..i]);
            if i < frame.len() {
                assert_eq!(codec.decode(&mut buf), Ok(None));
                assert_eq!(buf.len(), i);
            }
            buf.extend_from_slice(&frame[i..]);
            assert_eq!(codec.decode(&mut buf), Ok(Some(m.clone())));
            assert!(buf.is_empty());
        }
    }
}

#[test]
fn codec_decodes_consecutive_frames() {
    let mut codec = MessageCodec;
    let mut buf = BytesMut::new();
    let a = Message::Ping(Ping { nonce: 1 });
    let b = Message::UploadDone(UploadDone);
    codec.encode(a.clone(), &mut buf).unwrap();
    codec.encode(b.clone(), &mut buf).unwrap();
    assert_eq!(codec.decode(&mut buf), Ok(Some(a)));
    assert_eq!(codec.decode(&mut buf), Ok(Some(b)));
    assert_eq!(codec.decode(&mut buf), Ok(None));
}

#[test]
fn bad_magic_is_unrecoverable() {
    let mut frame = encode_message(&Message::Ping(Ping { nonce: 9 })).unwrap();
    frame[0] = b'X';
    frame[1] = b'Y';
    assert_eq!(decode_frame(&frame), Err(CodecError::BadMagic));
    let mut codec = MessageCodec;
    let mut buf = BytesMut::new();
    buf.extend_from_slice(&frame);
    assert_eq!(codec.decode(&mut buf), Err(CodecError::BadMagic));
    assert_eq!(buf.len(), frame.len());
    buf.extend_from_slice(&encode_message(&Message::UploadDone(UploadDone)).unwrap());
    assert_eq!(codec.decode(&mut buf), Err(CodecError::BadMagic));
}

#[test]
fn unknown_discriminant_is_an_error() {
    let frame = vec![0x52, 0x43, 0x12, 0x34, 0, 0, 0, 1, 0xAA];
    assert_eq!(decode_frame(&frame), Err(CodecError::UnknownMessageType));
    let incomplete = vec![0x52, 0x43, 0x12, 0x34, 0, 0, 0, 2, 0xAA];
    assert_eq!(decode_frame(&incomplete), Ok(None));
}

#[test]
fn malformed_bodies_are_errors() {
    // a ping body of three bytes
    assert_eq!(decode_frame(&[0x52, 0x43, 0x80, 0x02, 0, 0, 0, 3, 1, 2, 3]), Err(CodecError::MalformedBody));
    // a server greeting with a body
    assert_eq!(decode_frame(&[0x52, 0x43, 0x80, 0x01, 0, 0, 0, 1, 0]), Err(CodecError::MalformedBody));
    // an AddRecord whose name length reads past the body
    assert_eq!(
        decode_frame(&[0x52, 0x43, 0x00, 0x03, 0, 0, 0, 10, 0, 0, 0, 1, 0, 1, 0, 5, b'a', b'b']),
        Err(CodecError::MalformedBody)
    );
    // an AddInfo key that is not UTF-8
    assert_eq!(
        decode_frame(&[0x52, 0x43, 0x00, 0x06, 0, 0, 0, 8, 0, 0, 0, 1, 1, 0, 0, 0xFF]),
        Err(CodecError::MalformedBody)
    );
}

#[test]
fn short_input_needs_more() {
    assert_eq!(decode_frame(&[]), Ok(None));
    assert_eq!(decode_frame(&[0x52, 0x43, 0x80]), Ok(None));
}
