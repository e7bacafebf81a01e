use reccaster::announcement::{Announcement, IpAddress};
use reccaster::caster::{upload_messages, CasterState, Event, Reccaster};
use reccaster::record::Record;
use reccaster::types::{
    AddInfo, AddRecord, ClientGreet, Message, Ping, Pong, ServerGreet, UploadDone, ATYPE_ALIAS,
    ATYPE_RECORD,
};

fn catalog() -> Vec<Record> {
    let mut first = Record::new("DEV:A".to_string(), "ai".to_string());
    first.alias = Some("DEV:A:ALIAS".to_string());
    first.set_property("k1".to_string(), "v1".to_string());
    first.set_property("k2".to_string(), "v2".to_string());
    let second = Record::new("DEV:B".to_string(), "bo".to_string());
    vec![first, second]
}

fn announcement() -> Announcement {
    Announcement { id: 0x5243, server_addr: [192, 0, 2, 1], server_port: 5064, server_key: 0xDEADBEEF }
}

fn datagram() -> Vec<u8> {
    vec![0x52, 0x43, 0, 0, 192, 0, 2, 1, 0x13, 0xC8, 0, 0, 0xDE, 0xAD, 0xBE, 0xEF]
}

#[test]
fn upload_order() {
    let msgs = upload_messages(&catalog());
    let expected = vec![
        Message::AddRecord(AddRecord { recid: 100, atype: ATYPE_RECORD, rtype: "ai".to_string(), rname: "DEV:A".to_string() }),
        Message::AddRecord(AddRecord { recid: 100, atype: ATYPE_ALIAS, rtype: "ai".to_string(), rname: "DEV:A:ALIAS".to_string() }),
        Message::AddInfo(AddInfo { recid: 100, key: "k1".to_string(), value: "v1".to_string() }),
        Message::AddInfo(AddInfo { recid: 100, key: "k2".to_string(), value: "v2".to_string() }),
        Message::AddRecord(AddRecord { recid: 101, atype: ATYPE_RECORD, rtype: "bo".to_string(), rname: "DEV:B".to_string() }),
        Message::UploadDone(UploadDone),
    ];
    assert_eq!(msgs, expected);
}

#[test]
fn empty_catalog_uploads_only_done() {
    assert_eq!(upload_messages(&Vec::new()), vec![Message::UploadDone(UploadDone)]);
}

#[test]
fn set_property_replaces_existing_key() {
    let mut r = Record::new("N".to_string(), "ai".to_string());
    r.set_property("a".to_string(), "1".to_string());
    r.set_property("b".to_string(), "2".to_string());
    r.set_property("a".to_string(), "3".to_string());
    assert_eq!(
        r.properties,
        vec![("a".to_string(), "3".to_string()), ("b".to_string(), "2".to_string())]
    );
}

#[test]
fn full_session() {
    let mut c = Reccaster::new(catalog());
    assert_eq!(c.state(), CasterState::Discovering);
    assert!(c.handle(Event::ReceiveWouldBlock).is_empty());
    assert_eq!(c.state(), CasterState::Discovering);
    assert!(c.handle(Event::Datagram { data: datagram(), src: IpAddress::V4([10, 0, 0, 1]) }).is_empty());
    assert_eq!(c.state(), CasterState::Handshaking(announcement()));
    let out = c.handle(Event::Received(Message::ServerGreet(ServerGreet)));
    assert_eq!(out, vec![Message::ClientGreet(ClientGreet { serv_key: 0xDEADBEEF })]);
    assert_eq!(c.state(), CasterState::Uploading);
    assert_eq!(c.upload(), upload_messages(&catalog()));
    assert!(c.handle(Event::UploadSent).is_empty());
    assert_eq!(c.state(), CasterState::KeepingAlive);
}

#[test]
fn bad_datagram_keeps_discovering() {
    let mut c = Reccaster::new(catalog());
    let mut d = datagram();
    d[2] = 3;
    assert!(c.handle(Event::Datagram { data: d, src: IpAddress::V4([10, 0, 0, 1]) }).is_empty());
    assert_eq!(c.state(), CasterState::Discovering);
    c.handle(Event::ReceiveFailed);
    assert_eq!(c.state(), CasterState::Discovering);
}

fn handshaking() -> Reccaster {
    let mut c = Reccaster::new(catalog());
    c.handle(Event::Datagram { data: datagram(), src: IpAddress::V4([10, 0, 0, 1]) });
    c
}

fn keeping_alive() -> Reccaster {
    let mut c = handshaking();
    c.handle(Event::Received(Message::ServerGreet(ServerGreet)));
    c.handle(Event::UploadSent);
    c
}

#[test]
fn connect_failure_returns_to_discovering() {
    let mut c = handshaking();
    assert!(c.handle(Event::ConnectFailed).is_empty());
    assert_eq!(c.state(), CasterState::Discovering);
}

#[test]
fn unexpected_greeting_returns_to_discovering() {
    let mut c = handshaking();
    assert!(c.handle(Event::Received(Message::Ping(Ping { nonce: 1 }))).is_empty());
    assert_eq!(c.state(), CasterState::Discovering);
    let mut c = handshaking();
    c.handle(Event::StreamClosed);
    assert_eq!(c.state(), CasterState::Discovering);
}

#[test]
fn upload_send_failure_returns_to_discovering() {
    let mut c = handshaking();
    c.handle(Event::Received(Message::ServerGreet(ServerGreet)));
    c.handle(Event::SendFailed);
    assert_eq!(c.state(), CasterState::Discovering);
}

#[test]
fn ping_is_answered_with_pong() {
    let mut c = keeping_alive();
    let out = c.handle(Event::Received(Message::Ping(Ping { nonce: 77 })));
    assert_eq!(out, vec![Message::Pong(Pong { nonce: 77 })]);
    assert_eq!(c.state(), CasterState::KeepingAlive);
}

#[test]
fn non_ping_while_alive_returns_to_discovering() {
    let mut c = keeping_alive();
    assert!(c.handle(Event::Received(Message::ServerGreet(ServerGreet))).is_empty());
    assert_eq!(c.state(), CasterState::Discovering);
    let mut c = keeping_alive();
    c.handle(Event::DecodeFailed);
    assert_eq!(c.state(), CasterState::Discovering);
}
