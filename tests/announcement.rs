use reccaster::announcement::{parse_announcement_message, AnnouncementError, IpAddress};
use reccaster::header::MSG_MAGIC_ID;

fn datagram(addr: [u8; 4], port: u16, key: u32) -> Vec<u8> {
    let mut d = vec![0x52, 0x43, 0, 0];
    d.extend_from_slice(&addr);
    d.extend_from_slice(&port.to_be_bytes());
    d.extend_from_slice(&[0, 0]);
    d.extend_from_slice(&key.to_be_bytes());
    d
}

#[test]
fn parses_announcement() {
    let d = datagram([192, 0, 2, 1], 5064, 0xDEADBEEF);
    let a = parse_announcement_message(&d, IpAddress::V4([10, 0, 0, 1])).unwrap();
    assert_eq!(a.id, MSG_MAGIC_ID);
    assert_eq!(a.server_addr, [192, 0, 2, 1]);
    assert_eq!(a.server_port, 5064);
    assert_eq!(a.server_key, 0xDEADBEEF);
}

#[test]
fn short_datagram_is_too_short() {
    let d = datagram([192, 0, 2, 1], 5064, 1);
    assert_eq!(parse_announcement_message(&d[..15], IpAddress::V4([1, 2, 3, 4])), Err(AnnouncementError::TooShort));
    assert_eq!(parse_announcement_message(&[], IpAddress::V4([1, 2, 3, 4])), Err(AnnouncementError::TooShort));
}

#[test]
fn broadcast_address_takes_the_source() {
    let d = datagram([255, 255, 255, 255], 5064, 7);
    let a = parse_announcement_message(&d, IpAddress::V4([192, 0, 2, 9])).unwrap();
    assert_eq!(a.server_addr, [192, 0, 2, 9]);
    assert_eq!(a.server_port, 5064);
    assert_eq!(a.server_key, 7);
}

#[test]
fn broadcast_from_ipv6_is_unsupported() {
    let d = datagram([255, 255, 255, 255], 5064, 7);
    assert_eq!(
        parse_announcement_message(&d, IpAddress::V6([0, 0, 0, 0, 0, 0, 0, 1])),
        Err(AnnouncementError::UnsupportedAddressFamily)
    );
    let d = datagram([192, 0, 2, 1], 5064, 7);
    let a = parse_announcement_message(&d, IpAddress::V6([0, 0, 0, 0, 0, 0, 0, 1])).unwrap();
    assert_eq!(a.server_addr, [192, 0, 2, 1]);
}

#[test]
fn bad_magic_and_version() {
    let mut d = datagram([192, 0, 2, 1], 5064, 7);
    d[2] = 1;
    assert_eq!(parse_announcement_message(&d, IpAddress::V4([1, 2, 3, 4])), Err(AnnouncementError::UnsupportedVersion));
    d[0] = b'X';
    assert_eq!(parse_announcement_message(&d, IpAddress::V4([1, 2, 3, 4])), Err(AnnouncementError::BadMagic));
}

#[test]
fn reserved_bytes_are_ignored() {
    let mut d = datagram([192, 0, 2, 1], 80, 1);
    d[3] = 0xAA;
    d[10] = 0xBB;
    d[11] = 0xCC;
    d.extend_from_slice(&[1, 2, 3]);
    let a = parse_announcement_message(&d, IpAddress::V4([1, 2, 3, 4])).unwrap();
    assert_eq!(a.server_addr, [192, 0, 2, 1]);
    assert_eq!(a.server_port, 80);
    assert_eq!(a.server_key, 1);
}
