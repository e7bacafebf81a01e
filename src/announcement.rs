use vstd::prelude::*;
use crate::header::{from_be16, from_be32, MSG_MAGIC_ID};

verus! {

/// Size in bytes of a discovery datagram; longer ones carry ignored bytes.
pub const ANNOUNCEMENT_LEN: usize = 16;

/// The only protocol version this client understands.
pub const PROTOCOL_VERSION: u8 = 0;

/// Well-known UDP port on which servers announce themselves.
pub const SERVER_ANNOUNCEMENT_UDP_PORT: u16 = 5049;

/// Address a datagram came from.
#[derive(Debug, Clone, Copy, PartialEq, Eq)]
pub enum IpAddress {
    /// An IPv4 address, as its four octets.
    V4([u8; 4]),
    /// An IPv6 address, as its eight segments.
    V6([u16; 8]),
}

/// A registry server's offer to accept a session, read from one datagram.
#[derive(Debug, Clone, Copy, PartialEq, Eq)]
pub struct Announcement {
    /// Magic ID identifying this as an announcement.
    pub id: u16,
    /// IPv4 address of the announcing server, as its four octets.
    pub server_addr: [u8; 4],
    /// TCP port the server is listening on.
    pub server_port: u16,
    /// Server-generated session key.
    pub server_key: u32,
}

/// Why a datagram is no usable announcement.
#[derive(Debug, Clone, Copy, PartialEq, Eq, Structural)]
pub enum AnnouncementError {
    /// Fewer than sixteen bytes.
    TooShort,
    /// The first two bytes are not the magic identifier.
    BadMagic,
    /// The version byte is not the supported version.
    UnsupportedVersion,
    /// The address must be taken from a source that is not IPv4.
    UnsupportedAddressFamily,
}

/// Whether four octets are the limited-broadcast address 255.255.255.255.
pub open spec fn is_broadcast(a: Seq<u8>) -> bool {
    a.len() == 4 && a[0] == 255 && a[1] == 255 && a[2] == 255 && a[3] == 255
}

/// The outcome of reading the datagram `d` that came from `src`: `None` where it is
/// an announcement, else the reason it is none.
pub open spec fn announcement_error(d: Seq<u8>, src: IpAddress) -> Option<AnnouncementError> {
    if d.len() < ANNOUNCEMENT_LEN {
        Some(AnnouncementError::TooShort)
    } else if from_be16(d[0], d[1]) != MSG_MAGIC_ID {
        Some(AnnouncementError::BadMagic)
    } else if d[2] != PROTOCOL_VERSION {
        Some(AnnouncementError::UnsupportedVersion)
    } else if is_broadcast(d.subrange(4, 8)) && src is V6 {
        Some(AnnouncementError::UnsupportedAddressFamily)
    } else {
        None
    }
}

/// The server address an announcement stands for: the one it carries, or the
/// datagram's source where it carries the broadcast address.
pub open spec fn announced_addr(d: Seq<u8>, src: IpAddress) -> Seq<u8> {
    if is_broadcast(d.subrange(4, 8)) {
        match src {
            IpAddress::V4(a) => a@,
            IpAddress::V6(_) => d.subrange(4, 8),
        }
    } else {
        d.subrange(4, 8)
    }
}

/// Reads a discovery datagram `data` received from `src_addr`.
pub fn parse_announcement_message(data: &[u8], src_addr: IpAddress) -> (r: Result<
    Announcement,
    AnnouncementError,
>)
    ensures
        announcement_error(data@, src_addr) matches Some(e) ==> r == Err::<Announcement, AnnouncementError>(e),
        announcement_error(data@, src_addr) is None ==> (r matches Ok(a) && a.id == MSG_MAGIC_ID
            && a.server_addr@ == announced_addr(data@, src_addr)
            && a.server_port == from_be16(data@[8], data@[9])
            && a.server_key == from_be32(data@[12], data@[13], data@[14], data@[15])),
{
    if data.len() < ANNOUNCEMENT_LEN {
        return Err(AnnouncementError::TooShort);
    }
    let id = (data[0] as u16) * 256 + data[1] as u16;
    if id != MSG_MAGIC_ID {
        return Err(AnnouncementError::BadMagic);
    }
    if data[2] != PROTOCOL_VERSION {
        return Err(AnnouncementError::UnsupportedVersion);
    }
    let mut server_addr: [u8; 4] = [data[4], data[5], data[6], data[7]];
    assert(server_addr@ =~= data@.subrange(4, 8));
    if data[4] == 255 && data[5] == 255 && data[6] == 255 && data[7] == 255 {
        match src_addr {
            IpAddress::V4(a) => {
                server_addr = a;
            },
            IpAddress::V6(_) => {
                return Err(AnnouncementError::UnsupportedAddressFamily);
            },
        }
    }
    let server_port = (data[8] as u16) * 256 + data[9] as u16;
    let server_key = (data[12] as u32) * 0x100_0000 + (data[13] as u32) * 0x1_0000
        + (data[14] as u32) * 256 + data[15] as u32;
    Ok(Announcement { id, server_addr, server_port, server_key })
}

} // verus!
