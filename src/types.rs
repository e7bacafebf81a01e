use vstd::prelude::*;

verus! {

/// Value of `AddRecord::atype` for a record.
pub const ATYPE_RECORD: u8 = 0;

/// Value of `AddRecord::atype` for an alias.
pub const ATYPE_ALIAS: u8 = 1;

/// AddRecord message type discriminant.
#[derive(Debug, Clone, Copy, PartialEq, Eq, Structural)]
pub enum AddRecordType {
    /// A regular record.
    Record,
    /// An alias for an existing record.
    Alias,
}

impl AddRecordType {
    pub open spec fn spec_value(self) -> u8 {
        match self {
            AddRecordType::Record => ATYPE_RECORD,
            AddRecordType::Alias => ATYPE_ALIAS,
        }
    }

    /// The byte that stands for this kind in an AddRecord body.
    pub fn value(self) -> (r: u8)
        ensures
            r == self.spec_value(),
    {
        match self {
            AddRecordType::Record => ATYPE_RECORD,
            AddRecordType::Alias => ATYPE_ALIAS,
        }
    }
}

/// Message type identifiers used in the wire protocol header.
#[derive(Debug, Clone, Copy, PartialEq, Eq, Structural)]
pub enum MessageID {
    /// Server greeting sent after a client connects.
    ServerGreet,
    /// Client greeting sent in response to a server greeting.
    ClientGreet,
    /// Keepalive ping sent by the server.
    Ping,
    /// Keepalive pong sent by the client in response to a ping.
    Pong,
    /// Adds a record to the server's database.
    AddRecord,
    /// Removes a record from the server's database.
    DelRecord,
    /// Signals that the client has finished uploading records.
    UploadDone,
    /// Attaches metadata to a record.
    AddInfo,
}

/// The discriminant of each message type on the wire.
pub open spec fn id_value(m: MessageID) -> u16 {
    match m {
        MessageID::ServerGreet => 0x8001,
        MessageID::ClientGreet => 0x0001,
        MessageID::Ping => 0x8002,
        MessageID::Pong => 0x0002,
        MessageID::AddRecord => 0x0003,
        MessageID::DelRecord => 0x0004,
        MessageID::UploadDone => 0x0005,
        MessageID::AddInfo => 0x0006,
    }
}

/// Whether `v` is the discriminant of some message type.
pub open spec fn is_known_id(v: u16) -> bool {
    exists|m: MessageID| id_value(m) == v
}

impl MessageID {
    /// The message type whose discriminant is `value`, if there is one.
    pub fn from_u16(value: u16) -> (r: Option<MessageID>)
        ensures
            r matches Some(m) ==> id_value(m) == value,
            r is None <==> !is_known_id(value),
    {
        let r = match value {
            0x8001 => Some(MessageID::ServerGreet),
            0x0001 => Some(MessageID::ClientGreet),
            0x8002 => Some(MessageID::Ping),
            0x0002 => Some(MessageID::Pong),
            0x0003 => Some(MessageID::AddRecord),
            0x0004 => Some(MessageID::DelRecord),
            0x0005 => Some(MessageID::UploadDone),
            0x0006 => Some(MessageID::AddInfo),
            _ => None,
        };
        proof {
            if r is None {
                assert forall|m: MessageID| id_value(m) != value by {
                    match m {
                        MessageID::ServerGreet => {},
                        _ => {},
                    }
                }
            }
        }
        r
    }

    /// The discriminant of this message type on the wire.
    pub fn to_u16(self) -> (r: u16)
        ensures
            r == id_value(self),
    {
        match self {
            MessageID::ServerGreet => 0x8001,
            MessageID::ClientGreet => 0x0001,
            MessageID::Ping => 0x8002,
            MessageID::Pong => 0x0002,
            MessageID::AddRecord => 0x0003,
            MessageID::DelRecord => 0x0004,
            MessageID::UploadDone => 0x0005,
            MessageID::AddInfo => 0x0006,
        }
    }
}

/// Server greeting payload (no additional fields).
#[derive(Debug, Clone, Copy, PartialEq, Eq, Structural)]
pub struct ServerGreet;

/// Keepalive ping payload.
#[derive(Debug, Clone, Copy, PartialEq, Eq, Structural)]
pub struct Ping {
    /// Nonce that the client must echo back in the Pong.
    pub nonce: u32,
}

/// Client greeting payload.
#[derive(Debug, Clone, Copy, PartialEq, Eq, Structural)]
pub struct ClientGreet {
    /// Server key received in the UDP announcement.
    pub serv_key: u32,
}

/// Keepalive pong payload.
#[derive(Debug, Clone, Copy, PartialEq, Eq, Structural)]
pub struct Pong {
    /// Nonce copied from the corresponding Ping.
    pub nonce: u32,
}

/// Payload for registering a record or alias on the server.
#[derive(Debug, Clone, PartialEq, Eq)]
pub struct AddRecord {
    /// Record identifier assigned by the client.
    pub recid: u32,
    /// Record kind (`ATYPE_RECORD` or `ATYPE_ALIAS`).
    pub atype: u8,
    /// Record type string (e.g. `"ai"`), at most 255 bytes.
    pub rtype: String,
    /// Record name or alias string, at most 65535 bytes.
    pub rname: String,
}

/// Payload for removing a previously registered record.
#[derive(Debug, Clone, Copy, PartialEq, Eq, Structural)]
pub struct DelRecord {
    /// Record identifier to remove.
    pub recid: u32,
}

/// Payload signalling that the client has finished uploading records.
#[derive(Debug, Clone, Copy, PartialEq, Eq, Structural)]
pub struct UploadDone;

/// Payload for attaching a key-value metadata entry to a record.
#[derive(Debug, Clone, PartialEq, Eq)]
pub struct AddInfo {
    /// Record identifier this info belongs to.
    pub recid: u32,
    /// Metadata key, at most 255 bytes.
    pub key: String,
    /// Metadata value, at most 65535 bytes.
    pub value: String,
}

/// All messages that can be exchanged over the wire.
#[derive(Debug, Clone, PartialEq, Eq)]
pub enum Message {
    /// Server greeting.
    ServerGreet(ServerGreet),
    /// Keepalive ping from the server.
    Ping(Ping),
    /// Client greeting.
    ClientGreet(ClientGreet),
    /// Keepalive pong from the client.
    Pong(Pong),
    /// Add a record or alias.
    AddRecord(AddRecord),
    /// Remove a record.
    DelRecord(DelRecord),
    /// Signal end of record upload.
    UploadDone(UploadDone),
    /// Attach metadata to a record.
    AddInfo(AddInfo),
}

/// Mathematical model of a message: strings are seen as their characters.
pub enum MessageView {
    ServerGreet,
    Ping { nonce: u32 },
    ClientGreet { serv_key: u32 },
    Pong { nonce: u32 },
    AddRecord { recid: u32, atype: u8, rtype: Seq<char>, rname: Seq<char> },
    DelRecord { recid: u32 },
    UploadDone,
    AddInfo { recid: u32, key: Seq<char>, value: Seq<char> },
}

impl View for Message {
    type V = MessageView;

    open spec fn view(&self) -> MessageView {
        match self {
            Message::ServerGreet(_) => MessageView::ServerGreet,
            Message::Ping(p) => MessageView::Ping { nonce: p.nonce },
            Message::ClientGreet(g) => MessageView::ClientGreet { serv_key: g.serv_key },
            Message::Pong(p) => MessageView::Pong { nonce: p.nonce },
            Message::AddRecord(a) => MessageView::AddRecord {
                recid: a.recid,
                atype: a.atype,
                rtype: a.rtype@,
                rname: a.rname@,
            },
            Message::DelRecord(d) => MessageView::DelRecord { recid: d.recid },
            Message::UploadDone(_) => MessageView::UploadDone,
            Message::AddInfo(i) => MessageView::AddInfo {
                recid: i.recid,
                key: i.key@,
                value: i.value@,
            },
        }
    }
}

impl MessageView {
    /// The message type of this message.
    pub open spec fn kind(self) -> MessageID {
        match self {
            MessageView::ServerGreet => MessageID::ServerGreet,
            MessageView::Ping { .. } => MessageID::Ping,
            MessageView::ClientGreet { .. } => MessageID::ClientGreet,
            MessageView::Pong { .. } => MessageID::Pong,
            MessageView::AddRecord { .. } => MessageID::AddRecord,
            MessageView::DelRecord { .. } => MessageID::DelRecord,
            MessageView::UploadDone => MessageID::UploadDone,
            MessageView::AddInfo { .. } => MessageID::AddInfo,
        }
    }
}

impl Message {
    /// The message type of this message.
    pub fn message_id(&self) -> (r: MessageID)
        ensures
            r == self@.kind(),
    {
        match self {
            Message::ServerGreet(_) => MessageID::ServerGreet,
            Message::Ping(_) => MessageID::Ping,
            Message::ClientGreet(_) => MessageID::ClientGreet,
            Message::Pong(_) => MessageID::Pong,
            Message::AddRecord(_) => MessageID::AddRecord,
            Message::DelRecord(_) => MessageID::DelRecord,
            Message::UploadDone(_) => MessageID::UploadDone,
            Message::AddInfo(_) => MessageID::AddInfo,
        }
    }
}

} // verus!
