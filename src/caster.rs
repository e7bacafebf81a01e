use vstd::prelude::*;
use crate::announcement::{
    announced_addr, announcement_error, parse_announcement_message, Announcement, IpAddress,
};
use crate::header::{from_be16, from_be32, MSG_MAGIC_ID};
use crate::record::Record;
use crate::types::{
    AddInfo, AddRecord, AddRecordType, ClientGreet, Message, MessageView, Pong, UploadDone, ATYPE_ALIAS,
    ATYPE_RECORD,
};

verus! {

/// Identifier of the first record of an upload; lower ones are reserved.
pub const FIRST_RECORD_ID: u32 = 100;

/// Most records one catalog may hold, so that every identifier fits 32 bits.
pub const MAX_RECORDS: usize = 0xFFFF_FF00;

/// Where the client stands in its session with a registry server.
#[derive(Debug, Clone, Copy, PartialEq, Eq)]
pub enum CasterState {
    /// Waiting for a server's announcement.
    Discovering,
    /// Connecting to the announced server and waiting for its greeting.
    Handshaking(Announcement),
    /// Sending the record catalog.
    Uploading,
    /// Answering the server's keepalive pings.
    KeepingAlive,
}

/// What the surrounding I/O reports to the state machine.
#[derive(Debug, Clone, PartialEq, Eq)]
pub enum Event {
    /// A datagram arrived on the discovery socket.
    Datagram { data: Vec<u8>, src: IpAddress },
    /// The discovery socket had nothing to read after all.
    ReceiveWouldBlock,
    /// Reading the discovery socket failed.
    ReceiveFailed,
    /// The connection to the announced server could not be opened.
    ConnectFailed,
    /// A whole message arrived on the connection.
    Received(Message),
    /// What arrived on the connection could not be decoded.
    DecodeFailed,
    /// The server closed the connection.
    StreamClosed,
    /// Sending on the connection failed.
    SendFailed,
    /// Every message of the upload was sent.
    UploadSent,
}

/// Whether `a` is the announcement that datagram `d` from `src` carries.
pub open spec fn announces(a: Announcement, d: Seq<u8>, src: IpAddress) -> bool {
    &&& a.id == MSG_MAGIC_ID
    &&& a.server_addr@ == announced_addr(d, src)
    &&& a.server_port == from_be16(d[8], d[9])
    &&& a.server_key == from_be32(d[12], d[13], d[14], d[15])
}

/// One transition: in state `s` on event `e` the machine moves to `t` and
/// sends `out`, in that order.
pub open spec fn step_spec(s: CasterState, e: Event, t: CasterState, out: Seq<MessageView>) -> bool {
    match s {
        CasterState::Discovering => out.len() == 0 && match e {
            Event::Datagram { data, src } => if announcement_error(data@, src) is None {
                t matches CasterState::Handshaking(a) && announces(a, data@, src)
            } else {
                t is Discovering
            },
            _ => t is Discovering,
        },
        CasterState::Handshaking(a) => match e {
            Event::Received(Message::ServerGreet(_)) => t is Uploading && out == seq![
                MessageView::ClientGreet { serv_key: a.server_key },
            ],
            _ => t is Discovering && out.len() == 0,
        },
        CasterState::Uploading => out.len() == 0 && match e {
            Event::UploadSent => t is KeepingAlive,
            _ => t is Discovering,
        },
        CasterState::KeepingAlive => match e {
            Event::Received(Message::Ping(p)) => t is KeepingAlive && out == seq![
                MessageView::Pong { nonce: p.nonce },
            ],
            _ => t is Discovering && out.len() == 0,
        },
    }
}

/// The views of a sequence of messages.
pub open spec fn views(ms: Seq<Message>) -> Seq<MessageView> {
    Seq::new(ms.len(), |i: int| ms[i]@)
}

/// The AddInfo messages of the first `n` properties of `r`, under identifier `id`.
pub open spec fn info_messages(r: Record, id: u32, n: int) -> Seq<MessageView> {
    Seq::new(
        n as nat,
        |j: int|
            MessageView::AddInfo { recid: id, key: r.properties@[j].0@, value: r.properties@[j].1@ },
    )
}

/// The AddRecord messages of `r` under identifier `id`: the record, then its alias.
pub open spec fn add_messages(r: Record, id: u32) -> Seq<MessageView> {
    seq![MessageView::AddRecord { recid: id, atype: ATYPE_RECORD, rtype: r.rtype@, rname: r.name@ }]
        + match r.alias {
        Some(a) => seq![MessageView::AddRecord { recid: id, atype: ATYPE_ALIAS, rtype: r.rtype@, rname: a@ }],
        None => Seq::empty(),
    }
}

/// Everything uploaded for `r` under identifier `id`.
pub open spec fn record_messages(r: Record, id: u32) -> Seq<MessageView> {
    add_messages(r, id) + info_messages(r, id, r.properties@.len() as int)
}

/// The messages uploaded for the first `n` records of `rs`.
pub open spec fn upload_prefix(rs: Seq<Record>, n: nat) -> Seq<MessageView>
    decreases n,
{
    if n == 0 {
        Seq::empty()
    } else {
        upload_prefix(rs, (n - 1) as nat) + record_messages(rs[n - 1], (FIRST_RECORD_ID + n - 1) as u32)
    }
}

/// The whole upload of catalog `rs`: each record in order under its
/// identifier, then UploadDone.
pub open spec fn upload_spec(rs: Seq<Record>) -> Seq<MessageView> {
    upload_prefix(rs, rs.len()) + seq![MessageView::UploadDone]
}

/// The messages that upload `records`, in the order in which they are sent.
pub fn upload_messages(records: &Vec<Record>) -> (r: Vec<Message>)
    requires
        records@.len() <= MAX_RECORDS,
    ensures
        views(r@) == upload_spec(records@),
{
    let mut out: Vec<Message> = Vec::new();
    let mut i: usize = 0;
    while i < records.len()
        invariant
            0 <= i <= records@.len() <= MAX_RECORDS,
            views(out@) == upload_prefix(records@, i as nat),
        decreases records@.len() - i,
    {
        let rec = &records[i];
        let id: u32 = FIRST_RECORD_ID + i as u32;
        let ghost before = views(out@);
        out.push(
            Message::AddRecord(
                AddRecord { recid: id, atype: AddRecordType::Record.value(), rtype: rec.rtype.clone(), rname: rec.name.clone() },
            ),
        );
        match &rec.alias {
            Some(a) => {
                out.push(
                    Message::AddRecord(
                        AddRecord { recid: id, atype: AddRecordType::Alias.value(), rtype: rec.rtype.clone(), rname: a.clone() },
                    ),
                );
            },
            None => {},
        }
        assert(views(out@) =~= before + add_messages(*rec, id));
        let mut j: usize = 0;
        while j < rec.properties.len()
            invariant
                0 <= j <= rec.properties@.len(),
                views(out@) == before + add_messages(*rec, id) + info_messages(*rec, id, j as int),
            decreases rec.properties@.len() - j,
        {
            let ghost prev = views(out@);
            let key = rec.properties[j].0.clone();
            let value = rec.properties[j].1.clone();
            out.push(Message::AddInfo(AddInfo { recid: id, key, value }));
            assert(views(out@) =~= prev.push(
                MessageView::AddInfo { recid: id, key: rec.properties@[j as int].0@, value: rec.properties@[j as int].1@ },
            ));
            assert(info_messages(*rec, id, j + 1) =~= info_messages(*rec, id, j as int).push(
                MessageView::AddInfo { recid: id, key: rec.properties@[j as int].0@, value: rec.properties@[j as int].1@ },
            ));
            assert(views(out@) =~= before + add_messages(*rec, id) + info_messages(*rec, id, j + 1));
            j += 1;
        }
        assert(views(out@) =~= upload_prefix(records@, (i + 1) as nat));
        i += 1;
    }
    out.push(Message::UploadDone(UploadDone));
    assert(views(out@) =~= upload_spec(records@));
    out
}

/// The client's side of a session: the catalog it advertises and the state it
/// is in. The I/O around it reports events; the machine answers with the
/// messages to send and its next state.
pub struct Reccaster {
    pvs: Vec<Record>,
    state: CasterState,
}

impl Reccaster {
    /// The catalog this client advertises.
    pub closed spec fn records_view(&self) -> Seq<Record> {
        self.pvs@
    }

    /// The state the client is in.
    pub closed spec fn state_view(&self) -> CasterState {
        self.state
    }

    #[verifier::type_invariant]
    spec fn catalog_fits(&self) -> bool {
        self.pvs@.len() <= MAX_RECORDS
    }

    /// A client for catalog `records`, discovering its server.
    pub fn new(records: Vec<Record>) -> (r: Reccaster)
        requires
            records@.len() <= MAX_RECORDS,
        ensures
            r.records_view() == records@,
            r.state_view() == CasterState::Discovering,
    {
        Reccaster { pvs: records, state: CasterState::Discovering }
    }

    /// The state the client is in.
    pub fn state(&self) -> (r: CasterState)
        ensures
            r == self.state_view(),
    {
        self.state
    }

    /// The catalog this client advertises.
    pub fn records(&self) -> (r: &Vec<Record>)
        ensures
            r@ == self.records_view(),
    {
        &self.pvs
    }

    /// The messages of the upload that the Uploading state sends.
    pub fn upload(&self) -> (r: Vec<Message>)
        ensures
            views(r@) == upload_spec(self.records_view()),
    {
        proof {
            use_type_invariant(self);
        }
        upload_messages(&self.pvs)
    }

    /// Takes one event: moves to the next state and returns what to send.
    pub fn handle(&mut self, event: Event) -> (out: Vec<Message>)
        ensures
            step_spec(old(self).state_view(), event, final(self).state_view(), views(out@)),
            final(self).records_view() == old(self).records_view(),
    {
        proof {
            use_type_invariant(&*self);
        }
        let mut out: Vec<Message> = Vec::new();
        let next = match self.state {
            CasterState::Discovering => match event {
                Event::Datagram { data, src } => match parse_announcement_message(data.as_slice(), src) {
                    Ok(a) => CasterState::Handshaking(a),
                    Err(_) => CasterState::Discovering,
                },
                _ => CasterState::Discovering,
            },
            CasterState::Handshaking(a) => match event {
                Event::Received(Message::ServerGreet(_)) => {
                    out.push(Message::ClientGreet(ClientGreet { serv_key: a.server_key }));
                    assert(views(out@) =~= seq![MessageView::ClientGreet { serv_key: a.server_key }]);
                    CasterState::Uploading
                },
                _ => CasterState::Discovering,
            },
            CasterState::Uploading => match event {
                Event::UploadSent => CasterState::KeepingAlive,
                _ => CasterState::Discovering,
            },
            CasterState::KeepingAlive => match event {
                Event::Received(Message::Ping(p)) => {
                    out.push(Message::Pong(Pong { nonce: p.nonce }));
                    assert(views(out@) =~= seq![MessageView::Pong { nonce: p.nonce }]);
                    CasterState::KeepingAlive
                },
                _ => CasterState::Discovering,
            },
        };
        self.state = next;
        out
    }
}

/// Whether `e` reports that the I/O around the machine went wrong.
pub open spec fn is_failure(e: Event) -> bool {
    e is ReceiveFailed || e is ConnectFailed || e is DecodeFailed || e is StreamClosed
        || e is SendFailed
}

/// Resilience: whatever the state, a failure of the I/O (a connect that fails
/// while handshaking among them) sends nothing and returns to discovery.
pub proof fn lemma_failure_rediscovers(s: CasterState, e: Event, t: CasterState, out: Seq<MessageView>)
    requires
        is_failure(e),
        step_spec(s, e, t, out),
    ensures
        t is Discovering,
        out.len() == 0,
{
}

/// A ping while keeping alive is answered by exactly one pong carrying its
/// nonce, and the session stays alive.
pub proof fn lemma_ping_answered(p: crate::types::Ping, t: CasterState, out: Seq<MessageView>)
    requires
        step_spec(CasterState::KeepingAlive, Event::Received(Message::Ping(p)), t, out),
    ensures
        t is KeepingAlive,
        out.len() == 1,
        out[0] == (MessageView::Pong { nonce: p.nonce }),
{
}

/// Any message but a ping while keeping alive ends the session: nothing is
/// sent and the client returns to discovery.
pub proof fn lemma_non_ping_rediscovers(m: Message, t: CasterState, out: Seq<MessageView>)
    requires
        !(m is Ping),
        step_spec(CasterState::KeepingAlive, Event::Received(m), t, out),
    ensures
        t is Discovering,
        out.len() == 0,
{
}

} // verus!
