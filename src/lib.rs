//! Client side of a record-registration protocol: wire messages, their binary
//! framing, discovery announcements and the connection state machine that
//! drives a session with a registry server.

pub mod types;
pub mod header;
pub mod codec;
pub mod buffer;
pub mod stream;
pub mod announcement;
pub mod record;
pub mod caster;
