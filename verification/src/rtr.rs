//! The RPKI-to-Router protocol: its data units and the server side of a
//! session.

pub mod pdu;
pub mod session;
pub mod wire;
