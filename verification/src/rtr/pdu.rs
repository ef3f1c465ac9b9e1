//! Protocol data units.

use vstd::prelude::*;
use crate::payload::{Family, Vrp};

verus! {

/// The highest protocol version served.
pub const MAX_VERSION: u8 = 1;

/// Error code: the data received cannot be read.
pub const ERR_CORRUPT_DATA: u16 = 0;

/// Error code: the request is not one a cache answers.
pub const ERR_INVALID_REQUEST: u16 = 3;

/// Error code: the protocol version is not served.
pub const ERR_UNSUPPORTED_VERSION: u16 = 4;

/// Error code: the type of the data unit is not known.
pub const ERR_UNSUPPORTED_PDU: u16 = 5;

/// Error code: the protocol version differs from the one negotiated.
pub const ERR_UNEXPECTED_VERSION: u16 = 8;

/// What a client can do wrong.
#[derive(Clone, Copy, Debug, PartialEq, Eq, Structural)]
pub enum RtrProtocolError {
    /// What was read is no data unit; `code` says why.
    MalformedPdu { code: u16 },
    /// The data unit is none that a cache answers.
    InvalidRequest,
    /// The protocol version is not served.
    UnsupportedVersion,
    /// The protocol version differs from the one the first query fixed.
    UnexpectedVersion,
    /// The session id differs from the one of the established session.
    SessionMismatch,
}

/// The error code that reports an error.
pub open spec fn error_code(e: RtrProtocolError) -> u16 {
    match e {
        RtrProtocolError::MalformedPdu { code } => code,
        RtrProtocolError::InvalidRequest => ERR_INVALID_REQUEST,
        RtrProtocolError::UnsupportedVersion => ERR_UNSUPPORTED_VERSION,
        RtrProtocolError::UnexpectedVersion => ERR_UNEXPECTED_VERSION,
        RtrProtocolError::SessionMismatch => ERR_CORRUPT_DATA,
    }
}

impl RtrProtocolError {
    /// The error code that reports the error.
    pub fn code(&self) -> (r: u16)
        ensures
            r == error_code(*self),
    {
        match self {
            RtrProtocolError::MalformedPdu { code } => *code,
            RtrProtocolError::InvalidRequest => ERR_INVALID_REQUEST,
            RtrProtocolError::UnsupportedVersion => ERR_UNSUPPORTED_VERSION,
            RtrProtocolError::UnexpectedVersion => ERR_UNEXPECTED_VERSION,
            RtrProtocolError::SessionMismatch => ERR_CORRUPT_DATA,
        }
    }
}

/// The intervals a cache announces to its clients, in seconds.
#[derive(Clone, Copy, Debug, PartialEq, Eq, Structural)]
pub struct Timing {
    pub refresh: u32,
    pub retry: u32,
    pub expire: u32,
}

/// A protocol data unit, without the version it is sent under.
#[derive(Clone, Copy, Debug, PartialEq, Eq, Structural)]
#[allow(inconsistent_fields)]
pub enum Pdu {
    SerialNotify { session: u16, serial: u32 },
    SerialQuery { session: u16, serial: u32 },
    ResetQuery,
    CacheResponse { session: u16 },
    Ipv4Prefix { announce: bool, prefix_len: u8, max_len: u8, addr: u32, asn: u32 },
    Ipv6Prefix { announce: bool, prefix_len: u8, max_len: u8, addr: u128, asn: u32 },
    EndOfData { session: u16, serial: u32, timing: Timing },
    CacheReset,
    ErrorReport { code: u16 },
}

/// The low 32 bits of an address.
pub open spec fn low32(addr: u128) -> u32 {
    (addr & 0xffff_ffff) as u32
}

/// The prefix unit that announces or withdraws a payload.
pub open spec fn prefix_pdu(v: Vrp, announce: bool) -> Pdu {
    match v.prefix.family {
        Family::V4 => Pdu::Ipv4Prefix {
            announce,
            prefix_len: v.prefix.len,
            max_len: v.max_len,
            addr: low32(v.prefix.addr),
            asn: v.asn,
        },
        Family::V6 => Pdu::Ipv6Prefix {
            announce,
            prefix_len: v.prefix.len,
            max_len: v.max_len,
            addr: v.prefix.addr,
            asn: v.asn,
        },
    }
}

/// The prefix units for a list of payloads, in order.
pub open spec fn prefix_pdus(list: Seq<Vrp>, announce: bool) -> Seq<Pdu> {
    list.map_values(|v: Vrp| prefix_pdu(v, announce))
}

/// Computes `prefix_pdu`.
pub fn make_prefix_pdu(v: &Vrp, announce: bool) -> (r: Pdu)
    ensures
        r == prefix_pdu(*v, announce),
{
    match v.prefix.family {
        Family::V4 => {
            let addr: u128 = v.prefix.addr;
            let low: u128 = addr & 0xffff_ffff;
            assert(low <= 0xffff_ffff) by (bit_vector)
                requires
                    low == addr & 0xffff_ffff,
            ;
            Pdu::Ipv4Prefix {
                announce,
                prefix_len: v.prefix.len,
                max_len: v.max_len,
                addr: low as u32,
                asn: v.asn,
            }
        },
        Family::V6 => Pdu::Ipv6Prefix {
            announce,
            prefix_len: v.prefix.len,
            max_len: v.max_len,
            addr: v.prefix.addr,
            asn: v.asn,
        },
    }
}

/// Puts the prefix units for `list` behind `out`.
pub fn push_prefix_pdus(out: &mut Vec<Pdu>, list: &Vec<Vrp>, announce: bool)
    ensures
        final(out)@ == old(out)@ + prefix_pdus(list@, announce),
{
    let mut i: usize = 0;
    while i < list.len()
        invariant
            i <= list.len(),
            out@ == old(out)@ + prefix_pdus(list@.take(i as int), announce),
        decreases list.len() - i,
    {
        let p = make_prefix_pdu(&list[i], announce);
        out.push(p);
        assert(list@.take(i + 1) =~= list@.take(i as int).push(list@[i as int]));
        assert(out@ =~= old(out)@ + prefix_pdus(list@.take(i + 1), announce));
        i += 1;
    }
    assert(list@.take(i as int) =~= list@);
}

} // verus!
