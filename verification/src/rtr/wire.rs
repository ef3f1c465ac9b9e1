//! The layout of data units on the wire: an eight-byte header of version,
//! type, a sixteen-bit field and the length of the whole unit, then the
//! body; all numbers with the most significant byte first.

use vstd::prelude::*;
use crate::rtr::pdu::{Pdu, Timing, ERR_CORRUPT_DATA, ERR_UNSUPPORTED_PDU};

verus! {

/// The two bytes of a number.
pub open spec fn be16(x: u16) -> Seq<u8> {
    seq![(x >> 8) as u8, (x & 0xff) as u8]
}

/// The four bytes of a number.
pub open spec fn be32(x: u32) -> Seq<u8> {
    seq![(x >> 24) as u8, ((x >> 16) & 0xff) as u8, ((x >> 8) & 0xff) as u8, (x & 0xff) as u8]
}

/// The sixteen bytes of a number.
pub open spec fn be128(x: u128) -> Seq<u8> {
    be32((x >> 96) as u32) + be32(((x >> 64) & 0xffff_ffff) as u32) + be32(
        ((x >> 32) & 0xffff_ffff) as u32,
    ) + be32((x & 0xffff_ffff) as u32)
}

/// The number that two bytes stand for.
pub open spec fn u16_of(a: u8, b: u8) -> u16 {
    ((a as u16) << 8) | (b as u16)
}

/// The number that four bytes stand for.
pub open spec fn u32_of(a: u8, b: u8, c: u8, d: u8) -> u32 {
    ((a as u32) << 24) | ((b as u32) << 16) | ((c as u32) << 8) | (d as u32)
}

/// The number that four words stand for.
pub open spec fn u128_of(a: u32, b: u32, c: u32, d: u32) -> u128 {
    ((a as u128) << 96) | ((b as u128) << 64) | ((c as u128) << 32) | (d as u128)
}

/// The number in the two bytes of `s` from `at` on.
pub open spec fn read16(s: Seq<u8>, at: int) -> u16 {
    u16_of(s[at], s[at + 1])
}

/// The number in the four bytes of `s` from `at` on.
pub open spec fn read32(s: Seq<u8>, at: int) -> u32 {
    u32_of(s[at], s[at + 1], s[at + 2], s[at + 3])
}

/// The number in the sixteen bytes of `s` from `at` on.
pub open spec fn read128(s: Seq<u8>, at: int) -> u128 {
    u128_of(read32(s, at), read32(s, at + 4), read32(s, at + 8), read32(s, at + 12))
}

/// The header of a unit.
pub open spec fn header(version: u8, kind: u8, field: u16, length: u32) -> Seq<u8> {
    seq![version, kind] + be16(field) + be32(length)
}

/// The flags, lengths and reserved byte that start the body of a prefix
/// unit.
pub open spec fn prefix_head(announce: bool, prefix_len: u8, max_len: u8) -> Seq<u8> {
    seq![if announce { 1u8 } else { 0u8 }, prefix_len, max_len, 0u8]
}

/// The bytes of a unit sent under `version`.  Under version 0 an end of
/// data carries no intervals.  An error report carries neither the unit it
/// is about nor a text.
pub open spec fn wire(version: u8, pdu: Pdu) -> Seq<u8> {
    match pdu {
        Pdu::SerialNotify { session, serial } => header(version, 0, session, 12) + be32(serial),
        Pdu::SerialQuery { session, serial } => header(version, 1, session, 12) + be32(serial),
        Pdu::ResetQuery => header(version, 2, 0, 8),
        Pdu::CacheResponse { session } => header(version, 3, session, 8),
        Pdu::Ipv4Prefix { announce, prefix_len, max_len, addr, asn } => header(version, 4, 0, 20)
            + prefix_head(announce, prefix_len, max_len) + be32(addr) + be32(asn),
        Pdu::Ipv6Prefix { announce, prefix_len, max_len, addr, asn } => header(version, 6, 0, 32)
            + prefix_head(announce, prefix_len, max_len) + be128(addr) + be32(asn),
        Pdu::EndOfData { session, serial, timing } => if version == 0 {
            header(version, 7, session, 12) + be32(serial)
        } else {
            header(version, 7, session, 24) + be32(serial) + be32(timing.refresh) + be32(
                timing.retry,
            ) + be32(timing.expire)
        },
        Pdu::CacheReset => header(version, 8, 0, 8),
        Pdu::ErrorReport { code } => header(version, 10, code, 16) + be32(0) + be32(0),
    }
}

/// What the start of a byte stream holds.
#[derive(Clone, Copy, Debug, PartialEq, Eq, Structural)]
pub enum Decoded {
    /// A unit under `version` in the first `used` bytes.
    Unit { version: u8, pdu: Pdu, used: usize },
    /// The start of a unit; the rest of it is still to come.
    Incomplete,
    /// No unit; `code` is the error code that says why.
    Invalid { code: u16 },
}

/// The length that the header of a unit of type `kind` must give, where
/// that is fixed.
pub open spec fn fixed_length(version: u8, kind: u8) -> Option<u32> {
    if kind == 0 || kind == 1 {
        Some(12u32)
    } else if kind == 2 || kind == 3 || kind == 8 {
        Some(8u32)
    } else if kind == 4 {
        Some(20u32)
    } else if kind == 6 {
        Some(32u32)
    } else if kind == 7 {
        if version == 0 {
            Some(12u32)
        } else {
            Some(24u32)
        }
    } else {
        None
    }
}

/// The unit of fixed length in `s`, which holds all its bytes.
pub open spec fn fixed_unit(s: Seq<u8>) -> Pdu {
    let kind = s[1];
    let field = read16(s, 2);
    if kind == 0 {
        Pdu::SerialNotify { session: field, serial: read32(s, 8) }
    } else if kind == 1 {
        Pdu::SerialQuery { session: field, serial: read32(s, 8) }
    } else if kind == 2 {
        Pdu::ResetQuery
    } else if kind == 3 {
        Pdu::CacheResponse { session: field }
    } else if kind == 4 {
        Pdu::Ipv4Prefix {
            announce: s[8] & 1 == 1,
            prefix_len: s[9],
            max_len: s[10],
            addr: read32(s, 12),
            asn: read32(s, 16),
        }
    } else if kind == 6 {
        Pdu::Ipv6Prefix {
            announce: s[8] & 1 == 1,
            prefix_len: s[9],
            max_len: s[10],
            addr: read128(s, 12),
            asn: read32(s, 28),
        }
    } else if kind == 7 {
        Pdu::EndOfData {
            session: field,
            serial: read32(s, 8),
            timing: if s[0] == 0 {
                Timing { refresh: 0, retry: 0, expire: 0 }
            } else {
                Timing { refresh: read32(s, 12), retry: read32(s, 16), expire: read32(s, 20) }
            },
        }
    } else {
        Pdu::CacheReset
    }
}

/// What the start of `s` holds.
///
/// Fewer than eight bytes are the start of a header.  A type that is not
/// known is invalid, and so is a length other than the one the type fixes.
/// An error report is sixteen bytes and the unit and the text it carries,
/// whose lengths it gives; a length that does not add up is invalid.  A
/// unit whose length is more than the bytes at hand is incomplete.
pub open spec fn parse(s: Seq<u8>) -> Decoded {
    if s.len() < 8 {
        Decoded::Incomplete
    } else {
        let version = s[0];
        let kind = s[1];
        let length = read32(s, 4);
        if kind == 10 {
            if length < 16 {
                Decoded::Invalid { code: ERR_CORRUPT_DATA }
            } else if s.len() < 12 {
                Decoded::Incomplete
            } else if read32(s, 8) > length - 16 {
                Decoded::Invalid { code: ERR_CORRUPT_DATA }
            } else if s.len() < 16 + read32(s, 8) {
                Decoded::Incomplete
            } else if read32(s, 12 + read32(s, 8)) != length - 16 - read32(s, 8) {
                Decoded::Invalid { code: ERR_CORRUPT_DATA }
            } else if s.len() < length {
                Decoded::Incomplete
            } else {
                Decoded::Unit {
                    version,
                    pdu: Pdu::ErrorReport { code: read16(s, 2) },
                    used: length as usize,
                }
            }
        } else {
            match fixed_length(version, kind) {
                None => Decoded::Invalid { code: ERR_UNSUPPORTED_PDU },
                Some(n) => if length != n {
                    Decoded::Invalid { code: ERR_CORRUPT_DATA }
                } else if s.len() < n {
                    Decoded::Incomplete
                } else {
                    Decoded::Unit { version, pdu: fixed_unit(s), used: n as usize }
                },
            }
        }
    }
}

/// Two bytes read back give the number they were written from.
pub proof fn lemma_be16(x: u16)
    ensures
        be16(x).len() == 2,
        u16_of(be16(x)[0], be16(x)[1]) == x,
{
    assert(((((x >> 8) as u8) as u16) << 8) | (((x & 0xff) as u8) as u16) == x) by (bit_vector);
}

/// Four bytes read back give the number they were written from.
pub proof fn lemma_be32(x: u32)
    ensures
        be32(x).len() == 4,
        u32_of(be32(x)[0], be32(x)[1], be32(x)[2], be32(x)[3]) == x,
{
    assert(((((x >> 24) as u8) as u32) << 24) | (((((x >> 16) & 0xff) as u8) as u32) << 16) | (((((x
        >> 8) & 0xff) as u8) as u32) << 8) | (((x & 0xff) as u8) as u32) == x) by (bit_vector);
}

/// Sixteen bytes read back give the number they were written from.
pub proof fn lemma_be128(x: u128)
    ensures
        be128(x).len() == 16,
        read128(be128(x), 0) == x,
{
    let a = (x >> 96) as u32;
    let b = ((x >> 64) & 0xffff_ffff) as u32;
    let c = ((x >> 32) & 0xffff_ffff) as u32;
    let d = (x & 0xffff_ffff) as u32;
    lemma_be32(a);
    lemma_be32(b);
    lemma_be32(c);
    lemma_be32(d);
    let s = be128(x);
    assert(s =~= be32(a) + be32(b) + be32(c) + be32(d));
    assert(read32(s, 0) == a);
    assert(read32(s, 4) == b);
    assert(read32(s, 8) == c);
    assert(read32(s, 12) == d);
    assert((((x >> 96) as u32) as u128) << 96 | ((((x >> 64) & 0xffff_ffff) as u32) as u128) << 64 | (
    (((x >> 32) & 0xffff_ffff) as u32) as u128) << 32 | (((x & 0xffff_ffff) as u32) as u128) == x)
        by (bit_vector);
}

/// Puts the two bytes of `x` behind `out`.
pub fn put16(out: &mut Vec<u8>, x: u16)
    ensures
        final(out)@ == old(out)@ + be16(x),
{
    let hi: u16 = x >> 8;
    let lo: u16 = x & 0xff;
    assert(hi <= 0xff && lo <= 0xff) by (bit_vector)
        requires
            hi == x >> 8,
            lo == x & 0xff,
    ;
    out.push(hi as u8);
    out.push(lo as u8);
    assert(out@ =~= old(out)@ + be16(x));
}

/// Puts the four bytes of `x` behind `out`.
pub fn put32(out: &mut Vec<u8>, x: u32)
    ensures
        final(out)@ == old(out)@ + be32(x),
{
    let a: u32 = x >> 24;
    let b: u32 = (x >> 16) & 0xff;
    let c: u32 = (x >> 8) & 0xff;
    let d: u32 = x & 0xff;
    assert(a <= 0xff && b <= 0xff && c <= 0xff && d <= 0xff) by (bit_vector)
        requires
            a == x >> 24,
            b == (x >> 16) & 0xff,
            c == (x >> 8) & 0xff,
            d == x & 0xff,
    ;
    out.push(a as u8);
    out.push(b as u8);
    out.push(c as u8);
    out.push(d as u8);
    assert(out@ =~= old(out)@ + be32(x));
}

/// Puts the sixteen bytes of `x` behind `out`.
pub fn put128(out: &mut Vec<u8>, x: u128)
    ensures
        final(out)@ == old(out)@ + be128(x),
{
    let a: u128 = x >> 96;
    let b: u128 = (x >> 64) & 0xffff_ffff;
    let c: u128 = (x >> 32) & 0xffff_ffff;
    let d: u128 = x & 0xffff_ffff;
    assert(a <= 0xffff_ffff && b <= 0xffff_ffff && c <= 0xffff_ffff && d <= 0xffff_ffff)
        by (bit_vector)
        requires
            a == x >> 96,
            b == (x >> 64) & 0xffff_ffff,
            c == (x >> 32) & 0xffff_ffff,
            d == x & 0xffff_ffff,
    ;
    put32(out, a as u32);
    put32(out, b as u32);
    put32(out, c as u32);
    put32(out, d as u32);
    assert(out@ =~= old(out)@ + be128(x));
}

/// Puts a header behind `out`.
pub fn put_header(out: &mut Vec<u8>, version: u8, kind: u8, field: u16, length: u32)
    ensures
        final(out)@ == old(out)@ + header(version, kind, field, length),
{
    out.push(version);
    out.push(kind);
    put16(out, field);
    put32(out, length);
    assert(out@ =~= old(out)@ + header(version, kind, field, length));
}

/// Puts the start of the body of a prefix unit behind `out`.
fn put_prefix_head(out: &mut Vec<u8>, announce: bool, prefix_len: u8, max_len: u8)
    ensures
        final(out)@ == old(out)@ + prefix_head(announce, prefix_len, max_len),
{
    out.push(if announce { 1 } else { 0 });
    out.push(prefix_len);
    out.push(max_len);
    out.push(0);
    assert(out@ =~= old(out)@ + prefix_head(announce, prefix_len, max_len));
}

/// Puts the bytes of `pdu`, sent under `version`, behind `out`.
pub fn encode(version: u8, pdu: &Pdu, out: &mut Vec<u8>)
    ensures
        final(out)@ == old(out)@ + wire(version, *pdu),
{
    match *pdu {
        Pdu::SerialNotify { session, serial } => {
            put_header(out, version, 0, session, 12);
            put32(out, serial);
        },
        Pdu::SerialQuery { session, serial } => {
            put_header(out, version, 1, session, 12);
            put32(out, serial);
        },
        Pdu::ResetQuery => {
            put_header(out, version, 2, 0, 8);
        },
        Pdu::CacheResponse { session } => {
            put_header(out, version, 3, session, 8);
        },
        Pdu::Ipv4Prefix { announce, prefix_len, max_len, addr, asn } => {
            put_header(out, version, 4, 0, 20);
            put_prefix_head(out, announce, prefix_len, max_len);
            put32(out, addr);
            put32(out, asn);
        },
        Pdu::Ipv6Prefix { announce, prefix_len, max_len, addr, asn } => {
            put_header(out, version, 6, 0, 32);
            put_prefix_head(out, announce, prefix_len, max_len);
            put128(out, addr);
            put32(out, asn);
        },
        Pdu::EndOfData { session, serial, timing } => {
            if version == 0 {
                put_header(out, version, 7, session, 12);
                put32(out, serial);
            } else {
                put_header(out, version, 7, session, 24);
                put32(out, serial);
                put32(out, timing.refresh);
                put32(out, timing.retry);
                put32(out, timing.expire);
            }
        },
        Pdu::CacheReset => {
            put_header(out, version, 8, 0, 8);
        },
        Pdu::ErrorReport { code } => {
            put_header(out, version, 10, code, 16);
            put32(out, 0);
            put32(out, 0);
        },
    }
    assert(out@ =~= old(out)@ + wire(version, *pdu));
}

/// The bytes of `pdus`, sent under `version`, one unit after the other.
pub open spec fn wire_all(version: u8, pdus: Seq<Pdu>) -> Seq<u8>
    decreases pdus.len(),
{
    if pdus.len() == 0 {
        Seq::empty()
    } else {
        wire_all(version, pdus.drop_last()) + wire(version, pdus.last())
    }
}

/// The bytes of a response.
pub fn encode_all(version: u8, pdus: &Vec<Pdu>) -> (out: Vec<u8>)
    ensures
        out@ == wire_all(version, pdus@),
{
    let mut out: Vec<u8> = Vec::new();
    let mut i: usize = 0;
    while i < pdus.len()
        invariant
            i <= pdus.len(),
            out@ == wire_all(version, pdus@.take(i as int)),
        decreases pdus.len() - i,
    {
        encode(version, &pdus[i], &mut out);
        assert(pdus@.take(i + 1).drop_last() =~= pdus@.take(i as int));
        i += 1;
    }
    assert(pdus@.take(i as int) =~= pdus@);
    out
}

/// Reads the number in the two bytes of `s` from `at` on.
pub fn get16(s: &[u8], at: usize) -> (r: u16)
    requires
        at + 2 <= s@.len(),
    ensures
        r == read16(s@, at as int),
{
    ((s[at] as u16) << 8) | (s[at + 1] as u16)
}

/// Reads the number in the four bytes of `s` from `at` on.
pub fn get32(s: &[u8], at: usize) -> (r: u32)
    requires
        at + 4 <= s@.len(),
    ensures
        r == read32(s@, at as int),
{
    ((s[at] as u32) << 24) | ((s[at + 1] as u32) << 16) | ((s[at + 2] as u32) << 8) | (s[at
        + 3] as u32)
}

/// Reads the number in the sixteen bytes of `s` from `at` on.
pub fn get128(s: &[u8], at: usize) -> (r: u128)
    requires
        at + 16 <= s@.len(),
    ensures
        r == read128(s@, at as int),
{
    let n = s.len();
    assert(at + 16 <= n);
    let a = get32(s, at);
    let b = get32(s, at + 4);
    let c = get32(s, at + 8);
    let d = get32(s, at + 12);
    ((a as u128) << 96) | ((b as u128) << 64) | ((c as u128) << 32) | (d as u128)
}

/// Reads what the start of `s` holds.
pub fn decode(s: &[u8]) -> (r: Decoded)
    ensures
        r == parse(s@),
{
    if s.len() < 8 {
        return Decoded::Incomplete;
    }
    let version = s[0];
    let kind = s[1];
    let field = get16(s, 2);
    let length = get32(s, 4);
    if kind == 10 {
        if length < 16 {
            return Decoded::Invalid { code: ERR_CORRUPT_DATA };
        }
        if s.len() < 12 {
            return Decoded::Incomplete;
        }
        let inner = get32(s, 8);
        if inner > length - 16 {
            return Decoded::Invalid { code: ERR_CORRUPT_DATA };
        }
        if (s.len() as u64) < 16 + (inner as u64) {
            return Decoded::Incomplete;
        }
        let text = get32(s, 12 + (inner as usize));
        if text != length - 16 - inner {
            return Decoded::Invalid { code: ERR_CORRUPT_DATA };
        }
        if (s.len() as u64) < length as u64 {
            return Decoded::Incomplete;
        }
        return Decoded::Unit { version, pdu: Pdu::ErrorReport { code: field }, used: length as usize };
    }
    let n: u32 = if kind == 0 || kind == 1 {
        12
    } else if kind == 2 || kind == 3 || kind == 8 {
        8
    } else if kind == 4 {
        20
    } else if kind == 6 {
        32
    } else if kind == 7 {
        if version == 0 {
            12
        } else {
            24
        }
    } else {
        return Decoded::Invalid { code: ERR_UNSUPPORTED_PDU };
    };
    if length != n {
        return Decoded::Invalid { code: ERR_CORRUPT_DATA };
    }
    if s.len() < n as usize {
        return Decoded::Incomplete;
    }
    let pdu = if kind == 0 {
        Pdu::SerialNotify { session: field, serial: get32(s, 8) }
    } else if kind == 1 {
        Pdu::SerialQuery { session: field, serial: get32(s, 8) }
    } else if kind == 2 {
        Pdu::ResetQuery
    } else if kind == 3 {
        Pdu::CacheResponse { session: field }
    } else if kind == 4 {
        Pdu::Ipv4Prefix {
            announce: s[8] & 1 == 1,
            prefix_len: s[9],
            max_len: s[10],
            addr: get32(s, 12),
            asn: get32(s, 16),
        }
    } else if kind == 6 {
        Pdu::Ipv6Prefix {
            announce: s[8] & 1 == 1,
            prefix_len: s[9],
            max_len: s[10],
            addr: get128(s, 12),
            asn: get32(s, 28),
        }
    } else if kind == 7 {
        Pdu::EndOfData {
            session: field,
            serial: get32(s, 8),
            timing: if version == 0 {
                Timing { refresh: 0, retry: 0, expire: 0 }
            } else {
                Timing { refresh: get32(s, 12), retry: get32(s, 16), expire: get32(s, 20) }
            },
        }
    } else {
        Pdu::CacheReset
    };
    Decoded::Unit { version, pdu, used: n as usize }
}

/// A number written between other bytes is read back from its place.
pub proof fn lemma_read32_at(front: Seq<u8>, x: u32, back: Seq<u8>)
    ensures
        read32(front + be32(x) + back, front.len() as int) == x,
{
    lemma_be32(x);
    let s = front + be32(x) + back;
    let at = front.len() as int;
    assert(s[at] == be32(x)[0]);
    assert(s[at + 1] == be32(x)[1]);
    assert(s[at + 2] == be32(x)[2]);
    assert(s[at + 3] == be32(x)[3]);
}

/// A header in front of other bytes is read back field by field.
pub proof fn lemma_header_read(version: u8, kind: u8, field: u16, length: u32, back: Seq<u8>)
    ensures
        ({
            let s = header(version, kind, field, length) + back;
            &&& s.len() == 8 + back.len()
            &&& s[0] == version
            &&& s[1] == kind
            &&& read16(s, 2) == field
            &&& read32(s, 4) == length
            &&& forall|i: int| 0 <= i < back.len() ==> s[8 + i] == back[i]
        }),
{
    lemma_be16(field);
    lemma_be32(length);
    let s = header(version, kind, field, length) + back;
    assert(s[2] == be16(field)[0]);
    assert(s[3] == be16(field)[1]);
    assert(s[4] == be32(length)[0]);
    assert(s[5] == be32(length)[1]);
    assert(s[6] == be32(length)[2]);
    assert(s[7] == be32(length)[3]);
}

/// What a unit sent under `version` is read back as: itself, but for the
/// intervals of an end of data, which version 0 does not carry.
pub open spec fn as_read(version: u8, pdu: Pdu) -> Pdu {
    match pdu {
        Pdu::EndOfData { session, serial, timing } => if version == 0 {
            Pdu::EndOfData { session, serial, timing: Timing { refresh: 0, retry: 0, expire: 0 } }
        } else {
            pdu
        },
        _ => pdu,
    }
}

/// The law for notices and serial queries.
proof fn lemma_roundtrip_serial(version: u8, pdu: Pdu, rest: Seq<u8>)
    requires
        pdu is SerialNotify || pdu is SerialQuery,
    ensures
        parse(wire(version, pdu) + rest) == (Decoded::Unit {
            version,
            pdu: as_read(version, pdu),
            used: wire(version, pdu).len() as usize,
        }),
{
    let s = wire(version, pdu) + rest;
    match pdu {
        Pdu::SerialNotify { session, serial } => {
            let body = be32(serial) + rest;
            assert(s =~= header(version, 0, session, 12) + body);
            lemma_header_read(version, 0, session, 12, body);
            assert(s =~= header(version, 0, session, 12) + be32(serial) + rest);
            lemma_read32_at(header(version, 0, session, 12), serial, rest);
        },
        Pdu::SerialQuery { session, serial } => {
            let body = be32(serial) + rest;
            assert(s =~= header(version, 1, session, 12) + body);
            lemma_header_read(version, 1, session, 12, body);
            assert(s =~= header(version, 1, session, 12) + be32(serial) + rest);
            lemma_read32_at(header(version, 1, session, 12), serial, rest);
        },
        _ => {},
    }
}

/// The law for units without a body.
proof fn lemma_roundtrip_bare(version: u8, pdu: Pdu, rest: Seq<u8>)
    requires
        pdu is ResetQuery || pdu is CacheResponse || pdu is CacheReset,
    ensures
        parse(wire(version, pdu) + rest) == (Decoded::Unit {
            version,
            pdu: as_read(version, pdu),
            used: wire(version, pdu).len() as usize,
        }),
{
    let s = wire(version, pdu) + rest;
    match pdu {
        Pdu::ResetQuery => {
            lemma_header_read(version, 2, 0, 8, rest);
        },
        Pdu::CacheResponse { session } => {
            lemma_header_read(version, 3, session, 8, rest);
        },
        Pdu::CacheReset => {
            lemma_header_read(version, 8, 0, 8, rest);
        },
        _ => {},
    }
}

/// The law for IPv4 prefixes.
proof fn lemma_roundtrip_v4(version: u8, pdu: Pdu, rest: Seq<u8>)
    requires
        pdu is Ipv4Prefix,
    ensures
        parse(wire(version, pdu) + rest) == (Decoded::Unit {
            version,
            pdu: as_read(version, pdu),
            used: wire(version, pdu).len() as usize,
        }),
{
    let s = wire(version, pdu) + rest;
    match pdu {
        Pdu::Ipv4Prefix { announce, prefix_len, max_len, addr, asn } => {
            let h = header(version, 4, 0, 20);
            let ph = prefix_head(announce, prefix_len, max_len);
            let body = ph + be32(addr) + be32(asn) + rest;
            assert(s =~= h + body);
            lemma_header_read(version, 4, 0, 20, body);
            lemma_be32(addr);
            lemma_be32(asn);
            assert(s[8] == body[0] && s[9] == body[1] && s[10] == body[2]);
            assert(s =~= (h + ph) + be32(addr) + (be32(asn) + rest));
            lemma_read32_at(h + ph, addr, be32(asn) + rest);
            assert(s =~= (h + ph + be32(addr)) + be32(asn) + rest);
            lemma_read32_at(h + ph + be32(addr), asn, rest);
            assert(1u8 & 1 == 1 && 0u8 & 1 == 0) by (bit_vector);
        },
        _ => {},
    }
}

/// The law for IPv6 prefixes.
proof fn lemma_roundtrip_v6(version: u8, pdu: Pdu, rest: Seq<u8>)
    requires
        pdu is Ipv6Prefix,
    ensures
        parse(wire(version, pdu) + rest) == (Decoded::Unit {
            version,
            pdu: as_read(version, pdu),
            used: wire(version, pdu).len() as usize,
        }),
{
    let s = wire(version, pdu) + rest;
    match pdu {
        Pdu::Ipv6Prefix { announce, prefix_len, max_len, addr, asn } => {
            let h = header(version, 6, 0, 32);
            let ph = prefix_head(announce, prefix_len, max_len);
            let body = ph + be128(addr) + be32(asn) + rest;
            assert(s =~= h + body);
            lemma_header_read(version, 6, 0, 32, body);
            lemma_be128(addr);
            lemma_be32(asn);
            assert(s[8] == body[0] && s[9] == body[1] && s[10] == body[2]);
            assert forall|i: int| 0 <= i < 16 implies s[12 + i] == be128(addr)[i] by {
                assert(s[12 + i] == body[4 + i]);
            }
            assert(read32(s, 12) == read32(be128(addr), 0));
            assert(read32(s, 16) == read32(be128(addr), 4));
            assert(read32(s, 20) == read32(be128(addr), 8));
            assert(read32(s, 24) == read32(be128(addr), 12));
            assert(s =~= (h + ph + be128(addr)) + be32(asn) + rest);
            lemma_read32_at(h + ph + be128(addr), asn, rest);
            assert(1u8 & 1 == 1 && 0u8 & 1 == 0) by (bit_vector);
        },
        _ => {},
    }
}

/// Numbers written one after the other behind a front are read back from
/// their places.
proof fn lemma_read_four(front: Seq<u8>, a: u32, b: u32, c: u32, d: u32, back: Seq<u8>)
    ensures
        ({
            let s = front + be32(a) + be32(b) + be32(c) + be32(d) + back;
            let at = front.len() as int;
            &&& read32(s, at) == a
            &&& read32(s, at + 4) == b
            &&& read32(s, at + 8) == c
            &&& read32(s, at + 12) == d
        }),
{
    let s = front + be32(a) + be32(b) + be32(c) + be32(d) + back;
    lemma_be32(a);
    lemma_be32(b);
    lemma_be32(c);
    lemma_be32(d);
    let at = front.len() as int;
    assert(s[at] == be32(a)[0] && s[at + 1] == be32(a)[1] && s[at + 2] == be32(a)[2] && s[at + 3]
        == be32(a)[3]);
    assert(s[at + 4] == be32(b)[0] && s[at + 5] == be32(b)[1] && s[at + 6] == be32(b)[2] && s[at
        + 7] == be32(b)[3]);
    assert(s[at + 8] == be32(c)[0] && s[at + 9] == be32(c)[1] && s[at + 10] == be32(c)[2] && s[at
        + 11] == be32(c)[3]);
    assert(s[at + 12] == be32(d)[0] && s[at + 13] == be32(d)[1] && s[at + 14] == be32(d)[2]
        && s[at + 15] == be32(d)[3]);
}

/// The law for ends of data under version 0.
proof fn lemma_roundtrip_end_short(session: u16, serial: u32, timing: Timing, rest: Seq<u8>)
    ensures
        parse(wire(0, Pdu::EndOfData { session, serial, timing }) + rest) == (Decoded::Unit {
            version: 0,
            pdu: as_read(0, Pdu::EndOfData { session, serial, timing }),
            used: wire(0, Pdu::EndOfData { session, serial, timing }).len() as usize,
        }),
{
    let s = wire(0, Pdu::EndOfData { session, serial, timing }) + rest;
    let h = header(0, 7, session, 12);
    let body = be32(serial) + rest;
    assert(s =~= h + body);
    lemma_header_read(0, 7, session, 12, body);
    assert(s =~= h + be32(serial) + rest);
    lemma_read32_at(h, serial, rest);
}

/// The law for ends of data under later versions.
proof fn lemma_roundtrip_end_long(
    version: u8,
    session: u16,
    serial: u32,
    timing: Timing,
    rest: Seq<u8>,
)
    requires
        version != 0,
    ensures
        parse(wire(version, Pdu::EndOfData { session, serial, timing }) + rest) == (Decoded::Unit {
            version,
            pdu: as_read(version, Pdu::EndOfData { session, serial, timing }),
            used: wire(version, Pdu::EndOfData { session, serial, timing }).len() as usize,
        }),
{
    let s = wire(version, Pdu::EndOfData { session, serial, timing }) + rest;
    let h = header(version, 7, session, 24);
    let body = be32(serial) + be32(timing.refresh) + be32(timing.retry) + be32(timing.expire) + rest;
    assert(s =~= h + body);
    lemma_header_read(version, 7, session, 24, body);
    lemma_be32(serial);
    lemma_be32(timing.refresh);
    lemma_be32(timing.retry);
    lemma_be32(timing.expire);
    assert(s =~= h + be32(serial) + be32(timing.refresh) + be32(timing.retry) + be32(timing.expire)
        + rest);
    lemma_read_four(h, serial, timing.refresh, timing.retry, timing.expire, rest);
    assert(h.len() == 8);
}

/// The law for ends of data.
proof fn lemma_roundtrip_end(version: u8, pdu: Pdu, rest: Seq<u8>)
    requires
        pdu is EndOfData,
    ensures
        parse(wire(version, pdu) + rest) == (Decoded::Unit {
            version,
            pdu: as_read(version, pdu),
            used: wire(version, pdu).len() as usize,
        }),
{
    match pdu {
        Pdu::EndOfData { session, serial, timing } => {
            if version == 0 {
                lemma_roundtrip_end_short(session, serial, timing, rest);
            } else {
                lemma_roundtrip_end_long(version, session, serial, timing, rest);
            }
        },
        _ => {},
    }
}

/// The law for error reports.
proof fn lemma_roundtrip_error(version: u8, pdu: Pdu, rest: Seq<u8>)
    requires
        pdu is ErrorReport,
    ensures
        parse(wire(version, pdu) + rest) == (Decoded::Unit {
            version,
            pdu: as_read(version, pdu),
            used: wire(version, pdu).len() as usize,
        }),
{
    let s = wire(version, pdu) + rest;
    match pdu {
        Pdu::ErrorReport { code } => {
            let h = header(version, 10, code, 16);
            let z = be32(0);
            let body = z + z + rest;
            assert(s =~= h + body);
            lemma_header_read(version, 10, code, 16, body);
            lemma_be32(0);
            assert(s =~= h + z + (z + rest));
            lemma_read32_at(h, 0, z + rest);
            assert(s =~= (h + z) + z + rest);
            lemma_read32_at(h + z, 0, rest);
        },
        _ => {},
    }
}

/// The bytes of a unit, whatever follows them, are read back as that unit
/// and as long as they are.
pub proof fn law_decode_encode(version: u8, pdu: Pdu, rest: Seq<u8>)
    ensures
        parse(wire(version, pdu) + rest) == (Decoded::Unit {
            version,
            pdu: as_read(version, pdu),
            used: wire(version, pdu).len() as usize,
        }),
{
    match pdu {
        Pdu::SerialNotify { .. } | Pdu::SerialQuery { .. } => {
            lemma_roundtrip_serial(version, pdu, rest);
        },
        Pdu::ResetQuery | Pdu::CacheResponse { .. } | Pdu::CacheReset => {
            lemma_roundtrip_bare(version, pdu, rest);
        },
        Pdu::Ipv4Prefix { .. } => {
            lemma_roundtrip_v4(version, pdu, rest);
        },
        Pdu::Ipv6Prefix { .. } => {
            lemma_roundtrip_v6(version, pdu, rest);
        },
        Pdu::EndOfData { .. } => {
            lemma_roundtrip_end(version, pdu, rest);
        },
        Pdu::ErrorReport { .. } => {
            lemma_roundtrip_error(version, pdu, rest);
        },
    }
}

} // verus!
