//! Serial numbers of published snapshots: counters that wrap at 2^32.

use vstd::prelude::*;

verus! {

/// The serial `n` steps after `s`.
pub open spec fn serial_add(s: u32, n: nat) -> u32 {
    ((s + n) % 0x1_0000_0000) as u32
}

/// The serial after `s`.
pub open spec fn serial_next(s: u32) -> u32 {
    serial_add(s, 1)
}

/// The number of steps from `from` up to `to`.
pub open spec fn serial_distance(from: u32, to: u32) -> nat {
    ((to - from) % 0x1_0000_0000) as nat
}

/// Computes `serial_next`.
pub fn next_serial(s: u32) -> (r: u32)
    ensures
        r == serial_next(s),
{
    if s == u32::MAX {
        0
    } else {
        s + 1
    }
}

/// Computes `serial_distance`.
pub fn distance(from: u32, to: u32) -> (r: u32)
    ensures
        r == serial_distance(from, to),
{
    if to >= from {
        to - from
    } else {
        u32::MAX - from + to + 1
    }
}

/// `to` lies exactly `serial_distance(from, to)` steps after `from`, and no
/// other number of steps below 2^32 leads there.
pub proof fn lemma_distance(from: u32, to: u32, n: nat)
    requires
        n < 0x1_0000_0000,
    ensures
        serial_add(from, serial_distance(from, to)) == to,
        serial_add(from, n) == to <==> n == serial_distance(from, to),
{
}

/// Stepping `n` times and then `m` times is stepping `n + m` times.
pub proof fn lemma_add_add(s: u32, n: nat, m: nat)
    ensures
        serial_add(serial_add(s, n), m) == serial_add(s, n + m),
{
}

} // verus!
