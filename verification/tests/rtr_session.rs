use routinator::payload::{Family, Prefix, Vrp, VrpSet};
use routinator::rtr::pdu::{
    make_prefix_pdu, Pdu, RtrProtocolError, Timing, ERR_CORRUPT_DATA, ERR_INVALID_REQUEST,
    ERR_UNEXPECTED_VERSION,
    ERR_UNSUPPORTED_VERSION,
};
use routinator::rtr::session::{Input, RtrSession, State};
use routinator::store::publish::Store;

const TIMING: Timing = Timing { refresh: 3600, retry: 600, expire: 7200 };
const SESSION: u16 = 4711;

fn v4(a: u8, b: u8, c: u8, len: u8, asn: u32) -> Vrp {
    let addr = ((a as u128) << 24) | ((b as u128) << 16) | ((c as u128) << 8);
    Vrp { prefix: Prefix { family: Family::V4, addr, len }, max_len: len, asn, source: 1 }
}

fn set(list: &[Vrp]) -> VrpSet {
    VrpSet::from_vec(&list.to_vec())
}

fn announce(v: &Vrp) -> Pdu {
    make_prefix_pdu(v, true)
}

fn withdraw(v: &Vrp) -> Pdu {
    make_prefix_pdu(v, false)
}

fn end(serial: u32) -> Pdu {
    Pdu::EndOfData { session: SESSION, serial, timing: TIMING }
}

fn query(serial: u32) -> Input {
    Input::Received { version: 1, pdu: Pdu::SerialQuery { session: SESSION, serial } }
}

fn reset() -> Input {
    Input::Received { version: 1, pdu: Pdu::ResetQuery }
}

fn two_cycles() -> (Store, Vrp, Vrp) {
    let r1 = v4(192, 0, 2, 24, 65000);
    let r2 = v4(198, 51, 100, 24, 65000);
    let mut store = Store::new(10, 0);
    assert_eq!(store.publish(set(&[r1]), 1), 1);
    assert_eq!(store.publish(set(&[r2]), 2), 2);
    (store, r1, r2)
}

#[test]
fn prefix_units_carry_the_payload() {
    let v = v4(192, 0, 2, 24, 65000);
    assert_eq!(
        announce(&v),
        Pdu::Ipv4Prefix { announce: true, prefix_len: 24, max_len: 24, addr: 0xc000_0200, asn: 65000 }
    );
    let six = Vrp {
        prefix: Prefix { family: Family::V6, addr: 0x2001_0db8 << 96, len: 32 },
        max_len: 48,
        asn: 64496,
        source: 2,
    };
    assert_eq!(
        withdraw(&six),
        Pdu::Ipv6Prefix {
            announce: false,
            prefix_len: 32,
            max_len: 48,
            addr: 0x2001_0db8 << 96,
            asn: 64496
        }
    );
}

#[test]
fn a_new_session_is_in_init() {
    let s = RtrSession::new(SESSION);
    assert_eq!(s.state, State::Init);
    assert_eq!(s.version, None);
    assert_eq!(s.session_id, SESSION);
    assert_eq!(s.last_serial, None);
}

#[test]
fn a_reset_query_is_answered_with_the_whole_snapshot() {
    let a = v4(192, 0, 2, 24, 65000);
    let b = v4(198, 51, 100, 24, 65001);
    let mut store = Store::new(10, 0);
    store.publish(set(&[a, b]), 0);
    let mut s = RtrSession::new(SESSION);
    let reply = s.handle(&reset(), &store, &TIMING);
    assert_eq!(
        reply,
        vec![Pdu::CacheResponse { session: SESSION }, announce(&a), announce(&b), end(1)]
    );
    assert_eq!(s.state, State::Established);
    assert_eq!(s.version, Some(1));
    assert_eq!(s.last_serial, Some(1));
}

#[test]
fn a_reset_query_on_an_empty_store_sends_no_prefix() {
    let store = Store::new(10, 0);
    let mut s = RtrSession::new(SESSION);
    let reply = s.handle(&reset(), &store, &TIMING);
    assert_eq!(reply, vec![Pdu::CacheResponse { session: SESSION }, end(0)]);
}

#[test]
fn a_client_at_serial_one_receives_exactly_the_difference() {
    let (store, r1, r2) = two_cycles();
    assert_eq!(store.current().serial(), 2);
    assert_eq!(store.current().vrps().entries(), &vec![r2]);
    let diff = store.history().get(1);
    assert_eq!((diff.from_serial(), diff.to_serial()), (1, 2));
    assert_eq!(diff.added().entries(), &vec![r2]);
    assert_eq!(diff.removed().entries(), &vec![r1]);
    let mut s = RtrSession::new(SESSION);
    let reply = s.handle(&query(1), &store, &TIMING);
    assert_eq!(
        reply,
        vec![Pdu::CacheResponse { session: SESSION }, withdraw(&r1), announce(&r2), end(2)]
    );
    assert_eq!(s.state, State::Established);
    assert_eq!(s.last_serial, Some(2));
}

#[test]
fn a_client_at_a_serial_never_seen_receives_a_cache_reset() {
    let (store, _, _) = two_cycles();
    let mut s = RtrSession::new(SESSION);
    let reply = s.handle(&query(99), &store, &TIMING);
    assert_eq!(reply, vec![Pdu::CacheReset]);
    assert_eq!(s.state, State::Established);
    assert_eq!(s.last_serial, None);
}

#[test]
fn a_client_at_the_current_serial_receives_end_of_data_alone() {
    let (store, _, _) = two_cycles();
    let mut s = RtrSession::new(SESSION);
    let reply = s.handle(&query(2), &store, &TIMING);
    assert_eq!(reply, vec![end(2)]);
    assert_eq!(s.last_serial, Some(2));
}

#[test]
fn a_chain_of_differences_is_sent_in_order() {
    let a = v4(10, 0, 1, 24, 1);
    let b = v4(10, 0, 2, 24, 2);
    let c = v4(10, 0, 3, 24, 3);
    let mut store = Store::new(10, 0);
    store.publish(set(&[a]), 0);
    store.publish(set(&[a, b]), 0);
    store.publish(set(&[b, c]), 0);
    let mut s = RtrSession::new(SESSION);
    let reply = s.handle(&query(1), &store, &TIMING);
    assert_eq!(
        reply,
        vec![
            Pdu::CacheResponse { session: SESSION },
            announce(&b),
            withdraw(&a),
            announce(&c),
            end(3)
        ]
    );
    let mut t = RtrSession::new(SESSION);
    let from_start = t.handle(&query(0), &store, &TIMING);
    assert_eq!(
        from_start,
        vec![
            Pdu::CacheResponse { session: SESSION },
            announce(&a),
            announce(&b),
            withdraw(&a),
            announce(&c),
            end(3)
        ]
    );
}

#[test]
fn a_serial_that_the_history_has_dropped_gives_a_cache_reset() {
    let mut store = Store::new(2, 0);
    for i in 0..5u8 {
        store.publish(set(&[v4(10, 0, i, 24, 1)]), 0);
    }
    for serial in [0u32, 1, 2, 6, 7, 1000, u32::MAX] {
        let mut s = RtrSession::new(SESSION);
        assert_eq!(s.handle(&query(serial), &store, &TIMING), vec![Pdu::CacheReset]);
    }
    for serial in [3u32, 4] {
        let mut s = RtrSession::new(SESSION);
        let reply = s.handle(&query(serial), &store, &TIMING);
        assert_eq!(reply[0], Pdu::CacheResponse { session: SESSION });
        assert_eq!(reply[reply.len() - 1], end(5));
        assert_eq!(reply.len(), 2 + 2 * (5 - serial as usize));
    }
}

#[test]
fn another_session_id_in_the_first_query_gives_a_cache_reset() {
    let (store, _, _) = two_cycles();
    let mut s = RtrSession::new(SESSION);
    let input = Input::Received { version: 1, pdu: Pdu::SerialQuery { session: 1, serial: 1 } };
    assert_eq!(s.handle(&input, &store, &TIMING), vec![Pdu::CacheReset]);
    assert_eq!(s.state, State::Established);
}

#[test]
fn another_session_id_in_an_established_session_is_an_error() {
    let (store, _, _) = two_cycles();
    let mut s = RtrSession::new(SESSION);
    s.handle(&reset(), &store, &TIMING);
    let input = Input::Received { version: 1, pdu: Pdu::SerialQuery { session: 1, serial: 1 } };
    assert_eq!(s.handle(&input, &store, &TIMING), vec![Pdu::ErrorReport { code: ERR_CORRUPT_DATA }]);
    assert_eq!(s.state, State::Closed);
}

#[test]
fn an_unsupported_version_is_an_error() {
    let (store, _, _) = two_cycles();
    let mut s = RtrSession::new(SESSION);
    let input = Input::Received { version: 2, pdu: Pdu::ResetQuery };
    assert_eq!(
        s.handle(&input, &store, &TIMING),
        vec![Pdu::ErrorReport { code: ERR_UNSUPPORTED_VERSION }]
    );
    assert_eq!(s.state, State::Closed);
}

#[test]
fn a_change_of_version_is_an_error() {
    let (store, _, _) = two_cycles();
    let mut s = RtrSession::new(SESSION);
    let first = Input::Received { version: 0, pdu: Pdu::ResetQuery };
    assert_eq!(s.handle(&first, &store, &TIMING).len(), 3);
    assert_eq!(s.version, Some(0));
    assert_eq!(
        s.handle(&reset(), &store, &TIMING),
        vec![Pdu::ErrorReport { code: ERR_UNEXPECTED_VERSION }]
    );
    assert_eq!(s.state, State::Closed);
}

#[test]
fn malformed_input_is_reported_and_closes_the_session() {
    let (store, _, _) = two_cycles();
    let mut s = RtrSession::new(SESSION);
    let reply = s.handle(&Input::Malformed { code: ERR_CORRUPT_DATA }, &store, &TIMING);
    assert_eq!(reply, vec![Pdu::ErrorReport { code: ERR_CORRUPT_DATA }]);
    assert_eq!(s.state, State::Closed);
    assert_eq!(s.handle(&reset(), &store, &TIMING), vec![]);
    assert_eq!(s.handle(&query(1), &store, &TIMING), vec![]);
    assert_eq!(s.state, State::Closed);
}

#[test]
fn a_unit_that_is_no_query_is_an_invalid_request() {
    let (store, _, _) = two_cycles();
    for pdu in [
        Pdu::CacheReset,
        Pdu::CacheResponse { session: SESSION },
        Pdu::SerialNotify { session: SESSION, serial: 1 },
        end(1),
    ] {
        let mut s = RtrSession::new(SESSION);
        let reply = s.handle(&Input::Received { version: 1, pdu }, &store, &TIMING);
        assert_eq!(reply, vec![Pdu::ErrorReport { code: ERR_INVALID_REQUEST }]);
        assert_eq!(s.state, State::Closed);
    }
}

#[test]
fn an_error_report_from_the_client_ends_the_session_silently() {
    let (store, _, _) = two_cycles();
    let mut s = RtrSession::new(SESSION);
    let input = Input::Received { version: 1, pdu: Pdu::ErrorReport { code: 2 } };
    assert_eq!(s.handle(&input, &store, &TIMING), vec![]);
    assert_eq!(s.state, State::Closed);
}

#[test]
fn a_notice_is_due_once_the_serial_has_moved() {
    let (mut store, r1, _) = two_cycles();
    let mut s = RtrSession::new(SESSION);
    assert_eq!(s.notify(&store), None);
    s.handle(&reset(), &store, &TIMING);
    assert_eq!(s.notify(&store), None);
    store.publish(set(&[r1]), 3);
    assert_eq!(s.notify(&store), Some(Pdu::SerialNotify { session: SESSION, serial: 3 }));
    s.handle(&query(2), &store, &TIMING);
    assert_eq!(s.notify(&store), None);
}

#[test]
fn protocol_errors_have_their_codes() {
    assert_eq!(RtrProtocolError::MalformedPdu { code: 5 }.code(), 5);
    assert_eq!(RtrProtocolError::InvalidRequest.code(), 3);
    assert_eq!(RtrProtocolError::UnsupportedVersion.code(), 4);
    assert_eq!(RtrProtocolError::UnexpectedVersion.code(), 8);
    assert_eq!(RtrProtocolError::SessionMismatch.code(), 0);
}
