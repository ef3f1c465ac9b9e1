//! The server side of one client connection.

use vstd::prelude::*;
use crate::rtr::pdu::{
    error_code, prefix_pdus, push_prefix_pdus, Pdu, RtrProtocolError, Timing, MAX_VERSION,
};
use crate::store::history::{lemma_position, position, DiffView};
use crate::store::publish::{Store, StoreModel};

verus! {

/// Where a connection stands.
#[derive(Clone, Copy, Debug, PartialEq, Eq, Structural)]
pub enum State {
    /// Connected; no query was answered yet.
    Init,
    /// At least one query was answered.
    Established,
    /// An error ended the session; nothing is answered any more.
    Closed,
}

/// What was read from the client.
#[derive(Clone, Copy, Debug)]
pub enum Input {
    /// A data unit, and the protocol version in its header.
    Received { version: u8, pdu: Pdu },
    /// Bytes that are no data unit; `code` is the error code that says why.
    Malformed { code: u16 },
}

/// The state of one connection: the protocol version once the first query
/// has fixed it, the cache's session id, and the serial last sent.
#[derive(Clone, Copy, Debug)]
pub struct RtrSession {
    pub state: State,
    pub version: Option<u8>,
    pub session_id: u16,
    pub last_serial: Option<u32>,
}

/// A session after an input, and the data units to send.
pub struct Outcome {
    pub session: RtrSession,
    pub reply: Seq<Pdu>,
}

/// The units that carry one difference: its withdrawals, then its
/// announcements.
pub open spec fn diff_pdus(d: DiffView) -> Seq<Pdu> {
    prefix_pdus(d.removed, false) + prefix_pdus(d.added, true)
}

/// The units that carry the differences at positions `from` up to `to`, in
/// order.
pub open spec fn chain_pdus(diffs: Seq<DiffView>, from: int, to: int) -> Seq<Pdu>
    decreases to - from,
{
    if to <= from {
        Seq::empty()
    } else {
        chain_pdus(diffs, from, to - 1) + diff_pdus(diffs[to - 1])
    }
}

/// The unit that ends a response.
pub open spec fn end_of_data(s: RtrSession, store: StoreModel, timing: Timing) -> Pdu {
    Pdu::EndOfData { session: s.session_id, serial: store.serial, timing }
}

/// The session closed by an error, and the report of it.
pub open spec fn fail(s: RtrSession, e: RtrProtocolError) -> Outcome {
    Outcome {
        session: RtrSession { state: State::Closed, ..s },
        reply: seq![Pdu::ErrorReport { code: error_code(e) }],
    }
}

/// The answer to a reset query: the whole current snapshot.
pub open spec fn full_cache(s: RtrSession, store: StoreModel, timing: Timing) -> Outcome {
    Outcome {
        session: RtrSession { state: State::Established, last_serial: Some(store.serial), ..s },
        reply: seq![Pdu::CacheResponse { session: s.session_id }] + prefix_pdus(store.vrps, true)
            + seq![end_of_data(s, store, timing)],
    }
}

/// The answer to a serial query.
pub open spec fn since(
    s: RtrSession,
    session: u16,
    serial: u32,
    store: StoreModel,
    timing: Timing,
) -> Outcome {
    if session != s.session_id {
        if s.state == State::Established {
            fail(s, RtrProtocolError::SessionMismatch)
        } else {
            Outcome {
                session: RtrSession { state: State::Established, ..s },
                reply: seq![Pdu::CacheReset],
            }
        }
    } else if serial == store.serial {
        Outcome {
            session: RtrSession { state: State::Established, last_serial: Some(store.serial), ..s },
            reply: seq![end_of_data(s, store, timing)],
        }
    } else {
        match position(store.diffs, serial) {
            Some(i) => Outcome {
                session: RtrSession {
                    state: State::Established,
                    last_serial: Some(store.serial),
                    ..s
                },
                reply: seq![Pdu::CacheResponse { session: s.session_id }] + chain_pdus(
                    store.diffs,
                    i,
                    store.diffs.len() as int,
                ) + seq![end_of_data(s, store, timing)],
            },
            None => Outcome {
                session: RtrSession { state: State::Established, ..s },
                reply: seq![Pdu::CacheReset],
            },
        }
    }
}

/// What a session does on an input.
///
/// A closed session answers nothing.  Unreadable input, a version that is
/// not served or differs from the one the first query fixed, and a unit
/// that is no query end the session with an error report; an error report
/// from the client ends it silently.  A reset query is answered with the
/// whole snapshot.  A serial query is answered with the differences since
/// that serial where the history still holds them all, with an end of data
/// alone where the serial is the current one, and with a cache reset
/// otherwise.  A serial query under another session id is answered with a
/// cache reset where it is the first query, and is an error afterwards.
pub open spec fn respond(s: RtrSession, input: Input, store: StoreModel, timing: Timing) -> Outcome {
    if s.state == State::Closed {
        Outcome { session: s, reply: Seq::empty() }
    } else {
        match input {
            Input::Malformed { code } => fail(s, RtrProtocolError::MalformedPdu { code }),
            Input::Received { version, pdu } => {
                if version > MAX_VERSION {
                    fail(s, RtrProtocolError::UnsupportedVersion)
                } else if s.version is Some && s.version != Some(version) {
                    fail(s, RtrProtocolError::UnexpectedVersion)
                } else {
                    let t = RtrSession { version: Some(version), ..s };
                    match pdu {
                        Pdu::ResetQuery => full_cache(t, store, timing),
                        Pdu::SerialQuery { session, serial } => since(
                            t,
                            session,
                            serial,
                            store,
                            timing,
                        ),
                        Pdu::ErrorReport { code } => Outcome {
                            session: RtrSession { state: State::Closed, ..t },
                            reply: Seq::empty(),
                        },
                        _ => fail(t, RtrProtocolError::InvalidRequest),
                    }
                }
            },
        }
    }
}

impl RtrSession {
    /// The session of a client that has just connected.
    pub fn new(session_id: u16) -> (r: RtrSession)
        ensures
            r == (RtrSession {
                state: State::Init,
                version: None,
                session_id,
                last_serial: None,
            }),
    {
        RtrSession { state: State::Init, version: None, session_id, last_serial: None }
    }

    /// Takes one input, moves the session on, and returns the data units
    /// to send, in order.
    pub fn handle(&mut self, input: &Input, store: &Store, timing: &Timing) -> (r: Vec<Pdu>)
        requires
            store.wf(),
        ensures
            *final(self) == respond(*old(self), *input, store@, *timing).session,
            r@ == respond(*old(self), *input, store@, *timing).reply,
    {
        let mut out: Vec<Pdu> = Vec::new();
        if self.state == State::Closed {
            return out;
        }
        match *input {
            Input::Malformed { code } => {
                self.close(&mut out, RtrProtocolError::MalformedPdu { code });
            },
            Input::Received { version, pdu } => {
                let known = match self.version {
                    Some(v) => v == version,
                    None => true,
                };
                if version > MAX_VERSION {
                    self.close(&mut out, RtrProtocolError::UnsupportedVersion);
                } else if !known {
                    self.close(&mut out, RtrProtocolError::UnexpectedVersion);
                } else {
                    self.version = Some(version);
                    match pdu {
                        Pdu::ResetQuery => {
                            self.send_all(&mut out, store, timing);
                        },
                        Pdu::SerialQuery { session, serial } => {
                            self.send_since(&mut out, session, serial, store, timing);
                        },
                        Pdu::ErrorReport { code } => {
                            self.state = State::Closed;
                        },
                        _ => {
                            self.close(&mut out, RtrProtocolError::InvalidRequest);
                        },
                    }
                }
            },
        }
        out
    }

    /// The notice to send once a new snapshot was published: one for a
    /// session that has been answered before and was not sent the current
    /// serial yet.
    pub fn notify(&self, store: &Store) -> (r: Option<Pdu>)
        requires
            store.wf(),
        ensures
            r == if self.state == State::Established && self.last_serial != Some(store@.serial) {
                Some(Pdu::SerialNotify { session: self.session_id, serial: store@.serial })
            } else {
                None
            },
    {
        let current = store.current().serial();
        let sent = match self.last_serial {
            Some(s) => s == current,
            None => false,
        };
        if self.state == State::Established && !sent {
            Some(Pdu::SerialNotify { session: self.session_id, serial: current })
        } else {
            None
        }
    }

    fn close(&mut self, out: &mut Vec<Pdu>, e: RtrProtocolError)
        requires
            old(out)@.len() == 0,
        ensures
            *final(self) == fail(*old(self), e).session,
            final(out)@ == fail(*old(self), e).reply,
    {
        self.state = State::Closed;
        let code = e.code();
        out.push(Pdu::ErrorReport { code });
        assert(out@ =~= seq![Pdu::ErrorReport { code }]);
    }

    fn send_all(&mut self, out: &mut Vec<Pdu>, store: &Store, timing: &Timing)
        requires
            store.wf(),
            old(out)@.len() == 0,
        ensures
            *final(self) == full_cache(*old(self), store@, *timing).session,
            final(out)@ == full_cache(*old(self), store@, *timing).reply,
    {
        let current = store.current();
        out.push(Pdu::CacheResponse { session: self.session_id });
        push_prefix_pdus(out, current.vrps().entries(), true);
        out.push(
            Pdu::EndOfData { session: self.session_id, serial: current.serial(), timing: *timing },
        );
        self.state = State::Established;
        self.last_serial = Some(current.serial());
        assert(out@ =~= full_cache(*old(self), store@, *timing).reply);
    }

    fn send_since(
        &mut self,
        out: &mut Vec<Pdu>,
        session: u16,
        serial: u32,
        store: &Store,
        timing: &Timing,
    )
        requires
            store.wf(),
            old(self).state != State::Closed,
            old(out)@.len() == 0,
        ensures
            *final(self) == since(*old(self), session, serial, store@, *timing).session,
            final(out)@ == since(*old(self), session, serial, store@, *timing).reply,
    {
        let current = store.current().serial();
        let end = Pdu::EndOfData { session: self.session_id, serial: current, timing: *timing };
        if session != self.session_id {
            if self.state == State::Established {
                self.close(out, RtrProtocolError::SessionMismatch);
            } else {
                self.state = State::Established;
                out.push(Pdu::CacheReset);
                assert(out@ =~= seq![Pdu::CacheReset]);
            }
        } else if serial == current {
            self.state = State::Established;
            self.last_serial = Some(current);
            out.push(end);
            assert(out@ =~= seq![end]);
        } else {
            let history = store.history();
            match history.find(serial) {
                Some(start) => {
                    out.push(Pdu::CacheResponse { session: self.session_id });
                    let n = history.len();
                    let mut i: usize = start;
                    while i < n
                        invariant
                            start <= i <= n,
                            n == history@.len(),
                            history.wf(),
                            out@ == seq![Pdu::CacheResponse { session: self.session_id }]
                                + chain_pdus(history@, start as int, i as int),
                        decreases n - i,
                    {
                        let d = history.get(i);
                        push_prefix_pdus(out, d.removed().entries(), false);
                        push_prefix_pdus(out, d.added().entries(), true);
                        i += 1;
                        assert(out@ =~= seq![Pdu::CacheResponse { session: self.session_id }]
                            + chain_pdus(history@, start as int, i as int));
                    }
                    out.push(end);
                    self.state = State::Established;
                    self.last_serial = Some(current);
                },
                None => {
                    self.state = State::Established;
                    out.push(Pdu::CacheReset);
                    assert(out@ =~= seq![Pdu::CacheReset]);
                },
            }
        }
    }
}

/// A serial query for a serial that is neither the current one nor the
/// start of a difference still held is answered with a cache reset and
/// nothing else.  This holds of every open session whose version the query
/// keeps to, unless the query names another session id after the session
/// was established, which is an error.
pub proof fn law_unknown_serial_resets(
    s: RtrSession,
    version: u8,
    session: u16,
    serial: u32,
    store: StoreModel,
    timing: Timing,
)
    requires
        store.wf(),
        s.state != State::Closed,
        version <= MAX_VERSION,
        s.version is None || s.version == Some(version),
        session == s.session_id || s.state == State::Init,
        serial != store.serial,
        forall|i: int| 0 <= i < store.diffs.len() ==> (#[trigger] store.diffs[i]).from != serial,
    ensures
        respond(
            s,
            Input::Received { version, pdu: Pdu::SerialQuery { session, serial } },
            store,
            timing,
        ).reply == seq![Pdu::CacheReset],
{
    lemma_position(store.diffs, serial);
    match position(store.diffs, serial) {
        Some(i) => {
            assert(store.diffs[i].from == serial);
        },
        None => {},
    }
}

/// The answer to a serial query is never a part of the differences: it is
/// a cache reset alone, an end of data alone, an error report alone, or the
/// units of every difference from the one that starts at the serial up to
/// the newest.
pub proof fn law_serial_answer_is_whole(
    s: RtrSession,
    version: u8,
    session: u16,
    serial: u32,
    store: StoreModel,
    timing: Timing,
)
    requires
        store.wf(),
        s.state != State::Closed,
    ensures
        ({
            let reply = respond(
                s,
                Input::Received { version, pdu: Pdu::SerialQuery { session, serial } },
                store,
                timing,
            ).reply;
            let t = RtrSession { version: Some(version), ..s };
            ||| reply == seq![Pdu::CacheReset]
            ||| reply == seq![end_of_data(t, store, timing)]
            ||| exists|code: u16| reply == seq![Pdu::ErrorReport { code }]
            ||| exists|i: int|
                0 <= i < store.diffs.len() && store.diffs[i].from == serial && reply
                    == seq![Pdu::CacheResponse { session: s.session_id }] + chain_pdus(
                    store.diffs,
                    i,
                    store.diffs.len() as int,
                ) + seq![end_of_data(t, store, timing)]
        }),
{
    lemma_position(store.diffs, serial);
    let input = Input::Received { version, pdu: Pdu::SerialQuery { session, serial } };
    let reply = respond(s, input, store, timing).reply;
    let t = RtrSession { version: Some(version), ..s };
    if version > MAX_VERSION {
        assert(reply == seq![
            Pdu::ErrorReport { code: error_code(RtrProtocolError::UnsupportedVersion) },
        ]);
    } else if s.version is Some && s.version != Some(version) {
        assert(reply == seq![
            Pdu::ErrorReport { code: error_code(RtrProtocolError::UnexpectedVersion) },
        ]);
    } else if session != s.session_id && s.state == State::Established {
        assert(reply == seq![
            Pdu::ErrorReport { code: error_code(RtrProtocolError::SessionMismatch) },
        ]);
    } else if session == s.session_id && serial != store.serial {
        match position(store.diffs, serial) {
            Some(i) => {
                assert(store.diffs[i].from == serial);
            },
            None => {},
        }
    }
}

} // verus!
