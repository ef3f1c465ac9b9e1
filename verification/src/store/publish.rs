//! The store: the current snapshot, and the differences that led to it.

use vstd::prelude::*;
use crate::payload::{Vrp, VrpSet};
use crate::serial::{next_serial, serial_add, serial_next};
use crate::store::history::{
    contiguous, law_diff_applies, lemma_chain_drop_first, lemma_chain_push, limit_of,
    push_bounded, replay, Diff, DiffView, History,
};

verus! {

/// A set of payloads as published: numbered, timestamped, and never changed
/// afterwards.
#[derive(Debug)]
pub struct Snapshot {
    serial: u32,
    created: u64,
    vrps: VrpSet,
}

impl View for Snapshot {
    type V = Set<Vrp>;

    open spec fn view(&self) -> Set<Vrp> {
        self.seq().to_set()
    }
}

impl Snapshot {
    /// No payload is held twice.
    pub closed spec fn wf(&self) -> bool {
        self.vrps.wf()
    }

    /// The serial the snapshot was published under.
    pub closed spec fn spec_serial(&self) -> u32 {
        self.serial
    }

    /// The time the snapshot was published at.
    pub closed spec fn spec_created(&self) -> u64 {
        self.created
    }

    /// The payloads in the order they are held.
    pub closed spec fn seq(&self) -> Seq<Vrp> {
        self.vrps.seq()
    }

    /// The serial the snapshot was published under.
    pub fn serial(&self) -> (r: u32)
        ensures
            r == self.spec_serial(),
    {
        self.serial
    }

    /// The time the snapshot was published at.
    pub fn created(&self) -> (r: u64)
        ensures
            r == self.spec_created(),
    {
        self.created
    }

    /// The payloads of the snapshot: no two of them are equal in prefix,
    /// maximum length, origin and source.
    pub fn vrps(&self) -> (r: &VrpSet)
        requires
            self.wf(),
        ensures
            r.wf(),
            r@ == self@,
            r.seq() == self.seq(),
            r.seq().no_duplicates(),
    {
        proof {
            self.vrps.lemma_distinct();
        }
        &self.vrps
    }
}

/// What a store holds, as plain values.
pub struct StoreModel {
    /// The serial of the current snapshot.
    pub serial: u32,
    /// The time the current snapshot was published at.
    pub created: u64,
    /// The payloads of the current snapshot, in the order they are held.
    pub vrps: Seq<Vrp>,
    /// The differences kept, oldest first.
    pub diffs: Seq<DiffView>,
    /// The most differences kept.
    pub limit: nat,
    /// The payloads of the snapshot that the oldest difference starts from.
    pub origin: Set<Vrp>,
}

impl StoreModel {
    /// The store as it starts: the empty snapshot, published under
    /// serial 0.
    pub open spec fn initial(limit: nat, now: u64) -> StoreModel {
        StoreModel {
            serial: 0,
            created: now,
            vrps: Seq::empty(),
            diffs: Seq::empty(),
            limit,
            origin: Set::empty(),
        }
    }

    /// The difference that publishing `set` adds to the history.
    pub open spec fn diff_to(self, set: Seq<Vrp>) -> DiffView {
        DiffView::between(self.serial, self.vrps, serial_next(self.serial), set)
    }

    /// The store after `set` was published at time `now`: the next serial,
    /// and the difference to the set before it behind the others.
    pub open spec fn publish(self, set: Seq<Vrp>, now: u64) -> StoreModel {
        StoreModel {
            serial: serial_next(self.serial),
            created: now,
            vrps: set,
            diffs: push_bounded(self.diffs, self.diff_to(set), self.limit),
            limit: self.limit,
            origin: if self.limit == 0 {
                set.to_set()
            } else if self.diffs.len() < self.limit {
                self.origin
            } else {
                self.diffs[0].apply(self.origin)
            },
        }
    }

    /// The store after each of `sets` was published in turn.
    pub open spec fn publish_all(self, sets: Seq<Seq<Vrp>>, now: u64) -> StoreModel
        decreases sets.len(),
    {
        if sets.len() == 0 {
            self
        } else {
            self.publish_all(sets.drop_last(), now).publish(sets.last(), now)
        }
    }

    /// The history is within its limit and forms one chain that ends at the
    /// current serial; applied in order to the set it starts from, it gives
    /// the current set.
    pub open spec fn wf(self) -> bool {
        &&& self.limit <= u32::MAX
        &&& self.diffs.len() <= self.limit
        &&& contiguous(self.diffs)
        &&& self.diffs.len() > 0 ==> self.diffs.last().to == self.serial
        &&& replay(self.origin, self.diffs) == self.vrps.to_set()
    }

    /// The payloads of the snapshot that difference `i` starts from.
    pub open spec fn set_at(self, i: int) -> Set<Vrp> {
        replay(self.origin, self.diffs.take(i))
    }
}

/// The current snapshot and the history that led to it.
pub struct Store {
    current: Snapshot,
    history: History,
    origin: Ghost<Set<Vrp>>,
}

impl View for Store {
    type V = StoreModel;

    closed spec fn view(&self) -> StoreModel {
        StoreModel {
            serial: self.current.serial,
            created: self.current.created,
            vrps: self.current.seq(),
            diffs: self.history@,
            limit: self.history.spec_limit(),
            origin: self.origin@,
        }
    }
}

impl Store {
    /// The parts are well-formed, and so is the whole.
    pub closed spec fn wf(&self) -> bool {
        &&& self.current.wf()
        &&& self.history.wf()
        &&& self@.wf()
    }

    /// The current snapshot.
    pub closed spec fn spec_current(&self) -> Snapshot {
        self.current
    }

    /// The history.
    pub closed spec fn spec_history(&self) -> History {
        self.history
    }

    /// What a well-formed store holds is well-formed, so that what holds
    /// of every well-formed model holds of it; and it is what its parts
    /// hold.
    pub proof fn law_model_well_formed(&self)
        requires
            self.wf(),
        ensures
            self@.wf(),
            self.spec_current().wf(),
            self.spec_history().wf(),
            self.spec_current().seq() == self@.vrps,
            self.spec_current().spec_serial() == self@.serial,
            self.spec_current().spec_created() == self@.created,
            self.spec_history()@ == self@.diffs,
            self.spec_history().spec_limit() == self@.limit,
    {
    }

    /// A store that has published the empty snapshot under serial 0 and
    /// keeps up to `limit_of(history_size)` differences.
    pub fn new(history_size: usize, now: u64) -> (r: Store)
        ensures
            r.wf(),
            r@ == StoreModel::initial(limit_of(history_size), now),
    {
        let r = Store {
            current: Snapshot { serial: 0, created: now, vrps: VrpSet::new() },
            history: History::new(history_size),
            origin: Ghost(Set::empty()),
        };
        assert(r@.diffs =~= Seq::<DiffView>::empty());
        r
    }

    /// Publishes `vrps` as the next snapshot and returns its serial.  The
    /// serial moves on also where the set is the one before.
    pub fn publish(&mut self, vrps: VrpSet, now: u64) -> (r: u32)
        requires
            old(self).wf(),
            vrps.wf(),
        ensures
            final(self).wf(),
            final(self)@ == old(self)@.publish(vrps.seq(), now),
            r == final(self)@.serial,
    {
        let ghost before = self@;
        let to = next_serial(self.current.serial);
        let diff = Diff::between(self.current.serial, &self.current.vrps, to, &vrps);
        proof {
            law_publish_keeps_chain(before, vrps.seq(), now);
        }
        self.history.push(diff);
        self.current = Snapshot { serial: to, created: now, vrps };
        self.origin = Ghost(before.publish(vrps.seq(), now).origin);
        to
    }

    /// The current snapshot.
    pub fn current(&self) -> (r: &Snapshot)
        requires
            self.wf(),
        ensures
            r.wf(),
            *r == self.spec_current(),
            r.seq() == self@.vrps,
            r.spec_serial() == self@.serial,
            r.spec_created() == self@.created,
    {
        &self.current
    }

    /// The history.
    pub fn history(&self) -> (r: &History)
        requires
            self.wf(),
        ensures
            r.wf(),
            *r == self.spec_history(),
            r@ == self@.diffs,
            r.spec_limit() == self@.limit,
    {
        &self.history
    }
}

/// Applying `front` and then `back` is applying the two in a row.
pub proof fn lemma_replay_split(set: Set<Vrp>, front: Seq<DiffView>, back: Seq<DiffView>)
    ensures
        replay(set, front + back) == replay(replay(set, front), back),
    decreases back.len(),
{
    if back.len() == 0 {
        assert(front + back =~= front);
    } else {
        lemma_replay_split(set, front, back.drop_last());
        assert((front + back).drop_last() =~= front + back.drop_last());
        assert((front + back).last() == back.last());
    }
}

/// For two consecutive snapshots: the difference that publishing stores for
/// them, applied to the payloads of the first, gives exactly the payloads of
/// the second.
pub proof fn law_published_diff_applies(m: StoreModel, set: Seq<Vrp>, now: u64)
    requires
        m.wf(),
    ensures
        m.diff_to(set).apply(m.vrps.to_set()) == m.publish(set, now).vrps.to_set(),
        m.diff_to(set).from == m.serial,
        m.diff_to(set).to == m.publish(set, now).serial,
        m.limit > 0 ==> m.publish(set, now).diffs.last() == m.diff_to(set),
{
    law_diff_applies(m.serial, m.vrps, serial_next(m.serial), set);
}

/// Publishing keeps the store well-formed: the history stays within its
/// limit, stays one chain up to the current serial, and still leads from
/// the oldest retained set to the current one.
pub proof fn law_publish_keeps_chain(m: StoreModel, set: Seq<Vrp>, now: u64)
    requires
        m.wf(),
    ensures
        m.publish(set, now).wf(),
        History::continues(m.diffs, m.diff_to(set)),
{
    let d = m.diff_to(set);
    let n = m.publish(set, now);
    law_diff_applies(m.serial, m.vrps, serial_next(m.serial), set);
    if m.limit == 0 {
    } else if m.diffs.len() < m.limit {
        lemma_chain_push(m.diffs, d);
        assert(n.diffs.drop_last() =~= m.diffs);
    } else {
        let rest = m.diffs.drop_first();
        assert(m.diffs.subrange(m.diffs.len() - m.limit + 1, m.diffs.len() as int) =~= rest);
        lemma_chain_drop_first(m.diffs);
        lemma_chain_push(rest, d);
        assert(n.diffs.drop_last() =~= rest);
        let first = seq![m.diffs[0]];
        assert(first + rest =~= m.diffs);
        lemma_replay_split(m.origin, first, rest);
        assert(first.drop_last() =~= Seq::<DiffView>::empty());
        assert(replay(m.origin, first.drop_last()) == m.origin);
        assert(first.last() == m.diffs[0]);
        assert(replay(m.origin, first) == m.diffs[0].apply(m.origin));
    }
}

/// The differences from position `i` on, applied in order to the set that
/// difference `i` starts from, give the current set.
pub proof fn law_chain_reproduces(m: StoreModel, i: int)
    requires
        m.wf(),
        0 <= i <= m.diffs.len(),
    ensures
        replay(m.set_at(i), m.diffs.skip(i)) == m.vrps.to_set(),
{
    lemma_replay_split(m.origin, m.diffs.take(i), m.diffs.skip(i));
    assert(m.diffs.take(i) + m.diffs.skip(i) =~= m.diffs);
}

/// What one publication does to the length of the history and to the
/// serial its oldest difference starts from.
pub proof fn lemma_publish_step(m: StoreModel, set: Seq<Vrp>, now: u64)
    requires
        m.wf(),
    ensures
        ({
            let n = m.publish(set, now);
            &&& n.wf()
            &&& n.limit == m.limit
            &&& n.serial == serial_add(m.serial, 1)
            &&& n.diffs.len() == if m.diffs.len() < m.limit {
                m.diffs.len() + 1
            } else {
                m.limit
            }
            &&& n.diffs.len() > 0 ==> n.diffs[0].from == if m.diffs.len() == 0 {
                m.serial
            } else if m.diffs.len() < m.limit {
                m.diffs[0].from
            } else {
                serial_add(m.diffs[0].from, 1)
            }
        }),
{
    law_publish_keeps_chain(m, set, now);
    let n = m.publish(set, now);
    let d = m.diff_to(set);
    if m.limit == 0 {
    } else if m.diffs.len() < m.limit {
        assert(n.diffs =~= m.diffs.push(d));
        if m.diffs.len() > 0 {
            assert(n.diffs[0] == m.diffs[0]);
        } else {
            assert(n.diffs[0] == d);
        }
    } else {
        let rest = m.diffs.drop_first();
        assert(m.diffs.subrange(m.diffs.len() - m.limit + 1, m.diffs.len() as int) =~= rest);
        assert(n.diffs =~= rest.push(d));
        lemma_chain_drop_first(m.diffs);
        if rest.len() > 0 {
            assert(n.diffs[0] == rest[0]);
        } else {
            assert(n.diffs[0] == d);
            assert(m.diffs.last() == m.diffs[0]);
        }
    }
}

/// After `n` publications a store holds the last `n` differences, or as
/// many as its limit allows, and the oldest of them starts `n` minus that
/// many serials after the first serial.
pub proof fn lemma_history_after(limit: nat, sets: Seq<Seq<Vrp>>, now: u64)
    requires
        limit <= u32::MAX,
    ensures
        ({
            let m = StoreModel::initial(limit, now).publish_all(sets, now);
            &&& m.wf()
            &&& m.limit == limit
            &&& m.serial == serial_add(0, sets.len())
            &&& m.diffs.len() == if sets.len() < limit {
                sets.len()
            } else {
                limit
            }
            &&& m.diffs.len() > 0 ==> m.diffs[0].from == serial_add(
                0,
                (sets.len() - m.diffs.len()) as nat,
            )
        }),
    decreases sets.len(),
{
    let start = StoreModel::initial(limit, now);
    if sets.len() == 0 {
        assert(Seq::<Vrp>::empty().to_set() =~= Set::<Vrp>::empty());
    } else {
        let before = start.publish_all(sets.drop_last(), now);
        lemma_history_after(limit, sets.drop_last(), now);
        lemma_publish_step(before, sets.last(), now);
        let m = before.publish(sets.last(), now);
        assert(m == start.publish_all(sets, now));
        let k = (sets.len() - 1) as nat;
        crate::serial::lemma_add_add(0, k, 1);
        if before.diffs.len() > 0 {
            crate::serial::lemma_add_add(0, (k - before.diffs.len()) as nat, 1);
        }
    }
}

/// A store never holds more differences than its limit; and once one more
/// snapshot was published than the limit, the oldest difference still held
/// starts from a serial greater than the first one.
pub proof fn law_history_bounded(limit: nat, sets: Seq<Seq<Vrp>>, now: u64)
    requires
        limit <= u32::MAX,
    ensures
        StoreModel::initial(limit, now).publish_all(sets, now).diffs.len() <= limit,
        sets.len() == limit + 1 && limit >= 1 ==> StoreModel::initial(limit, now).publish_all(
            sets,
            now,
        ).diffs[0].from > StoreModel::initial(limit, now).serial,
{
    lemma_history_after(limit, sets, now);
}

/// The first two publications of a store: the first snapshot has serial
/// 1 and holds the payloads published first; the second has serial 2 and
/// holds the payloads published second; and where the store keeps
/// differences at all, the newest leads from serial 1 to serial 2, adds
/// what the second holds beyond the first, and removes what the first
/// holds beyond the second.
pub proof fn law_first_two_cycles(limit: nat, a: Seq<Vrp>, b: Seq<Vrp>, t0: u64, t1: u64, t2: u64)
    ensures
        ({
            let first = StoreModel::initial(limit, t0).publish(a, t1);
            let second = first.publish(b, t2);
            &&& first.serial == 1
            &&& first.vrps == a
            &&& second.serial == 2
            &&& second.vrps == b
            &&& limit > 0 ==> second.diffs.len() > 0 && second.diffs.last() == DiffView::between(
                1,
                a,
                2,
                b,
            )
        }),
{
}

} // verus!
