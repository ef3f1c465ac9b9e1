//! Differences between consecutive snapshots, and a ring that keeps the
//! most recent of them.

use vstd::prelude::*;
use crate::payload::{lemma_filter_distinct, not_in, Vrp, VrpSet};
use crate::serial::{distance, serial_add, serial_distance};

verus! {

/// A difference as plain values: the serials it leads from and to, and
/// the payloads added and removed, in the order they are held.
pub struct DiffView {
    pub from: u32,
    pub to: u32,
    pub added: Seq<Vrp>,
    pub removed: Seq<Vrp>,
}

impl DiffView {
    /// The set that results from removing `removed` and adding `added`.
    pub open spec fn apply(self, set: Set<Vrp>) -> Set<Vrp> {
        set.difference(self.removed.to_set()).union(self.added.to_set())
    }

    /// The difference that leads from the payloads `old_list` at `from` to
    /// the payloads `new_list` at `to`: what is new is added, what is gone
    /// is removed.
    pub open spec fn between(from: u32, old_list: Seq<Vrp>, to: u32, new_list: Seq<Vrp>) -> DiffView {
        DiffView {
            from,
            to,
            added: not_in(new_list, old_list.to_set()),
            removed: not_in(old_list, new_list.to_set()),
        }
    }
}

/// Applying the difference between two lists to the payloads of the first
/// gives the payloads of the second.
pub proof fn law_diff_applies(from: u32, old_list: Seq<Vrp>, to: u32, new_list: Seq<Vrp>)
    ensures
        DiffView::between(from, old_list, to, new_list).apply(old_list.to_set())
            == new_list.to_set(),
{
    let d = DiffView::between(from, old_list, to, new_list);
    lemma_filter_distinct(new_list, |v: Vrp| !old_list.to_set().contains(v));
    lemma_filter_distinct(old_list, |v: Vrp| !new_list.to_set().contains(v));
    assert(d.apply(old_list.to_set()) =~= new_list.to_set());
}

/// The set that results from applying `diffs` in order to `set`.
pub open spec fn replay(set: Set<Vrp>, diffs: Seq<DiffView>) -> Set<Vrp>
    decreases diffs.len(),
{
    if diffs.len() == 0 {
        set
    } else {
        diffs.last().apply(replay(set, diffs.drop_last()))
    }
}

/// Each difference leads one serial on, and starts where the one before it
/// ended.
pub open spec fn contiguous(diffs: Seq<DiffView>) -> bool {
    forall|i: int|
        0 <= i < diffs.len() ==> {
            &&& (#[trigger] diffs[i]).from == serial_add(diffs[0].from, i as nat)
            &&& diffs[i].to == serial_add(diffs[0].from, (i + 1) as nat)
        }
}

/// The position in `diffs` of the difference that starts from `serial`.
pub open spec fn position(diffs: Seq<DiffView>, serial: u32) -> Option<int> {
    if diffs.len() > 0 && serial_distance(diffs[0].from, serial) < diffs.len() {
        Some(serial_distance(diffs[0].from, serial) as int)
    } else {
        None
    }
}

/// In a chain of fewer than 2^32 differences, `position` finds the one
/// difference that starts from `serial`, and finds none only where there is
/// none.
pub proof fn lemma_position(diffs: Seq<DiffView>, serial: u32)
    requires
        contiguous(diffs),
        diffs.len() <= u32::MAX,
    ensures
        forall|i: int|
            0 <= i < diffs.len() ==> ((#[trigger] diffs[i]).from == serial <==> position(
                diffs,
                serial,
            ) == Some(i)),
        position(diffs, serial) is Some ==> 0 <= position(diffs, serial).unwrap() < diffs.len(),
{
    if diffs.len() > 0 {
        assert forall|i: int| 0 <= i < diffs.len() implies ((#[trigger] diffs[i]).from == serial
            <==> position(diffs, serial) == Some(i)) by {
            crate::serial::lemma_distance(diffs[0].from, serial, i as nat);
        }
    }
}

/// `diffs` with `d` behind it, without its oldest entries where it would
/// otherwise hold more than `limit`.
pub open spec fn push_bounded(diffs: Seq<DiffView>, d: DiffView, limit: nat) -> Seq<DiffView> {
    if limit == 0 {
        Seq::empty()
    } else if diffs.len() < limit {
        diffs.push(d)
    } else {
        diffs.subrange(diffs.len() - limit + 1, diffs.len() as int).push(d)
    }
}

/// The difference between two consecutive snapshots.
#[derive(Debug)]
pub struct Diff {
    from: u32,
    to: u32,
    added: VrpSet,
    removed: VrpSet,
}

impl View for Diff {
    type V = DiffView;

    closed spec fn view(&self) -> DiffView {
        DiffView {
            from: self.from,
            to: self.to,
            added: self.added.seq(),
            removed: self.removed.seq(),
        }
    }
}

impl Diff {
    /// Both sets are duplicate-free.
    pub closed spec fn wf(&self) -> bool {
        self.added.wf() && self.removed.wf()
    }

    /// The difference that leads from `old_set` at serial `from` to
    /// `new_set` at serial `to`: what is new is added, what is gone is
    /// removed.
    pub fn between(from: u32, old_set: &VrpSet, to: u32, new_set: &VrpSet) -> (r: Diff)
        requires
            old_set.wf(),
            new_set.wf(),
        ensures
            r.wf(),
            r@ == DiffView::between(from, old_set.seq(), to, new_set.seq()),
    {
        Diff { from, to, added: new_set.difference(old_set), removed: old_set.difference(new_set) }
    }

    /// The serial this difference starts from.
    pub fn from_serial(&self) -> (r: u32)
        ensures
            r == self@.from,
    {
        self.from
    }

    /// The serial this difference leads to.
    pub fn to_serial(&self) -> (r: u32)
        ensures
            r == self@.to,
    {
        self.to
    }

    /// The payloads added.
    pub fn added(&self) -> (r: &VrpSet)
        requires
            self.wf(),
        ensures
            r.wf(),
            r.seq() == self@.added,
    {
        &self.added
    }

    /// The payloads removed.
    pub fn removed(&self) -> (r: &VrpSet)
        requires
            self.wf(),
        ensures
            r.wf(),
            r.seq() == self@.removed,
    {
        &self.removed
    }
}

/// The largest number of differences a history of the given size keeps:
/// the size itself, but never as many as there are serials.
pub open spec fn limit_of(history_size: usize) -> nat {
    if history_size > u32::MAX {
        u32::MAX as nat
    } else {
        history_size as nat
    }
}

/// A ring of the most recent differences, oldest first.
#[derive(Debug)]
pub struct History {
    limit: usize,
    slots: Vec<Diff>,
    head: usize,
}

impl View for History {
    type V = Seq<DiffView>;

    closed spec fn view(&self) -> Seq<DiffView> {
        self.order().map_values(|d: Diff| d@)
    }
}

impl History {
    /// The slots from the oldest entry on.
    closed spec fn order(&self) -> Seq<Diff> {
        self.slots@.subrange(self.head as int, self.slots@.len() as int) + self.slots@.subrange(
            0,
            self.head as int,
        )
    }

    /// The most differences this history keeps.
    pub closed spec fn spec_limit(&self) -> nat {
        self.limit as nat
    }

    /// The ring is within its limit, and its differences form one chain.
    pub closed spec fn wf(&self) -> bool {
        &&& self.limit <= u32::MAX
        &&& self.slots@.len() <= self.limit
        &&& self.head <= self.slots@.len()
        &&& self.head < self.slots@.len() || self.head == 0
        &&& self.slots@.len() < self.limit ==> self.head == 0
        &&& forall|i: int| 0 <= i < self.slots@.len() ==> (#[trigger] self.slots@[i]).wf()
        &&& contiguous(self@)
    }

    /// An empty history that keeps up to `limit_of(history_size)`
    /// differences.
    pub fn new(history_size: usize) -> (r: History)
        ensures
            r.wf(),
            r@ == Seq::<DiffView>::empty(),
            r.spec_limit() == limit_of(history_size),
    {
        let limit: usize = if history_size > 0xffff_ffff {
            0xffff_ffff
        } else {
            history_size
        };
        let r = History { limit, slots: Vec::new(), head: 0 };
        assert(r@ =~= Seq::<DiffView>::empty());
        r
    }

    /// The most differences this history keeps.
    pub fn limit(&self) -> (r: usize)
        ensures
            r == self.spec_limit(),
    {
        self.limit
    }

    /// The number of differences held: never more than the limit.
    pub fn len(&self) -> (r: usize)
        requires
            self.wf(),
        ensures
            r == self@.len(),
            r <= self.spec_limit(),
    {
        self.slots.len()
    }

    /// The `i`-th oldest difference.
    pub fn get(&self, i: usize) -> (r: &Diff)
        requires
            self.wf(),
            i < self@.len(),
        ensures
            r.wf(),
            r@ == self@[i as int],
    {
        let n = self.slots.len();
        if i < n - self.head {
            &self.slots[self.head + i]
        } else {
            &self.slots[i - (n - self.head)]
        }
    }

    /// The position of the difference that starts from `serial`, if one is
    /// held.
    pub fn find(&self, serial: u32) -> (r: Option<usize>)
        requires
            self.wf(),
        ensures
            match r {
                Some(i) => position(self@, serial) == Some(i as int) && i < self@.len() && self@[i as int].from
                    == serial,
                None => position(self@, serial) is None && forall|i: int|
                    0 <= i < self@.len() ==> (#[trigger] self@[i]).from != serial,
            },
    {
        proof {
            lemma_position(self@, serial);
        }
        if self.slots.len() == 0 {
            return None;
        }
        let oldest = self.get(0).from_serial();
        let d = distance(oldest, serial) as usize;
        if d < self.slots.len() {
            Some(d)
        } else {
            None
        }
    }

    /// Whether `next` may follow what is held: it leads one serial on, and
    /// starts where the newest difference ended.
    pub open spec fn continues(chain: Seq<DiffView>, next: DiffView) -> bool {
        &&& next.to == serial_add(next.from, 1)
        &&& chain.len() > 0 ==> chain.last().to == next.from
    }

    /// Puts `diff` behind the newest difference; where the history is at
    /// its limit, the oldest one leaves.
    pub fn push(&mut self, diff: Diff)
        requires
            old(self).wf(),
            diff.wf(),
            Self::continues(old(self)@, diff@),
        ensures
            final(self).wf(),
            final(self).spec_limit() == old(self).spec_limit(),
            final(self)@ == push_bounded(old(self)@, diff@, old(self).spec_limit()),
    {
        let ghost before = self@;
        let ghost d = diff@;
        if self.limit == 0 {
            assert(self@ =~= Seq::<DiffView>::empty());
        } else if self.slots.len() < self.limit {
            assert(self.order() =~= self.slots@);
            self.slots.push(diff);
            assert(self.order() =~= self.slots@);
            assert(self@ =~= before.push(d));
            proof {
                lemma_chain_push(before, d);
            }
        } else {
            let n = self.slots.len();
            let h = self.head;
            let ghost old_slots = self.slots@;
            self.slots.set(h, diff);
            self.head = if h + 1 == n {
                0
            } else {
                h + 1
            };
            assert(self.order() =~= (old_slots.subrange(h as int, n as int) + old_slots.subrange(
                0,
                h as int,
            )).drop_first().push(diff));
            assert(self@ =~= before.drop_first().push(d));
            assert(before.subrange(before.len() - self.limit + 1, before.len() as int)
                =~= before.drop_first());
            proof {
                lemma_chain_drop_first(before);
                lemma_chain_push(before.drop_first(), d);
            }
        }
    }
}

/// A chain stays one when a difference that continues it is put behind it.
pub proof fn lemma_chain_push(chain: Seq<DiffView>, d: DiffView)
    requires
        contiguous(chain),
        History::continues(chain, d),
    ensures
        contiguous(chain.push(d)),
{
    let next = chain.push(d);
    assert forall|i: int| 0 <= i < next.len() implies {
        &&& (#[trigger] next[i]).from == serial_add(next[0].from, i as nat)
        &&& next[i].to == serial_add(next[0].from, (i + 1) as nat)
    } by {
        if i < chain.len() {
            assert(next[i] == chain[i]);
            assert(next[0] == chain[0]);
        } else if chain.len() > 0 {
            assert(next[0] == chain[0]);
            assert(chain.last() == chain[chain.len() - 1]);
        }
    }
}

/// A chain stays one when its oldest difference leaves.
pub proof fn lemma_chain_drop_first(chain: Seq<DiffView>)
    requires
        contiguous(chain),
        chain.len() > 0,
    ensures
        contiguous(chain.drop_first()),
        chain.len() > 1 ==> chain.drop_first()[0].from == serial_add(chain[0].from, 1),
{
    let rest = chain.drop_first();
    assert forall|i: int| 0 <= i < rest.len() implies {
        &&& (#[trigger] rest[i]).from == serial_add(rest[0].from, i as nat)
        &&& rest[i].to == serial_add(rest[0].from, (i + 1) as nat)
    } by {
        assert(rest[i] == chain[i + 1]);
        assert(rest[0] == chain[1]);
    }
}

} // verus!
