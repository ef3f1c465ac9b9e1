use routinator::payload::{Family, Prefix, Vrp, VrpSet};
use routinator::refresh::{add_capped, deadline, is_overdue, next_start, CycleEnd};
use routinator::serial::{distance, next_serial};
use routinator::store::history::{Diff, History};
use routinator::store::publish::Store;

fn vrp(third: u8, asn: u32) -> Vrp {
    let addr = (192u128 << 24) | ((third as u128) << 8);
    Vrp { prefix: Prefix { family: Family::V4, addr, len: 24 }, max_len: 24, asn, source: 1 }
}

fn set(list: &[Vrp]) -> VrpSet {
    VrpSet::from_vec(&list.to_vec())
}

fn apply(base: &VrpSet, diff: &Diff) -> VrpSet {
    let mut out = base.difference(diff.removed());
    out.extend(diff.added());
    out
}

#[test]
fn serials_wrap_at_two_to_the_32() {
    assert_eq!(next_serial(0), 1);
    assert_eq!(next_serial(41), 42);
    assert_eq!(next_serial(u32::MAX), 0);
    assert_eq!(distance(5, 9), 4);
    assert_eq!(distance(9, 9), 0);
    assert_eq!(distance(u32::MAX, 1), 2);
    assert_eq!(distance(9, 5), u32::MAX - 3);
}

#[test]
fn a_new_store_holds_the_empty_snapshot_at_serial_zero() {
    let store = Store::new(10, 1000);
    assert_eq!(store.current().serial(), 0);
    assert_eq!(store.current().created(), 1000);
    assert_eq!(store.current().vrps().len(), 0);
    assert_eq!(store.history().len(), 0);
    assert_eq!(store.history().limit(), 10);
}

#[test]
fn publishing_moves_the_serial_on_and_stores_the_difference() {
    let mut store = Store::new(10, 0);
    let a = vrp(1, 65000);
    let b = vrp(2, 65000);
    let c = vrp(3, 65001);
    assert_eq!(store.publish(set(&[a, b]), 10), 1);
    assert_eq!(store.current().serial(), 1);
    assert_eq!(store.current().created(), 10);
    assert_eq!(store.current().vrps().entries(), &vec![a, b]);
    assert_eq!(store.publish(set(&[b, c]), 20), 2);
    assert_eq!(store.current().vrps().entries(), &vec![b, c]);
    let history = store.history();
    assert_eq!(history.len(), 2);
    let first = history.get(0);
    assert_eq!((first.from_serial(), first.to_serial()), (0, 1));
    assert_eq!(first.added().entries(), &vec![a, b]);
    assert_eq!(first.removed().len(), 0);
    let second = history.get(1);
    assert_eq!((second.from_serial(), second.to_serial()), (1, 2));
    assert_eq!(second.added().entries(), &vec![c]);
    assert_eq!(second.removed().entries(), &vec![a]);
}

#[test]
fn applying_each_difference_gives_the_next_snapshot() {
    let mut store = Store::new(8, 0);
    let sets = vec![
        set(&[vrp(1, 1), vrp(2, 2)]),
        set(&[vrp(2, 2), vrp(3, 3)]),
        set(&[]),
        set(&[vrp(1, 1), vrp(2, 2), vrp(3, 3), vrp(4, 4)]),
        set(&[vrp(4, 4)]),
    ];
    let mut before = VrpSet::new();
    for s in sets.iter() {
        store.publish(s.duplicate(), 0);
        let history = store.history();
        let newest = history.get(history.len() - 1);
        let after = apply(&before, newest);
        assert!(after.same_as(s));
        assert!(after.same_as(store.current().vrps()));
        before = s.duplicate();
    }
}

#[test]
fn an_unchanged_set_still_gets_a_new_serial_and_an_empty_difference() {
    let mut store = Store::new(4, 0);
    store.publish(set(&[vrp(1, 1)]), 0);
    let serial = store.publish(set(&[vrp(1, 1)]), 0);
    assert_eq!(serial, 2);
    let history = store.history();
    let newest = history.get(history.len() - 1);
    assert_eq!((newest.from_serial(), newest.to_serial()), (1, 2));
    assert_eq!(newest.added().len(), 0);
    assert_eq!(newest.removed().len(), 0);
}

#[test]
fn the_history_never_holds_more_than_its_size() {
    let size = 3;
    let mut store = Store::new(size, 0);
    for i in 0..10u8 {
        store.publish(set(&[vrp(i, 1)]), 0);
        assert!(store.history().len() <= size);
    }
    assert_eq!(store.history().len(), size);
}

#[test]
fn after_one_publication_more_than_the_size_the_oldest_difference_is_gone() {
    let size = 4;
    let mut store = Store::new(size, 0);
    let first_serial = store.current().serial();
    for i in 0..(size as u8 + 1) {
        store.publish(set(&[vrp(i, 1)]), 0);
    }
    assert_eq!(store.history().len(), size);
    assert!(store.history().get(0).from_serial() > first_serial);
    assert_eq!(store.history().get(0).from_serial(), 1);
    assert_eq!(store.history().get(size - 1).to_serial(), 5);
}

#[test]
fn the_retained_chain_leads_to_the_current_snapshot() {
    let size = 3;
    let mut store = Store::new(size, 0);
    let mut published: Vec<VrpSet> = vec![VrpSet::new()];
    for i in 0..7u8 {
        let s = set(&[vrp(i, 1), vrp(i + 1, 2)]);
        published.push(s.duplicate());
        store.publish(s, 0);
    }
    let history = store.history();
    let oldest = history.get(0).from_serial() as usize;
    let mut at = published[oldest].duplicate();
    for i in 0..history.len() {
        at = apply(&at, history.get(i));
    }
    assert!(at.same_as(store.current().vrps()));
}

#[test]
fn find_gives_the_position_of_the_difference_from_a_serial() {
    let mut store = Store::new(3, 0);
    for i in 0..5u8 {
        store.publish(set(&[vrp(i, 1)]), 0);
    }
    let history = store.history();
    assert_eq!(history.find(0), None);
    assert_eq!(history.find(1), None);
    assert_eq!(history.find(2), Some(0));
    assert_eq!(history.find(3), Some(1));
    assert_eq!(history.find(4), Some(2));
    assert_eq!(history.find(5), None);
    assert_eq!(history.find(99), None);
    assert_eq!(history.find(u32::MAX), None);
}

#[test]
fn a_history_of_size_zero_keeps_nothing() {
    let mut store = Store::new(0, 0);
    store.publish(set(&[vrp(1, 1)]), 0);
    store.publish(set(&[vrp(2, 1)]), 0);
    assert_eq!(store.current().serial(), 2);
    assert_eq!(store.history().len(), 0);
    assert_eq!(store.history().find(1), None);
}

#[test]
fn a_history_keeps_differences_in_order_when_the_ring_turns() {
    let mut history = History::new(2);
    let empty = VrpSet::new();
    let sets = vec![set(&[vrp(1, 1)]), set(&[vrp(2, 1)]), set(&[vrp(3, 1)]), set(&[vrp(4, 1)])];
    let mut before = &empty;
    for (i, s) in sets.iter().enumerate() {
        history.push(Diff::between(i as u32, before, i as u32 + 1, s));
        before = s;
    }
    assert_eq!(history.len(), 2);
    assert_eq!(history.get(0).from_serial(), 2);
    assert_eq!(history.get(0).added().entries(), &vec![vrp(3, 1)]);
    assert_eq!(history.get(1).from_serial(), 3);
    assert_eq!(history.get(1).removed().entries(), &vec![vrp(3, 1)]);
}

#[test]
fn a_cycle_is_given_up_after_refresh_and_retry() {
    assert_eq!(deadline(1_000, 3600, 600), 5_200);
    assert!(!is_overdue(1_000, 5_200, 3600, 600));
    assert!(is_overdue(1_000, 5_201, 3600, 600));
    assert_eq!(deadline(u64::MAX - 5, 3600, 600), u64::MAX);
    assert!(!is_overdue(u64::MAX - 5, u64::MAX, 3600, 600));
    assert_eq!(add_capped(u64::MAX, 1), u64::MAX);
    assert_eq!(add_capped(2, 3), 5);
    assert_eq!(next_start(10_000, CycleEnd::Published, 3600, 600), 13_600);
    assert_eq!(next_start(10_000, CycleEnd::Failed, 3600, 600), 10_600);
    assert_eq!(next_start(10_000, CycleEnd::Abandoned, 3600, 600), 10_600);
}
