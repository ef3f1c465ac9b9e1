use routinator::exceptions::{does_prefix_cover, gather, Filter, LocalExceptions};
use routinator::payload::{Family, Prefix, Vrp, VrpSet};
use routinator::validation::resources::{
    covers_range, find_cover, is_bounded, is_canonical, is_within, Range, ResourceSet,
};

fn r(lo: u128, hi: u128) -> Range {
    Range { lo, hi }
}

fn v4(a: u8, b: u8, c: u8, len: u8) -> Prefix {
    let addr = ((a as u128) << 24) | ((b as u128) << 16) | ((c as u128) << 8);
    Prefix { family: Family::V4, addr, len }
}

fn vrp(p: Prefix, max_len: u8, asn: u32) -> Vrp {
    Vrp { prefix: p, max_len, asn, source: 1 }
}

#[test]
fn find_cover_finds_a_range_that_holds_the_number() {
    let ranges = vec![r(10, 20), r(30, 40)];
    assert_eq!(find_cover(&ranges, 10), Some(0));
    assert_eq!(find_cover(&ranges, 40), Some(1));
    assert_eq!(find_cover(&ranges, 25), None);
    assert_eq!(find_cover(&vec![], 0), None);
}

#[test]
fn covers_range_walks_over_adjacent_and_overlapping_ranges() {
    let ranges = vec![r(21, 30), r(10, 20), r(25, 40), r(50, 60)];
    assert!(covers_range(&ranges, 10, 40));
    assert!(covers_range(&ranges, 15, 35));
    assert!(covers_range(&ranges, 50, 60));
    assert!(!covers_range(&ranges, 10, 41));
    assert!(!covers_range(&ranges, 9, 12));
    assert!(!covers_range(&ranges, 40, 50));
    assert!(covers_range(&ranges, 5, 4));
    assert!(covers_range(&vec![r(0, u128::MAX)], 0, u128::MAX));
    assert!(!covers_range(&vec![r(1, u128::MAX)], 0, u128::MAX));
}

#[test]
fn is_within_compares_the_numbers_held() {
    let outer = vec![r(0, 9), r(10, 19), r(40, 49)];
    assert!(is_within(&vec![r(5, 15)], &outer));
    assert!(is_within(&vec![r(0, 19), r(45, 45)], &outer));
    assert!(is_within(&vec![], &outer));
    assert!(is_within(&vec![r(30, 20)], &outer));
    assert!(!is_within(&vec![r(15, 25)], &outer));
    assert!(!is_within(&vec![r(41, 42), r(39, 41)], &outer));
}

#[test]
fn canonical_ranges_are_sorted_apart_and_not_empty() {
    assert!(is_canonical(&vec![]));
    assert!(is_canonical(&vec![r(1, 2), r(4, 4), r(6, 9)]));
    assert!(!is_canonical(&vec![r(1, 2), r(3, 4)]));
    assert!(!is_canonical(&vec![r(4, 5), r(1, 2)]));
    assert!(!is_canonical(&vec![r(2, 1)]));
    assert!(!is_canonical(&vec![r(0, u128::MAX), r(0, 0)]));
    assert!(is_bounded(&vec![r(0, 10)], 10));
    assert!(!is_bounded(&vec![r(0, 11)], 10));
}

#[test]
fn resource_sets_compare_family_by_family() {
    let outer = ResourceSet { v4: vec![r(0, 100)], v6: vec![r(0, 100)], asns: vec![r(64496, 64511)] };
    let inner = ResourceSet { v4: vec![r(5, 6)], v6: vec![], asns: vec![r(64500, 64500)] };
    let wrong_asn = ResourceSet { v4: vec![r(5, 6)], v6: vec![], asns: vec![r(1, 1)] };
    let wrong_v6 = ResourceSet { v4: vec![], v6: vec![r(101, 101)], asns: vec![] };
    assert!(inner.is_subset_of(&outer));
    assert!(!wrong_asn.is_subset_of(&outer));
    assert!(!wrong_v6.is_subset_of(&outer));
    assert!(outer.is_well_formed());
    assert!(outer.is_conformant());
    let big = ResourceSet { v4: vec![r(0, 0x1_0000_0000)], v6: vec![], asns: vec![] };
    assert!(!big.is_well_formed());
    let holder = ResourceSet { v4: vec![r(0xc000_0200, 0xc000_02ff)], v6: vec![], asns: vec![] };
    assert!(holder.has_prefix(&v4(192, 0, 2, 24)));
    assert!(holder.has_prefix(&v4(192, 0, 2, 25)));
    assert!(!holder.has_prefix(&v4(192, 0, 2, 23)));
    assert!(!holder.has_prefix(&Prefix { family: Family::V6, addr: 0xc000_0200, len: 128 }));
}

#[test]
fn a_prefix_covers_the_more_specific_ones() {
    assert!(does_prefix_cover(&v4(192, 0, 2, 24), &v4(192, 0, 2, 24)));
    assert!(does_prefix_cover(&v4(192, 0, 0, 16), &v4(192, 0, 2, 24)));
    assert!(!does_prefix_cover(&v4(192, 0, 2, 24), &v4(192, 0, 0, 16)));
    assert!(!does_prefix_cover(&v4(192, 0, 2, 24), &v4(192, 0, 3, 24)));
    let six = Prefix { family: Family::V6, addr: 0, len: 0 };
    assert!(!does_prefix_cover(&six, &v4(192, 0, 2, 24)));
}

#[test]
fn exceptions_filter_and_assert() {
    let a = vrp(v4(192, 0, 2, 24), 24, 65000);
    let b = vrp(v4(198, 51, 100, 24), 24, 65001);
    let c = vrp(v4(203, 0, 113, 24), 26, 65001);
    let extra = vrp(v4(10, 0, 0, 8), 8, 64496);
    let validated = VrpSet::from_vec(&vec![a, b, c]);

    let none = LocalExceptions::empty();
    assert_eq!(none.apply(&validated).entries(), &vec![a, b, c]);

    let by_asn = LocalExceptions {
        filters: vec![Filter { prefix: None, max_len: None, asn: Some(65001) }],
        assertions: vec![extra],
    };
    assert_eq!(by_asn.apply(&validated).entries(), &vec![a, extra]);
    assert!(by_asn.is_filtered(&b));
    assert!(!by_asn.is_filtered(&a));

    let by_prefix = LocalExceptions {
        filters: vec![Filter { prefix: Some(v4(192, 0, 0, 16)), max_len: None, asn: None }],
        assertions: vec![],
    };
    assert_eq!(by_prefix.apply(&validated).entries(), &vec![b, c]);

    let by_all = LocalExceptions {
        filters: vec![Filter { prefix: Some(v4(203, 0, 113, 24)), max_len: Some(26), asn: Some(65001) }],
        assertions: vec![a, c],
    };
    assert_eq!(by_all.apply(&validated).entries(), &vec![a, b, c]);

    let miss = LocalExceptions {
        filters: vec![Filter { prefix: Some(v4(203, 0, 113, 24)), max_len: Some(24), asn: Some(65001) }],
        assertions: vec![],
    };
    assert_eq!(miss.apply(&validated).entries(), &vec![a, b, c]);
}

#[test]
fn exceptions_are_gathered_from_several_sources() {
    let a = vrp(v4(192, 0, 2, 24), 24, 65000);
    let f = Filter { prefix: None, max_len: None, asn: Some(1) };
    let g = Filter { prefix: None, max_len: Some(24), asn: None };
    let mut all = LocalExceptions { filters: vec![f], assertions: vec![] };
    all.extend(&LocalExceptions { filters: vec![g], assertions: vec![a] });
    assert_eq!(all.filters.len(), 2);
    assert_eq!(all.filters[1].max_len, Some(24));
    assert_eq!(all.assertions, vec![a]);
}

#[test]
fn exceptions_from_several_files_are_all_or_nothing() {
    let a = vrp(v4(192, 0, 2, 24), 24, 65000);
    let f = Filter { prefix: None, max_len: None, asn: Some(1) };
    let g = Filter { prefix: None, max_len: Some(24), asn: None };
    let one = || LocalExceptions { filters: vec![f], assertions: vec![] };
    let two = || LocalExceptions { filters: vec![g], assertions: vec![a] };
    let all = gather(&vec![Some(one()), Some(two())]).unwrap();
    assert_eq!(all.filters.len(), 2);
    assert_eq!(all.filters[0].asn, Some(1));
    assert_eq!(all.filters[1].max_len, Some(24));
    assert_eq!(all.assertions, vec![a]);
    assert!(gather(&vec![Some(one()), None, Some(two())]).is_none());
    assert!(gather(&vec![None]).is_none());
    let none = gather(&vec![]).unwrap();
    assert!(none.filters.is_empty() && none.assertions.is_empty());
}
