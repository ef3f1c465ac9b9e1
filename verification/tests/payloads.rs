use routinator::payload::{mask_of, Family, Prefix, Vrp, VrpSet};

fn v4(a: u8, b: u8, c: u8, d: u8, len: u8) -> Prefix {
    let addr = ((a as u128) << 24) | ((b as u128) << 16) | ((c as u128) << 8) | (d as u128);
    Prefix { family: Family::V4, addr, len }
}

fn vrp(prefix: Prefix, max_len: u8, asn: u32) -> Vrp {
    Vrp { prefix, max_len, asn, source: 1 }
}

#[test]
fn family_sizes() {
    assert_eq!(Family::V4.bits(), 32);
    assert_eq!(Family::V6.bits(), 128);
    assert_eq!(Family::V4.max_addr(), 0xffff_ffff);
    assert_eq!(Family::V6.max_addr(), u128::MAX);
}

#[test]
fn masks_cover_the_host_bits() {
    assert_eq!(mask_of(32, 24), 0xff);
    assert_eq!(mask_of(32, 32), 0);
    assert_eq!(mask_of(32, 0), 0xffff_ffff);
    assert_eq!(mask_of(128, 0), u128::MAX);
    assert_eq!(mask_of(128, 127), 1);
    assert_eq!(mask_of(128, 64), 0xffff_ffff_ffff_ffff);
    assert_eq!(mask_of(32, 40), 0);
}

#[test]
fn prefix_new_accepts_valid_prefixes() {
    let p = Prefix::new(Family::V4, 0xc000_0200, 24);
    assert_eq!(p, Some(v4(192, 0, 2, 0, 24)));
    let all = Prefix::new(Family::V6, 0, 0);
    assert_eq!(all, Some(Prefix { family: Family::V6, addr: 0, len: 0 }));
    let host = Prefix::new(Family::V6, u128::MAX, 128);
    assert!(host.is_some());
}

#[test]
fn prefix_new_rejects_host_bits_and_overlong_lengths() {
    assert_eq!(Prefix::new(Family::V4, 0xc000_0201, 24), None);
    assert_eq!(Prefix::new(Family::V4, 0xc000_0200, 33), None);
    assert_eq!(Prefix::new(Family::V4, 0x1_0000_0000, 0), None);
    assert_eq!(Prefix::new(Family::V6, 1, 127), None);
    assert_eq!(Prefix::new(Family::V6, 0, 129), None);
}

#[test]
fn prefix_bounds_are_first_and_last_address() {
    assert_eq!(v4(192, 0, 2, 0, 24).bounds(), (0xc000_0200, 0xc000_02ff));
    assert_eq!(v4(10, 0, 0, 0, 8).bounds(), (0x0a00_0000, 0x0aff_ffff));
    assert_eq!(v4(192, 0, 2, 7, 32).bounds(), (0xc000_0207, 0xc000_0207));
    let p6 = Prefix { family: Family::V6, addr: 0x2001_0db8 << 96, len: 32 };
    assert_eq!(p6.bounds(), (0x2001_0db8 << 96, (0x2001_0db8 << 96) | (u128::MAX >> 32)));
}

#[test]
fn vrp_validity_bounds_the_maximum_length() {
    assert!(vrp(v4(192, 0, 2, 0, 24), 24, 65000).is_valid());
    assert!(vrp(v4(192, 0, 2, 0, 24), 32, 65000).is_valid());
    assert!(!vrp(v4(192, 0, 2, 0, 24), 23, 65000).is_valid());
    assert!(!vrp(v4(192, 0, 2, 0, 24), 33, 65000).is_valid());
    assert!(!vrp(v4(192, 0, 2, 1, 24), 24, 65000).is_valid());
}

#[test]
fn vrps_are_equal_when_all_four_parts_agree() {
    let a = vrp(v4(192, 0, 2, 0, 24), 24, 65000);
    let mut b = a;
    assert_eq!(a, b);
    b.source = 2;
    assert_ne!(a, b);
    let mut c = a;
    c.max_len = 25;
    assert_ne!(a, c);
    let mut d = a;
    d.asn = 65001;
    assert_ne!(a, d);
    let mut e = a;
    e.prefix = v4(198, 51, 100, 0, 24);
    assert_ne!(a, e);
}

#[test]
fn a_set_holds_each_payload_once() {
    let a = vrp(v4(192, 0, 2, 0, 24), 24, 65000);
    let b = vrp(v4(198, 51, 100, 0, 24), 24, 65000);
    let mut set = VrpSet::new();
    assert_eq!(set.len(), 0);
    assert!(set.insert(a));
    assert!(!set.insert(a));
    assert!(set.insert(b));
    assert!(!set.insert(b));
    assert_eq!(set.len(), 2);
    assert_eq!(set.entries(), &vec![a, b]);
    assert!(set.contains(&a));
    assert!(!set.contains(&vrp(v4(203, 0, 113, 0, 24), 24, 65000)));
}

#[test]
fn from_vec_drops_duplicates() {
    let a = vrp(v4(192, 0, 2, 0, 24), 24, 65000);
    let b = vrp(v4(198, 51, 100, 0, 24), 24, 65000);
    let set = VrpSet::from_vec(&vec![a, b, a, a, b]);
    assert_eq!(set.entries(), &vec![a, b]);
    let entries = set.entries();
    for i in 0..entries.len() {
        for j in 0..i {
            assert_ne!(entries[i], entries[j]);
        }
    }
}

#[test]
fn difference_and_extend_are_set_operations() {
    let a = vrp(v4(192, 0, 2, 0, 24), 24, 65000);
    let b = vrp(v4(198, 51, 100, 0, 24), 24, 65000);
    let c = vrp(v4(203, 0, 113, 0, 24), 24, 65000);
    let left = VrpSet::from_vec(&vec![a, b]);
    let right = VrpSet::from_vec(&vec![b, c]);
    assert_eq!(left.difference(&right).entries(), &vec![a]);
    assert_eq!(right.difference(&left).entries(), &vec![c]);
    let mut all = left.duplicate();
    all.extend(&right);
    assert_eq!(all.entries(), &vec![a, b, c]);
    assert!(left.is_subset_of(&all));
    assert!(!all.is_subset_of(&left));
    assert!(left.same_as(&VrpSet::from_vec(&vec![b, a])));
    assert!(!left.same_as(&right));
}
