use routinator::payload::{Family, Prefix, Vrp, VrpSet};
use routinator::rtr::pdu::{make_prefix_pdu, Pdu, Timing};
use routinator::rtr::session::{Input, RtrSession};
use routinator::store::publish::Store;
use routinator::validation::engine::{validate, validate_all};
use routinator::validation::objects::{
    Cert, Claim, Content, Crl, Digest, FetchError, Manifest, ManifestEntry, Object, Point, Policy,
    Repository, Roa, TrustAnchor,
};
use routinator::validation::report::{Counts, Entry, ErrorKind, Outcome, Reason, Report};
use routinator::validation::resources::{Range, ResourceSet};

const NOW: u64 = 1_000;
const TA_KEY: u64 = 1;
const CA_KEY: u64 = 2;
const TA_POINT: u64 = 100;
const CA_POINT: u64 = 200;
const TA_URI: u64 = 10;

const TA_CERT: u64 = 1000;
const MFT: u64 = 1001;
const CRL: u64 = 1002;
const CA_CERT: u64 = 1003;
const CA_MFT: u64 = 2001;
const CA_CRL: u64 = 2002;
const ROA_1: u64 = 2003;
const ROA_2: u64 = 2004;

fn relaxed() -> Policy {
    Policy { strict: false, allow_expired: false, max_depth: 8 }
}

fn strict() -> Policy {
    Policy { strict: true, allow_expired: false, max_depth: 8 }
}

fn v4(a: u8, b: u8, c: u8, len: u8) -> Prefix {
    let addr = ((a as u128) << 24) | ((b as u128) << 16) | ((c as u128) << 8);
    Prefix { family: Family::V4, addr, len }
}

fn range_of(p: &Prefix) -> Range {
    let (lo, hi) = p.bounds();
    Range { lo, hi }
}

fn resources(v4: Vec<Range>) -> ResourceSet {
    ResourceSet { v4, v6: vec![], asns: vec![] }
}

fn all_v4() -> ResourceSet {
    resources(vec![Range { lo: 0, hi: 0xffff_ffff }])
}

fn cert(subject_key: u64, issuer_key: u64, serial: u64, res: ResourceSet, point: u64) -> Cert {
    Cert {
        subject_key,
        issuer_key,
        signature_ok: true,
        serial,
        not_before: 0,
        not_after: 2_000,
        resources: res,
        point,
    }
}

fn digest(name: u64) -> Digest {
    Digest { hi: name as u128, lo: !(name as u128) }
}

fn object(name: u64, content: Content) -> Object {
    Object { name, digest: digest(name), content }
}

fn manifest(issuer_key: u64, names: &[u64]) -> Content {
    Content::Manifest(Manifest {
        issuer_key,
        signature_ok: true,
        this_update: 0,
        next_update: 2_000,
        entries: names.iter().map(|n| ManifestEntry { name: *n, digest: digest(*n) }).collect(),
    })
}

fn crl(issuer_key: u64, revoked: Vec<u64>) -> Content {
    Content::Crl(Crl { issuer_key, signature_ok: true, this_update: 0, next_update: 2_000, revoked })
}

fn roa(issuer_key: u64, serial: u64, asn: u32, prefixes: &[Prefix]) -> Content {
    Content::Roa(Roa {
        ee: cert(9_000 + serial, issuer_key, serial, resources(prefixes.iter().map(range_of).collect()), 0),
        content_ok: true,
        asn,
        claims: prefixes.iter().map(|p| Claim { prefix: *p, max_len: p.len }).collect(),
    })
}

fn anchor() -> TrustAnchor {
    TrustAnchor { id: 7, key: TA_KEY, uris: vec![TA_URI] }
}

fn ta_point(ta_cert: Cert) -> Point {
    Point { id: TA_URI, fetched: Ok(vec![object(TA_CERT, Content::Cert(ta_cert))]) }
}

fn tree(ca_resources: ResourceSet, ca_objects: Vec<Object>, ca_listed: &[u64]) -> Repository {
    let mut listed = vec![CA_CRL];
    listed.extend_from_slice(ca_listed);
    let mut objects = vec![object(CA_MFT, manifest(CA_KEY, &listed)), object(CA_CRL, crl(CA_KEY, vec![]))];
    objects.extend(ca_objects);
    Repository {
        points: vec![
            ta_point(cert(TA_KEY, TA_KEY, 1, all_v4(), TA_POINT)),
            Point {
                id: TA_POINT,
                fetched: Ok(vec![
                    object(MFT, manifest(TA_KEY, &[CRL, CA_CERT])),
                    object(CRL, crl(TA_KEY, vec![])),
                    object(CA_CERT, Content::Cert(cert(CA_KEY, TA_KEY, 2, ca_resources, CA_POINT))),
                ]),
            },
            Point { id: CA_POINT, fetched: Ok(objects) },
        ],
    }
}

fn ca_space() -> ResourceSet {
    resources(vec![
        range_of(&v4(192, 0, 2, 24)),
        range_of(&v4(198, 51, 100, 24)),
        range_of(&v4(203, 0, 113, 24)),
    ])
}

fn payload(p: Prefix, asn: u32) -> Vrp {
    Vrp { prefix: p, max_len: p.len, asn, source: 7 }
}

fn outcome_of(report: &Report, object: u64) -> Vec<Outcome> {
    report.entries.iter().filter(|e| e.object == object).map(|e| e.outcome).collect()
}

#[test]
fn a_roa_under_a_ca_under_a_trust_anchor_yields_its_payload() {
    let r1 = v4(192, 0, 2, 24);
    let repo = tree(ca_space(), vec![object(ROA_1, roa(CA_KEY, 10, 65000, &[r1]))], &[ROA_1]);
    let (vrps, report) = validate(&anchor(), &repo, &relaxed(), NOW);
    assert_eq!(vrps.entries(), &vec![payload(r1, 65000)]);
    assert_eq!(
        report.entries,
        vec![
            Entry { object: TA_CERT, outcome: Outcome::Accepted },
            Entry { object: MFT, outcome: Outcome::Accepted },
            Entry { object: CRL, outcome: Outcome::Accepted },
            Entry { object: CA_CERT, outcome: Outcome::Accepted },
            Entry { object: CA_MFT, outcome: Outcome::Accepted },
            Entry { object: CA_CRL, outcome: Outcome::Accepted },
            Entry { object: ROA_1, outcome: Outcome::Accepted },
        ]
    );
    assert_eq!(report.counts(), Counts { accepted: 7, warned: 0, rejected: 0 });
}

#[test]
fn two_cycles_give_two_snapshots_and_the_difference_between_them() {
    let r1 = v4(192, 0, 2, 24);
    let r2 = v4(198, 51, 100, 24);
    let timing = Timing { refresh: 3600, retry: 600, expire: 7200 };
    let mut store = Store::new(10, 0);

    let first = tree(ca_space(), vec![object(ROA_1, roa(CA_KEY, 10, 65000, &[r1]))], &[ROA_1]);
    let (vrps, _) = validate(&anchor(), &first, &relaxed(), NOW);
    assert_eq!(store.publish(vrps, NOW), 1);
    assert_eq!(store.current().vrps().entries(), &vec![payload(r1, 65000)]);

    let second = tree(ca_space(), vec![object(ROA_2, roa(CA_KEY, 11, 65000, &[r2]))], &[ROA_2]);
    let (vrps, _) = validate(&anchor(), &second, &relaxed(), NOW + 1);
    assert_eq!(store.publish(vrps, NOW + 1), 2);
    assert_eq!(store.current().vrps().entries(), &vec![payload(r2, 65000)]);

    let diff = store.history().get(1);
    assert_eq!((diff.from_serial(), diff.to_serial()), (1, 2));
    assert_eq!(diff.added().entries(), &vec![payload(r2, 65000)]);
    assert_eq!(diff.removed().entries(), &vec![payload(r1, 65000)]);

    let mut known = RtrSession::new(1);
    let reply = known.handle(
        &Input::Received { version: 1, pdu: Pdu::SerialQuery { session: 1, serial: 1 } },
        &store,
        &timing,
    );
    assert_eq!(
        reply,
        vec![
            Pdu::CacheResponse { session: 1 },
            make_prefix_pdu(&payload(r1, 65000), false),
            make_prefix_pdu(&payload(r2, 65000), true),
            Pdu::EndOfData { session: 1, serial: 2, timing },
        ]
    );
    let mut unknown = RtrSession::new(1);
    let reply = unknown.handle(
        &Input::Received { version: 1, pdu: Pdu::SerialQuery { session: 1, serial: 99 } },
        &store,
        &timing,
    );
    assert_eq!(reply, vec![Pdu::CacheReset]);
}

#[test]
fn a_ca_with_resources_its_parent_lacks_is_rejected_with_all_below_it() {
    let known = TrustAnchor { id: 7, key: TA_KEY, uris: vec![TA_URI] };
    let r1 = v4(192, 0, 2, 24);
    let mut repo = tree(ca_space(), vec![object(ROA_1, roa(CA_KEY, 10, 65000, &[r1]))], &[ROA_1]);
    repo.points[0] = ta_point(cert(TA_KEY, TA_KEY, 1, resources(vec![range_of(&v4(10, 0, 0, 8))]), TA_POINT));
    for policy in [relaxed(), strict()] {
        let (vrps, report) = validate(&known, &repo, &policy, NOW);
        assert_eq!(vrps.len(), 0);
        assert_eq!(outcome_of(&report, CA_CERT), vec![Outcome::Rejected(Reason::ResourceViolation)]);
        assert_eq!(outcome_of(&report, CA_MFT), vec![]);
        assert_eq!(outcome_of(&report, ROA_1), vec![]);
    }
}

#[test]
fn a_hash_mismatch_leaves_out_that_object_alone() {
    let r1 = v4(192, 0, 2, 24);
    let r2 = v4(198, 51, 100, 24);
    let mut bad = object(ROA_1, roa(CA_KEY, 10, 65000, &[r1]));
    bad.digest = Digest { hi: 0, lo: 0 };
    let repo = tree(
        ca_space(),
        vec![bad, object(ROA_2, roa(CA_KEY, 11, 65001, &[r2]))],
        &[ROA_1, ROA_2],
    );
    let (vrps, report) = validate(&anchor(), &repo, &relaxed(), NOW);
    assert_eq!(vrps.entries(), &vec![payload(r2, 65001)]);
    assert_eq!(outcome_of(&report, ROA_1), vec![Outcome::Warning(Reason::HashMismatch)]);
    assert_eq!(outcome_of(&report, ROA_2), vec![Outcome::Accepted]);
    assert_eq!(report.counts(), Counts { accepted: 7, warned: 1, rejected: 0 });
}

#[test]
fn a_listed_file_that_is_missing_or_unreadable_is_warned_about() {
    let r2 = v4(198, 51, 100, 24);
    let repo = tree(
        ca_space(),
        vec![object(ROA_1, Content::Unreadable), object(ROA_2, roa(CA_KEY, 11, 65001, &[r2]))],
        &[ROA_1, 5555, ROA_2],
    );
    let (vrps, report) = validate(&anchor(), &repo, &relaxed(), NOW);
    assert_eq!(vrps.entries(), &vec![payload(r2, 65001)]);
    assert_eq!(outcome_of(&report, ROA_1), vec![Outcome::Warning(Reason::Unreadable)]);
    assert_eq!(outcome_of(&report, 5555), vec![Outcome::Warning(Reason::Missing)]);
}

#[test]
fn a_revoked_or_expired_or_badly_signed_roa_is_rejected() {
    let r1 = v4(192, 0, 2, 24);
    let mut repo = tree(ca_space(), vec![object(ROA_1, roa(CA_KEY, 10, 65000, &[r1]))], &[ROA_1]);
    if let Ok(objects) = &mut repo.points[2].fetched {
        objects[1] = object(CA_CRL, crl(CA_KEY, vec![10]));
    }
    let (vrps, report) = validate(&anchor(), &repo, &relaxed(), NOW);
    assert_eq!(vrps.len(), 0);
    assert_eq!(outcome_of(&report, ROA_1), vec![Outcome::Rejected(Reason::Revoked)]);

    let repo = tree(ca_space(), vec![object(ROA_1, roa(CA_KEY, 10, 65000, &[r1]))], &[ROA_1]);
    let (vrps, report) = validate(&anchor(), &repo, &relaxed(), 2_001);
    assert_eq!(vrps.len(), 0);
    assert_eq!(outcome_of(&report, TA_CERT), vec![Outcome::Rejected(Reason::Expired)]);
    assert_eq!(report.entries.len(), 1);

    let mut forged = roa(CA_KEY, 10, 65000, &[r1]);
    if let Content::Roa(r) = &mut forged {
        r.content_ok = false;
    }
    let repo = tree(ca_space(), vec![object(ROA_1, forged)], &[ROA_1]);
    let (vrps, report) = validate(&anchor(), &repo, &relaxed(), NOW);
    assert_eq!(vrps.len(), 0);
    assert_eq!(outcome_of(&report, ROA_1), vec![Outcome::Rejected(Reason::BadSignature)]);
}

#[test]
fn a_roa_that_claims_more_than_its_certificate_holds_is_rejected() {
    let r1 = v4(192, 0, 2, 24);
    let wide = v4(192, 0, 0, 16);
    let mut over = roa(CA_KEY, 10, 65000, &[r1]);
    if let Content::Roa(r) = &mut over {
        r.claims.push(Claim { prefix: wide, max_len: 16 });
    }
    let mut malformed = roa(CA_KEY, 11, 65000, &[r1]);
    if let Content::Roa(r) = &mut malformed {
        r.claims[0].max_len = 23;
    }
    let repo = tree(ca_space(), vec![object(ROA_1, over), object(ROA_2, malformed)], &[ROA_1, ROA_2]);
    let (vrps, report) = validate(&anchor(), &repo, &relaxed(), NOW);
    assert_eq!(vrps.len(), 0);
    assert_eq!(outcome_of(&report, ROA_1), vec![Outcome::Rejected(Reason::ResourceViolation)]);
    assert_eq!(outcome_of(&report, ROA_2), vec![Outcome::Rejected(Reason::MalformedClaim)]);
}

#[test]
fn a_certificate_with_the_key_of_an_ancestor_is_a_cycle() {
    let r1 = v4(192, 0, 2, 24);
    let back = object(3000, Content::Cert(cert(TA_KEY, CA_KEY, 30, ca_space(), TA_POINT)));
    let repo = tree(
        ca_space(),
        vec![back, object(ROA_1, roa(CA_KEY, 10, 65000, &[r1]))],
        &[3000, ROA_1],
    );
    for policy in [relaxed(), strict()] {
        let (vrps, report) = validate(&anchor(), &repo, &policy, NOW);
        assert_eq!(vrps.entries(), &vec![payload(r1, 65000)]);
        assert_eq!(outcome_of(&report, 3000), vec![Outcome::Rejected(Reason::CycleDetected)]);
    }
}

#[test]
fn the_depth_of_the_tree_is_bounded() {
    let r1 = v4(192, 0, 2, 24);
    let repo = tree(ca_space(), vec![object(ROA_1, roa(CA_KEY, 10, 65000, &[r1]))], &[ROA_1]);
    let shallow = Policy { strict: false, allow_expired: false, max_depth: 0 };
    let (vrps, report) = validate(&anchor(), &repo, &shallow, NOW);
    assert_eq!(vrps.len(), 0);
    assert_eq!(outcome_of(&report, CA_CERT), vec![Outcome::Rejected(Reason::TooDeep)]);
    let one = Policy { strict: false, allow_expired: false, max_depth: 1 };
    let (vrps, _) = validate(&anchor(), &repo, &one, NOW);
    assert_eq!(vrps.len(), 1);
}

#[test]
fn strict_mode_rejects_what_relaxed_mode_warns_about() {
    let r1 = v4(192, 0, 2, 24);
    let mut repo = tree(ca_space(), vec![object(ROA_1, roa(CA_KEY, 10, 65000, &[r1]))], &[ROA_1]);
    if let Ok(objects) = &mut repo.points[2].fetched {
        if let Content::Manifest(m) = &mut objects[0].content {
            m.next_update = NOW - 1;
        }
    }
    let (vrps, report) = validate(&anchor(), &repo, &relaxed(), NOW);
    assert_eq!(vrps.len(), 1);
    assert_eq!(outcome_of(&report, CA_MFT), vec![Outcome::Warning(Reason::StaleManifest)]);
    let (vrps, report) = validate(&anchor(), &repo, &strict(), NOW);
    assert_eq!(vrps.len(), 0);
    assert_eq!(outcome_of(&report, CA_MFT), vec![Outcome::Rejected(Reason::StaleManifest)]);
    assert_eq!(outcome_of(&report, ROA_1), vec![]);

    let mut repo = tree(ca_space(), vec![object(ROA_1, roa(CA_KEY, 10, 65000, &[r1]))], &[ROA_1]);
    if let Ok(objects) = &mut repo.points[2].fetched {
        if let Content::Crl(l) = &mut objects[1].content {
            l.next_update = NOW - 1;
        }
    }
    let (vrps, report) = validate(&anchor(), &repo, &relaxed(), NOW);
    assert_eq!(vrps.len(), 1);
    assert_eq!(outcome_of(&report, CA_CRL), vec![Outcome::Warning(Reason::ExpiredCrl)]);
    let (vrps, report) = validate(&anchor(), &repo, &strict(), NOW);
    assert_eq!(vrps.len(), 0);
    assert_eq!(outcome_of(&report, CA_CRL), vec![Outcome::Rejected(Reason::ExpiredCrl)]);

    let unsorted = resources(vec![range_of(&v4(198, 51, 100, 24)), range_of(&v4(192, 0, 2, 24))]);
    let repo = tree(unsorted, vec![object(ROA_1, roa(CA_KEY, 10, 65000, &[r1]))], &[ROA_1]);
    let (vrps, report) = validate(&anchor(), &repo, &relaxed(), NOW);
    assert_eq!(vrps.len(), 1);
    assert_eq!(outcome_of(&report, CA_CERT), vec![Outcome::Warning(Reason::NonConformant)]);
    let (vrps, report) = validate(&anchor(), &repo, &strict(), NOW);
    assert_eq!(vrps.len(), 0);
    assert_eq!(outcome_of(&report, CA_CERT), vec![Outcome::Rejected(Reason::NonConformant)]);
}

#[test]
fn a_point_that_was_not_fetched_costs_only_its_subtree() {
    let r1 = v4(192, 0, 2, 24);
    let mut repo = tree(ca_space(), vec![object(ROA_1, roa(CA_KEY, 10, 65000, &[r1]))], &[ROA_1]);
    for (error, reason) in [
        (FetchError::Unreachable, Reason::Unreachable),
        (FetchError::Timeout, Reason::Timeout),
        (FetchError::ProtocolError, Reason::ProtocolError),
    ] {
        repo.points[2].fetched = Err(error);
        let (vrps, report) = validate(&anchor(), &repo, &relaxed(), NOW);
        assert_eq!(vrps.len(), 0);
        assert_eq!(outcome_of(&report, CA_POINT), vec![Outcome::Rejected(reason)]);
        assert_eq!(outcome_of(&report, CA_CERT), vec![Outcome::Accepted]);
        assert_eq!(reason.kind(), ErrorKind::Fetch);
    }
    repo.points.truncate(2);
    let (_, report) = validate(&anchor(), &repo, &relaxed(), NOW);
    assert_eq!(outcome_of(&report, CA_POINT), vec![Outcome::Rejected(Reason::Unreachable)]);
}

#[test]
fn a_point_without_manifest_or_revocation_list_is_rejected() {
    let mut repo = tree(ca_space(), vec![], &[]);
    if let Ok(objects) = &mut repo.points[2].fetched {
        objects.remove(1);
    }
    let (_, report) = validate(&anchor(), &repo, &relaxed(), NOW);
    assert_eq!(outcome_of(&report, CA_POINT), vec![Outcome::Rejected(Reason::NoCrl)]);
    if let Ok(objects) = &mut repo.points[2].fetched {
        objects.clear();
    }
    let (_, report) = validate(&anchor(), &repo, &relaxed(), NOW);
    assert_eq!(outcome_of(&report, CA_POINT), vec![Outcome::Rejected(Reason::NoManifest)]);
}

#[test]
fn a_trust_anchor_must_hold_the_key_and_be_valid() {
    let repo = tree(ca_space(), vec![], &[]);
    let other = TrustAnchor { id: 7, key: 77, uris: vec![TA_URI] };
    let (vrps, report) = validate(&other, &repo, &relaxed(), NOW);
    assert_eq!(vrps.len(), 0);
    assert_eq!(report.entries, vec![Entry { object: TA_CERT, outcome: Outcome::Rejected(Reason::KeyMismatch) }]);

    let nowhere = TrustAnchor { id: 7, key: TA_KEY, uris: vec![11, 12] };
    let (_, report) = validate(&nowhere, &repo, &relaxed(), NOW);
    assert_eq!(report.entries, vec![Entry { object: 7, outcome: Outcome::Rejected(Reason::Unreachable) }]);

    let second_uri = TrustAnchor { id: 7, key: TA_KEY, uris: vec![11, TA_URI] };
    let (_, report) = validate(&second_uri, &repo, &relaxed(), NOW);
    assert_eq!(report.entries[0], Entry { object: TA_CERT, outcome: Outcome::Accepted });

    let lenient = Policy { strict: false, allow_expired: true, max_depth: 8 };
    let (_, report) = validate(&anchor(), &repo, &lenient, 5_000);
    assert_eq!(report.entries[0], Entry { object: TA_CERT, outcome: Outcome::Accepted });
    assert_eq!(outcome_of(&report, CA_CERT), vec![Outcome::Rejected(Reason::Expired)]);
}

#[test]
fn payloads_of_several_trust_anchors_are_folded_into_one_set() {
    let r1 = v4(192, 0, 2, 24);
    let repo = tree(ca_space(), vec![object(ROA_1, roa(CA_KEY, 10, 65000, &[r1, r1]))], &[ROA_1]);
    let first = anchor();
    let again = anchor();
    let other = TrustAnchor { id: 8, key: TA_KEY, uris: vec![TA_URI] };
    let (vrps, report) = validate_all(&vec![first, again, other], &repo, &relaxed(), NOW);
    let mut under_other = payload(r1, 65000);
    under_other.source = 8;
    assert_eq!(vrps.entries(), &vec![payload(r1, 65000), under_other]);
    assert_eq!(report.entries.len(), 21);
    let expected = VrpSet::from_vec(&vec![under_other, payload(r1, 65000)]);
    assert!(vrps.same_as(&expected));
}

#[test]
fn reasons_fall_into_three_kinds() {
    assert_eq!(Reason::Timeout.kind(), ErrorKind::Fetch);
    assert_eq!(Reason::HashMismatch.kind(), ErrorKind::ObjectFormat);
    assert_eq!(Reason::Unreadable.kind(), ErrorKind::ObjectFormat);
    assert_eq!(Reason::BadSignature.kind(), ErrorKind::ChainValidation);
    assert_eq!(Reason::Revoked.kind(), ErrorKind::ChainValidation);
    assert_eq!(Reason::ResourceViolation.kind(), ErrorKind::ChainValidation);
    assert_eq!(Reason::CycleDetected.kind(), ErrorKind::ChainValidation);
}

#[test]
fn every_payload_lies_within_the_resources_of_the_trust_anchor() {
    let r1 = v4(192, 0, 2, 24);
    let r2 = v4(198, 51, 100, 24);
    let out = v4(10, 0, 0, 8);
    let mut repo = tree(
        ca_space(),
        vec![
            object(ROA_1, roa(CA_KEY, 10, 65000, &[r1, r2])),
            object(ROA_2, roa(CA_KEY, 11, 65001, &[out])),
        ],
        &[ROA_1, ROA_2],
    );
    let narrow = resources(vec![Range { lo: 0xc000_0000, hi: 0xcfff_ffff }]);
    repo.points[0] = ta_point(cert(TA_KEY, TA_KEY, 1, narrow, TA_POINT));
    let (vrps, report) = validate(&anchor(), &repo, &relaxed(), NOW);
    assert_eq!(vrps.entries(), &vec![payload(r1, 65000), payload(r2, 65000)]);
    assert_eq!(outcome_of(&report, ROA_2), vec![Outcome::Rejected(Reason::ResourceViolation)]);
    let root = resources(vec![Range { lo: 0xc000_0000, hi: 0xcfff_ffff }]);
    for v in vrps.entries().iter() {
        assert!(v.is_valid());
        assert_eq!(v.source, 7);
        assert!(root.has_prefix(&v.prefix));
    }
}

#[test]
fn a_hash_mismatch_gives_what_the_manifest_without_that_entry_gives() {
    let r1 = v4(192, 0, 2, 24);
    let r2 = v4(198, 51, 100, 24);
    let r3 = v4(203, 0, 113, 24);
    let mut bad = object(ROA_1, roa(CA_KEY, 10, 65000, &[r1]));
    bad.digest = Digest { hi: 1, lo: 1 };
    let files = |bad: Option<Object>| {
        let mut list = vec![object(ROA_2, roa(CA_KEY, 11, 65001, &[r2]))];
        list.extend(bad);
        list.push(object(3000, roa(CA_KEY, 12, 65002, &[r3])));
        list
    };
    let with = tree(ca_space(), files(Some(bad)), &[ROA_2, ROA_1, 3000]);
    let struck = tree(ca_space(), files(None), &[ROA_2, 3000]);
    let (with_vrps, with_report) = validate(&anchor(), &with, &relaxed(), NOW);
    let (struck_vrps, struck_report) = validate(&anchor(), &struck, &relaxed(), NOW);
    assert_eq!(with_vrps.entries(), struck_vrps.entries());
    assert_eq!(with_vrps.entries(), &vec![payload(r2, 65001), payload(r3, 65002)]);
    let warning = Entry { object: ROA_1, outcome: Outcome::Warning(Reason::HashMismatch) };
    let at = with_report.entries.iter().position(|e| *e == warning).unwrap();
    let mut rest = with_report.entries.clone();
    rest.remove(at);
    assert_eq!(rest, struck_report.entries);
    assert_eq!(outcome_of(&with_report, TA_CERT), vec![Outcome::Accepted]);
    assert_eq!(outcome_of(&with_report, CA_CERT), vec![Outcome::Accepted]);
    assert_eq!(outcome_of(&with_report, CA_MFT), vec![Outcome::Accepted]);
}
