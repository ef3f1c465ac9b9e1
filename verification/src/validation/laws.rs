//! What holds of every payload that validation yields.

use vstd::prelude::*;
use crate::payload::Vrp;
use crate::validation::engine::{
    anchor_cert, anchor_tally, entries_tally, entry_child, entry_outcome, entry_vrps, find_crl,
    levels_left, listed, listed_tally, point_tally, Tally,
};
use crate::validation::objects::{
    find_point, first_manifest, lookup, Cert, Content, Crl, ManifestEntry, Object, Policy,
    Repository, Roa, TrustAnchor,
};
use crate::validation::report::{Entry, Outcome, Reason};
use crate::validation::resources::{covers, within, ResourceView};
use crate::validation::rules::{
    anchor_outcome, ca_outcome, claim_vrp, claims_held, claims_valid, crl_outcome,
    manifest_outcome, roa_outcome, roa_vrps, usable,
};

verus! {

/// Whether a payload is valid, carries the tag `source`, and has a prefix
/// that lies within `root`.
pub open spec fn vouched(v: Vrp, source: u32, root: ResourceView) -> bool {
    &&& v.valid()
    &&& v.source == source
    &&& root.holds_prefix(v.prefix)
}

/// Whether `vouched` holds of every payload of a list.
pub open spec fn all_vouched(vrps: Seq<Vrp>, source: u32, root: ResourceView) -> bool {
    forall|i: int| 0 <= i < vrps.len() ==> vouched(#[trigger] vrps[i], source, root)
}

/// Resources within resources that are within others are within those.
pub proof fn lemma_subset_chain(a: ResourceView, b: ResourceView, c: ResourceView)
    requires
        a.subset_of(b),
        b.subset_of(c),
    ensures
        a.subset_of(c),
{
}

/// A prefix within resources that are within others is within those.
pub proof fn lemma_prefix_chain(a: ResourceView, b: ResourceView, p: crate::payload::Prefix)
    requires
        a.holds_prefix(p),
        a.subset_of(b),
    ensures
        b.holds_prefix(p),
{
    let inner = a.of_family(p.family);
    let outer = b.of_family(p.family);
    assert(within(inner, outer));
    assert forall|x: int| p.first() <= x <= p.last() implies covers(outer, x) by {
        assert(covers(inner, x));
    }
}

/// Two lists of vouched payloads in a row are one.
proof fn lemma_vouched_add(a: Seq<Vrp>, b: Seq<Vrp>, source: u32, root: ResourceView)
    requires
        all_vouched(a, source, root),
        all_vouched(b, source, root),
    ensures
        all_vouched(a + b, source, root),
{
    assert forall|i: int| 0 <= i < (a + b).len() implies vouched(
        #[trigger] (a + b)[i],
        source,
        root,
    ) by {
        if i < a.len() {
            assert((a + b)[i] == a[i]);
        } else {
            assert((a + b)[i] == b[i - a.len()]);
        }
    }
}

/// The payloads that a manifest entry yields by itself are vouched for.
proof fn lemma_entry_vouched(
    e: ManifestEntry,
    objects: Seq<Object>,
    ca: Cert,
    crl: Crl,
    policy: Policy,
    now: u64,
    source: u32,
    root: ResourceView,
)
    requires
        ca.resources@.subset_of(root),
    ensures
        all_vouched(entry_vrps(e, objects, ca, crl, policy, now, source), source, root),
{
    let vrps = entry_vrps(e, objects, ca, crl, policy, now, source);
    match listed(e, objects) {
        Ok(o) => match o.content {
            Content::Roa(r) => {
                if usable(roa_outcome(r, ca, crl, policy, now)) {
                    assert(claims_valid(r.claims@));
                    assert(claims_held(r.claims@, r.ee.resources@));
                    assert(r.ee.resources@.subset_of(ca.resources@));
                    lemma_subset_chain(r.ee.resources@, ca.resources@, root);
                    assert forall|i: int| 0 <= i < vrps.len() implies vouched(
                        #[trigger] vrps[i],
                        source,
                        root,
                    ) by {
                        let c = r.claims@[i];
                        assert(vrps[i] == claim_vrp(c, r.asn, source));
                        assert(claim_vrp(c, 0, 0).valid());
                        assert(r.ee.resources@.holds_prefix(c.prefix));
                        lemma_prefix_chain(r.ee.resources@, root, c.prefix);
                    }
                }
            },
            _ => {},
        },
        Err(_) => {},
    }
}

/// The payloads that the first `n` entries of a manifest yield, with all
/// that lies below them, are vouched for.
proof fn lemma_entries_vouched(
    repo: Repository,
    objects: Seq<Object>,
    entries: Seq<ManifestEntry>,
    n: nat,
    ca: Cert,
    crl: Crl,
    ancestors: Seq<u64>,
    depth: nat,
    policy: Policy,
    now: u64,
    source: u32,
    root: ResourceView,
)
    requires
        ca.resources@.subset_of(root),
    ensures
        all_vouched(
            entries_tally(
                repo,
                objects,
                entries,
                n,
                ca,
                crl,
                ancestors,
                depth,
                policy,
                now,
                source,
            ).vrps,
            source,
            root,
        ),
    decreases 2 * levels_left(policy, depth), n,
{
    if n == 0 || n > entries.len() {
    } else {
        let e = entries[n - 1];
        let before = entries_tally(
            repo,
            objects,
            entries,
            (n - 1) as nat,
            ca,
            crl,
            ancestors,
            depth,
            policy,
            now,
            source,
        );
        lemma_entries_vouched(
            repo,
            objects,
            entries,
            (n - 1) as nat,
            ca,
            crl,
            ancestors,
            depth,
            policy,
            now,
            source,
            root,
        );
        let own = entry_vrps(e, objects, ca, crl, policy, now, source);
        lemma_entry_vouched(e, objects, ca, crl, policy, now, source, root);
        let below = match entry_child(e, objects, ca, crl, ancestors, depth, policy, now) {
            Some(c) => if depth < policy.max_depth {
                point_tally(repo, c, ancestors.push(c.subject_key), depth + 1, policy, now, source)
            } else {
                Tally::empty()
            },
            None => Tally::empty(),
        };
        match entry_child(e, objects, ca, crl, ancestors, depth, policy, now) {
            Some(c) => {
                if depth < policy.max_depth {
                    assert(usable(ca_outcome(c, ca, crl, ancestors, depth, policy, now)));
                    assert(c.resources@.subset_of(ca.resources@));
                    lemma_subset_chain(c.resources@, ca.resources@, root);
                    lemma_point_vouched(
                        repo,
                        c,
                        ancestors.push(c.subject_key),
                        depth + 1,
                        policy,
                        now,
                        source,
                        root,
                    );
                }
            },
            None => {},
        }
        lemma_vouched_add(before.vrps, own, source, root);
        lemma_vouched_add(before.vrps + own, below.vrps, source, root);
    }
}

/// The payloads that the files listed by a manifest yield are vouched
/// for.
proof fn lemma_listed_vouched(
    repo: Repository,
    objects: Seq<Object>,
    entries: Seq<ManifestEntry>,
    ca: Cert,
    ancestors: Seq<u64>,
    depth: nat,
    policy: Policy,
    now: u64,
    source: u32,
    root: ResourceView,
)
    requires
        ca.resources@.subset_of(root),
    ensures
        all_vouched(
            listed_tally(repo, objects, entries, ca, ancestors, depth, policy, now, source).vrps,
            source,
            root,
        ),
    decreases 2 * levels_left(policy, depth) + 1, 0nat,
{
    match find_crl(entries, objects) {
        Some(co) => match co.content {
            Content::Crl(crl) => {
                lemma_entries_vouched(
                    repo,
                    objects,
                    entries,
                    entries.len(),
                    ca,
                    crl,
                    ancestors,
                    depth,
                    policy,
                    now,
                    source,
                    root,
                );
            },
            _ => {},
        },
        None => {},
    }
}

/// The payloads that the publication point of an authority yields are
/// vouched for.
proof fn lemma_point_vouched(
    repo: Repository,
    ca: Cert,
    ancestors: Seq<u64>,
    depth: nat,
    policy: Policy,
    now: u64,
    source: u32,
    root: ResourceView,
)
    requires
        ca.resources@.subset_of(root),
    ensures
        all_vouched(point_tally(repo, ca, ancestors, depth, policy, now, source).vrps, source, root),
    decreases 2 * levels_left(policy, depth) + 1, 1nat,
{
    match find_point(repo.points@, ca.point) {
        Some(p) => match p.fetched {
            Ok(objects) => match first_manifest(objects@) {
                Some(mo) => match mo.content {
                    Content::Manifest(m) => {
                        lemma_listed_vouched(
                            repo,
                            objects@,
                            m.entries@,
                            ca,
                            ancestors,
                            depth,
                            policy,
                            now,
                            source,
                            root,
                        );
                        let below = listed_tally(
                            repo,
                            objects@,
                            m.entries@,
                            ca,
                            ancestors,
                            depth,
                            policy,
                            now,
                            source,
                        );
                        assert(Seq::<Vrp>::empty() + below.vrps =~= below.vrps);
                    },
                    _ => {},
                },
                None => {},
            },
            Err(_) => {},
        },
        None => {},
    }
}

/// Every payload that a trust anchor yields is a valid payload, carries
/// the anchor's tag, and has a prefix that lies within the resources of
/// the anchor's certificate: each certificate on the way down holds no
/// more than its issuer, and each ROA claims no more than its certificate
/// holds.
pub proof fn law_payloads_vouched(repo: Repository, ta: TrustAnchor, policy: Policy, now: u64)
    ensures
        match anchor_cert(repo, ta.uris@) {
            Some(o) => match o.content {
                Content::Cert(c) => all_vouched(
                    anchor_tally(repo, ta, policy, now).vrps,
                    ta.id,
                    c.resources@,
                ),
                _ => anchor_tally(repo, ta, policy, now).vrps.len() == 0,
            },
            None => anchor_tally(repo, ta, policy, now).vrps.len() == 0,
        },
{
    match anchor_cert(repo, ta.uris@) {
        Some(o) => match o.content {
            Content::Cert(c) => {
                lemma_point_vouched(repo, c, seq![c.subject_key], 0, policy, now, ta.id, c.resources@);
                let below = point_tally(repo, c, seq![c.subject_key], 0, policy, now, ta.id);
                assert(Seq::<Vrp>::empty() + below.vrps =~= below.vrps);
            },
            _ => {},
        },
        None => {},
    }
}

/// The entries before position `n` yield the same whether or not an entry
/// at or behind `n` is struck.
proof fn lemma_struck_before(
    repo: Repository,
    objects: Seq<Object>,
    entries: Seq<ManifestEntry>,
    j: int,
    n: nat,
    ca: Cert,
    crl: Crl,
    ancestors: Seq<u64>,
    depth: nat,
    policy: Policy,
    now: u64,
    source: u32,
)
    requires
        0 <= n <= j < entries.len(),
    ensures
        entries_tally(
            repo,
            objects,
            entries.remove(j),
            n,
            ca,
            crl,
            ancestors,
            depth,
            policy,
            now,
            source,
        ) == entries_tally(
            repo,
            objects,
            entries,
            n,
            ca,
            crl,
            ancestors,
            depth,
            policy,
            now,
            source,
        ),
    decreases n,
{
    if n > 0 {
        lemma_struck_before(
            repo,
            objects,
            entries,
            j,
            (n - 1) as nat,
            ca,
            crl,
            ancestors,
            depth,
            policy,
            now,
            source,
        );
        assert(entries.remove(j)[n - 1] == entries[n - 1]);
    }
}

/// Putting an item into the front of two lists in a row is putting it
/// into the row.
proof fn lemma_insert_front<T>(front: Seq<T>, back: Seq<T>, at: int, item: T)
    requires
        0 <= at <= front.len(),
    ensures
        front.insert(at, item) + back == (front + back).insert(at, item),
{
    assert(front.insert(at, item) + back =~= (front + back).insert(at, item));
}

/// The first `n + 1` entries yield what the first `n` yield once the
/// unusable entry `j` is struck, and the warning about it.
proof fn lemma_struck_behind(
    repo: Repository,
    objects: Seq<Object>,
    entries: Seq<ManifestEntry>,
    j: int,
    n: nat,
    ca: Cert,
    crl: Crl,
    ancestors: Seq<u64>,
    depth: nat,
    policy: Policy,
    now: u64,
    source: u32,
)
    requires
        0 <= j <= n < entries.len(),
        listed(entries[j], objects) is Err,
    ensures
        ({
            let with = entries_tally(
                repo,
                objects,
                entries,
                n + 1,
                ca,
                crl,
                ancestors,
                depth,
                policy,
                now,
                source,
            );
            let without = entries_tally(
                repo,
                objects,
                entries.remove(j),
                n,
                ca,
                crl,
                ancestors,
                depth,
                policy,
                now,
                source,
            );
            let at = entries_tally(
                repo,
                objects,
                entries,
                j as nat,
                ca,
                crl,
                ancestors,
                depth,
                policy,
                now,
                source,
            ).report.len() as int;
            &&& with.vrps == without.vrps
            &&& 0 <= at <= without.report.len()
            &&& with.report == without.report.insert(
                at,
                Entry {
                    object: entries[j].name,
                    outcome: Outcome::Warning(listed(entries[j], objects)->Err_0),
                },
            )
        }),
    decreases n,
{
    let struck = entries.remove(j);
    let before = entries_tally(
        repo,
        objects,
        entries,
        j as nat,
        ca,
        crl,
        ancestors,
        depth,
        policy,
        now,
        source,
    );
    let warning = Entry {
        object: entries[j].name,
        outcome: Outcome::Warning(listed(entries[j], objects)->Err_0),
    };
    let with = entries_tally(
        repo,
        objects,
        entries,
        n + 1,
        ca,
        crl,
        ancestors,
        depth,
        policy,
        now,
        source,
    );
    let without = entries_tally(
        repo,
        objects,
        struck,
        n,
        ca,
        crl,
        ancestors,
        depth,
        policy,
        now,
        source,
    );
    if n == j {
        lemma_struck_before(
            repo,
            objects,
            entries,
            j,
            j as nat,
            ca,
            crl,
            ancestors,
            depth,
            policy,
            now,
            source,
        );
        assert(entry_vrps(entries[j], objects, ca, crl, policy, now, source)
            == Seq::<Vrp>::empty());
        assert(entry_child(entries[j], objects, ca, crl, ancestors, depth, policy, now) is None);
        assert(entry_outcome(entries[j], objects, ca, crl, ancestors, depth, policy, now)
            == warning.outcome);
        assert(with.vrps =~= without.vrps);
        assert(with.report =~= without.report.insert(before.report.len() as int, warning));
    } else {
        lemma_struck_behind(
            repo,
            objects,
            entries,
            j,
            (n - 1) as nat,
            ca,
            crl,
            ancestors,
            depth,
            policy,
            now,
            source,
        );
        assert(struck[n - 1] == entries[n as int]);
        let e = entries[n as int];
        let with_front = entries_tally(
            repo,
            objects,
            entries,
            n,
            ca,
            crl,
            ancestors,
            depth,
            policy,
            now,
            source,
        );
        let without_front = entries_tally(
            repo,
            objects,
            struck,
            (n - 1) as nat,
            ca,
            crl,
            ancestors,
            depth,
            policy,
            now,
            source,
        );
        let own = Tally {
            vrps: entry_vrps(e, objects, ca, crl, policy, now, source),
            report: seq![
                Entry {
                    object: e.name,
                    outcome: entry_outcome(e, objects, ca, crl, ancestors, depth, policy, now),
                },
            ],
        };
        let below = match entry_child(e, objects, ca, crl, ancestors, depth, policy, now) {
            Some(c) => if depth < policy.max_depth {
                point_tally(repo, c, ancestors.push(c.subject_key), depth + 1, policy, now, source)
            } else {
                Tally::empty()
            },
            None => Tally::empty(),
        };
        assert(with == with_front.followed_by(own).followed_by(below));
        assert(without == without_front.followed_by(own).followed_by(below));
        let at = before.report.len() as int;
        lemma_insert_front(without_front.report, own.report, at, warning);
        lemma_insert_front(without_front.report + own.report, below.report, at, warning);
    }
}

/// Striking an unusable entry from a manifest does not change which
/// revocation list is found.
proof fn lemma_struck_crl(entries: Seq<ManifestEntry>, objects: Seq<Object>, j: int)
    requires
        0 <= j < entries.len(),
        listed(entries[j], objects) is Err,
    ensures
        find_crl(entries.remove(j), objects) == find_crl(entries, objects),
    decreases entries.len(),
{
    if j == 0 {
        assert(entries.remove(0) =~= entries.drop_first());
    } else {
        lemma_struck_crl(entries.drop_first(), objects, j - 1);
        assert(entries.remove(j).drop_first() =~= entries.drop_first().remove(j - 1));
        assert(entries.remove(j)[0] == entries[0]);
    }
}

/// A file that a manifest lists and that was found with another hash than
/// the one declared, or not found, or cannot be read, costs nothing but
/// itself: the files of the manifest yield exactly the payloads that they
/// yield with that entry struck from the manifest, found through the same
/// revocation list; and the report is the same but for the warning about
/// that file, where the entries were looked at.  This holds of every entry
/// that does not stand for a usable file, the revocation list among them:
/// one that cannot be used is none.
pub proof fn law_unusable_entry_costs_itself(
    repo: Repository,
    objects: Seq<Object>,
    entries: Seq<ManifestEntry>,
    j: int,
    ca: Cert,
    ancestors: Seq<u64>,
    depth: nat,
    policy: Policy,
    now: u64,
    source: u32,
)
    requires
        0 <= j < entries.len(),
        listed(entries[j], objects) is Err,
    ensures
        ({
            let with = listed_tally(
                repo,
                objects,
                entries,
                ca,
                ancestors,
                depth,
                policy,
                now,
                source,
            );
            let without = listed_tally(
                repo,
                objects,
                entries.remove(j),
                ca,
                ancestors,
                depth,
                policy,
                now,
                source,
            );
            let warning = Entry {
                object: entries[j].name,
                outcome: Outcome::Warning(listed(entries[j], objects)->Err_0),
            };
            &&& find_crl(entries.remove(j), objects) == find_crl(entries, objects)
            &&& with.vrps == without.vrps
            &&& with.report == without.report || exists|at: int|
                0 <= at <= without.report.len() && with.report == #[trigger] without.report.insert(
                    at,
                    warning,
                )
        }),
{
    lemma_struck_crl(entries, objects, j);
    match find_crl(entries, objects) {
        Some(co) => match co.content {
            Content::Crl(crl) => {
                lemma_struck_behind(
                    repo,
                    objects,
                    entries,
                    j,
                    (entries.len() - 1) as nat,
                    ca,
                    crl,
                    ancestors,
                    depth,
                    policy,
                    now,
                    source,
                );
            },
            _ => {},
        },
        None => {},
    }
}

/// Whether two sets of files hold the same under every name that the
/// entries list.
pub open spec fn same_listed(entries: Seq<ManifestEntry>, a: Seq<Object>, b: Seq<Object>) -> bool {
    forall|k: int|
        0 <= k < entries.len() ==> lookup(a, (#[trigger] entries[k]).name) == lookup(
            b,
            entries[k].name,
        )
}

/// The revocation list found depends on the listed files alone.
proof fn lemma_same_crl(entries: Seq<ManifestEntry>, a: Seq<Object>, b: Seq<Object>)
    requires
        same_listed(entries, a, b),
    ensures
        find_crl(entries, a) == find_crl(entries, b),
    decreases entries.len(),
{
    if entries.len() > 0 {
        let rest = entries.drop_first();
        assert forall|k: int| 0 <= k < rest.len() implies lookup(a, (#[trigger] rest[k]).name)
            == lookup(b, rest[k].name) by {
            assert(rest[k] == entries[k + 1]);
        }
        lemma_same_crl(rest, a, b);
        assert(lookup(a, entries[0].name) == lookup(b, entries[0].name));
    }
}

/// What the first `n` entries yield depends on the listed files alone.
proof fn lemma_same_entries(
    repo: Repository,
    a: Seq<Object>,
    b: Seq<Object>,
    entries: Seq<ManifestEntry>,
    n: nat,
    ca: Cert,
    crl: Crl,
    ancestors: Seq<u64>,
    depth: nat,
    policy: Policy,
    now: u64,
    source: u32,
)
    requires
        same_listed(entries, a, b),
    ensures
        entries_tally(repo, a, entries, n, ca, crl, ancestors, depth, policy, now, source)
            == entries_tally(repo, b, entries, n, ca, crl, ancestors, depth, policy, now, source),
    decreases n,
{
    if n == 0 || n > entries.len() {
    } else {
        lemma_same_entries(
            repo,
            a,
            b,
            entries,
            (n - 1) as nat,
            ca,
            crl,
            ancestors,
            depth,
            policy,
            now,
            source,
        );
        assert(lookup(a, entries[n - 1].name) == lookup(b, entries[n - 1].name));
    }
}

/// What the files of a manifest yield depends on the files that it lists
/// and on no other file of the publication point: a file that no entry
/// names can be there or not.
pub proof fn law_unlisted_files_do_not_count(
    repo: Repository,
    a: Seq<Object>,
    b: Seq<Object>,
    entries: Seq<ManifestEntry>,
    ca: Cert,
    ancestors: Seq<u64>,
    depth: nat,
    policy: Policy,
    now: u64,
    source: u32,
)
    requires
        same_listed(entries, a, b),
    ensures
        listed_tally(repo, a, entries, ca, ancestors, depth, policy, now, source) == listed_tally(
            repo,
            b,
            entries,
            ca,
            ancestors,
            depth,
            policy,
            now,
            source,
        ),
{
    lemma_same_crl(entries, a, b);
    match find_crl(entries, a) {
        Some(co) => match co.content {
            Content::Crl(crl) => {
                lemma_same_entries(
                    repo,
                    a,
                    b,
                    entries,
                    entries.len(),
                    ca,
                    crl,
                    ancestors,
                    depth,
                    policy,
                    now,
                    source,
                );
            },
            _ => {},
        },
        None => {},
    }
}

/// Whether the publication point of `ca` was fetched and holds a usable
/// manifest that lists two files, both found as declared: the usable
/// revocation list `crl`, and `second`.
pub open spec fn lists_one(
    repo: Repository,
    ca: Cert,
    crl: Crl,
    second: Object,
    policy: Policy,
    now: u64,
) -> bool {
    match find_point(repo.points@, ca.point) {
        Some(p) => match p.fetched {
            Ok(objects) => match first_manifest(objects@) {
                Some(mo) => match mo.content {
                    Content::Manifest(m) => {
                        &&& usable(manifest_outcome(m, ca, policy, now))
                        &&& m.entries@.len() == 2
                        &&& listed(m.entries@[0], objects@) matches Ok(o) && o.content
                            == Content::Crl(crl)
                        &&& usable(crl_outcome(crl, ca, policy, now))
                        &&& listed(m.entries@[1], objects@) == Ok::<Object, Reason>(second)
                    },
                    _ => false,
                },
                None => false,
            },
            Err(_) => false,
        },
        None => false,
    }
}

/// A publication point that lists a revocation list and one more file
/// yields the payloads that this file yields: the claims of a ROA that is
/// not rejected, or what lies below an authority that is not rejected.
proof fn lemma_lists_one(
    repo: Repository,
    ca: Cert,
    crl: Crl,
    second: Object,
    ancestors: Seq<u64>,
    depth: nat,
    policy: Policy,
    now: u64,
    source: u32,
)
    requires
        lists_one(repo, ca, crl, second, policy, now),
    ensures
        second.content matches Content::Roa(r) ==> (usable(roa_outcome(r, ca, crl, policy, now))
            ==> point_tally(repo, ca, ancestors, depth, policy, now, source).vrps == roa_vrps(
            r,
            source,
        )),
        second.content matches Content::Cert(c) ==> (usable(
            ca_outcome(c, ca, crl, ancestors, depth, policy, now),
        ) ==> point_tally(repo, ca, ancestors, depth, policy, now, source).vrps == point_tally(
            repo,
            c,
            ancestors.push(c.subject_key),
            depth + 1,
            policy,
            now,
            source,
        ).vrps),
{
    let p = find_point(repo.points@, ca.point)->Some_0;
    let objects = p.fetched->Ok_0@;
    let mo = first_manifest(objects)->Some_0;
    let m = mo.content->Manifest_0;
    let entries = m.entries@;
    let first = listed(entries[0], objects)->Ok_0;
    assert(find_crl(entries, objects) == Some(first));
    let walked = entries_tally(
        repo,
        objects,
        entries,
        2,
        ca,
        crl,
        ancestors,
        depth,
        policy,
        now,
        source,
    );
    let one = entries_tally(
        repo,
        objects,
        entries,
        1,
        ca,
        crl,
        ancestors,
        depth,
        policy,
        now,
        source,
    );
    let none = entries_tally(
        repo,
        objects,
        entries,
        0,
        ca,
        crl,
        ancestors,
        depth,
        policy,
        now,
        source,
    );
    assert(none == Tally::empty());
    assert(entry_vrps(entries[0], objects, ca, crl, policy, now, source) == Seq::<Vrp>::empty());
    assert(entry_child(entries[0], objects, ca, crl, ancestors, depth, policy, now) is None);
    assert(one.vrps =~= Seq::<Vrp>::empty());
    let listed_all = listed_tally(
        repo,
        objects,
        entries,
        ca,
        ancestors,
        depth,
        policy,
        now,
        source,
    );
    assert(listed_all == walked);
    let whole = point_tally(repo, ca, ancestors, depth, policy, now, source);
    assert(whole.vrps =~= walked.vrps);
    match second.content {
        Content::Roa(r) => {
            if usable(roa_outcome(r, ca, crl, policy, now)) {
                assert(entry_vrps(entries[1], objects, ca, crl, policy, now, source) == roa_vrps(
                    r,
                    source,
                ));
                assert(entry_child(entries[1], objects, ca, crl, ancestors, depth, policy, now)
                    is None);
                assert(walked.vrps =~= roa_vrps(r, source));
            }
        },
        Content::Cert(c) => {
            if usable(ca_outcome(c, ca, crl, ancestors, depth, policy, now)) {
                assert(depth < policy.max_depth);
                assert(entry_vrps(entries[1], objects, ca, crl, policy, now, source)
                    == Seq::<Vrp>::empty());
                assert(entry_child(entries[1], objects, ca, crl, ancestors, depth, policy, now)
                    == Some(c));
                assert(walked.vrps =~= point_tally(
                    repo,
                    c,
                    ancestors.push(c.subject_key),
                    depth + 1,
                    policy,
                    now,
                    source,
                ).vrps);
            }
        },
        _ => {},
    }
}

/// A trust anchor that issues one authority that issues one ROA, all of
/// them found as declared and none rejected, yields the claims of the ROA
/// as payloads under the anchor's tag, one for each claim in order, and
/// nothing else.
pub proof fn law_chain_yields_claims(
    repo: Repository,
    ta: TrustAnchor,
    policy: Policy,
    now: u64,
    anchor: Object,
    top: Cert,
    top_crl: Crl,
    issued: Object,
    ca: Cert,
    ca_crl: Crl,
    signed: Object,
    roa: Roa,
)
    requires
        anchor_cert(repo, ta.uris@) == Some(anchor),
        anchor.content == Content::Cert(top),
        usable(anchor_outcome(top, ta, policy, now)),
        lists_one(repo, top, top_crl, issued, policy, now),
        issued.content == Content::Cert(ca),
        usable(ca_outcome(ca, top, top_crl, seq![top.subject_key], 0, policy, now)),
        lists_one(repo, ca, ca_crl, signed, policy, now),
        signed.content == Content::Roa(roa),
        usable(roa_outcome(roa, ca, ca_crl, policy, now)),
    ensures
        anchor_tally(repo, ta, policy, now).vrps == roa_vrps(roa, ta.id),
{
    let path = seq![top.subject_key];
    lemma_lists_one(repo, top, top_crl, issued, path, 0, policy, now, ta.id);
    lemma_lists_one(repo, ca, ca_crl, signed, path.push(ca.subject_key), 1, policy, now, ta.id);
    let below = point_tally(repo, top, path, 0, policy, now, ta.id);
    assert(anchor_tally(repo, ta, policy, now).vrps =~= below.vrps);
}

} // verus!
