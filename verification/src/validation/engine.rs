//! The walk through the tree of authorities: from a trust anchor down
//! through the manifests, to the payloads of the ROAs found on the way.

use vstd::prelude::*;
use crate::payload::{inserted_all, lemma_inserted_all, lemma_inserted_all_add, Vrp, VrpSet};
use crate::validation::objects::{
    find_cert, find_manifest, find_object, find_point, first_cert, first_manifest, lookup, Cert,
    Content, Crl, FetchError, Manifest, ManifestEntry, Object, Policy, Repository, Roa,
    TrustAnchor,
};
use crate::validation::report::{Entry, Outcome, Reason, Report};
use crate::validation::rules::{
    anchor_outcome, ca_outcome, check_anchor, check_ca, check_crl, check_manifest, check_roa,
    crl_outcome, emit_vrps, is_usable, manifest_outcome, roa_outcome, roa_vrps, usable,
};

verus! {

/// What a part of the walk yields: payloads, and report entries.
pub struct Tally {
    pub vrps: Seq<Vrp>,
    pub report: Seq<Entry>,
}

impl Tally {
    /// Nothing.
    pub open spec fn empty() -> Tally {
        Tally { vrps: Seq::empty(), report: Seq::empty() }
    }

    /// One report entry and no payload.
    pub open spec fn note(object: u64, outcome: Outcome) -> Tally {
        Tally { vrps: Seq::empty(), report: seq![Entry { object, outcome }] }
    }

    /// This tally and then `next`.
    pub open spec fn followed_by(self, next: Tally) -> Tally {
        Tally { vrps: self.vrps + next.vrps, report: self.report + next.report }
    }
}

/// The reason that stands for a fetch error.
pub open spec fn fetch_reason(e: FetchError) -> Reason {
    match e {
        FetchError::Unreachable => Reason::Unreachable,
        FetchError::Timeout => Reason::Timeout,
        FetchError::ProtocolError => Reason::ProtocolError,
    }
}

/// The object that a manifest entry stands for, or why there is none to
/// use: the file was not found, its hash is not the one declared, or it
/// cannot be read.
pub open spec fn listed(e: ManifestEntry, objects: Seq<Object>) -> Result<Object, Reason> {
    match lookup(objects, e.name) {
        None => Err(Reason::Missing),
        Some(o) => if o.digest != e.digest {
            Err(Reason::HashMismatch)
        } else if o.content is Unreadable {
            Err(Reason::Unreadable)
        } else {
            Ok(o)
        },
    }
}

/// The revocation list of a publication point: the first that its
/// manifest lists and that was found with the hash declared.
pub open spec fn find_crl(entries: Seq<ManifestEntry>, objects: Seq<Object>) -> Option<Object>
    decreases entries.len(),
{
    if entries.len() == 0 {
        None
    } else {
        match listed(entries[0], objects) {
            Ok(o) => if o.content is Crl {
                Some(o)
            } else {
                find_crl(entries.drop_first(), objects)
            },
            Err(_) => find_crl(entries.drop_first(), objects),
        }
    }
}

/// What becomes of the object that a manifest entry stands for.  An entry
/// without a usable object is warned about; a certificate, a ROA and a
/// revocation list are checked as such; a manifest may not be listed.
pub open spec fn entry_outcome(
    e: ManifestEntry,
    objects: Seq<Object>,
    ca: Cert,
    crl: Crl,
    ancestors: Seq<u64>,
    depth: nat,
    policy: Policy,
    now: u64,
) -> Outcome {
    match listed(e, objects) {
        Err(reason) => Outcome::Warning(reason),
        Ok(o) => match o.content {
            Content::Cert(c) => ca_outcome(c, ca, crl, ancestors, depth, policy, now),
            Content::Roa(r) => roa_outcome(r, ca, crl, policy, now),
            Content::Crl(l) => crl_outcome(l, ca, policy, now),
            Content::Manifest(_) => Outcome::Warning(Reason::Unexpected),
            Content::Unreadable => Outcome::Warning(Reason::Unreadable),
        },
    }
}

/// The payloads that a manifest entry yields by itself: those of a ROA
/// that was not rejected.
pub open spec fn entry_vrps(
    e: ManifestEntry,
    objects: Seq<Object>,
    ca: Cert,
    crl: Crl,
    policy: Policy,
    now: u64,
    source: u32,
) -> Seq<Vrp> {
    match listed(e, objects) {
        Ok(o) => match o.content {
            Content::Roa(r) => if usable(roa_outcome(r, ca, crl, policy, now)) {
                roa_vrps(r, source)
            } else {
                Seq::empty()
            },
            _ => Seq::empty(),
        },
        Err(_) => Seq::empty(),
    }
}

/// The authority that a manifest entry leads down to: that of a
/// certificate that was not rejected.
pub open spec fn entry_child(
    e: ManifestEntry,
    objects: Seq<Object>,
    ca: Cert,
    crl: Crl,
    ancestors: Seq<u64>,
    depth: nat,
    policy: Policy,
    now: u64,
) -> Option<Cert> {
    match listed(e, objects) {
        Ok(o) => match o.content {
            Content::Cert(c) => if usable(ca_outcome(c, ca, crl, ancestors, depth, policy, now)) {
                Some(c)
            } else {
                None
            },
            _ => None,
        },
        Err(_) => None,
    }
}

/// How many more authorities may follow on a path that is `depth` long.
pub open spec fn levels_left(policy: Policy, depth: nat) -> nat {
    if depth <= policy.max_depth {
        (policy.max_depth - depth) as nat
    } else {
        0
    }
}

/// What the first `n` manifest entries yield, each with all that lies
/// below it, in order.
pub open spec fn entries_tally(
    repo: Repository,
    objects: Seq<Object>,
    entries: Seq<ManifestEntry>,
    n: nat,
    ca: Cert,
    crl: Crl,
    ancestors: Seq<u64>,
    depth: nat,
    policy: Policy,
    now: u64,
    source: u32,
) -> Tally
    decreases 2 * levels_left(policy, depth), n,
{
    if n == 0 || n > entries.len() {
        Tally::empty()
    } else {
        let e = entries[n - 1];
        let own = Tally {
            vrps: entry_vrps(e, objects, ca, crl, policy, now, source),
            report: seq![
                Entry {
                    object: e.name,
                    outcome: entry_outcome(e, objects, ca, crl, ancestors, depth, policy, now),
                },
            ],
        };
        let below = match entry_child(e, objects, ca, crl, ancestors, depth, policy, now) {
            Some(c) => if depth < policy.max_depth {
                point_tally(
                    repo,
                    c,
                    ancestors.push(c.subject_key),
                    depth + 1,
                    policy,
                    now,
                    source,
                )
            } else {
                Tally::empty()
            },
            None => Tally::empty(),
        };
        entries_tally(
            repo,
            objects,
            entries,
            (n - 1) as nat,
            ca,
            crl,
            ancestors,
            depth,
            policy,
            now,
            source,
        ).followed_by(own).followed_by(below)
    }
}

/// What the files that a manifest lists yield, where the manifest holds
/// `entries` and the publication point holds `objects`.
///
/// The revocation list is found and checked first; without a usable one
/// nothing else is looked at.  Then every entry is taken in turn.
pub open spec fn listed_tally(
    repo: Repository,
    objects: Seq<Object>,
    entries: Seq<ManifestEntry>,
    ca: Cert,
    ancestors: Seq<u64>,
    depth: nat,
    policy: Policy,
    now: u64,
    source: u32,
) -> Tally
    decreases 2 * levels_left(policy, depth) + 1, 0nat,
{
    match find_crl(entries, objects) {
        None => Tally::note(ca.point, Outcome::Rejected(Reason::NoCrl)),
        Some(co) => match co.content {
            Content::Crl(crl) => {
                let c_out = crl_outcome(crl, ca, policy, now);
                if !usable(c_out) {
                    Tally::note(co.name, c_out)
                } else {
                    entries_tally(
                        repo,
                        objects,
                        entries,
                        entries.len(),
                        ca,
                        crl,
                        ancestors,
                        depth,
                        policy,
                        now,
                        source,
                    )
                }
            },
            _ => Tally::empty(),
        },
    }
}

/// What the publication point of the authority `ca` yields.
///
/// A point that was not fetched, or holds no manifest, is rejected.  The
/// manifest is checked first; where it is rejected, nothing it lists is
/// looked at.  Otherwise the files it lists are taken up.
pub open spec fn point_tally(
    repo: Repository,
    ca: Cert,
    ancestors: Seq<u64>,
    depth: nat,
    policy: Policy,
    now: u64,
    source: u32,
) -> Tally
    decreases 2 * levels_left(policy, depth) + 1, 1nat,
{
    match find_point(repo.points@, ca.point) {
        None => Tally::note(ca.point, Outcome::Rejected(Reason::Unreachable)),
        Some(p) => match p.fetched {
            Err(e) => Tally::note(ca.point, Outcome::Rejected(fetch_reason(e))),
            Ok(objects) => match first_manifest(objects@) {
                None => Tally::note(ca.point, Outcome::Rejected(Reason::NoManifest)),
                Some(mo) => match mo.content {
                    Content::Manifest(m) => {
                        let m_out = manifest_outcome(m, ca, policy, now);
                        if !usable(m_out) {
                            Tally::note(mo.name, m_out)
                        } else {
                            Tally::note(mo.name, m_out).followed_by(
                                listed_tally(
                                    repo,
                                    objects@,
                                    m.entries@,
                                    ca,
                                    ancestors,
                                    depth,
                                    policy,
                                    now,
                                    source,
                                ),
                            )
                        }
                    },
                    _ => Tally::empty(),
                },
            },
        },
    }
}

/// The certificate of a trust anchor: the first certificate at the first
/// of the anchor's publication points that was fetched and holds one.
pub open spec fn anchor_cert(repo: Repository, uris: Seq<u64>) -> Option<Object>
    decreases uris.len(),
{
    if uris.len() == 0 {
        None
    } else {
        let found = match find_point(repo.points@, uris[0]) {
            Some(p) => match p.fetched {
                Ok(objects) => first_cert(objects@),
                Err(_) => None,
            },
            None => None,
        };
        if found is Some {
            found
        } else {
            anchor_cert(repo, uris.drop_first())
        }
    }
}

/// What a trust anchor yields: its certificate is checked, and where it is
/// not rejected, the tree below it is walked.  An anchor whose certificate
/// was not found is rejected as unreachable.
pub open spec fn anchor_tally(repo: Repository, ta: TrustAnchor, policy: Policy, now: u64) -> Tally {
    match anchor_cert(repo, ta.uris@) {
        None => Tally::note(ta.id as u64, Outcome::Rejected(Reason::Unreachable)),
        Some(o) => match o.content {
            Content::Cert(c) => {
                let out = anchor_outcome(c, ta, policy, now);
                if !usable(out) {
                    Tally::note(o.name, out)
                } else {
                    Tally::note(o.name, out).followed_by(
                        point_tally(repo, c, seq![c.subject_key], 0, policy, now, ta.id),
                    )
                }
            },
            _ => Tally::empty(),
        },
    }
}

/// What a list of trust anchors yields, one after the other.
pub open spec fn anchors_tally(
    repo: Repository,
    tas: Seq<TrustAnchor>,
    policy: Policy,
    now: u64,
) -> Tally
    decreases tas.len(),
{
    if tas.len() == 0 {
        Tally::empty()
    } else {
        anchors_tally(repo, tas.drop_last(), policy, now).followed_by(
            anchor_tally(repo, tas.last(), policy, now),
        )
    }
}

/// Whether taking up `t` leads from the payloads and the report before to
/// those after: the payloads are put behind the others, each unless it is
/// there already, and the entries behind the report.
pub open spec fn absorbed(
    vrps_before: Seq<Vrp>,
    report_before: Seq<Entry>,
    t: Tally,
    vrps_after: Seq<Vrp>,
    report_after: Seq<Entry>,
) -> bool {
    &&& vrps_after == inserted_all(vrps_before, t.vrps)
    &&& report_after == report_before + t.report
}

/// Taking up nothing changes nothing.
pub proof fn lemma_absorb_nothing(vrps: Seq<Vrp>, report: Seq<Entry>)
    ensures
        absorbed(vrps, report, Tally::empty(), vrps, report),
{
    assert(report + Seq::<Entry>::empty() =~= report);
}

/// Taking up a note adds one entry to the report.
pub proof fn lemma_absorb_note(vrps: Seq<Vrp>, report: Seq<Entry>, object: u64, outcome: Outcome)
    ensures
        absorbed(
            vrps,
            report,
            Tally::note(object, outcome),
            vrps,
            report.push(Entry { object, outcome }),
        ),
{
    assert(report + seq![Entry { object, outcome }] =~= report.push(Entry { object, outcome }));
}

/// Taking up one tally and then another is taking up the two in a row.
pub proof fn lemma_absorb_both(
    v0: Seq<Vrp>,
    r0: Seq<Entry>,
    a: Tally,
    v1: Seq<Vrp>,
    r1: Seq<Entry>,
    b: Tally,
    v2: Seq<Vrp>,
    r2: Seq<Entry>,
)
    requires
        absorbed(v0, r0, a, v1, r1),
        absorbed(v1, r1, b, v2, r2),
    ensures
        absorbed(v0, r0, a.followed_by(b), v2, r2),
{
    lemma_inserted_all_add(v0, a.vrps, b.vrps);
    assert(r2 =~= r0 + (a.report + b.report));
}

/// Computes `fetch_reason`.
pub fn reason_of(e: FetchError) -> (r: Reason)
    ensures
        r == fetch_reason(e),
{
    match e {
        FetchError::Unreachable => Reason::Unreachable,
        FetchError::Timeout => Reason::Timeout,
        FetchError::ProtocolError => Reason::ProtocolError,
    }
}

/// Computes `listed`.
pub fn fetch_listed<'a>(e: &ManifestEntry, objects: &'a Vec<Object>) -> (r: Result<
    &'a Object,
    Reason,
>)
    ensures
        match r {
            Ok(o) => listed(*e, objects@) == Ok::<Object, Reason>(*o),
            Err(reason) => listed(*e, objects@) == Err::<Object, Reason>(reason),
        },
{
    match find_object(objects, e.name) {
        None => Err(Reason::Missing),
        Some(o) => {
            if o.digest != e.digest {
                Err(Reason::HashMismatch)
            } else if let Content::Unreadable = o.content {
                Err(Reason::Unreadable)
            } else {
                Ok(o)
            }
        },
    }
}

/// Computes `find_crl`.
pub fn locate_crl<'a>(entries: &Vec<ManifestEntry>, objects: &'a Vec<Object>) -> (r: Option<
    &'a Object,
>)
    ensures
        match r {
            Some(o) => find_crl(entries@, objects@) == Some(*o) && o.content is Crl,
            None => find_crl(entries@, objects@) is None,
        },
{
    let mut i: usize = 0;
    assert(entries@.skip(0) =~= entries@);
    while i < entries.len()
        invariant
            i <= entries.len(),
            find_crl(entries@, objects@) == find_crl(entries@.skip(i as int), objects@),
        decreases entries.len() - i,
    {
        match fetch_listed(&entries[i], objects) {
            Ok(o) => {
                if let Content::Crl(_) = o.content {
                    return Some(o);
                }
            },
            Err(_) => {},
        }
        assert(entries@.skip(i as int).drop_first() =~= entries@.skip(i + 1));
        i += 1;
    }
    None
}

/// The path with one more key behind it.
pub fn extended(path: &Vec<u64>, key: u64) -> (r: Vec<u64>)
    ensures
        r@ == path@.push(key),
{
    let mut r: Vec<u64> = Vec::new();
    let mut i: usize = 0;
    while i < path.len()
        invariant
            i <= path.len(),
            r@ == path@.take(i as int),
        decreases path.len() - i,
    {
        r.push(path[i]);
        assert(path@.take(i + 1) =~= path@.take(i as int).push(path@[i as int]));
        i += 1;
    }
    assert(path@.take(i as int) =~= path@);
    r.push(key);
    r
}

/// Takes the entries of a manifest in turn and adds what they yield.
fn walk_entries(
    repo: &Repository,
    objects: &Vec<Object>,
    entries: &Vec<ManifestEntry>,
    ca: &Cert,
    crl: &Crl,
    ancestors: &Vec<u64>,
    depth: u32,
    policy: &Policy,
    now: u64,
    source: u32,
    vrps: &mut VrpSet,
    report: &mut Report,
)
    requires
        old(vrps).wf(),
    ensures
        final(vrps).wf(),
        absorbed(
            old(vrps).seq(),
            old(report)@,
            entries_tally(
                *repo,
                objects@,
                entries@,
                entries@.len(),
                *ca,
                *crl,
                ancestors@,
                depth as nat,
                *policy,
                now,
                source,
            ),
            final(vrps).seq(),
            final(report)@,
        ),
    decreases 2 * levels_left(*policy, depth as nat), 0nat,
{
    let mut i: usize = 0;
    proof {
        lemma_absorb_nothing(vrps.seq(), report@);
    }
    while i < entries.len()
        invariant
            i <= entries.len(),
            vrps.wf(),
            absorbed(
                old(vrps).seq(),
                old(report)@,
                entries_tally(
                    *repo,
                    objects@,
                    entries@,
                    i as nat,
                    *ca,
                    *crl,
                    ancestors@,
                    depth as nat,
                    *policy,
                    now,
                    source,
                ),
                vrps.seq(),
                report@,
            ),
        decreases entries.len() - i,
    {
        let e = entries[i];
        let ghost v0 = vrps.seq();
        let ghost r0 = report@;
        let ghost done = entries_tally(
            *repo,
            objects@,
            entries@,
            i as nat,
            *ca,
            *crl,
            ancestors@,
            depth as nat,
            *policy,
            now,
            source,
        );
        let ghost outcome = entry_outcome(
            e,
            objects@,
            *ca,
            *crl,
            ancestors@,
            depth as nat,
            *policy,
            now,
        );
        let ghost own = Tally {
            vrps: entry_vrps(e, objects@, *ca, *crl, *policy, now, source),
            report: seq![Entry { object: e.name, outcome }],
        };
        let ghost below = match entry_child(
            e,
            objects@,
            *ca,
            *crl,
            ancestors@,
            depth as nat,
            *policy,
            now,
        ) {
            Some(c) => if depth < policy.max_depth {
                point_tally(
                    *repo,
                    c,
                    ancestors@.push(c.subject_key),
                    (depth + 1) as nat,
                    *policy,
                    now,
                    source,
                )
            } else {
                Tally::empty()
            },
            None => Tally::empty(),
        };
        let mut descended = false;
        match fetch_listed(&e, objects) {
            Err(reason) => {
                report.note(e.name, Outcome::Warning(reason));
            },
            Ok(o) => {
                match &o.content {
                    Content::Cert(c) => {
                        let out = check_ca(c, ca, crl, ancestors, depth, policy, now);
                        report.note(e.name, out);
                        if is_usable(&out) && depth < policy.max_depth {
                            let path = extended(ancestors, c.subject_key);
                            proof {
                                lemma_absorb_note(v0, r0, e.name, outcome);
                            }
                            walk_point(repo, c, &path, depth + 1, policy, now, source, vrps, report);
                            descended = true;
                        }
                    },
                    Content::Roa(r) => {
                        let out = check_roa(r, ca, crl, policy, now);
                        report.note(e.name, out);
                        if is_usable(&out) {
                            emit_vrps(r, source, vrps);
                        }
                    },
                    Content::Crl(l) => {
                        let out = check_crl(l, ca, policy, now);
                        report.note(e.name, out);
                    },
                    Content::Manifest(_) => {
                        report.note(e.name, Outcome::Warning(Reason::Unexpected));
                    },
                    Content::Unreadable => {
                        report.note(e.name, Outcome::Warning(Reason::Unreadable));
                    },
                }
            },
        }
        proof {
            if descended {
                assert(absorbed(v0, r0, own, v0, r0.push(Entry { object: e.name, outcome })));
                lemma_absorb_both(
                    v0,
                    r0,
                    own,
                    v0,
                    r0.push(Entry { object: e.name, outcome }),
                    below,
                    vrps.seq(),
                    report@,
                );
            } else {
                assert(below == Tally::empty());
                assert(report@ =~= r0 + own.report);
                assert(absorbed(v0, r0, own, vrps.seq(), report@));
                lemma_absorb_nothing(vrps.seq(), report@);
                lemma_absorb_both(
                    v0,
                    r0,
                    own,
                    vrps.seq(),
                    report@,
                    below,
                    vrps.seq(),
                    report@,
                );
            }
            lemma_absorb_both(
                old(vrps).seq(),
                old(report)@,
                done,
                v0,
                r0,
                own.followed_by(below),
                vrps.seq(),
                report@,
            );
            assert(done.followed_by(own).followed_by(below).vrps =~= done.followed_by(
                own.followed_by(below),
            ).vrps);
            assert(done.followed_by(own).followed_by(below).report =~= done.followed_by(
                own.followed_by(below),
            ).report);
        }
        i += 1;
    }
}

/// Takes up the files that a manifest lists and adds what they yield.
fn walk_listed(
    repo: &Repository,
    objects: &Vec<Object>,
    entries: &Vec<ManifestEntry>,
    ca: &Cert,
    ancestors: &Vec<u64>,
    depth: u32,
    policy: &Policy,
    now: u64,
    source: u32,
    vrps: &mut VrpSet,
    report: &mut Report,
)
    requires
        old(vrps).wf(),
    ensures
        final(vrps).wf(),
        absorbed(
            old(vrps).seq(),
            old(report)@,
            listed_tally(
                *repo,
                objects@,
                entries@,
                *ca,
                ancestors@,
                depth as nat,
                *policy,
                now,
                source,
            ),
            final(vrps).seq(),
            final(report)@,
        ),
    decreases 2 * levels_left(*policy, depth as nat) + 1, 0nat,
{
    let ghost v0 = vrps.seq();
    let ghost r0 = report@;
    proof {
        lemma_absorb_nothing(v0, r0);
    }
    match locate_crl(entries, objects) {
        None => {
            report.note(ca.point, Outcome::Rejected(Reason::NoCrl));
            proof {
                lemma_absorb_note(v0, r0, ca.point, Outcome::Rejected(Reason::NoCrl));
            }
        },
        Some(co) => {
            match &co.content {
                Content::Crl(crl) => {
                    let c_out = check_crl(crl, ca, policy, now);
                    if !is_usable(&c_out) {
                        report.note(co.name, c_out);
                        proof {
                            lemma_absorb_note(v0, r0, co.name, c_out);
                        }
                    } else {
                        walk_entries(
                            repo,
                            objects,
                            entries,
                            ca,
                            crl,
                            ancestors,
                            depth,
                            policy,
                            now,
                            source,
                            vrps,
                            report,
                        );
                    }
                },
                _ => {},
            }
        },
    }
}

/// Validates the publication point of an authority and adds what it
/// yields.
fn walk_point(
    repo: &Repository,
    ca: &Cert,
    ancestors: &Vec<u64>,
    depth: u32,
    policy: &Policy,
    now: u64,
    source: u32,
    vrps: &mut VrpSet,
    report: &mut Report,
)
    requires
        old(vrps).wf(),
    ensures
        final(vrps).wf(),
        absorbed(
            old(vrps).seq(),
            old(report)@,
            point_tally(*repo, *ca, ancestors@, depth as nat, *policy, now, source),
            final(vrps).seq(),
            final(report)@,
        ),
    decreases 2 * levels_left(*policy, depth as nat) + 1, 1nat,
{
    let ghost v0 = vrps.seq();
    let ghost r0 = report@;
    proof {
        lemma_absorb_nothing(v0, r0);
    }
    match repo.point(ca.point) {
        None => {
            report.note(ca.point, Outcome::Rejected(Reason::Unreachable));
            proof {
                lemma_absorb_note(v0, r0, ca.point, Outcome::Rejected(Reason::Unreachable));
            }
        },
        Some(p) => {
            match &p.fetched {
                Err(e) => {
                    let reason = reason_of(*e);
                    report.note(ca.point, Outcome::Rejected(reason));
                    proof {
                        lemma_absorb_note(v0, r0, ca.point, Outcome::Rejected(reason));
                    }
                },
                Ok(objects) => {
                    match find_manifest(objects) {
                        None => {
                            report.note(ca.point, Outcome::Rejected(Reason::NoManifest));
                            proof {
                                lemma_absorb_note(
                                    v0,
                                    r0,
                                    ca.point,
                                    Outcome::Rejected(Reason::NoManifest),
                                );
                            }
                        },
                        Some(mo) => {
                            match &mo.content {
                                Content::Manifest(m) => {
                                    let m_out = check_manifest(m, ca, policy, now);
                                    report.note(mo.name, m_out);
                                    let ghost r1 = report@;
                                    proof {
                                        lemma_absorb_note(v0, r0, mo.name, m_out);
                                    }
                                    if is_usable(&m_out) {
                                        walk_listed(
                                            repo,
                                            objects,
                                            &m.entries,
                                            ca,
                                            ancestors,
                                            depth,
                                            policy,
                                            now,
                                            source,
                                            vrps,
                                            report,
                                        );
                                        proof {
                                            lemma_absorb_both(
                                                v0,
                                                r0,
                                                Tally::note(mo.name, m_out),
                                                v0,
                                                r1,
                                                listed_tally(
                                                    *repo,
                                                    objects@,
                                                    m.entries@,
                                                    *ca,
                                                    ancestors@,
                                                    depth as nat,
                                                    *policy,
                                                    now,
                                                    source,
                                                ),
                                                vrps.seq(),
                                                report@,
                                            );
                                        }
                                    }
                                },
                                _ => {},
                            }
                        },
                    }
                },
            }
        },
    }
}

/// Computes `anchor_cert`.
pub fn locate_anchor_cert<'a>(repo: &'a Repository, uris: &Vec<u64>) -> (r: Option<&'a Object>)
    ensures
        match r {
            Some(o) => anchor_cert(*repo, uris@) == Some(*o),
            None => anchor_cert(*repo, uris@) is None,
        },
{
    let mut i: usize = 0;
    assert(uris@.skip(0) =~= uris@);
    while i < uris.len()
        invariant
            i <= uris.len(),
            anchor_cert(*repo, uris@) == anchor_cert(*repo, uris@.skip(i as int)),
        decreases uris.len() - i,
    {
        if let Some(p) = repo.point(uris[i]) {
            if let Ok(objects) = &p.fetched {
                if let Some(o) = find_cert(objects) {
                    return Some(o);
                }
            }
        }
        assert(uris@.skip(i as int).drop_first() =~= uris@.skip(i + 1));
        i += 1;
    }
    None
}

/// Validates what lies under one trust anchor and adds it to the payloads
/// and the report at hand.
pub fn validate_into(
    ta: &TrustAnchor,
    repo: &Repository,
    policy: &Policy,
    now: u64,
    vrps: &mut VrpSet,
    report: &mut Report,
)
    requires
        old(vrps).wf(),
    ensures
        final(vrps).wf(),
        absorbed(
            old(vrps).seq(),
            old(report)@,
            anchor_tally(*repo, *ta, *policy, now),
            final(vrps).seq(),
            final(report)@,
        ),
{
    let ghost v0 = vrps.seq();
    let ghost r0 = report@;
    proof {
        lemma_absorb_nothing(v0, r0);
    }
    match locate_anchor_cert(repo, &ta.uris) {
        None => {
            report.note(ta.id as u64, Outcome::Rejected(Reason::Unreachable));
            proof {
                lemma_absorb_note(v0, r0, ta.id as u64, Outcome::Rejected(Reason::Unreachable));
            }
        },
        Some(o) => {
            match &o.content {
                Content::Cert(c) => {
                    let out = check_anchor(c, ta, policy, now);
                    report.note(o.name, out);
                    let ghost r1 = report@;
                    proof {
                        lemma_absorb_note(v0, r0, o.name, out);
                    }
                    if is_usable(&out) {
                        let mut path: Vec<u64> = Vec::new();
                        path.push(c.subject_key);
                        assert(path@ =~= seq![c.subject_key]);
                        walk_point(repo, c, &path, 0, policy, now, ta.id, vrps, report);
                        proof {
                            lemma_absorb_both(
                                v0,
                                r0,
                                Tally::note(o.name, out),
                                v0,
                                r1,
                                point_tally(*repo, *c, path@, 0, *policy, now, ta.id),
                                vrps.seq(),
                                report@,
                            );
                        }
                    }
                },
                _ => {},
            }
        },
    }
}

/// Validates what lies under one trust anchor: the payloads it vouches
/// for, each once, and the report of what became of every object looked
/// at.
pub fn validate(ta: &TrustAnchor, repo: &Repository, policy: &Policy, now: u64) -> (r: (
    VrpSet,
    Report,
))
    ensures
        r.0.wf(),
        r.0.seq() == inserted_all(Seq::empty(), anchor_tally(*repo, *ta, *policy, now).vrps),
        r.0@ == anchor_tally(*repo, *ta, *policy, now).vrps.to_set(),
        r.1@ == anchor_tally(*repo, *ta, *policy, now).report,
{
    let mut vrps = VrpSet::new();
    let mut report = Report::new();
    validate_into(ta, repo, policy, now, &mut vrps, &mut report);
    proof {
        let t = anchor_tally(*repo, *ta, *policy, now);
        lemma_inserted_all(Seq::empty(), t.vrps);
        assert(Seq::<Vrp>::empty().to_set().union(t.vrps.to_set()) =~= t.vrps.to_set());
        assert(Seq::<Entry>::empty() + t.report =~= t.report);
    }
    (vrps, report)
}

/// Taking up what one more trust anchor yields is taking up what the
/// anchors up to it yield.
proof fn lemma_anchors_step(
    repo: Repository,
    tas: Seq<TrustAnchor>,
    i: int,
    policy: Policy,
    now: u64,
    v0: Seq<Vrp>,
    r0: Seq<Entry>,
    v1: Seq<Vrp>,
    r1: Seq<Entry>,
)
    requires
        0 <= i < tas.len(),
        absorbed(
            Seq::<Vrp>::empty(),
            Seq::<Entry>::empty(),
            anchors_tally(repo, tas.take(i), policy, now),
            v0,
            r0,
        ),
        absorbed(v0, r0, anchor_tally(repo, tas[i], policy, now), v1, r1),
    ensures
        absorbed(
            Seq::<Vrp>::empty(),
            Seq::<Entry>::empty(),
            anchors_tally(repo, tas.take(i + 1), policy, now),
            v1,
            r1,
        ),
{
    let next = tas.take(i + 1);
    assert(next.drop_last() =~= tas.take(i));
    assert(next.last() == tas[i]);
    lemma_absorb_both(
        Seq::<Vrp>::empty(),
        Seq::<Entry>::empty(),
        anchors_tally(repo, tas.take(i), policy, now),
        v0,
        r0,
        anchor_tally(repo, tas[i], policy, now),
        v1,
        r1,
    );
}

/// Validates what lies under each of the trust anchors in turn.  A payload
/// that more than one path leads to is held once.
pub fn validate_all(tas: &Vec<TrustAnchor>, repo: &Repository, policy: &Policy, now: u64) -> (r: (
    VrpSet,
    Report,
))
    ensures
        r.0.wf(),
        r.0.seq() == inserted_all(Seq::empty(), anchors_tally(*repo, tas@, *policy, now).vrps),
        r.0@ == anchors_tally(*repo, tas@, *policy, now).vrps.to_set(),
        r.1@ == anchors_tally(*repo, tas@, *policy, now).report,
{
    let mut vrps = VrpSet::new();
    let mut report = Report::new();
    let mut i: usize = 0;
    proof {
        lemma_absorb_nothing(vrps.seq(), report@);
    }
    while i < tas.len()
        invariant
            i <= tas.len(),
            vrps.wf(),
            absorbed(
                Seq::<Vrp>::empty(),
                Seq::<Entry>::empty(),
                anchors_tally(*repo, tas@.take(i as int), *policy, now),
                vrps.seq(),
                report@,
            ),
        decreases tas.len() - i,
    {
        let ghost v0 = vrps.seq();
        let ghost r0 = report@;
        validate_into(&tas[i], repo, policy, now, &mut vrps, &mut report);
        proof {
            lemma_anchors_step(*repo, tas@, i as int, *policy, now, v0, r0, vrps.seq(), report@);
        }
        i += 1;
    }
    proof {
        assert(tas@.take(i as int) =~= tas@);
        let t = anchors_tally(*repo, tas@, *policy, now);
        lemma_inserted_all(Seq::empty(), t.vrps);
        assert(Seq::<Vrp>::empty().to_set().union(t.vrps.to_set()) =~= t.vrps.to_set());
        assert(Seq::<Entry>::empty() + t.report =~= t.report);
    }
    (vrps, report)
}

/// A manifest entry whose file was found with another hash than the one
/// declared is warned about, yields no payload, and leads to no authority.
pub proof fn law_hash_mismatch_excluded(
    e: ManifestEntry,
    objects: Seq<Object>,
    ca: Cert,
    crl: Crl,
    ancestors: Seq<u64>,
    depth: nat,
    policy: Policy,
    now: u64,
    source: u32,
)
    requires
        lookup(objects, e.name) is Some,
        lookup(objects, e.name).unwrap().digest != e.digest,
    ensures
        entry_outcome(e, objects, ca, crl, ancestors, depth, policy, now) == Outcome::Warning(
            Reason::HashMismatch,
        ),
        entry_vrps(e, objects, ca, crl, policy, now, source) == Seq::<Vrp>::empty(),
        entry_child(e, objects, ca, crl, ancestors, depth, policy, now) is None,
{
}

/// What becomes of a manifest entry depends on the file it names and on
/// no other file of the publication point: where two sets of files hold
/// the same under that name, the entry fares the same with both.
pub proof fn law_siblings_unaffected(
    e: ManifestEntry,
    a: Seq<Object>,
    b: Seq<Object>,
    ca: Cert,
    crl: Crl,
    ancestors: Seq<u64>,
    depth: nat,
    policy: Policy,
    now: u64,
    source: u32,
)
    requires
        lookup(a, e.name) == lookup(b, e.name),
    ensures
        entry_outcome(e, a, ca, crl, ancestors, depth, policy, now) == entry_outcome(
            e,
            b,
            ca,
            crl,
            ancestors,
            depth,
            policy,
            now,
        ),
        entry_vrps(e, a, ca, crl, policy, now, source) == entry_vrps(
            e,
            b,
            ca,
            crl,
            policy,
            now,
            source,
        ),
        entry_child(e, a, ca, crl, ancestors, depth, policy, now) == entry_child(
            e,
            b,
            ca,
            crl,
            ancestors,
            depth,
            policy,
            now,
        ),
{
}

/// An authority whose certificate holds resources that its issuer does
/// not is rejected, and nothing below it is looked at: its manifest entry
/// yields no payload and leads to no authority.
pub proof fn law_violation_cuts_subtree(
    e: ManifestEntry,
    objects: Seq<Object>,
    ca: Cert,
    crl: Crl,
    ancestors: Seq<u64>,
    depth: nat,
    policy: Policy,
    now: u64,
    source: u32,
)
    requires
        listed(e, objects) matches Ok(o) && (o.content matches Content::Cert(c)
            && !c.resources@.subset_of(ca.resources@)),
    ensures
        entry_outcome(e, objects, ca, crl, ancestors, depth, policy, now) is Rejected,
        entry_vrps(e, objects, ca, crl, policy, now, source) == Seq::<Vrp>::empty(),
        entry_child(e, objects, ca, crl, ancestors, depth, policy, now) is None,
{
}

} // verus!
