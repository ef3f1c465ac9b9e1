//! The checks on single objects: each names the first thing that is wrong
//! with an object, or finds nothing wrong.

use vstd::prelude::*;
use crate::payload::{inserted_all, lemma_inserted_all, Vrp, VrpSet};
use crate::validation::objects::{has_serial, Cert, Claim, Crl, Manifest, Policy, Roa, TrustAnchor};
use crate::validation::report::{Outcome, Reason};
use crate::validation::resources::ResourceView;

verus! {

/// Whether `now` lies in the time span.
pub open spec fn current(from: u64, until: u64, now: u64) -> bool {
    from <= now <= until
}

/// Whether what was checked may be used: it was not rejected.
pub open spec fn usable(outcome: Outcome) -> bool {
    !(outcome is Rejected)
}

/// What becomes of a trust anchor's certificate.  Its key must be the
/// anchor's, it must be signed with its own key, valid now unless the
/// policy lets that pass, and its resources must lie within their number
/// spaces.  Resources not in canonical form are rejected in strict mode
/// and warned about otherwise.
pub open spec fn anchor_outcome(cert: Cert, ta: TrustAnchor, policy: Policy, now: u64) -> Outcome {
    if cert.subject_key != ta.key {
        Outcome::Rejected(Reason::KeyMismatch)
    } else if cert.issuer_key != cert.subject_key || !cert.signature_ok {
        Outcome::Rejected(Reason::BadSignature)
    } else if !policy.allow_expired && !current(cert.not_before, cert.not_after, now) {
        Outcome::Rejected(Reason::Expired)
    } else if !cert.resources@.well_formed() {
        Outcome::Rejected(Reason::MalformedResources)
    } else if !cert.resources@.conformant() {
        if policy.strict {
            Outcome::Rejected(Reason::NonConformant)
        } else {
            Outcome::Warning(Reason::NonConformant)
        }
    } else {
        Outcome::Accepted
    }
}

/// What becomes of a manifest found at the publication point of `ca`.  It
/// must be signed by `ca`.  One that is not current is rejected in strict
/// mode and warned about otherwise.
pub open spec fn manifest_outcome(m: Manifest, ca: Cert, policy: Policy, now: u64) -> Outcome {
    if m.issuer_key != ca.subject_key || !m.signature_ok {
        Outcome::Rejected(Reason::BadSignature)
    } else if !current(m.this_update, m.next_update, now) {
        if policy.strict {
            Outcome::Rejected(Reason::StaleManifest)
        } else {
            Outcome::Warning(Reason::StaleManifest)
        }
    } else {
        Outcome::Accepted
    }
}

/// What becomes of the revocation list of `ca`.  It must be signed by
/// `ca`.  One that is not current is rejected in strict mode and warned
/// about otherwise.
pub open spec fn crl_outcome(crl: Crl, ca: Cert, policy: Policy, now: u64) -> Outcome {
    if crl.issuer_key != ca.subject_key || !crl.signature_ok {
        Outcome::Rejected(Reason::BadSignature)
    } else if !current(crl.this_update, crl.next_update, now) {
        if policy.strict {
            Outcome::Rejected(Reason::ExpiredCrl)
        } else {
            Outcome::Warning(Reason::ExpiredCrl)
        }
    } else {
        Outcome::Accepted
    }
}

/// What becomes of the certificate of an authority that `ca` has issued,
/// `depth` authorities below the trust anchor, where `ancestors` are the
/// keys from the trust anchor down to `ca`.
///
/// The certificate must be signed by `ca`, valid now, not revoked, with
/// resources within their number spaces that are all resources of `ca`;
/// its key must not be the key of an ancestor, and it must not lie deeper
/// than the policy allows.  Resources not in canonical form are rejected
/// in strict mode and warned about otherwise.
pub open spec fn ca_outcome(
    child: Cert,
    ca: Cert,
    crl: Crl,
    ancestors: Seq<u64>,
    depth: nat,
    policy: Policy,
    now: u64,
) -> Outcome {
    if child.issuer_key != ca.subject_key || !child.signature_ok {
        Outcome::Rejected(Reason::BadSignature)
    } else if !current(child.not_before, child.not_after, now) {
        Outcome::Rejected(Reason::Expired)
    } else if crl.revoked@.contains(child.serial) {
        Outcome::Rejected(Reason::Revoked)
    } else if !child.resources@.well_formed() {
        Outcome::Rejected(Reason::MalformedResources)
    } else if !child.resources@.subset_of(ca.resources@) {
        Outcome::Rejected(Reason::ResourceViolation)
    } else if ancestors.contains(child.subject_key) {
        Outcome::Rejected(Reason::CycleDetected)
    } else if depth >= policy.max_depth {
        Outcome::Rejected(Reason::TooDeep)
    } else if !child.resources@.conformant() {
        if policy.strict {
            Outcome::Rejected(Reason::NonConformant)
        } else {
            Outcome::Warning(Reason::NonConformant)
        }
    } else {
        Outcome::Accepted
    }
}

/// The payload that a claim makes for an origin under a trust anchor.
pub open spec fn claim_vrp(claim: Claim, asn: u32, source: u32) -> Vrp {
    Vrp { prefix: claim.prefix, max_len: claim.max_len, asn, source }
}

/// Whether every claim is a valid payload.
pub open spec fn claims_valid(claims: Seq<Claim>) -> bool {
    forall|i: int| 0 <= i < claims.len() ==> (#[trigger] claim_vrp(claims[i], 0, 0)).valid()
}

/// Whether every claimed prefix lies within `resources`.
pub open spec fn claims_held(claims: Seq<Claim>, resources: ResourceView) -> bool {
    forall|i: int| 0 <= i < claims.len() ==> resources.holds_prefix((#[trigger] claims[i]).prefix)
}

/// What becomes of a ROA that `ca` has issued.
///
/// Its certificate must be signed by `ca` and the claims by the
/// certificate's key; the certificate must be valid now, not revoked, with
/// resources within their number spaces that are all resources of `ca`;
/// every claim must be a valid payload, and every claimed prefix must lie
/// within the certificate's resources.  Resources not in canonical form
/// are rejected in strict mode and warned about otherwise.
pub open spec fn roa_outcome(roa: Roa, ca: Cert, crl: Crl, policy: Policy, now: u64) -> Outcome {
    if roa.ee.issuer_key != ca.subject_key || !roa.ee.signature_ok || !roa.content_ok {
        Outcome::Rejected(Reason::BadSignature)
    } else if !current(roa.ee.not_before, roa.ee.not_after, now) {
        Outcome::Rejected(Reason::Expired)
    } else if crl.revoked@.contains(roa.ee.serial) {
        Outcome::Rejected(Reason::Revoked)
    } else if !roa.ee.resources@.well_formed() {
        Outcome::Rejected(Reason::MalformedResources)
    } else if !roa.ee.resources@.subset_of(ca.resources@) {
        Outcome::Rejected(Reason::ResourceViolation)
    } else if !claims_valid(roa.claims@) {
        Outcome::Rejected(Reason::MalformedClaim)
    } else if !claims_held(roa.claims@, roa.ee.resources@) {
        Outcome::Rejected(Reason::ResourceViolation)
    } else if !roa.ee.resources@.conformant() {
        if policy.strict {
            Outcome::Rejected(Reason::NonConformant)
        } else {
            Outcome::Warning(Reason::NonConformant)
        }
    } else {
        Outcome::Accepted
    }
}

/// The payloads of a ROA under a trust anchor: one for each claim, in
/// order.
pub open spec fn roa_vrps(roa: Roa, source: u32) -> Seq<Vrp> {
    roa.claims@.map_values(|c: Claim| claim_vrp(c, roa.asn, source))
}

/// Tests `current`.
pub fn is_current(from: u64, until: u64, now: u64) -> (r: bool)
    ensures
        r == current(from, until, now),
{
    from <= now && now <= until
}

/// Tests `usable`.
pub fn is_usable(outcome: &Outcome) -> (r: bool)
    ensures
        r == usable(*outcome),
{
    match outcome {
        Outcome::Rejected(_) => false,
        _ => true,
    }
}

/// What non-canonical resources come to under a policy.
fn tolerate(policy: &Policy, reason: Reason) -> (r: Outcome)
    ensures
        r == if policy.strict {
            Outcome::Rejected(reason)
        } else {
            Outcome::Warning(reason)
        },
{
    if policy.strict {
        Outcome::Rejected(reason)
    } else {
        Outcome::Warning(reason)
    }
}

/// Computes `anchor_outcome`.
pub fn check_anchor(cert: &Cert, ta: &TrustAnchor, policy: &Policy, now: u64) -> (r: Outcome)
    ensures
        r == anchor_outcome(*cert, *ta, *policy, now),
{
    if cert.subject_key != ta.key {
        Outcome::Rejected(Reason::KeyMismatch)
    } else if cert.issuer_key != cert.subject_key || !cert.signature_ok {
        Outcome::Rejected(Reason::BadSignature)
    } else if !policy.allow_expired && !is_current(cert.not_before, cert.not_after, now) {
        Outcome::Rejected(Reason::Expired)
    } else if !cert.resources.is_well_formed() {
        Outcome::Rejected(Reason::MalformedResources)
    } else if !cert.resources.is_conformant() {
        tolerate(policy, Reason::NonConformant)
    } else {
        Outcome::Accepted
    }
}

/// Computes `manifest_outcome`.
pub fn check_manifest(m: &Manifest, ca: &Cert, policy: &Policy, now: u64) -> (r: Outcome)
    ensures
        r == manifest_outcome(*m, *ca, *policy, now),
{
    if m.issuer_key != ca.subject_key || !m.signature_ok {
        Outcome::Rejected(Reason::BadSignature)
    } else if !is_current(m.this_update, m.next_update, now) {
        tolerate(policy, Reason::StaleManifest)
    } else {
        Outcome::Accepted
    }
}

/// Computes `crl_outcome`.
pub fn check_crl(crl: &Crl, ca: &Cert, policy: &Policy, now: u64) -> (r: Outcome)
    ensures
        r == crl_outcome(*crl, *ca, *policy, now),
{
    if crl.issuer_key != ca.subject_key || !crl.signature_ok {
        Outcome::Rejected(Reason::BadSignature)
    } else if !is_current(crl.this_update, crl.next_update, now) {
        tolerate(policy, Reason::ExpiredCrl)
    } else {
        Outcome::Accepted
    }
}

/// Computes `ca_outcome`.
pub fn check_ca(
    child: &Cert,
    ca: &Cert,
    crl: &Crl,
    ancestors: &Vec<u64>,
    depth: u32,
    policy: &Policy,
    now: u64,
) -> (r: Outcome)
    ensures
        r == ca_outcome(*child, *ca, *crl, ancestors@, depth as nat, *policy, now),
{
    if child.issuer_key != ca.subject_key || !child.signature_ok {
        Outcome::Rejected(Reason::BadSignature)
    } else if !is_current(child.not_before, child.not_after, now) {
        Outcome::Rejected(Reason::Expired)
    } else if has_serial(&crl.revoked, child.serial) {
        Outcome::Rejected(Reason::Revoked)
    } else if !child.resources.is_well_formed() {
        Outcome::Rejected(Reason::MalformedResources)
    } else if !child.resources.is_subset_of(&ca.resources) {
        Outcome::Rejected(Reason::ResourceViolation)
    } else if has_serial(ancestors, child.subject_key) {
        Outcome::Rejected(Reason::CycleDetected)
    } else if depth >= policy.max_depth {
        Outcome::Rejected(Reason::TooDeep)
    } else if !child.resources.is_conformant() {
        tolerate(policy, Reason::NonConformant)
    } else {
        Outcome::Accepted
    }
}

/// Tests `claims_valid`.
pub fn are_claims_valid(claims: &Vec<Claim>) -> (r: bool)
    ensures
        r == claims_valid(claims@),
{
    let mut i: usize = 0;
    while i < claims.len()
        invariant
            i <= claims.len(),
            forall|j: int| 0 <= j < i ==> (#[trigger] claim_vrp(claims@[j], 0, 0)).valid(),
        decreases claims.len() - i,
    {
        let v = Vrp { prefix: claims[i].prefix, max_len: claims[i].max_len, asn: 0, source: 0 };
        if !v.is_valid() {
            assert(!claim_vrp(claims@[i as int], 0, 0).valid());
            return false;
        }
        i += 1;
    }
    true
}

/// Tests `claims_held`.
pub fn are_claims_held(claims: &Vec<Claim>, resources: &crate::validation::resources::ResourceSet) -> (r:
    bool)
    ensures
        r == claims_held(claims@, resources@),
{
    let mut i: usize = 0;
    while i < claims.len()
        invariant
            i <= claims.len(),
            forall|j: int| 0 <= j < i ==> resources@.holds_prefix((#[trigger] claims@[j]).prefix),
        decreases claims.len() - i,
    {
        if !resources.has_prefix(&claims[i].prefix) {
            return false;
        }
        i += 1;
    }
    true
}

/// Computes `roa_outcome`.
pub fn check_roa(roa: &Roa, ca: &Cert, crl: &Crl, policy: &Policy, now: u64) -> (r: Outcome)
    ensures
        r == roa_outcome(*roa, *ca, *crl, *policy, now),
{
    if roa.ee.issuer_key != ca.subject_key || !roa.ee.signature_ok || !roa.content_ok {
        Outcome::Rejected(Reason::BadSignature)
    } else if !is_current(roa.ee.not_before, roa.ee.not_after, now) {
        Outcome::Rejected(Reason::Expired)
    } else if has_serial(&crl.revoked, roa.ee.serial) {
        Outcome::Rejected(Reason::Revoked)
    } else if !roa.ee.resources.is_well_formed() {
        Outcome::Rejected(Reason::MalformedResources)
    } else if !roa.ee.resources.is_subset_of(&ca.resources) {
        Outcome::Rejected(Reason::ResourceViolation)
    } else if !are_claims_valid(&roa.claims) {
        Outcome::Rejected(Reason::MalformedClaim)
    } else if !are_claims_held(&roa.claims, &roa.ee.resources) {
        Outcome::Rejected(Reason::ResourceViolation)
    } else if !roa.ee.resources.is_conformant() {
        tolerate(policy, Reason::NonConformant)
    } else {
        Outcome::Accepted
    }
}

/// Adds the payloads of `roa` to `vrps`, in the order of its claims.
pub fn emit_vrps(roa: &Roa, source: u32, vrps: &mut VrpSet)
    requires
        old(vrps).wf(),
    ensures
        final(vrps).wf(),
        final(vrps).seq() == inserted_all(old(vrps).seq(), roa_vrps(*roa, source)),
        final(vrps)@ == old(vrps)@.union(roa_vrps(*roa, source).to_set()),
{
    let mut i: usize = 0;
    let ghost all = roa_vrps(*roa, source);
    assert(all.take(0) =~= Seq::<Vrp>::empty());
    while i < roa.claims.len()
        invariant
            i <= roa.claims.len(),
            vrps.wf(),
            all == roa_vrps(*roa, source),
            vrps.seq() == inserted_all(old(vrps).seq(), all.take(i as int)),
        decreases roa.claims.len() - i,
    {
        let c = roa.claims[i];
        vrps.insert(Vrp { prefix: c.prefix, max_len: c.max_len, asn: roa.asn, source });
        proof {
            assert(all.take(i + 1).drop_last() =~= all.take(i as int));
            assert(all.take(i + 1).last() == all[i as int]);
        }
        i += 1;
    }
    proof {
        assert(all.take(i as int) =~= all);
        lemma_inserted_all(old(vrps).seq(), all);
    }
}

/// A certificate whose resources are not all resources of its issuer, or
/// whose key is the key of an ancestor, is rejected whatever the policy.
pub proof fn law_violation_rejects(
    child: Cert,
    ca: Cert,
    crl: Crl,
    ancestors: Seq<u64>,
    depth: nat,
    policy: Policy,
    now: u64,
)
    requires
        !child.resources@.subset_of(ca.resources@) || ancestors.contains(child.subject_key),
    ensures
        ca_outcome(child, ca, crl, ancestors, depth, policy, now) is Rejected,
{
}

/// A ROA that claims a prefix outside the resources of its certificate, or
/// whose certificate holds resources that its issuer does not, is rejected
/// whatever the policy.
pub proof fn law_uncovered_claim_rejects(roa: Roa, ca: Cert, crl: Crl, policy: Policy, now: u64)
    requires
        !roa.ee.resources@.subset_of(ca.resources@) || !claims_held(
            roa.claims@,
            roa.ee.resources@,
        ),
    ensures
        roa_outcome(roa, ca, crl, policy, now) is Rejected,
{
}

/// Strict mode only ever turns a warning into a rejection: what it accepts
/// the relaxed mode accepts, and what the relaxed mode rejects it rejects
/// for the same reason.
pub proof fn law_strict_escalates(
    child: Cert,
    ca: Cert,
    crl: Crl,
    ancestors: Seq<u64>,
    depth: nat,
    policy: Policy,
    now: u64,
)
    ensures
        ({
            let strict = ca_outcome(
                child,
                ca,
                crl,
                ancestors,
                depth,
                Policy { strict: true, ..policy },
                now,
            );
            let relaxed = ca_outcome(
                child,
                ca,
                crl,
                ancestors,
                depth,
                Policy { strict: false, ..policy },
                now,
            );
            &&& relaxed is Rejected ==> strict == relaxed
            &&& relaxed is Accepted <==> strict is Accepted
            &&& relaxed matches Outcome::Warning(r) ==> strict == Outcome::Rejected(r)
        }),
{
}

} // verus!
