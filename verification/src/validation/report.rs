//! What became of each object during a validation run.

use vstd::prelude::*;

verus! {

/// The kinds of failure.
#[derive(Clone, Copy, Debug, PartialEq, Eq, Structural)]
pub enum ErrorKind {
    /// A publication point could not be fetched.
    Fetch,
    /// An object could not be read, or holds what it may not hold.
    ObjectFormat,
    /// An object does not chain to its issuer.
    ChainValidation,
}

/// Why an object was rejected or warned about.
#[derive(Clone, Copy, Debug, PartialEq, Eq, Structural)]
pub enum Reason {
    /// The publication point could not be reached, or was never fetched.
    Unreachable,
    /// Fetching the publication point took too long.
    Timeout,
    /// The fetch ended in a protocol error.
    ProtocolError,
    /// The manifest lists the object, but it was not found.
    Missing,
    /// The bytes found do not have the hash the manifest declares.
    HashMismatch,
    /// The object cannot be read.
    Unreadable,
    /// The object is of a kind that a manifest may not list.
    Unexpected,
    /// A claim of a ROA is no valid payload.
    MalformedClaim,
    /// A range of resources reaches beyond its number space.
    MalformedResources,
    /// The resources are not in the form the encoding asks for.
    NonConformant,
    /// The publication point holds no manifest.
    NoManifest,
    /// The manifest lists no usable revocation list.
    NoCrl,
    /// The manifest is not current.
    StaleManifest,
    /// The revocation list is not current.
    ExpiredCrl,
    /// The signature does not verify under the issuer's key.
    BadSignature,
    /// The key is not the one the trust anchor names.
    KeyMismatch,
    /// The certificate is not valid now.
    Expired,
    /// The issuer has revoked the certificate.
    Revoked,
    /// The resources are not all resources of the issuer.
    ResourceViolation,
    /// The certificate's key is the key of one of its ancestors.
    CycleDetected,
    /// The certificate lies deeper than the policy allows.
    TooDeep,
}

/// The kind of failure a reason belongs to.
pub open spec fn kind_of(reason: Reason) -> ErrorKind {
    match reason {
        Reason::Unreachable | Reason::Timeout | Reason::ProtocolError => ErrorKind::Fetch,
        Reason::Missing
        | Reason::HashMismatch
        | Reason::Unreadable
        | Reason::Unexpected
        | Reason::MalformedClaim
        | Reason::MalformedResources
        | Reason::NonConformant => ErrorKind::ObjectFormat,
        _ => ErrorKind::ChainValidation,
    }
}

impl Reason {
    /// The kind of failure this reason belongs to.
    pub fn kind(&self) -> (r: ErrorKind)
        ensures
            r == kind_of(*self),
    {
        match self {
            Reason::Unreachable | Reason::Timeout | Reason::ProtocolError => ErrorKind::Fetch,
            Reason::Missing
            | Reason::HashMismatch
            | Reason::Unreadable
            | Reason::Unexpected
            | Reason::MalformedClaim
            | Reason::MalformedResources
            | Reason::NonConformant => ErrorKind::ObjectFormat,
            _ => ErrorKind::ChainValidation,
        }
    }
}

/// What became of an object.
#[derive(Clone, Copy, Debug, PartialEq, Eq, Structural)]
pub enum Outcome {
    /// The object was used.
    Accepted,
    /// Something is wrong that the policy tolerates, or that concerns this
    /// object alone.
    Warning(Reason),
    /// The object and all below it were left out.
    Rejected(Reason),
}

/// One line of a report: an object and what became of it.
#[derive(Clone, Copy, Debug, PartialEq, Eq, Structural)]
pub struct Entry {
    pub object: u64,
    pub outcome: Outcome,
}

/// How many objects were accepted, warned about and rejected.
#[derive(Clone, Copy, Debug, PartialEq, Eq, Structural)]
pub struct Counts {
    pub accepted: usize,
    pub warned: usize,
    pub rejected: usize,
}

/// The number of entries that `wanted` holds of.
pub open spec fn count(entries: Seq<Entry>, wanted: spec_fn(Outcome) -> bool) -> nat {
    entries.filter(|e: Entry| wanted(e.outcome)).len()
}

/// The counts of a list of entries.
pub open spec fn counts_of(entries: Seq<Entry>) -> (nat, nat, nat) {
    (
        count(entries, |o: Outcome| o is Accepted),
        count(entries, |o: Outcome| o is Warning),
        count(entries, |o: Outcome| o is Rejected),
    )
}

/// The outcome of every object a validation run looked at, in the order
/// it looked at them.
#[derive(Debug)]
pub struct Report {
    pub entries: Vec<Entry>,
}

impl View for Report {
    type V = Seq<Entry>;

    open spec fn view(&self) -> Seq<Entry> {
        self.entries@
    }
}

impl Report {
    /// A report without entries.
    pub fn new() -> (r: Report)
        ensures
            r@ == Seq::<Entry>::empty(),
    {
        Report { entries: Vec::new() }
    }

    /// Notes what became of `object`.
    pub fn note(&mut self, object: u64, outcome: Outcome)
        ensures
            final(self)@ == old(self)@.push(Entry { object, outcome }),
    {
        self.entries.push(Entry { object, outcome });
    }

    /// Counts the entries of each outcome.
    pub fn counts(&self) -> (r: Counts)
        ensures
            (r.accepted as nat, r.warned as nat, r.rejected as nat) == counts_of(self@),
    {
        let mut c = Counts { accepted: 0, warned: 0, rejected: 0 };
        let mut i: usize = 0;
        let ghost is_a = |e: Entry| e.outcome is Accepted;
        let ghost is_w = |e: Entry| e.outcome is Warning;
        let ghost is_r = |e: Entry| e.outcome is Rejected;
        proof {
            assert(self@.take(0) =~= Seq::<Entry>::empty());
        }
        while i < self.entries.len()
            invariant
                i <= self.entries.len(),
                is_a == |e: Entry| e.outcome is Accepted,
                is_w == |e: Entry| e.outcome is Warning,
                is_r == |e: Entry| e.outcome is Rejected,
                c.accepted == self@.take(i as int).filter(is_a).len(),
                c.warned == self@.take(i as int).filter(is_w).len(),
                c.rejected == self@.take(i as int).filter(is_r).len(),
                c.accepted + c.warned + c.rejected == i,
            decreases self.entries.len() - i,
        {
            let ghost head = self@.take(i as int);
            let ghost e = self@[i as int];
            proof {
                assert(self@.take(i + 1) =~= head.push(e));
                crate::payload::lemma_filter_next(head, e, is_a);
                crate::payload::lemma_filter_next(head, e, is_w);
                crate::payload::lemma_filter_next(head, e, is_r);
            }
            match self.entries[i].outcome {
                Outcome::Accepted => {
                    c.accepted += 1;
                },
                Outcome::Warning(_) => {
                    c.warned += 1;
                },
                Outcome::Rejected(_) => {
                    c.rejected += 1;
                },
            }
            i += 1;
        }
        proof {
            assert(self@.take(i as int) =~= self@);
            assert(count(self@, |o: Outcome| o is Accepted) == self@.filter(is_a).len()) by {
                assert((|e: Entry| (|o: Outcome| o is Accepted)(e.outcome)) =~= is_a);
            }
            assert(count(self@, |o: Outcome| o is Warning) == self@.filter(is_w).len()) by {
                assert((|e: Entry| (|o: Outcome| o is Warning)(e.outcome)) =~= is_w);
            }
            assert(count(self@, |o: Outcome| o is Rejected) == self@.filter(is_r).len()) by {
                assert((|e: Entry| (|o: Outcome| o is Rejected)(e.outcome)) =~= is_r);
            }
        }
        c
    }
}

} // verus!
