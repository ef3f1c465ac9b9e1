//! The objects of a repository, decoded: what validation reads of them.

use vstd::prelude::*;
use crate::payload::Prefix;
use crate::validation::resources::ResourceSet;

verus! {

/// The hash of a file's bytes.
#[derive(Clone, Copy, Debug, PartialEq, Eq, Structural)]
pub struct Digest {
    pub hi: u128,
    pub lo: u128,
}

/// A certificate.  Keys are named by their identifiers; `signature_ok`
/// says whether the signature verifies under the key that `issuer_key`
/// names.
#[derive(Debug)]
pub struct Cert {
    pub subject_key: u64,
    pub issuer_key: u64,
    pub signature_ok: bool,
    pub serial: u64,
    pub not_before: u64,
    pub not_after: u64,
    pub resources: ResourceSet,
    /// The publication point of the authority this certificate makes.
    pub point: u64,
}

/// One line of a manifest: a file and the hash of its bytes.
#[derive(Clone, Copy, Debug, PartialEq, Eq, Structural)]
pub struct ManifestEntry {
    pub name: u64,
    pub digest: Digest,
}

/// A manifest: the files of a publication point, and the time span in
/// which it is current.
#[derive(Debug)]
pub struct Manifest {
    pub issuer_key: u64,
    pub signature_ok: bool,
    pub this_update: u64,
    pub next_update: u64,
    pub entries: Vec<ManifestEntry>,
}

/// A revocation list: the serials of the certificates an authority has
/// revoked, and the time span in which the list is current.
#[derive(Debug)]
pub struct Crl {
    pub issuer_key: u64,
    pub signature_ok: bool,
    pub this_update: u64,
    pub next_update: u64,
    pub revoked: Vec<u64>,
}

/// One claim of a ROA.
#[derive(Clone, Copy, Debug, PartialEq, Eq, Structural)]
pub struct Claim {
    pub prefix: Prefix,
    pub max_len: u8,
}

/// A route origin authorization: the certificate it is signed under, the
/// origin, and the prefixes claimed for it.  `content_ok` says whether the
/// signature over the claims verifies under that certificate's key.
#[derive(Debug)]
pub struct Roa {
    pub ee: Cert,
    pub content_ok: bool,
    pub asn: u32,
    pub claims: Vec<Claim>,
}

/// What a file holds.
#[derive(Debug)]
pub enum Content {
    Cert(Cert),
    Crl(Crl),
    Roa(Roa),
    Manifest(Manifest),
    /// Nothing that can be read.
    Unreadable,
}

/// A file as fetched: its name, the hash of its bytes, and what it holds.
#[derive(Debug)]
pub struct Object {
    pub name: u64,
    pub digest: Digest,
    pub content: Content,
}

/// Why a publication point could not be fetched.
#[derive(Clone, Copy, Debug, PartialEq, Eq, Structural)]
pub enum FetchError {
    Unreachable,
    Timeout,
    ProtocolError,
}

/// A publication point and what fetching it gave.
#[derive(Debug)]
pub struct Point {
    pub id: u64,
    pub fetched: Result<Vec<Object>, FetchError>,
}

/// Everything that was fetched.
#[derive(Debug)]
pub struct Repository {
    pub points: Vec<Point>,
}

/// A trust anchor: the tag its payloads carry, its key, and the
/// publication points at which its certificate may be found.
#[derive(Debug)]
pub struct TrustAnchor {
    pub id: u32,
    pub key: u64,
    pub uris: Vec<u64>,
}

/// How strictly to validate.
#[derive(Clone, Copy, Debug, PartialEq, Eq, Structural)]
pub struct Policy {
    /// Reject what is otherwise only warned about: a stale manifest, an
    /// expired revocation list, resources not in canonical form.
    pub strict: bool,
    /// Accept a trust anchor certificate that is not valid now.
    pub allow_expired: bool,
    /// The most authorities below a trust anchor on one path.
    pub max_depth: u32,
}

/// The first of `objects` with the given name.
pub open spec fn lookup(objects: Seq<Object>, name: u64) -> Option<Object>
    decreases objects.len(),
{
    if objects.len() == 0 {
        None
    } else if objects[0].name == name {
        Some(objects[0])
    } else {
        lookup(objects.drop_first(), name)
    }
}

/// The first of `objects` that holds a manifest.
pub open spec fn first_manifest(objects: Seq<Object>) -> Option<Object>
    decreases objects.len(),
{
    if objects.len() == 0 {
        None
    } else if objects[0].content is Manifest {
        Some(objects[0])
    } else {
        first_manifest(objects.drop_first())
    }
}

/// The first of `objects` that holds a certificate.
pub open spec fn first_cert(objects: Seq<Object>) -> Option<Object>
    decreases objects.len(),
{
    if objects.len() == 0 {
        None
    } else if objects[0].content is Cert {
        Some(objects[0])
    } else {
        first_cert(objects.drop_first())
    }
}

/// The first of `points` with the given identifier.
pub open spec fn find_point(points: Seq<Point>, id: u64) -> Option<Point>
    decreases points.len(),
{
    if points.len() == 0 {
        None
    } else if points[0].id == id {
        Some(points[0])
    } else {
        find_point(points.drop_first(), id)
    }
}

/// Finds `lookup`.
pub fn find_object(objects: &Vec<Object>, name: u64) -> (r: Option<&Object>)
    ensures
        match r {
            Some(o) => lookup(objects@, name) == Some(*o),
            None => lookup(objects@, name) is None,
        },
{
    let mut i: usize = 0;
    assert(objects@.skip(0) =~= objects@);
    while i < objects.len()
        invariant
            i <= objects.len(),
            lookup(objects@, name) == lookup(objects@.skip(i as int), name),
        decreases objects.len() - i,
    {
        if objects[i].name == name {
            return Some(&objects[i]);
        }
        assert(objects@.skip(i as int).drop_first() =~= objects@.skip(i + 1));
        i += 1;
    }
    None
}

/// Finds `first_manifest`.
pub fn find_manifest(objects: &Vec<Object>) -> (r: Option<&Object>)
    ensures
        match r {
            Some(o) => first_manifest(objects@) == Some(*o),
            None => first_manifest(objects@) is None,
        },
{
    let mut i: usize = 0;
    assert(objects@.skip(0) =~= objects@);
    while i < objects.len()
        invariant
            i <= objects.len(),
            first_manifest(objects@) == first_manifest(objects@.skip(i as int)),
        decreases objects.len() - i,
    {
        if let Content::Manifest(_) = objects[i].content {
            return Some(&objects[i]);
        }
        assert(objects@.skip(i as int).drop_first() =~= objects@.skip(i + 1));
        i += 1;
    }
    None
}

/// Finds `first_cert`.
pub fn find_cert(objects: &Vec<Object>) -> (r: Option<&Object>)
    ensures
        match r {
            Some(o) => first_cert(objects@) == Some(*o),
            None => first_cert(objects@) is None,
        },
{
    let mut i: usize = 0;
    assert(objects@.skip(0) =~= objects@);
    while i < objects.len()
        invariant
            i <= objects.len(),
            first_cert(objects@) == first_cert(objects@.skip(i as int)),
        decreases objects.len() - i,
    {
        if let Content::Cert(_) = objects[i].content {
            return Some(&objects[i]);
        }
        assert(objects@.skip(i as int).drop_first() =~= objects@.skip(i + 1));
        i += 1;
    }
    None
}

impl Repository {
    /// Finds `find_point`.
    pub fn point(&self, id: u64) -> (r: Option<&Point>)
        ensures
            match r {
                Some(p) => find_point(self.points@, id) == Some(*p),
                None => find_point(self.points@, id) is None,
            },
    {
        let mut i: usize = 0;
        assert(self.points@.skip(0) =~= self.points@);
        while i < self.points.len()
            invariant
                i <= self.points.len(),
                find_point(self.points@, id) == find_point(self.points@.skip(i as int), id),
            decreases self.points.len() - i,
        {
            if self.points[i].id == id {
                return Some(&self.points[i]);
            }
            assert(self.points@.skip(i as int).drop_first() =~= self.points@.skip(i + 1));
            i += 1;
        }
        None
    }
}

/// Whether `serial` is in `list`.
pub fn has_serial(list: &Vec<u64>, serial: u64) -> (r: bool)
    ensures
        r == list@.contains(serial),
{
    let mut i: usize = 0;
    while i < list.len()
        invariant
            i <= list.len(),
            forall|j: int| 0 <= j < i ==> list@[j] != serial,
        decreases list.len() - i,
    {
        if list[i] == serial {
            return true;
        }
        i += 1;
    }
    false
}

} // verus!
