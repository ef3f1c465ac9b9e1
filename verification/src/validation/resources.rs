//! Number resources: sets of address and AS number ranges, and the tests
//! of coverage between them.

use vstd::prelude::*;
use crate::payload::{Family, Prefix};

verus! {

/// The numbers from `lo` to `hi`, both included.  A range with `lo` above
/// `hi` holds nothing.
#[derive(Clone, Copy, Debug, PartialEq, Eq, Structural)]
pub struct Range {
    pub lo: u128,
    pub hi: u128,
}

/// Whether `x` lies in one of `ranges`.
pub open spec fn covers(ranges: Seq<Range>, x: int) -> bool {
    exists|i: int| 0 <= i < ranges.len() && (#[trigger] ranges[i]).lo <= x <= ranges[i].hi
}

/// Whether every number from `lo` to `hi` lies in one of `ranges`.
pub open spec fn covers_all(ranges: Seq<Range>, lo: int, hi: int) -> bool {
    forall|x: int| lo <= x <= hi ==> covers(ranges, x)
}

/// Whether every number in one of `inner` lies in one of `outer`.
pub open spec fn within(inner: Seq<Range>, outer: Seq<Range>) -> bool {
    forall|x: int| covers(inner, x) ==> covers(outer, x)
}

/// The form the encoding asks for: no range is empty, and each starts
/// more than one above the end of the one before it.
pub open spec fn canonical(ranges: Seq<Range>) -> bool {
    &&& forall|i: int| 0 <= i < ranges.len() ==> (#[trigger] ranges[i]).lo <= ranges[i].hi
    &&& forall|i: int|
        0 <= i < ranges.len() - 1 ==> (#[trigger] ranges[i]).hi + 1 < ranges[i + 1].lo
}

/// Whether no range reaches above `max`.
pub open spec fn bounded(ranges: Seq<Range>, max: u128) -> bool {
    forall|i: int| 0 <= i < ranges.len() ==> (#[trigger] ranges[i]).hi <= max
}

/// The position of the first range that holds `x`, if there is one.
pub fn find_cover(ranges: &Vec<Range>, x: u128) -> (r: Option<usize>)
    ensures
        match r {
            Some(i) => {
                &&& i < ranges@.len()
                &&& ranges@[i as int].lo <= x <= ranges@[i as int].hi
                &&& forall|j: int|
                    0 <= j < i ==> !((#[trigger] ranges@[j]).lo <= x <= ranges@[j].hi)
            },
            None => !covers(ranges@, x as int),
        },
{
    let mut i: usize = 0;
    while i < ranges.len()
        invariant
            i <= ranges.len(),
            forall|j: int| 0 <= j < i ==> !((#[trigger] ranges@[j]).lo <= x <= ranges@[j].hi),
        decreases ranges.len() - i,
    {
        if ranges[i].lo <= x && x <= ranges[i].hi {
            return Some(i);
        }
        i += 1;
    }
    None
}

/// Tests `covers_all`: walks from `lo` upwards through the ranges that
/// hold the number reached, until `hi` is passed or a number is in none.
pub fn covers_range(ranges: &Vec<Range>, lo: u128, hi: u128) -> (r: bool)
    ensures
        r == covers_all(ranges@, lo as int, hi as int),
{
    if lo > hi {
        return true;
    }
    let mut at: u128 = lo;
    loop
        invariant
            lo <= at <= hi,
            covers_all(ranges@, lo as int, at - 1),
        decreases hi - at,
    {
        match find_cover(ranges, at) {
            None => {
                return false;
            },
            Some(i) => {
                let end = ranges[i].hi;
                assert forall|x: int| at <= x <= end implies covers(ranges@, x) by {
                    assert(ranges@[i as int].lo <= x <= ranges@[i as int].hi);
                }
                if end >= hi {
                    return true;
                }
                at = end + 1;
            },
        }
    }
}

/// Tests `within`.
pub fn is_within(inner: &Vec<Range>, outer: &Vec<Range>) -> (r: bool)
    ensures
        r == within(inner@, outer@),
{
    let mut i: usize = 0;
    while i < inner.len()
        invariant
            i <= inner.len(),
            forall|j: int|
                0 <= j < i ==> covers_all(
                    outer@,
                    (#[trigger] inner@[j]).lo as int,
                    inner@[j].hi as int,
                ),
        decreases inner.len() - i,
    {
        if !covers_range(outer, inner[i].lo, inner[i].hi) {
            proof {
                let x = choose|x: int|
                    inner@[i as int].lo <= x <= inner@[i as int].hi && !covers(outer@, x);
                assert(inner@[i as int].lo <= x <= inner@[i as int].hi);
                assert(covers(inner@, x));
            }
            return false;
        }
        i += 1;
    }
    assert forall|x: int| covers(inner@, x) implies covers(outer@, x) by {
        let j = choose|j: int| 0 <= j < inner@.len() && (#[trigger] inner@[j]).lo <= x <= inner@[j].hi;
        assert(covers_all(outer@, inner@[j].lo as int, inner@[j].hi as int));
    }
    true
}

/// Tests `canonical`.
pub fn is_canonical(ranges: &Vec<Range>) -> (r: bool)
    ensures
        r == canonical(ranges@),
{
    let mut i: usize = 0;
    while i < ranges.len()
        invariant
            i <= ranges.len(),
            forall|j: int| 0 <= j < i ==> (#[trigger] ranges@[j]).lo <= ranges@[j].hi,
            forall|j: int| 0 <= j < i - 1 ==> (#[trigger] ranges@[j]).hi + 1 < ranges@[j + 1].lo,
        decreases ranges.len() - i,
    {
        if ranges[i].lo > ranges[i].hi {
            return false;
        }
        if i > 0 {
            let before = ranges[i - 1].hi;
            if before == u128::MAX || before + 1 >= ranges[i].lo {
                assert(!(ranges@[i - 1].hi + 1 < ranges@[i - 1 + 1].lo));
                return false;
            }
        }
        i += 1;
    }
    true
}

/// Tests `bounded`.
pub fn is_bounded(ranges: &Vec<Range>, max: u128) -> (r: bool)
    ensures
        r == bounded(ranges@, max),
{
    let mut i: usize = 0;
    while i < ranges.len()
        invariant
            i <= ranges.len(),
            forall|j: int| 0 <= j < i ==> (#[trigger] ranges@[j]).hi <= max,
        decreases ranges.len() - i,
    {
        if ranges[i].hi > max {
            return false;
        }
        i += 1;
    }
    true
}

/// The resources a certificate holds: IPv4 addresses, IPv6 addresses and
/// AS numbers, each as a list of ranges.
#[derive(Debug)]
pub struct ResourceSet {
    pub v4: Vec<Range>,
    pub v6: Vec<Range>,
    pub asns: Vec<Range>,
}

/// A resource set as plain sequences.
pub struct ResourceView {
    pub v4: Seq<Range>,
    pub v6: Seq<Range>,
    pub asns: Seq<Range>,
}

impl View for ResourceSet {
    type V = ResourceView;

    open spec fn view(&self) -> ResourceView {
        ResourceView { v4: self.v4@, v6: self.v6@, asns: self.asns@ }
    }
}

impl ResourceView {
    /// No range reaches beyond its number space.
    pub open spec fn well_formed(self) -> bool {
        &&& bounded(self.v4, 0xffff_ffff)
        &&& bounded(self.asns, 0xffff_ffff)
    }

    /// Every list is in the form the encoding asks for.
    pub open spec fn conformant(self) -> bool {
        &&& canonical(self.v4)
        &&& canonical(self.v6)
        &&& canonical(self.asns)
    }

    /// Every resource of `self` is one of `outer`.
    pub open spec fn subset_of(self, outer: ResourceView) -> bool {
        &&& within(self.v4, outer.v4)
        &&& within(self.v6, outer.v6)
        &&& within(self.asns, outer.asns)
    }

    /// The address ranges of a family.
    pub open spec fn of_family(self, family: Family) -> Seq<Range> {
        match family {
            Family::V4 => self.v4,
            Family::V6 => self.v6,
        }
    }

    /// Every address of `prefix` is one of `self`.
    pub open spec fn holds_prefix(self, prefix: Prefix) -> bool {
        covers_all(self.of_family(prefix.family), prefix.first() as int, prefix.last() as int)
    }
}

impl ResourceSet {
    /// Tests `well_formed`.
    pub fn is_well_formed(&self) -> (r: bool)
        ensures
            r == self@.well_formed(),
    {
        is_bounded(&self.v4, 0xffff_ffff) && is_bounded(&self.asns, 0xffff_ffff)
    }

    /// Tests `conformant`.
    pub fn is_conformant(&self) -> (r: bool)
        ensures
            r == self@.conformant(),
    {
        is_canonical(&self.v4) && is_canonical(&self.v6) && is_canonical(&self.asns)
    }

    /// Tests `subset_of`.
    pub fn is_subset_of(&self, outer: &ResourceSet) -> (r: bool)
        ensures
            r == self@.subset_of(outer@),
    {
        is_within(&self.v4, &outer.v4) && is_within(&self.v6, &outer.v6) && is_within(
            &self.asns,
            &outer.asns,
        )
    }

    /// Tests `holds_prefix`.
    pub fn has_prefix(&self, prefix: &Prefix) -> (r: bool)
        ensures
            r == self@.holds_prefix(*prefix),
    {
        let (first, last) = prefix.bounds();
        match prefix.family {
            Family::V4 => covers_range(&self.v4, first, last),
            Family::V6 => covers_range(&self.v6, first, last),
        }
    }
}

} // verus!
