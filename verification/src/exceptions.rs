//! Local exceptions: filters that take validated payloads out, and
//! assertions that put payloads in.

use vstd::prelude::*;
use crate::payload::{
    inserted_all, lemma_filter_distinct, lemma_filter_empty, lemma_filter_next,
    lemma_inserted_distinct, Prefix, Vrp, VrpSet,
};

verus! {

/// A filter.  It holds of a payload that agrees with every part the
/// filter gives: a prefix that covers the payload's, a maximum length
/// equal to the payload's, an origin equal to the payload's.
#[derive(Clone, Copy, Debug)]
pub struct Filter {
    pub prefix: Option<Prefix>,
    pub max_len: Option<u8>,
    pub asn: Option<u32>,
}

/// Whether every address of `inner` is an address of `outer`.
pub open spec fn prefix_covers(outer: Prefix, inner: Prefix) -> bool {
    &&& outer.family == inner.family
    &&& outer.first() <= inner.first()
    &&& inner.last() <= outer.last()
}

/// Whether a filter holds of a payload.
pub open spec fn filter_matches(f: Filter, v: Vrp) -> bool {
    &&& f.prefix matches Some(p) ==> prefix_covers(p, v.prefix)
    &&& f.max_len matches Some(m) ==> m == v.max_len
    &&& f.asn matches Some(a) ==> a == v.asn
}

/// Whether one of the filters holds of a payload.
pub open spec fn filtered(filters: Seq<Filter>, v: Vrp) -> bool {
    exists|i: int| 0 <= i < filters.len() && filter_matches(#[trigger] filters[i], v)
}

/// The validated payloads that no filter holds of, and the assertions.
pub open spec fn with_exceptions(
    validated: Set<Vrp>,
    filters: Seq<Filter>,
    assertions: Seq<Vrp>,
) -> Set<Vrp> {
    validated.filter(|v: Vrp| !filtered(filters, v)).union(assertions.to_set())
}

/// Tests `prefix_covers`.
pub fn does_prefix_cover(outer: &Prefix, inner: &Prefix) -> (r: bool)
    ensures
        r == prefix_covers(*outer, *inner),
{
    let (of, ol) = outer.bounds();
    let (inf, inl) = inner.bounds();
    outer.family == inner.family && of <= inf && inl <= ol
}

impl Filter {
    /// Tests `filter_matches`.
    pub fn matches(&self, v: &Vrp) -> (r: bool)
        ensures
            r == filter_matches(*self, *v),
    {
        let prefix_ok = match &self.prefix {
            Some(p) => does_prefix_cover(p, &v.prefix),
            None => true,
        };
        let len_ok = match self.max_len {
            Some(m) => m == v.max_len,
            None => true,
        };
        let asn_ok = match self.asn {
            Some(a) => a == v.asn,
            None => true,
        };
        prefix_ok && len_ok && asn_ok
    }
}

/// Filters and assertions.
#[derive(Debug)]
pub struct LocalExceptions {
    pub filters: Vec<Filter>,
    pub assertions: Vec<Vrp>,
}

impl LocalExceptions {
    /// No filter and no assertion.
    pub fn empty() -> (r: LocalExceptions)
        ensures
            r.filters@ == Seq::<Filter>::empty(),
            r.assertions@ == Seq::<Vrp>::empty(),
    {
        LocalExceptions { filters: Vec::new(), assertions: Vec::new() }
    }

    /// Puts the filters and assertions of `other` behind those held.
    pub fn extend(&mut self, other: &LocalExceptions)
        ensures
            final(self).filters@ == old(self).filters@ + other.filters@,
            final(self).assertions@ == old(self).assertions@ + other.assertions@,
    {
        let mut i: usize = 0;
        while i < other.filters.len()
            invariant
                i <= other.filters.len(),
                self.filters@ == old(self).filters@ + other.filters@.take(i as int),
                self.assertions@ == old(self).assertions@,
            decreases other.filters.len() - i,
        {
            self.filters.push(other.filters[i]);
            assert(other.filters@.take(i + 1) =~= other.filters@.take(i as int).push(
                other.filters@[i as int],
            ));
            i += 1;
        }
        assert(other.filters@.take(i as int) =~= other.filters@);
        let mut j: usize = 0;
        while j < other.assertions.len()
            invariant
                j <= other.assertions.len(),
                self.filters@ == old(self).filters@ + other.filters@,
                self.assertions@ == old(self).assertions@ + other.assertions@.take(j as int),
            decreases other.assertions.len() - j,
        {
            self.assertions.push(other.assertions[j]);
            assert(other.assertions@.take(j + 1) =~= other.assertions@.take(j as int).push(
                other.assertions@[j as int],
            ));
            j += 1;
        }
        assert(other.assertions@.take(j as int) =~= other.assertions@);
    }

    /// Tests `filtered`.
    pub fn is_filtered(&self, v: &Vrp) -> (r: bool)
        ensures
            r == filtered(self.filters@, *v),
    {
        let mut i: usize = 0;
        while i < self.filters.len()
            invariant
                i <= self.filters.len(),
                forall|j: int| 0 <= j < i ==> !filter_matches(#[trigger] self.filters@[j], *v),
            decreases self.filters.len() - i,
        {
            if self.filters[i].matches(v) {
                return true;
            }
            i += 1;
        }
        false
    }

    /// The set to publish: the validated payloads that no filter holds of,
    /// in the order they are held, and then the assertions in their order,
    /// each unless it is there already.
    pub fn apply(&self, validated: &VrpSet) -> (r: VrpSet)
        requires
            validated.wf(),
        ensures
            r.wf(),
            r@ == with_exceptions(validated@, self.filters@, self.assertions@),
            r.seq() == inserted_all(
                validated.seq().filter(|v: Vrp| !filtered(self.filters@, v)),
                self.assertions@,
            ),
    {
        let list = validated.entries();
        let ghost keep = |v: Vrp| !filtered(self.filters@, v);
        let mut kept: Vec<Vrp> = Vec::new();
        let mut i: usize = 0;
        proof {
            assert(list@.take(0) =~= Seq::<Vrp>::empty());
            lemma_filter_empty(keep);
        }
        while i < list.len()
            invariant
                i <= list.len(),
                keep == |v: Vrp| !filtered(self.filters@, v),
                kept@ == list@.take(i as int).filter(keep),
            decreases list.len() - i,
        {
            proof {
                assert(list@.take(i + 1) =~= list@.take(i as int).push(list@[i as int]));
                lemma_filter_next(list@.take(i as int), list@[i as int], keep);
            }
            if !self.is_filtered(&list[i]) {
                kept.push(list[i]);
            }
            i += 1;
        }
        proof {
            assert(list@.take(i as int) =~= list@);
            lemma_filter_distinct(list@, keep);
            lemma_inserted_distinct(kept@);
        }
        let mut r = VrpSet::from_vec(&kept);
        r.add_all(&self.assertions);
        assert(r@ =~= with_exceptions(validated@, self.filters@, self.assertions@));
        r
    }
}

/// Whether every one of the exceptions was loaded.
pub open spec fn all_loaded(loaded: Seq<Option<LocalExceptions>>) -> bool {
    forall|i: int| 0 <= i < loaded.len() ==> (#[trigger] loaded[i]) is Some
}

/// The filters of those that were loaded, in order.
pub open spec fn gathered_filters(loaded: Seq<Option<LocalExceptions>>) -> Seq<Filter>
    decreases loaded.len(),
{
    if loaded.len() == 0 {
        Seq::empty()
    } else {
        gathered_filters(loaded.drop_last()) + match loaded.last() {
            Some(x) => x.filters@,
            None => Seq::empty(),
        }
    }
}

/// The assertions of those that were loaded, in order.
pub open spec fn gathered_assertions(loaded: Seq<Option<LocalExceptions>>) -> Seq<Vrp>
    decreases loaded.len(),
{
    if loaded.len() == 0 {
        Seq::empty()
    } else {
        gathered_assertions(loaded.drop_last()) + match loaded.last() {
            Some(x) => x.assertions@,
            None => Seq::empty(),
        }
    }
}

/// The exceptions of several sources in one, all or nothing: where one
/// source could not be loaded there are none, and otherwise the filters
/// and the assertions of all of them in order.
pub fn gather(loaded: &Vec<Option<LocalExceptions>>) -> (r: Option<LocalExceptions>)
    ensures
        match r {
            Some(all) => {
                &&& all_loaded(loaded@)
                &&& all.filters@ == gathered_filters(loaded@)
                &&& all.assertions@ == gathered_assertions(loaded@)
            },
            None => !all_loaded(loaded@),
        },
{
    let mut res = LocalExceptions::empty();
    let mut ok = true;
    let mut i: usize = 0;
    assert(loaded@.take(0) =~= Seq::<Option<LocalExceptions>>::empty());
    while i < loaded.len()
        invariant
            i <= loaded.len(),
            ok == all_loaded(loaded@.take(i as int)),
            res.filters@ == gathered_filters(loaded@.take(i as int)),
            res.assertions@ == gathered_assertions(loaded@.take(i as int)),
        decreases loaded.len() - i,
    {
        proof {
            let next = loaded@.take(i + 1);
            assert(next.drop_last() =~= loaded@.take(i as int));
            assert(next.last() == loaded@[i as int]);
            assert(all_loaded(next) == (all_loaded(loaded@.take(i as int)) && loaded@[i as int]
                is Some)) by {
                if all_loaded(next) {
                    assert forall|j: int| 0 <= j < i implies (#[trigger] loaded@.take(
                        i as int,
                    )[j]) is Some by {
                        assert(next[j] is Some);
                    }
                    assert(next[i as int] is Some);
                }
                if all_loaded(loaded@.take(i as int)) && loaded@[i as int] is Some {
                    assert forall|j: int| 0 <= j < next.len() implies (#[trigger] next[j])
                        is Some by {
                        if j < i {
                            assert(loaded@.take(i as int)[j] is Some);
                        }
                    }
                }
            }
        }
        match &loaded[i] {
            Some(more) => {
                res.extend(more);
            },
            None => {
                ok = false;
                assert(res.filters@ + Seq::<Filter>::empty() =~= res.filters@);
                assert(res.assertions@ + Seq::<Vrp>::empty() =~= res.assertions@);
            },
        }
        i += 1;
    }
    assert(loaded@.take(i as int) =~= loaded@);
    if ok {
        Some(res)
    } else {
        None
    }
}

/// Every assertion is in the set to publish; a payload that is not
/// asserted is in it exactly when it was validated and no filter holds of
/// it.
pub proof fn law_exceptions(validated: Set<Vrp>, filters: Seq<Filter>, assertions: Seq<Vrp>, v: Vrp)
    ensures
        assertions.contains(v) ==> with_exceptions(validated, filters, assertions).contains(v),
        !assertions.contains(v) ==> (with_exceptions(validated, filters, assertions).contains(v)
            <==> validated.contains(v) && !filtered(filters, v)),
{
}

} // verus!
