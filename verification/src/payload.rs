//! Validated ROA payloads and duplicate-free sets of them.

use vstd::prelude::*;

verus! {

/// The address family of a prefix.
#[derive(Clone, Copy, Debug, PartialEq, Eq, Structural)]
pub enum Family {
    V4,
    V6,
}

/// An address prefix: the address as a number (an IPv4 address in the low
/// 32 bits) and the number of leading bits that are significant.
#[derive(Clone, Copy, Debug, PartialEq, Eq, Structural)]
pub struct Prefix {
    pub family: Family,
    pub addr: u128,
    pub len: u8,
}

/// A validated ROA payload: a prefix, the longest prefix length that may be
/// announced under it, the origin AS, and the trust anchor it was validated
/// under.  Two payloads are equal when all four agree.
#[derive(Clone, Copy, Debug, PartialEq, Eq, Structural)]
pub struct Vrp {
    pub prefix: Prefix,
    pub max_len: u8,
    pub asn: u32,
    pub source: u32,
}

/// The number of address bits of a family.
pub open spec fn family_bits(family: Family) -> u8 {
    match family {
        Family::V4 => 32u8,
        Family::V6 => 128u8,
    }
}

/// The bits of an address that lie behind the first `len` of `bits`.
pub open spec fn host_mask(bits: u8, len: u8) -> u128 {
    if len >= bits {
        0u128
    } else if bits - len >= 128 {
        u128::MAX
    } else {
        (((1u128 << ((bits - len) as u128)) - 1) as u128)
    }
}

/// The largest address of a family.
pub open spec fn family_max(family: Family) -> u128 {
    match family {
        Family::V4 => 0xffff_ffffu128,
        Family::V6 => u128::MAX,
    }
}

impl Family {
    /// The number of address bits.
    pub fn bits(self) -> (r: u8)
        ensures
            r == family_bits(self),
    {
        match self {
            Family::V4 => 32,
            Family::V6 => 128,
        }
    }

    /// The largest address.
    pub fn max_addr(self) -> (r: u128)
        ensures
            r == family_max(self),
    {
        match self {
            Family::V4 => 0xffff_ffff,
            Family::V6 => u128::MAX,
        }
    }
}

/// Computes `host_mask`.
pub fn mask_of(bits: u8, len: u8) -> (r: u128)
    ensures
        r == host_mask(bits, len),
{
    if len >= bits {
        0
    } else if bits - len >= 128 {
        u128::MAX
    } else {
        let shift: u128 = (bits - len) as u128;
        assert((1u128 << shift) >= 1) by (bit_vector)
            requires
                shift < 128,
        ;
        (1u128 << shift) - 1
    }
}

impl Prefix {
    /// A prefix is valid when its length fits the family, the address lies
    /// in the family, and no bit behind the length is set.
    pub open spec fn valid(self) -> bool {
        &&& self.len <= family_bits(self.family)
        &&& self.addr <= family_max(self.family)
        &&& self.addr & host_mask(family_bits(self.family), self.len) == 0
    }

    /// The first address covered.
    pub open spec fn first(self) -> u128 {
        self.addr
    }

    /// The last address covered.
    pub open spec fn last(self) -> u128 {
        self.addr | host_mask(family_bits(self.family), self.len)
    }

    /// Builds the prefix if it is valid.
    pub fn new(family: Family, addr: u128, len: u8) -> (r: Option<Prefix>)
        ensures
            r == if (Prefix { family, addr, len }).valid() {
                Some(Prefix { family, addr, len })
            } else {
                None
            },
    {
        let p = Prefix { family, addr, len };
        if p.is_valid() {
            Some(p)
        } else {
            None
        }
    }

    /// Tests `valid`.
    pub fn is_valid(&self) -> (r: bool)
        ensures
            r == self.valid(),
    {
        let bits = self.family.bits();
        self.len <= bits && self.addr <= self.family.max_addr() && (self.addr & mask_of(
            bits,
            self.len,
        )) == 0
    }

    /// The first and the last address covered.
    pub fn bounds(&self) -> (r: (u128, u128))
        ensures
            r.0 == self.first(),
            r.1 == self.last(),
    {
        (self.addr, self.addr | mask_of(self.family.bits(), self.len))
    }
}

impl Vrp {
    /// A payload is valid when its prefix is and the maximum length lies
    /// between the prefix length and the family's number of bits.
    pub open spec fn valid(self) -> bool {
        &&& self.prefix.valid()
        &&& self.prefix.len <= self.max_len <= family_bits(self.prefix.family)
    }

    /// Tests `valid`.
    pub fn is_valid(&self) -> (r: bool)
        ensures
            r == self.valid(),
    {
        self.prefix.is_valid() && self.prefix.len <= self.max_len && self.max_len
            <= self.prefix.family.bits()
    }
}

/// `base` with the payloads of `more` put behind it in order, each unless
/// it is there already.
pub open spec fn inserted_all(base: Seq<Vrp>, more: Seq<Vrp>) -> Seq<Vrp>
    decreases more.len(),
{
    if more.len() == 0 {
        base
    } else {
        let front = inserted_all(base, more.drop_last());
        if front.contains(more.last()) {
            front
        } else {
            front.push(more.last())
        }
    }
}

/// The payloads of `list` that are not in `other`, in order.
pub open spec fn not_in(list: Seq<Vrp>, other: Set<Vrp>) -> Seq<Vrp> {
    list.filter(|v: Vrp| !other.contains(v))
}

/// A set of payloads, held without duplicates in the order of insertion.
#[derive(Clone, Debug)]
pub struct VrpSet {
    items: Vec<Vrp>,
}

impl View for VrpSet {
    type V = Set<Vrp>;

    open spec fn view(&self) -> Set<Vrp> {
        self.seq().to_set()
    }
}

impl VrpSet {
    /// No payload is held twice.
    pub open spec fn wf(&self) -> bool {
        self.seq().no_duplicates()
    }

    /// The payloads in the order they are held.
    pub closed spec fn seq(&self) -> Seq<Vrp> {
        self.items@
    }

    /// The payloads of a well-formed set are all different, and as many as
    /// the set has members.
    pub proof fn lemma_distinct(&self)
        requires
            self.wf(),
        ensures
            self.seq().no_duplicates(),
            self.seq().to_set() == self@,
            self@.finite(),
            self@.len() == self.seq().len(),
    {
        self.items@.unique_seq_to_set();
    }

    /// The empty set.
    pub fn new() -> (r: VrpSet)
        ensures
            r.wf(),
            r@ == Set::<Vrp>::empty(),
            r.seq() == Seq::<Vrp>::empty(),
    {
        let r = VrpSet { items: Vec::new() };
        assert(r.items@.to_set() =~= Set::<Vrp>::empty());
        r
    }

    /// The payloads, none of them twice.
    pub fn entries(&self) -> (r: &Vec<Vrp>)
        requires
            self.wf(),
        ensures
            r@ == self.seq(),
            r@.no_duplicates(),
            r@.to_set() == self@,
    {
        &self.items
    }

    /// The number of payloads.
    pub fn len(&self) -> (r: usize)
        requires
            self.wf(),
        ensures
            r == self.seq().len(),
            r == self@.len(),
            self@.finite(),
    {
        proof {
            self.items@.unique_seq_to_set();
        }
        self.items.len()
    }

    /// Whether `v` is in the set.
    pub fn contains(&self, v: &Vrp) -> (r: bool)
        ensures
            r == self@.contains(*v),
            r == self.seq().contains(*v),
    {
        let mut i: usize = 0;
        while i < self.items.len()
            invariant
                i <= self.items.len(),
                forall|j: int| 0 <= j < i ==> self.items@[j] != *v,
            decreases self.items.len() - i,
        {
            if self.items[i] == *v {
                return true;
            }
            i += 1;
        }
        false
    }

    /// Adds `v` behind the others unless it is there already; returns
    /// whether it was added.
    pub fn insert(&mut self, v: Vrp) -> (r: bool)
        requires
            old(self).wf(),
        ensures
            final(self).wf(),
            final(self)@ == old(self)@.insert(v),
            r == !old(self)@.contains(v),
            final(self).seq() == inserted_all(old(self).seq(), seq![v]),
            final(self).seq() == if r {
                old(self).seq().push(v)
            } else {
                old(self).seq()
            },
    {
        proof {
            lemma_inserted_one(self.items@, v);
        }
        if self.contains(&v) {
            assert(self.items@.to_set().insert(v) =~= self.items@.to_set());
            false
        } else {
            let ghost before = self.items@;
            self.items.push(v);
            proof {
                lemma_to_set_push(before, v);
            }
            true
        }
    }

    /// A copy of the set.
    pub fn duplicate(&self) -> (r: VrpSet)
        requires
            self.wf(),
        ensures
            r.wf(),
            r@ == self@,
            r.seq() == self.seq(),
    {
        let mut items: Vec<Vrp> = Vec::new();
        let mut i: usize = 0;
        while i < self.items.len()
            invariant
                i <= self.items.len(),
                items@ == self.items@.take(i as int),
            decreases self.items.len() - i,
        {
            items.push(self.items[i]);
            assert(self.items@.take(i + 1) =~= self.items@.take(i as int).push(self.items@[i as int]));
            i += 1;
        }
        assert(self.items@.take(i as int) =~= self.items@);
        VrpSet { items }
    }

    /// The set of the payloads in `list`: each is held once, at the place
    /// of its first occurrence.
    pub fn from_vec(list: &Vec<Vrp>) -> (r: VrpSet)
        ensures
            r.wf(),
            r@ == list@.to_set(),
            r.seq() == inserted_all(Seq::empty(), list@),
    {
        let mut r = VrpSet::new();
        r.add_all(list);
        proof {
            lemma_inserted_all(Seq::empty(), list@);
            assert(Seq::<Vrp>::empty().to_set().union(list@.to_set()) =~= list@.to_set());
        }
        r
    }

    /// Adds the payloads of `list` in order, each unless it is there
    /// already.
    pub fn add_all(&mut self, list: &Vec<Vrp>)
        requires
            old(self).wf(),
        ensures
            final(self).wf(),
            final(self)@ == old(self)@.union(list@.to_set()),
            final(self).seq() == inserted_all(old(self).seq(), list@),
    {
        let mut i: usize = 0;
        assert(list@.take(0) =~= Seq::<Vrp>::empty());
        while i < list.len()
            invariant
                i <= list.len(),
                self.wf(),
                self.seq() == inserted_all(old(self).seq(), list@.take(i as int)),
            decreases list.len() - i,
        {
            self.insert(list[i]);
            proof {
                assert(list@.take(i + 1).drop_last() =~= list@.take(i as int));
                assert(list@.take(i + 1).last() == list@[i as int]);
            }
            i += 1;
        }
        proof {
            assert(list@.take(i as int) =~= list@);
            lemma_inserted_all(old(self).seq(), list@);
        }
    }

    /// The payloads of `self` that are not in `other`, in the order they
    /// are held.
    pub fn difference(&self, other: &VrpSet) -> (r: VrpSet)
        requires
            self.wf(),
        ensures
            r.wf(),
            r@ == self@.difference(other@),
            r.seq() == not_in(self.seq(), other@),
    {
        let mut items: Vec<Vrp> = Vec::new();
        let ghost keep = |v: Vrp| !other@.contains(v);
        let mut i: usize = 0;
        proof {
            assert(self.items@.take(0) =~= Seq::<Vrp>::empty());
            lemma_filter_empty(keep);
        }
        while i < self.items.len()
            invariant
                i <= self.items.len(),
                keep == |v: Vrp| !other@.contains(v),
                items@ == self.items@.take(i as int).filter(keep),
            decreases self.items.len() - i,
        {
            let v = self.items[i];
            proof {
                assert(self.items@.take(i + 1) =~= self.items@.take(i as int).push(v));
                lemma_filter_next(self.items@.take(i as int), v, keep);
            }
            if !other.contains(&v) {
                items.push(v);
            }
            i += 1;
        }
        proof {
            assert(self.items@.take(i as int) =~= self.items@);
            lemma_filter_distinct(self.items@, keep);
        }
        VrpSet { items }
    }

    /// Adds every payload of `other`, in the order it holds them.
    pub fn extend(&mut self, other: &VrpSet)
        requires
            old(self).wf(),
        ensures
            final(self).wf(),
            final(self)@ == old(self)@.union(other@),
            final(self).seq() == inserted_all(old(self).seq(), other.seq()),
    {
        self.add_all(&other.items);
    }

    /// Whether every payload of `self` is in `other`.
    pub fn is_subset_of(&self, other: &VrpSet) -> (r: bool)
        ensures
            r == self@.subset_of(other@),
    {
        let mut i: usize = 0;
        while i < self.items.len()
            invariant
                i <= self.items.len(),
                forall|j: int| 0 <= j < i ==> other@.contains(self.items@[j]),
            decreases self.items.len() - i,
        {
            if !other.contains(&self.items[i]) {
                assert(self@.contains(self.items@[i as int]));
                return false;
            }
            i += 1;
        }
        assert forall|x: Vrp| self@.contains(x) implies other@.contains(x) by {
            let k = choose|k: int| 0 <= k < self.items@.len() && self.items@[k] == x;
        }
        true
    }

    /// Whether the two sets hold the same payloads.
    pub fn same_as(&self, other: &VrpSet) -> (r: bool)
        ensures
            r == (self@ == other@),
    {
        let r = self.is_subset_of(other) && other.is_subset_of(self);
        assert(r ==> self@ =~= other@);
        r
    }
}

/// The items of a list with one more are the items of the list and that
/// one.
pub proof fn lemma_to_set_push<T>(s: Seq<T>, x: T)
    ensures
        s.push(x).to_set() == s.to_set().insert(x),
        s.no_duplicates() && !s.contains(x) ==> s.push(x).no_duplicates(),
{
    let a = s.push(x);
    assert forall|y: T| a.to_set().contains(y) <==> s.to_set().insert(x).contains(y) by {
        if a.contains(y) {
            let k = choose|k: int| 0 <= k < a.len() && a[k] == y;
            if k < s.len() {
                assert(s[k] == y);
            }
        }
        if s.contains(y) {
            let k = choose|k: int| 0 <= k < s.len() && s[k] == y;
            assert(a[k] == y);
        }
        if y == x {
            assert(a[s.len() as int] == y);
        }
    }
    assert(a.to_set() =~= s.to_set().insert(x));
}

/// Putting one payload behind a list, unless it is there.
pub proof fn lemma_inserted_one(base: Seq<Vrp>, v: Vrp)
    ensures
        inserted_all(base, seq![v]) == if base.contains(v) {
            base
        } else {
            base.push(v)
        },
{
    let one = seq![v];
    assert(one.drop_last() =~= Seq::<Vrp>::empty());
    assert(inserted_all(base, one.drop_last()) == base);
    assert(one.last() == v);
}

/// Putting payloads behind a list keeps it free of duplicates, and gives
/// the payloads of both.
pub proof fn lemma_inserted_all(base: Seq<Vrp>, more: Seq<Vrp>)
    ensures
        base.no_duplicates() ==> inserted_all(base, more).no_duplicates(),
        inserted_all(base, more).to_set() == base.to_set().union(more.to_set()),
    decreases more.len(),
{
    if more.len() == 0 {
        assert(more.to_set() =~= Set::<Vrp>::empty());
        assert(base.to_set().union(more.to_set()) =~= base.to_set());
    } else {
        let front = inserted_all(base, more.drop_last());
        lemma_inserted_all(base, more.drop_last());
        lemma_to_set_push(front, more.last());
        lemma_to_set_push(more.drop_last(), more.last());
        assert(more.drop_last().push(more.last()) =~= more);
        assert(inserted_all(base, more).to_set() =~= base.to_set().union(more.to_set()));
    }
}

/// Putting two lists behind a third, one after the other, is putting the
/// two in a row behind it.
pub proof fn lemma_inserted_all_add(base: Seq<Vrp>, x: Seq<Vrp>, y: Seq<Vrp>)
    ensures
        inserted_all(base, x + y) == inserted_all(inserted_all(base, x), y),
    decreases y.len(),
{
    if y.len() == 0 {
        assert(x + y =~= x);
    } else {
        lemma_inserted_all_add(base, x, y.drop_last());
        assert((x + y).drop_last() =~= x + y.drop_last());
        assert((x + y).last() == y.last());
    }
}

/// Putting a list without duplicates behind nothing gives the list.
pub proof fn lemma_inserted_distinct(s: Seq<Vrp>)
    requires
        s.no_duplicates(),
    ensures
        inserted_all(Seq::empty(), s) == s,
    decreases s.len(),
{
    if s.len() > 0 {
        let front = s.drop_last();
        lemma_inserted_distinct(front);
        assert(front.push(s.last()) =~= s);
        assert(!front.contains(s.last())) by {
            if front.contains(s.last()) {
                let k = choose|k: int| 0 <= k < front.len() && front[k] == s.last();
                assert(s[k] == s[s.len() - 1]);
            }
        }
    }
}

/// Nothing is left of an empty list.
pub proof fn lemma_filter_empty<T>(keep: spec_fn(T) -> bool)
    ensures
        Seq::<T>::empty().filter(keep) == Seq::<T>::empty(),
{
    reveal(Seq::filter);
}

/// Filtering a list with one more item keeps the item where the test
/// holds of it, and changes nothing else.
pub proof fn lemma_filter_next<T>(s: Seq<T>, x: T, keep: spec_fn(T) -> bool)
    ensures
        s.push(x).filter(keep) == if keep(x) {
            s.filter(keep).push(x)
        } else {
            s.filter(keep)
        },
{
    reveal(Seq::filter);
    assert(s.push(x).drop_last() =~= s);
}

/// What is left of a list holds the items of the list that the test
/// holds of; and where the list has no duplicates, it has none.
pub proof fn lemma_filter_distinct<T>(s: Seq<T>, keep: spec_fn(T) -> bool)
    ensures
        s.no_duplicates() ==> s.filter(keep).no_duplicates(),
        s.filter(keep).to_set() == s.to_set().filter(keep),
    decreases s.len(),
{
    reveal(Seq::filter);
    if s.len() == 0 {
        assert(s.filter(keep).to_set() =~= s.to_set().filter(keep));
    } else {
        let front = s.drop_last();
        let x = s.last();
        lemma_filter_distinct(front, keep);
        assert(front.push(x) =~= s);
        lemma_to_set_push(front, x);
        lemma_to_set_push(front.filter(keep), x);
        if s.no_duplicates() {
            assert(front.no_duplicates()) by {
                assert forall|i: int, j: int|
                    0 <= i < front.len() && 0 <= j < front.len() && i != j implies front[i]
                    != front[j] by {
                    assert(front[i] == s[i] && front[j] == s[j]);
                }
            }
            assert(!front.contains(x)) by {
                if front.contains(x) {
                    let k = choose|k: int| 0 <= k < front.len() && front[k] == x;
                    assert(s[k] == s[s.len() - 1]);
                }
            }
            if keep(x) {
                assert(!front.filter(keep).contains(x)) by {
                    if front.filter(keep).contains(x) {
                        assert(front.filter(keep).to_set().contains(x));
                        assert(front.to_set().filter(keep).contains(x));
                    }
                }
            }
        }
        assert(s.filter(keep).to_set() =~= s.to_set().filter(keep));
    }
}

} // verus!
