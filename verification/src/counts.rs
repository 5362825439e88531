//! Category-count mappings: the per-scope tally of match counts keyed by
//! semantic category, together with the merge monoid used to aggregate
//! per-subdirectory tallies into a grand total.

use vstd::prelude::*;
use vstd::seq_lib::{commutative_foldr, lemma_fold_right_permutation};

verus! {

/// The count a mapping assigns to a category, with absent keys read as 0.
pub open spec fn count_of(m: Map<Seq<char>, int>, k: Seq<char>) -> int {
    if m.contains_key(k) {
        m[k]
    } else {
        0
    }
}

/// `m` with the count of `k` raised by `n` (inserting `k` if absent).
pub open spec fn bump(m: Map<Seq<char>, int>, k: Seq<char>, n: int) -> Map<Seq<char>, int> {
    m.insert(k, count_of(m, k) + n)
}

/// The pointwise sum of two mappings: `merged[k] = a[k] + b[k]`, with
/// absent keys treated as 0. This is the aggregation rule for folding
/// per-subdirectory tallies into a grand total.
pub open spec fn merge_maps(a: Map<Seq<char>, int>, b: Map<Seq<char>, int>) -> Map<
    Seq<char>,
    int,
> {
    Map::new(
        |k: Seq<char>| a.contains_key(k) || b.contains_key(k),
        |k: Seq<char>| count_of(a, k) + count_of(b, k),
    )
}

/// The sum of all counts in a mapping (the percentage denominator).
pub open spec fn map_sum(m: Map<Seq<char>, int>) -> int
    decreases m.dom().len(),
{
    if m.dom().finite() && m.dom().len() > 0 {
        let k = m.dom().choose();
        count_of(m, k) + map_sum(m.remove(k))
    } else {
        0
    }
}

/// Every mapping produced by a scan has a finite key set and counts that
/// fit in the machine word.
pub open spec fn counts_ok(m: Map<Seq<char>, int>) -> bool {
    &&& m.dom().finite()
    &&& forall|k: Seq<char>| m.contains_key(k) ==> 0 <= #[trigger] m[k] <= u64::MAX
}

/// Splitting any one key out of a mapping splits its sum.
pub proof fn lemma_map_sum_remove(m: Map<Seq<char>, int>, k: Seq<char>)
    requires
        m.dom().finite(),
        m.contains_key(k),
    ensures
        map_sum(m) == map_sum(m.remove(k)) + m[k],
    decreases m.dom().len(),
{
    let k0 = m.dom().choose();
    assert(m.dom().contains(k));
    assert(m.dom().contains(k0));
    assert(m.dom().remove(k0).len() == m.dom().len() - 1);
    if k0 == k {
    } else {
        let m1 = m.remove(k0);
        assert(m1.contains_key(k));
        lemma_map_sum_remove(m1, k);
        // map_sum(m) == m[k0] + map_sum(m1)
        //            == m[k0] + map_sum(m1.remove(k)) + m[k]
        let m2 = m.remove(k);
        assert(m2.contains_key(k0));
        lemma_map_sum_remove(m2, k0);
        // map_sum(m2) == map_sum(m2.remove(k0)) + m[k0]
        assert(m1.remove(k) =~= m2.remove(k0));
    }
}

/// Inserting a fresh key adds its count to the sum.
pub proof fn lemma_map_sum_insert(m: Map<Seq<char>, int>, k: Seq<char>, v: int)
    requires
        m.dom().finite(),
        !m.contains_key(k),
    ensures
        map_sum(m.insert(k, v)) == map_sum(m) + v,
{
    let m1 = m.insert(k, v);
    assert(m1.dom().finite());
    lemma_map_sum_remove(m1, k);
    assert(m1.remove(k) =~= m);
}

/// No single count exceeds the sum when all counts are non-negative.
pub proof fn lemma_count_le_map_sum(m: Map<Seq<char>, int>, k: Seq<char>)
    requires
        m.dom().finite(),
        forall|j: Seq<char>| m.contains_key(j) ==> 0 <= #[trigger] m[j],
        m.contains_key(k),
    ensures
        m[k] <= map_sum(m),
        0 <= map_sum(m),
{
    lemma_map_sum_remove(m, k);
    lemma_map_sum_nonneg(m.remove(k));
    lemma_map_sum_nonneg(m);
}

/// A mapping of non-negative counts has a non-negative sum.
pub proof fn lemma_map_sum_nonneg(m: Map<Seq<char>, int>)
    requires
        m.dom().finite(),
        forall|j: Seq<char>| m.contains_key(j) ==> 0 <= #[trigger] m[j],
    ensures
        0 <= map_sum(m),
    decreases m.dom().len(),
{
    if m.dom().len() > 0 {
        let k = m.dom().choose();
        assert(m.dom().contains(k));
        assert(m.dom().remove(k).len() == m.dom().len() - 1);
        lemma_map_sum_nonneg(m.remove(k));
    }
}

/// The empty mapping is the identity of the merge.
pub proof fn lemma_merge_identity(a: Map<Seq<char>, int>)
    ensures
        merge_maps(a, Map::empty()) == a,
        merge_maps(Map::empty(), a) == a,
{
    assert(merge_maps(a, Map::empty()) =~= a);
    assert(merge_maps(Map::empty(), a) =~= a);
}

/// The merge of two category-count mappings is commutative.
pub proof fn lemma_merge_commutative(a: Map<Seq<char>, int>, b: Map<Seq<char>, int>)
    ensures
        merge_maps(a, b) == merge_maps(b, a),
{
    assert(merge_maps(a, b) =~= merge_maps(b, a));
}

/// The merge of category-count mappings is associative.
pub proof fn lemma_merge_associative(
    a: Map<Seq<char>, int>,
    b: Map<Seq<char>, int>,
    c: Map<Seq<char>, int>,
)
    ensures
        merge_maps(merge_maps(a, b), c) == merge_maps(a, merge_maps(b, c)),
{
    assert(merge_maps(merge_maps(a, b), c) =~= merge_maps(a, merge_maps(b, c)));
}

/// Merging with a mapping whose count of `k` was raised raises the
/// merged count of `k` by the same amount.
pub proof fn lemma_merge_bump(
    a: Map<Seq<char>, int>,
    b: Map<Seq<char>, int>,
    k: Seq<char>,
    n: int,
)
    ensures
        merge_maps(a, bump(b, k, n)) == bump(merge_maps(a, b), k, n),
{
    assert(merge_maps(a, bump(b, k, n)) =~= bump(merge_maps(a, b), k, n));
}

/// The merge step as a fold operator.
pub open spec fn merge_fn() -> spec_fn(Map<Seq<char>, int>, Map<Seq<char>, int>) -> Map<
    Seq<char>,
    int,
> {
    |m: Map<Seq<char>, int>, acc: Map<Seq<char>, int>| merge_maps(m, acc)
}

/// The grand total of a sequence of category-count mappings: their merge,
/// folded over the sequence, starting from the empty mapping.
pub open spec fn merge_all(ms: Seq<Map<Seq<char>, int>>) -> Map<Seq<char>, int> {
    ms.fold_right(merge_fn(), Map::empty())
}

proof fn lemma_merge_fn_commutative()
    ensures
        commutative_foldr(merge_fn()),
{
    let f = merge_fn();
    assert forall|x: Map<Seq<char>, int>, y: Map<Seq<char>, int>, v: Map<Seq<char>, int>|
        #[trigger] f(x, f(y, v)) == f(y, f(x, v)) by {
        lemma_merge_associative(x, y, v);
        lemma_merge_associative(y, x, v);
        lemma_merge_commutative(x, y);
    }
}

/// Appending one more mapping to a grand total merges it in.
pub proof fn lemma_merge_all_push(ms: Seq<Map<Seq<char>, int>>, m: Map<Seq<char>, int>)
    ensures
        merge_all(ms.push(m)) == merge_maps(merge_all(ms), m),
{
    let f = merge_fn();
    lemma_merge_fn_commutative();
    assert(ms.push(m).drop_last() =~= ms);
    assert(ms.push(m).fold_right(f, Map::empty()) == ms.fold_right(f, f(m, Map::empty())));
    lemma_merge_identity(m);
    assert(f(m, Map::empty()) == m);
    ms.lemma_fold_right_commute_one(m, f, Map::empty());
    lemma_merge_commutative(m, merge_all(ms));
}

/// The grand total does not depend on the order in which the
/// per-subdirectory mappings are merged: any two orders of the same
/// collection of mappings fold to the same total.
pub proof fn lemma_merge_all_order_independent(
    l1: Seq<Map<Seq<char>, int>>,
    l2: Seq<Map<Seq<char>, int>>,
)
    requires
        l1.to_multiset() == l2.to_multiset(),
    ensures
        merge_all(l1) == merge_all(l2),
{
    lemma_merge_fn_commutative();
    lemma_fold_right_permutation(l1, l2, merge_fn(), Map::empty());
}

/// One category with its tally.
struct CategoryCount {
    category: String,
    count: u64,
}

/// A category-count mapping: keys are semantic category names, values are
/// non-negative match counts. Counts are only ever raised, never lowered.
///
/// The mapping is modelled as a `Map<Seq<char>, int>` (its view); the
/// running sum of all counts is cached so that the percentage denominator
/// is available without re-summing.
pub struct CountMap {
    entries: Vec<CategoryCount>,
    total: u64,
}

spec fn unique_keys(s: Seq<CategoryCount>) -> bool {
    forall|i: int, j: int| 0 <= i < j < s.len() ==> s[i].category@ != s[j].category@
}

spec fn entries_map(s: Seq<CategoryCount>) -> Map<Seq<char>, int>
    decreases s.len(),
{
    if s.len() == 0 {
        Map::empty()
    } else {
        entries_map(s.drop_last()).insert(s.last().category@, s.last().count as int)
    }
}

spec fn entries_sum(s: Seq<CategoryCount>) -> int
    decreases s.len(),
{
    if s.len() == 0 {
        0
    } else {
        entries_sum(s.drop_last()) + s.last().count
    }
}

proof fn lemma_entries_map_contains(s: Seq<CategoryCount>, k: Seq<char>)
    ensures
        entries_map(s).contains_key(k) <==> exists|i: int|
            0 <= i < s.len() && #[trigger] s[i].category@ == k,
    decreases s.len(),
{
    if s.len() > 0 {
        lemma_entries_map_contains(s.drop_last(), k);
        if s.last().category@ == k {
            assert(s[s.len() - 1].category@ == k);
        } else if entries_map(s).contains_key(k) {
            let i = choose|i: int|
                0 <= i < s.drop_last().len() && #[trigger] s.drop_last()[i].category@ == k;
            assert(s[i].category@ == k);
        } else if exists|i: int| 0 <= i < s.len() && #[trigger] s[i].category@ == k {
            let i = choose|i: int| 0 <= i < s.len() && #[trigger] s[i].category@ == k;
            assert(s.drop_last()[i].category@ == k);
        }
    }
}

proof fn lemma_entries_map_at(s: Seq<CategoryCount>, i: int)
    requires
        unique_keys(s),
        0 <= i < s.len(),
    ensures
        entries_map(s).contains_key(s[i].category@),
        entries_map(s)[s[i].category@] == s[i].count as int,
    decreases s.len(),
{
    if i < s.len() - 1 {
        assert(s.drop_last()[i] == s[i]);
        lemma_entries_map_at(s.drop_last(), i);
    }
}

proof fn lemma_entries_map_finite(s: Seq<CategoryCount>)
    ensures
        entries_map(s).dom().finite(),
    decreases s.len(),
{
    if s.len() > 0 {
        lemma_entries_map_finite(s.drop_last());
    }
}

proof fn lemma_entries_map_len(s: Seq<CategoryCount>)
    requires
        unique_keys(s),
    ensures
        entries_map(s).dom().finite(),
        entries_map(s).dom().len() == s.len(),
    decreases s.len(),
{
    lemma_entries_map_finite(s);
    if s.len() > 0 {
        lemma_entries_map_len(s.drop_last());
        lemma_entries_map_contains(s.drop_last(), s.last().category@);
        assert(forall|i: int|
            0 <= i < s.drop_last().len() ==> #[trigger] s.drop_last()[i].category@ != s.last().category@);
        assert(!entries_map(s.drop_last()).contains_key(s.last().category@));
    }
}

proof fn lemma_entries_sum_is_map_sum(s: Seq<CategoryCount>)
    requires
        unique_keys(s),
    ensures
        map_sum(entries_map(s)) == entries_sum(s),
    decreases s.len(),
{
    lemma_entries_map_finite(s);
    if s.len() > 0 {
        lemma_entries_sum_is_map_sum(s.drop_last());
        lemma_entries_map_contains(s.drop_last(), s.last().category@);
        assert(forall|i: int|
            0 <= i < s.drop_last().len() ==> #[trigger] s.drop_last()[i].category@ != s.last().category@);
        assert(!entries_map(s.drop_last()).contains_key(s.last().category@));
        lemma_entries_map_finite(s.drop_last());
        lemma_map_sum_insert(entries_map(s.drop_last()), s.last().category@, s.last().count as int);
    }
}

proof fn lemma_entries_map_values(s: Seq<CategoryCount>, k: Seq<char>)
    requires
        entries_map(s).contains_key(k),
    ensures
        0 <= entries_map(s)[k] <= u64::MAX,
    decreases s.len(),
{
    if s.len() > 0 {
        if s.last().category@ != k {
            lemma_entries_map_values(s.drop_last(), k);
        }
    }
}

proof fn lemma_entries_map_update(s: Seq<CategoryCount>, i: int, e: CategoryCount)
    requires
        unique_keys(s),
        0 <= i < s.len(),
        e.category@ == s[i].category@,
    ensures
        unique_keys(s.update(i, e)),
        entries_map(s.update(i, e)) == entries_map(s).insert(e.category@, e.count as int),
        entries_sum(s.update(i, e)) == entries_sum(s) - s[i].count + e.count,
    decreases s.len(),
{
    let s1 = s.update(i, e);
    assert(unique_keys(s1)) by {
        assert(forall|j: int| 0 <= j < s.len() ==> #[trigger] s1[j].category@ == s[j].category@);
    }
    if i == s.len() - 1 {
        assert(s1.drop_last() =~= s.drop_last());
        assert(s1.last() == e);
        assert(entries_map(s1) == entries_map(s.drop_last()).insert(e.category@, e.count as int));
        assert(entries_map(s).insert(e.category@, e.count as int) =~= entries_map(
            s.drop_last(),
        ).insert(e.category@, e.count as int));
    } else {
        assert(s1.drop_last() =~= s.drop_last().update(i, e));
        assert(s.drop_last()[i] == s[i]);
        lemma_entries_map_update(s.drop_last(), i, e);
        assert(s1.last() == s.last());
        // the two inserted keys differ, so the inserts commute
        assert(s[i].category@ != s.last().category@);
        assert(entries_map(s1) == entries_map(s.drop_last()).insert(
            e.category@,
            e.count as int,
        ).insert(s.last().category@, s.last().count as int));
        assert(entries_map(s.drop_last()).insert(e.category@, e.count as int).insert(
            s.last().category@,
            s.last().count as int,
        ) =~= entries_map(s.drop_last()).insert(
            s.last().category@,
            s.last().count as int,
        ).insert(e.category@, e.count as int));
    }
}

proof fn lemma_entry_le_sum(s: Seq<CategoryCount>, i: int)
    requires
        0 <= i < s.len(),
    ensures
        s[i].count <= entries_sum(s),
        0 <= entries_sum(s),
    decreases s.len(),
{
    lemma_entries_sum_nonneg(s);
    if i < s.len() - 1 {
        assert(s.drop_last()[i] == s[i]);
        lemma_entry_le_sum(s.drop_last(), i);
    } else {
        lemma_entries_sum_nonneg(s.drop_last());
    }
}

proof fn lemma_entries_sum_nonneg(s: Seq<CategoryCount>)
    ensures
        0 <= entries_sum(s),
    decreases s.len(),
{
    if s.len() > 0 {
        lemma_entries_sum_nonneg(s.drop_last());
    }
}

proof fn lemma_entries_sum_take(s: Seq<CategoryCount>, j: int)
    requires
        0 <= j <= s.len(),
    ensures
        entries_sum(s.take(j)) <= entries_sum(s),
    decreases s.len(),
{
    if j == s.len() {
        assert(s.take(j) =~= s);
    } else {
        assert(s.drop_last().take(j) =~= s.take(j));
        lemma_entries_sum_take(s.drop_last(), j);
        lemma_entries_sum_nonneg(s.drop_last());
    }
}

impl View for CountMap {
    type V = Map<Seq<char>, int>;

    closed spec fn view(&self) -> Map<Seq<char>, int> {
        entries_map(self.entries@)
    }
}

impl CountMap {
    /// The mapping's internal invariant: category names are unique and the
    /// cached total is the sum of all counts.
    pub closed spec fn wf(&self) -> bool {
        &&& unique_keys(self.entries@)
        &&& self.total == entries_sum(self.entries@)
    }

    /// The sum of all counts, as the mathematical model sees it.
    pub open spec fn total_spec(&self) -> int {
        map_sum(self@)
    }

    /// A well-formed mapping has a finite key set, counts that fit the
    /// machine word, and a total that does too.
    pub proof fn lemma_wf_facts(&self)
        requires
            self.wf(),
        ensures
            counts_ok(self@),
            0 <= self.total_spec() <= u64::MAX,
    {
        lemma_entries_map_finite(self.entries@);
        assert forall|k: Seq<char>| self@.contains_key(k) implies 0 <= #[trigger] self@[k]
            <= u64::MAX by {
            lemma_entries_map_values(self.entries@, k);
        }
        lemma_entries_sum_is_map_sum(self.entries@);
        lemma_entries_sum_nonneg(self.entries@);
        lemma_entries_map_len(self.entries@);
    }

    /// An empty mapping: no categories, zero total.
    pub fn new() -> (r: CountMap)
        ensures
            r.wf(),
            r@ == Map::<Seq<char>, int>::empty(),
            r.total_spec() == 0,
    {
        let r = CountMap { entries: Vec::new(), total: 0 };
        proof {
            assert(r.entries@.len() == 0);
            assert(r@ =~= Map::<Seq<char>, int>::empty());
        }
        r
    }

    fn find(&self, k: &str) -> (r: Option<usize>)
        ensures
            match r {
                Some(i) => i < self.entries@.len() && self.entries@[i as int].category@ == k@,
                None => forall|i: int|
                    0 <= i < self.entries@.len() ==> #[trigger] self.entries@[i].category@ != k@,
            },
    {
        let key: String = k.to_owned();
        let n = self.entries.len();
        for i in 0..n
            invariant
                n == self.entries@.len(),
                key@ == k@,
                forall|j: int| 0 <= j < i ==> #[trigger] self.entries@[j].category@ != k@,
        {
            if self.entries[i].category == key {
                return Some(i);
            }
        }
        None
    }

    /// The count recorded for a category, 0 if the category is absent.
    pub fn get(&self, k: &str) -> (r: u64)
        requires
            self.wf(),
        ensures
            r as int == count_of(self@, k@),
    {
        match self.find(k) {
            Some(i) => {
                proof {
                    lemma_entries_map_at(self.entries@, i as int);
                }
                self.entries[i].count
            },
            None => {
                proof {
                    lemma_entries_map_contains(self.entries@, k@);
                }
                0
            },
        }
    }

    /// The percentage denominator: the sum of all counts in the mapping.
    pub fn total(&self) -> (r: u64)
        requires
            self.wf(),
        ensures
            r as int == map_sum(self@),
            r as int == self.total_spec(),
    {
        proof {
            lemma_entries_sum_is_map_sum(self.entries@);
        }
        self.total
    }

    /// The number of categories present.
    pub fn len(&self) -> (r: usize)
        requires
            self.wf(),
        ensures
            r == self@.dom().len(),
    {
        proof {
            lemma_entries_map_len(self.entries@);
        }
        self.entries.len()
    }

    /// Raises the count of `k` by `n`, inserting the category if absent.
    /// Counts are never lowered.
    pub fn add(&mut self, k: &str, n: u64)
        requires
            old(self).wf(),
            old(self).total_spec() + n <= u64::MAX,
        ensures
            final(self).wf(),
            final(self)@ == bump(old(self)@, k@, n as int),
            final(self).total_spec() == old(self).total_spec() + n,
    {
        proof {
            lemma_entries_sum_is_map_sum(self.entries@);
        }
        match self.find(k) {
            Some(i) => {
                proof {
                    lemma_entries_map_at(self.entries@, i as int);
                    lemma_entry_le_sum(self.entries@, i as int);
                }
                let c = self.entries[i].count;
                let ghost s0 = self.entries@;
                self.entries[i].count = c + n;
                proof {
                    let e = CategoryCount { category: s0[i as int].category, count: (c + n) as u64 };
                    assert(self.entries@ =~= s0.update(i as int, e));
                    lemma_entries_map_update(s0, i as int, e);
                    assert(self@ =~= bump(old(self)@, k@, n as int));
                }
                self.total = self.total + n;
                proof {
                    lemma_entries_sum_is_map_sum(self.entries@);
                }
            },
            None => {
                proof {
                    lemma_entries_map_contains(self.entries@, k@);
                }
                let ghost s0 = self.entries@;
                self.entries.push(CategoryCount { category: k.to_owned(), count: n });
                self.total = self.total + n;
                proof {
                    assert(self.entries@.drop_last() =~= s0);
                    assert(unique_keys(self.entries@)) by {
                        assert(forall|j: int|
                            0 <= j < s0.len() ==> #[trigger] self.entries@[j] == s0[j]);
                    }
                    assert(self@ == entries_map(s0).insert(k@, n as int));
                    assert(!old(self)@.contains_key(k@));
                    assert(self@ =~= bump(old(self)@, k@, n as int));
                    lemma_entries_sum_is_map_sum(self.entries@);
                }
            },
        }
    }

    /// Records one more match for category `k`.
    pub fn increment(&mut self, k: &str)
        requires
            old(self).wf(),
            old(self).total_spec() + 1 <= u64::MAX,
        ensures
            final(self).wf(),
            final(self)@ == bump(old(self)@, k@, 1),
            final(self).total_spec() == old(self).total_spec() + 1,
    {
        self.add(k, 1);
    }

    /// Folds every count of `other` into `self`: the pointwise-sum merge.
    pub fn merge_from(&mut self, other: &CountMap)
        requires
            old(self).wf(),
            other.wf(),
            old(self).total_spec() + other.total_spec() <= u64::MAX,
        ensures
            final(self).wf(),
            final(self)@ == merge_maps(old(self)@, other@),
            final(self).total_spec() == old(self).total_spec() + other.total_spec(),
    {
        proof {
            lemma_entries_sum_is_map_sum(other.entries@);
            other.lemma_wf_facts();
        }
        let n = other.entries.len();
        for i in 0..n
            invariant
                n == other.entries@.len(),
                self.wf(),
                other.wf(),
                self@ == merge_maps(old(self)@, entries_map(other.entries@.take(i as int))),
                self.total_spec() == old(self).total_spec() + entries_sum(
                    other.entries@.take(i as int),
                ),
                old(self).total_spec() + other.total_spec() <= u64::MAX,
                other.total_spec() == entries_sum(other.entries@),
        {
            proof {
                lemma_entries_sum_take(other.entries@, i + 1);
                assert(other.entries@.take(i + 1).drop_last() =~= other.entries@.take(i as int));
                assert(other.entries@.take(i + 1).last() == other.entries@[i as int]);
                lemma_entries_sum_nonneg(other.entries@.take(i as int));
            }
            let e_cat: &String = &other.entries[i].category;
            let e_count: u64 = other.entries[i].count;
            self.add(e_cat.as_str(), e_count);
            proof {
                let sk = other.entries@[i as int].category@;
                let sv = other.entries@[i as int].count as int;
                let prev = entries_map(other.entries@.take(i as int));
                assert(entries_map(other.entries@.take(i + 1)) == prev.insert(sk, sv));
                // the key is fresh in the prefix, so the insert is a bump
                assert(forall|j: int|
                    0 <= j < i ==> #[trigger] other.entries@.take(i as int)[j].category@ != sk);
                lemma_entries_map_contains(other.entries@.take(i as int), sk);
                assert(!prev.contains_key(sk));
                assert(prev.insert(sk, sv) =~= bump(prev, sk, sv));
                lemma_merge_bump(old(self)@, prev, sk, sv);
            }
        }
        proof {
            assert(other.entries@.take(n as int) =~= other.entries@);
        }
    }

    /// The category names present in the mapping, each exactly once.
    pub fn categories(&self) -> (r: Vec<String>)
        requires
            self.wf(),
        ensures
            r@.len() == self@.dom().len(),
            forall|i: int| 0 <= i < r@.len() ==> self@.contains_key(#[trigger] r@[i]@),
            forall|k: Seq<char>| self@.contains_key(k) ==> exists|i: int|
                0 <= i < r@.len() && #[trigger] r@[i]@ == k,
            forall|i: int, j: int| 0 <= i < j < r@.len() ==> r@[i]@ != r@[j]@,
    {
        proof {
            lemma_entries_map_len(self.entries@);
        }
        let n = self.entries.len();
        let mut r: Vec<String> = Vec::new();
        for i in 0..n
            invariant
                n == self.entries@.len(),
                self.wf(),
                r@.len() == i,
                forall|j: int| 0 <= j < i ==> #[trigger] r@[j]@ == self.entries@[j].category@,
        {
            r.push(self.entries[i].category.clone());
        }
        proof {
            lemma_entries_map_len(self.entries@);
            assert forall|i: int| 0 <= i < r@.len() implies self@.contains_key(
                #[trigger] r@[i]@,
            ) by {
                lemma_entries_map_at(self.entries@, i);
            }
            assert forall|k: Seq<char>| self@.contains_key(k) implies exists|i: int|
                0 <= i < r@.len() && #[trigger] r@[i]@ == k by {
                lemma_entries_map_contains(self.entries@, k);
                let i = choose|i: int|
                    0 <= i < self.entries@.len() && #[trigger] self.entries@[i].category@ == k;
                assert(r@[i]@ == k);
            }
        }
        r
    }
}

} // verus!
