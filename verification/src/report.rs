//! The reporter: percentages of a tally's total, per-category listings,
//! and the pivot table (categories as rows, recognized corpus partitions
//! as columns) handed to downstream rendering.
//!
//! Percentages are computed in basis points (hundredths of a percent),
//! rounded down, so that the whole report stays in exact integer
//! arithmetic; a tally with a zero total reports every percentage as 0
//! rather than failing.

use crate::catalog::str_eq;
use crate::counts::{count_of, lemma_count_le_map_sum, lemma_map_sum_remove, map_sum, CountMap};
use crate::scan::{subdirs_wf, SubdirResult};
use vstd::arithmetic::div_mod::{lemma_div_is_ordered, lemma_div_multiples_vanish,
    lemma_fundamental_div_mod, lemma_mod_bound};
use vstd::arithmetic::mul::{lemma_mul_inequality, lemma_mul_is_distributive_add_other_way,
    lemma_mul_is_distributive_sub_other_way, lemma_mul_inequality_converse};
use vstd::prelude::*;

verus! {

/// The share of a total that a count represents, in basis points
/// (hundredths of a percent), rounded down; 0 when the total is 0.
pub open spec fn spec_percentage(count: int, total: int) -> int {
    if total <= 0 {
        0
    } else {
        count * 10000 / total
    }
}

/// Computes a count's share of its tally's total, in basis points:
/// `count * 10000 / total`, rounded down, and 0 (not an error) when the
/// total is 0.
pub fn percentage_points(count: u64, total: u64) -> (r: u64)
    requires
        count <= total,
    ensures
        r as int == spec_percentage(count as int, total as int),
        r <= 10000,
{
    if total == 0 {
        0
    } else {
        let p: u128 = ((count as u128) * 10000) / (total as u128);
        proof {
            let c = count as int;
            let t = total as int;
            lemma_mul_inequality(c, t, 10000);
            lemma_div_is_ordered(c * 10000, t * 10000, t);
            lemma_div_multiples_vanish(10000, t);
        }
        p as u64
    }
}

/// The per-category percentages of a tally, each a share of `total` in
/// basis points.
pub open spec fn percentage_map(m: Map<Seq<char>, int>, total: int) -> Map<Seq<char>, int> {
    Map::new(|k: Seq<char>| m.contains_key(k), |k: Seq<char>| spec_percentage(m[k], total))
}

proof fn lemma_percentage_map_sum_bounds(m: Map<Seq<char>, int>, total: int)
    requires
        m.dom().finite(),
        forall|k: Seq<char>| m.contains_key(k) ==> 0 <= #[trigger] m[k],
        total > 0,
    ensures
        map_sum(percentage_map(m, total)) * total <= map_sum(m) * 10000,
        map_sum(percentage_map(m, total)) * total >= map_sum(m) * 10000 - m.dom().len() * total
            + m.dom().len(),
    decreases m.dom().len(),
{
    let pm = percentage_map(m, total);
    assert(pm.dom() =~= m.dom());
    if m.dom().len() == 0 {
        assert(m.dom() =~= Set::<Seq<char>>::empty());
        assert(map_sum(m) == 0);
        assert(map_sum(pm) == 0);
    } else {
        let k = m.dom().choose();
        assert(m.dom().contains(k));
        lemma_map_sum_remove(m, k);
        lemma_map_sum_remove(pm, k);
        let m1 = m.remove(k);
        let pm1 = percentage_map(m1, total);
        assert(pm.remove(k) =~= pm1);
        assert(m1.dom().len() == m.dom().len() - 1);
        lemma_percentage_map_sum_bounds(m1, total);
        // the per-key share: total * (c*10000/total) == c*10000 - remainder
        let c = m[k];
        let q = c * 10000 / total;
        lemma_fundamental_div_mod(c * 10000, total);
        lemma_mod_bound(c * 10000, total);
        assert(pm[k] == q);
        // distribute the sums
        let s1 = map_sum(pm1);
        let n1 = m1.dom().len() as int;
        lemma_mul_is_distributive_add_other_way(total, s1, q);
        lemma_mul_is_distributive_add_other_way(10000, map_sum(m1), c);
        lemma_mul_is_distributive_add_other_way(total, n1, 1);
    }
}

/// The percentages of a non-empty tally add up to the whole: with
/// `total` the sum of the mapping's counts (the percentage denominator),
/// the basis-point shares of all categories sum into the interval
/// `(10000 - #categories, 10000]`, the slack being rounding alone; and
/// with a zero total every share is 0.
pub proof fn lemma_percentages_sum(m: Map<Seq<char>, int>, total: int)
    requires
        m.dom().finite(),
        forall|k: Seq<char>| m.contains_key(k) ==> 0 <= #[trigger] m[k],
        total == map_sum(m),
    ensures
        total > 0 ==> map_sum(percentage_map(m, total)) <= 10000,
        total > 0 ==> map_sum(percentage_map(m, total)) > 10000 - m.dom().len(),
        total == 0 ==> forall|k: Seq<char>|
            m.contains_key(k) ==> percentage_map(m, total)[k] == 0,
{
    if total > 0 {
        lemma_percentage_map_sum_bounds(m, total);
        let s = map_sum(percentage_map(m, total));
        let n = m.dom().len() as int;
        assert(s * total <= total * 10000);
        assert(s <= 10000) by {
            lemma_mul_inequality_converse(s, 10000, total);
        }
        assert(n >= 1) by {
            if m.dom().len() == 0 {
                assert(map_sum(m) == 0);
            }
        }
        assert(s * total >= total * 10000 - n * total + n);
        assert(s > 10000 - n) by {
            if s <= 10000 - n {
                lemma_mul_inequality(s, 10000 - n, total);
                lemma_mul_is_distributive_sub_other_way(total, 10000, n);
            }
        }
    }
}

/// One row of a per-subdirectory or grand-total listing: a category, its
/// count, and its share of the tally's total in basis points.
pub struct CategoryStat {
    pub category: String,
    pub count: u64,
    pub percentage_points: u64,
}

/// The per-category statistics of one tally: every category present,
/// each exactly once, with its count and its share of the tally's total.
pub fn listing(m: &CountMap) -> (r: Vec<CategoryStat>)
    requires
        m.wf(),
    ensures
        r@.len() == m@.dom().len(),
        forall|i: int|
            0 <= i < r@.len() ==> {
                let st = #[trigger] r@[i];
                &&& m@.contains_key(st.category@)
                &&& st.count as int == m@[st.category@]
                &&& st.percentage_points as int == spec_percentage(m@[st.category@], map_sum(m@))
            },
        forall|k: Seq<char>|
            m@.contains_key(k) ==> exists|i: int|
                0 <= i < r@.len() && #[trigger] r@[i].category@ == k,
        forall|i: int, j: int| 0 <= i < j < r@.len() ==> r@[i].category@ != r@[j].category@,
{
    let cats = m.categories();
    let total = m.total();
    let n = cats.len();
    let mut r: Vec<CategoryStat> = Vec::new();
    for i in 0..n
        invariant
            n == cats@.len(),
            m.wf(),
            total as int == map_sum(m@),
            r@.len() == i,
            forall|j: int| 0 <= j < n ==> m@.contains_key(#[trigger] cats@[j]@),
            forall|j: int| 0 <= j < i ==> #[trigger] r@[j].category@ == cats@[j]@,
            forall|j: int|
                0 <= j < i ==> {
                    let st = #[trigger] r@[j];
                    &&& m@.contains_key(st.category@)
                    &&& st.count as int == m@[st.category@]
                    &&& st.percentage_points as int == spec_percentage(
                        m@[st.category@],
                        map_sum(m@),
                    )
                },
    {
        let c: &String = &cats[i];
        let count = m.get(c.as_str());
        proof {
            m.lemma_wf_facts();
            lemma_count_le_map_sum(m@, c@);
        }
        let points = percentage_points(count, total);
        r.push(CategoryStat { category: c.clone(), count, percentage_points: points });
    }
    proof {
        assert forall|k: Seq<char>| m@.contains_key(k) implies exists|i: int|
            0 <= i < r@.len() && #[trigger] r@[i].category@ == k by {
            let i = choose|i: int| 0 <= i < cats@.len() && #[trigger] cats@[i]@ == k;
            assert(r@[i].category@ == k);
        }
    }
    r
}

/// Whether a subdirectory name is one of the corpus partitions shown as
/// a pivot-table column. Other subdirectories still count toward the
/// grand total and the plain listings.
pub open spec fn spec_recognized(name: Seq<char>) -> bool {
    ||| name == "rustc"@
    ||| name == "cratesio"@
    ||| name == "librs"@
}

pub fn recognized_partition(name: &str) -> (r: bool)
    ensures
        r == spec_recognized(name@),
{
    str_eq(name, "rustc") || str_eq(name, "cratesio") || str_eq(name, "librs")
}

/// The fixed set of category rows of the pivot table.
pub open spec fn spec_pivot_categories() -> Seq<Seq<char>> {
    seq![
        "Number"@,
        "&T or &mut T"@,
        "Array"@,
        "Vec"@,
        "Enum"@,
        "Struct"@,
        "String"@,
    ]
}

/// The fixed category rows of the pivot table, in display order.
pub fn pivot_categories() -> (r: Vec<String>)
    ensures
        r@.len() == spec_pivot_categories().len(),
        forall|i: int|
            0 <= i < r@.len() ==> #[trigger] r@[i]@ == spec_pivot_categories()[i],
{
    let mut r: Vec<String> = Vec::new();
    r.push("Number".to_owned());
    r.push("&T or &mut T".to_owned());
    r.push("Array".to_owned());
    r.push("Vec".to_owned());
    r.push("Enum".to_owned());
    r.push("Struct".to_owned());
    r.push("String".to_owned());
    r
}

/// The subdirectories shown as pivot columns: the indices, in processing
/// order, of those whose name is a recognized partition.
pub open spec fn selected(s: Seq<SubdirResult>) -> Seq<int>
    decreases s.len(),
{
    if s.len() == 0 {
        Seq::empty()
    } else {
        let prev = selected(s.drop_last());
        if spec_recognized(s.last().name@) {
            prev.push(s.len() - 1)
        } else {
            prev
        }
    }
}

proof fn lemma_selected_bounds(s: Seq<SubdirResult>)
    ensures
        forall|c: int| 0 <= c < selected(s).len() ==> 0 <= #[trigger] selected(s)[c] < s.len(),
        selected(s).len() <= s.len(),
    decreases s.len(),
{
    if s.len() > 0 {
        lemma_selected_bounds(s.drop_last());
    }
}

/// One pivot-table cell: a count and its share of the column's total in
/// basis points.
pub struct PivotCell {
    pub count: u64,
    pub percentage_points: u64,
}

/// One pivot-table row: a category and one cell per column.
pub struct PivotRow {
    pub category: String,
    pub cells: Vec<PivotCell>,
}

/// The pivot table: recognized partitions as columns, the fixed
/// categories as rows.
pub struct PivotTable {
    pub columns: Vec<String>,
    pub rows: Vec<PivotRow>,
}

/// What one pivot cell must hold: the count that the chosen
/// subdirectory's tally assigns to the row's category (0 when absent),
/// and that count's share of the subdirectory's own total.
pub open spec fn cell_ok(cell: PivotCell, sub: SubdirResult, category: Seq<char>) -> bool {
    &&& cell.count as int == count_of(sub.state.counts@, category)
    &&& cell.percentage_points as int == spec_percentage(
        count_of(sub.state.counts@, category),
        map_sum(sub.state.counts@),
    )
}

/// Builds the pivot table over the finished subdirectories: one column
/// per recognized partition (in processing order), one row per fixed
/// category, each cell the count and basis-point share within that
/// column's subdirectory. Unrecognized subdirectories are excluded here
/// though they still count toward the grand total.
pub fn pivot_table(subs: &Vec<SubdirResult>) -> (r: PivotTable)
    requires
        subdirs_wf(subs@),
    ensures
        r.columns@.len() == selected(subs@).len(),
        forall|c: int|
            0 <= c < r.columns@.len() ==> #[trigger] r.columns@[c]@ == subs@[selected(
                subs@,
            )[c]].name@,
        r.rows@.len() == spec_pivot_categories().len(),
        forall|i: int|
            0 <= i < r.rows@.len() ==> (#[trigger] r.rows@[i]).category@
                == spec_pivot_categories()[i],
        forall|i: int|
            0 <= i < r.rows@.len() ==> (#[trigger] r.rows@[i]).cells@.len() == selected(
                subs@,
            ).len(),
        forall|i: int, c: int|
            0 <= i < r.rows@.len() && 0 <= c < selected(subs@).len() ==> cell_ok(
                #[trigger] r.rows@[i].cells@[c],
                subs@[selected(subs@)[c]],
                spec_pivot_categories()[i],
            ),
{
    let n = subs.len();
    let mut columns: Vec<String> = Vec::new();
    let mut sel: Vec<usize> = Vec::new();
    proof {
        assert(subs@.take(0) =~= Seq::<SubdirResult>::empty());
    }
    for i in 0..n
        invariant
            n == subs@.len(),
            sel@.len() == selected(subs@.take(i as int)).len(),
            columns@.len() == sel@.len(),
            forall|c: int|
                0 <= c < sel@.len() ==> #[trigger] sel@[c] as int == selected(
                    subs@.take(i as int),
                )[c],
            forall|c: int| 0 <= c < sel@.len() ==> #[trigger] sel@[c] < i,
            forall|c: int|
                0 <= c < columns@.len() ==> #[trigger] columns@[c]@ == subs@[sel@[c] as int].name@,
    {
        proof {
            assert(subs@.take(i + 1).drop_last() =~= subs@.take(i as int));
            assert(subs@.take(i + 1).last() == subs@[i as int]);
        }
        if recognized_partition(subs[i].name.as_str()) {
            columns.push(subs[i].name.clone());
            sel.push(i);
        }
    }
    proof {
        assert(subs@.take(n as int) =~= subs@);
    }
    let cats = pivot_categories();
    let ncols = sel.len();
    let mut rows: Vec<PivotRow> = Vec::new();
    let ncats = cats.len();
    for ri in 0..ncats
        invariant
            ncats == cats@.len(),
            ncats == spec_pivot_categories().len(),
            ncols == sel@.len(),
            ncols == selected(subs@).len(),
            n == subs@.len(),
            subdirs_wf(subs@),
            forall|j: int|
                0 <= j < ncats ==> #[trigger] cats@[j]@ == spec_pivot_categories()[j],
            forall|c: int|
                0 <= c < sel@.len() ==> #[trigger] sel@[c] as int == selected(subs@)[c],
            forall|c: int| 0 <= c < sel@.len() ==> #[trigger] sel@[c] < n,
            rows@.len() == ri,
            forall|j: int|
                0 <= j < ri ==> (#[trigger] rows@[j]).category@ == spec_pivot_categories()[j],
            forall|j: int| 0 <= j < ri ==> (#[trigger] rows@[j]).cells@.len() == ncols,
            forall|j: int, c: int|
                0 <= j < ri && 0 <= c < ncols ==> cell_ok(
                    #[trigger] rows@[j].cells@[c],
                    subs@[selected(subs@)[c]],
                    spec_pivot_categories()[j],
                ),
    {
        let category: &String = &cats[ri];
        let mut cells: Vec<PivotCell> = Vec::new();
        for c in 0..ncols
            invariant
                ncols == sel@.len(),
                ncols == selected(subs@).len(),
                n == subs@.len(),
                subdirs_wf(subs@),
                category@ == spec_pivot_categories()[ri as int],
                ri < ncats,
                forall|k: int|
                    0 <= k < sel@.len() ==> #[trigger] sel@[k] as int == selected(subs@)[k],
                forall|k: int| 0 <= k < sel@.len() ==> #[trigger] sel@[k] < n,
                cells@.len() == c,
                forall|k: int|
                    0 <= k < c ==> cell_ok(
                        #[trigger] cells@[k],
                        subs@[selected(subs@)[k]],
                        spec_pivot_categories()[ri as int],
                    ),
        {
            let j = sel[c];
            let sub = &subs[j];
            let count = sub.state.counts.get(category.as_str());
            let total = sub.state.counts.total();
            proof {
                sub.state.counts.lemma_wf_facts();
                if sub.state.counts@.contains_key(category@) {
                    lemma_count_le_map_sum(sub.state.counts@, category@);
                } else {
                    crate::counts::lemma_map_sum_nonneg(sub.state.counts@);
                }
            }
            let points = percentage_points(count, total);
            cells.push(PivotCell { count, percentage_points: points });
        }
        rows.push(PivotRow { category: category.clone(), cells });
    }
    PivotTable { columns, rows }
}

} // verus!
