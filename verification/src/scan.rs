//! The file scanner and the per-directory/corpus aggregation: lines are
//! tallied against every matcher of the active profile, per-file results
//! are folded into the owning scope's tally, and per-subdirectory
//! tallies merge into the grand total.

use crate::counts::{
    bump, count_of, lemma_merge_all_push, lemma_merge_associative, lemma_merge_bump,
    lemma_merge_identity, merge_all, merge_maps, CountMap,
};
use crate::matching::{matchers_wf, regex_matches, CompiledMatcher};
use vstd::prelude::*;
use vstd::seq_lib::{commutative_foldr, lemma_fold_right_permutation};

verus! {

/// The views of a file's lines.
pub open spec fn lines_views(ls: Seq<String>) -> Seq<Seq<char>> {
    ls.map_values(|l: String| l@)
}

/// The tally one line contributes: for each matcher whose pattern
/// matches the line, one more count of that matcher's category. Matches
/// are independent: they neither exclude nor short-circuit each other.
pub open spec fn line_counts(ms: Seq<CompiledMatcher>, line: Seq<char>) -> Map<Seq<char>, int>
    decreases ms.len(),
{
    if ms.len() == 0 {
        Map::empty()
    } else {
        let prev = line_counts(ms.drop_last(), line);
        if regex_matches(ms.last().spec_pattern(), line) {
            bump(prev, ms.last().spec_category(), 1)
        } else {
            prev
        }
    }
}

/// The tally a whole file contributes: the merge of its lines' tallies.
pub open spec fn file_counts(ms: Seq<CompiledMatcher>, lines: Seq<Seq<char>>) -> Map<
    Seq<char>,
    int,
>
    decreases lines.len(),
{
    if lines.len() == 0 {
        Map::empty()
    } else {
        merge_maps(file_counts(ms, lines.drop_last()), line_counts(ms, lines.last()))
    }
}

/// How many matchers of `ms` match `line` and carry category `c`.
pub open spec fn category_matches(ms: Seq<CompiledMatcher>, line: Seq<char>, c: Seq<char>) -> int
    decreases ms.len(),
{
    if ms.len() == 0 {
        0
    } else {
        category_matches(ms.drop_last(), line, c) + if regex_matches(
            ms.last().spec_pattern(),
            line,
        ) && ms.last().spec_category() == c {
            1int
        } else {
            0int
        }
    }
}

/// One line's tally gives each category exactly as many counts as there
/// are matchers that match the line and carry that category. In
/// particular, a line matching three matchers of three distinct
/// categories raises each of the three counts by exactly 1.
pub proof fn lemma_line_counts_per_category(
    ms: Seq<CompiledMatcher>,
    line: Seq<char>,
    c: Seq<char>,
)
    ensures
        count_of(line_counts(ms, line), c) == category_matches(ms, line, c),
    decreases ms.len(),
{
    if ms.len() > 0 {
        lemma_line_counts_per_category(ms.drop_last(), line, c);
    }
}

proof fn lemma_file_counts_values(ms: Seq<CompiledMatcher>, lines: Seq<Seq<char>>)
    ensures
        file_counts(ms, lines).dom().finite(),
        forall|k: Seq<char>| count_of(#[trigger] file_counts(ms, lines), k) >= 0,
    decreases lines.len(),
{
    if lines.len() > 0 {
        lemma_file_counts_values(ms, lines.drop_last());
        lemma_line_counts_values(ms, lines.last());
        let a = file_counts(ms, lines.drop_last());
        let b = line_counts(ms, lines.last());
        let cur = file_counts(ms, lines);
        assert(cur == merge_maps(a, b));
        assert(cur.dom() =~= a.dom().union(b.dom()));
        assert(a.dom().union(b.dom()).finite());
        assert forall|k: Seq<char>| count_of(cur, k) >= 0 by {
            assert(count_of(a, k) >= 0);
            assert(count_of(b, k) >= 0);
        }
    }
}

proof fn lemma_line_counts_values(ms: Seq<CompiledMatcher>, line: Seq<char>)
    ensures
        line_counts(ms, line).dom().finite(),
        forall|k: Seq<char>| count_of(#[trigger] line_counts(ms, line), k) >= 0,
    decreases ms.len(),
{
    if ms.len() > 0 {
        lemma_line_counts_values(ms.drop_last(), line);
        let prev = line_counts(ms.drop_last(), line);
        let cur = line_counts(ms, line);
        if regex_matches(ms.last().spec_pattern(), line) {
            let c = ms.last().spec_category();
            assert(cur.dom() =~= prev.dom().insert(c));
            assert forall|k: Seq<char>| count_of(cur, k) >= 0 by {
                assert(count_of(prev, k) >= 0);
                assert(count_of(prev, c) >= 0);
            }
        }
    }
}

/// Re-scanning the same unchanged file with the same matcher list from
/// the same starting tally yields the identical tally: a scan's outcome
/// is a function of the matcher list, the file's lines, and the starting
/// tally alone.
pub proof fn lemma_rescan_identical(
    ms: Seq<CompiledMatcher>,
    lines: Seq<Seq<char>>,
    a: Map<Seq<char>, int>,
    b: Map<Seq<char>, int>,
)
    requires
        a == b,
    ensures
        merge_maps(a, file_counts(ms, lines)) == merge_maps(b, file_counts(ms, lines)),
{
}

impl CountMap {
    /// Evaluates every matcher of the list against one line and tallies
    /// each match under the matcher's category. A line matching several
    /// matchers is counted once per matching matcher; a line matching
    /// none leaves the tally unchanged.
    pub fn scan_line(&mut self, matchers: &Vec<CompiledMatcher>, line: &str)
        requires
            old(self).wf(),
            matchers_wf(matchers@),
            old(self).total_spec() + matchers@.len() <= u64::MAX,
        ensures
            final(self).wf(),
            final(self)@ == merge_maps(old(self)@, line_counts(matchers@, line@)),
            final(self).total_spec() <= old(self).total_spec() + matchers@.len(),
    {
        proof {
            lemma_merge_identity(old(self)@);
            assert(matchers@.take(0) =~= Seq::<CompiledMatcher>::empty());
        }
        let n = matchers.len();
        for j in 0..n
            invariant
                n == matchers@.len(),
                matchers_wf(matchers@),
                self.wf(),
                self@ == merge_maps(old(self)@, line_counts(matchers@.take(j as int), line@)),
                self.total_spec() <= old(self).total_spec() + j,
                old(self).total_spec() + matchers@.len() <= u64::MAX,
        {
            proof {
                assert(matchers@.take(j + 1).drop_last() =~= matchers@.take(j as int));
                assert(matchers@.take(j + 1).last() == matchers@[j as int]);
            }
            if matchers[j].is_match(line) {
                proof {
                    lemma_merge_bump(
                        old(self)@,
                        line_counts(matchers@.take(j as int), line@),
                        matchers@[j as int].spec_category(),
                        1,
                    );
                }
                let category: &str = matchers[j].category();
                self.increment(category);
            }
        }
        proof {
            assert(matchers@.take(n as int) =~= matchers@);
        }
    }
}

/// One scanning scope: the category tally, the file counter and the line
/// counter of a subdirectory (or of the grand total). Counters are only
/// ever raised during a scan, never reset or lowered.
pub struct ScanState {
    pub counts: CountMap,
    pub files: u64,
    pub lines: u64,
}

impl ScanState {
    pub open spec fn wf(&self) -> bool {
        self.counts.wf()
    }

    /// A fresh scope: the tally of a subtree with zero files is the
    /// empty mapping with zeroed counters.
    pub fn new() -> (r: ScanState)
        ensures
            r.wf(),
            r.counts@ == Map::<Seq<char>, int>::empty(),
            r.counts.total_spec() == 0,
            r.files == 0,
            r.lines == 0,
    {
        ScanState { counts: CountMap::new(), files: 0, lines: 0 }
    }

    /// Scans one file, handed to the scope as its sequence of lines, and
    /// folds the outcome in: the file counter grows by exactly one, the
    /// line counter by exactly the number of lines (once per line, no
    /// matter how many matchers the line matches), and the category
    /// tally absorbs the file's counts. No counter decreases.
    pub fn record_file(&mut self, matchers: &Vec<CompiledMatcher>, lines: &Vec<String>)
        requires
            old(self).wf(),
            matchers_wf(matchers@),
            old(self).files + 1 <= u64::MAX,
            old(self).lines + lines@.len() <= u64::MAX,
            old(self).counts.total_spec() + lines@.len() * matchers@.len() <= u64::MAX,
        ensures
            final(self).wf(),
            final(self).counts@ == merge_maps(
                old(self).counts@,
                file_counts(matchers@, lines_views(lines@)),
            ),
            final(self).files == old(self).files + 1,
            final(self).lines == old(self).lines + lines@.len(),
            final(self).counts.total_spec() <= old(self).counts.total_spec() + lines@.len()
                * matchers@.len(),
            forall|k: Seq<char>|
                count_of(final(self).counts@, k) >= count_of(old(self).counts@, k),
    {
        self.files = self.files + 1;
        let ghost lv = lines_views(lines@);
        proof {
            lemma_merge_identity(old(self).counts@);
            assert(lv.take(0) =~= Seq::<Seq<char>>::empty());
        }
        let n = lines.len();
        let ghost m = matchers@.len() as int;
        for i in 0..n
            invariant
                n == lines@.len(),
                lv == lines_views(lines@),
                m == matchers@.len(),
                matchers_wf(matchers@),
                self.wf(),
                self.files == old(self).files + 1,
                self.lines == old(self).lines + i,
                old(self).lines + lines@.len() <= u64::MAX,
                old(self).counts.total_spec() + lines@.len() * m <= u64::MAX,
                self.counts@ == merge_maps(
                    old(self).counts@,
                    file_counts(matchers@, lv.take(i as int)),
                ),
                self.counts.total_spec() <= old(self).counts.total_spec() + i * m,
        {
            self.lines = self.lines + 1;
            proof {
                assert(i * m + m == (i + 1) * m) by (nonlinear_arith);
                assert((i + 1) * m <= lines@.len() * m) by (nonlinear_arith)
                    requires
                        0 <= m,
                        i + 1 <= lines@.len(),
                ;
            }
            let line: &str = lines[i].as_str();
            let ghost pre = self.counts@;
            self.counts.scan_line(matchers, line);
            proof {
                assert(lv.take(i + 1).drop_last() =~= lv.take(i as int));
                assert(lv.take(i + 1).last() == lines@[i as int]@);
                lemma_merge_associative(
                    old(self).counts@,
                    file_counts(matchers@, lv.take(i as int)),
                    line_counts(matchers@, lines@[i as int]@),
                );
            }
        }
        proof {
            assert(lv.take(n as int) =~= lv);
            lemma_file_counts_values(matchers@, lv);
        }
    }
}


/// One finished subdirectory: its name and the tally of its subtree.
pub struct SubdirResult {
    pub name: String,
    pub state: ScanState,
}

pub open spec fn subdirs_wf(s: Seq<SubdirResult>) -> bool {
    forall|i: int| 0 <= i < s.len() ==> (#[trigger] s[i]).state.wf()
}

/// The per-subdirectory category-count mappings, in processing order.
pub open spec fn subdir_maps(s: Seq<SubdirResult>) -> Seq<Map<Seq<char>, int>> {
    s.map_values(|r: SubdirResult| r.state.counts@)
}

/// The sum of the per-subdirectory file counters.
pub open spec fn sum_files(s: Seq<SubdirResult>) -> int
    decreases s.len(),
{
    if s.len() == 0 {
        0
    } else {
        sum_files(s.drop_last()) + s.last().state.files
    }
}

/// The sum of the per-subdirectory line counters.
pub open spec fn sum_lines(s: Seq<SubdirResult>) -> int
    decreases s.len(),
{
    if s.len() == 0 {
        0
    } else {
        sum_lines(s.drop_last()) + s.last().state.lines
    }
}

/// The sum of the per-subdirectory tally totals.
pub open spec fn sum_counts(s: Seq<SubdirResult>) -> int
    decreases s.len(),
{
    if s.len() == 0 {
        0
    } else {
        sum_counts(s.drop_last()) + s.last().state.counts.total_spec()
    }
}

proof fn lemma_sums_take(s: Seq<SubdirResult>, j: int)
    requires
        subdirs_wf(s),
        0 <= j <= s.len(),
    ensures
        sum_files(s.take(j)) <= sum_files(s),
        sum_lines(s.take(j)) <= sum_lines(s),
        sum_counts(s.take(j)) <= sum_counts(s),
    decreases s.len(),
{
    if j == s.len() {
        assert(s.take(j) =~= s);
    } else {
        assert(s.drop_last().take(j) =~= s.take(j));
        assert(subdirs_wf(s.drop_last())) by {
            assert(forall|i: int|
                0 <= i < s.drop_last().len() ==> #[trigger] s.drop_last()[i] == s[i]);
        }
        lemma_sums_take(s.drop_last(), j);
        s.last().state.counts.lemma_wf_facts();
    }
}

/// Merges every subdirectory's tally and counters into the grand total,
/// or reports that a sum does not fit the machine word.
///
/// The grand total is the fold of the per-subdirectory mappings under the
/// merge; by the merge's commutativity and associativity it does not
/// depend on the order in which the subdirectories were processed.
pub fn grand_total_checked(subs: &Vec<SubdirResult>) -> (r: Option<ScanState>)
    requires
        subdirs_wf(subs@),
    ensures
        r is Some <==> (sum_files(subs@) <= u64::MAX && sum_lines(subs@) <= u64::MAX
            && sum_counts(subs@) <= u64::MAX),
        r matches Some(g) ==> {
            &&& g.wf()
            &&& g.counts@ == merge_all(subdir_maps(subs@))
            &&& g.files == sum_files(subs@)
            &&& g.lines == sum_lines(subs@)
            &&& g.counts.total_spec() == sum_counts(subs@)
        },
{
    let mut g = ScanState::new();
    let n = subs.len();
    proof {
        assert(subs@.take(0) =~= Seq::<SubdirResult>::empty());
        assert(subdir_maps(subs@.take(0)) =~= Seq::<Map<Seq<char>, int>>::empty());
    }
    for i in 0..n
        invariant
            n == subs@.len(),
            subdirs_wf(subs@),
            g.wf(),
            g.counts@ == merge_all(subdir_maps(subs@.take(i as int))),
            g.files == sum_files(subs@.take(i as int)),
            g.lines == sum_lines(subs@.take(i as int)),
            g.counts.total_spec() == sum_counts(subs@.take(i as int)),
    {
        proof {
            assert(subs@.take(i + 1).drop_last() =~= subs@.take(i as int));
            assert(subs@.take(i + 1).last() == subs@[i as int]);
        }
        let files2 = match g.files.checked_add(subs[i].state.files) {
            Some(v) => v,
            None => {
                proof {
                    lemma_sums_take(subs@, i + 1);
                }
                return None;
            },
        };
        let lines2 = match g.lines.checked_add(subs[i].state.lines) {
            Some(v) => v,
            None => {
                proof {
                    lemma_sums_take(subs@, i + 1);
                }
                return None;
            },
        };
        let t = g.counts.total();
        let st = subs[i].state.counts.total();
        if t.checked_add(st).is_none() {
            proof {
                lemma_sums_take(subs@, i + 1);
            }
            return None;
        }
        g.counts.merge_from(&subs[i].state.counts);
        g.files = files2;
        g.lines = lines2;
        proof {
            assert(subdir_maps(subs@.take(i + 1)) =~= subdir_maps(subs@.take(i as int)).push(
                subs@[i as int].state.counts@,
            ));
            lemma_merge_all_push(subdir_maps(subs@.take(i as int)), subs@[i as int].state.counts@);
        }
    }
    proof {
        assert(subs@.take(n as int) =~= subs@);
        g.counts.lemma_wf_facts();
    }
    Some(g)
}


spec fn files_fn() -> spec_fn(SubdirResult, int) -> int {
    |r: SubdirResult, acc: int| acc + r.state.files
}

spec fn lines_fn() -> spec_fn(SubdirResult, int) -> int {
    |r: SubdirResult, acc: int| acc + r.state.lines
}

spec fn counts_fn() -> spec_fn(SubdirResult, int) -> int {
    |r: SubdirResult, acc: int| acc + r.state.counts.total_spec()
}

proof fn lemma_sums_are_folds(s: Seq<SubdirResult>, b: int)
    ensures
        s.fold_right(files_fn(), b) == sum_files(s) + b,
        s.fold_right(lines_fn(), b) == sum_lines(s) + b,
        s.fold_right(counts_fn(), b) == sum_counts(s) + b,
    decreases s.len(),
{
    if s.len() > 0 {
        lemma_sums_are_folds(s.drop_last(), files_fn()(s.last(), b));
        lemma_sums_are_folds(s.drop_last(), lines_fn()(s.last(), b));
        lemma_sums_are_folds(s.drop_last(), counts_fn()(s.last(), b));
    }
}

/// The grand-total counters do not depend on the order in which the
/// subdirectories were processed either: any two orders of the same
/// collection of subdirectory results sum to the same file count, line
/// count, and tally total.
pub proof fn lemma_sums_order_independent(l1: Seq<SubdirResult>, l2: Seq<SubdirResult>)
    requires
        l1.to_multiset() == l2.to_multiset(),
    ensures
        sum_files(l1) == sum_files(l2),
        sum_lines(l1) == sum_lines(l2),
        sum_counts(l1) == sum_counts(l2),
{
    assert(commutative_foldr(files_fn()));
    assert(commutative_foldr(lines_fn()));
    assert(commutative_foldr(counts_fn()));
    lemma_fold_right_permutation(l1, l2, files_fn(), 0int);
    lemma_fold_right_permutation(l1, l2, lines_fn(), 0int);
    lemma_fold_right_permutation(l1, l2, counts_fn(), 0int);
    lemma_sums_are_folds(l1, 0int);
    lemma_sums_are_folds(l2, 0int);
}

} // verus!
