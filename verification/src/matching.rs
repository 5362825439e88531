//! Compiled matchers: the bridge between the catalog's raw patterns and
//! the external regular-expression engine. The engine is a black box
//! here: given a matcher and a line of text it answers whether the line
//! matches, and that answer is a function of the pattern and the line
//! alone.

use crate::catalog::{create_key, spec_classify, MatcherDef};
use crate::errors::CensusError;
use vstd::prelude::*;

verus! {

#[verifier::external_type_specification]
#[verifier::external_body]
pub struct ExRegex(regex::Regex);

/// Whether the matching engine accepts a pattern: names the success of
/// `regex::Regex::new`, which depends on the pattern text alone.
pub uninterp spec fn valid_pattern(p: Seq<char>) -> bool;

/// The source pattern a compiled regex was built from: names the result
/// of `regex::Regex::as_str`.
pub uninterp spec fn regex_pattern(re: regex::Regex) -> Seq<char>;

/// Whether a pattern matches a line of text: names the result of
/// `regex::Regex::is_match`, a function of the regex's source pattern and
/// the line alone.
pub uninterp spec fn regex_matches(p: Seq<char>, line: Seq<char>) -> bool;

/// Relies on `regex::Regex::new`: with the default configuration,
/// compilation succeeds or fails according to the pattern text alone, and
/// the compiled regex keeps its source pattern (what
/// `regex::Regex::as_str` returns).
#[verifier::external_body]
fn regex_new(pattern: &str) -> (r: Option<regex::Regex>)
    ensures
        r is Some <==> valid_pattern(pattern@),
        r matches Some(re) ==> regex_pattern(re) == pattern@,
{
    regex::Regex::new(pattern).ok()
}

/// Relies on `regex::Regex::is_match`: whether a haystack matches is a
/// function of the regex's source pattern and the haystack alone.
#[verifier::external_body]
fn regex_is_match(re: &regex::Regex, line: &str) -> (r: bool)
    ensures
        r == regex_matches(regex_pattern(*re), line@),
{
    re.is_match(line)
}

/// A pattern the scanner can use: the engine accepts it and the
/// classifier resolves it to a category.
pub open spec fn matcher_ok(p: Seq<char>) -> bool {
    &&& valid_pattern(p)
    &&& spec_classify(p) is Some
}

/// The earliest matcher of `defs` that the scanner cannot use.
pub open spec fn first_failure_at(defs: Seq<MatcherDef>, i: int) -> bool {
    &&& 0 <= i < defs.len()
    &&& !matcher_ok(defs[i].pattern@)
    &&& forall|j: int| 0 <= j < i ==> matcher_ok(#[trigger] defs[j].pattern@)
}

/// Every matcher of a list is ready for scanning.
pub open spec fn matchers_wf(ms: Seq<CompiledMatcher>) -> bool {
    forall|i: int| 0 <= i < ms.len() ==> (#[trigger] ms[i]).wf()
}

/// A matcher ready for scanning: the compiled regex, its raw pattern, and
/// the semantic category the pattern resolves to.
pub struct CompiledMatcher {
    re: regex::Regex,
    pattern: String,
    category: String,
}

impl CompiledMatcher {
    /// The raw pattern this matcher was compiled from.
    pub closed spec fn spec_pattern(&self) -> Seq<char> {
        self.pattern@
    }

    /// The semantic category the pattern resolves to.
    pub closed spec fn spec_category(&self) -> Seq<char> {
        self.category@
    }

    /// The compiled regex really was built from `pattern`, and `category`
    /// really is the pattern's classification.
    pub closed spec fn wf(&self) -> bool {
        &&& regex_pattern(self.re) == self.pattern@
        &&& spec_classify(self.pattern@) == Some(self.category@)
    }

    pub fn pattern(&self) -> (r: &str)
        ensures
            r@ == self.spec_pattern(),
    {
        self.pattern.as_str()
    }

    pub fn category(&self) -> (r: &str)
        ensures
            r@ == self.spec_category(),
    {
        self.category.as_str()
    }

    /// Whether this matcher's pattern matches the line.
    pub fn is_match(&self, line: &str) -> (r: bool)
        requires
            self.wf(),
        ensures
            r == regex_matches(self.spec_pattern(), line@),
    {
        regex_is_match(&self.re, line)
    }
}

/// Compiles and classifies every matcher of a profile's catalog.
///
/// Fails with `InvalidPattern` on the first pattern the engine rejects,
/// and with `UnclassifiedPattern` on the first accepted pattern that
/// resolves to no category; both surface a catalog/implementation
/// mismatch before any scanning starts.
pub fn compile_matchers(defs: &Vec<MatcherDef>) -> (r: Result<
    Vec<CompiledMatcher>,
    CensusError,
>)
    ensures
        match r {
            Ok(ms) => {
                &&& ms@.len() == defs@.len()
                &&& matchers_wf(ms@)
                &&& forall|i: int|
                    0 <= i < ms@.len() ==> (#[trigger] ms@[i]).spec_pattern()
                        == defs@[i].pattern@
                &&& forall|i: int| 0 <= i < defs@.len() ==> matcher_ok(#[trigger] defs@[i].pattern@)
            },
            Err(e) => match e {
                CensusError::InvalidPattern(p) => exists|i: int|
                    #[trigger] first_failure_at(defs@, i) && defs@[i].pattern@ == p@
                        && !valid_pattern(p@),
                CensusError::UnclassifiedPattern(p) => exists|i: int|
                    #[trigger] first_failure_at(defs@, i) && defs@[i].pattern@ == p@
                        && valid_pattern(p@) && spec_classify(p@) is None,
                _ => false,
            },
        },
{
    let n = defs.len();
    let mut ms: Vec<CompiledMatcher> = Vec::new();
    for i in 0..n
        invariant
            n == defs@.len(),
            ms@.len() == i,
            forall|j: int| 0 <= j < i ==> (#[trigger] ms@[j]).wf(),
            forall|j: int|
                0 <= j < i ==> (#[trigger] ms@[j]).spec_pattern() == defs@[j].pattern@,
            forall|j: int| 0 <= j < i ==> matcher_ok(#[trigger] defs@[j].pattern@),
    {
        let p: &str = defs[i].pattern.as_str();
        let re = match regex_new(p) {
            Some(re) => re,
            None => {
                proof {
                    assert(first_failure_at(defs@, i as int));
                }
                return Err(CensusError::InvalidPattern(p.to_owned()));
            },
        };
        let category = match create_key(p) {
            Ok(c) => c,
            Err(_) => {
                proof {
                    assert(first_failure_at(defs@, i as int));
                }
                return Err(CensusError::UnclassifiedPattern(p.to_owned()));
            },
        };
        ms.push(CompiledMatcher { re, pattern: p.to_owned(), category });
    }
    Ok(ms)
}

} // verus!
