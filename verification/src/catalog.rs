//! The pattern catalog: raw matcher definitions bound to semantic
//! category names, grouped into named profiles, and the classification of
//! raw patterns into categories.
//!
//! The catalog is pure configuration data and performs no I/O. The
//! classification of a raw pattern is a total, pure function over the
//! matchers of the two profiles: the same raw pattern always resolves to
//! the same category name, and a pattern outside the catalog fails with
//! `UnclassifiedPattern` rather than being silently dropped.

use crate::errors::CensusError;
use vstd::prelude::*;

verus! {

/// Executable string comparison, pinned to view equality.
pub fn str_eq(a: &str, b: &str) -> (r: bool)
    ensures
        r == (a@ == b@),
{
    let sa: String = a.to_owned();
    let sb: String = b.to_owned();
    sa == sb
}

/// The semantic category a raw pattern stands for, if the pattern is one
/// of the catalog's matchers. This mapping is what `create_key` computes.
pub open spec fn spec_classify(p: Seq<char>) -> Option<Seq<char>> {
    if p == r"\[(\s*\d+\s*(?:,\s*\d+\s*)*)\]"@ || p == r"type [a-zA-Z_]+ is array\(\d.."@ {
        Some("Array"@)
    } else if p == r"Box<[^<>]+>|Rc<[^<>]+>|Arc<[^<>]+>"@ {
        Some("Box/Rc/Arc"@)
    } else if p == r"&[mut\s]*\w+"@ {
        Some("&T or &mut T"@)
    } else if p == r"String::|.to_string|format!\("@ {
        Some("String"@)
    } else if p == r"vec!|Vec::new"@ {
        Some("Vec"@)
    } else if p == r"\b(?:\d+(?:\.\d+)?|\d+(?:_\d+)+)\b"@ || p
        == r"(:(\s*)(Integer|Float|Fixed|Decimal|Modular|Natural|Positive|Long|Short))|(range(\s*)(-)?\d+)|(is(\s*)digits)"@ {
        Some("Number"@)
    } else if p == "struct"@ {
        Some("Struct"@)
    } else if p == "enum"@ || p == r"type\s{1}[a-zA-Z_]+\s{1}is\s{1}\("@ {
        Some("Enum"@)
    } else if p == "is record"@ {
        Some("Record"@)
    } else if p == r"access|new"@ {
        Some("Access"@)
    } else if p == r"range <>|Containers.Vector"@ {
        Some("Unconstrained array"@)
    } else if p == r"Strings.Unbounded"@ {
        Some("Unbounded strings"@)
    } else {
        None
    }
}

/// Resolves a raw pattern to its semantic category name.
///
/// Classification is total over the matchers of the two profiles; for any
/// other pattern it fails with `UnclassifiedPattern`, carrying the
/// offending pattern, so that a catalog/classifier mismatch surfaces
/// instead of being swallowed.
pub fn create_key(pattern: &str) -> (r: Result<String, CensusError>)
    ensures
        match r {
            Ok(cat) => spec_classify(pattern@) == Some(cat@),
            Err(e) => {
                &&& spec_classify(pattern@) is None
                &&& e matches CensusError::UnclassifiedPattern(q) && q@ == pattern@
            },
        },
{
    if str_eq(pattern, r"\[(\s*\d+\s*(?:,\s*\d+\s*)*)\]") || str_eq(
        pattern,
        r"type [a-zA-Z_]+ is array\(\d..",
    ) {
        Ok("Array".to_owned())
    } else if str_eq(pattern, r"Box<[^<>]+>|Rc<[^<>]+>|Arc<[^<>]+>") {
        Ok("Box/Rc/Arc".to_owned())
    } else if str_eq(pattern, r"&[mut\s]*\w+") {
        Ok("&T or &mut T".to_owned())
    } else if str_eq(pattern, r"String::|.to_string|format!\(") {
        Ok("String".to_owned())
    } else if str_eq(pattern, r"vec!|Vec::new") {
        Ok("Vec".to_owned())
    } else if str_eq(pattern, r"\b(?:\d+(?:\.\d+)?|\d+(?:_\d+)+)\b") || str_eq(
        pattern,
        r"(:(\s*)(Integer|Float|Fixed|Decimal|Modular|Natural|Positive|Long|Short))|(range(\s*)(-)?\d+)|(is(\s*)digits)",
    ) {
        Ok("Number".to_owned())
    } else if str_eq(pattern, "struct") {
        Ok("Struct".to_owned())
    } else if str_eq(pattern, "enum") || str_eq(pattern, r"type\s{1}[a-zA-Z_]+\s{1}is\s{1}\(") {
        Ok("Enum".to_owned())
    } else if str_eq(pattern, "is record") {
        Ok("Record".to_owned())
    } else if str_eq(pattern, r"access|new") {
        Ok("Access".to_owned())
    } else if str_eq(pattern, r"range <>|Containers.Vector") {
        Ok("Unconstrained array".to_owned())
    } else if str_eq(pattern, r"Strings.Unbounded") {
        Ok("Unbounded strings".to_owned())
    } else {
        Err(CensusError::UnclassifiedPattern(pattern.to_owned()))
    }
}

/// A matcher definition: a raw pattern bound to one semantic category.
pub struct MatcherDef {
    pub pattern: String,
    pub category: String,
}

/// A matcher definition is consistent with the classifier.
pub open spec fn def_classified(d: MatcherDef) -> bool {
    spec_classify(d.pattern@) == Some(d.category@)
}

/// The matcher list of the primary (Rust) corpus profile.
pub open spec fn rust_defs(s: Seq<MatcherDef>) -> bool {
    &&& s.len() == 8
    &&& s[0].pattern@ == r"\b(?:\d+(?:\.\d+)?|\d+(?:_\d+)+)\b"@ && s[0].category@ == "Number"@
    &&& s[1].pattern@ == "struct"@ && s[1].category@ == "Struct"@
    &&& s[2].pattern@ == "enum"@ && s[2].category@ == "Enum"@
    &&& s[3].pattern@ == r"\[(\s*\d+\s*(?:,\s*\d+\s*)*)\]"@ && s[3].category@ == "Array"@
    &&& s[4].pattern@ == r"vec!|Vec::new"@ && s[4].category@ == "Vec"@
    &&& s[5].pattern@ == r"String::|.to_string|format!\("@ && s[5].category@ == "String"@
    &&& s[6].pattern@ == r"Box<[^<>]+>|Rc<[^<>]+>|Arc<[^<>]+>"@ && s[6].category@
        == "Box/Rc/Arc"@
    &&& s[7].pattern@ == r"&[mut\s]*\w+"@ && s[7].category@ == "&T or &mut T"@
}

/// The matcher list of the secondary (SPARK/Ada) corpus profile.
pub open spec fn spark_defs(s: Seq<MatcherDef>) -> bool {
    &&& s.len() == 7
    &&& s[0].pattern@
        == r"(:(\s*)(Integer|Float|Fixed|Decimal|Modular|Natural|Positive|Long|Short))|(range(\s*)(-)?\d+)|(is(\s*)digits)"@
        && s[0].category@ == "Number"@
    &&& s[1].pattern@ == "is record"@ && s[1].category@ == "Record"@
    &&& s[2].pattern@ == r"type\s{1}[a-zA-Z_]+\s{1}is\s{1}\("@ && s[2].category@ == "Enum"@
    &&& s[3].pattern@ == r"type [a-zA-Z_]+ is array\(\d.."@ && s[3].category@ == "Array"@
    &&& s[4].pattern@ == r"access|new"@ && s[4].category@ == "Access"@
    &&& s[5].pattern@ == r"range <>|Containers.Vector"@ && s[5].category@
        == "Unconstrained array"@
    &&& s[6].pattern@ == r"Strings.Unbounded"@ && s[6].category@ == "Unbounded strings"@
}

fn def(pattern: &str, category: &str) -> (r: MatcherDef)
    ensures
        r.pattern@ == pattern@,
        r.category@ == category@,
{
    MatcherDef { pattern: pattern.to_owned(), category: category.to_owned() }
}

/// The raw matchers of the primary (Rust) corpus profile: numeric
/// literals, structs, enums, array literals, growable vectors, strings,
/// heap-allocating smart pointers, and references.
pub fn rust_regexes() -> (r: Vec<MatcherDef>)
    ensures
        rust_defs(r@),
{
    let mut r: Vec<MatcherDef> = Vec::new();
    r.push(def(r"\b(?:\d+(?:\.\d+)?|\d+(?:_\d+)+)\b", "Number"));
    r.push(def("struct", "Struct"));
    r.push(def("enum", "Enum"));
    r.push(def(r"\[(\s*\d+\s*(?:,\s*\d+\s*)*)\]", "Array"));
    r.push(def(r"vec!|Vec::new", "Vec"));
    r.push(def(r"String::|.to_string|format!\(", "String"));
    r.push(def(r"Box<[^<>]+>|Rc<[^<>]+>|Arc<[^<>]+>", "Box/Rc/Arc"));
    r.push(def(r"&[mut\s]*\w+", "&T or &mut T"));
    r
}

/// The raw matchers of the secondary (SPARK/Ada) corpus profile: numeric
/// type marks and ranges, records, enumeration types, constrained arrays,
/// access types and allocators, unconstrained arrays and vectors, and
/// unbounded strings.
pub fn spark_regexes() -> (r: Vec<MatcherDef>)
    ensures
        spark_defs(r@),
{
    let mut r: Vec<MatcherDef> = Vec::new();
    r.push(
        def(
            r"(:(\s*)(Integer|Float|Fixed|Decimal|Modular|Natural|Positive|Long|Short))|(range(\s*)(-)?\d+)|(is(\s*)digits)",
            "Number",
        ),
    );
    r.push(def("is record", "Record"));
    r.push(def(r"type\s{1}[a-zA-Z_]+\s{1}is\s{1}\(", "Enum"));
    r.push(def(r"type [a-zA-Z_]+ is array\(\d..", "Array"));
    r.push(def(r"access|new", "Access"));
    r.push(def(r"range <>|Containers.Vector", "Unconstrained array"));
    r.push(def(r"Strings.Unbounded", "Unbounded strings"));
    r
}

proof fn lemma_patterns_distinct()
    ensures
        r"\b(?:\d+(?:\.\d+)?|\d+(?:_\d+)+)\b"@.len() == 34,
        "struct"@.len() == 6,
        "enum"@.len() == 4,
        r"\[(\s*\d+\s*(?:,\s*\d+\s*)*)\]"@.len() == 30,
        r"vec!|Vec::new"@.len() == 13,
        r"String::|.to_string|format!\("@.len() == 29,
        r"Box<[^<>]+>|Rc<[^<>]+>|Arc<[^<>]+>"@.len() == 34,
        r"&[mut\s]*\w+"@.len() == 12,
        r"(:(\s*)(Integer|Float|Fixed|Decimal|Modular|Natural|Positive|Long|Short))|(range(\s*)(-)?\d+)|(is(\s*)digits)"@.len()
            == 109,
        "is record"@.len() == 9,
        r"type\s{1}[a-zA-Z_]+\s{1}is\s{1}\("@.len() == 33,
        r"type [a-zA-Z_]+ is array\(\d.."@.len() == 30,
        r"access|new"@.len() == 10,
        r"range <>|Containers.Vector"@.len() == 26,
        r"Strings.Unbounded"@.len() == 17,
        r"\b(?:\d+(?:\.\d+)?|\d+(?:_\d+)+)\b"@ != r"Box<[^<>]+>|Rc<[^<>]+>|Arc<[^<>]+>"@,
        r"\[(\s*\d+\s*(?:,\s*\d+\s*)*)\]"@ != r"type [a-zA-Z_]+ is array\(\d.."@,
{
    reveal_strlit(r"\b(?:\d+(?:\.\d+)?|\d+(?:_\d+)+)\b");
    reveal_strlit("struct");
    reveal_strlit("enum");
    reveal_strlit(r"\[(\s*\d+\s*(?:,\s*\d+\s*)*)\]");
    reveal_strlit(r"vec!|Vec::new");
    reveal_strlit(r"String::|.to_string|format!\(");
    reveal_strlit(r"Box<[^<>]+>|Rc<[^<>]+>|Arc<[^<>]+>");
    reveal_strlit(r"&[mut\s]*\w+");
    reveal_strlit(
        r"(:(\s*)(Integer|Float|Fixed|Decimal|Modular|Natural|Positive|Long|Short))|(range(\s*)(-)?\d+)|(is(\s*)digits)",
    );
    reveal_strlit("is record");
    reveal_strlit(r"type\s{1}[a-zA-Z_]+\s{1}is\s{1}\(");
    reveal_strlit(r"type [a-zA-Z_]+ is array\(\d..");
    reveal_strlit(r"access|new");
    reveal_strlit(r"range <>|Containers.Vector");
    reveal_strlit(r"Strings.Unbounded");
    assert(r"\b(?:\d+(?:\.\d+)?|\d+(?:_\d+)+)\b"@[0] != r"Box<[^<>]+>|Rc<[^<>]+>|Arc<[^<>]+>"@[0]);
    assert(r"\[(\s*\d+\s*(?:,\s*\d+\s*)*)\]"@[0] != r"type [a-zA-Z_]+ is array\(\d.."@[0]);
}

/// Classification is total over the primary profile's catalog: every
/// matcher the scanner can encounter there resolves to its category.
pub proof fn lemma_rust_catalog_classified(s: Seq<MatcherDef>)
    requires
        rust_defs(s),
    ensures
        forall|i: int| 0 <= i < s.len() ==> def_classified(#[trigger] s[i]),
{
    lemma_patterns_distinct();
}

/// Classification is total over the secondary profile's catalog: every
/// matcher the scanner can encounter there resolves to its category.
pub proof fn lemma_spark_catalog_classified(s: Seq<MatcherDef>)
    requires
        spark_defs(s),
    ensures
        forall|i: int| 0 <= i < s.len() ==> def_classified(#[trigger] s[i]),
{
    lemma_patterns_distinct();
}

/// A profile: the corpus root path and the matcher catalog selected for
/// one run.
pub struct Profile {
    pub root: String,
    pub matchers: Vec<MatcherDef>,
}

/// Looks the selector string up in the catalog of profiles.
///
/// Exactly the selectors `rust` and `spark` are recognized; any other
/// selector fails with `UnknownProfile` before any traversal can start.
pub fn select_profile(selector: &str) -> (r: Result<Profile, CensusError>)
    ensures
        selector@ == "rust"@ ==> (r matches Ok(p) && p.root@ == "../famous_crates/rust"@
            && rust_defs(p.matchers@)),
        selector@ == "spark"@ ==> (r matches Ok(p) && p.root@ == "../famous_crates/ada"@
            && spark_defs(p.matchers@)),
        selector@ != "rust"@ && selector@ != "spark"@ ==> (r matches Err(e) && e
            is UnknownProfile),
{
    proof {
        reveal_strlit("rust");
        reveal_strlit("spark");
        assert("rust"@.len() == 4);
        assert("spark"@.len() == 5);
    }
    if str_eq(selector, "rust") {
        Ok(Profile { root: "../famous_crates/rust".to_owned(), matchers: rust_regexes() })
    } else if str_eq(selector, "spark") {
        Ok(Profile { root: "../famous_crates/ada".to_owned(), matchers: spark_regexes() })
    } else {
        Err(CensusError::UnknownProfile)
    }
}

} // verus!
