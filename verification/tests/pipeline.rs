//! End-to-end pipeline tests: profile selection, classification,
//! matcher compilation, scanning, and aggregation.

use pattern_census::catalog::{create_key, rust_regexes, select_profile, spark_regexes, MatcherDef};
use pattern_census::errors::CensusError;
use pattern_census::matching::compile_matchers;
use pattern_census::scan::{ScanState, SubdirResult};

fn lines(ls: &[&str]) -> Vec<String> {
    ls.iter().map(|l| l.to_string()).collect()
}

#[test]
fn unknown_selector_reports_unknown_profile() {
    // The catalog lookup is pure configuration: an unrecognized selector
    // fails before any filesystem access could happen.
    match select_profile("python") {
        Err(CensusError::UnknownProfile) => {}
        _ => panic!("expected UnknownProfile"),
    }
    match select_profile("") {
        Err(CensusError::UnknownProfile) => {}
        _ => panic!("expected UnknownProfile"),
    }
}

#[test]
fn recognized_selectors_yield_profiles() {
    let rust = match select_profile("rust") {
        Ok(p) => p,
        Err(_) => panic!("rust profile missing"),
    };
    assert_eq!(rust.root, "../famous_crates/rust");
    assert_eq!(rust.matchers.len(), 8);
    assert_eq!(rust.matchers[0].category, "Number");
    assert_eq!(rust.matchers[1].pattern, "struct");
    assert_eq!(rust.matchers[1].category, "Struct");

    let spark = match select_profile("spark") {
        Ok(p) => p,
        Err(_) => panic!("spark profile missing"),
    };
    assert_eq!(spark.root, "../famous_crates/ada");
    assert_eq!(spark.matchers.len(), 7);
    assert_eq!(spark.matchers[1].pattern, "is record");
    assert_eq!(spark.matchers[1].category, "Record");
}

#[test]
fn classification_is_total_over_both_profiles() {
    // Every matcher either profile's scanner can encounter resolves to
    // its category, and resolves the same way each time it is asked.
    for def in rust_regexes().iter().chain(spark_regexes().iter()) {
        let first = match create_key(&def.pattern) {
            Ok(c) => c,
            Err(_) => panic!("catalog pattern failed to classify"),
        };
        let second = match create_key(&def.pattern) {
            Ok(c) => c,
            Err(_) => panic!("catalog pattern failed to classify"),
        };
        assert_eq!(first, def.category);
        assert_eq!(second, def.category);
    }
}

#[test]
fn classification_rejects_unknown_pattern() {
    match create_key("foo") {
        Err(CensusError::UnclassifiedPattern(p)) => assert_eq!(p, "foo"),
        _ => panic!("expected UnclassifiedPattern"),
    }
}

#[test]
fn compile_rejects_invalid_pattern() {
    let defs = vec![MatcherDef { pattern: "foo(".to_string(), category: "X".to_string() }];
    match compile_matchers(&defs) {
        Err(CensusError::InvalidPattern(p)) => assert_eq!(p, "foo("),
        _ => panic!("expected InvalidPattern"),
    }
}

#[test]
fn compile_rejects_unclassified_pattern() {
    let defs = vec![MatcherDef { pattern: "foo".to_string(), category: "X".to_string() }];
    match compile_matchers(&defs) {
        Err(CensusError::UnclassifiedPattern(p)) => assert_eq!(p, "foo"),
        _ => panic!("expected UnclassifiedPattern"),
    }
}

#[test]
fn error_labels_name_each_variant() {
    assert_eq!(CensusError::UnknownProfile.label(), "unknown profile");
    assert_eq!(CensusError::UnclassifiedPattern("p".to_string()).label(), "unclassified pattern");
    assert_eq!(CensusError::InvalidPattern("p".to_string()).label(), "invalid pattern");
    assert_eq!(CensusError::DirectoryReadError("d".to_string()).label(), "directory read error");
    assert_eq!(CensusError::FileReadError("f".to_string()).label(), "file read error");
}

#[test]
fn scenario_single_number_line() {
    // One subdirectory, one file, one line `let x: i32 = 42;`: the
    // number matcher fires, nothing else does.
    let profile = match select_profile("rust") {
        Ok(p) => p,
        Err(_) => panic!("profile"),
    };
    let matchers = match compile_matchers(&profile.matchers) {
        Ok(ms) => ms,
        Err(_) => panic!("catalog failed to compile"),
    };
    let mut state = ScanState::new();
    state.record_file(&matchers, &lines(&["let x: i32 = 42;"]));
    assert_eq!(state.files, 1);
    assert_eq!(state.lines, 1);
    assert_eq!(state.counts.get("Number"), 1);
    assert_eq!(state.counts.total(), 1);
    assert_eq!(state.counts.len(), 1);
}

#[test]
fn scenario_grand_total_independent_of_order() {
    // Two subdirectories with one matching `Struct` line each: the grand
    // total reports Struct: 2, 2 files, 2 lines, whichever subdirectory
    // is aggregated first.
    let profile = match select_profile("rust") {
        Ok(p) => p,
        Err(_) => panic!("profile"),
    };
    let matchers = match compile_matchers(&profile.matchers) {
        Ok(ms) => ms,
        Err(_) => panic!("compile"),
    };
    let build = |name: &str| {
        let mut state = ScanState::new();
        state.record_file(&matchers, &lines(&["struct Foo;"]));
        SubdirResult { name: name.to_string(), state }
    };
    let forward = vec![build("alpha"), build("beta")];
    let backward = vec![build("beta"), build("alpha")];
    let g1 = match pattern_census::scan::grand_total_checked(&forward) {
        Some(g) => g,
        None => panic!("overflow"),
    };
    let g2 = match pattern_census::scan::grand_total_checked(&backward) {
        Some(g) => g,
        None => panic!("overflow"),
    };
    for g in [&g1, &g2] {
        assert_eq!(g.files, 2);
        assert_eq!(g.lines, 2);
        assert_eq!(g.counts.get("Struct"), 2);
        assert_eq!(g.counts.total(), 2);
    }
    assert_eq!(g1.counts.get("Struct"), g2.counts.get("Struct"));
    assert_eq!(g1.counts.len(), g2.counts.len());
}

#[test]
fn multi_match_line_counts_each_category_once() {
    // A line matching three distinct categories raises all three counts
    // by exactly 1, and the line counter by exactly 1, not 3.
    let profile = match select_profile("rust") {
        Ok(p) => p,
        Err(_) => panic!("profile"),
    };
    let matchers = match compile_matchers(&profile.matchers) {
        Ok(ms) => ms,
        Err(_) => panic!("compile"),
    };
    let mut state = ScanState::new();
    state.record_file(&matchers, &lines(&["struct enum 42"]));
    assert_eq!(state.lines, 1);
    assert_eq!(state.counts.get("Struct"), 1);
    assert_eq!(state.counts.get("Enum"), 1);
    assert_eq!(state.counts.get("Number"), 1);
    assert_eq!(state.counts.total(), 3);
}

#[test]
fn rescanning_the_same_file_gives_identical_counts() {
    let profile = match select_profile("rust") {
        Ok(p) => p,
        Err(_) => panic!("profile"),
    };
    let matchers = match compile_matchers(&profile.matchers) {
        Ok(ms) => ms,
        Err(_) => panic!("compile"),
    };
    let file = lines(&["struct Foo;", "let v = vec![1, 2];", "fn f(x: &mut u8) {}"]);
    let mut a = ScanState::new();
    let mut b = ScanState::new();
    a.record_file(&matchers, &file);
    b.record_file(&matchers, &file);
    assert_eq!(a.files, b.files);
    assert_eq!(a.lines, b.lines);
    assert_eq!(a.counts.total(), b.counts.total());
    for c in a.counts.categories() {
        assert_eq!(a.counts.get(&c), b.counts.get(&c));
    }
    for c in b.counts.categories() {
        assert_eq!(a.counts.get(&c), b.counts.get(&c));
    }
}

#[test]
fn counters_never_decrease_and_zero_scope_is_empty() {
    // A fresh scope is zeroed; each recorded file only raises counters.
    let profile = match select_profile("rust") {
        Ok(p) => p,
        Err(_) => panic!("profile"),
    };
    let matchers = match compile_matchers(&profile.matchers) {
        Ok(ms) => ms,
        Err(_) => panic!("compile"),
    };
    let mut state = ScanState::new();
    assert_eq!(state.files, 0);
    assert_eq!(state.lines, 0);
    assert_eq!(state.counts.total(), 0);
    assert_eq!(state.counts.len(), 0);
    let mut last_files = 0;
    let mut last_lines = 0;
    let mut last_total = 0;
    for file in [lines(&["no match here"]), lines(&["struct A", "enum B"]), lines(&[])] {
        state.record_file(&matchers, &file);
        assert!(state.files > last_files);
        assert!(state.lines >= last_lines);
        assert!(state.counts.total() >= last_total);
        last_files = state.files;
        last_lines = state.lines;
        last_total = state.counts.total();
    }
    assert_eq!(state.files, 3);
    assert_eq!(state.lines, 3);
}

#[test]
fn failed_subdirectory_keeps_siblings_and_grand_total() {
    // A subdirectory whose walk failed contributes whatever it had
    // gathered (here: nothing); its siblings and the grand total still
    // complete.
    let profile = match select_profile("rust") {
        Ok(p) => p,
        Err(_) => panic!("profile"),
    };
    let matchers = match compile_matchers(&profile.matchers) {
        Ok(ms) => ms,
        Err(_) => panic!("compile"),
    };
    let unreadable = SubdirResult { name: "locked".to_string(), state: ScanState::new() };
    let mut ok_state = ScanState::new();
    ok_state.record_file(&matchers, &lines(&["enum Color { Red }"]));
    let readable = SubdirResult { name: "open".to_string(), state: ok_state };
    let g = match pattern_census::scan::grand_total_checked(&vec![unreadable, readable]) {
        Some(g) => g,
        None => panic!("overflow"),
    };
    assert_eq!(g.files, 1);
    assert_eq!(g.lines, 1);
    assert_eq!(g.counts.get("Enum"), 1);
}

#[test]
fn spark_profile_scans_ada_idioms() {
    let profile = match select_profile("spark") {
        Ok(p) => p,
        Err(_) => panic!("profile"),
    };
    let matchers = match compile_matchers(&profile.matchers) {
        Ok(ms) => ms,
        Err(_) => panic!("compile"),
    };
    let mut state = ScanState::new();
    state.record_file(
        &matchers,
        &lines(&["X : Integer := 0;", "type Point is record", "P : access Node;"]),
    );
    assert_eq!(state.lines, 3);
    assert_eq!(state.counts.get("Number"), 1);
    assert_eq!(state.counts.get("Record"), 1);
    assert_eq!(state.counts.get("Access"), 1);
}

#[test]
fn rust_profile_covers_every_category() {
    let profile = match select_profile("rust") {
        Ok(p) => p,
        Err(_) => panic!("profile"),
    };
    let matchers = match compile_matchers(&profile.matchers) {
        Ok(ms) => ms,
        Err(_) => panic!("compile"),
    };
    let mut state = ScanState::new();
    state.record_file(
        &matchers,
        &lines(&[
            "let b: Box<i32> = Box::new(5);",
            "fn f(x: &mut u8) {}",
            "let v = vec![1];",
            "let s = x.to_string();",
            "struct S;",
            "enum E {}",
        ]),
    );
    assert_eq!(state.lines, 6);
    assert_eq!(state.counts.get("Box/Rc/Arc"), 1);
    assert_eq!(state.counts.get("&T or &mut T"), 1);
    assert_eq!(state.counts.get("Vec"), 1);
    assert_eq!(state.counts.get("Array"), 1); // vec![1] also matches the array literal pattern
    assert_eq!(state.counts.get("String"), 1);
    assert_eq!(state.counts.get("Struct"), 1);
    assert_eq!(state.counts.get("Enum"), 1);
}

#[test]
fn spark_profile_covers_every_category() {
    let profile = match select_profile("spark") {
        Ok(p) => p,
        Err(_) => panic!("profile"),
    };
    let matchers = match compile_matchers(&profile.matchers) {
        Ok(ms) => ms,
        Err(_) => panic!("compile"),
    };
    let mut state = ScanState::new();
    state.record_file(
        &matchers,
        &lines(&[
            "type Color is (Red, Green);",
            "type Arr is array(1..10) of Float;",
            "V : Containers.Vector;",
            "use Ada.Strings.Unbounded;",
        ]),
    );
    assert_eq!(state.lines, 4);
    assert_eq!(state.counts.get("Enum"), 1);
    assert_eq!(state.counts.get("Array"), 1);
    assert_eq!(state.counts.get("Unconstrained array"), 1);
    assert_eq!(state.counts.get("Unbounded strings"), 1);
}
