//! Reporter tests: percentages, listings, and the pivot table.

use pattern_census::catalog::select_profile;
use pattern_census::counts::CountMap;
use pattern_census::matching::compile_matchers;
use pattern_census::report::{listing, percentage_points, pivot_table};
use pattern_census::scan::{ScanState, SubdirResult};

fn lines(ls: &[&str]) -> Vec<String> {
    ls.iter().map(|l| l.to_string()).collect()
}

#[test]
fn percentage_points_computes_basis_points() {
    assert_eq!(percentage_points(0, 0), 0);
    assert_eq!(percentage_points(0, 7), 0);
    assert_eq!(percentage_points(1, 1), 10000);
    assert_eq!(percentage_points(1, 3), 3333);
    assert_eq!(percentage_points(2, 3), 6666);
    assert_eq!(percentage_points(1, 2), 5000);
    assert_eq!(percentage_points(u64::MAX, u64::MAX), 10000);
}

#[test]
fn listing_reports_counts_and_shares() {
    let mut m = CountMap::new();
    m.add("Struct", 1);
    m.add("Number", 2);
    assert_eq!(m.total(), 3);
    let stats = listing(&m);
    assert_eq!(stats.len(), 2);
    let mut seen_struct = false;
    let mut seen_number = false;
    let mut share_sum = 0;
    for st in &stats {
        share_sum += st.percentage_points;
        if st.category == "Struct" {
            assert_eq!(st.count, 1);
            assert_eq!(st.percentage_points, 3333);
            seen_struct = true;
        } else if st.category == "Number" {
            assert_eq!(st.count, 2);
            assert_eq!(st.percentage_points, 6666);
            seen_number = true;
        } else {
            panic!("unexpected category");
        }
    }
    assert!(seen_struct && seen_number);
    // the shares add up to 100% within the rounding slack
    assert!(share_sum <= 10000 && share_sum > 10000 - stats.len() as u64);
}

#[test]
fn listing_of_empty_tally_is_empty() {
    let m = CountMap::new();
    assert_eq!(m.total(), 0);
    assert_eq!(listing(&m).len(), 0);
}

#[test]
fn merge_sums_counts_pointwise() {
    let mut a = CountMap::new();
    a.add("Array", 1);
    let mut b = CountMap::new();
    b.add("Array", 2);
    b.add("Vec", 1);
    a.merge_from(&b);
    assert_eq!(a.get("Array"), 3);
    assert_eq!(a.get("Vec"), 1);
    assert_eq!(a.get("String"), 0);
    assert_eq!(a.total(), 4);
    assert_eq!(a.len(), 2);
}

#[test]
fn increment_raises_one_category() {
    let mut m = CountMap::new();
    m.increment("String");
    m.increment("String");
    m.increment("Vec");
    assert_eq!(m.get("String"), 2);
    assert_eq!(m.get("Vec"), 1);
    assert_eq!(m.total(), 3);
}

#[test]
fn pivot_table_selects_recognized_partitions() {
    let profile = match select_profile("rust") {
        Ok(p) => p,
        Err(_) => panic!("profile"),
    };
    let matchers = match compile_matchers(&profile.matchers) {
        Ok(ms) => ms,
        Err(_) => panic!("compile"),
    };
    let mut rustc_state = ScanState::new();
    rustc_state.record_file(&matchers, &lines(&["struct A", "struct B {}"]));
    let mut docs_state = ScanState::new();
    docs_state.record_file(&matchers, &lines(&["enum E"]));
    let subs = vec![
        SubdirResult { name: "rustc".to_string(), state: rustc_state },
        SubdirResult { name: "docs".to_string(), state: docs_state },
        SubdirResult { name: "librs".to_string(), state: ScanState::new() },
    ];
    let table = pivot_table(&subs);
    // only the recognized partitions become columns, in processing order
    assert_eq!(table.columns, vec!["rustc".to_string(), "librs".to_string()]);
    assert_eq!(table.rows.len(), 7);
    let expected_rows =
        ["Number", "&T or &mut T", "Array", "Vec", "Enum", "Struct", "String"];
    for (row, want) in table.rows.iter().zip(expected_rows.iter()) {
        assert_eq!(row.category, *want);
        assert_eq!(row.cells.len(), 2);
    }
    // the Struct row: both struct lines in rustc, none in librs
    let struct_row = &table.rows[5];
    assert_eq!(struct_row.cells[0].count, 2);
    assert_eq!(struct_row.cells[0].percentage_points, 10000);
    assert_eq!(struct_row.cells[1].count, 0);
    // a column with a zero total reports 0, not an error
    assert_eq!(struct_row.cells[1].percentage_points, 0);
    // absent categories read as count 0 of the column's own total
    let vec_row = &table.rows[3];
    assert_eq!(vec_row.cells[0].count, 0);
    assert_eq!(vec_row.cells[0].percentage_points, 0);
}
