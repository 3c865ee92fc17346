use integration_aggressor::path::TestPath;
use integration_aggressor::stats::{StatsTable, TestStats, MAX_DURATION};

fn table(paths: &[&str]) -> StatsTable {
    let tests: Vec<TestPath> = paths.iter().map(|p| TestPath::of(p.to_string())).collect();
    StatsTable::new(&tests)
}

fn paths(table: &StatsTable) -> Vec<&str> {
    table.rows.iter().map(|row| row.test.path.as_str()).collect()
}

#[test]
fn rows_are_ordered_and_none_is_double() {
    let t = table(&["/b", "/a", "/c", "/a"]);
    assert_eq!(paths(&t), vec!["/a", "/b", "/c"]);
    assert_eq!(t.len(), 3);
    assert!(t.rows.iter().all(|row| row.stats.attempts == 0));
    assert_eq!(table(&[]).len(), 0);
}

#[test]
fn rows_are_found_by_their_path() {
    let t = table(&["/b", "/a", "/c"]);
    assert_eq!(t.find("/a"), Some(0));
    assert_eq!(t.find("/c"), Some(2));
    assert_eq!(t.find("/d"), None);
    assert_eq!(t.find(""), None);
}

#[test]
fn a_run_counts_in_its_row() {
    let mut t = table(&["/a", "/b"]);
    assert!(t.record_run("/b", true, 5));
    assert!(t.record_run("/b", false, 7));
    assert_eq!(
        t.rows[1].stats,
        TestStats {
            attempts: 2,
            successes: 1,
            failures: 1,
            hangs: 0,
            total_duration: 12
        }
    );
    assert_eq!(t.rows[0].stats.attempts, 0);
}

#[test]
fn an_unknown_path_is_counted_nowhere() {
    let mut t = table(&["/a"]);
    assert!(!t.record_run("/b", true, 5));
    assert!(!t.record_hang("/b"));
    assert_eq!(t.rows[0].stats.attempts, 0);
    assert_eq!(t.rows[0].stats.hangs, 0);
}

#[test]
fn a_hang_counts_apart_from_runs() {
    let mut t = table(&["/a"]);
    assert!(t.record_hang("/a"));
    assert_eq!(t.rows[0].stats.hangs, 1);
    assert_eq!(t.rows[0].stats.attempts, 0);
}

#[test]
fn adding_a_row_again_sets_it_back() {
    let mut t = table(&["/a", "/b"]);
    t.record_run("/a", true, 5);
    t.add(&TestPath::of("/a".to_string()));
    t.add(&TestPath::of("/aa".to_string()));
    assert_eq!(paths(&t), vec!["/a", "/aa", "/b"]);
    assert_eq!(t.rows[0].stats.attempts, 0);
}

#[test]
fn run_times_have_a_limit() {
    let mut t = table(&["/a"]);
    assert!(t.can_record_run("/a", MAX_DURATION));
    assert!(!t.can_record_run("/a", MAX_DURATION + 1));
    t.record_run("/a", true, 1);
    assert!(!t.can_record_run("/a", MAX_DURATION));
    assert!(t.can_record_run("/a", MAX_DURATION - 1));
    assert!(t.can_record_run("/b", u128::MAX));
    assert_eq!(MAX_DURATION, std::time::Duration::MAX.as_nanos());
}
