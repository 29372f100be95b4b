//! Journal file naming tests.

use rust_bridge::persistence::journal_file_name;

#[test]
fn journal_file_name_format() {
    let name = journal_file_name(2026, 4, 7);
    assert_eq!(name, "tlm-2026-04-07.jsonl");
}

#[test]
fn journal_file_name_matches_std_formatting() {
    for (y, m, d) in [(0, 1, 1), (7, 12, 31), (12345, 10, 5), (-5, 1, 2), (-12345, 3, 4), (i32::MIN, 0, 100)] {
        assert_eq!(journal_file_name(y, m, d), format!("tlm-{y:04}-{m:02}-{d:02}.jsonl"));
    }
    assert_eq!(journal_file_name(-5, 1, 2), "tlm--005-01-02.jsonl");
}
