use std::collections::HashSet;

use tg_anti_spam::whitelist::{load_whitelist, AllowlistStore};

#[test]
fn loads_one_id_per_line() {
    let ids = load_whitelist("1\n2\n3\n");
    let expected: HashSet<i64> = [1, 2, 3].into_iter().collect();
    assert_eq!(ids, expected);
}

#[test]
fn empty_content_is_empty_set() {
    assert_eq!(load_whitelist(""), HashSet::new());
}

#[test]
fn tolerates_whitespace_around_ids() {
    let ids = load_whitelist("  123  \n\t456\t\n");
    let expected: HashSet<i64> = [123, 456].into_iter().collect();
    assert_eq!(ids, expected);
}

#[test]
fn skips_unparsable_lines() {
    let ids = load_whitelist("123\nnot a number\n\n456\n12x\n");
    let expected: HashSet<i64> = [123, 456].into_iter().collect();
    assert_eq!(ids, expected);
}

#[test]
fn duplicates_collapse_to_set() {
    let ids = load_whitelist("7\n7\n7\n8\n");
    let expected: HashSet<i64> = [7, 8].into_iter().collect();
    assert_eq!(ids, expected);
}

#[test]
fn final_line_without_newline_counts() {
    let ids = load_whitelist("5\n9");
    let expected: HashSet<i64> = [5, 9].into_iter().collect();
    assert_eq!(ids, expected);
}

#[test]
fn add_returns_the_line_to_append() {
    let mut store = AllowlistStore::load("");
    let line = store.add(42);
    assert_eq!(line.as_deref(), Some("42\n"));
    assert!(store.contains(42));
}

#[test]
fn add_twice_appends_once() {
    let mut store = AllowlistStore::load("");
    assert_eq!(store.add(7).as_deref(), Some("7\n"));
    assert_eq!(store.add(7), None);
    assert!(store.contains(7));
}

#[test]
fn add_of_loaded_id_appends_nothing() {
    let mut store = AllowlistStore::load("7\n");
    assert!(store.contains(7));
    assert_eq!(store.add(7), None);
}

#[test]
fn reload_yields_what_was_added() {
    let mut store = AllowlistStore::load("");
    let mut durable = String::new();
    for id in [3i64, -14, 0, 999_999_999_999] {
        if let Some(line) = store.add(id) {
            durable.push_str(&line);
        }
        // a repeated insert appends nothing
        assert_eq!(store.add(id), None);
    }
    let reloaded = load_whitelist(&durable);
    let expected: HashSet<i64> = [3, -14, 0, 999_999_999_999].into_iter().collect();
    assert_eq!(reloaded, expected);
}

#[test]
fn reload_keeps_initial_ids_too() {
    let initial = "100\n200\n";
    let mut store = AllowlistStore::load(initial);
    let mut durable = String::from(initial);
    for id in [300i64, 100] {
        if let Some(line) = store.add(id) {
            durable.push_str(&line);
        }
    }
    let reloaded = load_whitelist(&durable);
    let expected: HashSet<i64> = [100, 200, 300].into_iter().collect();
    assert_eq!(reloaded, expected);
}
