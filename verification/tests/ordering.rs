use git_poly::order::text_precedes;
use git_poly::sort::sort_entries;
use git_poly::status::{Staging, StatusEntry, Tracking};

fn entry(branch: &str, tracking: Tracking, staging: Staging, path: &str) -> StatusEntry {
    StatusEntry::new(branch.to_string(), (tracking, staging), path.to_string())
}

fn sample() -> Vec<StatusEntry> {
    vec![
        entry("main", Tracking::Untracked, Staging::Untracked, "z"),
        entry("main", Tracking::Staged, Staging::Modified, "b.txt"),
        entry("dev", Tracking::Unstaged, Staging::Deleted, "q"),
        entry("main", Tracking::Staged, Staging::Added, "a.txt"),
        entry("main", Tracking::Staged, Staging::Modified, "a.txt"),
        entry("", Tracking::Unmerged, Staging::BothModified, "é"),
        entry("main", Tracking::Staged, Staging::Modified, "b.txt"),
        entry("ma", Tracking::Staged, Staging::Modified, "b.txt"),
        entry("main", Tracking::Unmerged, Staging::BothModified, "a"),
    ]
}

#[test]
fn text_order_is_lexicographic() {
    assert!(text_precedes("", ""));
    assert!(text_precedes("", "a"));
    assert!(!text_precedes("a", ""));
    assert!(text_precedes("a", "a"));
    assert!(text_precedes("a", "ab"));
    assert!(!text_precedes("ab", "a"));
    assert!(text_precedes("ab", "b"));
    assert!(!text_precedes("b", "ab"));
    assert!(text_precedes("B", "a"));
}

#[test]
fn text_order_agrees_with_the_order_of_strings() {
    let words = ["", "a", "ab", "b", "é", "z", "日本", "a\u{10000}", "a\u{ffff}", "Z", "~"];
    for a in words.iter() {
        for b in words.iter() {
            assert_eq!(text_precedes(a, b), a <= b);
        }
    }
}

#[test]
fn entries_are_ordered_by_branch_tracking_staging_path() {
    let all = sample();
    for a in all.iter() {
        for b in all.iter() {
            assert_eq!(a.precedes(b), a <= b);
        }
    }
}

#[test]
fn sorting_agrees_with_the_standard_sort() {
    let mut expected = sample();
    expected.sort();
    assert_eq!(sort_entries(sample()), expected);
}

#[test]
fn sorting_keeps_every_entry() {
    let sorted = sort_entries(sample());
    assert_eq!(sorted.len(), 9);
    assert_eq!(sorted[0], entry("", Tracking::Unmerged, Staging::BothModified, "é"));
    assert_eq!(sorted[8], entry("main", Tracking::Untracked, Staging::Untracked, "z"));
}

#[test]
fn sorting_nothing_gives_nothing() {
    assert_eq!(sort_entries(Vec::new()), Vec::new());
}

#[test]
fn sorting_does_not_depend_on_the_order_of_arrival() {
    let mut reversed = sample();
    reversed.reverse();
    let mut rotated = sample();
    rotated.rotate_left(4);
    let expected = sort_entries(sample());
    assert_eq!(sort_entries(reversed), expected);
    assert_eq!(sort_entries(rotated), expected);
}
