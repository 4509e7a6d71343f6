use git_poly::paint::{join_pieces, paint_span, paint_spans, report_text};
use git_poly::report::{
    layout_entries, match_color, render_status_report, section_title, staging_label, Span,
    StatusIterator, Tint,
};
use git_poly::status::{Staging, StatusEntry, Tracking};

fn entry(branch: &str, tracking: Tracking, staging: Staging, path: &str) -> StatusEntry {
    StatusEntry::new(branch.to_string(), (tracking, staging), path.to_string())
}

fn plain(text: &str) -> Span {
    Span { text: text.to_string(), tint: None }
}

fn tinted(text: &str, tint: Tint) -> Span {
    Span { text: text.to_string(), tint: Some(tint) }
}

const STAGED_TITLE: &str = "Changes to be commited:\n\n";

#[test]
fn two_staged_entries_share_their_headers() {
    let entries = vec![
        entry("branchA", Tracking::Staged, Staging::Modified, "b.txt"),
        entry("branchA", Tracking::Staged, Staging::Added, "a.txt"),
    ];
    let expected = vec![
        plain("\n"),
        plain("on branch "),
        tinted("branchA", Tint::Cyan),
        plain("\n"),
        plain(STAGED_TITLE),
        tinted("        new file:   ", Tint::Green),
        tinted("a.txt", Tint::Green),
        plain("\n"),
        tinted("        modified:   ", Tint::Green),
        tinted("b.txt", Tint::Green),
        plain("\n"),
    ];
    assert_eq!(render_status_report(entries), expected);
}

#[test]
fn report_is_the_same_for_every_order_of_arrival() {
    let make = || {
        vec![
            entry("main", Tracking::Untracked, Staging::Untracked, "z"),
            entry("main", Tracking::Staged, Staging::Modified, "b.txt"),
            entry("dev", Tracking::Unstaged, Staging::Deleted, "q"),
            entry("main", Tracking::Staged, Staging::Added, "a.txt"),
            entry("main", Tracking::Unmerged, Staging::BothModified, "a"),
        ]
    };
    let expected = render_status_report(make());
    let mut reversed = make();
    reversed.reverse();
    assert_eq!(render_status_report(reversed), expected);
    for shift in 1..5 {
        let mut rotated = make();
        rotated.rotate_left(shift);
        assert_eq!(render_status_report(rotated), expected);
    }
    let mut swapped = make();
    swapped.swap(1, 3);
    assert_eq!(render_status_report(swapped), expected);
}

#[test]
fn one_section_header_for_entries_of_one_tracking() {
    let entries = vec![
        entry("main", Tracking::Unstaged, Staging::Modified, "m"),
        entry("main", Tracking::Unstaged, Staging::Deleted, "d"),
    ];
    let spans = render_status_report(entries);
    let title = section_title(&Tracking::Unstaged);
    assert_eq!(spans.iter().filter(|s| s.text == title).count(), 1);
    assert_eq!(spans.iter().filter(|s| s.text == "on branch ").count(), 1);
    assert_eq!(
        spans[spans.len() - 6..].to_vec(),
        vec![
            tinted("        deleted:   ", Tint::Red),
            tinted("d", Tint::Red),
            plain("\n"),
            tinted("        modified:   ", Tint::Red),
            tinted("m", Tint::Red),
            plain("\n"),
        ]
    );
}

#[test]
fn rendering_twice_gives_the_same_report() {
    let make = || {
        vec![
            entry("b", Tracking::Unstaged, Staging::Modified, "m"),
            entry("a", Tracking::Staged, Staging::Deleted, "d"),
        ]
    };
    assert_eq!(render_status_report(make()), render_status_report(make()));
    let sorted = git_poly::sort::sort_entries(make());
    assert_eq!(layout_entries(&sorted), layout_entries(&sorted));
    assert_eq!(render_status_report(sorted), render_status_report(make()));
}

#[test]
fn a_new_section_under_the_same_branch_is_set_off_by_an_empty_line() {
    let entries = vec![
        entry("main", Tracking::Staged, Staging::Added, "a"),
        entry("main", Tracking::Untracked, Staging::Untracked, "u"),
        entry("next", Tracking::Untracked, Staging::Untracked, "v"),
    ];
    let untracked = section_title(&Tracking::Untracked);
    let expected = vec![
        plain("\n"),
        plain("on branch "),
        tinted("main", Tint::Cyan),
        plain("\n"),
        plain(STAGED_TITLE),
        tinted("        new file:   ", Tint::Green),
        tinted("a", Tint::Green),
        plain("\n"),
        plain("\n"),
        plain(untracked),
        plain("        "),
        tinted("u", Tint::Red),
        plain("\n"),
        plain("\n"),
        plain("on branch "),
        tinted("next", Tint::Cyan),
        plain("\n"),
        plain(untracked),
        plain("        "),
        tinted("v", Tint::Red),
        plain("\n"),
    ];
    assert_eq!(render_status_report(entries), expected);
}

#[test]
fn an_empty_collection_gives_an_empty_report() {
    assert_eq!(render_status_report(Vec::new()), Vec::new());
}

#[test]
fn section_titles() {
    assert_eq!(section_title(&Tracking::Staged), "Changes to be commited:\n\n");
    assert_eq!(
        section_title(&Tracking::Unstaged),
        "Changes not staged for commit:\n  (use \"git add <file>...\" to include in what will be committed)\n\n"
    );
    assert_eq!(
        section_title(&Tracking::Untracked),
        "Untracked files:\n  (use \"git add <file>...\" to include in what will be committed)\n\n"
    );
    assert_eq!(
        section_title(&Tracking::Unmerged),
        "You have unmerged paths.\n  (fix conflicts and run \"git commit\")\n  (use \"git merge --abort\" to abort the merge)\n\nUnmerged paths:\n  (use \"git add <file>...\" to mark resolution)\n"
    );
}

#[test]
fn colours_and_labels() {
    assert_eq!(match_color(&Tracking::Staged), Tint::Green);
    assert_eq!(match_color(&Tracking::Unstaged), Tint::Red);
    assert_eq!(match_color(&Tracking::Untracked), Tint::Red);
    assert_eq!(match_color(&Tracking::Unmerged), Tint::Red);
    assert_eq!(
        staging_label(&Staging::BothModified, Tint::Red),
        tinted("        both modified:   ", Tint::Red)
    );
    assert_eq!(staging_label(&Staging::Untracked, Tint::Red), plain("        "));
}

#[test]
fn the_walk_tells_which_headers_an_entry_opens() {
    let entries = vec![
        entry("a", Tracking::Staged, Staging::Added, "1"),
        entry("a", Tracking::Staged, Staging::Modified, "2"),
        entry("a", Tracking::Unstaged, Staging::Modified, "3"),
        entry("b", Tracking::Unstaged, Staging::Modified, "4"),
    ];
    let mut walk = StatusIterator::new(&entries);
    let mut flags = Vec::new();
    while let Some(step) = walk.next() {
        flags.push((step.msg.path.clone(), step.print_branch, step.print_tracking, step.color));
    }
    assert_eq!(
        flags,
        vec![
            ("1".to_string(), true, true, Tint::Green),
            ("2".to_string(), false, false, Tint::Green),
            ("3".to_string(), false, true, Tint::Red),
            ("4".to_string(), true, true, Tint::Red),
        ]
    );
    assert!(walk.next().is_none());
}

#[test]
fn pieces_are_joined_in_order() {
    let pieces = vec!["a".to_string(), "".to_string(), "bc".to_string()];
    assert_eq!(join_pieces(&pieces), "abc");
    assert_eq!(join_pieces(&Vec::new()), "");
}

#[test]
fn text_with_and_without_colours() {
    let entries = vec![
        entry("branchA", Tracking::Staged, Staging::Modified, "b.txt"),
        entry("branchA", Tracking::Unstaged, Staging::Deleted, "a.txt"),
    ];
    let spans = render_status_report(entries);

    colored::control::set_override(false);
    assert_eq!(
        report_text(&spans),
        "\non branch branchA\nChanges to be commited:\n\n        modified:   b.txt\n\nChanges not staged for commit:\n  (use \"git add <file>...\" to include in what will be committed)\n\n        deleted:   a.txt\n"
    );
    assert_eq!(paint_span(&tinted("x", Tint::Red)), "x");

    colored::control::set_override(true);
    assert_eq!(
        report_text(&spans),
        "\non branch \u{1b}[36mbranchA\u{1b}[0m\nChanges to be commited:\n\n\u{1b}[32m        modified:   \u{1b}[0m\u{1b}[32mb.txt\u{1b}[0m\n\nChanges not staged for commit:\n  (use \"git add <file>...\" to include in what will be committed)\n\n\u{1b}[31m        deleted:   \u{1b}[0m\u{1b}[31ma.txt\u{1b}[0m\n"
    );
    assert_eq!(paint_span(&tinted("x", Tint::Red)), "\u{1b}[31mx\u{1b}[0m");
    assert_eq!(paint_span(&tinted("x", Tint::Green)), "\u{1b}[32mx\u{1b}[0m");
    assert_eq!(paint_span(&tinted("x", Tint::Cyan)), "\u{1b}[36mx\u{1b}[0m");
    assert_eq!(paint_span(&plain("x")), "x");
    assert_eq!(
        paint_spans(&vec![plain("p"), tinted("q", Tint::Cyan)]),
        vec!["p".to_string(), "\u{1b}[36mq\u{1b}[0m".to_string()]
    );
    colored::control::unset_override();
}
