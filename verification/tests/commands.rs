use git_poly::command::add::{add_steps, AddStep};
use git_poly::command::clone::{address_pattern, clone_folders, folders_of_captures};
use git_poly::command::commit::{changes_pattern, has_modifications};
use git_poly::command::go::command_words;
use git_poly::command::grep::prefix_lines;
use git_poly::command::replace::{candidate_files, replace_lines};
use git_poly::command::status::{
    entry_of_captures, status_line, status_splitter, status_thread, StatusBatch,
};
use git_poly::error::Error;
use git_poly::pattern::Pattern;
use git_poly::status::{Staging, StatusEntry, Tracking};
use git_poly::text::lines;

fn entry(branch: &str, tracking: Tracking, staging: Staging, path: &str) -> StatusEntry {
    StatusEntry::new(branch.to_string(), (tracking, staging), path.to_string())
}

fn words(list: &[&str]) -> Vec<String> {
    list.iter().map(|w| w.to_string()).collect()
}

#[test]
fn a_status_line_gives_an_entry() {
    let splitter = status_splitter().unwrap();
    assert_eq!(
        status_line("main", "./repo", &splitter, "M  src/lib.rs"),
        Ok(Some(entry("main", Tracking::Staged, Staging::Modified, "./repo/src/lib.rs")))
    );
    assert_eq!(
        status_line("main", "./repo", &splitter, "?? new file"),
        Ok(Some(entry("main", Tracking::Untracked, Staging::Untracked, "./repo/new file")))
    );
    assert_eq!(
        status_line("main", "./repo", &splitter, " D gone"),
        Ok(Some(entry("main", Tracking::Unstaged, Staging::Deleted, "./repo/gone")))
    );
    assert_eq!(
        status_line("b", ".", &splitter, "UU both"),
        Ok(Some(entry("b", Tracking::Unmerged, Staging::BothModified, "./both")))
    );
}

#[test]
fn a_line_without_a_code_is_passed_over() {
    let splitter = status_splitter().unwrap();
    assert_eq!(status_line("main", "./repo", &splitter, ""), Ok(None));
    assert_eq!(status_line("main", "./repo", &splitter, "M"), Ok(None));
    assert_eq!(status_line("main", "./repo", &splitter, "M x"), Ok(None));
    assert_eq!(status_line("main", "./repo", &splitter, "path"), Ok(None));
}

#[test]
fn a_code_outside_the_table_fails() {
    let splitter = status_splitter().unwrap();
    for line in ["MM twice", "AM f.txt", "R  a -> b", "XY z", "!! ignored", "xM  y", "   x"] {
        assert_eq!(
            status_line("main", "./repo", &splitter, line),
            Err(Error::UnableToParseStatus)
        );
    }
}

#[test]
fn the_path_is_what_follows_the_code() {
    let splitter = status_splitter().unwrap();
    assert_eq!(
        status_line("main", "r", &splitter, "A   two spaces"),
        Ok(Some(entry("main", Tracking::Staged, Staging::Added, "r/ two spaces")))
    );
    assert_eq!(
        status_line("main", "r", &splitter, "?? "),
        Ok(Some(entry("main", Tracking::Untracked, Staging::Untracked, "r/")))
    );
}

#[test]
fn a_match_without_its_groups_fails() {
    let short = vec![vec![Some("M  x".to_string()), Some("M ".to_string())]];
    assert_eq!(entry_of_captures("main", ".", &short), Err(Error::Absent));
    let missing = vec![vec![Some("M  x".to_string()), None, Some("x".to_string())]];
    assert_eq!(entry_of_captures("main", ".", &missing), Err(Error::Absent));
    assert_eq!(entry_of_captures("main", ".", &Vec::new()), Ok(None));
    let two = vec![
        vec![Some("A  x".to_string()), Some("A ".to_string()), Some("x".to_string())],
        vec![Some("M  y".to_string()), Some("M ".to_string()), Some("y".to_string())],
    ];
    assert_eq!(
        entry_of_captures("main", "r", &two),
        Ok(Some(entry("main", Tracking::Staged, Staging::Added, "r/x")))
    );
}

#[test]
fn a_worker_reads_every_line() {
    let splitter = status_splitter().unwrap();
    let output = lines("M  a\n?? b\n\n D c\n");
    assert_eq!(
        status_thread(&None, "dev", "./r", &splitter, &output),
        StatusBatch {
            entries: vec![
                entry("dev", Tracking::Staged, Staging::Modified, "./r/a"),
                entry("dev", Tracking::Untracked, Staging::Untracked, "./r/b"),
                entry("dev", Tracking::Unstaged, Staging::Deleted, "./r/c"),
            ],
            failure: None,
        }
    );
    assert_eq!(
        status_thread(&None, "dev", "./r", &splitter, &Vec::new()),
        StatusBatch { entries: Vec::new(), failure: None }
    );
}

#[test]
fn a_repository_on_another_branch_adds_nothing() {
    let splitter = status_splitter().unwrap();
    let filter = Some(Pattern::new("^feature/").unwrap());
    let output = lines("M  a\nMM b\n");
    assert_eq!(
        status_thread(&filter, "dev", "./r", &splitter, &output),
        StatusBatch { entries: Vec::new(), failure: None }
    );
    assert_eq!(
        status_thread(&filter, "feature/x", "./r", &splitter, &output),
        StatusBatch {
            entries: vec![entry("feature/x", Tracking::Staged, Staging::Modified, "./r/a")],
            failure: Some(Error::UnableToParseStatus),
        }
    );
}

#[test]
fn a_worker_stops_at_the_first_failure_and_keeps_what_it_read() {
    let splitter = status_splitter().unwrap();
    let output = lines("M  a\nMM b\n D c\n");
    assert_eq!(
        status_thread(&None, "dev", "./r", &splitter, &output),
        StatusBatch {
            entries: vec![entry("dev", Tracking::Staged, Staging::Modified, "./r/a")],
            failure: Some(Error::UnableToParseStatus),
        }
    );
}

#[test]
fn staged_changes_are_something_to_commit() {
    let changes = changes_pattern().unwrap();
    assert!(has_modifications(&changes, &lines("?? x\nM  y\n")));
    assert!(has_modifications(&changes, &lines("A  y")));
    assert!(has_modifications(&changes, &lines("D  y")));
    assert!(!has_modifications(&changes, &lines("?? x\n M y\n")));
    assert!(!has_modifications(&changes, &lines("")));
    assert!(!has_modifications(&changes, &lines("xM  y")));
}

#[test]
fn lines_are_rewritten() {
    let from = Pattern::new("colou?r").unwrap();
    assert_eq!(
        replace_lines(&from, "hue", &lines("a color\nno match\ncolour color")),
        "a hue\nno match\nhue hue\n"
    );
    assert_eq!(replace_lines(&from, "hue", &Vec::new()), "");
    let swap = Pattern::new("(\\w+)=(\\w+)").unwrap();
    assert_eq!(replace_lines(&swap, "$2=$1", &lines("a=b\n")), "b=a\n");
}

#[test]
fn files_to_rewrite_lie_below_the_repository() {
    assert_eq!(
        candidate_files("./repo", &lines("a.txt\nsrc/b.rs\n")),
        vec!["./repo/a.txt", "./repo/src/b.rs"]
    );
    assert_eq!(candidate_files("./repo", &Vec::new()), Vec::<String>::new());
}

#[test]
fn an_address_names_its_folder() {
    let dirs = address_pattern().unwrap();
    assert_eq!(
        clone_folders(&dirs, "https://github.com/owner/project.git"),
        Ok(vec!["./owner/project".to_string()])
    );
    assert_eq!(
        clone_folders(&dirs, "git@github.com:owner/project.git"),
        Ok(vec!["./owner/project".to_string()])
    );
    assert_eq!(clone_folders(&dirs, "not an address"), Ok(Vec::new()));
    assert_eq!(
        folders_of_captures(&vec![vec![Some("x".to_string()), Some("y".to_string())]]),
        Err(Error::Absent)
    );
    assert_eq!(
        folders_of_captures(&vec![vec![Some("x".to_string()), Some("y".to_string()), None]]),
        Err(Error::Absent)
    );
}

#[test]
fn lines_are_shown_behind_their_repository() {
    assert_eq!(
        prefix_lines("./repo", &lines("a.txt:1:x\nb.txt\n")),
        vec!["./repo/a.txt:1:x", "./repo/b.txt"]
    );
    assert_eq!(prefix_lines("./repo/", &lines("a")), vec!["./repo/a"]);
    assert_eq!(prefix_lines("", &lines("a")), vec!["a"]);
}

#[test]
fn the_words_after_the_subcommand() {
    let args = words(&["-p", "x", "go", "log", "-1"]);
    assert_eq!(command_words(&args, 2), words(&["log", "-1"]));
    assert_eq!(command_words(&args, 4), Vec::<String>::new());
    assert_eq!(command_words(&args, 5), Vec::<String>::new());
    assert_eq!(command_words(&args, usize::MAX), Vec::<String>::new());
    assert_eq!(command_words(&args, 0), words(&["x", "go", "log", "-1"]));
}

#[test]
fn add_stages_changes_once() {
    assert_eq!(
        add_steps(&words(&["a.txt", "-u", "b.txt", "-u", "-U"])),
        vec![
            AddStep::Entry("a.txt".to_string()),
            AddStep::Changed,
            AddStep::Entry("b.txt".to_string()),
            AddStep::Entry("-U".to_string()),
        ]
    );
    assert_eq!(add_steps(&Vec::new()), Vec::<AddStep>::new());
    assert_eq!(add_steps(&words(&["-u", "-u"])), vec![AddStep::Changed]);
}
