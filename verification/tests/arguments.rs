use git_poly::arguments::{parse_arguments, Command, Invocation, Refusal};
use git_poly::command::mv::{mv_steps, MvStep, Place};
use git_poly::error::Error;

fn words(list: &[&str]) -> Vec<String> {
    list.iter().map(|w| w.to_string()).collect()
}

fn read(list: &[&str]) -> Result<Invocation, Refusal> {
    parse_arguments(&words(list))
}

fn command_of(list: &[&str]) -> Command {
    match read(list) {
        Ok(invocation) => invocation.command,
        Err(refusal) => panic!("refused: {:?}", refusal),
    }
}

fn refusal_of(list: &[&str]) -> Refusal {
    match read(list) {
        Ok(invocation) => panic!("taken: {:?}", invocation.command),
        Err(refusal) => refusal,
    }
}

#[test]
fn an_empty_command_line_is_refused() {
    assert_eq!(refusal_of(&[]), Refusal::Usage("Not enough arguments"));
}

#[test]
fn subcommands_without_words() {
    assert_eq!(command_of(&["status"]), Command::Status);
    assert_eq!(command_of(&["ls"]), Command::Ls);
    assert_eq!(command_of(&["ls-files"]), Command::LsFiles);
    assert_eq!(command_of(&["clone"]), Command::Clone);
    assert_eq!(command_of(&["reset"]), Command::Reset);
    assert_eq!(command_of(&["--help"]), Command::Help);
    assert_eq!(command_of(&["-h", "bogus"]), Command::Help);
    assert_eq!(command_of(&["status", "ignored"]), Command::Status);
}

#[test]
fn subcommands_with_words() {
    assert_eq!(command_of(&["go", "log", "-1"]), Command::Go(words(&["log", "-1"])));
    assert_eq!(command_of(&["cmd", "ls", "-l"]), Command::Cmd(words(&["ls", "-l"])));
    assert_eq!(command_of(&["add", "-u", "x"]), Command::Add(words(&["-u", "x"])));
    assert_eq!(command_of(&["grep", "needle", "more"]), Command::Grep("needle".to_string()));
    assert_eq!(command_of(&["commit", "-m", "message"]), Command::Commit("message".to_string()));
    assert_eq!(command_of(&["mv", "a", "b"]), Command::Mv("a".to_string(), "b".to_string()));
    assert_eq!(
        command_of(&["replace", "from", "to"]),
        Command::Replace("from".to_string(), "to".to_string())
    );
}

#[test]
fn filters_come_before_the_subcommand() {
    let invocation = read(&["-p", ".*foo.*", "--branch", "feature/.*", "ls"]).unwrap();
    assert_eq!(invocation.flags.path.as_str(), ".*foo.*");
    assert_eq!(invocation.flags.branch.unwrap().as_str(), "feature/.*");
    assert_eq!(invocation.command, Command::Ls);

    let invocation = read(&["--path", "a", "-p", "b", "-b", "c"]).unwrap();
    assert_eq!(invocation.flags.path.as_str(), "b");
    assert_eq!(invocation.flags.branch.unwrap().as_str(), "c");
    assert_eq!(invocation.command, Command::Nothing);

    let invocation = read(&["status"]).unwrap();
    assert_eq!(invocation.flags.path.as_str(), ".*");
    assert!(invocation.flags.branch.is_none());

    let invocation = read(&["-p", "status", "status", "-p", "late"]).unwrap();
    assert_eq!(invocation.flags.path.as_str(), "status");
    assert_eq!(invocation.command, Command::Status);
}

#[test]
fn missing_words_are_refused() {
    assert_eq!(
        refusal_of(&["--path"]),
        Refusal::Usage("--path requires an expression (ie --path '.*')")
    );
    assert_eq!(command_of(&["ls", "-b"]), Command::Ls);
    assert_eq!(
        refusal_of(&["-b"]),
        Refusal::Usage("--branch requires an expression (ie --branch 'feature/foo.*')")
    );
    assert_eq!(refusal_of(&["go"]), Refusal::Usage("go requires at least one git command"));
    assert_eq!(refusal_of(&["cmd"]), Refusal::Usage("cmd requires at least one shell command"));
    assert_eq!(
        refusal_of(&["add"]),
        Refusal::Usage("Nothing specified, nothing added.\nMaybe you wanted to say 'git add .'?")
    );
    assert_eq!(
        refusal_of(&["grep"]),
        Refusal::Usage("Please provide the expression you would like to grep for")
    );
    assert_eq!(
        refusal_of(&["commit", "-m"]),
        Refusal::Usage("commit requires at least arguments -m and a message")
    );
    assert_eq!(refusal_of(&["commit", "-x", "message"]), Refusal::Usage("commit requires -m"));
    assert_eq!(refusal_of(&["mv", "a"]), Refusal::Usage("mv requires a source and a dest"));
    assert_eq!(
        refusal_of(&["replace", "a"]),
        Refusal::Usage("replace requires at least two arguments")
    );
    assert_eq!(refusal_of(&["bogus"]), Refusal::Usage("argument not recognised"));
    assert_eq!(refusal_of(&["-p", "x", "bogus"]), Refusal::Usage("argument not recognised"));
}

#[test]
fn an_expression_that_does_not_compile_is_refused() {
    match refusal_of(&["-p", "foo(", "ls"]) {
        Refusal::Pattern(Error::Regex(_)) => (),
        other => panic!("unexpected: {:?}", other),
    }
    match refusal_of(&["--branch", "[", "ls"]) {
        Refusal::Pattern(Error::Regex(_)) => (),
        other => panic!("unexpected: {:?}", other),
    }
}

fn place(path: &str, repo: &str, relative: &str) -> Place {
    Place { path: path.to_string(), repo: repo.to_string(), relative: relative.to_string() }
}

#[test]
fn a_move_removes_renames_and_adds() {
    let from = place("a/x", "a", "x");
    let to = place("b/y", "b", "y");
    let rename = MvStep::Rename { from: "a/x".to_string(), to: "b/y".to_string() };
    let remove_old = MvStep::Remove { repo: "a".to_string(), path: "x".to_string() };
    let add_new = MvStep::Add { repo: "b".to_string(), path: "y".to_string() };
    let clear = MvStep::Remove { repo: "b".to_string(), path: "y".to_string() };
    assert_eq!(
        mv_steps(&from, &to, true, false),
        vec![rename.clone(), remove_old.clone(), add_new.clone()]
    );
    assert_eq!(mv_steps(&from, &to, true, true), vec![clear, rename, remove_old, add_new]);
    assert_eq!(mv_steps(&from, &to, false, true), Vec::<MvStep>::new());
    assert_eq!(mv_steps(&from, &to, false, false), Vec::<MvStep>::new());
}
