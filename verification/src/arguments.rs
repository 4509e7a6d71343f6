use vstd::prelude::*;
use crate::command::go::{command_words, words_after};
use crate::error::Error;
use crate::flags::Flags;
use crate::pattern::{regex_compiles, Pattern};
use crate::text::{same_text, text_views};

verus! {

/// What a command line asks for.
#[derive(PartialEq, Eq, Clone, Debug)]
pub enum Command {
    /// Nothing: the command line names no subcommand.
    Nothing,
    /// Show how the program is used.
    Help,
    /// Run git with these words in each repository.
    Go(Vec<String>),
    /// Run the program that these words name in each repository.
    Cmd(Vec<String>),
    /// Stage what these words name.
    Add(Vec<String>),
    /// Search each repository for the expression.
    Grep(String),
    /// List the files of each repository.
    LsFiles,
    /// List the repositories.
    Ls,
    /// Clone the repositories that are named on standard input.
    Clone,
    /// Commit what is staged, with the message.
    Commit(String),
    /// Reset each repository.
    Reset,
    /// Show the status of all repositories as one report.
    Status,
    /// Move a file from the first path to the second.
    Mv(String, String),
    /// Replace every match of the first expression by the second.
    Replace(String, String),
}

/// What a [`Command`] holds, as plain mathematical values.
pub enum CommandView {
    Nothing,
    Help,
    Go(Seq<Seq<char>>),
    Cmd(Seq<Seq<char>>),
    Add(Seq<Seq<char>>),
    Grep(Seq<char>),
    LsFiles,
    Ls,
    Clone,
    Commit(Seq<char>),
    Reset,
    Status,
    Mv(Seq<char>, Seq<char>),
    Replace(Seq<char>, Seq<char>),
}

impl View for Command {
    type V = CommandView;

    open spec fn view(&self) -> CommandView {
        match self {
            Command::Nothing => CommandView::Nothing,
            Command::Help => CommandView::Help,
            Command::Go(words) => CommandView::Go(text_views(words@)),
            Command::Cmd(words) => CommandView::Cmd(text_views(words@)),
            Command::Add(words) => CommandView::Add(text_views(words@)),
            Command::Grep(expression) => CommandView::Grep(expression@),
            Command::LsFiles => CommandView::LsFiles,
            Command::Ls => CommandView::Ls,
            Command::Clone => CommandView::Clone,
            Command::Commit(message) => CommandView::Commit(message@),
            Command::Reset => CommandView::Reset,
            Command::Status => CommandView::Status,
            Command::Mv(from, to) => CommandView::Mv(from@, to@),
            Command::Replace(from, to) => CommandView::Replace(from@, to@),
        }
    }
}

/// A command with the filters that it runs under.
pub struct Invocation {
    pub flags: Flags,
    pub command: Command,
}

/// Why a command line was turned down.
#[derive(PartialEq, Eq, Clone, Debug)]
pub enum Refusal {
    /// The command line is not well formed; the message says how.
    Usage(&'static str),
    /// An expression on the command line does not compile.
    Pattern(Error),
}

/// What a command line comes to.
pub enum Reading {
    Run { path: Seq<char>, branch: Option<Seq<char>>, command: CommandView },
    Refused(Seq<char>),
    BadPattern,
}

/// The view of a branch filter.
pub open spec fn branch_view(branch: Option<Pattern>) -> Option<Seq<char>> {
    match branch {
        Some(pattern) => Some(pattern@),
        None => None,
    }
}

/// Reads the command that the word at `at` names, with the filters read
/// before it.
pub open spec fn read_command(
    args: Seq<Seq<char>>,
    at: int,
    path: Seq<char>,
    branch: Option<Seq<char>>,
) -> Reading {
    let word = args[at];
    let more = args.len() - at - 1;
    let run = |command: CommandView| Reading::Run { path, branch, command };
    if word == "go"@ {
        if more == 0 {
            Reading::Refused("go requires at least one git command"@)
        } else {
            run(CommandView::Go(words_after(args, at)))
        }
    } else if word == "cmd"@ {
        if more == 0 {
            Reading::Refused("cmd requires at least one shell command"@)
        } else {
            run(CommandView::Cmd(words_after(args, at)))
        }
    } else if word == "add"@ {
        if more == 0 {
            Reading::Refused("Nothing specified, nothing added.\nMaybe you wanted to say 'git add .'?"@)
        } else {
            run(CommandView::Add(words_after(args, at)))
        }
    } else if word == "grep"@ {
        if more == 0 {
            Reading::Refused("Please provide the expression you would like to grep for"@)
        } else {
            run(CommandView::Grep(args[at + 1]))
        }
    } else if word == "ls-files"@ {
        run(CommandView::LsFiles)
    } else if word == "ls"@ {
        run(CommandView::Ls)
    } else if word == "clone"@ {
        run(CommandView::Clone)
    } else if word == "commit"@ {
        if more < 2 {
            Reading::Refused("commit requires at least arguments -m and a message"@)
        } else if args[at + 1] != "-m"@ {
            Reading::Refused("commit requires -m"@)
        } else {
            run(CommandView::Commit(args[at + 2]))
        }
    } else if word == "reset"@ {
        run(CommandView::Reset)
    } else if word == "status"@ {
        run(CommandView::Status)
    } else if word == "mv"@ {
        if more < 2 {
            Reading::Refused("mv requires a source and a dest"@)
        } else {
            run(CommandView::Mv(args[at + 1], args[at + 2]))
        }
    } else if word == "replace"@ {
        if more < 2 {
            Reading::Refused("replace requires at least two arguments"@)
        } else {
            run(CommandView::Replace(args[at + 1], args[at + 2]))
        }
    } else {
        Reading::Refused("argument not recognised"@)
    }
}

/// Reads the words from `at` on, with the filters read before them: each
/// filter option takes the word after it as its expression, and the first
/// other word names the command, which takes the rest of the line.
pub open spec fn read_from(
    args: Seq<Seq<char>>,
    at: int,
    path: Seq<char>,
    branch: Option<Seq<char>>,
) -> Reading
    decreases args.len() - at,
{
    if at < 0 || at >= args.len() {
        Reading::Run { path, branch, command: CommandView::Nothing }
    } else if args[at] == "--help"@ || args[at] == "-h"@ {
        Reading::Run { path, branch, command: CommandView::Help }
    } else if args[at] == "--path"@ || args[at] == "-p"@ {
        if at + 1 == args.len() {
            Reading::Refused("--path requires an expression (ie --path '.*')"@)
        } else if !regex_compiles(args[at + 1]) {
            Reading::BadPattern
        } else {
            read_from(args, at + 2, args[at + 1], branch)
        }
    } else if args[at] == "--branch"@ || args[at] == "-b"@ {
        if at + 1 == args.len() {
            Reading::Refused("--branch requires an expression (ie --branch 'feature/foo.*')"@)
        } else if !regex_compiles(args[at + 1]) {
            Reading::BadPattern
        } else {
            read_from(args, at + 2, path, Some(args[at + 1]))
        }
    } else {
        read_command(args, at, path, branch)
    }
}

/// What the words of a command line, without the name of the program,
/// come to.
pub open spec fn reading_of(args: Seq<Seq<char>>) -> Reading {
    if !regex_compiles(".*"@) {
        Reading::BadPattern
    } else if args.len() == 0 {
        Reading::Refused("Not enough arguments"@)
    } else {
        read_from(args, 0, ".*"@, None)
    }
}

/// Whether the result of reading a command line is what the reading says.
pub open spec fn agrees(r: Result<Invocation, Refusal>, reading: Reading) -> bool {
    match reading {
        Reading::Run { path, branch, command } => {
            &&& r matches Ok(invocation)
            &&& invocation.flags.path@ == path
            &&& branch_view(invocation.flags.branch) == branch
            &&& invocation.command@ == command
        },
        Reading::Refused(message) => r matches Err(Refusal::Usage(said)) && said@ == message,
        Reading::BadPattern => r matches Err(Refusal::Pattern(Error::Regex(_))),
    }
}

/// Reads the command that the word at `at` names.
fn parse_command(args: &Vec<String>, at: usize, flags: Flags) -> (r: Result<Invocation, Refusal>)
    requires
        at < args.len(),
    ensures
        agrees(
            r,
            read_command(text_views(args@), at as int, flags.path@, branch_view(flags.branch)),
        ),
{
    let ghost all = text_views(args@);
    let word = args[at].as_str();
    let more = args.len() - at - 1;
    proof {
        assert(all[at as int] == args@[at as int]@);
        if more >= 1 {
            assert(all[at + 1] == args@[at + 1]@);
        }
        if more >= 2 {
            assert(all[at + 2] == args@[at + 2]@);
        }
    }
    if same_text(word, "go") {
        if more == 0 {
            Err(Refusal::Usage("go requires at least one git command"))
        } else {
            Ok(Invocation { flags, command: Command::Go(command_words(args, at)) })
        }
    } else if same_text(word, "cmd") {
        if more == 0 {
            Err(Refusal::Usage("cmd requires at least one shell command"))
        } else {
            Ok(Invocation { flags, command: Command::Cmd(command_words(args, at)) })
        }
    } else if same_text(word, "add") {
        if more == 0 {
            Err(
                Refusal::Usage(
                    "Nothing specified, nothing added.\nMaybe you wanted to say 'git add .'?",
                ),
            )
        } else {
            Ok(Invocation { flags, command: Command::Add(command_words(args, at)) })
        }
    } else if same_text(word, "grep") {
        if more == 0 {
            Err(Refusal::Usage("Please provide the expression you would like to grep for"))
        } else {
            Ok(Invocation { flags, command: Command::Grep(args[at + 1].clone()) })
        }
    } else if same_text(word, "ls-files") {
        Ok(Invocation { flags, command: Command::LsFiles })
    } else if same_text(word, "ls") {
        Ok(Invocation { flags, command: Command::Ls })
    } else if same_text(word, "clone") {
        Ok(Invocation { flags, command: Command::Clone })
    } else if same_text(word, "commit") {
        if more < 2 {
            Err(Refusal::Usage("commit requires at least arguments -m and a message"))
        } else if !same_text(args[at + 1].as_str(), "-m") {
            Err(Refusal::Usage("commit requires -m"))
        } else {
            Ok(Invocation { flags, command: Command::Commit(args[at + 2].clone()) })
        }
    } else if same_text(word, "reset") {
        Ok(Invocation { flags, command: Command::Reset })
    } else if same_text(word, "status") {
        Ok(Invocation { flags, command: Command::Status })
    } else if same_text(word, "mv") {
        if more < 2 {
            Err(Refusal::Usage("mv requires a source and a dest"))
        } else {
            Ok(
                Invocation {
                    flags,
                    command: Command::Mv(args[at + 1].clone(), args[at + 2].clone()),
                },
            )
        }
    } else if same_text(word, "replace") {
        if more < 2 {
            Err(Refusal::Usage("replace requires at least two arguments"))
        } else {
            Ok(
                Invocation {
                    flags,
                    command: Command::Replace(args[at + 1].clone(), args[at + 2].clone()),
                },
            )
        }
    } else {
        Err(Refusal::Usage("argument not recognised"))
    }
}

/// Reads a command line, given as its words without the name of the
/// program: the filters, and the command to run under them.
pub fn parse_arguments(args: &Vec<String>) -> (r: Result<Invocation, Refusal>)
    ensures
        agrees(r, reading_of(text_views(args@))),
{
    let ghost all = text_views(args@);
    let mut flags = match Flags::new() {
        Ok(flags) => flags,
        Err(error) => {
            return Err(Refusal::Pattern(error));
        },
    };
    if args.len() == 0 {
        return Err(Refusal::Usage("Not enough arguments"));
    }
    let mut at: usize = 0;
    while at < args.len()
        invariant
            all == text_views(args@),
            all.len() == args.len(),
            reading_of(all) == read_from(all, at as int, flags.path@, branch_view(flags.branch)),
        decreases args.len() - at,
    {
        let word = args[at].as_str();
        proof {
            assert(all[at as int] == args@[at as int]@);
            if at + 1 < args.len() {
                assert(all[at + 1] == args@[at + 1]@);
            }
        }
        if same_text(word, "--help") || same_text(word, "-h") {
            return Ok(Invocation { flags, command: Command::Help });
        } else if same_text(word, "--path") || same_text(word, "-p") {
            if at + 1 == args.len() {
                return Err(Refusal::Usage("--path requires an expression (ie --path '.*')"));
            }
            match Pattern::new(args[at + 1].as_str()) {
                Ok(pattern) => {
                    flags.path = pattern;
                },
                Err(error) => {
                    return Err(Refusal::Pattern(error));
                },
            }
            at += 2;
        } else if same_text(word, "--branch") || same_text(word, "-b") {
            if at + 1 == args.len() {
                return Err(
                    Refusal::Usage("--branch requires an expression (ie --branch 'feature/foo.*')"),
                );
            }
            match Pattern::new(args[at + 1].as_str()) {
                Ok(pattern) => {
                    flags.branch = Some(pattern);
                },
                Err(error) => {
                    return Err(Refusal::Pattern(error));
                },
            }
            at += 2;
        } else {
            return parse_command(args, at, flags);
        }
    }
    Ok(Invocation { flags, command: Command::Nothing })
}

} // verus!
