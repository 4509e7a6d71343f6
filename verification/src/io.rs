use vstd::prelude::*;
use vstd::string::{StrSliceExecFns, StringSliceAdditionalSpecFns};
use vstd::utf8::encode_utf8;
use crate::paint::{colorize, may_paint};
use crate::report::Tint;

verus! {

/// How the program is used.
pub const USAGE: &'static str = "
USAGE:
    git poly [OPTIONS] [SUBCOMMAND]

OPTIONS:
    -p, --path <regex>        Filter by repo file path using given expression
    -b, --branch <regex>      Filter by current branch using given expression

SUBCOMMANDS
    go <git command>          Execute a git command in each repo
    cmd <comand>              Execute a shell command in each repo
    ls                        List all the git repos discovered

    clone                     Clone the repositories listed in stdin
    add [-u] [<pathspec>...]  Add file contents to the index of it's repo
    commit [-m] <message>     Record changes to the repository
    grep <pattern>            Print lines matching a pattern
    ls-files                  Show information about files in the index and the working tree
    mv <from> <to>            Move or rename a file, a directory, or a symlink
    reset                     Reset current HEAD to the specified state
    status                    Show the merged working tree status of all the repos

    replace <from> <to>       Find and replace all occurances of FROM with TO
";

/// What a repository's output looks like under its header: the header on a
/// line of its own, the output as it came, and a line feed.
pub open spec fn framed(header: Seq<char>, output: Seq<u8>) -> Seq<u8> {
    encode_utf8(header) + seq![10u8] + output + seq![10u8]
}

/// Puts the output of a repository under a header.
pub fn frame_output(header: &str, output: &[u8]) -> (r: Vec<u8>)
    ensures
        r@ == framed(header@, output@),
{
    let mut block = header.as_bytes_vec();
    block.push(10u8);
    let mut at: usize = 0;
    while at < output.len()
        invariant
            at <= output.len(),
            block@ == encode_utf8(header@) + seq![10u8] + output@.take(at as int),
        decreases output.len() - at,
    {
        block.push(output[at]);
        assert(output@.take(at + 1) =~= output@.take(at as int).push(output@[at as int]));
        at += 1;
    }
    assert(output@.take(output.len() as int) =~= output@);
    block.push(10u8);
    block
}

/// Writes the output of a repository to `handle`, under the path of the
/// repository in cyan.
pub fn write_to_out(handle: &mut Vec<u8>, repo: &str, output: &[u8])
    ensures
        exists|header: Seq<char>|
            may_paint(repo@, Tint::Cyan, header) && final(handle)@ == old(handle)@ + #[trigger] framed(
                header,
                output@,
            ),
{
    let header = colorize(repo, Tint::Cyan);
    let mut block = frame_output(header.as_str(), output);
    handle.append(&mut block);
}

/// What to write for the output of a repository: nothing where there is
/// no output, and otherwise the output under the path of the repository.
pub fn output_block(repo: &str, output: &[u8]) -> (r: Option<Vec<u8>>)
    ensures
        output@.len() == 0 <==> r is None,
        r matches Some(block) ==> exists|header: Seq<char>|
            may_paint(repo@, Tint::Cyan, header) && block@ == #[trigger] framed(header, output@),
{
    if output.len() == 0 {
        None
    } else {
        let mut block: Vec<u8> = Vec::new();
        write_to_out(&mut block, repo, output);
        Some(block)
    }
}

} // verus!
