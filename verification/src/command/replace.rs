use vstd::prelude::*;
use vstd::string::StringExecFns;
use crate::path::{join, joined};
use crate::pattern::{regex_replace_all, Pattern};
use crate::text::text_views;

verus! {

/// The files in which a repository holds the expression: the lines that
/// the search printed, each as a path below the repository.
pub open spec fn files_below(path: Seq<char>, lines: Seq<Seq<char>>) -> Seq<Seq<char>> {
    lines.map_values(|line: Seq<char>| joined(path, line))
}

/// Names the files of a repository to rewrite, one for each line of what
/// the search for the expression printed.
pub fn candidate_files(path: &str, lines: &Vec<String>) -> (r: Vec<String>)
    ensures
        text_views(r@) == files_below(path@, text_views(lines@)),
{
    let mut out: Vec<String> = Vec::new();
    let mut at: usize = 0;
    while at < lines.len()
        invariant
            at <= lines.len(),
            out.len() == at,
            forall|i: int|
                0 <= i < at ==> #[trigger] text_views(out@)[i] == joined(path@, lines@[i]@),
        decreases lines.len() - at,
    {
        let ghost before = text_views(out@);
        let file = join(path, lines[at].as_str());
        out.push(file);
        assert(text_views(out@) =~= before.push(joined(path@, lines@[at as int]@)));
        at += 1;
    }
    assert(text_views(out@) =~= files_below(path@, text_views(lines@)));
    out
}

/// The first `count` lines with every match replaced, each ended by a line
/// feed.
pub open spec fn rewritten(from: Seq<char>, to: Seq<char>, lines: Seq<Seq<char>>, count: nat) -> Seq<
    char,
>
    decreases count,
{
    if count == 0 {
        Seq::empty()
    } else {
        rewritten(from, to, lines, (count - 1) as nat) + regex_replace_all(
            from,
            lines[count - 1],
            to,
        ) + seq!['\n']
    }
}

/// Rewrites the lines of a file: every match of `from_regex` in a line
/// gives way to `to_regex`, and every line ends in a line feed.
pub fn replace_lines(from_regex: &Pattern, to_regex: &str, lines: &Vec<String>) -> (r: String)
    ensures
        r@ == rewritten(from_regex@, to_regex@, text_views(lines@), lines@.len()),
{
    let ghost all = text_views(lines@);
    let mut output = String::new();
    let mut at: usize = 0;
    while at < lines.len()
        invariant
            at <= lines.len(),
            all == text_views(lines@),
            output@ == rewritten(from_regex@, to_regex@, all, at as nat),
        decreases lines.len() - at,
    {
        assert(all[at as int] == lines@[at as int]@);
        let new_line = from_regex.replace_all(lines[at].as_str(), to_regex);
        output.append(new_line.as_str());
        proof {
            reveal_strlit("\n");
            assert("\n"@ =~= seq!['\n']);
        }
        output.append("\n");
        at += 1;
    }
    output
}

} // verus!
