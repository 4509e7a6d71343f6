use vstd::prelude::*;
use vstd::string::StringExecFns;
use crate::path::{join, joined};
use crate::text::text_views;

verus! {

/// The lines, each behind the path of its repository as a directory.
pub open spec fn prefixed(path: Seq<char>, lines: Seq<Seq<char>>) -> Seq<Seq<char>> {
    lines.map_values(|line: Seq<char>| joined(path, Seq::empty()) + line)
}

/// Puts the path of the repository in front of each line of what a search
/// in it printed, so that every line names a file as seen from where the
/// search began.
pub fn prefix_lines(path: &str, lines: &Vec<String>) -> (r: Vec<String>)
    ensures
        text_views(r@) == prefixed(path@, text_views(lines@)),
{
    let flat_path = join(path, "");
    proof {
        reveal_strlit("");
        assert(""@ =~= Seq::<char>::empty());
    }
    let mut out: Vec<String> = Vec::new();
    let mut at: usize = 0;
    while at < lines.len()
        invariant
            at <= lines.len(),
            flat_path@ == joined(path@, Seq::empty()),
            out.len() == at,
            forall|i: int|
                0 <= i < at ==> #[trigger] text_views(out@)[i] == flat_path@ + lines@[i]@,
        decreases lines.len() - at,
    {
        let ghost before = text_views(out@);
        let mut line = flat_path.clone();
        line.append(lines[at].as_str());
        out.push(line);
        assert(text_views(out@) =~= before.push(flat_path@ + lines@[at as int]@));
        at += 1;
    }
    assert(text_views(out@) =~= prefixed(path@, text_views(lines@)));
    out
}

} // verus!
