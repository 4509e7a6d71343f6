use vstd::prelude::*;
use crate::error::Error;
use crate::pattern::{regex_compiles, regex_is_match, Pattern};
use crate::text::text_views;

verus! {

/// The expression that finds a staged change in a line of porcelain status
/// output.
pub open spec fn changes_source() -> Seq<char> {
    "^(M|A|D) .*"@
}

/// The pattern that finds a staged change in a line of status output.
pub fn changes_pattern() -> (r: Result<Pattern, Error>)
    ensures
        regex_compiles(changes_source()) ==> (r matches Ok(pattern) && pattern@
            == changes_source()),
        !regex_compiles(changes_source()) ==> (r matches Err(Error::Regex(_))),
{
    Pattern::new("^(M|A|D) .*")
}

/// Whether one of the lines matches the pattern.
pub open spec fn some_line_matches(pattern: Seq<char>, lines: Seq<Seq<char>>) -> bool {
    exists|i: int| 0 <= i < lines.len() && regex_is_match(pattern, #[trigger] lines[i])
}

/// Whether the status output of a repository shows something to commit.
pub fn has_modifications(changes: &Pattern, lines: &Vec<String>) -> (r: bool)
    ensures
        r == some_line_matches(changes@, text_views(lines@)),
{
    let ghost all = text_views(lines@);
    let mut at: usize = 0;
    while at < lines.len()
        invariant
            at <= lines.len(),
            all == text_views(lines@),
            forall|i: int| 0 <= i < at ==> !regex_is_match(changes@, #[trigger] all[i]),
        decreases lines.len() - at,
    {
        assert(all[at as int] == lines@[at as int]@);
        if changes.is_match(lines[at].as_str()) {
            return true;
        }
        at += 1;
    }
    false
}

} // verus!
