use vstd::prelude::*;
use crate::pattern::{regex_is_match, Pattern};

verus! {

/// Whether a branch filter lets a repository through: without a filter
/// every repository passes, with one only where the expression matches the
/// name of the branch that the repository is on.
pub open spec fn admits(branch_filter: Option<Pattern>, branch_name: Seq<char>) -> bool {
    match branch_filter {
        Some(expression) => regex_is_match(expression@, branch_name),
        None => true,
    }
}

/// Whether a repository passes the branch filter: the expression matches
/// the name of the branch that the repository is on.
pub fn branch(expression: &Pattern, branch_name: &str) -> (r: bool)
    ensures
        r == regex_is_match(expression@, branch_name@),
{
    expression.is_match(branch_name)
}

/// Whether a worker goes to work on a repository on the given branch.
pub fn passes(branch_filter: &Option<Pattern>, branch_name: &str) -> (r: bool)
    ensures
        r == admits(*branch_filter, branch_name@),
{
    match branch_filter {
        Some(expression) => branch(expression, branch_name),
        None => true,
    }
}

} // verus!
