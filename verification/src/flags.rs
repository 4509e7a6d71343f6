use vstd::prelude::*;
use crate::error::Error;
use crate::pattern::{regex_compiles, Pattern};

verus! {

/// The filters of one run: the expression that the path of a repository
/// has to match, and the one that its branch has to match, if any.
pub struct Flags {
    pub path: Pattern,
    pub branch: Option<Pattern>,
}

impl Flags {
    /// The filters of a run that names none: every path passes, and the
    /// branch is not looked at.
    pub fn new() -> (r: Result<Flags, Error>)
        ensures
            regex_compiles(".*"@) ==> (r matches Ok(flags) && flags.path@ == ".*"@ && flags.branch
                is None),
            !regex_compiles(".*"@) ==> (r matches Err(Error::Regex(_))),
    {
        match Pattern::new(".*") {
            Ok(path) => Ok(Flags { path, branch: None }),
            Err(error) => Err(error),
        }
    }
}

} // verus!
