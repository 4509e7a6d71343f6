use vstd::prelude::*;

verus! {

/// Everything that can go wrong inside the library.
#[derive(PartialEq, Eq, Clone, Debug)]
pub enum Error {
    /// A value that had to be present was absent.
    Absent,
    /// A filter or replacement pattern did not compile; the message says why.
    Regex(String),
    /// No enclosing repository was found for a path.
    RelativeToRepo(),
    /// A status code outside the table of known codes.
    UnableToParseStatus,
}

} // verus!
