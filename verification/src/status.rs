use vstd::prelude::*;
use crate::error::Error;
use crate::text::chars_of;

verus! {

/// How a changed path relates to the index and the working tree.
///
/// The variants are declared in display priority: sections of a report
/// appear in this order.
#[derive(PartialEq, Eq, PartialOrd, Ord, Clone, Copy, Debug, Structural)]
pub enum Tracking {
    Staged,
    Unmerged,
    Unstaged,
    Untracked,
}

/// The nature of a change.
#[derive(PartialEq, Eq, PartialOrd, Ord, Clone, Copy, Debug, Structural)]
pub enum Staging {
    Added,
    Deleted,
    Modified,
    BothModified,
    Untracked,
}

/// The status of a changed path: how it is tracked, and what happened to
/// it.
pub type Status = (Tracking, Staging);

impl Tracking {
    /// Position of the variant in the display order.
    pub open spec fn rank(self) -> nat {
        match self {
            Tracking::Staged => 0,
            Tracking::Unmerged => 1,
            Tracking::Unstaged => 2,
            Tracking::Untracked => 3,
        }
    }

    /// Position of the variant in the display order, as a number.
    pub fn position(&self) -> (r: u8)
        ensures
            r == self.rank(),
    {
        match self {
            Tracking::Staged => 0,
            Tracking::Unmerged => 1,
            Tracking::Unstaged => 2,
            Tracking::Untracked => 3,
        }
    }
}

impl Staging {
    /// Position of the variant in the display order.
    pub open spec fn rank(self) -> nat {
        match self {
            Staging::Added => 0,
            Staging::Deleted => 1,
            Staging::Modified => 2,
            Staging::BothModified => 3,
            Staging::Untracked => 4,
        }
    }

    /// Position of the variant in the display order, as a number.
    pub fn position(&self) -> (r: u8)
        ensures
            r == self.rank(),
    {
        match self {
            Staging::Added => 0,
            Staging::Deleted => 1,
            Staging::Modified => 2,
            Staging::BothModified => 3,
            Staging::Untracked => 4,
        }
    }
}

/// One changed path of one repository, as a report shows it.
#[derive(PartialEq, Eq, PartialOrd, Ord, Debug)]
pub struct StatusEntry {
    pub branch: String,
    pub status: Status,
    pub path: String,
}

/// What a [`StatusEntry`] holds, as plain mathematical values.
pub struct EntryView {
    pub branch: Seq<char>,
    pub status: Status,
    pub path: Seq<char>,
}

impl View for StatusEntry {
    type V = EntryView;

    open spec fn view(&self) -> EntryView {
        EntryView { branch: self.branch@, status: self.status, path: self.path@ }
    }
}

/// The views of a sequence of entries, in the same order.
pub open spec fn entry_views(entries: Seq<StatusEntry>) -> Seq<EntryView> {
    entries.map_values(|e: StatusEntry| e@)
}

impl StatusEntry {
    /// An entry of the given branch, status and path.
    pub fn new(branch: String, status: Status, path: String) -> (r: StatusEntry)
        ensures
            r@ == (EntryView { branch: branch@, status, path: path@ }),
    {
        StatusEntry { branch, status, path }
    }
}

impl Clone for StatusEntry {
    /// A copy that holds the same values.
    fn clone(&self) -> (r: StatusEntry)
        ensures
            r@ == self@,
    {
        StatusEntry { branch: self.branch.clone(), status: self.status, path: self.path.clone() }
    }
}

/// The status that a two-character porcelain code stands for, if any.
pub open spec fn status_of_code(code: Seq<char>) -> Option<Status> {
    if code == seq!['?', '?'] {
        Some((Tracking::Untracked, Staging::Untracked))
    } else if code == seq![' ', 'M'] {
        Some((Tracking::Unstaged, Staging::Modified))
    } else if code == seq![' ', 'A'] {
        Some((Tracking::Unstaged, Staging::Added))
    } else if code == seq![' ', 'D'] {
        Some((Tracking::Unstaged, Staging::Deleted))
    } else if code == seq!['M', ' '] {
        Some((Tracking::Staged, Staging::Modified))
    } else if code == seq!['A', ' '] {
        Some((Tracking::Staged, Staging::Added))
    } else if code == seq!['D', ' '] {
        Some((Tracking::Staged, Staging::Deleted))
    } else if code == seq!['U', 'U'] {
        Some((Tracking::Unmerged, Staging::BothModified))
    } else {
        None
    }
}

/// Reads a porcelain status code. Every code outside the table is an error.
pub fn convert_to_status(input: &str) -> (r: Result<Status, Error>)
    ensures
        match status_of_code(input@) {
            Some(status) => r == Ok::<Status, Error>(status),
            None => r matches Err(Error::UnableToParseStatus),
        },
{
    let code = chars_of(input);
    if code.len() != 2 {
        return Err(Error::UnableToParseStatus);
    }
    let x = code[0];
    let y = code[1];
    assert(code@ =~= seq![x, y]);
    if x == '?' && y == '?' {
        Ok((Tracking::Untracked, Staging::Untracked))
    } else if x == ' ' && y == 'M' {
        Ok((Tracking::Unstaged, Staging::Modified))
    } else if x == ' ' && y == 'A' {
        Ok((Tracking::Unstaged, Staging::Added))
    } else if x == ' ' && y == 'D' {
        Ok((Tracking::Unstaged, Staging::Deleted))
    } else if x == 'M' && y == ' ' {
        Ok((Tracking::Staged, Staging::Modified))
    } else if x == 'A' && y == ' ' {
        Ok((Tracking::Staged, Staging::Added))
    } else if x == 'D' && y == ' ' {
        Ok((Tracking::Staged, Staging::Deleted))
    } else if x == 'U' && y == 'U' {
        Ok((Tracking::Unmerged, Staging::BothModified))
    } else {
        Err(Error::UnableToParseStatus)
    }
}

} // verus!
