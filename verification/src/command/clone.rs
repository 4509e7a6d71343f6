use vstd::prelude::*;
use vstd::string::StringExecFns;
use crate::error::Error;
use crate::path::{join, joined};
use crate::pattern::{
    capture_views, group_views, regex_captures, regex_compiles, Pattern,
};
use crate::text::text_views;

verus! {

/// The expression that takes the address of a repository apart: the host,
/// the path on the host, and the ending that may follow.
pub open spec fn address_source() -> Seq<char> {
    "^([a-zA-Z0-9-]+@[a-zA-Z0-9.-]+:|https?://[a-zA-Z0-9.-]+/)([a-zA-Z/-]+)(\\.git)?"@
}

/// The pattern that takes the address of a repository apart.
pub fn address_pattern() -> (r: Result<Pattern, Error>)
    ensures
        regex_compiles(address_source()) ==> (r matches Ok(pattern) && pattern@
            == address_source()),
        !regex_compiles(address_source()) ==> (r matches Err(Error::Regex(_))),
{
    Pattern::new("^([a-zA-Z0-9-]+@[a-zA-Z0-9.-]+:|https?://[a-zA-Z0-9.-]+/)([a-zA-Z/-]+)(\\.git)?")
}

/// Whether every one of the first `count` matches holds the group of the
/// path.
pub open spec fn folders_known(matches: Seq<Seq<Option<Seq<char>>>>, count: int) -> bool {
    forall|i: int| 0 <= i < count ==> (#[trigger] matches[i]).len() >= 3 && matches[i][2] is Some
}

/// The folder to clone into for each match: the path on the host, below
/// the current directory.
pub open spec fn folders(matches: Seq<Seq<Option<Seq<char>>>>) -> Seq<Seq<char>> {
    matches.map_values(|m: Seq<Option<Seq<char>>>| joined("."@, m[2]->0))
}

/// Names the folder to clone into for each match of the address pattern.
/// A match without the group of the path is an error.
pub fn folders_of_captures(matches: &Vec<Vec<Option<String>>>) -> (r: Result<Vec<String>, Error>)
    ensures
        folders_known(capture_views(matches@), matches@.len() as int) ==> (r matches Ok(found)
            && text_views(found@) == folders(capture_views(matches@))),
        !folders_known(capture_views(matches@), matches@.len() as int) ==> (r matches Err(
            Error::Absent,
        )),
{
    let ghost all = capture_views(matches@);
    let mut out: Vec<String> = Vec::new();
    let mut at: usize = 0;
    while at < matches.len()
        invariant
            at <= matches.len(),
            all == capture_views(matches@),
            out.len() == at,
            folders_known(all, at as int),
            forall|i: int|
                0 <= i < at ==> #[trigger] text_views(out@)[i] == joined("."@, all[i][2]->0),
        decreases matches.len() - at,
    {
        let ghost before = text_views(out@);
        let groups = &matches[at];
        assert(all[at as int] == group_views(groups@));
        if groups.len() < 3 {
            return Err(Error::Absent);
        }
        match &groups[2] {
            Some(folder) => {
                let path = join(".", folder.as_str());
                out.push(path);
                assert(text_views(out@) =~= before.push(joined("."@, all[at as int][2]->0)));
            },
            None => {
                return Err(Error::Absent);
            },
        }
        at += 1;
    }
    assert(text_views(out@) =~= folders(all));
    Ok(out)
}

/// Names the folders to clone the repository at `url` into.
pub fn clone_folders(dirs: &Pattern, url: &str) -> (r: Result<Vec<String>, Error>)
    ensures
        ({
            let matches = regex_captures(dirs@, url@);
            &&& folders_known(matches, matches.len() as int) ==> (r matches Ok(found)
                && text_views(found@) == folders(matches))
            &&& !folders_known(matches, matches.len() as int) ==> (r matches Err(Error::Absent))
        }),
{
    let matches = dirs.captures(url);
    folders_of_captures(&matches)
}

} // verus!
