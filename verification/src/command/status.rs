use vstd::prelude::*;
use vstd::string::StringExecFns;
use crate::error::Error;
use crate::filter::{admits, passes};
use crate::path::{join, joined};
use crate::pattern::{capture_views, regex_captures, regex_compiles, Pattern};
use crate::status::{convert_to_status, entry_views, status_of_code, EntryView, StatusEntry};
use crate::text::text_views;

verus! {

/// The expression that splits a line of porcelain status output into its
/// code and its path: two characters of any kind, a space, and the rest
/// of the line. Whether the two characters are a code is not for the
/// expression to say.
pub open spec fn splitter_source() -> Seq<char> {
    "^(..) (.*)"@
}

/// The pattern that splits a line of porcelain status output.
pub fn status_splitter() -> (r: Result<Pattern, Error>)
    ensures
        regex_compiles(splitter_source()) ==> (r matches Ok(pattern) && pattern@
            == splitter_source()),
        !regex_compiles(splitter_source()) ==> (r matches Err(Error::Regex(_))),
{
    Pattern::new("^(..) (.*)")
}

/// What a line of status output comes to.
pub enum Parsed {
    /// The line holds no code and is passed over.
    Skipped,
    /// The line reports a changed path.
    Entry(EntryView),
    /// The line holds a code outside the table of known codes.
    UnknownCode,
    /// The match lacks the group of the code or that of the path.
    Incomplete,
}

/// What the matches of the splitter in a line come to: without a match the
/// line is passed over; otherwise the first match gives the code in its
/// first group and the path, as seen from the repository, in its second.
/// A code outside the table is a failure, never passed over.
pub open spec fn parsed(
    branch: Seq<char>,
    repo: Seq<char>,
    matches: Seq<Seq<Option<Seq<char>>>>,
) -> Parsed {
    if matches.len() == 0 {
        Parsed::Skipped
    } else if matches[0].len() < 3 || matches[0][1] is None || matches[0][2] is None {
        Parsed::Incomplete
    } else {
        match status_of_code(matches[0][1]->0) {
            None => Parsed::UnknownCode,
            Some(status) => Parsed::Entry(
                EntryView { branch, status, path: joined(repo, matches[0][2]->0) },
            ),
        }
    }
}

/// Whether the outcome ends the work on a repository.
pub open spec fn is_failure(outcome: Parsed) -> bool {
    outcome is UnknownCode || outcome is Incomplete
}

/// Reads the entry out of the matches of the splitter in one line.
pub fn entry_of_captures(branch: &str, repo: &str, matches: &Vec<Vec<Option<String>>>) -> (r:
    Result<Option<StatusEntry>, Error>)
    ensures
        match parsed(branch@, repo@, capture_views(matches@)) {
            Parsed::Skipped => r matches Ok(None),
            Parsed::Entry(entry) => r matches Ok(Some(found)) && found@ == entry,
            Parsed::UnknownCode => r matches Err(Error::UnableToParseStatus),
            Parsed::Incomplete => r matches Err(Error::Absent),
        },
{
    if matches.len() == 0 {
        return Ok(None);
    }
    let groups = &matches[0];
    assert(capture_views(matches@)[0] == crate::pattern::group_views(groups@));
    if groups.len() < 3 {
        return Err(Error::Absent);
    }
    match (&groups[1], &groups[2]) {
        (Some(code), Some(file)) => {
            match convert_to_status(code.as_str()) {
                Ok(status) => {
                    let path = join(repo, file.as_str());
                    Ok(Some(StatusEntry::new(String::from_str(branch), status, path)))
                },
                Err(_) => Err(Error::UnableToParseStatus),
            }
        },
        _ => Err(Error::Absent),
    }
}

/// Reads the entry that one line of status output reports.
pub fn status_line(branch: &str, repo: &str, splitter: &Pattern, line: &str) -> (r: Result<
    Option<StatusEntry>,
    Error,
>)
    ensures
        match parsed(branch@, repo@, regex_captures(splitter@, line@)) {
            Parsed::Skipped => r matches Ok(None),
            Parsed::Entry(entry) => r matches Ok(Some(found)) && found@ == entry,
            Parsed::UnknownCode => r matches Err(Error::UnableToParseStatus),
            Parsed::Incomplete => r matches Err(Error::Absent),
        },
{
    let matches = splitter.captures(line);
    entry_of_captures(branch, repo, &matches)
}

/// What each of the lines comes to, in their order.
pub open spec fn outcomes(
    branch: Seq<char>,
    repo: Seq<char>,
    splitter: Seq<char>,
    lines: Seq<Seq<char>>,
) -> Seq<Parsed> {
    Seq::new(lines.len(), |i: int| parsed(branch, repo, regex_captures(splitter, lines[i])))
}

/// The index of the first failure at or after `from`, or the number of
/// outcomes where none fails.
pub open spec fn first_failure(outcomes: Seq<Parsed>, from: int) -> int
    decreases outcomes.len() - from,
{
    if from >= outcomes.len() || from < 0 {
        outcomes.len() as int
    } else if is_failure(outcomes[from]) {
        from
    } else {
        first_failure(outcomes, from + 1)
    }
}

/// The entries among the outcomes, in their order.
pub open spec fn entries_of(outcomes: Seq<Parsed>) -> Seq<EntryView> {
    outcomes.filter(|o: Parsed| o is Entry).map_values(|o: Parsed| o->Entry_0)
}

/// What a worker reports of one repository: the entries it read, and what
/// stopped it, if anything did.
#[derive(PartialEq, Eq, Clone, Debug)]
pub struct StatusBatch {
    pub entries: Vec<StatusEntry>,
    pub failure: Option<Error>,
}

/// Reads the status output of one repository line by line. A repository
/// that the branch filter turns away adds nothing to the report: no entry
/// and no failure. Otherwise the first line that fails ends the work: the
/// entries read before it are kept, and the failure is reported beside
/// them.
pub fn status_thread(
    branch_filter: &Option<Pattern>,
    branch: &str,
    repo: &str,
    splitter: &Pattern,
    lines: &Vec<String>,
) -> (r: StatusBatch)
    ensures
        !admits(*branch_filter, branch@) ==> r.entries@.len() == 0 && r.failure is None,
        admits(*branch_filter, branch@) ==> ({
            let all = outcomes(branch@, repo@, splitter@, text_views(lines@));
            let stop = first_failure(all, 0);
            &&& entry_views(r.entries@) == entries_of(all.take(stop))
            &&& stop == all.len() ==> r.failure is None
            &&& stop < all.len() ==> match all[stop] {
                Parsed::UnknownCode => r.failure matches Some(Error::UnableToParseStatus),
                _ => r.failure matches Some(Error::Absent),
            }
        }),
{
    let ghost all = outcomes(branch@, repo@, splitter@, text_views(lines@));
    let mut entries: Vec<StatusEntry> = Vec::new();
    if !passes(branch_filter, branch) {
        return StatusBatch { entries, failure: None };
    }
    let mut at: usize = 0;
    proof {
        assert(all.take(0) =~= Seq::<Parsed>::empty());
        assert(entry_views(entries@) =~= entries_of(all.take(0)));
    }
    while at < lines.len()
        invariant
            at <= lines.len(),
            admits(*branch_filter, branch@),
            all == outcomes(branch@, repo@, splitter@, text_views(lines@)),
            all.len() == lines.len(),
            first_failure(all, 0) == first_failure(all, at as int),
            entry_views(entries@) == entries_of(all.take(at as int)),
        decreases lines.len() - at,
    {
        let ghost before = entry_views(entries@);
        let ghost seen = all.take(at as int);
        proof {
            assert(text_views(lines@)[at as int] == lines@[at as int]@);
            assert(all.take(at + 1) =~= seen.push(all[at as int]));
            assert(seen.push(all[at as int]).drop_last() =~= seen);
            reveal_with_fuel(Seq::filter, 2);
        }
        match status_line(branch, repo, splitter, lines[at].as_str()) {
            Ok(Some(entry)) => {
                entries.push(entry);
                assert(entry_views(entries@) =~= before.push(entry@));
                assert(entry_views(entries@) =~= entries_of(all.take(at + 1)));
            },
            Ok(None) => {
                assert(entry_views(entries@) =~= entries_of(all.take(at + 1)));
            },
            Err(error) => {
                return StatusBatch { entries, failure: Some(error) };
            },
        }
        at += 1;
    }
    assert(all.take(at as int) =~= all);
    StatusBatch { entries, failure: None }
}

} // verus!
