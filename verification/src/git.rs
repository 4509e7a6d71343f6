use vstd::prelude::*;
use vstd::string::{StrSliceExecFns, StringExecFns};
use crate::error::Error;
use crate::text::{chars_of, text_views};

verus! {

/// A directory that may hold the repository of a path, and the path as
/// seen from that directory.
#[derive(PartialEq, Eq, Clone, Debug)]
pub struct Candidate {
    pub repo: String,
    pub relative: String,
}

/// What a [`Candidate`] holds, as plain mathematical values.
pub struct CandidateView {
    pub repo: Seq<char>,
    pub relative: Seq<char>,
}

impl View for Candidate {
    type V = CandidateView;

    open spec fn view(&self) -> CandidateView {
        CandidateView { repo: self.repo@, relative: self.relative@ }
    }
}

/// The views of a sequence of candidates, in the same order.
pub open spec fn candidate_views(candidates: Seq<Candidate>) -> Seq<CandidateView> {
    candidates.map_values(|c: Candidate| c@)
}

/// Whether the character at `at` is a component of its own that says
/// "this directory": a single dot between separators, or after one at the
/// end of the path. Such a component is no step of the path. A dot that
/// opens the path counts as a step.
pub open spec fn is_idle_dot(path: Seq<char>, at: int) -> bool {
    &&& 0 < at < path.len()
    &&& path[at - 1] == '/'
    &&& path[at] == '.'
    &&& (at + 1 == path.len() || path[at + 1] == '/')
}

/// Whether the character at `at` belongs to a step of the path: it is no
/// separator and no idle dot.
pub open spec fn in_step(path: Seq<char>, at: int) -> bool {
    0 <= at < path.len() && path[at] != '/' && !is_idle_dot(path, at)
}

/// Whether a step of the path starts at `at`.
pub open spec fn starts_step(path: Seq<char>, at: int) -> bool {
    in_step(path, at) && (at == 0 || path[at - 1] == '/')
}

/// Where the last step that starts before `end` ends; 0 where no step
/// starts before `end`.
pub open spec fn tail_before(path: Seq<char>, end: int) -> int
    decreases end,
{
    if end <= 0 {
        0
    } else if in_step(path, end - 1) {
        end
    } else {
        tail_before(path, end - 1)
    }
}

/// The directory that holds the step that starts at `at`: the path up to
/// the end of the step before it, and for a first step the root or, for a
/// path that does not start at the root, the current directory, written
/// as the empty path.
pub open spec fn directory_of(path: Seq<char>, at: int) -> Seq<char> {
    let tail = tail_before(path, at);
    if tail > 0 {
        path.take(tail)
    } else if path.len() > 0 && path[0] == '/' {
        seq!['/']
    } else {
        Seq::empty()
    }
}

/// The candidate for the step that starts at `at`: the directory that
/// holds the step, and the path from that step to its last step.
pub open spec fn candidate_at(path: Seq<char>, at: int) -> CandidateView {
    CandidateView {
        repo: directory_of(path, at),
        relative: path.subrange(at, tail_before(path, path.len() as int)),
    }
}

/// The candidates for the steps that start before `end`, the nearest
/// first.
pub open spec fn candidates_before(path: Seq<char>, end: int) -> Seq<CandidateView>
    decreases end,
{
    if end <= 0 {
        Seq::empty()
    } else if starts_step(path, end - 1) {
        seq![candidate_at(path, end - 1)] + candidates_before(path, end - 1)
    } else {
        candidates_before(path, end - 1)
    }
}

/// The directories above a path, from the nearest to the farthest, each
/// with the path as seen from it. Only directories strictly above the
/// path are candidates: separators that follow each other or end the
/// path, and idle dots, add none.
pub open spec fn candidates_of(path: Seq<char>) -> Seq<CandidateView> {
    candidates_before(path, path.len() as int)
}

/// The last step that starts before `end` reaches past every character
/// of a step before `end`.
pub proof fn lemma_tail_covers(path: Seq<char>, at: int, end: int)
    requires
        in_step(path, at),
        at < end <= path.len(),
    ensures
        at < tail_before(path, end) <= end,
    decreases end,
{
    if !in_step(path, end - 1) {
        lemma_tail_covers(path, at, end - 1);
    }
}

/// The last step that starts before `end` ends at or before `end`, and in
/// a character of a step.
pub proof fn lemma_tail_bounds(path: Seq<char>, end: int)
    requires
        0 <= end <= path.len(),
    ensures
        0 <= tail_before(path, end) <= end,
        tail_before(path, end) > 0 ==> in_step(path, tail_before(path, end) - 1),
    decreases end,
{
    if end > 0 && !in_step(path, end - 1) {
        lemma_tail_bounds(path, end - 1);
    }
}

/// Every candidate lies strictly above the path: the path as seen from it
/// is not empty, and the candidate is shorter than the path or is the
/// root.
pub proof fn lemma_candidates_are_proper(path: Seq<char>, end: int, at: int)
    requires
        0 <= end <= path.len(),
        0 <= at < candidates_before(path, end).len(),
    ensures
        candidates_before(path, end)[at].relative.len() > 0,
        candidates_before(path, end)[at].repo.len() < path.len(),
    decreases end,
{
    if starts_step(path, end - 1) {
        if at == 0 {
            lemma_tail_covers(path, end - 1, path.len() as int);
            lemma_tail_bounds(path, end - 1);
        } else {
            lemma_candidates_are_proper(path, end - 1, at - 1);
        }
    } else {
        lemma_candidates_are_proper(path, end - 1, at);
    }
}

/// The index of the first candidate that holds a repository, if any does.
/// A candidate that `holds` does not reach counts as holding none.
pub open spec fn first_holder(holds: Seq<bool>, count: int, from: int) -> Option<int>
    decreases count - from,
{
    if from >= count || from >= holds.len() || from < 0 {
        None
    } else if holds[from] {
        Some(from)
    } else {
        first_holder(holds, count, from + 1)
    }
}

/// Where the last step that starts before `end` ends.
fn tail(chars: &Vec<char>, end: usize) -> (r: usize)
    requires
        end <= chars@.len(),
    ensures
        r == tail_before(chars@, end as int),
        r <= end,
{
    let mut at = end;
    while at > 0 && (chars[at - 1] == '/' || idle_dot(chars, at - 1))
        invariant
            at <= end <= chars@.len(),
            tail_before(chars@, end as int) == tail_before(chars@, at as int),
        decreases at,
    {
        at -= 1;
    }
    at
}

/// Whether the character at `at` is an idle dot.
fn idle_dot(chars: &Vec<char>, at: usize) -> (r: bool)
    requires
        at < chars@.len(),
    ensures
        r == is_idle_dot(chars@, at as int),
{
    at > 0 && chars[at - 1] == '/' && chars[at] == '.' && (at == chars.len() - 1 || chars[at + 1]
        == '/')
}

/// Lists the directories in which the repository of `path` may lie: the
/// directories strictly above the path, the nearest first.
pub fn repo_candidates(path: &str) -> (r: Vec<Candidate>)
    ensures
        candidate_views(r@) == candidates_of(path@),
        forall|i: int| 0 <= i < r@.len() ==> (#[trigger] r@[i]).relative@.len() > 0,
{
    let chars = chars_of(path);
    let length = chars.len();
    let last = tail(&chars, length);
    let mut found: Vec<Candidate> = Vec::new();
    let mut end: usize = length;
    assert(candidate_views(found@) + candidates_before(path@, end as int) =~= candidates_of(
        path@,
    ));
    while end > 0
        invariant
            end <= length,
            length == path@.len(),
            chars@ == path@,
            last == tail_before(path@, length as int),
            candidate_views(found@) + candidates_before(path@, end as int) == candidates_of(
                path@,
            ),
            forall|i: int| 0 <= i < found@.len() ==> (#[trigger] found@[i]).relative@.len() > 0,
        decreases end,
    {
        let ghost before = candidate_views(found@);
        let at = end - 1;
        if chars[at] != '/' && !idle_dot(&chars, at) && (at == 0 || chars[at - 1] == '/') {
            let above = tail(&chars, at);
            let repo = if above > 0 {
                assert(path@.subrange(0, above as int) =~= path@.take(above as int));
                String::from_str(path.substring_char(0, above))
            } else if chars[0] == '/' {
                proof {
                    reveal_strlit("/");
                    assert("/"@ =~= seq!['/']);
                }
                String::from_str("/")
            } else {
                String::new()
            };
            proof {
                lemma_tail_covers(path@, at as int, length as int);
            }
            let relative = String::from_str(path.substring_char(at, last));
            let candidate = Candidate { repo, relative };
            assert(candidate@ == candidate_at(path@, at as int));
            found.push(candidate);
            assert(candidate_views(found@) =~= before.push(candidate@));
            assert(candidate_views(found@) + candidates_before(path@, at as int) =~= before
                + candidates_before(path@, end as int));
        }
        end -= 1;
    }
    assert(candidate_views(found@) =~= candidates_of(path@));
    found
}

/// Finds the repository that `path` lies in: the nearest directory
/// strictly above it that holds a repository, by what `holds` says of each
/// candidate of [`repo_candidates`] in turn. The answer is that directory
/// and the path as seen from it, which is never empty. Without such a
/// directory the answer is an error.
pub fn relative_to_repo(path: &str, holds: &Vec<bool>) -> (r: Result<(String, String), Error>)
    ensures
        match first_holder(holds@, candidates_of(path@).len() as int, 0) {
            Some(at) => r matches Ok(pair) && pair.0@ == candidates_of(path@)[at].repo && pair.1@
                == candidates_of(path@)[at].relative && pair.1@.len() > 0,
            None => r matches Err(Error::RelativeToRepo()),
        },
{
    let mut candidates = repo_candidates(path);
    let ghost all = candidates_of(path@);
    let count = candidates.len();
    let mut at: usize = 0;
    while at < count && at < holds.len()
        invariant
            count == candidates.len(),
            candidate_views(candidates@) == all,
            all == candidates_of(path@),
            forall|i: int| 0 <= i < count ==> (#[trigger] candidates@[i]).relative@.len() > 0,
            first_holder(holds@, count as int, 0) == first_holder(holds@, count as int, at as int),
        decreases count - at,
    {
        if holds[at] {
            let chosen = candidates.swap_remove(at);
            assert(chosen@ == all[at as int]);
            return Ok((chosen.repo, chosen.relative));
        }
        at += 1;
    }
    Err(Error::RelativeToRepo())
}

/// The name of the branch that a repository is on, from the lines that
/// asking for it printed: the first line, or `HEADLESS` where nothing was
/// printed.
pub open spec fn branch_name_of(lines: Seq<Seq<char>>) -> Seq<char> {
    if lines.len() == 0 {
        "HEADLESS"@
    } else {
        lines[0]
    }
}

/// Reads the name of the current branch out of what asking for it printed.
pub fn branch_name(lines: &Vec<String>) -> (r: String)
    ensures
        r@ == branch_name_of(text_views(lines@)),
{
    if lines.len() == 0 {
        String::from_str("HEADLESS")
    } else {
        assert(text_views(lines@)[0] == lines@[0]@);
        lines[0].clone()
    }
}

} // verus!
