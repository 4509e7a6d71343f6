use vstd::prelude::*;
use vstd::string::StringExecFns;
use crate::path::{join, joined};
use crate::pattern::{regex_is_match, Pattern};
use crate::channel::DiscoveryMessage;
use crate::text::{same_text, text_views};

verus! {

/// What a scan needs to know of one entry of a directory.
#[derive(PartialEq, Eq, Clone, Debug)]
pub struct DirEntry {
    pub name: String,
    pub is_dir: bool,
}

/// What a [`DirEntry`] holds, as plain mathematical values.
pub struct DirEntryView {
    pub name: Seq<char>,
    pub is_dir: bool,
}

impl View for DirEntry {
    type V = DirEntryView;

    open spec fn view(&self) -> DirEntryView {
        DirEntryView { name: self.name@, is_dir: self.is_dir }
    }
}

/// The views of the entries of a listing, in the same order.
pub open spec fn listing_views(entries: Seq<DirEntry>) -> Seq<DirEntryView> {
    entries.map_values(|e: DirEntry| e@)
}

/// Whether the entry marks the directory that holds it as a repository
/// root: it bears the name `.git`, be it a directory or a file.
pub open spec fn is_marker(entry: DirEntryView) -> bool {
    entry.name == ".git"@
}

/// Whether the scan goes on below the entry: it is a directory, and no
/// marker.
pub open spec fn is_subdirectory(entry: DirEntryView) -> bool {
    entry.is_dir && entry.name != ".git"@
}

/// The repositories that the listing of `dir` gives: `dir` itself, once
/// for each marker in the listing, where the filter lets it through.
pub open spec fn repositories_in(
    dir: Seq<char>,
    entries: Seq<DirEntryView>,
    admitted: bool,
) -> Seq<Seq<char>> {
    if admitted {
        entries.filter(|e: DirEntryView| is_marker(e)).map_values(|e: DirEntryView| dir)
    } else {
        Seq::empty()
    }
}

/// The directories in the listing of `dir` other than a marker, in the
/// order of the listing.
pub open spec fn subdirectories(dir: Seq<char>, entries: Seq<DirEntryView>) -> Seq<Seq<char>> {
    entries.filter(|e: DirEntryView| is_subdirectory(e)).map_values(
        |e: DirEntryView| joined(dir, e.name),
    )
}

/// The directories that the listing of `dir` leaves to be read: none
/// where the listing yields `dir` as a repository, since a scan does not go
/// on below a repository that it found; otherwise the directories of the
/// listing.
pub open spec fn left_to_read(dir: Seq<char>, entries: Seq<DirEntryView>, admitted: bool) -> Seq<
    Seq<char>,
> {
    if repositories_in(dir, entries, admitted).len() > 0 {
        Seq::empty()
    } else {
        subdirectories(dir, entries)
    }
}

/// Whether the messages report exactly the paths, in their order.
pub open spec fn reports(send: Seq<DiscoveryMessage>, paths: Seq<Seq<char>>) -> bool {
    &&& send.len() == paths.len()
    &&& forall|i: int|
        0 <= i < send.len() ==> (#[trigger] send[i] matches DiscoveryMessage::Found(path) && path@
            == paths[i])
}

/// What a scan does next.
#[derive(PartialEq, Eq, Clone, Debug)]
pub enum ScanStep {
    /// Read this directory and hand in its listing, or the word that it
    /// could not be read.
    Read(String),
    /// Send the end message: every directory has been read.
    Done,
    /// Nothing: the end message has been sent.
    Stop,
}

/// The state of a walk over a directory tree in search of repositories:
/// the directories that are still to be read, and whether the end of the
/// walk has been announced.
pub struct Scanner {
    pending: Vec<String>,
    finished: bool,
}

impl Scanner {
    /// The directories still to be read; the last one is read next.
    pub closed spec fn pending(&self) -> Seq<Seq<char>> {
        text_views(self.pending@)
    }

    /// Whether the end message has been handed out.
    pub closed spec fn is_finished(&self) -> bool {
        self.finished
    }

    /// A walk that starts at the current directory.
    pub fn new() -> (r: Scanner)
        ensures
            r.pending() == seq!["."@],
            !r.is_finished(),
    {
        let mut pending: Vec<String> = Vec::new();
        pending.push(String::from_str("."));
        assert(text_views(pending@) =~= seq!["."@]);
        Scanner { pending, finished: false }
    }

    /// Says what to do next. While directories are left, the last of them
    /// is to be read. When none is left, the end message is due, once;
    /// after that nothing is.
    pub fn step(&mut self) -> (r: ScanStep)
        ensures
            final(self).pending() == if r is Read {
                old(self).pending().drop_last()
            } else {
                old(self).pending()
            },
            final(self).is_finished() == !(r is Read),
            old(self).is_finished() ==> r is Stop,
            !old(self).is_finished() && old(self).pending().len() == 0 ==> r is Done,
            !old(self).is_finished() && old(self).pending().len() > 0 ==> (r matches ScanStep::Read(
                dir,
            ) && dir@ == old(self).pending().last()),
    {
        if self.finished {
            return ScanStep::Stop;
        }
        match self.pending.pop() {
            Some(dir) => {
                assert(text_views(self.pending@) =~= text_views(old(self).pending@).drop_last());
                ScanStep::Read(dir)
            },
            None => {
                self.finished = true;
                ScanStep::Done
            },
        }
    }

    /// Takes in what reading `dir` gave. A directory that could not be
    /// read yields nothing and leaves the walk as it was, so that the scan
    /// goes on with the other directories. A listing yields `dir` once for
    /// each marker in it, where the filter matches `dir`, and nothing is
    /// read below a directory that was yielded; otherwise every directory
    /// of the listing but a marker is left to be read later.
    pub fn listed(&mut self, dir: &str, listing: Option<&Vec<DirEntry>>, filter: &Pattern) -> (send:
        Vec<DiscoveryMessage>)
        ensures
            final(self).is_finished() == old(self).is_finished(),
            listing is None || old(self).is_finished() ==> send@.len() == 0 && final(
                self
            ).pending() == old(self).pending(),
            listing is Some && !old(self).is_finished() ==> {
                let entries = listing_views(listing->0@);
                let admitted = regex_is_match(filter@, dir@);
                &&& reports(send@, repositories_in(dir@, entries, admitted))
                &&& final(self).pending() == old(self).pending() + left_to_read(
                    dir@,
                    entries,
                    admitted,
                )
            },
    {
        let mut send: Vec<DiscoveryMessage> = Vec::new();
        if self.finished {
            return send;
        }
        let entries = match listing {
            Some(entries) => entries,
            None => {
                return send;
            },
        };
        let ghost all = listing_views(entries@);
        let ghost admitted = regex_is_match(filter@, dir@);
        let ghost before = self.pending();
        let mut at: usize = 0;
        proof {
            assert(all.take(0) =~= Seq::<DirEntryView>::empty());
        }
        while at < entries.len()
            invariant
                at <= entries.len(),
                all == listing_views(entries@),
                admitted == regex_is_match(filter@, dir@),
                reports(send@, repositories_in(dir@, all.take(at as int), admitted)),
            decreases entries.len() - at,
        {
            let entry = &entries[at];
            let ghost seen = all.take(at as int);
            proof {
                assert(all.take(at + 1) =~= seen.push(entry@));
                assert(seen.push(entry@).drop_last() =~= seen);
                reveal_with_fuel(Seq::filter, 2);
            }
            if same_text(entry.name.as_str(), ".git") {
                if filter.is_match(dir) {
                    send.push(DiscoveryMessage::Found(String::from_str(dir)));
                }
            }
            at += 1;
        }
        assert(all.take(entries.len() as int) =~= all);
        if send.len() > 0 {
            assert(self.pending() =~= before + left_to_read(dir@, all, admitted));
            return send;
        }
        at = 0;
        proof {
            assert(all.take(0) =~= Seq::<DirEntryView>::empty());
            assert(self.pending() =~= before + subdirectories(dir@, all.take(0)));
        }
        while at < entries.len()
            invariant
                at <= entries.len(),
                all == listing_views(entries@),
                self.finished == old(self).finished,
                self.pending() == before + subdirectories(dir@, all.take(at as int)),
            decreases entries.len() - at,
        {
            let entry = &entries[at];
            let ghost seen = all.take(at as int);
            let ghost pending_before = text_views(self.pending@);
            proof {
                assert(all.take(at + 1) =~= seen.push(entry@));
                assert(seen.push(entry@).drop_last() =~= seen);
                reveal_with_fuel(Seq::filter, 2);
            }
            if entry.is_dir && !same_text(entry.name.as_str(), ".git") {
                let child = join(dir, entry.name.as_str());
                self.pending.push(child);
                assert(text_views(self.pending@) =~= pending_before.push(
                    joined(dir@, entry@.name),
                ));
            }
            proof {
                assert(self.pending() =~= before + subdirectories(dir@, all.take(at + 1)));
            }
            at += 1;
        }
        assert(all.take(entries.len() as int) =~= all);
        send
    }
}

/// Whether no two entries of a listing bear the same name.
pub open spec fn names_differ(entries: Seq<DirEntryView>) -> bool {
    forall|i: int, j: int|
        0 <= i < j < entries.len() ==> (#[trigger] entries[i]).name != (#[trigger] entries[j]).name
}

/// A listing without a marker names no repository.
pub proof fn lemma_no_marker_no_repository(dir: Seq<char>, entries: Seq<DirEntryView>)
    requires
        forall|i: int| 0 <= i < entries.len() ==> !is_marker(#[trigger] entries[i]),
    ensures
        repositories_in(dir, entries, true).len() == 0,
    decreases entries.len(),
{
    reveal_with_fuel(Seq::filter, 2);
    if entries.len() > 0 {
        lemma_no_marker_no_repository(dir, entries.drop_last());
    }
}

/// A directory is found at most once: in a listing whose entries bear
/// different names, at most one entry is a marker, so the listing yields
/// its directory once or not at all.
pub proof fn lemma_found_at_most_once(dir: Seq<char>, entries: Seq<DirEntryView>)
    requires
        names_differ(entries),
    ensures
        repositories_in(dir, entries, true).len() <= 1,
        forall|i: int|
            0 <= i < repositories_in(dir, entries, true).len() ==> repositories_in(
                dir,
                entries,
                true,
            )[i] == dir,
    decreases entries.len(),
{
    reveal_with_fuel(Seq::filter, 2);
    if entries.len() > 0 {
        let rest = entries.drop_last();
        assert(names_differ(rest)) by {
            assert forall|i: int, j: int| 0 <= i < j < rest.len() implies (#[trigger] rest[i]).name
                != (#[trigger] rest[j]).name by {
                assert(rest[i] == entries[i] && rest[j] == entries[j]);
            }
        }
        lemma_found_at_most_once(dir, rest);
        if is_marker(entries.last()) {
            assert forall|i: int| 0 <= i < rest.len() implies !is_marker(#[trigger] rest[i]) by {
                assert(rest[i] == entries[i]);
                assert(entries[i].name != entries[entries.len() - 1].name);
            }
            lemma_no_marker_no_repository(dir, rest);
        }
    }
}

/// Nothing below a repository is left to read: a listing that holds a
/// marker, under a filter that admits its directory, yields the directory
/// and leaves none of its directories to be read.
pub proof fn lemma_nothing_read_below_repository(
    dir: Seq<char>,
    entries: Seq<DirEntryView>,
    marker: int,
)
    requires
        0 <= marker < entries.len(),
        is_marker(entries[marker]),
    ensures
        repositories_in(dir, entries, true).len() > 0,
        left_to_read(dir, entries, true) == Seq::<Seq<char>>::empty(),
{
    let markers = entries.filter(|e: DirEntryView| is_marker(e));
    entries.lemma_filter_contains(|e: DirEntryView| is_marker(e), marker);
    assert(markers.contains(entries[marker]));
}

/// Under a filter that turns a directory away, and in a directory without
/// a marker, the scan goes on below: every directory of the listing is
/// left to be read.
pub proof fn lemma_scan_goes_on(dir: Seq<char>, entries: Seq<DirEntryView>, admitted: bool)
    requires
        !admitted || forall|i: int| 0 <= i < entries.len() ==> !is_marker(#[trigger] entries[i]),
    ensures
        repositories_in(dir, entries, admitted).len() == 0,
        left_to_read(dir, entries, admitted) == subdirectories(dir, entries),
{
    if admitted {
        lemma_no_marker_no_repository(dir, entries);
    }
}

/// The scan never goes below a marker: no directory that a listing leaves
/// to be read is the marker of the listed directory.
pub proof fn lemma_markers_are_not_read(dir: Seq<char>, entries: Seq<DirEntryView>, at: int)
    requires
        0 <= at < subdirectories(dir, entries).len(),
    ensures
        exists|i: int|
            0 <= i < entries.len() && is_subdirectory(#[trigger] entries[i]) && subdirectories(
                dir,
                entries,
            )[at] == joined(dir, entries[i].name),
{
    let kept = entries.filter(|e: DirEntryView| is_subdirectory(e));
    entries.lemma_filter_contains_rev(|e: DirEntryView| is_subdirectory(e), kept[at]);
    assert(kept.contains(kept[at]));
    let i = choose|i: int| 0 <= i < entries.len() && entries[i] == kept[at];
    assert(is_subdirectory(entries[i]));
}

} // verus!
