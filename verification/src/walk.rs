use vstd::prelude::*;
use crate::discovery::{
    is_marker, is_subdirectory, left_to_read, lemma_found_at_most_once,
    lemma_no_marker_no_repository, names_differ, repositories_in, subdirectories, DirEntryView,
};
use crate::path::joined;
use crate::pattern::regex_is_match;

verus! {

/// Where a walk over a tree stands: the directories still to be read, the
/// repositories sent so far, and whether the end has been announced.
pub struct WalkView {
    pub pending: Seq<Seq<char>>,
    pub sent: Seq<Seq<char>>,
    pub finished: bool,
}

/// The walk before its first step: the current directory is to be read.
pub open spec fn walk_start() -> WalkView {
    WalkView { pending: seq!["."@], sent: Seq::empty(), finished: false }
}

/// One step of a walk over `tree`, which gives each directory its listing,
/// or `None` where it cannot be read: the last pending directory is read
/// and its listing taken in; when none is pending, the walk ends. This is
/// what a [`crate::discovery::Scanner`] does with one `step` and the
/// `listed` that answers it, with the messages gathered in `sent`.
pub open spec fn walk_step(
    tree: spec_fn(Seq<char>) -> Option<Seq<DirEntryView>>,
    filter: Seq<char>,
    walk: WalkView,
) -> WalkView {
    if walk.finished || walk.pending.len() == 0 {
        WalkView { finished: true, ..walk }
    } else {
        let dir = walk.pending.last();
        let rest = walk.pending.drop_last();
        match tree(dir) {
            None => WalkView { pending: rest, ..walk },
            Some(entries) => {
                let admitted = regex_is_match(filter, dir);
                WalkView {
                    pending: rest + left_to_read(dir, entries, admitted),
                    sent: walk.sent + repositories_in(dir, entries, admitted),
                    ..walk
                }
            },
        }
    }
}

/// The walk after `steps` steps.
pub open spec fn walk_after(
    tree: spec_fn(Seq<char>) -> Option<Seq<DirEntryView>>,
    filter: Seq<char>,
    steps: nat,
) -> WalkView
    decreases steps,
{
    if steps == 0 {
        walk_start()
    } else {
        walk_step(tree, filter, walk_after(tree, filter, (steps - 1) as nat))
    }
}

/// Whether a text can name an entry of a directory: it is not empty and
/// holds no separator.
pub open spec fn is_name(name: Seq<char>) -> bool {
    name.len() > 0 && forall|i: int| 0 <= i < name.len() ==> name[i] != '/'
}

/// Whether a listing is one of a directory: its entries bear names, and no
/// two the same.
pub open spec fn well_named(entries: Seq<DirEntryView>) -> bool {
    &&& names_differ(entries)
    &&& forall|i: int| 0 <= i < entries.len() ==> is_name((#[trigger] entries[i]).name)
}

/// Whether every listing of the tree is one of a directory.
pub open spec fn is_tree(tree: spec_fn(Seq<char>) -> Option<Seq<DirEntryView>>) -> bool {
    forall|path: Seq<char>| (#[trigger] tree(path)) matches Some(entries) ==> well_named(entries)
}

/// Whether `outer` is `inner` itself or a directory above it.
pub open spec fn holds(outer: Seq<char>, inner: Seq<char>) -> bool {
    inner == outer || (inner.len() > outer.len() && inner.take(outer.len() as int) == outer
        && inner[outer.len() as int] == '/')
}

/// Whether neither path is the other or lies inside it.
pub open spec fn apart(first: Seq<char>, second: Seq<char>) -> bool {
    !holds(first, second) && !holds(second, first)
}

/// Whether a path can be that of a directory to read: it is not empty and
/// does not end in a separator.
pub open spec fn is_directory_path(path: Seq<char>) -> bool {
    path.len() > 0 && path.last() != '/'
}

/// Whether the walk is in good order: the pending and the sent paths all
/// lie apart from each other.
pub open spec fn in_order(walk: WalkView) -> bool {
    &&& forall|i: int| 0 <= i < walk.pending.len() ==> is_directory_path(#[trigger] walk.pending[i])
    &&& forall|i: int, j: int|
        0 <= i < j < walk.pending.len() ==> apart(#[trigger] walk.pending[i], #[trigger] walk.pending[j])
    &&& forall|i: int, j: int|
        0 <= i < j < walk.sent.len() ==> apart(#[trigger] walk.sent[i], #[trigger] walk.sent[j])
    &&& forall|i: int, j: int|
        0 <= i < walk.sent.len() && 0 <= j < walk.pending.len() ==> apart(
            #[trigger] walk.sent[i],
            #[trigger] walk.pending[j],
        )
}

/// A listing yields its directory only where it holds a marker and the
/// filter admits the directory, and what it yields is the directory.
pub proof fn lemma_yield_needs_marker(dir: Seq<char>, entries: Seq<DirEntryView>, admitted: bool)
    requires
        repositories_in(dir, entries, admitted).len() > 0,
    ensures
        admitted,
        exists|i: int| 0 <= i < entries.len() && is_marker(#[trigger] entries[i]),
        forall|i: int|
            0 <= i < repositories_in(dir, entries, admitted).len() ==> repositories_in(
                dir,
                entries,
                admitted,
            )[i] == dir,
{
    if forall|i: int| 0 <= i < entries.len() ==> !is_marker(#[trigger] entries[i]) {
        lemma_no_marker_no_repository(dir, entries);
    }
}

/// Whatever a walk has sent is a repository that the filter admits: its
/// listing holds a marker, and the filter matches its path.
pub proof fn lemma_sent_are_repositories(
    tree: spec_fn(Seq<char>) -> Option<Seq<DirEntryView>>,
    filter: Seq<char>,
    steps: nat,
    at: int,
)
    requires
        0 <= at < walk_after(tree, filter, steps).sent.len(),
    ensures
        regex_is_match(filter, walk_after(tree, filter, steps).sent[at]),
        tree(walk_after(tree, filter, steps).sent[at]) matches Some(entries) && exists|i: int|
            0 <= i < entries.len() && is_marker(#[trigger] entries[i]),
    decreases steps,
{
    if steps > 0 {
        let before = walk_after(tree, filter, (steps - 1) as nat);
        if at < before.sent.len() {
            lemma_sent_are_repositories(tree, filter, (steps - 1) as nat, at);
        } else {
            let dir = before.pending.last();
            let entries = tree(dir)->0;
            let admitted = regex_is_match(filter, dir);
            lemma_yield_needs_marker(dir, entries, admitted);
            assert(repositories_in(dir, entries, admitted)[at - before.sent.len()] == dir);
        }
    }
}

/// The path of the entry `name` of the directory `dir`.
pub open spec fn child(dir: Seq<char>, name: Seq<char>) -> Seq<char> {
    dir + seq!['/'] + name
}

/// Joining a directory and a name gives the path of the entry.
pub proof fn lemma_joined_is_child(dir: Seq<char>, name: Seq<char>)
    requires
        is_directory_path(dir),
        is_name(name),
    ensures
        joined(dir, name) == child(dir, name),
        is_directory_path(child(dir, name)),
{
    assert(name[0] != '/');
    assert(child(dir, name).last() == name.last());
}

/// What lies apart from a directory lies apart from its entries.
pub proof fn lemma_child_apart(path: Seq<char>, dir: Seq<char>, name: Seq<char>)
    requires
        apart(path, dir),
        is_name(name),
    ensures
        apart(path, child(dir, name)),
{
    let entry = child(dir, name);
    let d = dir.len() as int;
    assert(entry.take(d) =~= dir);
    assert(entry[d] == '/');
    assert forall|i: int| d < i < entry.len() implies entry[i] != '/' by {
        assert(entry[i] == name[i - d - 1]);
    }
    if holds(path, entry) {
        if path == entry {
            assert(holds(dir, path));
        } else {
            let p = path.len() as int;
            assert(p <= d);
            if p == d {
                assert(path =~= dir);
            } else {
                assert(dir.take(p) =~= entry.take(p));
                assert(dir[p] == entry[p]);
                assert(holds(path, dir));
            }
        }
    }
    if holds(entry, path) && path != entry {
        assert(path.take(d) =~= path.take(entry.len() as int).take(d));
        assert(path[d] == path.take(entry.len() as int)[d]);
        assert(holds(dir, path));
    }
}

/// Two entries of one directory that bear different names lie apart.
pub proof fn lemma_children_apart(dir: Seq<char>, first: Seq<char>, second: Seq<char>)
    requires
        is_name(first),
        is_name(second),
        first != second,
    ensures
        apart(child(dir, first), child(dir, second)),
{
    lemma_not_inside_sibling(dir, first, second);
    lemma_not_inside_sibling(dir, second, first);
}

proof fn lemma_not_inside_sibling(dir: Seq<char>, first: Seq<char>, second: Seq<char>)
    requires
        is_name(first),
        is_name(second),
        first != second,
    ensures
        !holds(child(dir, first), child(dir, second)),
{
    let a = child(dir, first);
    let b = child(dir, second);
    let d = dir.len() as int;
    if a == b {
        assert(first =~= a.skip(d + 1));
        assert(second =~= b.skip(d + 1));
    } else if b.len() > a.len() {
        assert(b[a.len() as int] == second[a.len() - d - 1]);
    }
}

/// The directories that a listing leaves to be read are entries of the
/// listed directory, and lie apart from each other.
pub proof fn lemma_subdirectories_are_children(dir: Seq<char>, entries: Seq<DirEntryView>)
    requires
        is_directory_path(dir),
        well_named(entries),
    ensures
        forall|a: int|
            0 <= a < subdirectories(dir, entries).len() ==> exists|i: int|
                0 <= i < entries.len() && #[trigger] subdirectories(dir, entries)[a] == child(
                    dir,
                    (#[trigger] entries[i]).name,
                ),
        forall|a: int, b: int|
            0 <= a < b < subdirectories(dir, entries).len() ==> apart(
                #[trigger] subdirectories(dir, entries)[a],
                #[trigger] subdirectories(dir, entries)[b],
            ),
    decreases entries.len(),
{
    reveal_with_fuel(Seq::filter, 2);
    let all = subdirectories(dir, entries);
    if entries.len() > 0 {
        let rest = entries.drop_last();
        let last = entries.last();
        assert(well_named(rest)) by {
            assert forall|i: int, j: int| 0 <= i < j < rest.len() implies (#[trigger] rest[i]).name
                != (#[trigger] rest[j]).name by {
                assert(rest[i] == entries[i] && rest[j] == entries[j]);
            }
            assert forall|i: int| 0 <= i < rest.len() implies is_name((#[trigger] rest[i]).name) by {
                assert(rest[i] == entries[i]);
            }
        }
        lemma_subdirectories_are_children(dir, rest);
        let before = subdirectories(dir, rest);
        assert forall|a: int| 0 <= a < before.len() implies exists|i: int|
            0 <= i < entries.len() - 1 && #[trigger] before[a] == child(
                dir,
                (#[trigger] entries[i]).name,
            ) by {
            let i = choose|i: int|
                0 <= i < rest.len() && #[trigger] before[a] == child(dir, (#[trigger] rest[i]).name);
            assert(rest[i] == entries[i]);
        }
        if is_subdirectory(last) {
            lemma_joined_is_child(dir, last.name);
            assert(all =~= before.push(child(dir, last.name)));
            assert forall|a: int, b: int| 0 <= a < b < all.len() implies apart(
                #[trigger] all[a],
                #[trigger] all[b],
            ) by {
                if b == all.len() - 1 {
                    let i = choose|i: int|
                        0 <= i < entries.len() - 1 && #[trigger] before[a] == child(
                            dir,
                            (#[trigger] entries[i]).name,
                        );
                    assert(entries[i].name != entries[entries.len() - 1].name);
                    lemma_children_apart(dir, entries[i].name, last.name);
                } else {
                    assert(all[a] == before[a] && all[b] == before[b]);
                }
            }
            assert forall|a: int| 0 <= a < all.len() implies exists|i: int|
                0 <= i < entries.len() && #[trigger] all[a] == child(
                    dir,
                    (#[trigger] entries[i]).name,
                ) by {
                if a == all.len() - 1 {
                    assert(all[a] == child(dir, entries[entries.len() - 1].name));
                } else {
                    assert(all[a] == before[a]);
                }
            }
        } else {
            assert(all =~= before);
        }
    }
}

/// A step keeps a walk over a tree in good order.
pub proof fn lemma_step_keeps_order(
    tree: spec_fn(Seq<char>) -> Option<Seq<DirEntryView>>,
    filter: Seq<char>,
    walk: WalkView,
)
    requires
        is_tree(tree),
        in_order(walk),
    ensures
        in_order(walk_step(tree, filter, walk)),
{
    let next = walk_step(tree, filter, walk);
    if !walk.finished && walk.pending.len() > 0 {
        let dir = walk.pending.last();
        let rest = walk.pending.drop_last();
        assert(dir == walk.pending[walk.pending.len() - 1]);
        assert forall|i: int| 0 <= i < rest.len() implies rest[i] == walk.pending[i] by {}
        if tree(dir) is Some {
            let entries = tree(dir)->0;
            let admitted = regex_is_match(filter, dir);
            let found = repositories_in(dir, entries, admitted);
            assert(well_named(entries));
            if found.len() > 0 {
                lemma_found_at_most_once(dir, entries);
                lemma_yield_needs_marker(dir, entries, admitted);
                assert(found =~= seq![dir]);
                assert(next.pending =~= rest);
                assert(next.sent =~= walk.sent.push(dir));
                assert forall|i: int, j: int| 0 <= i < j < next.sent.len() implies apart(
                    #[trigger] next.sent[i],
                    #[trigger] next.sent[j],
                ) by {
                    if j == walk.sent.len() {
                        assert(apart(walk.sent[i], walk.pending[walk.pending.len() - 1]));
                    }
                }
                assert forall|i: int, j: int|
                    0 <= i < next.sent.len() && 0 <= j < next.pending.len() implies apart(
                    #[trigger] next.sent[i],
                    #[trigger] next.pending[j],
                ) by {
                    if i == walk.sent.len() {
                        assert(apart(walk.pending[j], walk.pending[walk.pending.len() - 1]));
                    } else {
                        assert(apart(walk.sent[i], walk.pending[j]));
                    }
                }
            } else {
                let below = subdirectories(dir, entries);
                lemma_subdirectories_are_children(dir, entries);
                assert(next.sent =~= walk.sent);
                assert(next.pending =~= rest + below);
                assert forall|a: int| 0 <= a < below.len() implies is_directory_path(
                    #[trigger] below[a],
                ) && (forall|j: int| 0 <= j < rest.len() ==> apart(#[trigger] rest[j], below[a]))
                    && (forall|i: int|
                    0 <= i < walk.sent.len() ==> apart(#[trigger] walk.sent[i], below[a])) by {
                    let i = choose|i: int|
                        0 <= i < entries.len() && #[trigger] below[a] == child(
                            dir,
                            (#[trigger] entries[i]).name,
                        );
                    let name = entries[i].name;
                    lemma_joined_is_child(dir, name);
                    assert forall|j: int| 0 <= j < rest.len() implies apart(
                        #[trigger] rest[j],
                        below[a],
                    ) by {
                        assert(apart(walk.pending[j], walk.pending[walk.pending.len() - 1]));
                        lemma_child_apart(rest[j], dir, name);
                    }
                    assert forall|k: int| 0 <= k < walk.sent.len() implies apart(
                        #[trigger] walk.sent[k],
                        below[a],
                    ) by {
                        assert(apart(walk.sent[k], walk.pending[walk.pending.len() - 1]));
                        lemma_child_apart(walk.sent[k], dir, name);
                    }
                }
                assert forall|i: int, j: int| 0 <= i < j < next.pending.len() implies apart(
                    #[trigger] next.pending[i],
                    #[trigger] next.pending[j],
                ) by {
                    if j < rest.len() {
                        assert(apart(walk.pending[i], walk.pending[j]));
                    } else if i < rest.len() {
                        assert(apart(rest[i], below[j - rest.len()]));
                    } else {
                        assert(apart(below[i - rest.len()], below[j - rest.len()]));
                    }
                }
                assert forall|i: int| 0 <= i < next.pending.len() implies is_directory_path(
                    #[trigger] next.pending[i],
                ) by {
                    if i < rest.len() {
                        assert(is_directory_path(walk.pending[i]));
                    } else {
                        assert(is_directory_path(below[i - rest.len()]));
                    }
                }
                assert forall|i: int, j: int|
                    0 <= i < next.sent.len() && 0 <= j < next.pending.len() implies apart(
                    #[trigger] next.sent[i],
                    #[trigger] next.pending[j],
                ) by {
                    if j < rest.len() {
                        assert(apart(walk.sent[i], walk.pending[j]));
                    } else {
                        assert(apart(walk.sent[i], below[j - rest.len()]));
                    }
                }
            }
        } else {
            assert(next.pending =~= rest);
        }
    }
}

/// A walk over a tree is in good order after any number of steps.
pub proof fn lemma_walk_stays_in_order(
    tree: spec_fn(Seq<char>) -> Option<Seq<DirEntryView>>,
    filter: Seq<char>,
    steps: nat,
)
    requires
        is_tree(tree),
    ensures
        in_order(walk_after(tree, filter, steps)),
    decreases steps,
{
    if steps == 0 {
        reveal_strlit(".");
        assert("."@.len() == 1 && "."@[0] == '.');
    } else {
        lemma_walk_stays_in_order(tree, filter, (steps - 1) as nat);
        lemma_step_keeps_order(tree, filter, walk_after(tree, filter, (steps - 1) as nat));
    }
}

/// A walk over a tree sends each repository once, and none that lies
/// inside another one that it sends: any two paths that it has sent are
/// different, and neither lies inside the other.
pub proof fn lemma_repositories_lie_apart(
    tree: spec_fn(Seq<char>) -> Option<Seq<DirEntryView>>,
    filter: Seq<char>,
    steps: nat,
    first: int,
    second: int,
)
    requires
        is_tree(tree),
        0 <= first < second < walk_after(tree, filter, steps).sent.len(),
    ensures
        walk_after(tree, filter, steps).sent[first] != walk_after(tree, filter, steps).sent[second],
        !holds(
            walk_after(tree, filter, steps).sent[first],
            walk_after(tree, filter, steps).sent[second],
        ),
        !holds(
            walk_after(tree, filter, steps).sent[second],
            walk_after(tree, filter, steps).sent[first],
        ),
{
    lemma_walk_stays_in_order(tree, filter, steps);
}

} // verus!
