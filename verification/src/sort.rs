use vstd::prelude::*;
use vstd::relations::sorted_by;
use vstd::seq_lib::{lemma_sorted_unique, to_multiset_build, to_multiset_insert};
use crate::order::{entry_le, key_order, lemma_key_order_total};
use crate::status::{entry_views, EntryView, StatusEntry};

verus! {

/// The entries of `entries` in report order.
pub open spec fn sorted_views(entries: Seq<EntryView>) -> Seq<EntryView> {
    entries.sort_by(key_order())
}

/// A sequence in report order that holds the same entries as `entries`,
/// each as often, is `sorted_views(entries)`.
pub proof fn lemma_sorted_views_unique(entries: Seq<EntryView>, sorted: Seq<EntryView>)
    requires
        sorted_by(sorted, key_order()),
        sorted.to_multiset() == entries.to_multiset(),
    ensures
        sorted == sorted_views(entries),
{
    lemma_key_order_total();
    entries.lemma_sort_by_ensures(key_order());
    lemma_sorted_unique(sorted, sorted_views(entries), key_order());
}

/// An entry that is put behind everything that comes before it, and in
/// front of the first entry that does not, leaves the sequence in order.
proof fn lemma_insert_keeps_order(sorted: Seq<EntryView>, at: int, entry: EntryView)
    requires
        sorted_by(sorted, key_order()),
        0 <= at <= sorted.len(),
        forall|j: int| 0 <= j < at ==> entry_le(#[trigger] sorted[j], entry),
        at < sorted.len() ==> !entry_le(sorted[at], entry),
    ensures
        sorted_by(sorted.insert(at, entry), key_order()),
{
    lemma_key_order_total();
    let order = key_order();
    let now = sorted.insert(at, entry);
    assert forall|i: int, j: int| 0 <= i < j < now.len() implies #[trigger] order(
        now[i],
        now[j],
    ) by {
        if j < at {
            assert(order(sorted[i], sorted[j]));
        } else if j == at {
            assert(entry_le(sorted[i], entry));
        } else if i == at {
            assert(order(sorted[at], entry) || order(entry, sorted[at]));
            if j - 1 > at {
                assert(order(sorted[at], sorted[j - 1]));
            }
        } else if i < at {
            assert(order(sorted[i], sorted[j - 1]));
        } else {
            assert(order(sorted[i - 1], sorted[j - 1]));
        }
    }
}

/// Puts the entries in report order.
pub fn sort_entries(entries: Vec<StatusEntry>) -> (sorted: Vec<StatusEntry>)
    ensures
        entry_views(sorted@) == sorted_views(entry_views(entries@)),
{
    let ghost all = entry_views(entries@);
    let mut rest = entries;
    let mut sorted: Vec<StatusEntry> = Vec::new();
    proof {
        broadcast use vstd::multiset::group_multiset_axioms;
        broadcast use vstd::seq_lib::group_to_multiset_ensures;

        assert(entry_views(sorted@).to_multiset().len() == 0);
        assert(entry_views(sorted@).to_multiset().add(all.to_multiset()) =~= all.to_multiset());
    }
    while rest.len() > 0
        invariant
            sorted_by(entry_views(sorted@), key_order()),
            entry_views(sorted@).to_multiset().add(entry_views(rest@).to_multiset())
                == all.to_multiset(),
        decreases rest.len(),
    {
        let ghost before = entry_views(rest@);
        let ghost done = entry_views(sorted@);
        let entry = rest.pop().unwrap();
        let mut at: usize = 0;
        while at < sorted.len() && sorted[at].precedes(&entry)
            invariant
                at <= sorted.len(),
                done == entry_views(sorted@),
                forall|j: int| 0 <= j < at ==> entry_le(#[trigger] done[j], entry@),
            decreases sorted.len() - at,
        {
            at += 1;
        }
        sorted.insert(at, entry);
        proof {
            assert(before =~= entry_views(rest@).push(entry@));
            to_multiset_build(entry_views(rest@), entry@);
            assert(entry_views(sorted@) =~= done.insert(at as int, entry@));
            to_multiset_insert(done, at as int, entry@);
            lemma_insert_keeps_order(done, at as int, entry@);
        }
    }
    proof {
        broadcast use vstd::multiset::group_multiset_axioms;
        broadcast use vstd::seq_lib::group_to_multiset_ensures;

        assert(entry_views(rest@).to_multiset().len() == 0);
        assert(entry_views(sorted@).to_multiset() =~= all.to_multiset());
        lemma_sorted_views_unique(all, entry_views(sorted@));
    }
    sorted
}

} // verus!
