use vstd::prelude::*;
use vstd::relations::*;
use crate::status::{EntryView, StatusEntry};
use crate::text::chars_of;

verus! {

/// Lexicographic order on text, character by character: a text comes before
/// every text that it is a proper start of, and two texts that differ are
/// ordered by the first character in which they differ.
pub open spec fn text_le(a: Seq<char>, b: Seq<char>) -> bool
    decreases a.len(),
{
    if a.len() == 0 {
        true
    } else if b.len() == 0 {
        false
    } else if a[0] == b[0] {
        text_le(a.drop_first(), b.drop_first())
    } else {
        a[0] < b[0]
    }
}

pub proof fn lemma_text_le_reflexive(a: Seq<char>)
    ensures
        text_le(a, a),
    decreases a.len(),
{
    if a.len() > 0 {
        lemma_text_le_reflexive(a.drop_first());
    }
}

pub proof fn lemma_text_le_antisymmetric(a: Seq<char>, b: Seq<char>)
    requires
        text_le(a, b),
        text_le(b, a),
    ensures
        a == b,
    decreases a.len(),
{
    if a.len() == 0 || b.len() == 0 {
        assert(a =~= b);
    } else {
        lemma_text_le_antisymmetric(a.drop_first(), b.drop_first());
        assert(a =~= seq![a[0]] + a.drop_first());
        assert(b =~= seq![b[0]] + b.drop_first());
    }
}

pub proof fn lemma_text_le_transitive(a: Seq<char>, b: Seq<char>, c: Seq<char>)
    requires
        text_le(a, b),
        text_le(b, c),
    ensures
        text_le(a, c),
    decreases a.len(),
{
    if a.len() > 0 && b.len() > 0 && c.len() > 0 && a[0] == b[0] && b[0] == c[0] {
        lemma_text_le_transitive(a.drop_first(), b.drop_first(), c.drop_first());
    }
}

pub proof fn lemma_text_le_total(a: Seq<char>, b: Seq<char>)
    ensures
        text_le(a, b) || text_le(b, a),
    decreases a.len(),
{
    if a.len() > 0 && b.len() > 0 && a[0] == b[0] {
        lemma_text_le_total(a.drop_first(), b.drop_first());
    }
}

/// The order in which a report shows its entries: by branch name, then by
/// tracking, then by staging, then by path.
pub open spec fn entry_le(a: EntryView, b: EntryView) -> bool {
    if a.branch != b.branch {
        text_le(a.branch, b.branch)
    } else if a.status.0 != b.status.0 {
        a.status.0.rank() < b.status.0.rank()
    } else if a.status.1 != b.status.1 {
        a.status.1.rank() < b.status.1.rank()
    } else {
        text_le(a.path, b.path)
    }
}

/// [`entry_le`] as a relation.
pub open spec fn key_order() -> spec_fn(EntryView, EntryView) -> bool {
    |a: EntryView, b: EntryView| entry_le(a, b)
}

/// The report order is a total order: any two entries are comparable, and
/// two entries that each come before the other are the same entry.
pub proof fn lemma_key_order_total()
    ensures
        total_ordering(key_order()),
{
    let r = key_order();
    assert forall|x: EntryView| #[trigger] r(x, x) by {
        lemma_text_le_reflexive(x.path);
    }
    assert forall|x: EntryView, y: EntryView| #[trigger] r(x, y) && #[trigger] r(y, x) implies x
        == y by {
        if x.branch != y.branch {
            lemma_text_le_antisymmetric(x.branch, y.branch);
        } else if x.status.0 == y.status.0 && x.status.1 == y.status.1 {
            lemma_text_le_antisymmetric(x.path, y.path);
        }
    }
    assert forall|x: EntryView, y: EntryView, z: EntryView| #[trigger]
        r(x, y) && #[trigger] r(y, z) implies r(x, z) by {
        lemma_entry_le_transitive(x, y, z);
    }
    assert forall|x: EntryView, y: EntryView| #[trigger] r(x, y) || #[trigger] r(y, x) by {
        lemma_text_le_total(x.branch, y.branch);
        lemma_text_le_total(x.path, y.path);
    }
}

proof fn lemma_entry_le_transitive(x: EntryView, y: EntryView, z: EntryView)
    requires
        entry_le(x, y),
        entry_le(y, z),
    ensures
        entry_le(x, z),
{
    if x.branch != y.branch || y.branch != z.branch {
        if x.branch != y.branch && y.branch != z.branch {
            lemma_text_le_transitive(x.branch, y.branch, z.branch);
            if x.branch == z.branch {
                lemma_text_le_antisymmetric(x.branch, y.branch);
            }
        }
    } else if x.status == y.status && y.status == z.status {
        lemma_text_le_transitive(x.path, y.path, z.path);
    }
}

/// Whether `a` comes before `b`, or equals it, in lexicographic order.
pub fn text_precedes(a: &str, b: &str) -> (r: bool)
    ensures
        r == text_le(a@, b@),
{
    let x = chars_of(a);
    let y = chars_of(b);
    let mut i: usize = 0;
    assert(a@.skip(0) =~= a@ && b@.skip(0) =~= b@);
    while i < x.len() && i < y.len()
        invariant
            i <= x.len(),
            i <= y.len(),
            x@ == a@,
            y@ == b@,
            text_le(a@, b@) == text_le(a@.skip(i as int), b@.skip(i as int)),
        decreases x.len() - i,
    {
        let ghost ra = a@.skip(i as int);
        let ghost rb = b@.skip(i as int);
        assert(ra[0] == x@[i as int] && rb[0] == y@[i as int]);
        if x[i] != y[i] {
            assert(text_le(ra, rb) == (ra[0] < rb[0]));
            return x[i] < y[i];
        }
        assert(ra.drop_first() =~= a@.skip(i + 1));
        assert(rb.drop_first() =~= b@.skip(i + 1));
        i += 1;
    }
    x.len() <= y.len()
}

impl StatusEntry {
    /// Whether this entry stands at or before `other` in a report.
    pub fn precedes(&self, other: &StatusEntry) -> (r: bool)
        ensures
            r == entry_le(self@, other@),
    {
        if self.branch != other.branch {
            text_precedes(self.branch.as_str(), other.branch.as_str())
        } else if self.status.0 != other.status.0 {
            self.status.0.position() < other.status.0.position()
        } else if self.status.1 != other.status.1 {
            self.status.1.position() < other.status.1.position()
        } else {
            text_precedes(self.path.as_str(), other.path.as_str())
        }
    }
}

} // verus!
