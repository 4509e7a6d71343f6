use vstd::prelude::*;
use vstd::string::StringExecFns;
use vstd::relations::sorted_by;
use crate::order::{key_order, lemma_key_order_total, lemma_text_le_antisymmetric};
use crate::sort::{lemma_sorted_views_unique, sort_entries, sorted_views};
use crate::status::{entry_views, EntryView, Staging, StatusEntry, Tracking};

verus! {

/// A colour that a piece of a report can be shown in.
#[derive(PartialEq, Eq, Clone, Copy, Debug, Structural)]
pub enum Tint {
    Cyan,
    Red,
    Green,
}

/// A piece of report text, and the colour to show it in, if any.
#[derive(PartialEq, Eq, Clone, Debug)]
pub struct Span {
    pub text: String,
    pub tint: Option<Tint>,
}

/// What a [`Span`] holds, as plain mathematical values.
pub struct SpanView {
    pub text: Seq<char>,
    pub tint: Option<Tint>,
}

impl View for Span {
    type V = SpanView;

    open spec fn view(&self) -> SpanView {
        SpanView { text: self.text@, tint: self.tint }
    }
}

/// The views of a sequence of spans, in the same order.
pub open spec fn span_views(spans: Seq<Span>) -> Seq<SpanView> {
    spans.map_values(|s: Span| s@)
}

/// Uncoloured text.
pub open spec fn plain(text: Seq<char>) -> SpanView {
    SpanView { text, tint: None }
}

/// Text in the given colour.
pub open spec fn tinted(text: Seq<char>, tint: Tint) -> SpanView {
    SpanView { text, tint: Some(tint) }
}

/// The colour of the entries of a section: green for what is staged, red
/// for everything else.
pub open spec fn tint_of(tracking: Tracking) -> Tint {
    match tracking {
        Tracking::Staged => Tint::Green,
        _ => Tint::Red,
    }
}

/// Picks the colour for the entries of a section.
pub fn match_color(tracking: &Tracking) -> (r: Tint)
    ensures
        r == tint_of(*tracking),
{
    match *tracking {
        Tracking::Unstaged => Tint::Red,
        Tracking::Untracked => Tint::Red,
        Tracking::Unmerged => Tint::Red,
        _ => Tint::Green,
    }
}

/// The lines that open the section of a tracking state.
pub open spec fn title_text(tracking: Tracking) -> Seq<char> {
    match tracking {
        Tracking::Unstaged =>
            "Changes not staged for commit:\n  (use \"git add <file>...\" to include in what will be committed)\n\n"@,
        Tracking::Untracked =>
            "Untracked files:\n  (use \"git add <file>...\" to include in what will be committed)\n\n"@,
        Tracking::Unmerged =>
            "You have unmerged paths.\n  (fix conflicts and run \"git commit\")\n  (use \"git merge --abort\" to abort the merge)\n\nUnmerged paths:\n  (use \"git add <file>...\" to mark resolution)\n"@,
        Tracking::Staged => "Changes to be commited:\n\n"@,
    }
}

/// The title of the section of a tracking state, with the hints below it.
pub fn section_title(tracking: &Tracking) -> (r: &'static str)
    ensures
        r@ == title_text(*tracking),
{
    match *tracking {
        Tracking::Unstaged =>
            "Changes not staged for commit:\n  (use \"git add <file>...\" to include in what will be committed)\n\n",
        Tracking::Untracked =>
            "Untracked files:\n  (use \"git add <file>...\" to include in what will be committed)\n\n",
        Tracking::Unmerged =>
            "You have unmerged paths.\n  (fix conflicts and run \"git commit\")\n  (use \"git merge --abort\" to abort the merge)\n\nUnmerged paths:\n  (use \"git add <file>...\" to mark resolution)\n",
        _ => "Changes to be commited:\n\n",
    }
}

/// What stands in front of the path of an entry.
pub open spec fn label_span(staging: Staging, tint: Tint) -> SpanView {
    match staging {
        Staging::Modified => tinted("        modified:   "@, tint),
        Staging::Deleted => tinted("        deleted:   "@, tint),
        Staging::Added => tinted("        new file:   "@, tint),
        Staging::BothModified => tinted("        both modified:   "@, tint),
        Staging::Untracked => plain("        "@),
    }
}

/// The label of an entry, in the colour of its section.
pub fn staging_label(staging: &Staging, tint: Tint) -> (r: Span)
    ensures
        r@ == label_span(*staging, tint),
{
    match *staging {
        Staging::Modified => Span {
            text: String::from_str("        modified:   "),
            tint: Some(tint),
        },
        Staging::Deleted => Span { text: String::from_str("        deleted:   "), tint: Some(tint) },
        Staging::Added => Span { text: String::from_str("        new file:   "), tint: Some(tint) },
        Staging::BothModified => Span {
            text: String::from_str("        both modified:   "),
            tint: Some(tint),
        },
        _ => Span { text: String::from_str("        "), tint: None },
    }
}

/// Whether the entry at `index` opens a new branch: it is the first entry,
/// or its branch differs from that of the entry before it.
pub open spec fn shows_branch(entries: Seq<EntryView>, index: int) -> bool {
    index == 0 || entries[index].branch != entries[index - 1].branch
}

/// Whether the entry at `index` opens a new section: it opens a new
/// branch, or its tracking differs from that of the entry before it.
pub open spec fn shows_tracking(entries: Seq<EntryView>, index: int) -> bool {
    shows_branch(entries, index) || entries[index].status.0 != entries[index - 1].status.0
}

/// The line of the entry itself: label, path, end of line.
pub open spec fn entry_line(entry: EntryView) -> Seq<SpanView> {
    seq![
        label_span(entry.status.1, tint_of(entry.status.0)),
        tinted(entry.path, tint_of(entry.status.0)),
        plain("\n"@),
    ]
}

/// The branch header.
pub open spec fn branch_header(branch: Seq<char>) -> Seq<SpanView> {
    seq![plain("\n"@), plain("on branch "@), tinted(branch, Tint::Cyan), plain("\n"@)]
}

/// The header of a section. Directly under a branch header it starts at
/// once; elsewhere an empty line sets it off from the section before.
pub open spec fn section_header(tracking: Tracking, under_branch: bool) -> Seq<SpanView> {
    if under_branch {
        seq![plain(title_text(tracking))]
    } else {
        seq![plain("\n"@), plain(title_text(tracking))]
    }
}

/// Everything that the report shows for the entry at `index`: the headers
/// that this entry opens, then its line.
pub open spec fn entry_block(entries: Seq<EntryView>, index: int) -> Seq<SpanView> {
    let entry = entries[index];
    let branch = if shows_branch(entries, index) {
        branch_header(entry.branch)
    } else {
        Seq::empty()
    };
    let section = if shows_tracking(entries, index) {
        section_header(entry.status.0, shows_branch(entries, index))
    } else {
        Seq::empty()
    };
    branch + section + entry_line(entry)
}

/// The blocks of the first `count` entries, one after the other.
pub open spec fn report_prefix(entries: Seq<EntryView>, count: nat) -> Seq<SpanView>
    decreases count,
{
    if count == 0 {
        Seq::empty()
    } else {
        report_prefix(entries, (count - 1) as nat) + entry_block(entries, count - 1)
    }
}

/// The report of entries that stand in the order given.
pub open spec fn layout(entries: Seq<EntryView>) -> Seq<SpanView> {
    report_prefix(entries, entries.len())
}

/// The report of a collection of entries: they are put in report order
/// and laid out.
pub open spec fn status_report(entries: Seq<EntryView>) -> Seq<SpanView> {
    layout(sorted_views(entries))
}

/// One step of a walk over the entries of a report.
pub struct StatusIteration<'a> {
    pub msg: &'a StatusEntry,
    pub print_branch: bool,
    pub print_tracking: bool,
    pub color: Tint,
}

/// A walk over the entries of a report that tells, for each entry, which
/// headers it opens.
pub struct StatusIterator<'a> {
    statuses: &'a Vec<StatusEntry>,
    index: usize,
}

impl<'a> StatusIterator<'a> {
    /// The entries that the walk goes over.
    pub closed spec fn entries(&self) -> Seq<StatusEntry> {
        self.statuses@
    }

    /// The number of entries that the walk has passed.
    pub closed spec fn passed(&self) -> nat {
        self.index as nat
    }

    /// A walk that starts at the first of the entries.
    pub fn new(statuses: &'a Vec<StatusEntry>) -> (r: Self)
        ensures
            r.entries() == statuses@,
            r.passed() == 0,
    {
        StatusIterator { statuses, index: 0 }
    }

    /// Hands out the next entry with its flags, or `None` when every entry
    /// has been passed.
    pub fn next(&mut self) -> (r: Option<StatusIteration<'a>>)
        ensures
            final(self).entries() == old(self).entries(),
            old(self).passed() >= old(self).entries().len() ==> r is None && final(self).passed()
                == old(self).passed(),
            old(self).passed() < old(self).entries().len() ==> {
                let all = entry_views(old(self).entries());
                let at = old(self).passed() as int;
                &&& final(self).passed() == old(self).passed() + 1
                &&& r matches Some(step)
                &&& *step.msg == old(self).entries()[at]
                &&& step.print_branch == shows_branch(all, at)
                &&& step.print_tracking == shows_tracking(all, at)
                &&& step.color == tint_of(all[at].status.0)
            },
    {
        if self.statuses.len() <= self.index {
            None
        } else {
            let index = self.index;
            let status = &self.statuses[index];
            let color = match_color(&status.status.0);
            self.index += 1;
            if index == 0 {
                Some(StatusIteration { msg: status, print_branch: true, print_tracking: true, color })
            } else {
                let previous_status = &self.statuses[index - 1];
                let print_branch = status.branch != previous_status.branch;
                let print_tracking = print_branch || status.status.0 != previous_status.status.0;
                Some(StatusIteration { msg: status, print_branch, print_tracking, color })
            }
        }
    }
}

/// Lays out entries that already stand in report order.
pub fn layout_entries(sorted: &Vec<StatusEntry>) -> (spans: Vec<Span>)
    ensures
        span_views(spans@) == layout(entry_views(sorted@)),
{
    let ghost all = entry_views(sorted@);
    let mut spans: Vec<Span> = Vec::new();
    let mut walk = StatusIterator::new(sorted);
    assert(span_views(spans@) =~= report_prefix(all, 0));
    loop
        invariant
            walk.entries() == sorted@,
            walk.passed() <= sorted@.len(),
            all == entry_views(sorted@),
            span_views(spans@) == report_prefix(all, walk.passed()),
        ensures
            span_views(spans@) == layout(all),
        decreases sorted@.len() - walk.passed(),
    {
        let ghost at = walk.passed() as int;
        let ghost before = span_views(spans@);
        match walk.next() {
            None => {
                break ;
            },
            Some(step) => {
                let entry = step.msg;
                assert(entry@ == all[at]);
                if step.print_branch {
                    spans.push(Span { text: String::from_str("\n"), tint: None });
                    spans.push(Span { text: String::from_str("on branch "), tint: None });
                    spans.push(Span { text: entry.branch.clone(), tint: Some(Tint::Cyan) });
                    spans.push(Span { text: String::from_str("\n"), tint: None });
                }
                if step.print_tracking {
                    if !step.print_branch {
                        spans.push(Span { text: String::from_str("\n"), tint: None });
                    }
                    spans.push(
                        Span { text: String::from_str(section_title(&entry.status.0)), tint: None },
                    );
                }
                spans.push(staging_label(&entry.status.1, step.color));
                spans.push(Span { text: entry.path.clone(), tint: Some(step.color) });
                spans.push(Span { text: String::from_str("\n"), tint: None });
                assert(span_views(spans@) =~= before + entry_block(all, at));
            },
        }
    }
    spans
}

/// Renders the status report of the collected entries, in whatever order
/// they arrived: the entries are put in report order and laid out with as
/// few headers as possible.
pub fn render_status_report(entries: Vec<StatusEntry>) -> (spans: Vec<Span>)
    ensures
        span_views(spans@) == status_report(entry_views(entries@)),
{
    let sorted = sort_entries(entries);
    layout_entries(&sorted)
}

/// The report does not depend on the order in which the entries arrive:
/// two collections that hold the same entries, each as often, have the
/// same report.
pub proof fn lemma_report_ignores_arrival_order(first: Seq<EntryView>, second: Seq<EntryView>)
    requires
        first.to_multiset() == second.to_multiset(),
    ensures
        sorted_views(first) == sorted_views(second),
        status_report(first) == status_report(second),
{
    lemma_key_order_total();
    second.lemma_sort_by_ensures(key_order());
    lemma_sorted_views_unique(first, sorted_views(second));
}

/// An entry that follows an entry of the same branch and the same tracking
/// opens no header, whatever the staging of the two: the report shows its
/// line and nothing else.
pub proof fn lemma_no_header_within_section(entries: Seq<EntryView>, index: int)
    requires
        0 < index < entries.len(),
        entries[index].branch == entries[index - 1].branch,
        entries[index].status.0 == entries[index - 1].status.0,
    ensures
        !shows_branch(entries, index),
        !shows_tracking(entries, index),
        entry_block(entries, index) == entry_line(entries[index]),
{
    assert(entry_block(entries, index) =~= entry_line(entries[index]));
}

/// Every entry is shown: whatever headers an entry opens, its block ends
/// with its own line.
pub proof fn lemma_block_ends_with_line(entries: Seq<EntryView>, index: int)
    requires
        0 <= index < entries.len(),
    ensures
        entry_block(entries, index).len() >= 3,
        entry_block(entries, index).subrange(
            entry_block(entries, index).len() - 3,
            entry_block(entries, index).len() as int,
        ) == entry_line(entries[index]),
{
    let block = entry_block(entries, index);
    assert(block.subrange(block.len() - 3, block.len() as int) =~= entry_line(entries[index]));
}

/// Rendering is repeatable: whatever two renderings of the same entries
/// return, they hold the same spans. Entries that already stand in report
/// order render as they would in any other order.
pub proof fn lemma_report_repeatable(entries: Seq<EntryView>, first: Seq<Span>, second: Seq<Span>)
    requires
        span_views(first) == status_report(entries),
        span_views(second) == status_report(entries),
    ensures
        span_views(first) == span_views(second),
        status_report(sorted_views(entries)) == status_report(entries),
{
    lemma_key_order_total();
    entries.lemma_sort_by_ensures(key_order());
    lemma_report_ignores_arrival_order(sorted_views(entries), entries);
}

/// In a report, the entries of a branch stand together: between two
/// entries of one branch, every entry is of that branch.
proof fn lemma_branch_stands_together(entries: Seq<EntryView>, first: int, last: int, at: int)
    requires
        sorted_by(entries, key_order()),
        0 <= first <= at <= last < entries.len(),
        entries[first].branch == entries[last].branch,
    ensures
        entries[at].branch == entries[first].branch,
{
    let order = key_order();
    if first < at && at < last {
        assert(order(entries[first], entries[at]));
        assert(order(entries[at], entries[last]));
        if entries[at].branch != entries[first].branch {
            lemma_text_le_antisymmetric(entries[first].branch, entries[at].branch);
        }
    }
}

/// A report names each branch once: of the entries of one branch, only
/// the first opens a branch header.
pub proof fn lemma_one_header_per_branch(entries: Seq<EntryView>, first: int, later: int)
    requires
        sorted_by(entries, key_order()),
        0 <= first < later < entries.len(),
        entries[first].branch == entries[later].branch,
    ensures
        !shows_branch(entries, later),
{
    lemma_branch_stands_together(entries, first, later, later - 1);
}

/// A report opens each section once: of the entries of one branch and one
/// tracking, only the first opens a section header.
pub proof fn lemma_one_header_per_section(entries: Seq<EntryView>, first: int, later: int)
    requires
        sorted_by(entries, key_order()),
        0 <= first < later < entries.len(),
        entries[first].branch == entries[later].branch,
        entries[first].status.0 == entries[later].status.0,
    ensures
        !shows_tracking(entries, later),
{
    let order = key_order();
    let before = entries[later - 1];
    lemma_branch_stands_together(entries, first, later, later - 1);
    if first < later - 1 {
        assert(order(entries[first], before));
        assert(order(before, entries[later]));
    }
}

} // verus!
