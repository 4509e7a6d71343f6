use vstd::prelude::*;
use crate::text::{same_text, text_views};

verus! {

/// One thing to do for a word of an `add` command line.
#[derive(PartialEq, Eq, Clone, Debug)]
pub enum AddStep {
    /// Stage what has changed, in every repository.
    Changed,
    /// Stage the file at this path, in the repository that holds it.
    Entry(String),
}

/// What an [`AddStep`] holds, as plain mathematical values.
pub enum AddStepView {
    Changed,
    Entry(Seq<char>),
}

impl View for AddStep {
    type V = AddStepView;

    open spec fn view(&self) -> AddStepView {
        match self {
            AddStep::Changed => AddStepView::Changed,
            AddStep::Entry(path) => AddStepView::Entry(path@),
        }
    }
}

/// The views of a sequence of steps, in the same order.
pub open spec fn step_views(steps: Seq<AddStep>) -> Seq<AddStepView> {
    steps.map_values(|s: AddStep| s@)
}

/// The steps for the first `count` words: `-u` stands for one step the
/// first time it occurs and for none after that, and every other word
/// names a file.
pub open spec fn steps_for(words: Seq<Seq<char>>, count: nat) -> Seq<AddStepView>
    decreases count,
{
    if count == 0 {
        Seq::empty()
    } else {
        let before = steps_for(words, (count - 1) as nat);
        let word = words[count - 1];
        if word != "-u"@ {
            before.push(AddStepView::Entry(word))
        } else if words.take(count - 1).contains("-u"@) {
            before
        } else {
            before.push(AddStepView::Changed)
        }
    }
}

/// Plans the work of an `add` command line from the words that follow the
/// name of the subcommand.
pub fn add_steps(words: &Vec<String>) -> (r: Vec<AddStep>)
    ensures
        step_views(r@) == steps_for(text_views(words@), words@.len()),
{
    let ghost all = text_views(words@);
    let mut steps: Vec<AddStep> = Vec::new();
    let mut minus_u = false;
    let mut at: usize = 0;
    assert(step_views(steps@) =~= steps_for(all, 0));
    while at < words.len()
        invariant
            at <= words.len(),
            all == text_views(words@),
            minus_u == all.take(at as int).contains("-u"@),
            step_views(steps@) == steps_for(all, at as nat),
        decreases words.len() - at,
    {
        let ghost before = step_views(steps@);
        let ghost seen = all.take(at as int);
        proof {
            assert(all[at as int] == words@[at as int]@);
            assert(all.take(at + 1) =~= seen.push(all[at as int]));
            assert(all.take(at + 1)[at as int] == all[at as int]);
            assert forall|j: int| 0 <= j < at implies seen[j] == #[trigger] all.take(at + 1)[j] by {}
        }
        if same_text(words[at].as_str(), "-u") {
            if !minus_u {
                minus_u = true;
                steps.push(AddStep::Changed);
                assert(step_views(steps@) =~= before.push(AddStepView::Changed));
            }
        } else {
            steps.push(AddStep::Entry(words[at].clone()));
            assert(step_views(steps@) =~= before.push(AddStepView::Entry(all[at as int])));
        }
        at += 1;
    }
    steps
}

} // verus!
