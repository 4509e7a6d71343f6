use vstd::prelude::*;

verus! {

/// One thing to do to move a file between repositories.
#[derive(PartialEq, Eq, Clone, Debug)]
pub enum MvStep {
    /// Take the path out of the index and the working tree of the
    /// repository.
    Remove { repo: String, path: String },
    /// Move the file itself.
    Rename { from: String, to: String },
    /// Put the path into the index of the repository.
    Add { repo: String, path: String },
}

/// What an [`MvStep`] holds, as plain mathematical values.
pub enum MvStepView {
    Remove { repo: Seq<char>, path: Seq<char> },
    Rename { from: Seq<char>, to: Seq<char> },
    Add { repo: Seq<char>, path: Seq<char> },
}

impl View for MvStep {
    type V = MvStepView;

    open spec fn view(&self) -> MvStepView {
        match self {
            MvStep::Remove { repo, path } => MvStepView::Remove { repo: repo@, path: path@ },
            MvStep::Rename { from, to } => MvStepView::Rename { from: from@, to: to@ },
            MvStep::Add { repo, path } => MvStepView::Add { repo: repo@, path: path@ },
        }
    }
}

/// The views of a sequence of steps, in the same order.
pub open spec fn mv_step_views(steps: Seq<MvStep>) -> Seq<MvStepView> {
    steps.map_values(|s: MvStep| s@)
}

/// A file, the repository that holds it, and its path as seen from there.
pub struct Place {
    pub path: String,
    pub repo: String,
    pub relative: String,
}

/// The steps that move the file at `from` to `to`. Nothing is done for a
/// source that does not exist. A destination that exists is removed
/// first; then the file is moved, its old path removed and its new path
/// added.
pub open spec fn move_plan(
    from: (Seq<char>, Seq<char>, Seq<char>),
    to: (Seq<char>, Seq<char>, Seq<char>),
    from_exists: bool,
    to_exists: bool,
) -> Seq<MvStepView> {
    if !from_exists {
        Seq::empty()
    } else {
        let clear = if to_exists {
            seq![MvStepView::Remove { repo: to.1, path: to.2 }]
        } else {
            Seq::empty()
        };
        clear + seq![
            MvStepView::Rename { from: from.0, to: to.0 },
            MvStepView::Remove { repo: from.1, path: from.2 },
            MvStepView::Add { repo: to.1, path: to.2 },
        ]
    }
}

/// Plans the move of a file.
pub fn mv_steps(from: &Place, to: &Place, from_exists: bool, to_exists: bool) -> (r: Vec<MvStep>)
    ensures
        mv_step_views(r@) == move_plan(
            (from.path@, from.repo@, from.relative@),
            (to.path@, to.repo@, to.relative@),
            from_exists,
            to_exists,
        ),
{
    let mut steps: Vec<MvStep> = Vec::new();
    if from_exists {
        if to_exists {
            steps.push(MvStep::Remove { repo: to.repo.clone(), path: to.relative.clone() });
        }
        steps.push(MvStep::Rename { from: from.path.clone(), to: to.path.clone() });
        steps.push(MvStep::Remove { repo: from.repo.clone(), path: from.relative.clone() });
        steps.push(MvStep::Add { repo: to.repo.clone(), path: to.relative.clone() });
    }
    assert(mv_step_views(steps@) =~= move_plan(
        (from.path@, from.repo@, from.relative@),
        (to.path@, to.repo@, to.relative@),
        from_exists,
        to_exists,
    ));
    steps
}

} // verus!
