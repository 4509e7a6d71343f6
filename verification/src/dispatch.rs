use vstd::prelude::*;

verus! {

/// Where a dispatch stands.
#[derive(PartialEq, Eq, Clone, Copy, Debug, Structural)]
pub enum Phase {
    /// Items are pulled from the stream, and a worker is started for each.
    Pulling,
    /// The stream is exhausted, and the workers are waited for.
    Joining,
    /// Every worker has been waited for.
    Done,
    /// A worker could not be waited for, and the dispatch was given up.
    Broken,
}

/// How waiting for a worker ended.
#[derive(PartialEq, Eq, Clone, Copy, Debug, Structural)]
pub enum JoinResult {
    /// The worker did its work.
    Succeeded,
    /// The worker ran into an error, which it caught and reported.
    Failed,
    /// The worker went away without handing anything back.
    Lost,
}

/// What the caller of a dispatch does next.
#[derive(PartialEq, Eq, Clone, Debug)]
pub enum Step<P> {
    /// Start a worker for the item, and pull the next item.
    Spawn(P),
    /// Wait for the worker that was started as the one of this number,
    /// counting from zero.
    Join(usize),
    /// Return: every worker has been waited for.
    Complete,
    /// Give up: a worker could not be waited for.
    Abort,
}

/// What a dispatch keeps count of, as plain mathematical values.
pub struct DispatchView {
    pub phase: Phase,
    pub spawned: nat,
    pub joined: nat,
    pub failed: nat,
}

/// The state in which a dispatch starts.
pub open spec fn start() -> DispatchView {
    DispatchView { phase: Phase::Pulling, spawned: 0, joined: 0, failed: 0 }
}

/// The state after the stream yielded an item (`found`) or its end.
pub open spec fn after_pull(state: DispatchView, found: bool) -> DispatchView {
    if found {
        DispatchView { spawned: state.spawned + 1, ..state }
    } else if state.spawned == 0 {
        DispatchView { phase: Phase::Done, ..state }
    } else {
        DispatchView { phase: Phase::Joining, ..state }
    }
}

/// What a dispatch answers to what the stream yielded: an item starts a
/// worker for that very item; the end of the stream starts the wait for
/// the first worker, or completes the dispatch where none was started.
pub open spec fn asked<P>(state: DispatchView, item: Option<P>) -> Step<P> {
    match item {
        Some(path) => Step::Spawn(path),
        None => if state.spawned == 0 {
            Step::Complete
        } else {
            Step::Join(0)
        },
    }
}

/// The state after a worker was waited for. A worker that failed counts
/// like one that succeeded; only one that is lost ends the dispatch.
pub open spec fn after_join(state: DispatchView, result: JoinResult) -> DispatchView {
    match result {
        JoinResult::Lost => DispatchView { phase: Phase::Broken, ..state },
        _ => {
            let failed = if result == JoinResult::Failed {
                state.failed + 1
            } else {
                state.failed
            };
            let phase = if state.joined + 1 == state.spawned {
                Phase::Done
            } else {
                Phase::Joining
            };
            DispatchView { phase, joined: state.joined + 1, failed, ..state }
        },
    }
}

/// The fan-out of one worker per item and the wait for all of them, as a
/// state machine: its caller pulls the items, starts and joins the
/// workers, and is told each time what to do next.
#[derive(Clone, Copy)]
pub struct Dispatcher {
    phase: Phase,
    spawned: usize,
    joined: usize,
    failed: usize,
}

impl View for Dispatcher {
    type V = DispatchView;

    closed spec fn view(&self) -> DispatchView {
        DispatchView {
            phase: self.phase,
            spawned: self.spawned as nat,
            joined: self.joined as nat,
            failed: self.failed as nat,
        }
    }
}

impl Dispatcher {
    /// The counts are consistent: no more workers were waited for than
    /// were started, no more failed than were waited for, and the phase
    /// agrees with the counts.
    pub open spec fn well_formed(state: DispatchView) -> bool {
        &&& state.failed <= state.joined <= state.spawned
        &&& state.phase is Pulling ==> state.joined == 0
        &&& state.phase is Joining ==> state.joined < state.spawned
        &&& state.phase is Done ==> state.joined == state.spawned
    }

    #[verifier::type_invariant]
    spec fn consistent(self) -> bool {
        Self::well_formed(self@)
    }

    /// A dispatch that has pulled nothing yet.
    pub fn new() -> (r: Dispatcher)
        ensures
            r@ == start(),
    {
        Dispatcher { phase: Phase::Pulling, spawned: 0, joined: 0, failed: 0 }
    }

    /// Where the dispatch stands.
    pub fn phase(&self) -> (r: Phase)
        ensures
            r == self@.phase,
    {
        self.phase
    }

    /// The number of workers started so far.
    pub fn spawned(&self) -> (r: usize)
        ensures
            r == self@.spawned,
    {
        self.spawned
    }

    /// The number of workers waited for so far.
    pub fn joined(&self) -> (r: usize)
        ensures
            r == self@.joined,
    {
        self.joined
    }

    /// The number of workers that ended in a failure so far.
    pub fn failed(&self) -> (r: usize)
        ensures
            r == self@.failed,
    {
        self.failed
    }

    /// Takes in what the stream yielded. An item starts a worker; the end
    /// of the stream starts the wait for the workers, or completes the
    /// dispatch at once where none was started.
    pub fn pulled<P>(&mut self, item: Option<P>) -> (r: Step<P>)
        requires
            old(self)@.phase is Pulling,
            old(self)@.spawned < usize::MAX,
        ensures
            final(self)@ == after_pull(old(self)@, item is Some),
            Self::well_formed(final(self)@),
            r == asked(old(self)@, item),
    {
        proof {
            use_type_invariant(&*self);
        }
        match item {
            Some(path) => {
                *self = Dispatcher { spawned: self.spawned + 1, ..*self };
                Step::Spawn(path)
            },
            None => {
                if self.spawned == 0 {
                    *self = Dispatcher { phase: Phase::Done, ..*self };
                    Step::Complete
                } else {
                    *self = Dispatcher { phase: Phase::Joining, ..*self };
                    Step::Join(0)
                }
            },
        }
    }

    /// Takes in how the wait for a worker ended. The workers are waited
    /// for in the order in which they were started; a worker that failed
    /// holds nothing up, and a worker that is lost ends the dispatch.
    pub fn waited(&mut self, result: JoinResult) -> (r: Step<()>)
        requires
            old(self)@.phase is Joining,
        ensures
            final(self)@ == after_join(old(self)@, result),
            Self::well_formed(final(self)@),
            match final(self)@.phase {
                Phase::Broken => r is Abort,
                Phase::Done => r is Complete,
                _ => r == Step::<()>::Join(final(self)@.joined as usize),
            },
    {
        proof {
            use_type_invariant(&*self);
        }
        match result {
            JoinResult::Lost => {
                *self = Dispatcher { phase: Phase::Broken, ..*self };
                Step::Abort
            },
            _ => {
                let failed = if result == JoinResult::Failed {
                    self.failed + 1
                } else {
                    self.failed
                };
                let joined = self.joined + 1;
                if joined == self.spawned {
                    *self = Dispatcher { phase: Phase::Done, joined, failed, ..*self };
                    Step::Complete
                } else {
                    *self = Dispatcher { joined, failed, ..*self };
                    Step::Join(joined)
                }
            },
        }
    }
}

/// The state of a fresh dispatch after the stream yielded `count` items.
pub open spec fn after_pulls(count: nat) -> DispatchView
    decreases count,
{
    if count == 0 {
        start()
    } else {
        after_pull(after_pulls((count - 1) as nat), true)
    }
}

/// The state after the workers were waited for with the given results, one
/// after the other.
pub open spec fn after_joins(state: DispatchView, results: Seq<JoinResult>) -> DispatchView
    decreases results.len(),
{
    if results.len() == 0 {
        state
    } else {
        after_join(after_joins(state, results.drop_last()), results.last())
    }
}

/// Whether no worker was lost.
pub open spec fn none_lost(results: Seq<JoinResult>) -> bool {
    forall|i: int| 0 <= i < results.len() ==> #[trigger] results[i] != JoinResult::Lost
}

/// A stream of `count` items starts exactly `count` workers, and the
/// dispatch is done when all of them have been waited for and not before,
/// whether they succeeded or failed.
pub proof fn lemma_fan_out_complete(count: nat, results: Seq<JoinResult>)
    requires
        results.len() <= count,
        none_lost(results),
    ensures
        after_pulls(count).phase is Pulling,
        after_pulls(count).spawned == count,
        ({
            let end = after_joins(after_pull(after_pulls(count), false), results);
            &&& end.spawned == count
            &&& end.joined == results.len()
            &&& end.phase is Done <==> results.len() == count
            &&& results.len() < count ==> end.phase is Joining
        }),
    decreases count + results.len(),
{
    if results.len() > 0 {
        assert(none_lost(results.drop_last()));
        lemma_fan_out_complete(count, results.drop_last());
    } else if count > 0 {
        lemma_fan_out_complete((count - 1) as nat, results);
    }
}

/// Every item gets a worker of its own, and nothing else does: the pull
/// that yields the item at `at` of a stream is answered by the start of a
/// worker for that item, and counts one more worker; the end of a stream of
/// `items.len()` items is answered in a state that counts as many workers.
pub proof fn lemma_one_worker_per_item<P>(items: Seq<P>, at: int)
    requires
        0 <= at < items.len(),
    ensures
        after_pulls(at as nat).phase is Pulling,
        asked(after_pulls(at as nat), Some(items[at])) == Step::Spawn(items[at]),
        after_pull(after_pulls(at as nat), true) == after_pulls((at + 1) as nat),
        after_pulls(items.len()).spawned == items.len(),
        asked::<P>(after_pulls(items.len()), None) == Step::<P>::Join(0),
{
    lemma_fan_out_complete(at as nat, Seq::empty());
    lemma_fan_out_complete(items.len(), Seq::empty());
}

/// A worker that fails holds nothing up: with a failure in place of any
/// result, the dispatch waits for as many workers and ends in the same
/// phase.
pub proof fn lemma_failure_is_isolated(state: DispatchView, results: Seq<JoinResult>, at: int)
    requires
        0 <= at < results.len(),
        none_lost(results),
    ensures
        ({
            let with_failure = after_joins(state, results.update(at, JoinResult::Failed));
            let without = after_joins(state, results);
            &&& with_failure.phase == without.phase
            &&& with_failure.spawned == without.spawned
            &&& with_failure.joined == without.joined
        }),
    decreases results.len(),
{
    let changed = results.update(at, JoinResult::Failed);
    if at == results.len() - 1 {
        assert(changed.drop_last() =~= results.drop_last());
    } else {
        assert(none_lost(results.drop_last()));
        assert(changed.drop_last() =~= results.drop_last().update(at, JoinResult::Failed));
        lemma_failure_is_isolated(state, results.drop_last(), at);
    }
}

} // verus!
