use git_poly::dispatch::{Dispatcher, JoinResult, Phase, Step};

fn run(items: usize, results: &[JoinResult]) -> (Dispatcher, Vec<Step<usize>>, Vec<Step<()>>) {
    let mut dispatcher = Dispatcher::new();
    let mut spawns = Vec::new();
    for item in 0..items {
        spawns.push(dispatcher.pulled(Some(item)));
    }
    spawns.push(dispatcher.pulled(None));
    let mut joins = Vec::new();
    for result in results {
        if dispatcher.phase() != Phase::Joining {
            break;
        }
        joins.push(dispatcher.waited(*result));
    }
    (dispatcher, spawns, joins)
}

#[test]
fn one_worker_is_started_for_each_item() {
    let (dispatcher, spawns, joins) = run(3, &[]);
    assert_eq!(
        spawns,
        vec![Step::Spawn(0), Step::Spawn(1), Step::Spawn(2), Step::Join(0)]
    );
    assert!(joins.is_empty());
    assert_eq!(dispatcher.spawned(), 3);
    assert_eq!(dispatcher.joined(), 0);
    assert_eq!(dispatcher.phase(), Phase::Joining);
}

#[test]
fn the_dispatch_is_done_when_every_worker_has_been_waited_for() {
    let all = [JoinResult::Succeeded, JoinResult::Succeeded, JoinResult::Succeeded];
    let (dispatcher, _, joins) = run(3, &all[..2]);
    assert_eq!(joins, vec![Step::Join(1), Step::Join(2)]);
    assert_eq!(dispatcher.phase(), Phase::Joining);
    let (dispatcher, _, joins) = run(3, &all);
    assert_eq!(joins, vec![Step::Join(1), Step::Join(2), Step::Complete]);
    assert_eq!(dispatcher.phase(), Phase::Done);
    assert_eq!(dispatcher.joined(), 3);
    assert_eq!(dispatcher.failed(), 0);
}

#[test]
fn a_failing_worker_does_not_hold_up_the_others() {
    let results = [JoinResult::Succeeded, JoinResult::Failed, JoinResult::Succeeded];
    let (dispatcher, _, joins) = run(3, &results);
    assert_eq!(joins, vec![Step::Join(1), Step::Join(2), Step::Complete]);
    assert_eq!(dispatcher.phase(), Phase::Done);
    assert_eq!(dispatcher.joined(), 3);
    assert_eq!(dispatcher.failed(), 1);
}

#[test]
fn a_lost_worker_ends_the_dispatch() {
    let results = [JoinResult::Succeeded, JoinResult::Lost, JoinResult::Succeeded];
    let (dispatcher, _, joins) = run(3, &results);
    assert_eq!(joins, vec![Step::Join(1), Step::Abort]);
    assert_eq!(dispatcher.phase(), Phase::Broken);
    assert_eq!(dispatcher.joined(), 1);
}

#[test]
fn an_empty_stream_completes_at_once() {
    let (dispatcher, spawns, _) = run(0, &[]);
    assert_eq!(spawns, vec![Step::Complete]);
    assert_eq!(dispatcher.phase(), Phase::Done);
    assert_eq!(dispatcher.spawned(), 0);
}
