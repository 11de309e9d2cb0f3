use gentle::multi_runner::{
    Action, Dispatcher, Event, NullProgressListener, ProgressListener,
};

fn submit(d: &mut Dispatcher, name: &str) -> Action {
    let step = d.step(Event::Submit(name.to_string()));
    assert_eq!(step.finished, None);
    step.action
}

#[test]
fn starts_in_lowest_free_slots() {
    let mut d = Dispatcher::with_parallel(3);
    for (i, name) in ["a", "b", "c"].iter().enumerate() {
        assert_eq!(submit(&mut d, name), Action::Poll);
        let step = d.step(Event::NothingReady);
        assert_eq!(step.action, Action::Start { slot: i });
        assert_eq!(d.name_in(i), Some(name.to_string()));
    }
    assert_eq!(d.in_flight(), 3);
}

#[test]
fn results_are_taken_in_finish_order() {
    // Three slots, tasks 0, 1, 2 finishing in the order 2, 1, 0.
    let mut d = Dispatcher::with_parallel(3);
    for name in ["task-0", "task-1", "task-2"] {
        submit(&mut d, name);
        d.step(Event::NothingReady);
    }
    assert_eq!(d.step(Event::Finish).action, Action::Wait);
    let mut order = Vec::new();
    for slot in [2, 1, 0] {
        let step = d.step(Event::Completed { slot, failed: false });
        order.push(step.finished.unwrap());
        let expected = if slot == 0 { Action::Done } else { Action::Wait };
        assert_eq!(step.action, expected);
    }
    assert_eq!(order, vec!["task-2", "task-1", "task-0"]);
    assert_eq!(d.in_flight(), 0);
}

#[test]
fn full_runner_waits_then_reuses_the_freed_slot() {
    let mut d = Dispatcher::with_parallel(2);
    for name in ["a", "b"] {
        submit(&mut d, name);
        d.step(Event::NothingReady);
    }
    submit(&mut d, "c");
    assert_eq!(d.step(Event::NothingReady).action, Action::Wait);
    let step = d.step(Event::Completed {
        slot: 1,
        failed: false,
    });
    assert_eq!(step.finished, Some("b".to_string()));
    assert_eq!(step.action, Action::Start { slot: 1 });
    assert_eq!(d.name_in(1), Some("c".to_string()));
}

#[test]
fn error_is_returned_at_next_submission() {
    // One slot: "fails" runs and errors; submitting "ok" reports it and
    // never starts "ok".
    let mut d = Dispatcher::with_parallel(1);
    submit(&mut d, "fails");
    assert_eq!(d.step(Event::NothingReady).action, Action::Start { slot: 0 });
    submit(&mut d, "ok");
    assert_eq!(d.step(Event::NothingReady).action, Action::Wait);
    let step = d.step(Event::Completed {
        slot: 0,
        failed: true,
    });
    assert_eq!(step.finished, Some("fails".to_string()));
    assert_eq!(step.action, Action::Fail);
    assert_eq!(d.in_flight(), 0);
    assert_eq!(d.name_in(0), None);
}

#[test]
fn error_found_while_polling() {
    let mut d = Dispatcher::with_parallel(2);
    submit(&mut d, "fails");
    d.step(Event::NothingReady);
    submit(&mut d, "ok");
    let step = d.step(Event::Completed {
        slot: 0,
        failed: true,
    });
    assert_eq!(step.finished, Some("fails".to_string()));
    assert_eq!(step.action, Action::Fail);
    assert_eq!(d.in_flight(), 0);
}

#[test]
fn successful_result_while_polling_keeps_polling() {
    let mut d = Dispatcher::with_parallel(2);
    submit(&mut d, "a");
    d.step(Event::NothingReady);
    submit(&mut d, "b");
    let step = d.step(Event::Completed {
        slot: 0,
        failed: false,
    });
    assert_eq!(step.finished, Some("a".to_string()));
    assert_eq!(step.action, Action::Poll);
    assert_eq!(d.step(Event::NothingReady).action, Action::Start { slot: 0 });
}

#[test]
fn waiting_stops_at_first_error() {
    let mut d = Dispatcher::with_parallel(2);
    submit(&mut d, "slow");
    d.step(Event::NothingReady);
    submit(&mut d, "fails");
    d.step(Event::NothingReady);
    assert_eq!(d.step(Event::Finish).action, Action::Wait);
    let step = d.step(Event::Completed {
        slot: 1,
        failed: true,
    });
    assert_eq!(step.finished, Some("fails".to_string()));
    assert_eq!(step.action, Action::Fail);
    assert_eq!(d.in_flight(), 1);
}

#[test]
fn finishing_with_nothing_in_flight_is_done() {
    let mut d = Dispatcher::with_parallel(4);
    assert_eq!(d.max_threads(), 4);
    let step = d.step(Event::Finish);
    assert_eq!(step.finished, None);
    assert_eq!(step.action, Action::Done);
}

#[test]
fn default_runner_has_a_slot() {
    let d = Dispatcher::new();
    assert!(d.max_threads() >= 1);
    assert_eq!(d.in_flight(), 0);
}

#[test]
fn null_listener_accepts_notifications() {
    let mut l = NullProgressListener;
    l.on_start("a");
    l.on_finish("a");
}

#[test]
fn runner_without_slots_finishes_at_once_and_blocks_submissions() {
    let mut d = Dispatcher::with_parallel(0);
    assert_eq!(d.max_threads(), 0);
    assert_eq!(d.in_flight(), 0);
    let step = d.step(Event::Finish);
    assert_eq!(step.finished, None);
    assert_eq!(step.action, Action::Done);
    assert_eq!(submit(&mut d, "never"), Action::Poll);
    assert_eq!(d.step(Event::NothingReady).action, Action::Wait);
}

#[test]
fn teardown_takes_in_every_result_and_drops_errors() {
    let mut d = Dispatcher::with_parallel(2);
    submit(&mut d, "a");
    d.step(Event::NothingReady);
    submit(&mut d, "b");
    d.step(Event::NothingReady);
    assert_eq!(d.step(Event::Teardown).action, Action::Wait);
    let step = d.step(Event::Completed { slot: 0, failed: true });
    assert_eq!(step.finished, Some("a".to_string()));
    assert_eq!(step.action, Action::Wait);
    let step = d.step(Event::Completed { slot: 1, failed: true });
    assert_eq!(step.finished, Some("b".to_string()));
    assert_eq!(step.action, Action::Done);
    assert_eq!(d.in_flight(), 0);
}

#[test]
fn abandoning_forgets_tasks_in_flight() {
    let mut d = Dispatcher::with_parallel(2);
    submit(&mut d, "slow");
    d.step(Event::NothingReady);
    let step = d.step(Event::Abandon);
    assert_eq!(step.finished, None);
    assert_eq!(step.action, Action::Done);
    assert_eq!(d.in_flight(), 0);
    assert_eq!(d.step(Event::Teardown).action, Action::Done);
}
