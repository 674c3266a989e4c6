use cargs::scheduler::{Action, Scheduler, SchedulerFault};
use cargs::status::InvocationResult::{Exited, NotFound};

fn offered(max_procs: usize, k: usize) -> Scheduler {
    let mut s = Scheduler::new(max_procs);
    for _ in 0..k {
        s.offer().unwrap();
    }
    s.end_input();
    s
}

#[test]
fn one_slot_runs_strictly_one_at_a_time() {
    let mut s = offered(1, 3);
    assert_eq!(s.next_action(), Action::Launch(0));
    assert_eq!(s.launch(), Ok(0));
    assert_eq!(s.next_action(), Action::Wait);
    assert_eq!(s.launch(), Err(SchedulerFault::NothingToLaunch));
    s.complete(0, Exited(0)).unwrap();
    assert_eq!(s.next_action(), Action::Launch(1));
    assert_eq!(s.launch(), Ok(1));
    assert_eq!(s.active(), 1);
    assert_eq!(s.next_action(), Action::Wait);
    s.complete(1, Exited(0)).unwrap();
    assert_eq!(s.launch(), Ok(2));
    assert_eq!(s.next_action(), Action::Wait);
    s.complete(2, Exited(0)).unwrap();
    assert_eq!(s.next_action(), Action::Done(0));
}

#[test]
fn bound_caps_running_invocations() {
    let mut s = offered(2, 5);
    let mut ids = Vec::new();
    while let Action::Launch(id) = s.next_action() {
        assert_eq!(s.launch(), Ok(id));
        ids.push(id);
    }
    assert_eq!(ids, vec![0, 1]);
    assert_eq!(s.active(), 2);
    assert_eq!(s.max_procs(), 2);
    s.complete(1, Exited(0)).unwrap();
    assert_eq!(s.next_action(), Action::Launch(2));
    assert_eq!(s.launch(), Ok(2));
    assert!(s.active() <= 2);
}

#[test]
fn unbounded_launches_every_batch_at_once() {
    let mut s = offered(0, 4);
    for k in 0..4 {
        assert_eq!(s.next_action(), Action::Launch(k));
        assert_eq!(s.launch(), Ok(k));
    }
    assert_eq!(s.active(), 4);
    assert_eq!(s.launched(), 4);
    assert_eq!(s.next_action(), Action::Wait);
}

#[test]
fn empty_input_is_done_at_once() {
    let s = offered(1, 0);
    assert_eq!(s.next_action(), Action::Done(0));
}

#[test]
fn waits_for_input_before_finishing() {
    let mut s = Scheduler::new(1);
    assert_eq!(s.next_action(), Action::Wait);
    s.offer().unwrap();
    assert_eq!(s.next_action(), Action::Launch(0));
    s.launch().unwrap();
    s.complete(0, Exited(0)).unwrap();
    assert_eq!(s.next_action(), Action::Wait);
    s.end_input();
    assert_eq!(s.next_action(), Action::Done(0));
}

#[test]
fn spawn_failure_among_successes_gives_127() {
    let mut s = offered(0, 3);
    for k in 0..3 {
        assert_eq!(s.launch(), Ok(k));
    }
    s.complete(2, Exited(0)).unwrap();
    s.complete(0, NotFound).unwrap();
    s.complete(1, Exited(0)).unwrap();
    assert_eq!(s.outcome(0), Some(NotFound));
    assert_eq!(s.next_action(), Action::Done(127));
}

#[test]
fn nonzero_exit_gives_123() {
    let mut s = offered(2, 2);
    s.launch().unwrap();
    s.launch().unwrap();
    s.complete(0, Exited(0)).unwrap();
    s.complete(1, Exited(4)).unwrap();
    assert_eq!(s.next_action(), Action::Done(123));
}

#[test]
fn completing_an_idle_invocation_is_a_fault() {
    let mut s = offered(1, 2);
    assert_eq!(s.complete(0, Exited(0)), Err(SchedulerFault::NotRunning(0)));
    s.launch().unwrap();
    assert_eq!(s.outcome(0), None);
    s.complete(0, Exited(0)).unwrap();
    assert_eq!(s.complete(0, Exited(0)), Err(SchedulerFault::NotRunning(0)));
    assert_eq!(s.complete(7, Exited(0)), Err(SchedulerFault::NotRunning(7)));
    assert_eq!(s.active(), 0);
}

#[test]
fn cancel_stops_admission_but_lets_running_finish() {
    let mut s = offered(1, 3);
    s.launch().unwrap();
    s.cancel();
    assert!(s.was_cancelled());
    assert_eq!(s.launch(), Err(SchedulerFault::NothingToLaunch));
    assert_eq!(s.next_action(), Action::Wait);
    s.complete(0, Exited(0)).unwrap();
    assert_eq!(s.next_action(), Action::Done(0));
    assert_eq!(s.launched(), 1);
}
