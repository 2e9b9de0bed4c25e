//! The per-cell state machine and the bounded-concurrency scheduler.
use simplecrop::run::CellEvent;
use simplecrop::run::CellState;
use simplecrop::run::Scheduler;
use simplecrop::run::step;

#[test]
fn lifecycle_transitions() {
    assert_eq!(
        step(CellState::Pending, CellEvent::InputsSaved),
        CellState::InputsWritten
    );
    assert_eq!(
        step(CellState::Pending, CellEvent::SaveFailed),
        CellState::Failed
    );
    assert_eq!(
        step(CellState::InputsWritten, CellEvent::Started),
        CellState::Running
    );
    assert_eq!(
        step(CellState::InputsWritten, CellEvent::StartFailed),
        CellState::Failed
    );
    assert_eq!(
        step(CellState::Running, CellEvent::ExitedOk),
        CellState::Completed
    );
    assert_eq!(
        step(CellState::Running, CellEvent::ExitedErr),
        CellState::Failed
    );
    assert_eq!(
        step(CellState::Completed, CellEvent::OutputsRead),
        CellState::Completed
    );
    assert_eq!(
        step(CellState::Completed, CellEvent::ReadFailed),
        CellState::Failed
    );
}

#[test]
fn events_out_of_order_leave_the_state() {
    assert_eq!(
        step(CellState::Pending, CellEvent::ExitedOk),
        CellState::Pending
    );
    assert_eq!(
        step(CellState::Failed, CellEvent::Started),
        CellState::Failed
    );
}

#[test]
fn pool_blocks_when_full() {
    let mut s = Scheduler::new(3, 2, true);
    assert!(s.can_launch());

    let a = s.next_pending().unwrap();
    assert_eq!(a, 0);
    s.apply_event(a, CellEvent::InputsSaved);
    s.apply_event(a, CellEvent::Started);
    assert!(s.can_launch());

    let b = s.next_pending().unwrap();
    assert_eq!(b, 1);
    s.apply_event(b, CellEvent::InputsSaved);
    s.apply_event(b, CellEvent::Started);
    // two cells run; the pool of two is full
    assert!(!s.can_launch());

    s.apply_event(a, CellEvent::ExitedOk);
    s.apply_event(a, CellEvent::OutputsRead);
    assert!(s.can_launch());
    assert_eq!(s.next_pending(), Some(2));
}

#[test]
fn fail_fast_stops_launching() {
    let mut s = Scheduler::new(2, 1, true);
    s.apply_event(0, CellEvent::SaveFailed);
    assert!(!s.can_launch());
    assert_eq!(s.first_failed(), Some(0));

    // without fail-fast the run goes on past the failure
    let mut t = Scheduler::new(2, 1, false);
    t.apply_event(0, CellEvent::SaveFailed);
    assert!(t.can_launch());
    assert_eq!(t.next_pending(), Some(1));
}

#[test]
fn no_failure_reports_none() {
    let s = Scheduler::new(2, 1, true);
    assert_eq!(s.first_failed(), None);
}

#[test]
fn cancellation_fails_unfinished_cells_only() {
    assert_eq!(
        step(CellState::Pending, CellEvent::Cancelled),
        CellState::Failed
    );
    assert_eq!(
        step(CellState::InputsWritten, CellEvent::Cancelled),
        CellState::Failed
    );
    assert_eq!(
        step(CellState::Running, CellEvent::Cancelled),
        CellState::Failed
    );
    assert_eq!(
        step(CellState::Completed, CellEvent::Cancelled),
        CellState::Completed
    );
    assert_eq!(
        step(CellState::Failed, CellEvent::Cancelled),
        CellState::Failed
    );
}

#[test]
fn aggregate_failures_are_reported_in_order() {
    let mut s = Scheduler::new(4, 2, false);
    s.apply_event(0, CellEvent::InputsSaved);
    s.apply_event(0, CellEvent::Started);
    s.apply_event(0, CellEvent::ExitedOk);
    s.apply_event(1, CellEvent::SaveFailed);
    s.apply_event(2, CellEvent::InputsSaved);
    s.apply_event(2, CellEvent::StartFailed);
    s.apply_event(3, CellEvent::InputsSaved);
    s.apply_event(3, CellEvent::Started);
    s.apply_event(3, CellEvent::ExitedOk);
    s.apply_event(3, CellEvent::ReadFailed);
    assert_eq!(s.failed_cells(), vec![1, 2, 3]);
    assert_eq!(s.first_failed(), Some(1));
}
