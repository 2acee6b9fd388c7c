use gpui_tray::runtime::{flush_linux_runtime, FlushAction, FlushEvent, TrayRuntimeState};
use gpui_tray::TrayState;

#[test]
fn latest_state_wins_after_multiple_updates() {
    let mut runtime = TrayRuntimeState::new(TrayState::new().title("A"));
    let _ = runtime.set_desired_state(TrayState::new().title("B"));
    let flushing = runtime.try_begin_flush().expect("pending flush");

    assert_eq!(flushing.state.title, "B");
    assert!(!runtime.flush_scheduled);
    assert!(runtime.flushing);
}

#[test]
fn state_changes_during_flush_schedule_follow_up() {
    let mut runtime = TrayRuntimeState::new(TrayState::new().title("A"));
    let flushing = runtime.try_begin_flush().expect("pending flush");
    let _ = runtime.set_desired_state(TrayState::new().title("B"));

    assert!(runtime.finish_flush(flushing));

    let follow_up = runtime.try_begin_flush().expect("follow-up flush");
    assert_eq!(follow_up.state.title, "B");
}

#[test]
fn aborting_flush_requeues_work() {
    let mut runtime = TrayRuntimeState::new(TrayState::new().title("A"));
    let _ = runtime.try_begin_flush().expect("pending flush");

    runtime.abort_flush();

    assert!(!runtime.has_pending_flush());
    assert!(!runtime.flushing);
    assert!(runtime.set_desired_state(TrayState::new().title("retry")));
    assert_eq!(runtime.try_begin_flush().unwrap().state.title, "retry");
}

#[test]
fn updates_share_a_flush() {
    let mut runtime = TrayRuntimeState::new(TrayState::new());
    assert!(!runtime.set_desired_state(TrayState::new()));
    assert!(!runtime.request_flush());
    let _ = runtime.try_begin_flush().expect("pending flush");
    assert!(runtime.request_flush());
    assert!(!runtime.set_desired_state(TrayState::new()));
}

#[test]
fn one_flush_runs_at_a_time() {
    let mut runtime = TrayRuntimeState::new(TrayState::new());
    let first = runtime.try_begin_flush().expect("pending flush");
    assert!(runtime.request_flush());
    assert!(runtime.try_begin_flush().is_none());
    assert!(runtime.has_pending_flush());
    assert!(runtime.finish_flush(first));
    assert!(runtime.try_begin_flush().is_some());
}

#[test]
fn an_undisturbed_flush_settles() {
    let mut runtime = TrayRuntimeState::new(TrayState::new().title("A"));
    let shown = runtime.try_begin_flush().expect("pending flush");
    assert_eq!(shown.version, 1);
    assert!(!runtime.finish_flush(shown));
    assert_eq!(runtime.applied_state.as_ref().unwrap().version, 1);
    assert_eq!(runtime.applied_state.as_ref().unwrap().state.title, "A");
    assert!(!runtime.flushing);
    assert!(runtime.try_begin_flush().is_none());
}

#[test]
fn numbers_tell_updates_apart_until_they_run_out() {
    let mut runtime = TrayRuntimeState::new(TrayState::new());
    assert_eq!(runtime.desired_state.as_ref().unwrap().version, 1);
    runtime.set_desired_state(TrayState::new());
    assert_eq!(runtime.desired_state.as_ref().unwrap().version, 2);
    runtime.next_version = u64::MAX;
    runtime.set_desired_state(TrayState::new());
    assert_eq!(runtime.desired_state.as_ref().unwrap().version, u64::MAX);
    assert_eq!(runtime.next_version, u64::MAX);
}

#[test]
fn an_older_state_that_was_shown_makes_another_flush_due() {
    let mut runtime = TrayRuntimeState::new(TrayState::new().title("A"));
    let shown = runtime.try_begin_flush().expect("pending flush");
    runtime.set_desired_state(TrayState::new().title("B"));
    runtime.flush_scheduled = false;
    assert!(runtime.finish_flush(shown));
    assert!(runtime.try_begin_flush().is_none());
}

#[test]
fn a_series_of_flushes_shows_everything_and_ends() {
    let mut runtime = TrayRuntimeState::new(TrayState::new().title("A"));
    let first = match flush_linux_runtime(&mut runtime, FlushEvent::Start) {
        FlushAction::Apply(state) => state,
        FlushAction::Done => panic!("nothing to show"),
    };
    assert_eq!(first.state.title, "A");
    assert!(matches!(
        flush_linux_runtime(&mut runtime, FlushEvent::Start),
        FlushAction::Done
    ));
    runtime.set_desired_state(TrayState::new().title("B"));
    let second = match flush_linux_runtime(&mut runtime, FlushEvent::Applied(first)) {
        FlushAction::Apply(state) => state,
        FlushAction::Done => panic!("nothing to show"),
    };
    assert_eq!(second.state.title, "B");
    assert!(matches!(
        flush_linux_runtime(&mut runtime, FlushEvent::Applied(second)),
        FlushAction::Done
    ));
    assert!(!runtime.flushing);
}

#[test]
fn a_failed_flush_ends_the_series() {
    let mut runtime = TrayRuntimeState::new(TrayState::new().title("A"));
    let _ = flush_linux_runtime(&mut runtime, FlushEvent::Start);
    runtime.set_desired_state(TrayState::new().title("B"));
    assert!(matches!(
        flush_linux_runtime(&mut runtime, FlushEvent::ApplyFailed),
        FlushAction::Done
    ));
    assert!(!runtime.has_pending_flush());
    assert!(runtime.request_flush());
    match flush_linux_runtime(&mut runtime, FlushEvent::Start) {
        FlushAction::Apply(state) => assert_eq!(state.state.title, "B"),
        FlushAction::Done => panic!("nothing to show"),
    }
}
