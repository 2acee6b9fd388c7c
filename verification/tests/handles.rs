use gpui_tray::handle::{begin_click, finish_click, flush_runtime};
use gpui_tray::runtime::{FlushAction, FlushEvent, VersionedTrayState};
use gpui_tray::{set_up_tray, TrayError, TraySlot, TrayState};

fn applied(res: Result<FlushAction, TrayError>) -> VersionedTrayState {
    match res {
        Ok(FlushAction::Apply(state)) => state,
        Ok(FlushAction::Done) => panic!("nothing to show"),
        Err(error) => panic!("{}", error.message()),
    }
}

fn is_done(res: Result<FlushAction, TrayError>) -> bool {
    matches!(res, Ok(FlushAction::Done))
}

#[test]
fn closed_handle_rejects_updates_and_invalidates_clones() {
    let mut slot = TraySlot::new();
    let handle = set_up_tray(&mut slot, TrayState::new()).unwrap();
    let other = handle.clone();
    assert_eq!(handle.close(&mut slot), Ok(true));
    assert!(other.set_state(&mut slot, TrayState::new()).is_err());
    assert_eq!(other.set_state(&mut slot, TrayState::new()), Err(TrayError::Closed));
    assert!(matches!(other.flush_now(&mut slot), Err(TrayError::Closed)));
    assert!(other.is_closed(&slot));
    assert_eq!(other.close(&mut slot), Ok(false));
}

#[test]
fn only_one_tray_at_a_time() {
    let mut slot = TraySlot::new();
    let first = set_up_tray(&mut slot, TrayState::new()).unwrap();
    assert_eq!(
        set_up_tray(&mut slot, TrayState::new()),
        Err(TrayError::AlreadyInitialized)
    );
    assert_eq!(first.close(&mut slot), Ok(true));
    let second = set_up_tray(&mut slot, TrayState::new()).unwrap();
    assert_eq!(slot.generation(), 2);
    assert!(first.is_closed(&slot));
    assert!(!second.is_closed(&slot));
    assert_eq!(first.close(&mut slot), Ok(false));
    assert!(!second.is_closed(&slot));
}

#[test]
fn flushing_shows_what_was_set_last() {
    let mut slot = TraySlot::new();
    let handle = set_up_tray(&mut slot, TrayState::new().title("A")).unwrap();
    assert_eq!(handle.set_state(&mut slot, TrayState::new().title("B")), Ok(false));
    let shown = applied(handle.flush_now(&mut slot));
    assert_eq!(shown.state.title, "B");
    assert_eq!(handle.set_state(&mut slot, TrayState::new().title("C")), Ok(true));
    assert!(is_done(handle.flush_now(&mut slot)));
    let next = applied(flush_runtime(&mut slot, FlushEvent::Applied(shown)));
    assert_eq!(next.state.title, "C");
    assert!(is_done(flush_runtime(&mut slot, FlushEvent::Applied(next))));
}

#[test]
fn a_flush_without_a_tray_fails() {
    let mut slot = TraySlot::new();
    assert!(matches!(
        flush_runtime(&mut slot, FlushEvent::Start),
        Err(TrayError::NotInitialized)
    ));
    assert_eq!(begin_click(&mut slot), Err(TrayError::NotInitialized));
    assert_eq!(finish_click(&mut slot), Err(TrayError::NotInitialized));
}

#[test]
fn clicks_hold_flushes_and_closing_back() {
    let mut slot = TraySlot::new();
    let handle = set_up_tray(&mut slot, TrayState::new().title("A")).unwrap();
    assert_eq!(begin_click(&mut slot), Ok(()));
    assert!(is_done(handle.flush_now(&mut slot)));
    assert_eq!(handle.close(&mut slot), Err(TrayError::MenuActive));
    assert_eq!(finish_click(&mut slot), Ok(true));
    assert_eq!(applied(handle.flush_now(&mut slot)).state.title, "A");
}

#[test]
fn a_click_during_a_flush_finds_no_native_tray() {
    let mut slot = TraySlot::new();
    let handle = set_up_tray(&mut slot, TrayState::new().title("A")).unwrap();
    let shown = applied(handle.flush_now(&mut slot));
    assert_eq!(begin_click(&mut slot), Err(TrayError::PlatformMissingDuringClick));
    assert!(is_done(flush_runtime(&mut slot, FlushEvent::Applied(shown))));
    assert_eq!(finish_click(&mut slot), Ok(false));
}

#[test]
fn a_failed_flush_puts_the_native_tray_back() {
    let mut slot = TraySlot::new();
    let handle = set_up_tray(&mut slot, TrayState::new().title("A")).unwrap();
    let _ = applied(handle.flush_now(&mut slot));
    assert!(is_done(flush_runtime(&mut slot, FlushEvent::ApplyFailed)));
    assert_eq!(handle.set_state(&mut slot, TrayState::new().title("B")), Ok(true));
    assert_eq!(applied(handle.flush_now(&mut slot)).state.title, "B");
}

#[test]
fn a_flush_that_outlives_its_tray_fails() {
    let mut slot = TraySlot::new();
    let handle = set_up_tray(&mut slot, TrayState::new()).unwrap();
    let shown = applied(handle.flush_now(&mut slot));
    assert_eq!(handle.close(&mut slot), Ok(true));
    assert!(matches!(
        flush_runtime(&mut slot, FlushEvent::Applied(shown)),
        Err(TrayError::NotInitialized)
    ));
}

#[test]
fn a_tray_whose_first_flush_fails_can_be_closed() {
    let mut slot = TraySlot::new();
    let handle = set_up_tray(&mut slot, TrayState::new().title("A")).unwrap();
    assert_eq!(applied(handle.flush_now(&mut slot)).state.title, "A");
    assert!(is_done(flush_runtime(&mut slot, FlushEvent::ApplyFailed)));
    assert_eq!(handle.close(&mut slot), Ok(true));
    assert!(set_up_tray(&mut slot, TrayState::new()).is_ok());
}

#[test]
fn flushing_now_retries_after_a_failed_flush() {
    let mut slot = TraySlot::new();
    let handle = set_up_tray(&mut slot, TrayState::new().title("A")).unwrap();
    let first = applied(handle.flush_now(&mut slot));
    assert!(is_done(flush_runtime(&mut slot, FlushEvent::Applied(first))));
    assert_eq!(handle.set_state(&mut slot, TrayState::new().title("B")), Ok(true));
    assert_eq!(applied(handle.flush_now(&mut slot)).state.title, "B");
    assert!(is_done(flush_runtime(&mut slot, FlushEvent::ApplyFailed)));
    let again = applied(handle.flush_now(&mut slot));
    assert_eq!(again.state.title, "B");
    assert!(is_done(flush_runtime(&mut slot, FlushEvent::Applied(again))));
    assert!(is_done(handle.flush_now(&mut slot)));
}

#[test]
fn flushing_now_shows_a_state_set_while_a_flush_was_failing() {
    let mut slot = TraySlot::new();
    let handle = set_up_tray(&mut slot, TrayState::new().title("A")).unwrap();
    assert_eq!(applied(handle.flush_now(&mut slot)).state.title, "A");
    assert_eq!(handle.set_state(&mut slot, TrayState::new().title("B")), Ok(true));
    assert!(is_done(flush_runtime(&mut slot, FlushEvent::ApplyFailed)));
    assert_eq!(applied(handle.flush_now(&mut slot)).state.title, "B");
}

#[test]
fn flushing_now_waits_for_clicks() {
    let mut slot = TraySlot::new();
    let handle = set_up_tray(&mut slot, TrayState::new().title("A")).unwrap();
    assert_eq!(applied(handle.flush_now(&mut slot)).state.title, "A");
    assert!(is_done(flush_runtime(&mut slot, FlushEvent::ApplyFailed)));
    assert_eq!(begin_click(&mut slot), Ok(()));
    assert!(is_done(handle.flush_now(&mut slot)));
    assert_eq!(finish_click(&mut slot), Ok(false));
    assert_eq!(applied(handle.flush_now(&mut slot)).state.title, "A");
}
