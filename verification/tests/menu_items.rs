use gpui_tray::{TrayMenuItem, TrayMenuItemRole, TrayToggleType};

#[test]
fn separators_are_visible_and_may_carry_a_label() {
    assert!(matches!(
        TrayMenuItem::separator(),
        TrayMenuItem::Separator { label: None, visible: true }
    ));
    match TrayMenuItem::labeled_separator("Servers") {
        TrayMenuItem::Separator { label, visible } => {
            assert_eq!(label.as_deref(), Some("Servers"));
            assert!(visible);
        }
        other => panic!("{:?}", other),
    }
}

#[test]
fn menu_items_are_enabled_and_report_their_id() {
    let item = TrayMenuItem::menu("quit", String::from("Quit"), Vec::new());
    assert_eq!(item.menu_event_id(), Some("quit"));
    match item {
        TrayMenuItem::Submenu { id, label, enabled, visible, role, toggle_type, children } => {
            assert_eq!(id.as_deref(), Some("quit"));
            assert_eq!(label, "Quit");
            assert!(enabled);
            assert!(visible);
            assert_eq!(role, TrayMenuItemRole::Standard);
            assert!(toggle_type.is_none());
            assert!(children.is_empty());
        }
        other => panic!("{:?}", other),
    }
}

#[test]
fn toggles_carry_their_mark() {
    assert!(matches!(
        TrayMenuItem::checkbox("c", "C", true),
        TrayMenuItem::Submenu { toggle_type: Some(TrayToggleType::Checkbox(true)), .. }
    ));
    assert!(matches!(
        TrayMenuItem::radio("r", "R", false),
        TrayMenuItem::Submenu { toggle_type: Some(TrayToggleType::Radio(false)), .. }
    ));
    assert_eq!(TrayMenuItem::checkbox("c", "C", false).menu_event_id(), Some("c"));
    assert_eq!(TrayMenuItem::radio("r", "R", true).menu_event_id(), Some("r"));
}

#[test]
fn text_rows_are_disabled_and_have_no_id() {
    let owned = String::from("Connected");
    for item in [TrayMenuItem::info(&owned), TrayMenuItem::label("Connected")] {
        assert!(item.menu_event_id().is_none());
        match &item {
            TrayMenuItem::Submenu { id, label, enabled, visible, role, .. } => {
                assert!(id.is_none());
                assert_eq!(label, "Connected");
                assert!(!*enabled);
                assert!(*visible);
                assert_eq!(*role, TrayMenuItemRole::Info);
            }
            other => panic!("{:?}", other),
        }
        assert!(item.enabled(true).menu_event_id().is_none());
    }
}

#[test]
fn passive_items_report_no_click() {
    assert!(TrayMenuItem::separator().menu_event_id().is_none());
    assert!(TrayMenuItem::menu("a", "A", Vec::new())
        .enabled(false)
        .menu_event_id()
        .is_none());
    let child = TrayMenuItem::menu("b", "B", Vec::new());
    assert!(TrayMenuItem::menu("a", "A", vec![child]).menu_event_id().is_none());
}

#[test]
fn enabling_leaves_separators_alone() {
    assert!(matches!(
        TrayMenuItem::separator().enabled(false),
        TrayMenuItem::Separator { label: None, visible: true }
    ));
}

#[test]
fn hiding_keeps_the_click() {
    let item = TrayMenuItem::menu("a", "A", Vec::new()).visible(false);
    assert!(matches!(item, TrayMenuItem::Submenu { visible: false, .. }));
    assert_eq!(item.menu_event_id(), Some("a"));
    assert_eq!(item.visible(true).menu_event_id(), Some("a"));
    assert!(matches!(
        TrayMenuItem::separator().visible(false),
        TrayMenuItem::Separator { visible: false, .. }
    ));
}

#[test]
fn clones_of_items_are_deep() {
    let item = TrayMenuItem::menu(
        "a",
        "A",
        vec![TrayMenuItem::checkbox("b", "B", true), TrayMenuItem::labeled_separator("s")],
    );
    assert_eq!(format!("{:?}", item.clone()), format!("{:?}", item));
}
