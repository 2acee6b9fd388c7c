use gpui_tray::{
    LogicalPoints, TargetOs, TrayClickAction, TrayClickPolicy, TrayImage, TrayMenuItem, TrayState,
};

fn points(value: f64) -> LogicalPoints {
    LogicalPoints::from_bits(value.to_bits()).expect("icon size must be finite and positive")
}

fn value(points: LogicalPoints) -> f64 {
    f64::from_bits(points.to_bits())
}

#[test]
fn icon_options_have_retina_safe_defaults() {
    let state = TrayState::new();
    assert_eq!(value(state.icon_size), 18.0);
    assert!(state.icon_template);
    let changed = state.icon_size(points(20.0)).icon_template(false).clone();
    assert_eq!(value(changed.icon_size), 20.0);
    assert!(!changed.icon_template);
}

#[test]
#[should_panic(expected = "icon size must be finite and positive")]
fn rejects_invalid_icon_size() {
    TrayState::new().icon_size(points(f64::NAN));
}

#[test]
fn tray_state_clones_builder_data() {
    let state = TrayState::new().title("hello").tooltip("tip").visible(false);
    let cloned = state.clone();

    assert!(!cloned.visible);
    assert_eq!(cloned.title, "hello");
    assert_eq!(cloned.tooltip, "tip");
}

#[test]
fn icon_sizes_are_finite_and_positive() {
    let bad = [
        0.0,
        -0.0,
        -1.0,
        f64::INFINITY,
        f64::NEG_INFINITY,
        f64::NAN,
        -f64::NAN,
        -f64::MIN_POSITIVE,
    ];
    for value in bad {
        assert!(LogicalPoints::from_bits(value.to_bits()).is_none());
    }
    for good in [f64::MIN_POSITIVE, f64::from_bits(1), 0.5, 18.0, f64::MAX] {
        assert_eq!(value(points(good)), good);
    }
}

#[test]
fn new_states_are_visible_and_empty() {
    for state in [TrayState::new(), TrayState::default()] {
        assert!(state.visible);
        assert!(state.icon.is_none());
        assert_eq!(state.title, "");
        assert_eq!(state.tooltip, "");
        assert_eq!(state.description, "");
        assert!(state.submenus.is_empty());
        assert!(state.click_policy.is_none());
    }
}

#[test]
fn builders_set_what_they_name() {
    let policy = TrayClickPolicy::platform_default(TargetOs::Linux).left(TrayClickAction::Ignore);
    let state = TrayState::new()
        .icon(TrayImage { mime_type: "image/png".to_string(), bytes: vec![1, 2, 3] })
        .description("more")
        .submenu(TrayMenuItem::info("first"))
        .submenu(TrayMenuItem::menu("second", "Second", Vec::new()))
        .click_policy(policy);
    let icon = state.icon.as_ref().unwrap();
    assert_eq!(icon.mime_type, "image/png");
    assert_eq!(icon.bytes, vec![1, 2, 3]);
    assert_eq!(state.description, "more");
    assert_eq!(state.submenus.len(), 2);
    assert!(state.submenus[0].menu_event_id().is_none());
    assert_eq!(state.submenus[1].menu_event_id(), Some("second"));
    assert_eq!(state.policy_on(TargetOs::MacOs), policy);
}

#[test]
fn the_default_policy_is_that_of_the_system() {
    let state = TrayState::new();
    assert_eq!(state.policy_on(TargetOs::MacOs).left, TrayClickAction::OpenMenu);
    assert_eq!(state.policy_on(TargetOs::Windows).left, TrayClickAction::EmitEvent);
}
