use gpui_tray::click::{handle_click, handle_mouse_up, map_click_event, ClickOutcome, Gesture, MouseUp};
use gpui_tray::{
    MouseButton, Point, TargetOs, TrayClickAction, TrayClickKind, TrayClickPolicy, TrayEvent,
};

const HERE: Point = Point { x: -3, y: 40 };

fn emitted(outcome: ClickOutcome) -> (MouseButton, TrayClickKind, Point) {
    match outcome {
        ClickOutcome::Emit(TrayEvent::TrayClick { button, kind, position }) => {
            (button, kind, position)
        }
        other => panic!("{:?}", other),
    }
}

fn policy(action: TrayClickAction) -> TrayClickPolicy {
    TrayClickPolicy { left: action, right: action, double_click: action }
}

#[test]
fn default_policies_differ_on_macos_only() {
    let open = policy(TrayClickAction::OpenMenu);
    assert_eq!(TrayClickPolicy::platform_default(TargetOs::MacOs), open);
    for os in [TargetOs::Linux, TargetOs::Windows, TargetOs::Other] {
        assert_eq!(
            TrayClickPolicy::platform_default(os),
            TrayClickPolicy {
                left: TrayClickAction::EmitEvent,
                right: TrayClickAction::OpenMenu,
                double_click: TrayClickAction::EmitEvent,
            }
        );
    }
}

#[test]
fn policy_builders_set_one_click_each() {
    let base = policy(TrayClickAction::OpenMenu);
    let left = base.left(TrayClickAction::Ignore);
    assert_eq!(left.left, TrayClickAction::Ignore);
    assert_eq!(left.right, TrayClickAction::OpenMenu);
    assert_eq!(left.double_click, TrayClickAction::OpenMenu);
    let right = base.right(TrayClickAction::EmitEvent);
    assert_eq!(right.right, TrayClickAction::EmitEvent);
    assert_eq!(right.left, TrayClickAction::OpenMenu);
    let double = base.double_click(TrayClickAction::Ignore);
    assert_eq!(double.double_click, TrayClickAction::Ignore);
    assert_eq!(double.left, TrayClickAction::OpenMenu);
}

#[test]
fn double_clicks_emit_distinct_events() {
    let all = policy(TrayClickAction::EmitEvent);
    assert_eq!(
        emitted(handle_click(all, Some(Gesture::LeftSingle), HERE)),
        (MouseButton::Left, TrayClickKind::Single, HERE)
    );
    assert_eq!(
        emitted(handle_click(all, Some(Gesture::LeftDouble), HERE)),
        (MouseButton::Left, TrayClickKind::Double, HERE)
    );
    assert_eq!(
        emitted(handle_click(all, Some(Gesture::RightSingle), HERE)),
        (MouseButton::Right, TrayClickKind::Single, HERE)
    );
}

#[test]
fn clicks_open_the_menu_or_do_nothing() {
    let open = policy(TrayClickAction::Ignore).right(TrayClickAction::OpenMenu);
    assert!(matches!(
        handle_click(open, Some(Gesture::RightSingle), HERE),
        ClickOutcome::OpenMenu
    ));
    assert!(matches!(
        handle_click(open, Some(Gesture::LeftSingle), HERE),
        ClickOutcome::Nothing
    ));
    assert!(matches!(
        handle_click(policy(TrayClickAction::EmitEvent), None, HERE),
        ClickOutcome::Nothing
    ));
}

#[test]
fn mouse_ups_on_macos_become_clicks() {
    let all = policy(TrayClickAction::EmitEvent);
    assert_eq!(
        emitted(handle_mouse_up(all, MouseUp::Left, 1, HERE)),
        (MouseButton::Left, TrayClickKind::Single, HERE)
    );
    assert_eq!(
        emitted(handle_mouse_up(all, MouseUp::Left, 2, HERE)),
        (MouseButton::Left, TrayClickKind::Double, HERE)
    );
    assert_eq!(
        emitted(handle_mouse_up(all, MouseUp::Left, 3, HERE)),
        (MouseButton::Left, TrayClickKind::Double, HERE)
    );
    assert_eq!(
        emitted(handle_mouse_up(all, MouseUp::Right, 2, HERE)),
        (MouseButton::Right, TrayClickKind::Single, HERE)
    );
    assert!(matches!(handle_mouse_up(all, MouseUp::Other, 1, HERE), ClickOutcome::Nothing));
}

#[test]
fn only_emitting_actions_make_events() {
    let event = map_click_event(
        TrayClickAction::EmitEvent,
        MouseButton::Right,
        TrayClickKind::Single,
        HERE,
    );
    assert!(matches!(
        event,
        Some(TrayEvent::TrayClick {
            button: MouseButton::Right,
            kind: TrayClickKind::Single,
            position: HERE,
        })
    ));
    for action in [TrayClickAction::OpenMenu, TrayClickAction::Ignore] {
        assert!(map_click_event(action, MouseButton::Left, TrayClickKind::Single, HERE).is_none());
    }
}

#[test]
fn clones_of_events_are_the_same() {
    let event = TrayEvent::MenuClick { id: "quit".to_string() };
    assert_eq!(format!("{:?}", event.clone()), format!("{:?}", event));
}
