use gpui_tray::dbus_menu::DBusMenu;
use gpui_tray::linux::{
    apply_linux_state, linux_item_from_tray_state, linux_task_step, linux_tray_event,
    make_bus_name, LinuxEvent, LinuxTray, LinuxTrayView, StatusNotifierItemState, TaskInput,
    TaskStep, ToolTip,
};
use gpui_tray::pixmap::{DecodedIcon, Pixmap};
use gpui_tray::{
    MouseButton, Point, TargetOs, TrayClickAction, TrayClickKind, TrayClickPolicy, TrayError,
    TrayEvent, TrayMenuItem, TrayState,
};
use zbus::zvariant::Value;

fn policy() -> TrayClickPolicy {
    TrayClickPolicy::platform_default(TargetOs::Linux)
}

#[test]
fn activations_become_clicks() {
    assert!(matches!(
        linux_tray_event(policy(), LinuxEvent::Activate(3, -4)),
        Some(TrayEvent::TrayClick {
            button: MouseButton::Left,
            kind: TrayClickKind::Single,
            position: Point { x: 3, y: -4 },
        })
    ));
    assert!(linux_tray_event(policy(), LinuxEvent::SecondaryActivate(3, 4)).is_none());
    let emitting = policy().right(TrayClickAction::EmitEvent);
    assert!(matches!(
        linux_tray_event(emitting, LinuxEvent::SecondaryActivate(5, 6)),
        Some(TrayEvent::TrayClick {
            button: MouseButton::Right,
            kind: TrayClickKind::Single,
            position: Point { x: 5, y: 6 },
        })
    ));
}

#[test]
fn scrolling_is_vertical_unless_horizontal() {
    for (orientation, x, y) in [
        ("horizontal", 7, 0),
        ("Horizontal", 7, 0),
        ("is HORIZONTAL now", 7, 0),
        ("vertical", 0, 7),
        ("", 0, 7),
        ("horizonta", 0, 7),
    ] {
        match linux_tray_event(policy(), LinuxEvent::Scroll(7, orientation.to_string())) {
            Some(TrayEvent::Scroll { scroll_detal }) => assert_eq!(scroll_detal, Point { x, y }),
            other => panic!("{:?}", other),
        }
    }
}

#[test]
fn menu_clicks_are_reported_whatever_the_policy() {
    let silent = policy()
        .left(TrayClickAction::Ignore)
        .right(TrayClickAction::Ignore)
        .double_click(TrayClickAction::Ignore);
    match linux_tray_event(silent, LinuxEvent::MenuClick("quit".to_string())) {
        Some(TrayEvent::MenuClick { id }) => assert_eq!(id, "quit"),
        other => panic!("{:?}", other),
    }
    assert!(linux_tray_event(silent, LinuxEvent::Activate(0, 0)).is_none());
}

#[test]
fn the_task_does_what_it_is_told() {
    assert!(matches!(linux_task_step(policy(), TaskInput::Flush), TaskStep::Flush));
    assert!(matches!(linux_task_step(policy(), TaskInput::Close), TaskStep::Stop));
    assert!(matches!(linux_task_step(policy(), TaskInput::Disconnected), TaskStep::Stop));
    assert!(matches!(
        linux_task_step(policy(), TaskInput::Report(LinuxEvent::SecondaryActivate(0, 0))),
        TaskStep::Wait
    ));
    assert!(matches!(
        linux_task_step(policy(), TaskInput::Report(LinuxEvent::Activate(0, 0))),
        TaskStep::Emit(TrayEvent::TrayClick { .. })
    ));
}

#[test]
fn bus_names_hold_process_and_time() {
    assert_eq!(
        make_bus_name(4211, 987654321),
        "org.freedesktop.StatusNotifierItem.gpui_tray_4211_987654321"
    );
    assert_eq!(
        make_bus_name(0, u32::MAX),
        "org.freedesktop.StatusNotifierItem.gpui_tray_0_4294967295"
    );
}

#[test]
fn states_take_the_form_that_hosts_are_shown() {
    let state = TrayState::new()
        .title("T")
        .tooltip("tip")
        .description("more")
        .visible(false)
        .submenu(TrayMenuItem::menu("quit", "Quit", Vec::new()));
    let icon = DecodedIcon { width: 2, height: 1, bgra: vec![1, 2, 3, 4, 5, 6, 7, 8] };
    let item = linux_item_from_tray_state(state, Some(icon)).unwrap();
    assert!(!item.visible);
    assert_eq!(item.title, "T");
    assert_eq!(item.tooltip, "tip");
    assert_eq!(item.description, "more");
    assert_eq!(item.icon_pixmaps.len(), 1);
    assert_eq!(item.icon_pixmaps[0].bytes, vec![1, 2, 3, 4, 5, 6, 7, 8]);
    assert_eq!(item.menu.user_id_for_node(1).as_deref(), Some("quit"));
    assert_eq!(item.click_policy, policy());
    let plain = linux_item_from_tray_state(TrayState::new(), None).unwrap();
    assert!(plain.icon_pixmaps.is_empty());
}

#[test]
fn icons_that_cannot_be_shown_are_errors() {
    let icon = DecodedIcon { width: 0, height: 0, bgra: Vec::new() };
    assert!(matches!(
        linux_item_from_tray_state(TrayState::new(), Some(icon)),
        Err(TrayError::EmptyIcon)
    ));
    let icon = DecodedIcon { width: 16, height: 16, bgra: vec![0; 4] };
    assert!(matches!(
        linux_item_from_tray_state(TrayState::new(), Some(icon)),
        Err(TrayError::PixelBufferLength { expected: 1024 })
    ));
}

#[test]
fn applying_a_state_shows_it_and_counts() {
    let mut view = LinuxTrayView::new();
    assert_eq!(view.revision, 1);
    assert_eq!(view.click_policy, policy());
    assert_eq!(view.status.status(), "Passive");
    assert_eq!(view.status.title(), "");
    let ignoring = policy().left(TrayClickAction::Ignore);
    let state = TrayState::new()
        .title("T")
        .tooltip("tip")
        .description("more")
        .click_policy(ignoring)
        .submenu(TrayMenuItem::menu("quit", "Quit", Vec::new()));
    let icon = DecodedIcon { width: 1, height: 1, bgra: vec![9, 9, 9, 9] };
    let item = linux_item_from_tray_state(state, Some(icon)).unwrap();
    assert_eq!(apply_linux_state(&mut view, item), 2);
    assert_eq!(view.revision, 2);
    assert_eq!(view.click_policy, ignoring);
    assert_eq!(view.status.title(), "T");
    assert_eq!(view.status.status(), "Active");
    assert_eq!(view.status.icon_pixmap()[0].bytes, vec![9, 9, 9, 9]);
    let tip = view.status.tool_tip();
    assert_eq!(tip.icon_name, "");
    assert_eq!(tip.icon_pixmap.len(), 1);
    assert_eq!(tip.title, "tip");
    assert_eq!(tip.description, "more");
    assert_eq!(view.menu.user_id_for_node(1).as_deref(), Some("quit"));
}

#[test]
fn revisions_wrap_but_hosts_are_told_the_largest() {
    let mut view = LinuxTrayView::new();
    view.revision = u32::MAX;
    let item = linux_item_from_tray_state(TrayState::new(), None).unwrap();
    assert_eq!(apply_linux_state(&mut view, item), u32::MAX);
    assert_eq!(view.revision, 0);
}

#[test]
fn a_status_shows_its_pixmaps_in_order() {
    let mut status = StatusNotifierItemState::default();
    assert!(status.icon_pixmap().is_empty());
    status.icon_pixmaps = vec![Pixmap::new(1, 1, vec![1; 4]), Pixmap::new(2, 1, vec![2; 8])];
    let pixmaps = status.icon_pixmap();
    assert_eq!(pixmaps.len(), 2);
    assert_eq!((pixmaps[1].width, pixmaps[1].height), (2, 1));
    assert_eq!(pixmaps[1].bytes, vec![2; 8]);
}

#[test]
fn closing_ends_a_tray_and_permits_another() {
    let mut tray = LinuxTray::set_up(None, TrayState::new().title("A")).unwrap();
    assert!(matches!(
        LinuxTray::set_up(Some(tray.closed), TrayState::new()),
        Err(TrayError::AlreadyInitialized)
    ));
    assert!(tray.close());
    assert!(!tray.close());
    assert_eq!(tray.set_state(TrayState::new()), Err(TrayError::Closed));
    assert_eq!(tray.flush_now(), Err(TrayError::Closed));
    assert!(LinuxTray::set_up(Some(tray.closed), TrayState::new()).is_ok());
}

#[test]
fn the_task_is_told_of_a_flush_once() {
    let mut tray = LinuxTray::set_up(None, TrayState::new().title("A")).unwrap();
    assert_eq!(tray.set_state(TrayState::new().title("B")), Ok(false));
    assert_eq!(tray.flush_now(), Ok(false));
    let shown = tray.runtime.try_begin_flush().expect("pending flush");
    assert_eq!(shown.state.title, "B");
    assert_eq!(tray.flush_now(), Ok(true));
    assert_eq!(tray.flush_now(), Ok(false));
}

#[test]
fn a_view_starts_with_an_empty_menu() {
    let view = LinuxTrayView::new();
    let layout = view.menu.to_layout(0, -1, &[]);
    assert_eq!(layout.properties.len(), DBusMenu::new().to_layout(0, -1, &[]).properties.len());
    assert!(layout.children.is_empty());
}

#[test]
fn tooltips_travel_as_structures() {
    let tip = ToolTip {
        icon_name: "name".to_string(),
        icon_pixmap: vec![Pixmap::new(1, 1, vec![1; 4]), Pixmap::new(2, 1, vec![2; 8])],
        title: "title".to_string(),
        description: "description".to_string(),
    };
    let value = tip.to_value();
    let fields = match &value {
        Value::Structure(structure) => structure.fields(),
        other => panic!("{:?}", other),
    };
    assert_eq!(fields.len(), 4);
    assert_eq!(fields[0], Value::from("name"));
    assert_eq!(fields[2], Value::from("title"));
    assert_eq!(fields[3], Value::from("description"));
    match &fields[1] {
        Value::Array(array) => {
            assert_eq!(array.inner().len(), 2);
            assert_eq!(array.inner()[0], tip.icon_pixmap[0].to_value());
            assert_eq!(array.inner()[1], tip.icon_pixmap[1].to_value());
        }
        other => panic!("{:?}", other),
    }
    assert_eq!(value.value_signature().to_string(), "(sa(iiay)ss)");
}
