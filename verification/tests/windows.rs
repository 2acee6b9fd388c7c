use gpui_tray::click::Gesture;
use gpui_tray::windows::{
    apply_steps, class_name, dispatch_command, gesture_of_code, menu_closed, notify_tip,
    rebuild_menu, to_wide_null, wndproc, ApplyStep, IconHandle, NotifyIcon, NotifyOp,
    PostedMessage, WinMenuEntry, WindowAction, MF_CHECKED, MF_DISABLED, MF_POPUP, MF_SEPARATOR,
    MF_STRING, MF_UNCHECKED, NIN_SELECT, TRAY_CALLBACK_MESSAGE, TRAY_CLICK_LEFT_DOUBLE,
    TRAY_CLICK_LEFT_SINGLE, TRAY_CLICK_RIGHT_SINGLE, WM_COMMAND, WM_CONTEXTMENU, WM_CREATE,
    WM_DESTROY, WM_LBUTTONDBLCLK, WM_LBUTTONUP, WM_NULL, WM_RBUTTONUP, WM_TRAY_OPEN_MENU,
};
use gpui_tray::{TrayError, TrayEvent, TrayMenuItem, TrayState};
use windows_sys::Win32::UI::{Shell, WindowsAndMessaging};

fn wide(text: &str) -> Vec<u16> {
    text.encode_utf16().chain(Some(0)).collect()
}

#[test]
fn constants_are_those_of_the_system() {
    assert_eq!(WM_NULL, WindowsAndMessaging::WM_NULL);
    assert_eq!(WM_CREATE, WindowsAndMessaging::WM_CREATE);
    assert_eq!(WM_DESTROY, WindowsAndMessaging::WM_DESTROY);
    assert_eq!(WM_CONTEXTMENU, WindowsAndMessaging::WM_CONTEXTMENU);
    assert_eq!(WM_COMMAND, WindowsAndMessaging::WM_COMMAND);
    assert_eq!(WM_LBUTTONUP, WindowsAndMessaging::WM_LBUTTONUP);
    assert_eq!(WM_LBUTTONDBLCLK, WindowsAndMessaging::WM_LBUTTONDBLCLK);
    assert_eq!(WM_RBUTTONUP, WindowsAndMessaging::WM_RBUTTONUP);
    assert_eq!(NIN_SELECT, Shell::NIN_SELECT);
    assert_eq!(TRAY_CALLBACK_MESSAGE, WindowsAndMessaging::WM_USER + 1);
    assert_eq!(WM_TRAY_OPEN_MENU, WindowsAndMessaging::WM_USER + 2);
    assert_eq!(MF_STRING, WindowsAndMessaging::MF_STRING);
    assert_eq!(MF_UNCHECKED, WindowsAndMessaging::MF_UNCHECKED);
    assert_eq!(MF_CHECKED, WindowsAndMessaging::MF_CHECKED);
    assert_eq!(MF_DISABLED, WindowsAndMessaging::MF_DISABLED);
    assert_eq!(MF_POPUP, WindowsAndMessaging::MF_POPUP);
    assert_eq!(MF_SEPARATOR, WindowsAndMessaging::MF_SEPARATOR);
}

#[test]
fn wide_texts_are_utf16_with_a_zero() {
    for text in ["", "Quit", "\u{ffff}\u{10000}\u{10ffff}", "\u{e9}\u{20ac}\u{1f600}x"] {
        assert_eq!(to_wide_null(text), wide(text));
    }
    assert_eq!(to_wide_null("\u{1f600}"), vec![0xd83d, 0xde00, 0]);
    assert_eq!(class_name(), wide("GpuiTrayHiddenWindow"));
}

#[test]
fn tooltips_leave_room_for_a_zero() {
    assert_eq!(notify_tip("abc", 6), vec![97, 98, 99, 0, 0, 0]);
    assert_eq!(notify_tip("abc", 4), vec![97, 98, 99, 0]);
    assert_eq!(notify_tip("abc", 3), vec![97, 98, 0]);
    assert_eq!(notify_tip("abc", 1), vec![0]);
    assert_eq!(notify_tip("", 128), vec![0; 128]);
}

#[test]
fn the_icon_reports_clicks() {
    for (event, code) in [
        (WM_RBUTTONUP, TRAY_CLICK_RIGHT_SINGLE),
        (WM_CONTEXTMENU, TRAY_CLICK_RIGHT_SINGLE),
        (WM_LBUTTONUP, TRAY_CLICK_LEFT_SINGLE),
        (NIN_SELECT, TRAY_CLICK_LEFT_SINGLE),
        (WM_LBUTTONDBLCLK, TRAY_CLICK_LEFT_DOUBLE),
    ] {
        let lparam = 0x7_0000 + event as isize;
        assert_eq!(
            wndproc(TRAY_CALLBACK_MESSAGE, 0, lparam),
            WindowAction::PostClick(code)
        );
        let negative = event as isize - 0x10000;
        assert_eq!(
            wndproc(TRAY_CALLBACK_MESSAGE, 0, negative),
            WindowAction::PostClick(code)
        );
    }
    assert_eq!(wndproc(TRAY_CALLBACK_MESSAGE, 0, 0x200), WindowAction::Nothing);
}

#[test]
fn the_window_takes_its_messages() {
    assert_eq!(wndproc(WM_CREATE, 1, 2), WindowAction::KeepUserData);
    assert_eq!(wndproc(WM_TRAY_OPEN_MENU, 2, 0), WindowAction::HandleClick(2));
    assert_eq!(wndproc(WM_COMMAND, 0x1_03e8, 0), WindowAction::Command(1000));
    assert_eq!(wndproc(WM_DESTROY, 0, 0), WindowAction::Nothing);
    assert_eq!(wndproc(WM_NULL, 0, 0), WindowAction::Default);
}

#[test]
fn codes_stand_for_clicks() {
    assert_eq!(gesture_of_code(TRAY_CLICK_LEFT_SINGLE), Some(Gesture::LeftSingle));
    assert_eq!(gesture_of_code(TRAY_CLICK_RIGHT_SINGLE), Some(Gesture::RightSingle));
    assert_eq!(gesture_of_code(TRAY_CLICK_LEFT_DOUBLE), Some(Gesture::LeftDouble));
    assert_eq!(gesture_of_code(3), None);
}

#[test]
fn the_shell_is_asked_where_needed() {
    let mut icon = NotifyIcon::new();
    assert!(icon.needs(NotifyOp::Add));
    assert!(!icon.needs(NotifyOp::Modify));
    assert!(!icon.needs(NotifyOp::Delete));
    assert_eq!(icon.answered(NotifyOp::Add, false), Err(TrayError::NotifyAddFailed));
    assert!(!icon.added);
    assert_eq!(icon.answered(NotifyOp::Add, true), Ok(()));
    assert!(icon.added);
    assert!(!icon.needs(NotifyOp::Add));
    assert!(icon.needs(NotifyOp::Modify));
    assert_eq!(icon.answered(NotifyOp::Modify, false), Err(TrayError::NotifyModifyFailed));
    assert_eq!(icon.answered(NotifyOp::Modify, true), Ok(()));
    assert!(icon.added);
    assert_eq!(icon.answered(NotifyOp::Delete, false), Err(TrayError::NotifyDeleteFailed));
    assert!(icon.added);
    assert_eq!(icon.answered(NotifyOp::Delete, true), Ok(()));
    assert!(!icon.added);
}

#[test]
fn own_icons_are_destroyed_when_replaced() {
    let mut handle = IconHandle::new();
    assert!(!handle.set_icon(true));
    assert!(handle.present && handle.owned);
    assert!(handle.set_icon(true));
    assert!(handle.set_icon(false));
    assert!(!handle.present && !handle.owned);
    assert!(!handle.set_icon(false));
}

#[test]
fn states_are_taken_over_in_order() {
    assert_eq!(
        apply_steps(&TrayState::new()),
        vec![
            ApplyStep::SetClickPolicy,
            ApplyStep::RebuildMenu,
            ApplyStep::SetIcon,
            ApplyStep::AddIcon,
            ApplyStep::ModifyIcon,
        ]
    );
    assert_eq!(
        apply_steps(&TrayState::new().visible(false)),
        vec![ApplyStep::SetClickPolicy, ApplyStep::RebuildMenu, ApplyStep::DeleteIcon]
    );
}

#[test]
fn chosen_commands_are_posted() {
    assert_eq!(menu_closed(0), vec![PostedMessage { message: WM_NULL, wparam: 0 }]);
    let posts = menu_closed(1003);
    assert_eq!(
        posts,
        vec![
            PostedMessage { message: WM_COMMAND, wparam: 1003 },
            PostedMessage { message: WM_NULL, wparam: 0 },
        ]
    );
    assert_eq!(
        wndproc(posts[0].message, posts[0].wparam, 0),
        WindowAction::Command(1003)
    );
}

#[test]
fn entries_carry_flags_and_commands() {
    let items = vec![
        TrayMenuItem::info("Connected"),
        TrayMenuItem::separator(),
        TrayMenuItem::separator().visible(false),
        TrayMenuItem::menu("hidden", "Hidden", Vec::new()).visible(false),
        TrayMenuItem::menu(
            "view",
            "View",
            vec![
                TrayMenuItem::radio("list", "List", true),
                TrayMenuItem::radio("grid", "Grid", true).enabled(false),
            ],
        )
        .enabled(false),
        TrayMenuItem::menu("sub", "Sub", vec![TrayMenuItem::separator()]),
        TrayMenuItem::checkbox("quit", "Quit", false),
    ];
    let menu = rebuild_menu(&items);
    assert_eq!(menu.entries.len(), 5);
    match &menu.entries[0] {
        WinMenuEntry::Item { flags, command, label } => {
            assert_eq!(*flags, MF_DISABLED);
            assert_eq!(*command, 0);
            assert_eq!(*label, wide("Connected"));
        }
        other => panic!("{:?}", other),
    }
    assert!(matches!(menu.entries[1], WinMenuEntry::Separator));
    match &menu.entries[2] {
        WinMenuEntry::Popup { flags, label, entries } => {
            assert_eq!(*flags, MF_POPUP | MF_DISABLED);
            assert_eq!(*label, wide("View"));
            assert!(matches!(
                &entries[0],
                WinMenuEntry::Item { flags: MF_CHECKED, command: 1000, .. }
            ));
            match &entries[1] {
                WinMenuEntry::Item { flags, command, .. } => {
                    assert_eq!(*flags, MF_CHECKED | MF_DISABLED);
                    assert_eq!(*command, 0);
                }
                other => panic!("{:?}", other),
            }
        }
        other => panic!("{:?}", other),
    }
    assert!(matches!(&menu.entries[3], WinMenuEntry::Popup { flags: MF_POPUP, .. }));
    assert!(matches!(
        &menu.entries[4],
        WinMenuEntry::Item { flags: MF_STRING, command: 1001, .. }
    ));
    assert_eq!(menu.id_to_menu_id.len(), 2);
    for (command, id) in [(1000, "list"), (1001, "quit")] {
        match dispatch_command(&menu.id_to_menu_id, command) {
            Some(TrayEvent::MenuClick { id: clicked }) => assert_eq!(clicked, id),
            other => panic!("{:?}", other),
        }
    }
    assert!(dispatch_command(&menu.id_to_menu_id, 0).is_none());
    assert!(dispatch_command(&menu.id_to_menu_id, 999).is_none());
}

#[test]
fn commands_start_again_when_they_run_out() {
    let items: Vec<TrayMenuItem> = (0..64537)
        .map(|n| TrayMenuItem::menu(format!("{n}"), "x", Vec::new()))
        .collect();
    let menu = rebuild_menu(&items);
    assert!(matches!(&menu.entries[64535], WinMenuEntry::Item { command: 65535, .. }));
    assert!(matches!(&menu.entries[64536], WinMenuEntry::Item { command: 1000, .. }));
    match dispatch_command(&menu.id_to_menu_id, 1000) {
        Some(TrayEvent::MenuClick { id }) => assert_eq!(id, "64536"),
        other => panic!("{:?}", other),
    }
    assert_eq!(menu.id_to_menu_id.len(), 64536);
}
