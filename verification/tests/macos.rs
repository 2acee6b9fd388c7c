use gpui_tray::macos::{
    dispatch_tag, mac_apply_steps, rebuild_mac_menu, set_visible, MacApplyStep, MacMenuEntry,
    StatusItemAction,
};
use gpui_tray::{LogicalPoints, TrayEvent, TrayImage, TrayMenuItem, TrayState};

fn items() -> Vec<TrayMenuItem> {
    vec![
        TrayMenuItem::info("Connected"),
        TrayMenuItem::separator(),
        TrayMenuItem::separator().visible(false),
        TrayMenuItem::menu("hidden", "Hidden", Vec::new()).visible(false),
        TrayMenuItem::menu(
            "view",
            "View",
            vec![
                TrayMenuItem::radio("list", "List", true),
                TrayMenuItem::radio("grid", "Grid", false).enabled(false),
            ],
        ),
        TrayMenuItem::checkbox("quit", "Quit", true),
    ]
}

#[test]
fn entries_follow_the_items() {
    let menu = rebuild_mac_menu(&items());
    assert_eq!(menu.entries.len(), 4);
    match &menu.entries[0] {
        MacMenuEntry::Item { title, tag, checked, enabled } => {
            assert_eq!(title, "Connected");
            assert!(tag.is_none());
            assert!(!*checked);
            assert!(!*enabled);
        }
        other => panic!("{:?}", other),
    }
    assert!(matches!(menu.entries[1], MacMenuEntry::Separator));
    match &menu.entries[2] {
        MacMenuEntry::Submenu { title, enabled, entries } => {
            assert_eq!(title, "View");
            assert!(*enabled);
            assert_eq!(entries.len(), 2);
            assert!(matches!(
                &entries[0],
                MacMenuEntry::Item { tag: Some(1), checked: true, enabled: true, .. }
            ));
            assert!(matches!(
                &entries[1],
                MacMenuEntry::Item { tag: None, checked: false, enabled: false, .. }
            ));
        }
        other => panic!("{:?}", other),
    }
    assert!(matches!(
        &menu.entries[3],
        MacMenuEntry::Item { tag: Some(2), checked: true, enabled: true, .. }
    ));
}

#[test]
fn tags_stand_for_their_items() {
    let menu = rebuild_mac_menu(&items());
    assert_eq!(menu.tag_to_id.len(), 2);
    for (tag, id) in [(1, "list"), (2, "quit")] {
        match dispatch_tag(&menu.tag_to_id, tag) {
            Some(TrayEvent::MenuClick { id: clicked }) => assert_eq!(clicked, id),
            other => panic!("{:?}", other),
        }
    }
    assert!(dispatch_tag(&menu.tag_to_id, 0).is_none());
    assert!(dispatch_tag(&menu.tag_to_id, 3).is_none());
}

#[test]
fn the_status_item_follows_visibility() {
    assert_eq!(set_visible(false, true), StatusItemAction::Create);
    assert_eq!(set_visible(true, true), StatusItemAction::Keep);
    assert_eq!(set_visible(true, false), StatusItemAction::Remove);
    assert_eq!(set_visible(false, false), StatusItemAction::Keep);
}

#[test]
fn images_are_prepared_before_the_button_gets_them() {
    let points = LogicalPoints::from_bits(20.0f64.to_bits()).unwrap();
    let state = TrayState::new()
        .icon(TrayImage { mime_type: "image/png".to_string(), bytes: Vec::new() })
        .icon_size(points)
        .icon_template(false);
    assert_eq!(
        mac_apply_steps(&state),
        vec![
            MacApplyStep::SetVisible(true),
            MacApplyStep::RebuildMenu,
            MacApplyStep::HookButton,
            MacApplyStep::SetToolTip,
            MacApplyStep::SetTitle,
            MacApplyStep::PrepareImage { points, template: false },
            MacApplyStep::AssignImage,
            MacApplyStep::SetClickPolicy,
        ]
    );
}

#[test]
fn states_without_an_icon_clear_the_image() {
    let steps = mac_apply_steps(&TrayState::new());
    assert_eq!(steps.len(), 7);
    assert_eq!(steps[5], MacApplyStep::ClearImage);
    assert_eq!(
        mac_apply_steps(&TrayState::new().visible(false)),
        vec![MacApplyStep::SetVisible(false)]
    );
}

#[test]
fn hidden_items_leave_no_trace() {
    let shown: Vec<TrayMenuItem> = vec![
        TrayMenuItem::info("Connected"),
        TrayMenuItem::separator(),
        TrayMenuItem::checkbox("quit", "Quit", true),
    ];
    let mut with_hidden = shown.clone();
    with_hidden.insert(1, TrayMenuItem::menu("hidden", "Hidden", Vec::new()).visible(false));
    let plain = rebuild_mac_menu(&shown);
    let other = rebuild_mac_menu(&with_hidden);
    assert_eq!(format!("{:?}", plain.entries), format!("{:?}", other.entries));
    assert_eq!(plain.tag_to_id, other.tag_to_id);
}
