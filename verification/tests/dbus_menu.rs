use std::collections::HashMap;

use gpui_tray::dbus_menu::{
    is_activation_event, menu_fits, DBusMenu, MenuProperty, MenuToggleType,
};
use gpui_tray::linux::LinuxEvent;
use gpui_tray::TrayMenuItem;
use zbus::zvariant::{StructureBuilder, Value};

fn items() -> Vec<TrayMenuItem> {
    vec![
        TrayMenuItem::info("Connected"),
        TrayMenuItem::separator(),
        TrayMenuItem::menu(
            "view",
            "View",
            vec![
                TrayMenuItem::radio("list", "List", true),
                TrayMenuItem::menu("more", "More", vec![TrayMenuItem::checkbox("dark", "Dark", false)]),
            ],
        ),
        TrayMenuItem::menu("quit", "Quit", Vec::new()).visible(false),
    ]
}

fn menu() -> DBusMenu {
    DBusMenu::from_tray_menu_items(&items())
}

fn by_name(entries: &[(String, Value<'static>)]) -> HashMap<String, Value<'static>> {
    let map: HashMap<String, Value<'static>> = entries
        .iter()
        .map(|(key, value)| (key.clone(), value.try_clone().unwrap()))
        .collect();
    assert_eq!(map.len(), entries.len());
    map
}

fn properties(pairs: Vec<(&str, Value<'static>)>) -> HashMap<String, Value<'static>> {
    pairs.into_iter().map(|(key, value)| (key.to_string(), value)).collect()
}

fn structure(
    id: i32,
    properties: HashMap<String, Value<'static>>,
    children: Vec<Value<'static>>,
) -> Value<'static> {
    Value::from(
        StructureBuilder::new()
            .add_field(id)
            .add_field(properties)
            .add_field(children)
            .build()
            .unwrap(),
    )
}

fn joined(
    mut first: Vec<(&'static str, Value<'static>)>,
    second: Vec<(&'static str, Value<'static>)>,
) -> HashMap<String, Value<'static>> {
    first.extend(second);
    properties(first)
}

fn standard(label: &'static str) -> Vec<(&'static str, Value<'static>)> {
    vec![
        ("type", Value::from("standard")),
        ("label", Value::from(label)),
        ("enabled", Value::from(true)),
        ("visible", Value::from(true)),
    ]
}

#[test]
fn properties_have_names_and_values() {
    let cases = [
        (MenuProperty::Type("separator"), "type", Value::from("separator")),
        (MenuProperty::Label("Quit".to_string()), "label", Value::from("Quit")),
        (MenuProperty::Enabled(true), "enabled", Value::from(true)),
        (MenuProperty::Visible(false), "visible", Value::from(false)),
        (
            MenuProperty::ToggleType(MenuToggleType::Checkmark),
            "toggle-type",
            Value::from("checkmark"),
        ),
        (MenuProperty::ToggleType(MenuToggleType::Radio), "toggle-type", Value::from("radio")),
        (MenuProperty::ToggleState(1), "toggle-state", Value::I32(1)),
    ];
    for (property, name, value) in cases {
        assert_eq!(property.name(), name);
        assert_eq!(property.to_value(), value);
    }
    assert!(matches!(MenuProperty::Enabled(true).to_value(), Value::Bool(true)));
    assert!(matches!(MenuProperty::Type("a").to_value(), Value::Str(_)));
    assert!(matches!(MenuProperty::Label("a".to_string()).to_value(), Value::Str(_)));
    assert!(matches!(MenuProperty::ToggleState(0).to_value(), Value::I32(0)));
}

#[test]
fn an_empty_menu_is_its_root() {
    for menu in [DBusMenu::new(), DBusMenu::from_tray_menu_items(&[])] {
        let layout = menu.to_layout(0, -1, &[]);
        assert_eq!(layout.id, 0);
        assert!(layout.children.is_empty());
        assert_eq!(
            by_name(&layout.properties),
            properties(vec![("enabled", Value::from(true)), ("visible", Value::from(true))])
        );
    }
}

#[test]
fn nodes_are_numbered_in_the_order_in_which_items_are_written() {
    let menu = menu();
    let labels = ["Connected", "", "View", "List", "More", "Dark", "Quit"];
    for (i, label) in labels.iter().enumerate() {
        assert_eq!(menu.get_property(i as i32 + 1, "label"), Value::from(*label));
    }
    let ids = [None, None, None, None, Some("list"), None, Some("dark"), Some("quit"), None];
    for (i, id) in ids.iter().enumerate() {
        assert_eq!(menu.user_id_for_node(i as i32).as_deref(), *id);
    }
}

#[test]
fn the_whole_layout_shows_the_items() {
    let submenu = || vec![("children-display", Value::from("submenu"))];
    let dark = structure(
        6,
        joined(
            standard("Dark"),
            vec![("toggle-type", Value::from("checkmark")), ("toggle-state", Value::from(0))],
        ),
        Vec::new(),
    );
    let more = structure(5, joined(standard("More"), submenu()), vec![dark]);
    let list = structure(
        4,
        joined(
            standard("List"),
            vec![("toggle-type", Value::from("radio")), ("toggle-state", Value::from(1))],
        ),
        Vec::new(),
    );
    let layout = menu().to_layout(3, -1, &[]);
    assert_eq!(layout.id, 3);
    assert_eq!(by_name(&layout.properties), joined(standard("View"), submenu()));
    assert_eq!(layout.children, vec![list, more]);
    assert_eq!(menu().to_layout(0, -1, &[]).children.len(), 4);
}

#[test]
fn children_are_structures_of_id_properties_and_children() {
    let layout = menu().to_layout(0, 1, &[]);
    assert_eq!(layout.children.len(), 4);
    match &layout.children[1] {
        Value::Structure(structure) => {
            let fields = structure.fields();
            assert_eq!(fields.len(), 3);
            assert_eq!(fields[0], Value::I32(2));
            match &fields[1] {
                Value::Dict(dict) => {
                    assert_eq!(dict.iter().count(), 3);
                    for (key, value) in dict.iter() {
                        let inner = match value {
                            Value::Value(inner) => inner,
                            other => panic!("{:?}", other),
                        };
                        match key {
                            Value::Str(key) if key.as_str() == "type" => {
                                assert_eq!(**inner, Value::from("separator"))
                            }
                            Value::Str(key) if key.as_str() == "enabled" => {
                                assert_eq!(**inner, Value::from(true))
                            }
                            Value::Str(key) if key.as_str() == "visible" => {
                                assert_eq!(**inner, Value::from(true))
                            }
                            other => panic!("{:?}", other),
                        }
                    }
                }
                other => panic!("{:?}", other),
            }
            match &fields[2] {
                Value::Array(array) => assert!(array.inner().is_empty()),
                other => panic!("{:?}", other),
            }
        }
        other => panic!("{:?}", other),
    }
    let whole = menu().to_layout(0, -1, &[]);
    match &whole.children[2] {
        Value::Structure(structure) => match &structure.fields()[2] {
            Value::Array(array) => {
                assert_eq!(array.inner().len(), 2);
                assert!(matches!(&array.inner()[0], Value::Value(_)));
            }
            other => panic!("{:?}", other),
        },
        other => panic!("{:?}", other),
    }
}

#[test]
fn layouts_stop_at_the_wanted_depth() {
    let menu = menu();
    let flat = menu.to_layout(0, 0, &[]);
    assert!(flat.children.is_empty());
    assert!(!by_name(&flat.properties).contains_key("children-display"));
    let one = menu.to_layout(3, 1, &[]);
    assert_eq!(one.children.len(), 2);
    assert_eq!(one.children[1], structure(5, properties(standard("More")), Vec::new()));
    assert_eq!(menu.to_layout(0, i32::MIN, &[]).children.len(), 4);
}

#[test]
fn layouts_hold_the_wanted_properties() {
    let names = ["label".to_string(), "no-such-property".to_string()];
    let layout = menu().to_layout(3, 1, &names);
    assert_eq!(
        by_name(&layout.properties),
        properties(vec![
            ("label", Value::from("View")),
            ("children-display", Value::from("submenu")),
        ])
    );
    assert_eq!(
        layout.children[0],
        structure(4, properties(vec![("label", Value::from("List"))]), Vec::new())
    );
}

#[test]
fn unknown_nodes_have_an_empty_layout() {
    let layout = menu().to_layout(99, -1, &[]);
    assert_eq!(layout.id, 99);
    assert!(layout.properties.is_empty());
    assert!(layout.children.is_empty());
}

#[test]
fn group_properties_answer_every_id() {
    let menu = menu();
    let names = ["visible".to_string(), "type".to_string()];
    let groups = menu.get_group_properties(&[7, 99, 0], &names);
    assert_eq!(groups.len(), 3);
    assert_eq!(groups[0].0, 7);
    assert_eq!(
        by_name(&groups[0].1),
        properties(vec![("visible", Value::from(false)), ("type", Value::from("standard"))])
    );
    assert_eq!(groups[1].0, 99);
    assert!(groups[1].1.is_empty());
    assert_eq!(groups[2].0, 0);
    assert_eq!(by_name(&groups[2].1), properties(vec![("visible", Value::from(true))]));
    let all = menu.get_group_properties(&[1], &[]);
    assert_eq!(
        by_name(&all[0].1),
        properties(vec![
            ("type", Value::from("standard")),
            ("label", Value::from("Connected")),
            ("enabled", Value::from(false)),
            ("visible", Value::from(true)),
        ])
    );
}

#[test]
fn missing_properties_are_empty_texts() {
    let menu = menu();
    assert_eq!(menu.get_property(7, "visible"), Value::from(false));
    assert_eq!(menu.get_property(4, "toggle-state"), Value::from(1));
    assert_eq!(menu.get_property(2, "label"), Value::from(""));
    assert_eq!(menu.get_property(99, "label"), Value::from(""));
    assert_eq!(menu.get_property(3, "children-display"), Value::from(""));
}

#[test]
fn activations_become_menu_clicks() {
    let menu = menu();
    for name in ["clicked", "activate", "activated", "toggled", "Clicked", "TOGGLED"] {
        assert!(is_activation_event(name));
        match menu.dispatch_menu_event(4, name) {
            Some(LinuxEvent::MenuClick(id)) => assert_eq!(id, "list"),
            other => panic!("{:?}", other),
        }
    }
    for name in ["", "hovered", "opened", "click", "clicked "] {
        assert!(!is_activation_event(name));
        assert!(menu.dispatch_menu_event(4, name).is_none());
    }
    for id in [0, 1, 2, 3, 5, 99, -1] {
        assert!(menu.dispatch_menu_event(id, "clicked").is_none());
    }
}

#[test]
fn ordinary_menus_fit() {
    assert!(menu_fits(&items()));
    assert!(menu_fits(&Vec::new()));
}

#[test]
fn hosts_learn_the_same_whichever_way_they_ask() {
    let menu = menu();
    for id in 0..8 {
        let mut layout = by_name(&menu.to_layout(id, 1, &[]).properties);
        layout.remove("children-display");
        assert_eq!(by_name(&menu.get_group_properties(&[id], &[])[0].1), layout);
        for (name, value) in layout {
            assert_eq!(menu.get_property(id, &name), value);
        }
    }
}

#[test]
fn events_in_a_group_count_as_if_they_had_come_alone() {
    let events = [
        (4, "clicked".to_string()),
        (1, "clicked".to_string()),
        (6, "hovered".to_string()),
        (7, "Activate".to_string()),
        (4, "toggled".to_string()),
    ];
    let clicks: Vec<String> = menu()
        .event_group(&events)
        .into_iter()
        .map(|click| match click {
            LinuxEvent::MenuClick(id) => id,
            other => panic!("{:?}", other),
        })
        .collect();
    assert_eq!(clicks, vec!["list", "quit", "list"]);
    assert!(menu().event_group(&[]).is_empty());
}
