//! The tray menu as a D-Bus menu: numbered nodes with properties, and the layouts that hosts
//! ask for.

use std::collections::HashMap;

use vstd::prelude::*;
use zbus::zvariant::Value;

use crate::linux::LinuxEvent;
use crate::menu_item::{item_models, lemma_item_models, ItemModel, TrayMenuItem, TrayToggleType};
use crate::text::{ascii_lowered, chars_are, lowered_chars, opt_text, same_text};
use crate::variant::{
    bool_value, dictionary_of, distinct_keys, i32_value, layout_value, layout_variant, str_value,
    string_value, variant_of, variants_of, VariantModel,
};

verus! {

/// The mark of a checkable node.
#[derive(Clone, Copy, Debug, PartialEq, Eq, Structural)]
pub enum MenuToggleType {
    Checkmark,
    Radio,
}

/// One property of a node.
#[derive(Debug)]
pub enum MenuProperty {
    Type(&'static str),
    Label(String),
    Enabled(bool),
    Visible(bool),
    ToggleType(MenuToggleType),
    ToggleState(i32),
}

impl MenuProperty {
    /// The name of the property.
    pub open spec fn key(self) -> Seq<char> {
        match self {
            MenuProperty::Type(_) => "type"@,
            MenuProperty::Label(_) => "label"@,
            MenuProperty::Enabled(_) => "enabled"@,
            MenuProperty::Visible(_) => "visible"@,
            MenuProperty::ToggleType(_) => "toggle-type"@,
            MenuProperty::ToggleState(_) => "toggle-state"@,
        }
    }

    /// The value of the property.
    pub open spec fn variant(self) -> VariantModel {
        match self {
            MenuProperty::Type(t) => VariantModel::Str(t@),
            MenuProperty::Label(s) => VariantModel::Str(s@),
            MenuProperty::Enabled(b) => VariantModel::Bool(b),
            MenuProperty::Visible(b) => VariantModel::Bool(b),
            MenuProperty::ToggleType(MenuToggleType::Checkmark) => VariantModel::Str("checkmark"@),
            MenuProperty::ToggleType(MenuToggleType::Radio) => VariantModel::Str("radio"@),
            MenuProperty::ToggleState(n) => VariantModel::I32(n),
        }
    }

    /// The name of the property.
    pub fn name(&self) -> (name: &'static str)
        ensures
            name@ == self.key(),
    {
        match self {
            MenuProperty::Type(_) => "type",
            MenuProperty::Label(_) => "label",
            MenuProperty::Enabled(_) => "enabled",
            MenuProperty::Visible(_) => "visible",
            MenuProperty::ToggleType(_) => "toggle-type",
            MenuProperty::ToggleState(_) => "toggle-state",
        }
    }

    /// The value of the property, as it travels.
    pub fn to_value(&self) -> (v: Value<'static>)
        ensures
            variant_of(v) == self.variant(),
    {
        match self {
            MenuProperty::Type(t) => str_value(*t),
            MenuProperty::Label(s) => string_value(s.clone()),
            MenuProperty::Enabled(b) => bool_value(*b),
            MenuProperty::Visible(b) => bool_value(*b),
            MenuProperty::ToggleType(t) => match t {
                MenuToggleType::Checkmark => str_value("checkmark"),
                MenuToggleType::Radio => str_value("radio"),
            },
            MenuProperty::ToggleState(n) => i32_value(*n),
        }
    }
}

/// The properties by name; of two with one name the later one counts.
pub open spec fn properties_by_name(properties: Seq<MenuProperty>) -> Map<Seq<char>, VariantModel>
    decreases properties.len(),
{
    if properties.len() == 0 {
        Map::empty()
    } else {
        properties_by_name(properties.drop_last()).insert(
            properties.last().key(),
            properties.last().variant(),
        )
    }
}

/// Whether no two of the properties have one name.
pub open spec fn distinct_names(properties: Seq<MenuProperty>) -> bool {
    forall|i: int, j: int|
        0 <= i < j < properties.len() ==> (#[trigger] properties[i]).key() != (
        #[trigger] properties[j]).key()
}

/// The texts, in order.
pub open spec fn texts(names: Seq<String>) -> Seq<Seq<char>> {
    names.map_values(|s: String| s@)
}

/// Whether a host that asks for `names` wants the property `key`: no name stands for all.
pub open spec fn wanted(key: Seq<char>, names: Seq<Seq<char>>) -> bool {
    names.len() == 0 || names.contains(key)
}

/// Those of the properties that a host wants.
pub open spec fn selected(
    properties: Map<Seq<char>, VariantModel>,
    names: Seq<Seq<char>>,
) -> Map<Seq<char>, VariantModel> {
    properties.restrict(Set::new(|key: Seq<char>| wanted(key, names)))
}

/// Whether a host that asks for `names` wants the property `key`.
fn is_wanted(key: &str, names: &[String]) -> (r: bool)
    ensures
        r == wanted(key@, texts(names@)),
{
    if names.len() == 0 {
        return true;
    }
    for i in 0..names.len()
        invariant
            forall|j: int| 0 <= j < i ==> #[trigger] texts(names@)[j] != key@,
    {
        if same_text(names[i].as_str(), key) {
            assert(texts(names@)[i as int] == key@);
            return true;
        }
    }
    false
}

/// Those of the properties that a host wants, by name.
fn select_properties(properties: &Vec<MenuProperty>, names: &[String]) -> (entries: Vec<
    (String, Value<'static>),
>)
    ensures
        dictionary_of(entries@) == selected(properties_by_name(properties@), texts(names@)),
        distinct_names(properties@) ==> distinct_keys(entries@),
        forall|j: int|
            0 <= j < entries@.len() ==> exists|i: int|
                0 <= i < properties@.len() && (#[trigger] entries@[j]).0@ == (
                #[trigger] properties@[i]).key(),
{
    let mut entries: Vec<(String, Value<'static>)> = Vec::new();
    assert(dictionary_of(entries@) =~= selected(
        properties_by_name(properties@.take(0)),
        texts(names@),
    ));
    for i in 0..properties.len()
        invariant
            dictionary_of(entries@) == selected(
                properties_by_name(properties@.take(i as int)),
                texts(names@),
            ),
            distinct_names(properties@) ==> distinct_keys(entries@),
            forall|j: int|
                0 <= j < entries@.len() ==> exists|m: int|
                    0 <= m < i && (#[trigger] entries@[j]).0@ == (#[trigger] properties@[m]).key(),
    {
        let property = &properties[i];
        let ghost before = entries@;
        assert(properties@.take(i + 1).drop_last() =~= properties@.take(i as int));
        if is_wanted(property.name(), names) {
            entries.push((property.name().to_owned(), property.to_value()));
            proof {
                assert(entries@.drop_last() =~= before);
                assert(entries@.last().0@ == properties@[i as int].key());
                assert forall|j: int| 0 <= j < entries@.len() implies exists|m: int|
                    0 <= m < i + 1 && (#[trigger] entries@[j]).0@ == (
                    #[trigger] properties@[m]).key() by {
                    if j < before.len() {
                        let m = choose|m: int|
                            0 <= m < i && before[j].0@ == (#[trigger] properties@[m]).key();
                        assert(properties@[m].key() == entries@[j].0@);
                    }
                }
                if distinct_names(properties@) {
                    assert forall|a: int, b: int| 0 <= a < b < entries@.len() implies (
                    #[trigger] entries@[a]).0@ != (#[trigger] entries@[b]).0@ by {
                        if b == before.len() {
                            let m = choose|m: int|
                                0 <= m < i && before[a].0@ == (#[trigger] properties@[m]).key();
                            assert(properties@[m].key() != properties@[i as int].key());
                        } else {
                            assert(before[a].0@ != before[b].0@);
                        }
                    }
                }
            }
        }
        assert(dictionary_of(entries@) =~= selected(
            properties_by_name(properties@.take(i + 1)),
            texts(names@),
        ));
    }
    assert(properties@.take(properties.len() as int) =~= properties@);
    entries
}

/// A node of the menu.
#[derive(Debug)]
pub struct MenuNode {
    pub id: i32,
    pub user_id: Option<String>,
    pub properties: Vec<MenuProperty>,
    pub children: Vec<i32>,
}

/// A node as a mathematical value.
#[verifier::ext_equal]
pub struct NodeModel {
    pub id: i32,
    pub user_id: Option<Seq<char>>,
    pub properties: Map<Seq<char>, VariantModel>,
    pub children: Seq<i32>,
}

impl NodeModel {
    /// The same node with one more child at the end.
    pub open spec fn with_child(self, child: i32) -> NodeModel {
        NodeModel { children: self.children.push(child), ..self }
    }
}

impl View for MenuNode {
    type V = NodeModel;

    open spec fn view(&self) -> NodeModel {
        NodeModel {
            id: self.id,
            user_id: opt_text(self.user_id),
            properties: properties_by_name(self.properties@),
            children: self.children@,
        }
    }
}

/// The models of the nodes.
pub open spec fn node_models(nodes: Map<i32, MenuNode>) -> Map<i32, NodeModel> {
    nodes.map_values(|n: MenuNode| n@)
}

/// Whether no node has two properties of one name.
spec fn named_once(nodes: Map<i32, MenuNode>) -> bool {
    forall|k: i32| #[trigger] nodes.contains_key(k) ==> distinct_names(nodes[k].properties@)
}

/// The whole menu: nodes by id, with the root under id 0.
#[derive(Debug)]
pub struct DBusMenu {
    nodes: HashMap<i32, MenuNode>,
}

impl View for DBusMenu {
    type V = Map<i32, NodeModel>;

    closed spec fn view(&self) -> Map<i32, NodeModel> {
        node_models(self.nodes@)
    }
}

/// The node whose properties say only that it is enabled and visible.
pub open spec fn root_node(children: Seq<i32>) -> NodeModel {
    NodeModel {
        id: 0,
        user_id: None,
        properties: map![
            "enabled"@ => VariantModel::Bool(true),
            "visible"@ => VariantModel::Bool(true),
        ],
        children,
    }
}

/// The children of an item.
pub open spec fn item_children(item: ItemModel) -> Seq<ItemModel> {
    match item {
        ItemModel::Separator { .. } => Seq::empty(),
        ItemModel::Submenu { children, .. } => children,
    }
}

/// The number of nodes that an item makes: one for itself and those of its children.
pub open spec fn item_size(item: ItemModel) -> nat
    decreases item,
{
    match item {
        ItemModel::Separator { .. } => 1,
        ItemModel::Submenu { children, .. } => 1 + items_size(children),
    }
}

/// The number of nodes that the items make.
pub open spec fn items_size(items: Seq<ItemModel>) -> nat
    decreases items,
{
    if items.len() == 0 {
        0
    } else {
        items_size(items.drop_last()) + item_size(items.last())
    }
}

/// The ids of the items' own nodes, where the first of all their nodes has the id `first`.
pub open spec fn item_ids(items: Seq<ItemModel>, first: int) -> Seq<i32> {
    Seq::new(items.len(), |i: int| (first + items_size(items.take(i))) as i32)
}

/// The state of a check mark, as a number.
pub open spec fn toggle_state(checked: bool) -> VariantModel {
    VariantModel::I32(if checked {
        1
    } else {
        0
    })
}

/// The properties of an item's node.
pub open spec fn item_properties(item: ItemModel) -> Map<Seq<char>, VariantModel> {
    match item {
        ItemModel::Separator { visible, .. } => map![
            "type"@ => VariantModel::Str("separator"@),
            "enabled"@ => VariantModel::Bool(true),
            "visible"@ => VariantModel::Bool(visible),
        ],
        ItemModel::Submenu { label, enabled, visible, toggle_type, .. } => {
            let plain = map![
                "type"@ => VariantModel::Str("standard"@),
                "label"@ => VariantModel::Str(label),
                "enabled"@ => VariantModel::Bool(enabled),
                "visible"@ => VariantModel::Bool(visible),
            ];
            match toggle_type {
                None => plain,
                Some(TrayToggleType::Checkbox(checked)) => plain.insert(
                    "toggle-type"@,
                    VariantModel::Str("checkmark"@),
                ).insert("toggle-state"@, toggle_state(checked)),
                Some(TrayToggleType::Radio(checked)) => plain.insert(
                    "toggle-type"@,
                    VariantModel::Str("radio"@),
                ).insert("toggle-state"@, toggle_state(checked)),
            }
        },
    }
}

/// The node of an item under `id`: its children's nodes have the ids that follow.
pub open spec fn item_node(item: ItemModel, id: int) -> NodeModel {
    NodeModel {
        id: id as i32,
        user_id: item.event_id(),
        properties: item_properties(item),
        children: item_ids(item_children(item), id + 1),
    }
}

/// The nodes of an item and of everything below it, numbered from `id` on in the order in
/// which the items are written.
pub open spec fn item_nodes(item: ItemModel, id: int) -> Map<i32, NodeModel>
    decreases item,
{
    match item {
        ItemModel::Separator { .. } => Map::empty().insert(id as i32, item_node(item, id)),
        ItemModel::Submenu { children, .. } => items_nodes(children, id + 1).insert(
            id as i32,
            item_node(item, id),
        ),
    }
}

/// The nodes of the items and of everything below them, numbered from `first` on.
pub open spec fn items_nodes(items: Seq<ItemModel>, first: int) -> Map<i32, NodeModel>
    decreases items,
{
    if items.len() == 0 {
        Map::empty()
    } else {
        items_nodes(items.drop_last(), first).union_prefer_right(
            item_nodes(items.last(), first + items_size(items.drop_last())),
        )
    }
}

/// The nodes of a menu with these items.
pub open spec fn menu_nodes(items: Seq<ItemModel>) -> Map<i32, NodeModel> {
    items_nodes(items, 1).insert(0, root_node(item_ids(items, 1)))
}

/// Whether the children of every node come after it.
pub open spec fn ordered(nodes: Map<i32, NodeModel>) -> bool {
    forall|k: i32, i: int|
        #![trigger nodes[k].children[i]]
        nodes.contains_key(k) && 0 <= i < nodes[k].children.len() ==> nodes[k].children[i] > k
}

/// The nodes after `node` has been put in and listed as a child of `parent`, if there is such a
/// node.
pub open spec fn with_node(nodes: Map<i32, NodeModel>, parent: i32, node: NodeModel) -> Map<
    i32,
    NodeModel,
> {
    let more = nodes.insert(node.id, node);
    if more.contains_key(parent) {
        more.insert(parent, more[parent].with_child(node.id))
    } else {
        more
    }
}

/// The ids of the first items, and of one more.
pub(crate) proof fn lemma_item_ids_step(items: Seq<ItemModel>, first: int, n: int)
    requires
        0 <= n < items.len(),
    ensures
        item_ids(items.take(n + 1), first) == item_ids(items.take(n), first).push(
            (first + items_size(items.take(n))) as i32,
        ),
        items_size(items.take(n + 1)) == items_size(items.take(n)) + item_size(items[n]),
        items_nodes(items.take(n + 1), first) == items_nodes(
            items.take(n),
            first,
        ).union_prefer_right(item_nodes(items[n], first + items_size(items.take(n)))),
{
    let more = items.take(n + 1);
    assert(more.drop_last() =~= items.take(n));
    assert(more.last() == items[n]);
    assert forall|i: int| 0 <= i <= n implies #[trigger] more.take(i) == items.take(i) by {
        assert(more.take(i) =~= items.take(i));
    }
    assert forall|i: int| 0 <= i < n implies #[trigger] items.take(n).take(i) == items.take(i) by {
        assert(items.take(n).take(i) =~= items.take(i));
    }
    assert(item_ids(more, first) =~= item_ids(items.take(n), first).push(
        (first + items_size(items.take(n))) as i32,
    ));
}

/// The first items make no more nodes than all of them.
pub(crate) proof fn lemma_items_size_take(items: Seq<ItemModel>, n: int)
    requires
        0 <= n <= items.len(),
    ensures
        items_size(items.take(n)) <= items_size(items),
        n < items.len() ==> items_size(items.take(n)) + item_size(items[n]) <= items_size(items),
    decreases items.len() - n,
{
    if n == items.len() {
        assert(items.take(n) =~= items);
    } else {
        lemma_item_ids_step(items, 0, n);
        lemma_items_size_take(items, n + 1);
    }
}

/// An item makes at least one node.
proof fn lemma_item_size_positive(item: ItemModel)
    ensures
        item_size(item) == 1 + items_size(item_children(item)),
{
}

/// The nodes of an item have the ids from `id` on.
pub(crate) proof fn lemma_item_nodes_ids(item: ItemModel, id: int)
    requires
        0 <= id,
        id + item_size(item) <= i32::MAX,
    ensures
        forall|k: i32|
            (#[trigger] item_nodes(item, id).contains_key(k)) == (id <= k < id + item_size(item)),
    decreases item,
{
    match item {
        ItemModel::Separator { .. } => {
            let none = Map::<i32, NodeModel>::empty();
            assert(item_nodes(item, id) == none.insert(id as i32, item_node(item, id)));
        },
        ItemModel::Submenu { children, .. } => {
            lemma_items_nodes_ids(children, id + 1);
            assert forall|k: i32|
                (#[trigger] item_nodes(item, id).contains_key(k)) == (id <= k < id + item_size(
                    item,
                )) by {
                let below = items_nodes(children, id + 1);
                assert(item_nodes(item, id) == below.insert(id as i32, item_node(item, id)));
                assert(below.contains_key(k) == (id + 1 <= k < id + 1 + items_size(children)));
            }
        },
    }
}

/// The nodes of items have the ids from `first` on.
pub(crate) proof fn lemma_items_nodes_ids(items: Seq<ItemModel>, first: int)
    requires
        0 <= first,
        first + items_size(items) <= i32::MAX,
    ensures
        forall|k: i32|
            (#[trigger] items_nodes(items, first).contains_key(k)) == (first <= k < first
                + items_size(items)),
    decreases items,
{
    if items.len() > 0 {
        let next = first + items_size(items.drop_last());
        lemma_items_nodes_ids(items.drop_last(), first);
        lemma_item_nodes_ids(items.last(), next);
        assert forall|k: i32|
            (#[trigger] items_nodes(items, first).contains_key(k)) == (first <= k < first
                + items_size(items)) by {
            let init = items_nodes(items.drop_last(), first);
            let last = item_nodes(items.last(), next);
            assert(items_nodes(items, first) == init.union_prefer_right(last));
            assert(init.contains_key(k) == (first <= k < next));
            assert(last.contains_key(k) == (next <= k < next + item_size(items.last())));
        }
    } else {
        assert(items_nodes(items, first) == Map::<i32, NodeModel>::empty());
    }
}

/// One more property at the end.
broadcast proof fn lemma_properties_push(properties: Seq<MenuProperty>, property: MenuProperty)
    ensures
        #[trigger] properties_by_name(properties.push(property)) == properties_by_name(
            properties,
        ).insert(property.key(), property.variant()),
{
    assert(properties.push(property).drop_last() =~= properties);
}

/// The names of properties of different kinds differ, and none is that of the property which
/// says that a node has children.
pub(crate) proof fn lemma_names_differ()
    ensures
        "type"@ != "label"@,
        "type"@ != "enabled"@,
        "type"@ != "visible"@,
        "type"@ != "toggle-type"@,
        "type"@ != "toggle-state"@,
        "label"@ != "enabled"@,
        "label"@ != "visible"@,
        "label"@ != "toggle-type"@,
        "label"@ != "toggle-state"@,
        "enabled"@ != "visible"@,
        "enabled"@ != "toggle-type"@,
        "enabled"@ != "toggle-state"@,
        "visible"@ != "toggle-type"@,
        "visible"@ != "toggle-state"@,
        "toggle-type"@ != "toggle-state"@,
        forall|p: MenuProperty| (#[trigger] p.key()) != "children-display"@,
{
    reveal_strlit("type");
    reveal_strlit("label");
    reveal_strlit("enabled");
    reveal_strlit("visible");
    reveal_strlit("toggle-type");
    reveal_strlit("toggle-state");
    reveal_strlit("children-display");
    assert("type"@.len() == 4);
    assert("label"@.len() == 5);
    assert("enabled"@.len() == 7);
    assert("visible"@.len() == 7);
    assert("toggle-type"@.len() == 11);
    assert("toggle-state"@.len() == 12);
    assert("children-display"@.len() == 16);
    assert("enabled"@[0] == 'e');
    assert("visible"@[0] == 'v');
}

/// The properties of an item's node.
fn node_properties(item: &TrayMenuItem) -> (properties: Vec<MenuProperty>)
    ensures
        properties_by_name(properties@) == item_properties(item@),
        distinct_names(properties@),
{
    broadcast use lemma_properties_push;

    proof {
        lemma_names_differ();
    }

    let mut properties: Vec<MenuProperty> = Vec::new();
    match item {
        TrayMenuItem::Separator { visible, .. } => {
            properties.push(MenuProperty::Type("separator"));
            properties.push(MenuProperty::Enabled(true));
            properties.push(MenuProperty::Visible(*visible));
        },
        TrayMenuItem::Submenu { label, enabled, visible, toggle_type, .. } => {
            properties.push(MenuProperty::Type("standard"));
            properties.push(MenuProperty::Label(label.clone()));
            properties.push(MenuProperty::Enabled(*enabled));
            properties.push(MenuProperty::Visible(*visible));
            if let Some(toggle) = toggle_type {
                match toggle {
                    TrayToggleType::Checkbox(checked) => {
                        properties.push(MenuProperty::ToggleType(MenuToggleType::Checkmark));
                        properties.push(
                            MenuProperty::ToggleState(
                                if *checked {
                                    1
                                } else {
                                    0
                                },
                            ),
                        );
                    },
                    TrayToggleType::Radio(checked) => {
                        properties.push(MenuProperty::ToggleType(MenuToggleType::Radio));
                        properties.push(
                            MenuProperty::ToggleState(
                                if *checked {
                                    1
                                } else {
                                    0
                                },
                            ),
                        );
                    },
                }
            }
        },
    }
    properties
}

/// The children of an item's node, and of every node below it, come after it.
proof fn lemma_item_nodes_ordered(item: ItemModel, id: int)
    requires
        0 <= id,
        id + item_size(item) <= i32::MAX,
    ensures
        ordered(item_nodes(item, id)),
    decreases item,
{
    lemma_item_ids_bound(item_children(item), id + 1);
    match item {
        ItemModel::Separator { .. } => {
            assert(item_nodes(item, id) == Map::<i32, NodeModel>::empty().insert(
                id as i32,
                item_node(item, id),
            ));
        },
        ItemModel::Submenu { children, .. } => {
            lemma_items_nodes_ordered(children, id + 1);
            assert(item_nodes(item, id) == items_nodes(children, id + 1).insert(
                id as i32,
                item_node(item, id),
            ));
        },
    }
}

/// The children of the items' nodes, and of every node below them, come after them.
proof fn lemma_items_nodes_ordered(items: Seq<ItemModel>, first: int)
    requires
        0 <= first,
        first + items_size(items) <= i32::MAX,
    ensures
        ordered(items_nodes(items, first)),
    decreases items,
{
    if items.len() > 0 {
        let next = first + items_size(items.drop_last());
        lemma_items_nodes_ordered(items.drop_last(), first);
        lemma_item_nodes_ordered(items.last(), next);
        assert(items_nodes(items, first) == items_nodes(
            items.drop_last(),
            first,
        ).union_prefer_right(item_nodes(items.last(), next)));
    }
}

/// The ids of the items' own nodes lie in the range of all their nodes' ids.
pub(crate) proof fn lemma_item_ids_bound(items: Seq<ItemModel>, first: int)
    requires
        0 <= first,
        first + items_size(items) <= i32::MAX,
    ensures
        forall|i: int|
            0 <= i < items.len() ==> first <= #[trigger] item_ids(items, first)[i] < first
                + items_size(items),
{
    assert forall|i: int| 0 <= i < items.len() implies first <= #[trigger] item_ids(
        items,
        first,
    )[i] < first + items_size(items) by {
        lemma_items_size_take(items, i);
        lemma_item_size_positive(items[i]);
    }
}

/// The children of every node of a menu come after it.
proof fn lemma_menu_ordered(items: Seq<ItemModel>)
    requires
        items_size(items) < i32::MAX,
    ensures
        ordered(menu_nodes(items)),
{
    lemma_items_nodes_ordered(items, 1);
    lemma_item_ids_bound(items, 1);
}

/// The nodes of a menu without items: only the root.
fn root_only() -> (nodes: HashMap<i32, MenuNode>)
    ensures
        node_models(nodes@) == Map::empty().insert(0i32, root_node(Seq::empty())),
        node_models(nodes@) == menu_nodes(Seq::empty()),
        named_once(nodes@),
{
    let mut nodes: HashMap<i32, MenuNode> = HashMap::new();
    // Some hosts treat missing properties as false; be explicit.
    let mut properties: Vec<MenuProperty> = Vec::new();
    properties.push(MenuProperty::Enabled(true));
    properties.push(MenuProperty::Visible(true));
    let root = MenuNode { id: 0, user_id: None, properties, children: Vec::new() };
    proof {
        reveal_with_fuel(properties_by_name, 3);
        assert(root.properties@.drop_last().drop_last() =~= Seq::empty());
        assert(root@.properties =~= root_node(Seq::empty()).properties);
        assert(root@ == root_node(Seq::empty()));
        assert(item_ids(Seq::empty(), 1) =~= Seq::empty());
        lemma_names_differ();
    }
    nodes.insert(0, root);
    assert(node_models(nodes@) =~= Map::empty().insert(0i32, root_node(Seq::empty())));
    nodes
}

/// Puts a node in and lists it as a child of `parent_id`, if there is such a node.
fn insert_node(nodes: &mut HashMap<i32, MenuNode>, parent_id: i32, node: MenuNode)
    ensures
        node_models(final(nodes)@) == with_node(node_models(old(nodes)@), parent_id, node@),
        (named_once(old(nodes)@) && distinct_names(node.properties@)) ==> named_once(
            final(nodes)@,
        ),
{
    let id: i32 = node.id;
    nodes.insert(id, node);
    if let Some(parent) = nodes.remove(&parent_id) {
        let ghost was = parent;
        let mut parent = parent;
        parent.children.push(id);
        assert(parent@ == was@.with_child(id));
        nodes.insert(parent_id, parent);
    }
    assert(node_models(nodes@) =~= with_node(node_models(old(nodes)@), parent_id, node@));
}

/// Adds the nodes of an item, and of everything below it, under `parent_id`, numbered from
/// `next_id` on; returns the first number after them.
fn add_item(
    nodes: &mut HashMap<i32, MenuNode>,
    parent_id: i32,
    item: &TrayMenuItem,
    next_id: i32,
) -> (next: i32)
    requires
        named_once(old(nodes)@),
        0 < next_id,
        next_id + item_size(item@) <= i32::MAX,
        node_models(old(nodes)@).contains_key(parent_id),
        forall|k: i32| #[trigger] node_models(old(nodes)@).contains_key(k) ==> k < next_id,
    ensures
        named_once(final(nodes)@),
        next == next_id + item_size(item@),
        node_models(final(nodes)@) == node_models(old(nodes)@).insert(
            parent_id,
            node_models(old(nodes)@)[parent_id].with_child(next_id),
        ).union_prefer_right(item_nodes(item@, next_id as int)),
    decreases item,
{
    let id: i32 = next_id;
    let user_id: Option<String> = match item.menu_event_id() {
        Some(user_id) => Some(user_id.to_owned()),
        None => None,
    };
    let node = MenuNode { id, user_id, properties: node_properties(item), children: Vec::new() };
    let ghost base = node_models(nodes@).insert(
        parent_id,
        node_models(nodes@)[parent_id].with_child(id),
    );
    let ghost leaf = node@;
    insert_node(nodes, parent_id, node);
    assert(node_models(nodes@) =~= base.insert(id, leaf));
    match item {
        TrayMenuItem::Separator { .. } => {
            proof {
                assert(leaf =~= item_node(item@, id as int));
                assert(item_nodes(item@, id as int) == Map::<i32, NodeModel>::empty().insert(
                    id,
                    item_node(item@, id as int),
                ));
                assert(node_models(nodes@) =~= base.union_prefer_right(
                    item_nodes(item@, id as int),
                ));
            }
            next_id + 1
        },
        TrayMenuItem::Submenu { children, .. } => {
            let ghost items = item_models(children@);
            let ghost first = id + 1;
            let mut next: i32 = next_id + 1;
            proof {
                lemma_item_models(children@);
                assert(items.take(0) =~= Seq::empty());
                assert(item_ids(items.take(0), first) =~= Seq::empty());
                assert(leaf =~= NodeModel {
                    children: item_ids(items.take(0), first),
                    ..item_node(item@, id as int)
                });
                assert(items_nodes(items.take(0), first) == Map::<i32, NodeModel>::empty());
                assert(base.union_prefer_right(items_nodes(items.take(0), first)) =~= base);
            }
            for i in 0..children.len()
                invariant
                    *item is Submenu,
                    item->children == *children,
                    items == item_models(children@),
                    items.len() == children.len(),
                    forall|j: int|
                        0 <= j < children.len() ==> #[trigger] items[j] == children@[j]@,
                    named_once(nodes@),
                    0 < id,
                    first == id + 1,
                    first + items_size(items) <= i32::MAX,
                    forall|k: i32| #[trigger] base.contains_key(k) ==> k < id,
                    next == first + items_size(items.take(i as int)),
                    node_models(nodes@) == base.union_prefer_right(
                        items_nodes(items.take(i as int), first),
                    ).insert(
                        id,
                        NodeModel {
                            children: item_ids(items.take(i as int), first),
                            ..item_node(item@, id as int)
                        },
                    ),
            {
                let ghost before = node_models(nodes@);
                let ghost done = items_nodes(items.take(i as int), first);
                let ghost fresh = item_nodes(items[i as int], next as int);
                let ghost at = next;
                proof {
                    lemma_items_size_take(items, i as int);
                    lemma_items_nodes_ids(items.take(i as int), first);
                    lemma_item_nodes_ids(items[i as int], next as int);
                    lemma_item_ids_step(items, first, i as int);
                    assert forall|k: i32| #[trigger] before.contains_key(k) implies k < next by {
                        assert(done.contains_key(k) || base.contains_key(k) || k == id);
                    }
                }
                next = add_item(nodes, id, &children[i], next);
                proof {
                    let node = NodeModel {
                        children: item_ids(items.take(i + 1), first),
                        ..item_node(item@, id as int)
                    };
                    assert(before[id].with_child(at) =~= node);
                    assert(!fresh.contains_key(id));
                    assert(node_models(nodes@) =~= base.union_prefer_right(
                        items_nodes(items.take(i + 1), first),
                    ).insert(id, node));
                }
            }
            proof {
                assert(items.take(items.len() as int) =~= items);
                lemma_items_nodes_ids(items, first);
                assert(item_nodes(item@, id as int) == items_nodes(items, first).insert(
                    id,
                    item_node(item@, id as int),
                ));
                assert(node_models(nodes@) =~= base.union_prefer_right(
                    item_nodes(item@, id as int),
                ));
            }
            next
        },
    }
}

impl DBusMenu {
    /// The children of every node come after it, and no node has two properties of one name.
    #[verifier::type_invariant]
    spec fn valid(self) -> bool {
        ordered(self@) && named_once(self.nodes@)
    }

    /// A menu without items: only the root.
    pub fn new() -> (menu: Self)
        ensures
            menu@ == Map::empty().insert(0i32, root_node(Seq::empty())),
            menu@ == menu_nodes(Seq::empty()),
    {
        DBusMenu { nodes: root_only() }
    }

    /// The menu with these items: their nodes are numbered from 1 on, in the order in which
    /// the items are written.
    pub fn from_tray_menu_items(items: &[TrayMenuItem]) -> (menu: Self)
        requires
            items_size(item_models(items@)) < i32::MAX,
        ensures
            menu@ == menu_nodes(item_models(items@)),
    {
        let mut nodes = root_only();
        let mut next_id: i32 = 1;
        let ghost models = item_models(items@);
        proof {
            lemma_item_models(items@);
            assert(models.take(0) =~= Seq::empty());
        }
        for i in 0..items.len()
            invariant
                models == item_models(items@),
                models.len() == items.len(),
                forall|j: int| 0 <= j < items.len() ==> #[trigger] models[j] == items@[j]@,
                items_size(models) < i32::MAX,
                named_once(nodes@),
                next_id == 1 + items_size(models.take(i as int)),
                node_models(nodes@) == menu_nodes(models.take(i as int)),
        {
            let ghost before = node_models(nodes@);
            let ghost at = next_id;
            let ghost done = items_nodes(models.take(i as int), 1);
            proof {
                lemma_items_size_take(models, i as int);
                lemma_items_nodes_ids(models.take(i as int), 1);
                lemma_item_nodes_ids(models[i as int], next_id as int);
                lemma_item_ids_step(models, 1, i as int);
                assert forall|k: i32| #[trigger] before.contains_key(k) implies k < next_id by {
                    assert(done.contains_key(k) || k == 0);
                }
            }
            next_id = add_item(&mut nodes, 0, &items[i], next_id);
            proof {
                let fresh = item_nodes(models[i as int], at as int);
                assert(!fresh.contains_key(0));
                assert(before[0].with_child(at) =~= root_node(item_ids(models.take(i + 1), 1)));
                assert(node_models(nodes@) =~= menu_nodes(models.take(i + 1)));
            }
        }
        proof {
            assert(models.take(models.len() as int) =~= models);
            lemma_menu_ordered(models);
        }
        DBusMenu { nodes }
    }

    /// The id that a click on a node reports, if the node is there and can be clicked.
    pub fn user_id_for_node(&self, id: i32) -> (user_id: Option<String>)
        ensures
            opt_text(user_id) == if self@.contains_key(id) {
                self@[id].user_id
            } else {
                None
            },
    {
        match self.nodes.get(&id) {
            Some(node) => node.user_id.clone(),
            None => None,
        }
    }
}

/// What is left of `budget` after one node has been spent for the item and one for each item
/// below it.
fn spend_on_item(item: &TrayMenuItem, budget: i32) -> (left: Option<i32>)
    requires
        0 <= budget,
    ensures
        match left {
            Some(left) => 0 <= left && left == budget - item_size(item@),
            None => item_size(item@) > budget,
        },
    decreases item,
{
    if budget == 0 {
        return None;
    }
    match item {
        TrayMenuItem::Separator { .. } => Some(budget - 1),
        TrayMenuItem::Submenu { children, .. } => spend_on_items(children, budget - 1),
    }
}

/// What is left of `budget` after one node has been spent for each item and for each item below
/// them.
fn spend_on_items(items: &Vec<TrayMenuItem>, budget: i32) -> (left: Option<i32>)
    requires
        0 <= budget,
    ensures
        match left {
            Some(left) => 0 <= left && left == budget - items_size(item_models(items@)),
            None => items_size(item_models(items@)) > budget,
        },
    decreases items,
{
    let ghost models = item_models(items@);
    proof {
        lemma_item_models(items@);
        assert(models.take(0) =~= Seq::empty());
    }
    let mut left: i32 = budget;
    for i in 0..items.len()
        invariant
            models == item_models(items@),
            models.len() == items.len(),
            forall|j: int| 0 <= j < items.len() ==> #[trigger] models[j] == items@[j]@,
            0 <= left,
            left == budget - items_size(models.take(i as int)),
    {
        proof {
            lemma_item_ids_step(models, 0, i as int);
            lemma_items_size_take(models, i as int);
        }
        left =
        match spend_on_item(&items[i], left) {
            Some(left) => left,
            None => {
                return None;
            },
        };
    }
    assert(models.take(models.len() as int) =~= models);
    Some(left)
}

/// Whether the nodes of the items can be numbered.
pub fn menu_fits(items: &Vec<TrayMenuItem>) -> (fits: bool)
    ensures
        fits == (items_size(item_models(items@)) < i32::MAX),
{
    spend_on_items(items, i32::MAX - 1).is_some()
}

/// What a host is told of one node.
pub struct DBusMenuLayoutItem {
    pub id: i32,
    /// The properties by name, each name once.
    pub properties: Vec<(String, Value<'static>)>,
    pub children: Vec<Value<'static>>,
}

/// A layout as a mathematical value.
#[verifier::ext_equal]
pub struct LayoutModel {
    pub id: i32,
    pub properties: Map<Seq<char>, VariantModel>,
    pub children: Seq<VariantModel>,
}

impl LayoutModel {
    /// The layout as a child of another one.
    pub open spec fn as_variant(self) -> VariantModel {
        layout_variant(self.id, self.properties, self.children)
    }
}

impl View for DBusMenuLayoutItem {
    type V = LayoutModel;

    open spec fn view(&self) -> LayoutModel {
        LayoutModel {
            id: self.id,
            properties: dictionary_of(self.properties@),
            children: variants_of(self.children@),
        }
    }
}

/// The number of levels left below a child: a negative number stands for all levels.
pub open spec fn depth_below(depth: int) -> int {
    if depth < 0 {
        depth
    } else {
        depth - 1
    }
}

/// The layout of the node `id`, with `depth` levels of children and those properties that a
/// host wants. A node that is not there has neither properties nor children.
pub open spec fn layout_of(
    nodes: Map<i32, NodeModel>,
    id: i32,
    depth: int,
    names: Seq<Seq<char>>,
) -> LayoutModel
    decreases i32::MAX - id,
{
    if !nodes.contains_key(id) {
        LayoutModel { id, properties: Map::empty(), children: Seq::empty() }
    } else {
        let node = nodes[id];
        let own = selected(node.properties, names);
        if node.children.len() == 0 || depth == 0 {
            LayoutModel { id: node.id, properties: own, children: Seq::empty() }
        } else {
            LayoutModel {
                id: node.id,
                properties: own.insert("children-display"@, VariantModel::Str("submenu"@)),
                children: Seq::new(
                    node.children.len(),
                    |i: int|
                        if node.children[i] > id {
                            layout_of(
                                nodes,
                                node.children[i],
                                depth_below(depth),
                                names,
                            ).as_variant()
                        } else {
                            arbitrary()
                        },
                ),
            }
        }
    }
}

/// The values by name of the entries, for each of the ids.
pub open spec fn groups_of(groups: Seq<(i32, Vec<(String, Value<'static>)>)>) -> Seq<
    (i32, Map<Seq<char>, VariantModel>),
> {
    groups.map_values(
        |g: (i32, Vec<(String, Value<'static>)>)| (g.0, dictionary_of(g.1@)),
    )
}

/// The properties of the node `id` that a host wants; none where there is no such node.
pub open spec fn node_selection(
    nodes: Map<i32, NodeModel>,
    id: i32,
    names: Seq<Seq<char>>,
) -> Map<Seq<char>, VariantModel> {
    if nodes.contains_key(id) {
        selected(nodes[id].properties, names)
    } else {
        Map::empty()
    }
}

/// The value of a node's property.
pub open spec fn property_value(
    nodes: Map<i32, NodeModel>,
    id: i32,
    name: Seq<char>,
) -> VariantModel {
    if nodes.contains_key(id) && nodes[id].properties.contains_key(name) {
        nodes[id].properties[name]
    } else {
        VariantModel::Str(Seq::empty())
    }
}

/// Whether a host's event means that a node was activated: hosts use different names for it,
/// and different cases.
pub open spec fn is_activation(event: Seq<char>) -> bool {
    let event = ascii_lowered(event);
    event == "clicked"@ || event == "activate"@ || event == "activated"@ || event == "toggled"@
}

/// The id that a host's event on the node `id` reports as clicked, if the event means that the
/// node was activated, and the node is there and can be clicked.
pub open spec fn clicked_id(nodes: Map<i32, NodeModel>, id: i32, event: Seq<char>) -> Option<
    Seq<char>,
> {
    if is_activation(event) && nodes.contains_key(id) {
        nodes[id].user_id
    } else {
        None
    }
}

/// The ids that a group of a host's events report as clicked, in order.
pub open spec fn clicked_ids(nodes: Map<i32, NodeModel>, events: Seq<(i32, String)>) -> Seq<
    Seq<char>,
>
    decreases events.len(),
{
    if events.len() == 0 {
        Seq::empty()
    } else {
        let before = clicked_ids(nodes, events.drop_last());
        match clicked_id(nodes, events.last().0, events.last().1@) {
            Some(id) => before.push(id),
            None => before,
        }
    }
}

/// The clicks with these ids, in order.
pub open spec fn are_clicks(clicks: Seq<LinuxEvent>, ids: Seq<Seq<char>>) -> bool {
    &&& clicks.len() == ids.len()
    &&& forall|i: int|
        0 <= i < clicks.len() ==> ((#[trigger] clicks[i]) matches LinuxEvent::MenuClick(id) && id@
            == ids[i])
}

/// Whether a host's event means that a node was activated.
pub fn is_activation_event(event_id: &str) -> (r: bool)
    ensures
        r == is_activation(event_id@),
{
    let lowered = lowered_chars(event_id);
    chars_are(&lowered, "clicked") || chars_are(&lowered, "activate") || chars_are(
        &lowered,
        "activated",
    ) || chars_are(&lowered, "toggled")
}

impl DBusMenu {
    /// The layout of the node `parent_id`: its wanted properties (no name stands for all), and
    /// its children down to `recursion_depth` levels (a negative number stands for all).
    pub fn to_layout(
        &self,
        parent_id: i32,
        recursion_depth: i32,
        property_names: &[String],
    ) -> (layout: DBusMenuLayoutItem)
        ensures
            layout@ == layout_of(
                self@,
                parent_id,
                recursion_depth as int,
                texts(property_names@),
            ),
            distinct_keys(layout.properties@),
        decreases i32::MAX - parent_id,
    {
        proof {
            use_type_invariant(self);
        }
        let node = match self.nodes.get(&parent_id) {
            Some(node) => node,
            None => {
                let layout = DBusMenuLayoutItem {
                    id: parent_id,
                    properties: Vec::new(),
                    children: Vec::new(),
                };
                assert(layout@.children =~= Seq::empty());
                return layout;
            },
        };
        assert(self@[parent_id] == node@);
        let ghost names = texts(property_names@);
        let mut properties = select_properties(&node.properties, property_names);
        let mut children: Vec<Value<'static>> = Vec::new();
        if node.children.len() > 0 && recursion_depth != 0 {
            let ghost before = properties@;
            properties.push(("children-display".to_owned(), str_value("submenu")));
            proof {
                assert(properties@.drop_last() =~= before);
                lemma_names_differ();
                assert forall|i: int, j: int| 0 <= i < j < properties@.len() implies (
                #[trigger] properties@[i]).0@ != (#[trigger] properties@[j]).0@ by {
                    if j < before.len() {
                        assert(before[i].0@ != before[j].0@);
                    } else {
                        assert(before[i].0@ == properties@[i].0@);
                    }
                }
            }
            let below: i32 = if recursion_depth < 0 {
                recursion_depth
            } else {
                recursion_depth - 1
            };
            let ghost shown = layout_of(self@, parent_id, recursion_depth as int, names).children;
            for i in 0..node.children.len()
                invariant
                    self.valid(),
                    self@.contains_key(parent_id),
                    self@[parent_id] == node@,
                    names == texts(property_names@),
                    below == depth_below(recursion_depth as int),
                    shown.len() == node.children@.len(),
                    forall|j: int|
                        0 <= j < shown.len() ==> #[trigger] shown[j] == layout_of(
                            self@,
                            node.children@[j],
                            below as int,
                            names,
                        ).as_variant(),
                    variants_of(children@) == shown.take(i as int),
            {
                let child: i32 = node.children[i];
                assert(self@[parent_id].children[i as int] > parent_id);
                let layout = self.to_layout(child, below, property_names);
                let ghost told = children@;
                children.push(layout_value(layout.id, layout.properties, layout.children));
                assert(variants_of(children@) =~= variants_of(told).push(shown[i as int]));
                assert(shown.take(i + 1) =~= shown.take(i as int).push(shown[i as int]));
            }
            assert(shown.take(shown.len() as int) =~= shown);
        } else {
            assert(variants_of(children@) =~= Seq::empty());
        }
        DBusMenuLayoutItem { id: node.id, properties, children }
    }

    /// The wanted properties of each of the nodes.
    pub fn get_group_properties(&self, ids: &[i32], property_names: &[String]) -> (groups: Vec<
        (i32, Vec<(String, Value<'static>)>),
    >)
        ensures
            groups_of(groups@) == Seq::new(
                ids@.len(),
                |i: int| (ids@[i], node_selection(self@, ids@[i], texts(property_names@))),
            ),
            forall|i: int| 0 <= i < groups@.len() ==> distinct_keys((#[trigger] groups@[i]).1@),
    {
        proof {
            use_type_invariant(self);
        }
        let mut groups: Vec<(i32, Vec<(String, Value<'static>)>)> = Vec::new();
        let ghost names = texts(property_names@);
        for i in 0..ids.len()
            invariant
                self.valid(),
                names == texts(property_names@),
                groups_of(groups@) == Seq::new(
                    i as nat,
                    |j: int| (ids@[j], node_selection(self@, ids@[j], names)),
                ),
                forall|j: int| 0 <= j < groups@.len() ==> distinct_keys((#[trigger] groups@[j]).1@),
        {
            let id: i32 = ids[i];
            let entries: Vec<(String, Value<'static>)> = match self.nodes.get(&id) {
                Some(node) => {
                    assert(self@[id] == node@);
                    select_properties(&node.properties, property_names)
                },
                None => Vec::new(),
            };
            let ghost before = groups@;
            groups.push((id, entries));
            assert(groups_of(groups@) =~= groups_of(before).push(
                (id, node_selection(self@, id, names)),
            ));
            assert(groups_of(groups@) =~= Seq::new(
                (i + 1) as nat,
                |j: int| (ids@[j], node_selection(self@, ids@[j], names)),
            ));
        }
        groups
    }

    /// One property of a node; an empty text where there is no such node or property.
    pub fn get_property(&self, id: i32, name: &str) -> (value: Value<'static>)
        ensures
            variant_of(value) == if self@.contains_key(id) && self@[id].properties.contains_key(
                name@,
            ) {
                self@[id].properties[name@]
            } else {
                VariantModel::Str(Seq::empty())
            },
            variant_of(value) == property_value(self@, id, name@),
    {
        if let Some(node) = self.nodes.get(&id) {
            assert(self@[id] == node@);
            let ghost all = node.properties@;
            let mut i: usize = node.properties.len();
            assert(all.take(i as int) =~= all);
            while i > 0
                invariant
                    i <= all.len(),
                    all == node.properties@,
                    properties_by_name(all).contains_key(name@) == properties_by_name(
                        all.take(i as int),
                    ).contains_key(name@),
                    properties_by_name(all).contains_key(name@) ==> properties_by_name(all)[name@]
                        == properties_by_name(all.take(i as int))[name@],
                    self@.contains_key(id),
                    self@[id] == node@,
                decreases i,
            {
                assert(all.take(i as int).drop_last() =~= all.take(i - 1));
                assert(all.take(i as int).last() == all[i - 1]);
                i = i - 1;
                if same_text(node.properties[i].name(), name) {
                    return node.properties[i].to_value();
                }
            }
            assert(all.take(0) =~= Seq::empty());
        }
        string_value(String::new())
    }

    /// The click that a host's event on a node stands for, if it is one.
    pub fn dispatch_menu_event(&self, id: i32, event_id: &str) -> (event: Option<LinuxEvent>)
        ensures
            match event {
                Some(event) => {
                    &&& event matches LinuxEvent::MenuClick(user_id)
                    &&& clicked_id(self@, id, event_id@) == Some(user_id@)
                },
                None => clicked_id(self@, id, event_id@) is None,
            },
    {
        if !is_activation_event(event_id) {
            return None;
        }
        match self.user_id_for_node(id) {
            Some(user_id) => Some(LinuxEvent::MenuClick(user_id)),
            None => None,
        }
    }

    /// The clicks that a group of a host's events on nodes stand for, in order: each event counts
    /// as if it had come alone.
    pub fn event_group(&self, events: &[(i32, String)]) -> (clicks: Vec<LinuxEvent>)
        ensures
            are_clicks(clicks@, clicked_ids(self@, events@)),
    {
        let mut clicks: Vec<LinuxEvent> = Vec::new();
        for i in 0..events.len()
            invariant
                are_clicks(clicks@, clicked_ids(self@, events@.take(i as int))),
        {
            assert(events@.take(i + 1).drop_last() =~= events@.take(i as int));
            if let Some(click) = self.dispatch_menu_event(events[i].0, events[i].1.as_str()) {
                clicks.push(click);
            }
        }
        assert(events@.take(events.len() as int) =~= events@);
        clicks
    }
}

} // verus!
