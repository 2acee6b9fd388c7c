//! What the D-Bus menu shows and reports, told in terms of the items it was made from.

use vstd::prelude::*;
use zbus::zvariant::Value;

use crate::dbus_menu::{
    clicked_id, clicked_ids, depth_below, distinct_names, groups_of, is_activation, item_node,
    item_nodes, item_properties, item_size, items_nodes, items_size, layout_of,
    lemma_item_ids_bound, lemma_item_nodes_ids, lemma_items_nodes_ids, lemma_items_size_take,
    lemma_names_differ, menu_nodes, node_models, node_selection, properties_by_name,
    property_value, root_node, selected, texts, wanted, DBusMenuLayoutItem, LayoutModel, MenuNode,
    MenuProperty, MenuToggleType, NodeModel,
};
use crate::menu_item::{ItemModel, TrayMenuItemRole, TrayToggleType};
use crate::text::{is_lower_case_of, law_ascii_lowered};
use crate::variant::{
    dictionary_of, distinct_keys, layout_variant, variant_of, variants_of, VariantModel,
};

verus! {

/// The items and everything below them, in the order in which they are written.
pub open spec fn written_order(items: Seq<ItemModel>) -> Seq<ItemModel>
    decreases items,
{
    if items.len() == 0 {
        Seq::empty()
    } else {
        written_order(items.drop_last()) + item_written_order(items.last())
    }
}

/// An item and everything below it, in the order in which they are written.
pub open spec fn item_written_order(item: ItemModel) -> Seq<ItemModel>
    decreases item,
{
    match item {
        ItemModel::Separator { .. } => seq![item],
        ItemModel::Submenu { children, .. } => seq![item] + written_order(children),
    }
}

proof fn lemma_item_written_order(item: ItemModel, id: int)
    requires
        0 <= id,
        id + item_size(item) <= i32::MAX,
    ensures
        item_written_order(item).len() == item_size(item),
        forall|k: i32|
            id <= k < id + item_size(item) ==> {
                let node = #[trigger] item_nodes(item, id)[k];
                let item = item_written_order(item)[k - id];
                &&& node.id == k
                &&& node.user_id == item.event_id()
                &&& node.properties == item_properties(item)
            },
    decreases item,
{
    match item {
        ItemModel::Separator { .. } => {
            assert(item_nodes(item, id) == Map::<i32, NodeModel>::empty().insert(
                id as i32,
                item_node(item, id),
            ));
        },
        ItemModel::Submenu { children, .. } => {
            lemma_written_order(children, id + 1);
            let below = items_nodes(children, id + 1);
            assert(item_nodes(item, id) == below.insert(id as i32, item_node(item, id)));
            assert forall|k: i32| id <= k < id + item_size(item) implies ({
                let node = #[trigger] item_nodes(item, id)[k];
                let item = item_written_order(item)[k - id];
                &&& node.id == k
                &&& node.user_id == item.event_id()
                &&& node.properties == item_properties(item)
            }) by {
                if k != id {
                    assert(item_nodes(item, id)[k] == below[k]);
                    assert(item_written_order(item)[k - id] == written_order(children)[k - (id
                        + 1)]);
                }
            }
        },
    }
}

proof fn lemma_written_order(items: Seq<ItemModel>, first: int)
    requires
        0 <= first,
        first + items_size(items) <= i32::MAX,
    ensures
        written_order(items).len() == items_size(items),
        forall|k: i32|
            first <= k < first + items_size(items) ==> {
                let node = #[trigger] items_nodes(items, first)[k];
                let item = written_order(items)[k - first];
                &&& node.id == k
                &&& node.user_id == item.event_id()
                &&& node.properties == item_properties(item)
            },
    decreases items,
{
    if items.len() > 0 {
        let init = items.drop_last();
        let next = first + items_size(init);
        lemma_written_order(init, first);
        lemma_item_written_order(items.last(), next);
        lemma_items_nodes_ids(init, first);
        lemma_item_nodes_ids(items.last(), next);
        assert(items_nodes(items, first) == items_nodes(init, first).union_prefer_right(
            item_nodes(items.last(), next),
        ));
        assert forall|k: i32| first <= k < first + items_size(items) implies ({
            let node = #[trigger] items_nodes(items, first)[k];
            let item = written_order(items)[k - first];
            &&& node.id == k
            &&& node.user_id == item.event_id()
            &&& node.properties == item_properties(item)
        }) by {
            let last = item_nodes(items.last(), next);
            assert(last.contains_key(k) == (next <= k));
            if k < next {
                assert(items_nodes(init, first).contains_key(k));
                assert(items_nodes(items, first)[k] == items_nodes(init, first)[k]);
            } else {
                assert(items_nodes(items, first)[k] == last[k]);
            }
        }
    }
}

/// The nodes of a menu are the root and, numbered from 1 on in the order in which the items
/// are written, one node for each item. A node has its item's properties, and a click on it
/// reports the id that its item reports.
pub proof fn law_nodes_follow_written_order(items: Seq<ItemModel>)
    requires
        items_size(items) < i32::MAX,
    ensures
        written_order(items).len() == items_size(items),
        forall|k: i32|
            (#[trigger] menu_nodes(items).contains_key(k)) == (0 <= k <= items_size(items)),
        forall|k: i32|
            1 <= k <= items_size(items) ==> {
                let node = #[trigger] menu_nodes(items)[k];
                let item = written_order(items)[k - 1];
                &&& node.id == k
                &&& node.user_id == item.event_id()
                &&& node.properties == item_properties(item)
            },
        menu_nodes(items)[0].user_id is None,
{
    lemma_written_order(items, 1);
    lemma_items_nodes_ids(items, 1);
    assert forall|k: i32|
        (#[trigger] menu_nodes(items).contains_key(k)) == (0 <= k <= items_size(items)) by {
        assert(items_nodes(items, 1).contains_key(k) == (1 <= k < 1 + items_size(items)));
    }
    assert forall|k: i32| 1 <= k <= items_size(items) implies ({
        let node = #[trigger] menu_nodes(items)[k];
        let item = written_order(items)[k - 1];
        &&& node.id == k
        &&& node.user_id == item.event_id()
        &&& node.properties == item_properties(item)
    }) by {
        assert(menu_nodes(items)[k] == items_nodes(items, 1)[k]);
    }
}

/// The layout of an item under `id`, told in terms of the item.
pub open spec fn item_layout(
    item: ItemModel,
    id: int,
    depth: int,
    names: Seq<Seq<char>>,
) -> LayoutModel
    decreases item,
{
    let own = selected(item_properties(item), names);
    match item {
        ItemModel::Separator { .. } => LayoutModel {
            id: id as i32,
            properties: own,
            children: Seq::empty(),
        },
        ItemModel::Submenu { children, .. } => if children.len() == 0 || depth == 0 {
            LayoutModel { id: id as i32, properties: own, children: Seq::empty() }
        } else {
            LayoutModel {
                id: id as i32,
                properties: own.insert("children-display"@, VariantModel::Str("submenu"@)),
                children: items_layouts(children, id + 1, depth_below(depth), names),
            }
        },
    }
}

/// The layouts of the items, in order, where the first of all their nodes has the id `first`.
pub open spec fn items_layouts(
    items: Seq<ItemModel>,
    first: int,
    depth: int,
    names: Seq<Seq<char>>,
) -> Seq<VariantModel>
    decreases items,
{
    if items.len() == 0 {
        Seq::empty()
    } else {
        items_layouts(items.drop_last(), first, depth, names).push(
            item_layout(
                items.last(),
                first + items_size(items.drop_last()),
                depth,
                names,
            ).as_variant(),
        )
    }
}

proof fn lemma_items_layouts_at(
    items: Seq<ItemModel>,
    first: int,
    depth: int,
    names: Seq<Seq<char>>,
)
    ensures
        items_layouts(items, first, depth, names).len() == items.len(),
        forall|i: int|
            0 <= i < items.len() ==> #[trigger] items_layouts(items, first, depth, names)[i]
                == item_layout(
                items[i],
                first + items_size(items.take(i)),
                depth,
                names,
            ).as_variant(),
    decreases items.len(),
{
    if items.len() > 0 {
        let init = items.drop_last();
        lemma_items_layouts_at(init, first, depth, names);
        assert forall|i: int| 0 <= i < items.len() implies #[trigger] items_layouts(
            items,
            first,
            depth,
            names,
        )[i] == item_layout(
            items[i],
            first + items_size(items.take(i)),
            depth,
            names,
        ).as_variant() by {
            if i < init.len() {
                assert(init.take(i) =~= items.take(i));
                assert(items_layouts(items, first, depth, names)[i] == items_layouts(
                    init,
                    first,
                    depth,
                    names,
                )[i]);
            } else {
                assert(items.take(i) =~= init);
            }
        }
    }
}

/// Whether all of `part` stands in `nodes`.
spec fn holds(nodes: Map<i32, NodeModel>, part: Map<i32, NodeModel>) -> bool {
    forall|k: i32| #[trigger]
        part.contains_key(k) ==> nodes.contains_key(k) && nodes[k] == part[k]
}

/// The nodes of each item are among those of all the items.
proof fn lemma_items_nodes_hold(
    nodes: Map<i32, NodeModel>,
    items: Seq<ItemModel>,
    first: int,
    i: int,
)
    requires
        0 <= first,
        first + items_size(items) <= i32::MAX,
        holds(nodes, items_nodes(items, first)),
        0 <= i < items.len(),
    ensures
        holds(nodes, item_nodes(items[i], first + items_size(items.take(i)))),
    decreases items.len(),
{
    let init = items.drop_last();
    let next = first + items_size(init);
    let last = item_nodes(items.last(), next);
    assert(items_nodes(items, first) == items_nodes(init, first).union_prefer_right(last));
    lemma_items_nodes_ids(init, first);
    lemma_item_nodes_ids(items.last(), next);
    if i == init.len() {
        assert(items.take(i) =~= init);
        assert forall|k: i32| #[trigger] last.contains_key(k) implies nodes.contains_key(k)
            && nodes[k] == last[k] by {
            assert(items_nodes(items, first).contains_key(k));
        }
    } else {
        assert forall|k: i32| #[trigger] items_nodes(init, first).contains_key(k) implies
            nodes.contains_key(k) && nodes[k] == items_nodes(init, first)[k] by {
            assert(!last.contains_key(k));
            assert(items_nodes(items, first).contains_key(k));
        }
        lemma_items_nodes_hold(nodes, init, first, i);
        assert(init.take(i) =~= items.take(i));
    }
}

proof fn lemma_item_layout(
    nodes: Map<i32, NodeModel>,
    item: ItemModel,
    id: int,
    depth: int,
    names: Seq<Seq<char>>,
)
    requires
        0 <= id,
        id + item_size(item) <= i32::MAX,
        holds(nodes, item_nodes(item, id)),
    ensures
        layout_of(nodes, id as i32, depth, names) == item_layout(item, id, depth, names),
    decreases item,
{
    lemma_item_nodes_ids(item, id);
    assert(item_nodes(item, id).contains_key(id as i32));
    match item {
        ItemModel::Separator { .. } => {
            assert(item_nodes(item, id) == Map::<i32, NodeModel>::empty().insert(
                id as i32,
                item_node(item, id),
            ));
        },
        ItemModel::Submenu { children, .. } => {
            let below = items_nodes(children, id + 1);
            assert(item_nodes(item, id) == below.insert(id as i32, item_node(item, id)));
            lemma_items_nodes_ids(children, id + 1);
            assert forall|k: i32| #[trigger] below.contains_key(k) implies nodes.contains_key(k)
                && nodes[k] == below[k] by {
                assert(item_nodes(item, id).contains_key(k));
            }
            lemma_item_ids_bound(children, id + 1);
            let less = depth_below(depth);
            lemma_items_layouts_at(children, id + 1, less, names);
            let node = nodes[id as i32];
            assert(node == item_node(item, id));
            assert forall|i: int| 0 <= i < children.len() implies layout_of(
                nodes,
                #[trigger] node.children[i],
                less,
                names,
            ).as_variant() == items_layouts(children, id + 1, less, names)[i] by {
                lemma_items_size_take(children, i);
                lemma_items_nodes_hold(nodes, children, id + 1, i);
                lemma_item_layout(
                    nodes,
                    children[i],
                    id + 1 + items_size(children.take(i)),
                    less,
                    names,
                );
            }
            assert(layout_of(nodes, id as i32, depth, names) =~= item_layout(
                item,
                id,
                depth,
                names,
            ));
        },
    }
}

/// The layout of a whole menu shows the items as they are written: each with its properties,
/// its children in order, and nothing else, down to the wanted depth.
pub proof fn law_layout_shows_the_items(
    items: Seq<ItemModel>,
    depth: int,
    names: Seq<Seq<char>>,
)
    requires
        items_size(items) < i32::MAX,
    ensures
        layout_of(menu_nodes(items), 0, depth, names) == ({
            let own = selected(root_node(Seq::empty()).properties, names);
            if items.len() == 0 || depth == 0 {
                LayoutModel { id: 0, properties: own, children: Seq::empty() }
            } else {
                LayoutModel {
                    id: 0,
                    properties: own.insert("children-display"@, VariantModel::Str("submenu"@)),
                    children: items_layouts(items, 1, depth_below(depth), names),
                }
            }
        }),
{
    let nodes = menu_nodes(items);
    let part = items_nodes(items, 1);
    let less = depth_below(depth);
    lemma_items_nodes_ids(items, 1);
    lemma_item_ids_bound(items, 1);
    lemma_items_layouts_at(items, 1, less, names);
    assert(holds(nodes, part)) by {
        assert forall|k: i32| #[trigger] part.contains_key(k) implies nodes.contains_key(k)
            && nodes[k] == part[k] by {
            assert(k != 0);
        }
    }
    let node = nodes[0];
    assert forall|i: int| 0 <= i < items.len() implies layout_of(
        nodes,
        #[trigger] node.children[i],
        less,
        names,
    ).as_variant() == items_layouts(items, 1, less, names)[i] by {
        lemma_items_size_take(items, i);
        lemma_items_nodes_hold(nodes, items, 1, i);
        lemma_item_layout(nodes, items[i], 1int + items_size(items.take(i)), less, names);
    }
    if items.len() > 0 && depth != 0 {
        assert(layout_of(nodes, 0, depth, names).children =~= items_layouts(items, 1, less, names));
    }
}

/// A host learns the same of a node's properties whichever way it asks: a property is in the
/// node's layout, and among its group properties, exactly where it is wanted and the node has
/// it, and both times with the node's value. Only the property which says that a node has
/// children belongs to the layout alone.
pub proof fn law_queries_agree(
    nodes: Map<i32, NodeModel>,
    id: i32,
    depth: int,
    names: Seq<Seq<char>>,
    key: Seq<char>,
)
    requires
        nodes.contains_key(id),
        key != "children-display"@,
    ensures
        ({
            let shown = layout_of(nodes, id, depth, names).properties;
            let grouped = node_selection(nodes, id, names);
            let own = nodes[id].properties;
            &&& shown.contains_key(key) == (own.contains_key(key) && wanted(key, names))
            &&& grouped.contains_key(key) == shown.contains_key(key)
            &&& shown.contains_key(key) ==> shown[key] == own[key] && grouped[key] == own[key]
        }),
{
}

/// The items below an item.
pub open spec fn below(item: ItemModel) -> Seq<ItemModel> {
    match item {
        ItemModel::Separator { .. } => Seq::empty(),
        ItemModel::Submenu { children, .. } => children,
    }
}

/// The item that a path leads to, if it leads to one: the path names a place among the items,
/// then one among the items below that item, and so on.
pub open spec fn item_at(items: Seq<ItemModel>, path: Seq<int>) -> Option<ItemModel>
    decreases path.len(),
{
    if path.len() == 0 || !(0 <= path[0] < items.len()) {
        None
    } else if path.len() == 1 {
        Some(items[path[0]])
    } else {
        item_at(below(items[path[0]]), path.drop_first())
    }
}

/// The place, counted from 1, of the item that a path leads to in the order in which the items
/// are written.
pub open spec fn number_at(items: Seq<ItemModel>, path: Seq<int>) -> int
    decreases path.len(),
{
    if path.len() == 0 {
        0
    } else {
        written_order(items.take(path[0])).len() + 1 + number_at(
            below(items[path[0]]),
            path.drop_first(),
        )
    }
}

/// The layout that a path leads to in a layout, if it leads to one.
pub open spec fn layout_at(layout: VariantModel, path: Seq<int>) -> Option<VariantModel>
    decreases path.len(),
{
    if path.len() == 0 {
        Some(layout)
    } else {
        match layout {
            VariantModel::Structure(fields) => match fields[2] {
                VariantModel::Array(children) => if 0 <= path[0] < children.len() {
                    match children[path[0]] {
                        VariantModel::Variant(child) => layout_at(*child, path.drop_first()),
                        _ => None,
                    }
                } else {
                    None
                },
                _ => None,
            },
            _ => None,
        }
    }
}

/// Whether the layout tells of a node with this id, of those of the properties `own` that are
/// among `names` (of all where there are no names), and of `children` children. That it has
/// children it says exactly where it tells of some.
pub open spec fn tells(
    layout: VariantModel,
    id: int,
    own: Map<Seq<char>, VariantModel>,
    names: Seq<Seq<char>>,
    children: nat,
) -> bool {
    &&& layout matches VariantModel::Structure(fields)
    &&& fields.len() == 3
    &&& fields[0] matches VariantModel::I32(k)
    &&& k == id
    &&& fields[1] matches VariantModel::Dict(properties)
    &&& forall|key: Seq<char>|
        key != "children-display"@ ==> {
            &&& (#[trigger] properties.contains_key(key)) <==> own.contains_key(key) && (names.len()
                == 0 || exists|i: int| 0 <= i < names.len() && #[trigger] names[i] == key)
            &&& properties.contains_key(key) ==> properties[key] == VariantModel::Variant(
                Box::new(own[key]),
            )
        }
    &&& properties.contains_key("children-display"@) <==> children > 0
    &&& children > 0 ==> properties["children-display"@] == VariantModel::Variant(
        Box::new(VariantModel::Str("submenu"@)),
    )
    &&& fields[2] matches VariantModel::Array(shown)
    &&& shown.len() == children
}

proof fn lemma_written_len(items: Seq<ItemModel>)
    ensures
        written_order(items).len() == items_size(items),
    decreases items,
{
    if items.len() > 0 {
        lemma_written_len(items.drop_last());
        lemma_item_written_len(items.last());
    }
}

proof fn lemma_item_written_len(item: ItemModel)
    ensures
        item_written_order(item).len() == item_size(item),
    decreases item,
{
    match item {
        ItemModel::Separator { .. } => {},
        ItemModel::Submenu { children, .. } => {
            lemma_written_len(children);
        },
    }
}

/// No item has the property which says that a node has children.
proof fn lemma_no_children_display(item: ItemModel)
    ensures
        !item_properties(item).contains_key("children-display"@),
        !root_node(Seq::empty()).properties.contains_key("children-display"@),
{
    lemma_names_differ();
    assert(MenuProperty::Type("type").key() != "children-display"@);
    assert(MenuProperty::Enabled(true).key() != "children-display"@);
    assert(MenuProperty::Visible(true).key() != "children-display"@);
    assert(MenuProperty::ToggleType(MenuToggleType::Radio).key() != "children-display"@);
    assert(MenuProperty::ToggleState(0).key() != "children-display"@);
    reveal_strlit("label");
    reveal_strlit("children-display");
    assert("label"@.len() == 5);
    assert("children-display"@.len() == 16);
}

/// A layout that was put together from a node's properties and the layouts of its children
/// tells of them.
proof fn lemma_tells(
    id: i32,
    own: Map<Seq<char>, VariantModel>,
    names: Seq<Seq<char>>,
    children: Seq<VariantModel>,
)
    requires
        !own.contains_key("children-display"@),
    ensures
        children.len() == 0 ==> tells(
            layout_variant(id, selected(own, names), children),
            id as int,
            own,
            names,
            0,
        ),
        children.len() > 0 ==> tells(
            layout_variant(
                id,
                selected(own, names).insert("children-display"@, VariantModel::Str("submenu"@)),
                children,
            ),
            id as int,
            own,
            names,
            children.len(),
        ),
{
    assert forall|key: Seq<char>|
        (#[trigger] wanted(key, names)) <==> (names.len() == 0 || exists|i: int|
            0 <= i < names.len() && #[trigger] names[i] == key) by {
        if names.contains(key) {
            let i = choose|i: int| 0 <= i < names.len() && names[i] == key;
            assert(names[i] == key);
        }
    }
    assert forall|key: Seq<char>|
        (#[trigger] selected(own, names).contains_key(key)) <==> own.contains_key(key) && wanted(
            key,
            names,
        ) by {}
}

proof fn lemma_item_layout_at(
    item: ItemModel,
    id: int,
    depth: int,
    names: Seq<Seq<char>>,
    path: Seq<int>,
)
    requires
        0 <= id,
        id + item_size(item) <= i32::MAX,
        path.len() > 0 ==> item_at(below(item), path) is Some,
    ensures
        ({
            let tree = item_layout(item, id, depth, names).as_variant();
            let there = if path.len() == 0 {
                item
            } else {
                item_at(below(item), path)->0
            };
            let shown: nat = if depth < 0 || path.len() < depth {
                below(there).len()
            } else {
                0
            };
            &&& layout_at(tree, path) is Some <==> (depth < 0 || path.len() <= depth)
            &&& layout_at(tree, path) matches Some(layout) ==> tells(
                layout,
                id + number_at(below(item), path),
                item_properties(there),
                names,
                shown,
            )
        }),
    decreases path.len(),
{
    let layout = item_layout(item, id, depth, names);
    let children = below(item);
    let less = depth_below(depth);
    lemma_items_layouts_at(children, id + 1, less, names);
    if path.len() == 0 {
        lemma_no_children_display(item);
        lemma_tells(id as i32, item_properties(item), names, layout.children);
    } else if depth == 0 {
        assert(layout.children.len() == 0);
    } else {
        let i = path[0];
        let rest = path.drop_first();
        assert(children.len() > 0);
        assert(layout.children == items_layouts(children, id + 1, less, names));
        let next = id + 1 + items_size(children.take(i));
        lemma_items_size_take(children, i);
        lemma_written_len(children.take(i));
        let tree = layout.as_variant();
        let child = item_layout(children[i], next, less, names).as_variant();
        assert(layout_at(tree, path) == layout_at(child, rest));
        lemma_item_layout_at(children[i], next, less, names, rest);
        if rest.len() == 0 {
            assert(number_at(below(children[i]), rest) == 0);
            assert(item_at(children, path) == Some(children[i]));
        } else {
            assert(item_at(children, path) == item_at(below(children[i]), rest));
        }
    }
}

/// The layout of a whole menu reaches every item at every level, as deep as it was asked for,
/// and a negative depth asks for all levels: at the place where the items have an item, the
/// layout has a layout exactly where the depth is negative or the item stands at most that many
/// levels down. It tells of the item's own properties under the item's number, and of all the
/// items below exactly where the next level is asked for too.
pub proof fn law_layouts_reach_every_item(
    items: Seq<ItemModel>,
    depth: int,
    names: Seq<Seq<char>>,
    path: Seq<int>,
)
    requires
        items_size(items) < i32::MAX,
        item_at(items, path) is Some,
    ensures
        ({
            let tree = layout_of(menu_nodes(items), 0, depth, names).as_variant();
            let item = item_at(items, path)->0;
            &&& layout_at(tree, path) is Some <==> (depth < 0 || path.len() <= depth)
            &&& layout_at(tree, path) matches Some(layout) ==> tells(
                layout,
                number_at(items, path),
                item_properties(item),
                names,
                if depth < 0 || path.len() < depth {
                    below(item).len()
                } else {
                    0
                },
            )
        }),
{
    law_layout_shows_the_items(items, depth, names);
    let layout = layout_of(menu_nodes(items), 0, depth, names);
    let tree = layout.as_variant();
    let less = depth_below(depth);
    lemma_items_layouts_at(items, 1, less, names);
    if depth == 0 {
        assert(layout.children.len() == 0);
    } else {
        let i = path[0];
        let rest = path.drop_first();
        let next = 1int + items_size(items.take(i));
        assert(layout.children == items_layouts(items, 1, less, names));
        lemma_items_size_take(items, i);
        lemma_written_len(items.take(i));
        let child = item_layout(items[i], next, less, names).as_variant();
        assert(layout_at(tree, path) == layout_at(child, rest));
        lemma_item_layout_at(items[i], next, less, names, rest);
        if rest.len() == 0 {
            assert(number_at(below(items[i]), rest) == 0);
        }
    }
}

/// The layout of a whole menu tells of the root, which is enabled and visible, and of as many
/// items below it as there are, unless no level below it is asked for.
pub proof fn law_layouts_begin_with_the_root(
    items: Seq<ItemModel>,
    depth: int,
    names: Seq<Seq<char>>,
)
    requires
        items_size(items) < i32::MAX,
    ensures
        tells(
            layout_of(menu_nodes(items), 0, depth, names).as_variant(),
            0,
            map![
                "enabled"@ => VariantModel::Bool(true),
                "visible"@ => VariantModel::Bool(true),
            ],
            names,
            if depth != 0 {
                items.len()
            } else {
                0
            },
        ),
{
    law_layout_shows_the_items(items, depth, names);
    let layout = layout_of(menu_nodes(items), 0, depth, names);
    lemma_items_layouts_at(items, 1, depth_below(depth), names);
    lemma_no_children_display(ItemModel::Separator { label: None, visible: true });
    let own = root_node(Seq::empty()).properties;
    assert(own == map![
        "enabled"@ => VariantModel::Bool(true),
        "visible"@ => VariantModel::Bool(true),
    ]);
    lemma_tells(0, own, names, layout.children);
}

proof fn lemma_item_layout_ends(
    item: ItemModel,
    id: int,
    depth: int,
    names: Seq<Seq<char>>,
    path: Seq<int>,
)
    requires
        path.len() > 0,
        layout_at(item_layout(item, id, depth, names).as_variant(), path) is Some,
    ensures
        item_at(below(item), path) is Some,
    decreases path.len(),
{
    let layout = item_layout(item, id, depth, names);
    let children = below(item);
    let less = depth_below(depth);
    lemma_items_layouts_at(children, id + 1, less, names);
    let i = path[0];
    let rest = path.drop_first();
    assert(0 <= i < layout.children.len());
    assert(layout.children == items_layouts(children, id + 1, less, names));
    let next = id + 1 + items_size(children.take(i));
    let child = item_layout(children[i], next, less, names).as_variant();
    assert(layout_at(layout.as_variant(), path) == layout_at(child, rest));
    if rest.len() > 0 {
        lemma_item_layout_ends(children[i], next, less, names, rest);
    }
}

/// The layout of a whole menu shows nothing but its items: where it has a layout below its root,
/// the items have an item.
pub proof fn law_layouts_show_items_only(
    items: Seq<ItemModel>,
    depth: int,
    names: Seq<Seq<char>>,
    path: Seq<int>,
)
    requires
        items_size(items) < i32::MAX,
        path.len() > 0,
        layout_at(layout_of(menu_nodes(items), 0, depth, names).as_variant(), path) is Some,
    ensures
        item_at(items, path) is Some,
{
    law_layout_shows_the_items(items, depth, names);
    let layout = layout_of(menu_nodes(items), 0, depth, names);
    let less = depth_below(depth);
    lemma_items_layouts_at(items, 1, less, names);
    let i = path[0];
    let rest = path.drop_first();
    assert(0 <= i < layout.children.len());
    let next = 1int + items_size(items.take(i));
    let child = item_layout(items[i], next, less, names).as_variant();
    assert(layout_at(layout.as_variant(), path) == layout_at(child, rest));
    if rest.len() > 0 {
        lemma_item_layout_ends(items[i], next, less, names, rest);
    }
}

proof fn lemma_nodes_hold_item_at(
    nodes: Map<i32, NodeModel>,
    items: Seq<ItemModel>,
    first: int,
    path: Seq<int>,
)
    requires
        0 < first,
        first + items_size(items) <= i32::MAX,
        holds(nodes, items_nodes(items, first)),
        item_at(items, path) is Some,
    ensures
        ({
            let item = item_at(items, path)->0;
            let id = first - 1 + number_at(items, path);
            &&& first <= id
            &&& id + item_size(item) <= first + items_size(items)
            &&& holds(nodes, item_nodes(item, id))
        }),
    decreases path.len(),
{
    let i = path[0];
    let rest = path.drop_first();
    let id = first + items_size(items.take(i));
    lemma_items_size_take(items, i);
    lemma_written_len(items.take(i));
    lemma_items_nodes_hold(nodes, items, first, i);
    if rest.len() == 0 {
        assert(number_at(below(items[i]), rest) == 0);
    } else {
        let item = items[i];
        let children = below(item);
        assert(item_at(children, rest) is Some);
        assert(item is Submenu);
        let under = items_nodes(children, id + 1);
        assert(item_nodes(item, id) == under.insert(id as i32, item_node(item, id)));
        assert(item_size(item) == 1 + items_size(children));
        lemma_items_nodes_ids(children, id + 1);
        assert forall|k: i32| #[trigger] under.contains_key(k) implies nodes.contains_key(k)
            && nodes[k] == under[k] by {
            assert(item_nodes(item, id).contains_key(k));
        }
        lemma_nodes_hold_item_at(nodes, children, id + 1, rest);
    }
}

/// A host that asks for the layout of an item's node is told of that item, and of what is below
/// it as deep as it asks, counted from that item on.
pub proof fn law_layouts_of_items_reach_below_them(
    items: Seq<ItemModel>,
    asked: Seq<int>,
    depth: int,
    names: Seq<Seq<char>>,
    path: Seq<int>,
)
    requires
        items_size(items) < i32::MAX,
        item_at(items, asked) is Some,
        path.len() > 0 ==> item_at(below(item_at(items, asked)->0), path) is Some,
    ensures
        ({
            let id = number_at(items, asked);
            let tree = layout_of(menu_nodes(items), id as i32, depth, names).as_variant();
            let item = item_at(items, asked)->0;
            let there = if path.len() == 0 {
                item
            } else {
                item_at(below(item), path)->0
            };
            &&& 0 < id <= i32::MAX
            &&& layout_at(tree, path) is Some <==> (depth < 0 || path.len() <= depth)
            &&& layout_at(tree, path) matches Some(layout) ==> tells(
                layout,
                id + number_at(below(item), path),
                item_properties(there),
                names,
                if depth < 0 || path.len() < depth {
                    below(there).len()
                } else {
                    0
                },
            )
        }),
{
    let nodes = menu_nodes(items);
    let part = items_nodes(items, 1);
    lemma_items_nodes_ids(items, 1);
    assert forall|k: i32| #[trigger] part.contains_key(k) implies nodes.contains_key(k) && nodes[k]
        == part[k] by {
        assert(k != 0);
    }
    lemma_nodes_hold_item_at(nodes, items, 1, asked);
    let item = item_at(items, asked)->0;
    let id = number_at(items, asked);
    lemma_item_layout(nodes, item, id, depth, names);
    lemma_item_layout_at(item, id, depth, names, path);
}

/// A node that is not there has an empty layout under the id that was asked for, and no group
/// properties.
pub proof fn law_missing_nodes_are_empty(
    nodes: Map<i32, NodeModel>,
    id: i32,
    depth: int,
    names: Seq<Seq<char>>,
    key: Seq<char>,
)
    requires
        !nodes.contains_key(id),
    ensures
        layout_of(nodes, id, depth, names).id == id,
        !layout_of(nodes, id, depth, names).properties.contains_key(key),
        layout_of(nodes, id, depth, names).children.len() == 0,
        !node_selection(nodes, id, names).contains_key(key),
{
}

/// A property of a node is told exactly where the node has it and its name is among those that
/// were asked for, or none was asked for by name.
pub proof fn law_properties_are_told_by_name(
    nodes: Map<i32, NodeModel>,
    id: i32,
    names: Seq<Seq<char>>,
    key: Seq<char>,
)
    requires
        nodes.contains_key(id),
    ensures
        node_selection(nodes, id, names).contains_key(key) <==> nodes[id].properties.contains_key(
            key,
        ) && (names.len() == 0 || exists|i: int| 0 <= i < names.len() && #[trigger] names[i]
            == key),
        node_selection(nodes, id, names).contains_key(key) ==> node_selection(
            nodes,
            id,
            names,
        )[key] == nodes[id].properties[key],
{
    if names.contains(key) {
        let i = choose|i: int| 0 <= i < names.len() && names[i] == key;
        assert(names[i] == key);
    }
}

/// What a node says of its item: whether it is visible; that it is a separator, or else its
/// label, whether it is enabled, and, where it carries a mark, which one and whether it is set.
/// It says nothing else.
pub proof fn law_nodes_say_what_their_items_are(item: ItemModel, key: Seq<char>)
    ensures
        ({
            let own = item_properties(item);
            &&& item matches ItemModel::Separator { visible, .. } ==> {
                &&& own.contains_pair("visible"@, VariantModel::Bool(visible))
                &&& own.contains_pair("type"@, VariantModel::Str("separator"@))
                &&& own.contains_pair("enabled"@, VariantModel::Bool(true))
                &&& own.contains_key(key) ==> key == "visible"@ || key == "type"@ || key
                    == "enabled"@
            }
            &&& item matches ItemModel::Submenu { label, enabled, visible, toggle_type, .. } ==> {
                &&& own.contains_pair("visible"@, VariantModel::Bool(visible))
                &&& own.contains_pair("type"@, VariantModel::Str("standard"@))
                &&& own.contains_pair("enabled"@, VariantModel::Bool(enabled))
                &&& own.contains_pair("label"@, VariantModel::Str(label))
                &&& toggle_type is None ==> !own.contains_key("toggle-type"@) && !own.contains_key(
                    "toggle-state"@,
                )
                &&& toggle_type matches Some(TrayToggleType::Checkbox(set)) ==> {
                    &&& own.contains_pair("toggle-type"@, VariantModel::Str("checkmark"@))
                    &&& own.contains_key("toggle-state"@)
                    &&& set ==> own["toggle-state"@] == VariantModel::I32(1)
                    &&& !set ==> own["toggle-state"@] == VariantModel::I32(0)
                }
                &&& toggle_type matches Some(TrayToggleType::Radio(set)) ==> {
                    &&& own.contains_pair("toggle-type"@, VariantModel::Str("radio"@))
                    &&& own.contains_key("toggle-state"@)
                    &&& set ==> own["toggle-state"@] == VariantModel::I32(1)
                    &&& !set ==> own["toggle-state"@] == VariantModel::I32(0)
                }
                &&& own.contains_key(key) ==> key == "visible"@ || key == "type"@ || key
                    == "enabled"@ || key == "label"@ || key == "toggle-type"@ || key
                    == "toggle-state"@
            }
        }),
{
    lemma_names_differ();
}

/// A host's event means that a node was activated exactly where it is one of four words, in
/// whatever case their letters are.
pub proof fn law_activations(event: Seq<char>)
    ensures
        is_activation(event) <==> (is_lower_case_of("clicked"@, event) || is_lower_case_of(
            "activate"@,
            event,
        ) || is_lower_case_of("activated"@, event) || is_lower_case_of("toggled"@, event)),
{
    law_ascii_lowered("clicked"@, event);
    law_ascii_lowered("activate"@, event);
    law_ascii_lowered("activated"@, event);
    law_ascii_lowered("toggled"@, event);
}

/// An event on a node of a menu is a click on the item that stands at the node's number in the
/// order in which the items are written. It reports an id exactly where the event is an
/// activation and that item is enabled, standard, without children and has that id.
pub proof fn law_clicks_reach_their_items(
    items: Seq<ItemModel>,
    k: i32,
    event: Seq<char>,
    reported: Seq<char>,
)
    requires
        items_size(items) < i32::MAX,
    ensures
        clicked_id(menu_nodes(items), k, event) == Some(reported) <==> {
            &&& is_activation(event)
            &&& 1 <= k <= written_order(items).len()
            &&& written_order(items)[k - 1] matches ItemModel::Submenu {
                id,
                enabled,
                role,
                children,
                ..
            }
            &&& id == Some(reported) && enabled && role == TrayMenuItemRole::Standard
            &&& children.len() == 0
        },
{
    law_nodes_follow_written_order(items);
    assert(menu_nodes(items).contains_key(k) == (0 <= k <= items_size(items)));
    if 1 <= k <= items_size(items) {
        assert(menu_nodes(items)[k].user_id == written_order(items)[k - 1].event_id());
    }
}

/// Events that come in a group count as if they had come alone, one after the other.
pub proof fn law_groups_count_as_single_events(
    nodes: Map<i32, NodeModel>,
    a: Seq<(i32, String)>,
    b: Seq<(i32, String)>,
    event: (i32, String),
)
    ensures
        clicked_ids(nodes, a + b) == clicked_ids(nodes, a) + clicked_ids(nodes, b),
        clicked_ids(nodes, seq![event]).len() == 1 <==> clicked_id(nodes, event.0, event.1@)
            is Some,
        clicked_ids(nodes, seq![event]).len() <= 1,
        clicked_id(nodes, event.0, event.1@) matches Some(id) ==> clicked_ids(nodes, seq![event])[0]
            == id,
    decreases b.len(),
{
    assert(seq![event].drop_last() =~= Seq::empty());
    assert(clicked_ids(nodes, seq![event].drop_last()) =~= Seq::empty());
    if b.len() == 0 {
        assert(a + b =~= a);
        assert(clicked_ids(nodes, a) + clicked_ids(nodes, b) =~= clicked_ids(nodes, a));
    } else {
        law_groups_count_as_single_events(nodes, a, b.drop_last(), event);
        assert((a + b).drop_last() =~= a + b.drop_last());
        assert(clicked_ids(nodes, a + b) =~= clicked_ids(nodes, a) + clicked_ids(nodes, b));
    }
}

/// Every property has a name and a value of its own.
pub proof fn law_properties_have_names_and_values(
    t: &'static str,
    s: String,
    b: bool,
    n: i32,
)
    ensures
        MenuProperty::Type(t).key() == "type"@,
        MenuProperty::Type(t).variant() == VariantModel::Str(t@),
        MenuProperty::Label(s).key() == "label"@,
        MenuProperty::Label(s).variant() == VariantModel::Str(s@),
        MenuProperty::Enabled(b).key() == "enabled"@,
        MenuProperty::Enabled(b).variant() == VariantModel::Bool(b),
        MenuProperty::Visible(b).key() == "visible"@,
        MenuProperty::Visible(b).variant() == VariantModel::Bool(b),
        MenuProperty::ToggleType(MenuToggleType::Checkmark).key() == "toggle-type"@,
        MenuProperty::ToggleType(MenuToggleType::Checkmark).variant() == VariantModel::Str(
            "checkmark"@,
        ),
        MenuProperty::ToggleType(MenuToggleType::Radio).key() == "toggle-type"@,
        MenuProperty::ToggleType(MenuToggleType::Radio).variant() == VariantModel::Str("radio"@),
        MenuProperty::ToggleState(n).key() == "toggle-state"@,
        MenuProperty::ToggleState(n).variant() == VariantModel::I32(n),
{
}

/// Properties of different names are all found by their names, and nothing else is.
pub proof fn law_properties_are_found_by_name(
    properties: Seq<MenuProperty>,
    key: Seq<char>,
    value: VariantModel,
)
    requires
        distinct_names(properties),
    ensures
        properties_by_name(properties).contains_pair(key, value) <==> exists|i: int|
            0 <= i < properties.len() && (#[trigger] properties[i]).key() == key
                && properties[i].variant() == value,
    decreases properties.len(),
{
    if properties.len() > 0 {
        let init = properties.drop_last();
        let last = properties.len() - 1;
        law_properties_are_found_by_name(init, key, value);
        if properties_by_name(properties).contains_pair(key, value) {
            if key == properties.last().key() {
                assert(properties[last].key() == key);
            } else {
                let i = choose|i: int|
                    0 <= i < init.len() && (#[trigger] init[i]).key() == key && init[i].variant()
                        == value;
                assert(properties[i].key() == key);
            }
        }
        if exists|i: int|
            0 <= i < properties.len() && (#[trigger] properties[i]).key() == key
                && properties[i].variant() == value {
            let i = choose|i: int|
                0 <= i < properties.len() && (#[trigger] properties[i]).key() == key
                    && properties[i].variant() == value;
            if i < last {
                assert(properties[i].key() != properties[last].key());
                assert(init[i].key() == key);
            }
        }
    }
}

/// Entries with different keys are all found under their keys, and nothing else is.
pub proof fn law_entries_are_found_by_key(
    entries: Seq<(String, Value<'static>)>,
    key: Seq<char>,
    value: VariantModel,
)
    requires
        distinct_keys(entries),
    ensures
        dictionary_of(entries).contains_pair(key, value) <==> exists|i: int|
            0 <= i < entries.len() && (#[trigger] entries[i]).0@ == key && variant_of(entries[i].1)
                == value,
    decreases entries.len(),
{
    if entries.len() > 0 {
        let init = entries.drop_last();
        let last = entries.len() - 1;
        law_entries_are_found_by_key(init, key, value);
        if dictionary_of(entries).contains_pair(key, value) {
            if key == entries.last().0@ {
                assert(entries[last].0@ == key);
            } else {
                let i = choose|i: int|
                    0 <= i < init.len() && (#[trigger] init[i]).0@ == key && variant_of(init[i].1)
                        == value;
                assert(entries[i].0@ == key);
            }
        }
        if exists|i: int|
            0 <= i < entries.len() && (#[trigger] entries[i]).0@ == key && variant_of(entries[i].1)
                == value {
            let i = choose|i: int|
                0 <= i < entries.len() && (#[trigger] entries[i]).0@ == key && variant_of(
                    entries[i].1,
                ) == value;
            if i < last {
                assert(entries[i].0@ != entries[last].0@);
                assert(init[i].0@ == key);
            }
        }
    }
}

/// Names, values and groups are taken one for one and in order.
pub proof fn law_sequences_are_taken_one_for_one(
    names: Seq<String>,
    values: Seq<Value<'static>>,
    groups: Seq<(i32, Vec<(String, Value<'static>)>)>,
    i: int,
)
    ensures
        texts(names).len() == names.len(),
        0 <= i < names.len() ==> texts(names)[i] == names[i]@,
        variants_of(values).len() == values.len(),
        0 <= i < values.len() ==> variants_of(values)[i] == variant_of(values[i]),
        groups_of(groups).len() == groups.len(),
        0 <= i < groups.len() ==> groups_of(groups)[i].0 == groups[i].0,
        0 <= i < groups.len() ==> groups_of(groups)[i].1 == dictionary_of(groups[i].1@),
{
}

/// The models of nodes, menus and layouts hold everything that these hold.
pub proof fn law_menu_models_are_the_menus(
    node: MenuNode,
    nodes: Map<i32, MenuNode>,
    id: i32,
    layout: DBusMenuLayoutItem,
)
    ensures
        node@.id == node.id,
        (node@.user_id is Some) == (node.user_id is Some),
        node.user_id is Some ==> node@.user_id->0 == node.user_id->0@,
        node@.properties == properties_by_name(node.properties@),
        node@.children == node.children@,
        node_models(nodes).contains_key(id) == nodes.contains_key(id),
        nodes.contains_key(id) ==> node_models(nodes)[id] == nodes[id]@,
        layout@.id == layout.id,
        layout@.properties == dictionary_of(layout.properties@),
        layout@.children == variants_of(layout.children@),
{
}

/// A host that asks for one property is told the value that it finds among the properties which
/// it asks for by that name, or by none; where it finds none there, it is told an empty text.
pub proof fn law_single_properties_are_those_of_the_group(
    nodes: Map<i32, NodeModel>,
    id: i32,
    name: Seq<char>,
)
    ensures
        ({
            let all = node_selection(nodes, id, Seq::empty());
            let one = node_selection(nodes, id, seq![name]);
            &&& all.contains_key(name) ==> property_value(nodes, id, name) == all[name]
            &&& !all.contains_key(name) ==> (property_value(nodes, id, name) matches
                VariantModel::Str(text) && text.len() == 0)
            &&& one.contains_key(name) == all.contains_key(name)
            &&& all.contains_key(name) ==> one[name] == all[name]
        }),
{
    assert(seq![name][0] == name);
    assert(seq![name].contains(name));
}

} // verus!
