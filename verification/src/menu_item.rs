//! The items of a tray context menu.

use vstd::prelude::*;

use crate::text::{opt_text, IntoText};

verus! {

/// A check mark or radio mark on a menu item, with its state.
#[derive(Clone, Copy, Debug)]
pub enum TrayToggleType {
    Checkbox(bool),
    Radio(bool),
}

/// What a menu item is for.
#[derive(Clone, Copy, Debug, PartialEq, Eq, Structural)]
pub enum TrayMenuItemRole {
    Standard,
    Info,
}

/// Item used to describe a tray context menu.
#[derive(Debug)]
#[allow(inconsistent_fields)]
pub enum TrayMenuItem {
    Separator { label: Option<String>, visible: bool },
    Submenu {
        id: Option<String>,
        label: String,
        enabled: bool,
        visible: bool,
        role: TrayMenuItemRole,
        toggle_type: Option<TrayToggleType>,
        children: Vec<TrayMenuItem>,
    },
}

/// A menu item as a mathematical value.
#[allow(inconsistent_fields)]
pub enum ItemModel {
    Separator { label: Option<Seq<char>>, visible: bool },
    Submenu {
        id: Option<Seq<char>>,
        label: Seq<char>,
        enabled: bool,
        visible: bool,
        role: TrayMenuItemRole,
        toggle_type: Option<TrayToggleType>,
        children: Seq<ItemModel>,
    },
}

/// The models of the items, in order.
pub open spec fn item_models(items: Seq<TrayMenuItem>) -> Seq<ItemModel>
    decreases items,
{
    if items.len() == 0 {
        Seq::empty()
    } else {
        item_models(items.drop_last()).push(items.last().model())
    }
}

impl TrayMenuItem {
    /// The item as a mathematical value.
    pub open spec fn model(self) -> ItemModel
        decreases self,
    {
        match self {
            TrayMenuItem::Separator { label, visible } => ItemModel::Separator {
                label: opt_text(label),
                visible,
            },
            TrayMenuItem::Submenu { id, label, enabled, visible, role, toggle_type, children } =>
                ItemModel::Submenu {
                    id: opt_text(id),
                    label: label@,
                    enabled,
                    visible,
                    role,
                    toggle_type,
                    children: item_models(children@),
                },
        }
    }
}

impl View for TrayMenuItem {
    type V = ItemModel;

    open spec fn view(&self) -> ItemModel {
        self.model()
    }
}

impl ItemModel {
    /// The same item, enabled or disabled; a separator has no such state.
    pub open spec fn with_enabled(self, on: bool) -> ItemModel {
        match self {
            ItemModel::Separator { .. } => self,
            ItemModel::Submenu { id, label, enabled, visible, role, toggle_type, children } =>
                ItemModel::Submenu { id, label, enabled: on, visible, role, toggle_type, children },
        }
    }

    /// The same item, shown or hidden.
    pub open spec fn with_visible(self, on: bool) -> ItemModel {
        match self {
            ItemModel::Separator { label, visible } => ItemModel::Separator { label, visible: on },
            ItemModel::Submenu { id, label, enabled, visible, role, toggle_type, children } =>
                ItemModel::Submenu { id, label, enabled, visible: on, role, toggle_type, children },
        }
    }

    /// The id that a click on the item reports: that of an enabled standard item
    /// without children.
    pub open spec fn event_id(self) -> Option<Seq<char>> {
        match self {
            ItemModel::Separator { .. } => None,
            ItemModel::Submenu { id, enabled, role, children, .. } => if enabled && role
                == TrayMenuItemRole::Standard && children.len() == 0 {
                id
            } else {
                None
            },
        }
    }

    /// An enabled, visible item that reports clicks under `id` and carries `toggle_type`.
    pub open spec fn entry(
        id: Seq<char>,
        label: Seq<char>,
        toggle_type: Option<TrayToggleType>,
        children: Seq<ItemModel>,
    ) -> ItemModel {
        ItemModel::Submenu {
            id: Some(id),
            label,
            enabled: true,
            visible: true,
            role: TrayMenuItemRole::Standard,
            toggle_type,
            children,
        }
    }

    /// A visible, disabled row of text.
    pub open spec fn text_row(label: Seq<char>) -> ItemModel {
        ItemModel::Submenu {
            id: None,
            label,
            enabled: false,
            visible: true,
            role: TrayMenuItemRole::Info,
            toggle_type: None,
            children: Seq::empty(),
        }
    }
}

/// `item_models` keeps the length and takes the model of each item.
pub proof fn lemma_item_models(items: Seq<TrayMenuItem>)
    ensures
        item_models(items).len() == items.len(),
        forall|i: int| 0 <= i < items.len() ==> #[trigger] item_models(items)[i] == items[i]@,
    decreases items.len(),
{
    if items.len() > 0 {
        lemma_item_models(items.drop_last());
    }
}

/// Copies the items.
pub(crate) fn clone_items(items: &Vec<TrayMenuItem>) -> (res: Vec<TrayMenuItem>)
    ensures
        item_models(res@) == item_models(items@),
    decreases items,
{
    let mut res: Vec<TrayMenuItem> = Vec::new();
    for i in 0..items.len()
        invariant
            item_models(res@) == item_models(items@.take(i as int)),
    {
        let item = items[i].clone();
        let ghost before = res@;
        res.push(item);
        proof {
            assert(res@.drop_last() =~= before);
            assert(items@.take(i + 1).drop_last() =~= items@.take(i as int));
        }
    }
    assert(items@.take(items.len() as int) =~= items@);
    res
}

impl Clone for TrayMenuItem {
    fn clone(&self) -> (res: Self)
        ensures
            res@ == self@,
        decreases self,
    {
        match self {
            TrayMenuItem::Separator { label, visible } => TrayMenuItem::Separator {
                label: label.clone(),
                visible: *visible,
            },
            TrayMenuItem::Submenu { id, label, enabled, visible, role, toggle_type, children } =>
                TrayMenuItem::Submenu {
                    id: id.clone(),
                    label: label.clone(),
                    enabled: *enabled,
                    visible: *visible,
                    role: *role,
                    toggle_type: *toggle_type,
                    children: clone_items(children),
                },
        }
    }
}

impl TrayMenuItem {
    /// A visible separator without a label.
    pub fn separator() -> (item: Self)
        ensures
            item@ == (ItemModel::Separator { label: None, visible: true }),
    {
        Self::Separator { label: None, visible: true }
    }

    /// A visible separator with a label.
    pub fn labeled_separator(label: impl IntoText) -> (item: Self)
        ensures
            item@ == (ItemModel::Separator { label: Some(label.text()), visible: true }),
    {
        Self::Separator { label: Some(label.into_text()), visible: true }
    }

    /// An item that reports clicks under `id`, or opens `children`.
    pub fn menu(id: impl IntoText, label: impl IntoText, children: Vec<TrayMenuItem>) -> (item:
        Self)
        ensures
            item@ == ItemModel::entry(id.text(), label.text(), None, item_models(children@)),
    {
        Self::Submenu {
            id: Some(id.into_text()),
            label: label.into_text(),
            enabled: true,
            visible: true,
            role: TrayMenuItemRole::Standard,
            toggle_type: None,
            children,
        }
    }

    /// An item with a check mark.
    pub fn checkbox(id: impl IntoText, label: impl IntoText, checked: bool) -> (item: Self)
        ensures
            item@ == ItemModel::entry(
                id.text(),
                label.text(),
                Some(TrayToggleType::Checkbox(checked)),
                Seq::empty(),
            ),
    {
        Self::Submenu {
            id: Some(id.into_text()),
            label: label.into_text(),
            enabled: true,
            visible: true,
            role: TrayMenuItemRole::Standard,
            toggle_type: Some(TrayToggleType::Checkbox(checked)),
            children: Vec::new(),
        }
    }

    /// An item with a radio mark.
    pub fn radio(id: impl IntoText, label: impl IntoText, checked: bool) -> (item: Self)
        ensures
            item@ == ItemModel::entry(
                id.text(),
                label.text(),
                Some(TrayToggleType::Radio(checked)),
                Seq::empty(),
            ),
    {
        Self::Submenu {
            id: Some(id.into_text()),
            label: label.into_text(),
            enabled: true,
            visible: true,
            role: TrayMenuItemRole::Standard,
            toggle_type: Some(TrayToggleType::Radio(checked)),
            children: Vec::new(),
        }
    }

    /// A row of text that cannot be clicked; the same as `info`.
    pub fn label(label: impl IntoText) -> (item: Self)
        ensures
            item@ == ItemModel::text_row(label.text()),
    {
        Self::info(label)
    }

    /// A row of text that cannot be clicked.
    pub fn info(label: impl IntoText) -> (item: Self)
        ensures
            item@ == ItemModel::text_row(label.text()),
    {
        Self::Submenu {
            id: None,
            label: label.into_text(),
            enabled: false,
            visible: true,
            role: TrayMenuItemRole::Info,
            toggle_type: None,
            children: Vec::new(),
        }
    }

    /// Enables or disables the item; a separator stays as it is.
    pub fn enabled(self, enabled: bool) -> (item: Self)
        ensures
            item@ == self@.with_enabled(enabled),
    {
        let mut item = self;
        if let Self::Submenu { enabled: item_enabled, .. } = &mut item {
            *item_enabled = enabled;
        }
        item
    }

    /// Shows or hides the item.
    pub fn visible(self, visible: bool) -> (item: Self)
        ensures
            item@ == self@.with_visible(visible),
    {
        let mut item = self;
        match &mut item {
            Self::Separator { visible: item_visible, .. } => {
                *item_visible = visible;
            },
            Self::Submenu { visible: item_visible, .. } => {
                *item_visible = visible;
            },
        }
        item
    }

    /// The id that a click on the item reports, if it can be clicked.
    pub fn menu_event_id(&self) -> (id: Option<&str>)
        ensures
            match id {
                Some(id) => self@.event_id() == Some(id@),
                None => self@.event_id() is None,
            },
    {
        match self {
            Self::Separator { .. } => None,
            Self::Submenu { id, enabled, role, children, .. } => {
                proof {
                    lemma_item_models(children@);
                }
                if *enabled && *role == TrayMenuItemRole::Standard && children.is_empty() {
                    match id {
                        Some(id) => Some(id.as_str()),
                        None => None,
                    }
                } else {
                    None
                }
            },
        }
    }
}

/// A row of text, a separator, a disabled item and an item with children never report a
/// click.
pub proof fn law_passive_items_report_no_click(item: ItemModel)
    ensures
        item is Separator ==> item.event_id() is None,
        item is Submenu ==> item.with_enabled(false).event_id() is None,
        (item is Submenu && item->children.len() > 0) ==> item.event_id() is None,
        forall|label: Seq<char>| (#[trigger] ItemModel::text_row(label)).event_id() is None,
        forall|label: Seq<char>|
            (#[trigger] ItemModel::text_row(label)).with_enabled(true).event_id() is None,
{
}

/// Hiding or showing an item changes nothing else of it: a click on it reports the same id.
pub proof fn law_visibility_keeps_the_click(item: ItemModel, on: bool)
    ensures
        item.with_visible(on).event_id() == item.event_id(),
        item.with_visible(on).with_visible(!on).with_visible(on) == item.with_visible(on),
{
}

/// A click on an item reports an id exactly where the item is one that can be clicked: it is
/// enabled, standard, without children and has that id, whether it carries a mark or not and
/// whether it is shown or not.
pub proof fn law_clicks_report_the_items_own_id(item: ItemModel, reported: Seq<char>)
    ensures
        item.event_id() == Some(reported) <==> (item matches ItemModel::Submenu {
            id,
            enabled,
            role,
            children,
            ..
        } && id == Some(reported) && enabled && role == TrayMenuItemRole::Standard && children.len()
            == 0),
{
}

/// Enabling and disabling changes whether an item is enabled, and nothing else of it; a
/// separator stays as it is.
pub proof fn law_enabling_changes_nothing_else(item: ItemModel, on: bool)
    ensures
        item is Separator ==> item.with_enabled(on) == item,
        item matches ItemModel::Submenu {
            id,
            label,
            enabled,
            visible,
            role,
            toggle_type,
            children,
        } ==> {
            &&& item.with_enabled(on) matches ItemModel::Submenu {
                id: i,
                label: l,
                enabled: e,
                visible: v,
                role: r,
                toggle_type: t,
                children: c,
            }
            &&& e == on
            &&& i == id && l == label && v == visible && r == role && t == toggle_type && c
                == children
        },
{
}

/// Showing and hiding changes whether an item is visible, and nothing else of it.
pub proof fn law_showing_changes_nothing_else(item: ItemModel, on: bool)
    ensures
        item matches ItemModel::Separator { label, visible } ==> (item.with_visible(on) matches
            ItemModel::Separator { label: l, visible: v } && l == label && v == on),
        item matches ItemModel::Submenu {
            id,
            label,
            enabled,
            visible,
            role,
            toggle_type,
            children,
        } ==> {
            &&& item.with_visible(on) matches ItemModel::Submenu {
                id: i,
                label: l,
                enabled: e,
                visible: v,
                role: r,
                toggle_type: t,
                children: c,
            }
            &&& v == on
            &&& i == id && l == label && e == enabled && r == role && t == toggle_type && c
                == children
        },
{
}

/// An entry has the label, the mark and the children that it was made with, is shown and
/// enabled, and without children reports the id that it was made with.
pub proof fn law_entries_are_what_they_were_made_as(
    id: Seq<char>,
    label: Seq<char>,
    toggle_type: Option<TrayToggleType>,
    children: Seq<ItemModel>,
)
    ensures
        ItemModel::entry(id, label, toggle_type, children) matches ItemModel::Submenu {
            id: i,
            label: l,
            enabled,
            visible,
            toggle_type: t,
            children: c,
            ..
        } && i == Some(id) && l == label && enabled && visible && t == toggle_type && c == children,
        children.len() == 0 ==> ItemModel::entry(id, label, toggle_type, children).event_id()
            == Some(id),
{
}

/// A row of text has the text that it was made with, is shown and disabled, and has neither id,
/// mark nor children.
pub proof fn law_text_rows_are_what_they_were_made_as(label: Seq<char>)
    ensures
        ItemModel::text_row(label) matches ItemModel::Submenu {
            id,
            label: l,
            enabled,
            visible,
            toggle_type,
            children,
            ..
        } && id is None && l == label && !enabled && visible && toggle_type is None
            && children.len() == 0,
{
}

/// The model of an item is that item, with its children in order.
pub proof fn law_item_models_are_the_items(item: TrayMenuItem)
    ensures
        item matches TrayMenuItem::Separator { label, visible } ==> (item@ matches
            ItemModel::Separator { label: l, visible: v } && v == visible && (l is Some) == (label
            is Some) && (l is Some ==> l->0 == label->0@)),
        item matches TrayMenuItem::Submenu {
            id,
            label,
            enabled,
            visible,
            role,
            toggle_type,
            children,
        } ==> {
            &&& item@ matches ItemModel::Submenu {
                id: i,
                label: l,
                enabled: e,
                visible: v,
                role: r,
                toggle_type: t,
                children: c,
            }
            &&& (i is Some) == (id is Some) && (i is Some ==> i->0 == id->0@)
            &&& l == label@ && e == enabled && v == visible && r == role && t == toggle_type
            &&& c.len() == children@.len()
            &&& forall|j: int| 0 <= j < c.len() ==> #[trigger] c[j] == children@[j]@
        },
{
    if item is Submenu {
        lemma_item_models(item->children@);
    }
}

} // verus!
