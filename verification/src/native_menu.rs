//! What menus of the window systems have in common: hidden items are left out, and the items
//! that can be clicked are numbered.

use vstd::prelude::*;

use crate::dbus_menu::{item_size, items_size};
use crate::menu_item::{ItemModel, TrayMenuItemRole, TrayToggleType};

verus! {

/// The ids that clicks on the item, or on what is shown below it, can report, in the order in
/// which the items are written.
pub open spec fn item_clickables(item: ItemModel) -> Seq<Seq<char>>
    decreases item,
{
    match item {
        ItemModel::Separator { .. } => Seq::empty(),
        ItemModel::Submenu { visible, children, .. } => if !visible {
            Seq::empty()
        } else if children.len() > 0 {
            clickables(children)
        } else {
            match item.event_id() {
                Some(id) => seq![id],
                None => Seq::empty(),
            }
        },
    }
}

/// The ids that clicks on the items, or on what is shown below them, can report, in the order
/// in which the items are written.
pub open spec fn clickables(items: Seq<ItemModel>) -> Seq<Seq<char>>
    decreases items,
{
    if items.len() == 0 {
        Seq::empty()
    } else {
        clickables(items.drop_last()) + item_clickables(items.last())
    }
}

/// Whether an item carries a mark that is set.
pub open spec fn is_checked(toggle: Option<TrayToggleType>) -> bool {
    match toggle {
        Some(TrayToggleType::Checkbox(checked)) => checked,
        Some(TrayToggleType::Radio(checked)) => checked,
        None => false,
    }
}

/// Whether an item carries a mark that is set.
pub(crate) fn checked_of(toggle: &Option<TrayToggleType>) -> (checked: bool)
    ensures
        checked == is_checked(*toggle),
{
    match toggle {
        Some(TrayToggleType::Checkbox(checked)) => *checked,
        Some(TrayToggleType::Radio(checked)) => *checked,
        None => false,
    }
}

/// The first items can be clicked in no more places than all of them.
pub(crate) proof fn lemma_clickables_take(items: Seq<ItemModel>, i: int)
    requires
        0 <= i < items.len(),
    ensures
        clickables(items.take(i + 1)) == clickables(items.take(i)) + item_clickables(items[i]),
        clickables(items.take(i + 1)).len() <= clickables(items).len(),
    decreases items.len() - i,
{
    assert(items.take(i + 1).drop_last() =~= items.take(i));
    if i + 1 == items.len() {
        assert(items.take(i + 1) =~= items);
    } else {
        lemma_clickables_take(items, i + 1);
    }
}

/// No more places of a menu can be clicked than it has items.
pub proof fn law_clickables_are_items(items: Seq<ItemModel>)
    ensures
        clickables(items).len() <= items_size(items),
    decreases items,
{
    if items.len() > 0 {
        law_clickables_are_items(items.drop_last());
        lemma_item_clickables_are_items(items.last());
    }
}

proof fn lemma_item_clickables_are_items(item: ItemModel)
    ensures
        item_clickables(item).len() <= item_size(item),
    decreases item,
{
    match item {
        ItemModel::Separator { .. } => {},
        ItemModel::Submenu { children, .. } => {
            law_clickables_are_items(children);
        },
    }
}

/// The ids that clicks can report follow the order in which the items are written; a hidden item
/// adds none, an item with children those below it, and one without children its own exactly
/// where it can be clicked.
pub proof fn law_clickables_follow_the_items(
    a: Seq<ItemModel>,
    b: Seq<ItemModel>,
    item: ItemModel,
)
    ensures
        clickables(a + b) == clickables(a) + clickables(b),
        clickables(seq![item]) == item_clickables(item),
        item is Separator ==> item_clickables(item).len() == 0,
        item matches ItemModel::Submenu { id, enabled, visible, role, children, .. } ==> {
            &&& !visible ==> item_clickables(item).len() == 0
            &&& visible && children.len() > 0 ==> item_clickables(item) == clickables(children)
            &&& visible && children.len() == 0 && enabled && role == TrayMenuItemRole::Standard
                && id is Some ==> item_clickables(item) == seq![id->0]
            &&& children.len() == 0 && (!enabled || role != TrayMenuItemRole::Standard || id
                is None) ==> item_clickables(item).len() == 0
        },
    decreases b.len(),
{
    assert(seq![item].drop_last() =~= Seq::empty());
    assert(clickables(seq![item].drop_last()) =~= Seq::empty());
    assert(clickables(seq![item]) =~= item_clickables(item));
    if b.len() == 0 {
        assert(a + b =~= a);
        assert(clickables(a) + clickables(b) =~= clickables(a));
    } else {
        law_clickables_follow_the_items(a, b.drop_last(), item);
        assert((a + b).drop_last() =~= a + b.drop_last());
        assert(clickables(a + b) =~= clickables(a) + clickables(b));
    }
}

/// A mark is set exactly where it is a check mark or a radio mark that says so.
pub proof fn law_marks(toggle: Option<TrayToggleType>)
    ensures
        is_checked(toggle) <==> (toggle == Some(TrayToggleType::Checkbox(true)) || toggle == Some(
            TrayToggleType::Radio(true),
        )),
{
}

} // verus!
