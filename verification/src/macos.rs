//! The tray as macOS shows it: the status item, its button and the menu.

use std::collections::HashMap;

use vstd::prelude::*;

use crate::click::{opt_event, EventModel, TrayEvent};
use crate::menu_item::{item_models, lemma_item_models, ItemModel, TrayMenuItem};
use crate::native_menu::{
    checked_of, clickables, is_checked, item_clickables, lemma_clickables_take,
};
use crate::state::{LogicalPoints, StateModel, TrayState};

verus! {

/// An entry of a menu.
#[derive(Debug)]
#[allow(inconsistent_fields)]
pub enum MacMenuEntry {
    Separator,
    /// An item; where it can be clicked, `tag` is the number that clicks are told by.
    Item { title: String, tag: Option<i64>, checked: bool, enabled: bool },
    Submenu { title: String, enabled: bool, entries: Vec<MacMenuEntry> },
}

/// An entry as a mathematical value.
#[allow(inconsistent_fields)]
pub enum MacEntryModel {
    Separator,
    Item { title: Seq<char>, tag: Option<int>, checked: bool, enabled: bool },
    Submenu { title: Seq<char>, enabled: bool, entries: Seq<MacEntryModel> },
}

/// The models of the entries, in order.
pub open spec fn mac_entry_models(entries: Seq<MacMenuEntry>) -> Seq<MacEntryModel>
    decreases entries,
{
    if entries.len() == 0 {
        Seq::empty()
    } else {
        mac_entry_models(entries.drop_last()).push(entries.last().model())
    }
}

impl MacMenuEntry {
    /// The entry as a mathematical value.
    pub open spec fn model(self) -> MacEntryModel
        decreases self,
    {
        match self {
            MacMenuEntry::Separator => MacEntryModel::Separator,
            MacMenuEntry::Item { title, tag, checked, enabled } => MacEntryModel::Item {
                title: title@,
                tag: match tag {
                    Some(tag) => Some(tag as int),
                    None => None,
                },
                checked,
                enabled,
            },
            MacMenuEntry::Submenu { title, enabled, entries } => MacEntryModel::Submenu {
                title: title@,
                enabled,
                entries: mac_entry_models(entries@),
            },
        }
    }
}

/// The entries that an item makes, where `n` items that can be clicked stand before it: none
/// where it is hidden, else one. The tags of items count from 1 on.
pub open spec fn mac_item_entries(item: ItemModel, n: nat) -> Seq<MacEntryModel>
    decreases item,
{
    match item {
        ItemModel::Separator { visible, .. } => if visible {
            seq![MacEntryModel::Separator]
        } else {
            Seq::empty()
        },
        ItemModel::Submenu { label, enabled, visible, toggle_type, children, .. } => if !visible {
            Seq::empty()
        } else if children.len() == 0 {
            seq![
                MacEntryModel::Item {
                    title: label,
                    tag: if item.event_id() is Some {
                        Some(n as int + 1)
                    } else {
                        None
                    },
                    checked: is_checked(toggle_type),
                    enabled,
                },
            ]
        } else {
            seq![
                MacEntryModel::Submenu {
                    title: label,
                    enabled,
                    entries: mac_entries(children, n),
                },
            ]
        },
    }
}

/// The entries that the items make, where `n` items that can be clicked stand before them.
pub open spec fn mac_entries(items: Seq<ItemModel>, n: nat) -> Seq<MacEntryModel>
    decreases items,
{
    if items.len() == 0 {
        Seq::empty()
    } else {
        mac_entries(items.drop_last(), n) + mac_item_entries(
            items.last(),
            n + clickables(items.drop_last()).len(),
        )
    }
}

/// The ids by tag.
pub open spec fn tag_texts(tags: Map<i64, String>) -> Map<i64, Seq<char>> {
    tags.map_values(|id: String| id@)
}

/// The ids by tag, with those of `ids` added under the tags from `n + 1` on.
pub open spec fn tagged(tags: Map<i64, Seq<char>>, ids: Seq<Seq<char>>, n: nat) -> Map<
    i64,
    Seq<char>,
>
    decreases ids.len(),
{
    if ids.len() == 0 {
        tags
    } else {
        tagged(tags, ids.drop_last(), n).insert((n + ids.len()) as i64, ids.last())
    }
}

proof fn lemma_tagged_concat(
    tags: Map<i64, Seq<char>>,
    a: Seq<Seq<char>>,
    b: Seq<Seq<char>>,
    n: nat,
)
    ensures
        tagged(tags, a + b, n) == tagged(tagged(tags, a, n), b, n + a.len()),
    decreases b.len(),
{
    if b.len() == 0 {
        assert(a + b =~= a);
    } else {
        lemma_tagged_concat(tags, a, b.drop_last(), n);
        assert((a + b).drop_last() =~= a + b.drop_last());
    }
}

/// One more entry at the end.
proof fn lemma_mac_entries_push(entries: Seq<MacMenuEntry>, entry: MacMenuEntry)
    ensures
        mac_entry_models(entries.push(entry)) == mac_entry_models(entries) + seq![entry.model()],
{
    assert(entries.push(entry).drop_last() =~= entries);
    assert(mac_entry_models(entries) + seq![entry.model()] =~= mac_entry_models(entries).push(
        entry.model(),
    ));
}

/// Each id is found under its own tag, and nothing else is.
proof fn lemma_tagged_lookup(ids: Seq<Seq<char>>)
    requires
        ids.len() < i64::MAX,
    ensures
        forall|t: i64|
            (#[trigger] tagged(Map::empty(), ids, 0).contains_key(t)) == (1 <= t <= ids.len()),
        forall|t: i64|
            1 <= t <= ids.len() ==> #[trigger] tagged(Map::empty(), ids, 0)[t] == ids[t - 1],
    decreases ids.len(),
{
    if ids.len() > 0 {
        let init = ids.drop_last();
        lemma_tagged_lookup(init);
        let before = tagged(Map::empty(), init, 0);
        let after = tagged(Map::empty(), ids, 0);
        assert(after == before.insert(ids.len() as i64, ids.last()));
        assert forall|t: i64| (#[trigger] after.contains_key(t)) == (1 <= t <= ids.len()) by {
            assert(before.contains_key(t) == (1 <= t <= init.len()));
        }
        assert forall|t: i64| 1 <= t <= ids.len() implies #[trigger] after[t] == ids[t - 1] by {
            if t <= init.len() {
                assert(before[t] == init[t - 1]);
            }
        }
    } else {
        assert(tagged(Map::empty(), ids, 0) == Map::<i64, Seq<char>>::empty());
    }
}

/// Adds the entry of an item to a menu, unless the item is hidden; `n` counts the items before
/// it that can be clicked.
fn add_tray_menu_item(
    entries: &mut Vec<MacMenuEntry>,
    item: &TrayMenuItem,
    tags: &mut HashMap<i64, String>,
    next_tag: &mut i64,
    Ghost(n): Ghost<nat>,
)
    requires
        *old(next_tag) == n + 1,
        n + item_clickables(item@).len() < i64::MAX,
    ensures
        mac_entry_models(final(entries)@) == mac_entry_models(old(entries)@) + mac_item_entries(
            item@,
            n,
        ),
        tag_texts(final(tags)@) == tagged(tag_texts(old(tags)@), item_clickables(item@), n),
        *final(next_tag) == n + item_clickables(item@).len() + 1,
    decreases item,
{
    let ghost entries_before = entries@;
    let ghost tags_before = tags@;
    match item {
        TrayMenuItem::Separator { visible, .. } => {
            if *visible {
                entries.push(MacMenuEntry::Separator);
                proof {
                    lemma_mac_entries_push(entries_before, MacMenuEntry::Separator);
                }
            }
            assert(mac_entry_models(entries@) =~= mac_entry_models(entries_before)
                + mac_item_entries(item@, n));
        },
        TrayMenuItem::Submenu { label, enabled, visible, toggle_type, children, .. } => {
            proof {
                lemma_item_models(children@);
            }
            if !*visible {
                assert(mac_entry_models(entries@) =~= mac_entry_models(entries_before)
                    + mac_item_entries(item@, n));
                return;
            }
            if children.len() == 0 {
                let mut tag: Option<i64> = None;
                if let Some(user_id) = item.menu_event_id() {
                    let number: i64 = *next_tag;
                    *next_tag = number + 1;
                    let user_id = user_id.to_owned();
                    let ghost id = user_id@;
                    tags.insert(number, user_id);
                    tag = Some(number);
                    proof {
                        assert(item_clickables(item@) == seq![id]);
                        assert(seq![id].drop_last() =~= Seq::empty());
                        assert(tagged(tag_texts(tags_before), Seq::empty(), n) == tag_texts(
                            tags_before,
                        ));
                        assert(tagged(tag_texts(tags_before), seq![id], n) == tag_texts(
                            tags_before,
                        ).insert(number, id));
                        assert(tag_texts(tags@) =~= tag_texts(tags_before).insert(number, id));
                    }
                }
                entries.push(
                    MacMenuEntry::Item {
                        title: label.clone(),
                        tag,
                        checked: checked_of(toggle_type),
                        enabled: *enabled,
                    },
                );
                proof {
                    lemma_mac_entries_push(entries_before, entries@.last());
                    assert(entries@ =~= entries_before.push(entries@.last()));
                }
                assert(mac_entry_models(entries@) =~= mac_entry_models(entries_before)
                    + mac_item_entries(item@, n));
            } else {
                let submenu = add_tray_menu_items(children, tags, next_tag, Ghost(n));
                entries.push(
                    MacMenuEntry::Submenu {
                        title: label.clone(),
                        enabled: *enabled,
                        entries: submenu,
                    },
                );
                proof {
                    lemma_mac_entries_push(entries_before, entries@.last());
                    assert(entries@ =~= entries_before.push(entries@.last()));
                }
                assert(mac_entry_models(entries@) =~= mac_entry_models(entries_before)
                    + mac_item_entries(item@, n));
            }
        },
    }
}

/// The entries of the items; `n` counts the items before them that can be clicked.
fn add_tray_menu_items(
    items: &Vec<TrayMenuItem>,
    tags: &mut HashMap<i64, String>,
    next_tag: &mut i64,
    Ghost(n): Ghost<nat>,
) -> (entries: Vec<MacMenuEntry>)
    requires
        *old(next_tag) == n + 1,
        n + clickables(item_models(items@)).len() < i64::MAX,
    ensures
        mac_entry_models(entries@) == mac_entries(item_models(items@), n),
        tag_texts(final(tags)@) == tagged(
            tag_texts(old(tags)@),
            clickables(item_models(items@)),
            n,
        ),
        *final(next_tag) == n + clickables(item_models(items@)).len() + 1,
    decreases items,
{
    let ghost models = item_models(items@);
    let ghost tags_before = tag_texts(tags@);
    let mut entries: Vec<MacMenuEntry> = Vec::new();
    proof {
        lemma_item_models(items@);
        assert(models.take(0) =~= Seq::empty());
    }
    for i in 0..items.len()
        invariant
            models == item_models(items@),
            models.len() == items.len(),
            forall|j: int| 0 <= j < items.len() ==> #[trigger] models[j] == items@[j]@,
            n + clickables(models).len() < i64::MAX,
            mac_entry_models(entries@) == mac_entries(models.take(i as int), n),
            tag_texts(tags@) == tagged(tags_before, clickables(models.take(i as int)), n),
            *next_tag == n + clickables(models.take(i as int)).len() + 1,
    {
        let ghost done = clickables(models.take(i as int));
        proof {
            lemma_clickables_take(models, i as int);
            lemma_tagged_concat(tags_before, done, item_clickables(models[i as int]), n);
            assert(models.take(i + 1).drop_last() =~= models.take(i as int));
        }
        add_tray_menu_item(&mut entries, &items[i], tags, next_tag, Ghost(n + done.len()));
    }
    assert(models.take(models.len() as int) =~= models);
    entries
}

/// A menu and the ids that its tags stand for.
pub struct MacMenu {
    pub entries: Vec<MacMenuEntry>,
    pub tag_to_id: HashMap<i64, String>,
}

/// The menu of the items.
pub fn rebuild_mac_menu(items: &Vec<TrayMenuItem>) -> (menu: MacMenu)
    requires
        clickables(item_models(items@)).len() < i64::MAX,
    ensures
        mac_entry_models(menu.entries@) == mac_entries(item_models(items@), 0),
        tag_texts(menu.tag_to_id@) == tagged(Map::empty(), clickables(item_models(items@)), 0),
{
    let mut tag_to_id: HashMap<i64, String> = HashMap::new();
    let mut next_tag: i64 = 1;
    assert(tag_texts(tag_to_id@) =~= Map::empty());
    let entries = add_tray_menu_items(items, &mut tag_to_id, &mut next_tag, Ghost(0));
    MacMenu { entries, tag_to_id }
}

/// The event that a click on the entry with this tag becomes.
pub fn dispatch_tag(tag_to_id: &HashMap<i64, String>, tag: i64) -> (event: Option<TrayEvent>)
    ensures
        opt_event(event) == if tag_to_id@.contains_key(tag) {
            Some(EventModel::MenuClick { id: tag_to_id@[tag]@ })
        } else {
            None
        },
{
    match tag_to_id.get(&tag) {
        Some(id) => Some(TrayEvent::MenuClick { id: id.clone() }),
        None => None,
    }
}

/// The tags of a menu are the numbers from 1 on, one for each item that can be clicked, and
/// each stands for its own item's id.
pub proof fn law_tags_stand_for_their_items(items: Seq<ItemModel>)
    requires
        clickables(items).len() < i64::MAX,
    ensures
        ({
            let ids = clickables(items);
            let tags = tagged(Map::empty(), ids, 0);
            &&& forall|t: i64| (#[trigger] tags.contains_key(t)) == (1 <= t <= ids.len())
            &&& forall|t: i64| 1 <= t <= ids.len() ==> #[trigger] tags[t] == ids[t - 1]
        }),
{
    lemma_tagged_lookup(clickables(items));
}

/// What is to be done about the status item in the menu bar.
#[derive(Clone, Copy, Debug, PartialEq, Eq, Structural)]
pub enum StatusItemAction {
    Create,
    Remove,
    Keep,
}

/// What is to be done about the status item.
pub open spec fn status_item_action(present: bool, visible: bool) -> StatusItemAction {
    if present == visible {
        StatusItemAction::Keep
    } else if visible {
        StatusItemAction::Create
    } else {
        StatusItemAction::Remove
    }
}

/// What is to be done about the status item so that it is there exactly where the tray is
/// visible.
pub fn set_visible(present: bool, visible: bool) -> (action: StatusItemAction)
    ensures
        action == (if visible && !present {
            StatusItemAction::Create
        } else if !visible && present {
            StatusItemAction::Remove
        } else {
            StatusItemAction::Keep
        }),
        action == status_item_action(present, visible),
{
    if visible {
        if present {
            StatusItemAction::Keep
        } else {
            StatusItemAction::Create
        }
    } else {
        if present {
            StatusItemAction::Remove
        } else {
            StatusItemAction::Keep
        }
    }
}

/// A step by which the native tray takes over a state.
#[derive(Clone, Copy, Debug, PartialEq, Eq, Structural)]
pub enum MacApplyStep {
    /// Have a status item exactly where this is set.
    SetVisible(bool),
    RebuildMenu,
    /// Have the button report what the mouse does.
    HookButton,
    SetToolTip,
    SetTitle,
    /// Decode the icon, fit it inside a square of this size, and mark it as a template or not.
    PrepareImage { points: LogicalPoints, template: bool },
    /// Give the prepared image to the button.
    AssignImage,
    ClearImage,
    SetClickPolicy,
}

/// A step as a mathematical value.
pub enum MacStepModel {
    SetVisible(bool),
    RebuildMenu,
    HookButton,
    SetToolTip,
    SetTitle,
    PrepareImage { points: u64, template: bool },
    AssignImage,
    ClearImage,
    SetClickPolicy,
}

impl View for MacApplyStep {
    type V = MacStepModel;

    open spec fn view(&self) -> MacStepModel {
        match *self {
            MacApplyStep::SetVisible(visible) => MacStepModel::SetVisible(visible),
            MacApplyStep::RebuildMenu => MacStepModel::RebuildMenu,
            MacApplyStep::HookButton => MacStepModel::HookButton,
            MacApplyStep::SetToolTip => MacStepModel::SetToolTip,
            MacApplyStep::SetTitle => MacStepModel::SetTitle,
            MacApplyStep::PrepareImage { points, template } => MacStepModel::PrepareImage {
                points: points@,
                template,
            },
            MacApplyStep::AssignImage => MacStepModel::AssignImage,
            MacApplyStep::ClearImage => MacStepModel::ClearImage,
            MacApplyStep::SetClickPolicy => MacStepModel::SetClickPolicy,
        }
    }
}

/// The steps by which the button takes over the icon: an image has its size and its template
/// flag before the button gets it.
pub open spec fn image_order(state: StateModel) -> Seq<MacStepModel> {
    if state.icon is Some {
        seq![
            MacStepModel::PrepareImage { points: state.icon_size, template: state.icon_template },
            MacStepModel::AssignImage,
        ]
    } else {
        seq![MacStepModel::ClearImage]
    }
}

/// The steps by which the native tray takes over a state, in order. The first one that fails
/// ends them, so that clicks go by the new policy only where all of the state was taken over.
pub open spec fn mac_apply_order(state: StateModel) -> Seq<MacStepModel> {
    if state.visible {
        seq![
            MacStepModel::SetVisible(true),
            MacStepModel::RebuildMenu,
            MacStepModel::HookButton,
            MacStepModel::SetToolTip,
            MacStepModel::SetTitle,
        ] + image_order(state) + seq![MacStepModel::SetClickPolicy]
    } else {
        seq![MacStepModel::SetVisible(false)]
    }
}

/// The models of the steps.
pub open spec fn mac_step_models(steps: Seq<MacApplyStep>) -> Seq<MacStepModel> {
    steps.map_values(|step: MacApplyStep| step@)
}

/// The steps by which the native tray takes over a state, in order.
pub fn mac_apply_steps(state: &TrayState) -> (steps: Vec<MacApplyStep>)
    ensures
        mac_step_models(steps@) == mac_apply_order(state@),
{
    let mut steps: Vec<MacApplyStep> = Vec::new();
    steps.push(MacApplyStep::SetVisible(state.visible));
    if state.visible {
        steps.push(MacApplyStep::RebuildMenu);
        steps.push(MacApplyStep::HookButton);
        steps.push(MacApplyStep::SetToolTip);
        steps.push(MacApplyStep::SetTitle);
        if state.icon.is_some() {
            steps.push(
                MacApplyStep::PrepareImage {
                    points: state.icon_size,
                    template: state.icon_template,
                },
            );
            steps.push(MacApplyStep::AssignImage);
        } else {
            steps.push(MacApplyStep::ClearImage);
        }
        steps.push(MacApplyStep::SetClickPolicy);
    }
    assert(mac_step_models(steps@) =~= mac_apply_order(state@));
    steps
}

/// Whatever the state, and whether it is the first one or an update: the step just before the
/// button gets an image prepares that image with the state's size and template flag.
pub proof fn law_images_are_prepared_before_assignment(state: StateModel, i: int)
    requires
        0 <= i < mac_apply_order(state).len(),
        mac_apply_order(state)[i] is AssignImage,
    ensures
        0 < i,
        mac_apply_order(state)[i - 1] == (MacStepModel::PrepareImage {
            points: state.icon_size,
            template: state.icon_template,
        }),
{
}

/// The first step makes the tray visible or hides it, and for a hidden tray there is no other.
/// A visible tray gets its menu, its button, its tooltip and its title; it gets an image exactly
/// where it has an icon, and has its image cleared exactly where it has none. The policy comes
/// last.
pub proof fn law_visible_trays_take_everything_over(state: StateModel)
    ensures
        ({
            let steps = mac_apply_order(state);
            &&& steps.len() > 0
            &&& steps[0] == MacStepModel::SetVisible(state.visible)
            &&& !state.visible ==> steps.len() == 1
            &&& steps.contains(MacStepModel::RebuildMenu) == state.visible
            &&& steps.contains(MacStepModel::HookButton) == state.visible
            &&& steps.contains(MacStepModel::SetToolTip) == state.visible
            &&& steps.contains(MacStepModel::SetTitle) == state.visible
            &&& steps.contains(MacStepModel::AssignImage) == (state.visible && state.icon is Some)
            &&& steps.contains(MacStepModel::ClearImage) == (state.visible && state.icon is None)
            &&& state.visible ==> steps.last() == MacStepModel::SetClickPolicy
            &&& forall|i: int|
                0 <= i < steps.len() - 1 ==> #[trigger] steps[i] != MacStepModel::SetClickPolicy
            &&& forall|i: int| 0 < i < steps.len() ==> !(#[trigger] steps[i] is SetVisible)
        }),
{
    let steps = mac_apply_order(state);
    if state.visible {
        assert(steps[1] == MacStepModel::RebuildMenu);
        assert(steps[2] == MacStepModel::HookButton);
        assert(steps[3] == MacStepModel::SetToolTip);
        assert(steps[4] == MacStepModel::SetTitle);
        if state.icon is Some {
            assert(steps[6] == MacStepModel::AssignImage);
        } else {
            assert(steps[5] == MacStepModel::ClearImage);
        }
    }
}

/// The models of steps are the steps, in order.
pub proof fn law_mac_step_models_are_the_steps(steps: Seq<MacApplyStep>, i: int)
    requires
        0 <= i < steps.len(),
    ensures
        mac_step_models(steps).len() == steps.len(),
        mac_step_models(steps)[i] is SetVisible == steps[i] is SetVisible,
        steps[i] matches MacApplyStep::SetVisible(v) ==> mac_step_models(steps)[i]
            == MacStepModel::SetVisible(v),
        mac_step_models(steps)[i] is RebuildMenu == steps[i] is RebuildMenu,
        mac_step_models(steps)[i] is HookButton == steps[i] is HookButton,
        mac_step_models(steps)[i] is SetToolTip == steps[i] is SetToolTip,
        mac_step_models(steps)[i] is SetTitle == steps[i] is SetTitle,
        mac_step_models(steps)[i] is PrepareImage == steps[i] is PrepareImage,
        steps[i] matches MacApplyStep::PrepareImage { points, template }
            ==> mac_step_models(steps)[i] == (MacStepModel::PrepareImage {
            points: points@,
            template,
        }),
        mac_step_models(steps)[i] is AssignImage == steps[i] is AssignImage,
        mac_step_models(steps)[i] is ClearImage == steps[i] is ClearImage,
        mac_step_models(steps)[i] is SetClickPolicy == steps[i] is SetClickPolicy,
{
}

/// However many items can be clicked, the tag that is their number counted from 1 stands for
/// each of their ids, and tags that were there before stay.
pub proof fn law_tags_count_up(tags: Map<i64, Seq<char>>, ids: Seq<Seq<char>>, n: nat, i: int)
    requires
        n + ids.len() < i64::MAX,
        0 <= i < ids.len(),
    ensures
        tagged(tags, ids, n).contains_pair((n + i + 1) as i64, ids[i]),
        forall|t: i64|
            t <= n && #[trigger] tags.contains_key(t) ==> tagged(tags, ids, n).contains_pair(
                t,
                tags[t],
            ),
    decreases ids.len(),
{
    let init = ids.drop_last();
    let before = tagged(tags, init, n);
    assert(tagged(tags, ids, n) == before.insert((n + ids.len()) as i64, ids.last()));
    if init.len() > 0 {
        let k = if i < init.len() {
            i
        } else {
            0
        };
        law_tags_count_up(tags, init, n, k);
    } else {
        assert(before == tags);
    }
}

/// After what is done about it, the status item is there exactly where the tray is visible; it is
/// neither made twice nor removed where it is not there.
pub proof fn law_the_status_item_follows_visibility(present: bool, visible: bool)
    ensures
        status_item_action(present, visible) == StatusItemAction::Create ==> !present && visible,
        status_item_action(present, visible) == StatusItemAction::Remove ==> present && !visible,
        status_item_action(present, visible) == StatusItemAction::Keep ==> present == visible,
{
}

} // verus!
