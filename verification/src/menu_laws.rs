//! What holds of a menu on every system: how items that are disabled, hidden or only text are
//! shown.

use vstd::prelude::*;

use crate::dbus_menu::{item_properties, lemma_names_differ};
use crate::macos::{
    law_tags_stand_for_their_items, mac_entries, mac_entry_models, mac_item_entries, tagged,
    MacEntryModel, MacMenuEntry,
};
use crate::menu_item::{ItemModel, TrayMenuItemRole, TrayToggleType};
use crate::native_menu::{
    clickables, is_checked, item_clickables, law_clickables_follow_the_items,
};
use crate::variant::VariantModel;
use crate::windows::{
    command_at, commanded, item_flags, law_commands_stand_for_their_items, popup_flags, wide,
    win_entries, win_entry_models, win_item_entries, WinEntryModel, WinMenuEntry, MF_CHECKED,
    MF_DISABLED, MF_POPUP,
};

verus! {

/// A disabled item is shown, and shown as disabled: with its property on D-Bus, with its state
/// on macOS and with its flag on Windows. Nothing is told of clicks on it.
pub proof fn law_disabled_items_are_shown_disabled(item: ItemModel, n: nat)
    requires
        item is Submenu,
        item->Submenu_visible,
    ensures
        ({
            let off = item.with_enabled(false);
            &&& item_properties(off).contains_pair("enabled"@, VariantModel::Bool(false))
            &&& item_properties(off).contains_pair("visible"@, VariantModel::Bool(true))
            &&& off.event_id() is None
            &&& mac_item_entries(off, n).len() == 1
            &&& match mac_item_entries(off, n)[0] {
                MacEntryModel::Separator => false,
                MacEntryModel::Item { tag, enabled, .. } => !enabled && tag is None,
                MacEntryModel::Submenu { enabled, .. } => !enabled,
            }
            &&& win_item_entries(off, n).len() == 1
            &&& match win_item_entries(off, n)[0] {
                WinEntryModel::Separator => false,
                WinEntryModel::Item { flags, command, .. } => flags & MF_DISABLED == MF_DISABLED
                    && command == 0,
                WinEntryModel::Popup { flags, .. } => flags & MF_DISABLED == MF_DISABLED,
            }
        }),
{
    lemma_names_differ();
    assert(2u32 & 2u32 == 2u32 && 10u32 & 2u32 == 2u32 && 0x12u32 & 2u32 == 2u32) by (bit_vector);
    assert(item_flags(true, false) == 10u32);
    assert(item_flags(false, false) == 2u32);
    assert(popup_flags(false) == 0x12u32);
}

/// A row of text is shown with its text, disabled and without anything to click.
pub proof fn law_text_rows_cannot_be_clicked(label: Seq<char>, n: nat)
    ensures
        ({
            let row = ItemModel::text_row(label);
            &&& row.event_id() is None
            &&& item_properties(row).contains_pair("label"@, VariantModel::Str(label))
            &&& item_properties(row).contains_pair("enabled"@, VariantModel::Bool(false))
            &&& mac_item_entries(row, n) == seq![
                MacEntryModel::Item { title: label, tag: None, checked: false, enabled: false },
            ]
            &&& win_item_entries(row, n) == seq![
                WinEntryModel::Item { flags: MF_DISABLED, command: 0, label: wide(label) },
            ]
            &&& item_clickables(row) == Seq::<Seq<char>>::empty()
        }),
{
    lemma_names_differ();
}

proof fn lemma_mac_entries_concat(a: Seq<ItemModel>, b: Seq<ItemModel>, n: nat)
    ensures
        mac_entries(a + b, n) == mac_entries(a, n) + mac_entries(b, n + clickables(a).len()),
    decreases b.len(),
{
    if b.len() == 0 {
        assert(a + b =~= a);
        assert(mac_entries(a, n) + mac_entries(b, n + clickables(a).len()) =~= mac_entries(a, n));
    } else {
        lemma_mac_entries_concat(a, b.drop_last(), n);
        law_clickables_follow_the_items(a, b.drop_last(), b.last());
        assert((a + b).drop_last() =~= a + b.drop_last());
        assert(mac_entries(a + b, n) =~= mac_entries(a, n) + mac_entries(
            b,
            n + clickables(a).len(),
        ));
    }
}

proof fn lemma_win_entries_concat(a: Seq<ItemModel>, b: Seq<ItemModel>, n: nat)
    ensures
        win_entries(a + b, n) == win_entries(a, n) + win_entries(b, n + clickables(a).len()),
    decreases b.len(),
{
    if b.len() == 0 {
        assert(a + b =~= a);
        assert(win_entries(a, n) + win_entries(b, n + clickables(a).len()) =~= win_entries(a, n));
    } else {
        lemma_win_entries_concat(a, b.drop_last(), n);
        law_clickables_follow_the_items(a, b.drop_last(), b.last());
        assert((a + b).drop_last() =~= a + b.drop_last());
        assert(win_entries(a + b, n) =~= win_entries(a, n) + win_entries(
            b,
            n + clickables(a).len(),
        ));
    }
}

/// A hidden item is not shown: on macOS and Windows the menu is the one that it would be
/// without the item, with the same numbers for the same ids, and on D-Bus the item's node says
/// that it is not visible.
pub proof fn law_hidden_items_are_not_shown(
    before: Seq<ItemModel>,
    item: ItemModel,
    after: Seq<ItemModel>,
    n: nat,
)
    ensures
        ({
            let hidden = item.with_visible(false);
            &&& mac_entries(before + seq![hidden] + after, n) == mac_entries(before + after, n)
            &&& win_entries(before + seq![hidden] + after, n) == win_entries(before + after, n)
            &&& clickables(before + seq![hidden] + after) == clickables(before + after)
            &&& item_properties(hidden).contains_pair("visible"@, VariantModel::Bool(false))
        }),
{
    let hidden = item.with_visible(false);
    let one = seq![hidden];
    lemma_names_differ();
    let m = n + clickables(before).len();
    assert(one.drop_last() =~= Seq::empty());
    assert(item_clickables(hidden) =~= Seq::empty());
    assert(clickables(one.drop_last()) =~= Seq::empty());
    assert(clickables(one) =~= Seq::empty());
    assert(mac_item_entries(hidden, m) =~= Seq::empty());
    assert(mac_entries(one.drop_last(), m) =~= Seq::empty());
    assert(mac_entries(one, m) =~= Seq::empty());
    assert(win_item_entries(hidden, m) =~= Seq::empty());
    assert(win_entries(one.drop_last(), m) =~= Seq::empty());
    assert(win_entries(one, m) =~= Seq::empty());
    law_clickables_follow_the_items(before, one, hidden);
    assert(clickables(before + one) =~= clickables(before));
    law_clickables_follow_the_items(before + one, after, hidden);
    law_clickables_follow_the_items(before, after, hidden);
    lemma_mac_entries_concat(before, one, n);
    lemma_mac_entries_concat(before + one, after, n);
    lemma_mac_entries_concat(before, after, n);
    assert(mac_entries(before + one, n) =~= mac_entries(before, n));
    lemma_win_entries_concat(before, one, n);
    lemma_win_entries_concat(before + one, after, n);
    lemma_win_entries_concat(before, after, n);
    assert(win_entries(before + one, n) =~= win_entries(before, n));
}

/// Whether the entry shows the item on macOS, where `tags` are the ids that tags stand for, if
/// that is asked. A separator is shown as a separator. An item without children is shown with its
/// label, marked exactly where it carries a mark that is set, enabled exactly where it is; a tag
/// that stands for its id tells of clicks on it exactly where it can be clicked. An item with
/// children is shown with its label, enabled exactly where it is, and opens a menu that shows
/// them.
pub open spec fn mac_shows(
    entry: MacEntryModel,
    item: ItemModel,
    tags: Option<Map<i64, Seq<char>>>,
) -> bool
    decreases item,
{
    match item {
        ItemModel::Separator { .. } => entry is Separator,
        ItemModel::Submenu { id, label, enabled, role, toggle_type, children, .. } => {
            if children.len() == 0 {
                &&& entry matches MacEntryModel::Item { title, tag, checked, enabled: on }
                &&& title == label
                &&& checked <==> (toggle_type == Some(TrayToggleType::Checkbox(true))
                    || toggle_type == Some(TrayToggleType::Radio(true)))
                &&& on == enabled
                &&& if enabled && role == TrayMenuItemRole::Standard && id is Some {
                    &&& tag matches Some(t)
                    &&& 0 < t
                    &&& tags matches Some(tags) ==> t <= i64::MAX && tags.contains_pair(
                        t as i64,
                        id->0,
                    )
                } else {
                    tag is None
                }
            } else {
                &&& entry matches MacEntryModel::Submenu { title, enabled: on, entries }
                &&& title == label
                &&& on == enabled
                &&& mac_shows_all(entries, children, tags)
            }
        },
    }
}

/// Whether the entries show those of the items that are visible, in order, and nothing else.
pub open spec fn mac_shows_all(
    entries: Seq<MacEntryModel>,
    items: Seq<ItemModel>,
    tags: Option<Map<i64, Seq<char>>>,
) -> bool
    decreases items,
{
    if items.len() == 0 {
        entries.len() == 0
    } else if is_visible(items.last()) {
        &&& entries.len() > 0
        &&& mac_shows(entries.last(), items.last(), tags)
        &&& mac_shows_all(entries.drop_last(), items.drop_last(), tags)
    } else {
        mac_shows_all(entries, items.drop_last(), tags)
    }
}

/// Whether the item is visible.
pub open spec fn is_visible(item: ItemModel) -> bool {
    match item {
        ItemModel::Separator { visible, .. } => visible,
        ItemModel::Submenu { visible, .. } => visible,
    }
}

/// Whether the entry shows the item on Windows, where `commands` are the ids that commands stand
/// for, if that is asked. A separator is shown as a separator. An item without children is shown
/// with its label; its flags say that it is checked exactly where it carries a mark that is set,
/// that it is disabled exactly where it is, and nothing else; a command that stands for its id
/// tells of clicks on it exactly where it can be clicked. An item with children is shown with its
/// label; its flags say that it is a popup, that it is disabled exactly where it is, and nothing
/// else; it opens a menu that shows them.
pub open spec fn win_shows(
    entry: WinEntryModel,
    item: ItemModel,
    commands: Option<Map<u16, Seq<char>>>,
) -> bool
    decreases item,
{
    match item {
        ItemModel::Separator { .. } => entry is Separator,
        ItemModel::Submenu { id, label, enabled, role, toggle_type, children, .. } => {
            if children.len() == 0 {
                &&& entry matches WinEntryModel::Item { flags, command, label: text }
                &&& text == wide(label)
                &&& flags & MF_CHECKED != 0 <==> (toggle_type == Some(
                    TrayToggleType::Checkbox(true),
                ) || toggle_type == Some(TrayToggleType::Radio(true)))
                &&& flags & MF_DISABLED != 0 <==> !enabled
                &&& flags & !(MF_CHECKED | MF_DISABLED) == 0
                &&& if enabled && role == TrayMenuItemRole::Standard && id is Some {
                    &&& command != 0
                    &&& commands matches Some(commands) ==> commands.contains_pair(command, id->0)
                } else {
                    command == 0
                }
            } else {
                &&& entry matches WinEntryModel::Popup { flags, label: text, entries }
                &&& text == wide(label)
                &&& flags & MF_POPUP != 0
                &&& flags & MF_DISABLED != 0 <==> !enabled
                &&& flags & !(MF_POPUP | MF_DISABLED) == 0
                &&& win_shows_all(entries, children, commands)
            }
        },
    }
}

/// Whether the entries show those of the items that are visible, in order, and nothing else.
pub open spec fn win_shows_all(
    entries: Seq<WinEntryModel>,
    items: Seq<ItemModel>,
    commands: Option<Map<u16, Seq<char>>>,
) -> bool
    decreases items,
{
    if items.len() == 0 {
        entries.len() == 0
    } else if is_visible(items.last()) {
        &&& entries.len() > 0
        &&& win_shows(entries.last(), items.last(), commands)
        &&& win_shows_all(entries.drop_last(), items.drop_last(), commands)
    } else {
        win_shows_all(entries, items.drop_last(), commands)
    }
}

/// Whether the tags from `n + 1` on stand for the ids.
spec fn tags_hold(tags: Option<Map<i64, Seq<char>>>, ids: Seq<Seq<char>>, n: nat) -> bool {
    tags matches Some(tags) ==> {
        &&& n + ids.len() <= i64::MAX
        &&& forall|j: int|
            0 <= j < ids.len() ==> tags.contains_pair((n + 1 + j) as i64, #[trigger] ids[j])
    }
}

proof fn lemma_mac_item_shows(item: ItemModel, n: nat, tags: Option<Map<i64, Seq<char>>>)
    requires
        tags_hold(tags, item_clickables(item), n),
    ensures
        !is_visible(item) ==> mac_item_entries(item, n).len() == 0,
        is_visible(item) ==> mac_item_entries(item, n).len() == 1 && mac_shows(
            mac_item_entries(item, n)[0],
            item,
            tags,
        ),
    decreases item,
{
    match item {
        ItemModel::Separator { .. } => {},
        ItemModel::Submenu { visible, children, .. } => {
            if visible && children.len() > 0 {
                lemma_mac_shows_all(children, n, tags);
            } else if visible && item.event_id() is Some {
                assert(item_clickables(item)[0] == item.event_id()->0);
            }
        },
    }
}

proof fn lemma_mac_shows_all(items: Seq<ItemModel>, n: nat, tags: Option<Map<i64, Seq<char>>>)
    requires
        tags_hold(tags, clickables(items), n),
    ensures
        mac_shows_all(mac_entries(items, n), items, tags),
    decreases items,
{
    if items.len() > 0 {
        let init = items.drop_last();
        let m = n + clickables(init).len();
        let own = item_clickables(items.last());
        assert(clickables(items) == clickables(init) + own);
        if tags is Some {
            assert forall|j: int| 0 <= j < clickables(init).len() implies tags->0.contains_pair(
                (n + 1 + j) as i64,
                #[trigger] clickables(init)[j],
            ) by {
                assert(clickables(items)[j] == clickables(init)[j]);
            }
            assert forall|j: int| 0 <= j < own.len() implies tags->0.contains_pair(
                (m + 1 + j) as i64,
                #[trigger] own[j],
            ) by {
                assert(clickables(items)[clickables(init).len() + j] == own[j]);
            }
        }
        lemma_mac_shows_all(init, n, tags);
        lemma_mac_item_shows(items.last(), m, tags);
        let entries = mac_entries(items, n);
        let last = mac_item_entries(items.last(), m);
        assert(entries == mac_entries(init, n) + last);
        if is_visible(items.last()) {
            assert(entries.drop_last() =~= mac_entries(init, n));
            assert(entries.last() == last[0]);
        } else {
            assert(entries =~= mac_entries(init, n));
        }
    }
}

/// The macOS menu of any items shows them: every visible item, whether it can be clicked or not
/// and whether it has children or not, with its label, its mark and its state, in the order in
/// which the items are written, and nothing else; a click on an entry reports the id of the very
/// item that it shows.
pub proof fn law_mac_menus_show_their_items(items: Seq<ItemModel>)
    requires
        clickables(items).len() < i64::MAX,
    ensures
        mac_shows_all(
            mac_entries(items, 0),
            items,
            Some(tagged(Map::empty(), clickables(items), 0)),
        ),
{
    law_tags_stand_for_their_items(items);
    let tags = tagged(Map::empty(), clickables(items), 0);
    assert forall|j: int| 0 <= j < clickables(items).len() implies tags.contains_pair(
        (0 + 1 + j) as i64,
        #[trigger] clickables(items)[j],
    ) by {
        let t = (1 + j) as i64;
        assert(tags.contains_key(t));
        assert(tags[t] == clickables(items)[t - 1]);
    }
    lemma_mac_shows_all(items, 0, Some(tags));
}

/// Whether the commands from that of the `n`-th item on stand for the ids.
spec fn commands_hold(
    commands: Option<Map<u16, Seq<char>>>,
    ids: Seq<Seq<char>>,
    n: nat,
) -> bool {
    commands matches Some(commands) ==> forall|j: int|
        0 <= j < ids.len() ==> commands.contains_pair(
            command_at((n + j) as nat),
            #[trigger] ids[j],
        )
}

/// What the flags of entries hold.
proof fn lemma_flags(checked: bool, enabled: bool)
    ensures
        item_flags(checked, enabled) & MF_CHECKED != 0 <==> checked,
        item_flags(checked, enabled) & MF_DISABLED != 0 <==> !enabled,
        item_flags(checked, enabled) & !(MF_CHECKED | MF_DISABLED) == 0,
        popup_flags(enabled) & MF_POPUP != 0,
        popup_flags(enabled) & MF_DISABLED != 0 <==> !enabled,
        popup_flags(enabled) & !(MF_POPUP | MF_DISABLED) == 0,
{
    assert(0u32 & 8 == 0 && 2u32 & 8 == 0 && 8u32 & 8 == 8 && 10u32 & 8 == 8) by (bit_vector);
    assert(0u32 & 2 == 0 && 2u32 & 2 == 2 && 8u32 & 2 == 0 && 10u32 & 2 == 2) by (bit_vector);
    assert(0u32 & !(8u32 | 2) == 0 && 2u32 & !(8u32 | 2) == 0 && 8u32 & !(8u32 | 2) == 0 && 10u32
        & !(8u32 | 2) == 0) by (bit_vector);
    assert(0x10u32 & 0x10 == 0x10 && 0x12u32 & 0x10 == 0x10 && 0x10u32 & 2 == 0 && 0x12u32 & 2 == 2)
        by (bit_vector);
    assert(0x10u32 & !(0x10u32 | 2) == 0 && 0x12u32 & !(0x10u32 | 2) == 0) by (bit_vector);
}

proof fn lemma_win_item_shows(item: ItemModel, n: nat, commands: Option<Map<u16, Seq<char>>>)
    requires
        commands_hold(commands, item_clickables(item), n),
    ensures
        !is_visible(item) ==> win_item_entries(item, n).len() == 0,
        is_visible(item) ==> win_item_entries(item, n).len() == 1 && win_shows(
            win_item_entries(item, n)[0],
            item,
            commands,
        ),
    decreases item,
{
    match item {
        ItemModel::Separator { .. } => {},
        ItemModel::Submenu { visible, children, enabled, toggle_type, .. } => {
            lemma_flags(is_checked(toggle_type), enabled);
            if visible && children.len() > 0 {
                lemma_win_shows_all(children, n, commands);
            } else if visible && item.event_id() is Some {
                assert(item_clickables(item)[0] == item.event_id()->0);
            }
        },
    }
}

proof fn lemma_win_shows_all(
    items: Seq<ItemModel>,
    n: nat,
    commands: Option<Map<u16, Seq<char>>>,
)
    requires
        commands_hold(commands, clickables(items), n),
    ensures
        win_shows_all(win_entries(items, n), items, commands),
    decreases items,
{
    if items.len() > 0 {
        let init = items.drop_last();
        let m = n + clickables(init).len();
        let own = item_clickables(items.last());
        assert(clickables(items) == clickables(init) + own);
        if commands is Some {
            assert forall|j: int| 0 <= j < clickables(init).len() implies commands->0.contains_pair(
                command_at((n + j) as nat),
                #[trigger] clickables(init)[j],
            ) by {
                assert(clickables(items)[j] == clickables(init)[j]);
            }
            assert forall|j: int| 0 <= j < own.len() implies commands->0.contains_pair(
                command_at((m + j) as nat),
                #[trigger] own[j],
            ) by {
                assert(clickables(items)[clickables(init).len() + j] == own[j]);
            }
        }
        lemma_win_shows_all(init, n, commands);
        lemma_win_item_shows(items.last(), m, commands);
        let entries = win_entries(items, n);
        let last = win_item_entries(items.last(), m);
        assert(entries == win_entries(init, n) + last);
        if is_visible(items.last()) {
            assert(entries.drop_last() =~= win_entries(init, n));
            assert(entries.last() == last[0]);
        } else {
            assert(entries =~= win_entries(init, n));
        }
    }
}

/// The Windows menu of any items shows them, as long as there are commands for all that can be
/// clicked: every visible item, whether it can be clicked or not and whether it has children or
/// not, with its label and with flags for its mark and its state, in the order in which the items
/// are written, and nothing else; a click on an entry reports the id of the very item that it
/// shows.
pub proof fn law_win_menus_show_their_items(items: Seq<ItemModel>)
    requires
        clickables(items).len() <= 64536,
    ensures
        win_shows_all(
            win_entries(items, 0),
            items,
            Some(commanded(Map::empty(), clickables(items), 0)),
        ),
{
    law_commands_stand_for_their_items(items);
    let commands = commanded(Map::empty(), clickables(items), 0);
    assert forall|j: int| 0 <= j < clickables(items).len() implies commands.contains_pair(
        command_at((0 + j) as nat),
        #[trigger] clickables(items)[j],
    ) by {
        let c = command_at(j as nat);
        assert(c == 1000 + j);
        assert(commands.contains_key(c));
        assert(commands[c] == clickables(items)[c - 1000]);
    }
    lemma_win_shows_all(items, 0, Some(commands));
}

/// Menus show their items whatever stands before them and however many items can be clicked.
pub proof fn law_menus_show_their_items_anywhere(items: Seq<ItemModel>, n: nat)
    ensures
        mac_shows_all(mac_entries(items, n), items, None),
        win_shows_all(win_entries(items, n), items, None),
{
    lemma_mac_shows_all(items, n, None);
    lemma_win_shows_all(items, n, None);
}

/// The tags of an entry and of the entries below it, in order.
pub open spec fn entry_tags(entry: MacEntryModel) -> Seq<int>
    decreases entry,
{
    match entry {
        MacEntryModel::Separator => Seq::empty(),
        MacEntryModel::Item { tag, .. } => match tag {
            Some(tag) => seq![tag],
            None => Seq::empty(),
        },
        MacEntryModel::Submenu { entries, .. } => entries_tags(entries),
    }
}

/// The tags of the entries and of those below them, in order.
pub open spec fn entries_tags(entries: Seq<MacEntryModel>) -> Seq<int>
    decreases entries,
{
    if entries.len() == 0 {
        Seq::empty()
    } else {
        entries_tags(entries.drop_last()) + entry_tags(entries.last())
    }
}

/// The commands of an entry and of the entries below it, in order.
pub open spec fn entry_commands(entry: WinEntryModel) -> Seq<u16>
    decreases entry,
{
    match entry {
        WinEntryModel::Separator => Seq::empty(),
        WinEntryModel::Item { command, .. } => if command == 0 {
            Seq::empty()
        } else {
            seq![command]
        },
        WinEntryModel::Popup { entries, .. } => entries_commands(entries),
    }
}

/// The commands of the entries and of those below them, in order.
pub open spec fn entries_commands(entries: Seq<WinEntryModel>) -> Seq<u16>
    decreases entries,
{
    if entries.len() == 0 {
        Seq::empty()
    } else {
        entries_commands(entries.drop_last()) + entry_commands(entries.last())
    }
}

proof fn lemma_item_numbers(item: ItemModel, n: nat)
    ensures
        ({
            let count = item_clickables(item).len();
            &&& entries_tags(mac_item_entries(item, n)) == Seq::new(count, |i: int| n + 1 + i)
            &&& entries_commands(win_item_entries(item, n)) == Seq::new(
                count,
                |i: int| command_at((n + i) as nat),
            )
        }),
    decreases item,
{
    let mac = mac_item_entries(item, n);
    let win = win_item_entries(item, n);
    let count = item_clickables(item).len();
    if mac.len() > 0 {
        assert(mac.drop_last() =~= Seq::empty());
        assert(win.drop_last() =~= Seq::empty());
        assert(entries_tags(mac.drop_last()) =~= Seq::empty());
        assert(entries_commands(win.drop_last()) =~= Seq::empty());
        let entry = mac[0];
        let other = win[0];
        match item {
            ItemModel::Separator { .. } => {
                assert(entry_tags(entry) =~= Seq::empty());
                assert(entry_commands(other) =~= Seq::empty());
            },
            ItemModel::Submenu { children, .. } => {
                if children.len() > 0 {
                    lemma_numbers(children, n);
                    assert(entry_tags(entry) == entries_tags(mac_entries(children, n)));
                    assert(entry_commands(other) == entries_commands(win_entries(children, n)));
                } else {
                    assert(entry_tags(entry) =~= Seq::new(count, |i: int| n + 1 + i));
                    assert(entry_commands(other) =~= Seq::new(
                        count,
                        |i: int| command_at((n + i) as nat),
                    ));
                }
            },
        }
        assert(entries_tags(mac) =~= entry_tags(entry));
        assert(entries_commands(win) =~= entry_commands(other));
    }
    assert(entries_tags(mac) =~= Seq::new(count, |i: int| n + 1 + i));
    assert(entries_commands(win) =~= Seq::new(count, |i: int| command_at((n + i) as nat)));
}

proof fn lemma_numbers(items: Seq<ItemModel>, n: nat)
    ensures
        ({
            let count = clickables(items).len();
            &&& entries_tags(mac_entries(items, n)) == Seq::new(count, |i: int| n + 1 + i)
            &&& entries_commands(win_entries(items, n)) == Seq::new(
                count,
                |i: int| command_at((n + i) as nat),
            )
        }),
    decreases items,
{
    let count = clickables(items).len();
    let mac = mac_entries(items, n);
    let win = win_entries(items, n);
    if items.len() > 0 {
        let init = items.drop_last();
        let m = n + clickables(init).len();
        lemma_numbers(init, n);
        lemma_item_numbers(items.last(), m);
        lemma_tags_concat(mac_entries(init, n), mac_item_entries(items.last(), m));
        lemma_commands_concat(win_entries(init, n), win_item_entries(items.last(), m));
    }
    assert(entries_tags(mac) =~= Seq::new(count, |i: int| n + 1 + i));
    assert(entries_commands(win) =~= Seq::new(count, |i: int| command_at((n + i) as nat)));
}

proof fn lemma_tags_concat(a: Seq<MacEntryModel>, b: Seq<MacEntryModel>)
    ensures
        entries_tags(a + b) == entries_tags(a) + entries_tags(b),
    decreases b.len(),
{
    if b.len() == 0 {
        assert(a + b =~= a);
        assert(entries_tags(a) + entries_tags(b) =~= entries_tags(a));
    } else {
        lemma_tags_concat(a, b.drop_last());
        assert((a + b).drop_last() =~= a + b.drop_last());
        assert(entries_tags(a + b) =~= entries_tags(a) + entries_tags(b));
    }
}

proof fn lemma_commands_concat(a: Seq<WinEntryModel>, b: Seq<WinEntryModel>)
    ensures
        entries_commands(a + b) == entries_commands(a) + entries_commands(b),
    decreases b.len(),
{
    if b.len() == 0 {
        assert(a + b =~= a);
        assert(entries_commands(a) + entries_commands(b) =~= entries_commands(a));
    } else {
        lemma_commands_concat(a, b.drop_last());
        assert((a + b).drop_last() =~= a + b.drop_last());
        assert(entries_commands(a + b) =~= entries_commands(a) + entries_commands(b));
    }
}

/// The tags and the commands of a menu follow the order in which its items are written, without
/// gaps, at every level: the tags are 1, 2 and so on, and the commands are one after the other,
/// one for each item that can be clicked.
pub proof fn law_numbers_follow_the_items(items: Seq<ItemModel>, i: int)
    ensures
        entries_tags(mac_entries(items, 0)).len() == clickables(items).len(),
        entries_commands(win_entries(items, 0)).len() == clickables(items).len(),
        0 <= i < clickables(items).len() ==> entries_tags(mac_entries(items, 0))[i] == i + 1,
        0 <= i < clickables(items).len() ==> entries_commands(win_entries(items, 0))[i]
            == command_at(i as nat),
{
    lemma_numbers(items, 0);
}

/// What an item's entry on Windows looks like does not hang on how many items can be clicked:
/// its label and its flags are those of the item, for every toggle and every state.
pub proof fn law_win_entries_say_what_their_items_are(item: ItemModel, n: nat)
    requires
        item is Submenu,
        is_visible(item),
    ensures
        win_item_entries(item, n).len() == 1,
        item->children.len() == 0 ==> {
            &&& win_item_entries(item, n)[0] matches WinEntryModel::Item { flags, label, command }
            &&& label == wide(item->Submenu_label)
            &&& flags & MF_CHECKED != 0 <==> (item->toggle_type == Some(
                TrayToggleType::Checkbox(true),
            ) || item->toggle_type == Some(TrayToggleType::Radio(true)))
            &&& flags & MF_DISABLED != 0 <==> !item->enabled
            &&& flags & !(MF_CHECKED | MF_DISABLED) == 0
            &&& command != 0 <==> (item->enabled && item->role == TrayMenuItemRole::Standard
                && item->id is Some)
        },
        item->children.len() > 0 ==> {
            &&& win_item_entries(item, n)[0] matches WinEntryModel::Popup { flags, label, entries }
            &&& label == wide(item->Submenu_label)
            &&& flags & MF_POPUP != 0
            &&& flags & MF_DISABLED != 0 <==> !item->enabled
            &&& flags & !(MF_POPUP | MF_DISABLED) == 0
        },
{
    lemma_flags(is_checked(item->toggle_type), item->enabled);
}

/// The models of entries are the entries, in order.
pub proof fn law_mac_entry_models_are_the_entries(entries: Seq<MacMenuEntry>, i: int)
    requires
        0 <= i < entries.len(),
    ensures
        mac_entry_models(entries).len() == entries.len(),
        match entries[i] {
            MacMenuEntry::Separator => mac_entry_models(entries)[i] is Separator,
            MacMenuEntry::Item { title, tag, checked, enabled } => mac_entry_models(entries)[i]
                matches MacEntryModel::Item { title: t, tag: g, checked: c, enabled: e } && t
                == title@ && c == checked && e == enabled && (g is Some) == (tag is Some) && (tag
                is Some ==> g->0 == tag->0),
            MacMenuEntry::Submenu { title, enabled, entries: below } => mac_entry_models(
                entries,
            )[i] matches MacEntryModel::Submenu { title: t, enabled: e, entries: b } && t == title@
                && e == enabled && b == mac_entry_models(below@),
        },
    decreases entries.len(),
{
    if i + 1 < entries.len() {
        law_mac_entry_models_are_the_entries(entries.drop_last(), i);
        assert(mac_entry_models(entries)[i] == mac_entry_models(entries.drop_last())[i]);
    } else {
        if entries.len() > 1 {
            law_mac_entry_models_are_the_entries(entries.drop_last(), 0);
        } else {
            assert(mac_entry_models(entries.drop_last()) =~= Seq::empty());
        }
        let model = entries.last().model();
        assert(mac_entry_models(entries)[i] == model);
        reveal_with_fuel(MacMenuEntry::model, 2);
    }
}

/// The models of entries are the entries, in order.
pub proof fn law_win_entry_models_are_the_entries(entries: Seq<WinMenuEntry>, i: int)
    requires
        0 <= i < entries.len(),
    ensures
        win_entry_models(entries).len() == entries.len(),
        match entries[i] {
            WinMenuEntry::Separator => win_entry_models(entries)[i] is Separator,
            WinMenuEntry::Item { flags, command, label } => win_entry_models(entries)[i] matches
                WinEntryModel::Item { flags: f, command: c, label: l } && f == flags && c == command
                && l == label@,
            WinMenuEntry::Popup { flags, label, entries: below } => win_entry_models(
                entries,
            )[i] matches WinEntryModel::Popup { flags: f, label: l, entries: b } && f == flags && l
                == label@ && b == win_entry_models(below@),
        },
    decreases entries.len(),
{
    if i + 1 < entries.len() {
        law_win_entry_models_are_the_entries(entries.drop_last(), i);
        assert(win_entry_models(entries)[i] == win_entry_models(entries.drop_last())[i]);
    } else {
        if entries.len() > 1 {
            law_win_entry_models_are_the_entries(entries.drop_last(), 0);
        } else {
            assert(win_entry_models(entries.drop_last()) =~= Seq::empty());
        }
        let model = entries.last().model();
        assert(win_entry_models(entries)[i] == model);
        reveal_with_fuel(WinMenuEntry::model, 2);
    }
}

} // verus!
