//! The tray as Windows shows it: wide texts, window messages, the notification icon and the
//! menu.

use std::collections::HashMap;

use vstd::arithmetic::div_mod::{lemma_fundamental_div_mod, lemma_fundamental_div_mod_converse};
use vstd::prelude::*;

use crate::click::{opt_event, EventModel, Gesture, TrayEvent};
use crate::error::TrayError;
use crate::menu_item::{item_models, lemma_item_models, ItemModel, TrayMenuItem};
use crate::native_menu::{
    checked_of, clickables, is_checked, item_clickables, lemma_clickables_take,
};
use crate::state::TrayState;
use crate::text::chars_of;

verus! {

/// The UTF-16 units of a character: one, or a surrogate pair.
pub open spec fn char_units(c: char) -> Seq<u16> {
    let v = c as u32;
    if v < 0x10000 {
        seq![v as u16]
    } else {
        seq![
            (0xd800 + (v - 0x10000) / 0x400) as u16,
            (0xdc00 + (v - 0x10000) % 0x400) as u16,
        ]
    }
}

/// The UTF-16 units of a text.
pub open spec fn utf16(s: Seq<char>) -> Seq<u16>
    decreases s.len(),
{
    if s.len() == 0 {
        Seq::empty()
    } else {
        utf16(s.drop_last()) + char_units(s.last())
    }
}

/// A text as the window system takes it: its UTF-16 units and a zero.
pub open spec fn wide(s: Seq<char>) -> Seq<u16> {
    utf16(s).push(0)
}

/// A text as the window system takes it.
pub fn to_wide_null(text: &str) -> (units: Vec<u16>)
    ensures
        units@ == wide(text@),
{
    let chars = chars_of(text);
    let mut units: Vec<u16> = Vec::new();
    for i in 0..chars.len()
        invariant
            chars@ == text@,
            units@ == utf16(text@.take(i as int)),
    {
        let c: char = chars[i];
        let v: u32 = c as u32;
        let ghost before = units@;
        assert(text@.take(i + 1).drop_last() =~= text@.take(i as int));
        if v < 0x10000 {
            units.push(v as u16);
        } else {
            let rest: u32 = v - 0x10000;
            units.push((0xd800 + rest / 0x400) as u16);
            units.push((0xdc00 + rest % 0x400) as u16);
        }
        assert(units@ =~= before + char_units(c));
    }
    assert(text@.take(chars.len() as int) =~= text@);
    units.push(0);
    units
}

/// The name of the class of the tray's hidden window.
pub fn class_name() -> (name: Vec<u16>)
    ensures
        name@ == wide("GpuiTrayHiddenWindow"@),
{
    to_wide_null("GpuiTrayHiddenWindow")
}

/// What a buffer of `capacity` units holds of a tooltip: as many of its units as leave room for
/// a zero, and zeros from there on.
pub open spec fn tip_units(tooltip: Seq<char>, capacity: nat) -> Seq<u16> {
    Seq::new(
        capacity,
        |i: int|
            if i < utf16(tooltip).len() && i < capacity - 1 {
                utf16(tooltip)[i]
            } else {
                0u16
            },
    )
}

/// The tooltip of the notification icon, in a buffer of `capacity` units.
pub fn notify_tip(tooltip: &str, capacity: usize) -> (tip: Vec<u16>)
    requires
        0 < capacity,
    ensures
        tip@ == tip_units(tooltip@, capacity as nat),
{
    let units = to_wide_null(tooltip);
    let mut tip: Vec<u16> = Vec::new();
    for i in 0..capacity
        invariant
            units@ == wide(tooltip@),
            tip@ == Seq::new(
                i as nat,
                |j: int|
                    if j < utf16(tooltip@).len() && j < capacity - 1 {
                        utf16(tooltip@)[j]
                    } else {
                        0u16
                    },
            ),
    {
        let ghost before = tip@;
        if i < units.len() - 1 && i < capacity - 1 {
            tip.push(units[i]);
        } else {
            tip.push(0);
        }
        assert(tip@ =~= before.push(tip@.last()));
    }
    tip
}

/// The messages of windows, as far as the tray uses them.
pub const WM_NULL: u32 = 0x0000;

pub const WM_CREATE: u32 = 0x0001;

pub const WM_DESTROY: u32 = 0x0002;

pub const WM_CONTEXTMENU: u32 = 0x007b;

pub const WM_COMMAND: u32 = 0x0111;

pub const WM_LBUTTONUP: u32 = 0x0202;

pub const WM_LBUTTONDBLCLK: u32 = 0x0203;

pub const WM_RBUTTONUP: u32 = 0x0205;

pub const NIN_SELECT: u32 = 0x0400;

/// The message by which the notification icon reports. It has to lie between `WM_USER` and
/// 0x7fff.
pub const TRAY_CALLBACK_MESSAGE: u32 = 0x0401;

/// The message by which the tray's window tells itself of a click.
pub const WM_TRAY_OPEN_MENU: u32 = 0x0402;

/// The codes of the clicks that the tray's window tells itself of.
pub const TRAY_CLICK_LEFT_SINGLE: usize = 0;

pub const TRAY_CLICK_RIGHT_SINGLE: usize = 1;

pub const TRAY_CLICK_LEFT_DOUBLE: usize = 2;

/// The code of the click that the notification icon reports with `event`.
pub open spec fn click_code(event: int) -> Option<usize> {
    if event == WM_RBUTTONUP || event == WM_CONTEXTMENU {
        Some(TRAY_CLICK_RIGHT_SINGLE)
    } else if event == WM_LBUTTONUP || event == NIN_SELECT {
        Some(TRAY_CLICK_LEFT_SINGLE)
    } else if event == WM_LBUTTONDBLCLK {
        Some(TRAY_CLICK_LEFT_DOUBLE)
    } else {
        None
    }
}

/// What the tray's window does about a message.
#[derive(Clone, Copy, Debug, PartialEq, Eq, Structural)]
pub enum WindowAction {
    /// Remember the tray that the window is created for.
    KeepUserData,
    /// Tell itself of the click with this code.
    PostClick(usize),
    /// Handle the click with this code.
    HandleClick(usize),
    /// Report the click on the menu entry with this command.
    Command(u16),
    /// Nothing.
    Nothing,
    /// What windows do by default.
    Default,
}

/// What the tray's window does about a message. What the notification icon reports, and the
/// command of a menu entry, stand in the low 16 bits of a parameter.
pub open spec fn window_action(message: u32, wparam: usize, lparam: isize) -> WindowAction {
    if message == WM_CREATE {
        WindowAction::KeepUserData
    } else if message == TRAY_CALLBACK_MESSAGE {
        match click_code(lparam as int % 0x10000) {
            Some(code) => WindowAction::PostClick(code),
            None => WindowAction::Nothing,
        }
    } else if message == WM_TRAY_OPEN_MENU {
        WindowAction::HandleClick(wparam)
    } else if message == WM_COMMAND {
        WindowAction::Command((wparam % 0x10000) as u16)
    } else if message == WM_DESTROY {
        WindowAction::Nothing
    } else {
        WindowAction::Default
    }
}

/// What the tray's window does about a message.
pub fn wndproc(message: u32, wparam: usize, lparam: isize) -> (action: WindowAction)
    ensures
        action == window_action(message, wparam, lparam),
{
    if message == WM_CREATE {
        WindowAction::KeepUserData
    } else if message == TRAY_CALLBACK_MESSAGE {
        let event: u32 = (lparam as u32) & 0xffff;
        assert(event == lparam as int % 0x10000) by {
            assert((lparam as u32) & 0xffff == lparam as int % 0x10000) by (bit_vector);
        }
        if event == WM_RBUTTONUP || event == WM_CONTEXTMENU {
            WindowAction::PostClick(TRAY_CLICK_RIGHT_SINGLE)
        } else if event == WM_LBUTTONUP || event == NIN_SELECT {
            WindowAction::PostClick(TRAY_CLICK_LEFT_SINGLE)
        } else if event == WM_LBUTTONDBLCLK {
            WindowAction::PostClick(TRAY_CLICK_LEFT_DOUBLE)
        } else {
            WindowAction::Nothing
        }
    } else if message == WM_TRAY_OPEN_MENU {
        WindowAction::HandleClick(wparam)
    } else if message == WM_COMMAND {
        assert(wparam & 0xffff == wparam % 0x10000) by (bit_vector);
        WindowAction::Command((wparam & 0xffff) as u16)
    } else if message == WM_DESTROY {
        WindowAction::Nothing
    } else {
        WindowAction::Default
    }
}

/// The click with this code.
pub open spec fn code_gesture(code: usize) -> Option<Gesture> {
    if code == TRAY_CLICK_LEFT_SINGLE {
        Some(Gesture::LeftSingle)
    } else if code == TRAY_CLICK_RIGHT_SINGLE {
        Some(Gesture::RightSingle)
    } else if code == TRAY_CLICK_LEFT_DOUBLE {
        Some(Gesture::LeftDouble)
    } else {
        None
    }
}

/// The click with this code.
pub fn gesture_of_code(code: usize) -> (gesture: Option<Gesture>)
    ensures
        gesture == code_gesture(code),
{
    if code == TRAY_CLICK_LEFT_SINGLE {
        Some(Gesture::LeftSingle)
    } else if code == TRAY_CLICK_RIGHT_SINGLE {
        Some(Gesture::RightSingle)
    } else if code == TRAY_CLICK_LEFT_DOUBLE {
        Some(Gesture::LeftDouble)
    } else {
        None
    }
}

/// Every click that the notification icon reports is one that the tray knows.
pub proof fn law_reported_clicks_are_known(event: int)
    ensures
        click_code(event) matches Some(code) ==> code_gesture(code) is Some,
{
}

/// What is asked of the shell about the notification icon.
#[derive(Clone, Copy, Debug, PartialEq, Eq, Structural)]
pub enum NotifyOp {
    Add,
    Modify,
    Delete,
}

/// The notification icon: whether the shell has it.
pub struct NotifyIcon {
    pub added: bool,
}

/// Whether the shell has to be asked: to add an icon that it has not, to change or remove one
/// that it has.
pub open spec fn has_to_ask(added: bool, op: NotifyOp) -> bool {
    if op == NotifyOp::Add {
        !added
    } else {
        added
    }
}

/// The error of a refusal.
pub open spec fn notify_error(op: NotifyOp) -> TrayError {
    match op {
        NotifyOp::Add => TrayError::NotifyAddFailed,
        NotifyOp::Modify => TrayError::NotifyModifyFailed,
        NotifyOp::Delete => TrayError::NotifyDeleteFailed,
    }
}

/// What becomes of an answer of the shell.
pub open spec fn notify_result(op: NotifyOp, ok: bool) -> Result<(), TrayError> {
    if ok {
        Ok(())
    } else {
        Err(notify_error(op))
    }
}

/// Whether the shell has the icon after its answer.
pub open spec fn notify_after(added: bool, op: NotifyOp, ok: bool) -> bool {
    if !ok {
        added
    } else {
        match op {
            NotifyOp::Add => true,
            NotifyOp::Modify => added,
            NotifyOp::Delete => false,
        }
    }
}

impl NotifyIcon {
    /// An icon that the shell has not.
    pub fn new() -> (icon: Self)
        ensures
            !icon.added,
    {
        NotifyIcon { added: false }
    }

    /// Whether the shell has to be asked.
    pub fn needs(&self, op: NotifyOp) -> (ask: bool)
        ensures
            ask == has_to_ask(self.added, op),
    {
        match op {
            NotifyOp::Add => !self.added,
            NotifyOp::Modify | NotifyOp::Delete => self.added,
        }
    }

    /// Takes note of the shell's answer.
    pub fn answered(&mut self, op: NotifyOp, ok: bool) -> (res: Result<(), TrayError>)
        ensures
            res == if ok {
                Ok::<(), TrayError>(())
            } else {
                Err::<(), TrayError>(notify_error(op))
            },
            final(self).added == if ok && op == NotifyOp::Add {
                true
            } else if ok && op == NotifyOp::Delete {
                false
            } else {
                old(self).added
            },
            res == notify_result(op, ok),
            final(self).added == notify_after(old(self).added, op, ok),
    {
        if !ok {
            return match op {
                NotifyOp::Add => Err(TrayError::NotifyAddFailed),
                NotifyOp::Modify => Err(TrayError::NotifyModifyFailed),
                NotifyOp::Delete => Err(TrayError::NotifyDeleteFailed),
            };
        }
        match op {
            NotifyOp::Add => {
                self.added = true;
            },
            NotifyOp::Modify => {},
            NotifyOp::Delete => {
                self.added = false;
            },
        }
        Ok(())
    }
}

/// The icon handle that the tray shows: whether there is one, and whether it is the tray's to
/// destroy.
pub struct IconHandle {
    pub present: bool,
    pub owned: bool,
}

impl IconHandle {
    /// No icon handle.
    pub fn new() -> (handle: Self)
        ensures
            !handle.present,
            !handle.owned,
    {
        IconHandle { present: false, owned: false }
    }

    /// Shows a new icon of the tray's own, or none. Returns whether the one before is to be
    /// destroyed.
    pub fn set_icon(&mut self, created: bool) -> (destroy: bool)
        ensures
            destroy == (old(self).present && old(self).owned),
            final(self).present == created,
            final(self).owned == created,
    {
        let destroy: bool = self.owned && self.present;
        self.present = created;
        self.owned = created;
        destroy
    }
}

/// A step by which the native tray takes over a state.
#[derive(Clone, Copy, Debug, PartialEq, Eq, Structural)]
pub enum ApplyStep {
    SetClickPolicy,
    RebuildMenu,
    SetIcon,
    AddIcon,
    ModifyIcon,
    DeleteIcon,
}

/// The steps by which the native tray takes over a state, in order. The first one that fails
/// ends them.
pub open spec fn apply_order(visible: bool) -> Seq<ApplyStep> {
    if visible {
        seq![
            ApplyStep::SetClickPolicy,
            ApplyStep::RebuildMenu,
            ApplyStep::SetIcon,
            ApplyStep::AddIcon,
            ApplyStep::ModifyIcon,
        ]
    } else {
        seq![ApplyStep::SetClickPolicy, ApplyStep::RebuildMenu, ApplyStep::DeleteIcon]
    }
}

/// The steps by which the native tray takes over a state, in order.
pub fn apply_steps(state: &TrayState) -> (steps: Vec<ApplyStep>)
    ensures
        steps@ == apply_order(state@.visible),
{
    let mut steps: Vec<ApplyStep> = Vec::new();
    steps.push(ApplyStep::SetClickPolicy);
    steps.push(ApplyStep::RebuildMenu);
    if state.visible {
        steps.push(ApplyStep::SetIcon);
        steps.push(ApplyStep::AddIcon);
        steps.push(ApplyStep::ModifyIcon);
    } else {
        steps.push(ApplyStep::DeleteIcon);
    }
    steps
}

/// A message that the tray's window posts to itself.
#[derive(Clone, Copy, Debug, PartialEq, Eq, Structural)]
pub struct PostedMessage {
    pub message: u32,
    pub wparam: usize,
}

/// What the tray's window posts to itself after its menu was open.
pub open spec fn closing_posts(command: i32) -> Seq<PostedMessage> {
    let end = PostedMessage { message: WM_NULL, wparam: 0 };
    if command == 0 {
        seq![end]
    } else {
        seq![PostedMessage { message: WM_COMMAND, wparam: command as usize }, end]
    }
}

/// What the tray's window posts to itself after its menu was open, where `command` is the
/// command of the entry that was chosen, or 0: the command, and a message that does nothing.
pub fn menu_closed(command: i32) -> (posts: Vec<PostedMessage>)
    ensures
        posts@ == if command != 0 {
            seq![
                PostedMessage { message: WM_COMMAND, wparam: command as usize },
                PostedMessage { message: WM_NULL, wparam: 0 },
            ]
        } else {
            seq![PostedMessage { message: WM_NULL, wparam: 0 }]
        },
        posts@ == closing_posts(command),
{
    let mut posts: Vec<PostedMessage> = Vec::new();
    if command != 0 {
        posts.push(PostedMessage { message: WM_COMMAND, wparam: command as usize });
    }
    posts.push(PostedMessage { message: WM_NULL, wparam: 0 });
    posts
}

/// The command of the entry that was chosen comes back to the tray's window as it was.
pub proof fn law_chosen_commands_come_back(command: u16, lparam: isize)
    ensures
        window_action(WM_COMMAND, command as i32 as usize, lparam) == WindowAction::Command(
            command,
        ),
{
}

/// Flags of menu entries.
pub const MF_STRING: u32 = 0x0000;

pub const MF_UNCHECKED: u32 = 0x0000;

pub const MF_DISABLED: u32 = 0x0002;

pub const MF_CHECKED: u32 = 0x0008;

pub const MF_POPUP: u32 = 0x0010;

pub const MF_SEPARATOR: u32 = 0x0800;

/// An entry of a menu.
#[derive(Debug)]
#[allow(inconsistent_fields)]
pub enum WinMenuEntry {
    Separator,
    /// An item; where it cannot be clicked, its command is 0.
    Item { flags: u32, command: u16, label: Vec<u16> },
    Popup { flags: u32, label: Vec<u16>, entries: Vec<WinMenuEntry> },
}

/// An entry as a mathematical value.
#[allow(inconsistent_fields)]
pub enum WinEntryModel {
    Separator,
    Item { flags: u32, command: u16, label: Seq<u16> },
    Popup { flags: u32, label: Seq<u16>, entries: Seq<WinEntryModel> },
}

/// The models of the entries, in order.
pub open spec fn win_entry_models(entries: Seq<WinMenuEntry>) -> Seq<WinEntryModel>
    decreases entries,
{
    if entries.len() == 0 {
        Seq::empty()
    } else {
        win_entry_models(entries.drop_last()).push(entries.last().model())
    }
}

impl WinMenuEntry {
    /// The entry as a mathematical value.
    pub open spec fn model(self) -> WinEntryModel
        decreases self,
    {
        match self {
            WinMenuEntry::Separator => WinEntryModel::Separator,
            WinMenuEntry::Item { flags, command, label } => WinEntryModel::Item {
                flags,
                command,
                label: label@,
            },
            WinMenuEntry::Popup { flags, label, entries } => WinEntryModel::Popup {
                flags,
                label: label@,
                entries: win_entry_models(entries@),
            },
        }
    }
}

/// The number of commands that a menu can tell apart.
pub open spec fn command_count() -> nat {
    64536
}

/// The command of the item before which `n` items can be clicked: commands count from 1000 on,
/// and after the largest one from 1000 on again.
pub open spec fn command_at(n: nat) -> u16 {
    (1000 + n % command_count()) as u16
}

/// The flags of an item.
pub open spec fn item_flags(checked: bool, enabled: bool) -> u32 {
    if checked && enabled {
        MF_CHECKED
    } else if checked {
        (MF_CHECKED + MF_DISABLED) as u32
    } else if enabled {
        MF_STRING
    } else {
        MF_DISABLED
    }
}

/// The flags of a popup.
pub open spec fn popup_flags(enabled: bool) -> u32 {
    if enabled {
        MF_POPUP
    } else {
        (MF_POPUP + MF_DISABLED) as u32
    }
}

/// The entries that an item makes, where `n` items that can be clicked stand before it: none
/// where it is hidden, else one.
pub open spec fn win_item_entries(item: ItemModel, n: nat) -> Seq<WinEntryModel>
    decreases item,
{
    match item {
        ItemModel::Separator { visible, .. } => if visible {
            seq![WinEntryModel::Separator]
        } else {
            Seq::empty()
        },
        ItemModel::Submenu { label, enabled, visible, toggle_type, children, .. } => if !visible {
            Seq::empty()
        } else if children.len() == 0 {
            seq![
                WinEntryModel::Item {
                    flags: item_flags(is_checked(toggle_type), enabled),
                    command: if item.event_id() is Some {
                        command_at(n)
                    } else {
                        0
                    },
                    label: wide(label),
                },
            ]
        } else {
            seq![
                WinEntryModel::Popup {
                    flags: popup_flags(enabled),
                    label: wide(label),
                    entries: win_entries(children, n),
                },
            ]
        },
    }
}

/// The entries that the items make, where `n` items that can be clicked stand before them.
pub open spec fn win_entries(items: Seq<ItemModel>, n: nat) -> Seq<WinEntryModel>
    decreases items,
{
    if items.len() == 0 {
        Seq::empty()
    } else {
        win_entries(items.drop_last(), n) + win_item_entries(
            items.last(),
            n + clickables(items.drop_last()).len(),
        )
    }
}

/// The ids by command.
pub open spec fn command_texts(commands: Map<u16, String>) -> Map<u16, Seq<char>> {
    commands.map_values(|id: String| id@)
}

/// The ids by command, with those of `ids` added under the commands of the items from `n` on;
/// of two ids with one command the later one counts.
pub open spec fn commanded(commands: Map<u16, Seq<char>>, ids: Seq<Seq<char>>, n: nat) -> Map<
    u16,
    Seq<char>,
>
    decreases ids.len(),
{
    if ids.len() == 0 {
        commands
    } else {
        commanded(commands, ids.drop_last(), n).insert(
            command_at((n + ids.len() - 1) as nat),
            ids.last(),
        )
    }
}

proof fn lemma_commanded_concat(
    commands: Map<u16, Seq<char>>,
    a: Seq<Seq<char>>,
    b: Seq<Seq<char>>,
    n: nat,
)
    ensures
        commanded(commands, a + b, n) == commanded(commanded(commands, a, n), b, n + a.len()),
    decreases b.len(),
{
    if b.len() == 0 {
        assert(a + b =~= a);
    } else {
        lemma_commanded_concat(commands, a, b.drop_last(), n);
        assert((a + b).drop_last() =~= a + b.drop_last());
    }
}

/// One more entry at the end.
proof fn lemma_win_entries_push(entries: Seq<WinMenuEntry>, entry: WinMenuEntry)
    ensures
        win_entry_models(entries.push(entry)) == win_entry_models(entries) + seq![entry.model()],
{
    assert(entries.push(entry).drop_last() =~= entries);
    assert(win_entry_models(entries) + seq![entry.model()] =~= win_entry_models(entries).push(
        entry.model(),
    ));
}

/// The command after this one.
fn next_command(command: u16, Ghost(n): Ghost<nat>) -> (next: u16)
    requires
        command == command_at(n),
    ensures
        next == command_at(n + 1),
{
    proof {
        law_commands_count_up(n);
    }
    let bumped: u16 = command.wrapping_add(1);
    if bumped < 1000 {
        1000
    } else {
        bumped
    }
}

/// Adds the entry of an item to a menu, unless the item is hidden; `n` counts the items before
/// it that can be clicked.
fn append_tray_menu_item(
    entries: &mut Vec<WinMenuEntry>,
    item: &TrayMenuItem,
    id_to_menu_id: &mut HashMap<u16, String>,
    next_id: &mut u16,
    Ghost(n): Ghost<nat>,
)
    requires
        *old(next_id) == command_at(n),
    ensures
        win_entry_models(final(entries)@) == win_entry_models(old(entries)@) + win_item_entries(
            item@,
            n,
        ),
        command_texts(final(id_to_menu_id)@) == commanded(
            command_texts(old(id_to_menu_id)@),
            item_clickables(item@),
            n,
        ),
        *final(next_id) == command_at(n + item_clickables(item@).len()),
    decreases item,
{
    let ghost entries_before = entries@;
    let ghost commands_before = command_texts(id_to_menu_id@);
    match item {
        TrayMenuItem::Separator { visible, .. } => {
            if *visible {
                entries.push(WinMenuEntry::Separator);
                proof {
                    lemma_win_entries_push(entries_before, WinMenuEntry::Separator);
                }
            }
            assert(win_entry_models(entries@) =~= win_entry_models(entries_before)
                + win_item_entries(item@, n));
        },
        TrayMenuItem::Submenu { label, enabled, visible, toggle_type, children, .. } => {
            proof {
                lemma_item_models(children@);
            }
            if !*visible {
                assert(win_entry_models(entries@) =~= win_entry_models(entries_before)
                    + win_item_entries(item@, n));
                return;
            }
            if children.len() == 0 {
                let mut flags: u32 = MF_STRING;
                let checked: bool = checked_of(toggle_type);
                flags = flags | (if checked {
                    MF_CHECKED
                } else {
                    MF_UNCHECKED
                });
                if !*enabled {
                    flags = flags | MF_DISABLED;
                }
                assert(0u32 | 0u32 == 0u32 && 0u32 | 8u32 == 8u32 && 0u32 | 2u32 == 2u32 && 8u32
                    | 2u32 == 10u32) by (bit_vector);
                let mut command: u16 = 0;
                if let Some(item_id) = item.menu_event_id() {
                    command = *next_id;
                    *next_id = next_command(command, Ghost(n));
                    let item_id = item_id.to_owned();
                    let ghost id = item_id@;
                    id_to_menu_id.insert(command, item_id);
                    proof {
                        assert(item_clickables(item@) == seq![id]);
                        assert(seq![id].drop_last() =~= Seq::empty());
                        assert(commanded(commands_before, Seq::empty(), n) == commands_before);
                        assert(commanded(commands_before, seq![id], n) == commands_before.insert(
                            command,
                            id,
                        ));
                        assert(command_texts(id_to_menu_id@) =~= commands_before.insert(
                            command,
                            id,
                        ));
                    }
                }
                entries.push(
                    WinMenuEntry::Item { flags, command, label: to_wide_null(label.as_str()) },
                );
                proof {
                    lemma_win_entries_push(entries_before, entries@.last());
                    assert(entries@ =~= entries_before.push(entries@.last()));
                }
                assert(win_entry_models(entries@) =~= win_entry_models(entries_before)
                    + win_item_entries(item@, n));
            } else {
                let submenu = append_tray_menu_items(children, id_to_menu_id, next_id, Ghost(n));
                let mut flags: u32 = MF_POPUP;
                if !*enabled {
                    flags = flags | MF_DISABLED;
                }
                assert(0x10u32 | 2u32 == 0x12u32) by (bit_vector);
                entries.push(
                    WinMenuEntry::Popup {
                        flags,
                        label: to_wide_null(label.as_str()),
                        entries: submenu,
                    },
                );
                proof {
                    lemma_win_entries_push(entries_before, entries@.last());
                    assert(entries@ =~= entries_before.push(entries@.last()));
                }
                assert(win_entry_models(entries@) =~= win_entry_models(entries_before)
                    + win_item_entries(item@, n));
            }
        },
    }
}

/// The entries of the items; `n` counts the items before them that can be clicked.
fn append_tray_menu_items(
    items: &Vec<TrayMenuItem>,
    id_to_menu_id: &mut HashMap<u16, String>,
    next_id: &mut u16,
    Ghost(n): Ghost<nat>,
) -> (entries: Vec<WinMenuEntry>)
    requires
        *old(next_id) == command_at(n),
    ensures
        win_entry_models(entries@) == win_entries(item_models(items@), n),
        command_texts(final(id_to_menu_id)@) == commanded(
            command_texts(old(id_to_menu_id)@),
            clickables(item_models(items@)),
            n,
        ),
        *final(next_id) == command_at(n + clickables(item_models(items@)).len()),
    decreases items,
{
    let ghost models = item_models(items@);
    let ghost commands_before = command_texts(id_to_menu_id@);
    let mut entries: Vec<WinMenuEntry> = Vec::new();
    proof {
        lemma_item_models(items@);
        assert(models.take(0) =~= Seq::empty());
    }
    for i in 0..items.len()
        invariant
            models == item_models(items@),
            models.len() == items.len(),
            forall|j: int| 0 <= j < items.len() ==> #[trigger] models[j] == items@[j]@,
            win_entry_models(entries@) == win_entries(models.take(i as int), n),
            command_texts(id_to_menu_id@) == commanded(
                commands_before,
                clickables(models.take(i as int)),
                n,
            ),
            *next_id == command_at(n + clickables(models.take(i as int)).len()),
    {
        let ghost done = clickables(models.take(i as int));
        proof {
            lemma_clickables_take(models, i as int);
            lemma_commanded_concat(commands_before, done, item_clickables(models[i as int]), n);
            assert(models.take(i + 1).drop_last() =~= models.take(i as int));
        }
        append_tray_menu_item(
            &mut entries,
            &items[i],
            id_to_menu_id,
            next_id,
            Ghost(n + done.len()),
        );
    }
    assert(models.take(models.len() as int) =~= models);
    entries
}

/// A menu and the ids that its commands stand for.
pub struct WinMenu {
    pub entries: Vec<WinMenuEntry>,
    pub id_to_menu_id: HashMap<u16, String>,
}

/// The menu of the items.
pub fn rebuild_menu(items: &Vec<TrayMenuItem>) -> (menu: WinMenu)
    ensures
        win_entry_models(menu.entries@) == win_entries(item_models(items@), 0),
        command_texts(menu.id_to_menu_id@) == commanded(
            Map::empty(),
            clickables(item_models(items@)),
            0,
        ),
{
    let mut id_to_menu_id: HashMap<u16, String> = HashMap::new();
    let mut next_id: u16 = 1000;
    assert(command_texts(id_to_menu_id@) =~= Map::empty());
    let entries = append_tray_menu_items(items, &mut id_to_menu_id, &mut next_id, Ghost(0));
    WinMenu { entries, id_to_menu_id }
}

/// The event that a click on the entry with this command becomes.
pub fn dispatch_command(id_to_menu_id: &HashMap<u16, String>, cmd: u16) -> (event: Option<
    TrayEvent,
>)
    ensures
        opt_event(event) == if id_to_menu_id@.contains_key(cmd) {
            Some(EventModel::MenuClick { id: id_to_menu_id@[cmd]@ })
        } else {
            None
        },
{
    match id_to_menu_id.get(&cmd) {
        Some(id) => Some(TrayEvent::MenuClick { id: id.clone() }),
        None => None,
    }
}

proof fn lemma_commanded_lookup(ids: Seq<Seq<char>>)
    requires
        ids.len() <= command_count(),
    ensures
        forall|c: u16|
            (#[trigger] commanded(Map::empty(), ids, 0).contains_key(c)) == (1000 <= c < 1000
                + ids.len()),
        forall|c: u16|
            1000 <= c < 1000 + ids.len() ==> #[trigger] commanded(Map::empty(), ids, 0)[c] == ids[c
                - 1000],
    decreases ids.len(),
{
    if ids.len() > 0 {
        let init = ids.drop_last();
        lemma_commanded_lookup(init);
        let before = commanded(Map::empty(), init, 0);
        let after = commanded(Map::empty(), ids, 0);
        let new = command_at((ids.len() - 1) as nat);
        assert(new == 1000 + ids.len() - 1);
        assert(after == before.insert(new, ids.last()));
        assert forall|c: u16|
            (#[trigger] after.contains_key(c)) == (1000 <= c < 1000 + ids.len()) by {
            assert(before.contains_key(c) == (1000 <= c < 1000 + init.len()));
        }
        assert forall|c: u16| 1000 <= c < 1000 + ids.len() implies #[trigger] after[c] == ids[c
            - 1000] by {
            if c < 1000 + init.len() {
                assert(before[c] == init[c - 1000]);
            }
        }
    } else {
        assert(commanded(Map::empty(), ids, 0) == Map::<u16, Seq<char>>::empty());
    }
}

/// As long as there are commands for all items that can be clicked, the commands of a menu are
/// the numbers from 1000 on, one for each such item, and each stands for its own item's id.
pub proof fn law_commands_stand_for_their_items(items: Seq<ItemModel>)
    requires
        clickables(items).len() <= command_count(),
    ensures
        ({
            let ids = clickables(items);
            let commands = commanded(Map::empty(), ids, 0);
            &&& forall|c: u16|
                (#[trigger] commands.contains_key(c)) == (1000 <= c < 1000 + ids.len())
            &&& forall|c: u16|
                1000 <= c < 1000 + ids.len() ==> #[trigger] commands[c] == ids[c - 1000]
            &&& forall|n: nat| n < ids.len() ==> #[trigger] command_at(n) == 1000 + n
        }),
{
    lemma_commanded_lookup(clickables(items));
}

/// The command of an item that cannot be clicked stands for nothing.
pub proof fn law_no_item_has_the_command_of_text(ids: Seq<Seq<char>>)
    ensures
        !commanded(Map::empty(), ids, 0).contains_key(0),
    decreases ids.len(),
{
    if ids.len() > 0 {
        law_no_item_has_the_command_of_text(ids.drop_last());
    } else {
        assert(commanded(Map::empty(), ids, 0) == Map::<u16, Seq<char>>::empty());
    }
}

/// A character below U+10000 is one unit with its number. Every other character is a pair of
/// units out of the two ranges that stand for no characters by themselves, and the pair gives
/// back the character's number.
pub proof fn law_units_give_back_the_character(c: char)
    ensures
        ({
            let units = char_units(c);
            let number = c as u32;
            &&& number < 0x10000 ==> units.len() == 1 && units[0] == number
            &&& number >= 0x10000 ==> {
                &&& units.len() == 2
                &&& 0xd800 <= units[0] < 0xdc00
                &&& 0xdc00 <= units[1] < 0xe000
                &&& 0x10000 + (units[0] - 0xd800) * 0x400 + (units[1] - 0xdc00) == number
            }
        }),
{
}

/// The units of a text are those of its characters, one after the other.
pub proof fn law_units_follow_the_text(a: Seq<char>, b: Seq<char>, c: char)
    ensures
        utf16(a + b) == utf16(a) + utf16(b),
        utf16(seq![c]) == char_units(c),
        utf16(Seq::empty()).len() == 0,
    decreases b.len(),
{
    assert(seq![c].drop_last() =~= Seq::empty());
    assert(utf16(Seq::empty()) =~= Seq::empty());
    assert(utf16(seq![c].drop_last()) =~= Seq::empty());
    assert(utf16(seq![c]) =~= char_units(c));
    if b.len() == 0 {
        assert(a + b =~= a);
        assert(utf16(a) + utf16(b) =~= utf16(a));
    } else {
        law_units_follow_the_text(a, b.drop_last(), c);
        assert((a + b).drop_last() =~= a + b.drop_last());
        assert(utf16(a + b) =~= utf16(a) + utf16(b));
    }
}

/// A wide text is its units and one zero more.
pub proof fn law_wide_texts_end_in_zero(s: Seq<char>, i: int)
    ensures
        wide(s).len() == utf16(s).len() + 1,
        wide(s)[wide(s).len() - 1] == 0,
        0 <= i < utf16(s).len() ==> wide(s)[i] == utf16(s)[i],
{
}

/// A tooltip fills its buffer: as many of its units as leave one place, all of them where they
/// fit, and zeros in every place after them, the last place at least.
pub proof fn law_tooltips_keep_what_fits(tooltip: Seq<char>, capacity: nat, i: int)
    requires
        0 < capacity,
        0 <= i < capacity,
    ensures
        tip_units(tooltip, capacity).len() == capacity,
        i + 1 == capacity ==> tip_units(tooltip, capacity)[i] == 0,
        i >= utf16(tooltip).len() ==> tip_units(tooltip, capacity)[i] == 0,
        i + 1 < capacity && i < utf16(tooltip).len() ==> tip_units(tooltip, capacity)[i]
            == utf16(tooltip)[i],
{
}

/// What the notification icon reports in the low 16 bits of a parameter, whatever stands above
/// them, becomes a click, by way of the message that the window posts to itself: 0x205 and 0x7b
/// one with the right button, 0x202 and 0x400 one with the left button, 0x203 a double click.
/// Nothing else becomes one.
pub proof fn law_reports_become_clicks(wparam: usize, lparam: isize, other: isize)
    ensures
        ({
            let report = lparam as int % 0x10000;
            let known = report == 0x205 || report == 0x7b || report == 0x202 || report == 0x400
                || report == 0x203;
            let action = window_action(TRAY_CALLBACK_MESSAGE, wparam, lparam);
            &&& action is PostClick <==> known
            &&& action == WindowAction::Nothing <==> !known
            &&& action matches WindowAction::PostClick(code) ==> {
                &&& window_action(WM_TRAY_OPEN_MENU, code, other) == WindowAction::HandleClick(code)
                &&& code_gesture(code) == Some(Gesture::RightSingle) <==> (report == 0x205 || report
                    == 0x7b)
                &&& code_gesture(code) == Some(Gesture::LeftSingle) <==> (report == 0x202 || report
                    == 0x400)
                &&& code_gesture(code) == Some(Gesture::LeftDouble) <==> report == 0x203
            }
        }),
{
}

/// The window remembers its tray when it is created, handles the clicks and commands that it is
/// told of, does nothing when it is destroyed, and leaves every message that is not its own to
/// what windows do by default.
pub proof fn law_the_window_takes_its_own_messages(message: u32, wparam: usize, lparam: isize)
    ensures
        window_action(message, wparam, lparam) == WindowAction::KeepUserData <==> message == 1,
        window_action(message, wparam, lparam) is HandleClick <==> message == 0x402,
        window_action(message, wparam, lparam) matches WindowAction::HandleClick(code) ==> code
            == wparam,
        window_action(message, wparam, lparam) is Command <==> message == 0x111,
        window_action(message, wparam, lparam) matches WindowAction::Command(command) ==> command
            == wparam as int % 0x10000,
        window_action(message, wparam, lparam) is PostClick ==> message == 0x401,
        message == 2 ==> window_action(message, wparam, lparam) == WindowAction::Nothing,
        window_action(message, wparam, lparam) == WindowAction::Default <==> (message != 1
            && message != 2 && message != 0x111 && message != 0x401 && message != 0x402),
{
}

/// Codes that the window does not post stand for no click.
pub proof fn law_unknown_codes_are_no_clicks(code: usize)
    ensures
        code_gesture(code) == Some(Gesture::LeftSingle) <==> code == 0,
        code_gesture(code) == Some(Gesture::RightSingle) <==> code == 1,
        code_gesture(code) == Some(Gesture::LeftDouble) <==> code == 2,
        code_gesture(code) is None <==> code > 2,
{
}

/// The shell is asked to add the icon where it has not got it, and to change or remove it where
/// it has; each refusal has an error of its own.
pub proof fn law_the_shell_is_asked_where_needed(added: bool)
    ensures
        has_to_ask(added, NotifyOp::Add) != added,
        has_to_ask(added, NotifyOp::Modify) == added,
        has_to_ask(added, NotifyOp::Delete) == added,
        notify_error(NotifyOp::Add) is NotifyAddFailed,
        notify_error(NotifyOp::Modify) is NotifyModifyFailed,
        notify_error(NotifyOp::Delete) is NotifyDeleteFailed,
{
}

/// Whatever the state, the policy and the menu come first. The icon of a visible tray is set
/// before it is added, and added before it is changed, and it is not removed; that of a hidden
/// tray is removed, and neither set, added nor changed.
pub proof fn law_states_are_taken_over_in_order(visible: bool)
    ensures
        ({
            let steps = apply_order(visible);
            &&& steps.len() >= 2
            &&& steps[0] == ApplyStep::SetClickPolicy
            &&& steps[1] == ApplyStep::RebuildMenu
            &&& steps.no_duplicates()
            &&& steps.contains(ApplyStep::DeleteIcon) == !visible
            &&& steps.contains(ApplyStep::SetIcon) == visible
            &&& steps.contains(ApplyStep::AddIcon) == visible
            &&& steps.contains(ApplyStep::ModifyIcon) == visible
            &&& forall|i: int, j: int|
                0 <= i < steps.len() && 0 <= j < steps.len() && #[trigger] steps[i]
                    == ApplyStep::SetIcon && #[trigger] steps[j] == ApplyStep::AddIcon ==> i < j
            &&& forall|i: int, j: int|
                0 <= i < steps.len() && 0 <= j < steps.len() && #[trigger] steps[i]
                    == ApplyStep::AddIcon && #[trigger] steps[j] == ApplyStep::ModifyIcon ==> i < j
        }),
{
    let steps = apply_order(visible);
    if visible {
        assert(steps[2] == ApplyStep::SetIcon);
        assert(steps[3] == ApplyStep::AddIcon);
        assert(steps[4] == ApplyStep::ModifyIcon);
    } else {
        assert(steps[2] == ApplyStep::DeleteIcon);
    }
}

/// Commands begin with 1000 and count up by one; after the largest number that a command can be
/// comes 1000 again. So none is below 1000.
pub proof fn law_commands_count_up(n: nat)
    ensures
        command_at(0) == 1000,
        command_at(n) < 65535 ==> command_at(n + 1) == command_at(n) + 1,
        command_at(n) == 65535 ==> command_at(n + 1) == 1000,
        command_at(n) >= 1000,
{
    let count = 64536int;
    let quotient = n as int / count;
    let rest = n as int % count;
    lemma_fundamental_div_mod(n as int, count);
    if rest + 1 < count {
        lemma_fundamental_div_mod_converse(n as int + 1, count, quotient, rest + 1);
    } else {
        lemma_fundamental_div_mod_converse(n as int + 1, count, quotient + 1, 0);
    }
}

/// However many items can be clicked, a command stands for the id of the last item that has it.
pub proof fn law_the_last_item_with_a_command_counts(ids: Seq<Seq<char>>, i: int)
    requires
        0 <= i < ids.len(),
        forall|j: int|
            i < j < ids.len() ==> #[trigger] command_at(j as nat) != command_at(i as nat),
    ensures
        commanded(Map::empty(), ids, 0).contains_pair(command_at(i as nat), ids[i]),
    decreases ids.len(),
{
    let init = ids.drop_last();
    let last = ids.len() - 1;
    let before = commanded(Map::empty(), init, 0);
    assert(commanded(Map::empty(), ids, 0) == before.insert(command_at(last as nat), ids.last()));
    if i < last {
        assert(command_at(last as nat) != command_at(i as nat));
        law_the_last_item_with_a_command_counts(init, i);
    }
}

/// A number that no item has as its command stands for nothing.
pub proof fn law_other_numbers_stand_for_nothing(ids: Seq<Seq<char>>, c: u16)
    requires
        forall|i: int| 0 <= i < ids.len() ==> #[trigger] command_at(i as nat) != c,
    ensures
        !commanded(Map::empty(), ids, 0).contains_key(c),
    decreases ids.len(),
{
    if ids.len() > 0 {
        let init = ids.drop_last();
        let last = ids.len() - 1;
        let before = commanded(Map::empty(), init, 0);
        assert(commanded(Map::empty(), ids, 0) == before.insert(
            command_at(last as nat),
            ids.last(),
        ));
        law_other_numbers_stand_for_nothing(init, c);
    } else {
        assert(commanded(Map::empty(), ids, 0) == Map::<u16, Seq<char>>::empty());
    }
}

/// A refusal of the shell is an error and changes nothing; what it has granted is so: an icon
/// that was added is there, one that was changed is there if it was, and one that was removed is
/// not. So an icon that was added has to be neither added again nor left where it is removed.
pub proof fn law_the_shells_answers_count(added: bool, op: NotifyOp)
    ensures
        notify_result(op, true) is Ok,
        notify_result(op, false) is Err,
        notify_result(NotifyOp::Add, false) == Err::<(), TrayError>(TrayError::NotifyAddFailed),
        notify_result(NotifyOp::Modify, false) == Err::<(), TrayError>(
            TrayError::NotifyModifyFailed,
        ),
        notify_result(NotifyOp::Delete, false) == Err::<(), TrayError>(
            TrayError::NotifyDeleteFailed,
        ),
        notify_after(added, op, false) == added,
        notify_after(added, NotifyOp::Add, true),
        notify_after(added, NotifyOp::Modify, true) == added,
        !notify_after(added, NotifyOp::Delete, true),
        !has_to_ask(notify_after(added, NotifyOp::Add, true), NotifyOp::Add),
        !has_to_ask(notify_after(added, NotifyOp::Delete, true), NotifyOp::Delete),
{
}

/// After its menu was open the window posts a message that does nothing, last; before that, where
/// an entry was chosen, the one message by which it learns of that entry's command.
pub proof fn law_chosen_entries_are_posted(command: i32, lparam: isize)
    ensures
        closing_posts(command).len() > 0,
        closing_posts(command).last() == (PostedMessage { message: 0, wparam: 0 }),
        command == 0 ==> closing_posts(command).len() == 1,
        command != 0 ==> closing_posts(command).len() == 2 && closing_posts(command)[0].message
            == 0x111,
        0 < command <= 0xffff ==> window_action(
            closing_posts(command)[0].message,
            closing_posts(command)[0].wparam,
            lparam,
        ) == WindowAction::Command(command as u16),
{
}

} // verus!
