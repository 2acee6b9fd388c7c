//! The D-Bus side of the tray: what hosts report, what they are shown, and the life of a tray
//! that is brought up to date by a task of its own.

use vstd::prelude::*;
use zbus::zvariant::Value;

use crate::click::{
    click_event, map_click_event, opt_event, EventModel, MouseButton, Point, TargetOs,
    TrayClickAction, TrayClickKind, TrayClickPolicy, TrayEvent,
};
use crate::dbus_menu::{items_size, menu_nodes, DBusMenu};
use crate::error::TrayError;
use crate::pixmap::{
    holds_size, icon_pixmaps_from_item, offered_pixmaps, picture_len, pixmap_models, DecodedIcon,
    Pixmap, PixmapModel,
};
use crate::runtime::{RuntimeModel, TrayRuntimeState};
use crate::state::{StateModel, TrayState};
use crate::text::{
    ascii_lowered, contains_text, decimal, is_lower_case_of, law_ascii_lowered, law_decimal,
    law_occurs_in, lowered_chars, occurs_in, push_decimal,
};
use crate::variant::{
    pixmap_variant, tool_tip_value, tool_tip_variant, variant_of, VariantModel,
};

verus! {

/// What a status notifier host or a menu host reports.
#[derive(Debug)]
pub enum LinuxEvent {
    Activate(i32, i32),
    SecondaryActivate(i32, i32),
    Scroll(i32, String),
    MenuClick(String),
}

/// The event that a host's report becomes under the policy. A host that reports an activation
/// has told single from double clicks no further, and scrolling is vertical unless the host
/// says that it is horizontal.
pub open spec fn reported_event(policy: TrayClickPolicy, report: LinuxEvent) -> Option<EventModel> {
    match report {
        LinuxEvent::Activate(x, y) => click_event(
            policy.left,
            MouseButton::Left,
            TrayClickKind::Single,
            Point { x, y },
        ),
        LinuxEvent::SecondaryActivate(x, y) => click_event(
            policy.right,
            MouseButton::Right,
            TrayClickKind::Single,
            Point { x, y },
        ),
        LinuxEvent::Scroll(delta, orientation) => Some(
            EventModel::Scroll {
                scroll_detal: if occurs_in("horizontal"@, ascii_lowered(orientation@)) {
                    Point { x: delta, y: 0 }
                } else {
                    Point { x: 0, y: delta }
                },
            },
        ),
        LinuxEvent::MenuClick(id) => Some(EventModel::MenuClick { id: id@ }),
    }
}

/// The event that a host's report becomes under the policy.
pub fn linux_tray_event(policy: TrayClickPolicy, report: LinuxEvent) -> (event: Option<TrayEvent>)
    ensures
        opt_event(event) == reported_event(policy, report),
{
    match report {
        LinuxEvent::Activate(x, y) => map_click_event(
            policy.left,
            MouseButton::Left,
            TrayClickKind::Single,
            Point { x, y },
        ),
        LinuxEvent::SecondaryActivate(x, y) => map_click_event(
            policy.right,
            MouseButton::Right,
            TrayClickKind::Single,
            Point { x, y },
        ),
        LinuxEvent::Scroll(delta, orientation) => {
            let lowered = lowered_chars(orientation.as_str());
            let scroll_detal: Point = if contains_text(&lowered, "horizontal") {
                Point { x: delta, y: 0 }
            } else {
                Point { x: 0, y: delta }
            };
            Some(TrayEvent::Scroll { scroll_detal })
        },
        LinuxEvent::MenuClick(id) => Some(TrayEvent::MenuClick { id }),
    }
}

/// What the task of a tray is told.
#[derive(Debug)]
pub enum TaskInput {
    /// A flush was asked for.
    Flush,
    /// The tray was closed.
    Close,
    /// A host has reported something.
    Report(LinuxEvent),
    /// Nobody is left who could tell it anything.
    Disconnected,
}

/// What the task of a tray does next.
#[derive(Debug)]
pub enum TaskStep {
    Flush,
    Emit(TrayEvent),
    Wait,
    Stop,
}

/// What the task of a tray does next, as a mathematical value.
pub enum TaskStepModel {
    Flush,
    Emit(EventModel),
    Wait,
    Stop,
}

impl View for TaskStep {
    type V = TaskStepModel;

    open spec fn view(&self) -> TaskStepModel {
        match *self {
            TaskStep::Flush => TaskStepModel::Flush,
            TaskStep::Emit(event) => TaskStepModel::Emit(event@),
            TaskStep::Wait => TaskStepModel::Wait,
            TaskStep::Stop => TaskStepModel::Stop,
        }
    }
}

/// What the task of a tray does about what it is told.
pub open spec fn task_step(policy: TrayClickPolicy, input: TaskInput) -> TaskStepModel {
    match input {
        TaskInput::Flush => TaskStepModel::Flush,
        TaskInput::Report(report) => match reported_event(policy, report) {
            Some(event) => TaskStepModel::Emit(event),
            None => TaskStepModel::Wait,
        },
        TaskInput::Close | TaskInput::Disconnected => TaskStepModel::Stop,
    }
}

/// What the task of a tray does about what it is told.
pub fn linux_task_step(policy: TrayClickPolicy, input: TaskInput) -> (step: TaskStep)
    ensures
        step@ == match input {
            TaskInput::Flush => TaskStepModel::Flush,
            TaskInput::Close => TaskStepModel::Stop,
            TaskInput::Report(report) => match reported_event(policy, report) {
                Some(event) => TaskStepModel::Emit(event),
                None => TaskStepModel::Wait,
            },
            TaskInput::Disconnected => TaskStepModel::Stop,
        },
        step@ == task_step(policy, input),
{
    match input {
        TaskInput::Flush => TaskStep::Flush,
        TaskInput::Close => TaskStep::Stop,
        TaskInput::Report(report) => match linux_tray_event(policy, report) {
            Some(event) => TaskStep::Emit(event),
            None => TaskStep::Wait,
        },
        TaskInput::Disconnected => TaskStep::Stop,
    }
}

/// The name under which a process offers its tray on the bus.
pub open spec fn bus_name(pid: u32, nanos: u32) -> Seq<char> {
    "org.freedesktop.StatusNotifierItem.gpui_tray_"@ + (decimal(pid as nat) + "_"@ + decimal(
        nanos as nat,
    ))
}

/// The name under which a process offers its tray on the bus: unique, and not one of those
/// that the bus assigns.
pub fn make_bus_name(pid: u32, nanos: u32) -> (name: String)
    ensures
        name@ == "org.freedesktop.StatusNotifierItem.gpui_tray_"@ + decimal(pid as nat) + "_"@
            + decimal(nanos as nat),
        name@ == bus_name(pid, nanos),
{
    let mut name = "org.freedesktop.StatusNotifierItem.gpui_tray_".to_owned();
    push_decimal(&mut name, pid as u128);
    name.append("_");
    push_decimal(&mut name, nanos as u128);
    assert(name@ =~= bus_name(pid, nanos));
    name
}

/// A tray state in the form that D-Bus hosts are shown.
pub struct LinuxTrayItem {
    pub visible: bool,
    pub title: String,
    pub tooltip: String,
    pub description: String,
    pub icon_pixmaps: Vec<Pixmap>,
    pub menu: DBusMenu,
    pub click_policy: TrayClickPolicy,
}

/// The pixmaps that a tray with this decoded icon is shown with.
pub open spec fn shown_pixmaps(decoded: Option<DecodedIcon>) -> Seq<PixmapModel> {
    match decoded {
        Some(icon) => offered_pixmaps(icon),
        None => Seq::empty(),
    }
}

/// Why a decoded icon cannot be shown.
pub open spec fn icon_error(decoded: Option<DecodedIcon>) -> Option<TrayError> {
    match decoded {
        None => None,
        Some(icon) => {
            let len = picture_len(icon.width as int, icon.height as int);
            if icon.width == 0 || icon.height == 0 {
                Some(TrayError::EmptyIcon)
            } else if holds_size(icon, 16) && icon.bgra@.len() != len {
                Some(TrayError::PixelBufferLength { expected: len as u128 })
            } else {
                None
            }
        },
    }
}

/// Whether the form that D-Bus hosts are shown is that of the state, where `decoded` is its icon.
pub open spec fn shows_state(
    shown: LinuxTrayItem,
    state: StateModel,
    decoded: Option<DecodedIcon>,
) -> bool {
    &&& shown_status(shown) == (StatusModel {
        visible: state.visible,
        title: state.title,
        icon_pixmaps: shown_pixmaps(decoded),
        tooltip: state.tooltip,
        description: state.description,
    })
    &&& shown.menu@ == menu_nodes(state.submenus)
    &&& shown.click_policy == state.policy_on(TargetOs::Linux)
}

/// The tray state in the form that D-Bus hosts are shown, where `decoded` is its icon.
pub fn linux_item_from_tray_state(item: TrayState, decoded: Option<DecodedIcon>) -> (res: Result<
    LinuxTrayItem,
    TrayError,
>)
    requires
        items_size(item@.submenus) < i32::MAX,
    ensures
        match res {
            Ok(shown) => {
                &&& icon_error(decoded) is None
                &&& shown.visible == item@.visible
                &&& shown.title@ == item@.title
                &&& shown.tooltip@ == item@.tooltip
                &&& shown.description@ == item@.description
                &&& pixmap_models(shown.icon_pixmaps@) == shown_pixmaps(decoded)
                &&& shown.menu@ == menu_nodes(item@.submenus)
                &&& shown.click_policy == item@.policy_on(TargetOs::Linux)
            },
            Err(e) => icon_error(decoded) == Some(e),
        },
        res matches Ok(shown) ==> shows_state(shown, item@, decoded),
{
    let icon_pixmaps: Vec<Pixmap> = match icon_pixmaps_from_item(decoded) {
        Ok(Some(pixmaps)) => pixmaps,
        Ok(None) => {
            let none: Vec<Pixmap> = Vec::new();
            assert(pixmap_models(none@) =~= Seq::empty());
            none
        },
        Err(e) => {
            return Err(e);
        },
    };
    let menu = DBusMenu::from_tray_menu_items(item.submenus.as_slice());
    let click_policy = item.policy_on(TargetOs::Linux);
    Ok(
        LinuxTrayItem {
            visible: item.visible,
            title: item.title,
            tooltip: item.tooltip,
            description: item.description,
            icon_pixmaps,
            menu,
            click_policy,
        },
    )
}

/// What a status notifier host is shown.
#[derive(Debug)]
pub struct StatusNotifierItemState {
    pub visible: bool,
    pub title: String,
    pub icon_pixmaps: Vec<Pixmap>,
    pub tooltip: String,
    pub description: String,
}

/// What a status notifier host is shown, as a mathematical value.
pub struct StatusModel {
    pub visible: bool,
    pub title: Seq<char>,
    pub icon_pixmaps: Seq<PixmapModel>,
    pub tooltip: Seq<char>,
    pub description: Seq<char>,
}

impl View for StatusNotifierItemState {
    type V = StatusModel;

    open spec fn view(&self) -> StatusModel {
        StatusModel {
            visible: self.visible,
            title: self.title@,
            icon_pixmaps: pixmap_models(self.icon_pixmaps@),
            tooltip: self.tooltip@,
            description: self.description@,
        }
    }
}

/// A tooltip as hosts take it.
#[derive(Debug)]
pub struct ToolTip {
    pub icon_name: String,
    pub icon_pixmap: Vec<Pixmap>,
    pub title: String,
    pub description: String,
}

/// The pixmaps as they travel.
pub open spec fn pixmap_variants(pixmaps: Seq<PixmapModel>) -> Seq<VariantModel> {
    pixmaps.map_values(|p: PixmapModel| p.variant())
}

impl ToolTip {
    /// The tooltip as it travels.
    pub fn to_value(&self) -> (v: Value<'static>)
        ensures
            variant_of(v) == tool_tip_variant(
                self.icon_name@,
                pixmap_variants(pixmap_models(self.icon_pixmap@)),
                self.title@,
                self.description@,
            ),
    {
        let ghost shown = pixmap_variants(pixmap_models(self.icon_pixmap@));
        let mut pixmaps: Vec<(i32, i32, Vec<u8>)> = Vec::new();
        for i in 0..self.icon_pixmap.len()
            invariant
                shown == pixmap_variants(pixmap_models(self.icon_pixmap@)),
                pixmaps@.map_values(|p: (i32, i32, Vec<u8>)| pixmap_variant(p.0, p.1, p.2@))
                    == shown.take(i as int),
        {
            let ghost before = pixmaps@;
            let pixmap = self.icon_pixmap[i].clone();
            pixmaps.push((pixmap.width, pixmap.height, pixmap.bytes));
            assert(pixmaps@.map_values(
                |p: (i32, i32, Vec<u8>)| pixmap_variant(p.0, p.1, p.2@),
            ) =~= before.map_values(
                |p: (i32, i32, Vec<u8>)| pixmap_variant(p.0, p.1, p.2@),
            ).push(shown[i as int]));
            assert(shown.take(i + 1) =~= shown.take(i as int).push(shown[i as int]));
        }
        assert(shown.take(shown.len() as int) =~= shown);
        tool_tip_value(
            self.icon_name.clone(),
            pixmaps,
            self.title.clone(),
            self.description.clone(),
        )
    }
}

/// Copies the pixmaps.
fn clone_pixmaps(pixmaps: &Vec<Pixmap>) -> (res: Vec<Pixmap>)
    ensures
        pixmap_models(res@) == pixmap_models(pixmaps@),
{
    let mut res: Vec<Pixmap> = Vec::new();
    assert(pixmap_models(res@) =~= pixmap_models(pixmaps@.take(0)));
    for i in 0..pixmaps.len()
        invariant
            pixmap_models(res@) == pixmap_models(pixmaps@.take(i as int)),
    {
        let ghost before = res@;
        let pixmap = pixmaps[i].clone();
        res.push(pixmap);
        assert(pixmap_models(res@) =~= pixmap_models(before).push(pixmaps@[i as int]@));
        assert(pixmap_models(pixmaps@.take(i + 1)) =~= pixmap_models(
            pixmaps@.take(i as int),
        ).push(pixmaps@[i as int]@));
    }
    assert(pixmaps@.take(pixmaps.len() as int) =~= pixmaps@);
    res
}

/// The word for a tray that is shown or hidden.
pub open spec fn status_word(visible: bool) -> Seq<char> {
    if visible {
        "Active"@
    } else {
        "Passive"@
    }
}

impl Default for StatusNotifierItemState {
    fn default() -> (state: Self)
        ensures
            state@ == (StatusModel {
                visible: false,
                title: Seq::empty(),
                icon_pixmaps: Seq::empty(),
                tooltip: Seq::empty(),
                description: Seq::empty(),
            }),
    {
        let state = StatusNotifierItemState {
            visible: false,
            title: String::new(),
            icon_pixmaps: Vec::new(),
            tooltip: String::new(),
            description: String::new(),
        };
        assert(state@.icon_pixmaps =~= Seq::empty());
        state
    }
}

impl StatusNotifierItemState {
    /// The title.
    pub fn title(&self) -> (title: String)
        ensures
            title@ == self@.title,
    {
        self.title.clone()
    }

    /// The word for a tray that is shown or hidden.
    pub fn status(&self) -> (status: String)
        ensures
            status@ == status_word(self@.visible),
    {
        if self.visible {
            "Active".to_owned()
        } else {
            "Passive".to_owned()
        }
    }

    /// The icon in several sizes.
    pub fn icon_pixmap(&self) -> (pixmaps: Vec<Pixmap>)
        ensures
            pixmap_models(pixmaps@) == self@.icon_pixmaps,
    {
        clone_pixmaps(&self.icon_pixmaps)
    }

    /// The tooltip: the icon, and under the tooltip's text the description.
    pub fn tool_tip(&self) -> (tip: ToolTip)
        ensures
            tip.icon_name@ == Seq::<char>::empty(),
            pixmap_models(tip.icon_pixmap@) == self@.icon_pixmaps,
            tip.title@ == self@.tooltip,
            tip.description@ == self@.description,
    {
        ToolTip {
            icon_name: String::new(),
            icon_pixmap: clone_pixmaps(&self.icon_pixmaps),
            title: self.tooltip.clone(),
            description: self.description.clone(),
        }
    }
}

/// What the interfaces of a tray answer from.
pub struct LinuxTrayView {
    pub status: StatusNotifierItemState,
    pub click_policy: TrayClickPolicy,
    pub menu: DBusMenu,
    /// Counts the layouts of the menu; after the largest number comes 0.
    pub revision: u32,
}

/// What hosts are shown of a tray state.
pub open spec fn shown_status(update: LinuxTrayItem) -> StatusModel {
    StatusModel {
        visible: update.visible,
        title: update.title@,
        icon_pixmaps: pixmap_models(update.icon_pixmaps@),
        tooltip: update.tooltip@,
        description: update.description@,
    }
}

/// The number of the next layout.
pub open spec fn next_revision(revision: u32) -> u32 {
    if revision == u32::MAX {
        0
    } else {
        (revision + 1) as u32
    }
}

/// The number under which hosts are told of the next layout.
pub open spec fn told_revision(revision: u32) -> u32 {
    if revision == u32::MAX {
        u32::MAX
    } else {
        (revision + 1) as u32
    }
}

/// Shows another tray state. Returns the number under which hosts are told of the new layout,
/// which stops at the largest number.
pub fn apply_linux_state(view: &mut LinuxTrayView, update: LinuxTrayItem) -> (revision: u32)
    ensures
        final(view).status@ == (StatusModel {
            visible: update.visible,
            title: update.title@,
            icon_pixmaps: pixmap_models(update.icon_pixmaps@),
            tooltip: update.tooltip@,
            description: update.description@,
        }),
        final(view).click_policy == update.click_policy,
        final(view).menu == update.menu,
        final(view).revision == (if old(view).revision < u32::MAX {
            old(view).revision + 1
        } else {
            0
        }),
        revision == (if old(view).revision < u32::MAX {
            old(view).revision + 1
        } else {
            u32::MAX as int
        }),
        final(view).status@ == shown_status(update),
        final(view).revision == next_revision(old(view).revision),
        revision == told_revision(old(view).revision),
{
    view.status.visible = update.visible;
    view.status.title = update.title;
    view.status.icon_pixmaps = update.icon_pixmaps;
    view.status.tooltip = update.tooltip;
    view.status.description = update.description;
    view.click_policy = update.click_policy;
    view.menu = update.menu;
    let before: u32 = view.revision;
    view.revision = before.wrapping_add(1);
    before.saturating_add(1)
}

impl LinuxTrayView {
    /// What is answered before the first state is shown.
    pub fn new() -> (view: Self)
        ensures
            view.status@ == (StatusModel {
                visible: false,
                title: Seq::empty(),
                icon_pixmaps: Seq::empty(),
                tooltip: Seq::empty(),
                description: Seq::empty(),
            }),
            view.click_policy == TrayClickPolicy::default_for(TargetOs::Linux),
            view.menu@ == menu_nodes(Seq::empty()),
            view.revision == 1,
    {
        LinuxTrayView {
            status: StatusNotifierItemState::default(),
            click_policy: TrayClickPolicy::platform_default(TargetOs::Linux),
            menu: DBusMenu::new(),
            revision: 1,
        }
    }
}

/// A tray that a task of its own brings up to date.
pub struct LinuxTray {
    pub closed: bool,
    pub runtime: TrayRuntimeState,
}

/// Such a tray as a mathematical value.
pub struct LinuxTrayModel {
    pub closed: bool,
    pub runtime: RuntimeModel,
}

impl View for LinuxTray {
    type V = LinuxTrayModel;

    open spec fn view(&self) -> LinuxTrayModel {
        LinuxTrayModel { closed: self.closed, runtime: self.runtime@ }
    }
}

impl LinuxTrayModel {
    /// A tray that was just set up, with a flush waiting.
    pub open spec fn set_up(initial: StateModel) -> LinuxTrayModel {
        LinuxTrayModel { closed: false, runtime: RuntimeModel::idle().wanting(initial) }
    }

    /// Whether a tray can be set up where `current` says whether the last one that is still
    /// there was closed.
    pub open spec fn may_set_up(current: Option<bool>) -> bool {
        current != Some(false)
    }

    /// What asking for something answers: whether the task is to be told, or that the tray is
    /// closed.
    pub open spec fn answer(self) -> Result<bool, TrayError> {
        if self.closed {
            Err(TrayError::Closed)
        } else {
            Ok(!self.runtime.flush_scheduled)
        }
    }

    /// The tray that wants `state` from now on, unless it is closed.
    pub open spec fn wanting(self, state: StateModel) -> LinuxTrayModel {
        if self.closed {
            self
        } else {
            LinuxTrayModel { runtime: self.runtime.wanting(state), ..self }
        }
    }

    /// The tray with a flush waiting, unless it is closed.
    pub open spec fn requested(self) -> LinuxTrayModel {
        if self.closed {
            self
        } else {
            LinuxTrayModel { runtime: self.runtime.requested(), ..self }
        }
    }

    /// The closed tray.
    pub open spec fn shut(self) -> LinuxTrayModel {
        LinuxTrayModel { closed: true, ..self }
    }
}

impl LinuxTray {
    /// Sets a tray up, unless another one is set up and not closed: `current` is whether the
    /// last one that is still there was closed.
    pub fn set_up(current: Option<bool>, initial: TrayState) -> (res: Result<Self, TrayError>)
        ensures
            match res {
                Ok(tray) => {
                    &&& LinuxTrayModel::may_set_up(current)
                    &&& tray@ == LinuxTrayModel::set_up(initial@)
                },
                Err(e) => !LinuxTrayModel::may_set_up(current) && e
                    == TrayError::AlreadyInitialized,
            },
    {
        if let Some(closed) = current {
            if !closed {
                return Err(TrayError::AlreadyInitialized);
            }
        }
        Ok(LinuxTray { closed: false, runtime: TrayRuntimeState::new(initial) })
    }

    /// Wants `state` from now on. Returns whether the task is to be told of a flush.
    pub fn set_state(&mut self, state: TrayState) -> (res: Result<bool, TrayError>)
        ensures
            res == old(self)@.answer(),
            final(self)@ == old(self)@.wanting(state@),
    {
        if self.closed {
            return Err(TrayError::Closed);
        }
        Ok(self.runtime.set_desired_state(state))
    }

    /// Asks for a flush. Returns whether the task is to be told of it.
    pub fn flush_now(&mut self) -> (res: Result<bool, TrayError>)
        ensures
            res == old(self)@.answer(),
            final(self)@ == old(self)@.requested(),
    {
        if self.closed {
            return Err(TrayError::Closed);
        }
        Ok(self.runtime.request_flush())
    }

    /// Closes the tray. Returns whether the task is to be told: not where the tray was closed
    /// already.
    pub fn close(&mut self) -> (stop: bool)
        ensures
            stop == !old(self)@.closed,
            final(self)@ == old(self)@.shut(),
    {
        if self.closed {
            return false;
        }
        self.closed = true;
        true
    }
}

/// A closed tray takes nothing more and stays closed, and another one can be set up; while it
/// is not closed none can.
pub proof fn law_closing_ends_a_tray(tray: LinuxTrayModel, state: StateModel)
    ensures
        tray.shut().answer() == Err::<bool, TrayError>(TrayError::Closed),
        tray.shut().wanting(state) == tray.shut(),
        tray.shut().requested() == tray.shut(),
        tray.shut().shut() == tray.shut(),
        LinuxTrayModel::may_set_up(Some(tray.shut().closed)),
        LinuxTrayModel::may_set_up(Some(tray.closed)) ==> tray.closed,
        !LinuxTrayModel::may_set_up(Some(LinuxTrayModel::set_up(state).closed)),
{
}

/// A menu click is reported whatever the policy says, and scrolling too; a click on the icon is
/// reported exactly where the policy has it emit an event.
pub proof fn law_policy_decides_icon_clicks_only(policy: TrayClickPolicy, report: LinuxEvent)
    ensures
        reported_event(policy, report) is None <==> {
            ||| report is Activate && policy.left != TrayClickAction::EmitEvent
            ||| report is SecondaryActivate && policy.right
                != TrayClickAction::EmitEvent
        },
{
}

/// An activation becomes a single click at its position, with the left button, exactly where the
/// policy has left clicks emit events; a secondary one is the same of the right button. What the
/// policy says of other clicks does not matter.
pub proof fn law_activations_become_clicks(policy: TrayClickPolicy, x: i32, y: i32)
    ensures
        policy.left == TrayClickAction::EmitEvent ==> reported_event(
            policy,
            LinuxEvent::Activate(x, y),
        ) == Some(
            EventModel::TrayClick {
                button: MouseButton::Left,
                kind: TrayClickKind::Single,
                position: Point { x, y },
            },
        ),
        policy.left != TrayClickAction::EmitEvent ==> reported_event(
            policy,
            LinuxEvent::Activate(x, y),
        ) is None,
        policy.right == TrayClickAction::EmitEvent ==> reported_event(
            policy,
            LinuxEvent::SecondaryActivate(x, y),
        ) == Some(
            EventModel::TrayClick {
                button: MouseButton::Right,
                kind: TrayClickKind::Single,
                position: Point { x, y },
            },
        ),
        policy.right != TrayClickAction::EmitEvent ==> reported_event(
            policy,
            LinuxEvent::SecondaryActivate(x, y),
        ) is None,
{
}

/// Scrolling keeps its amount, whatever the policy: along x exactly where the word for horizontal
/// stands somewhere in the orientation, in whatever case, else along y.
pub proof fn law_scrolling_keeps_its_amount(
    policy: TrayClickPolicy,
    delta: i32,
    orientation: String,
)
    ensures
        reported_event(policy, LinuxEvent::Scroll(delta, orientation)) matches Some(
            EventModel::Scroll { scroll_detal },
        ) && {
            &&& (exists|a: Seq<char>, b: Seq<char>|
                is_lower_case_of(#[trigger] (a + "horizontal"@ + b), orientation@))
                ==> scroll_detal.x == delta && scroll_detal.y == 0
            &&& !(exists|a: Seq<char>, b: Seq<char>|
                is_lower_case_of(#[trigger] (a + "horizontal"@ + b), orientation@))
                ==> scroll_detal.x == 0 && scroll_detal.y == delta
        },
{
    let lower = ascii_lowered(orientation@);
    law_ascii_lowered(lower, orientation@);
    law_occurs_in("horizontal"@, lower);
    if exists|a: Seq<char>, b: Seq<char>|
        is_lower_case_of(#[trigger] (a + "horizontal"@ + b), orientation@) {
        let (a, b) = choose|a: Seq<char>, b: Seq<char>|
            is_lower_case_of(#[trigger] (a + "horizontal"@ + b), orientation@);
        law_ascii_lowered(a + "horizontal"@ + b, orientation@);
        assert(lower == a + "horizontal"@ + b);
    }
    if occurs_in("horizontal"@, lower) {
        let (a, b) = choose|a: Seq<char>, b: Seq<char>| lower == #[trigger] (a + "horizontal"@ + b);
        assert(is_lower_case_of(a + "horizontal"@ + b, orientation@));
    }
}

/// A menu click reports the id that the host named, whatever the policy.
pub proof fn law_menu_clicks_keep_their_id(policy: TrayClickPolicy, id: String)
    ensures
        reported_event(policy, LinuxEvent::MenuClick(id)) matches Some(
            EventModel::MenuClick { id: reported },
        ) && reported == id@,
{
}

/// Hosts are told that a visible tray is active and that a hidden one is passive.
pub proof fn law_status_words(visible: bool)
    ensures
        visible ==> status_word(visible) == "Active"@,
        !visible ==> status_word(visible) == "Passive"@,
{
}

/// Why an icon cannot be shown: that it has no pixels; or that it is large enough to be scaled
/// and does not have four bytes for each pixel. A tray without an icon, and every other icon, can
/// be shown.
pub proof fn law_icons_that_cannot_be_shown(icon: DecodedIcon)
    ensures
        icon_error(None) is None,
        icon_error(Some(icon)) == Some(TrayError::EmptyIcon) <==> (icon.width == 0 || icon.height
            == 0),
        icon_error(Some(icon)) is None <==> {
            &&& icon.width > 0 && icon.height > 0
            &&& icon.width < 16 || icon.height < 16 || icon.bgra@.len() == icon.width * icon.height
                * 4
        },
        icon_error(Some(icon)) matches Some(TrayError::PixelBufferLength { expected }) ==> expected
            == icon.width * icon.height * 4,
{
    assert(0 <= icon.width * icon.height <= 0xffff_ffff * 0xffff_ffff) by (nonlinear_arith)
        requires
            0 <= icon.width <= 0xffff_ffff,
            0 <= icon.height <= 0xffff_ffff,
    ;
}

/// A tray without an icon is shown with no pixmaps, and one with an icon with those that the
/// icon is offered as.
pub proof fn law_trays_are_shown_with_their_icon(icon: DecodedIcon)
    ensures
        shown_pixmaps(None).len() == 0,
        shown_pixmaps(Some(icon)) == offered_pixmaps(icon),
        shown_pixmaps(Some(icon)).len() > 0,
{
}

/// A tray that is not closed takes what is asked of it: the last state that was set is the
/// wanted one, a flush is waiting, and the task is told of it exactly where none was waiting
/// before. What is shown and whether a flush is running does not change.
pub proof fn law_open_trays_take_updates(tray: LinuxTrayModel, state: StateModel)
    requires
        !tray.closed,
    ensures
        tray.answer() == Ok::<bool, TrayError>(!tray.runtime.flush_scheduled),
        tray.wanting(state).runtime.desired matches Some(desired) && desired.state == state,
        tray.wanting(state).runtime.flush_scheduled,
        tray.wanting(state).runtime.applied == tray.runtime.applied,
        tray.wanting(state).runtime.flushing == tray.runtime.flushing,
        !tray.wanting(state).closed,
        tray.requested().runtime.flush_scheduled,
        tray.requested().runtime.desired == tray.runtime.desired,
        tray.requested().runtime.applied == tray.runtime.applied,
        tray.requested().runtime.flushing == tray.runtime.flushing,
        !tray.requested().closed,
{
}

/// A tray that was just set up is open, wants its first state and has a flush waiting; it can be
/// set up exactly where no tray is there that was not closed.
pub proof fn law_set_up_trays_want_their_first_state(initial: StateModel, current: Option<bool>)
    ensures
        !LinuxTrayModel::set_up(initial).closed,
        LinuxTrayModel::set_up(initial).runtime.desired matches Some(desired) && desired.state
            == initial,
        LinuxTrayModel::set_up(initial).runtime.applied is None,
        LinuxTrayModel::set_up(initial).runtime.flush_scheduled,
        !LinuxTrayModel::set_up(initial).runtime.flushing,
        current is None ==> LinuxTrayModel::may_set_up(current),
        current matches Some(closed) ==> LinuxTrayModel::may_set_up(current) == closed,
{
}

/// A tooltip travels as a structure of its icon name, its pixmaps in order, its title and its
/// description.
pub proof fn law_tooltips_travel_whole(
    icon_name: Seq<char>,
    pixmaps: Seq<PixmapModel>,
    title: Seq<char>,
    description: Seq<char>,
)
    ensures
        tool_tip_variant(icon_name, pixmap_variants(pixmaps), title, description) matches
            VariantModel::Structure(fields) && {
            &&& fields.len() == 4
            &&& fields[0] == VariantModel::Str(icon_name)
            &&& fields[1] matches VariantModel::Array(shown)
            &&& shown.len() == pixmaps.len()
            &&& forall|i: int| 0 <= i < shown.len() ==> #[trigger] shown[i] == pixmaps[i].variant()
            &&& fields[2] == VariantModel::Str(title)
            &&& fields[3] == VariantModel::Str(description)
        },
{
}

/// The models of what hosts are shown, of the task's steps and of a tray hold everything that
/// these hold.
pub proof fn law_linux_models_are_what_they_model(
    status: StatusNotifierItemState,
    event: TrayEvent,
    tray: LinuxTray,
)
    ensures
        status@.visible == status.visible,
        status@.title == status.title@,
        status@.icon_pixmaps == pixmap_models(status.icon_pixmaps@),
        status@.tooltip == status.tooltip@,
        status@.description == status.description@,
        TaskStep::Flush@ == TaskStepModel::Flush,
        TaskStep::Emit(event)@ == TaskStepModel::Emit(event@),
        TaskStep::Wait@ == TaskStepModel::Wait,
        TaskStep::Stop@ == TaskStepModel::Stop,
        tray@.closed == tray.closed,
        tray@.runtime == tray.runtime@,
{
}

proof fn lemma_digits_end(a: Seq<char>, b: Seq<char>, x: Seq<char>, y: Seq<char>)
    requires
        a + "_"@ + x == b + "_"@ + y,
        forall|i: int| 0 <= i < a.len() ==> '0' <= #[trigger] a[i] <= '9',
        forall|i: int| 0 <= i < b.len() ==> '0' <= #[trigger] b[i] <= '9',
    ensures
        a == b,
        x == y,
{
    reveal_strlit("_");
    let s = a + "_"@ + x;
    let t = b + "_"@ + y;
    assert(s[a.len() as int] == '_');
    assert(t[b.len() as int] == '_');
    if a.len() < b.len() {
        assert(t[a.len() as int] == b[a.len() as int]);
    }
    if b.len() < a.len() {
        assert(s[b.len() as int] == a[b.len() as int]);
    }
    assert(a =~= s.take(a.len() as int));
    assert(b =~= t.take(b.len() as int));
    assert(x =~= s.skip(a.len() as int + 1));
    assert(y =~= t.skip(b.len() as int + 1));
}

/// Two trays have one name on the bus only where they are of one process and one moment, and
/// every name stands under the one that tray items have in common.
pub proof fn law_bus_names_are_unique(p: u32, n: u32, q: u32, m: u32)
    ensures
        bus_name(p, n) == bus_name(q, m) <==> p == q && n == m,
        "org.freedesktop.StatusNotifierItem.gpui_tray_"@.is_prefix_of(bus_name(p, n)),
{
    let prefix = "org.freedesktop.StatusNotifierItem.gpui_tray_"@;
    let s = decimal(p as nat) + "_"@ + decimal(n as nat);
    let t = decimal(q as nat) + "_"@ + decimal(m as nat);
    assert(prefix =~= bus_name(p, n).subrange(0, prefix.len() as int));
    if bus_name(p, n) == bus_name(q, m) {
        assert(s =~= bus_name(p, n).skip(prefix.len() as int));
        assert(t =~= bus_name(q, m).skip(prefix.len() as int));
        law_decimal(p as nat);
        law_decimal(n as nat);
        law_decimal(q as nat);
        law_decimal(m as nat);
        lemma_digits_end(
            decimal(p as nat),
            decimal(q as nat),
            decimal(n as nat),
            decimal(m as nat),
        );
    }
}

/// The task flushes when it is told to, ends when the tray was closed or nobody is left, and hands
/// on what a host reports exactly where that becomes an event.
pub proof fn law_the_task_does_what_it_is_told(policy: TrayClickPolicy, input: TaskInput)
    ensures
        task_step(policy, input) is Flush <==> input is Flush,
        task_step(policy, input) is Stop <==> input is Close || input is Disconnected,
        task_step(policy, input) is Emit || task_step(policy, input) is Wait <==> input is Report,
        input matches TaskInput::Report(report) ==> {
            &&& reported_event(policy, report) is None <==> task_step(policy, input) is Wait
            &&& reported_event(policy, report) matches Some(event) ==> task_step(policy, input)
                == TaskStepModel::Emit(event)
        },
{
}

/// Hosts are shown the texts, the visibility and the pixmaps of the state, each in its own place.
pub proof fn law_hosts_are_shown_the_state(
    shown: LinuxTrayItem,
    state: StateModel,
    decoded: Option<DecodedIcon>,
)
    requires
        shows_state(shown, state, decoded),
    ensures
        shown_status(shown).visible == state.visible,
        shown_status(shown).title == state.title,
        shown_status(shown).tooltip == state.tooltip,
        shown_status(shown).description == state.description,
        shown_status(shown).icon_pixmaps == shown_pixmaps(decoded),
        shown.visible == state.visible,
        shown.title@ == state.title,
        shown.tooltip@ == state.tooltip,
        shown.description@ == state.description,
        pixmap_models(shown.icon_pixmaps@) == shown_pixmaps(decoded),
        shown.menu@ == menu_nodes(state.submenus),
        state.click_policy matches Some(policy) ==> shown.click_policy == policy,
{
}

/// Every layout has another number than the one before it, and hosts are told that number, but
/// for the one after the largest.
pub proof fn law_revisions_count_up(revision: u32)
    ensures
        next_revision(revision) != revision,
        revision < u32::MAX ==> next_revision(revision) == revision + 1,
        revision < u32::MAX ==> told_revision(revision) == next_revision(revision),
        told_revision(u32::MAX) == u32::MAX,
        next_revision(u32::MAX) == 0,
{
}

} // verus!
