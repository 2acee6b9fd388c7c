//! Clicks on the tray icon: what they are, what they do, and the events they become.

use vstd::prelude::*;

verus! {

/// What a click on the tray icon does.
#[derive(Clone, Copy, Debug, PartialEq, Eq, Structural)]
pub enum TrayClickAction {
    EmitEvent,
    OpenMenu,
    Ignore,
}

/// Whether a click came alone or is the second of a pair.
#[derive(Clone, Copy, Debug, PartialEq, Eq, Structural)]
pub enum TrayClickKind {
    Single,
    Double,
}

/// The system that a tray runs on.
#[derive(Clone, Copy, Debug, PartialEq, Eq, Structural)]
pub enum TargetOs {
    Linux,
    MacOs,
    Windows,
    Other,
}

/// What each click on the tray icon does.
#[derive(Clone, Copy, Debug, PartialEq, Eq, Structural)]
pub struct TrayClickPolicy {
    pub left: TrayClickAction,
    pub right: TrayClickAction,
    pub double_click: TrayClickAction,
}

impl TrayClickPolicy {
    /// What clicks do where nothing else was asked for: on macOS every click opens the menu;
    /// elsewhere the right button does, and the other clicks emit events.
    pub open spec fn default_for(os: TargetOs) -> TrayClickPolicy {
        if os == TargetOs::MacOs {
            TrayClickPolicy {
                left: TrayClickAction::OpenMenu,
                right: TrayClickAction::OpenMenu,
                double_click: TrayClickAction::OpenMenu,
            }
        } else {
            TrayClickPolicy {
                left: TrayClickAction::EmitEvent,
                right: TrayClickAction::OpenMenu,
                double_click: TrayClickAction::EmitEvent,
            }
        }
    }

    /// What clicks do where nothing else was asked for.
    pub fn platform_default(os: TargetOs) -> (policy: Self)
        ensures
            policy == Self::default_for(os),
    {
        match os {
            TargetOs::MacOs => Self {
                left: TrayClickAction::OpenMenu,
                right: TrayClickAction::OpenMenu,
                double_click: TrayClickAction::OpenMenu,
            },
            _ => Self {
                left: TrayClickAction::EmitEvent,
                right: TrayClickAction::OpenMenu,
                double_click: TrayClickAction::EmitEvent,
            },
        }
    }

    /// Sets what a click with the left button does.
    pub fn left(self, action: TrayClickAction) -> (policy: Self)
        ensures
            policy == (TrayClickPolicy { left: action, ..self }),
    {
        Self { left: action, right: self.right, double_click: self.double_click }
    }

    /// Sets what a click with the right button does.
    pub fn right(self, action: TrayClickAction) -> (policy: Self)
        ensures
            policy == (TrayClickPolicy { right: action, ..self }),
    {
        Self { left: self.left, right: action, double_click: self.double_click }
    }

    /// Sets what a double click does.
    pub fn double_click(self, action: TrayClickAction) -> (policy: Self)
        ensures
            policy == (TrayClickPolicy { double_click: action, ..self }),
    {
        Self { left: self.left, right: self.right, double_click: action }
    }
}

/// A mouse button that the tray reports.
#[derive(Clone, Copy, Debug, PartialEq, Eq, Structural)]
pub enum MouseButton {
    Left,
    Right,
}

/// A position on the screen, or an amount of scrolling.
#[derive(Clone, Copy, Debug, PartialEq, Eq, Structural)]
pub struct Point {
    pub x: i32,
    pub y: i32,
}

/// What the tray reports to the program.
#[derive(Debug)]
pub enum TrayEvent {
    TrayClick { button: MouseButton, kind: TrayClickKind, position: Point },
    Scroll { scroll_detal: Point },
    MenuClick { id: String },
}

/// An event as a mathematical value.
pub enum EventModel {
    TrayClick { button: MouseButton, kind: TrayClickKind, position: Point },
    Scroll { scroll_detal: Point },
    MenuClick { id: Seq<char> },
}

impl View for TrayEvent {
    type V = EventModel;

    open spec fn view(&self) -> EventModel {
        match *self {
            TrayEvent::TrayClick { button, kind, position } => EventModel::TrayClick {
                button,
                kind,
                position,
            },
            TrayEvent::Scroll { scroll_detal } => EventModel::Scroll { scroll_detal },
            TrayEvent::MenuClick { id } => EventModel::MenuClick { id: id@ },
        }
    }
}

impl Clone for TrayEvent {
    fn clone(&self) -> (res: Self)
        ensures
            res@ == self@,
    {
        match self {
            TrayEvent::TrayClick { button, kind, position } => TrayEvent::TrayClick {
                button: *button,
                kind: *kind,
                position: *position,
            },
            TrayEvent::Scroll { scroll_detal } => TrayEvent::Scroll { scroll_detal: *scroll_detal },
            TrayEvent::MenuClick { id } => TrayEvent::MenuClick { id: id.clone() },
        }
    }
}

/// The model of an event, where there is one.
pub open spec fn opt_event(event: Option<TrayEvent>) -> Option<EventModel> {
    match event {
        Some(event) => Some(event@),
        None => None,
    }
}

/// The event that a click becomes on a system whose host opens the menu by itself: only an
/// action that emits makes one.
pub open spec fn click_event(
    action: TrayClickAction,
    button: MouseButton,
    kind: TrayClickKind,
    position: Point,
) -> Option<EventModel> {
    if action == TrayClickAction::EmitEvent {
        Some(EventModel::TrayClick { button, kind, position })
    } else {
        None
    }
}

/// The event that a click becomes on a system whose host opens the menu by itself.
pub fn map_click_event(
    action: TrayClickAction,
    button: MouseButton,
    kind: TrayClickKind,
    position: Point,
) -> (event: Option<TrayEvent>)
    ensures
        opt_event(event) == click_event(action, button, kind, position),
{
    match action {
        TrayClickAction::EmitEvent => Some(TrayEvent::TrayClick { button, kind, position }),
        TrayClickAction::OpenMenu | TrayClickAction::Ignore => None,
    }
}

/// A click as the policy tells them apart.
#[derive(Clone, Copy, Debug, PartialEq, Eq, Structural)]
pub enum Gesture {
    LeftSingle,
    RightSingle,
    LeftDouble,
}

impl Gesture {
    /// The button of the click.
    pub open spec fn button_of(self) -> MouseButton {
        if self == Gesture::RightSingle {
            MouseButton::Right
        } else {
            MouseButton::Left
        }
    }

    /// Whether the click came alone.
    pub open spec fn kind_of(self) -> TrayClickKind {
        if self == Gesture::LeftDouble {
            TrayClickKind::Double
        } else {
            TrayClickKind::Single
        }
    }

    /// What the policy says of the click.
    pub open spec fn action_under(self, policy: TrayClickPolicy) -> TrayClickAction {
        match self {
            Gesture::LeftSingle => policy.left,
            Gesture::RightSingle => policy.right,
            Gesture::LeftDouble => policy.double_click,
        }
    }
}

/// What is to be done about a click.
#[derive(Debug)]
pub enum ClickOutcome {
    Emit(TrayEvent),
    OpenMenu,
    Nothing,
}

/// What is to be done about a click, as a mathematical value.
pub enum OutcomeModel {
    Emit(EventModel),
    OpenMenu,
    Nothing,
}

impl View for ClickOutcome {
    type V = OutcomeModel;

    open spec fn view(&self) -> OutcomeModel {
        match *self {
            ClickOutcome::Emit(event) => OutcomeModel::Emit(event@),
            ClickOutcome::OpenMenu => OutcomeModel::OpenMenu,
            ClickOutcome::Nothing => OutcomeModel::Nothing,
        }
    }
}

/// What a click at `position` does under the policy.
pub open spec fn click_outcome(
    policy: TrayClickPolicy,
    gesture: Gesture,
    position: Point,
) -> OutcomeModel {
    match gesture.action_under(policy) {
        TrayClickAction::EmitEvent => OutcomeModel::Emit(
            EventModel::TrayClick {
                button: gesture.button_of(),
                kind: gesture.kind_of(),
                position,
            },
        ),
        TrayClickAction::OpenMenu => OutcomeModel::OpenMenu,
        TrayClickAction::Ignore => OutcomeModel::Nothing,
    }
}

/// What a click at `position` does under the policy; a click that the tray does not know does
/// nothing.
pub fn handle_click(policy: TrayClickPolicy, gesture: Option<Gesture>, position: Point) -> (outcome:
    ClickOutcome)
    ensures
        outcome@ == match gesture {
            Some(gesture) => click_outcome(policy, gesture, position),
            None => OutcomeModel::Nothing,
        },
{
    let (action, button, kind) = match gesture {
        Some(Gesture::LeftSingle) => (policy.left, MouseButton::Left, TrayClickKind::Single),
        Some(Gesture::RightSingle) => (policy.right, MouseButton::Right, TrayClickKind::Single),
        Some(Gesture::LeftDouble) => (
            policy.double_click,
            MouseButton::Left,
            TrayClickKind::Double,
        ),
        None => {
            return ClickOutcome::Nothing;
        },
    };
    match action {
        TrayClickAction::EmitEvent => ClickOutcome::Emit(
            TrayEvent::TrayClick { button, kind, position },
        ),
        TrayClickAction::OpenMenu => ClickOutcome::OpenMenu,
        TrayClickAction::Ignore => ClickOutcome::Nothing,
    }
}

/// A mouse button that was let go over the status item of macOS.
#[derive(Clone, Copy, Debug, PartialEq, Eq, Structural)]
pub enum MouseUp {
    Left,
    Right,
    Other,
}

/// The click that letting a button go on macOS ends, where `click_count` counts the clicks in
/// quick succession.
pub open spec fn mouse_up_gesture(up: MouseUp, click_count: isize) -> Option<Gesture> {
    match up {
        MouseUp::Right => Some(Gesture::RightSingle),
        MouseUp::Left => if click_count >= 2 {
            Some(Gesture::LeftDouble)
        } else {
            Some(Gesture::LeftSingle)
        },
        MouseUp::Other => None,
    }
}

/// What letting a button go over the status item of macOS does under the policy.
pub fn handle_mouse_up(policy: TrayClickPolicy, up: MouseUp, click_count: isize, position: Point)
    -> (outcome: ClickOutcome)
    ensures
        outcome@ == match mouse_up_gesture(up, click_count) {
            Some(gesture) => click_outcome(policy, gesture, position),
            None => OutcomeModel::Nothing,
        },
{
    let gesture: Option<Gesture> = match up {
        MouseUp::Right => Some(Gesture::RightSingle),
        MouseUp::Left => if click_count >= 2 {
            Some(Gesture::LeftDouble)
        } else {
            Some(Gesture::LeftSingle)
        },
        MouseUp::Other => None,
    };
    handle_click(policy, gesture, position)
}

/// Where both single and double clicks of the left button emit events, the two events differ.
pub proof fn law_double_click_emits_a_distinct_event(policy: TrayClickPolicy, position: Point)
    requires
        policy.left == TrayClickAction::EmitEvent,
        policy.double_click == TrayClickAction::EmitEvent,
    ensures
        click_outcome(policy, Gesture::LeftSingle, position) is Emit,
        click_outcome(policy, Gesture::LeftDouble, position) is Emit,
        click_outcome(policy, Gesture::LeftSingle, position) != click_outcome(
            policy,
            Gesture::LeftDouble,
            position,
        ),
{
}

/// What one builder of a policy sets, the others leave alone; the last word on a click counts.
pub proof fn law_policy_settings_are_independent(
    policy: TrayClickPolicy,
    a: TrayClickAction,
    b: TrayClickAction,
)
    ensures
        (TrayClickPolicy { right: b, ..(TrayClickPolicy { left: a, ..policy }) }) == (
        TrayClickPolicy { left: a, ..(TrayClickPolicy { right: b, ..policy }) }),
        Gesture::LeftSingle.action_under(TrayClickPolicy { left: a, ..policy }) == a,
        Gesture::RightSingle.action_under(TrayClickPolicy { left: a, ..policy }) == policy.right,
        Gesture::LeftDouble.action_under(TrayClickPolicy { left: a, ..policy })
            == policy.double_click,
        Gesture::RightSingle.action_under(TrayClickPolicy { right: a, ..policy }) == a,
        Gesture::LeftDouble.action_under(TrayClickPolicy { double_click: a, ..policy }) == a,
{
}

/// Whatever the click, the action that the policy has for it decides alone: the menu opens
/// exactly where that is to open the menu, an event is emitted exactly where that is to emit
/// one, and nothing is done exactly where the click is ignored.
pub proof fn law_the_policy_decides_each_click(policy: TrayClickPolicy, position: Point)
    ensures
        (click_outcome(policy, Gesture::LeftSingle, position) is OpenMenu) <==> policy.left
            == TrayClickAction::OpenMenu,
        (click_outcome(policy, Gesture::LeftSingle, position) is Emit) <==> policy.left
            == TrayClickAction::EmitEvent,
        (click_outcome(policy, Gesture::LeftSingle, position) is Nothing) <==> policy.left
            == TrayClickAction::Ignore,
        (click_outcome(policy, Gesture::RightSingle, position) is OpenMenu) <==> policy.right
            == TrayClickAction::OpenMenu,
        (click_outcome(policy, Gesture::RightSingle, position) is Emit) <==> policy.right
            == TrayClickAction::EmitEvent,
        (click_outcome(policy, Gesture::RightSingle, position) is Nothing) <==> policy.right
            == TrayClickAction::Ignore,
        (click_outcome(policy, Gesture::LeftDouble, position) is OpenMenu)
            <==> policy.double_click == TrayClickAction::OpenMenu,
        (click_outcome(policy, Gesture::LeftDouble, position) is Emit) <==> policy.double_click
            == TrayClickAction::EmitEvent,
        (click_outcome(policy, Gesture::LeftDouble, position) is Nothing)
            <==> policy.double_click == TrayClickAction::Ignore,
{
}

/// An event that a click emits says where the click was, with which button, and whether it was
/// a double click.
pub proof fn law_emitted_clicks_say_what_happened(
    policy: TrayClickPolicy,
    gesture: Gesture,
    position: Point,
)
    requires
        click_outcome(policy, gesture, position) is Emit,
    ensures
        click_outcome(policy, gesture, position)->Emit_0 matches EventModel::TrayClick {
            button,
            kind,
            position: at,
        } && {
            &&& at == position
            &&& button == MouseButton::Right <==> gesture == Gesture::RightSingle
            &&& button == MouseButton::Left <==> gesture != Gesture::RightSingle
            &&& kind == TrayClickKind::Double <==> gesture == Gesture::LeftDouble
            &&& kind == TrayClickKind::Single <==> gesture != Gesture::LeftDouble
        },
{
}

/// By default every click opens the menu on macOS; on every other system the right button does,
/// and clicks and double clicks with the left button emit events.
pub proof fn law_default_clicks(os: TargetOs, gesture: Gesture, position: Point)
    ensures
        os == TargetOs::MacOs ==> click_outcome(
            TrayClickPolicy::default_for(os),
            gesture,
            position,
        ) is OpenMenu,
        os != TargetOs::MacOs && gesture == Gesture::RightSingle ==> click_outcome(
            TrayClickPolicy::default_for(os),
            gesture,
            position,
        ) is OpenMenu,
        os != TargetOs::MacOs && gesture != Gesture::RightSingle ==> click_outcome(
            TrayClickPolicy::default_for(os),
            gesture,
            position,
        ) is Emit,
{
}

/// On macOS the right button counts alone, however often it was pressed; with the left button
/// two clicks or more in quick succession are a double click; other buttons count for nothing.
pub proof fn law_mouse_ups_tell_clicks_apart(up: MouseUp, click_count: isize)
    ensures
        mouse_up_gesture(up, click_count) == Some(Gesture::RightSingle) <==> up == MouseUp::Right,
        mouse_up_gesture(up, click_count) == Some(Gesture::LeftDouble) <==> up == MouseUp::Left
            && click_count > 1,
        mouse_up_gesture(up, click_count) == Some(Gesture::LeftSingle) <==> up == MouseUp::Left
            && click_count <= 1,
        mouse_up_gesture(up, click_count) is None <==> up == MouseUp::Other,
{
}

/// Where the host opens the menu by itself, a click becomes an event exactly where its action
/// is to emit one, and the event says what the click was.
pub proof fn law_click_events_say_what_happened(
    action: TrayClickAction,
    button: MouseButton,
    kind: TrayClickKind,
    position: Point,
)
    ensures
        click_event(action, button, kind, position) is None <==> (action
            == TrayClickAction::OpenMenu || action == TrayClickAction::Ignore),
        click_event(action, button, kind, position) matches Some(event) ==> (event matches
            EventModel::TrayClick { button: b, kind: k, position: p } && b == button && k == kind
            && p == position),
{
}

/// The models of events and outcomes hold everything that these hold.
pub proof fn law_event_models_are_the_events(
    button: MouseButton,
    kind: TrayClickKind,
    position: Point,
    id: String,
    event: TrayEvent,
)
    ensures
        (TrayEvent::TrayClick { button, kind, position })@ == (EventModel::TrayClick {
            button,
            kind,
            position,
        }),
        (TrayEvent::Scroll { scroll_detal: position })@ == (EventModel::Scroll {
            scroll_detal: position,
        }),
        (TrayEvent::MenuClick { id })@ == (EventModel::MenuClick { id: id@ }),
        opt_event(Some(event)) == Some(event@),
        opt_event(None) is None,
        ClickOutcome::Emit(event)@ == OutcomeModel::Emit(event@),
        ClickOutcome::OpenMenu@ == OutcomeModel::OpenMenu,
        ClickOutcome::Nothing@ == OutcomeModel::Nothing,
{
}

} // verus!
