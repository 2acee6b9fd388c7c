//! What a tray is to show.

use std::rc::Rc;

use vstd::prelude::*;

use crate::click::{TargetOs, TrayClickAction, TrayClickPolicy};
use crate::menu_item::{clone_items, item_models, ItemModel, TrayMenuItem};
use crate::text::IntoText;

verus! {

/// Whether `bits` is the IEEE 754 binary64 form of a number that is finite and positive: sign
/// bit clear, exponent not all ones, and not zero.
pub open spec fn is_finite_positive(bits: u64) -> bool {
    &&& bits >> 63 == 0
    &&& (bits >> 52) & 0x7ff != 0x7ff
    &&& bits != 0
}

/// A length in logical points: a finite, positive number, held in its IEEE 754 binary64 form.
#[derive(Clone, Copy, Debug, PartialEq, Eq, Structural)]
pub struct LogicalPoints {
    bits: u64,
}

impl View for LogicalPoints {
    type V = u64;

    closed spec fn view(&self) -> u64 {
        self.bits
    }
}

impl LogicalPoints {
    #[verifier::type_invariant]
    spec fn valid(self) -> bool {
        is_finite_positive(self.bits)
    }

    /// The length whose binary64 form is `bits`, if that is a finite, positive number.
    pub fn from_bits(bits: u64) -> (points: Option<Self>)
        ensures
            match points {
                Some(points) => is_finite_positive(bits) && points@ == bits,
                None => !is_finite_positive(bits),
            },
    {
        assert(is_finite_positive(bits) <==> 0 < bits && bits < 0x7ff0_0000_0000_0000)
            by (bit_vector);
        if 0 < bits && bits < 0x7ff0_0000_0000_0000 {
            Some(LogicalPoints { bits })
        } else {
            None
        }
    }

    /// The binary64 form of the length.
    pub fn to_bits(&self) -> (bits: u64)
        ensures
            bits == self@,
            is_finite_positive(bits),
    {
        proof {
            use_type_invariant(self);
        }
        self.bits
    }

    /// The size that icons have where no other was asked for: 18 points.
    pub fn default_icon_size() -> (points: Self)
        ensures
            points@ == DEFAULT_ICON_SIZE,
    {
        assert(is_finite_positive(0x4032_0000_0000_0000)) by (bit_vector);
        LogicalPoints { bits: DEFAULT_ICON_SIZE }
    }
}

/// The binary64 form of 18.
pub const DEFAULT_ICON_SIZE: u64 = 0x4032_0000_0000_0000;

/// An encoded picture.
#[derive(Debug)]
pub struct TrayImage {
    /// The MIME type of the encoding.
    pub mime_type: String,
    pub bytes: Vec<u8>,
}

/// A picture as a mathematical value.
pub struct ImageModel {
    pub mime_type: Seq<char>,
    pub bytes: Seq<u8>,
}

impl View for TrayImage {
    type V = ImageModel;

    open spec fn view(&self) -> ImageModel {
        ImageModel { mime_type: self.mime_type@, bytes: self.bytes@ }
    }
}

/// What a tray is to show, and how it takes clicks.
pub struct TrayState {
    pub visible: bool,
    pub icon: Option<Rc<TrayImage>>,
    pub icon_size: LogicalPoints,
    pub icon_template: bool,
    pub title: String,
    pub tooltip: String,
    pub description: String,
    pub submenus: Vec<TrayMenuItem>,
    /// What clicks do; `None` stands for the default of the system that the tray runs on.
    pub click_policy: Option<TrayClickPolicy>,
}

/// The state of a tray as a mathematical value.
#[verifier::ext_equal]
pub struct StateModel {
    pub visible: bool,
    pub icon: Option<ImageModel>,
    pub icon_size: u64,
    pub icon_template: bool,
    pub title: Seq<char>,
    pub tooltip: Seq<char>,
    pub description: Seq<char>,
    pub submenus: Seq<ItemModel>,
    pub click_policy: Option<TrayClickPolicy>,
}

/// The model of a picture, where there is one.
pub open spec fn opt_image(icon: Option<Rc<TrayImage>>) -> Option<ImageModel> {
    match icon {
        Some(icon) => Some(icon@),
        None => None,
    }
}

impl View for TrayState {
    type V = StateModel;

    open spec fn view(&self) -> StateModel {
        StateModel {
            visible: self.visible,
            icon: opt_image(self.icon),
            icon_size: self.icon_size@,
            icon_template: self.icon_template,
            title: self.title@,
            tooltip: self.tooltip@,
            description: self.description@,
            submenus: item_models(self.submenus@),
            click_policy: self.click_policy,
        }
    }
}

impl StateModel {
    /// A visible tray without icon, texts and menu.
    pub open spec fn fresh() -> StateModel {
        StateModel {
            visible: true,
            icon: None,
            icon_size: DEFAULT_ICON_SIZE,
            icon_template: true,
            title: Seq::empty(),
            tooltip: Seq::empty(),
            description: Seq::empty(),
            submenus: Seq::empty(),
            click_policy: None,
        }
    }

    /// What clicks do on the system.
    pub open spec fn policy_on(self, os: TargetOs) -> TrayClickPolicy {
        match self.click_policy {
            Some(policy) => policy,
            None => TrayClickPolicy::default_for(os),
        }
    }
}

impl Clone for TrayState {
    fn clone(&self) -> (res: Self)
        ensures
            res@ == self@,
    {
        TrayState {
            visible: self.visible,
            icon: match &self.icon {
                Some(icon) => Some(icon.clone()),
                None => None,
            },
            icon_size: self.icon_size,
            icon_template: self.icon_template,
            title: self.title.clone(),
            tooltip: self.tooltip.clone(),
            description: self.description.clone(),
            submenus: clone_items(&self.submenus),
            click_policy: self.click_policy,
        }
    }
}

impl Default for TrayState {
    fn default() -> (state: Self)
        ensures
            state@ == StateModel::fresh(),
    {
        TrayState::new()
    }
}

impl TrayState {
    /// A visible tray without icon, texts and menu; clicks do what they do by default on the
    /// system that the tray runs on.
    pub fn new() -> (state: Self)
        ensures
            state@ == StateModel::fresh(),
    {
        TrayState {
            visible: true,
            icon: None,
            icon_size: LogicalPoints::default_icon_size(),
            icon_template: true,
            title: String::new(),
            tooltip: String::new(),
            description: String::new(),
            submenus: Vec::new(),
            click_policy: None,
        }
    }

    /// Shows or hides the tray.
    pub fn visible(self, visible: bool) -> (state: Self)
        ensures
            state@ == (StateModel { visible, ..self@ }),
    {
        let mut state = self;
        state.visible = visible;
        state
    }

    /// Sets the icon.
    pub fn icon(self, icon: TrayImage) -> (state: Self)
        ensures
            state@ == (StateModel { icon: Some(icon@), ..self@ }),
    {
        let mut state = self;
        state.icon = Some(Rc::new(icon));
        state
    }

    /// Sets the title.
    pub fn title(self, title: impl IntoText) -> (state: Self)
        ensures
            state@ == (StateModel { title: title.text(), ..self@ }),
    {
        let mut state = self;
        state.title = title.into_text();
        state
    }

    /// macOS: fit the icon inside a square of this size in logical points. Defaults to 18
    /// points. Source pixels are retained for high-density displays. Other systems ignore it.
    pub fn icon_size(self, points: LogicalPoints) -> (state: Self)
        ensures
            state@ == (StateModel { icon_size: points@, ..self@ }),
    {
        let mut state = self;
        state.icon_size = points;
        state
    }

    /// macOS: let the system tint the alpha mask for the current appearance. Defaults to true.
    /// Set false to preserve colored artwork.
    pub fn icon_template(self, template: bool) -> (state: Self)
        ensures
            state@ == (StateModel { icon_template: template, ..self@ }),
    {
        let mut state = self;
        state.icon_template = template;
        state
    }

    /// Sets the tooltip.
    pub fn tooltip(self, tooltip: impl IntoText) -> (state: Self)
        ensures
            state@ == (StateModel { tooltip: tooltip.text(), ..self@ }),
    {
        let mut state = self;
        state.tooltip = tooltip.into_text();
        state
    }

    /// Sets the description.
    pub fn description(self, description: impl IntoText) -> (state: Self)
        ensures
            state@ == (StateModel { description: description.text(), ..self@ }),
    {
        let mut state = self;
        state.description = description.into_text();
        state
    }

    /// Adds an item at the end of the menu.
    pub fn submenu(self, submenu: TrayMenuItem) -> (state: Self)
        ensures
            state@ == (StateModel { submenus: self@.submenus.push(submenu@), ..self@ }),
    {
        let mut state = self;
        let ghost before = state.submenus@;
        state.submenus.push(submenu);
        assert(state.submenus@.drop_last() =~= before);
        state
    }

    /// Sets what clicks do.
    pub fn click_policy(self, click_policy: TrayClickPolicy) -> (state: Self)
        ensures
            state@ == (StateModel { click_policy: Some(click_policy), ..self@ }),
    {
        let mut state = self;
        state.click_policy = Some(click_policy);
        state
    }

    /// What clicks do on the system.
    pub fn policy_on(&self, os: TargetOs) -> (policy: TrayClickPolicy)
        ensures
            policy == self@.policy_on(os),
    {
        match self.click_policy {
            Some(policy) => policy,
            None => TrayClickPolicy::platform_default(os),
        }
    }
}

/// The numbers that an icon size can be are those from the least positive one to the greatest
/// finite one; zero, negative numbers, infinities and what is not a number are not among them.
pub proof fn law_icon_sizes(bits: u64)
    ensures
        is_finite_positive(bits) <==> 1 <= bits <= 0x7fef_ffff_ffff_ffff,
{
    assert(is_finite_positive(bits) <==> 1 <= bits && bits <= 0x7fef_ffff_ffff_ffff)
        by (bit_vector);
}

/// A new state is that of a visible tray with an icon size of 18 points that would tint an icon;
/// it has no icon, no texts, no menu and no policy of its own.
pub proof fn law_new_states()
    ensures
        ({
            let state = StateModel::fresh();
            let exponent = state.icon_size >> 52;
            let fraction = state.icon_size & 0xf_ffff_ffff_ffff;
            &&& state.visible && state.icon_template
            &&& exponent == 1023 + 4
            &&& (0x10_0000_0000_0000 + fraction) * 16 == 18 * 0x10_0000_0000_0000
            &&& state.icon is None
            &&& state.title.len() == 0 && state.tooltip.len() == 0 && state.description.len() == 0
            &&& state.submenus.len() == 0
            &&& state.click_policy is None
        }),
{
    assert(0x4032_0000_0000_0000u64 >> 52 == 1027) by (bit_vector);
    assert(0x4032_0000_0000_0000u64 & 0xf_ffff_ffff_ffff == 0x2_0000_0000_0000) by (bit_vector);
}

/// A policy that a state names counts on every system; where it names none, that of the system
/// counts: on macOS every click opens the menu, elsewhere only one with the right button does,
/// and the others emit events.
pub proof fn law_policies_of_states(state: StateModel, os: TargetOs)
    ensures
        state.click_policy matches Some(policy) ==> state.policy_on(os) == policy,
        state.click_policy is None && os == TargetOs::MacOs ==> {
            &&& state.policy_on(os).left == TrayClickAction::OpenMenu
            &&& state.policy_on(os).right == TrayClickAction::OpenMenu
            &&& state.policy_on(os).double_click == TrayClickAction::OpenMenu
        },
        state.click_policy is None && os != TargetOs::MacOs ==> {
            &&& state.policy_on(os).left == TrayClickAction::EmitEvent
            &&& state.policy_on(os).right == TrayClickAction::OpenMenu
            &&& state.policy_on(os).double_click == TrayClickAction::EmitEvent
        },
{
}

/// The model of a state holds everything that the state holds.
pub proof fn law_state_models_are_the_states(state: TrayState)
    ensures
        state@.visible == state.visible,
        state@.icon is Some == state.icon is Some,
        state.icon matches Some(icon) ==> state@.icon->0.mime_type == icon.mime_type@
            && state@.icon->0.bytes == icon.bytes@,
        state@.icon_size == state.icon_size@,
        state@.icon_template == state.icon_template,
        state@.title == state.title@,
        state@.tooltip == state.tooltip@,
        state@.description == state.description@,
        state@.submenus == item_models(state.submenus@),
        state@.click_policy == state.click_policy,
{
}

} // verus!
