//! The one tray of a thread, and the handles to it.

use vstd::prelude::*;

use crate::error::TrayError;
use crate::runtime::{
    FlushAction, FlushActionModel, FlushEvent, FlushEventModel, RuntimeModel, TrayRuntimeState,
};
use crate::state::{StateModel, TrayState};

verus! {

/// A tray that is set up.
pub struct TrayRuntime {
    pub state: TrayRuntimeState,
    /// Whether the native tray is in its place, not taken out for a flush or a click.
    pub platform_in_place: bool,
    /// Whether a click is being handled.
    pub interaction_active: bool,
}

/// A tray that is set up, as a mathematical value.
pub struct TrayModel {
    pub state: RuntimeModel,
    pub platform_in_place: bool,
    pub interaction_active: bool,
}

impl View for TrayRuntime {
    type V = TrayModel;

    open spec fn view(&self) -> TrayModel {
        TrayModel {
            state: self.state@,
            platform_in_place: self.platform_in_place,
            interaction_active: self.interaction_active,
        }
    }
}

/// The place for the one tray of a thread.
pub struct TraySlot {
    generation: u64,
    runtime: Option<TrayRuntime>,
}

/// The place for a tray, as a mathematical value.
pub struct SlotModel {
    /// The number of trays that have been set up so far.
    pub generation: u64,
    pub tray: Option<TrayModel>,
}

impl View for TraySlot {
    type V = SlotModel;

    closed spec fn view(&self) -> SlotModel {
        SlotModel {
            generation: self.generation,
            tray: match self.runtime {
                Some(runtime) => Some(runtime@),
                None => None,
            },
        }
    }
}

/// A handle to a tray. Clones of a handle stand for the same tray.
#[derive(Clone, Copy, Debug, PartialEq, Eq, Structural)]
pub struct TrayHandle {
    generation: u64,
}

impl View for TrayHandle {
    type V = u64;

    closed spec fn view(&self) -> u64 {
        self.generation
    }
}

impl SlotModel {
    /// A place where no tray was ever set up.
    pub open spec fn unused() -> SlotModel {
        SlotModel { generation: 0, tray: None }
    }

    /// Whether the handle stands for the tray that is set up now.
    pub open spec fn is_open(self, handle: u64) -> bool {
        self.tray is Some && self.generation == handle
    }

    /// The place after a tray has been set up.
    pub open spec fn set_up(self, initial: StateModel) -> SlotModel {
        SlotModel {
            generation: (self.generation + 1) as u64,
            tray: Some(
                TrayModel {
                    state: RuntimeModel::idle().wanting(initial),
                    platform_in_place: true,
                    interaction_active: false,
                },
            ),
        }
    }

    /// The place with another tray in it.
    pub open spec fn with_tray(self, tray: TrayModel) -> SlotModel {
        SlotModel { generation: self.generation, tray: Some(tray) }
    }

    /// The place after the tray has been closed.
    pub open spec fn emptied(self) -> SlotModel {
        SlotModel { generation: self.generation, tray: None }
    }
}

impl TrayModel {
    /// The tray after an attempt to begin a flush. While a click is being handled none begins.
    pub open spec fn begun(self) -> TrayModel {
        if !self.interaction_active && self.state.can_begin() {
            TrayModel { state: self.state.begun(), platform_in_place: false, ..self }
        } else {
            self
        }
    }

    /// What an attempt to begin a flush asks for: the native tray has to be in its place.
    pub open spec fn begin_result(self) -> Result<FlushActionModel, TrayError> {
        if self.interaction_active || !self.state.can_begin() {
            Ok(FlushActionModel::Done)
        } else if !self.platform_in_place {
            Err(TrayError::PlatformMissingDuringFlush)
        } else {
            Ok(self.state.begin_action())
        }
    }

    /// The tray after a flush has ended, with the native tray back in its place.
    pub open spec fn ended(self, event: FlushEventModel) -> TrayModel {
        TrayModel {
            state: match event {
                FlushEventModel::Start => self.state,
                FlushEventModel::Applied(state) => self.state.finished(state),
                FlushEventModel::ApplyFailed => self.state.aborted(),
            },
            platform_in_place: true,
            ..self
        }
    }

    /// Whether another flush begins when one has ended.
    pub open spec fn goes_on(self, event: FlushEventModel) -> bool {
        event matches FlushEventModel::Applied(state) && self.state.due_after(state)
    }

    /// The tray after a step of a series of flushes.
    pub open spec fn stepped(self, event: FlushEventModel) -> TrayModel {
        if event is Start {
            self.begun()
        } else if self.goes_on(event) {
            self.ended(event).begun()
        } else {
            self.ended(event)
        }
    }

    /// What a step of a series of flushes asks for.
    pub open spec fn step_result(self, event: FlushEventModel) -> Result<
        FlushActionModel,
        TrayError,
    > {
        if event is Start {
            self.begin_result()
        } else if self.goes_on(event) {
            self.ended(event).begin_result()
        } else {
            Ok(FlushActionModel::Done)
        }
    }

    /// The tray that wants `state` from now on.
    pub open spec fn wanting(self, state: StateModel) -> TrayModel {
        TrayModel { state: self.state.wanting(state), ..self }
    }

    /// The native tray is in its place unless a flush or a click has it.
    pub open spec fn wf(self) -> bool {
        &&& self.state.wf()
        &&& self.platform_in_place || self.state.flushing || self.interaction_active
    }

    /// Whether nothing has the native tray and the wanted state is not the shown one.
    pub open spec fn lags(self) -> bool {
        &&& !self.interaction_active
        &&& !self.state.flushing
        &&& self.state.desired matches Some(desired)
        &&& !(self.state.applied matches Some(applied) && applied.version == desired.version)
    }

    /// The tray with a flush waiting where the wanted state is not the shown one.
    pub open spec fn pushing(self) -> TrayModel {
        if self.lags() {
            TrayModel { state: self.state.requested(), ..self }
        } else {
            self
        }
    }

    /// The tray while a click is being handled.
    pub open spec fn clicking(self) -> TrayModel {
        TrayModel { interaction_active: true, platform_in_place: false, ..self }
    }

    /// The tray after a click has been handled.
    pub open spec fn clicked(self) -> TrayModel {
        TrayModel { interaction_active: false, platform_in_place: true, ..self }
    }
}

impl SlotModel {
    /// What closing with this handle answers: whether the native tray is to be removed, or that
    /// the menu is open.
    pub open spec fn close_result(self, handle: u64) -> Result<bool, TrayError> {
        if self.is_open(handle) && self.tray->0.interaction_active {
            Err(TrayError::MenuActive)
        } else {
            Ok(self.is_open(handle))
        }
    }

    /// The place after closing with this handle.
    pub open spec fn closed_with(self, handle: u64) -> SlotModel {
        if self.close_result(handle) == Ok::<bool, TrayError>(true) {
            self.emptied()
        } else {
            self
        }
    }

    /// What setting a state with this handle answers: whether the caller has to see to a flush,
    /// or that the tray is closed.
    pub open spec fn update_result(self, handle: u64) -> Result<bool, TrayError> {
        if self.is_open(handle) {
            Ok(!self.tray->0.state.flush_scheduled)
        } else {
            Err(TrayError::Closed)
        }
    }

    /// The place after setting a state with this handle.
    pub open spec fn updated_with(self, handle: u64, state: StateModel) -> SlotModel {
        if self.is_open(handle) {
            self.with_tray(self.tray->0.wanting(state))
        } else {
            self
        }
    }

    /// The place that an eager flush with this handle begins from.
    pub open spec fn pushing_with(self, handle: u64) -> SlotModel {
        if self.is_open(handle) {
            self.with_tray(self.tray->0.pushing())
        } else {
            self
        }
    }

    /// What an eager flush with this handle asks for.
    pub open spec fn eager_result(self, handle: u64) -> Result<FlushActionModel, TrayError> {
        if self.is_open(handle) {
            slot_step_result(self.pushing_with(handle), FlushEventModel::Start)
        } else {
            Err(TrayError::Closed)
        }
    }

    /// The place after an eager flush with this handle has begun.
    pub open spec fn eagerly_flushed(self, handle: u64) -> SlotModel {
        if self.is_open(handle) {
            slot_stepped(self.pushing_with(handle), FlushEventModel::Start)
        } else {
            self
        }
    }

    /// What taking the native tray out for a click answers.
    pub open spec fn click_result(self) -> Result<(), TrayError> {
        match self.tray {
            None => Err(TrayError::NotInitialized),
            Some(tray) => if tray.platform_in_place {
                Ok(())
            } else {
                Err(TrayError::PlatformMissingDuringClick)
            },
        }
    }

    /// The place while a click is being handled.
    pub open spec fn click_begun(self) -> SlotModel {
        match self.tray {
            None => self,
            Some(tray) => self.with_tray(tray.clicking()),
        }
    }

    /// What putting the native tray back after a click answers: whether a flush is waiting.
    pub open spec fn click_end_result(self) -> Result<bool, TrayError> {
        match self.tray {
            None => Err(TrayError::NotInitialized),
            Some(tray) => Ok(tray.state.flush_scheduled),
        }
    }

    /// The place after a click has been handled.
    pub open spec fn click_ended(self) -> SlotModel {
        match self.tray {
            None => self,
            Some(tray) => self.with_tray(tray.clicked()),
        }
    }

    /// What setting a tray up answers: the number of its handle.
    pub open spec fn set_up_result(self) -> Result<u64, TrayError> {
        if self.tray is None {
            Ok((self.generation + 1) as u64)
        } else {
            Err(TrayError::AlreadyInitialized)
        }
    }

    /// The place after a tray was to be set up.
    pub open spec fn set_up_if_free(self, initial: StateModel) -> SlotModel {
        if self.tray is None {
            self.set_up(initial)
        } else {
            self
        }
    }
}

/// The place after a step of a series of flushes.
pub open spec fn slot_stepped(slot: SlotModel, event: FlushEventModel) -> SlotModel {
    match slot.tray {
        Some(tray) => slot.with_tray(tray.stepped(event)),
        None => slot,
    }
}

/// What a step of a series of flushes asks for: a tray has to be set up.
pub open spec fn slot_step_result(slot: SlotModel, event: FlushEventModel) -> Result<
    FlushActionModel,
    TrayError,
> {
    match slot.tray {
        Some(tray) => tray.step_result(event),
        None => Err(TrayError::NotInitialized),
    }
}

/// The model of what comes next, or of the error.
pub open spec fn action_models(res: Result<FlushAction, TrayError>) -> Result<
    FlushActionModel,
    TrayError,
> {
    match res {
        Ok(action) => Ok(action@),
        Err(e) => Err(e),
    }
}

impl TraySlot {
    /// A place without a tray.
    pub fn new() -> (slot: Self)
        ensures
            slot@ == SlotModel::unused(),
    {
        TraySlot { generation: 0, runtime: None }
    }

    /// The number of trays that have been set up so far.
    pub fn generation(&self) -> (generation: u64)
        ensures
            generation == self@.generation,
    {
        self.generation
    }
}

/// Sets the tray up, if none is set up; a flush is waiting then.
pub fn set_up_tray(slot: &mut TraySlot, initial: TrayState) -> (res: Result<TrayHandle, TrayError>)
    requires
        old(slot)@.generation < u64::MAX,
    ensures
        match res {
            Ok(handle) => {
                &&& old(slot)@.tray is None
                &&& final(slot)@ == old(slot)@.set_up(initial@)
                &&& handle@ == final(slot)@.generation
            },
            Err(e) => {
                &&& old(slot)@.tray is Some
                &&& e == TrayError::AlreadyInitialized
                &&& final(slot)@ == old(slot)@
            },
        },
        res matches Ok(handle) ==> old(slot)@.set_up_result() == Ok::<u64, TrayError>(handle@),
        res matches Err(e) ==> old(slot)@.set_up_result() == Err::<u64, TrayError>(e),
        final(slot)@ == old(slot)@.set_up_if_free(initial@),
{
    if slot.runtime.is_some() {
        return Err(TrayError::AlreadyInitialized);
    }
    slot.generation = slot.generation + 1;
    slot.runtime = Some(
        TrayRuntime {
            state: TrayRuntimeState::new(initial),
            platform_in_place: true,
            interaction_active: false,
        },
    );
    Ok(TrayHandle { generation: slot.generation })
}

/// One step of a series of flushes: the caller shows what the step asks for and reports how
/// that went, until nothing is left to do.
pub fn flush_runtime(slot: &mut TraySlot, event: FlushEvent) -> (res: Result<
    FlushAction,
    TrayError,
>)
    ensures
        final(slot)@ == slot_stepped(old(slot)@, event@),
        action_models(res) == slot_step_result(old(slot)@, event@),
{
    let mut runtime = match slot.runtime.take() {
        Some(runtime) => runtime,
        None => {
            return Err(TrayError::NotInitialized);
        },
    };
    let goes_on: bool = match event {
        FlushEvent::Start => true,
        FlushEvent::Applied(state) => {
            runtime.platform_in_place = true;
            runtime.state.finish_flush(state)
        },
        FlushEvent::ApplyFailed => {
            runtime.platform_in_place = true;
            runtime.state.abort_flush();
            false
        },
    };
    let res: Result<FlushAction, TrayError> = if !goes_on || runtime.interaction_active {
        Ok(FlushAction::Done)
    } else {
        match runtime.state.try_begin_flush() {
            None => Ok(FlushAction::Done),
            Some(state) => if runtime.platform_in_place {
                runtime.platform_in_place = false;
                Ok(FlushAction::Apply(state))
            } else {
                Err(TrayError::PlatformMissingDuringFlush)
            },
        }
    };
    slot.runtime = Some(runtime);
    res
}

/// Takes the native tray out to handle a click.
pub fn begin_click(slot: &mut TraySlot) -> (res: Result<(), TrayError>)
    ensures
        match old(slot)@.tray {
            None => {
                &&& res == Err::<(), TrayError>(TrayError::NotInitialized)
                &&& final(slot)@ == old(slot)@
            },
            Some(tray) => {
                &&& res == if tray.platform_in_place {
                    Ok::<(), TrayError>(())
                } else {
                    Err::<(), TrayError>(TrayError::PlatformMissingDuringClick)
                }
                &&& final(slot)@ == old(slot)@.with_tray(tray.clicking())
            },
        },
        res == old(slot)@.click_result(),
        final(slot)@ == old(slot)@.click_begun(),
{
    let mut runtime = match slot.runtime.take() {
        Some(runtime) => runtime,
        None => {
            return Err(TrayError::NotInitialized);
        },
    };
    let in_place: bool = runtime.platform_in_place;
    runtime.interaction_active = true;
    runtime.platform_in_place = false;
    slot.runtime = Some(runtime);
    if in_place {
        Ok(())
    } else {
        Err(TrayError::PlatformMissingDuringClick)
    }
}

/// Puts the native tray back after a click. Returns whether a flush is waiting, which the
/// caller has to see to.
pub fn finish_click(slot: &mut TraySlot) -> (res: Result<bool, TrayError>)
    ensures
        match old(slot)@.tray {
            None => {
                &&& res == Err::<bool, TrayError>(TrayError::NotInitialized)
                &&& final(slot)@ == old(slot)@
            },
            Some(tray) => {
                &&& res == Ok::<bool, TrayError>(tray.state.flush_scheduled)
                &&& final(slot)@ == old(slot)@.with_tray(tray.clicked())
            },
        },
        res == old(slot)@.click_end_result(),
        final(slot)@ == old(slot)@.click_ended(),
{
    let mut runtime = match slot.runtime.take() {
        Some(runtime) => runtime,
        None => {
            return Err(TrayError::NotInitialized);
        },
    };
    runtime.platform_in_place = true;
    runtime.interaction_active = false;
    let pending: bool = runtime.state.has_pending_flush();
    slot.runtime = Some(runtime);
    Ok(pending)
}

impl TrayRuntime {
    /// Whether nothing has the native tray and the wanted state is not the shown one.
    fn lags(&self) -> (lags: bool)
        ensures
            lags == self@.lags(),
    {
        if self.interaction_active || self.state.flushing {
            return false;
        }
        match (&self.state.desired_state, &self.state.applied_state) {
            (Some(desired), Some(applied)) => desired.version != applied.version,
            (Some(_), None) => true,
            (None, _) => false,
        }
    }
}

impl TrayHandle {
    /// Whether the tray of the handle was closed.
    pub fn is_closed(&self, slot: &TraySlot) -> (closed: bool)
        ensures
            closed == !slot@.is_open(self@),
    {
        slot.runtime.is_none() || slot.generation != self.generation
    }

    /// Wants `state` from now on. Returns whether the caller has to see to a flush.
    pub fn set_state(&self, slot: &mut TraySlot, state: TrayState) -> (res: Result<bool, TrayError>)
        ensures
            if old(slot)@.is_open(self@) {
                let tray = old(slot)@.tray->0;
                &&& res == Ok::<bool, TrayError>(!tray.state.flush_scheduled)
                &&& final(slot)@ == old(slot)@.with_tray(tray.wanting(state@))
            } else {
                &&& res == Err::<bool, TrayError>(TrayError::Closed)
                &&& final(slot)@ == old(slot)@
            },
            res == old(slot)@.update_result(self@),
            final(slot)@ == old(slot)@.updated_with(self@, state@),
    {
        if self.is_closed(slot) {
            return Err(TrayError::Closed);
        }
        let mut runtime = match slot.runtime.take() {
            Some(runtime) => runtime,
            None => {
                return Err(TrayError::NotInitialized);
            },
        };
        let schedule: bool = runtime.state.set_desired_state(state);
        slot.runtime = Some(runtime);
        Ok(schedule)
    }

    /// Begins a series of flushes that shows the wanted state, unless that is shown already;
    /// whether a flush was waiting, or the last one has failed, does not matter. While a flush is
    /// running or a click is being handled nothing begins.
    pub fn flush_now(&self, slot: &mut TraySlot) -> (res: Result<FlushAction, TrayError>)
        ensures
            if old(slot)@.is_open(self@) {
                let ready = old(slot)@.with_tray(old(slot)@.tray->0.pushing());
                &&& action_models(res) == slot_step_result(ready, FlushEventModel::Start)
                &&& final(slot)@ == slot_stepped(ready, FlushEventModel::Start)
            } else {
                &&& action_models(res) == Err::<FlushActionModel, TrayError>(TrayError::Closed)
                &&& final(slot)@ == old(slot)@
            },
            action_models(res) == old(slot)@.eager_result(self@),
            final(slot)@ == old(slot)@.eagerly_flushed(self@),
    {
        if self.is_closed(slot) {
            return Err(TrayError::Closed);
        }
        let mut runtime = match slot.runtime.take() {
            Some(runtime) => runtime,
            None => {
                return Err(TrayError::NotInitialized);
            },
        };
        if runtime.lags() {
            let _ = runtime.state.request_flush();
        }
        slot.runtime = Some(runtime);
        flush_runtime(slot, FlushEvent::Start)
    }

    /// Closes the tray and permits a new one to be set up. All clones of this handle become
    /// closed. Returns whether the native tray is to be removed: not where it was closed
    /// already. While a click is being handled the tray cannot be closed.
    pub fn close(&self, slot: &mut TraySlot) -> (res: Result<bool, TrayError>)
        ensures
            if !old(slot)@.is_open(self@) {
                &&& res == Ok::<bool, TrayError>(false)
                &&& final(slot)@ == old(slot)@
            } else if old(slot)@.tray->0.interaction_active {
                &&& res == Err::<bool, TrayError>(TrayError::MenuActive)
                &&& final(slot)@ == old(slot)@
            } else {
                &&& res == Ok::<bool, TrayError>(true)
                &&& final(slot)@ == old(slot)@.emptied()
            },
            res == old(slot)@.close_result(self@),
            final(slot)@ == old(slot)@.closed_with(self@),
    {
        if self.is_closed(slot) {
            return Ok(false);
        }
        if let Some(runtime) = &slot.runtime {
            if runtime.interaction_active {
                return Err(TrayError::MenuActive);
            }
        }
        slot.runtime = None;
        Ok(true)
    }
}

/// A closed tray stays closed: every handle to it, that is every clone of the handle that
/// closed it, is closed, and stays so when another tray is set up, which closing permits.
pub proof fn law_closing_invalidates_all_clones(slot: SlotModel, handle: u64, initial: StateModel)
    requires
        slot.is_open(handle),
        slot.generation < u64::MAX,
    ensures
        !slot.emptied().is_open(handle),
        slot.emptied().tray is None,
        !slot.emptied().set_up(initial).is_open(handle),
        slot.emptied().set_up(initial).is_open((handle + 1) as u64),
{
}

/// A handle of an earlier tray is closed, whatever happens to later ones.
pub proof fn law_earlier_handles_are_closed(
    slot: SlotModel,
    handle: u64,
    initial: StateModel,
    event: FlushEventModel,
    tray: TrayModel,
)
    requires
        handle < slot.generation < u64::MAX,
    ensures
        !slot.is_open(handle),
        !slot.emptied().is_open(handle),
        !slot.set_up(initial).is_open(handle),
        !slot.with_tray(tray).is_open(handle),
        !slot_stepped(slot, event).is_open(handle),
        handle < slot.emptied().generation,
        handle < slot.set_up(initial).generation,
        handle < slot.with_tray(tray).generation,
        handle < slot_stepped(slot, event).generation,
{
}

/// While a click is being handled no flush begins; what was asked for meanwhile is waiting when
/// the click has been handled.
pub proof fn law_clicks_hold_flushes_back(tray: TrayModel, state: StateModel)
    ensures
        tray.clicking().pushing() == tray.clicking(),
        tray.clicking().stepped(FlushEventModel::Start) == tray.clicking(),
        tray.clicking().step_result(FlushEventModel::Start) == Ok::<FlushActionModel, TrayError>(
            FlushActionModel::Done,
        ),
        ({
            let during = tray.clicking().wanting(state);
            &&& during.clicked().state.flush_scheduled
            &&& !tray.state.flushing ==> during.clicked().step_result(FlushEventModel::Start)
                == Ok::<FlushActionModel, TrayError>(during.state.begin_action())
        }),
{
}

/// The native tray is out of its place only while a flush or a click has it: a flush that ends
/// puts it back, and so does a click.
pub proof fn law_native_tray_returns(tray: TrayModel, event: FlushEventModel)
    requires
        !(event is Start),
    ensures
        tray.ended(event).platform_in_place,
        tray.clicked().platform_in_place,
        tray.step_result(event) is Ok,
        tray.step_result(event) == Ok::<FlushActionModel, TrayError>(FlushActionModel::Done)
            ==> tray.stepped(event).platform_in_place,
{
}

/// Every operation keeps a tray valid: setting it up, wanting another state, the steps of a
/// series of flushes, and clicks.
pub proof fn law_every_operation_keeps_the_tray_valid(
    slot: SlotModel,
    tray: TrayModel,
    state: StateModel,
    event: FlushEventModel,
)
    requires
        tray.wf(),
    ensures
        slot.set_up(state).tray->0.wf(),
        tray.wanting(state).wf(),
        tray.pushing().wf(),
        tray.stepped(event).wf(),
        tray.clicking().wf(),
        tray.clicked().wf(),
{
}

/// No flush of a valid tray finds the native tray missing.
pub proof fn law_flushes_find_the_native_tray(tray: TrayModel, event: FlushEventModel)
    requires
        tray.wf(),
    ensures
        tray.step_result(event) is Ok,
{
}

/// What is set last is what a flush shows, as soon as one can begin.
pub proof fn law_flush_shows_what_was_set_last(
    tray: TrayModel,
    earlier: StateModel,
    state: StateModel,
)
    requires
        tray.wf(),
        !tray.state.flushing,
        !tray.interaction_active,
    ensures
        tray.wanting(earlier).wanting(state).pushing().step_result(
            FlushEventModel::Start,
        ) matches Ok(FlushActionModel::Apply(shown)) && shown.state == state,
{
}

/// Where nothing has the native tray and the wanted state is not the shown one, an eager flush
/// asks for the wanted state, also after a flush that has failed. If that is shown, the wanted
/// state is the shown one and the series ends; if not, another eager flush asks for it again.
pub proof fn law_eager_flush_pushes_the_wanted_state(tray: TrayModel)
    requires
        tray.wf(),
        !tray.interaction_active,
        !tray.state.flushing,
        tray.state.desired is Some,
        tray.state.applied matches Some(applied) ==> applied.version
            != tray.state.desired->0.version,
    ensures
        ({
            let wanted = tray.state.desired->0;
            let flushing = tray.pushing().stepped(FlushEventModel::Start);
            let applied = FlushEventModel::Applied(wanted);
            &&& tray.pushing().step_result(FlushEventModel::Start) == Ok::<
                FlushActionModel,
                TrayError,
            >(FlushActionModel::Apply(wanted))
            &&& flushing.step_result(applied) == Ok::<FlushActionModel, TrayError>(
                FlushActionModel::Done,
            )
            &&& flushing.stepped(applied).state.applied == Some(wanted)
            &&& flushing.stepped(applied).state.desired == Some(wanted)
            &&& flushing.stepped(FlushEventModel::ApplyFailed).state.desired == Some(wanted)
            &&& flushing.stepped(FlushEventModel::ApplyFailed).pushing().step_result(
                FlushEventModel::Start,
            ) == Ok::<FlushActionModel, TrayError>(FlushActionModel::Apply(wanted))
        }),
{
}

/// A tray whose first state cannot be shown can be closed, and then no tray is set up: the first
/// flush asks for that state, and after its failure nothing keeps the tray from being closed.
pub proof fn law_failed_set_up_leaves_no_tray(slot: SlotModel, initial: StateModel)
    requires
        slot.tray is None,
        slot.generation < u64::MAX,
    ensures
        ({
            let first = slot.set_up(initial);
            let ready = first.with_tray(first.tray->0.pushing());
            let flushing = slot_stepped(ready, FlushEventModel::Start);
            let failed = slot_stepped(flushing, FlushEventModel::ApplyFailed);
            &&& slot_step_result(ready, FlushEventModel::Start) matches Ok(
                FlushActionModel::Apply(shown),
            )
            &&& shown.state == initial
            &&& failed.is_open(first.generation)
            &&& !failed.tray->0.interaction_active
            &&& failed.emptied().tray is None
        }),
{
}

/// As long as no click is being handled, a tray is flushed just as its runtime alone would be.
pub proof fn law_trays_flush_as_their_runtimes(tray: TrayModel, event: FlushEventModel)
    requires
        tray.wf(),
        !tray.interaction_active,
    ensures
        tray.step_result(event) == Ok::<FlushActionModel, TrayError>(tray.state.step_action(event)),
        tray.stepped(event).state == tray.state.stepped(event),
        !tray.stepped(event).interaction_active,
{
}

/// While a click is being handled, a flush that ends is still put on record, or found to have
/// failed, but no other one begins; the click goes on.
pub proof fn law_flushes_end_during_clicks(tray: TrayModel, event: FlushEventModel)
    requires
        tray.interaction_active,
    ensures
        tray.step_result(event) == Ok::<FlushActionModel, TrayError>(FlushActionModel::Done),
        tray.stepped(event).interaction_active,
        event is Start ==> tray.stepped(event) == tray,
        event matches FlushEventModel::Applied(shown) ==> tray.stepped(event).state.applied == Some(
            shown,
        ) && !tray.stepped(event).state.flushing && tray.stepped(event).state.flush_scheduled
            == tray.state.flush_scheduled,
        event is ApplyFailed ==> !tray.stepped(event).state.flushing && !tray.stepped(
            event,
        ).state.flush_scheduled && tray.stepped(event).state.applied == tray.state.applied,
        tray.stepped(event).state.desired == tray.state.desired,
{
}

/// The native tray leaves its place exactly where a step asks for a state to be shown.
pub proof fn law_the_native_tray_leaves_to_show(tray: TrayModel, event: FlushEventModel)
    requires
        tray.wf(),
    ensures
        tray.step_result(event) matches Ok(FlushActionModel::Apply(_)) ==> !tray.stepped(
            event,
        ).platform_in_place && tray.stepped(event).state.flushing,
        !(event is Start) && !(tray.step_result(event) matches Ok(FlushActionModel::Apply(_)))
            ==> tray.stepped(event).platform_in_place,
        event is Start && !(tray.step_result(event) matches Ok(FlushActionModel::Apply(_)))
            ==> tray.stepped(event) == tray,
{
}

/// Updates and clicks leave everything else alone: an update changes the runtime only, and a
/// click changes nothing of it.
pub proof fn law_operations_keep_to_themselves(tray: TrayModel, state: StateModel)
    ensures
        tray.wanting(state).state == tray.state.wanting(state),
        tray.wanting(state).platform_in_place == tray.platform_in_place,
        tray.wanting(state).interaction_active == tray.interaction_active,
        tray.clicking().state == tray.state,
        tray.clicking().interaction_active,
        !tray.clicking().platform_in_place,
        tray.clicked().state == tray.state,
        !tray.clicked().interaction_active,
        tray.clicked().platform_in_place,
        tray.pushing().state.desired == tray.state.desired,
        tray.pushing().state.applied == tray.state.applied,
        tray.pushing().state.flushing == tray.state.flushing,
        tray.pushing().platform_in_place == tray.platform_in_place,
        tray.pushing().interaction_active == tray.interaction_active,
{
}

/// A tray that was just set up is open to its handle, wants its first state with a flush waiting,
/// has its native tray in place, and handles no click.
pub proof fn law_set_up_trays_are_open(slot: SlotModel, initial: StateModel)
    requires
        slot.generation < u64::MAX,
    ensures
        ({
            let after = slot.set_up(initial);
            &&& after.generation == slot.generation + 1
            &&& after.is_open(after.generation)
            &&& after.tray matches Some(tray)
            &&& tray.state.desired matches Some(desired)
            &&& desired.state == initial
            &&& tray.state.applied is None
            &&& tray.state.flush_scheduled && !tray.state.flushing
            &&& tray.platform_in_place && !tray.interaction_active
        }),
{
}

/// A handle is open exactly to the tray that it was made for, while that is set up; no operation
/// but closing ends that, and none but setting up changes which handle it is.
pub proof fn law_handles_stay_open_until_closed(
    slot: SlotModel,
    handle: u64,
    tray: TrayModel,
    event: FlushEventModel,
)
    ensures
        slot.is_open(handle) <==> slot.tray is Some && handle == slot.generation,
        slot.is_open(handle) ==> slot_stepped(slot, event).is_open(handle),
        slot.is_open(handle) ==> slot.with_tray(tray).is_open(handle),
        slot.with_tray(tray).tray == Some(tray),
        slot.emptied().generation == slot.generation,
        slot.tray is None ==> slot_step_result(slot, event) == Err::<FlushActionModel, TrayError>(
            TrayError::NotInitialized,
        ),
        slot.tray is None ==> slot_stepped(slot, event) == slot,
        slot.tray matches Some(own) ==> slot_step_result(slot, event) == own.step_result(event),
        slot.tray matches Some(own) ==> slot_stepped(slot, event).tray == Some(own.stepped(event)),
{
}

/// An eager flush asks for nothing new where the wanted state is the shown one, or where a flush
/// or a click has the native tray.
pub proof fn law_eager_flush_pushes_nothing_twice(tray: TrayModel)
    requires
        tray.interaction_active || tray.state.flushing || (tray.state.applied is Some
            && tray.state.desired is Some && tray.state.applied->0.version
            == tray.state.desired->0.version) || tray.state.desired is None,
    ensures
        tray.pushing() == tray,
{
}

/// A flush that could begin but for the native tray fails, and says so.
pub proof fn law_flushes_need_the_native_tray(tray: TrayModel)
    requires
        !tray.platform_in_place,
        !tray.interaction_active,
        tray.state.flush_scheduled,
        !tray.state.flushing,
        tray.state.desired is Some,
    ensures
        tray.step_result(FlushEventModel::Start) == Err::<FlushActionModel, TrayError>(
            TrayError::PlatformMissingDuringFlush,
        ),
        tray.stepped(FlushEventModel::Start).state == tray.state.begun(),
{
}

/// The model of a tray holds everything that the tray holds, and results keep their errors.
pub proof fn law_tray_models_are_the_trays(
    runtime: TrayRuntime,
    res: Result<FlushAction, TrayError>,
)
    ensures
        runtime@.state == runtime.state@,
        runtime@.platform_in_place == runtime.platform_in_place,
        runtime@.interaction_active == runtime.interaction_active,
        res matches Ok(action) ==> action_models(res) == Ok::<FlushActionModel, TrayError>(action@),
        res matches Err(e) ==> action_models(res) == Err::<FlushActionModel, TrayError>(e),
{
}

/// A closed handle takes nothing: updates and eager flushes are refused as closed, closing again
/// is fine and removes nothing, and the place stays as it is.
pub proof fn law_closed_handles_change_nothing(slot: SlotModel, handle: u64, state: StateModel)
    requires
        slot.tray is None || slot.generation != handle,
    ensures
        slot.update_result(handle) == Err::<bool, TrayError>(TrayError::Closed),
        slot.updated_with(handle, state) == slot,
        slot.eager_result(handle) == Err::<FlushActionModel, TrayError>(TrayError::Closed),
        slot.eagerly_flushed(handle) == slot,
        slot.close_result(handle) == Ok::<bool, TrayError>(false),
        slot.closed_with(handle) == slot,
{
}

/// An open tray is closed and its native tray removed whatever it is doing, but for a click: it
/// is refused then, and the tray stays open. Afterwards no tray is there, every clone of the
/// handle is refused, and another tray can be set up, whose handle is another one.
pub proof fn law_closing_an_open_tray(
    slot: SlotModel,
    handle: u64,
    tray: TrayModel,
    next: StateModel,
)
    requires
        slot.tray == Some(tray),
        slot.generation == handle,
        handle < u64::MAX,
    ensures
        tray.interaction_active ==> {
            &&& slot.close_result(handle) == Err::<bool, TrayError>(TrayError::MenuActive)
            &&& slot.closed_with(handle) == slot
        },
        !tray.interaction_active ==> {
            let after = slot.closed_with(handle);
            &&& slot.close_result(handle) == Ok::<bool, TrayError>(true)
            &&& after.tray is None
            &&& after.update_result(handle) == Err::<bool, TrayError>(TrayError::Closed)
            &&& after.eager_result(handle) == Err::<FlushActionModel, TrayError>(TrayError::Closed)
            &&& after.set_up_result() matches Ok(other)
            &&& other != handle
            &&& after.set_up_if_free(next).update_result(handle) == Err::<bool, TrayError>(
                TrayError::Closed,
            )
            &&& after.set_up_if_free(next).update_result(other) is Ok
        },
{
}

/// An update through an open handle is taken whatever the tray is doing: the state is the wanted
/// one and a flush is waiting, which the caller has to see to exactly where none was waiting
/// before. An eager flush right afterwards, while nothing has the native tray, asks for that
/// state.
pub proof fn law_updates_reach_the_native_tray(
    slot: SlotModel,
    handle: u64,
    tray: TrayModel,
    state: StateModel,
)
    requires
        slot.tray == Some(tray),
        slot.generation == handle,
    ensures
        ({
            let after = slot.updated_with(handle, state);
            &&& slot.update_result(handle) == Ok::<bool, TrayError>(!tray.state.flush_scheduled)
            &&& after.generation == handle
            &&& after.tray matches Some(now)
            &&& now.state.flush_scheduled
            &&& now.state.desired matches Some(desired)
            &&& desired.state == state
            &&& tray.wf() && !tray.interaction_active && !tray.state.flushing
                ==> after.eager_result(handle) == Ok::<FlushActionModel, TrayError>(
                FlushActionModel::Apply(desired),
            )
        }),
{
}

/// Only one tray is there at a time: setting one up is refused exactly where one is there, and
/// then changes nothing. Else it gives a handle that is open.
pub proof fn law_one_tray_at_a_time(slot: SlotModel, initial: StateModel)
    requires
        slot.generation < u64::MAX,
    ensures
        slot.tray is Some ==> slot.set_up_result() == Err::<u64, TrayError>(
            TrayError::AlreadyInitialized,
        ) && slot.set_up_if_free(initial) == slot,
        slot.tray is None ==> (slot.set_up_result() matches Ok(handle) && handle > slot.generation
            && slot.set_up_if_free(initial).tray is Some && slot.set_up_if_free(initial).is_open(
            handle,
        )),
{
}

/// A click takes the native tray out and gives it back: in between no flush begins and the tray
/// cannot be closed; afterwards the tray is as it was, and the caller learns whether a flush is
/// waiting. Without a tray, or without the native tray in its place, a click is refused.
pub proof fn law_clicks_take_the_native_tray(slot: SlotModel, tray: TrayModel, handle: u64)
    requires
        slot.tray == Some(tray),
        slot.generation == handle,
    ensures
        slot.click_result() is Ok <==> tray.platform_in_place,
        !tray.platform_in_place ==> slot.click_result() == Err::<(), TrayError>(
            TrayError::PlatformMissingDuringClick,
        ),
        slot.click_begun().close_result(handle) == Err::<bool, TrayError>(TrayError::MenuActive),
        slot.click_begun().eager_result(handle) == Ok::<FlushActionModel, TrayError>(
            FlushActionModel::Done,
        ),
        slot.click_begun().click_end_result() == Ok::<bool, TrayError>(tray.state.flush_scheduled),
        tray.platform_in_place && !tray.interaction_active ==> slot.click_begun().click_ended()
            == slot,
        slot.emptied().click_result() == Err::<(), TrayError>(TrayError::NotInitialized),
        slot.emptied().click_begun() == slot.emptied(),
        slot.emptied().click_end_result() == Err::<bool, TrayError>(TrayError::NotInitialized),
        slot.emptied().click_ended() == slot.emptied(),
{
}

} // verus!
