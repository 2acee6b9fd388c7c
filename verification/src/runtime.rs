//! Bringing the native tray up to date: the wanted state, the shown state, and the flush that
//! takes the one to the other.

use vstd::prelude::*;

use crate::state::{StateModel, TrayState};

verus! {

/// A tray state with the number under which it was set.
pub struct VersionedTrayState {
    pub version: u64,
    pub state: TrayState,
}

/// A numbered tray state as a mathematical value.
pub struct VersionedModel {
    pub version: u64,
    pub state: StateModel,
}

impl View for VersionedTrayState {
    type V = VersionedModel;

    open spec fn view(&self) -> VersionedModel {
        VersionedModel { version: self.version, state: self.state@ }
    }
}

impl Clone for VersionedTrayState {
    fn clone(&self) -> (res: Self)
        ensures
            res@ == self@,
    {
        VersionedTrayState { version: self.version, state: self.state.clone() }
    }
}

/// The model of a numbered state, where there is one.
pub open spec fn opt_versioned(state: Option<VersionedTrayState>) -> Option<VersionedModel> {
    match state {
        Some(state) => Some(state@),
        None => None,
    }
}

/// What is wanted, what is shown, and whether a flush is waiting or running.
pub struct TrayRuntimeState {
    pub desired_state: Option<VersionedTrayState>,
    pub applied_state: Option<VersionedTrayState>,
    pub flush_scheduled: bool,
    pub flushing: bool,
    pub next_version: u64,
}

/// The runtime as a mathematical value.
pub struct RuntimeModel {
    pub desired: Option<VersionedModel>,
    pub applied: Option<VersionedModel>,
    pub flush_scheduled: bool,
    pub flushing: bool,
    pub next_version: u64,
}

impl View for TrayRuntimeState {
    type V = RuntimeModel;

    open spec fn view(&self) -> RuntimeModel {
        RuntimeModel {
            desired: opt_versioned(self.desired_state),
            applied: opt_versioned(self.applied_state),
            flush_scheduled: self.flush_scheduled,
            flushing: self.flushing,
            next_version: self.next_version,
        }
    }
}

/// The number after `n`; the largest number stays.
pub open spec fn next_number(n: u64) -> u64 {
    if n < u64::MAX {
        (n + 1) as u64
    } else {
        n
    }
}

impl RuntimeModel {
    /// Nothing wanted yet, nothing shown, no flush.
    pub open spec fn idle() -> RuntimeModel {
        RuntimeModel {
            desired: None,
            applied: None,
            flush_scheduled: false,
            flushing: false,
            next_version: 1,
        }
    }

    /// The runtime that wants `state` under the next number, with a flush waiting.
    pub open spec fn wanting(self, state: StateModel) -> RuntimeModel {
        RuntimeModel {
            desired: Some(VersionedModel { version: self.next_version, state }),
            next_version: next_number(self.next_version),
            flush_scheduled: true,
            ..self
        }
    }

    /// The runtime with a flush waiting.
    pub open spec fn requested(self) -> RuntimeModel {
        RuntimeModel { flush_scheduled: true, ..self }
    }

    /// Whether a flush can begin: one is waiting, none is running, and something is wanted.
    pub open spec fn can_begin(self) -> bool {
        !self.flushing && self.flush_scheduled && self.desired is Some
    }

    /// The state that a flush beginning now takes to the native tray.
    pub open spec fn begin_result(self) -> Option<VersionedModel> {
        if self.can_begin() {
            self.desired
        } else {
            None
        }
    }

    /// The runtime after an attempt to begin a flush.
    pub open spec fn begun(self) -> RuntimeModel {
        if self.can_begin() {
            RuntimeModel { flushing: true, flush_scheduled: false, ..self }
        } else {
            self
        }
    }

    /// The runtime after a flush has shown `applied`.
    pub open spec fn finished(self, applied: VersionedModel) -> RuntimeModel {
        RuntimeModel { applied: Some(applied), flushing: false, ..self }
    }

    /// Whether another flush is due when one has shown `applied`.
    pub open spec fn due_after(self, applied: VersionedModel) -> bool {
        self.flush_scheduled || (self.desired matches Some(desired) && desired.version
            != applied.version)
    }

    /// The runtime after a flush has failed.
    pub open spec fn aborted(self) -> RuntimeModel {
        RuntimeModel { flushing: false, flush_scheduled: false, ..self }
    }

    /// The wanted state was set under an earlier number than the next one, unless the numbers
    /// have run out.
    pub open spec fn wf(self) -> bool {
        self.desired matches Some(desired) ==> (desired.version < self.next_version
            || self.next_version == u64::MAX)
    }
}

impl TrayRuntimeState {
    /// A runtime that wants `initial`, with a flush waiting.
    pub fn new(initial: TrayState) -> (runtime: Self)
        ensures
            runtime@ == RuntimeModel::idle().wanting(initial@),
            runtime@.wf(),
    {
        let mut runtime = TrayRuntimeState {
            desired_state: None,
            applied_state: None,
            flush_scheduled: false,
            flushing: false,
            next_version: 1,
        };
        let _ = runtime.set_desired_state(initial);
        runtime
    }

    /// Wants `state` from now on. Returns whether the caller has to see to a flush: not where
    /// one was waiting already.
    pub fn set_desired_state(&mut self, state: TrayState) -> (schedule: bool)
        ensures
            final(self)@ == old(self)@.wanting(state@),
            schedule == !old(self)@.flush_scheduled,
            old(self)@.wf() ==> final(self)@.wf(),
    {
        let version: u64 = self.next_version;
        self.next_version = self.next_version.saturating_add(1);
        self.desired_state = Some(VersionedTrayState { version, state });
        self.request_flush()
    }

    /// Asks for a flush. Returns whether the caller has to see to it: not where one was waiting
    /// already.
    pub fn request_flush(&mut self) -> (schedule: bool)
        ensures
            final(self)@ == old(self)@.requested(),
            schedule == !old(self)@.flush_scheduled,
    {
        if self.flush_scheduled {
            return false;
        }
        self.flush_scheduled = true;
        true
    }

    /// Begins a flush, if one is waiting and none is running: the state to show.
    pub fn try_begin_flush(&mut self) -> (step: Option<VersionedTrayState>)
        ensures
            final(self)@ == old(self)@.begun(),
            opt_versioned(step) == old(self)@.begin_result(),
    {
        if self.flushing || !self.flush_scheduled {
            return None;
        }
        let desired = match &self.desired_state {
            Some(desired) => desired.clone(),
            None => {
                return None;
            },
        };
        self.flushing = true;
        self.flush_scheduled = false;
        Some(desired)
    }

    /// Ends a flush that has shown `applied_state`. Returns whether another one is due.
    pub fn finish_flush(&mut self, applied_state: VersionedTrayState) -> (again: bool)
        ensures
            final(self)@ == old(self)@.finished(applied_state@),
            again == old(self)@.due_after(applied_state@),
    {
        let applied_version: u64 = applied_state.version;
        self.applied_state = Some(applied_state);
        self.flushing = false;
        if self.flush_scheduled {
            return true;
        }
        match &self.desired_state {
            Some(desired) => desired.version != applied_version,
            None => false,
        }
    }

    /// Ends a flush that has failed; nothing is waiting afterwards.
    pub fn abort_flush(&mut self)
        ensures
            final(self)@ == old(self)@.aborted(),
    {
        self.flushing = false;
        self.flush_scheduled = false;
    }

    /// Whether a flush is waiting.
    pub fn has_pending_flush(&self) -> (pending: bool)
        ensures
            pending == self@.flush_scheduled,
    {
        self.flush_scheduled
    }
}

/// What happened last in a series of flushes.
pub enum FlushEvent {
    /// A flush was asked for.
    Start,
    /// The state was shown.
    Applied(VersionedTrayState),
    /// The state could not be shown.
    ApplyFailed,
}

/// What happened last in a series of flushes, as a mathematical value.
pub enum FlushEventModel {
    Start,
    Applied(VersionedModel),
    ApplyFailed,
}

impl View for FlushEvent {
    type V = FlushEventModel;

    open spec fn view(&self) -> FlushEventModel {
        match *self {
            FlushEvent::Start => FlushEventModel::Start,
            FlushEvent::Applied(state) => FlushEventModel::Applied(state@),
            FlushEvent::ApplyFailed => FlushEventModel::ApplyFailed,
        }
    }
}

/// What comes next in a series of flushes.
pub enum FlushAction {
    /// Show the state, and report how that went.
    Apply(VersionedTrayState),
    /// Nothing is left to do.
    Done,
}

/// What comes next in a series of flushes, as a mathematical value.
pub enum FlushActionModel {
    Apply(VersionedModel),
    Done,
}

impl View for FlushAction {
    type V = FlushActionModel;

    open spec fn view(&self) -> FlushActionModel {
        match *self {
            FlushAction::Apply(state) => FlushActionModel::Apply(state@),
            FlushAction::Done => FlushActionModel::Done,
        }
    }
}

impl RuntimeModel {
    /// What an attempt to begin a flush asks for.
    pub open spec fn begin_action(self) -> FlushActionModel {
        match self.begin_result() {
            Some(state) => FlushActionModel::Apply(state),
            None => FlushActionModel::Done,
        }
    }

    /// The runtime after a step of a series of flushes.
    pub open spec fn stepped(self, event: FlushEventModel) -> RuntimeModel {
        match event {
            FlushEventModel::Start => self.begun(),
            FlushEventModel::Applied(state) => if self.due_after(state) {
                self.finished(state).begun()
            } else {
                self.finished(state)
            },
            FlushEventModel::ApplyFailed => self.aborted(),
        }
    }

    /// What a step of a series of flushes asks for: after a failure, and where no other flush
    /// is due, nothing.
    pub open spec fn step_action(self, event: FlushEventModel) -> FlushActionModel {
        match event {
            FlushEventModel::Start => self.begin_action(),
            FlushEventModel::Applied(state) => if self.due_after(state) {
                self.finished(state).begin_action()
            } else {
                FlushActionModel::Done
            },
            FlushEventModel::ApplyFailed => FlushActionModel::Done,
        }
    }
}

/// One step of a series of flushes: the caller shows what the step asks for and reports how
/// that went, until nothing is left to do.
pub fn flush_linux_runtime(runtime: &mut TrayRuntimeState, event: FlushEvent) -> (action:
    FlushAction)
    ensures
        final(runtime)@ == old(runtime)@.stepped(event@),
        action@ == old(runtime)@.step_action(event@),
{
    match event {
        FlushEvent::Start => {},
        FlushEvent::Applied(state) => {
            if !runtime.finish_flush(state) {
                return FlushAction::Done;
            }
        },
        FlushEvent::ApplyFailed => {
            runtime.abort_flush();
            return FlushAction::Done;
        },
    }
    match runtime.try_begin_flush() {
        Some(state) => FlushAction::Apply(state),
        None => FlushAction::Done,
    }
}

} // verus!
