//! What holds of every series of updates and flushes.

use vstd::prelude::*;

use crate::runtime::{
    opt_versioned, FlushAction, FlushActionModel, FlushEvent, FlushEventModel, RuntimeModel,
    TrayRuntimeState, VersionedModel, VersionedTrayState,
};
use crate::state::StateModel;

verus! {

/// The runtime after the states have been asked for one after the other.
pub open spec fn wanting_all(runtime: RuntimeModel, states: Seq<StateModel>) -> RuntimeModel
    decreases states.len(),
{
    if states.len() == 0 {
        runtime
    } else {
        wanting_all(runtime, states.drop_last()).wanting(states.last())
    }
}

proof fn lemma_wanting_all(runtime: RuntimeModel, states: Seq<StateModel>)
    ensures
        wanting_all(runtime, states).flushing == runtime.flushing,
        wanting_all(runtime, states).applied == runtime.applied,
        states.len() > 0 ==> {
            &&& wanting_all(runtime, states).flush_scheduled
            &&& wanting_all(runtime, states).desired matches Some(desired)
            &&& desired.state == states.last()
        },
    decreases states.len(),
{
    if states.len() > 0 {
        lemma_wanting_all(runtime, states.drop_last());
    }
}

/// After any number of updates the next flush shows the latest one.
pub proof fn law_latest_state_wins(runtime: RuntimeModel, states: Seq<StateModel>)
    requires
        !runtime.flushing,
        states.len() > 0,
    ensures
        wanting_all(runtime, states).begin_result() matches Some(shown) && shown.state
            == states.last(),
        wanting_all(runtime, states).begun().flushing,
        !wanting_all(runtime, states).begun().flush_scheduled,
{
    lemma_wanting_all(runtime, states);
}

/// Once an update has been made a flush is waiting, so that no further update has its caller
/// see to one.
pub proof fn law_updates_share_a_flush(runtime: RuntimeModel, states: Seq<StateModel>, n: int)
    requires
        0 < n <= states.len(),
    ensures
        wanting_all(runtime, states.take(n)).flush_scheduled,
{
    lemma_wanting_all(runtime, states.take(n));
}

/// Updates that come while a flush is running make another flush due, and that one shows the
/// latest of them.
pub proof fn law_updates_during_a_flush_are_shown_next(
    runtime: RuntimeModel,
    states: Seq<StateModel>,
)
    requires
        runtime.can_begin(),
        states.len() > 0,
    ensures
        ({
            let shown = runtime.begin_result()->0;
            let during = wanting_all(runtime.begun(), states);
            &&& during.due_after(shown)
            &&& during.step_action(FlushEventModel::Applied(shown)) matches FlushActionModel::Apply(
                next,
            )
            &&& next.state == states.last()
        }),
{
    lemma_wanting_all(runtime.begun(), states);
}

/// A flush that nothing disturbs ends the series: the wanted state is the shown one, and no
/// flush is waiting or running.
pub proof fn law_undisturbed_flush_settles(runtime: RuntimeModel)
    requires
        runtime.can_begin(),
    ensures
        ({
            let shown = runtime.begin_result()->0;
            let after = runtime.begun().stepped(FlushEventModel::Applied(shown));
            &&& runtime.begun().step_action(FlushEventModel::Applied(shown))
                == FlushActionModel::Done
            &&& after.applied == after.desired
            &&& after.desired == runtime.desired
            &&& !after.flush_scheduled
            &&& !after.flushing
        }),
{
}

/// After a failed flush nothing is waiting or running; the next update has its caller see to a
/// flush, which shows that update. What was shown before stays on record.
pub proof fn law_failed_flush_can_be_retried(runtime: RuntimeModel, state: StateModel)
    ensures
        ({
            let after = runtime.stepped(FlushEventModel::ApplyFailed);
            &&& runtime.step_action(FlushEventModel::ApplyFailed) == FlushActionModel::Done
            &&& !after.flush_scheduled
            &&& !after.flushing
            &&& after.begin_result() is None
            &&& after.applied == runtime.applied
            &&& after.desired == runtime.desired
            &&& after.wanting(state).begin_result() matches Some(shown)
            &&& shown.state == state
            &&& after.requested().begin_result() == runtime.desired
        }),
{
}

/// While a flush is running no other one begins, and trying to changes nothing.
pub proof fn law_one_flush_at_a_time(runtime: RuntimeModel)
    requires
        runtime.flushing,
    ensures
        runtime.begin_result() is None,
        runtime.begun() == runtime,
        runtime.step_action(FlushEventModel::Start) == FlushActionModel::Done,
{
}

/// A flush that was not asked for does not begin.
pub proof fn law_no_flush_without_a_request(runtime: RuntimeModel)
    requires
        !runtime.flush_scheduled,
    ensures
        runtime.begin_result() is None,
        runtime.begun() == runtime,
{
}

/// Whatever happens to a runtime, something stays wanted, and its number stays below the next
/// one as long as numbers are left.
pub proof fn law_every_step_keeps_the_runtime_valid(
    runtime: RuntimeModel,
    state: StateModel,
    event: FlushEventModel,
)
    requires
        runtime.wf(),
        runtime.desired is Some,
    ensures
        RuntimeModel::idle().wanting(state).wf(),
        RuntimeModel::idle().wanting(state).desired is Some,
        runtime.wanting(state).wf(),
        runtime.wanting(state).desired is Some,
        runtime.requested().wf(),
        runtime.requested().desired is Some,
        runtime.stepped(event).wf(),
        runtime.stepped(event).desired is Some,
{
}

/// As long as numbers are left, an update has another number than the one before it: a flush
/// that shows an older update is never taken for one that shows the newer.
pub proof fn law_numbers_tell_updates_apart(runtime: RuntimeModel, state: StateModel)
    requires
        runtime.wf(),
        runtime.desired is Some,
        runtime.next_version < u64::MAX,
    ensures
        runtime.wanting(state).desired->0.version != runtime.desired->0.version,
        runtime.wanting(state).stepped(FlushEventModel::ApplyFailed).due_after(
            runtime.desired->0,
        ),
{
}

/// An update changes what is wanted, under the next number, and has a flush wait; it touches
/// neither what is shown nor a flush that is running. Numbers count up from 1 and stop at the
/// largest one.
pub proof fn law_updates_change_what_is_wanted(runtime: RuntimeModel, state: StateModel)
    ensures
        ({
            let after = runtime.wanting(state);
            &&& after.desired matches Some(desired)
            &&& desired.state == state
            &&& desired.version == runtime.next_version
            &&& after.flush_scheduled
            &&& after.applied == runtime.applied
            &&& after.flushing == runtime.flushing
            &&& runtime.next_version < u64::MAX ==> after.next_version == runtime.next_version + 1
            &&& runtime.next_version == u64::MAX ==> after.next_version == u64::MAX
            &&& RuntimeModel::idle().wanting(state).desired matches Some(first)
            &&& first.version == 1
        }),
{
}

/// Before the first update nothing is wanted, shown, waiting or running.
pub proof fn law_idle_runtimes_are_empty()
    ensures
        RuntimeModel::idle().desired is None,
        RuntimeModel::idle().applied is None,
        !RuntimeModel::idle().flush_scheduled,
        !RuntimeModel::idle().flushing,
{
}

/// Asking for a flush has one wait, and changes nothing else.
pub proof fn law_requests_change_nothing_else(runtime: RuntimeModel)
    ensures
        runtime.requested().flush_scheduled,
        runtime.requested().desired == runtime.desired,
        runtime.requested().applied == runtime.applied,
        runtime.requested().flushing == runtime.flushing,
        runtime.requested().next_version == runtime.next_version,
{
}

/// A flush begins exactly where one is waiting, none is running and something is wanted; it shows
/// what is wanted. From then on it is running and no longer waiting, and nothing else has changed.
pub proof fn law_flushes_begin_when_they_can(runtime: RuntimeModel)
    ensures
        ({
            let begins = runtime.flush_scheduled && !runtime.flushing && runtime.desired is Some;
            &&& begins ==> runtime.begin_result() == runtime.desired
            &&& begins ==> runtime.begin_action() == FlushActionModel::Apply(runtime.desired->0)
            &&& begins ==> runtime.begun().flushing && !runtime.begun().flush_scheduled
            &&& !begins ==> runtime.begin_result() is None
            &&& !begins ==> runtime.begin_action() == FlushActionModel::Done
            &&& !begins ==> runtime.begun() == runtime
            &&& runtime.begun().desired == runtime.desired
            &&& runtime.begun().applied == runtime.applied
            &&& runtime.begun().next_version == runtime.next_version
        }),
{
}

/// A flush that ends well leaves what it has shown on record as shown, and no flush running; a
/// flush that was asked for meanwhile goes on waiting, and what is wanted stays so.
pub proof fn law_finished_flushes_are_on_record(runtime: RuntimeModel, shown: VersionedModel)
    ensures
        runtime.finished(shown).applied == Some(shown),
        !runtime.finished(shown).flushing,
        runtime.finished(shown).flush_scheduled == runtime.flush_scheduled,
        runtime.finished(shown).desired == runtime.desired,
        runtime.finished(shown).next_version == runtime.next_version,
{
}

/// Another flush is due exactly where one is waiting, or where what is wanted has another number
/// than what was shown.
pub proof fn law_flushes_are_due(runtime: RuntimeModel, shown: VersionedModel)
    ensures
        runtime.flush_scheduled ==> runtime.due_after(shown),
        !runtime.flush_scheduled && runtime.desired is None ==> !runtime.due_after(shown),
        !runtime.flush_scheduled && runtime.desired is Some ==> runtime.due_after(shown) == (
        runtime.desired->0.version != shown.version),
{
}

/// A series of flushes goes on with the wanted state where a flush was asked for while the last
/// one ran, and else ends; either way what was shown is on record.
pub proof fn law_series_go_on_when_asked(runtime: RuntimeModel, shown: VersionedModel)
    requires
        runtime.desired is Some,
    ensures
        ({
            let event = FlushEventModel::Applied(shown);
            let after = runtime.stepped(event);
            &&& runtime.flush_scheduled ==> runtime.step_action(event) == FlushActionModel::Apply(
                runtime.desired->0,
            )
            &&& !runtime.flush_scheduled ==> runtime.step_action(event) == FlushActionModel::Done
            &&& after.applied == Some(shown)
            &&& after.desired == runtime.desired
            &&& after.flushing == runtime.flush_scheduled
            &&& !after.flush_scheduled
        }),
{
}

/// The models of numbered states, runtimes, events and actions hold everything that these hold.
pub proof fn law_runtime_models_are_the_runtimes(
    versioned: VersionedTrayState,
    runtime: TrayRuntimeState,
)
    ensures
        versioned@.version == versioned.version,
        versioned@.state == versioned.state@,
        (runtime@.desired is Some) == (runtime.desired_state is Some),
        runtime.desired_state is Some ==> runtime@.desired->0 == runtime.desired_state->0@,
        (runtime@.applied is Some) == (runtime.applied_state is Some),
        runtime.applied_state is Some ==> runtime@.applied->0 == runtime.applied_state->0@,
        runtime@.flush_scheduled == runtime.flush_scheduled,
        runtime@.flushing == runtime.flushing,
        runtime@.next_version == runtime.next_version,
        FlushEvent::Start@ == FlushEventModel::Start,
        FlushEvent::Applied(versioned)@ == FlushEventModel::Applied(versioned@),
        FlushEvent::ApplyFailed@ == FlushEventModel::ApplyFailed,
        FlushAction::Apply(versioned)@ == FlushActionModel::Apply(versioned@),
        FlushAction::Done@ == FlushActionModel::Done,
        opt_versioned(Some(versioned)) == Some(versioned@),
        opt_versioned(None) is None,
{
}

} // verus!
