//! The life of one rule's reconciler.
//!
//! A reconciler starts by discovering the resource type its rule names,
//! then watches the objects of that type and reconciles each one that is
//! delivered. A change of the rule's spec stops the watcher and starts over
//! with the new spec; an update that brings the spec the reconciler already
//! works on is no change. Deletion of the rule ends the reconciler. Labels
//! that were applied stay as they are in either case.
//!
//! [`step`] decides; it performs nothing. Whoever runs the reconciler hands
//! it what happened and carries out the command that comes back.

use crate::api::{ShardingRuleSpec, ShardingRuleSpecView};
use crate::object::{TargetObject, TargetObjectView};
use crate::reconcile::{planned_patch, planned_view, reconcile, LabelPatch, LabelPatchView};
use vstd::prelude::*;

verus! {

/// Seconds after which an object is looked at again, whatever came of the
/// last look.
pub const REQUEUE_SECONDS: u64 = 1;

/// Whether a resource type lives in namespaces or in the cluster as a whole.
#[derive(Debug, Clone, Copy, PartialEq, Eq, Structural)]
pub enum Scope {
    Cluster,
    Namespaced,
}

/// Why a rule's resource type could not be resolved.
#[derive(Debug, Clone, Copy, PartialEq, Eq, Structural)]
pub enum DiscoveryError {
    /// The group has no registered version.
    ResourceNotFound,
    /// No resource of the group has the kind.
    KindNotFound,
}

/// A resource type as discovery resolved it.
#[derive(Debug, Clone)]
pub struct ResourceDescriptor {
    pub group: String,
    pub version: String,
    pub kind: String,
    pub plural: String,
    pub scope: Scope,
}

/// A resource type as contracts see it.
pub struct ResourceDescriptorView {
    pub group: Seq<char>,
    pub version: Seq<char>,
    pub kind: Seq<char>,
    pub plural: Seq<char>,
    pub scope: Scope,
}

impl View for ResourceDescriptor {
    type V = ResourceDescriptorView;

    open spec fn view(&self) -> ResourceDescriptorView {
        ResourceDescriptorView {
            group: self.group@,
            version: self.version@,
            kind: self.kind@,
            plural: self.plural@,
            scope: self.scope,
        }
    }
}

/// Where a rule's reconciler stands.
#[derive(Debug, Clone)]
pub enum ReconcilerState {
    /// The rule's resource type is being discovered.
    Starting { rule: ShardingRuleSpec },
    /// The objects of the discovered resource type are being watched.
    Watching { rule: ShardingRuleSpec, resource: ResourceDescriptor },
    /// The watcher has been told to stop; `rule` takes over once it has.
    Restarting { rule: ShardingRuleSpec },
    /// The reconciler has ended and holds nothing.
    Terminated,
}

/// A reconciler's state as contracts see it.
pub enum ReconcilerStateView {
    Starting { rule: ShardingRuleSpecView },
    Watching { rule: ShardingRuleSpecView, resource: ResourceDescriptorView },
    Restarting { rule: ShardingRuleSpecView },
    Terminated,
}

impl View for ReconcilerState {
    type V = ReconcilerStateView;

    open spec fn view(&self) -> ReconcilerStateView {
        match *self {
            ReconcilerState::Starting { rule } => ReconcilerStateView::Starting { rule: rule@ },
            ReconcilerState::Watching { rule, resource } => ReconcilerStateView::Watching {
                rule: rule@,
                resource: resource@,
            },
            ReconcilerState::Restarting { rule } => ReconcilerStateView::Restarting { rule: rule@ },
            ReconcilerState::Terminated => ReconcilerStateView::Terminated,
        }
    }
}

/// What can happen to a rule's reconciler.
#[derive(Debug, Clone)]
pub enum ReconcilerEvent {
    /// Discovery resolved the rule's resource type.
    Discovered(ResourceDescriptor),
    /// Discovery could not resolve the rule's resource type.
    DiscoveryFailed(DiscoveryError),
    /// The rule's spec changed.
    SpecUpdated(ShardingRuleSpec),
    /// The rule was deleted.
    RuleDeleted,
    /// The watcher that was told to stop has stopped.
    WatcherStopped,
    /// An object of the watched resource type was delivered.
    ObjectChanged(TargetObject),
}

/// An event as contracts see it.
pub enum ReconcilerEventView {
    Discovered(ResourceDescriptorView),
    DiscoveryFailed(DiscoveryError),
    SpecUpdated(ShardingRuleSpecView),
    RuleDeleted,
    WatcherStopped,
    ObjectChanged(TargetObjectView),
}

impl View for ReconcilerEvent {
    type V = ReconcilerEventView;

    open spec fn view(&self) -> ReconcilerEventView {
        match *self {
            ReconcilerEvent::Discovered(resource) => ReconcilerEventView::Discovered(resource@),
            ReconcilerEvent::DiscoveryFailed(error) => ReconcilerEventView::DiscoveryFailed(error),
            ReconcilerEvent::SpecUpdated(rule) => ReconcilerEventView::SpecUpdated(rule@),
            ReconcilerEvent::RuleDeleted => ReconcilerEventView::RuleDeleted,
            ReconcilerEvent::WatcherStopped => ReconcilerEventView::WatcherStopped,
            ReconcilerEvent::ObjectChanged(object) => ReconcilerEventView::ObjectChanged(object@),
        }
    }
}

/// What is to be done after an event.
#[derive(Debug, Clone)]
pub enum Command {
    /// Discover the resource type of the rule that is starting.
    Discover,
    /// Start watching the resource type that was discovered.
    StartWatcher,
    /// Tell the watcher, and the work it has in flight, to stop.
    CancelWatcher,
    /// Give up on the rule: its resource type cannot be resolved.
    Abort(DiscoveryError),
    /// An object was reconciled: send the patch, if there is one, and look
    /// at the object again after the delay, whether or not that succeeds.
    Reconciled { patch: Option<LabelPatch>, requeue_after_secs: u64 },
    /// Nothing is to be done.
    Nothing,
}

/// A command as contracts see it.
pub enum CommandView {
    Discover,
    StartWatcher,
    CancelWatcher,
    Abort(DiscoveryError),
    Reconciled { patch: Option<LabelPatchView>, requeue_after_secs: int },
    Nothing,
}

impl View for Command {
    type V = CommandView;

    open spec fn view(&self) -> CommandView {
        match *self {
            Command::Discover => CommandView::Discover,
            Command::StartWatcher => CommandView::StartWatcher,
            Command::CancelWatcher => CommandView::CancelWatcher,
            Command::Abort(error) => CommandView::Abort(error),
            Command::Reconciled { patch, requeue_after_secs } => CommandView::Reconciled {
                patch: planned_view(patch),
                requeue_after_secs: requeue_after_secs as int,
            },
            Command::Nothing => CommandView::Nothing,
        }
    }
}

impl ReconcilerStateView {
    /// The rule that a state holds is well formed.
    pub open spec fn wf(self) -> bool {
        match self {
            ReconcilerStateView::Starting { rule } => rule.wf(),
            ReconcilerStateView::Watching { rule, .. } => rule.wf(),
            ReconcilerStateView::Restarting { rule } => rule.wf(),
            ReconcilerStateView::Terminated => true,
        }
    }
}

impl ReconcilerEventView {
    /// The rule that an event brings is well formed.
    pub open spec fn wf(self) -> bool {
        match self {
            ReconcilerEventView::SpecUpdated(rule) => rule.wf(),
            _ => true,
        }
    }
}

/// The state after `event` has reached a reconciler in `state`. An event
/// that a state has no use for leaves the state as it is.
pub open spec fn next_state(
    state: ReconcilerStateView,
    event: ReconcilerEventView,
) -> ReconcilerStateView {
    match (state, event) {
        (ReconcilerStateView::Terminated, _) => ReconcilerStateView::Terminated,
        (_, ReconcilerEventView::RuleDeleted) => ReconcilerStateView::Terminated,
        (
            ReconcilerStateView::Starting { rule },
            ReconcilerEventView::Discovered(resource),
        ) => ReconcilerStateView::Watching { rule, resource },
        (
            ReconcilerStateView::Starting { .. },
            ReconcilerEventView::DiscoveryFailed(_),
        ) => ReconcilerStateView::Terminated,
        (
            ReconcilerStateView::Starting { .. },
            ReconcilerEventView::SpecUpdated(rule),
        ) => ReconcilerStateView::Starting { rule },
        (
            ReconcilerStateView::Watching { rule: current, .. },
            ReconcilerEventView::SpecUpdated(rule),
        ) => if rule == current {
            state
        } else {
            ReconcilerStateView::Restarting { rule }
        },
        (
            ReconcilerStateView::Restarting { .. },
            ReconcilerEventView::SpecUpdated(rule),
        ) => ReconcilerStateView::Restarting { rule },
        (
            ReconcilerStateView::Restarting { rule },
            ReconcilerEventView::WatcherStopped,
        ) => ReconcilerStateView::Starting { rule },
        _ => state,
    }
}

/// The command that `event` calls for when it reaches a reconciler in
/// `state`.
pub open spec fn command_for(state: ReconcilerStateView, event: ReconcilerEventView) -> CommandView {
    match (state, event) {
        (ReconcilerStateView::Terminated, _) => CommandView::Nothing,
        (
            ReconcilerStateView::Watching { .. },
            ReconcilerEventView::RuleDeleted,
        ) => CommandView::CancelWatcher,
        (
            ReconcilerStateView::Starting { .. },
            ReconcilerEventView::Discovered(_),
        ) => CommandView::StartWatcher,
        (
            ReconcilerStateView::Starting { .. },
            ReconcilerEventView::DiscoveryFailed(error),
        ) => CommandView::Abort(error),
        (
            ReconcilerStateView::Starting { rule: current },
            ReconcilerEventView::SpecUpdated(rule),
        ) => if rule == current {
            CommandView::Nothing
        } else {
            CommandView::Discover
        },
        (
            ReconcilerStateView::Watching { rule: current, .. },
            ReconcilerEventView::SpecUpdated(rule),
        ) => if rule == current {
            CommandView::Nothing
        } else {
            CommandView::CancelWatcher
        },
        (
            ReconcilerStateView::Restarting { .. },
            ReconcilerEventView::WatcherStopped,
        ) => CommandView::Discover,
        (
            ReconcilerStateView::Watching { rule, .. },
            ReconcilerEventView::ObjectChanged(object),
        ) => CommandView::Reconciled {
            patch: planned_patch(rule, object),
            requeue_after_secs: REQUEUE_SECONDS as int,
        },
        _ => CommandView::Nothing,
    }
}

/// The state after a run of events, first event first.
pub open spec fn state_after(
    state: ReconcilerStateView,
    events: Seq<ReconcilerEventView>,
) -> ReconcilerStateView
    decreases events.len(),
{
    if events.len() == 0 {
        state
    } else {
        state_after(next_state(state, events[0]), events.drop_first())
    }
}

/// A reconciler that has ended stays ended, whatever reaches it.
pub proof fn lemma_terminated_is_final(events: Seq<ReconcilerEventView>)
    ensures
        state_after(ReconcilerStateView::Terminated, events) == ReconcilerStateView::Terminated,
    decreases events.len(),
{
    if events.len() > 0 {
        lemma_terminated_is_final(events.drop_first());
    }
}

/// Once its rule has been deleted a reconciler asks for nothing more: no
/// event that follows, however late, brings a patch or any other command.
pub proof fn lemma_nothing_after_deletion(
    state: ReconcilerStateView,
    later: Seq<ReconcilerEventView>,
    event: ReconcilerEventView,
)
    ensures
        next_state(state, ReconcilerEventView::RuleDeleted) == ReconcilerStateView::Terminated,
        command_for(
            state_after(next_state(state, ReconcilerEventView::RuleDeleted), later),
            event,
        ) == CommandView::Nothing,
{
    lemma_terminated_is_final(later);
}

/// Objects are reconciled only while the reconciler is watching, only when
/// one is delivered, and always with the same delay before the next look.
pub proof fn lemma_reconciles_only_while_watching(
    state: ReconcilerStateView,
    event: ReconcilerEventView,
)
    ensures
        command_for(state, event) matches CommandView::Reconciled { patch, requeue_after_secs } ==> {
            &&& state matches ReconcilerStateView::Watching { rule, .. }
            &&& event matches ReconcilerEventView::ObjectChanged(object)
            &&& patch == planned_patch(rule, object)
            &&& requeue_after_secs == REQUEUE_SECONDS
        },
{
}

/// A delivery never moves a reconciler to another state.
pub proof fn lemma_delivery_keeps_state(state: ReconcilerStateView, object: TargetObjectView)
    ensures
        next_state(state, ReconcilerEventView::ObjectChanged(object)) == state,
{
}

/// Begins the reconciler of a rule that was created.
pub fn start(rule: ShardingRuleSpec) -> (begun: (ReconcilerState, Command))
    requires
        rule.wf(),
    ensures
        begun.0@ == (ReconcilerStateView::Starting { rule: rule@ }),
        begun.1@ == CommandView::Discover,
{
    (ReconcilerState::Starting { rule }, Command::Discover)
}

/// Takes a reconciler from one state to the next, and says what is to be
/// done.
pub fn step(state: ReconcilerState, event: ReconcilerEvent) -> (next: (ReconcilerState, Command))
    requires
        state@.wf(),
        event@.wf(),
    ensures
        next.0@ == next_state(state@, event@),
        next.1@ == command_for(state@, event@),
        next.0@.wf(),
{
    match (state, event) {
        (ReconcilerState::Terminated, _) => (ReconcilerState::Terminated, Command::Nothing),
        (ReconcilerState::Watching { .. }, ReconcilerEvent::RuleDeleted) => (
            ReconcilerState::Terminated,
            Command::CancelWatcher,
        ),
        (_, ReconcilerEvent::RuleDeleted) => (ReconcilerState::Terminated, Command::Nothing),
        (ReconcilerState::Starting { rule }, ReconcilerEvent::Discovered(resource)) => (
            ReconcilerState::Watching { rule, resource },
            Command::StartWatcher,
        ),
        (ReconcilerState::Starting { .. }, ReconcilerEvent::DiscoveryFailed(error)) => (
            ReconcilerState::Terminated,
            Command::Abort(error),
        ),
        (ReconcilerState::Starting { rule: current }, ReconcilerEvent::SpecUpdated(rule)) => {
            let command = if rule.same_as(&current) {
                Command::Nothing
            } else {
                Command::Discover
            };
            (ReconcilerState::Starting { rule }, command)
        },
        (
            ReconcilerState::Watching { rule: current, resource },
            ReconcilerEvent::SpecUpdated(rule),
        ) => {
            if rule.same_as(&current) {
                (ReconcilerState::Watching { rule: current, resource }, Command::Nothing)
            } else {
                (ReconcilerState::Restarting { rule }, Command::CancelWatcher)
            }
        },
        (ReconcilerState::Restarting { .. }, ReconcilerEvent::SpecUpdated(rule)) => (
            ReconcilerState::Restarting { rule },
            Command::Nothing,
        ),
        (ReconcilerState::Restarting { rule }, ReconcilerEvent::WatcherStopped) => (
            ReconcilerState::Starting { rule },
            Command::Discover,
        ),
        (ReconcilerState::Watching { rule, resource }, ReconcilerEvent::ObjectChanged(object)) => {
            let patch = reconcile(&rule, &object);
            (
                ReconcilerState::Watching { rule, resource },
                Command::Reconciled { patch, requeue_after_secs: REQUEUE_SECONDS },
            )
        },
        (state, _) => (state, Command::Nothing),
    }
}

} // verus!
