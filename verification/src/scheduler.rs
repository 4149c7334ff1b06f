//! The archival scheduler: two periodic triggers and one cancellation.
//!
//! The caller owns the timers and the cancellation signal. It reports each
//! event to the scheduler and does what the scheduler answers. A failed sync
//! cycle or garbage collection pass is no event: the next tick starts afresh.

use crate::handler::{first_missing_gauge, DBCheckpointHandler};
use vstd::prelude::*;

verus! {

/// Seconds between two garbage collection ticks, whatever the sync interval.
pub const GC_INTERVAL_SECS: u64 = 30;

#[derive(Clone, Copy, Debug, PartialEq, Eq, Structural)]
pub enum SchedulerState {
    /// Both timers are armed.
    Running,
    /// The cancellation signal was seen; the task has exited.
    Stopped,
}

#[derive(Clone, Copy, Debug, PartialEq, Eq, Structural)]
pub enum SchedulerEvent {
    /// The sync timer fired.
    SyncTick,
    /// The garbage collection timer fired.
    GcTick,
    /// The shutdown signal arrived.
    Cancelled,
}

#[derive(Clone, Copy, Debug, PartialEq, Eq, Structural)]
pub enum SchedulerAction {
    /// Detect the missing epochs, set the gauge, run an upload cycle.
    Sync,
    /// Run a garbage collection pass.
    CollectGarbage,
    /// Leave the loop.
    Exit,
}

/// The state after `event`.
pub open spec fn next_state(state: SchedulerState, event: SchedulerEvent) -> SchedulerState {
    match (state, event) {
        (SchedulerState::Running, SchedulerEvent::SyncTick) => SchedulerState::Running,
        (SchedulerState::Running, SchedulerEvent::GcTick) => SchedulerState::Running,
        _ => SchedulerState::Stopped,
    }
}

/// What the caller does on `event`.
pub open spec fn action_on(state: SchedulerState, event: SchedulerEvent) -> SchedulerAction {
    match (state, event) {
        (SchedulerState::Running, SchedulerEvent::SyncTick) => SchedulerAction::Sync,
        (SchedulerState::Running, SchedulerEvent::GcTick) => SchedulerAction::CollectGarbage,
        _ => SchedulerAction::Exit,
    }
}

/// The state after a sequence of events.
pub open spec fn state_after(state: SchedulerState, events: Seq<SchedulerEvent>) -> SchedulerState
    decreases events.len(),
{
    if events.len() == 0 {
        state
    } else {
        next_state(state_after(state, events.drop_last()), events.last())
    }
}

/// Stopped is terminal: no event leaves it, and every event is answered with
/// `Exit`.
pub proof fn lemma_stopped_is_terminal(events: Seq<SchedulerEvent>, event: SchedulerEvent)
    ensures
        state_after(SchedulerState::Stopped, events) == SchedulerState::Stopped,
        action_on(state_after(SchedulerState::Stopped, events), event) == SchedulerAction::Exit,
    decreases events.len(),
{
    if events.len() > 0 {
        lemma_stopped_is_terminal(events.drop_last(), event);
    }
}

/// Only the cancellation stops a running scheduler: it is stopped after a
/// sequence of events exactly if one of them was the cancellation.
pub proof fn lemma_only_cancellation_stops(events: Seq<SchedulerEvent>)
    ensures
        state_after(SchedulerState::Running, events) == SchedulerState::Stopped
            <==> events.contains(SchedulerEvent::Cancelled),
    decreases events.len(),
{
    if events.len() > 0 {
        let earlier = events.drop_last();
        lemma_only_cancellation_stops(earlier);
        if earlier.contains(SchedulerEvent::Cancelled) {
            let k = choose|k: int| 0 <= k < earlier.len() && earlier[k] == SchedulerEvent::Cancelled;
            assert(events[k] == SchedulerEvent::Cancelled);
        }
        if events.contains(SchedulerEvent::Cancelled) {
            let k = choose|k: int| 0 <= k < events.len() && events[k] == SchedulerEvent::Cancelled;
            if k < earlier.len() {
                assert(earlier[k] == SchedulerEvent::Cancelled);
            } else {
                assert(events.last() == SchedulerEvent::Cancelled);
            }
        } else if events.last() == SchedulerEvent::Cancelled {
            assert(events[events.len() - 1] == SchedulerEvent::Cancelled);
        }
    }
}

/// A started handler: the handler together with the scheduler's state.
pub struct Scheduler {
    handler: DBCheckpointHandler,
    state: SchedulerState,
}

impl DBCheckpointHandler {
    /// Starts the handler: the scheduler is running, with both timers due at
    /// once.
    pub fn start(self) -> (scheduler: Scheduler)
        ensures
            scheduler.state() == SchedulerState::Running,
            scheduler.handler_view() == self,
    {
        Scheduler { handler: self, state: SchedulerState::Running }
    }
}

impl Scheduler {
    pub closed spec fn state(&self) -> SchedulerState {
        self.state
    }

    pub closed spec fn handler_view(&self) -> DBCheckpointHandler {
        self.handler
    }

    /// The handler that was started.
    pub fn handler(&self) -> (handler: &DBCheckpointHandler)
        ensures
            *handler == self.handler_view(),
    {
        &self.handler
    }

    /// Seconds between two sync ticks.
    pub fn sync_interval_secs(&self) -> (secs: u64)
        ensures
            secs == self.handler_view().interval(),
    {
        self.handler.interval_secs()
    }

    /// Seconds between two garbage collection ticks.
    pub fn gc_interval_secs(&self) -> (secs: u64)
        ensures
            secs == GC_INTERVAL_SECS,
    {
        GC_INTERVAL_SECS
    }

    /// Whether the scheduler is still running.
    pub fn is_running(&self) -> (running: bool)
        ensures
            running == (self.state() == SchedulerState::Running),
    {
        match self.state {
            SchedulerState::Running => true,
            SchedulerState::Stopped => false,
        }
    }

    /// Takes one event and answers what the caller is to do.
    pub fn on_event(&mut self, event: SchedulerEvent) -> (action: SchedulerAction)
        ensures
            action == action_on(old(self).state(), event),
            final(self).state() == next_state(old(self).state(), event),
            final(self).handler_view() == old(self).handler_view(),
    {
        match (self.state, event) {
            (SchedulerState::Running, SchedulerEvent::SyncTick) => SchedulerAction::Sync,
            (SchedulerState::Running, SchedulerEvent::GcTick) => SchedulerAction::CollectGarbage,
            _ => {
                self.state = SchedulerState::Stopped;
                SchedulerAction::Exit
            },
        }
    }

    /// Sets the first-missing-epoch gauge from the list that a sync tick
    /// detected.
    pub fn record_first_missing(&mut self, missing: &Vec<u32>)
        ensures
            final(self).state() == old(self).state(),
            final(self).handler_view().gauge() == first_missing_gauge(missing@),
            final(self).handler_view().marker_names() == old(self).handler_view().marker_names(),
            final(self).handler_view().interval() == old(self).handler_view().interval(),
            final(self).handler_view().prunes_before_upload() == old(
                self,
            ).handler_view().prunes_before_upload(),
            final(self).handler_view().pruner_threshold() == old(
                self,
            ).handler_view().pruner_threshold(),
    {
        self.handler.record_first_missing(missing);
    }
}

} // verus!
