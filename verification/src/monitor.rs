use vstd::prelude::*;

verus! {

/// Where the clipboard monitor stands: waiting for the next change, or
/// working through one.
#[derive(Clone, Copy, Debug, PartialEq, Eq, Structural)]
pub enum MonitorState {
    Idle,
    Processing,
}

/// What the watcher reports to the monitor loop.
#[derive(Clone, Copy, Debug, PartialEq, Eq, Structural)]
pub enum MonitorEvent {
    ChangeDetected,
    ProcessingDone,
    ClipboardError,
}

/// What the loop does next. No event ever stops the loop: a clipboard error
/// is logged by the host and watching continues.
#[derive(Clone, Copy, Debug, PartialEq, Eq, Structural)]
pub enum MonitorAction {
    ProcessChange,
    Continue,
}

/// One step of the monitor loop: a detected change while idle starts
/// processing; finishing, and any clipboard error, returns the monitor to
/// idle. Every combination of state and event has a next state, so the loop
/// runs until the process exits.
pub fn monitor_step(state: MonitorState, event: MonitorEvent) -> (r: (MonitorState, MonitorAction))
    ensures
        event == MonitorEvent::ClipboardError ==> r == (
            MonitorState::Idle,
            MonitorAction::Continue,
        ),
        state == MonitorState::Idle && event == MonitorEvent::ChangeDetected ==> r == (
            MonitorState::Processing,
            MonitorAction::ProcessChange,
        ),
        state == MonitorState::Processing && event == MonitorEvent::ChangeDetected ==> r == (
            MonitorState::Processing,
            MonitorAction::Continue,
        ),
        event == MonitorEvent::ProcessingDone ==> r == (MonitorState::Idle, MonitorAction::Continue),
{
    match event {
        MonitorEvent::ClipboardError => (MonitorState::Idle, MonitorAction::Continue),
        MonitorEvent::ProcessingDone => (MonitorState::Idle, MonitorAction::Continue),
        MonitorEvent::ChangeDetected => match state {
            MonitorState::Idle => (MonitorState::Processing, MonitorAction::ProcessChange),
            MonitorState::Processing => (MonitorState::Processing, MonitorAction::Continue),
        },
    }
}

} // verus!
