//! What the outside world reports to a session: what the monitor delivers,
//! and how the attempt to clear the screen ended.

use vstd::prelude::*;

verus! {

/// What happened to a watched path.
#[derive(Debug, Clone, Copy, PartialEq, Eq)]
pub enum ChangeKind {
    /// Something was created.
    Create,
    /// Contents or metadata changed.
    Modify,
    /// Something was removed.
    Remove,
    /// Something was given another name.
    Rename,
    /// Anything else.
    Other,
}

/// One notification from the monitor: what happened, and to which paths.
#[derive(Debug, Clone, PartialEq, Eq)]
pub struct ChangeEvent {
    pub kind: ChangeKind,
    pub paths: Vec<String>,
}

/// A `ChangeEvent` as contracts see it.
pub struct Change {
    pub kind: ChangeKind,
    pub paths: Seq<Seq<char>>,
}

impl View for ChangeEvent {
    type V = Change;

    open spec fn view(&self) -> Change {
        Change { kind: self.kind, paths: self.paths.deep_view() }
    }
}

/// What a receive on the monitor's channel gave.
#[derive(Debug, Clone, PartialEq, Eq)]
pub enum Delivery {
    /// The monitor saw a change.
    Event(ChangeEvent),
    /// The monitor reported an error of its own.
    MonitorError,
    /// The channel is closed: nothing will ever be delivered again.
    Disconnected,
}

/// A `Delivery` as contracts see it.
pub enum Signal {
    Event(Change),
    MonitorError,
    Disconnected,
}

impl View for Delivery {
    type V = Signal;

    open spec fn view(&self) -> Signal {
        match self {
            Delivery::Event(event) => Signal::Event(event@),
            Delivery::MonitorError => Signal::MonitorError,
            Delivery::Disconnected => Signal::Disconnected,
        }
    }
}

/// How the attempt to clear the screen ended.
#[derive(Debug, Clone, Copy, PartialEq, Eq)]
pub enum ClearOutcome {
    /// The command that clears the screen could not be run.
    NotRun,
    /// The command ran and ended with this exit code, or without one where a
    /// signal ended it.
    Exited(Option<i32>),
}

/// The screen is clear when the command ran and ended with exit code 0.
pub open spec fn is_cleared(outcome: ClearOutcome) -> bool {
    outcome == ClearOutcome::Exited(Some(0i32))
}

/// A change triggers the utility when it is a modification, and only then.
pub open spec fn triggers(kind: ChangeKind) -> bool {
    kind == ChangeKind::Modify
}

impl ClearOutcome {
    /// Tells whether the screen is clear.
    pub fn cleared(&self) -> (yes: bool)
        ensures
            yes == is_cleared(*self),
    {
        match self {
            ClearOutcome::Exited(Some(code)) => *code == 0,
            _ => false,
        }
    }
}

impl ChangeKind {
    /// Tells whether a change of this kind makes the utility run.
    pub fn is_trigger(&self) -> (yes: bool)
        ensures
            yes == triggers(*self),
    {
        match self {
            ChangeKind::Modify => true,
            _ => false,
        }
    }
}

} // verus!
