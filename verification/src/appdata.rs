//! Interaction modes: which window has keyboard focus, and the active sort order.

use vstd::prelude::*;

verus! {

/// The window that currently interprets keyboard input. Exactly one is active
/// at a time; popups are modal overlays on top of it, not modes of their own.
#[derive(Debug, PartialEq, Eq, Clone, Copy, Structural)]
pub enum WindowFocus {
    Browse,
    ProcessFilter,
    SignalPick,
    SystemStats,
}

impl Default for WindowFocus {
    fn default() -> (r: Self)
        ensures
            r == WindowFocus::Browse,
    {
        WindowFocus::Browse
    }
}

/// The active sort order of the process list. Each order is total and
/// deterministic: ties on the primary key fall back to descending pid.
#[derive(Debug, PartialEq, Eq, Clone, Copy, Structural)]
pub enum Ordering {
    ByUptime,
    ByMemory,
    ByCpu,
}

impl Default for Ordering {
    fn default() -> (r: Self)
        ensures
            r == Ordering::ByUptime,
    {
        Ordering::ByUptime
    }
}

/// Outside work a key press asks the caller to do: the state machine
/// decides, the caller performs and reports back.
pub enum Effect {
    /// Nothing to do.
    NoOp,
    /// Read fresh process samples and hand them back through a refresh.
    RefreshProcesses,
    /// Run this shell command, report its outcome, then refresh the
    /// process list so a killed process disappears.
    RunCommand(String),
}

} // verus!
