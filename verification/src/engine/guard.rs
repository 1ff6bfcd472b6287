//! The state an interrupt handler consults to stop a run that exceeds its
//! budgets.

use std::sync::Arc;
use std::sync::atomic::{AtomicBool, AtomicU64, Ordering};
use std::time::Instant;
use vstd::prelude::*;
use crate::engine::quickjs::share;
use crate::instrumentation::elapsed_exceeds;

verus! {

/// Budgets of a run and the flags that enforce them.
pub(crate) struct GuardState {
    active: AtomicBool,
    count: AtomicU64,
    start: Instant,
    max_wall_ms: u64,
    max_instructions: u64,
}

/// What one interrupt check read: whether the budgets were enforced, whether
/// the wall-clock budget was exceeded, and how many checks had been counted
/// before it.
pub(crate) struct InterruptReading {
    pub(crate) active: bool,
    pub(crate) wall_time_exceeded: bool,
    pub(crate) checks_before: u64,
}

/// A shared handle on the budgets of a run: whether they are being
/// enforced, and how many interrupt checks have been counted.
pub(crate) struct RunGuard {
    state: Arc<GuardState>,
}

impl RunGuard {
    /// A guard for a run that started at `start`, not yet enforcing.
    pub(crate) fn new(start: Instant, max_wall_ms: u64, max_instructions: u64) -> (g: Self)
        ensures
            g.max_wall_ms() == max_wall_ms,
            g.max_instructions() == max_instructions,
    {
        RunGuard {
            state: Arc::new(
                GuardState {
                    active: AtomicBool::new(false),
                    count: AtomicU64::new(0),
                    start,
                    max_wall_ms,
                    max_instructions,
                },
            ),
        }
    }

    /// Another handle on the same budgets.
    pub(crate) fn share(&self) -> (g: Self)
        ensures
            g.max_wall_ms() == self.max_wall_ms(),
            g.max_instructions() == self.max_instructions(),
    {
        RunGuard { state: share(&self.state) }
    }

    /// The wall-clock budget, in milliseconds.
    pub(crate) closed spec fn max_wall_ms(&self) -> u64 {
        self.state.max_wall_ms
    }

    /// The budget of interrupt checks.
    pub(crate) closed spec fn max_instructions(&self) -> u64 {
        self.state.max_instructions
    }

    /// The wall-clock budget, in milliseconds.
    pub(crate) fn max_wall_ms_value(&self) -> (r: u64)
        ensures
            r == self.max_wall_ms(),
    {
        self.state.max_wall_ms
    }

    /// The budget of interrupt checks.
    pub(crate) fn max_instructions_value(&self) -> (r: u64)
        ensures
            r == self.max_instructions(),
    {
        self.state.max_instructions
    }

    /// Start enforcing the budgets.
    pub(crate) fn activate(&self) {
        self.state.active.store(true, Ordering::Relaxed);
    }

    /// Stop enforcing the budgets.
    pub(crate) fn deactivate(&self) {
        self.state.active.store(false, Ordering::Relaxed);
    }

    /// One interrupt check, with what it read: never while not enforcing;
    /// otherwise stop once the wall-clock budget is exceeded, or once the
    /// checks counted before this one reach the budget of checks.
    pub(crate) fn interrupt_check(&self) -> (r: (bool, Ghost<InterruptReading>))
        ensures
            r.0 == (r.1@.active && (r.1@.wall_time_exceeded || r.1@.checks_before
                >= self.max_instructions())),
    {
        if !self.state.active.load(Ordering::Relaxed) {
            return (false, Ghost(InterruptReading { active: false, wall_time_exceeded: false, checks_before: 0 }));
        }
        if elapsed_exceeds(&self.state.start, self.state.max_wall_ms) {
            return (true, Ghost(InterruptReading { active: true, wall_time_exceeded: true, checks_before: 0 }));
        }
        let current = self.state.count.fetch_add(1, Ordering::Relaxed);
        (
            current >= self.state.max_instructions,
            Ghost(InterruptReading { active: true, wall_time_exceeded: false, checks_before: current }),
        )
    }

    /// The answer to one interrupt check (see `interrupt_check`).
    pub(crate) fn should_interrupt(&self) -> bool {
        self.interrupt_check().0
    }

    /// Whether the wall-clock budget is exceeded now.
    pub(crate) fn wall_time_exceeded(&self) -> bool {
        elapsed_exceeds(&self.state.start, self.state.max_wall_ms)
    }

    /// The number of interrupt checks counted so far.
    pub(crate) fn checks_counted(&self) -> u64 {
        self.state.count.load(Ordering::Relaxed)
    }
}

} // verus!
