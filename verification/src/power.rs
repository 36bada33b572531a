//! Power management of the UI: continuous rendering is wanted while
//! playing; when idle (no deck playing, no interaction for more than five
//! seconds) the target frame rate drops, and it comes back at once on any
//! interaction or playback. The audio thread is never affected.

use vstd::prelude::*;

verus! {

/// Inactivity after which the UI goes idle, in microseconds (5 s).
pub const IDLE_AFTER_MICROS: u64 = 5_000_000;

/// Change of rendering mode asked for by an update.
#[derive(Debug, Clone, Copy, PartialEq, Eq, Structural)]
pub enum PowerChange {
    /// Keep the current mode.
    Stay,
    /// Back to continuous rendering.
    Wake,
    /// Switch to the low-power frame rate.
    Sleep,
}

/// Inactivity tracking.
#[derive(Debug, Clone, Copy, PartialEq, Eq, Default)]
pub struct Activity {
    /// Time since the last interaction or playback, in microseconds.
    pub micros_since: u64,
    /// Low-power mode in force.
    pub idle: bool,
}

/// Idle mode is only in force after enough inactivity.
pub open spec fn activity_ok(a: Activity) -> bool {
    a.idle ==> a.micros_since > IDLE_AFTER_MICROS
}

pub open spec fn spec_update(a: Activity, active: bool, elapsed_micros: u64) -> (Activity, PowerChange) {
    if active {
        (Activity { micros_since: 0, idle: false }, if a.idle { PowerChange::Wake } else { PowerChange::Stay })
    } else {
        let since = if a.micros_since + elapsed_micros > u64::MAX {
            u64::MAX
        } else {
            (a.micros_since + elapsed_micros) as u64
        };
        if !a.idle && since > IDLE_AFTER_MICROS {
            (Activity { micros_since: since, idle: true }, PowerChange::Sleep)
        } else {
            (Activity { micros_since: since, idle: a.idle }, PowerChange::Stay)
        }
    }
}

impl Activity {
    /// One frame: `active` when a deck plays or an input arrived,
    /// `elapsed_micros` the frame's duration. Returns the mode change to
    /// apply.
    pub fn update(&mut self, active: bool, elapsed_micros: u64) -> (r: PowerChange)
        ensures
            (*final(self), r) == spec_update(*old(self), active, elapsed_micros),
    {
        if active {
            self.micros_since = 0;
            if self.idle {
                self.idle = false;
                return PowerChange::Wake;
            }
            return PowerChange::Stay;
        }
        self.micros_since = self.micros_since.saturating_add(elapsed_micros);
        if !self.idle && self.micros_since > IDLE_AFTER_MICROS {
            self.idle = true;
            return PowerChange::Sleep;
        }
        PowerChange::Stay
    }
}

/// Idle mode is only ever entered after more than five seconds without
/// activity, and any activity leaves it at once.
pub proof fn lemma_idle_needs_inactivity(a: Activity, active: bool, elapsed_micros: u64)
    requires
        activity_ok(a),
    ensures
        activity_ok(spec_update(a, active, elapsed_micros).0),
        active ==> !spec_update(a, active, elapsed_micros).0.idle,
        active && a.idle ==> spec_update(a, active, elapsed_micros).1 == PowerChange::Wake,
        spec_update(a, active, elapsed_micros).1 == PowerChange::Sleep ==> !active && !a.idle,
{
}

} // verus!
