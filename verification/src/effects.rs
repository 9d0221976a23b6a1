//! What a button asks of its host after an event. The host draws, stores,
//! schedules and alerts; the button only decides.

use vstd::prelude::*;
use crate::anchor::PersistedSnapshot;
use crate::press::Deadline;

verus! {

/// What to do with the button's stored record.
#[derive(Clone, Copy, Debug, PartialEq, Eq, Structural)]
pub enum Persist {
    /// Leave the record as it is.
    Keep,
    /// Replace the record with this snapshot.
    Save(PersistedSnapshot),
    /// Remove the record.
    Clear,
}

/// What the host of a timer or stopwatch does after an event.
#[derive(Clone, Copy, Debug, PartialEq, Eq, Structural)]
pub struct Effects {
    /// Draw this many seconds.
    pub render_secs: Option<u64>,
    pub persist: Persist,
    /// Launch a tick loop that captures this epoch.
    pub launch: Option<u64>,
    /// Schedule this long-press deadline.
    pub arm: Option<Deadline>,
    /// Raise the alert.
    pub alert: bool,
}

/// Nothing to do.
pub open spec fn no_effects() -> Effects {
    Effects { render_secs: None, persist: Persist::Keep, launch: None, arm: None, alert: false }
}

impl Effects {
    /// Nothing to do.
    pub fn none() -> (e: Effects)
        ensures
            e == no_effects(),
    {
        Effects { render_secs: None, persist: Persist::Keep, launch: None, arm: None, alert: false }
    }
}

} // verus!
