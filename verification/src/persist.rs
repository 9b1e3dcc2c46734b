//! The background persister: the decisions of the task that saves the table
//! at a fixed period. The task itself, its timer and the file belong to the
//! program; it reports what happened and does what it is told here.

use vstd::prelude::*;

verus! {

/// What the persister is waiting for.
#[derive(Debug, Clone, Copy, PartialEq, Eq, Structural)]
pub enum PersistPhase {
    /// The next tick of the timer.
    Waiting,
    /// The outcome of the save that it asked for.
    Saving,
}

/// What the task reports.
#[derive(Debug, Clone, Copy, PartialEq, Eq, Structural)]
pub enum PersistEvent {
    /// The timer ticked.
    Tick,
    /// The snapshot was written.
    Saved,
    /// The snapshot could not be written.
    SaveFailed,
}

/// What the task is to do next. None of these ends the task.
#[derive(Debug, Clone, Copy, PartialEq, Eq, Structural)]
pub enum PersistAction {
    /// Save the table now, then report the outcome.
    Save,
    /// Wait for the next tick.
    Wait,
    /// Log the failure as an error, then wait for the next tick.
    ReportFailure,
}

/// The state of the persister: its period and what it is waiting for.
#[derive(Debug, Clone, Copy, PartialEq, Eq)]
pub struct Persister {
    period_secs: u64,
    phase: PersistPhase,
}

/// The phase and the action that follow an event.
///
/// A tick while waiting starts a save. The outcome of a save, good or bad,
/// sends the persister back to waiting; a bad one is reported first. An event
/// that the phase does not expect changes nothing.
pub open spec fn persist_step(phase: PersistPhase, event: PersistEvent) -> (
    PersistPhase,
    PersistAction,
) {
    match (phase, event) {
        (PersistPhase::Waiting, PersistEvent::Tick) => (PersistPhase::Saving, PersistAction::Save),
        (PersistPhase::Saving, PersistEvent::Saved) => (PersistPhase::Waiting, PersistAction::Wait),
        (PersistPhase::Saving, PersistEvent::SaveFailed) => (
            PersistPhase::Waiting,
            PersistAction::ReportFailure,
        ),
        (PersistPhase::Waiting, _) => (PersistPhase::Waiting, PersistAction::Wait),
        (PersistPhase::Saving, PersistEvent::Tick) => (PersistPhase::Saving, PersistAction::Wait),
    }
}

impl Persister {
    /// The seconds between two saves.
    pub closed spec fn period(&self) -> nat {
        self.period_secs as nat
    }

    /// What the persister is waiting for.
    pub closed spec fn phase(&self) -> PersistPhase {
        self.phase
    }

    /// A persister is well formed when its period can drive a timer.
    pub open spec fn wf(&self) -> bool {
        self.period() > 0
    }

    /// A persister that waits for its first tick. A timer cannot tick every
    /// zero seconds, so that period gives none.
    pub fn new(period_secs: u64) -> (made: Option<Persister>)
        ensures
            made is None <==> period_secs == 0,
            made matches Some(p) ==> p.wf() && p.period() == period_secs && p.phase()
                == PersistPhase::Waiting,
    {
        if period_secs == 0 {
            None
        } else {
            Some(Persister { period_secs, phase: PersistPhase::Waiting })
        }
    }

    /// The seconds between two saves.
    pub fn period_secs(&self) -> (secs: u64)
        ensures
            secs == self.period(),
    {
        self.period_secs
    }

    /// Whether a save is under way.
    pub fn is_saving(&self) -> (saving: bool)
        ensures
            saving == (self.phase() == PersistPhase::Saving),
    {
        match self.phase {
            PersistPhase::Saving => true,
            PersistPhase::Waiting => false,
        }
    }
}

/// Takes one event of the persisting task and says what the task does next,
/// as [`persist_step`] lays down. The period stays as it is.
pub fn persist_db(persister: &mut Persister, event: PersistEvent) -> (action: PersistAction)
    requires
        old(persister).wf(),
    ensures
        final(persister).wf(),
        final(persister).period() == old(persister).period(),
        (final(persister).phase(), action) == persist_step(old(persister).phase(), event),
{
    match persister.phase {
        PersistPhase::Waiting => match event {
            PersistEvent::Tick => {
                persister.phase = PersistPhase::Saving;
                PersistAction::Save
            },
            PersistEvent::Saved => PersistAction::Wait,
            PersistEvent::SaveFailed => PersistAction::Wait,
        },
        PersistPhase::Saving => match event {
            PersistEvent::Tick => PersistAction::Wait,
            PersistEvent::Saved => {
                persister.phase = PersistPhase::Waiting;
                PersistAction::Wait
            },
            PersistEvent::SaveFailed => {
                persister.phase = PersistPhase::Waiting;
                PersistAction::ReportFailure
            },
        },
    }
}

} // verus!
