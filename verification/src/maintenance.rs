//! Who may use the database first: a recording, or the deferred rebuild of
//! the transcript search index. Recording takes priority: raising its
//! priority interrupts a running rebuild, a recording proceeds only once no
//! rebuild holds the write lock, and no rebuild starts while any recording
//! priority is held. The blocking and the interrupt itself belong to the
//! caller, which holds this state behind a lock.

use vstd::prelude::*;

verus! {

/// The shared state of recording priority and index maintenance.
#[derive(Debug)]
pub struct HistoryIndexMaintenance {
    recording_priorities: usize,
    maintenance_active: bool,
}

/// The state as the rules see it.
pub struct MaintenanceView {
    pub recording_priorities: nat,
    pub maintenance_active: bool,
}

impl View for HistoryIndexMaintenance {
    type V = MaintenanceView;

    closed spec fn view(&self) -> MaintenanceView {
        MaintenanceView {
            recording_priorities: self.recording_priorities as nat,
            maintenance_active: self.maintenance_active,
        }
    }
}

/// Whether index maintenance may start: no recording holds priority and no
/// other maintenance runs.
pub open spec fn spec_maintenance_may_begin(state: MaintenanceView) -> bool {
    state.recording_priorities == 0 && !state.maintenance_active
}

impl HistoryIndexMaintenance {
    /// No recording priority held and no maintenance running.
    pub fn new() -> (m: Self)
        ensures
            m@.recording_priorities == 0,
            !m@.maintenance_active,
    {
        HistoryIndexMaintenance { recording_priorities: 0, maintenance_active: false }
    }

    /// The number of recording priorities held.
    pub fn recording_priorities(&self) -> (n: usize)
        ensures
            n == self@.recording_priorities,
    {
        self.recording_priorities
    }

    /// Whether a maintenance transaction holds the database.
    pub fn maintenance_active(&self) -> (b: bool)
        ensures
            b == self@.maintenance_active,
    {
        self.maintenance_active
    }

    /// Raises recording priority. The guard says whether a running
    /// maintenance transaction must be interrupted for the recording; it is
    /// handed back to `release_recording_priority`.
    pub fn prioritize_recording(&mut self) -> (guard: RecordingPriorityGuard)
        requires
            old(self)@.recording_priorities < usize::MAX,
        ensures
            final(self)@.recording_priorities == old(self)@.recording_priorities + 1,
            final(self)@.maintenance_active == old(self)@.maintenance_active,
            guard.interrupts_maintenance() == old(self)@.maintenance_active,
    {
        self.recording_priorities = self.recording_priorities + 1;
        RecordingPriorityGuard { interrupt_maintenance: self.maintenance_active }
    }

    /// Whether a recording that raised its priority may proceed: no
    /// maintenance transaction holds the database.
    pub fn recording_may_proceed(&self) -> (b: bool)
        ensures
            b == !self@.maintenance_active,
    {
        !self.maintenance_active
    }

    /// Releases the recording priority that `guard` holds.
    pub fn release_recording_priority(&mut self, guard: RecordingPriorityGuard)
        ensures
            final(self)@.recording_priorities == if old(self)@.recording_priorities > 0 {
                (old(self)@.recording_priorities - 1) as nat
            } else {
                0
            },
            final(self)@.maintenance_active == old(self)@.maintenance_active,
    {
        self.recording_priorities = self.recording_priorities.saturating_sub(1);
    }

    /// Whether index maintenance may begin now.
    pub fn maintenance_may_begin(&self) -> (b: bool)
        ensures
            b == spec_maintenance_may_begin(self@),
    {
        self.recording_priorities == 0 && !self.maintenance_active
    }

    /// Starts maintenance when it may begin; returns whether it did.
    pub fn begin_maintenance(&mut self) -> (began: bool)
        ensures
            began == spec_maintenance_may_begin(old(self)@),
            began ==> final(self)@.maintenance_active,
            !began ==> final(self)@ == old(self)@,
            final(self)@.recording_priorities == old(self)@.recording_priorities,
    {
        if self.recording_priorities == 0 && !self.maintenance_active {
            self.maintenance_active = true;
            true
        } else {
            false
        }
    }

    /// Ends the running maintenance transaction.
    pub fn end_maintenance(&mut self)
        ensures
            !final(self)@.maintenance_active,
            final(self)@.recording_priorities == old(self)@.recording_priorities,
    {
        self.maintenance_active = false;
    }
}

impl Default for HistoryIndexMaintenance {
    fn default() -> (m: Self)
        ensures
            m@.recording_priorities == 0,
            !m@.maintenance_active,
    {
        HistoryIndexMaintenance::new()
    }
}

/// One raised recording priority, held until it is released.
#[derive(Debug)]
pub struct RecordingPriorityGuard {
    interrupt_maintenance: bool,
}

impl RecordingPriorityGuard {
    pub closed spec fn interrupts_maintenance(&self) -> bool {
        self.interrupt_maintenance
    }

    /// Whether the maintenance transaction that ran when the priority was
    /// raised must be interrupted.
    pub fn must_interrupt_maintenance(&self) -> (b: bool)
        ensures
            b == self.interrupts_maintenance(),
    {
        self.interrupt_maintenance
    }
}

/// Recording and maintenance exclude each other: while any recording
/// priority is held no maintenance begins, and a recording that raised its
/// priority while maintenance ran is told to interrupt it and does not
/// proceed until it ends.
pub proof fn lemma_recording_takes_priority(state: MaintenanceView)
    requires
        state.recording_priorities > 0,
    ensures
        !spec_maintenance_may_begin(state),
        !spec_maintenance_may_begin(
            MaintenanceView { maintenance_active: false, ..state },
        ),
{
}

} // verus!
