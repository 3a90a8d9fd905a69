//! The target filter: a single-slot allow-list naming at most one process.
//!
//! Exact, table-driven unwinding is expensive to set up per process, so only
//! one process at a time gets it; every other sample is attributed by the
//! coarser fallback path, which identifies a stack by opaque handles instead
//! of a full program-counter sequence. The slot is written by an external
//! controller and only read by the core, once per sampling trigger.

use vstd::prelude::*;

verus! {

/// Which attribution path a sample takes.
#[derive(Clone, Copy, PartialEq, Eq, Structural, Debug)]
pub enum UnwindPath {
    /// Walk the unwind table and key the sample by the full stack sequence.
    TableDriven,
    /// Key the sample by the host's opaque stack identifiers.
    Fallback,
}

/// The single-slot allow-list: at most one process id of interest.
pub struct TargetFilter {
    slot: Option<u32>,
}

impl TargetFilter {
    /// The process id in the slot, if any.
    pub closed spec fn spec_target(&self) -> Option<u32> {
        self.slot
    }

    /// Whether `pid` is the process the slot names.
    pub open spec fn is_target(&self, pid: u32) -> bool {
        self.spec_target() == Some(pid)
    }

    /// An empty filter: no process gets the table-driven path.
    pub fn empty() -> (f: TargetFilter)
        ensures
            f.spec_target() == None::<u32>,
    {
        TargetFilter { slot: None }
    }

    /// Points the slot at `pid`, replacing any previous target.
    pub fn set_target(&mut self, pid: u32)
        ensures
            final(self).spec_target() == Some(pid),
    {
        self.slot = Some(pid);
    }

    /// Empties the slot.
    pub fn clear(&mut self)
        ensures
            final(self).spec_target() == None::<u32>,
    {
        self.slot = None;
    }

    /// Picks the path for a sample of process `pid`: table-driven exactly
    /// when the slot holds `pid`, the fallback path otherwise.
    pub fn selected_path(&self, pid: u32) -> (p: UnwindPath)
        ensures
            p == (if self.is_target(pid) {
                UnwindPath::TableDriven
            } else {
                UnwindPath::Fallback
            }),
    {
        match self.slot {
            Some(target) => if target == pid {
                UnwindPath::TableDriven
            } else {
                UnwindPath::Fallback
            },
            None => UnwindPath::Fallback,
        }
    }
}

} // verus!
