//! The audio core: one owned value holding the whole subsystem's state.
//!
//! The virtual device graph, the playback sessions and the routing
//! selection live together here, threaded explicitly through the caller's
//! update loop — no ambient state. The caller drives each part through its
//! own operations; this type adds the coordination the parts' lifecycles
//! require of each other.
use vstd::prelude::*;
use crate::command::AudioCommand;
use crate::graph::{graph_wf, VirtualMicManager};
use crate::selection::{loop_wf, SelectionLoop};
use crate::sessions::{tracker_wf, SessionTracker};

verus! {

/// The audio core's whole state: created at startup, rebuilt on reload,
/// torn down at shutdown, all by the caller.
pub struct AudioCore {
    /// Owner of the virtual device graph.
    pub manager: VirtualMicManager,
    /// Owner of the playback sessions.
    pub tracker: SessionTracker,
    /// The output selection loop.
    pub selection: SelectionLoop,
}

/// The core is well-formed when each part is.
pub open spec fn core_wf(c: AudioCore) -> bool {
    &&& graph_wf(c.manager)
    &&& tracker_wf(c.tracker)
    &&& loop_wf(c.selection)
}

impl AudioCore {
    /// A core with no graph, no sessions and no selection.
    pub fn new(poll_interval_ms: u64) -> (c: AudioCore)
        ensures
            core_wf(c),
            c.manager.phase is Absent,
            c.tracker.sessions@.len() == 0,
            c.selection.selection.desired is None,
            c.selection.selection.applied is None,
            c.selection.poll_interval_ms == poll_interval_ms,
    {
        AudioCore {
            manager: VirtualMicManager::new(),
            tracker: SessionTracker::new(),
            selection: SelectionLoop::new(poll_interval_ms),
        }
    }

    /// Prepares a reload of the virtual device graph. Rebuilding the graph
    /// invalidates every outstanding mixing connection, so the session
    /// tracker is cleared first; then the graph turns fully absent. The
    /// caller silences the returned mixing handles, runs the returned
    /// unload commands, and creates the graph afresh.
    pub fn prepare_reload(&mut self) -> (out: (Vec<u64>, Vec<AudioCommand>))
        requires
            core_wf(*old(self)),
        ensures
            core_wf(*final(self)),
            final(self).tracker.sessions@.len() == 0,
            final(self).manager.phase is Absent,
            final(self).manager.created@.len() == 0,
            final(self).selection == old(self).selection,
            out.0@.len() == old(self).tracker.sessions@.len(),
            forall|k: int| 0 <= k < out.0@.len()
                ==> out.0@[k] == (#[trigger] old(self).tracker.sessions@[k]).mix_handle,
            out.1@.len() == old(self).manager.created@.len(),
    {
        let handles = self.tracker.stop_all();
        let unloads = self.manager.destroy();
        (handles, unloads)
    }
}

} // verus!
