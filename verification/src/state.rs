//! The state that the handlers of a running platform share.

use vstd::prelude::*;
use crate::engine::{EngineView, SyncEngine};
use crate::ingest::{ActivityLog, PipelineActivityView};
use crate::registry::Registry;

verus! {

/// Shared application state: the sync engine for the sources that are
/// pulled, and the log of the batches that are pushed.
pub struct AppState {
    pub engine: SyncEngine,
    pub activities: ActivityLog,
}

impl AppState {
    /// The invariant of the state: that of its engine.
    pub open spec fn wf(&self) -> bool {
        self.engine.wf()
    }

    /// A fresh state over the given registry: no sources, no jobs, no
    /// checkpoints, no batches.
    pub fn new(registry: Registry) -> (state: AppState)
        requires
            registry.wf(),
        ensures
            state.wf(),
            state.engine@ == EngineView::fresh(registry@),
            state.activities@ == Seq::<PipelineActivityView>::empty(),
    {
        AppState { engine: SyncEngine::new(registry), activities: ActivityLog::new() }
    }
}

} // verus!
