use vstd::prelude::*;

use crate::phase::Phase;

verus! {

/// Stable container identity across processes.
pub type ContainerId = String;

/// What the daemon knows of a container apart from its progress.
#[derive(Debug, Clone)]
pub struct ContainerInfo {
    pub id: ContainerId,
    pub name: String,
    pub image: String,
    pub order: u32,
}

/// What the daemon tells a client.
#[derive(Debug, Clone)]
pub enum DaemonEvent {
    /// Initial state: full list of containers with current phases.
    Snapshot(Vec<ContainerSnapshot>),
    /// Phase transition for a container.
    PhaseChanged { id: ContainerId, phase: Phase },
    /// Download progress update.
    Progress { id: ContainerId, downloaded: u64, total: u64 },
    /// Log line from a container or system entity.
    Log { id: ContainerId, text: String },
    /// Daemon is exiting; the client should shut down.
    Exit,
}

/// Per-container state sent in the initial snapshot.
#[derive(Debug, Clone)]
pub struct ContainerSnapshot {
    pub info: ContainerInfo,
    pub phase: Phase,
    pub downloaded: u64,
    pub total: u64,
}

} // verus!
