use vstd::prelude::*;

use crate::phase::ContainerPhase;

verus! {

/// The state a container's lifecycle machine is in.
#[derive(PartialEq, Eq, Structural, Clone, Copy, Debug)]
pub enum ContainerState {
    Pending,
    PullingImage,
    Starting,
    Running,
    Stopping,
    Stopped,
}

/// The state the orchestrator's machine is in.
#[derive(PartialEq, Eq, Structural, Clone, Copy, Debug)]
pub enum OrchestratorState {
    Deploying,
    AllRunning,
    ShuttingDown,
    AllStopped,
}

/// What the predecessor trigger reads of one container: its start order and
/// whether its machine is in `Running` or in `Stopped`.
#[derive(PartialEq, Eq, Structural, Clone, Copy, Debug)]
pub struct OrderStatus {
    pub order: u32,
    pub running: bool,
    pub stopped: bool,
}

/// Every container that starts before `order` is up (running) or finished (stopped).
pub open spec fn predecessors_ready_spec(order: u32, all: Seq<OrderStatus>) -> bool {
    forall|i: int| 0 <= i < all.len() && all[i].order < order ==> (#[trigger] all[i]).running || all[i].stopped
}

/// Trigger of the `Pending -> PullingImage` transition. A container without a start
/// order is never ready.
pub fn predecessors_ready(order: Option<u32>, all: &Vec<OrderStatus>) -> (r: bool)
    ensures
        r == (order is Some && predecessors_ready_spec(order->0, all@)),
{
    let o = match order {
        Some(o) => o,
        None => return false,
    };
    let mut i: usize = 0;
    while i < all.len()
        invariant
            i <= all@.len(),
            order == Some(o),
            forall|j: int| 0 <= j < i && all@[j].order < o ==> (#[trigger] all@[j]).running || all@[j].stopped,
        decreases all@.len() - i,
    {
        let s = all[i];
        if s.order < o && !(s.running || s.stopped) {
            assert(!((all@[i as int]).running || all@[i as int].stopped));
            return false;
        }
        i = i + 1;
    }
    true
}

/// A non-empty collection of flags that are all set.
pub open spec fn all_set(v: Seq<bool>) -> bool {
    v.len() > 0 && forall|i: int| 0 <= i < v.len() ==> #[trigger] v[i]
}

fn nonempty_and_all(v: &Vec<bool>) -> (r: bool)
    ensures
        r == all_set(v@),
{
    if v.len() == 0 {
        return false;
    }
    let mut i: usize = 0;
    while i < v.len()
        invariant
            i <= v@.len(),
            forall|j: int| 0 <= j < i ==> #[trigger] v@[j],
        decreases v@.len() - i,
    {
        if !v[i] {
            return false;
        }
        i = i + 1;
    }
    true
}

/// Trigger of `Deploying -> AllRunning`: there are containers and every one is running.
pub fn all_containers_running(running: &Vec<bool>) -> (r: bool)
    ensures
        r == all_set(running@),
{
    nonempty_and_all(running)
}

/// Trigger of `ShuttingDown -> AllStopped`: there are containers and every one is stopped.
pub fn all_containers_stopped(stopped: &Vec<bool>) -> (r: bool)
    ensures
        r == all_set(stopped@),
{
    nonempty_and_all(stopped)
}

/// What the container machine's triggers read for one container.
#[derive(PartialEq, Eq, Structural, Clone, Copy, Debug)]
pub struct ContainerTriggers {
    /// `predecessors_ready` holds.
    pub predecessors_ready: bool,
    /// The container carries a `Done` marker.
    pub done: bool,
    /// A shutdown has been requested.
    pub shutdown: bool,
}

/// The container machine's transition table, in priority order:
/// `Pending -> PullingImage` when the predecessors are ready,
/// `PullingImage -> Starting` and `Starting -> Running` when done,
/// any of `Pending, PullingImage, Starting, Running -> Stopping` on shutdown,
/// `Stopping -> Stopped` when done.
pub open spec fn container_next_spec(s: ContainerState, t: ContainerTriggers) -> Option<ContainerState> {
    match s {
        ContainerState::Pending => if t.predecessors_ready {
            Some(ContainerState::PullingImage)
        } else if t.shutdown {
            Some(ContainerState::Stopping)
        } else {
            None
        },
        ContainerState::PullingImage => if t.done {
            Some(ContainerState::Starting)
        } else if t.shutdown {
            Some(ContainerState::Stopping)
        } else {
            None
        },
        ContainerState::Starting => if t.done {
            Some(ContainerState::Running)
        } else if t.shutdown {
            Some(ContainerState::Stopping)
        } else {
            None
        },
        ContainerState::Running => if t.shutdown {
            Some(ContainerState::Stopping)
        } else {
            None
        },
        ContainerState::Stopping => if t.done {
            Some(ContainerState::Stopped)
        } else {
            None
        },
        ContainerState::Stopped => None,
    }
}

/// The transition the container machine takes, if any.
pub fn container_next(s: ContainerState, t: ContainerTriggers) -> (r: Option<ContainerState>)
    ensures
        r == container_next_spec(s, t),
{
    match s {
        ContainerState::Pending => if t.predecessors_ready {
            Some(ContainerState::PullingImage)
        } else if t.shutdown {
            Some(ContainerState::Stopping)
        } else {
            None
        },
        ContainerState::PullingImage => if t.done {
            Some(ContainerState::Starting)
        } else if t.shutdown {
            Some(ContainerState::Stopping)
        } else {
            None
        },
        ContainerState::Starting => if t.done {
            Some(ContainerState::Running)
        } else if t.shutdown {
            Some(ContainerState::Stopping)
        } else {
            None
        },
        ContainerState::Running => if t.shutdown {
            Some(ContainerState::Stopping)
        } else {
            None
        },
        ContainerState::Stopping => if t.done {
            Some(ContainerState::Stopped)
        } else {
            None
        },
        ContainerState::Stopped => None,
    }
}

/// The phase component a container carries once its machine has entered `s`.
pub open spec fn phase_of_spec(s: ContainerState) -> ContainerPhase {
    match s {
        ContainerState::Pending => ContainerPhase::Pending,
        ContainerState::PullingImage => ContainerPhase::PullingImage,
        ContainerState::Starting => ContainerPhase::Starting,
        ContainerState::Running => ContainerPhase::Running,
        ContainerState::Stopping => ContainerPhase::Stopping,
        ContainerState::Stopped => ContainerPhase::Stopped,
    }
}

/// The phase inserted when the machine enters `s`.
pub fn phase_of(s: ContainerState) -> (p: ContainerPhase)
    ensures
        p == phase_of_spec(s),
{
    match s {
        ContainerState::Pending => ContainerPhase::Pending,
        ContainerState::PullingImage => ContainerPhase::PullingImage,
        ContainerState::Starting => ContainerPhase::Starting,
        ContainerState::Running => ContainerPhase::Running,
        ContainerState::Stopping => ContainerPhase::Stopping,
        ContainerState::Stopped => ContainerPhase::Stopped,
    }
}

/// The orchestrator machine's transition table, in priority order:
/// `Deploying -> AllRunning` when all containers run, `Deploying, AllRunning -> ShuttingDown`
/// on shutdown, `ShuttingDown -> AllStopped` when all containers are stopped.
pub open spec fn orchestrator_next_spec(
    s: OrchestratorState,
    all_running: bool,
    shutdown: bool,
    all_stopped: bool,
) -> Option<OrchestratorState> {
    match s {
        OrchestratorState::Deploying => if all_running {
            Some(OrchestratorState::AllRunning)
        } else if shutdown {
            Some(OrchestratorState::ShuttingDown)
        } else {
            None
        },
        OrchestratorState::AllRunning => if shutdown {
            Some(OrchestratorState::ShuttingDown)
        } else {
            None
        },
        OrchestratorState::ShuttingDown => if all_stopped {
            Some(OrchestratorState::AllStopped)
        } else {
            None
        },
        OrchestratorState::AllStopped => None,
    }
}

/// The transition the orchestrator machine takes, if any.
pub fn orchestrator_next(s: OrchestratorState, all_running: bool, shutdown: bool, all_stopped: bool) -> (r:
    Option<OrchestratorState>)
    ensures
        r == orchestrator_next_spec(s, all_running, shutdown, all_stopped),
{
    match s {
        OrchestratorState::Deploying => if all_running {
            Some(OrchestratorState::AllRunning)
        } else if shutdown {
            Some(OrchestratorState::ShuttingDown)
        } else {
            None
        },
        OrchestratorState::AllRunning => if shutdown {
            Some(OrchestratorState::ShuttingDown)
        } else {
            None
        },
        OrchestratorState::ShuttingDown => if all_stopped {
            Some(OrchestratorState::AllStopped)
        } else {
            None
        },
        OrchestratorState::AllStopped => None,
    }
}

/// Position of a container state along the lifecycle.
pub open spec fn state_rank(s: ContainerState) -> int {
    match s {
        ContainerState::Pending => 0,
        ContainerState::PullingImage => 1,
        ContainerState::Starting => 2,
        ContainerState::Running => 3,
        ContainerState::Stopping => 4,
        ContainerState::Stopped => 5,
    }
}

/// Position of an orchestrator state along its lifecycle.
pub open spec fn orchestrator_rank(s: OrchestratorState) -> int {
    match s {
        OrchestratorState::Deploying => 0,
        OrchestratorState::AllRunning => 1,
        OrchestratorState::ShuttingDown => 2,
        OrchestratorState::AllStopped => 3,
    }
}

/// A container machine only moves forward along its lifecycle, and `Stopped` is final.
pub proof fn lemma_container_moves_forward(s: ContainerState, t: ContainerTriggers)
    ensures
        container_next_spec(s, t) matches Some(n) ==> state_rank(n) > state_rank(s),
        s == ContainerState::Stopped ==> container_next_spec(s, t).is_none(),
{
}

/// Lower start orders start first: a container leaves `Pending` for `PullingImage`
/// only when its predecessors are ready.
pub proof fn lemma_start_waits_for_predecessors(s: ContainerState, t: ContainerTriggers)
    ensures
        container_next_spec(s, t) == Some(ContainerState::PullingImage) ==> s == ContainerState::Pending
            && t.predecessors_ready,
{
}

/// A shutdown request moves every active container out of its state, unless a
/// transition of higher priority fires; a stopping container waits for its stop to finish.
pub proof fn lemma_shutdown_leaves_active_states(s: ContainerState, t: ContainerTriggers)
    requires
        t.shutdown,
        s == ContainerState::Pending || s == ContainerState::PullingImage || s == ContainerState::Starting
            || s == ContainerState::Running,
    ensures
        container_next_spec(s, t).is_some(),
{
}

/// The orchestrator only moves forward, and `AllStopped` is final.
pub proof fn lemma_orchestrator_moves_forward(s: OrchestratorState, a: bool, b: bool, c: bool)
    ensures
        orchestrator_next_spec(s, a, b, c) matches Some(n) ==> orchestrator_rank(n) > orchestrator_rank(s),
        s == OrchestratorState::AllStopped ==> orchestrator_next_spec(s, a, b, c).is_none(),
{
}

/// Each edge of the container lifecycle, and when it is taken: a pull starts from
/// `Pending` once the predecessors are ready; the pull's and the boot's completions
/// move on to `Starting` and `Running`; a shutdown sends a container that is pending
/// (not yet ready), pulling, starting (not yet done) or running to `Stopping`; a stop
/// completes only from `Stopping`, once done. No transition leads back to `Pending`.
pub proof fn lemma_container_edges(s: ContainerState, t: ContainerTriggers)
    ensures
        container_next_spec(s, t) != Some(ContainerState::Pending),
        container_next_spec(s, t) == Some(ContainerState::PullingImage) <==> s == ContainerState::Pending
            && t.predecessors_ready,
        container_next_spec(s, t) == Some(ContainerState::Starting) <==> s == ContainerState::PullingImage && t.done,
        container_next_spec(s, t) == Some(ContainerState::Running) <==> s == ContainerState::Starting && t.done,
        container_next_spec(s, t) == Some(ContainerState::Stopping) <==> t.shutdown && ((s == ContainerState::Pending
            && !t.predecessors_ready) || (s == ContainerState::PullingImage && !t.done) || (s
            == ContainerState::Starting && !t.done) || s == ContainerState::Running),
        container_next_spec(s, t) == Some(ContainerState::Stopped) <==> s == ContainerState::Stopping && t.done,
{
}

/// Each edge of the orchestrator's lifecycle: it reports all running from `Deploying`
/// once every container runs; a shutdown moves it to `ShuttingDown` from `AllRunning`,
/// or from `Deploying` when not all run; it reports all stopped only from
/// `ShuttingDown`, once every container has stopped.
pub proof fn lemma_orchestrator_edges(s: OrchestratorState, all_running: bool, shutdown: bool, all_stopped: bool)
    ensures
        orchestrator_next_spec(s, all_running, shutdown, all_stopped) != Some(OrchestratorState::Deploying),
        orchestrator_next_spec(s, all_running, shutdown, all_stopped) == Some(OrchestratorState::AllRunning) <==> s
            == OrchestratorState::Deploying && all_running,
        orchestrator_next_spec(s, all_running, shutdown, all_stopped) == Some(OrchestratorState::ShuttingDown)
            <==> shutdown && (s == OrchestratorState::AllRunning || (s == OrchestratorState::Deploying
            && !all_running)),
        orchestrator_next_spec(s, all_running, shutdown, all_stopped) == Some(OrchestratorState::AllStopped) <==> s
            == OrchestratorState::ShuttingDown && all_stopped,
{
}

/// A container that starts earlier and is neither running nor stopped holds back every
/// container that starts later; containers that start at the same time or later never
/// hold one back.
pub proof fn lemma_predecessors_ready_exact(order: u32, all: Seq<OrderStatus>)
    ensures
        (exists|i: int| 0 <= i < all.len() && all[i].order < order && !all[i].running && !all[i].stopped)
            ==> !predecessors_ready_spec(order, all),
        (forall|i: int| 0 <= i < all.len() ==> (#[trigger] all[i]).order >= order) ==> predecessors_ready_spec(
            order,
            all,
        ),
{
    if exists|i: int| 0 <= i < all.len() && all[i].order < order && !all[i].running && !all[i].stopped {
        let i = choose|i: int| 0 <= i < all.len() && all[i].order < order && !all[i].running && !all[i].stopped;
        assert(!(all[i].running || all[i].stopped));
    }
}

} // verus!
