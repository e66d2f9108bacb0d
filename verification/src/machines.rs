use vstd::prelude::*;

use crate::lifecycle::{
    state_rank, lemma_container_moves_forward, lemma_shutdown_leaves_active_states,
    all_containers_running, all_containers_stopped, all_set, container_next, container_next_spec,
    orchestrator_next, orchestrator_next_spec, phase_of, phase_of_spec, predecessors_ready,
    predecessors_ready_spec, ContainerState, ContainerTriggers, OrchestratorState, OrderStatus,
};
use crate::logs::LogLineView;
use crate::world::{
    container_views, system_view, ComposeWorld, ContainerRecord, ContainerView, DownloadProgress,
    SystemView, WorldView,
};

verus! {

/// Work that entering a state hands to an async task for the container at an index.
#[derive(PartialEq, Eq, Structural, Clone, Copy, Debug)]
pub enum LifecycleTask {
    /// Pull the image, then mark the container done.
    PullImage(usize),
    /// Boot the container, then mark it done.
    BootContainer(usize),
    /// Stop the container, then mark it done.
    StopContainer(usize),
}

/// What the predecessor trigger reads of every container.
pub open spec fn order_statuses(cs: Seq<ContainerView>) -> Seq<OrderStatus> {
    cs.map_values(
        |c: ContainerView|
            OrderStatus {
                order: c.start_order,
                running: c.state == ContainerState::Running,
                stopped: c.state == ContainerState::Stopped,
            },
    )
}

/// The trigger inputs of the container at `i`.
pub open spec fn triggers_at(cs: Seq<ContainerView>, i: int, shutdown: bool) -> ContainerTriggers {
    ContainerTriggers {
        predecessors_ready: predecessors_ready_spec(cs[i].start_order, order_statuses(cs)),
        done: cs[i].done,
        shutdown,
    }
}

/// The line a container logs on entering a state.
pub open spec fn entry_log(s: ContainerState) -> Option<Seq<char>> {
    match s {
        ContainerState::Starting => Some("Starting container..."@),
        ContainerState::Running => Some("Container started"@),
        ContainerState::Stopping => Some("Stopping container..."@),
        ContainerState::Stopped => Some("Container stopped"@),
        _ => None,
    }
}

/// The line a container logs on entering a state, if any.
pub fn entry_log_text(s: ContainerState) -> (t: Option<&'static str>)
    ensures
        match entry_log(s) {
            Some(e) => t.is_some() && t.unwrap()@ == e,
            None => t.is_none(),
        },
{
    match s {
        ContainerState::Starting => Some("Starting container..."),
        ContainerState::Running => Some("Container started"),
        ContainerState::Stopping => Some("Stopping container..."),
        ContainerState::Stopped => Some("Container stopped"),
        _ => None,
    }
}

/// A container after its machine entered `n` at time `now`: the state and its phase,
/// a zeroed progress when the pull starts, and the entry log line.
pub open spec fn entered(c: ContainerView, n: ContainerState, now: u64) -> ContainerView {
    ContainerView {
        state: n,
        phase: phase_of_spec(n),
        progress: if n == ContainerState::PullingImage {
            Some(DownloadProgress { downloaded: 0, total: 0 })
        } else {
            c.progress
        },
        log: match entry_log(n) {
            Some(t) => c.log.push(LogLineView { timestamp: now, text: t }),
            None => c.log,
        },
        ..c
    }
}

/// The task spawned on entering `n`, for the container at `i`.
pub open spec fn task_for(n: ContainerState, i: usize) -> Seq<LifecycleTask> {
    match n {
        ContainerState::PullingImage => seq![LifecycleTask::PullImage(i)],
        ContainerState::Starting => seq![LifecycleTask::BootContainer(i)],
        ContainerState::Stopping => seq![LifecycleTask::StopContainer(i)],
        _ => Seq::empty(),
    }
}

/// The container at `i` after its machine ran on `cs`.
pub open spec fn step_container(cs: Seq<ContainerView>, i: int, shutdown: bool, now: u64) -> ContainerView {
    match container_next_spec(cs[i].state, triggers_at(cs, i, shutdown)) {
        Some(n) => entered(cs[i], n, now),
        None => cs[i],
    }
}

/// The tasks the machine of the container at `i` spawns when it runs on `cs`.
pub open spec fn step_tasks(cs: Seq<ContainerView>, i: int, shutdown: bool) -> Seq<LifecycleTask> {
    match container_next_spec(cs[i].state, triggers_at(cs, i, shutdown)) {
        Some(n) => task_for(n, i as usize),
        None => Seq::empty(),
    }
}

/// The containers after the machines of the first `k` ran in turn, each seeing the
/// states its predecessors in the pass left.
pub open spec fn pass_containers(cs: Seq<ContainerView>, shutdown: bool, now: u64, k: nat) -> Seq<ContainerView>
    decreases k,
{
    if k == 0 {
        cs
    } else {
        let p = pass_containers(cs, shutdown, now, (k - 1) as nat);
        if k - 1 < p.len() {
            p.update(k - 1, step_container(p, k - 1, shutdown, now))
        } else {
            p
        }
    }
}

/// The tasks spawned while the machines of the first `k` containers ran.
pub open spec fn pass_tasks(cs: Seq<ContainerView>, shutdown: bool, now: u64, k: nat) -> Seq<LifecycleTask>
    decreases k,
{
    if k == 0 {
        Seq::empty()
    } else {
        let p = pass_containers(cs, shutdown, now, (k - 1) as nat);
        let t = pass_tasks(cs, shutdown, now, (k - 1) as nat);
        if k - 1 < p.len() {
            t + step_tasks(p, k - 1, shutdown)
        } else {
            t
        }
    }
}

/// Every container's machine is in `Running`, and there is a container.
pub open spec fn all_running_spec(cs: Seq<ContainerView>) -> bool {
    all_set(cs.map_values(|c: ContainerView| c.state == ContainerState::Running))
}

/// Every container's machine is in `Stopped`, and there is a container.
pub open spec fn all_stopped_spec(cs: Seq<ContainerView>) -> bool {
    all_set(cs.map_values(|c: ContainerView| c.state == ContainerState::Stopped))
}

/// The line the system entity logs when the orchestrator enters a state.
pub open spec fn orchestrator_log(s: OrchestratorState) -> Option<Seq<char>> {
    match s {
        OrchestratorState::AllRunning => Some("All containers ready."@),
        OrchestratorState::AllStopped => Some("All containers stopped."@),
        _ => None,
    }
}

/// The line the system entity logs when the orchestrator enters a state, if any.
pub fn orchestrator_log_text(s: OrchestratorState) -> (t: Option<&'static str>)
    ensures
        match orchestrator_log(s) {
            Some(e) => t.is_some() && t.unwrap()@ == e,
            None => t.is_none(),
        },
{
    match s {
        OrchestratorState::AllRunning => Some("All containers ready."),
        OrchestratorState::AllStopped => Some("All containers stopped."),
        _ => None,
    }
}

/// The system entity after the orchestrator entered `n` at `now`.
pub open spec fn system_logged(s: Option<SystemView>, n: OrchestratorState, now: u64) -> Option<SystemView> {
    match s {
        Some(v) => match orchestrator_log(n) {
            Some(t) => Some(SystemView { log: v.log.push(LogLineView { timestamp: now, text: t }), ..v }),
            None => Some(v),
        },
        None => None,
    }
}

/// The world after the orchestrator's machine ran: entering `AllRunning` or
/// `AllStopped` logs on the system entity, and entering `AllStopped` requests exit.
pub open spec fn orchestrated(w: WorldView, now: u64) -> WorldView {
    match w.orchestrator {
        Some(o) => match orchestrator_next_spec(
            o,
            all_running_spec(w.containers),
            w.shutdown_requested,
            all_stopped_spec(w.containers),
        ) {
            Some(n) => WorldView {
                orchestrator: Some(n),
                system: system_logged(w.system, n, now),
                exit: w.exit || n == OrchestratorState::AllStopped,
                ..w
            },
            None => w,
        },
        None => w,
    }
}

/// The containers with every `Done` marker removed.
pub open spec fn done_cleared(cs: Seq<ContainerView>) -> Seq<ContainerView> {
    cs.map_values(|c: ContainerView| ContainerView { done: false, ..c })
}

/// The world after one run of all state machines at `now`: the container machines in
/// index order, then the orchestrator, then the removal of all `Done` markers.
pub open spec fn machines_ran(w: WorldView, now: u64) -> WorldView {
    let cs = pass_containers(w.containers, w.shutdown_requested, now, w.containers.len());
    let o = orchestrated(WorldView { containers: cs, ..w }, now);
    WorldView { containers: done_cleared(o.containers), ..o }
}

/// The tasks one run of all state machines spawns.
pub open spec fn machines_tasks(w: WorldView, now: u64) -> Seq<LifecycleTask> {
    pass_tasks(w.containers, w.shutdown_requested, now, w.containers.len())
}

proof fn lemma_pass_len(cs: Seq<ContainerView>, shutdown: bool, now: u64, k: nat)
    ensures
        pass_containers(cs, shutdown, now, k).len() == cs.len(),
    decreases k,
{
    if k > 0 {
        lemma_pass_len(cs, shutdown, now, (k - 1) as nat);
    }
}

impl ComposeWorld {
    /// What the predecessor trigger reads of every container.
    fn order_statuses(&self) -> (v: Vec<OrderStatus>)
        ensures
            v@ == order_statuses(self@.containers),
    {
        let mut v: Vec<OrderStatus> = Vec::new();
        let mut i: usize = 0;
        while i < self.containers.len()
            invariant
                i <= self.containers@.len(),
                v@ == order_statuses(self@.containers).take(i as int),
            decreases self.containers@.len() - i,
        {
            let c = &self.containers[i];
            v.push(
                OrderStatus {
                    order: c.start_order,
                    running: c.state == ContainerState::Running,
                    stopped: c.state == ContainerState::Stopped,
                },
            );
            i = i + 1;
            assert(v@ =~= order_statuses(self@.containers).take(i as int));
        }
        assert(v@ =~= order_statuses(self@.containers));
        v
    }

    /// Which containers are in `state`.
    fn states_are(&self, state: ContainerState) -> (v: Vec<bool>)
        ensures
            v@ == self@.containers.map_values(|c: ContainerView| c.state == state),
    {
        let mut v: Vec<bool> = Vec::new();
        let mut i: usize = 0;
        while i < self.containers.len()
            invariant
                i <= self.containers@.len(),
                v@ == self@.containers.map_values(|c: ContainerView| c.state == state).take(i as int),
            decreases self.containers@.len() - i,
        {
            v.push(self.containers[i].state == state);
            i = i + 1;
            assert(v@ =~= self@.containers.map_values(|c: ContainerView| c.state == state).take(i as int));
        }
        assert(v@ =~= self@.containers.map_values(|c: ContainerView| c.state == state));
        v
    }

    /// Enters state `n` for the container at `i`: the state, its phase, the observers' effects.
    fn enter(&mut self, i: usize, n: ContainerState, now: u64)
        requires
            i < old(self)@.containers.len(),
        ensures
            final(self)@ == (WorldView {
                containers: old(self)@.containers.update(i as int, entered(old(self)@.containers[i as int], n, now)),
                ..old(self)@
            }),
    {
        let ghost before = self@.containers[i as int];
        let p = phase_of(n);
        self.containers[i].state = n;
        self.containers[i].phase = p;
        if n == ContainerState::PullingImage {
            self.containers[i].progress = Some(DownloadProgress { downloaded: 0, total: 0 });
        }
        match entry_log_text(n) {
            Some(t) => {
                self.containers[i].log.push(String::from_str(t), now);
            },
            None => {},
        }
        assert(self@.containers[i as int] == entered(before, n, now));
        assert(self@.containers =~= old(self)@.containers.update(i as int, entered(before, n, now)));
    }

    /// Runs the orchestrator's machine on the current containers.
    fn run_orchestrator(&mut self, now: u64)
        ensures
            final(self)@ == orchestrated(old(self)@, now),
    {
        let o = match self.orchestrator {
            Some(o) => o,
            None => return,
        };
        let running = self.states_are(ContainerState::Running);
        let stopped = self.states_are(ContainerState::Stopped);
        let all_running = all_containers_running(&running);
        let all_stopped = all_containers_stopped(&stopped);
        let next = orchestrator_next(o, all_running, self.shutdown_requested, all_stopped);
        match next {
            Some(n) => {
                self.orchestrator = Some(n);
                match &mut self.system {
                    Some(s) => {
                        match orchestrator_log_text(n) {
                            Some(t) => {
                                s.log.push(String::from_str(t), now);
                            },
                            None => {},
                        }
                    },
                    None => {},
                }
                if n == OrchestratorState::AllStopped {
                    self.exit = true;
                }
                assert(self@.containers =~= old(self)@.containers);
            },
            None => {},
        }
    }

    /// Removes every `Done` marker.
    fn clear_done(&mut self)
        ensures
            final(self)@ == (WorldView { containers: done_cleared(old(self)@.containers), ..old(self)@ }),
    {
        let mut i: usize = 0;
        while i < self.containers.len()
            invariant
                i <= self.containers@.len(),
                self.containers@.len() == old(self).containers@.len(),
                self.system == old(self).system,
                self.shutdown_requested == old(self).shutdown_requested,
                self.orchestrator == old(self).orchestrator,
                self.exit == old(self).exit,
                forall|j: int| 0 <= j < i ==> (#[trigger] self.containers@[j])@ == (ContainerView {
                    done: false,
                    ..old(self).containers@[j]@
                }),
                forall|j: int| i <= j < self.containers@.len() ==> (#[trigger] self.containers@[j])@ == old(self).containers@[j]@,
            decreases self.containers@.len() - i,
        {
            let ghost prev = self.containers@;
            self.containers[i].done = false;
            assert forall|j: int| 0 <= j < self.containers@.len() && j != i implies (#[trigger] self.containers@[j])@ == prev[j]@ by {}
            i = i + 1;
        }
        assert(self@.containers =~= done_cleared(old(self)@.containers));
    }

    /// One run of all state machines at time `now`: each container's machine in index
    /// order (taking at most one transition, the first of its table whose trigger holds),
    /// then the orchestrator's, then the removal of all `Done` markers. Returns the tasks
    /// that entering states spawned, in order.
    pub fn run_state_machines(&mut self, now: u64) -> (tasks: Vec<LifecycleTask>)
        ensures
            final(self)@ == machines_ran(old(self)@, now),
            tasks@ == machines_tasks(old(self)@, now),
    {
        let ghost orig = self@;
        let mut tasks: Vec<LifecycleTask> = Vec::new();
        let mut i: usize = 0;
        while i < self.containers.len()
            invariant
                i <= self.containers@.len(),
                self.containers@.len() == orig.containers.len(),
                self@ == (WorldView {
                    containers: pass_containers(orig.containers, orig.shutdown_requested, now, i as nat),
                    ..orig
                }),
                tasks@ == pass_tasks(orig.containers, orig.shutdown_requested, now, i as nat),
            decreases self.containers@.len() - i,
        {
            let ghost p = self@.containers;
            proof {
                lemma_pass_len(orig.containers, orig.shutdown_requested, now, i as nat);
            }
            let statuses = self.order_statuses();
            let ready = predecessors_ready(Some(self.containers[i].start_order), &statuses);
            let t = ContainerTriggers {
                predecessors_ready: ready,
                done: self.containers[i].done,
                shutdown: self.shutdown_requested,
            };
            assert(t == triggers_at(p, i as int, orig.shutdown_requested));
            let next = container_next(self.containers[i].state, t);
            match next {
                Some(n) => {
                    self.enter(i, n, now);
                    match n {
                        ContainerState::PullingImage => tasks.push(LifecycleTask::PullImage(i)),
                        ContainerState::Starting => tasks.push(LifecycleTask::BootContainer(i)),
                        ContainerState::Stopping => tasks.push(LifecycleTask::StopContainer(i)),
                        _ => {},
                    }
                },
                None => {},
            }
            proof {
                assert(self@.containers =~= p.update(i as int, step_container(p, i as int, orig.shutdown_requested, now)));
                assert(tasks@ =~= pass_tasks(orig.containers, orig.shutdown_requested, now, i as nat) + step_tasks(
                    p,
                    i as int,
                    orig.shutdown_requested,
                ));
            }
            i = i + 1;
        }
        self.run_orchestrator(now);
        self.clear_done();
        tasks
    }
}

/// The container at `j` after the first `k` machines ran: its own step if `j < k`,
/// untouched otherwise.
proof fn lemma_pass_at(cs: Seq<ContainerView>, shutdown: bool, now: u64, k: nat, j: int)
    requires
        k <= cs.len(),
        0 <= j < cs.len(),
    ensures
        pass_containers(cs, shutdown, now, k)[j] == if j < k {
            step_container(pass_containers(cs, shutdown, now, j as nat), j, shutdown, now)
        } else {
            cs[j]
        },
    decreases k,
{
    lemma_pass_len(cs, shutdown, now, k);
    if k > 0 {
        lemma_pass_len(cs, shutdown, now, (k - 1) as nat);
        lemma_pass_at(cs, shutdown, now, (k - 1) as nat, j);
        if j == k - 1 {
            lemma_pass_at(cs, shutdown, now, (k - 1) as nat, j);
        }
    }
}

/// After one run of the machines no container carries a `Done` marker.
pub proof fn lemma_machines_clear_done(w: WorldView, now: u64)
    ensures
        forall|i: int| 0 <= i < machines_ran(w, now).containers.len() ==> !(#[trigger] machines_ran(w, now).containers[i]).done,
        machines_ran(w, now).containers.len() == w.containers.len(),
{
    lemma_pass_len(w.containers, w.shutdown_requested, now, w.containers.len());
}

/// One run of the machines moves each container at most one step, and only forward
/// along its lifecycle.
pub proof fn lemma_machines_move_forward(w: WorldView, now: u64)
    ensures
        forall|i: int|
            0 <= i < w.containers.len() ==> {
                let n = (#[trigger] machines_ran(w, now).containers[i]).state;
                ||| n == w.containers[i].state
                ||| (state_rank(n) > state_rank(w.containers[i].state) && container_next_spec(
                    w.containers[i].state,
                    triggers_at(
                        pass_containers(w.containers, w.shutdown_requested, now, i as nat),
                        i,
                        w.shutdown_requested,
                    ),
                ) == Some(n))
            },
{
    let cs = w.containers;
    lemma_pass_len(cs, w.shutdown_requested, now, cs.len());
    assert forall|i: int| 0 <= i < cs.len() implies {
        let n = (#[trigger] machines_ran(w, now).containers[i]).state;
        ||| n == cs[i].state
        ||| (state_rank(n) > state_rank(cs[i].state) && container_next_spec(
            cs[i].state,
            triggers_at(pass_containers(cs, w.shutdown_requested, now, i as nat), i, w.shutdown_requested),
        ) == Some(n))
    } by {
        lemma_pass_at(cs, w.shutdown_requested, now, cs.len(), i);
        lemma_pass_len(cs, w.shutdown_requested, now, i as nat);
        lemma_pass_at(cs, w.shutdown_requested, now, i as nat, i);
        let p = pass_containers(cs, w.shutdown_requested, now, i as nat);
        lemma_container_moves_forward(cs[i].state, triggers_at(p, i, w.shutdown_requested));
    }
}

/// Lower start orders start first: a container that leaves `Pending` for
/// `PullingImage` in a run does so when every container with a lower order is running
/// or stopped, as the run had left them when it reached it.
pub proof fn lemma_machines_respect_start_order(w: WorldView, now: u64, i: int)
    requires
        0 <= i < w.containers.len(),
        w.containers[i].state == ContainerState::Pending,
        machines_ran(w, now).containers[i].state == ContainerState::PullingImage,
    ensures
        predecessors_ready_spec(
            w.containers[i].start_order,
            order_statuses(pass_containers(w.containers, w.shutdown_requested, now, i as nat)),
        ),
{
    let cs = w.containers;
    lemma_pass_len(cs, w.shutdown_requested, now, cs.len());
    lemma_pass_at(cs, w.shutdown_requested, now, cs.len(), i);
    lemma_pass_len(cs, w.shutdown_requested, now, i as nat);
    lemma_pass_at(cs, w.shutdown_requested, now, i as nat, i);
}

/// The daemon asks to exit only once every container has stopped: a run that sets the
/// exit flag leaves all containers, of which there is at least one, stopped.
pub proof fn lemma_exit_after_all_stopped(w: WorldView, now: u64)
    requires
        !w.exit,
        machines_ran(w, now).exit,
    ensures
        machines_ran(w, now).containers.len() > 0,
        forall|i: int|
            0 <= i < machines_ran(w, now).containers.len() ==> (#[trigger] machines_ran(w, now).containers[i]).state
                == ContainerState::Stopped,
{
    let cs = pass_containers(w.containers, w.shutdown_requested, now, w.containers.len());
    let flags = cs.map_values(|c: ContainerView| c.state == ContainerState::Stopped);
    assert forall|i: int| 0 <= i < cs.len() implies (#[trigger] cs[i]).state == ContainerState::Stopped by {
        assert(flags[i]);
    }
}

/// With shutdown requested, one run of the machines moves every container that is
/// pending, pulling, starting or running a step forward along its lifecycle.
pub proof fn lemma_machines_shutdown_moves_active(w: WorldView, now: u64)
    requires
        w.shutdown_requested,
    ensures
        forall|i: int|
            0 <= i < w.containers.len() && (w.containers[i].state == ContainerState::Pending
                || w.containers[i].state == ContainerState::PullingImage || w.containers[i].state
                == ContainerState::Starting || w.containers[i].state == ContainerState::Running) ==> state_rank(
                (#[trigger] machines_ran(w, now).containers[i]).state,
            ) > state_rank(w.containers[i].state),
{
    let cs = w.containers;
    lemma_pass_len(cs, w.shutdown_requested, now, cs.len());
    assert forall|i: int|
        0 <= i < cs.len() && (cs[i].state == ContainerState::Pending || cs[i].state == ContainerState::PullingImage
            || cs[i].state == ContainerState::Starting || cs[i].state == ContainerState::Running) implies state_rank(
        (#[trigger] machines_ran(w, now).containers[i]).state,
    ) > state_rank(cs[i].state) by {
        lemma_pass_at(cs, w.shutdown_requested, now, cs.len(), i);
        lemma_pass_len(cs, w.shutdown_requested, now, i as nat);
        lemma_pass_at(cs, w.shutdown_requested, now, i as nat, i);
        let p = pass_containers(cs, w.shutdown_requested, now, i as nat);
        lemma_shutdown_leaves_active_states(cs[i].state, triggers_at(p, i, w.shutdown_requested));
        lemma_container_moves_forward(cs[i].state, triggers_at(p, i, w.shutdown_requested));
    }
}

proof fn lemma_pass_tasks_contains(cs: Seq<ContainerView>, shutdown: bool, now: u64, k: nat, i: int, x: LifecycleTask)
    requires
        0 <= i < k <= cs.len(),
        step_tasks(pass_containers(cs, shutdown, now, i as nat), i, shutdown).contains(x),
    ensures
        pass_tasks(cs, shutdown, now, k).contains(x),
    decreases k,
{
    lemma_pass_len(cs, shutdown, now, (k - 1) as nat);
    let prev = pass_tasks(cs, shutdown, now, (k - 1) as nat);
    let p = pass_containers(cs, shutdown, now, (k - 1) as nat);
    let cur = pass_tasks(cs, shutdown, now, k);
    assert(cur == prev + step_tasks(p, k - 1, shutdown));
    if i == k - 1 {
        let j = choose|j: int| 0 <= j < step_tasks(p, i, shutdown).len() && step_tasks(p, i, shutdown)[j] == x;
        assert(cur[prev.len() + j] == x);
    } else {
        lemma_pass_tasks_contains(cs, shutdown, now, (k - 1) as nat, i, x);
        let j = choose|j: int| 0 <= j < prev.len() && prev[j] == x;
        assert(cur[j] == x);
    }
}

/// The state the container at `i` is in after one run, and the machine's transition
/// from its state before the run, as the run saw its triggers.
proof fn lemma_machines_step_at(w: WorldView, now: u64, i: int)
    requires
        0 <= i < w.containers.len(),
    ensures
        machines_ran(w, now).containers.len() == w.containers.len(),
        machines_ran(w, now).containers[i] == (ContainerView {
            done: false,
            ..step_container(pass_containers(w.containers, w.shutdown_requested, now, i as nat), i, w.shutdown_requested, now)
        }),
        pass_containers(w.containers, w.shutdown_requested, now, i as nat)[i] == w.containers[i],
        pass_containers(w.containers, w.shutdown_requested, now, i as nat).len() == w.containers.len(),
{
    let cs = w.containers;
    lemma_pass_len(cs, w.shutdown_requested, now, cs.len());
    lemma_pass_len(cs, w.shutdown_requested, now, i as nat);
    lemma_pass_at(cs, w.shutdown_requested, now, cs.len(), i);
    lemma_pass_at(cs, w.shutdown_requested, now, i as nat, i);
}

/// A run reports a container stopped only when it was stopping and its stop had
/// completed (its `Done` marker set), or when it was stopped already.
pub proof fn lemma_machines_stop_only_after_stopping(w: WorldView, now: u64)
    ensures
        forall|i: int|
            0 <= i < w.containers.len() && (#[trigger] machines_ran(w, now).containers[i]).state
                == ContainerState::Stopped ==> w.containers[i].state == ContainerState::Stopped || (w.containers[i].state
                == ContainerState::Stopping && w.containers[i].done),
{
    assert forall|i: int|
        0 <= i < w.containers.len() && (#[trigger] machines_ran(w, now).containers[i]).state == ContainerState::Stopped
            implies w.containers[i].state == ContainerState::Stopped || (w.containers[i].state
        == ContainerState::Stopping && w.containers[i].done) by {
        lemma_machines_step_at(w, now, i);
        let p = pass_containers(w.containers, w.shutdown_requested, now, i as nat);
        crate::lifecycle::lemma_container_edges(w.containers[i].state, triggers_at(p, i, w.shutdown_requested));
    }
}

/// A container that a run moves into `PullingImage`, `Starting` or `Stopping` gets the
/// task that does the work of that state: a pull, a boot or a stop.
pub proof fn lemma_machines_hand_out_tasks(w: WorldView, now: u64, i: int)
    requires
        0 <= i < w.containers.len(),
    ensures
        ({
            let before = w.containers[i].state;
            let after = machines_ran(w, now).containers[i].state;
            &&& (after == ContainerState::PullingImage && before != ContainerState::PullingImage)
                ==> machines_tasks(w, now).contains(LifecycleTask::PullImage(i as usize))
            &&& (after == ContainerState::Starting && before != ContainerState::Starting) ==> machines_tasks(
                w,
                now,
            ).contains(LifecycleTask::BootContainer(i as usize))
            &&& (after == ContainerState::Stopping && before != ContainerState::Stopping) ==> machines_tasks(
                w,
                now,
            ).contains(LifecycleTask::StopContainer(i as usize))
        }),
{
    lemma_machines_step_at(w, now, i);
    let cs = w.containers;
    let sh = w.shutdown_requested;
    let p = pass_containers(cs, sh, now, i as nat);
    let before = cs[i].state;
    let after = machines_ran(w, now).containers[i].state;
    if after != before {
        let n = container_next_spec(before, triggers_at(p, i, sh));
        assert(n == Some(after));
        let ts = step_tasks(p, i, sh);
        if after == ContainerState::PullingImage {
            assert(ts[0] == LifecycleTask::PullImage(i as usize));
            lemma_pass_tasks_contains(cs, sh, now, cs.len(), i, LifecycleTask::PullImage(i as usize));
        } else if after == ContainerState::Starting {
            assert(ts[0] == LifecycleTask::BootContainer(i as usize));
            lemma_pass_tasks_contains(cs, sh, now, cs.len(), i, LifecycleTask::BootContainer(i as usize));
        } else if after == ContainerState::Stopping {
            assert(ts[0] == LifecycleTask::StopContainer(i as usize));
            lemma_pass_tasks_contains(cs, sh, now, cs.len(), i, LifecycleTask::StopContainer(i as usize));
        }
    }
}

/// A run logs at most one line per container, after the lines it had, stamped with the
/// run's time.
pub proof fn lemma_machines_log_stamped_now(w: WorldView, now: u64, i: int)
    requires
        0 <= i < w.containers.len(),
    ensures
        ({
            let old_log = w.containers[i].log;
            let new_log = machines_ran(w, now).containers[i].log;
            &&& old_log.len() <= new_log.len() <= old_log.len() + 1
            &&& new_log.subrange(0, old_log.len() as int) == old_log
            &&& forall|j: int| old_log.len() <= j < new_log.len() ==> (#[trigger] new_log[j]).timestamp == now
        }),
{
    lemma_machines_step_at(w, now, i);
    let old_log = w.containers[i].log;
    let new_log = machines_ran(w, now).containers[i].log;
    assert(new_log.subrange(0, old_log.len() as int) =~= old_log);
}

} // verus!
