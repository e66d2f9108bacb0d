use vstd::prelude::*;

use crate::phase::ContainerPhase;
use crate::random::{random_in_range, thread_rng};
use crate::world::{container_views, spawned_view, with_containers, ComposeWorld, ContainerView, DownloadProgress, WorldView};

verus! {

/// Bytes a simulated image pull downloads.
pub const PULL_TOTAL: u64 = 100_000_000;

/// Number of progress reports of a simulated pull.
pub const PULL_STEPS: usize = 10;

/// An event flowing into the world from async tasks.
#[derive(PartialEq, Eq, Structural, Clone, Copy, Debug)]
pub enum AppEvent {
    DownloadProgress { entity: usize, downloaded: u64, total: u64 },
    DownloadComplete(usize),
    BootComplete(usize),
    ShutdownComplete(usize),
    ShutdownAll,
    AllContainersReady,
}

/// An event sent after sleeping `delay_ms` milliseconds.
#[derive(PartialEq, Eq, Structural, Clone, Copy, Debug)]
pub struct Timed {
    pub delay_ms: u64,
    pub event: AppEvent,
}

/// An async task: its events, each sent after its delay, one after the other.
#[derive(Debug)]
pub struct ScheduledTask {
    pub steps: Vec<Timed>,
}

/// Bytes downloaded after report `k` (counting from 0) of a simulated pull.
pub open spec fn downloaded_after(k: int) -> int {
    PULL_TOTAL * (k + 1) / 10
}

/// The bytes downloaded after report `k` of a simulated pull.
pub fn downloaded_after_step(k: usize) -> (d: u64)
    requires
        k < PULL_STEPS,
    ensures
        d == downloaded_after(k as int),
{
    PULL_TOTAL * (k as u64 + 1) / 10
}

/// A download task for the container at `i`: ten progress reports, each after a
/// delay of 200 to 500 ms, reaching the total, then the completion right after.
pub open spec fn is_download_task(steps: Seq<Timed>, i: usize) -> bool {
    &&& steps.len() == PULL_STEPS + 1
    &&& forall|k: int|
        0 <= k < PULL_STEPS ==> 200 <= (#[trigger] steps[k]).delay_ms <= 500 && steps[k].event == (
        AppEvent::DownloadProgress { entity: i, downloaded: downloaded_after(k) as u64, total: PULL_TOTAL })
    &&& steps[PULL_STEPS as int] == (Timed { delay_ms: 0, event: AppEvent::DownloadComplete(i) })
}

/// The phase is `Running` or one of the phases after it: `Stopping`, `Stopped`.
pub open spec fn at_or_past_running(p: ContainerPhase) -> bool {
    p == ContainerPhase::Running || p == ContainerPhase::Stopping || p == ContainerPhase::Stopped
}

/// Every container that starts before the one at `i` is at or past `Running`.
pub open spec fn phase_predecessors_ready(cs: Seq<ContainerView>, i: int) -> bool {
    forall|j: int|
        0 <= j < cs.len() && cs[j].start_order < cs[i].start_order ==> at_or_past_running((#[trigger] cs[j]).phase)
}

/// The container at `i` is pending and its predecessors are ready.
pub open spec fn starts_pull(cs: Seq<ContainerView>, i: int) -> bool {
    cs[i].phase == ContainerPhase::Pending && phase_predecessors_ready(cs, i)
}

/// The indices below `n` of containers that start their pull, in order.
pub open spec fn pulls_started(cs: Seq<ContainerView>, n: nat) -> Seq<usize>
    decreases n,
{
    if n == 0 {
        Seq::empty()
    } else if starts_pull(cs, n - 1) {
        pulls_started(cs, (n - 1) as nat).push((n - 1) as usize)
    } else {
        pulls_started(cs, (n - 1) as nat)
    }
}

/// A container whose pull started: pulling, with zeroed progress.
pub open spec fn pulling(c: ContainerView) -> ContainerView {
    ContainerView {
        phase: ContainerPhase::PullingImage,
        progress: Some(DownloadProgress { downloaded: 0, total: 0 }),
        ..c
    }
}

/// `w` with only the phase of the container at `i` changed to `p`.
pub open spec fn phase_set(w: WorldView, i: int, p: ContainerPhase) -> WorldView {
    WorldView { containers: w.containers.update(i, ContainerView { phase: p, ..w.containers[i] }), ..w }
}

/// Every container but the one at `e` is running: once `e` runs too, all do.
pub open spec fn others_running(cs: Seq<ContainerView>, e: int) -> bool {
    forall|i: int| 0 <= i < cs.len() && i != e ==> (#[trigger] cs[i]).phase == ContainerPhase::Running
}

/// The phases that a shutdown moves to `Stopping`.
pub open spec fn stoppable(p: ContainerPhase) -> bool {
    p == ContainerPhase::Running || p == ContainerPhase::PullingImage || p == ContainerPhase::Starting || p
        == ContainerPhase::Pending
}

/// The indices below `n` of containers that a shutdown stops, in order.
pub open spec fn stops_started(cs: Seq<ContainerView>, n: nat) -> Seq<usize>
    decreases n,
{
    if n == 0 {
        Seq::empty()
    } else if stoppable(cs[n - 1].phase) {
        stops_started(cs, (n - 1) as nat).push((n - 1) as usize)
    } else {
        stops_started(cs, (n - 1) as nat)
    }
}

/// A task that sends `event` once, after a delay between `lo` and `hi` ms.
pub open spec fn is_delayed(steps: Seq<Timed>, lo: int, hi: int, event: AppEvent) -> bool {
    steps.len() == 1 && lo <= steps[0].delay_ms <= hi && steps[0].event == event
}

/// The download task for the container at `i`.
fn download_task(i: usize) -> (t: ScheduledTask)
    ensures
        is_download_task(t.steps@, i),
{
    let mut steps: Vec<Timed> = Vec::new();
    let mut rng = thread_rng();
    let mut k: usize = 0;
    while k < PULL_STEPS
        invariant
            k <= PULL_STEPS,
            steps@.len() == k,
            forall|m: int|
                0 <= m < k ==> 200 <= (#[trigger] steps@[m]).delay_ms <= 500 && steps@[m].event == (
                AppEvent::DownloadProgress { entity: i, downloaded: downloaded_after(m) as u64, total: PULL_TOTAL }),
        decreases PULL_STEPS - k,
    {
        let delay = random_in_range(&mut rng, 200, 500);
        let downloaded = downloaded_after_step(k);
        steps.push(
            Timed { delay_ms: delay, event: AppEvent::DownloadProgress { entity: i, downloaded, total: PULL_TOTAL } },
        );
        k = k + 1;
    }
    steps.push(Timed { delay_ms: 0, event: AppEvent::DownloadComplete(i) });
    ScheduledTask { steps }
}

/// A task that sends `event` once after a delay drawn from `lo..=hi` ms.
fn delayed_task(lo: u64, hi: u64, event: AppEvent) -> (t: ScheduledTask)
    requires
        lo <= hi,
    ensures
        is_delayed(t.steps@, lo as int, hi as int, event),
{
    let mut rng = thread_rng();
    let delay = random_in_range(&mut rng, lo, hi);
    let mut steps: Vec<Timed> = Vec::new();
    steps.push(Timed { delay_ms: delay, event });
    ScheduledTask { steps }
}

/// The containers of the demo: postgres and redis first, then the API server, then the
/// web frontend.
pub open spec fn demo_containers() -> Seq<ContainerView> {
    seq![
        spawned_view("postgres"@, "postgres:16"@, 0),
        spawned_view("redis"@, "redis:7"@, 0),
        spawned_view("api-server"@, "myapp/api:latest"@, 1),
        spawned_view("web-frontend"@, "myapp/web:latest"@, 2),
    ]
}

impl ComposeWorld {
    /// Spawns the demo's containers, pending.
    pub fn spawn_containers(&mut self)
        ensures
            final(self)@ == with_containers(old(self)@, old(self)@.containers + demo_containers()),
    {
        self.spawn_container(String::from_str("postgres"), String::from_str("postgres:16"), 0);
        self.spawn_container(String::from_str("redis"), String::from_str("redis:7"), 0);
        self.spawn_container(String::from_str("api-server"), String::from_str("myapp/api:latest"), 1);
        self.spawn_container(String::from_str("web-frontend"), String::from_str("myapp/web:latest"), 2);
        assert(self@.containers =~= old(self)@.containers + demo_containers());
    }

    /// Starts the pull of every pending container whose predecessors (by phase) are at
    /// or past `Running`, judged on the phases before this call: its phase becomes
    /// `PullingImage`, its progress zero, and a download task is returned for it.
    pub fn enforce_ordering(&mut self) -> (tasks: Vec<ScheduledTask>)
        ensures
            final(self)@.containers.len() == old(self)@.containers.len(),
            forall|i: int|
                0 <= i < old(self)@.containers.len() ==> #[trigger] final(self)@.containers[i] == if starts_pull(
                    old(self)@.containers,
                    i,
                ) {
                    pulling(old(self)@.containers[i])
                } else {
                    old(self)@.containers[i]
                },
            final(self)@.system == old(self)@.system,
            final(self)@.shutdown_requested == old(self)@.shutdown_requested,
            final(self)@.orchestrator == old(self)@.orchestrator,
            final(self)@.exit == old(self)@.exit,
            tasks@.len() == pulls_started(old(self)@.containers, old(self)@.containers.len()).len(),
            forall|k: int|
                0 <= k < tasks@.len() ==> is_download_task(
                    (#[trigger] tasks@[k]).steps@,
                    pulls_started(old(self)@.containers, old(self)@.containers.len())[k],
                ),
    {
        let ghost orig = self@.containers;
        let n = self.containers.len();
        // Decide on the phases as they were before any change.
        let mut starts: Vec<bool> = Vec::new();
        let mut i: usize = 0;
        while i < n
            invariant
                n == self.containers@.len(),
                self@.containers == orig,
                i <= n,
                starts@.len() == i,
                forall|k: int| 0 <= k < i ==> #[trigger] starts@[k] == starts_pull(orig, k),
            decreases n - i,
        {
            let mut ready = self.containers[i].phase == ContainerPhase::Pending;
            let mut j: usize = 0;
            while j < n
                invariant
                    n == self.containers@.len(),
                    self@.containers == orig,
                    i < n,
                    j <= n,
                    ready == (orig[i as int].phase == ContainerPhase::Pending && forall|m: int|
                        0 <= m < j && orig[m].start_order < orig[i as int].start_order ==> at_or_past_running(
                            (#[trigger] orig[m]).phase,
                        )),
                decreases n - j,
            {
                let p = self.containers[j].phase;
                if self.containers[j].start_order < self.containers[i].start_order && !(p == ContainerPhase::Running || p
                    == ContainerPhase::Stopping || p == ContainerPhase::Stopped) {
                    ready = false;
                }
                proof {
                    assert(self@.containers[j as int] == orig[j as int]);
                }
                j = j + 1;
            }
            starts.push(ready);
            i = i + 1;
        }
        let mut tasks: Vec<ScheduledTask> = Vec::new();
        let mut i: usize = 0;
        while i < n
            invariant
                n == self.containers@.len(),
                n == orig.len(),
                i <= n,
                starts@.len() == n,
                forall|k: int| 0 <= k < n ==> #[trigger] starts@[k] == starts_pull(orig, k),
                forall|k: int|
                    0 <= k < n ==> #[trigger] self@.containers[k] == if k < i && starts_pull(orig, k) {
                        pulling(orig[k])
                    } else {
                        orig[k]
                    },
                self.system == old(self).system,
                self.shutdown_requested == old(self).shutdown_requested,
                self.orchestrator == old(self).orchestrator,
                self.exit == old(self).exit,
                tasks@.len() == pulls_started(orig, i as nat).len(),
                forall|k: int|
                    0 <= k < tasks@.len() ==> is_download_task(
                        (#[trigger] tasks@[k]).steps@,
                        pulls_started(orig, i as nat)[k],
                    ),
            decreases n - i,
        {
            if starts[i] {
                self.containers[i].phase = ContainerPhase::PullingImage;
                self.containers[i].progress = Some(DownloadProgress { downloaded: 0, total: 0 });
                let t = download_task(i);
                tasks.push(t);
            }
            i = i + 1;
        }
        tasks
    }

    /// A container's image is pulled: its phase becomes `Starting` and a task that
    /// reports its boot after 500 to 1500 ms is returned.
    pub fn handle_download_complete(&mut self, entity: usize) -> (task: ScheduledTask)
        requires
            entity < old(self)@.containers.len(),
        ensures
            final(self)@ == phase_set(old(self)@, entity as int, ContainerPhase::Starting),
            is_delayed(task.steps@, 500, 1500, AppEvent::BootComplete(entity)),
    {
        self.containers[entity].phase = ContainerPhase::Starting;
        assert(self@.containers =~= phase_set(old(self)@, entity as int, ContainerPhase::Starting).containers);
        delayed_task(500, 1500, AppEvent::BootComplete(entity))
    }

    /// A container has booted: its phase becomes `Running`. Returns whether all
    /// containers are then running, that is, whether every other container already runs.
    pub fn handle_boot_complete(&mut self, entity: usize) -> (all_ready: bool)
        requires
            entity < old(self)@.containers.len(),
        ensures
            final(self)@ == phase_set(old(self)@, entity as int, ContainerPhase::Running),
            all_ready == others_running(old(self)@.containers, entity as int),
    {
        let ghost orig = self@.containers;
        let mut ready = true;
        let mut i: usize = 0;
        while i < self.containers.len()
            invariant
                self@.containers == orig,
                i <= orig.len(),
                ready == forall|k: int| 0 <= k < i && k != entity ==> (#[trigger] orig[k]).phase == ContainerPhase::Running,
            decreases orig.len() - i,
        {
            proof {
                assert(self@.containers[i as int] == orig[i as int]);
            }
            if i != entity && self.containers[i].phase != ContainerPhase::Running {
                ready = false;
            }
            assert(ready == forall|k: int|
                0 <= k < i + 1 && k != entity ==> (#[trigger] orig[k]).phase == ContainerPhase::Running) by {
                if ready {
                    assert forall|k: int| 0 <= k < i + 1 && k != entity implies (#[trigger] orig[k]).phase
                        == ContainerPhase::Running by {
                        if k < i {
                        }
                    }
                }
            }
            i = i + 1;
        }
        self.containers[entity].phase = ContainerPhase::Running;
        assert(self@.containers =~= phase_set(old(self)@, entity as int, ContainerPhase::Running).containers);
        ready
    }

    /// Moves every pending, pulling, starting or running container to `Stopping`, and
    /// returns for each, in order, a task that reports its shutdown after 200 to 800 ms.
    pub fn handle_shutdown_all(&mut self) -> (tasks: Vec<ScheduledTask>)
        ensures
            final(self)@.containers.len() == old(self)@.containers.len(),
            forall|i: int|
                0 <= i < old(self)@.containers.len() ==> #[trigger] final(self)@.containers[i] == if stoppable(
                    old(self)@.containers[i].phase,
                ) {
                    ContainerView { phase: ContainerPhase::Stopping, ..old(self)@.containers[i] }
                } else {
                    old(self)@.containers[i]
                },
            final(self)@.system == old(self)@.system,
            final(self)@.shutdown_requested == old(self)@.shutdown_requested,
            final(self)@.orchestrator == old(self)@.orchestrator,
            final(self)@.exit == old(self)@.exit,
            tasks@.len() == stops_started(old(self)@.containers, old(self)@.containers.len()).len(),
            forall|k: int|
                0 <= k < tasks@.len() ==> is_delayed(
                    (#[trigger] tasks@[k]).steps@,
                    200,
                    800,
                    AppEvent::ShutdownComplete(stops_started(old(self)@.containers, old(self)@.containers.len())[k]),
                ),
    {
        let ghost orig = self@.containers;
        let n = self.containers.len();
        let mut tasks: Vec<ScheduledTask> = Vec::new();
        let mut i: usize = 0;
        while i < n
            invariant
                n == self.containers@.len(),
                n == orig.len(),
                i <= n,
                forall|k: int|
                    0 <= k < n ==> #[trigger] self@.containers[k] == if k < i && stoppable(orig[k].phase) {
                        ContainerView { phase: ContainerPhase::Stopping, ..orig[k] }
                    } else {
                        orig[k]
                    },
                self.system == old(self).system,
                self.shutdown_requested == old(self).shutdown_requested,
                self.orchestrator == old(self).orchestrator,
                self.exit == old(self).exit,
                tasks@.len() == stops_started(orig, i as nat).len(),
                forall|k: int|
                    0 <= k < tasks@.len() ==> is_delayed(
                        (#[trigger] tasks@[k]).steps@,
                        200,
                        800,
                        AppEvent::ShutdownComplete(stops_started(orig, i as nat)[k]),
                    ),
            decreases n - i,
        {
            let p = self.containers[i].phase;
            proof {
                assert(self@.containers[i as int] == orig[i as int]);
            }
            let ghost prev = self.containers@;
            if p == ContainerPhase::Running || p == ContainerPhase::PullingImage || p == ContainerPhase::Starting || p
                == ContainerPhase::Pending {
                self.containers[i].phase = ContainerPhase::Stopping;
                let t = delayed_task(200, 800, AppEvent::ShutdownComplete(i));
                tasks.push(t);
            }
            proof {
                assert forall|k: int| 0 <= k < n && k != i implies (#[trigger] self.containers@[k]) == prev[k] by {}
                assert forall|k: int| 0 <= k < n && k != i implies #[trigger] self@.containers[k] == container_views(prev)[k] by {}
            }
            i = i + 1;
        }
        tasks
    }

    /// A container has shut down: its phase becomes `Stopped`.
    pub fn handle_shutdown_complete(&mut self, entity: usize)
        requires
            entity < old(self)@.containers.len(),
        ensures
            final(self)@ == phase_set(old(self)@, entity as int, ContainerPhase::Stopped),
    {
        self.containers[entity].phase = ContainerPhase::Stopped;
        assert(self@.containers =~= phase_set(old(self)@, entity as int, ContainerPhase::Stopped).containers);
    }
}

/// The all-ready signal is exact: it goes out exactly when every container runs once
/// the booted one's phase is set.
pub proof fn lemma_boot_signal_exact(w: WorldView, e: int)
    requires
        0 <= e < w.containers.len(),
    ensures
        others_running(w.containers, e) <==> forall|i: int|
            0 <= i < w.containers.len() ==> (#[trigger] phase_set(w, e, ContainerPhase::Running).containers[i]).phase
                == ContainerPhase::Running,
{
    let cs = w.containers;
    if forall|i: int| 0 <= i < cs.len() ==> (#[trigger] phase_set(w, e, ContainerPhase::Running).containers[i]).phase
        == ContainerPhase::Running {
        assert forall|i: int| 0 <= i < cs.len() && i != e implies (#[trigger] cs[i]).phase == ContainerPhase::Running by {
            assert(phase_set(w, e, ContainerPhase::Running).containers[i] == cs[i]);
        }
    }
}

/// A simulated pull's reports grow strictly, report `k` is `k + 1` tenths of the
/// total, and the last one reaches the total.
pub proof fn lemma_download_reaches_total()
    ensures
        forall|k: int| 0 <= k < PULL_STEPS ==> #[trigger] downloaded_after(k) * 10 == PULL_TOTAL * (k + 1),
        downloaded_after(PULL_STEPS - 1) == PULL_TOTAL,
        forall|k: int| 0 <= k < PULL_STEPS - 1 ==> #[trigger] downloaded_after(k) < downloaded_after(k + 1),
        forall|k: int| 0 <= k < PULL_STEPS ==> 0 < #[trigger] downloaded_after(k) <= PULL_TOTAL,
{
    assert forall|k: int| 0 <= k < PULL_STEPS - 1 implies #[trigger] downloaded_after(k) < downloaded_after(k + 1) by {
        assert(downloaded_after(k) == 10_000_000 * (k + 1));
        assert(downloaded_after(k + 1) == 10_000_000 * (k + 2));
    }
    assert forall|k: int| 0 <= k < PULL_STEPS implies 0 < #[trigger] downloaded_after(k) <= PULL_TOTAL by {
        assert(downloaded_after(k) == 10_000_000 * (k + 1));
    }
    assert forall|k: int| 0 <= k < PULL_STEPS implies #[trigger] downloaded_after(k) * 10 == PULL_TOTAL * (k + 1) by {
        assert(downloaded_after(k) == 10_000_000 * (k + 1));
    }
}

/// A shutdown stops every container that is pending, pulling, starting or running, and
/// leaves the others as they are: afterwards none of them is active.
pub proof fn lemma_shutdown_all_leaves_none_active(p: ContainerPhase)
    ensures
        (p == ContainerPhase::Pending || p == ContainerPhase::PullingImage || p == ContainerPhase::Starting || p
            == ContainerPhase::Running) <==> stoppable(p),
        ({
            let after = if stoppable(p) {
                ContainerPhase::Stopping
            } else {
                p
            };
            after == ContainerPhase::Stopping || after == ContainerPhase::Stopped || after == ContainerPhase::Failed
        }),
{
}

/// The shutdown tasks go to exactly the containers that were pending, pulling, starting
/// or running, one each, in index order.
pub proof fn lemma_shutdown_tasks_exact(cs: Seq<ContainerView>, n: nat)
    requires
        n <= cs.len(),
        cs.len() <= usize::MAX,
    ensures
        forall|i: int|
            0 <= i < n ==> (stops_started(cs, n).contains(i as usize) <==> (cs[i].phase == ContainerPhase::Pending
                || cs[i].phase == ContainerPhase::PullingImage || cs[i].phase == ContainerPhase::Starting
                || cs[i].phase == ContainerPhase::Running)),
        forall|a: int, b: int|
            0 <= a < b < stops_started(cs, n).len() ==> stops_started(cs, n)[a] < stops_started(cs, n)[b],
        forall|a: int| 0 <= a < stops_started(cs, n).len() ==> stops_started(cs, n)[a] < n,
    decreases n,
{
    if n > 0 {
        lemma_shutdown_tasks_exact(cs, (n - 1) as nat);
        let prev = stops_started(cs, (n - 1) as nat);
        let cur = stops_started(cs, n);
        let last = (n - 1) as usize;
        assert(last == n - 1);
        if stoppable(cs[n - 1].phase) {
            assert(cur == prev.push(last));
            assert forall|a: int, b: int| 0 <= a < b < cur.len() implies cur[a] < cur[b] by {
                if b < prev.len() {
                    assert(cur[a] == prev[a] && cur[b] == prev[b]);
                } else {
                    assert(cur[a] == prev[a]);
                }
            }
            assert forall|a: int| 0 <= a < cur.len() implies cur[a] < n by {
                if a < prev.len() {
                    assert(cur[a] == prev[a]);
                }
            }
            assert forall|i: int| 0 <= i < n implies (cur.contains(i as usize) <==> stoppable(cs[i].phase)) by {
                if i < n - 1 {
                    if cur.contains(i as usize) {
                        let a = choose|a: int| 0 <= a < cur.len() && cur[a] == i as usize;
                        if a < prev.len() {
                            assert(prev[a] == i as usize);
                        }
                    }
                    if prev.contains(i as usize) {
                        let a = choose|a: int| 0 <= a < prev.len() && prev[a] == i as usize;
                        assert(cur[a] == i as usize);
                    }
                } else {
                    assert(cur[cur.len() - 1] == i as usize);
                }
            }
        } else {
            assert(cur == prev);
            assert forall|i: int| 0 <= i < n implies (cur.contains(i as usize) <==> stoppable(cs[i].phase)) by {
                if i == n - 1 && cur.contains(i as usize) {
                    let a = choose|a: int| 0 <= a < cur.len() && cur[a] == i as usize;
                    assert(prev[a] < n - 1);
                }
            }
        }
    }
}

/// A pending container starts its pull exactly when no container that starts earlier
/// is still pending, pulling, starting or failed: every earlier one is running,
/// stopping or stopped.
pub proof fn lemma_pull_start_exact(cs: Seq<ContainerView>, i: int)
    requires
        0 <= i < cs.len(),
        cs[i].phase == ContainerPhase::Pending,
    ensures
        starts_pull(cs, i) <==> forall|j: int|
            0 <= j < cs.len() && (#[trigger] cs[j]).start_order < cs[i].start_order ==> !(cs[j].phase
                == ContainerPhase::Pending || cs[j].phase == ContainerPhase::PullingImage || cs[j].phase
                == ContainerPhase::Starting || cs[j].phase == ContainerPhase::Failed),
{
}

} // verus!
