use vstd::prelude::*;

use crate::lifecycle::{ContainerState, OrchestratorState};
use crate::logs::{LogBuffer, LogLineView};
use crate::phase::ContainerPhase;

verus! {

/// How much of a container's image has been pulled.
#[derive(PartialEq, Eq, Structural, Clone, Copy, Debug)]
pub struct DownloadProgress {
    pub downloaded: u64,
    pub total: u64,
}

/// One container entity of the daemon's world: its name, image, start order, phase
/// component, lifecycle machine state, `Done` marker, download progress and log.
#[derive(Debug)]
pub struct ContainerRecord {
    pub name: String,
    pub image: String,
    /// Lower starts first; containers with the same order start in parallel.
    pub start_order: u32,
    pub phase: ContainerPhase,
    pub state: ContainerState,
    pub done: bool,
    pub progress: Option<DownloadProgress>,
    pub log: LogBuffer,
}

/// The abstract content of a container entity.
pub struct ContainerView {
    pub name: Seq<char>,
    pub image: Seq<char>,
    pub start_order: u32,
    pub phase: ContainerPhase,
    pub state: ContainerState,
    pub done: bool,
    pub progress: Option<DownloadProgress>,
    pub log: Seq<LogLineView>,
}

impl View for ContainerRecord {
    type V = ContainerView;

    open spec fn view(&self) -> ContainerView {
        ContainerView {
            name: self.name@,
            image: self.image@,
            start_order: self.start_order,
            phase: self.phase,
            state: self.state,
            done: self.done,
            progress: self.progress,
            log: self.log@,
        }
    }
}

/// The system-wide log entity.
#[derive(Debug)]
pub struct SystemRecord {
    pub name: String,
    pub log: LogBuffer,
}

/// The abstract content of the system entity.
pub struct SystemView {
    pub name: Seq<char>,
    pub log: Seq<LogLineView>,
}

impl View for SystemRecord {
    type V = SystemView;

    open spec fn view(&self) -> SystemView {
        SystemView { name: self.name@, log: self.log@ }
    }
}

/// The daemon's world: its containers (an entity is its index here), the system log
/// entity, the shutdown flag, the orchestrator machine and the exit flag.
#[derive(Debug)]
pub struct ComposeWorld {
    pub containers: Vec<ContainerRecord>,
    pub system: Option<SystemRecord>,
    pub shutdown_requested: bool,
    pub orchestrator: Option<OrchestratorState>,
    pub exit: bool,
}

/// The abstract content of the world.
pub struct WorldView {
    pub containers: Seq<ContainerView>,
    pub system: Option<SystemView>,
    pub shutdown_requested: bool,
    pub orchestrator: Option<OrchestratorState>,
    pub exit: bool,
}

/// The views of some container entities.
pub open spec fn container_views(cs: Seq<ContainerRecord>) -> Seq<ContainerView> {
    cs.map_values(|c: ContainerRecord| c@)
}

/// The view of the system entity, if there is one.
pub open spec fn system_view(s: Option<SystemRecord>) -> Option<SystemView> {
    match s {
        Some(r) => Some(r@),
        None => None,
    }
}

impl View for ComposeWorld {
    type V = WorldView;

    open spec fn view(&self) -> WorldView {
        WorldView {
            containers: container_views(self.containers@),
            system: system_view(self.system),
            shutdown_requested: self.shutdown_requested,
            orchestrator: self.orchestrator,
            exit: self.exit,
        }
    }
}

/// `i` is the first container named `name`.
pub open spec fn is_first_named(cs: Seq<ContainerView>, name: Seq<char>, i: int) -> bool {
    &&& 0 <= i < cs.len()
    &&& cs[i].name == name
    &&& forall|j: int| 0 <= j < i ==> (#[trigger] cs[j]).name != name
}

/// No container is named `name`.
pub open spec fn none_named(cs: Seq<ContainerView>, name: Seq<char>) -> bool {
    forall|j: int| 0 <= j < cs.len() ==> (#[trigger] cs[j]).name != name
}

/// A freshly spawned container: pending, with no marker, no progress and an empty log.
pub open spec fn spawned_view(name: Seq<char>, image: Seq<char>, start_order: u32) -> ContainerView {
    ContainerView {
        name,
        image,
        start_order,
        phase: ContainerPhase::Pending,
        state: ContainerState::Pending,
        done: false,
        progress: None,
        log: Seq::empty(),
    }
}

/// The world after a shutdown request at time `now`: the flag is set and the system
/// entity, if any, logs "Shutting down...".
pub open spec fn shutdown_requested_view(w: WorldView, now: u64) -> WorldView {
    WorldView {
        shutdown_requested: true,
        system: match w.system {
            Some(s) => Some(
                SystemView { log: s.log.push(LogLineView { timestamp: now, text: "Shutting down..."@ }), ..s },
            ),
            None => None,
        },
        ..w
    }
}

/// `w` with its containers replaced by `cs`.
pub open spec fn with_containers(w: WorldView, cs: Seq<ContainerView>) -> WorldView {
    WorldView { containers: cs, ..w }
}

/// `c` with its `Done` marker set to `done`.
pub open spec fn with_done(c: ContainerView, done: bool) -> ContainerView {
    ContainerView { done, ..c }
}

/// The view of a system entity named `name` with an empty log.
pub open spec fn fresh_system(name: Seq<char>) -> SystemView {
    SystemView { name, log: Seq::empty() }
}

impl ComposeWorld {
    /// An empty world.
    pub fn new() -> (w: ComposeWorld)
        ensures
            w@.containers == Seq::<ContainerView>::empty(),
            w@.system.is_none(),
            !w@.shutdown_requested,
            w@.orchestrator.is_none(),
            !w@.exit,
    {
        let w = ComposeWorld {
            containers: Vec::new(),
            system: None,
            shutdown_requested: false,
            orchestrator: None,
            exit: false,
        };
        assert(w@.containers =~= Seq::<ContainerView>::empty());
        w
    }

    /// The daemon's starting world: no containers yet, the system entity named
    /// "[system]" and the orchestrator deploying.
    pub fn for_daemon() -> (w: ComposeWorld)
        ensures
            w@.containers == Seq::<ContainerView>::empty(),
            w@.system == Some(fresh_system("[system]"@)),
            !w@.shutdown_requested,
            w@.orchestrator == Some(OrchestratorState::Deploying),
            !w@.exit,
    {
        let w = ComposeWorld {
            containers: Vec::new(),
            system: Some(SystemRecord { name: String::from_str("[system]"), log: LogBuffer::new() }),
            shutdown_requested: false,
            orchestrator: Some(OrchestratorState::Deploying),
            exit: false,
        };
        assert(w@.containers =~= Seq::<ContainerView>::empty());
        w
    }

    /// The index of the first container named `name`.
    pub fn find_container(&self, name: &String) -> (r: Option<usize>)
        ensures
            match r {
                Some(i) => is_first_named(self@.containers, name@, i as int),
                None => none_named(self@.containers, name@),
            },
    {
        let mut i: usize = 0;
        while i < self.containers.len()
            invariant
                i <= self.containers@.len(),
                forall|j: int| 0 <= j < i ==> (#[trigger] self@.containers[j]).name != name@,
            decreases self.containers@.len() - i,
        {
            if self.containers[i].name == *name {
                return Some(i);
            }
            i = i + 1;
        }
        None
    }

    /// Adds a pending container.
    pub fn spawn_container(&mut self, name: String, image: String, start_order: u32)
        ensures
            final(self)@ == with_containers(
                old(self)@,
                old(self)@.containers.push(spawned_view(name@, image@, start_order)),
            ),
    {
        let ghost n = name@;
        let ghost im = image@;
        let c = ContainerRecord {
            name,
            image,
            start_order,
            phase: ContainerPhase::Pending,
            state: ContainerState::Pending,
            done: false,
            progress: None,
            log: LogBuffer::new(),
        };
        self.containers.push(c);
        assert(self@.containers =~= old(self)@.containers.push(spawned_view(n, im, start_order)));
    }

    /// Puts a `Done` marker on the container at `i`, if there is one.
    pub fn mark_done(&mut self, i: usize)
        ensures
            i < old(self)@.containers.len() ==> final(self)@ == with_containers(
                old(self)@,
                old(self)@.containers.update(i as int, with_done(old(self)@.containers[i as int], true)),
            ),
            i >= old(self)@.containers.len() ==> final(self)@ == old(self)@,
    {
        if i < self.containers.len() {
            self.containers[i].done = true;
            assert(self@.containers =~= old(self)@.containers.update(
                i as int,
                with_done(old(self)@.containers[i as int], true),
            ));
        }
    }

    /// Sets the shutdown flag and logs "Shutting down..." on the system entity.
    pub fn request_shutdown(&mut self, now: u64)
        ensures
            final(self)@ == shutdown_requested_view(old(self)@, now),
    {
        self.shutdown_requested = true;
        match &mut self.system {
            Some(s) => {
                s.log.push(String::from_str("Shutting down..."), now);
            },
            None => {},
        }
        assert(self@.containers =~= old(self)@.containers);
    }
}

/// A shutdown request sets the flag and adds, after the system's lines, one line
/// "Shutting down..." stamped with the time of the request; the containers are untouched.
pub proof fn lemma_shutdown_request_logs_now(w: WorldView, now: u64)
    ensures
        ({
            let w2 = shutdown_requested_view(w, now);
            &&& w2.shutdown_requested
            &&& w2.containers == w.containers
            &&& w2.orchestrator == w.orchestrator
            &&& w2.exit == w.exit
            &&& w.system is Some ==> {
                &&& w2.system is Some
                &&& w2.system->0.log == w.system->0.log.push(
                    LogLineView { timestamp: now, text: "Shutting down..."@ },
                )
                &&& w2.system->0.log.last().timestamp == now
            }
            &&& w.system is None ==> w2.system is None
        }),
{
}

/// A spawned container comes last, pending in phase and machine, with the given name,
/// image and start order, no marker, no progress and an empty log.
pub proof fn lemma_spawned_container(name: Seq<char>, image: Seq<char>, start_order: u32)
    ensures
        ({
            let c = spawned_view(name, image, start_order);
            &&& c.name == name
            &&& c.image == image
            &&& c.start_order == start_order
            &&& c.phase == ContainerPhase::Pending
            &&& c.state == ContainerState::Pending
            &&& !c.done
            &&& c.progress is None
            &&& c.log.len() == 0
        }),
{
}

} // verus!
