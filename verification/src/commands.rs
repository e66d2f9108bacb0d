use vstd::prelude::*;

use crate::logs::{LogLineView, LogOwner};
use crate::world::{
    shutdown_requested_view, with_containers, with_done, ComposeWorld, ContainerView, DownloadProgress,
    SystemView, WorldView,
};

verus! {

/// Records a pull's progress on a container that has a progress component.
#[derive(Clone, Copy, Debug)]
pub struct SetProgressCmd {
    pub entity: usize,
    pub downloaded: u64,
    pub total: u64,
}

/// Puts a `Done` marker on a container that still exists.
#[derive(Clone, Copy, Debug)]
pub struct MarkDoneCmd {
    pub entity: usize,
}

/// Requests the shutdown of every container.
#[derive(Clone, Copy, Debug)]
pub struct RequestShutdownCmd;

/// Appends a line to an entity's log.
#[derive(Clone, Debug)]
pub struct AppendLog {
    pub entity: LogOwner,
    pub text: String,
}

/// The world commands that the lifecycle's async tasks send.
#[derive(Clone, Debug)]
pub enum LifecycleMsg {
    SetProgress(SetProgressCmd),
    MarkDone(MarkDoneCmd),
    RequestShutdown(RequestShutdownCmd),
}

/// `w` after a progress report for the container at `i`: only a container that has a
/// progress component takes it.
pub open spec fn progress_set(w: WorldView, i: int, downloaded: u64, total: u64) -> WorldView {
    if 0 <= i < w.containers.len() && w.containers[i].progress.is_some() {
        with_containers(
            w,
            w.containers.update(
                i,
                ContainerView { progress: Some(DownloadProgress { downloaded, total }), ..w.containers[i] },
            ),
        )
    } else {
        w
    }
}

/// `w` after a `Done` marker was put on the container at `i`, if it exists.
pub open spec fn done_marked(w: WorldView, i: int) -> WorldView {
    if 0 <= i < w.containers.len() {
        with_containers(w, w.containers.update(i, with_done(w.containers[i], true)))
    } else {
        w
    }
}

/// `w` after `text` was appended at `now` to the log of `owner`, if it exists.
pub open spec fn log_appended(w: WorldView, owner: LogOwner, text: Seq<char>, now: u64) -> WorldView {
    let line = LogLineView { timestamp: now, text };
    match owner {
        LogOwner::Container(i) => if i < w.containers.len() {
            with_containers(
                w,
                w.containers.update(i as int, ContainerView { log: w.containers[i as int].log.push(line), ..w.containers[i as int] }),
            )
        } else {
            w
        },
        LogOwner::System => match w.system {
            Some(s) => WorldView { system: Some(SystemView { log: s.log.push(line), ..s }), ..w },
            None => w,
        },
    }
}

/// `w2` is `w` after the lifecycle command `m` at `now`.
pub open spec fn lifecycle_applied(w: WorldView, m: LifecycleMsg, now: u64) -> WorldView {
    match m {
        LifecycleMsg::SetProgress(c) => progress_set(w, c.entity as int, c.downloaded, c.total),
        LifecycleMsg::MarkDone(c) => done_marked(w, c.entity as int),
        LifecycleMsg::RequestShutdown(_) => shutdown_requested_view(w, now),
    }
}

impl SetProgressCmd {
    pub fn apply(self, world: &mut ComposeWorld)
        ensures
            final(world)@ == progress_set(old(world)@, self.entity as int, self.downloaded, self.total),
    {
        if self.entity < world.containers.len() && world.containers[self.entity].progress.is_some() {
            world.containers[self.entity].progress = Some(
                DownloadProgress { downloaded: self.downloaded, total: self.total },
            );
            assert(world@.containers =~= progress_set(old(world)@, self.entity as int, self.downloaded, self.total).containers);
        }
    }
}

impl MarkDoneCmd {
    pub fn apply(self, world: &mut ComposeWorld)
        ensures
            final(world)@ == done_marked(old(world)@, self.entity as int),
    {
        world.mark_done(self.entity);
    }
}

impl RequestShutdownCmd {
    pub fn apply(self, world: &mut ComposeWorld, now: u64)
        ensures
            final(world)@ == shutdown_requested_view(old(world)@, now),
    {
        world.request_shutdown(now);
    }
}

impl LifecycleMsg {
    pub fn apply(self, world: &mut ComposeWorld, now: u64)
        ensures
            final(world)@ == lifecycle_applied(old(world)@, self, now),
    {
        match self {
            LifecycleMsg::SetProgress(cmd) => cmd.apply(world),
            LifecycleMsg::MarkDone(cmd) => cmd.apply(world),
            LifecycleMsg::RequestShutdown(cmd) => cmd.apply(world, now),
        }
    }
}

impl AppendLog {
    pub fn apply(self, world: &mut ComposeWorld, now: u64)
        ensures
            final(world)@ == log_appended(old(world)@, self.entity, self.text@, now),
    {
        let ghost t = self.text@;
        match self.entity {
            LogOwner::Container(i) => {
                if i < world.containers.len() {
                    world.containers[i].log.push(self.text, now);
                    assert(world@.containers =~= log_appended(old(world)@, self.entity, t, now).containers);
                }
            },
            LogOwner::System => {
                match &mut world.system {
                    Some(s) => {
                        s.log.push(self.text, now);
                    },
                    None => {},
                }
                assert(world@.containers =~= old(world)@.containers);
            },
        }
    }
}

/// Appending a line at time `now` adds, after the owner's lines, one line with that
/// text stamped `now`; nothing else changes. An owner that does not exist gets nothing.
pub proof fn lemma_append_log_stamps_now(w: WorldView, owner: LogOwner, text: Seq<char>, now: u64)
    ensures
        ({
            let w2 = log_appended(w, owner, text, now);
            let line = LogLineView { timestamp: now, text };
            &&& w2.containers.len() == w.containers.len()
            &&& w2.shutdown_requested == w.shutdown_requested
            &&& w2.orchestrator == w.orchestrator
            &&& w2.exit == w.exit
            &&& match owner {
                LogOwner::Container(i) => {
                    &&& forall|j: int|
                        0 <= j < w.containers.len() && j != i ==> #[trigger] w2.containers[j] == w.containers[j]
                    &&& w2.system == w.system
                    &&& i < w.containers.len() ==> {
                        &&& w2.containers[i as int].log == w.containers[i as int].log.push(line)
                        &&& w2.containers[i as int].log.last().timestamp == now
                        &&& w2.containers[i as int].name == w.containers[i as int].name
                        &&& w2.containers[i as int].state == w.containers[i as int].state
                        &&& w2.containers[i as int].phase == w.containers[i as int].phase
                    }
                },
                LogOwner::System => {
                    &&& w2.containers == w.containers
                    &&& w.system is Some ==> {
                        &&& w2.system is Some
                        &&& w2.system->0.log == w.system->0.log.push(line)
                        &&& w2.system->0.log.last().timestamp == now
                        &&& w2.system->0.name == w.system->0.name
                    }
                    &&& w.system is None ==> w2.system is None
                },
            }
        }),
{
}

/// A progress report sets exactly the reported bytes on a container that has a progress
/// component, and changes nothing else.
pub proof fn lemma_progress_set_exact(w: WorldView, i: int, downloaded: u64, total: u64)
    ensures
        ({
            let w2 = progress_set(w, i, downloaded, total);
            &&& w2.containers.len() == w.containers.len()
            &&& forall|j: int| 0 <= j < w.containers.len() && j != i ==> #[trigger] w2.containers[j] == w.containers[j]
            &&& (0 <= i < w.containers.len() && w.containers[i].progress is Some) ==> {
                &&& w2.containers[i].progress == Some(DownloadProgress { downloaded, total })
                &&& w2.containers[i].phase == w.containers[i].phase
                &&& w2.containers[i].log == w.containers[i].log
            }
            &&& !(0 <= i < w.containers.len() && w.containers[i].progress is Some) ==> w2 == w
            &&& w2.system == w.system
        }),
{
}

/// Marking a container done sets its marker and changes nothing else.
pub proof fn lemma_done_marked_exact(w: WorldView, i: int)
    ensures
        ({
            let w2 = done_marked(w, i);
            &&& w2.containers.len() == w.containers.len()
            &&& forall|j: int| 0 <= j < w.containers.len() && j != i ==> #[trigger] w2.containers[j] == w.containers[j]
            &&& 0 <= i < w.containers.len() ==> w2.containers[i].done && w2.containers[i].state
                == w.containers[i].state && w2.containers[i].log == w.containers[i].log
            &&& !(0 <= i < w.containers.len()) ==> w2 == w
        }),
{
}

} // verus!
