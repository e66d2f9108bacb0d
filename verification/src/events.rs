use vstd::prelude::*;

use crate::commands::{progress_set, SetProgressCmd};
use crate::phase::ContainerPhase;
use crate::systems::{is_delayed, others_running, phase_set, AppEvent, ScheduledTask};
use crate::world::{ComposeWorld, WorldView};

verus! {

/// The event names a container that exists, where it names one that must.
pub open spec fn event_targets_valid(w: WorldView, e: AppEvent) -> bool {
    match e {
        AppEvent::DownloadComplete(i) => i < w.containers.len(),
        AppEvent::BootComplete(i) => i < w.containers.len(),
        AppEvent::ShutdownComplete(i) => i < w.containers.len(),
        _ => true,
    }
}

/// What injecting `e` into `w` does to it: progress is recorded on a container that has
/// a progress component; a completed download starts the container, a completed boot
/// runs it, a completed shutdown stops it; the other events leave the world alone.
pub open spec fn event_applied(w: WorldView, e: AppEvent) -> WorldView {
    match e {
        AppEvent::DownloadProgress { entity, downloaded, total } => progress_set(w, entity as int, downloaded, total),
        AppEvent::DownloadComplete(i) => phase_set(w, i as int, ContainerPhase::Starting),
        AppEvent::BootComplete(i) => phase_set(w, i as int, ContainerPhase::Running),
        AppEvent::ShutdownComplete(i) => phase_set(w, i as int, ContainerPhase::Stopped),
        _ => w,
    }
}

/// Translates an external event into world mutations. Returns the async tasks the
/// handlers spawn and whether `AllContainersReady` is to be sent.
pub fn inject_event(world: &mut ComposeWorld, event: AppEvent) -> (r: (Vec<ScheduledTask>, bool))
    requires
        event_targets_valid(old(world)@, event),
    ensures
        final(world)@ == event_applied(old(world)@, event),
        match event {
            AppEvent::DownloadComplete(i) => r.0@.len() == 1 && is_delayed(
                r.0@[0].steps@,
                500,
                1500,
                AppEvent::BootComplete(i),
            ) && !r.1,
            AppEvent::BootComplete(i) => r.0@.len() == 0 && r.1 == others_running(old(world)@.containers, i as int),
            _ => r.0@.len() == 0 && !r.1,
        },
{
    let mut tasks: Vec<ScheduledTask> = Vec::new();
    match event {
        AppEvent::DownloadProgress { entity, downloaded, total } => {
            SetProgressCmd { entity, downloaded, total }.apply(world);
            (tasks, false)
        },
        AppEvent::DownloadComplete(i) => {
            let t = world.handle_download_complete(i);
            tasks.push(t);
            (tasks, false)
        },
        AppEvent::BootComplete(i) => {
            let ready = world.handle_boot_complete(i);
            (tasks, ready)
        },
        AppEvent::ShutdownComplete(i) => {
            world.handle_shutdown_complete(i);
            (tasks, false)
        },
        _ => (tasks, false),
    }
}

} // verus!
