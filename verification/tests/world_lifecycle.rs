use ecstest::commands::{AppendLog, LifecycleMsg, MarkDoneCmd, RequestShutdownCmd, SetProgressCmd};
use ecstest::lifecycle::{
    all_containers_running, all_containers_stopped, container_next, orchestrator_next, predecessors_ready,
    ContainerState, ContainerTriggers, OrchestratorState, OrderStatus,
};
use ecstest::logs::LogOwner;
use ecstest::machines::LifecycleTask;
use ecstest::message::Message;
use ecstest::phase::ContainerPhase;
use ecstest::world::{ComposeWorld, DownloadProgress};

fn status(order: u32, running: bool, stopped: bool) -> OrderStatus {
    OrderStatus { order, running, stopped }
}

fn texts(w: &ComposeWorld, i: usize) -> Vec<String> {
    w.containers[i].log.lines.iter().map(|l| l.text.clone()).collect()
}

fn system_texts(w: &ComposeWorld) -> Vec<String> {
    w.system.as_ref().unwrap().log.lines.iter().map(|l| l.text.clone()).collect()
}

fn daemon_world() -> ComposeWorld {
    let mut w = ComposeWorld::for_daemon();
    for m in Message::daemon_containers() {
        m.apply(&mut w, 0);
    }
    w
}

fn states(w: &ComposeWorld) -> Vec<ContainerState> {
    w.containers.iter().map(|c| c.state).collect()
}

fn mark_all_done(w: &mut ComposeWorld) {
    for i in 0..w.containers.len() {
        MarkDoneCmd { entity: i }.apply(w);
    }
}

#[test]
fn predecessors_ready_checks_lower_orders_only() {
    let all = vec![status(0, true, false), status(0, false, true), status(1, false, false), status(2, false, false)];
    assert!(predecessors_ready(Some(1), &all));
    assert!(!predecessors_ready(Some(2), &all));
    assert!(predecessors_ready(Some(0), &all));
    assert!(!predecessors_ready(None, &all));
    assert!(predecessors_ready(Some(5), &vec![]));
}

#[test]
fn all_flags_need_a_container() {
    assert!(!all_containers_running(&vec![]));
    assert!(all_containers_running(&vec![true, true]));
    assert!(!all_containers_running(&vec![true, false]));
    assert!(!all_containers_stopped(&vec![]));
    assert!(all_containers_stopped(&vec![true]));
}

#[test]
fn container_table_priorities() {
    let t = |p, d, s| ContainerTriggers { predecessors_ready: p, done: d, shutdown: s };
    assert_eq!(container_next(ContainerState::Pending, t(true, false, true)), Some(ContainerState::PullingImage));
    assert_eq!(container_next(ContainerState::Pending, t(false, false, true)), Some(ContainerState::Stopping));
    assert_eq!(container_next(ContainerState::Pending, t(false, true, false)), None);
    assert_eq!(container_next(ContainerState::PullingImage, t(false, true, true)), Some(ContainerState::Starting));
    assert_eq!(container_next(ContainerState::Starting, t(false, true, false)), Some(ContainerState::Running));
    assert_eq!(container_next(ContainerState::Running, t(true, true, false)), None);
    assert_eq!(container_next(ContainerState::Running, t(false, false, true)), Some(ContainerState::Stopping));
    assert_eq!(container_next(ContainerState::Stopping, t(false, false, true)), None);
    assert_eq!(container_next(ContainerState::Stopping, t(false, true, false)), Some(ContainerState::Stopped));
    assert_eq!(container_next(ContainerState::Stopped, t(true, true, true)), None);
}

#[test]
fn orchestrator_table() {
    assert_eq!(orchestrator_next(OrchestratorState::Deploying, true, true, false), Some(OrchestratorState::AllRunning));
    assert_eq!(orchestrator_next(OrchestratorState::Deploying, false, true, false), Some(OrchestratorState::ShuttingDown));
    assert_eq!(orchestrator_next(OrchestratorState::AllRunning, true, false, false), None);
    assert_eq!(orchestrator_next(OrchestratorState::ShuttingDown, false, true, true), Some(OrchestratorState::AllStopped));
    assert_eq!(orchestrator_next(OrchestratorState::AllStopped, true, true, true), None);
}

#[test]
fn spawn_messages_add_pending_containers() {
    let w = daemon_world();
    assert_eq!(w.containers.len(), 4);
    assert_eq!(w.containers[2].name, "api-server");
    assert_eq!(w.containers[2].image, "myapp/api:latest");
    assert_eq!(w.containers[2].start_order, 1);
    assert_eq!(w.containers[3].start_order, 2);
    assert!(w.containers.iter().all(|c| c.phase == ContainerPhase::Pending && !c.done && c.progress.is_none()));
    assert_eq!(w.system.as_ref().unwrap().name, "[system]");
}

#[test]
fn mark_done_message_marks_the_first_container_of_that_name() {
    let mut w = ComposeWorld::new();
    Message::SpawnContainer { name: "a".into(), image: "x".into(), start_order: 0 }.apply(&mut w, 0);
    Message::SpawnContainer { name: "a".into(), image: "y".into(), start_order: 1 }.apply(&mut w, 0);
    Message::MarkDone { container_name: "a".into() }.apply(&mut w, 0);
    assert!(w.containers[0].done);
    assert!(!w.containers[1].done);
    Message::MarkDone { container_name: "missing".into() }.apply(&mut w, 0);
    assert!(!w.containers[1].done);
}

#[test]
fn shutdown_request_sets_flag_and_logs() {
    let mut w = daemon_world();
    Message::RequestShutdown.apply(&mut w, 42);
    assert!(w.shutdown_requested);
    assert_eq!(system_texts(&w), vec!["Shutting down..."]);
    assert_eq!(w.system.as_ref().unwrap().log.lines[0].timestamp, 42);
    let mut bare = ComposeWorld::new();
    RequestShutdownCmd.apply(&mut bare, 1);
    assert!(bare.shutdown_requested);
    assert!(bare.system.is_none());
}

#[test]
fn lifecycle_commands_touch_only_their_target() {
    let mut w = daemon_world();
    SetProgressCmd { entity: 0, downloaded: 5, total: 10 }.apply(&mut w);
    assert!(w.containers[0].progress.is_none());
    w.run_state_machines(1);
    assert_eq!(w.containers[0].progress, Some(DownloadProgress { downloaded: 0, total: 0 }));
    LifecycleMsg::SetProgress(SetProgressCmd { entity: 0, downloaded: 5, total: 10 }).apply(&mut w, 2);
    assert_eq!(w.containers[0].progress, Some(DownloadProgress { downloaded: 5, total: 10 }));
    LifecycleMsg::MarkDone(MarkDoneCmd { entity: 1 }).apply(&mut w, 2);
    assert!(w.containers[1].done && !w.containers[0].done);
    LifecycleMsg::MarkDone(MarkDoneCmd { entity: 99 }).apply(&mut w, 2);
    LifecycleMsg::RequestShutdown(RequestShutdownCmd).apply(&mut w, 3);
    assert!(w.shutdown_requested);
    AppendLog { entity: LogOwner::Container(3), text: "hello".into() }.apply(&mut w, 4);
    assert_eq!(texts(&w, 3), vec!["hello"]);
    AppendLog { entity: LogOwner::System, text: "sys".into() }.apply(&mut w, 4);
    assert_eq!(system_texts(&w), vec!["Shutting down...", "sys"]);
    AppendLog { entity: LogOwner::Container(9), text: "lost".into() }.apply(&mut w, 4);
}

#[test]
fn full_lifecycle_respects_start_order_and_exits() {
    let mut w = daemon_world();
    // First pass: only the order-0 containers start pulling.
    let tasks = w.run_state_machines(1);
    assert_eq!(tasks, vec![LifecycleTask::PullImage(0), LifecycleTask::PullImage(1)]);
    assert_eq!(
        states(&w),
        vec![ContainerState::PullingImage, ContainerState::PullingImage, ContainerState::Pending, ContainerState::Pending]
    );
    assert_eq!(w.containers[0].phase, ContainerPhase::PullingImage);
    // Pulls done: both start.
    mark_all_done(&mut w);
    let tasks = w.run_state_machines(2);
    assert_eq!(tasks, vec![LifecycleTask::BootContainer(0), LifecycleTask::BootContainer(1)]);
    assert_eq!(texts(&w, 0), vec!["Starting container..."]);
    // Done markers are consumed even where no transition used them.
    assert!(w.containers.iter().all(|c| !c.done));
    // Boots done: both run, and in the same pass the api server, which comes after them, starts pulling.
    mark_all_done(&mut w);
    let tasks = w.run_state_machines(3);
    assert_eq!(
        tasks,
        vec![LifecycleTask::PullImage(2)]
    );
    assert_eq!(
        states(&w),
        vec![ContainerState::Running, ContainerState::Running, ContainerState::PullingImage, ContainerState::Pending]
    );
    assert_eq!(texts(&w, 1), vec!["Starting container...", "Container started"]);
    for _ in 0..2 {
        mark_all_done(&mut w);
        w.run_state_machines(4);
    }
    assert_eq!(w.containers[2].state, ContainerState::Running);
    assert_eq!(w.containers[3].state, ContainerState::PullingImage);
    for _ in 0..2 {
        mark_all_done(&mut w);
        w.run_state_machines(5);
    }
    assert!(w.containers.iter().all(|c| c.state == ContainerState::Running && c.phase == ContainerPhase::Running));
    assert_eq!(w.orchestrator, Some(OrchestratorState::AllRunning));
    assert_eq!(system_texts(&w), vec!["All containers ready."]);
    // Shutdown.
    Message::RequestShutdown.apply(&mut w, 6);
    let tasks = w.run_state_machines(6);
    assert_eq!(
        tasks,
        vec![
            LifecycleTask::StopContainer(0),
            LifecycleTask::StopContainer(1),
            LifecycleTask::StopContainer(2),
            LifecycleTask::StopContainer(3)
        ]
    );
    assert_eq!(w.orchestrator, Some(OrchestratorState::ShuttingDown));
    assert!(!w.exit);
    mark_all_done(&mut w);
    let tasks = w.run_state_machines(7);
    assert!(tasks.is_empty());
    assert!(w.containers.iter().all(|c| c.state == ContainerState::Stopped && c.phase == ContainerPhase::Stopped));
    assert_eq!(w.orchestrator, Some(OrchestratorState::AllStopped));
    assert!(w.exit);
    assert_eq!(
        system_texts(&w),
        vec!["All containers ready.", "Shutting down...", "All containers stopped."]
    );
    assert_eq!(
        texts(&w, 0),
        vec!["Starting container...", "Container started", "Stopping container...", "Container stopped"]
    );
}

#[test]
fn shutdown_stops_pending_containers_without_starting_them() {
    let mut w = daemon_world();
    Message::RequestShutdown.apply(&mut w, 1);
    let tasks = w.run_state_machines(1);
    // Order-0 containers are ready, so they take the higher-priority pull transition first.
    assert_eq!(
        tasks,
        vec![
            LifecycleTask::PullImage(0),
            LifecycleTask::PullImage(1),
            LifecycleTask::StopContainer(2),
            LifecycleTask::StopContainer(3)
        ]
    );
    let tasks = w.run_state_machines(2);
    assert_eq!(tasks, vec![LifecycleTask::StopContainer(0), LifecycleTask::StopContainer(1)]);
    assert!(w.containers.iter().all(|c| c.state == ContainerState::Stopping));
}

#[test]
fn empty_world_never_reaches_all_running() {
    let mut w = ComposeWorld::for_daemon();
    w.run_state_machines(1);
    assert_eq!(w.orchestrator, Some(OrchestratorState::Deploying));
    w.spawn_containers();
    assert_eq!(w.containers.len(), 4);
    assert_eq!(w.containers[1].name, "redis");
}
