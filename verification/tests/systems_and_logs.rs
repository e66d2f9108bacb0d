use ecstest::events::inject_event;
use ecstest::logs::{LogBuffer, LogLine, LogOwner, MergedLogEntry, MergedLogView};
use ecstest::merged::{build_merged_log_view, merge_sources, LogSource};
use ecstest::message::Message;
use ecstest::phase::ContainerPhase;
use ecstest::phase::ContainerPhase::{Failed, Pending, PullingImage, Running, Starting, Stopped, Stopping};
use ecstest::systems::{downloaded_after_step, AppEvent, Timed, PULL_TOTAL};
use ecstest::world::{ComposeWorld, DownloadProgress};

fn phased_world(phases: &[(u32, ContainerPhase)]) -> ComposeWorld {
    let mut w = ComposeWorld::for_daemon();
    for (i, (order, phase)) in phases.iter().enumerate() {
        Message::SpawnContainer { name: format!("c{i}"), image: "img".into(), start_order: *order }.apply(&mut w, 0);
        w.containers[i].phase = *phase;
    }
    w
}

fn phases(w: &ComposeWorld) -> Vec<ContainerPhase> {
    w.containers.iter().map(|c| c.phase).collect()
}

#[test]
fn download_steps_reach_the_total() {
    let d: Vec<u64> = (0..10).map(downloaded_after_step).collect();
    assert_eq!(d[0], 10_000_000);
    assert_eq!(d[9], PULL_TOTAL);
    assert!(d.windows(2).all(|w| w[0] < w[1]));
}

#[test]
fn enforce_ordering_starts_ready_pending_containers() {
    let mut w = phased_world(&[(0, Running), (0, Pending), (1, Pending), (1, PullingImage), (2, Pending)]);
    let tasks = w.enforce_ordering();
    // Container 1 (order 0) is ready; container 2 (order 1) waits for container 1, which was pending.
    assert_eq!(phases(&w), vec![Running, PullingImage, Pending, PullingImage, Pending]);
    assert_eq!(w.containers[1].progress, Some(DownloadProgress { downloaded: 0, total: 0 }));
    assert_eq!(tasks.len(), 1);
    let steps = &tasks[0].steps;
    assert_eq!(steps.len(), 11);
    for (k, s) in steps[..10].iter().enumerate() {
        assert!((200..=500).contains(&s.delay_ms));
        assert_eq!(
            s.event,
            AppEvent::DownloadProgress { entity: 1, downloaded: 10_000_000 * (k as u64 + 1), total: PULL_TOTAL }
        );
    }
    assert_eq!(steps[10], Timed { delay_ms: 0, event: AppEvent::DownloadComplete(1) });
}

#[test]
fn enforce_ordering_with_stopped_predecessors() {
    let mut w = phased_world(&[(0, Stopped), (1, Pending), (1, Pending)]);
    let tasks = w.enforce_ordering();
    assert_eq!(phases(&w), vec![Stopped, PullingImage, PullingImage]);
    assert_eq!(tasks.len(), 2);
    assert_eq!(tasks[1].steps[10].event, AppEvent::DownloadComplete(2));
}

#[test]
fn download_complete_starts_and_schedules_boot() {
    let mut w = phased_world(&[(0, PullingImage)]);
    let t = w.handle_download_complete(0);
    assert_eq!(phases(&w), vec![Starting]);
    assert_eq!(t.steps.len(), 1);
    assert!((500..=1500).contains(&t.steps[0].delay_ms));
    assert_eq!(t.steps[0].event, AppEvent::BootComplete(0));
}

#[test]
fn boot_complete_signals_when_last_container_runs() {
    let mut w = phased_world(&[(0, Running), (0, Starting), (1, Starting)]);
    assert!(!w.handle_boot_complete(1));
    assert_eq!(phases(&w), vec![Running, Running, Starting]);
    assert!(w.handle_boot_complete(2));
    assert_eq!(phases(&w), vec![Running, Running, Running]);
}

#[test]
fn boot_complete_of_a_running_container_waits_for_the_others() {
    let mut w = phased_world(&[(0, Running), (0, Starting)]);
    assert!(!w.handle_boot_complete(0));
    assert_eq!(phases(&w), vec![Running, Starting]);
}

#[test]
fn enforce_ordering_with_stopping_predecessors() {
    let mut w = phased_world(&[(0, Stopping), (1, Pending)]);
    let tasks = w.enforce_ordering();
    assert_eq!(phases(&w), vec![Stopping, PullingImage]);
    assert_eq!(tasks.len(), 1);
}

#[test]
fn shutdown_all_stops_active_containers() {
    let mut w = phased_world(&[(0, Running), (0, Stopped), (1, Pending), (1, Failed), (2, Starting)]);
    let tasks = w.handle_shutdown_all();
    assert_eq!(phases(&w), vec![Stopping, Stopped, Stopping, Failed, Stopping]);
    let events: Vec<AppEvent> = tasks.iter().map(|t| t.steps[0].event).collect();
    assert_eq!(
        events,
        vec![AppEvent::ShutdownComplete(0), AppEvent::ShutdownComplete(2), AppEvent::ShutdownComplete(4)]
    );
    assert!(tasks.iter().all(|t| t.steps.len() == 1 && (200..=800).contains(&t.steps[0].delay_ms)));
    w.handle_shutdown_complete(0);
    assert_eq!(w.containers[0].phase, Stopped);
}

#[test]
fn injected_events_drive_phases() {
    let mut w = phased_world(&[(0, Pending), (0, Pending)]);
    w.enforce_ordering();
    let (t, ready) = inject_event(&mut w, AppEvent::DownloadProgress { entity: 0, downloaded: 30, total: 100 });
    assert!(t.is_empty() && !ready);
    assert_eq!(w.containers[0].progress, Some(DownloadProgress { downloaded: 30, total: 100 }));
    let (t, _) = inject_event(&mut w, AppEvent::DownloadComplete(0));
    assert_eq!(t.len(), 1);
    assert_eq!(t[0].steps[0].event, AppEvent::BootComplete(0));
    let (_, ready) = inject_event(&mut w, AppEvent::BootComplete(0));
    assert!(!ready);
    inject_event(&mut w, AppEvent::DownloadComplete(1));
    let (_, ready) = inject_event(&mut w, AppEvent::BootComplete(1));
    assert!(ready);
    assert_eq!(phases(&w), vec![Running, Running]);
    let (t, ready) = inject_event(&mut w, AppEvent::ShutdownAll);
    assert!(t.is_empty() && !ready);
    inject_event(&mut w, AppEvent::ShutdownComplete(1));
    assert_eq!(phases(&w), vec![Running, Stopped]);
    let (t, ready) = inject_event(&mut w, AppEvent::AllContainersReady);
    assert!(t.is_empty() && !ready);
    // Progress for an entity without progress, or out of range, changes nothing.
    inject_event(&mut w, AppEvent::DownloadProgress { entity: 7, downloaded: 1, total: 1 });
}

#[test]
fn log_buffer_push_appends() {
    let mut b = LogBuffer::new();
    b.push("one".into(), 5);
    b.push("two".into(), 3);
    assert_eq!(b.lines.len(), 2);
    assert_eq!(b.lines[1].text, "two");
    assert_eq!(b.lines[1].timestamp, 3);
    assert!(LogBuffer::default().lines.is_empty());
}

#[test]
fn log_buffer_stamped_in_order_stays_in_order() {
    let mut b = LogBuffer::new();
    for (i, t) in [1u64, 1, 4, 9].iter().enumerate() {
        b.push(format!("line {i}"), *t);
    }
    assert!(b.lines.windows(2).all(|w| w[0].timestamp <= w[1].timestamp));
}

#[test]
fn merged_view_sorts_by_time_stably() {
    let mut w = phased_world(&[(0, ContainerPhase::Pending), (0, ContainerPhase::Pending)]);
    w.containers[0].log.push("a1".into(), 10);
    w.containers[0].log.push("a2".into(), 30);
    w.containers[1].log.push("b1".into(), 20);
    w.containers[1].log.push("b2".into(), 30);
    w.system.as_mut().unwrap().log.push("s1".into(), 10);
    let mut view = MergedLogView::default();
    view.entries.push(MergedLogEntry {
        owner: LogOwner::System,
        name: "stale".into(),
        line: LogLine { timestamp: 0, text: "stale".into() },
    });
    build_merged_log_view(&w, &mut view);
    let got: Vec<(String, String, u64)> =
        view.entries.iter().map(|e| (e.name.clone(), e.line.text.clone(), e.line.timestamp)).collect();
    assert_eq!(
        got,
        vec![
            ("c0".to_string(), "a1".to_string(), 10),
            ("[system]".to_string(), "s1".to_string(), 10),
            ("c1".to_string(), "b1".to_string(), 20),
            ("c0".to_string(), "a2".to_string(), 30),
            ("c1".to_string(), "b2".to_string(), 30),
        ]
    );
    assert_eq!(view.entries[0].owner, LogOwner::Container(0));
    assert_eq!(view.entries[1].owner, LogOwner::System);
}

#[test]
fn merged_view_of_empty_world_is_empty() {
    let w = ComposeWorld::new();
    let mut view = MergedLogView::default();
    build_merged_log_view(&w, &mut view);
    assert!(view.entries.is_empty());
}

#[test]
fn merge_sources_sorts_by_time_keeping_source_order() {
    let line = |t: u64, s: &str| LogLine { timestamp: t, text: s.to_string() };
    let sources = vec![
        LogSource { owner: LogOwner::Container(7), name: "db".into(), lines: vec![line(5, "x"), line(9, "y")] },
        LogSource { owner: LogOwner::System, name: "[system]".into(), lines: vec![line(5, "s")] },
    ];
    let mut view = MergedLogView::default();
    merge_sources(&sources, &mut view);
    let got: Vec<&str> = view.entries.iter().map(|e| e.line.text.as_str()).collect();
    assert_eq!(got, vec!["x", "s", "y"]);
    assert_eq!(view.entries[1].owner, LogOwner::System);
}
