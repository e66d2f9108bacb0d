use ecstest::backend::{mirror_boot_step, mirror_pull_step, mirror_stop_step, MirrorStep, MockBackend, PullProgress};
use ecstest::logs::LogLine;
use ecstest::phase::Phase;
use ecstest::protocol::{ContainerInfo, ContainerSnapshot, DaemonEvent};
use ecstest::session::{
    after_cycle, client_state_change, disconnect_detected, exit_notice_due, is_ctrl_c, server_state_change,
    ClientRunState, CycleFlags, CycleOutcome, LogForwarder, ServerRunState,
};

fn mock(name: &str) -> MockBackend {
    MockBackend::new(name.to_string(), format!("{name}:latest"))
}

fn phase_changed(phase: Phase) -> Option<DaemonEvent> {
    Some(DaemonEvent::PhaseChanged { id: "x".into(), phase })
}

#[test]
fn mock_backend_new_keeps_name_and_image() {
    let b = MockBackend::new("postgres".to_string(), "postgres:16".to_string());
    assert_eq!(b.name, "postgres");
    assert_eq!(b.image, "postgres:16");
}

#[test]
fn pull_plan_reports_tenths_of_the_total() {
    let p = mock("redis").pull_plan();
    assert_eq!(p.start_log, "Pulling redis:latest...");
    assert_eq!(p.end_log, "Pull complete");
    assert_eq!(p.steps.len(), 10);
    for (k, s) in p.steps.iter().enumerate() {
        assert!((200..=500).contains(&s.delay_ms));
        assert_eq!(s.progress, PullProgress { downloaded: 10_000_000 * (k as u64 + 1), total: 100_000_000 });
    }
}

#[test]
fn boot_plan_uses_the_service_script() {
    let p = mock("postgres").boot_plan();
    let lines: Vec<(String, u64)> = p.lines.iter().map(|l| (l.text.clone(), l.delay_ms)).collect();
    assert_eq!(
        lines,
        vec![
            ("PostgreSQL init process complete".to_string(), 200),
            ("LOG: listening on 0.0.0.0:5432".to_string(), 300)
        ]
    );
    assert!((500..=1500).contains(&p.startup_delay_ms));
    assert_eq!(mock("web-frontend").boot_plan().lines[1].text, "Serving on http://0.0.0.0:3000");
    assert_eq!(mock("redis").boot_plan().lines[0].delay_ms, 150);
    assert_eq!(mock("api-server").boot_plan().lines[1].delay_ms, 400);
    assert!(mock("unknown").boot_plan().lines.is_empty());
    let d = mock("x").stop_delay();
    assert!((200..=800).contains(&d));
}

#[test]
fn mirror_pull_forwards_until_a_later_phase() {
    match mirror_pull_step(Some(DaemonEvent::Progress { id: "x".into(), downloaded: 3, total: 9 })) {
        MirrorStep::Progress(p) => assert_eq!(p, PullProgress { downloaded: 3, total: 9 }),
        other => panic!("unexpected {other:?}"),
    }
    match mirror_pull_step(Some(DaemonEvent::Log { id: "x".into(), text: "hi".into() })) {
        MirrorStep::Log(t) => assert_eq!(t, "hi"),
        other => panic!("unexpected {other:?}"),
    }
    assert!(matches!(mirror_pull_step(phase_changed(Phase::Starting)), MirrorStep::Finish(Ok(()))));
    assert!(matches!(mirror_pull_step(phase_changed(Phase::Stopped)), MirrorStep::Finish(Ok(()))));
    assert!(matches!(mirror_pull_step(phase_changed(Phase::PullingImage)), MirrorStep::Skip));
    assert!(matches!(mirror_pull_step(Some(DaemonEvent::Exit)), MirrorStep::Skip));
    match mirror_pull_step(None) {
        MirrorStep::Finish(Err(e)) => assert_eq!(e, "disconnected"),
        other => panic!("unexpected {other:?}"),
    }
}

#[test]
fn mirror_boot_and_stop_steps() {
    assert!(matches!(mirror_boot_step(phase_changed(Phase::Starting)), MirrorStep::Skip));
    assert!(matches!(mirror_boot_step(phase_changed(Phase::Running)), MirrorStep::Finish(Ok(()))));
    assert!(matches!(
        mirror_boot_step(Some(DaemonEvent::Progress { id: "x".into(), downloaded: 1, total: 2 })),
        MirrorStep::Skip
    ));
    assert!(matches!(mirror_boot_step(Some(DaemonEvent::Log { id: "x".into(), text: "t".into() })), MirrorStep::Log(_)));
    assert!(matches!(mirror_boot_step(None), MirrorStep::Finish(Err(_))));
    assert!(matches!(mirror_stop_step(phase_changed(Phase::Running)), MirrorStep::Skip));
    assert!(matches!(mirror_stop_step(phase_changed(Phase::Stopped)), MirrorStep::Finish(Ok(()))));
    assert!(matches!(mirror_stop_step(Some(DaemonEvent::Log { id: "x".into(), text: "t".into() })), MirrorStep::Skip));
    let snapshot = DaemonEvent::Snapshot(vec![ContainerSnapshot {
        info: ContainerInfo { id: "1".into(), name: "n".into(), image: "i".into(), order: 0 },
        phase: Phase::Pending,
        downloaded: 0,
        total: 0,
    }]);
    assert!(matches!(mirror_stop_step(Some(snapshot)), MirrorStep::Skip));
    assert!(matches!(mirror_stop_step(None), MirrorStep::Finish(Err(_))));
}

#[test]
fn wake_cancels_tick_and_exit_is_checked_every_cycle() {
    let o = after_cycle(CycleFlags { needs_wake: true, needs_tick: true, exit: true }, true);
    assert_eq!(o, CycleOutcome { clear_wake: true, clear_tick: false, tick_pending: false, stop: true });
    let o = after_cycle(CycleFlags { needs_wake: true, needs_tick: false, exit: false }, true);
    assert_eq!(o, CycleOutcome { clear_wake: true, clear_tick: false, tick_pending: false, stop: false });
    let o = after_cycle(CycleFlags { needs_wake: false, needs_tick: true, exit: false }, false);
    assert_eq!(o, CycleOutcome { clear_wake: false, clear_tick: true, tick_pending: true, stop: false });
    let o = after_cycle(CycleFlags { needs_wake: false, needs_tick: false, exit: true }, true);
    assert_eq!(o, CycleOutcome { clear_wake: false, clear_tick: false, tick_pending: true, stop: true });
}

fn line(t: &str) -> LogLine {
    LogLine { timestamp: 0, text: t.to_string() }
}

#[test]
fn log_forwarder_sends_each_line_once() {
    let mut f = LogForwarder::new();
    let mut lines = vec![line("a"), line("b")];
    assert_eq!(f.take_unsent(7, &lines), vec!["a", "b"]);
    assert!(f.take_unsent(7, &lines).is_empty());
    lines.push(line("c"));
    assert_eq!(f.take_unsent(7, &lines), vec!["c"]);
    assert_eq!(f.take_unsent(8, &vec![line("z")]), vec!["z"]);
}

#[test]
fn exit_notice_goes_out_once() {
    let mut sent = false;
    assert!(!exit_notice_due(false, &mut sent));
    assert!(exit_notice_due(true, &mut sent));
    assert!(!exit_notice_due(true, &mut sent));
    assert!(sent);
}

#[test]
fn disconnect_after_connection_requests_exit() {
    let mut was = false;
    assert!(!disconnect_detected(false, &mut was));
    assert!(!disconnect_detected(true, &mut was));
    assert!(disconnect_detected(false, &mut was));
}

#[test]
fn replication_states_follow_connections() {
    assert_eq!(server_state_change(true, ServerRunState::Stopped), Some(ServerRunState::Running));
    assert_eq!(server_state_change(false, ServerRunState::Running), Some(ServerRunState::Stopped));
    assert_eq!(server_state_change(true, ServerRunState::Running), None);
    assert_eq!(client_state_change(true, ClientRunState::Disconnected), Some(ClientRunState::Connected));
    assert_eq!(client_state_change(false, ClientRunState::Connected), Some(ClientRunState::Disconnected));
    assert_eq!(client_state_change(true, ClientRunState::Connecting), None);
}

#[test]
fn ctrl_c_detection() {
    assert!(is_ctrl_c(Some('c'), true));
    assert!(!is_ctrl_c(Some('c'), false));
    assert!(!is_ctrl_c(Some('d'), true));
    assert!(!is_ctrl_c(None, true));
}
