use ecstest::logs::{LogLine, LogOwner, MergedLogEntry, MergedLogView};
use ecstest::phase::ContainerPhase;
use ecstest::render::{render_plain, render_plain_checked, resolve_render_mode, ChangeTracker, ContainerRow, RenderMode};
use ecstest::text::{push_padded, repeat_str, truncate_bytes};
use ecstest::tui::{phase_color, render_tui, TermAttr, TermColor, TermOp, TuiRenderState};
use ecstest::world::DownloadProgress;

fn row(entity: u64, name: &str, order: u32, phase: ContainerPhase, progress: Option<(u64, u64)>) -> ContainerRow {
    ContainerRow {
        entity,
        name: name.to_string(),
        start_order: order,
        phase,
        progress: progress.map(|(d, t)| DownloadProgress { downloaded: d, total: t }),
    }
}

fn entry(owner: LogOwner, name: &str, ts: u64, text: &str) -> MergedLogEntry {
    MergedLogEntry { owner, name: name.to_string(), line: LogLine { timestamp: ts, text: text.to_string() } }
}

fn prints(ops: &[TermOp]) -> Vec<String> {
    ops.iter()
        .filter_map(|o| match o {
            TermOp::Print(s) => Some(s.clone()),
            _ => None,
        })
        .collect()
}

#[test]
fn render_mode_prefers_explicit_choice() {
    assert_eq!(resolve_render_mode(Some(RenderMode::Plain), true), RenderMode::Plain);
    assert_eq!(resolve_render_mode(None, true), RenderMode::Tui);
    assert_eq!(resolve_render_mode(None, false), RenderMode::Plain);
}

#[test]
fn plain_prints_phase_changes_in_start_order() {
    let mut st = ChangeTracker::new();
    let rows = vec![
        row(2, "web", 2, ContainerPhase::Pending, None),
        row(1, "db", 0, ContainerPhase::PullingImage, Some((0, 0))),
    ];
    let lines = render_plain(rows.clone(), 3, &mut st);
    assert_eq!(lines, vec!["[1/3] db — Pulling image", "[2/3] web — Pending"]);
    // Nothing changed: nothing printed.
    assert!(render_plain(rows, 3, &mut st).is_empty());
}

#[test]
fn plain_prints_progress_percentages() {
    let mut st = ChangeTracker::new();
    render_plain(vec![row(1, "db", 0, ContainerPhase::PullingImage, Some((0, 0)))], 1, &mut st);
    let lines = render_plain(vec![row(1, "db", 0, ContainerPhase::PullingImage, Some((30, 120)))], 1, &mut st);
    assert_eq!(lines, vec!["[1/1] db — Pulling image (25%)"]);
    // Same bytes again: nothing.
    assert!(render_plain(vec![row(1, "db", 0, ContainerPhase::PullingImage, Some((30, 120)))], 1, &mut st).is_empty());
    // Unknown total: no percentage.
    assert!(render_plain(vec![row(1, "db", 0, ContainerPhase::PullingImage, Some((40, 0)))], 1, &mut st).is_empty());
    let lines = render_plain(vec![row(1, "db", 0, ContainerPhase::Running, Some((40, 0)))], 12, &mut st);
    assert_eq!(lines, vec!["[1/12] db — Running"]);
}

#[test]
fn text_helpers() {
    let mut s = String::from("x");
    push_padded(&mut s, "ab", 4);
    assert_eq!(s, "xab  ");
    let mut t = String::new();
    push_padded(&mut t, "abcdef", 3);
    assert_eq!(t, "abcdef");
    assert_eq!(repeat_str("─", 3), "───");
    assert_eq!(truncate_bytes("hello", 3), "hel");
    assert_eq!(truncate_bytes("hi", 3), "hi");
    assert_eq!(truncate_bytes("héllo", 3), "hé");
}

#[test]
fn phase_colors() {
    assert_eq!(phase_color(ContainerPhase::Running), (TermColor::Green, Some(TermAttr::Bold)));
    assert_eq!(phase_color(ContainerPhase::Failed), (TermColor::Red, Some(TermAttr::Bold)));
    assert_eq!(phase_color(ContainerPhase::Pending), (TermColor::DarkGrey, None));
    assert_eq!(phase_color(ContainerPhase::PullingImage), (TermColor::Yellow, None));
}

#[test]
fn tui_draws_nothing_on_a_tiny_terminal() {
    let mut st = TuiRenderState::new();
    let ops = render_tui(vec![row(1, "db", 0, ContainerPhase::Pending, None)], &MergedLogView::default(), 19, 24, &mut st);
    assert!(ops.is_empty());
    assert!(!st.initialized);
    let ops = render_tui(vec![], &MergedLogView::default(), 80, 3, &mut st);
    assert!(ops.is_empty());
    // More lines counted as shown than the log holds: still nothing, and no change.
    st.total_log_lines_rendered = 5;
    let ops = render_tui(vec![], &MergedLogView::default(), 10, 2, &mut st);
    assert!(ops.is_empty());
    assert_eq!(st.total_log_lines_rendered, 5);
}

#[test]
fn tui_first_frame_layout() {
    let mut st = TuiRenderState::new();
    let rows = vec![
        row(5, "web", 1, ContainerPhase::Pending, None),
        row(4, "db", 0, ContainerPhase::PullingImage, Some((50, 100))),
    ];
    let merged = MergedLogView {
        entries: vec![
            entry(LogOwner::Container(4), "db", 1, "Pulling db..."),
            entry(LogOwner::System, "[system]", 2, "a very long line that will not fit in the remaining width"),
        ],
    };
    let ops = render_tui(rows.clone(), &merged, 30, 10, &mut st);
    assert!(matches!(ops[0], TermOp::ClearAll));
    assert!(matches!(ops[1], TermOp::SetScrollRegion(4, 10)));
    assert!(matches!(ops[2], TermOp::MoveTo(0, 0)));
    assert!(matches!(ops[3], TermOp::ClearLine));
    assert!(ops.iter().any(|o| matches!(o, TermOp::ProgressBar { downloaded: 50, total: 100, width: 20 })));
    assert!(ops.iter().any(|o| matches!(o, TermOp::MoveTo(0, 2))));
    assert!(ops.iter().any(|o| matches!(o, TermOp::ScrollUp(1))));
    let p = prints(&ops);
    assert_eq!(
        p,
        vec![
            "  db  ".to_string(),
            "Pulling image ".to_string(),
            "  web ".to_string(),
            "Pending       ".to_string(),
            "─".repeat(30),
            "  db ".to_string(),
            " | ".to_string(),
            "Pulling db...".to_string(),
            "  [system]".to_string(),
            " | ".to_string(),
            // 30 columns minus "  " + 3-wide name + " | " leaves 22 bytes.
            "a very long line that ".to_string(),
        ]
    );
    assert!(ops.iter().any(|o| matches!(o, TermOp::SetForeground(TermColor::Cyan))));
    assert!(ops.iter().any(|o| matches!(o, TermOp::SetForeground(TermColor::Green))));
    assert_eq!(st.total_log_lines_rendered, 2);
    assert!(st.initialized);
    // Second identical frame: no clear, no header rows, no log lines.
    let ops = render_tui(rows, &merged, 30, 10, &mut st);
    assert!(!ops.iter().any(|o| matches!(o, TermOp::ClearAll)));
    assert_eq!(prints(&ops), vec!["─".repeat(30)]);
}

#[test]
fn tui_keeps_service_colors() {
    let mut st = TuiRenderState::new();
    let mut merged = MergedLogView {
        entries: vec![entry(LogOwner::Container(1), "a", 1, "x"), entry(LogOwner::Container(2), "b", 2, "y")],
    };
    render_tui(vec![], &merged, 40, 10, &mut st);
    merged.entries.push(entry(LogOwner::Container(1), "a", 3, "z"));
    let ops = render_tui(vec![], &merged, 40, 10, &mut st);
    assert!(ops.iter().any(|o| matches!(o, TermOp::SetForeground(TermColor::Cyan))));
    assert!(!ops.iter().any(|o| matches!(o, TermOp::SetForeground(TermColor::Green))));
    assert_eq!(st.next_color_idx, 2);
}

#[test]
fn tui_second_frame_redraws_nothing() {
    let mut st = TuiRenderState::new();
    let rows = vec![
        row(1, "db", 0, ContainerPhase::Running, None),
        row(2, "api", 1, ContainerPhase::PullingImage, Some((10, 40))),
    ];
    let merged = MergedLogView { entries: vec![entry(LogOwner::Container(1), "db", 1, "ready")] };
    render_tui(rows.clone(), &merged, 24, 8, &mut st);
    let ops = render_tui(rows, &merged, 24, 8, &mut st);
    // Only the scroll region and the separator remain.
    assert_eq!(ops.len(), 5);
    assert!(matches!(ops[0], TermOp::SetScrollRegion(4, 8)));
    assert!(matches!(ops[1], TermOp::MoveTo(0, 2)));
    assert!(matches!(ops[2], TermOp::SetForeground(TermColor::DarkGrey)));
    assert!(matches!(&ops[3], TermOp::Print(s) if *s == "─".repeat(24)));
    assert!(matches!(ops[4], TermOp::ResetColor));
}

#[test]
fn plain_settles_in_two_frames() {
    let mut st = ChangeTracker::new();
    let rows = vec![
        row(1, "db", 0, ContainerPhase::PullingImage, Some((30, 120))),
        row(2, "web", 1, ContainerPhase::Pending, None),
    ];
    // First frame: the phases.
    assert_eq!(
        render_plain(rows.clone(), 2, &mut st),
        vec!["[1/2] db — Pulling image", "[2/2] web — Pending"]
    );
    // Second frame: the percentage left over from the first.
    assert_eq!(render_plain(rows.clone(), 2, &mut st), vec!["[1/2] db — Pulling image (25%)"]);
    // Third frame: nothing.
    assert!(render_plain(rows, 2, &mut st).is_empty());
}

#[test]
fn plain_multiplies_only_for_percentage_lines() {
    let big = u64::MAX / 2;
    let mut st = ChangeTracker::new();
    // A phase line: no percentage, so huge byte counts are fine.
    let rows = vec![row(1, "db", 0, ContainerPhase::PullingImage, Some((big, big)))];
    assert_eq!(render_plain_checked(rows.clone(), 1, &mut st), Some(vec!["[1/1] db — Pulling image".to_string()]));
    // Now the percentage would be computed and overflow: refused, tracker unchanged.
    assert_eq!(render_plain_checked(rows.clone(), 1, &mut st), None);
    assert!(st.last_progress.is_empty());
    assert_eq!(st.last_phase.get(&1), Some(&ContainerPhase::PullingImage));
}
