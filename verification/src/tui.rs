use vstd::prelude::*;

use std::collections::HashMap;
use vstd::string::{StringExecFns, StringSliceAdditionalSpecFns};

use crate::logs::{LogOwner, MergedLogEntry, MergedLogView};
use crate::phase::{phase_label, ContainerPhase};
use crate::render::{phase_changed, progress_changed, rows_consistent, ChangeTracker, ContainerRow};
use crate::sort::{sort_by_key, stable_sort_by_key};
use crate::text::{cut_chars, fits_or_cuts_cleanly, pad_right, push_padded, repeat_str, repeated, truncate_bytes};

verus! {

broadcast use vstd::std_specs::hash::group_hash_axioms;

/// A terminal foreground color.
#[derive(PartialEq, Eq, Structural, Clone, Copy, Debug)]
pub enum TermColor {
    Cyan,
    Green,
    Yellow,
    Magenta,
    Blue,
    Red,
    DarkGrey,
}

/// A terminal text attribute.
#[derive(PartialEq, Eq, Structural, Clone, Copy, Debug)]
pub enum TermAttr {
    Bold,
    Reset,
}

/// The service colors, handed out in turn.
pub open spec fn service_color_spec(i: nat) -> TermColor {
    let k = i % 6;
    if k == 0 {
        TermColor::Cyan
    } else if k == 1 {
        TermColor::Green
    } else if k == 2 {
        TermColor::Yellow
    } else if k == 3 {
        TermColor::Magenta
    } else if k == 4 {
        TermColor::Blue
    } else {
        TermColor::Red
    }
}

fn service_color(i: usize) -> (c: TermColor)
    ensures
        c == service_color_spec(i as nat),
{
    let k = i % 6;
    if k == 0 {
        TermColor::Cyan
    } else if k == 1 {
        TermColor::Green
    } else if k == 2 {
        TermColor::Yellow
    } else if k == 3 {
        TermColor::Magenta
    } else if k == 4 {
        TermColor::Blue
    } else {
        TermColor::Red
    }
}

/// The color, and attribute if any, a phase is shown in.
pub open spec fn phase_color_spec(p: ContainerPhase) -> (TermColor, Option<TermAttr>) {
    match p {
        ContainerPhase::Pending => (TermColor::DarkGrey, None),
        ContainerPhase::PullingImage => (TermColor::Yellow, None),
        ContainerPhase::Starting => (TermColor::Cyan, None),
        ContainerPhase::Running => (TermColor::Green, Some(TermAttr::Bold)),
        ContainerPhase::Stopping => (TermColor::Yellow, None),
        ContainerPhase::Stopped => (TermColor::DarkGrey, None),
        ContainerPhase::Failed => (TermColor::Red, Some(TermAttr::Bold)),
    }
}

/// The color, and the attribute if any, that the header shows a phase in.
pub fn phase_color(p: ContainerPhase) -> (r: (TermColor, Option<TermAttr>))
    ensures
        r == phase_color_spec(p),
{
    match p {
        ContainerPhase::Pending => (TermColor::DarkGrey, None),
        ContainerPhase::PullingImage => (TermColor::Yellow, None),
        ContainerPhase::Starting => (TermColor::Cyan, None),
        ContainerPhase::Running => (TermColor::Green, Some(TermAttr::Bold)),
        ContainerPhase::Stopping => (TermColor::Yellow, None),
        ContainerPhase::Stopped => (TermColor::DarkGrey, None),
        ContainerPhase::Failed => (TermColor::Red, Some(TermAttr::Bold)),
    }
}

/// One terminal command of a frame.
#[derive(Debug)]
pub enum TermOp {
    ClearAll,
    ClearLine,
    MoveTo(u16, u16),
    Print(String),
    SetForeground(TermColor),
    SetAttribute(TermAttr),
    ResetColor,
    ScrollUp(u16),
    /// Restrict scrolling to rows `top..=bottom`, counted from 1.
    SetScrollRegion(u16, u16),
    /// A progress bar of `width` cells for `downloaded` out of `total` bytes, after a space.
    ProgressBar { downloaded: u64, total: u64, width: usize },
}

/// The abstract content of a terminal command.
pub enum TermOpView {
    ClearAll,
    ClearLine,
    MoveTo(u16, u16),
    Print(Seq<char>),
    SetForeground(TermColor),
    SetAttribute(TermAttr),
    ResetColor,
    ScrollUp(u16),
    SetScrollRegion(u16, u16),
    ProgressBar { downloaded: u64, total: u64, width: usize },
}

impl View for TermOp {
    type V = TermOpView;

    open spec fn view(&self) -> TermOpView {
        match self {
            TermOp::ClearAll => TermOpView::ClearAll,
            TermOp::ClearLine => TermOpView::ClearLine,
            TermOp::MoveTo(c, r) => TermOpView::MoveTo(*c, *r),
            TermOp::Print(s) => TermOpView::Print(s@),
            TermOp::SetForeground(c) => TermOpView::SetForeground(*c),
            TermOp::SetAttribute(a) => TermOpView::SetAttribute(*a),
            TermOp::ResetColor => TermOpView::ResetColor,
            TermOp::ScrollUp(n) => TermOpView::ScrollUp(*n),
            TermOp::SetScrollRegion(t, b) => TermOpView::SetScrollRegion(*t, *b),
            TermOp::ProgressBar { downloaded, total, width } => TermOpView::ProgressBar {
                downloaded: *downloaded,
                total: *total,
                width: *width,
            },
        }
    }
}

/// The views of some terminal commands.
pub open spec fn op_views(s: Seq<TermOp>) -> Seq<TermOpView> {
    s.map_values(|o: TermOp| o@)
}

/// Width of the progress bar in the header.
pub const BAR_WIDTH: usize = 20;

/// Width of the phase label column in the header.
pub const LABEL_WIDTH: usize = 14;

/// What the full-screen renderer remembers between frames.
#[derive(Debug)]
pub struct TuiRenderState {
    pub tracker: ChangeTracker,
    pub total_log_lines_rendered: usize,
    pub initialized: bool,
    pub service_color_map: HashMap<u64, TermColor>,
    pub system_color: Option<TermColor>,
    pub next_color_idx: usize,
}

/// The colors handed out so far, and the count of them.
pub struct ColorsView {
    pub map: Map<u64, TermColor>,
    pub system: Option<TermColor>,
    pub next: nat,
}

/// The abstract content of the renderer's memory.
pub struct TuiView {
    pub last_phase: Map<u64, ContainerPhase>,
    pub last_progress: Map<u64, u64>,
    pub rendered: nat,
    pub initialized: bool,
    pub colors: ColorsView,
}

impl View for TuiRenderState {
    type V = TuiView;

    open spec fn view(&self) -> TuiView {
        TuiView {
            last_phase: self.tracker.last_phase@,
            last_progress: self.tracker.last_progress@,
            rendered: self.total_log_lines_rendered as nat,
            initialized: self.initialized,
            colors: ColorsView {
                map: self.service_color_map@,
                system: self.system_color,
                next: self.next_color_idx as nat,
            },
        }
    }
}

impl TuiRenderState {
    pub fn new() -> (s: TuiRenderState)
        ensures
            s@.last_phase == Map::<u64, ContainerPhase>::empty(),
            s@.last_progress == Map::<u64, u64>::empty(),
            s@.rendered == 0,
            !s@.initialized,
            s@.colors.map == Map::<u64, TermColor>::empty(),
            s@.colors.system.is_none(),
            s@.colors.next == 0,
    {
        TuiRenderState {
            tracker: ChangeTracker::new(),
            total_log_lines_rendered: 0,
            initialized: false,
            service_color_map: HashMap::new(),
            system_color: None,
            next_color_idx: 0,
        }
    }
}

/// The color of an entity's log lines: the one it was given, or else the next service
/// color, which it keeps from then on.
pub open spec fn color_for_spec(c: ColorsView, owner: LogOwner) -> (TermColor, ColorsView) {
    match owner {
        LogOwner::Container(i) => if c.map.contains_key(i as u64) {
            (c.map[i as u64], c)
        } else {
            let col = service_color_spec(c.next);
            (col, ColorsView { map: c.map.insert(i as u64, col), next: c.next + 1, ..c })
        },
        LogOwner::System => match c.system {
            Some(col) => (col, c),
            None => {
                let col = service_color_spec(c.next);
                (col, ColorsView { system: Some(col), next: c.next + 1, ..c })
            },
        },
    }
}

/// The longest name of the first `k` rows, in bytes.
pub open spec fn max_name_bytes(rows: Seq<ContainerRow>, k: nat) -> nat
    decreases k,
{
    if k == 0 {
        0
    } else {
        let m = max_name_bytes(rows, (k - 1) as nat);
        let b = vstd::utf8::encode_utf8(rows[k - 1].name@).len();
        if b > m {
            b
        } else {
            m
        }
    }
}

/// Width of the name column: the longest name in bytes, 10 when there is no row.
pub open spec fn name_width_spec(rows: Seq<ContainerRow>) -> nat {
    if rows.len() == 0 {
        10
    } else {
        max_name_bytes(rows, rows.len())
    }
}

/// The header commands for a row at screen row `idx`, and the tracker after it: nothing
/// when neither its phase nor its progress changed; otherwise the padded name, the
/// colored padded label and, while pulling, the progress bar.
pub open spec fn header_ops(
    r: ContainerRow,
    idx: int,
    nw: nat,
    lp: Map<u64, ContainerPhase>,
    lpr: Map<u64, u64>,
) -> (Seq<TermOpView>, Map<u64, ContainerPhase>, Map<u64, u64>) {
    if !phase_changed(lp, r.entity, r.phase) && !progress_changed(lpr, r.entity, r.progress) {
        (Seq::empty(), lp, lpr)
    } else {
        let lp2 = lp.insert(r.entity, r.phase);
        let lpr2 = match r.progress {
            Some(p) => lpr.insert(r.entity, p.downloaded),
            None => lpr,
        };
        let (color, attr) = phase_color_spec(r.phase);
        let ops = seq![
            TermOpView::MoveTo(0, idx as u16),
            TermOpView::ClearLine,
            TermOpView::Print("  "@ + pad_right(r.name@, nw) + " "@),
        ] + match attr {
            Some(a) => seq![TermOpView::SetAttribute(a)],
            None => Seq::empty(),
        } + seq![TermOpView::SetForeground(color), TermOpView::Print(pad_right(phase_label(r.phase), 14))]
            + if r.phase == ContainerPhase::PullingImage && r.progress.is_some() {
            seq![
                TermOpView::ResetColor,
                TermOpView::ProgressBar {
                    downloaded: r.progress.unwrap().downloaded,
                    total: r.progress.unwrap().total,
                    width: 20,
                },
            ]
        } else {
            Seq::empty()
        } + seq![TermOpView::ResetColor, TermOpView::SetAttribute(TermAttr::Reset)];
        (ops, lp2, lpr2)
    }
}

/// The header commands of the first `k` rows, and the tracker after them.
pub open spec fn header_frame(
    rows: Seq<ContainerRow>,
    nw: nat,
    lp: Map<u64, ContainerPhase>,
    lpr: Map<u64, u64>,
    k: nat,
) -> (Seq<TermOpView>, Map<u64, ContainerPhase>, Map<u64, u64>)
    decreases k,
{
    if k == 0 {
        (Seq::empty(), lp, lpr)
    } else {
        let prev = header_frame(rows, nw, lp, lpr, (k - 1) as nat);
        let cur = header_ops(rows[k - 1], k - 1, nw, prev.1, prev.2);
        (prev.0 + cur.0, cur.1, cur.2)
    }
}

/// Bytes of log text that fit after the name column on a line of `cols` cells.
pub open spec fn max_text_spec(nw: nat, cols: nat) -> nat {
    if cols >= nw + 5 {
        (cols - (nw + 5)) as nat
    } else {
        0
    }
}

/// The commands that scroll the log region and write one entry on the bottom row.
pub open spec fn log_ops(e: MergedLogEntry, nw: nat, cols: nat, nrows: u16, color: TermColor) -> Seq<TermOpView> {
    seq![
        TermOpView::MoveTo(0, (nrows - 1) as u16),
        TermOpView::ScrollUp(1),
        TermOpView::MoveTo(0, (nrows - 1) as u16),
        TermOpView::ClearLine,
        TermOpView::SetForeground(color),
        TermOpView::Print("  "@ + pad_right(e.name@, nw)),
        TermOpView::ResetColor,
        TermOpView::Print(" | "@),
        TermOpView::Print(cut_chars(e.line.text@, max_text_spec(nw, cols))),
    ]
}

/// The log commands of the entries from `start` to `k`, and the colors after them.
pub open spec fn log_frame(
    entries: Seq<MergedLogEntry>,
    start: nat,
    nw: nat,
    cols: nat,
    nrows: u16,
    c: ColorsView,
    k: nat,
) -> (Seq<TermOpView>, ColorsView)
    decreases k,
{
    if k <= start {
        (Seq::empty(), c)
    } else {
        let prev = log_frame(entries, start, nw, cols, nrows, c, (k - 1) as nat);
        let (color, c2) = color_for_spec(prev.1, entries[k - 1].owner);
        (prev.0 + log_ops(entries[k - 1], nw, cols, nrows, color), c2)
    }
}

/// The scroll region below `n` header rows and the separator, when it fits on a
/// terminal of `nrows` rows.
pub open spec fn scroll_ops(n: nat, nrows: u16) -> Seq<TermOpView> {
    if n + 1 < nrows {
        seq![TermOpView::SetScrollRegion((n + 2) as u16, nrows)]
    } else {
        Seq::empty()
    }
}

/// The separator line under `n` header rows, `cols` cells wide.
pub open spec fn separator_ops(n: nat, cols: u16) -> Seq<TermOpView> {
    seq![
        TermOpView::MoveTo(0, n as u16),
        TermOpView::SetForeground(TermColor::DarkGrey),
        TermOpView::Print(repeated("─"@, cols as nat)),
        TermOpView::ResetColor,
    ]
}

/// A whole frame, and the renderer's memory after it. Nothing is drawn on a terminal
/// smaller than 20 by 4. Otherwise: a full clear on the first frame; the scroll region
/// below the header and separator, when it fits; the header rows that changed, in start
/// order; the separator; every log entry not yet shown.
pub open spec fn tui_frame(
    rows: Seq<ContainerRow>,
    entries: Seq<MergedLogEntry>,
    cols: u16,
    nrows: u16,
    st: TuiView,
) -> (Seq<TermOpView>, TuiView) {
    if nrows < 4 || cols < 20 {
        (Seq::empty(), st)
    } else {
        let sorted = stable_sort_by_key(rows);
        let nw = name_width_spec(rows);
        let init = if !st.initialized {
            seq![TermOpView::ClearAll]
        } else {
            Seq::empty()
        };
        let scroll = scroll_ops(rows.len(), nrows);
        let h = header_frame(sorted, nw, st.last_phase, st.last_progress, sorted.len());
        let separator = separator_ops(rows.len(), cols);
        let l = log_frame(entries, st.rendered, nw, cols as nat, nrows, st.colors, entries.len());
        (
            init + scroll + h.0 + separator + l.0,
            TuiView {
                last_phase: h.1,
                last_progress: h.2,
                rendered: entries.len(),
                initialized: true,
                colors: l.1,
            },
        )
    }
}

/// A terminal of `cols` by `nrows` is large enough to draw on: at least 20 by 4.
pub open spec fn frame_drawn(cols: u16, nrows: u16) -> bool {
    nrows >= 4 && cols >= 20
}

/// Every name is short enough in bytes to size the columns without overflow.
pub open spec fn names_fit(rows: Seq<ContainerRow>) -> bool {
    forall|i: int| 0 <= i < rows.len() ==> vstd::utf8::encode_utf8((#[trigger] rows[i]).name@).len() + 5 <= usize::MAX
}

/// Every entry from `start` on can be cut to `max` bytes on a character boundary.
pub open spec fn texts_cut_cleanly(entries: Seq<MergedLogEntry>, start: nat, max: nat) -> bool {
    forall|k: int|
        start <= k < entries.len() ==> {
            &&& fits_or_cuts_cleanly((#[trigger] entries[k]).line.text@, max)
            &&& vstd::utf8::encode_utf8(entries[k].line.text@).len() <= usize::MAX
        }
}

proof fn lemma_max_name_fits(rows: Seq<ContainerRow>, k: nat)
    requires
        names_fit(rows),
        k <= rows.len(),
    ensures
        max_name_bytes(rows, k) + 5 <= usize::MAX,
    decreases k,
{
    if k > 0 {
        lemma_max_name_fits(rows, (k - 1) as nat);
        assert(vstd::utf8::encode_utf8(rows[k - 1].name@).len() + 5 <= usize::MAX);
    }
}

/// Width of the name column.
fn name_width(rows: &Vec<ContainerRow>) -> (w: usize)
    requires
        names_fit(rows@),
    ensures
        w == name_width_spec(rows@),
        w + 5 <= usize::MAX,
{
    if rows.len() == 0 {
        return 10;
    }
    let mut m: usize = 0;
    let mut i: usize = 0;
    while i < rows.len()
        invariant
            i <= rows@.len(),
            names_fit(rows@),
            m == max_name_bytes(rows@, i as nat),
        decreases rows@.len() - i,
    {
        proof {
            lemma_max_name_fits(rows@, (i + 1) as nat);
        }
        let b = rows[i].name.as_str().len();
        if b > m {
            m = b;
        }
        i = i + 1;
    }
    proof {
        lemma_max_name_fits(rows@, rows@.len());
    }
    m
}

impl TuiRenderState {
    /// The color of an entity's log lines, handing out the next one on first sight.
    fn color_for(&mut self, owner: LogOwner) -> (c: TermColor)
        requires
            old(self).next_color_idx < usize::MAX,
        ensures
            (c, final(self)@.colors) == color_for_spec(old(self)@.colors, owner),
            final(self)@.last_phase == old(self)@.last_phase,
            final(self)@.last_progress == old(self)@.last_progress,
            final(self)@.rendered == old(self)@.rendered,
            final(self)@.initialized == old(self)@.initialized,
    {
        match owner {
            LogOwner::Container(i) => {
                let key = i as u64;
                match self.service_color_map.get(&key) {
                    Some(c) => {
                        return *c;
                    },
                    None => {},
                }
                let c = service_color(self.next_color_idx);
                self.next_color_idx = self.next_color_idx + 1;
                self.service_color_map.insert(key, c);
                c
            },
            LogOwner::System => {
                match self.system_color {
                    Some(c) => c,
                    None => {
                        let c = service_color(self.next_color_idx);
                        self.next_color_idx = self.next_color_idx + 1;
                        self.system_color = Some(c);
                        c
                    },
                }
            },
        }
    }
}

/// Appends the header commands of one row.
fn push_header_row(ops: &mut Vec<TermOp>, tracker: &mut ChangeTracker, r: &ContainerRow, idx: usize, nw: usize)
    ensures
        ({
            let h = header_ops(*r, idx as int, nw as nat, old(tracker).last_phase@, old(tracker).last_progress@);
            &&& op_views(final(ops)@) == op_views(old(ops)@) + h.0
            &&& final(tracker).last_phase@ == h.1
            &&& final(tracker).last_progress@ == h.2
        }),
{
    let changed = match tracker.last_phase.get(&r.entity) {
        Some(p) => *p != r.phase,
        None => true,
    };
    let prog_changed = match r.progress {
        Some(p) => {
            let last = match tracker.last_progress.get(&r.entity) {
                Some(d) => *d,
                None => 0,
            };
            p.downloaded != last
        },
        None => false,
    };
    if !changed && !prog_changed {
        assert(op_views(ops@) =~= op_views(old(ops)@) + Seq::<TermOpView>::empty());
        return ;
    }
    tracker.last_phase.insert(r.entity, r.phase);
    match r.progress {
        Some(p) => {
            tracker.last_progress.insert(r.entity, p.downloaded);
        },
        None => {},
    }
    let ghost start = op_views(ops@);
    let (color, attr) = phase_color(r.phase);
    ops.push(TermOp::MoveTo(0, idx as u16));
    ops.push(TermOp::ClearLine);
    let mut name_cell = String::from_str("  ");
    push_padded(&mut name_cell, r.name.as_str(), nw);
    name_cell.append(" ");
    ops.push(TermOp::Print(name_cell));
    let ghost after_name = op_views(ops@);
    match attr {
        Some(a) => {
            ops.push(TermOp::SetAttribute(a));
        },
        None => {},
    }
    let ghost after_attr = op_views(ops@);
    ops.push(TermOp::SetForeground(color));
    let mut label = String::new();
    push_padded(&mut label, r.phase.label(), LABEL_WIDTH);
    ops.push(TermOp::Print(label));
    let ghost after_label = op_views(ops@);
    if r.phase == ContainerPhase::PullingImage && r.progress.is_some() {
        let p = r.progress.unwrap();
        ops.push(TermOp::ResetColor);
        ops.push(TermOp::ProgressBar { downloaded: p.downloaded, total: p.total, width: BAR_WIDTH });
    }
    let ghost after_bar = op_views(ops@);
    ops.push(TermOp::ResetColor);
    ops.push(TermOp::SetAttribute(TermAttr::Reset));
    proof {
        let h = header_ops(*r, idx as int, nw as nat, old(tracker).last_phase@, old(tracker).last_progress@);
        assert(Seq::<char>::empty() + pad_right(phase_label(r.phase), 14) =~= pad_right(phase_label(r.phase), 14));
        assert(after_name =~= start + seq![
            TermOpView::MoveTo(0, idx as u16),
            TermOpView::ClearLine,
            TermOpView::Print("  "@ + pad_right(r.name@, nw as nat) + " "@),
        ]);
        assert(op_views(ops@) =~= op_views(old(ops)@) + h.0);
    }
}

/// Appends the commands for one log entry.
fn push_log_entry(
    ops: &mut Vec<TermOp>,
    state: &mut TuiRenderState,
    e: &MergedLogEntry,
    nw: usize,
    cols: usize,
    nrows: u16,
)
    requires
        old(state).next_color_idx < usize::MAX,
        nrows >= 1,
        nw + 5 <= usize::MAX,
        fits_or_cuts_cleanly(e.line.text@, max_text_spec(nw as nat, cols as nat)),
        vstd::utf8::encode_utf8(e.line.text@).len() <= usize::MAX,
    ensures
        ({
            let (color, c2) = color_for_spec(old(state)@.colors, e.owner);
            &&& op_views(final(ops)@) == op_views(old(ops)@) + log_ops(*e, nw as nat, cols as nat, nrows, color)
            &&& final(state)@ == (TuiView { colors: c2, ..old(state)@ })
        }),
{
    let ghost start = op_views(ops@);
    ops.push(TermOp::MoveTo(0, nrows - 1));
    ops.push(TermOp::ScrollUp(1));
    ops.push(TermOp::MoveTo(0, nrows - 1));
    ops.push(TermOp::ClearLine);
    let color = state.color_for(e.owner);
    ops.push(TermOp::SetForeground(color));
    let mut name_cell = String::from_str("  ");
    push_padded(&mut name_cell, e.name.as_str(), nw);
    ops.push(TermOp::Print(name_cell));
    ops.push(TermOp::ResetColor);
    ops.push(TermOp::Print(String::from_str(" | ")));
    let prefix_len = 2 + nw + 3;
    let max_text = cols.saturating_sub(prefix_len);
    let text = truncate_bytes(e.line.text.as_str(), max_text);
    ops.push(TermOp::Print(String::from_str(text)));
    proof {
        assert(max_text == max_text_spec(nw as nat, cols as nat));
        assert(op_views(ops@) =~= start + log_ops(*e, nw as nat, cols as nat, nrows, color));
    }
}

/// One full-screen frame: the terminal commands to draw, and the renderer's memory
/// updated, as `tui_frame` says.
pub fn render_tui(
    rows: Vec<ContainerRow>,
    merged: &MergedLogView,
    cols: u16,
    nrows: u16,
    state: &mut TuiRenderState,
) -> (ops: Vec<TermOp>)
    requires
        frame_drawn(cols, nrows) ==> {
            &&& rows@.len() < usize::MAX
            &&& names_fit(rows@)
            &&& old(state).total_log_lines_rendered <= merged.entries@.len()
            &&& old(state).next_color_idx + merged.entries@.len() < usize::MAX
            &&& texts_cut_cleanly(
                merged.entries@,
                old(state).total_log_lines_rendered as nat,
                max_text_spec(name_width_spec(rows@), cols as nat),
            )
        },
    ensures
        ({
            let f = tui_frame(rows@, merged.entries@, cols, nrows, old(state)@);
            &&& op_views(ops@) == f.0
            &&& final(state)@ == f.1
        }),
{
    let mut ops: Vec<TermOp> = Vec::new();
    if nrows < 4 || cols < 20 {
        assert(op_views(ops@) =~= Seq::<TermOpView>::empty());
        return ops;
    }
    let c = cols as usize;
    let nw = name_width(&rows);
    let ghost orig = rows@;
    let sorted = sort_by_key(rows);
    proof {
        crate::sort::lemma_stable_sort(orig);
    }
    let header_rows = sorted.len();
    let separator_row = header_rows;
    let log_start_row = separator_row + 1;
    if !state.initialized {
        ops.push(TermOp::ClearAll);
        state.initialized = true;
    }
    if log_start_row < nrows as usize {
        ops.push(TermOp::SetScrollRegion((log_start_row + 1) as u16, nrows));
    }
    let ghost pre_header = op_views(ops@);
    let ghost lp0 = state.tracker.last_phase@;
    let ghost lpr0 = state.tracker.last_progress@;
    let mut i: usize = 0;
    while i < sorted.len()
        invariant
            i <= sorted@.len(),
            sorted@.len() == orig.len(),
            ({
                let h = header_frame(sorted@, nw as nat, lp0, lpr0, i as nat);
                &&& op_views(ops@) == pre_header + h.0
                &&& state.tracker.last_phase@ == h.1
                &&& state.tracker.last_progress@ == h.2
            }),
            state.total_log_lines_rendered == old(state).total_log_lines_rendered,
            state.initialized,
            state.service_color_map@ == old(state).service_color_map@,
            state.system_color == old(state).system_color,
            state.next_color_idx == old(state).next_color_idx,
        decreases sorted@.len() - i,
    {
        push_header_row(&mut ops, &mut state.tracker, &sorted[i], i, nw);
        i = i + 1;
    }
    ops.push(TermOp::MoveTo(0, separator_row as u16));
    ops.push(TermOp::SetForeground(TermColor::DarkGrey));
    ops.push(TermOp::Print(repeat_str("─", c)));
    ops.push(TermOp::ResetColor);
    let ghost pre_logs = op_views(ops@);
    let ghost st_mid = state@;
    let start = state.total_log_lines_rendered;
    let mut k: usize = start;
    while k < merged.entries.len()
        invariant
            start <= k <= merged.entries@.len(),
            start == old(state).total_log_lines_rendered,
            nrows >= 4,
            nw + 5 <= usize::MAX,
            nw == name_width_spec(orig),
            c == cols as usize,
            state.next_color_idx <= old(state).next_color_idx + (k - start),
            old(state).next_color_idx + merged.entries@.len() < usize::MAX,
            texts_cut_cleanly(merged.entries@, start as nat, max_text_spec(nw as nat, cols as nat)),
            ({
                let l = log_frame(merged.entries@, start as nat, nw as nat, c as nat, nrows, st_mid.colors, k as nat);
                &&& op_views(ops@) == pre_logs + l.0
                &&& state@ == (TuiView { colors: l.1, ..st_mid })
            }),
        decreases merged.entries@.len() - k,
    {
        push_log_entry(&mut ops, state, &merged.entries[k], nw, c, nrows);
        k = k + 1;
    }
    state.total_log_lines_rendered = merged.entries.len();
    proof {
        let f = tui_frame(orig, merged.entries@, cols, nrows, old(state)@);
        let sorted_spec = stable_sort_by_key(orig);
        assert(sorted@ == sorted_spec);
        let init = if !old(state)@.initialized {
            seq![TermOpView::ClearAll]
        } else {
            Seq::empty()
        };
        let scroll = if orig.len() + 1 < nrows {
            seq![TermOpView::SetScrollRegion((orig.len() + 1 + 1) as u16, nrows)]
        } else {
            Seq::empty()
        };
        assert(pre_header =~= init + scroll);
        let h = header_frame(sorted_spec, nw as nat, old(state)@.last_phase, old(state)@.last_progress, sorted_spec.len());
        let separator = seq![
            TermOpView::MoveTo(0, orig.len() as u16),
            TermOpView::SetForeground(TermColor::DarkGrey),
            TermOpView::Print(repeated("─"@, cols as nat)),
            TermOpView::ResetColor,
        ];
        assert(pre_logs =~= pre_header + h.0 + separator);
        assert(st_mid.colors == old(state)@.colors);
        let l = log_frame(merged.entries@, old(state)@.rendered, nw as nat, cols as nat, nrows, old(state)@.colors, merged.entries@.len());
        assert(op_views(ops@) == pre_logs + l.0);
        assert(op_views(ops@) =~= f.0);
    }
    ops
}


/// Neither the phase nor the progress of `r` differs from what the tracker shows.
pub open spec fn row_settled(r: ContainerRow, lp: Map<u64, ContainerPhase>, lpr: Map<u64, u64>) -> bool {
    !phase_changed(lp, r.entity, r.phase) && !progress_changed(lpr, r.entity, r.progress)
}

proof fn lemma_header_ops_settles(
    r: ContainerRow,
    other: ContainerRow,
    idx: int,
    nw: nat,
    lp: Map<u64, ContainerPhase>,
    lpr: Map<u64, u64>,
)
    requires
        other == r || (other.entity != r.entity && row_settled(other, lp, lpr)),
    ensures
        ({
            let h = header_ops(r, idx, nw, lp, lpr);
            row_settled(other, h.1, h.2)
        }),
{
}

proof fn lemma_header_frame_settles(
    rows: Seq<ContainerRow>,
    nw: nat,
    lp: Map<u64, ContainerPhase>,
    lpr: Map<u64, u64>,
    k: nat,
)
    requires
        k <= rows.len(),
        rows_consistent(rows),
    ensures
        ({
            let h = header_frame(rows, nw, lp, lpr, k);
            forall|i: int| 0 <= i < k ==> row_settled(#[trigger] rows[i], h.1, h.2)
        }),
    decreases k,
{
    if k > 0 {
        lemma_header_frame_settles(rows, nw, lp, lpr, (k - 1) as nat);
        let prev = header_frame(rows, nw, lp, lpr, (k - 1) as nat);
        let h = header_frame(rows, nw, lp, lpr, k);
        assert forall|i: int| 0 <= i < k implies row_settled(#[trigger] rows[i], h.1, h.2) by {
            if i == k - 1 {
                lemma_header_ops_settles(rows[k - 1], rows[k - 1], k - 1, nw, prev.1, prev.2);
            } else {
                if rows[i].entity == rows[k - 1].entity {
                    assert(rows[i] == rows[k - 1]);
                }
                lemma_header_ops_settles(rows[k - 1], rows[i], k - 1, nw, prev.1, prev.2);
            }
        }
    }
}

proof fn lemma_header_frame_quiet(
    rows: Seq<ContainerRow>,
    nw: nat,
    lp: Map<u64, ContainerPhase>,
    lpr: Map<u64, u64>,
    k: nat,
)
    requires
        k <= rows.len(),
        forall|i: int| 0 <= i < k ==> row_settled(#[trigger] rows[i], lp, lpr),
    ensures
        header_frame(rows, nw, lp, lpr, k) == (Seq::<TermOpView>::empty(), lp, lpr),
    decreases k,
{
    if k > 0 {
        lemma_header_frame_quiet(rows, nw, lp, lpr, (k - 1) as nat);
        assert(row_settled(rows[k - 1], lp, lpr));
        assert(Seq::<TermOpView>::empty() + Seq::<TermOpView>::empty() =~= Seq::<TermOpView>::empty());
    }
}

/// A second frame over the same rows, log and terminal size redraws nothing that the
/// first one drew: no clear, no header row and no log line, only the scroll region and
/// the separator; and the renderer's memory stays as the first frame left it. This
/// holds when rows that share an entity are the same row.
pub proof fn lemma_second_frame_redraws_nothing(
    rows: Seq<ContainerRow>,
    entries: Seq<MergedLogEntry>,
    cols: u16,
    nrows: u16,
    st: TuiView,
)
    requires
        rows_consistent(rows),
    ensures
        ({
            let first = tui_frame(rows, entries, cols, nrows, st);
            let second = tui_frame(rows, entries, cols, nrows, first.1);
            &&& second.1 == first.1
            &&& second.0 == if nrows < 4 || cols < 20 {
                Seq::<TermOpView>::empty()
            } else {
                scroll_ops(rows.len(), nrows) + separator_ops(rows.len(), cols)
            }
        }),
{
    if !(nrows < 4 || cols < 20) {
        let sorted = stable_sort_by_key(rows);
        let nw = name_width_spec(rows);
        crate::sort::lemma_stable_sort(rows);
        crate::render::lemma_sorted_rows_consistent(rows);
        let h = header_frame(sorted, nw, st.last_phase, st.last_progress, sorted.len());
        lemma_header_frame_settles(sorted, nw, st.last_phase, st.last_progress, sorted.len());
        lemma_header_frame_quiet(sorted, nw, h.1, h.2, sorted.len());
        let first = tui_frame(rows, entries, cols, nrows, st);
        let l2 = log_frame(entries, entries.len(), nw, cols as nat, nrows, first.1.colors, entries.len());
        assert(l2 == (Seq::<TermOpView>::empty(), first.1.colors));
        let second = tui_frame(rows, entries, cols, nrows, first.1);
        assert(second.0 =~= scroll_ops(rows.len(), nrows) + separator_ops(rows.len(), cols));
    }
}

/// An entity keeps its log color: asking again for the same owner gives the color it
/// was given and changes nothing.
pub proof fn lemma_color_for_stable(c: ColorsView, owner: LogOwner)
    ensures
        ({
            let first = color_for_spec(c, owner);
            color_for_spec(first.1, owner) == first
        }),
{
}

/// A header row is drawn on its own screen line: when its phase or progress changed,
/// its commands move to column 0 of line `idx`, clear that line and print the padded
/// name first, and end by resetting the color and the attributes; when nothing
/// changed, it draws nothing. No other command of a row moves the cursor.
pub proof fn lemma_header_row_layout(
    r: ContainerRow,
    idx: int,
    nw: nat,
    lp: Map<u64, ContainerPhase>,
    lpr: Map<u64, u64>,
)
    ensures
        ({
            let ops = header_ops(r, idx, nw, lp, lpr).0;
            &&& (ops.len() == 0 <==> !phase_changed(lp, r.entity, r.phase) && !progress_changed(lpr, r.entity, r.progress))
            &&& ops.len() > 0 ==> {
                &&& ops.len() >= 7
                &&& ops[0] == TermOpView::MoveTo(0, idx as u16)
                &&& ops[1] == TermOpView::ClearLine
                &&& ops[2] == TermOpView::Print("  "@ + pad_right(r.name@, nw) + " "@)
                &&& ops[ops.len() - 2] == TermOpView::ResetColor
                &&& ops[ops.len() - 1] == TermOpView::SetAttribute(TermAttr::Reset)
                &&& forall|j: int| 0 < j < ops.len() ==> !((#[trigger] ops[j]) is MoveTo)
            }
        }),
{
    let ops = header_ops(r, idx, nw, lp, lpr).0;
    if ops.len() > 0 {
        let (color, attr) = phase_color_spec(r.phase);
        let a = seq![
            TermOpView::MoveTo(0, idx as u16),
            TermOpView::ClearLine,
            TermOpView::Print("  "@ + pad_right(r.name@, nw) + " "@),
        ];
        let b: Seq<TermOpView> = match attr {
            Some(x) => seq![TermOpView::SetAttribute(x)],
            None => Seq::empty(),
        };
        let c = seq![TermOpView::SetForeground(color), TermOpView::Print(pad_right(phase_label(r.phase), 14))];
        let d: Seq<TermOpView> = if r.phase == ContainerPhase::PullingImage && r.progress.is_some() {
            seq![
                TermOpView::ResetColor,
                TermOpView::ProgressBar {
                    downloaded: r.progress.unwrap().downloaded,
                    total: r.progress.unwrap().total,
                    width: 20,
                },
            ]
        } else {
            Seq::empty()
        };
        let e = seq![TermOpView::ResetColor, TermOpView::SetAttribute(TermAttr::Reset)];
        assert(ops == a + b + c + d + e);
        assert forall|j: int| 0 < j < ops.len() implies !((#[trigger] ops[j]) is MoveTo) by {
            if j < 3 {
            } else if j < 3 + b.len() {
                assert(ops[j] == b[j - 3]);
            } else if j < 5 + b.len() {
                assert(ops[j] == c[j - 3 - b.len()]);
            } else if j < 5 + b.len() + d.len() {
                assert(ops[j] == d[j - 5 - b.len()]);
            } else {
                assert(ops[j] == e[j - 5 - b.len() - d.len()]);
            }
        }
    }
}

/// The header of the first `k` rows moves the cursor only to column 0 of lines below
/// `k`: each row is drawn on the line of its position.
pub proof fn lemma_header_frame_lines(
    rows: Seq<ContainerRow>,
    nw: nat,
    lp: Map<u64, ContainerPhase>,
    lpr: Map<u64, u64>,
    k: nat,
)
    requires
        k <= rows.len(),
        k <= 65536,
    ensures
        ({
            let ops = header_frame(rows, nw, lp, lpr, k).0;
            forall|j: int| 0 <= j < ops.len() && (#[trigger] ops[j]) is MoveTo ==> ops[j]->MoveTo_0 == 0
                && ops[j]->MoveTo_1 < k
        }),
    decreases k,
{
    if k > 0 {
        lemma_header_frame_lines(rows, nw, lp, lpr, (k - 1) as nat);
        let prev = header_frame(rows, nw, lp, lpr, (k - 1) as nat);
        let cur = header_ops(rows[k - 1], k - 1, nw, prev.1, prev.2);
        lemma_header_row_layout(rows[k - 1], k - 1, nw, prev.1, prev.2);
        let ops = header_frame(rows, nw, lp, lpr, k).0;
        assert(ops == prev.0 + cur.0);
        assert forall|j: int| 0 <= j < ops.len() && (#[trigger] ops[j]) is MoveTo implies ops[j]->MoveTo_0 == 0
            && ops[j]->MoveTo_1 < k by {
            if j < prev.0.len() {
                assert(ops[j] == prev.0[j]);
            } else {
                assert(ops[j] == cur.0[j - prev.0.len()]);
                assert((k - 1) as u16 == k - 1);
            }
        }
    }
}

/// A log entry is written on the bottom line of the screen after scrolling the log
/// region up by one: move to column 0 of the last line, scroll, move there again,
/// clear it, then the colored name, the separator and the text, whole when it fits.
pub proof fn lemma_log_entry_layout(e: MergedLogEntry, nw: nat, cols: nat, nrows: u16, color: TermColor)
    requires
        nrows >= 1,
    ensures
        ({
            let ops = log_ops(e, nw, cols, nrows, color);
            &&& ops.len() == 9
            &&& ops[0] == TermOpView::MoveTo(0, (nrows - 1) as u16)
            &&& ops[1] == TermOpView::ScrollUp(1)
            &&& ops[2] == TermOpView::MoveTo(0, (nrows - 1) as u16)
            &&& ops[3] == TermOpView::ClearLine
            &&& ops[4] == TermOpView::SetForeground(color)
            &&& ops[7] == TermOpView::Print(" | "@)
            &&& vstd::utf8::encode_utf8(e.line.text@).len() <= max_text_spec(nw, cols) ==> ops[8]
                == TermOpView::Print(e.line.text@)
        }),
{
}

/// The service colors repeat every six, the six are all different, and none is the
/// separator's grey.
pub proof fn lemma_service_colors_cycle(i: nat, j: nat)
    ensures
        service_color_spec(i) == service_color_spec(i + 6),
        i < j < i + 6 ==> service_color_spec(i) != service_color_spec(j),
        service_color_spec(i) != TermColor::DarkGrey,
{
    assert((i + 6) % 6 == i % 6) by (nonlinear_arith);
    if i < j < i + 6 {
        assert(i % 6 != j % 6) by (nonlinear_arith)
            requires
                i < j < i + 6,
        ;
    }
}

/// A new owner gets the next service color in turn and the count moves on by one; an
/// owner that has one keeps it.
pub proof fn lemma_color_for_assigns_in_turn(c: ColorsView, i: usize)
    ensures
        ({
            let (col, c2) = color_for_spec(c, LogOwner::Container(i));
            &&& c.map.contains_key(i as u64) ==> col == c.map[i as u64] && c2 == c
            &&& !c.map.contains_key(i as u64) ==> {
                &&& col == service_color_spec(c.next)
                &&& c2.next == c.next + 1
                &&& c2.map == c.map.insert(i as u64, col)
            }
        }),
{
}

/// The log region lies below the header and the separator: with `n` header rows, the
/// separator is drawn on line `n`, and the scroll region, when the screen has room for
/// it, starts on the line after (line `n + 2`, counting from 1) and ends at the bottom.
pub proof fn lemma_log_region_below_separator(n: nat, cols: u16, nrows: u16)
    requires
        n + 2 <= u16::MAX,
    ensures
        separator_ops(n, cols)[0] == TermOpView::MoveTo(0, n as u16),
        separator_ops(n, cols)[2] == TermOpView::Print(repeated("─"@, cols as nat)),
        n + 1 < nrows ==> scroll_ops(n, nrows) == seq![TermOpView::SetScrollRegion((n + 2) as u16, nrows)],
        n + 1 >= nrows ==> scroll_ops(n, nrows).len() == 0,
{
}

/// Only the first drawn frame clears the whole screen: it starts with the clear, and a
/// frame drawn after it does not clear.
pub proof fn lemma_first_frame_clears(
    rows: Seq<ContainerRow>,
    entries: Seq<MergedLogEntry>,
    cols: u16,
    nrows: u16,
    st: TuiView,
)
    ensures
        ({
            let f = tui_frame(rows, entries, cols, nrows, st);
            &&& frame_drawn(cols, nrows) && !st.initialized ==> f.0[0] == TermOpView::ClearAll && f.1.initialized
            &&& frame_drawn(cols, nrows) && st.initialized ==> f.0.len() == 0 || f.0[0] != TermOpView::ClearAll
            &&& !frame_drawn(cols, nrows) ==> f.0.len() == 0 && f.1 == st
        }),
{
    if frame_drawn(cols, nrows) {
        let f = tui_frame(rows, entries, cols, nrows, st);
        let sorted = stable_sort_by_key(rows);
        let nw = name_width_spec(rows);
        let h = header_frame(sorted, nw, st.last_phase, st.last_progress, sorted.len());
        let l = log_frame(entries, st.rendered, nw, cols as nat, nrows, st.colors, entries.len());
        let init: Seq<TermOpView> = if !st.initialized {
            seq![TermOpView::ClearAll]
        } else {
            Seq::empty()
        };
        let rest = scroll_ops(rows.len(), nrows) + h.0 + separator_ops(rows.len(), cols) + l.0;
        assert(f.0 == init + rest);
        if !st.initialized {
            assert(f.0[0] == init[0]);
        } else {
            assert(f.0 =~= rest);
            if rows.len() + 1 < nrows {
                assert(f.0[0] == scroll_ops(rows.len(), nrows)[0]);
            } else {
                crate::sort::lemma_stable_sort(rows);
                if h.0.len() > 0 {
                    assert(f.0[0] == h.0[0]);
                    lemma_header_frame_first(sorted, nw, st.last_phase, st.last_progress, sorted.len());
                } else {
                    assert(f.0[0] == separator_ops(rows.len(), cols)[0]);
                }
            }
        }
    }
}

proof fn lemma_header_frame_first(
    rows: Seq<ContainerRow>,
    nw: nat,
    lp: Map<u64, ContainerPhase>,
    lpr: Map<u64, u64>,
    k: nat,
)
    requires
        k <= rows.len(),
    ensures
        ({
            let ops = header_frame(rows, nw, lp, lpr, k).0;
            ops.len() > 0 ==> ops[0] is MoveTo
        }),
    decreases k,
{
    if k > 0 {
        lemma_header_frame_first(rows, nw, lp, lpr, (k - 1) as nat);
        let prev = header_frame(rows, nw, lp, lpr, (k - 1) as nat);
        let cur = header_ops(rows[k - 1], k - 1, nw, prev.1, prev.2);
        lemma_header_row_layout(rows[k - 1], k - 1, nw, prev.1, prev.2);
        let ops = header_frame(rows, nw, lp, lpr, k).0;
        assert(ops == prev.0 + cur.0);
        if prev.0.len() > 0 {
            assert(ops[0] == prev.0[0]);
        } else if cur.0.len() > 0 {
            assert(ops[0] == cur.0[0]);
        }
    }
}

} // verus!
