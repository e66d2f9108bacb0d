use vstd::prelude::*;

use std::collections::HashMap;
use vstd::string::StringExecFns;

use crate::phase::{phase_label, ContainerPhase};
use crate::sort::{sort_by_key, stable_sort_by_key, SortKey};
use crate::text::{decimal, decimal_string};
use crate::world::DownloadProgress;

verus! {

broadcast use vstd::std_specs::hash::group_hash_axioms;

/// How the client shows the containers.
#[derive(PartialEq, Eq, Structural, Clone, Copy, Debug)]
pub enum RenderMode {
    Plain,
    Tui,
}

/// The explicit mode if one was given; otherwise the full-screen view on a terminal
/// and plain lines elsewhere.
pub fn resolve_render_mode(explicit: Option<RenderMode>, stdout_is_terminal: bool) -> (m: RenderMode)
    ensures
        m == match explicit {
            Some(e) => e,
            None => if stdout_is_terminal {
                RenderMode::Tui
            } else {
                RenderMode::Plain
            },
        },
{
    match explicit {
        Some(e) => e,
        None => if stdout_is_terminal {
            RenderMode::Tui
        } else {
            RenderMode::Plain
        },
    }
}

/// What a renderer reads of one container: its entity, name, start order, phase and
/// download progress, if it has one.
#[derive(Debug, Clone)]
pub struct ContainerRow {
    pub entity: u64,
    pub name: String,
    pub start_order: u32,
    pub phase: ContainerPhase,
    pub progress: Option<DownloadProgress>,
}

impl SortKey for ContainerRow {
    open spec fn sort_key_spec(&self) -> u64 {
        self.start_order as u64
    }

    fn sort_key(&self) -> (k: u64) {
        self.start_order as u64
    }
}

/// What a renderer remembers between frames: the last phase and the last downloaded
/// bytes it showed of each entity.
#[derive(Debug)]
pub struct ChangeTracker {
    pub last_phase: HashMap<u64, ContainerPhase>,
    pub last_progress: HashMap<u64, u64>,
}

impl ChangeTracker {
    pub fn new() -> (t: ChangeTracker)
        ensures
            t.last_phase@ == Map::<u64, ContainerPhase>::empty(),
            t.last_progress@ == Map::<u64, u64>::empty(),
    {
        ChangeTracker { last_phase: HashMap::new(), last_progress: HashMap::new() }
    }
}

/// The phase shown last for `e` is not `p` (or none was shown).
pub open spec fn phase_changed(lp: Map<u64, ContainerPhase>, e: u64, p: ContainerPhase) -> bool {
    !(lp.contains_key(e) && lp[e] == p)
}

/// The bytes shown last for `e`, zero if none.
pub open spec fn last_or_zero(m: Map<u64, u64>, e: u64) -> u64 {
    if m.contains_key(e) {
        m[e]
    } else {
        0
    }
}

/// The row has progress whose downloaded bytes differ from the last shown.
pub open spec fn progress_changed(lpr: Map<u64, u64>, e: u64, prog: Option<DownloadProgress>) -> bool {
    match prog {
        Some(p) => p.downloaded != last_or_zero(lpr, e),
        None => false,
    }
}

/// "[idx/total] name — " of a plain line.
pub open spec fn plain_prefix(idx: nat, total: nat, name: Seq<char>) -> Seq<char> {
    "["@ + decimal(idx) + "/"@ + decimal(total) + "] "@ + name + " — "@
}

/// The line a plain frame prints for a row at display position `idx` (counting from 1),
/// and the tracker after it: a phase change prints the phase and remembers it;
/// otherwise a progress change with a known total prints the percentage and
/// remembers the bytes; otherwise nothing.
pub open spec fn plain_row(
    r: ContainerRow,
    idx: nat,
    total: nat,
    lp: Map<u64, ContainerPhase>,
    lpr: Map<u64, u64>,
) -> (Option<Seq<char>>, Map<u64, ContainerPhase>, Map<u64, u64>) {
    if phase_changed(lp, r.entity, r.phase) {
        (Some(plain_prefix(idx, total, r.name@) + phase_label(r.phase)), lp.insert(r.entity, r.phase), lpr)
    } else if progress_changed(lpr, r.entity, r.progress) && r.progress.unwrap().total > 0 {
        let p = r.progress.unwrap();
        (
            Some(plain_prefix(idx, total, r.name@) + "Pulling image ("@ + decimal(
                (p.downloaded * 100 / (p.total as int)) as nat,
            ) + "%)"@),
            lp,
            lpr.insert(r.entity, p.downloaded),
        )
    } else {
        (None, lp, lpr)
    }
}

/// The lines of a plain frame for the first `k` rows, and the tracker after them.
pub open spec fn plain_frame(
    rows: Seq<ContainerRow>,
    total: nat,
    lp: Map<u64, ContainerPhase>,
    lpr: Map<u64, u64>,
    k: nat,
) -> (Seq<Seq<char>>, Map<u64, ContainerPhase>, Map<u64, u64>)
    decreases k,
{
    if k == 0 {
        (Seq::empty(), lp, lpr)
    } else {
        let prev = plain_frame(rows, total, lp, lpr, (k - 1) as nat);
        let cur = plain_row(rows[k - 1], k, total, prev.1, prev.2);
        (
            match cur.0 {
                Some(l) => prev.0.push(l),
                None => prev.0,
            },
            cur.1,
            cur.2,
        )
    }
}

/// The views of some strings.
pub open spec fn string_views(v: Seq<String>) -> Seq<Seq<char>> {
    v.map_values(|s: String| s@)
}

/// The row's line in a plain frame is a percentage: its phase is the one shown last,
/// its bytes differ from those shown last, and its total is known.
pub open spec fn prints_percentage(r: ContainerRow, lp: Map<u64, ContainerPhase>, lpr: Map<u64, u64>) -> bool {
    &&& !phase_changed(lp, r.entity, r.phase)
    &&& progress_changed(lpr, r.entity, r.progress)
    &&& r.progress.unwrap().total > 0
}

/// Where the row's line is a percentage, its downloaded bytes can be multiplied by 100.
pub open spec fn row_fits(r: ContainerRow, lp: Map<u64, ContainerPhase>, lpr: Map<u64, u64>) -> bool {
    prints_percentage(r, lp, lpr) ==> r.progress.unwrap().downloaded * 100 <= u64::MAX
}

/// Every row that a plain frame over `rows` shows as a percentage, with the tracker as
/// the rows before it left it, has bytes that can be multiplied by 100.
pub open spec fn frame_fits(
    rows: Seq<ContainerRow>,
    total: nat,
    lp: Map<u64, ContainerPhase>,
    lpr: Map<u64, u64>,
) -> bool {
    forall|k: int|
        0 <= k < rows.len() ==> {
            let f = plain_frame(rows, total, lp, lpr, k as nat);
            row_fits(#[trigger] rows[k], f.1, f.2)
        }
}

/// "[idx/total] name — " of a plain line.
fn plain_prefix_string(idx: usize, total: usize, name: &String) -> (s: String)
    ensures
        s@ == plain_prefix(idx as nat, total as nat, name@),
{
    let s = String::from_str("[").concat(decimal_string(idx as u64).as_str()).concat("/").concat(
        decimal_string(total as u64).as_str(),
    ).concat("] ").concat(name.as_str()).concat(" — ");
    s
}

impl ChangeTracker {
    /// The plain frame's line for one row, updating the tracker.
    fn plain_row(&mut self, r: &ContainerRow, idx: usize, total: usize) -> (line: Option<String>)
        requires
            row_fits(*r, old(self).last_phase@, old(self).last_progress@),
        ensures
            ({
                let spec = plain_row(*r, idx as nat, total as nat, old(self).last_phase@, old(self).last_progress@);
                &&& match line {
                    Some(l) => spec.0 == Some(l@),
                    None => spec.0.is_none(),
                }
                &&& final(self).last_phase@ == spec.1
                &&& final(self).last_progress@ == spec.2
            }),
    {
        let changed = match self.last_phase.get(&r.entity) {
            Some(p) => *p != r.phase,
            None => true,
        };
        let prog_changed = match r.progress {
            Some(p) => {
                let last = match self.last_progress.get(&r.entity) {
                    Some(d) => *d,
                    None => 0,
                };
                p.downloaded != last
            },
            None => false,
        };
        if changed {
            let line = plain_prefix_string(idx, total, &r.name).concat(r.phase.label());
            self.last_phase.insert(r.entity, r.phase);
            Some(line)
        } else if prog_changed && r.progress.unwrap().total > 0 {
            let p = r.progress.unwrap();
            let pct = (p.downloaded * 100) / p.total;
            let line = plain_prefix_string(idx, total, &r.name).concat("Pulling image (").concat(
                decimal_string(pct).as_str(),
            ).concat("%)");
            self.last_progress.insert(r.entity, p.downloaded);
            Some(line)
        } else {
            None
        }
    }
}

impl ChangeTracker {
    /// Whether the row's line fits, as `row_fits` says, with this tracker.
    fn row_fits_now(&self, r: &ContainerRow) -> (ok: bool)
        ensures
            ok == row_fits(*r, self.last_phase@, self.last_progress@),
    {
        let changed = match self.last_phase.get(&r.entity) {
            Some(p) => *p != r.phase,
            None => true,
        };
        match r.progress {
            Some(p) => {
                let last = match self.last_progress.get(&r.entity) {
                    Some(d) => *d,
                    None => 0,
                };
                changed || p.downloaded == last || p.total == 0 || p.downloaded.checked_mul(100).is_some()
            },
            None => true,
        }
    }
}

/// Whether a plain frame over the sorted rows, from this tracker, fits.
fn sorted_frame_fits(sorted: &Vec<ContainerRow>, total: usize, state: &ChangeTracker) -> (ok: bool)
    requires
        sorted@.len() < usize::MAX,
    ensures
        ok == frame_fits(sorted@, total as nat, state.last_phase@, state.last_progress@),
{
    let ghost lp0 = state.last_phase@;
    let ghost lpr0 = state.last_progress@;
    let mut t = ChangeTracker { last_phase: state.last_phase.clone(), last_progress: state.last_progress.clone() };
    let mut i: usize = 0;
    while i < sorted.len()
        invariant
            i <= sorted@.len(),
            sorted@.len() < usize::MAX,
            lp0 == state.last_phase@,
            lpr0 == state.last_progress@,
            ({
                let f = plain_frame(sorted@, total as nat, lp0, lpr0, i as nat);
                &&& t.last_phase@ == f.1
                &&& t.last_progress@ == f.2
            }),
            forall|k: int|
                0 <= k < i ==> {
                    let f = plain_frame(sorted@, total as nat, lp0, lpr0, k as nat);
                    row_fits(#[trigger] sorted@[k], f.1, f.2)
                },
        decreases sorted@.len() - i,
    {
        if !t.row_fits_now(&sorted[i]) {
            return false;
        }
        let _ = t.plain_row(&sorted[i], i + 1, total);
        i = i + 1;
    }
    true
}

/// A plain frame over rows already sorted by start order.
fn render_sorted(sorted: Vec<ContainerRow>, total: usize, state: &mut ChangeTracker) -> (lines: Vec<String>)
    requires
        sorted@.len() < usize::MAX,
        frame_fits(sorted@, total as nat, old(state).last_phase@, old(state).last_progress@),
    ensures
        ({
            let f = plain_frame(sorted@, total as nat, old(state).last_phase@, old(state).last_progress@, sorted@.len());
            &&& string_views(lines@) == f.0
            &&& final(state).last_phase@ == f.1
            &&& final(state).last_progress@ == f.2
        }),
{
    let ghost lp0 = state.last_phase@;
    let ghost lpr0 = state.last_progress@;
    let mut lines: Vec<String> = Vec::new();
    let mut i: usize = 0;
    while i < sorted.len()
        invariant
            i <= sorted@.len(),
            sorted@.len() < usize::MAX,
            frame_fits(sorted@, total as nat, lp0, lpr0),
            ({
                let f = plain_frame(sorted@, total as nat, lp0, lpr0, i as nat);
                &&& string_views(lines@) == f.0
                &&& state.last_phase@ == f.1
                &&& state.last_progress@ == f.2
            }),
        decreases sorted@.len() - i,
    {
        assert(row_fits(sorted@[i as int], state.last_phase@, state.last_progress@));
        let line = state.plain_row(&sorted[i], i + 1, total);
        match line {
            Some(l) => {
                lines.push(l);
            },
            None => {},
        }
        i = i + 1;
        assert(string_views(lines@) =~= plain_frame(sorted@, total as nat, lp0, lpr0, i as nat).0);
    }
    lines
}

/// One plain frame: the rows sorted by start order (stably), and for each a line
/// when its phase or download progress changed since it was last shown. `total` is
/// the number of named entities. A percentage is computed only for the rows that
/// show one, and their bytes must then be small enough to multiply by 100.
pub fn render_plain(rows: Vec<ContainerRow>, total: usize, state: &mut ChangeTracker) -> (lines: Vec<String>)
    requires
        rows@.len() < usize::MAX,
        frame_fits(stable_sort_by_key(rows@), total as nat, old(state).last_phase@, old(state).last_progress@),
    ensures
        ({
            let f = plain_frame(
                stable_sort_by_key(rows@),
                total as nat,
                old(state).last_phase@,
                old(state).last_progress@,
                rows@.len(),
            );
            &&& string_views(lines@) == f.0
            &&& final(state).last_phase@ == f.1
            &&& final(state).last_progress@ == f.2
        }),
{
    proof {
        crate::sort::lemma_stable_sort(rows@);
    }
    let sorted = sort_by_key(rows);
    render_sorted(sorted, total, state)
}

/// A plain frame as `render_plain` draws it, or `None`, with the tracker unchanged,
/// where some row's percentage would overflow.
pub fn render_plain_checked(rows: Vec<ContainerRow>, total: usize, state: &mut ChangeTracker) -> (r: Option<
    Vec<String>,
>)
    requires
        rows@.len() < usize::MAX,
    ensures
        ({
            let sorted = stable_sort_by_key(rows@);
            let f = plain_frame(sorted, total as nat, old(state).last_phase@, old(state).last_progress@, rows@.len());
            match r {
                None => {
                    &&& !frame_fits(sorted, total as nat, old(state).last_phase@, old(state).last_progress@)
                    &&& final(state).last_phase@ == old(state).last_phase@
                    &&& final(state).last_progress@ == old(state).last_progress@
                },
                Some(lines) => {
                    &&& frame_fits(sorted, total as nat, old(state).last_phase@, old(state).last_progress@)
                    &&& string_views(lines@) == f.0
                    &&& final(state).last_phase@ == f.1
                    &&& final(state).last_progress@ == f.2
                },
            }
        }),
{
    proof {
        crate::sort::lemma_stable_sort(rows@);
    }
    let sorted = sort_by_key(rows);
    if !sorted_frame_fits(&sorted, total, state) {
        return None;
    }
    Some(render_sorted(sorted, total, state))
}

/// Rows that share an entity are the same row, as with one row per entity.
pub open spec fn rows_consistent(rows: Seq<ContainerRow>) -> bool {
    forall|i: int, j: int|
        0 <= i < rows.len() && 0 <= j < rows.len() && (#[trigger] rows[i]).entity == (#[trigger] rows[j]).entity
            ==> rows[i] == rows[j]
}

/// Sorting keeps rows that share an entity the same.
pub proof fn lemma_sorted_rows_consistent(rows: Seq<ContainerRow>)
    requires
        rows_consistent(rows),
    ensures
        rows_consistent(stable_sort_by_key(rows)),
{
    broadcast use vstd::seq_lib::group_to_multiset_ensures;

    let sorted = stable_sort_by_key(rows);
    crate::sort::lemma_stable_sort(rows);
    assert forall|i: int, j: int|
        0 <= i < sorted.len() && 0 <= j < sorted.len() && (#[trigger] sorted[i]).entity == (
        #[trigger] sorted[j]).entity implies sorted[i] == sorted[j] by {
        assert(sorted.contains(sorted[i]));
        assert(sorted.contains(sorted[j]));
        assert(sorted.to_multiset().count(sorted[i]) > 0);
        assert(sorted.to_multiset().count(sorted[j]) > 0);
        assert(rows.contains(sorted[i]));
        assert(rows.contains(sorted[j]));
        let a = choose|a: int| 0 <= a < rows.len() && rows[a] == sorted[i];
        let b = choose|b: int| 0 <= b < rows.len() && rows[b] == sorted[j];
        assert(rows[a].entity == rows[b].entity);
    }
}

/// The row's phase is the one shown last, and its progress needs no new line: the
/// bytes are those shown last, or the total is unknown.
pub open spec fn plain_settled(r: ContainerRow, lp: Map<u64, ContainerPhase>, lpr: Map<u64, u64>) -> bool {
    &&& !phase_changed(lp, r.entity, r.phase)
    &&& !(progress_changed(lpr, r.entity, r.progress) && r.progress.unwrap().total > 0)
}

proof fn lemma_plain_frame_shows_phases(
    rows: Seq<ContainerRow>,
    total: nat,
    lp: Map<u64, ContainerPhase>,
    lpr: Map<u64, u64>,
    k: nat,
)
    requires
        k <= rows.len(),
        rows_consistent(rows),
    ensures
        ({
            let f = plain_frame(rows, total, lp, lpr, k);
            forall|i: int| 0 <= i < k ==> !phase_changed(f.1, (#[trigger] rows[i]).entity, rows[i].phase)
        }),
    decreases k,
{
    if k > 0 {
        lemma_plain_frame_shows_phases(rows, total, lp, lpr, (k - 1) as nat);
        let f = plain_frame(rows, total, lp, lpr, k);
        assert forall|i: int| 0 <= i < k implies !phase_changed(f.1, (#[trigger] rows[i]).entity, rows[i].phase) by {
            if i < k - 1 && rows[i].entity == rows[k - 1].entity {
                assert(rows[i] == rows[k - 1]);
            }
        }
    }
}

proof fn lemma_plain_frame_settles(
    rows: Seq<ContainerRow>,
    total: nat,
    lp: Map<u64, ContainerPhase>,
    lpr: Map<u64, u64>,
    k: nat,
)
    requires
        k <= rows.len(),
        rows_consistent(rows),
        forall|i: int| 0 <= i < rows.len() ==> !phase_changed(lp, (#[trigger] rows[i]).entity, rows[i].phase),
    ensures
        ({
            let f = plain_frame(rows, total, lp, lpr, k);
            &&& f.1 == lp
            &&& forall|i: int| 0 <= i < k ==> plain_settled(#[trigger] rows[i], f.1, f.2)
        }),
    decreases k,
{
    if k > 0 {
        lemma_plain_frame_settles(rows, total, lp, lpr, (k - 1) as nat);
        let f = plain_frame(rows, total, lp, lpr, k);
        assert(!phase_changed(lp, rows[k - 1].entity, rows[k - 1].phase));
        assert forall|i: int| 0 <= i < k implies plain_settled(#[trigger] rows[i], f.1, f.2) by {
            if i < k - 1 && rows[i].entity == rows[k - 1].entity {
                assert(rows[i] == rows[k - 1]);
            }
        }
    }
}

proof fn lemma_plain_frame_quiet(
    rows: Seq<ContainerRow>,
    total: nat,
    lp: Map<u64, ContainerPhase>,
    lpr: Map<u64, u64>,
    k: nat,
)
    requires
        k <= rows.len(),
        forall|i: int| 0 <= i < k ==> plain_settled(#[trigger] rows[i], lp, lpr),
    ensures
        plain_frame(rows, total, lp, lpr, k) == (Seq::<Seq<char>>::empty(), lp, lpr),
    decreases k,
{
    if k > 0 {
        lemma_plain_frame_quiet(rows, total, lp, lpr, (k - 1) as nat);
        assert(plain_settled(rows[k - 1], lp, lpr));
    }
}

/// The plain renderer settles within two frames: over the same rows, a third frame
/// prints nothing and leaves the tracker as the second left it. (The first frame may
/// print a row's phase and leave its percentage for the second.) This holds when rows
/// that share an entity are the same row.
pub proof fn lemma_plain_settles_in_two_frames(
    rows: Seq<ContainerRow>,
    total: nat,
    lp: Map<u64, ContainerPhase>,
    lpr: Map<u64, u64>,
)
    requires
        rows_consistent(rows),
    ensures
        ({
            let sorted = stable_sort_by_key(rows);
            let n = rows.len();
            let first = plain_frame(sorted, total, lp, lpr, n);
            let second = plain_frame(sorted, total, first.1, first.2, n);
            plain_frame(sorted, total, second.1, second.2, n) == (Seq::<Seq<char>>::empty(), second.1, second.2)
        }),
{
    let sorted = stable_sort_by_key(rows);
    let n = rows.len();
    crate::sort::lemma_stable_sort(rows);
    lemma_sorted_rows_consistent(rows);
    let first = plain_frame(sorted, total, lp, lpr, n);
    lemma_plain_frame_shows_phases(sorted, total, lp, lpr, n);
    lemma_plain_frame_settles(sorted, total, first.1, first.2, n);
    let second = plain_frame(sorted, total, first.1, first.2, n);
    lemma_plain_frame_quiet(sorted, total, second.1, second.2, n);
}

/// The percentage line a plain frame prints for a row: "[idx/total] name — Pulling
/// image (pct%)".
pub open spec fn percentage_line(idx: nat, total: nat, name: Seq<char>, pct: nat) -> Seq<char> {
    plain_prefix(idx, total, name) + "Pulling image ("@ + decimal(pct) + "%)"@
}

/// The line is a percentage line of some row.
pub open spec fn is_percentage_line(l: Seq<char>) -> bool {
    exists|idx: nat, total: nat, name: Seq<char>, pct: nat| #[trigger] percentage_line(idx, total, name, pct) == l
}

proof fn lemma_plain_frame_only_percentages(
    rows: Seq<ContainerRow>,
    total: nat,
    lp: Map<u64, ContainerPhase>,
    lpr: Map<u64, u64>,
    k: nat,
)
    requires
        k <= rows.len(),
        forall|i: int| 0 <= i < rows.len() ==> !phase_changed(lp, (#[trigger] rows[i]).entity, rows[i].phase),
    ensures
        ({
            let f = plain_frame(rows, total, lp, lpr, k);
            &&& f.1 == lp
            &&& f.0.len() <= k
            &&& forall|j: int| 0 <= j < f.0.len() ==> is_percentage_line(#[trigger] f.0[j])
        }),
    decreases k,
{
    if k > 0 {
        lemma_plain_frame_only_percentages(rows, total, lp, lpr, (k - 1) as nat);
        let prev = plain_frame(rows, total, lp, lpr, (k - 1) as nat);
        let r = rows[k - 1];
        assert(!phase_changed(lp, r.entity, r.phase));
        let cur = plain_row(r, k, total, prev.1, prev.2);
        let f = plain_frame(rows, total, lp, lpr, k);
        match cur.0 {
            Some(l) => {
                let p = r.progress.unwrap();
                let pct = (p.downloaded * 100 / (p.total as int)) as nat;
                assert(percentage_line(k, total, r.name@, pct) == l);
                assert forall|j: int| 0 <= j < f.0.len() implies is_percentage_line(#[trigger] f.0[j]) by {
                    if j < prev.0.len() {
                        assert(f.0[j] == prev.0[j]);
                    } else {
                        assert(f.0[j] == l);
                    }
                }
            },
            None => {},
        }
    }
}

/// The second plain frame over the same rows prints no phase line: at most one line per
/// row, each a percentage line, and the phases shown stay as the first frame left them.
/// This holds when rows that share an entity are the same row.
pub proof fn lemma_plain_second_frame_shows_only_percentages(
    rows: Seq<ContainerRow>,
    total: nat,
    lp: Map<u64, ContainerPhase>,
    lpr: Map<u64, u64>,
)
    requires
        rows_consistent(rows),
    ensures
        ({
            let sorted = stable_sort_by_key(rows);
            let n = rows.len();
            let first = plain_frame(sorted, total, lp, lpr, n);
            let second = plain_frame(sorted, total, first.1, first.2, n);
            &&& second.1 == first.1
            &&& second.0.len() <= n
            &&& forall|j: int| 0 <= j < second.0.len() ==> is_percentage_line(#[trigger] second.0[j])
        }),
{
    let sorted = stable_sort_by_key(rows);
    let n = rows.len();
    crate::sort::lemma_stable_sort(rows);
    lemma_sorted_rows_consistent(rows);
    let first = plain_frame(sorted, total, lp, lpr, n);
    lemma_plain_frame_shows_phases(sorted, total, lp, lpr, n);
    lemma_plain_frame_only_percentages(sorted, total, first.1, first.2, n);
}

/// A frame lists its rows by start order: the sorted rows are the same rows, with
/// lower start orders first.
pub proof fn lemma_frame_rows_in_start_order(rows: Seq<ContainerRow>)
    ensures
        ({
            let sorted = stable_sort_by_key(rows);
            &&& sorted.len() == rows.len()
            &&& sorted.to_multiset() == rows.to_multiset()
            &&& forall|i: int, j: int|
                0 <= i <= j < sorted.len() ==> (#[trigger] sorted[i]).start_order <= (#[trigger] sorted[j]).start_order
        }),
{
    let sorted = stable_sort_by_key(rows);
    crate::sort::lemma_stable_sort(rows);
    assert forall|i: int, j: int| 0 <= i <= j < sorted.len() implies (#[trigger] sorted[i]).start_order
        <= (#[trigger] sorted[j]).start_order by {
        assert(sorted[i].sort_key_spec() <= sorted[j].sort_key_spec());
    }
}

/// A row's line in a plain frame: on a phase change, the row's prefix and the phase's
/// label, and the phase is remembered; otherwise, on new bytes with a known total, the
/// prefix and the percentage rounded down (`pct` hundredths of the total are at most
/// the bytes, `pct + 1` are more), and the bytes are remembered; otherwise nothing.
pub proof fn lemma_plain_row_lines(
    r: ContainerRow,
    idx: nat,
    total: nat,
    lp: Map<u64, ContainerPhase>,
    lpr: Map<u64, u64>,
)
    ensures
        ({
            let out = plain_row(r, idx, total, lp, lpr);
            &&& phase_changed(lp, r.entity, r.phase) ==> {
                &&& out.0 == Some(plain_prefix(idx, total, r.name@) + phase_label(r.phase))
                &&& out.1 == lp.insert(r.entity, r.phase)
                &&& out.2 == lpr
            }
            &&& prints_percentage(r, lp, lpr) ==> exists|pct: nat| {
                &&& out.0 == Some(#[trigger] percentage_line(idx, total, r.name@, pct))
                &&& pct * r.progress.unwrap().total <= r.progress.unwrap().downloaded * 100
                &&& r.progress.unwrap().downloaded * 100 < (pct + 1) * r.progress.unwrap().total
                &&& (r.progress.unwrap().downloaded <= r.progress.unwrap().total ==> pct <= 100)
            }
            &&& prints_percentage(r, lp, lpr) ==> out.1 == lp && out.2 == lpr.insert(
                r.entity,
                r.progress.unwrap().downloaded,
            )
            &&& !phase_changed(lp, r.entity, r.phase) && !prints_percentage(r, lp, lpr) ==> out == (
            None::<Seq<char>>,
            lp,
            lpr,
            )
        }),
{
    if prints_percentage(r, lp, lpr) {
        let p = r.progress.unwrap();
        let d = p.downloaded as int;
        let t = p.total as int;
        let pct = (d * 100 / t) as nat;
        assert(pct * t <= d * 100 && d * 100 < (pct + 1) * t) by (nonlinear_arith)
            requires
                t > 0,
                d >= 0,
                pct == d * 100 / t,
        ;
        assert(d <= t ==> pct <= 100) by (nonlinear_arith)
            requires
                t > 0,
                d >= 0,
                pct == d * 100 / t,
        ;
        assert(percentage_line(idx, total, r.name@, pct) == plain_prefix(idx, total, r.name@) + "Pulling image ("@
            + decimal(pct) + "%)"@);
    }
}

} // verus!
