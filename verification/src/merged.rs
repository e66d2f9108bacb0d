use vstd::prelude::*;

use crate::logs::{LogLine, LogOwner, MergedLogEntry, MergedLogView};
use crate::sort::{lemma_stable_sort, sort_by_key, sorted_by_key, stable_sort_by_key, SortKey};
use crate::world::ComposeWorld;

verus! {

/// The entries for the lines of one entity, in the buffer's order.
pub open spec fn entries_of(owner: LogOwner, name: String, lines: Seq<LogLine>) -> Seq<MergedLogEntry> {
    lines.map_values(|l: LogLine| MergedLogEntry { owner, name, line: l })
}

/// The entries of the first `n` containers, container by container.
pub open spec fn container_entries(w: ComposeWorld, n: nat) -> Seq<MergedLogEntry>
    decreases n,
{
    if n == 0 {
        Seq::empty()
    } else {
        container_entries(w, (n - 1) as nat) + entries_of(
            LogOwner::Container((n - 1) as usize),
            w.containers@[n - 1].name,
            w.containers@[n - 1].log.lines@,
        )
    }
}

/// All log lines before merging: the containers' in index order, then the system entity's.
pub open spec fn merge_source(w: ComposeWorld) -> Seq<MergedLogEntry> {
    container_entries(w, w.containers@.len()) + match w.system {
        Some(s) => entries_of(LogOwner::System, s.name, s.log.lines@),
        None => Seq::empty(),
    }
}

/// Appends the entries of one entity's lines.
fn push_entries(out: &mut Vec<MergedLogEntry>, owner: LogOwner, name: &String, lines: &Vec<LogLine>)
    ensures
        final(out)@ == old(out)@ + entries_of(owner, *name, lines@),
{
    let ghost start = out@;
    let mut k: usize = 0;
    while k < lines.len()
        invariant
            k <= lines@.len(),
            out@ == start + entries_of(owner, *name, lines@).take(k as int),
        decreases lines@.len() - k,
    {
        let line = lines[k].copied();
        out.push(MergedLogEntry { owner, name: name.clone(), line });
        k = k + 1;
        assert(out@ =~= start + entries_of(owner, *name, lines@).take(k as int));
    }
    assert(entries_of(owner, *name, lines@).take(lines@.len() as int) =~= entries_of(owner, *name, lines@));
}

/// Rebuilds the merged view: every entity's lines, sorted by timestamp, stably (lines
/// with equal timestamps keep the containers' index order, then the system's).
pub fn build_merged_log_view(world: &ComposeWorld, view: &mut MergedLogView)
    ensures
        final(view).entries@ == stable_sort_by_key(merge_source(*world)),
        sorted_by_key(final(view).entries@),
        final(view).entries@.to_multiset() == merge_source(*world).to_multiset(),
{
    let mut all: Vec<MergedLogEntry> = Vec::new();
    let mut i: usize = 0;
    while i < world.containers.len()
        invariant
            i <= world.containers@.len(),
            all@ == container_entries(*world, i as nat),
        decreases world.containers@.len() - i,
    {
        push_entries(&mut all, LogOwner::Container(i), &world.containers[i].name, &world.containers[i].log.lines);
        i = i + 1;
    }
    match &world.system {
        Some(s) => {
            push_entries(&mut all, LogOwner::System, &s.name, &s.log.lines);
        },
        None => {
            assert(all@ =~= all@ + Seq::<MergedLogEntry>::empty());
        },
    }
    proof {
        lemma_stable_sort(all@);
    }
    view.entries = sort_by_key(all);
}

/// The lines of one entity, with its owner and name, as a merged view reads them.
#[derive(Debug)]
pub struct LogSource {
    pub owner: LogOwner,
    pub name: String,
    pub lines: Vec<LogLine>,
}

/// The entries of the first `n` sources, source by source.
pub open spec fn source_entries(sources: Seq<LogSource>, n: nat) -> Seq<MergedLogEntry>
    decreases n,
{
    if n == 0 {
        Seq::empty()
    } else {
        source_entries(sources, (n - 1) as nat) + entries_of(
            sources[n - 1].owner,
            sources[n - 1].name,
            sources[n - 1].lines@,
        )
    }
}

/// Rebuilds the merged view from the given sources: every line, sorted by timestamp,
/// stably (lines with equal timestamps keep the order of the sources, then of the lines).
pub fn merge_sources(sources: &Vec<LogSource>, view: &mut MergedLogView)
    ensures
        final(view).entries@ == stable_sort_by_key(source_entries(sources@, sources@.len())),
        sorted_by_key(final(view).entries@),
        final(view).entries@.to_multiset() == source_entries(sources@, sources@.len()).to_multiset(),
{
    let mut all: Vec<MergedLogEntry> = Vec::new();
    let mut i: usize = 0;
    while i < sources.len()
        invariant
            i <= sources@.len(),
            all@ == source_entries(sources@, i as nat),
        decreases sources@.len() - i,
    {
        push_entries(&mut all, sources[i].owner, &sources[i].name, &sources[i].lines);
        i = i + 1;
    }
    proof {
        lemma_stable_sort(all@);
    }
    view.entries = sort_by_key(all);
}

/// The merged view lists every line of every entity in time order.
pub proof fn lemma_merged_in_time_order(entries: Seq<MergedLogEntry>)
    ensures
        ({
            let sorted = stable_sort_by_key(entries);
            &&& sorted.to_multiset() == entries.to_multiset()
            &&& forall|i: int, j: int|
                0 <= i <= j < sorted.len() ==> (#[trigger] sorted[i]).line.timestamp <= (
                #[trigger] sorted[j]).line.timestamp
        }),
{
    let sorted = stable_sort_by_key(entries);
    lemma_stable_sort(entries);
    assert forall|i: int, j: int| 0 <= i <= j < sorted.len() implies (#[trigger] sorted[i]).line.timestamp
        <= (#[trigger] sorted[j]).line.timestamp by {
        assert(sorted[i].sort_key_spec() <= sorted[j].sort_key_spec());
    }
}

} // verus!
