use vstd::prelude::*;

verus! {

/// One log line; `timestamp` is the time of the push, in nanoseconds on the
/// process's monotonic clock.
#[derive(Debug)]
pub struct LogLine {
    pub timestamp: u64,
    pub text: String,
}

/// The abstract content of a log line.
pub struct LogLineView {
    pub timestamp: u64,
    pub text: Seq<char>,
}

impl View for LogLine {
    type V = LogLineView;

    open spec fn view(&self) -> LogLineView {
        LogLineView { timestamp: self.timestamp, text: self.text@ }
    }
}

impl LogLine {
    /// A copy of the line.
    pub fn copied(&self) -> (r: LogLine)
        ensures
            r == *self,
    {
        LogLine { timestamp: self.timestamp, text: self.text.clone() }
    }
}

/// The log lines of one entity, oldest first.
#[derive(Debug)]
pub struct LogBuffer {
    pub lines: Vec<LogLine>,
}

/// The views of a sequence of log lines.
pub open spec fn line_views(lines: Seq<LogLine>) -> Seq<LogLineView> {
    lines.map_values(|l: LogLine| l@)
}

impl View for LogBuffer {
    type V = Seq<LogLineView>;

    open spec fn view(&self) -> Seq<LogLineView> {
        line_views(self.lines@)
    }
}

impl LogBuffer {
    pub fn new() -> (b: LogBuffer)
        ensures
            b.lines@ == Seq::<LogLine>::empty(),
            b@ == Seq::<LogLineView>::empty(),
    {
        let b = LogBuffer { lines: Vec::new() };
        assert(b@ =~= Seq::<LogLineView>::empty());
        b
    }

    /// Appends a line stamped with `timestamp`.
    pub fn push(&mut self, text: String, timestamp: u64)
        ensures
            final(self).lines@ == old(self).lines@.push(LogLine { timestamp, text }),
            final(self)@ == old(self)@.push(LogLineView { timestamp, text: text@ }),
    {
        let ghost t = text@;
        self.lines.push(LogLine { timestamp, text });
        assert(self@ =~= old(self)@.push(LogLineView { timestamp, text: t }));
    }
}

impl Default for LogBuffer {
    fn default() -> (b: LogBuffer)
        ensures
            b.lines@ == Seq::<LogLine>::empty(),
            b@ == Seq::<LogLineView>::empty(),
    {
        LogBuffer::new()
    }
}

/// Which entity a merged log line came from.
#[derive(PartialEq, Eq, Structural, Clone, Copy, Debug)]
pub enum LogOwner {
    /// The container at this index of the world.
    Container(usize),
    /// The system-wide log entity.
    System,
}

/// A single merged log entry with its source entity and name.
#[derive(Debug)]
pub struct MergedLogEntry {
    pub owner: LogOwner,
    pub name: String,
    pub line: LogLine,
}

/// All log lines from all entities, merged and sorted by timestamp.
#[derive(Debug)]
pub struct MergedLogView {
    pub entries: Vec<MergedLogEntry>,
}

impl Default for MergedLogView {
    fn default() -> (v: MergedLogView)
        ensures
            v.entries@ == Seq::<MergedLogEntry>::empty(),
    {
        MergedLogView { entries: Vec::new() }
    }
}

impl crate::sort::SortKey for MergedLogEntry {
    open spec fn sort_key_spec(&self) -> u64 {
        self.line.timestamp
    }

    fn sort_key(&self) -> (k: u64) {
        self.line.timestamp
    }
}

/// The lines are in time order: no line is stamped earlier than one before it.
pub open spec fn in_time_order(lines: Seq<LogLineView>) -> bool {
    forall|i: int, j: int| 0 <= i <= j < lines.len() ==> lines[i].timestamp <= lines[j].timestamp
}

/// A buffer in time order stays so when a line is pushed with a timestamp no earlier
/// than any it holds, as stamps from a monotonic clock are.
pub proof fn lemma_push_keeps_time_order(lines: Seq<LogLineView>, l: LogLineView)
    requires
        in_time_order(lines),
        forall|i: int| 0 <= i < lines.len() ==> (#[trigger] lines[i]).timestamp <= l.timestamp,
    ensures
        in_time_order(lines.push(l)),
{
    assert forall|i: int, j: int| 0 <= i <= j < lines.push(l).len() implies lines.push(l)[i].timestamp
        <= lines.push(l)[j].timestamp by {
        if j == lines.len() {
            if i < lines.len() {
                assert(lines[i].timestamp <= l.timestamp);
            }
        }
    }
}

} // verus!
