use vstd::prelude::*;

use std::collections::HashMap;

use crate::logs::LogLine;

verus! {

broadcast use vstd::std_specs::hash::group_hash_axioms;

/// The flags the main loop reads after handling one event.
#[derive(PartialEq, Eq, Structural, Clone, Copy, Debug)]
pub struct CycleFlags {
    /// An immediate update was requested.
    pub needs_wake: bool,
    /// A rate-limited update was requested.
    pub needs_tick: bool,
    /// The application asked to exit.
    pub exit: bool,
}

/// What the main loop does after handling one event.
#[derive(PartialEq, Eq, Structural, Clone, Copy, Debug)]
pub struct CycleOutcome {
    /// Reset the wake request.
    pub clear_wake: bool,
    /// Reset the tick request.
    pub clear_tick: bool,
    /// Whether the next frame-rate tick runs an update.
    pub tick_pending: bool,
    /// Leave the loop.
    pub stop: bool,
}

/// The main loop's decision after one event: a wake request is consumed and cancels a
/// pending tick, so that the next cycle starts at once; else a tick request is consumed
/// and arms the next tick. Either way the loop checks for exit after every cycle and
/// ends when exit was requested.
pub fn after_cycle(flags: CycleFlags, tick_pending: bool) -> (o: CycleOutcome)
    ensures
        flags.needs_wake ==> o == (CycleOutcome {
            clear_wake: true,
            clear_tick: false,
            tick_pending: false,
            stop: flags.exit,
        }),
        !flags.needs_wake ==> o == (CycleOutcome {
            clear_wake: false,
            clear_tick: flags.needs_tick,
            tick_pending: tick_pending || flags.needs_tick,
            stop: flags.exit,
        }),
{
    if flags.needs_wake {
        return CycleOutcome { clear_wake: true, clear_tick: false, tick_pending: false, stop: flags.exit };
    }
    let mut pending = tick_pending;
    let mut clear_tick = false;
    if flags.needs_tick {
        clear_tick = true;
        pending = true;
    }
    CycleOutcome { clear_wake: false, clear_tick, tick_pending: pending, stop: flags.exit }
}

/// The texts of some log lines.
pub open spec fn line_texts(lines: Seq<LogLine>) -> Seq<Seq<char>> {
    lines.map_values(|l: LogLine| l.text@)
}

/// Lines already forwarded for `e`, zero if none.
pub open spec fn forwarded_count(m: Map<u64, usize>, e: u64) -> nat {
    if m.contains_key(e) {
        m[e] as nat
    } else {
        0
    }
}

/// How many log lines of each entity have been broadcast to clients.
#[derive(Debug)]
pub struct LogForwarder {
    pub sent_counts: HashMap<u64, usize>,
}

impl LogForwarder {
    pub fn new() -> (f: LogForwarder)
        ensures
            f.sent_counts@ == Map::<u64, usize>::empty(),
    {
        LogForwarder { sent_counts: HashMap::new() }
    }

    /// The texts of the lines of `entity` not broadcast yet; from now on all of its
    /// lines count as broadcast.
    pub fn take_unsent(&mut self, entity: u64, lines: &Vec<LogLine>) -> (texts: Vec<String>)
        requires
            forwarded_count(old(self).sent_counts@, entity) <= lines@.len(),
        ensures
            texts@.map_values(|s: String| s@) == line_texts(lines@).skip(
                forwarded_count(old(self).sent_counts@, entity) as int,
            ),
            final(self).sent_counts@ == old(self).sent_counts@.insert(entity, lines@.len() as usize),
    {
        let sent = match self.sent_counts.get(&entity) {
            Some(n) => *n,
            None => 0,
        };
        let mut texts: Vec<String> = Vec::new();
        let mut k: usize = sent;
        while k < lines.len()
            invariant
                sent <= k <= lines@.len(),
                sent == forwarded_count(old(self).sent_counts@, entity),
                texts@.map_values(|s: String| s@) == line_texts(lines@).subrange(sent as int, k as int),
            decreases lines@.len() - k,
        {
            let ghost prev = texts@;
            let t = lines[k].text.clone();
            assert(t@ == line_texts(lines@)[k as int]);
            texts.push(t);
            assert(texts@ == prev.push(t));
            assert(texts@.map_values(|s: String| s@) =~= prev.map_values(|s: String| s@).push(t@));
            k = k + 1;
            assert(texts@.map_values(|s: String| s@) =~= line_texts(lines@).subrange(sent as int, k as int));
        }
        self.sent_counts.insert(entity, lines.len());
        assert(line_texts(lines@).subrange(sent as int, lines@.len() as int) =~= line_texts(lines@).skip(sent as int));
        texts
    }
}

/// Whether to broadcast the exit notice now: the first time exit is requested, once.
pub fn exit_notice_due(exit: bool, sent: &mut bool) -> (due: bool)
    ensures
        due == (exit && !*old(sent)),
        *final(sent) == (*old(sent) || exit),
{
    if exit && !*sent {
        *sent = true;
        true
    } else {
        false
    }
}

/// Whether a client should exit on losing its server: it remembers having been
/// connected, and asks to exit once disconnected after that.
pub fn disconnect_detected(connected: bool, was_connected: &mut bool) -> (exit: bool)
    ensures
        connected ==> *final(was_connected) && !exit,
        !connected ==> *final(was_connected) == *old(was_connected) && exit == *old(was_connected),
{
    if connected {
        *was_connected = true;
        false
    } else {
        *was_connected
    }
}

/// The replication server's state.
#[derive(PartialEq, Eq, Structural, Clone, Copy, Debug)]
pub enum ServerRunState {
    Stopped,
    Running,
}

/// The server runs while it has clients: a first client starts it, losing the last
/// stops it.
pub fn server_state_change(has_clients: bool, state: ServerRunState) -> (next: Option<ServerRunState>)
    ensures
        next == if has_clients && state == ServerRunState::Stopped {
            Some(ServerRunState::Running)
        } else if !has_clients && state == ServerRunState::Running {
            Some(ServerRunState::Stopped)
        } else {
            None
        },
{
    if has_clients && state == ServerRunState::Stopped {
        Some(ServerRunState::Running)
    } else if !has_clients && state == ServerRunState::Running {
        Some(ServerRunState::Stopped)
    } else {
        None
    }
}

/// The replication client's state.
#[derive(PartialEq, Eq, Structural, Clone, Copy, Debug)]
pub enum ClientRunState {
    Disconnected,
    Connecting,
    Connected,
}

/// The client is connected while a bridge to the daemon exists.
pub fn client_state_change(has_bridge: bool, state: ClientRunState) -> (next: Option<ClientRunState>)
    ensures
        next == if has_bridge && state == ClientRunState::Disconnected {
            Some(ClientRunState::Connected)
        } else if !has_bridge && state == ClientRunState::Connected {
            Some(ClientRunState::Disconnected)
        } else {
            None
        },
{
    if has_bridge && state == ClientRunState::Disconnected {
        Some(ClientRunState::Connected)
    } else if !has_bridge && state == ClientRunState::Connected {
        Some(ClientRunState::Disconnected)
    } else {
        None
    }
}

/// A key press is Ctrl+C: the character `c` with the control modifier.
pub fn is_ctrl_c(key: Option<char>, control: bool) -> (r: bool)
    ensures
        r == (key == Some('c') && control),
{
    match key {
        Some(c) => c == 'c' && control,
        None => false,
    }
}

/// Broadcasting a growing log twice forwards every line exactly once: what the first
/// call sends followed by what the second sends is the log from the first call's
/// starting count on, with nothing repeated or skipped.
pub proof fn lemma_forward_exactly_once(m: Map<u64, usize>, e: u64, l1: Seq<LogLine>, l2: Seq<LogLine>)
    requires
        forwarded_count(m, e) <= l1.len(),
        l1.len() <= l2.len(),
        l1.len() <= usize::MAX,
        l2.take(l1.len() as int) == l1,
    ensures
        line_texts(l1).skip(forwarded_count(m, e) as int) + line_texts(l2).skip(
            forwarded_count(m.insert(e, l1.len() as usize), e) as int,
        ) == line_texts(l2).skip(forwarded_count(m, e) as int),
{
    let c = forwarded_count(m, e) as int;
    assert(forwarded_count(m.insert(e, l1.len() as usize), e) == l1.len());
    assert forall|i: int| 0 <= i < l1.len() implies #[trigger] line_texts(l1)[i] == line_texts(l2)[i] by {
        assert(l1[i] == l2.take(l1.len() as int)[i]);
    }
    assert(line_texts(l1).skip(c) + line_texts(l2).skip(l1.len() as int) =~= line_texts(l2).skip(c));
}

} // verus!
