use vstd::prelude::*;

use crate::phase::Phase;
use crate::protocol::DaemonEvent;
use crate::random::{random_in_range, thread_rng};
use crate::systems::{downloaded_after, downloaded_after_step, PULL_STEPS, PULL_TOTAL};

verus! {

/// One progress report of an image pull.
#[derive(Debug, Clone, Copy, PartialEq, Eq, Structural)]
pub struct PullProgress {
    pub downloaded: u64,
    pub total: u64,
}

/// A backend that simulates pulling, booting and stopping a container.
#[derive(Debug, Clone)]
pub struct MockBackend {
    pub name: String,
    pub image: String,
}

/// A progress report sent after sleeping `delay_ms` milliseconds.
#[derive(Debug, Clone, Copy, PartialEq, Eq, Structural)]
pub struct PullStep {
    pub delay_ms: u64,
    pub progress: PullProgress,
}

/// What a simulated pull does: log `start_log`, send each step's report after its
/// delay, log `end_log`, succeed.
#[derive(Debug)]
pub struct PullPlan {
    pub start_log: String,
    pub steps: Vec<PullStep>,
    pub end_log: String,
}

/// A boot log line sent after sleeping `delay_ms` milliseconds.
#[derive(Debug, Clone)]
pub struct BootLine {
    pub text: String,
    pub delay_ms: u64,
}

/// What a simulated boot does: send each line after its delay, then sleep
/// `startup_delay_ms` and succeed.
#[derive(Debug)]
pub struct BootPlan {
    pub lines: Vec<BootLine>,
    pub startup_delay_ms: u64,
}

/// The boot log of a container with this name: two lines for each of the four known
/// services, none for any other name.
pub open spec fn boot_script(name: Seq<char>) -> Seq<(Seq<char>, u64)> {
    if name == "postgres"@ {
        seq![("PostgreSQL init process complete"@, 200u64), ("LOG: listening on 0.0.0.0:5432"@, 300u64)]
    } else if name == "redis"@ {
        seq![("oO0OoO0Oo Redis is starting oO0OoO0Oo"@, 150u64), ("Ready to accept connections on port 6379"@, 250u64)]
    } else if name == "api-server"@ {
        seq![("Connecting to database..."@, 300u64), ("Server listening on :8080"@, 400u64)]
    } else if name == "web-frontend"@ {
        seq![("Compiling assets..."@, 400u64), ("Serving on http://0.0.0.0:3000"@, 300u64)]
    } else {
        Seq::empty()
    }
}

/// The plan's boot lines as text and delay.
pub open spec fn boot_lines_view(lines: Seq<BootLine>) -> Seq<(Seq<char>, u64)> {
    lines.map_values(|l: BootLine| (l.text@, l.delay_ms))
}

fn boot_line(text: &str, delay_ms: u64) -> (l: BootLine)
    ensures
        l.text@ == text@,
        l.delay_ms == delay_ms,
{
    BootLine { text: String::from_str(text), delay_ms }
}

fn two_lines(a: BootLine, b: BootLine) -> (v: Vec<BootLine>)
    ensures
        boot_lines_view(v@) == seq![(a.text@, a.delay_ms), (b.text@, b.delay_ms)],
{
    let ghost av = (a.text@, a.delay_ms);
    let ghost bv = (b.text@, b.delay_ms);
    let mut v: Vec<BootLine> = Vec::new();
    v.push(a);
    v.push(b);
    assert(boot_lines_view(v@) =~= seq![av, bv]);
    v
}

impl MockBackend {
    pub fn new(name: String, image: String) -> (b: MockBackend)
        ensures
            b.name@ == name@,
            b.image@ == image@,
    {
        MockBackend { name, image }
    }

    /// The simulated pull: "Pulling <image>...", ten reports 200 to 500 ms apart whose
    /// downloaded bytes grow in tenths of 100,000,000 up to the total, "Pull complete".
    pub fn pull_plan(&self) -> (p: PullPlan)
        ensures
            p.start_log@ == "Pulling "@ + self.image@ + "..."@,
            p.end_log@ == "Pull complete"@,
            p.steps@.len() == PULL_STEPS,
            forall|k: int|
                0 <= k < PULL_STEPS ==> 200 <= (#[trigger] p.steps@[k]).delay_ms <= 500 && p.steps@[k].progress == (
                PullProgress { downloaded: downloaded_after(k) as u64, total: PULL_TOTAL }),
    {
        let start_log = String::from_str("Pulling ").concat(self.image.as_str()).concat("...");
        let mut steps: Vec<PullStep> = Vec::new();
        let mut rng = thread_rng();
        let mut k: usize = 0;
        while k < PULL_STEPS
            invariant
                k <= PULL_STEPS,
                steps@.len() == k,
                forall|m: int|
                    0 <= m < k ==> 200 <= (#[trigger] steps@[m]).delay_ms <= 500 && steps@[m].progress == (
                    PullProgress { downloaded: downloaded_after(m) as u64, total: PULL_TOTAL }),
            decreases PULL_STEPS - k,
        {
            let delay_ms = random_in_range(&mut rng, 200, 500);
            let downloaded = downloaded_after_step(k);
            steps.push(PullStep { delay_ms, progress: PullProgress { downloaded, total: PULL_TOTAL } });
            k = k + 1;
        }
        PullPlan { start_log, steps, end_log: String::from_str("Pull complete") }
    }

    /// The simulated boot: the service's boot lines with their delays, then a startup
    /// delay of 500 to 1500 ms.
    pub fn boot_plan(&self) -> (p: BootPlan)
        ensures
            boot_lines_view(p.lines@) == boot_script(self.name@),
            500 <= p.startup_delay_ms <= 1500,
    {
        let lines: Vec<BootLine> = if self.name == String::from_str("postgres") {
            two_lines(
                boot_line("PostgreSQL init process complete", 200),
                boot_line("LOG: listening on 0.0.0.0:5432", 300),
            )
        } else if self.name == String::from_str("redis") {
            two_lines(
                boot_line("oO0OoO0Oo Redis is starting oO0OoO0Oo", 150),
                boot_line("Ready to accept connections on port 6379", 250),
            )
        } else if self.name == String::from_str("api-server") {
            two_lines(boot_line("Connecting to database...", 300), boot_line("Server listening on :8080", 400))
        } else if self.name == String::from_str("web-frontend") {
            two_lines(boot_line("Compiling assets...", 400), boot_line("Serving on http://0.0.0.0:3000", 300))
        } else {
            let v: Vec<BootLine> = Vec::new();
            assert(boot_lines_view(v@) =~= Seq::<(Seq<char>, u64)>::empty());
            v
        };
        let mut rng = thread_rng();
        let startup_delay_ms = random_in_range(&mut rng, 500, 1500);
        BootPlan { lines, startup_delay_ms }
    }

    /// The simulated stop: a delay of 200 to 800 ms, then success.
    pub fn stop_delay(&self) -> (d: u64)
        ensures
            200 <= d <= 800,
    {
        let mut rng = thread_rng();
        random_in_range(&mut rng, 200, 800)
    }
}

/// What a backend that replays daemon events does with one event (`None`: the
/// channel closed).
#[derive(Debug)]
pub enum MirrorStep {
    /// Forward a progress report.
    Progress(PullProgress),
    /// Forward a log line.
    Log(String),
    /// Return this result.
    Finish(Result<(), String>),
    /// Wait for the next event.
    Skip,
}

/// Replaying a pull: progress and logs are forwarded; a phase change to `Starting`,
/// `Running` or `Stopped` ends it; a closed channel fails with "disconnected".
pub fn mirror_pull_step(ev: Option<DaemonEvent>) -> (s: MirrorStep)
    ensures
        match ev {
            Some(DaemonEvent::Progress { downloaded, total, .. }) => s == MirrorStep::Progress(
                PullProgress { downloaded, total },
            ),
            Some(DaemonEvent::Log { text, .. }) => s matches MirrorStep::Log(t) && t@ == text@,
            Some(DaemonEvent::PhaseChanged { phase, .. }) => if phase == Phase::Starting || phase == Phase::Running
                || phase == Phase::Stopped {
                s matches MirrorStep::Finish(Ok(()))
            } else {
                s matches MirrorStep::Skip
            },
            None => s matches MirrorStep::Finish(Err(e)) && e@ == "disconnected"@,
            _ => s matches MirrorStep::Skip,
        },
{
    match ev {
        Some(DaemonEvent::Progress { downloaded, total, .. }) => MirrorStep::Progress(PullProgress { downloaded, total }),
        Some(DaemonEvent::Log { text, .. }) => MirrorStep::Log(text),
        Some(DaemonEvent::PhaseChanged { phase, .. }) => {
            if phase == Phase::Starting || phase == Phase::Running || phase == Phase::Stopped {
                MirrorStep::Finish(Ok(()))
            } else {
                MirrorStep::Skip
            }
        },
        None => MirrorStep::Finish(Err(String::from_str("disconnected"))),
        _ => MirrorStep::Skip,
    }
}

/// Replaying a boot: logs are forwarded; a phase change to `Running` or `Stopped` ends
/// it; a closed channel fails with "disconnected".
pub fn mirror_boot_step(ev: Option<DaemonEvent>) -> (s: MirrorStep)
    ensures
        match ev {
            Some(DaemonEvent::Log { text, .. }) => s matches MirrorStep::Log(t) && t@ == text@,
            Some(DaemonEvent::PhaseChanged { phase, .. }) => if phase == Phase::Running || phase == Phase::Stopped {
                s matches MirrorStep::Finish(Ok(()))
            } else {
                s matches MirrorStep::Skip
            },
            None => s matches MirrorStep::Finish(Err(e)) && e@ == "disconnected"@,
            _ => s matches MirrorStep::Skip,
        },
{
    match ev {
        Some(DaemonEvent::Log { text, .. }) => MirrorStep::Log(text),
        Some(DaemonEvent::PhaseChanged { phase, .. }) => {
            if phase == Phase::Running || phase == Phase::Stopped {
                MirrorStep::Finish(Ok(()))
            } else {
                MirrorStep::Skip
            }
        },
        None => MirrorStep::Finish(Err(String::from_str("disconnected"))),
        _ => MirrorStep::Skip,
    }
}

/// Replaying a stop: a phase change to `Stopped` ends it; a closed channel fails with
/// "disconnected"; everything else is skipped.
pub fn mirror_stop_step(ev: Option<DaemonEvent>) -> (s: MirrorStep)
    ensures
        match ev {
            Some(DaemonEvent::PhaseChanged { phase, .. }) => if phase == Phase::Stopped {
                s matches MirrorStep::Finish(Ok(()))
            } else {
                s matches MirrorStep::Skip
            },
            None => s matches MirrorStep::Finish(Err(e)) && e@ == "disconnected"@,
            _ => s matches MirrorStep::Skip,
        },
{
    match ev {
        Some(DaemonEvent::PhaseChanged { phase, .. }) => {
            if phase == Phase::Stopped {
                MirrorStep::Finish(Ok(()))
            } else {
                MirrorStep::Skip
            }
        },
        None => MirrorStep::Finish(Err(String::from_str("disconnected"))),
        _ => MirrorStep::Skip,
    }
}

} // verus!
