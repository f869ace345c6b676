//! Connecting to Arc: probe its debugging port and, when nothing answers there, quit
//! a running Arc and relaunch it with remote debugging, then wait for the port.
//!
//! The decisions form a state machine. Its driver performs each action (an HTTP
//! probe, a process query, a sleep, a launch) and reports what happened as an event.

use vstd::prelude::*;
use crate::browser::ProbeOutcome;

verus! {

/// How long Arc may take to quit, in milliseconds.
pub const QUIT_TIMEOUT_MS: u64 = 10000;

/// How long the relaunched Arc may take to open its debugging port, in milliseconds.
pub const LAUNCH_TIMEOUT_MS: u64 = 25000;

/// The pause between two polls, in milliseconds.
pub const POLL_INTERVAL_MS: u64 = 250;

/// Why no connection could be made.
pub enum ConnectError {
    /// Something listens on the port but is not DevTools; Arc is left alone.
    PortNotDevtools,
    /// The endpoint answered without a WebSocket URL; Arc is left alone.
    NoDebuggerUrl,
    /// Arc is launched automatically only on macOS.
    LaunchUnsupported,
    /// Arc is not installed where it is expected.
    NotInstalled,
    /// A running Arc did not quit in time.
    DidNotQuit,
    /// Launching Arc failed, with the system's message.
    LaunchFailed(String),
    /// The relaunched Arc did not open its debugging port in time.
    Timeout,
}

/// What the driver is to do next.
pub enum ConnectAction {
    /// Probe the debugging port (`GET /json/version`).
    Probe,
    /// Check that the Arc executable exists.
    CheckInstalled,
    /// Check whether Arc is running.
    CheckRunning,
    /// Say that Arc is being restarted, and ask it to quit.
    QuitArc,
    /// Sleep this many milliseconds.
    Sleep(u64),
    /// Launch Arc with remote debugging on the port.
    Launch,
    /// Make sure a page exists, then use this WebSocket URL.
    Connect(String),
    /// Give up.
    Fail(ConnectError),
}

/// What the driver reports after an action; times are milliseconds of a monotonic clock.
pub enum ConnectEvent {
    /// The connection attempt begins.
    Begin,
    /// The outcome of a probe, and the time after it.
    Probed { outcome: ProbeOutcome, now_ms: u64 },
    /// Whether the Arc executable exists.
    Installed(bool),
    /// Whether Arc is running, and the time after the check.
    Running { running: bool, now_ms: u64 },
    /// Arc was asked to quit, at this time.
    QuitRequested { now_ms: u64 },
    /// A sleep ended.
    Slept,
    /// Arc was launched at this time, or failed to launch with this message.
    Launched { error: Option<String>, now_ms: u64 },
}

/// Where the connection attempt stands.
pub enum Phase {
    /// Nothing done yet.
    Start,
    /// The first probe is under way.
    FirstProbe,
    /// Checking that Arc is installed.
    CheckingInstalled,
    /// Checking whether Arc runs before launching it.
    CheckingRunning,
    /// Arc is being asked to quit.
    Quitting,
    /// Polling whether Arc still runs, until the deadline.
    PollingQuit { deadline: u64 },
    /// Sleeping between two such polls.
    SleepingQuit { deadline: u64 },
    /// The last check that Arc has quit.
    ConfirmingQuit,
    /// Arc is being launched.
    Launching,
    /// Probing the relaunched Arc until the deadline.
    PollingPort { deadline: u64 },
    /// Sleeping between two such probes.
    SleepingPort { deadline: u64 },
    /// Connected or failed; nothing more happens.
    Finished,
}

/// The connection attempt.
pub struct ArcConnect {
    pub phase: Phase,
    /// Whether Arc may be launched automatically here (macOS only).
    pub can_launch: bool,
}

/// The event that each phase waits for.
pub open spec fn accepts_spec(phase: Phase, e: ConnectEvent) -> bool {
    match phase {
        Phase::Start => e is Begin,
        Phase::FirstProbe => e is Probed,
        Phase::CheckingInstalled => e is Installed,
        Phase::CheckingRunning => e is Running,
        Phase::Quitting => e is QuitRequested,
        Phase::PollingQuit { .. } => e is Running,
        Phase::SleepingQuit { .. } => e is Slept,
        Phase::ConfirmingQuit => e is Running,
        Phase::Launching => e is Launched,
        Phase::PollingPort { .. } => e is Probed,
        Phase::SleepingPort { .. } => e is Slept,
        Phase::Finished => false,
    }
}

/// The deadline `ms` milliseconds after `now`, saturating at the end of the clock.
pub open spec fn after(now: u64, ms: u64) -> u64 {
    if now + ms <= u64::MAX {
        (now + ms) as u64
    } else {
        u64::MAX
    }
}

/// The next phase and action, given the phase, whether Arc may be launched here, and the event.
/// A phase never receives an event that it does not accept (`step` requires one it does);
/// the last arm only completes the definition.
pub open spec fn step_spec(phase: Phase, can_launch: bool, e: ConnectEvent) -> (Phase, ConnectAction) {
    match (phase, e) {
        (Phase::Start, ConnectEvent::Begin) => (Phase::FirstProbe, ConnectAction::Probe),
        (Phase::FirstProbe, ConnectEvent::Probed { outcome, now_ms }) => match outcome {
            ProbeOutcome::Up(ws) => (Phase::Finished, ConnectAction::Connect(ws)),
            ProbeOutcome::NotDevtools => (Phase::Finished, ConnectAction::Fail(ConnectError::PortNotDevtools)),
            ProbeOutcome::NoDebuggerUrl => (Phase::Finished, ConnectAction::Fail(ConnectError::NoDebuggerUrl)),
            ProbeOutcome::Down => if can_launch {
                (Phase::CheckingInstalled, ConnectAction::CheckInstalled)
            } else {
                (Phase::Finished, ConnectAction::Fail(ConnectError::LaunchUnsupported))
            },
        },
        (Phase::CheckingInstalled, ConnectEvent::Installed(installed)) => if installed {
            (Phase::CheckingRunning, ConnectAction::CheckRunning)
        } else {
            (Phase::Finished, ConnectAction::Fail(ConnectError::NotInstalled))
        },
        (Phase::CheckingRunning, ConnectEvent::Running { running, now_ms }) => if running {
            (Phase::Quitting, ConnectAction::QuitArc)
        } else {
            (Phase::Launching, ConnectAction::Launch)
        },
        (Phase::Quitting, ConnectEvent::QuitRequested { now_ms }) => (
            Phase::PollingQuit { deadline: after(now_ms, QUIT_TIMEOUT_MS) },
            ConnectAction::CheckRunning,
        ),
        (Phase::PollingQuit { deadline }, ConnectEvent::Running { running, now_ms }) => if running
            && now_ms < deadline {
            (Phase::SleepingQuit { deadline }, ConnectAction::Sleep(POLL_INTERVAL_MS))
        } else {
            (Phase::ConfirmingQuit, ConnectAction::CheckRunning)
        },
        (Phase::SleepingQuit { deadline }, ConnectEvent::Slept) => (
            Phase::PollingQuit { deadline },
            ConnectAction::CheckRunning,
        ),
        (Phase::ConfirmingQuit, ConnectEvent::Running { running, now_ms }) => if running {
            (Phase::Finished, ConnectAction::Fail(ConnectError::DidNotQuit))
        } else {
            (Phase::Launching, ConnectAction::Launch)
        },
        (Phase::Launching, ConnectEvent::Launched { error, now_ms }) => match error {
            Some(msg) => (Phase::Finished, ConnectAction::Fail(ConnectError::LaunchFailed(msg))),
            None => (
                Phase::PollingPort { deadline: after(now_ms, LAUNCH_TIMEOUT_MS) },
                ConnectAction::Probe,
            ),
        },
        (Phase::PollingPort { deadline }, ConnectEvent::Probed { outcome, now_ms }) => match outcome {
            ProbeOutcome::Up(ws) => (Phase::Finished, ConnectAction::Connect(ws)),
            ProbeOutcome::NotDevtools => (Phase::Finished, ConnectAction::Fail(ConnectError::PortNotDevtools)),
            ProbeOutcome::NoDebuggerUrl => (Phase::Finished, ConnectAction::Fail(ConnectError::NoDebuggerUrl)),
            ProbeOutcome::Down => if now_ms > deadline {
                (Phase::Finished, ConnectAction::Fail(ConnectError::Timeout))
            } else {
                (Phase::SleepingPort { deadline }, ConnectAction::Sleep(POLL_INTERVAL_MS))
            },
        },
        (Phase::SleepingPort { deadline }, ConnectEvent::Slept) => (
            Phase::PollingPort { deadline },
            ConnectAction::Probe,
        ),
        _ => (phase, ConnectAction::Fail(ConnectError::Timeout)),
    }
}

/// The deadline `ms` milliseconds after `now`.
fn deadline_after(now: u64, ms: u64) -> (d: u64)
    ensures
        d == after(now, ms),
{
    now.saturating_add(ms)
}

impl ArcConnect {
    /// A connection attempt that has not begun; `can_launch` tells whether Arc may be
    /// launched automatically on this system.
    pub fn new(can_launch: bool) -> (c: Self)
        ensures
            c.phase is Start,
            c.can_launch == can_launch,
    {
        ArcConnect { phase: Phase::Start, can_launch }
    }

    /// Whether the attempt waits for this event now.
    pub fn accepts(&self, e: &ConnectEvent) -> (b: bool)
        ensures
            b == accepts_spec(self.phase, *e),
    {
        match (&self.phase, e) {
            (Phase::Start, ConnectEvent::Begin) => true,
            (Phase::FirstProbe, ConnectEvent::Probed { .. }) => true,
            (Phase::CheckingInstalled, ConnectEvent::Installed(_)) => true,
            (Phase::CheckingRunning, ConnectEvent::Running { .. }) => true,
            (Phase::Quitting, ConnectEvent::QuitRequested { .. }) => true,
            (Phase::PollingQuit { .. }, ConnectEvent::Running { .. }) => true,
            (Phase::SleepingQuit { .. }, ConnectEvent::Slept) => true,
            (Phase::ConfirmingQuit, ConnectEvent::Running { .. }) => true,
            (Phase::Launching, ConnectEvent::Launched { .. }) => true,
            (Phase::PollingPort { .. }, ConnectEvent::Probed { .. }) => true,
            (Phase::SleepingPort { .. }, ConnectEvent::Slept) => true,
            _ => false,
        }
    }

    /// Takes in the event that the current phase waits for and returns the next action.
    pub fn step(&mut self, e: ConnectEvent) -> (a: ConnectAction)
        requires
            accepts_spec(old(self).phase, e),
        ensures
            (final(self).phase, a) == step_spec(old(self).phase, old(self).can_launch, e),
            final(self).can_launch == old(self).can_launch,
    {
        let can_launch = self.can_launch;
        let mut phase = Phase::Finished;
        std::mem::swap(&mut phase, &mut self.phase);
        let (next, action) = match (phase, e) {
            (Phase::Start, ConnectEvent::Begin) => (Phase::FirstProbe, ConnectAction::Probe),
            (Phase::FirstProbe, ConnectEvent::Probed { outcome, now_ms }) => match outcome {
                ProbeOutcome::Up(ws) => (Phase::Finished, ConnectAction::Connect(ws)),
                ProbeOutcome::NotDevtools => (Phase::Finished, ConnectAction::Fail(ConnectError::PortNotDevtools)),
                ProbeOutcome::NoDebuggerUrl => (Phase::Finished, ConnectAction::Fail(ConnectError::NoDebuggerUrl)),
                ProbeOutcome::Down => if can_launch {
                    (Phase::CheckingInstalled, ConnectAction::CheckInstalled)
                } else {
                    (Phase::Finished, ConnectAction::Fail(ConnectError::LaunchUnsupported))
                },
            },
            (Phase::CheckingInstalled, ConnectEvent::Installed(installed)) => if installed {
                (Phase::CheckingRunning, ConnectAction::CheckRunning)
            } else {
                (Phase::Finished, ConnectAction::Fail(ConnectError::NotInstalled))
            },
            (Phase::CheckingRunning, ConnectEvent::Running { running, now_ms }) => if running {
                (Phase::Quitting, ConnectAction::QuitArc)
            } else {
                (Phase::Launching, ConnectAction::Launch)
            },
            (Phase::Quitting, ConnectEvent::QuitRequested { now_ms }) => (
                Phase::PollingQuit { deadline: deadline_after(now_ms, QUIT_TIMEOUT_MS) },
                ConnectAction::CheckRunning,
            ),
            (Phase::PollingQuit { deadline }, ConnectEvent::Running { running, now_ms }) => if running
                && now_ms < deadline {
                (Phase::SleepingQuit { deadline }, ConnectAction::Sleep(POLL_INTERVAL_MS))
            } else {
                (Phase::ConfirmingQuit, ConnectAction::CheckRunning)
            },
            (Phase::SleepingQuit { deadline }, ConnectEvent::Slept) => (
                Phase::PollingQuit { deadline },
                ConnectAction::CheckRunning,
            ),
            (Phase::ConfirmingQuit, ConnectEvent::Running { running, now_ms }) => if running {
                (Phase::Finished, ConnectAction::Fail(ConnectError::DidNotQuit))
            } else {
                (Phase::Launching, ConnectAction::Launch)
            },
            (Phase::Launching, ConnectEvent::Launched { error, now_ms }) => match error {
                Some(msg) => (Phase::Finished, ConnectAction::Fail(ConnectError::LaunchFailed(msg))),
                None => (
                    Phase::PollingPort { deadline: deadline_after(now_ms, LAUNCH_TIMEOUT_MS) },
                    ConnectAction::Probe,
                ),
            },
            (Phase::PollingPort { deadline }, ConnectEvent::Probed { outcome, now_ms }) => match outcome {
                ProbeOutcome::Up(ws) => (Phase::Finished, ConnectAction::Connect(ws)),
                ProbeOutcome::NotDevtools => (Phase::Finished, ConnectAction::Fail(ConnectError::PortNotDevtools)),
                ProbeOutcome::NoDebuggerUrl => (Phase::Finished, ConnectAction::Fail(ConnectError::NoDebuggerUrl)),
                ProbeOutcome::Down => if now_ms > deadline {
                    (Phase::Finished, ConnectAction::Fail(ConnectError::Timeout))
                } else {
                    (Phase::SleepingPort { deadline }, ConnectAction::Sleep(POLL_INTERVAL_MS))
                },
            },
            (Phase::SleepingPort { deadline }, ConnectEvent::Slept) => (
                Phase::PollingPort { deadline },
                ConnectAction::Probe,
            ),
            (p, _) => (p, ConnectAction::Fail(ConnectError::Timeout)),
        };
        self.phase = next;
        action
    }
}

/// An action after which nothing more happens.
pub open spec fn is_final(a: ConnectAction) -> bool {
    a is Connect || a is Fail
}

/// A port held by something other than DevTools is never answered by quitting or
/// launching Arc: the attempt fails at once. A port where DevTools is up is used as it is.
pub proof fn lemma_probe_decides(phase: Phase, can_launch: bool, outcome: ProbeOutcome, now_ms: u64)
    requires
        accepts_spec(phase, ConnectEvent::Probed { outcome, now_ms }),
    ensures
        ({
            let (next, a) = step_spec(phase, can_launch, ConnectEvent::Probed { outcome, now_ms });
            &&& outcome is NotDevtools ==> next is Finished && a == ConnectAction::Fail(
                ConnectError::PortNotDevtools,
            )
            &&& outcome is NoDebuggerUrl ==> next is Finished && a == ConnectAction::Fail(
                ConnectError::NoDebuggerUrl,
            )
            &&& outcome matches ProbeOutcome::Up(ws) ==> next is Finished && a
                == ConnectAction::Connect(ws)
        }),
{
}

/// Arc is launched only once it has been seen not running: Arc ignores the debugging
/// flag when it already runs, so a running Arc is first asked to quit.
pub proof fn lemma_launch_only_when_not_running(phase: Phase, can_launch: bool, e: ConnectEvent)
    requires
        accepts_spec(phase, e),
        step_spec(phase, can_launch, e).1 is Launch,
    ensures
        phase is CheckingRunning || phase is ConfirmingQuit,
        e matches ConnectEvent::Running { running, .. } && !running,
{
}

/// Arc is asked to quit only when it has been seen running, after the port was found
/// down, on a system where Arc may be launched.
pub proof fn lemma_quit_only_when_running(phase: Phase, can_launch: bool, e: ConnectEvent)
    requires
        accepts_spec(phase, e),
        step_spec(phase, can_launch, e).1 is QuitArc,
    ensures
        phase is CheckingRunning,
        e matches ConnectEvent::Running { running, .. } && running,
{
}

/// Using a URL or giving up ends the attempt, and an ended attempt takes no more events;
/// every other action leaves the attempt waiting for an event.
pub proof fn lemma_final_actions_end(phase: Phase, can_launch: bool, e: ConnectEvent)
    requires
        accepts_spec(phase, e),
    ensures
        is_final(step_spec(phase, can_launch, e).1) <==> step_spec(phase, can_launch, e).0 is Finished,
        forall|e2: ConnectEvent| !accepts_spec(Phase::Finished, e2),
{
}

/// Where Arc may not be launched, a port found down ends the attempt without touching Arc.
pub proof fn lemma_no_launch_unsupported(now_ms: u64)
    ensures
        step_spec(Phase::FirstProbe, false, ConnectEvent::Probed { outcome: ProbeOutcome::Down, now_ms })
            == (Phase::Finished, ConnectAction::Fail(ConnectError::LaunchUnsupported)),
{
}

/// The relaunched Arc is waited for until 25 s after its launch: a probe that finds the
/// port down before then sleeps and probes again, one after it gives up.
pub proof fn lemma_port_deadline(launched_ms: u64, now_ms: u64)
    requires
        launched_ms + LAUNCH_TIMEOUT_MS <= u64::MAX,
    ensures
        ({
            let (p, a) = step_spec(Phase::Launching, true, ConnectEvent::Launched { error: None, now_ms: launched_ms });
            let (p2, a2) = step_spec(p, true, ConnectEvent::Probed { outcome: ProbeOutcome::Down, now_ms });
            &&& a is Probe
            &&& now_ms <= launched_ms + LAUNCH_TIMEOUT_MS ==> a2 == ConnectAction::Sleep(POLL_INTERVAL_MS)
            &&& now_ms > launched_ms + LAUNCH_TIMEOUT_MS ==> a2 == ConnectAction::Fail(ConnectError::Timeout)
        }),
{
}

/// A running Arc is given 10 s to quit after it was asked to: until then each check that
/// finds it still running sleeps 250 ms and checks again; only a check at or after that
/// time goes on to the last check, and only that last check, finding Arc still running,
/// gives up with `DidNotQuit`.
pub proof fn lemma_quit_deadline(quit_ms: u64, now_ms: u64, can_launch: bool)
    requires
        quit_ms + 10000 <= u64::MAX,
    ensures
        ({
            let (p, a) = step_spec(Phase::Quitting, can_launch, ConnectEvent::QuitRequested { now_ms: quit_ms });
            let (p2, a2) = step_spec(p, can_launch, ConnectEvent::Running { running: true, now_ms });
            &&& a is CheckRunning
            &&& now_ms < quit_ms + 10000 ==> a2 == ConnectAction::Sleep(250)
                && step_spec(p2, can_launch, ConnectEvent::Slept) == (p, ConnectAction::CheckRunning)
            &&& now_ms >= quit_ms + 10000 ==> a2 is CheckRunning && p2 is ConfirmingQuit
            &&& !(a2 matches ConnectAction::Fail(_))
        }),
{
}

/// `DidNotQuit` comes only from the last check after the quit deadline, and only when
/// that check finds Arc still running.
pub proof fn lemma_did_not_quit_only_at_last_check(phase: Phase, can_launch: bool, e: ConnectEvent)
    requires
        accepts_spec(phase, e),
        step_spec(phase, can_launch, e).1 == ConnectAction::Fail(ConnectError::DidNotQuit),
    ensures
        phase is ConfirmingQuit,
        e matches ConnectEvent::Running { running, .. } && running,
{
}

} // verus!
