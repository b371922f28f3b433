//! Supervision of the child: what is done on a signal, on a change of a child, and on a deadline.
//!
//! The supervisor is a state machine. It asks for one thing at a time, and is told what came of
//! it and what time it is.

use vstd::prelude::*;

use crate::error::{self, Error, ErrorModel};
use crate::logging::Level;
use crate::report::{Failure, ECHILD, EINTR, ESRCH};
use crate::signals::{
    SIGCHLD, SIGCONT, SIGINT, SIGKILL, SIGPIPE, SIGQUIT, SIGTERM, SIGTTIN, SIGTTOU,
};
use crate::text::{self, decimal_text};

verus! {

/// How many signals are read before the deadline is looked at again.
pub const SIGNAL_BATCH_LIMIT: u8 = 64;

/// The longest pause between two looks at a process group, in nanoseconds.
pub const PAUSE: u128 = 10000000;

pub const POLLIN: u16 = 1;

pub const POLLERR: u16 = 8;

pub const POLLHUP: u16 = 16;

pub const POLLNVAL: u16 = 32;

// ---------------------------------------------------------------------------
// Deadlines
// ---------------------------------------------------------------------------

/// The time at which patience ends, in nanoseconds.
#[derive(Clone, Copy, Debug, PartialEq, Eq, Structural)]
pub enum ShutdownDeadline {
    At(u128),
    Never,
}

/// How long a poll waits.
#[derive(Clone, Copy, Debug, PartialEq, Eq, Structural)]
pub enum PollTimeout {
    Block,
    Millis(i32),
}

/// Milliseconds, rounded up so that a poll does not end before its time, as far as a poll can
/// wait.
pub open spec fn millis_of(nanos: nat) -> int {
    let up = (nanos + 999999) / 1000000;
    if up > i32::MAX {
        i32::MAX as int
    } else {
        up as int
    }
}

fn to_millis(nanos: u128) -> (r: i32)
    ensures
        r == millis_of(nanos as nat),
{
    let whole: u128 = nanos / 1000000;
    let up: u128 = if nanos % 1000000 == 0 {
        whole
    } else {
        whole + 1
    };
    proof {
        assert(up == (nanos as nat + 999999) / 1000000) by (nonlinear_arith)
            requires
                whole == nanos / 1000000,
                up == if nanos % 1000000 == 0 {
                    whole as int
                } else {
                    whole + 1
                },
        ;
    }
    if up > 2147483647 {
        2147483647
    } else {
        up as i32
    }
}

impl ShutdownDeadline {
    pub open spec fn spec_after(now: u128, millis: u64) -> ShutdownDeadline {
        if now + millis * 1000000 <= u128::MAX {
            ShutdownDeadline::At((now + millis * 1000000) as u128)
        } else {
            ShutdownDeadline::Never
        }
    }

    /// The time that is some milliseconds away, or no time where that cannot be told.
    pub fn after(now: u128, millis: u64) -> (r: ShutdownDeadline)
        ensures
            r == Self::spec_after(now, millis),
    {
        let span: u128 = millis as u128 * 1000000;
        if span <= u128::MAX - now {
            ShutdownDeadline::At(now + span)
        } else {
            ShutdownDeadline::Never
        }
    }

    pub open spec fn spec_remaining(self, now: u128) -> u128 {
        match self {
            ShutdownDeadline::At(at) => if now >= at {
                0
            } else {
                (at - now) as u128
            },
            ShutdownDeadline::Never => u128::MAX,
        }
    }

    /// How much time is left.
    pub fn remaining(self, now: u128) -> (r: u128)
        ensures
            r == self.spec_remaining(now),
    {
        match self {
            ShutdownDeadline::At(at) => if now >= at {
                0
            } else {
                at - now
            },
            ShutdownDeadline::Never => u128::MAX,
        }
    }

    /// How long a poll may wait.
    pub fn poll_timeout(self, now: u128) -> (r: PollTimeout)
        ensures
            r == PollTimeout::Millis(millis_of(self.spec_remaining(now) as nat) as i32),
    {
        PollTimeout::Millis(to_millis(self.remaining(now)))
    }

    pub open spec fn spec_expired(self, now: u128) -> bool {
        self.spec_remaining(now) == 0
    }

    /// Whether no time is left.
    pub fn expired(self, now: u128) -> (r: bool)
        ensures
            r == self.spec_expired(now),
    {
        self.remaining(now) == 0
    }
}

// ---------------------------------------------------------------------------
// Signals and children
// ---------------------------------------------------------------------------

/// What became of a child.
#[derive(Clone, Copy, Debug, PartialEq, Eq, Structural)]
pub enum WaitStatus {
    Exited(u32, u8),
    Signaled(u32, u8, bool),
    Stopped(u32, u8),
    Continued(u32),
    StillAlive,
}

/// Whether to ask for more.
#[derive(Clone, Copy, Debug, PartialEq, Eq, Structural)]
pub enum WaitLoop {
    Continue,
    Break,
}

pub open spec fn spec_drain_action(status: WaitStatus) -> WaitLoop {
    if status is StillAlive {
        WaitLoop::Break
    } else {
        WaitLoop::Continue
    }
}

/// Whether more children may have changed.
pub fn wait_status_drain_action(status: WaitStatus) -> (r: WaitLoop)
    ensures
        r == spec_drain_action(status),
{
    match status {
        WaitStatus::StillAlive => WaitLoop::Break,
        WaitStatus::Exited(..) | WaitStatus::Signaled(..) | WaitStatus::Stopped(..)
        | WaitStatus::Continued(..) => WaitLoop::Continue,
    }
}

pub open spec fn spec_poll_failed(events: u16) -> bool {
    events & POLLERR != 0 || events & POLLHUP != 0 || events & POLLNVAL != 0
}

/// Whether a poll of the signals ended with anything but signals.
pub fn signal_fd_poll_failed(events: u16) -> (r: bool)
    ensures
        r == spec_poll_failed(events),
{
    events & POLLERR != 0 || events & POLLHUP != 0 || events & POLLNVAL != 0
}

pub open spec fn spec_is_termination(sig: i32) -> bool {
    sig == SIGTERM || sig == SIGINT || sig == SIGQUIT
}

/// Whether a signal asks the child to end.
pub fn is_termination_signal(sig: i32) -> (r: bool)
    ensures
        r == spec_is_termination(sig),
{
    sig == SIGTERM || sig == SIGINT || sig == SIGQUIT
}

/// The exit code that is passed on: nothing but the chosen codes are turned into 0.
pub open spec fn remapped(code: int, zero: Seq<bool>) -> int {
    if 0 <= code < 256 && zero[code] {
        0
    } else {
        code
    }
}

/// The exit code that is passed on.
pub fn compute_exit_code(code: i32, expect_zero: &[bool; 256]) -> (r: i32)
    ensures
        r == remapped(code as int, expect_zero@),
{
    if 0 <= code && code < 256 && expect_zero[code as usize] {
        0
    } else {
        code
    }
}

// ---------------------------------------------------------------------------
// Requests and events
// ---------------------------------------------------------------------------

/// What the supervisor is asked to do for a command.
#[derive(Clone, Copy, Debug)]
pub struct Settings {
    pub grace_ms: u64,
    pub warn_on_reap: bool,
    /// Whether the child leads a process group of its own.
    pub use_pgroup: bool,
    /// Whether the child was given the terminal.
    pub foreground: bool,
    /// The child.
    pub child: u32,
}

/// What came of a request.
#[derive(Debug)]
pub enum Event {
    /// The poll ended, with these events.
    Polled(u16),
    PollFailed(Failure),
    /// A signal was there, sent by this process or by another one.
    Signal { number: i32, own: bool },
    NoSignal,
    SignalFailed(Failure),
    /// A child was looked at.
    Waited(WaitStatus),
    WaitFailed(Failure),
    /// The job was suspended, or not. A signal to continue is `kept` where it is not among those
    /// that are read.
    Suspended { stopped: bool, kept: bool },
    GroupExists(bool),
    GroupUnknown(Failure),
    Sent,
    SendFailed(Failure),
    Slept,
}

/// What is done at once, before the next request.
#[derive(Debug)]
pub enum Effect {
    /// Give the terminal back to the job and let it go on.
    ResumeJob,
    /// Send a signal to the child, and to its group where it has one.
    Forward(i32),
    /// Send a signal to the group of the child.
    SignalGroup(i32),
    Log(Level, String),
}

/// What an [`Effect`] is.
pub enum EffectModel {
    ResumeJob,
    Forward(i32),
    SignalGroup(i32),
    Log(Level, Seq<char>),
}

impl View for Effect {
    type V = EffectModel;

    open spec fn view(&self) -> EffectModel {
        match *self {
            Effect::ResumeJob => EffectModel::ResumeJob,
            Effect::Forward(sig) => EffectModel::Forward(sig),
            Effect::SignalGroup(sig) => EffectModel::SignalGroup(sig),
            Effect::Log(level, text) => EffectModel::Log(level, text@),
        }
    }
}

pub open spec fn view_effects(v: Seq<Effect>) -> Seq<EffectModel> {
    Seq::new(v.len(), |i: int| v[i]@)
}

/// What the supervisor asks for.
#[derive(Debug)]
pub enum Request {
    /// Wait for signals.
    Poll(PollTimeout),
    /// Read a signal, if there is one.
    ReadSignal,
    /// Look for a child that changed.
    WaitAny,
    /// Wait for the child.
    WaitChild,
    /// Look for a changed child in the group.
    WaitGroup,
    /// Stop along with the job.
    SuspendJob,
    /// Ask whether the group is still there.
    QueryGroup,
    /// Kill the child.
    KillChild,
    /// Kill the group.
    KillGroup,
    /// Pause, for some nanoseconds.
    Sleep(u128),
    /// It is over, with this exit code.
    Exit(i32),
    /// It is over, with an error.
    Fail(Error),
}

/// What a [`Request`] is.
pub enum RequestModel {
    Poll(PollTimeout),
    ReadSignal,
    WaitAny,
    WaitChild,
    WaitGroup,
    SuspendJob,
    QueryGroup,
    KillChild,
    KillGroup,
    Sleep(u128),
    Exit(int),
    Fail(ErrorModel),
}

impl View for Request {
    type V = RequestModel;

    open spec fn view(&self) -> RequestModel {
        match *self {
            Request::Poll(t) => RequestModel::Poll(t),
            Request::ReadSignal => RequestModel::ReadSignal,
            Request::WaitAny => RequestModel::WaitAny,
            Request::WaitChild => RequestModel::WaitChild,
            Request::WaitGroup => RequestModel::WaitGroup,
            Request::SuspendJob => RequestModel::SuspendJob,
            Request::QueryGroup => RequestModel::QueryGroup,
            Request::KillChild => RequestModel::KillChild,
            Request::KillGroup => RequestModel::KillGroup,
            Request::Sleep(t) => RequestModel::Sleep(t),
            Request::Exit(code) => RequestModel::Exit(code as int),
            Request::Fail(e) => RequestModel::Fail(e@),
        }
    }
}

/// What the supervisor waits for.
#[derive(Clone, Copy, Debug, PartialEq, Eq, Structural)]
pub enum Phase {
    /// Signals, while the child runs.
    Polling,
    Reading,
    Waiting,
    Suspending,
    /// The rest of the children, once the child has ended.
    CleanReading,
    CleanReaping,
    CleanQuerying,
    CleanPolling,
    /// The end of the child, after a failure.
    KillingChild,
    AwaitingChild,
    AwaitingGroup,
    KillingGroup,
    Sleeping,
    Over,
}

/// What the supervisor knows.
#[derive(Clone, Copy, Debug)]
pub struct Core {
    pub phase: Phase,
    /// How the child ended.
    pub main_exit: Option<u16>,
    /// When the child is killed.
    pub deadline: Option<ShutdownDeadline>,
    pub killed: bool,
    /// Whether the job has to be suspended.
    pub suspend: bool,
    /// Whether the child was stopped or continued, as far as it was looked at.
    pub stopped: Option<bool>,
    /// How many signals may still be read.
    pub budget: u8,
    /// When the present stage of cleaning up ends.
    pub clean: ShutdownDeadline,
    /// Whether a request to terminate ends that stage.
    pub interruptible: bool,
    /// Whether there was such a request.
    pub terminate: bool,
    /// Whether the group was killed after a failure.
    pub group_killed: bool,
}

/// The supervisor, with the error that it ends with, if any.
#[derive(Debug)]
pub struct Supervisor {
    pub core: Core,
    pub error: Option<Error>,
}

/// What a [`Supervisor`] holds.
pub struct SupervisorModel {
    pub core: Core,
    pub error: Option<ErrorModel>,
}

impl View for Supervisor {
    type V = SupervisorModel;

    open spec fn view(&self) -> SupervisorModel {
        SupervisorModel {
            core: self.core,
            error: match self.error {
                Some(e) => Some(e@),
                None => None,
            },
        }
    }
}

/// One step: the supervisor after it, what it does at once, and what it asks for.
#[derive(Debug)]
pub struct Step {
    pub next: Supervisor,
    pub effects: Vec<Effect>,
    pub request: Request,
}

/// What a [`Step`] is.
pub struct StepModel {
    pub next: SupervisorModel,
    pub effects: Seq<EffectModel>,
    pub request: RequestModel,
}

impl View for Step {
    type V = StepModel;

    open spec fn view(&self) -> StepModel {
        StepModel {
            next: self.next@,
            effects: view_effects(self.effects@),
            request: self.request@,
        }
    }
}

// ---------------------------------------------------------------------------
// While the child runs
// ---------------------------------------------------------------------------

pub open spec fn ask(core: Core, effects: Seq<EffectModel>, request: RequestModel) -> StepModel {
    StepModel { next: SupervisorModel { core, error: None }, effects, request }
}

pub open spec fn spec_log(effects: Seq<EffectModel>, level: Level, text: Seq<char>) -> Seq<
    EffectModel,
> {
    effects.push(EffectModel::Log(level, text))
}

/// The supervisor waits for signals, but no longer than until the child has to be killed.
pub open spec fn go_poll(core: Core, fx: Seq<EffectModel>, now: u128) -> StepModel {
    ask(
        Core { phase: Phase::Polling, ..core },
        fx,
        RequestModel::Poll(
            match core.deadline {
                Some(d) if !core.killed && core.main_exit is None => PollTimeout::Millis(
                    millis_of(d.spec_remaining(now) as nat) as i32,
                ),
                _ => PollTimeout::Block,
            },
        ),
    )
}

/// What follows a batch of signals: the child is killed once its time is up, the rest is cleaned
/// up once it has ended, and a stopped job is suspended.
pub open spec fn after_batch(set: Settings, core: Core, fx: Seq<EffectModel>, now: u128) -> StepModel {
    let due = core.deadline matches Some(ShutdownDeadline::At(at)) && !core.killed
        && core.main_exit is None && now >= at;
    let core = if due {
        Core { killed: true, ..core }
    } else {
        core
    };
    let fx = if due {
        spec_log(fx, Level::Info, "grace period expired; sending SIGKILL"@).push(
            EffectModel::Forward(SIGKILL),
        )
    } else {
        fx
    };
    if core.main_exit is Some {
        start_cleanup(set, core, fx, now)
    } else if core.suspend && core.deadline is None && set.foreground {
        ask(Core { phase: Phase::Suspending, ..core }, fx, RequestModel::SuspendJob)
    } else {
        go_poll(core, fx, now)
    }
}

/// The next signal is read, unless the batch is full.
pub open spec fn next_signal(set: Settings, core: Core, fx: Seq<EffectModel>, now: u128) -> StepModel {
    if core.budget > 0 {
        ask(Core { phase: Phase::Reading, ..core }, fx, RequestModel::ReadSignal)
    } else {
        after_batch(set, core, fx, now)
    }
}

/// Whether there is a deadline and it has passed.
pub open spec fn is_over(deadline: Option<ShutdownDeadline>, now: u128) -> bool {
    match deadline {
        Some(d) => d.spec_expired(now),
        None => false,
    }
}

/// What follows a signal that was dealt with: the batch ends early where the child has ended or
/// has to be killed.
pub open spec fn after_signal(set: Settings, core: Core, fx: Seq<EffectModel>, now: u128) -> StepModel {
    if core.main_exit is Some || (!core.killed && is_over(core.deadline, now)) {
        after_batch(set, core, fx, now)
    } else {
        next_signal(set, core, fx, now)
    }
}

/// The deadline once a signal was forwarded. The first request to terminate starts the grace
/// period, and the second one ends it.
pub open spec fn next_deadline(set: Settings, core: Core, sig: i32, now: u128) -> Option<
    ShutdownDeadline,
> {
    if spec_is_termination(sig) && core.main_exit is None && !core.killed {
        match core.deadline {
            None => Some(ShutdownDeadline::spec_after(now, set.grace_ms)),
            Some(_) => Some(ShutdownDeadline::At(now)),
        }
    } else {
        core.deadline
    }
}

/// A signal while the child runs. A signal that says the child changed is followed up, signals
/// about the terminal are left alone, and all others are forwarded.
pub open spec fn on_signal(set: Settings, core: Core, sig: i32, own: bool, now: u128) -> StepModel {
    let core = Core { budget: (core.budget - 1) as u8, ..core };
    let none = Seq::<EffectModel>::empty();
    if sig == SIGPIPE && own {
        next_signal(set, core, none, now)
    } else if sig == SIGCHLD {
        ask(
            Core { phase: Phase::Waiting, stopped: None, ..core },
            none,
            RequestModel::WaitAny,
        )
    } else if sig == SIGTTIN || sig == SIGTTOU {
        after_signal(
            set,
            core,
            spec_log(none, Level::Debug, "ignoring signal "@ + text::decimal(sig as nat)),
            now,
        )
    } else {
        let fx = if sig == SIGCONT && set.foreground {
            none.push(EffectModel::ResumeJob)
        } else {
            none
        };
        after_signal(
            set,
            Core {
                suspend: core.suspend && sig != SIGCONT,
                deadline: next_deadline(set, core, sig, now),
                ..core
            },
            fx.push(EffectModel::Forward(sig)),
            now,
        )
    }
}

/// What is said of a child that changed.
pub open spec fn status_log(status: WaitStatus, warn: bool) -> Option<(Level, Seq<char>)> {
    let level = if warn {
        Level::Warn
    } else {
        Level::Debug
    };
    match status {
        WaitStatus::Exited(pid, _) | WaitStatus::Signaled(pid, _, _) => Some(
            (level, "reaped secondary PID "@ + text::decimal(pid as nat)),
        ),
        WaitStatus::Stopped(pid, sig) => Some(
            (
                level,
                "child PID "@ + text::decimal(pid as nat) + " stopped by signal "@ + text::decimal(
                    sig as nat,
                ),
            ),
        ),
        WaitStatus::Continued(_) | WaitStatus::StillAlive => None,
    }
}

pub open spec fn logged(fx: Seq<EffectModel>, log: Option<(Level, Seq<char>)>) -> Seq<EffectModel> {
    match log {
        Some((level, text)) => spec_log(fx, level, text),
        None => fx,
    }
}

/// How the child ended, where a change says so: with its exit code, or 128 and the signal that
/// killed it.
pub open spec fn exit_of(status: WaitStatus, child: u32) -> Option<u16> {
    match status {
        WaitStatus::Exited(pid, code) if pid == child => Some(code as u16),
        WaitStatus::Signaled(pid, sig, _) if pid == child => Some((128 + sig) as u16),
        _ => None,
    }
}

/// Whether the child was stopped or continued, where a change says so.
pub open spec fn stop_of(status: WaitStatus, child: u32) -> Option<bool> {
    match status {
        WaitStatus::Stopped(pid, _) if pid == child => Some(true),
        WaitStatus::Continued(pid) if pid == child => Some(false),
        _ => None,
    }
}

/// What is known after a change of a child.
pub open spec fn noted(set: Settings, core: Core, status: WaitStatus) -> Core {
    Core {
        main_exit: if exit_of(status, set.child) is Some {
            exit_of(status, set.child)
        } else {
            core.main_exit
        },
        stopped: if stop_of(status, set.child) is Some {
            stop_of(status, set.child)
        } else {
            core.stopped
        },
        ..core
    }
}

/// All changed children were looked at. A job whose child has ended is not suspended.
pub open spec fn waited_all(set: Settings, core: Core, fx: Seq<EffectModel>, now: u128) -> StepModel {
    let stopped = if core.main_exit is Some {
        Some(false)
    } else {
        core.stopped
    };
    after_signal(
        set,
        Core {
            suspend: match stopped {
                Some(s) => s,
                None => core.suspend,
            },
            ..core
        },
        fx,
        now,
    )
}

/// A change of a child while the child runs.
pub open spec fn on_waited(set: Settings, core: Core, status: WaitStatus, now: u128) -> StepModel {
    let fx = if exit_of(status, set.child) is Some {
        Seq::empty()
    } else {
        logged(Seq::empty(), status_log(status, set.warn_on_reap))
    };
    let core = noted(set, core, status);
    match spec_drain_action(status) {
        WaitLoop::Continue => ask(core, fx, RequestModel::WaitAny),
        WaitLoop::Break => waited_all(set, core, fx, now),
    }
}

/// A failed look at the children while the child runs. To have no children left is right only
/// once the child has ended.
pub open spec fn on_wait_failed(set: Settings, core: Core, errno: i32, text: Seq<char>, now: u128) -> StepModel {
    if errno == ECHILD && core.main_exit is Some {
        waited_all(set, core, Seq::empty(), now)
    } else if errno == ECHILD {
        fail(
            set,
            core,
            error::failure(
                "main child is no longer waitable before its exit status was observed"@,
            ),
            Seq::empty(),
            now,
        )
    } else if errno == EINTR {
        ask(core, Seq::empty(), RequestModel::WaitAny)
    } else {
        fail(set, core, error::failure("waitpid: "@ + text), Seq::empty(), now)
    }
}

/// The end of a poll while the child runs.
pub open spec fn on_polled(set: Settings, core: Core, events: u16, now: u128) -> StepModel {
    if spec_poll_failed(events) {
        fail(
            set,
            core,
            error::failure(
                "signal fd poll failed with events PollFlags("@ + text::decimal(events as nat)
                    + ")"@,
            ),
            Seq::empty(),
            now,
        )
    } else {
        let core = Core { suspend: false, budget: SIGNAL_BATCH_LIMIT, ..core };
        if events & POLLIN != 0 {
            next_signal(set, core, Seq::empty(), now)
        } else {
            after_batch(set, core, Seq::empty(), now)
        }
    }
}

/// The job was suspended and runs again. Where the signal that continued it is not read, the job
/// is continued here.
pub open spec fn on_suspended(core: Core, stopped: bool, kept: bool, now: u128) -> StepModel {
    go_poll(
        core,
        if stopped && kept {
            seq![EffectModel::ResumeJob, EffectModel::Forward(SIGCONT)]
        } else {
            Seq::empty()
        },
        now,
    )
}

// ---------------------------------------------------------------------------
// Cleaning up
// ---------------------------------------------------------------------------

/// A round of cleaning up starts with the signals that are there.
pub open spec fn clean_round(core: Core, fx: Seq<EffectModel>) -> StepModel {
    ask(
        Core {
            phase: Phase::CleanReading,
            terminate: false,
            budget: SIGNAL_BATCH_LIMIT,
            ..core
        },
        fx,
        RequestModel::ReadSignal,
    )
}

/// The child has ended. The rest of its group is asked to end, and has as long as the child had,
/// counted from the first request to terminate.
pub open spec fn start_cleanup(set: Settings, core: Core, fx: Seq<EffectModel>, now: u128) -> StepModel {
    let clean = match core.deadline {
        Some(d) => d,
        None => ShutdownDeadline::spec_after(now, set.grace_ms),
    };
    let core = Core { clean, interruptible: true, ..core };
    if set.use_pgroup {
        clean_round(
            core,
            spec_log(fx, Level::Info, "sending SIGTERM to PGID"@).push(
                EffectModel::SignalGroup(SIGTERM),
            ),
        )
    } else {
        clean_round(core, fx)
    }
}

/// The signals of a round were read: now the children.
pub open spec fn clean_reap(core: Core, fx: Seq<EffectModel>) -> StepModel {
    ask(Core { phase: Phase::CleanReaping, ..core }, fx, RequestModel::WaitAny)
}

pub open spec fn clean_next(core: Core, fx: Seq<EffectModel>) -> StepModel {
    if core.budget > 0 {
        ask(Core { phase: Phase::CleanReading, ..core }, fx, RequestModel::ReadSignal)
    } else {
        clean_reap(core, fx)
    }
}

/// A signal while cleaning up.
pub open spec fn on_clean_signal(set: Settings, core: Core, sig: i32, own: bool, now: u128) -> StepModel {
    let core = Core { budget: (core.budget - 1) as u8, ..core };
    let none = Seq::<EffectModel>::empty();
    if (sig == SIGPIPE && own) || sig == SIGCHLD || sig == SIGTTIN || sig == SIGTTOU {
        clean_next(core, none)
    } else {
        let fx = if set.use_pgroup {
            none.push(EffectModel::SignalGroup(sig))
        } else {
            none
        };
        let core = Core { terminate: core.terminate || spec_is_termination(sig), ..core };
        if (core.interruptible && core.terminate) || core.clean.spec_expired(now) {
            clean_reap(core, fx)
        } else {
            clean_next(core, fx)
        }
    }
}

/// A round of cleaning up is over: everything is gone, time is up, or another round follows.
pub open spec fn clean_judge(
    set: Settings,
    core: Core,
    zero: Seq<bool>,
    gone: bool,
    fx: Seq<EffectModel>,
    now: u128,
) -> StepModel {
    if gone {
        clean_done(set, core, zero, true, fx, now)
    } else {
        let remaining = core.clean.spec_remaining(now);
        if (core.interruptible && core.terminate) || remaining == 0 {
            clean_done(set, core, zero, false, fx, now)
        } else {
            ask(
                Core { phase: Phase::CleanPolling, ..core },
                fx,
                RequestModel::Poll(
                    PollTimeout::Millis(
                        millis_of(
                            (if remaining < PAUSE {
                                remaining
                            } else {
                                PAUSE
                            }) as nat,
                        ) as i32,
                    ),
                ),
            )
        }
    }
}

/// The exit code that is passed on.
pub open spec fn final_code(core: Core, zero: Seq<bool>) -> int {
    match core.main_exit {
        Some(code) => remapped(code as int, zero),
        None => 0,
    }
}

/// The supervision is over.
pub open spec fn leave(core: Core, zero: Seq<bool>, fx: Seq<EffectModel>) -> StepModel {
    ask(
        Core { phase: Phase::Over, ..core },
        spec_log(fx, Level::Info, "exiting with "@ + text::decimal(final_code(core, zero) as nat)),
        RequestModel::Exit(final_code(core, zero)),
    )
}

/// A stage of cleaning up is over. A group that is still there is killed, once, and then has
/// another grace period in which to go.
pub open spec fn clean_done(
    set: Settings,
    core: Core,
    zero: Seq<bool>,
    gone: bool,
    fx: Seq<EffectModel>,
    now: u128,
) -> StepModel {
    if !set.use_pgroup || gone {
        leave(core, zero, fx)
    } else if core.interruptible {
        clean_round(
            Core {
                clean: ShutdownDeadline::spec_after(now, set.grace_ms),
                interruptible: false,
                ..core
            },
            spec_log(fx, Level::Info, "process group still alive; sending SIGKILL"@).push(
                EffectModel::SignalGroup(SIGKILL),
            ),
        )
    } else {
        leave(
            core,
            zero,
            spec_log(
                fx,
                Level::Warn,
                "process group still alive after SIGKILL wait of "@ + text::decimal(
                    set.grace_ms as nat,
                ) + " ms"@,
            ),
        )
    }
}

/// The children that are there were all looked at. A group counts as gone when it is gone, and
/// not only the children in it.
pub open spec fn clean_reaped(
    set: Settings,
    core: Core,
    zero: Seq<bool>,
    gone: bool,
    fx: Seq<EffectModel>,
    now: u128,
) -> StepModel {
    if set.use_pgroup {
        ask(Core { phase: Phase::CleanQuerying, ..core }, fx, RequestModel::QueryGroup)
    } else {
        clean_judge(set, core, zero, gone, fx, now)
    }
}

/// A change of a child while cleaning up.
pub open spec fn on_clean_waited(
    set: Settings,
    core: Core,
    zero: Seq<bool>,
    status: WaitStatus,
    now: u128,
) -> StepModel {
    let fx = logged(Seq::empty(), status_log(status, set.warn_on_reap));
    match spec_drain_action(status) {
        WaitLoop::Continue => ask(core, fx, RequestModel::WaitAny),
        WaitLoop::Break => clean_reaped(set, core, zero, false, fx, now),
    }
}

/// A failed look at the children while cleaning up.
pub open spec fn on_clean_wait_failed(
    set: Settings,
    core: Core,
    zero: Seq<bool>,
    errno: i32,
    text: Seq<char>,
    now: u128,
) -> StepModel {
    if errno == ECHILD {
        clean_reaped(set, core, zero, true, Seq::empty(), now)
    } else if errno == EINTR {
        ask(core, Seq::empty(), RequestModel::WaitAny)
    } else {
        fail(set, core, error::failure("waitpid: "@ + text), Seq::empty(), now)
    }
}

// ---------------------------------------------------------------------------
// After a failure
// ---------------------------------------------------------------------------

pub open spec fn ask_failing(
    core: Core,
    e: ErrorModel,
    fx: Seq<EffectModel>,
    request: RequestModel,
) -> StepModel {
    StepModel { next: SupervisorModel { core, error: Some(e) }, effects: fx, request }
}

/// The supervision failed. Nothing is left behind: a child that has not ended is killed, and so
/// is its group.
pub open spec fn fail(
    set: Settings,
    core: Core,
    e: ErrorModel,
    fx: Seq<EffectModel>,
    now: u128,
) -> StepModel {
    if core.main_exit is None {
        ask_failing(
            Core { phase: Phase::KillingChild, ..core },
            e,
            if set.use_pgroup {
                fx.push(EffectModel::SignalGroup(SIGKILL))
            } else {
                fx
            },
            RequestModel::KillChild,
        )
    } else {
        fail_group(set, core, e, fx, now)
    }
}

pub open spec fn give_up(core: Core, e: ErrorModel, fx: Seq<EffectModel>) -> StepModel {
    ask(Core { phase: Phase::Over, ..core }, fx, RequestModel::Fail(e))
}

pub open spec fn fail_group(
    set: Settings,
    core: Core,
    e: ErrorModel,
    fx: Seq<EffectModel>,
    now: u128,
) -> StepModel {
    if set.use_pgroup {
        ask_failing(
            Core {
                phase: Phase::AwaitingGroup,
                clean: ShutdownDeadline::spec_after(now, set.grace_ms),
                group_killed: false,
                ..core
            },
            e,
            fx,
            RequestModel::WaitGroup,
        )
    } else {
        give_up(core, e, fx)
    }
}

/// A warning in the middle of ending a child.
pub open spec fn warned(text: Seq<char>, cause: Seq<char>) -> Seq<EffectModel> {
    spec_log(Seq::empty(), Level::Warn, text + cause)
}

/// The child was sent a signal to end it after a failure.
pub open spec fn on_child_killed(
    set: Settings,
    core: Core,
    e: ErrorModel,
    problem: Option<(i32, Seq<char>)>,
    now: u128,
) -> StepModel {
    match problem {
        Some((errno, text)) if errno != ESRCH => fail_group(
            set,
            core,
            e,
            warned("terminate child after supervision failure: "@, text),
            now,
        ),
        _ => ask_failing(
            Core { phase: Phase::AwaitingChild, ..core },
            e,
            Seq::empty(),
            RequestModel::WaitChild,
        ),
    }
}

/// The child was waited for after a failure.
pub open spec fn on_child_awaited(
    set: Settings,
    core: Core,
    e: ErrorModel,
    status: WaitStatus,
    now: u128,
) -> StepModel {
    if status is Exited || status is Signaled {
        fail_group(set, core, e, Seq::empty(), now)
    } else {
        ask_failing(core, e, Seq::empty(), RequestModel::WaitChild)
    }
}

/// The child could not be waited for after a failure.
pub open spec fn on_child_lost(
    set: Settings,
    core: Core,
    e: ErrorModel,
    errno: i32,
    text: Seq<char>,
    now: u128,
) -> StepModel {
    if errno == ECHILD {
        fail_group(set, core, e, Seq::empty(), now)
    } else if errno == EINTR {
        ask_failing(core, e, Seq::empty(), RequestModel::WaitChild)
    } else {
        fail_group(set, core, e, warned("reap child after supervision failure: "@, text), now)
    }
}

/// The group was looked at after a failure. A child that still waits to be looked at shows that
/// the group is this one, so that it may be killed.
pub open spec fn on_group_awaited(core: Core, e: ErrorModel, status: WaitStatus, now: u128) -> StepModel {
    if status !is StillAlive {
        ask_failing(core, e, Seq::empty(), RequestModel::WaitGroup)
    } else if !core.group_killed {
        ask_failing(
            Core { phase: Phase::KillingGroup, ..core },
            e,
            Seq::empty(),
            RequestModel::KillGroup,
        )
    } else {
        let remaining = core.clean.spec_remaining(now);
        if remaining == 0 {
            give_up(
                core,
                e,
                spec_log(
                    Seq::empty(),
                    Level::Warn,
                    "child group still waitable after supervision failure cleanup"@,
                ),
            )
        } else {
            ask_failing(
                Core { phase: Phase::Sleeping, ..core },
                e,
                Seq::empty(),
                RequestModel::Sleep(
                    if remaining < PAUSE {
                        remaining
                    } else {
                        PAUSE
                    },
                ),
            )
        }
    }
}

/// The group could not be looked at after a failure.
pub open spec fn on_group_lost(core: Core, e: ErrorModel, errno: i32, text: Seq<char>) -> StepModel {
    if errno == ECHILD {
        give_up(core, e, Seq::empty())
    } else if errno == EINTR {
        ask_failing(core, e, Seq::empty(), RequestModel::WaitGroup)
    } else {
        give_up(core, e, warned("reap child group after supervision failure: "@, text))
    }
}

// ---------------------------------------------------------------------------
// The machine
// ---------------------------------------------------------------------------

/// Whether an event answers what is asked for in a phase.
pub open spec fn answers(phase: Phase, event: Event) -> bool {
    match phase {
        Phase::Polling | Phase::CleanPolling => event is Polled || event is PollFailed,
        Phase::Reading | Phase::CleanReading => event is Signal || event is NoSignal
            || event is SignalFailed,
        Phase::Waiting | Phase::CleanReaping | Phase::AwaitingChild | Phase::AwaitingGroup =>
            event is Waited || event is WaitFailed,
        Phase::Suspending => event is Suspended,
        Phase::CleanQuerying => event is GroupExists || event is GroupUnknown,
        Phase::KillingChild | Phase::KillingGroup => event is Sent || event is SendFailed,
        Phase::Sleeping => event is Slept,
        Phase::Over => false,
    }
}

/// The error that a failing supervisor ends with.
pub open spec fn held(s: SupervisorModel) -> ErrorModel {
    match s.error {
        Some(e) => e,
        None => error::failure(""@),
    }
}

/// What follows an event.
pub open spec fn stepped(
    set: Settings,
    zero: Seq<bool>,
    s: SupervisorModel,
    event: Event,
    now: u128,
) -> StepModel {
    let core = s.core;
    let none = Seq::<EffectModel>::empty();
    match (core.phase, event) {
        (Phase::Polling, Event::Polled(events)) => on_polled(set, core, events, now),
        (Phase::Polling, Event::PollFailed(f)) => if f.errno == EINTR {
            go_poll(core, none, now)
        } else {
            fail(set, core, error::caused("poll"@, error::failure(f.text@)), none, now)
        },
        (Phase::Reading, Event::Signal { number, own }) => on_signal(set, core, number, own, now),
        (Phase::Reading, Event::NoSignal) => after_batch(set, core, none, now),
        (Phase::Reading, Event::SignalFailed(f)) => fail(
            set,
            core,
            error::failure(f.text@),
            none,
            now,
        ),
        (Phase::Waiting, Event::Waited(status)) => on_waited(set, core, status, now),
        (Phase::Waiting, Event::WaitFailed(f)) => on_wait_failed(set, core, f.errno, f.text@, now),
        (Phase::Suspending, Event::Suspended { stopped, kept }) => on_suspended(
            core,
            stopped,
            kept,
            now,
        ),
        (Phase::CleanReading, Event::Signal { number, own }) => on_clean_signal(
            set,
            core,
            number,
            own,
            now,
        ),
        (Phase::CleanReading, Event::NoSignal) => clean_reap(core, none),
        (Phase::CleanReading, Event::SignalFailed(f)) => fail(
            set,
            core,
            error::failure(f.text@),
            none,
            now,
        ),
        (Phase::CleanReaping, Event::Waited(status)) => on_clean_waited(
            set,
            core,
            zero,
            status,
            now,
        ),
        (Phase::CleanReaping, Event::WaitFailed(f)) => on_clean_wait_failed(
            set,
            core,
            zero,
            f.errno,
            f.text@,
            now,
        ),
        (Phase::CleanQuerying, Event::GroupExists(there)) => clean_judge(
            set,
            core,
            zero,
            !there,
            none,
            now,
        ),
        (Phase::CleanQuerying, Event::GroupUnknown(f)) => fail(
            set,
            core,
            error::caused(
                "query process group "@ + text::decimal(set.child as nat),
                error::failure(f.text@),
            ),
            none,
            now,
        ),
        (Phase::CleanPolling, Event::Polled(events)) => if spec_poll_failed(events) {
            fail(
                set,
                core,
                error::failure("signal fd poll failed during child cleanup"@),
                none,
                now,
            )
        } else {
            clean_round(core, none)
        },
        (Phase::CleanPolling, Event::PollFailed(f)) => if f.errno == EINTR {
            clean_round(core, none)
        } else {
            fail(
                set,
                core,
                error::caused("poll during child cleanup"@, error::failure(f.text@)),
                none,
                now,
            )
        },
        (Phase::KillingChild, Event::Sent) => on_child_killed(set, core, held(s), None, now),
        (Phase::KillingChild, Event::SendFailed(f)) => on_child_killed(
            set,
            core,
            held(s),
            Some((f.errno, f.text@)),
            now,
        ),
        (Phase::AwaitingChild, Event::Waited(status)) => on_child_awaited(
            set,
            core,
            held(s),
            status,
            now,
        ),
        (Phase::AwaitingChild, Event::WaitFailed(f)) => on_child_lost(
            set,
            core,
            held(s),
            f.errno,
            f.text@,
            now,
        ),
        (Phase::AwaitingGroup, Event::Waited(status)) => on_group_awaited(
            core,
            held(s),
            status,
            now,
        ),
        (Phase::AwaitingGroup, Event::WaitFailed(f)) => on_group_lost(
            core,
            held(s),
            f.errno,
            f.text@,
        ),
        (Phase::KillingGroup, Event::Sent) => ask_failing(
            Core { phase: Phase::AwaitingGroup, group_killed: true, ..core },
            held(s),
            none,
            RequestModel::WaitGroup,
        ),
        (Phase::KillingGroup, Event::SendFailed(f)) => give_up(
            core,
            held(s),
            warned("terminate child group after supervision failure: "@, f.text@),
        ),
        (Phase::Sleeping, Event::Slept) => ask_failing(
            Core { phase: Phase::AwaitingGroup, ..core },
            held(s),
            none,
            RequestModel::WaitGroup,
        ),
        _ => give_up(core, held(s), none),
    }
}

/// What a supervisor knows at the start.
pub open spec fn fresh() -> Core {
    Core {
        phase: Phase::Polling,
        main_exit: None,
        deadline: None,
        killed: false,
        suspend: false,
        stopped: None,
        budget: 0,
        clean: ShutdownDeadline::Never,
        interruptible: false,
        terminate: false,
        group_killed: false,
    }
}

fn step(core: Core, effects: Vec<Effect>, request: Request) -> (r: Step)
    ensures
        r@ == ask(core, view_effects(effects@), request@),
{
    Step { next: Supervisor { core, error: None }, effects, request }
}

fn failing(core: Core, error: Error, effects: Vec<Effect>, request: Request) -> (r: Step)
    ensures
        r@ == ask_failing(core, error@, view_effects(effects@), request@),
{
    Step { next: Supervisor { core, error: Some(error) }, effects, request }
}

fn nothing() -> (r: Vec<Effect>)
    ensures
        view_effects(r@) == Seq::<EffectModel>::empty(),
{
    let r: Vec<Effect> = Vec::new();
    proof {
        assert(view_effects(r@) =~= Seq::<EffectModel>::empty());
    }
    r
}

fn push(fx: &mut Vec<Effect>, effect: Effect)
    ensures
        view_effects(final(fx)@) == view_effects(old(fx)@).push(effect@),
{
    fx.push(effect);
    proof {
        assert(view_effects(fx@) =~= view_effects(old(fx)@).push(effect@));
    }
}

fn say(fx: &mut Vec<Effect>, level: Level, text: &str)
    ensures
        view_effects(final(fx)@) == spec_log(view_effects(old(fx)@), level, text@),
{
    push(fx, Effect::Log(level, text.to_owned()));
}

fn do_poll(core: Core, fx: Vec<Effect>, now: u128) -> (r: Step)
    ensures
        r@ == go_poll(core, view_effects(fx@), now),
{
    let timeout = match core.deadline {
        Some(d) => if !core.killed && core.main_exit.is_none() {
            d.poll_timeout(now)
        } else {
            PollTimeout::Block
        },
        None => PollTimeout::Block,
    };
    step(Core { phase: Phase::Polling, ..core }, fx, Request::Poll(timeout))
}

fn do_after_batch(set: Settings, core: Core, fx: Vec<Effect>, now: u128) -> (r: Step)
    ensures
        r@ == after_batch(set, core, view_effects(fx@), now),
{
    let mut core = core;
    let mut fx = fx;
    if !core.killed && core.main_exit.is_none() {
        if let Some(ShutdownDeadline::At(at)) = core.deadline {
            if now >= at {
                say(&mut fx, Level::Info, "grace period expired; sending SIGKILL");
                push(&mut fx, Effect::Forward(SIGKILL));
                core.killed = true;
            }
        }
    }
    if core.main_exit.is_some() {
        do_start_cleanup(set, core, fx, now)
    } else if core.suspend && core.deadline.is_none() && set.foreground {
        step(Core { phase: Phase::Suspending, ..core }, fx, Request::SuspendJob)
    } else {
        do_poll(core, fx, now)
    }
}

fn do_next_signal(set: Settings, core: Core, fx: Vec<Effect>, now: u128) -> (r: Step)
    ensures
        r@ == next_signal(set, core, view_effects(fx@), now),
{
    if core.budget > 0 {
        step(Core { phase: Phase::Reading, ..core }, fx, Request::ReadSignal)
    } else {
        do_after_batch(set, core, fx, now)
    }
}

fn do_after_signal(set: Settings, core: Core, fx: Vec<Effect>, now: u128) -> (r: Step)
    ensures
        r@ == after_signal(set, core, view_effects(fx@), now),
{
    let expired = match core.deadline {
        Some(d) => d.expired(now),
        None => false,
    };
    if core.main_exit.is_some() || (!core.killed && expired) {
        do_after_batch(set, core, fx, now)
    } else {
        do_next_signal(set, core, fx, now)
    }
}

fn do_on_signal(set: Settings, core: Core, sig: i32, own: bool, now: u128) -> (r: Step)
    requires
        core.budget > 0,
    ensures
        r@ == on_signal(set, core, sig, own, now),
{
    let mut core = core;
    core.budget = core.budget - 1;
    let mut fx = nothing();
    if sig == SIGPIPE && own {
        do_next_signal(set, core, fx, now)
    } else if sig == SIGCHLD {
        step(Core { phase: Phase::Waiting, stopped: None, ..core }, fx, Request::WaitAny)
    } else if sig == SIGTTIN || sig == SIGTTOU {
        let mut text = "ignoring signal ".to_owned();
        text.append(decimal_text(sig as u64).as_str());
        say(&mut fx, Level::Debug, text.as_str());
        do_after_signal(set, core, fx, now)
    } else {
        let ghost before = core;
        if sig == SIGCONT {
            core.suspend = false;
            if set.foreground {
                push(&mut fx, Effect::ResumeJob);
            }
        }
        push(&mut fx, Effect::Forward(sig));
        if is_termination_signal(sig) && core.main_exit.is_none() && !core.killed {
            core.deadline = match core.deadline {
                None => Some(ShutdownDeadline::after(now, set.grace_ms)),
                Some(_) => Some(ShutdownDeadline::At(now)),
            };
        }
        proof {
            assert(core == (Core {
                suspend: before.suspend && sig != SIGCONT,
                deadline: next_deadline(set, before, sig, now),
                ..before
            }));
        }
        do_after_signal(set, core, fx, now)
    }
}

/// Says that a child changed.
fn log_wait_status(fx: &mut Vec<Effect>, status: WaitStatus, warn_on_reap: bool)
    ensures
        view_effects(final(fx)@) == logged(view_effects(old(fx)@), status_log(status, warn_on_reap)),
{
    let level = if warn_on_reap {
        Level::Warn
    } else {
        Level::Debug
    };
    match status {
        WaitStatus::Exited(pid, _) | WaitStatus::Signaled(pid, _, _) => {
            let mut text = "reaped secondary PID ".to_owned();
            text.append(decimal_text(pid as u64).as_str());
            say(fx, level, text.as_str());
        },
        WaitStatus::Stopped(pid, sig) => {
            let mut text = "child PID ".to_owned();
            text.append(decimal_text(pid as u64).as_str());
            text.append(" stopped by signal ");
            text.append(decimal_text(sig as u64).as_str());
            say(fx, level, text.as_str());
        },
        WaitStatus::Continued(_) | WaitStatus::StillAlive => {},
    }
}

/// Takes note of how a child changed, and says so where it is not the end of the main one.
fn handle_wait_status(
    set: Settings,
    core: Core,
    status: WaitStatus,
    fx: &mut Vec<Effect>,
) -> (r: (Core, WaitLoop))
    ensures
        r.0 == noted(set, core, status),
        r.1 == spec_drain_action(status),
        view_effects(final(fx)@) == if exit_of(status, set.child) is Some {
            view_effects(old(fx)@)
        } else {
            logged(view_effects(old(fx)@), status_log(status, set.warn_on_reap))
        },
{
    let mut core = core;
    match status {
        WaitStatus::Stopped(pid, _) => {
            if pid == set.child {
                core.stopped = Some(true);
            }
        },
        WaitStatus::Continued(pid) => {
            if pid == set.child {
                core.stopped = Some(false);
            }
        },
        _ => {},
    }
    let exit: Option<u16> = match status {
        WaitStatus::Exited(pid, code) => if pid == set.child {
            Some(code as u16)
        } else {
            None
        },
        WaitStatus::Signaled(pid, sig, _) => if pid == set.child {
            Some(128 + sig as u16)
        } else {
            None
        },
        _ => None,
    };
    if exit.is_some() {
        core.main_exit = exit;
    } else {
        log_wait_status(fx, status, set.warn_on_reap);
    }
    (core, wait_status_drain_action(status))
}

fn do_waited_all(set: Settings, core: Core, fx: Vec<Effect>, now: u128) -> (r: Step)
    ensures
        r@ == waited_all(set, core, view_effects(fx@), now),
{
    let mut core = core;
    if core.main_exit.is_some() {
        core.suspend = false;
    } else {
        match core.stopped {
            Some(s) => {
                core.suspend = s;
            },
            None => {},
        }
    }
    do_after_signal(set, core, fx, now)
}

/// Follows up a change of a child, while the main one runs.
fn handle_sigchld(set: Settings, core: Core, status: WaitStatus, now: u128) -> (r: Step)
    ensures
        r@ == on_waited(set, core, status, now),
{
    let mut fx = nothing();
    let (core, action) = handle_wait_status(set, core, status, &mut fx);
    match action {
        WaitLoop::Continue => step(core, fx, Request::WaitAny),
        WaitLoop::Break => do_waited_all(set, core, fx, now),
    }
}

fn handle_sigchld_failure(set: Settings, core: Core, failure: &Failure, now: u128) -> (r: Step)
    ensures
        r@ == on_wait_failed(set, core, failure.errno, failure.text@, now),
{
    if failure.errno == ECHILD && core.main_exit.is_some() {
        do_waited_all(set, core, nothing(), now)
    } else if failure.errno == ECHILD {
        do_fail(
            set,
            core,
            Error::msg(
                "main child is no longer waitable before its exit status was observed".to_owned(),
            ),
            nothing(),
            now,
        )
    } else if failure.errno == EINTR {
        step(core, nothing(), Request::WaitAny)
    } else {
        let mut text = "waitpid: ".to_owned();
        text.append(failure.text.as_str());
        do_fail(set, core, Error::msg(text), nothing(), now)
    }
}

fn do_on_polled(set: Settings, core: Core, events: u16, now: u128) -> (r: Step)
    ensures
        r@ == on_polled(set, core, events, now),
{
    if signal_fd_poll_failed(events) {
        let mut text = "signal fd poll failed with events PollFlags(".to_owned();
        text.append(decimal_text(events as u64).as_str());
        text.append(")");
        return do_fail(set, core, Error::msg(text), nothing(), now);
    }
    let core = Core { suspend: false, budget: SIGNAL_BATCH_LIMIT, ..core };
    if events & POLLIN != 0 {
        do_next_signal(set, core, nothing(), now)
    } else {
        do_after_batch(set, core, nothing(), now)
    }
}

fn do_on_suspended(core: Core, stopped: bool, kept: bool, now: u128) -> (r: Step)
    ensures
        r@ == on_suspended(core, stopped, kept, now),
{
    let mut fx = nothing();
    if stopped && kept {
        push(&mut fx, Effect::ResumeJob);
        push(&mut fx, Effect::Forward(SIGCONT));
        proof {
            assert(view_effects(fx@) =~= seq![
                EffectModel::ResumeJob,
                EffectModel::Forward(SIGCONT),
            ]);
        }
    }
    do_poll(core, fx, now)
}

fn do_clean_round(core: Core, fx: Vec<Effect>) -> (r: Step)
    ensures
        r@ == clean_round(core, view_effects(fx@)),
{
    step(
        Core {
            phase: Phase::CleanReading,
            terminate: false,
            budget: SIGNAL_BATCH_LIMIT,
            ..core
        },
        fx,
        Request::ReadSignal,
    )
}

fn do_start_cleanup(set: Settings, core: Core, fx: Vec<Effect>, now: u128) -> (r: Step)
    ensures
        r@ == start_cleanup(set, core, view_effects(fx@), now),
{
    let clean = match core.deadline {
        Some(d) => d,
        None => ShutdownDeadline::after(now, set.grace_ms),
    };
    let core = Core { clean, interruptible: true, ..core };
    let mut fx = fx;
    if set.use_pgroup {
        say(&mut fx, Level::Info, "sending SIGTERM to PGID");
        push(&mut fx, Effect::SignalGroup(SIGTERM));
    }
    do_clean_round(core, fx)
}

fn do_clean_reap(core: Core, fx: Vec<Effect>) -> (r: Step)
    ensures
        r@ == clean_reap(core, view_effects(fx@)),
{
    step(Core { phase: Phase::CleanReaping, ..core }, fx, Request::WaitAny)
}

fn do_clean_next(core: Core, fx: Vec<Effect>) -> (r: Step)
    ensures
        r@ == clean_next(core, view_effects(fx@)),
{
    if core.budget > 0 {
        step(Core { phase: Phase::CleanReading, ..core }, fx, Request::ReadSignal)
    } else {
        do_clean_reap(core, fx)
    }
}

fn do_on_clean_signal(set: Settings, core: Core, sig: i32, own: bool, now: u128) -> (r: Step)
    requires
        core.budget > 0,
    ensures
        r@ == on_clean_signal(set, core, sig, own, now),
{
    let mut core = core;
    core.budget = core.budget - 1;
    let mut fx = nothing();
    if (sig == SIGPIPE && own) || sig == SIGCHLD || sig == SIGTTIN || sig == SIGTTOU {
        return do_clean_next(core, fx);
    }
    if set.use_pgroup {
        push(&mut fx, Effect::SignalGroup(sig));
    }
    core.terminate = core.terminate || is_termination_signal(sig);
    if (core.interruptible && core.terminate) || core.clean.expired(now) {
        do_clean_reap(core, fx)
    } else {
        do_clean_next(core, fx)
    }
}

fn do_clean_judge(
    set: Settings,
    core: Core,
    zero: &[bool; 256],
    gone: bool,
    fx: Vec<Effect>,
    now: u128,
) -> (r: Step)
    requires
        core.main_exit is Some,
    ensures
        r@ == clean_judge(set, core, zero@, gone, view_effects(fx@), now),
{
    if gone {
        return do_clean_done(set, core, zero, true, fx, now);
    }
    let remaining: u128 = core.clean.remaining(now);
    if (core.interruptible && core.terminate) || remaining == 0 {
        return do_clean_done(set, core, zero, false, fx, now);
    }
    let pause: u128 = if remaining < PAUSE {
        remaining
    } else {
        PAUSE
    };
    step(
        Core { phase: Phase::CleanPolling, ..core },
        fx,
        Request::Poll(PollTimeout::Millis(to_millis(pause))),
    )
}

fn do_leave(core: Core, zero: &[bool; 256], fx: Vec<Effect>) -> (r: Step)
    requires
        core.main_exit is Some,
    ensures
        r@ == leave(core, zero@, view_effects(fx@)),
{
    let code: i32 = match core.main_exit {
        Some(code) => compute_exit_code(code as i32, zero),
        None => 0,
    };
    let mut fx = fx;
    let mut text = "exiting with ".to_owned();
    text.append(decimal_text(code as u64).as_str());
    say(&mut fx, Level::Info, text.as_str());
    step(Core { phase: Phase::Over, ..core }, fx, Request::Exit(code))
}

fn do_clean_done(
    set: Settings,
    core: Core,
    zero: &[bool; 256],
    gone: bool,
    fx: Vec<Effect>,
    now: u128,
) -> (r: Step)
    requires
        core.main_exit is Some,
    ensures
        r@ == clean_done(set, core, zero@, gone, view_effects(fx@), now),
{
    let mut fx = fx;
    if !set.use_pgroup || gone {
        return do_leave(core, zero, fx);
    }
    if core.interruptible {
        say(&mut fx, Level::Info, "process group still alive; sending SIGKILL");
        push(&mut fx, Effect::SignalGroup(SIGKILL));
        return do_clean_round(
            Core {
                clean: ShutdownDeadline::after(now, set.grace_ms),
                interruptible: false,
                ..core
            },
            fx,
        );
    }
    let mut text = "process group still alive after SIGKILL wait of ".to_owned();
    text.append(decimal_text(set.grace_ms).as_str());
    text.append(" ms");
    say(&mut fx, Level::Warn, text.as_str());
    do_leave(core, zero, fx)
}

fn do_clean_reaped(
    set: Settings,
    core: Core,
    zero: &[bool; 256],
    gone: bool,
    fx: Vec<Effect>,
    now: u128,
) -> (r: Step)
    requires
        core.main_exit is Some,
    ensures
        r@ == clean_reaped(set, core, zero@, gone, view_effects(fx@), now),
{
    if set.use_pgroup {
        step(Core { phase: Phase::CleanQuerying, ..core }, fx, Request::QueryGroup)
    } else {
        do_clean_judge(set, core, zero, gone, fx, now)
    }
}

/// Looks after the children that are left, once the main one has ended.
fn reap_available_children(
    set: Settings,
    core: Core,
    zero: &[bool; 256],
    status: WaitStatus,
    now: u128,
) -> (r: Step)
    requires
        core.main_exit is Some,
    ensures
        r@ == on_clean_waited(set, core, zero@, status, now),
{
    let mut fx = nothing();
    log_wait_status(&mut fx, status, set.warn_on_reap);
    match wait_status_drain_action(status) {
        WaitLoop::Continue => step(core, fx, Request::WaitAny),
        WaitLoop::Break => do_clean_reaped(set, core, zero, false, fx, now),
    }
}

fn reaping_failed(
    set: Settings,
    core: Core,
    zero: &[bool; 256],
    failure: &Failure,
    now: u128,
) -> (r: Step)
    requires
        core.main_exit is Some,
    ensures
        r@ == on_clean_wait_failed(set, core, zero@, failure.errno, failure.text@, now),
{
    if failure.errno == ECHILD {
        do_clean_reaped(set, core, zero, true, nothing(), now)
    } else if failure.errno == EINTR {
        step(core, nothing(), Request::WaitAny)
    } else {
        let mut text = "waitpid: ".to_owned();
        text.append(failure.text.as_str());
        do_fail(set, core, Error::msg(text), nothing(), now)
    }
}

fn do_fail(set: Settings, core: Core, error: Error, fx: Vec<Effect>, now: u128) -> (r: Step)
    ensures
        r@ == fail(set, core, error@, view_effects(fx@), now),
{
    if core.main_exit.is_none() {
        let mut fx = fx;
        if set.use_pgroup {
            push(&mut fx, Effect::SignalGroup(SIGKILL));
        }
        failing(Core { phase: Phase::KillingChild, ..core }, error, fx, Request::KillChild)
    } else {
        do_fail_group(set, core, error, fx, now)
    }
}

fn do_give_up(core: Core, error: Error, fx: Vec<Effect>) -> (r: Step)
    ensures
        r@ == give_up(core, error@, view_effects(fx@)),
{
    step(Core { phase: Phase::Over, ..core }, fx, Request::Fail(error))
}

fn do_fail_group(set: Settings, core: Core, error: Error, fx: Vec<Effect>, now: u128) -> (r: Step)
    ensures
        r@ == fail_group(set, core, error@, view_effects(fx@), now),
{
    if set.use_pgroup {
        failing(
            Core {
                phase: Phase::AwaitingGroup,
                clean: ShutdownDeadline::after(now, set.grace_ms),
                group_killed: false,
                ..core
            },
            error,
            fx,
            Request::WaitGroup,
        )
    } else {
        do_give_up(core, error, fx)
    }
}

fn warning(text: &str, cause: &str) -> (r: Vec<Effect>)
    ensures
        view_effects(r@) == warned(text@, cause@),
{
    let mut fx = nothing();
    let mut whole = text.to_owned();
    whole.append(cause);
    say(&mut fx, Level::Warn, whole.as_str());
    fx
}

/// Ends a child after a failure.
fn cleanup_failed_supervision(
    set: Settings,
    core: Core,
    error: Error,
    event: &Event,
    now: u128,
) -> (r: Step)
    requires
        core.phase is KillingChild || core.phase is AwaitingChild,
        core.main_exit is None,
        answers(core.phase, *event),
    ensures
        r@ == match *event {
            Event::SendFailed(f) => on_child_killed(
                set,
                core,
                error@,
                Some((f.errno, f.text@)),
                now,
            ),
            Event::Waited(status) => on_child_awaited(set, core, error@, status, now),
            Event::WaitFailed(f) => on_child_lost(set, core, error@, f.errno, f.text@, now),
            _ => on_child_killed(set, core, error@, None, now),
        },
        r.next.wf(),
{
    match event {
        Event::SendFailed(f) => {
            if f.errno != ESRCH {
                return do_fail_group(
                    set,
                    core,
                    error,
                    warning("terminate child after supervision failure: ", f.text.as_str()),
                    now,
                );
            }
            failing(
                Core { phase: Phase::AwaitingChild, ..core },
                error,
                nothing(),
                Request::WaitChild,
            )
        },
        Event::Waited(status) => match status {
            WaitStatus::Exited(..) | WaitStatus::Signaled(..) => do_fail_group(
                set,
                core,
                error,
                nothing(),
                now,
            ),
            _ => failing(core, error, nothing(), Request::WaitChild),
        },
        Event::WaitFailed(f) => {
            if f.errno == ECHILD {
                do_fail_group(set, core, error, nothing(), now)
            } else if f.errno == EINTR {
                failing(core, error, nothing(), Request::WaitChild)
            } else {
                do_fail_group(
                    set,
                    core,
                    error,
                    warning("reap child after supervision failure: ", f.text.as_str()),
                    now,
                )
            }
        },
        _ => failing(
            Core { phase: Phase::AwaitingChild, ..core },
            error,
            nothing(),
            Request::WaitChild,
        ),
    }
}

/// Ends a process group after a failure, in a time that has an end.
fn cleanup_failed_process_group(core: Core, error: Error, event: &Event, now: u128) -> (r: Step)
    requires
        core.phase is AwaitingGroup || core.phase is KillingGroup || core.phase is Sleeping,
        answers(core.phase, *event),
    ensures
        r@ == match *event {
            Event::Waited(status) => on_group_awaited(core, error@, status, now),
            Event::WaitFailed(f) => on_group_lost(core, error@, f.errno, f.text@),
            Event::Sent => ask_failing(
                Core { phase: Phase::AwaitingGroup, group_killed: true, ..core },
                error@,
                Seq::empty(),
                RequestModel::WaitGroup,
            ),
            Event::SendFailed(f) => give_up(
                core,
                error@,
                warned("terminate child group after supervision failure: "@, f.text@),
            ),
            _ => ask_failing(
                Core { phase: Phase::AwaitingGroup, ..core },
                error@,
                Seq::empty(),
                RequestModel::WaitGroup,
            ),
        },
        r.next.wf(),
{
    match event {
        Event::Waited(status) => match status {
            WaitStatus::StillAlive => {
                if !core.group_killed {
                    return failing(
                        Core { phase: Phase::KillingGroup, ..core },
                        error,
                        nothing(),
                        Request::KillGroup,
                    );
                }
                let remaining: u128 = core.clean.remaining(now);
                if remaining == 0 {
                    let mut fx = nothing();
                    say(
                        &mut fx,
                        Level::Warn,
                        "child group still waitable after supervision failure cleanup",
                    );
                    return do_give_up(core, error, fx);
                }
                let pause: u128 = if remaining < PAUSE {
                    remaining
                } else {
                    PAUSE
                };
                failing(
                    Core { phase: Phase::Sleeping, ..core },
                    error,
                    nothing(),
                    Request::Sleep(pause),
                )
            },
            _ => failing(core, error, nothing(), Request::WaitGroup),
        },
        Event::WaitFailed(f) => {
            if f.errno == ECHILD {
                do_give_up(core, error, nothing())
            } else if f.errno == EINTR {
                failing(core, error, nothing(), Request::WaitGroup)
            } else {
                do_give_up(
                    core,
                    error,
                    warning("reap child group after supervision failure: ", f.text.as_str()),
                )
            }
        },
        Event::Sent => failing(
            Core { phase: Phase::AwaitingGroup, group_killed: true, ..core },
            error,
            nothing(),
            Request::WaitGroup,
        ),
        Event::SendFailed(f) => do_give_up(
            core,
            error,
            warning("terminate child group after supervision failure: ", f.text.as_str()),
        ),
        _ => failing(
            Core { phase: Phase::AwaitingGroup, ..core },
            error,
            nothing(),
            Request::WaitGroup,
        ),
    }
}

/// The rest of the children is looked after, once the main one has ended.
fn wait_for_cleanup(
    set: Settings,
    zero: &[bool; 256],
    supervisor: Supervisor,
    event: &Event,
    now: u128,
) -> (r: Step)
    requires
        supervisor.wf(),
        answers(supervisor.core.phase, *event),
        supervisor.core.phase is CleanReading || supervisor.core.phase is CleanReaping
            || supervisor.core.phase is CleanQuerying || supervisor.core.phase is CleanPolling,
    ensures
        r@ == stepped(set, zero@, supervisor@, *event, now),
        r.next.wf(),
{
    proof {
        lemma_wf_cleaning(set, zero@, supervisor@, *event, now);
    }
    let core = supervisor.core;
    match event {
        Event::Signal { number, own } => do_on_clean_signal(set, core, *number, *own, now),
        Event::NoSignal => do_clean_reap(core, nothing()),
        Event::SignalFailed(f) => do_fail(
            set,
            core,
            Error::msg(f.text.clone()),
            nothing(),
            now,
        ),
        Event::Waited(status) => reap_available_children(set, core, zero, *status, now),
        Event::WaitFailed(f) => reaping_failed(set, core, zero, f, now),
        Event::GroupExists(there) => do_clean_judge(set, core, zero, !*there, nothing(), now),
        Event::GroupUnknown(f) => {
            let mut text = "query process group ".to_owned();
            text.append(decimal_text(set.child as u64).as_str());
            do_fail(
                set,
                core,
                Error::with_source(text, Error::msg(f.text.clone())),
                nothing(),
                now,
            )
        },
        Event::Polled(events) => {
            if signal_fd_poll_failed(*events) {
                do_fail(
                    set,
                    core,
                    Error::msg("signal fd poll failed during child cleanup".to_owned()),
                    nothing(),
                    now,
                )
            } else {
                do_clean_round(core, nothing())
            }
        },
        Event::PollFailed(f) => {
            if f.errno == EINTR {
                do_clean_round(core, nothing())
            } else {
                do_fail(
                    set,
                    core,
                    Error::with_source(
                        "poll during child cleanup".to_owned(),
                        Error::msg(f.text.clone()),
                    ),
                    nothing(),
                    now,
                )
            }
        },
        _ => do_clean_reap(core, nothing()),
    }
}

/// The child is supervised while it runs.
fn supervise_child_inner(
    set: Settings,
    zero: &[bool; 256],
    supervisor: Supervisor,
    event: &Event,
    now: u128,
) -> (r: Step)
    requires
        supervisor.wf(),
        answers(supervisor.core.phase, *event),
        supervisor.core.phase is Polling || supervisor.core.phase is Reading
            || supervisor.core.phase is Waiting || supervisor.core.phase is Suspending,
    ensures
        r@ == stepped(set, zero@, supervisor@, *event, now),
        r.next.wf(),
{
    proof {
        lemma_wf_running(set, zero@, supervisor@, *event, now);
    }
    let core = supervisor.core;
    match event {
        Event::Polled(events) => do_on_polled(set, core, *events, now),
        Event::PollFailed(f) => {
            if f.errno == EINTR {
                do_poll(core, nothing(), now)
            } else {
                do_fail(
                    set,
                    core,
                    Error::with_source("poll".to_owned(), Error::msg(f.text.clone())),
                    nothing(),
                    now,
                )
            }
        },
        Event::Signal { number, own } => do_on_signal(set, core, *number, *own, now),
        Event::NoSignal => do_after_batch(set, core, nothing(), now),
        Event::SignalFailed(f) => do_fail(
            set,
            core,
            Error::msg(f.text.clone()),
            nothing(),
            now,
        ),
        Event::Waited(status) => handle_sigchld(set, core, *status, now),
        Event::WaitFailed(f) => handle_sigchld_failure(set, core, f, now),
        Event::Suspended { stopped, kept } => do_on_suspended(core, *stopped, *kept, now),
        _ => do_poll(core, nothing(), now),
    }
}

impl Supervisor {
    /// A signal is asked for only while the batch has room. The main child is followed only
    /// before it has ended, and the rest is cleaned up only after that. An error is held only
    /// after a failure.
    pub open spec fn wf(self) -> bool {
        wf_model(self@)
    }

    /// A supervisor at the start, and what it asks for.
    pub fn start(now: u128) -> (r: Step)
        ensures
            r@ == go_poll(fresh(), Seq::empty(), now),
            r.next.wf(),
    {
        let core = Core {
            phase: Phase::Polling,
            main_exit: None,
            deadline: None,
            killed: false,
            suspend: false,
            stopped: None,
            budget: 0,
            clean: ShutdownDeadline::Never,
            interruptible: false,
            terminate: false,
            group_killed: false,
        };
        do_poll(core, nothing(), now)
    }

    /// Takes in what came of the last request, and says what follows.
    pub fn supervise_child(
        self,
        set: Settings,
        expect_zero: &[bool; 256],
        event: &Event,
        now: u128,
    ) -> (r: Step)
        requires
            self.wf(),
            answers(self.core.phase, *event),
        ensures
            r@ == stepped(set, expect_zero@, self@, *event, now),
            r.next.wf(),
    {
        match self.core.phase {
            Phase::Polling | Phase::Reading | Phase::Waiting
            | Phase::Suspending => supervise_child_inner(set, expect_zero, self, event, now),
            Phase::CleanReading | Phase::CleanReaping | Phase::CleanQuerying
            | Phase::CleanPolling => wait_for_cleanup(set, expect_zero, self, event, now),
            Phase::KillingChild | Phase::AwaitingChild => {
                let core = self.core;
                let error = self.into_error();
                cleanup_failed_supervision(set, core, error, event, now)
            },
            _ => {
                let core = self.core;
                let error = self.into_error();
                cleanup_failed_process_group(core, error, event, now)
            },
        }
    }

    fn into_error(self) -> (r: Error)
        ensures
            r@ == held(self@),
    {
        match self.error {
            Some(e) => e,
            None => Error::msg("".to_owned()),
        }
    }
}

/// Whether a phase belongs to cleaning up after the main child has ended.
pub open spec fn cleaning(phase: Phase) -> bool {
    phase is CleanReading || phase is CleanReaping || phase is CleanQuerying
        || phase is CleanPolling
}

/// Whether a phase comes after a failure.
pub open spec fn failing_phase(phase: Phase) -> bool {
    phase is KillingChild || phase is AwaitingChild || phase is AwaitingGroup
        || phase is KillingGroup || phase is Sleeping
}

/// See [`Supervisor::wf`].
pub open spec fn wf_model(s: SupervisorModel) -> bool {
    &&& (s.core.phase is Reading || s.core.phase is CleanReading) ==> s.core.budget > 0
    &&& cleaning(s.core.phase) ==> s.core.main_exit is Some
    &&& (s.core.phase is Polling || s.core.phase is Reading || s.core.phase is Suspending
        || s.core.phase is KillingChild || s.core.phase is AwaitingChild)
        ==> s.core.main_exit is None
    &&& failing_phase(s.core.phase) <==> s.error is Some
}

proof fn lemma_wf_after_signal(set: Settings, core: Core, fx: Seq<EffectModel>, now: u128)
    ensures
        wf_model(after_batch(set, core, fx, now).next),
        core.main_exit is None ==> wf_model(next_signal(set, core, fx, now).next),
        wf_model(after_signal(set, core, fx, now).next),
{
}

proof fn lemma_wf_fail(set: Settings, core: Core, e: ErrorModel, fx: Seq<EffectModel>, now: u128)
    ensures
        wf_model(fail(set, core, e, fx, now).next),
        wf_model(fail_group(set, core, e, fx, now).next),
{
}

proof fn lemma_wf_signal(set: Settings, core: Core, sig: i32, own: bool, now: u128)
    requires
        core.main_exit is None,
    ensures
        wf_model(on_signal(set, core, sig, own, now).next),
{
    let step = on_signal(set, core, sig, own, now);
    let less = Core { budget: (core.budget - 1) as u8, ..core };
    let moved = Core {
        suspend: less.suspend && sig != SIGCONT,
        deadline: next_deadline(set, less, sig, now),
        ..less
    };
    lemma_wf_after_signal(set, less, step.effects, now);
    lemma_wf_after_signal(set, moved, step.effects, now);
    let none = Seq::<EffectModel>::empty();
    lemma_wf_after_signal(set, less, none, now);
    lemma_wf_after_signal(
        set,
        less,
        spec_log(none, Level::Debug, "ignoring signal "@ + text::decimal(sig as nat)),
        now,
    );
    lemma_wf_after_signal(
        set,
        moved,
        (if sig == SIGCONT && set.foreground {
            none.push(EffectModel::ResumeJob)
        } else {
            none
        }).push(EffectModel::Forward(sig)),
        now,
    );
}

proof fn lemma_wf_waited_all(set: Settings, core: Core, fx: Seq<EffectModel>, now: u128)
    ensures
        wf_model(waited_all(set, core, fx, now).next),
{
    let stopped = if core.main_exit is Some {
        Some(false)
    } else {
        core.stopped
    };
    lemma_wf_after_signal(
        set,
        Core {
            suspend: match stopped {
                Some(s) => s,
                None => core.suspend,
            },
            ..core
        },
        fx,
        now,
    );
}

proof fn lemma_wf_running(
    set: Settings,
    zero: Seq<bool>,
    s: SupervisorModel,
    event: Event,
    now: u128,
)
    requires
        wf_model(s),
        answers(s.core.phase, event),
        s.core.phase is Polling || s.core.phase is Reading || s.core.phase is Waiting
            || s.core.phase is Suspending,
    ensures
        wf_model(stepped(set, zero, s, event, now).next),
{
    let core = s.core;
    let none = Seq::<EffectModel>::empty();
    match event {
        Event::Polled(events) => {
            lemma_wf_fail(
                set,
                core,
                error::failure(
                    "signal fd poll failed with events PollFlags("@ + text::decimal(events as nat)
                        + ")"@,
                ),
                none,
                now,
            );
            lemma_wf_after_signal(
                set,
                Core { suspend: false, budget: SIGNAL_BATCH_LIMIT, ..core },
                none,
                now,
            );
        },
        Event::PollFailed(f) => {
            lemma_wf_fail(
                set,
                core,
                error::caused("poll"@, error::failure(f.text@)),
                none,
                now,
            );
        },
        Event::Signal { number, own } => {
            lemma_wf_signal(set, core, number, own, now);
        },
        Event::NoSignal => {
            lemma_wf_after_signal(set, core, none, now);
        },
        Event::SignalFailed(f) => {
            lemma_wf_fail(set, core, error::failure(f.text@), none, now);
        },
        Event::Waited(status) => {
            let fx = if exit_of(status, set.child) is Some {
                none
            } else {
                logged(none, status_log(status, set.warn_on_reap))
            };
            lemma_wf_waited_all(set, noted(set, core, status), fx, now);
        },
        Event::WaitFailed(f) => {
            lemma_wf_waited_all(set, core, none, now);
            lemma_wf_fail(
                set,
                core,
                error::failure(
                    "main child is no longer waitable before its exit status was observed"@,
                ),
                none,
                now,
            );
            lemma_wf_fail(set, core, error::failure("waitpid: "@ + f.text@), none, now);
        },
        _ => {},
    }
}

proof fn lemma_wf_judge(
    set: Settings,
    core: Core,
    zero: Seq<bool>,
    gone: bool,
    fx: Seq<EffectModel>,
    now: u128,
)
    requires
        core.main_exit is Some,
    ensures
        wf_model(clean_judge(set, core, zero, gone, fx, now).next),
        wf_model(clean_reaped(set, core, zero, gone, fx, now).next),
{
}

proof fn lemma_wf_cleaning(
    set: Settings,
    zero: Seq<bool>,
    s: SupervisorModel,
    event: Event,
    now: u128,
)
    requires
        wf_model(s),
        answers(s.core.phase, event),
        cleaning(s.core.phase),
    ensures
        wf_model(stepped(set, zero, s, event, now).next),
{
    let core = s.core;
    let none = Seq::<EffectModel>::empty();
    match event {
        Event::SignalFailed(f) => {
            lemma_wf_fail(set, core, error::failure(f.text@), none, now);
        },
        Event::Waited(status) => {
            lemma_wf_judge(
                set,
                core,
                zero,
                false,
                logged(none, status_log(status, set.warn_on_reap)),
                now,
            );
        },
        Event::WaitFailed(f) => {
            lemma_wf_judge(set, core, zero, true, none, now);
            lemma_wf_fail(set, core, error::failure("waitpid: "@ + f.text@), none, now);
        },
        Event::GroupExists(there) => {
            lemma_wf_judge(set, core, zero, !there, none, now);
        },
        _ => {},
    }
}

} // verus!
