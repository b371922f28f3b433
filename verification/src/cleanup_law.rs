//! What becomes of the children that are left, of a job that is stopped, and of a supervision that
//! has failed, call by call.

use vstd::prelude::*;

use crate::logging::Level;
use crate::supervise::{
    self, EffectModel, Event, PollTimeout, RequestModel, Settings, ShutdownDeadline,
    StepModel, SupervisorModel, WaitStatus,
};
use crate::text;

verus! {

/// The step after a child was looked at.
pub open spec fn seen(
    set: Settings,
    zero: Seq<bool>,
    s: SupervisorModel,
    status: WaitStatus,
    now: u128,
) -> StepModel {
    supervise::stepped(set, zero, s, Event::Waited(status), now)
}

/// The grace period that begins now: its milliseconds in nanoseconds, unless that is beyond all
/// time.
pub open spec fn period_from(now: u128, grace_ms: u64) -> ShutdownDeadline {
    if now + grace_ms * 1000000 <= u128::MAX {
        ShutdownDeadline::At((now + grace_ms * 1000000) as u128)
    } else {
        ShutdownDeadline::Never
    }
}

// ---------------------------------------------------------------------------
// Children
// ---------------------------------------------------------------------------

/// Children are looked for again until there is none left that changed, both while the child runs
/// and afterwards. An interrupted look (4) is repeated.
pub proof fn law_all_changes_are_seen(
    set: Settings,
    zero: Seq<bool>,
    s: SupervisorModel,
    status: WaitStatus,
    event: Event,
    now: u128,
)
    requires
        supervise::wf_model(s),
        s.core.phase is Waiting || s.core.phase is CleanReaping,
    ensures
        seen(set, zero, s, status, now).request is WaitAny <==> status !is StillAlive,
        event matches Event::WaitFailed(f) && f.errno == 4 ==> supervise::stepped(
            set,
            zero,
            s,
            event,
            now,
        ).request is WaitAny,
{
}

/// Each child that ended is reported by its number, and so is one that stopped. It is a warning
/// where warnings were asked for and else a detail. The end of the managed child is not reported,
/// and nothing else is done for a child.
pub proof fn law_children_are_reported(
    set: Settings,
    zero: Seq<bool>,
    s: SupervisorModel,
    pid: u32,
    code: u8,
    sig: u8,
    dumped: bool,
    now: u128,
)
    requires
        supervise::wf_model(s),
        s.core.phase is Waiting || s.core.phase is CleanReaping,
    ensures
        ({
            let level = if set.warn_on_reap {
                Level::Warn
            } else {
                Level::Debug
            };
            let reaped = seq![
                EffectModel::Log(level, "reaped secondary PID "@ + text::decimal(pid as nat)),
            ];
            let own = pid == set.child && s.core.phase is Waiting;
            let none = Seq::<EffectModel>::empty();
            &&& seen(set, zero, s, WaitStatus::Exited(pid, code), now).effects == if own {
                none
            } else {
                reaped
            }
            &&& seen(set, zero, s, WaitStatus::Signaled(pid, sig, dumped), now).effects == if own {
                none
            } else {
                reaped
            }
            &&& seen(set, zero, s, WaitStatus::Stopped(pid, sig), now).effects == seq![
                EffectModel::Log(
                    level,
                    "child PID "@ + text::decimal(pid as nat) + " stopped by signal "@
                        + text::decimal(sig as nat),
                ),
            ]
            &&& seen(set, zero, s, WaitStatus::Continued(pid), now).effects == none
        }),
{
}

/// How the managed child ended is kept: its exit code, or 128 and the signal. Other children change
/// nothing.
pub proof fn law_end_of_the_child_is_kept(
    set: Settings,
    zero: Seq<bool>,
    s: SupervisorModel,
    pid: u32,
    code: u8,
    sig: u8,
    dumped: bool,
    now: u128,
)
    requires
        supervise::wf_model(s),
        s.core.phase is Waiting,
    ensures
        ({
            let exited = seen(set, zero, s, WaitStatus::Exited(pid, code), now).next.core;
            let killed = seen(set, zero, s, WaitStatus::Signaled(pid, sig, dumped), now).next.core;
            if pid == set.child {
                exited.main_exit is Some && exited.main_exit->0 == code && killed.main_exit is Some
                    && killed.main_exit->0 == 128 + sig
            } else {
                exited == s.core && killed == s.core
            }
        }),
{
}

/// Whether the managed child stopped or went on is kept until all children were looked at; the last
/// look counts.
pub proof fn law_stop_of_the_child_is_kept(
    set: Settings,
    zero: Seq<bool>,
    s: SupervisorModel,
    pid: u32,
    sig: u8,
    now: u128,
)
    requires
        supervise::wf_model(s),
        s.core.phase is Waiting,
    ensures
        ({
            let stopped = seen(set, zero, s, WaitStatus::Stopped(pid, sig), now).next.core;
            let gone_on = seen(set, zero, s, WaitStatus::Continued(pid), now).next.core;
            if pid == set.child {
                stopped.stopped == Some(true) && gone_on.stopped == Some(false)
            } else {
                stopped == s.core && gone_on == s.core
            }
        }),
{
}

/// Once all children were looked at, a child that was stopped has the job suspended, and one that
/// went on has it not; without either it stays as it was.
pub proof fn law_stop_of_the_child_counts(
    set: Settings,
    zero: Seq<bool>,
    s: SupervisorModel,
    now: u128,
)
    requires
        supervise::wf_model(s),
        s.core.phase is Waiting,
        s.core.main_exit is None,
    ensures
        seen(set, zero, s, WaitStatus::StillAlive, now).next.core.suspend == match s.core.stopped {
            Some(stopped) => stopped,
            None => s.core.suspend,
        },
{
}

/// At the end of a batch the job is suspended exactly where that is wanted, the child was given the
/// terminal and no grace period has begun. A signal to go on (18) takes the wish back.
pub proof fn law_job_stops_with_the_child(
    set: Settings,
    zero: Seq<bool>,
    s: SupervisorModel,
    own: bool,
    now: u128,
)
    requires
        supervise::wf_model(s),
        s.core.phase is Reading,
    ensures
        supervise::stepped(set, zero, s, Event::NoSignal, now).request is SuspendJob <==> {
            s.core.suspend && set.foreground && s.core.deadline is None
        },
        !supervise::stepped(
            set,
            zero,
            s,
            Event::Signal { number: 18, own },
            now,
        ).next.core.suspend,
{
}

/// After the job was suspended it is resumed, and its child is told to go on (18), where the signal
/// to go on was not read, and in either case signals are waited for again.
pub proof fn law_job_goes_on(
    set: Settings,
    zero: Seq<bool>,
    s: SupervisorModel,
    stopped: bool,
    kept: bool,
    now: u128,
)
    requires
        supervise::wf_model(s),
        s.core.phase is Suspending,
    ensures
        ({
            let r = supervise::stepped(set, zero, s, Event::Suspended { stopped, kept }, now);
            &&& r.request is Poll
            &&& stopped && kept ==> r.effects == seq![
                EffectModel::ResumeJob,
                EffectModel::Forward(18),
            ]
            &&& !(stopped && kept) ==> r.effects.len() == 0
        }),
{
}

// ---------------------------------------------------------------------------
// Cleaning up
// ---------------------------------------------------------------------------

/// Once the child has ended and all children were looked at, its group is asked to end (15), where
/// it has one. The group has until the end of the grace period that has begun, or one of its own.
pub proof fn law_cleanup_begins(set: Settings, zero: Seq<bool>, s: SupervisorModel, now: u128)
    requires
        supervise::wf_model(s),
        s.core.phase is Waiting,
        s.core.main_exit is Some,
    ensures
        ({
            let r = seen(set, zero, s, WaitStatus::StillAlive, now);
            &&& r.request is ReadSignal && r.next.core.phase is CleanReading
            &&& r.next.core.interruptible && !r.next.core.terminate
            &&& r.next.core.clean == match s.core.deadline {
                Some(d) => d,
                None => period_from(now, set.grace_ms),
            }
            &&& set.use_pgroup ==> r.effects.len() == 2 && r.effects[0] == EffectModel::Log(
                Level::Info,
                "sending SIGTERM to PGID"@,
            ) && r.effects[1] == EffectModel::SignalGroup(15)
            &&& !set.use_pgroup ==> r.effects.len() == 0
        }),
{
}

/// While the group ends, each signal is sent on to it, but for the news of a child (17), those of
/// the terminal (21 and 22) and a broken pipe (13) of the supervisor itself. A request to end (2, 3
/// or 15) is noted, and ends the wait where it may.
pub proof fn law_group_gets_the_signals(
    set: Settings,
    zero: Seq<bool>,
    s: SupervisorModel,
    n: i32,
    own: bool,
    now: u128,
)
    requires
        supervise::wf_model(s),
        s.core.phase is CleanReading,
    ensures
        ({
            let r = supervise::stepped(set, zero, s, Event::Signal { number: n, own }, now);
            let alone = n == 17 || n == 21 || n == 22 || (n == 13 && own);
            let ends = n == 2 || n == 3 || n == 15;
            &&& r.effects == if !alone && set.use_pgroup {
                seq![EffectModel::SignalGroup(n)]
            } else {
                Seq::empty()
            }
            &&& r.next.core.terminate == (s.core.terminate || ends)
            &&& ends && s.core.interruptible ==> r.request is WaitAny
            &&& r.request is WaitAny || r.request is ReadSignal
            &&& r.request is ReadSignal ==> r.next.core.budget == s.core.budget - 1
                && r.next.core.budget > 0
            &&& r.next.core.clean == s.core.clean
        }),
{
}

/// Whether the children are left is asked for in the end of each round: by the group, where there
/// is one, and else by whether there are children at all (10 is that there are none).
pub proof fn law_what_is_left_is_asked(
    set: Settings,
    zero: Seq<bool>,
    s: SupervisorModel,
    event: Event,
    now: u128,
)
    requires
        supervise::wf_model(s),
        s.core.phase is CleanReaping,
        event == Event::Waited(WaitStatus::StillAlive) || (event matches Event::WaitFailed(f)
            && f.errno == 10),
    ensures
        ({
            let r = supervise::stepped(set, zero, s, event, now);
            let time_is_up = s.core.clean matches ShutdownDeadline::At(at) && at <= now;
            let over = (s.core.interruptible && s.core.terminate) || time_is_up;
            &&& set.use_pgroup ==> r.request is QueryGroup
            &&& !set.use_pgroup && (event is WaitFailed || over) ==> r.request is Exit
            &&& !set.use_pgroup && event is Waited && !over ==> r.request is Poll
        }),
{
}

/// A group that is gone ends it all. One that is still there when its time is up, or when a request
/// to end came, is killed (9) and has another grace period, which no request shortens. One that is
/// there even then is reported and left. Before that, the next round begins after ten milliseconds,
/// or sooner where less time is left.
pub proof fn law_group_is_killed_in_time(
    set: Settings,
    zero: Seq<bool>,
    s: SupervisorModel,
    now: u128,
)
    requires
        supervise::wf_model(s),
        s.core.phase is CleanQuerying,
        set.use_pgroup,
    ensures
        ({
            let gone = supervise::stepped(set, zero, s, Event::GroupExists(false), now);
            let there = supervise::stepped(set, zero, s, Event::GroupExists(true), now);
            let time_is_up = s.core.clean matches ShutdownDeadline::At(at) && at <= now;
            let asked = s.core.interruptible && s.core.terminate;
            &&& gone.request is Exit
            &&& forall|i: int| 0 <= i < gone.effects.len() ==> #[trigger] gone.effects[i] is Log
            &&& (asked || time_is_up) && s.core.interruptible ==> {
                &&& there.effects.len() == 2
                &&& there.effects[0] is Log
                &&& there.effects[1] == EffectModel::SignalGroup(9)
                &&& there.request is ReadSignal
                &&& there.next.core.clean == period_from(now, set.grace_ms)
                &&& !there.next.core.interruptible
            }
            &&& time_is_up && !s.core.interruptible ==> there.request is Exit
                && there.effects[0] is Log && there.effects[0]->Log_0 == Level::Warn
            &&& !asked && !time_is_up ==> {
                &&& there.effects.len() == 0
                &&& there.request matches RequestModel::Poll(PollTimeout::Millis(ms)) && 0 < ms
                    <= 10 && (ms == 10 || (s.core.clean is At && now + ms * 1000000
                    >= s.core.clean->At_0)) && (s.core.clean is At ==> now + (ms - 1)
                    * 1000000 < s.core.clean->At_0)
                &&& there.next.core.clean == s.core.clean
            }
        }),
{
    let there = supervise::stepped(set, zero, s, Event::GroupExists(true), now);
    let left = s.core.clean.spec_remaining(now) as int;
    let pause = if left < 10000000 {
        left
    } else {
        10000000
    };
    assert(left > 0 ==> 0 < (pause + 999999) / 1000000 <= 10);
    assert(left > 0 ==> ((pause + 999999) / 1000000 - 1) * 1000000 < pause <= left);
    if let ShutdownDeadline::At(at) = s.core.clean {
        if left > 0 && left < 10000000 {
            assert((left + 999999) / 1000000 * 1000000 >= left);
        }
    }
}

/// After the pause a new round begins, with room for 64 signals, and what was asked of the last
/// round is forgotten. An interrupted pause (4) is no failure.
pub proof fn law_rounds_follow_each_other(
    set: Settings,
    zero: Seq<bool>,
    s: SupervisorModel,
    events: u16,
    event: Event,
    now: u128,
)
    requires
        supervise::wf_model(s),
        s.core.phase is CleanPolling,
        event == Event::Polled(events) && events & 56 == 0 || (event matches Event::PollFailed(f)
            && f.errno == 4),
    ensures
        ({
            let r = supervise::stepped(set, zero, s, event, now);
            &&& r.request is ReadSignal && r.next.core.phase is CleanReading
            &&& r.next.core.budget == 64 && !r.next.core.terminate
            &&& r.next.core.clean == s.core.clean && r.next.core.interruptible
                == s.core.interruptible
            &&& r.effects.len() == 0
        }),
{
    assert(events & 56 == 0 ==> events & 8 == 0 && events & 16 == 0 && events & 32 == 0)
        by (bit_vector);
}

// ---------------------------------------------------------------------------
// Failures
// ---------------------------------------------------------------------------

/// After a failure the child is killed, and waited for until it has ended. It is not waited for where
/// it could not be killed, unless it was gone (3). Then its group is dealt with, where it has one, and
/// else the failure is handed on.
pub proof fn law_failed_child_is_awaited(
    set: Settings,
    zero: Seq<bool>,
    s: SupervisorModel,
    event: Event,
    now: u128,
)
    requires
        supervise::wf_model(s),
        supervise::answers(s.core.phase, event),
        s.core.phase is KillingChild || s.core.phase is AwaitingChild,
    ensures
        ({
            let r = supervise::stepped(set, zero, s, event, now);
            let on = if set.use_pgroup {
                r.request is WaitGroup && r.next.core.clean == period_from(now, set.grace_ms)
                    && !r.next.core.group_killed && r.next.error == s.error
            } else {
                r.request == RequestModel::Fail(s.error->0)
            };
            match event {
                Event::Sent => r.request is WaitChild,
                Event::SendFailed(f) => if f.errno == 3 {
                    r.request is WaitChild
                } else {
                    on
                },
                Event::Waited(WaitStatus::Exited(..)) => on,
                Event::Waited(WaitStatus::Signaled(..)) => on,
                Event::Waited(_) => r.request is WaitChild,
                Event::WaitFailed(f) => if f.errno == 4 {
                    r.request is WaitChild
                } else {
                    on
                },
                _ => false,
            }
        }),
{
}

/// After a failure the group is killed once nothing of it is left to be looked at, and is looked at
/// again every ten milliseconds, or sooner where less time is left, until none of it is there (10) or
/// its time is up. Then the failure is handed on.
pub proof fn law_failed_group_is_awaited(
    set: Settings,
    zero: Seq<bool>,
    s: SupervisorModel,
    event: Event,
    now: u128,
)
    requires
        supervise::wf_model(s),
        supervise::answers(s.core.phase, event),
        s.core.phase is AwaitingGroup || s.core.phase is KillingGroup || s.core.phase is Sleeping,
    ensures
        ({
            let r = supervise::stepped(set, zero, s, event, now);
            let over = r.request == RequestModel::Fail(s.error->0);
            match event {
                Event::Waited(WaitStatus::StillAlive) => if !s.core.group_killed {
                    r.request is KillGroup
                } else {
                    match s.core.clean {
                        ShutdownDeadline::At(at) => if at <= now {
                            over
                        } else {
                            r.request == RequestModel::Sleep(
                                if at - now < 10000000 {
                                    (at - now) as u128
                                } else {
                                    10000000
                                },
                            )
                        },
                        ShutdownDeadline::Never => r.request == RequestModel::Sleep(10000000),
                    }
                },
                Event::Waited(_) => r.request is WaitGroup,
                Event::WaitFailed(f) => if f.errno == 4 {
                    r.request is WaitGroup
                } else {
                    over
                },
                Event::Sent => r.request is WaitGroup && r.next.core.group_killed,
                Event::Slept => r.request is WaitGroup && r.next.core.group_killed
                    == s.core.group_killed,
                Event::SendFailed(_) => over,
                _ => false,
            }
        }),
{
}

/// What is a failure while the child runs: signals that cannot be waited for or read, and children
/// that cannot be looked at, but for an interruption (4). The child is killed then, and so is its
/// group, where it has one.
pub proof fn law_what_fails(
    set: Settings,
    zero: Seq<bool>,
    s: SupervisorModel,
    event: Event,
    now: u128,
)
    requires
        supervise::wf_model(s),
        supervise::answers(s.core.phase, event),
        s.core.phase is Polling || s.core.phase is Reading || s.core.phase is Waiting,
        s.core.main_exit is None,
    ensures
        ({
            let r = supervise::stepped(set, zero, s, event, now);
            let bad = match event {
                Event::PollFailed(f) => f.errno != 4,
                Event::SignalFailed(f) => true,
                Event::WaitFailed(f) => f.errno != 4,
                Event::Polled(events) => events & 56 != 0,
                _ => false,
            };
            &&& r.request is KillChild <==> bad
            &&& bad ==> r.next.error is Some && r.effects == if set.use_pgroup {
                seq![EffectModel::SignalGroup(9)]
            } else {
                Seq::empty()
            }
        }),
{
    if let Event::Polled(events) = event {
        assert((events & 8 != 0 || events & 16 != 0 || events & 32 != 0) <==> events & 56 != 0)
            by (bit_vector);
    }
}

} // verus!
