//! What signals and time do to the child, stated with the numbers of the signals.

use vstd::prelude::*;

use crate::launch;
use crate::logging::Level;
use crate::signals::{SIGCONT, SIGKILL};
use crate::supervise::{
    self, Core, EffectModel, Event, PollTimeout, RequestModel, Settings, ShutdownDeadline,
    StepModel, SupervisorModel, WaitStatus,
};
use crate::text;

verus! {

/// Whether a signal asks for the end of the child: SIGINT, SIGQUIT or SIGTERM.
pub open spec fn asks_to_end(n: i32) -> bool {
    n == 2 || n == 3 || n == 15
}

/// What the supervisor does on a signal.
pub open spec fn on(set: Settings, zero: Seq<bool>, s: SupervisorModel, n: i32, own: bool, now: u128) -> StepModel {
    supervise::stepped(set, zero, s, Event::Signal { number: n, own }, now)
}

proof fn lemma_batch(set: Settings, core: Core, fx: Seq<EffectModel>, now: u128)
    requires
        core.main_exit is None,
    ensures
        supervise::after_batch(set, core, fx, now).next.core.deadline == core.deadline,
        supervise::after_signal(set, core, fx, now).next.core.deadline == core.deadline,
        supervise::next_signal(set, core, fx, now).next.core.deadline == core.deadline,
        core.deadline == Some(ShutdownDeadline::At(now)) && !core.killed ==> {
            &&& supervise::after_signal(set, core, fx, now).next.core.killed
            &&& supervise::after_signal(set, core, fx, now).effects.last() == EffectModel::Forward(9)
            &&& supervise::after_signal(set, core, fx, now).effects.len() == fx.len() + 2
        },
{
}

/// A request to end the child starts the grace period: while the child runs and none has begun, it
/// begins with SIGINT, SIGQUIT and SIGTERM, and lasts as long as was asked for. No other signal
/// moves the end of the grace period.
pub proof fn law_request_starts_the_grace_period(
    set: Settings,
    zero: Seq<bool>,
    s: SupervisorModel,
    n: i32,
    own: bool,
    now: u128,
)
    requires
        supervise::wf_model(s),
        s.core.phase is Reading,
    ensures
        asks_to_end(n) && s.core.deadline is None && !s.core.killed && now + set.grace_ms * 1000000
            <= u128::MAX ==> on(set, zero, s, n, own, now).next.core.deadline == Some(
            ShutdownDeadline::At((now + set.grace_ms * 1000000) as u128),
        ),
        asks_to_end(n) && s.core.deadline is Some && !s.core.killed ==> {
            &&& on(set, zero, s, n, own, now).next.core.deadline == Some(ShutdownDeadline::At(now))
            &&& on(set, zero, s, n, own, now).next.core.killed
            &&& on(set, zero, s, n, own, now).effects.contains(EffectModel::Forward(9))
        },
        !asks_to_end(n) || s.core.killed ==> on(set, zero, s, n, own, now).next.core.deadline
            == s.core.deadline,
{
    let core = Core { budget: (s.core.budget - 1) as u8, ..s.core };
    let none = Seq::<EffectModel>::empty();
    lemma_batch(set, core, none, now);
    lemma_batch(
        set,
        core,
        supervise::spec_log(none, Level::Debug, "ignoring signal "@ + text::decimal(n as nat)),
        now,
    );
    let fx = if n == SIGCONT && set.foreground {
        none.push(EffectModel::ResumeJob)
    } else {
        none
    };
    let after = Core {
        suspend: core.suspend && n != SIGCONT,
        deadline: supervise::next_deadline(set, core, n, now),
        ..core
    };
    lemma_batch(set, after, fx.push(EffectModel::Forward(n)), now);
    if asks_to_end(n) && s.core.deadline is Some && !s.core.killed {
        let r = on(set, zero, s, n, own, now);
        assert(r.effects[r.effects.len() - 1] == EffectModel::Forward(9));
    }
}

/// What is done with a signal that is read while the child runs, by number: SIGCHLD (17) is
/// followed up, SIGTTIN (21) and SIGTTOU (22) are left alone, and so is a SIGPIPE (13) that the
/// supervisor brought about itself. Every other signal is sent on to the child as it is. Nothing
/// else is sent but the SIGKILL (9) at the end of the grace period, and SIGCONT (18) gives the
/// terminal back to a job that has it.
pub open spec fn handled_by_number(
    set: Settings,
    killed: bool,
    n: i32,
    own: bool,
    r: StepModel,
) -> bool {
    let alone = n == 17 || n == 21 || n == 22 || (n == 13 && own);
    &&& !alone ==> r.effects.contains(EffectModel::Forward(n))
    &&& n == 17 ==> r.request is WaitAny && r.effects.len() == 0
    &&& n == 18 && set.foreground ==> r.effects.contains(EffectModel::ResumeJob)
    &&& forall|i: int|
        0 <= i < r.effects.len() ==> match #[trigger] r.effects[i] {
            EffectModel::Forward(x) => (x == n && !alone) || (x == 9 && r.next.core.killed
                && !killed),
            EffectModel::SignalGroup(_) => false,
            EffectModel::ResumeJob => n == 18 && set.foreground,
            EffectModel::Log(..) => true,
        }
}

proof fn lemma_passed_over(set: Settings, core: Core, n: i32, own: bool, now: u128)
    requires
        core.main_exit is None,
        n == 17 || n == 21 || n == 22 || (n == 13 && own),
    ensures
        handled_by_number(
            set,
            core.killed,
            n,
            own,
            supervise::on_signal(set, core, n, own, now),
        ),
{
    let less = Core { budget: (core.budget - 1) as u8, ..core };
    let none = Seq::<EffectModel>::empty();
    let said = supervise::spec_log(
        none,
        Level::Debug,
        "ignoring signal "@ + text::decimal(n as nat),
    );
    lemma_effects(set, less, none, now);
    lemma_effects(set, less, said, now);
}

proof fn lemma_sent_on(set: Settings, core: Core, n: i32, own: bool, now: u128)
    requires
        core.main_exit is None,
        !(n == 17 || n == 21 || n == 22 || (n == 13 && own)),
    ensures
        handled_by_number(
            set,
            core.killed,
            n,
            own,
            supervise::on_signal(set, core, n, own, now),
        ),
{
    let less = Core { budget: (core.budget - 1) as u8, ..core };
    let none = Seq::<EffectModel>::empty();
    let fx = if n == SIGCONT && set.foreground {
        none.push(EffectModel::ResumeJob)
    } else {
        none
    };
    let after = Core {
        suspend: less.suspend && n != SIGCONT,
        deadline: supervise::next_deadline(set, less, n, now),
        ..less
    };
    let sent = fx.push(EffectModel::Forward(n));
    lemma_effects(set, after, sent, now);
    let r = supervise::on_signal(set, core, n, own, now);
    assert(r == supervise::after_signal(set, after, sent, now));
    assert(sent[fx.len() as int] == EffectModel::Forward(n));
    assert(r.effects[fx.len() as int] == EffectModel::Forward(n));
    if n == 18 && set.foreground {
        assert(sent[0] == EffectModel::ResumeJob);
        assert(r.effects[0] == EffectModel::ResumeJob);
    }
}

/// While the child runs, signals are dealt with by their numbers.
pub proof fn law_signals_by_number(
    set: Settings,
    zero: Seq<bool>,
    s: SupervisorModel,
    n: i32,
    own: bool,
    now: u128,
)
    requires
        supervise::wf_model(s),
        s.core.phase is Reading,
    ensures
        handled_by_number(set, s.core.killed, n, own, on(set, zero, s, n, own, now)),
{
    if n == 17 || n == 21 || n == 22 || (n == 13 && own) {
        lemma_passed_over(set, s.core, n, own, now);
    } else {
        lemma_sent_on(set, s.core, n, own, now);
    }
}

/// What may be added to the effects of a signal: the end of the grace period.
proof fn lemma_effects(set: Settings, core: Core, fx: Seq<EffectModel>, now: u128)
    requires
        core.main_exit is None,
    ensures
        adds_only_the_end(core, fx, supervise::after_batch(set, core, fx, now)),
        adds_only_the_end(core, fx, supervise::after_signal(set, core, fx, now)),
        adds_only_the_end(core, fx, supervise::next_signal(set, core, fx, now)),
{
}

spec fn adds_only_the_end(core: Core, fx: Seq<EffectModel>, r: StepModel) -> bool {
    let k = fx.len() as int;
    if r.next.core.killed && !core.killed {
        &&& r.effects.len() == k + 2
        &&& r.effects[k] is Log
        &&& r.effects[k + 1] == EffectModel::Forward(9)
        &&& forall|i: int| 0 <= i < k ==> #[trigger] r.effects[i] == fx[i]
    } else {
        &&& r.effects == fx
        &&& r.next.core.killed == core.killed
    }
}

// ---------------------------------------------------------------------------
// Time
// ---------------------------------------------------------------------------

/// Whether a poll waits as long as it has to: without end where the child has not to be killed, and
/// else until its time is up, to the millisecond and never less, as far as a poll can wait.
pub open spec fn waits_rightly(core: Core, t: PollTimeout, now: u128) -> bool {
    match core.deadline {
        Some(ShutdownDeadline::At(at)) if !core.killed => match t {
            PollTimeout::Millis(ms) => {
                &&& ms >= 0
                &&& now + ms * 1000000 >= at || ms == 2147483647
                &&& ms == 0 || now + (ms - 1) * 1000000 < at
            },
            PollTimeout::Block => false,
        },
        Some(ShutdownDeadline::Never) if !core.killed => t == PollTimeout::Millis(2147483647),
        _ => t == PollTimeout::Block,
    }
}

proof fn lemma_poll(core: Core, fx: Seq<EffectModel>, now: u128)
    requires
        core.main_exit is None,
    ensures
        ({
            let r = supervise::go_poll(core, fx, now);
            &&& r.next.core.main_exit is None
            &&& r.request matches RequestModel::Poll(t) && waits_rightly(r.next.core, t, now)
        }),
{
    if let Some(d) = core.deadline {
        let left = d.spec_remaining(now) as int;
        let up = (left + 999999) / 1000000;
        assert(up * 1000000 >= left && (up - 1) * 1000000 < left || left == 0 && up == 0)
            by (nonlinear_arith)
            requires
                left >= 0,
                up == (left + 999999) / 1000000,
        ;
        assert(0 <= up) by (nonlinear_arith)
            requires
                left >= 0,
                up == (left + 999999) / 1000000,
        ;
        assert(u128::MAX / 1000000 > 2147483647);
    }
}

spec fn polls_rightly(r: StepModel, now: u128) -> bool {
    r.request matches RequestModel::Poll(t) ==> r.next.core.phase is CleanPolling
        || r.next.core.main_exit is Some || waits_rightly(r.next.core, t, now)
}

proof fn lemma_polls_after_batch(set: Settings, core: Core, fx: Seq<EffectModel>, now: u128)
    ensures
        polls_rightly(supervise::after_batch(set, core, fx, now), now),
        polls_rightly(supervise::after_signal(set, core, fx, now), now),
        polls_rightly(supervise::next_signal(set, core, fx, now), now),
{
    let due = core.deadline matches Some(ShutdownDeadline::At(at)) && !core.killed
        && core.main_exit is None && now >= at;
    let core1 = if due {
        Core { killed: true, ..core }
    } else {
        core
    };
    let fx1 = if due {
        supervise::spec_log(fx, Level::Info, "grace period expired; sending SIGKILL"@).push(
            EffectModel::Forward(SIGKILL),
        )
    } else {
        fx
    };
    if core1.main_exit is None {
        lemma_poll(core1, fx1, now);
    }
}

proof fn lemma_polls_on_signal(set: Settings, core: Core, n: i32, own: bool, now: u128)
    ensures
        polls_rightly(supervise::on_signal(set, core, n, own, now), now),
{
    let less = Core { budget: (core.budget - 1) as u8, ..core };
    let none = Seq::<EffectModel>::empty();
    let said = supervise::spec_log(
        none,
        Level::Debug,
        "ignoring signal "@ + text::decimal(n as nat),
    );
    let fx = if n == SIGCONT && set.foreground {
        none.push(EffectModel::ResumeJob)
    } else {
        none
    };
    let after = Core {
        suspend: less.suspend && n != SIGCONT,
        deadline: supervise::next_deadline(set, less, n, now),
        ..less
    };
    lemma_polls_after_batch(set, less, none, now);
    lemma_polls_after_batch(set, less, said, now);
    lemma_polls_after_batch(set, after, fx.push(EffectModel::Forward(n)), now);
}

proof fn lemma_polls_on_waited(set: Settings, core: Core, status: WaitStatus, now: u128)
    ensures
        polls_rightly(supervise::on_waited(set, core, status, now), now),
{
    let noted = supervise::noted(set, core, status);
    let fx = if supervise::exit_of(status, set.child) is Some {
        Seq::empty()
    } else {
        supervise::logged(Seq::empty(), supervise::status_log(status, set.warn_on_reap))
    };
    lemma_polls_after_batch(set, Core { suspend: false, ..noted }, fx, now);
    lemma_polls_after_batch(set, Core { suspend: true, ..noted }, fx, now);
}

/// While the child runs, no poll lasts beyond the time at which the child has to be killed, and
/// where there is no such time the poll lasts until something happens.
pub proof fn law_polls_end_in_time(
    set: Settings,
    zero: Seq<bool>,
    s: SupervisorModel,
    event: Event,
    now: u128,
)
    requires
        supervise::wf_model(s),
        supervise::answers(s.core.phase, event),
        s.core.phase is Polling || s.core.phase is Reading || s.core.phase is Waiting
            || s.core.phase is Suspending,
    ensures
        ({
            let r = supervise::stepped(set, zero, s, event, now);
            r.request matches RequestModel::Poll(t) ==> waits_rightly(r.next.core, t, now)
        }),
{
    let core = s.core;
    let none = Seq::<EffectModel>::empty();
    let r = supervise::stepped(set, zero, s, event, now);
    match event {
        Event::Polled(_) => {
            let fresh = Core { suspend: false, budget: supervise::SIGNAL_BATCH_LIMIT, ..core };
            lemma_polls_after_batch(set, fresh, none, now);
        },
        Event::PollFailed(_) => {
            lemma_poll(core, none, now);
        },
        Event::Signal { number, own } => {
            lemma_polls_on_signal(set, core, number, own, now);
        },
        Event::NoSignal => {
            lemma_polls_after_batch(set, core, none, now);
        },
        Event::Waited(status) => {
            lemma_polls_on_waited(set, core, status, now);
        },
        Event::WaitFailed(_) => {
            lemma_polls_after_batch(set, Core { suspend: false, ..core }, none, now);
            lemma_polls_after_batch(set, Core { suspend: true, ..core }, none, now);
        },
        Event::Suspended { stopped, kept } => {
            let fx = if stopped && kept {
                seq![EffectModel::ResumeJob, EffectModel::Forward(SIGCONT)]
            } else {
                none
            };
            lemma_poll(core, fx, now);
        },
        _ => {},
    }
    lemma_end_is_cleaned_up(set, zero, s, event, now);
}

/// Once the end of the child is known, nothing is waited for any more but what it left behind.
proof fn lemma_end_is_cleaned_up(
    set: Settings,
    zero: Seq<bool>,
    s: SupervisorModel,
    event: Event,
    now: u128,
)
    requires
        supervise::wf_model(s),
        supervise::answers(s.core.phase, event),
        s.core.phase is Polling || s.core.phase is Reading || s.core.phase is Waiting
            || s.core.phase is Suspending,
    ensures
        ({
            let r = supervise::stepped(set, zero, s, event, now);
            r.request is Poll ==> r.next.core.phase is Polling && r.next.core.main_exit is None
        }),
{
}

/// Once the time is up the child is killed at the end of the batch, which is when no signal is left
/// to be read or enough were read, and at the latest when the poll that waited for it is over.
pub proof fn law_child_is_killed_in_time(
    set: Settings,
    zero: Seq<bool>,
    s: SupervisorModel,
    event: Event,
    at: u128,
    now: u128,
)
    requires
        supervise::wf_model(s),
        s.core.deadline == Some(ShutdownDeadline::At(at)),
        !s.core.killed,
        now >= at,
        (s.core.phase is Reading && event is NoSignal) || (s.core.phase is Polling && event
            == Event::Polled(0)),
    ensures
        ({
            let r = supervise::stepped(set, zero, s, event, now);
            &&& r.next.core.killed
            &&& r.effects.contains(EffectModel::Forward(9))
        }),
{
    let r = supervise::stepped(set, zero, s, event, now);
    assert(0u16 & 8 == 0 && 0u16 & 16 == 0 && 0u16 & 32 == 0 && 0u16 & 1 == 0) by (bit_vector);
    assert(r.effects[1] == EffectModel::Forward(9));
}

/// A batch of signals is bounded: it has room for 64 of them when it begins, every signal that is
/// read takes one, and without room none is asked for.
pub proof fn law_batches_are_bounded(
    set: Settings,
    zero: Seq<bool>,
    s: SupervisorModel,
    n: i32,
    own: bool,
    events: u16,
    now: u128,
)
    requires
        supervise::wf_model(s),
    ensures
        s.core.phase is Reading ==> {
            let r = on(set, zero, s, n, own, now);
            r.request is ReadSignal && r.next.core.phase is Reading ==> 0 < r.next.core.budget
                && r.next.core.budget == s.core.budget - 1
        },
        s.core.phase is Polling ==> {
            let r = supervise::stepped(set, zero, s, Event::Polled(events), now);
            r.request is ReadSignal && r.next.core.phase is Reading ==> r.next.core.budget == 64
        },
{
}

/// What the end of a poll means, by its bits: an error (8), a hang-up (16) or a closed descriptor
/// (32) ends the supervision, and else a signal is read where there is one (1).
pub proof fn law_polls_by_bit(
    set: Settings,
    zero: Seq<bool>,
    s: SupervisorModel,
    events: u16,
    now: u128,
)
    requires
        supervise::wf_model(s),
        s.core.phase is Polling,
    ensures
        ({
            let r = supervise::stepped(set, zero, s, Event::Polled(events), now);
            &&& events & 56 != 0 <==> r.request is KillChild
            &&& events & 56 == 0 && events & 1 == 1 ==> r.request is ReadSignal
            &&& events & 56 == 0 && events & 1 == 0 ==> r.request is Poll || r.request is SuspendJob
        }),
{
    assert((events & 8 != 0 || events & 16 != 0 || events & 32 != 0) <==> events & 56 != 0)
        by (bit_vector);
    assert(events & 1 == 0 || events & 1 == 1) by (bit_vector);
}

/// Which signals are read and blocked, by number: all but SIGILL (4), SIGTRAP (5), SIGABRT (6),
/// SIGBUS (7), SIGFPE (8), SIGSEGV (11) and SIGSYS (31), which a process brings on itself. Those
/// are blocked only where they were blocked before. A waiting SIGCONT (18) of the caller is left to
/// the caller.
pub proof fn law_signals_that_are_read(n: i32, before: bool, pending: bool)
    ensures
        ({
            let own_fault = n == 4 || n == 5 || n == 6 || n == 7 || n == 8 || n == 11 || n == 31;
            &&& launch::reads(n) <==> !own_fault
            &&& launch::blocks(n, before) <==> !own_fault || before
            &&& launch::accepts(n, before, pending) <==> !own_fault && !(n == 18 && before
                && pending)
        }),
{
}

/// What is read reaches the command: each signal from 1 to 64 that is not one of those above, nor the news
/// of a child (17), nor one of the terminal (21 and 22), is read, is blocked until then, and is sent on. A
/// broken pipe (13) is too, unless the supervisor brought it on itself.
pub proof fn law_what_is_read_reaches_the_command(
    set: Settings,
    zero: Seq<bool>,
    s: SupervisorModel,
    n: i32,
    own: bool,
    before: bool,
    now: u128,
)
    requires
        supervise::wf_model(s),
        s.core.phase is Reading,
        1 <= n <= 64,
        !(4 <= n <= 8) && n != 11 && n != 17 && n != 21 && n != 22 && n != 31,
        n == 13 ==> !own,
    ensures
        launch::reads(n),
        launch::blocks(n, before),
        launch::accepts(n, false, false),
        on(set, zero, s, n, own, now).effects.contains(EffectModel::Forward(n)),
{
    law_signals_that_are_read(n, before, false);
    law_signals_that_are_read(n, false, false);
    law_signals_by_number(set, zero, s, n, own, now);
}

} // verus!
