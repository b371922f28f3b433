//! What the supervisor promises, whatever happens.

use vstd::prelude::*;

use crate::error::ErrorModel;
use crate::logging::Level;
use crate::signals::{SIGCHLD, SIGCONT, SIGKILL, SIGPIPE, SIGTTIN, SIGTTOU};
use crate::supervise::{
    self, Core, EffectModel, Event, Phase, RequestModel, Settings, ShutdownDeadline, StepModel,
    SupervisorModel, WaitStatus,
};
use crate::text;

verus! {

/// The exit code of the child is passed on as it is, but for the chosen codes, which become 0.
pub proof fn law_exit_code_is_kept(code: int, zero: Seq<bool>)
    requires
        zero.len() == 256,
    ensures
        supervise::remapped(code, zero) == code || (0 <= code < 256 && zero[code]),
        0 <= code < 256 && zero[code] ==> supervise::remapped(code, zero) == 0,
{
}

/// A child that was killed by a signal ends with 128 and the number of the signal, and one that
/// ended by itself with its own code.
pub proof fn law_how_a_child_ended(child: u32, code: u8, sig: u8, core_dumped: bool)
    ensures
        supervise::exit_of(WaitStatus::Exited(child, code), child) == Some(code as u16),
        supervise::exit_of(WaitStatus::Signaled(child, sig, core_dumped), child) == Some(
            (128 + sig) as u16,
        ),
{
}

/// The first request to terminate starts the grace period, and a second one ends it at once.
pub proof fn law_second_request_ends_the_grace_period(set: Settings, core: Core, sig: i32, now: u128)
    requires
        supervise::spec_is_termination(sig),
        core.main_exit is None,
        !core.killed,
    ensures
        core.deadline is None ==> supervise::next_deadline(set, core, sig, now) == Some(
            ShutdownDeadline::spec_after(now, set.grace_ms),
        ),
        core.deadline is Some ==> {
            &&& supervise::next_deadline(set, core, sig, now) == Some(ShutdownDeadline::At(now))
            &&& supervise::is_over(supervise::next_deadline(set, core, sig, now), now)
        },
{
}

/// Whether nothing is sent to the child itself.
pub open spec fn leaves_child_alone(fx: Seq<EffectModel>) -> bool {
    forall|i: int| 0 <= i < fx.len() ==> !(#[trigger] fx[i] is Forward || fx[i] is ResumeJob)
}

proof fn lemma_alone_after_signal(set: Settings, core: Core, fx: Seq<EffectModel>, now: u128)
    requires
        core.main_exit is Some,
        leaves_child_alone(fx),
    ensures
        leaves_child_alone(supervise::after_signal(set, core, fx, now).effects),
        leaves_child_alone(supervise::start_cleanup(set, core, fx, now).effects),
        !(supervise::after_signal(set, core, fx, now).request is KillChild),
{
}

proof fn lemma_alone_waiting(
    set: Settings,
    zero: Seq<bool>,
    s: SupervisorModel,
    event: Event,
    now: u128,
)
    requires
        supervise::wf_model(s),
        supervise::answers(s.core.phase, event),
        s.core.phase is Waiting,
        s.core.main_exit is Some,
    ensures
        leaves_child_alone(supervise::stepped(set, zero, s, event, now).effects),
        !(supervise::stepped(set, zero, s, event, now).request is KillChild),
{
    let core = s.core;
    let none = Seq::<EffectModel>::empty();
    match event {
        Event::Waited(status) => {
            let fx = if supervise::exit_of(status, set.child) is Some {
                none
            } else {
                supervise::logged(none, supervise::status_log(status, set.warn_on_reap))
            };
            let after = Core { suspend: false, ..supervise::noted(set, core, status) };
            lemma_alone_after_signal(set, after, fx, now);
        },
        Event::WaitFailed(f) => {
            lemma_alone_after_signal(set, Core { suspend: false, ..core }, none, now);
        },
        _ => {},
    }
}

proof fn lemma_alone_judge(
    set: Settings,
    core: Core,
    zero: Seq<bool>,
    gone: bool,
    fx: Seq<EffectModel>,
    now: u128,
)
    requires
        leaves_child_alone(fx),
    ensures
        leaves_child_alone(supervise::clean_judge(set, core, zero, gone, fx, now).effects),
        leaves_child_alone(supervise::clean_reaped(set, core, zero, gone, fx, now).effects),
        !(supervise::clean_judge(set, core, zero, gone, fx, now).request is KillChild),
        !(supervise::clean_reaped(set, core, zero, gone, fx, now).request is KillChild),
{
}

proof fn lemma_alone_cleaning(
    set: Settings,
    zero: Seq<bool>,
    s: SupervisorModel,
    event: Event,
    now: u128,
)
    requires
        supervise::wf_model(s),
        supervise::answers(s.core.phase, event),
        supervise::cleaning(s.core.phase),
    ensures
        leaves_child_alone(supervise::stepped(set, zero, s, event, now).effects),
        !(supervise::stepped(set, zero, s, event, now).request is KillChild),
{
    let core = s.core;
    let none = Seq::<EffectModel>::empty();
    match event {
        Event::Waited(status) => {
            lemma_alone_judge(
                set,
                core,
                zero,
                false,
                supervise::logged(none, supervise::status_log(status, set.warn_on_reap)),
                now,
            );
        },
        Event::WaitFailed(f) => {
            lemma_alone_judge(set, core, zero, true, none, now);
        },
        Event::GroupExists(there) => {
            lemma_alone_judge(set, core, zero, !there, none, now);
        },
        _ => {},
    }
}

proof fn lemma_alone_failing(
    set: Settings,
    zero: Seq<bool>,
    s: SupervisorModel,
    event: Event,
    now: u128,
)
    requires
        supervise::wf_model(s),
        supervise::answers(s.core.phase, event),
        supervise::failing_phase(s.core.phase),
        s.core.main_exit is Some,
    ensures
        leaves_child_alone(supervise::stepped(set, zero, s, event, now).effects),
        !(supervise::stepped(set, zero, s, event, now).request is KillChild),
{
}

/// Once the end of the child was seen, nothing is sent to its process number any more: the number
/// may by then belong to another process.
pub proof fn law_ended_child_is_left_alone(
    set: Settings,
    zero: Seq<bool>,
    s: SupervisorModel,
    event: Event,
    now: u128,
)
    requires
        supervise::wf_model(s),
        supervise::answers(s.core.phase, event),
        s.core.main_exit is Some,
    ensures
        leaves_child_alone(supervise::stepped(set, zero, s, event, now).effects),
        !(supervise::stepped(set, zero, s, event, now).request is KillChild),
{
    if s.core.phase is Waiting {
        lemma_alone_waiting(set, zero, s, event, now);
    } else if supervise::cleaning(s.core.phase) {
        lemma_alone_cleaning(set, zero, s, event, now);
    } else {
        lemma_alone_failing(set, zero, s, event, now);
    }
}

/// Whether the child itself is not killed.
pub open spec fn spares_child(fx: Seq<EffectModel>) -> bool {
    forall|i: int| 0 <= i < fx.len() ==> #[trigger] fx[i] != EffectModel::Forward(SIGKILL)
}

proof fn lemma_spared_after_signal(set: Settings, core: Core, fx: Seq<EffectModel>, now: u128)
    requires
        core.killed,
        spares_child(fx),
    ensures
        spares_child(supervise::after_batch(set, core, fx, now).effects),
        spares_child(supervise::next_signal(set, core, fx, now).effects),
        spares_child(supervise::after_signal(set, core, fx, now).effects),
        supervise::after_batch(set, core, fx, now).next.core.killed,
        supervise::next_signal(set, core, fx, now).next.core.killed,
        supervise::after_signal(set, core, fx, now).next.core.killed,
{
}

proof fn lemma_spared_on_signal(set: Settings, core: Core, sig: i32, own: bool, now: u128)
    requires
        core.killed,
        sig != SIGKILL,
    ensures
        spares_child(supervise::on_signal(set, core, sig, own, now).effects),
        supervise::on_signal(set, core, sig, own, now).next.core.killed,
{
    let none = Seq::<EffectModel>::empty();
    let less = Core { budget: (core.budget - 1) as u8, ..core };
    let moved = Core {
        suspend: less.suspend && sig != SIGCONT,
        deadline: supervise::next_deadline(set, less, sig, now),
        ..less
    };
    lemma_spared_after_signal(set, less, none, now);
    lemma_spared_after_signal(
        set,
        less,
        supervise::spec_log(none, Level::Debug, "ignoring signal "@ + text::decimal(sig as nat)),
        now,
    );
    lemma_spared_after_signal(
        set,
        moved,
        (if sig == SIGCONT && set.foreground {
            none.push(EffectModel::ResumeJob)
        } else {
            none
        }).push(EffectModel::Forward(sig)),
        now,
    );
}

proof fn lemma_spared_running(
    set: Settings,
    zero: Seq<bool>,
    s: SupervisorModel,
    event: Event,
    now: u128,
)
    requires
        supervise::wf_model(s),
        supervise::answers(s.core.phase, event),
        s.core.phase is Polling || s.core.phase is Reading || s.core.phase is Suspending,
        s.core.killed,
        event matches Event::Signal { number, own } ==> number != SIGKILL,
    ensures
        spares_child(supervise::stepped(set, zero, s, event, now).effects),
        supervise::stepped(set, zero, s, event, now).next.core.killed,
{
    let core = s.core;
    let none = Seq::<EffectModel>::empty();
    match event {
        Event::Polled(events) => {
            lemma_spared_after_signal(
                set,
                Core { suspend: false, budget: supervise::SIGNAL_BATCH_LIMIT, ..core },
                none,
                now,
            );
        },
        Event::Signal { number, own } => {
            lemma_spared_on_signal(set, core, number, own, now);
        },
        Event::NoSignal => {
            lemma_spared_after_signal(set, core, none, now);
        },
        _ => {},
    }
}

proof fn lemma_spared_waiting(
    set: Settings,
    zero: Seq<bool>,
    s: SupervisorModel,
    event: Event,
    now: u128,
)
    requires
        supervise::wf_model(s),
        supervise::answers(s.core.phase, event),
        s.core.phase is Waiting,
        s.core.killed,
    ensures
        spares_child(supervise::stepped(set, zero, s, event, now).effects),
        supervise::stepped(set, zero, s, event, now).next.core.killed,
{
    let core = s.core;
    let none = Seq::<EffectModel>::empty();
    match event {
        Event::Waited(status) => {
            let fx = if supervise::exit_of(status, set.child) is Some {
                none
            } else {
                supervise::logged(none, supervise::status_log(status, set.warn_on_reap))
            };
            let noted = supervise::noted(set, core, status);
            lemma_spared_after_signal(set, Core { suspend: false, ..noted }, fx, now);
            lemma_spared_after_signal(set, Core { suspend: true, ..noted }, fx, now);
        },
        Event::WaitFailed(f) => {
            lemma_spared_after_signal(set, Core { suspend: false, ..core }, none, now);
            lemma_spared_after_signal(set, Core { suspend: true, ..core }, none, now);
        },
        _ => {},
    }
}

proof fn lemma_spared_judge(
    set: Settings,
    core: Core,
    zero: Seq<bool>,
    gone: bool,
    fx: Seq<EffectModel>,
    now: u128,
)
    requires
        spares_child(fx),
        core.killed,
    ensures
        spares_child(supervise::clean_judge(set, core, zero, gone, fx, now).effects),
        spares_child(supervise::clean_reaped(set, core, zero, gone, fx, now).effects),
        supervise::clean_judge(set, core, zero, gone, fx, now).next.core.killed,
        supervise::clean_reaped(set, core, zero, gone, fx, now).next.core.killed,
{
}

proof fn lemma_spared_cleaning(
    set: Settings,
    zero: Seq<bool>,
    s: SupervisorModel,
    event: Event,
    now: u128,
)
    requires
        supervise::wf_model(s),
        supervise::answers(s.core.phase, event),
        supervise::cleaning(s.core.phase),
        s.core.killed,
    ensures
        spares_child(supervise::stepped(set, zero, s, event, now).effects),
        supervise::stepped(set, zero, s, event, now).next.core.killed,
{
    let core = s.core;
    let none = Seq::<EffectModel>::empty();
    match event {
        Event::Waited(status) => {
            lemma_spared_judge(
                set,
                core,
                zero,
                false,
                supervise::logged(none, supervise::status_log(status, set.warn_on_reap)),
                now,
            );
        },
        Event::WaitFailed(f) => {
            lemma_spared_judge(set, core, zero, true, none, now);
        },
        Event::GroupExists(there) => {
            lemma_spared_judge(set, core, zero, !there, none, now);
        },
        _ => {},
    }
}

proof fn lemma_spared_failing(
    set: Settings,
    zero: Seq<bool>,
    s: SupervisorModel,
    event: Event,
    now: u128,
)
    requires
        supervise::wf_model(s),
        supervise::answers(s.core.phase, event),
        supervise::failing_phase(s.core.phase),
        s.core.killed,
    ensures
        spares_child(supervise::stepped(set, zero, s, event, now).effects),
        supervise::stepped(set, zero, s, event, now).next.core.killed,
{
}

/// The child is killed at the end of the grace period once, and never again.
pub proof fn law_child_is_killed_once(
    set: Settings,
    zero: Seq<bool>,
    s: SupervisorModel,
    event: Event,
    now: u128,
)
    requires
        supervise::wf_model(s),
        supervise::answers(s.core.phase, event),
        s.core.killed,
        event matches Event::Signal { number, own } ==> number != SIGKILL,
    ensures
        spares_child(supervise::stepped(set, zero, s, event, now).effects),
        supervise::stepped(set, zero, s, event, now).next.core.killed,
{
    if s.core.phase is Waiting {
        lemma_spared_waiting(set, zero, s, event, now);
    } else if supervise::cleaning(s.core.phase) {
        lemma_spared_cleaning(set, zero, s, event, now);
    } else if supervise::failing_phase(s.core.phase) {
        lemma_spared_failing(set, zero, s, event, now);
    } else {
        lemma_spared_running(set, zero, s, event, now);
    }
}

// ---------------------------------------------------------------------------
// Signals reach the child, and nothing is left behind
// ---------------------------------------------------------------------------

/// While the child runs, every signal is forwarded to it, but for those that tell of children or
/// of the terminal, and those that the supervisor brought about itself.
pub proof fn law_signals_are_forwarded(
    set: Settings,
    zero: Seq<bool>,
    s: SupervisorModel,
    sig: i32,
    own: bool,
    now: u128,
)
    requires
        s.core.phase is Reading,
        sig != SIGCHLD && sig != SIGTTIN && sig != SIGTTOU,
        !(sig == SIGPIPE && own),
    ensures
        supervise::stepped(
            set,
            zero,
            s,
            Event::Signal { number: sig, own },
            now,
        ).effects.contains(EffectModel::Forward(sig)),
{
    let core = Core { budget: (s.core.budget - 1) as u8, ..s.core };
    let none = Seq::<EffectModel>::empty();
    let fx = if sig == SIGCONT && set.foreground {
        none.push(EffectModel::ResumeJob)
    } else {
        none
    };
    let after = Core {
        suspend: core.suspend && sig != SIGCONT,
        deadline: supervise::next_deadline(set, core, sig, now),
        ..core
    };
    lemma_effects_are_kept(set, after, fx.push(EffectModel::Forward(sig)), now, fx.len() as int);
}

proof fn lemma_effects_are_kept(
    set: Settings,
    core: Core,
    fx: Seq<EffectModel>,
    now: u128,
    i: int,
)
    requires
        0 <= i < fx.len(),
    ensures
        supervise::after_batch(set, core, fx, now).effects.contains(fx[i]),
        supervise::after_signal(set, core, fx, now).effects.contains(fx[i]),
{
    assert(supervise::after_batch(set, core, fx, now).effects[i] == fx[i]);
    assert(supervise::after_signal(set, core, fx, now).effects[i] == fx[i]);
}

/// What is left of the group has as long as the child had: a grace period that has begun is not
/// begun again.
pub proof fn law_cleanup_shares_the_deadline(
    set: Settings,
    core: Core,
    fx: Seq<EffectModel>,
    d: ShutdownDeadline,
    now: u128,
)
    requires
        core.deadline == Some(d),
    ensures
        supervise::start_cleanup(set, core, fx, now).next.core.clean == d,
{
}

/// Whether a request goes on with the supervision.
spec fn goes_on(request: RequestModel) -> bool {
    !(request is Exit) && !(request is Fail)
}

proof fn lemma_batch_goes_on(set: Settings, core: Core, fx: Seq<EffectModel>, now: u128)
    ensures
        goes_on(supervise::after_batch(set, core, fx, now).request),
        goes_on(supervise::next_signal(set, core, fx, now).request),
        goes_on(supervise::after_signal(set, core, fx, now).request),
{
}

proof fn lemma_signal_goes_on(set: Settings, core: Core, sig: i32, own: bool, now: u128)
    ensures
        goes_on(supervise::on_signal(set, core, sig, own, now).request),
{
    let less = Core { budget: (core.budget - 1) as u8, ..core };
    let none = Seq::<EffectModel>::empty();
    if sig == SIGPIPE && own {
        lemma_batch_goes_on(set, less, none, now);
    } else if sig == SIGTTIN || sig == SIGTTOU {
        let fx = supervise::spec_log(
            none,
            Level::Debug,
            "ignoring signal "@ + text::decimal(sig as nat),
        );
        lemma_batch_goes_on(set, less, fx, now);
    } else if sig != SIGCHLD {
        let fx = if sig == SIGCONT && set.foreground {
            none.push(EffectModel::ResumeJob)
        } else {
            none
        };
        let after = Core {
            suspend: less.suspend && sig != SIGCONT,
            deadline: supervise::next_deadline(set, less, sig, now),
            ..less
        };
        lemma_batch_goes_on(set, after, fx.push(EffectModel::Forward(sig)), now);
    }
}

proof fn lemma_wait_goes_on(set: Settings, core: Core, status: WaitStatus, now: u128)
    ensures
        goes_on(supervise::on_waited(set, core, status, now).request),
{
    let noted = supervise::noted(set, core, status);
    let fx = if supervise::exit_of(status, set.child) is Some {
        Seq::empty()
    } else {
        supervise::logged(Seq::empty(), supervise::status_log(status, set.warn_on_reap))
    };
    lemma_batch_goes_on(set, Core { suspend: false, ..noted }, fx, now);
    lemma_batch_goes_on(set, Core { suspend: true, ..noted }, fx, now);
}

proof fn lemma_no_end_running(
    set: Settings,
    zero: Seq<bool>,
    s: SupervisorModel,
    event: Event,
    now: u128,
)
    requires
        supervise::answers(s.core.phase, event),
        !supervise::cleaning(s.core.phase),
        !supervise::failing_phase(s.core.phase),
        s.core.main_exit is None,
    ensures
        goes_on(supervise::stepped(set, zero, s, event, now).request),
{
    let core = s.core;
    let none = Seq::<EffectModel>::empty();
    match event {
        Event::Polled(events) => {
            let fresh = Core { suspend: false, budget: supervise::SIGNAL_BATCH_LIMIT, ..core };
            lemma_batch_goes_on(set, fresh, none, now);
        },
        Event::Signal { number, own } => {
            lemma_signal_goes_on(set, core, number, own, now);
        },
        Event::NoSignal => {
            lemma_batch_goes_on(set, core, none, now);
        },
        Event::Waited(status) => {
            lemma_wait_goes_on(set, core, status, now);
        },
        _ => {},
    }
}

proof fn lemma_no_exit_failing(
    set: Settings,
    zero: Seq<bool>,
    s: SupervisorModel,
    event: Event,
    now: u128,
)
    requires
        supervise::wf_model(s),
        supervise::answers(s.core.phase, event),
        supervise::failing_phase(s.core.phase),
    ensures
        !(supervise::stepped(set, zero, s, event, now).request is Exit),
        supervise::stepped(set, zero, s, event, now).request is Fail ==> supervise::stepped(
            set,
            zero,
            s,
            event,
            now,
        ).request == RequestModel::Fail(supervise::held(s)),
{
}

/// The supervision never ends while the child is known to run: an exit code is given only once
/// the child has ended and nothing has failed, and an error only once the child has ended or was
/// sent a signal that kills it. The error is the one that ended the supervision.
pub proof fn law_no_end_while_the_child_runs(
    set: Settings,
    zero: Seq<bool>,
    s: SupervisorModel,
    event: Event,
    now: u128,
)
    requires
        supervise::wf_model(s),
        supervise::answers(s.core.phase, event),
    ensures
        supervise::stepped(set, zero, s, event, now).request is Exit ==> s.core.main_exit is Some
            && s.error is None,
        supervise::stepped(set, zero, s, event, now).request is Fail ==> s.core.main_exit is Some
            || supervise::failing_phase(s.core.phase),
        s.error is Some && supervise::stepped(set, zero, s, event, now).request is Fail
            ==> supervise::stepped(set, zero, s, event, now).request
            == RequestModel::Fail(s.error->0),
{
    if supervise::failing_phase(s.core.phase) {
        lemma_no_exit_failing(set, zero, s, event, now);
    } else if s.core.main_exit is None {
        lemma_no_end_running(set, zero, s, event, now);
    }
}

/// The exit code at the end is the one that the child ended with, but for the chosen codes, which
/// become 0.
pub proof fn law_exit_code_is_the_childs(
    set: Settings,
    zero: Seq<bool>,
    s: SupervisorModel,
    event: Event,
    now: u128,
)
    requires
        supervise::wf_model(s),
        supervise::answers(s.core.phase, event),
    ensures
        supervise::stepped(set, zero, s, event, now).request matches RequestModel::Exit(code)
            ==> s.core.main_exit is Some && code == supervise::remapped(
            s.core.main_exit->0 as int,
            zero,
        ),
{
    law_no_end_while_the_child_runs(set, zero, s, event, now);
}

/// What is known of the end of the child after a step.
spec fn end_after(step: StepModel) -> Option<u16> {
    step.next.core.main_exit
}

proof fn lemma_end_after_batch(set: Settings, core: Core, fx: Seq<EffectModel>, now: u128)
    ensures
        end_after(supervise::after_batch(set, core, fx, now)) == core.main_exit,
        end_after(supervise::next_signal(set, core, fx, now)) == core.main_exit,
        end_after(supervise::after_signal(set, core, fx, now)) == core.main_exit,
{
}

proof fn lemma_end_after_signal(set: Settings, core: Core, sig: i32, own: bool, now: u128)
    ensures
        end_after(supervise::on_signal(set, core, sig, own, now)) == core.main_exit,
{
    let less = Core { budget: (core.budget - 1) as u8, ..core };
    let none = Seq::<EffectModel>::empty();
    if sig == SIGPIPE && own {
        lemma_end_after_batch(set, less, none, now);
    } else if sig == SIGTTIN || sig == SIGTTOU {
        let fx = supervise::spec_log(
            none,
            Level::Debug,
            "ignoring signal "@ + text::decimal(sig as nat),
        );
        lemma_end_after_batch(set, less, fx, now);
    } else if sig != SIGCHLD {
        let fx = if sig == SIGCONT && set.foreground {
            none.push(EffectModel::ResumeJob)
        } else {
            none
        };
        let after = Core {
            suspend: less.suspend && sig != SIGCONT,
            deadline: supervise::next_deadline(set, less, sig, now),
            ..less
        };
        lemma_end_after_batch(set, after, fx.push(EffectModel::Forward(sig)), now);
    }
}

proof fn lemma_end_after_waited(set: Settings, core: Core, status: WaitStatus, now: u128)
    ensures
        end_after(supervise::on_waited(set, core, status, now)) == supervise::noted(
            set,
            core,
            status,
        ).main_exit,
{
    let noted = supervise::noted(set, core, status);
    let fx = if supervise::exit_of(status, set.child) is Some {
        Seq::empty()
    } else {
        supervise::logged(Seq::empty(), supervise::status_log(status, set.warn_on_reap))
    };
    lemma_end_after_batch(set, Core { suspend: false, ..noted }, fx, now);
    lemma_end_after_batch(set, Core { suspend: true, ..noted }, fx, now);
}

proof fn lemma_end_after_running(
    set: Settings,
    zero: Seq<bool>,
    s: SupervisorModel,
    event: Event,
    now: u128,
)
    requires
        supervise::answers(s.core.phase, event),
        !supervise::cleaning(s.core.phase),
        !supervise::failing_phase(s.core.phase),
    ensures
        end_after(supervise::stepped(set, zero, s, event, now)) == match (s.core.phase, event) {
            (Phase::Waiting, Event::Waited(status)) => supervise::noted(
                set,
                s.core,
                status,
            ).main_exit,
            _ => s.core.main_exit,
        },
{
    let core = s.core;
    let none = Seq::<EffectModel>::empty();
    match event {
        Event::Polled(_) => {
            let fresh = Core { suspend: false, budget: supervise::SIGNAL_BATCH_LIMIT, ..core };
            lemma_end_after_batch(set, fresh, none, now);
        },
        Event::Signal { number, own } => {
            lemma_end_after_signal(set, core, number, own, now);
        },
        Event::NoSignal => {
            lemma_end_after_batch(set, core, none, now);
        },
        Event::Waited(status) => {
            lemma_end_after_waited(set, core, status, now);
        },
        Event::WaitFailed(_) => {
            lemma_end_after_batch(set, Core { suspend: false, ..core }, none, now);
            lemma_end_after_batch(set, Core { suspend: true, ..core }, none, now);
        },
        _ => {},
    }
}

proof fn lemma_end_after_judge(
    set: Settings,
    core: Core,
    zero: Seq<bool>,
    gone: bool,
    fx: Seq<EffectModel>,
    now: u128,
)
    ensures
        end_after(supervise::clean_judge(set, core, zero, gone, fx, now)) == core.main_exit,
        end_after(supervise::clean_reaped(set, core, zero, gone, fx, now)) == core.main_exit,
{
}

proof fn lemma_end_after_cleaning(
    set: Settings,
    zero: Seq<bool>,
    s: SupervisorModel,
    event: Event,
    now: u128,
)
    requires
        supervise::answers(s.core.phase, event),
        supervise::cleaning(s.core.phase),
    ensures
        end_after(supervise::stepped(set, zero, s, event, now)) == s.core.main_exit,
{
    let core = s.core;
    let none = Seq::<EffectModel>::empty();
    match event {
        Event::Waited(status) => {
            let fx = supervise::logged(none, supervise::status_log(status, set.warn_on_reap));
            lemma_end_after_judge(set, core, zero, false, fx, now);
        },
        Event::WaitFailed(_) => {
            lemma_end_after_judge(set, core, zero, true, none, now);
        },
        Event::GroupExists(there) => {
            lemma_end_after_judge(set, core, zero, !there, none, now);
        },
        _ => {},
    }
}

#[verifier::spinoff_prover]
proof fn lemma_end_after_failing(
    set: Settings,
    zero: Seq<bool>,
    s: SupervisorModel,
    event: Event,
    now: u128,
)
    requires
        supervise::wf_model(s),
        supervise::answers(s.core.phase, event),
        supervise::failing_phase(s.core.phase),
    ensures
        end_after(supervise::stepped(set, zero, s, event, now)) == s.core.main_exit,
{
    match s.core.phase {
        Phase::KillingChild => {},
        Phase::AwaitingChild => {},
        Phase::AwaitingGroup => {},
        _ => {},
    }
}

/// How the child ended is learned from its own status, while it is waited for, and from nothing
/// else.
pub proof fn law_only_its_status_ends_the_child(
    set: Settings,
    zero: Seq<bool>,
    s: SupervisorModel,
    event: Event,
    now: u128,
)
    requires
        supervise::wf_model(s),
        supervise::answers(s.core.phase, event),
    ensures
        supervise::stepped(set, zero, s, event, now).next.core.main_exit == match (
            s.core.phase,
            event,
        ) {
            (Phase::Waiting, Event::Waited(status)) => if supervise::exit_of(
                status,
                set.child,
            ) is Some {
                supervise::exit_of(status, set.child)
            } else {
                s.core.main_exit
            },
            _ => s.core.main_exit,
        },
{
    if supervise::failing_phase(s.core.phase) {
        lemma_end_after_failing(set, zero, s, event, now);
    } else if supervise::cleaning(s.core.phase) {
        lemma_end_after_cleaning(set, zero, s, event, now);
    } else {
        lemma_end_after_running(set, zero, s, event, now);
    }
}

/// After a failure, the first thing that is asked for is the end of a child that still runs.
pub proof fn law_failure_ends_the_child(
    set: Settings,
    core: Core,
    e: ErrorModel,
    fx: Seq<EffectModel>,
    now: u128,
)
    requires
        core.main_exit is None,
    ensures
        supervise::fail(set, core, e, fx, now).request is KillChild,
        set.use_pgroup ==> supervise::fail(set, core, e, fx, now).effects.contains(
            EffectModel::SignalGroup(SIGKILL),
        ),
{
    if set.use_pgroup {
        assert(supervise::fail(set, core, e, fx, now).effects[fx.len() as int]
            == EffectModel::SignalGroup(SIGKILL));
    }
}

} // verus!
