//! The way of the child to its command, step by step, and what its group and its exit code come to.

use vstd::prelude::*;

use crate::cli::CliModel;
use crate::control;
use crate::elf;
use crate::error;
use crate::expand;
use crate::expand_law;
use crate::facts::{FindModel, WorldModel};
use crate::launch::{self, ChildEvent, ChildPlan, ChildStep, GroupEvent, GroupReply, GroupStepModel};
use crate::landlock::{self, LandlockError};
use crate::logging::{self, Level};
use crate::policy;
use crate::report::{self, Failure};
use crate::signals;
use crate::supervise;
use crate::text;

verus! {

// ---------------------------------------------------------------------------
// The child
// ---------------------------------------------------------------------------

/// The steps of a child for which nothing goes wrong.
pub open spec fn all_steps(p: ChildPlan) -> Seq<ChildStep> {
    let death = match p.pdeath {
        Some(sig) => seq![ChildStep::SetPdeath(sig), ChildStep::CheckParent(sig)],
        None => Seq::empty(),
    };
    let group = if p.pgroup_kill && p.claim_terminal {
        seq![ChildStep::SetGroup, ChildStep::ClaimTerminal]
    } else if p.pgroup_kill {
        seq![ChildStep::SetGroup]
    } else {
        Seq::empty()
    };
    let fence = if p.restrict {
        seq![ChildStep::Restrict]
    } else {
        Seq::empty()
    };
    seq![ChildStep::ResetSigpipe] + death + group + seq![ChildStep::SetMask] + fence + seq![
        ChildStep::Exec,
    ]
}

/// A child for which nothing goes wrong takes all of its steps, in their order and without a word:
/// each is followed by the next.
pub proof fn law_steps_follow_each_other(p: ChildPlan, program: Seq<u8>, i: int)
    requires
        0 <= i < all_steps(p).len() - 1,
    ensures
        ({
            let m = launch::child_move(p, program, all_steps(p)[i], ChildEvent::Done);
            m.step == all_steps(p)[i + 1] && m.said.len() == 0
        }),
{
}

/// What goes wrong before the command is run ends the child with the exit code 1, but for a group or
/// a terminal that cannot be had, and for restrictions that may be missing. A parent that has died
/// already is answered with the signal that was asked for, and then the child goes on.
pub proof fn law_what_ends_the_child(
    p: ChildPlan,
    program: Seq<u8>,
    errno: i32,
    sig: i32,
    e: LandlockError,
)
    ensures
        ({
            let f = ChildEvent::Failed(errno);
            let behind = if p.pgroup_kill {
                ChildStep::SetGroup
            } else {
                ChildStep::SetMask
            };
            let refused = ChildEvent::RestrictFailed(e);
            &&& launch::child_move(p, program, ChildStep::ResetSigpipe, f).step == ChildStep::Exit(1)
            &&& launch::child_move(p, program, ChildStep::SetPdeath(sig), f).step
                == ChildStep::Exit(1)
            &&& launch::child_move(p, program, ChildStep::SetMask, f).step == ChildStep::Exit(1)
            &&& launch::child_move(p, program, ChildStep::SetGroup, f).step == ChildStep::SetMask
            &&& launch::child_move(p, program, ChildStep::ClaimTerminal, f).step
                == ChildStep::SetMask
            &&& launch::child_move(p, program, ChildStep::CheckParent(sig), ChildEvent::ParentChanged).step
                == ChildStep::SignalSelf(sig)
            &&& launch::child_move(p, program, ChildStep::SignalSelf(sig), ChildEvent::Done).step
                == behind
            &&& launch::child_move(p, program, ChildStep::Restrict, refused).step == if p.warn_only {
                ChildStep::Exec
            } else {
                ChildStep::Exit(1)
            }
        }),
{
}

/// A command that cannot be run ends the child with 127 where it was not found, which is what 2 and
/// 20 say, and else with 126.
pub proof fn law_commands_that_cannot_be_run(p: ChildPlan, program: Seq<u8>, errno: i32)
    ensures
        launch::child_move(p, program, ChildStep::Exec, ChildEvent::Failed(errno)).step
            == ChildStep::Exit(
            if errno == 2 || errno == 20 {
                127
            } else {
                126
            },
        ),
{
}

// ---------------------------------------------------------------------------
// The group
// ---------------------------------------------------------------------------

/// The group of the child is used exactly where it was asked for and the child leads it: where the
/// child was put into it, where that is refused because the command runs already (13) and the child
/// is in the group of its own number, and where the child is gone (3) and its group is there. Nothing
/// is asked where no group was asked for.
pub proof fn law_when_the_group_is_used(child: u32, group: u32, there: bool, f: Failure)
    ensures
        launch::group_step(child, GroupEvent::Requested(false)) == GroupStepModel::Decided(
            false,
            None,
        ),
        launch::group_step(child, GroupEvent::Requested(true)) is Join,
        launch::group_step(child, GroupEvent::Joined) == GroupStepModel::Decided(true, None),
        f.errno == 13 <==> launch::group_step(child, GroupEvent::JoinFailed(f)) is Query,
        f.errno == 3 <==> launch::group_step(child, GroupEvent::JoinFailed(f)) is CheckExists,
        f.errno == 3 <==> launch::group_step(child, GroupEvent::QueryFailed(f)) is CheckExists,
        f.errno != 13 && f.errno != 3 ==> {
            &&& launch::group_step(child, GroupEvent::JoinFailed(f)) is Decided
            &&& !launch::group_step(child, GroupEvent::JoinFailed(f))->Decided_0
            &&& launch::group_step(child, GroupEvent::JoinFailed(f))->Decided_1 is Some
        },
        f.errno != 3 ==> {
            &&& launch::group_step(child, GroupEvent::QueryFailed(f)) is Decided
            &&& !launch::group_step(child, GroupEvent::QueryFailed(f))->Decided_0
            &&& launch::group_step(child, GroupEvent::QueryFailed(f))->Decided_1 is Some
        },
        launch::group_step(child, GroupEvent::InGroup(group)) is Decided,
        launch::group_step(child, GroupEvent::InGroup(group))->Decided_0 <==> group == child,
        launch::group_step(child, GroupEvent::InGroup(group))->Decided_1 is Some <==> group != child,
        launch::group_step(child, GroupEvent::Exists(there)) == GroupStepModel::Decided(there, None),
        launch::group_step(child, GroupEvent::ExistsFailed(f)) is Decided,
        !launch::group_step(child, GroupEvent::ExistsFailed(f))->Decided_0,
        launch::group_step(child, GroupEvent::ExistsFailed(f))->Decided_1 is Some,
{
}

/// A signal that went to the group is sent to the child as well exactly where the child is in another
/// group, or where that is unknown and the child is not gone (3).
pub proof fn law_child_outside_its_group(child: u32, group: u32, f: Failure)
    ensures
        launch::direct(child, GroupReply::Group(group)).0 <==> group != child,
        launch::direct(child, GroupReply::Failed(f)).0 <==> f.errno != 3,
        launch::direct(child, GroupReply::Group(group)).1 is None,
        launch::direct(child, GroupReply::Failed(f)).1 is Some <==> f.errno != 3,
{
}

/// A signal that could not be sent is reported, unless the child is gone (3).
pub proof fn law_lost_signals_are_reported(sig: i32, errno: i32, reason: Seq<char>)
    ensures
        launch::send_fault(sig, errno, reason) is None <==> errno == 3,
        sig >= 0 && errno != 3 ==> launch::send_fault(sig, errno, reason)->0 == "forward signal "@
            + text::decimal(sig as nat) + " failed: "@ + reason,
{
}

/// Being refused the role of a subreaper (1) is no failure, and every other trouble with it is.
pub proof fn law_refused_subreaper(errno: i32, reason: Seq<char>)
    ensures
        launch::subreaper_outcome(None) == Ok::<(bool, Option<Seq<char>>), error::ErrorModel>(
            (true, None),
        ),
        launch::subreaper_outcome(Some((errno, reason))) is Ok <==> errno == 1,
        errno == 1 ==> !launch::subreaper_outcome(Some((errno, reason)))->Ok_0.0
            && launch::subreaper_outcome(Some((errno, reason)))->Ok_0.1 is Some,
{
}

// ---------------------------------------------------------------------------
// Exit codes
// ---------------------------------------------------------------------------

/// The exit code is 0 exactly where the child ended with 0 or with a code that was chosen, and else it
/// is the code of the child.
pub proof fn law_chosen_codes_become_zero(codes: Seq<u8>, code: int)
    requires
        0 <= code,
    ensures
        ({
            let chosen = exists|i: int| 0 <= i < codes.len() && #[trigger] codes[i] == code;
            supervise::remapped(code, control::remap_table(codes)) == if chosen {
                0
            } else {
                code
            }
        }),
{
    if exists|i: int| 0 <= i < codes.len() && #[trigger] codes[i] == code {
        let i = choose|i: int| 0 <= i < codes.len() && #[trigger] codes[i] == code;
        assert(codes.contains(codes[i]));
    } else if code < 256 {
        if codes.contains(code as u8) {
            let i = choose|i: int| 0 <= i < codes.len() && codes[i] == code as u8;
            assert(codes[i] == code);
        }
    }
}

/// Without being asked for more, warnings are logged; asked once, so is what is done, and asked twice
/// or more, so are the details.
pub proof fn law_what_is_logged(verbosity: u8)
    ensures
        Level::Warn.rank() <= logging::level_for(verbosity).rank(),
        Level::Info.rank() <= logging::level_for(verbosity).rank() <==> verbosity >= 1,
        Level::Debug.rank() <= logging::level_for(verbosity).rank() <==> verbosity >= 2,
{
}

// ---------------------------------------------------------------------------
// What surrounds the child
// ---------------------------------------------------------------------------

/// The terminal is taken care of exactly where the group of this process has it, and a terminal that no
/// group has, which is shown as -1, is not.
pub proof fn law_whose_terminal(group: i32, own: i32)
    ensures
        launch::owned_tty(group, own) is Some <==> group == own && group != -1,
        launch::owned_tty(group, own) matches Some(g) ==> g == own,
{
}

/// What is left of a signal in the end is thrown away exactly where only the supervision blocked it. The
/// end of a child (17) never is.
pub proof fn law_left_over_signals(n: i32, now: bool, before: bool)
    ensures
        launch::discards(n, now, before) <==> n != 17 && now && !before,
        launch::discards(n, launch::blocks(n, before), before) <==> n != 17 && launch::reads(n)
            && !before,
{
}

/// An error of usage ends the program with 2, every other one with 1, and what an error is said to come
/// from does not change that.
pub proof fn law_exit_codes_of_errors(message: Seq<char>, e: error::ErrorModel)
    ensures
        error::code_of(error::failure(message)) == 1,
        error::code_of(error::misuse(message)) == 2,
        error::code_of(error::caused(message, e)) == error::code_of(e),
        error::code_of(e) == 1 || error::code_of(e) == 2,
{
}

/// The exit code for a command that cannot be run is 127 for 2 and 20, and 126 for all else.
pub proof fn law_exit_codes_of_commands(errno: i32)
    ensures
        errno == 2 || errno == 20 ==> report::exec_code(errno) == 127,
        errno != 2 && errno != 20 ==> report::exec_code(errno) == 126,
{
}

/// A kernel is told of the network from the fourth version of the interface on, and of scopes from the
/// sixth on.
pub proof fn law_masks_by_version(abi: u32)
    ensures
        landlock::mask_count(abi) >= 2 <==> 4 <= abi,
        landlock::mask_count(abi) >= 3 <==> 6 <= abi,
        1 <= landlock::mask_count(abi) <= 3,
{
}

/// A binary runs only on a machine with its own order of bytes.
pub proof fn law_order_of_bytes(little: bool)
    ensures
        elf::runs_order(little, little),
        !elf::runs_order(little, !little),
{
}

/// The supervision begins with a wait for signals that has no end, and nothing has happened yet.
pub proof fn law_supervision_begins(now: u128)
    ensures
        ({
            let r = supervise::go_poll(supervise::fresh(), Seq::empty(), now);
            &&& r.request == supervise::RequestModel::Poll(supervise::PollTimeout::Block)
            &&& r.effects.len() == 0
            &&& r.next.core.main_exit is None && r.next.core.deadline is None && !r.next.core.killed
            &&& supervise::wf_model(r.next)
        }),
{
}

/// The command that is run gets each of the words that its own words come to, in their order, and none
/// else. There is at least one, the program, and none holds a NUL.
pub proof fn law_words_are_passed_on(w: WorldModel, m: CliModel)
    ensures
        launch::prepared(w, m) matches FindModel::Found(p) ==> {
            let words = expand::command(m.cmd, m.expand_env, w.context.environment);
            &&& words is Ok
            &&& p.argv.len() == m.cmd.len()
            &&& p.argv.len() > 0
            &&& forall|i: int|
                0 <= i < m.cmd.len() ==> #[trigger] p.argv[i] == vstd::utf8::encode_utf8(
                    words->Ok_0[i],
                )
            &&& forall|i: int|
                0 <= i < m.cmd.len() ==> !(#[trigger] words->Ok_0[i]).contains('\0')
            &&& !m.expand_env ==> words->Ok_0 == m.cmd
        },
{
    expand_law::law_command_word_by_word(m.cmd, m.expand_env, w.context.environment);
}

/// The signal for the death of the parent is the one that is named, and the restrictions are those of the
/// settings for the words of the command.
pub proof fn law_settings_are_passed_on(w: WorldModel, m: CliModel)
    ensures
        launch::prepared(w, m) matches FindModel::Found(p) ==> {
            &&& m.pdeath is None ==> p.pdeath is None
            &&& m.pdeath matches Some(raw) ==> p.pdeath == signals::signal_number(raw) && p.pdeath
                is Some
            &&& policy::restrictions(
                w,
                m,
                expand::command(m.cmd, m.expand_env, w.context.environment)->Ok_0,
            ) == FindModel::Found(p.policy)
        },
{
}

} // verus!
