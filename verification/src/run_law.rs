//! What a run of the program comes to: what it is asked to do, the stages that it takes, and how it
//! replaces its configuration file.

use vstd::prelude::*;

use crate::cli::{CliModel, CliParseErrorKind};
use crate::config::FileContent;
use crate::config_file::{self, Present, Target, WriteEvent, WriteStepModel};
use crate::control::{self, ControlMode};
use crate::env_defaults;
use crate::error;
use crate::facts::WorldModel;
use crate::platform::{self, TaskModel};
use crate::report::Failure;
use crate::session::{self, SessionModel, Stage, StageEvent};
use crate::signals;
use crate::text;
use crate::text_law;

verus! {

// ---------------------------------------------------------------------------
// Requests
// ---------------------------------------------------------------------------

/// One of checking, writing, printing and explaining can be asked for at a time. Checking the file does
/// not go with leaving it alone.
pub proof fn law_one_request_at_a_time(m: CliModel)
    ensures
        ({
            let asked = (if m.check_config { 1int } else { 0 }) + (if m.write_config { 1int } else { 0 })
                + (if m.print_config { 1int } else { 0 }) + (if m.explain { 1int } else { 0 });
            let clash = m.no_config && m.check_config;
            let r = control::selected(m);
            &&& clash || asked > 1 ==> r is Err && r->Err_0.usage
            &&& !clash && asked == 0 ==> r == Ok::<Option<ControlMode>, error::ErrorModel>(None)
            &&& !clash && asked == 1 && m.write_config ==> r == Ok::<
                Option<ControlMode>,
                error::ErrorModel,
            >(Some(ControlMode::WriteConfig))
            &&& !clash && asked == 1 && m.print_config ==> r == Ok::<
                Option<ControlMode>,
                error::ErrorModel,
            >(Some(ControlMode::PrintConfig))
            &&& !clash && asked == 1 && m.explain ==> r == Ok::<
                Option<ControlMode>,
                error::ErrorModel,
            >(Some(ControlMode::Explain))
            &&& !clash && asked == 1 && m.check_config && r is Ok ==> r->Ok_0 == Some(
                ControlMode::CheckConfig,
            )
        }),
{
}

/// Checking the file takes no settings of its own: it is refused exactly where one is given.
pub proof fn law_checking_takes_no_settings(m: CliModel)
    requires
        m.check_config && !m.write_config && !m.print_config && !m.explain && !m.no_config,
    ensures
        control::selected(m) is Ok <==> !m.subreaper && m.pdeath is None && m.verbosity == 0
            && !m.warn_on_reap && !m.pgroup_kill && m.remap_exit.len() == 0 && m.grace_ms == 500
            && !m.write_restrict && m.write_allow.len() == 0 && m.write_preset.len() == 0
            && !m.restrict_warn_only && !m.write_no_dev && m.bind_tcp_allow.len() == 0
            && m.connect_tcp_allow.len() == 0 && !m.scope_signals && !m.scope_abstract_unix
            && m.exec_allow.len() == 0 && m.device_ioctl_allow.len() == 0 && !m.expand_env,
{
}

/// A command is run where nothing else is asked for, and is required then. It is run with the given
/// settings, the environment has its say, and warnings of children need the subreaper.
pub proof fn law_commands_are_run(w: WorldModel, m: CliModel, file: FileContent)
    requires
        !m.check_config && !m.write_config && !m.print_config && !m.explain,
    ensures
        ({
            let t = platform::task_of(w, m, file);
            let with = env_defaults::with_defaults(m, w.context.environment);
            if m.cmd.len() == 0 {
                t matches TaskModel::Report { outcome, .. } && outcome is Err
                    && outcome->Err_0.usage
            } else {
                &&& t is Supervise
                &&& t->Supervise_0.settings == (CliModel {
                    subreaper: with.subreaper || m.warn_on_reap,
                    pgroup_kill: with.pgroup_kill,
                    verbosity: with.verbosity,
                    ..m
                })
                &&& t->Supervise_0.expect_zero.len() == 256
                &&& forall|i: int|
                    0 <= i < 256 ==> (#[trigger] t->Supervise_0.expect_zero[i]
                        <==> m.remap_exit.contains(i as u8))
                &&& t->Supervise_0.verbosity == if with.verbosity < 3 {
                    with.verbosity
                } else {
                    3
                }
            }
        }),
{
}

// ---------------------------------------------------------------------------
// The environment
// ---------------------------------------------------------------------------

/// What a variable of the environment holds, by its name: the first of the two that is set.
pub open spec fn first_of(env: Map<Seq<u8>, Seq<u8>>, native: Seq<char>, other: Seq<char>) -> Option<
    Seq<u8>,
> {
    let a = vstd::utf8::encode_utf8(native);
    let b = vstd::utf8::encode_utf8(other);
    if env.dom().contains(a) {
        Some(env[a])
    } else if env.dom().contains(b) {
        Some(env[b])
    } else {
        None
    }
}

/// The environment turns the subreaper and the end of the whole group on by the names of this program,
/// and else by those of the other one, where the settings do not. Everything but these and the
/// verbosity is left as it is.
pub proof fn law_environment_switches(m: CliModel, env: Map<Seq<u8>, Seq<u8>>)
    ensures
        ({
            let r = env_defaults::with_defaults(m, env);
            let s = first_of(env, "TINO_SUBREAPER"@, "TINI_SUBREAPER"@);
            let g = first_of(env, "TINO_KILL_PROCESS_GROUP"@, "TINI_KILL_PROCESS_GROUP"@);
            &&& r.subreaper == (m.subreaper || (s is Some && env_defaults::switch_of(s->0) == Some(
                true,
            )))
            &&& r.pgroup_kill == (m.pgroup_kill || (g is Some && env_defaults::switch_of(g->0)
                == Some(true)))
            &&& r == (CliModel {
                subreaper: r.subreaper,
                pgroup_kill: r.pgroup_kill,
                verbosity: r.verbosity,
                ..m
            })
        }),
{
}

/// The environment sets the verbosity, to no more than 3, where the settings do not.
pub proof fn law_environment_sets_the_verbosity(m: CliModel, env: Map<Seq<u8>, Seq<u8>>, n: nat)
    requires
        n <= 255,
    ensures
        ({
            let r = env_defaults::with_defaults(m, env).verbosity;
            let v = first_of(env, "TINO_VERBOSITY"@, "TINI_VERBOSITY"@);
            &&& m.verbosity > 0 || v is None ==> r == m.verbosity
            &&& m.verbosity == 0 && v is Some && vstd::utf8::valid_utf8(v->0) && text::trim(
                vstd::utf8::decode_utf8(v->0),
            ) == text::decimal(n) ==> r == if n < 3 {
                n
            } else {
                3
            }
        }),
{
    text::lemma_decimal_read_back(n, 255);
}

/// The words that turn a switch on or off, in capital or small letters and with blanks around them, and
/// the numbers that do.
pub proof fn law_switch_words(raw: Seq<u8>)
    requires
        vstd::utf8::valid_utf8(raw),
    ensures
        ({
            let word = text::trim(vstd::utf8::decode_utf8(raw));
            let u = signals::upper(word);
            &&& u == "TRUE"@ || u == "YES"@ || u == "ON"@ ==> env_defaults::switch_of(raw) == Some(
                true,
            )
            &&& u == "FALSE"@ || u == "NO"@ || u == "OFF"@ ==> env_defaults::switch_of(raw) == Some(
                false,
            )
            &&& word == seq!['1'] ==> env_defaults::switch_of(raw) == Some(true)
            &&& word == seq!['0'] ==> env_defaults::switch_of(raw) == Some(false)
            &&& word.len() == 0 ==> env_defaults::switch_of(raw) is None
        }),
{
    let word = text::trim(vstd::utf8::decode_utf8(raw));
    let u = signals::upper(word);
    reveal_strlit("TRUE");
    reveal_strlit("YES");
    reveal_strlit("ON");
    reveal_strlit("FALSE");
    reveal_strlit("NO");
    reveal_strlit("OFF");
    assert("NO"@[0] != "ON"@[0] && "OFF"@[0] != "YES"@[0]);
    assert("FALSE"@.len() == 5 && "TRUE"@.len() == 4 && "NO"@.len() == 2 && "OFF"@.len() == 3);
    if word.len() > 0 {
        assert(u[0] == signals::upper_char(word[0]));
        if u[0] == 'T' || u[0] == 'Y' || u[0] == 'O' || u[0] == 'F' || u[0] == 'N' {
            assert(!text::is_digit(word[0]));
            assert(word[0] != '+');
            assert(text::unsigned_of(word, 255) is Err);
        }
    } else {
        assert(u.len() == 0);
    }
    if word == seq!['1'] || word == seq!['0'] {
        assert(word.drop_last().len() == 0);
        assert(text_law::sum(word.drop_last(), 10) == 0);
        assert(text_law::sum(word, 10) == text_law::worth(word[0]));
        text_law::law_digits_are_a_number(word, 255);
        assert(text::unsigned_of(word, 255) == Ok::<nat, text::NumberError>(
            text_law::worth(word[0]) as nat,
        ));
    }
}

// ---------------------------------------------------------------------------
// Stages
// ---------------------------------------------------------------------------

/// The stages of a run in which everything works, in their order. The parent of orphans is asked for
/// only where that is wanted, and put back only where it was changed.
pub proof fn law_stages_follow_each_other(s: SessionModel, code: i32)
    ensures
        s.stage is Signals ==> session::moved(s, StageEvent::Worked).0.stage is Reaping,
        s.stage is Reaping ==> session::moved(s, StageEvent::Worked).0.stage is Preparing,
        s.stage is Preparing && s.subreaper ==> session::moved(s, StageEvent::Worked).0.stage is Parent,
        s.stage is Preparing && !s.subreaper ==> session::moved(
            s,
            StageEvent::Worked,
        ).0.stage is Spawning,
        s.stage is Parent ==> {
            let kept = session::moved(s, StageEvent::Asked { restorable: true }).0;
            let lost = session::moved(s, StageEvent::Asked { restorable: false }).0;
            kept.stage is Spawning && kept.parent_changed && lost.stage is Spawning
                && !lost.parent_changed
        },
        s.stage is Spawning ==> session::moved(s, StageEvent::Worked).0.stage is Supervising,
        s.stage is Supervising ==> {
            let r = session::moved(s, StageEvent::Ended(Ok(code))).0;
            r.stage is Terminal && r.supervised && r.result == Ok::<int, error::ErrorModel>(
                code as int,
            )
        },
        s.stage is Terminal && s.parent_changed ==> session::moved(
            s,
            StageEvent::Worked,
        ).0.stage is UndoParent,
        s.stage is Terminal && !s.parent_changed ==> session::moved(
            s,
            StageEvent::Worked,
        ).0.stage is UndoReaping,
        s.stage is UndoParent ==> session::moved(s, StageEvent::Worked).0.stage is UndoReaping,
        s.stage is UndoReaping ==> session::moved(s, StageEvent::Worked).0.stage is UndoSignals,
        s.stage is UndoSignals ==> session::moved(s, StageEvent::Worked).0.stage is Over,
{
}

/// A stage that fails before the command runs ends the run with its error, and what was done before it
/// is put back.
pub proof fn law_failed_stages(s: SessionModel, e: error::Error)
    requires
        session::sound(s),
        s.stage is Signals || s.stage is Reaping || s.stage is Preparing || s.stage is Parent
            || s.stage is Spawning,
    ensures
        ({
            let r = session::moved(s, StageEvent::Failed(e)).0;
            &&& r.result == Err::<int, error::ErrorModel>(e@)
            &&& r.stage == match s.stage {
                Stage::Signals => Stage::Over,
                Stage::Reaping => Stage::UndoSignals,
                _ => if s.parent_changed {
                    Stage::UndoParent
                } else {
                    Stage::UndoReaping
                },
            }
        }),
{
}

/// What cannot be put back is the result of a run that went well, and only said after one that did not.
pub proof fn law_what_cannot_be_put_back(s: SessionModel, e: error::Error)
    requires
        session::sound(s),
        session::undoing(s.stage),
    ensures
        ({
            let r = session::moved(s, StageEvent::Failed(e));
            &&& s.result is Ok ==> r.0.result == Err::<int, error::ErrorModel>(e@) && r.1 is None
            &&& s.result is Err ==> r.0.result == s.result && r.1 is Some
        }),
{
}

// ---------------------------------------------------------------------------
// The configuration file
// ---------------------------------------------------------------------------

/// The configuration file is replaced in this order, where everything works: the directory is made, what
/// is there is looked at, a new file is made, written, given its mode and stored, takes the place of the
/// old one, and the directory is stored.
pub proof fn law_file_is_replaced_in_order(t: Target, mode: u32, attempt: u32)
    ensures
        config_file::write_move(t, WriteStepModel::MakeParent, WriteEvent::Worked) is Inspect,
        config_file::write_move(
            t,
            WriteStepModel::Create { mode, attempt },
            WriteEvent::Worked,
        ) == (WriteStepModel::Write { mode, attempt }),
        config_file::write_move(
            t,
            WriteStepModel::Write { mode, attempt },
            WriteEvent::Worked,
        ) == (WriteStepModel::SetMode { mode, attempt }),
        config_file::write_move(
            t,
            WriteStepModel::SetMode { mode, attempt },
            WriteEvent::Worked,
        ) == (WriteStepModel::Sync { attempt }),
        config_file::write_move(t, WriteStepModel::Sync { attempt }, WriteEvent::Worked) == (
        WriteStepModel::Rename { attempt }),
        config_file::write_move(
            t,
            WriteStepModel::Rename { attempt },
            WriteEvent::Worked,
        ) is OpenParent,
        config_file::write_move(t, WriteStepModel::OpenParent, WriteEvent::Worked) is SyncParent,
        config_file::write_move(t, WriteStepModel::SyncParent, WriteEvent::Worked) is Done,
{
}

/// The new file has the rights of the old one, the lowest nine bits of its mode, and those of 0644 where
/// there is none. Only a regular file is replaced.
pub proof fn law_mode_of_the_new_file(t: Target, mode: u32, f: Failure)
    ensures
        config_file::write_move(
            t,
            WriteStepModel::Inspect,
            WriteEvent::Found(Present::Regular(mode)),
        ) == (WriteStepModel::Create { mode: (mode % 512) as u32, attempt: 0 }),
        config_file::write_move(
            t,
            WriteStepModel::Inspect,
            WriteEvent::Found(Present::NotFound),
        ) == (WriteStepModel::Create { mode: 420, attempt: 0 }),
        config_file::write_move(
            t,
            WriteStepModel::Inspect,
            WriteEvent::Found(Present::Symlink),
        ) is Failed,
        config_file::write_move(
            t,
            WriteStepModel::Inspect,
            WriteEvent::Found(Present::Other),
        ) is Failed,
        config_file::write_move(
            t,
            WriteStepModel::Inspect,
            WriteEvent::Found(Present::Failed(f)),
        ) is Failed,
{
    assert(mode & 511 == mode % 512) by (bit_vector);
}

/// A name that is taken is passed over for the next, until a hundred were tried.
pub proof fn law_taken_names_are_passed_over(t: Target, mode: u32, attempt: u32)
    requires
        attempt < 100,
    ensures
        ({
            let r = config_file::write_move(
                t,
                WriteStepModel::Create { mode, attempt },
                WriteEvent::Exists,
            );
            &&& attempt < 99 ==> r == (WriteStepModel::Create { mode, attempt: (attempt + 1) as u32 })
            &&& attempt == 99 ==> r is Failed
        }),
{
}

/// What fails after the new file was made has it removed, and what fails otherwise removes nothing.
pub proof fn law_failed_files_are_removed(t: Target, mode: u32, attempt: u32, f: Failure)
    ensures
        config_file::write_move(
            t,
            WriteStepModel::Write { mode, attempt },
            WriteEvent::Failed(f),
        ) matches WriteStepModel::Failed { remove, .. } && remove == Some(attempt),
        config_file::write_move(
            t,
            WriteStepModel::SetMode { mode, attempt },
            WriteEvent::Failed(f),
        ) matches WriteStepModel::Failed { remove, .. } && remove == Some(attempt),
        config_file::write_move(
            t,
            WriteStepModel::Sync { attempt },
            WriteEvent::Failed(f),
        ) matches WriteStepModel::Failed { remove, .. } && remove == Some(attempt),
        config_file::write_move(
            t,
            WriteStepModel::Rename { attempt },
            WriteEvent::Failed(f),
        ) matches WriteStepModel::Failed { remove, .. } && remove == Some(attempt),
        config_file::write_move(
            t,
            WriteStepModel::Create { mode, attempt },
            WriteEvent::Failed(f),
        ) matches WriteStepModel::Failed { remove, .. } && remove is None,
        config_file::write_move(
            t,
            WriteStepModel::OpenParent,
            WriteEvent::Failed(f),
        ) matches WriteStepModel::Failed { remove, .. } && remove is None,
        config_file::write_move(
            t,
            WriteStepModel::SyncParent,
            WriteEvent::Failed(f),
        ) matches WriteStepModel::Failed { remove, .. } && remove is None,
{
}

// ---------------------------------------------------------------------------
// Last words
// ---------------------------------------------------------------------------

/// Help and the version go to the standard output and end well, and every other trouble with the command
/// line goes to the standard error and ends with 2.
pub proof fn law_command_line_endings(e: crate::cli::CliErrorModel)
    ensures
        ({
            let p = crate::cli::printed(e);
            if e.kind == CliParseErrorKind::Help || e.kind == CliParseErrorKind::Version {
                !p.0 && p.1 == e.message && p.2 == 0
            } else {
                p.0 && p.2 == 2
            }
        }),
{
}

} // verus!
