//! What the restrictions of a command promise.

use vstd::prelude::*;

use crate::cli::{CliModel, WritePreset};
use crate::discovery::{ExecAllowMode, ResolvedModel, VISIT_LIMIT};
use crate::facts::{self, FindModel, QuestionModel, ReplyModel, WorldModel};
use crate::follow::{self, DiscoveryModel, Followed};
use crate::follow_law;
use crate::policy;
use crate::reach_law;

verus! {

/// Whether opening some path as a directory led to `p`.
pub open spec fn directory_leads_to(w: WorldModel, q: Seq<u8>, p: Seq<u8>) -> bool {
    match w.knows(QuestionModel::OpenDirectory(q)) {
        Some(ReplyModel::Opened { path, facts, env }) => path == p,
        Some(ReplyModel::InspectFailed { path, text }) => path == p,
        _ => false,
    }
}

/// Whether `p` is the path of a directory that was opened.
pub open spec fn directory_was_opened(w: WorldModel, p: Seq<u8>) -> bool {
    exists|q: Seq<u8>| directory_leads_to(w, q, p)
}

/// Whether directories are sorted and were all opened.
pub open spec fn sound_directories(w: WorldModel, dirs: Seq<Seq<u8>>) -> bool {
    &&& facts::sorted(dirs)
    &&& forall|p: Seq<u8>| #[trigger] dirs.contains(p) ==> directory_was_opened(w, p)
}

proof fn lemma_pinned(w: WorldModel, raw: Seq<char>, allow_missing: bool, kind: Seq<char>)
    ensures
        policy::pinned(w, raw, allow_missing, kind) matches FindModel::Found(Some(p))
            ==> directory_was_opened(w, p),
{
    match policy::pinned(w, raw, allow_missing, kind) {
        FindModel::Found(Some(p)) => {
            assert(directory_leads_to(w, vstd::utf8::encode_utf8(raw), p));
        },
        _ => {},
    }
}

proof fn lemma_dir_added(w: WorldModel, dirs: Seq<Seq<u8>>, raw: Seq<char>, allow_missing: bool)
    requires
        sound_directories(w, dirs),
    ensures
        policy::dir_added(w, dirs, raw, allow_missing) matches FindModel::Found(after)
            ==> sound_directories(w, after),
{
    lemma_pinned(w, raw, allow_missing, "write allow path"@);
    match policy::pinned(w, raw, allow_missing, "write allow path"@) {
        FindModel::Found(Some(p)) => {
            facts::law_paths_stay_sorted(dirs, p);
        },
        _ => {},
    }
}

proof fn lemma_preset_added(w: WorldModel, dirs: Seq<Seq<u8>>, names: Seq<Seq<char>>, from: int)
    requires
        sound_directories(w, dirs),
    ensures
        policy::preset_added(w, dirs, names, from) matches FindModel::Found(after)
            ==> sound_directories(w, after),
    decreases names.len() - from,
{
    if 0 <= from < names.len() {
        lemma_dir_added(w, dirs, names[from], true);
        match policy::dir_added(w, dirs, names[from], true) {
            FindModel::Found(more) => {
                lemma_preset_added(w, more, names, from + 1);
            },
            _ => {},
        }
    }
}

proof fn lemma_presets_added(
    w: WorldModel,
    dirs: Seq<Seq<u8>>,
    presets: Seq<WritePreset>,
    from: int,
)
    requires
        sound_directories(w, dirs),
    ensures
        policy::presets_added(w, dirs, presets, from) matches FindModel::Found(after)
            ==> sound_directories(w, after),
    decreases presets.len() - from,
{
    if 0 <= from < presets.len() {
        let names = policy::preset_dirs(presets[from]);
        lemma_preset_added(w, dirs, names, 0);
        match policy::preset_added(w, dirs, names, 0) {
            FindModel::Found(more) => {
                lemma_presets_added(w, more, presets, from + 1);
            },
            _ => {},
        }
    }
}

proof fn lemma_writes_added(w: WorldModel, dirs: Seq<Seq<u8>>, raws: Seq<Seq<char>>, from: int)
    requires
        sound_directories(w, dirs),
    ensures
        policy::writes_added(w, dirs, raws, from) matches FindModel::Found(after)
            ==> sound_directories(w, after),
    decreases raws.len() - from,
{
    if 0 <= from < raws.len() {
        lemma_dir_added(w, dirs, raws[from], false);
        match policy::dir_added(w, dirs, raws[from], false) {
            FindModel::Found(more) => {
                lemma_writes_added(w, more, raws, from + 1);
            },
            _ => {},
        }
    }
}

proof fn lemma_devices_added(w: WorldModel, paths: Seq<Seq<u8>>, raws: Seq<Seq<char>>, from: int)
    requires
        follow_law::sound(w, paths),
    ensures
        policy::devices_added(w, paths, raws, from) matches FindModel::Found(after)
            ==> follow_law::sound(w, after),
    decreases raws.len() - from,
{
    if 0 <= from < raws.len() {
        match policy::device_path(w, raws[from]) {
            FindModel::Found(p) => {
                assert(follow_law::leads_to(w, vstd::utf8::encode_utf8(raws[from]), p));
                facts::law_paths_stay_sorted(paths, p);
                lemma_devices_added(w, facts::with_path(paths, p), raws, from + 1);
            },
            _ => {},
        }
    }
}

proof fn lemma_execs_added(w: WorldModel, found: DiscoveryModel, raws: Seq<Seq<char>>, from: int)
    requires
        follow_law::sound(w, found.paths),
    ensures
        policy::execs_added(w, found, raws, from) matches FindModel::Found(after)
            ==> follow_law::sound(w, after.paths),
    decreases raws.len() - from,
{
    if 0 <= from < raws.len() {
        follow_law::law_only_opened_paths_are_found(w, found, raws[from], ExecAllowMode::Strict);
        let after = follow::top_followed(w, found, raws[from], ExecAllowMode::Strict);
        if after.outcome is Done {
            lemma_execs_added(w, after.found, raws, from + 1);
        }
    }
}

/// Every path that a restriction names was opened before, so that the rule for it is about the
/// file that was looked at, whatever takes its place later. The paths of each kind are sorted,
/// and none comes twice.
pub proof fn law_rules_are_about_opened_paths(w: WorldModel, m: CliModel, cmd: Seq<Seq<char>>)
    ensures
        policy::restrictions(w, m, cmd) matches FindModel::Found(Some(p)) ==> {
            &&& sound_directories(w, p.writable_dirs)
            &&& follow_law::sound(w, p.exec_allow_paths)
            &&& follow_law::sound(w, p.device_ioctl_allow_paths)
            &&& p.dev_dir matches Some(dir) ==> directory_was_opened(w, dir)
        },
{
    let none = Seq::<Seq<u8>>::empty();
    lemma_presets_added(w, none, m.write_preset, 0);
    match policy::presets_added(w, none, m.write_preset, 0) {
        FindModel::Found(dirs) => {
            lemma_writes_added(w, dirs, m.write_allow, 0);
        },
        _ => {},
    }
    lemma_devices_added(w, none, m.device_ioctl_allow, 0);
    lemma_pinned(w, "/dev"@, true, "default writable directory"@);
    assert(follow_law::sound(w, follow::empty().paths));
    lemma_execs_added(w, follow::empty(), m.exec_allow, 0);
    if cmd.len() > 0 {
        follow_law::law_only_opened_paths_are_found(
            w,
            follow::empty(),
            cmd[0],
            ExecAllowMode::Auto,
        );
        let main = follow::top_followed(w, follow::empty(), cmd[0], ExecAllowMode::Auto);
        if main.outcome is Done {
            lemma_execs_added(w, main.found, m.exec_allow, 0);
        }
    }
}

/// What is not asked for is not restricted: settings without any restriction lead to none.
pub proof fn law_nothing_is_restricted_unasked(w: WorldModel, m: CliModel, cmd: Seq<Seq<char>>)
    ensures
        policy::restrictions(w, m, cmd) == FindModel::<Option<policy::PolicyModel>>::Found(None)
            <==> !policy::anything_requested(m),
{
}

/// What may be written, executed and so on is restricted exactly where something of the kind is
/// asked for, and the directory of devices is left out where that is asked for.
pub proof fn law_restrictions_are_those_asked_for(w: WorldModel, m: CliModel, cmd: Seq<Seq<char>>)
    ensures
        policy::restrictions(w, m, cmd) matches FindModel::Found(Some(p)) ==> {
            &&& p.write_requested == (m.write_restrict || m.write_allow.len() > 0
                || m.write_preset.len() > 0)
            &&& p.exec_requested == (m.exec_allow.len() > 0)
            &&& p.scope_signals == m.scope_signals
            &&& p.scope_abstract_unix == m.scope_abstract_unix
            &&& m.write_no_dev ==> p.dev_dir is None
        },
{
}

proof fn lemma_writes_absolute(w: WorldModel, dirs: Seq<Seq<u8>>, raws: Seq<Seq<char>>, from: int)
    requires
        0 <= from,
    ensures
        policy::writes_added(w, dirs, raws, from) is Found ==> forall|i: int|
            from <= i < raws.len() ==> policy::starts_at_root(#[trigger] raws[i]),
    decreases raws.len() - from,
{
    if from < raws.len() {
        if let FindModel::Found(more) = policy::dir_added(w, dirs, raws[from], false) {
            lemma_writes_absolute(w, more, raws, from + 1);
        }
    }
}

proof fn lemma_devices_absolute(
    w: WorldModel,
    paths: Seq<Seq<u8>>,
    raws: Seq<Seq<char>>,
    from: int,
)
    requires
        0 <= from,
    ensures
        policy::devices_added(w, paths, raws, from) is Found ==> forall|i: int|
            from <= i < raws.len() ==> policy::starts_at_root(#[trigger] raws[i]),
    decreases raws.len() - from,
{
    if from < raws.len() {
        if let FindModel::Found(p) = policy::device_path(w, raws[from]) {
            lemma_devices_absolute(w, facts::with_path(paths, p), raws, from + 1);
        }
    }
}

/// A relative path is never allowed for writing or for devices.
pub proof fn law_paths_have_to_be_absolute(w: WorldModel, m: CliModel, cmd: Seq<Seq<char>>)
    requires
        policy::restrictions(w, m, cmd) matches FindModel::Found(Some(p)),
    ensures
        forall|i: int|
            0 <= i < m.write_allow.len() ==> policy::starts_at_root(#[trigger] m.write_allow[i]),
        forall|i: int|
            0 <= i < m.device_ioctl_allow.len() ==> policy::starts_at_root(
                #[trigger] m.device_ioctl_allow[i],
            ),
{
    let none = Seq::<Seq<u8>>::empty();
    if let FindModel::Found(dirs) = policy::presets_added(w, none, m.write_preset, 0) {
        lemma_writes_absolute(w, dirs, m.write_allow, 0);
    }
    lemma_devices_absolute(w, none, m.device_ioctl_allow, 0);
}

proof fn lemma_execs_keep(w: WorldModel, found: DiscoveryModel, raws: Seq<Seq<char>>, from: int)
    ensures
        policy::execs_added(w, found, raws, from) matches FindModel::Found(after)
            ==> forall|p: Seq<u8>| #[trigger]
            found.paths.contains(p) ==> after.paths.contains(p),
    decreases raws.len() - from,
{
    if 0 <= from < raws.len() {
        follow_law::law_found_paths_stay(w, found, raws[from], ExecAllowMode::Strict);
        let after = follow::top_followed(w, found, raws[from], ExecAllowMode::Strict);
        if after.outcome is Done {
            lemma_execs_keep(w, after.found, raws, from + 1);
        }
    }
}

proof fn lemma_execs_note(w: WorldModel, found: DiscoveryModel, raws: Seq<Seq<char>>, from: int)
    ensures
        policy::execs_added(w, found, raws, from) matches FindModel::Found(after)
            ==> found.notes.len() <= after.notes.len(),
    decreases raws.len() - from,
{
    if 0 <= from < raws.len() {
        reach_law::law_notes_stay(w, found, raws[from], ExecAllowMode::Strict);
        let after = follow::top_followed(w, found, raws[from], ExecAllowMode::Strict);
        if after.outcome is Done {
            lemma_execs_note(w, after.found, raws, from + 1);
        }
    }
}

/// What is followed first where execution is restricted: the command itself.
pub open spec fn main_followed(w: WorldModel, cmd: Seq<Seq<char>>) -> Followed {
    follow::top_followed(w, follow::empty(), cmd[0], ExecAllowMode::Auto)
}

proof fn lemma_main_is_executable(
    w: WorldModel,
    exec_allow: Seq<Seq<char>>,
    cmd: Seq<Seq<char>>,
    file: ResolvedModel,
)
    requires
        exec_allow.len() > 0,
        cmd.len() > 0,
        reach_law::starts_with(w, cmd[0], ExecAllowMode::Auto, file),
        cmd[0].contains('/') || main_followed(w, cmd).found.visited.len() <= VISIT_LIMIT,
    ensures
        policy::executables(w, exec_allow, cmd) matches FindModel::Found(found)
            ==> found.paths.contains(file.path),
{
    let main = main_followed(w, cmd);
    let auto = ExecAllowMode::Auto;
    if main.outcome is Done {
        if cmd[0].contains('/') {
            follow_law::law_followed_file_is_found(w, follow::empty(), cmd[0], auto, file);
        } else {
            reach_law::law_command_is_found(w, follow::empty(), cmd[0], auto, file);
        }
        lemma_execs_keep(w, main.found, exec_allow, 0);
    }
}

/// Where execution is restricted, the command itself may be executed without being asked for: the
/// file at its path, or every file that its name may be looked up as. Of the latter, only what
/// lies beyond the limit of visits is left out.
pub proof fn law_main_command_is_allowed(
    w: WorldModel,
    m: CliModel,
    cmd: Seq<Seq<char>>,
    file: ResolvedModel,
)
    requires
        m.exec_allow.len() > 0,
        cmd.len() > 0,
        reach_law::starts_with(w, cmd[0], ExecAllowMode::Auto, file),
        cmd[0].contains('/') || main_followed(w, cmd).found.visited.len() <= VISIT_LIMIT,
    ensures
        policy::restrictions(w, m, cmd) matches FindModel::Found(Some(p))
            ==> p.exec_allow_paths.contains(file.path),
{
    lemma_main_is_executable(w, m.exec_allow, cmd, file);
}

proof fn lemma_needed_is_executable(
    w: WorldModel,
    exec_allow: Seq<Seq<char>>,
    cmd: Seq<Seq<char>>,
    file: ResolvedModel,
    end: Seq<u8>,
    steps: nat,
)
    requires
        exec_allow.len() > 0,
        cmd.len() > 0,
        reach_law::starts_with(w, cmd[0], ExecAllowMode::Auto, file),
        reach_law::reaches(w, file.path, w.context, end, steps),
        main_followed(w, cmd).found.notes.len() == 0,
    ensures
        policy::executables(w, exec_allow, cmd) matches FindModel::Found(found)
            ==> found.paths.contains(end),
{
    let main = main_followed(w, cmd);
    if main.outcome is Done {
        reach_law::law_everything_needed_is_found(
            w,
            follow::empty(),
            cmd[0],
            ExecAllowMode::Auto,
            file,
            end,
            steps,
        );
        lemma_execs_keep(w, main.found, exec_allow, 0);
    }
}

/// So may everything that the command needs in order to run, where nothing was skipped in
/// following it.
pub proof fn law_what_the_command_needs_is_allowed(
    w: WorldModel,
    m: CliModel,
    cmd: Seq<Seq<char>>,
    file: ResolvedModel,
    end: Seq<u8>,
    steps: nat,
)
    requires
        m.exec_allow.len() > 0,
        cmd.len() > 0,
        reach_law::starts_with(w, cmd[0], ExecAllowMode::Auto, file),
        reach_law::reaches(w, file.path, w.context, end, steps),
        main_followed(w, cmd).found.notes.len() == 0,
    ensures
        policy::restrictions(w, m, cmd) matches FindModel::Found(Some(p))
            ==> p.exec_allow_paths.contains(end),
{
    lemma_needed_is_executable(w, m.exec_allow, cmd, file, end, steps);
}

proof fn lemma_listed_is_executable(
    w: WorldModel,
    found: DiscoveryModel,
    raws: Seq<Seq<char>>,
    from: int,
    i: int,
    file: ResolvedModel,
    end: Seq<u8>,
    steps: nat,
)
    requires
        0 <= from <= i < raws.len(),
        reach_law::starts_with(w, raws[i], ExecAllowMode::Strict, file),
        reach_law::reaches(w, file.path, w.context, end, steps),
    ensures
        policy::execs_added(w, found, raws, from) matches FindModel::Found(after) ==> (
        after.notes.len() == found.notes.len() ==> after.paths.contains(end)),
    decreases i - from,
{
    let strict = ExecAllowMode::Strict;
    let after = follow::top_followed(w, found, raws[from], strict);
    reach_law::law_notes_stay(w, found, raws[from], strict);
    if after.outcome is Done {
        lemma_execs_note(w, after.found, raws, from + 1);
        if from < i {
            lemma_listed_is_executable(w, after.found, raws, from + 1, i, file, end, steps);
        } else {
            lemma_execs_keep(w, after.found, raws, from + 1);
            if after.found.notes.len() == found.notes.len() {
                reach_law::law_everything_needed_is_found(
                    w,
                    found,
                    raws[i],
                    strict,
                    file,
                    end,
                    steps,
                );
            }
        }
    }
}

proof fn lemma_listed_with_main(
    w: WorldModel,
    exec_allow: Seq<Seq<char>>,
    cmd: Seq<Seq<char>>,
    i: int,
    file: ResolvedModel,
    end: Seq<u8>,
    steps: nat,
)
    requires
        0 <= i < exec_allow.len(),
        reach_law::starts_with(w, exec_allow[i], ExecAllowMode::Strict, file),
        reach_law::reaches(w, file.path, w.context, end, steps),
    ensures
        policy::executables(w, exec_allow, cmd) matches FindModel::Found(found)
            ==> (found.notes.len() == 0 ==> found.paths.contains(end)),
{
    if cmd.len() == 0 {
        lemma_listed_is_executable(w, follow::empty(), exec_allow, 0, i, file, end, steps);
    } else {
        let main = main_followed(w, cmd);
        if main.outcome is Done {
            lemma_execs_note(w, main.found, exec_allow, 0);
            lemma_listed_is_executable(w, main.found, exec_allow, 0, i, file, end, steps);
        }
    }
}

/// Every command that is allowed by name or path may be executed, with everything that it needs
/// in order to run, where nothing was skipped.
pub proof fn law_listed_commands_are_allowed(
    w: WorldModel,
    m: CliModel,
    cmd: Seq<Seq<char>>,
    i: int,
    file: ResolvedModel,
    end: Seq<u8>,
    steps: nat,
)
    requires
        0 <= i < m.exec_allow.len(),
        reach_law::starts_with(w, m.exec_allow[i], ExecAllowMode::Strict, file),
        reach_law::reaches(w, file.path, w.context, end, steps),
    ensures
        policy::restrictions(w, m, cmd) matches FindModel::Found(Some(p)) ==> (
        p.notes.len() == 0 ==> p.exec_allow_paths.contains(end)),
{
    lemma_listed_with_main(w, m.exec_allow, cmd, i, file, end, steps);
}

} // verus!
