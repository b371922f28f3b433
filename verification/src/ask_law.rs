//! A question about the file system is asked only while its answer is not known.

use vstd::prelude::*;

use crate::cli::{CliModel, WritePreset};
use crate::config::{self, FileContent};
use crate::context::{self, ContextModel};
use crate::discovery::{self, ExecAllowMode, ResolvedModel};
use crate::env_command::{self, PlanModel};
use crate::facts::{self, FindModel, QuestionModel, WorldModel};
use crate::follow::{self, DiscoveryModel, OutcomeModel};
use crate::launch;
use crate::platform::{self, TaskModel};
use crate::policy;
use crate::shebang::{ArgumentModel, InterpreterModel};

verus! {

/// Whether what is asked for, if anything, is not known.
pub open spec fn new_question<T>(w: WorldModel, r: FindModel<T>) -> bool {
    r matches FindModel::Need(q) ==> w.knows(q) is None
}

/// The same for the outcome of following a file.
pub open spec fn new_outcome(w: WorldModel, r: OutcomeModel) -> bool {
    r matches OutcomeModel::Need(q) ==> w.knows(q) is None
}

// ---------------------------------------------------------------------------
// Single files
// ---------------------------------------------------------------------------

proof fn lemma_file(w: WorldModel, path: Seq<u8>, mode: ExecAllowMode)
    requires
        w.sensible(),
    ensures
        new_question(w, discovery::resolved(w, path)),
        new_question(w, discovery::looked(w, path)),
        new_question(w, discovery::resolved_path(w, path, mode)),
        new_question(w, discovery::main_file(w, path)),
        new_question(w, discovery::can_run(w, path)),
{
    assert(w.knows(QuestionModel::Open(path)) matches Some(r) ==> facts::fits(
        QuestionModel::Open(path),
        r,
    ));
    assert(w.knows(QuestionModel::Look(path)) matches Some(r) ==> facts::fits(
        QuestionModel::Look(path),
        r,
    ));
    assert(w.knows(QuestionModel::Access(path)) matches Some(r) ==> facts::fits(
        QuestionModel::Access(path),
        r,
    ));
}

proof fn lemma_candidates(
    w: WorldModel,
    dirs: Seq<Seq<u8>>,
    command: Seq<u8>,
    base: Option<Seq<u8>>,
)
    requires
        w.sensible(),
    ensures
        new_question(w, discovery::candidates(w, dirs, command, base)),
    decreases dirs.len(),
{
    if dirs.len() > 0 {
        lemma_candidates(w, dirs.drop_last(), command, base);
        lemma_file(
            w,
            discovery::candidate_in(dirs.last(), command, base),
            ExecAllowMode::Auto,
        );
    }
}

proof fn lemma_commands(w: WorldModel, command: Seq<char>, ctx: ContextModel)
    requires
        w.sensible(),
    ensures
        new_question(w, discovery::commands_in(w, command, ctx)),
{
    lemma_candidates(
        w,
        context::search_dirs(ctx.search_path(w.default_path)),
        vstd::utf8::encode_utf8(command),
        ctx.cwd,
    );
}

proof fn lemma_interpreters(w: WorldModel, path: Seq<u8>, ctx: ContextModel)
    requires
        w.sensible(),
    ensures
        new_question(w, discovery::interpreters(w, path, ctx)),
{
    assert(w.knows(QuestionModel::Head(path)) matches Some(r) ==> facts::fits(
        QuestionModel::Head(path),
        r,
    ));
    assert(w.knows(QuestionModel::Elf(path)) matches Some(r) ==> facts::fits(
        QuestionModel::Elf(path),
        r,
    ));
}

proof fn lemma_env_target(w: WorldModel, plan: PlanModel, ctx: ContextModel)
    requires
        w.sensible(),
    ensures
        new_question(w, follow::env_target(w, plan, ctx)),
{
    match env_command::chdir_path(plan, ctx) {
        Some(path) => {
            assert(w.knows(QuestionModel::Directory(path)) matches Some(r) ==> facts::fits(
                QuestionModel::Directory(path),
                r,
            ));
        },
        None => {},
    }
}

// ---------------------------------------------------------------------------
// Following
// ---------------------------------------------------------------------------

proof fn lemma_followed_file(
    w: WorldModel,
    found: DiscoveryModel,
    file: ResolvedModel,
    mode: ExecAllowMode,
    ctx: ContextModel,
    fuel: nat,
)
    requires
        w.sensible(),
    ensures
        new_outcome(w, follow::file_followed(w, found, file, mode, ctx, fuel).outcome),
    decreases fuel, 0int, 0int,
{
    let there = DiscoveryModel { visited: found.visited.push((file.path, ctx)), ..found };
    let kept = DiscoveryModel { paths: facts::with_path(there.paths, file.path), ..there };
    if fuel > 0 {
        lemma_interpreters(w, file.path, ctx);
        let detected = if file.facts.runnable() {
            discovery::interpreters(w, file.path, ctx)
        } else {
            FindModel::Found(Seq::empty())
        };
        if let FindModel::Found(list) = detected {
            lemma_followed_all(w, kept, list, 0, mode, ctx, (fuel - 1) as nat);
        }
    }
}

proof fn lemma_followed_all(
    w: WorldModel,
    found: DiscoveryModel,
    list: Seq<InterpreterModel>,
    from: int,
    mode: ExecAllowMode,
    ctx: ContextModel,
    fuel: nat,
)
    requires
        w.sensible(),
    ensures
        new_outcome(w, follow::all_followed(w, found, list, from, mode, ctx, fuel).outcome),
    decreases fuel, 9int, list.len() - from,
{
    if 0 <= from < list.len() {
        let after = follow::interpreter_followed(w, found, list[from], mode, ctx, fuel);
        lemma_followed_interpreter(w, found, list[from], mode, ctx, fuel);
        if after.outcome is Done {
            lemma_followed_all(w, after.found, list, from + 1, mode, ctx, fuel);
        }
    }
}

proof fn lemma_followed_interpreter(
    w: WorldModel,
    found: DiscoveryModel,
    interpreter: InterpreterModel,
    mode: ExecAllowMode,
    ctx: ContextModel,
    fuel: nat,
)
    requires
        w.sensible(),
    ensures
        new_outcome(w, follow::interpreter_followed(w, found, interpreter, mode, ctx, fuel).outcome),
    decreases fuel, follow::rank(interpreter), 0int,
{
    match interpreter {
        InterpreterModel::Candidate(path) => {
            lemma_followed_candidate(w, found, path, None, mode, ctx, fuel);
        },
        InterpreterModel::ShebangCandidate { path, argument } => {
            lemma_followed_candidate(w, found, path, Some(argument), mode, ctx, fuel);
        },
        InterpreterModel::SearchCandidates(paths) => {
            lemma_followed_search(w, found, paths, 0, ctx, fuel);
        },
        InterpreterModel::EnvCommand(plan) => {
            lemma_followed_env(w, found, plan, mode, ctx, fuel);
        },
        _ => {},
    }
}

proof fn lemma_followed_env(
    w: WorldModel,
    found: DiscoveryModel,
    plan: PlanModel,
    mode: ExecAllowMode,
    ctx: ContextModel,
    fuel: nat,
)
    requires
        w.sensible(),
    ensures
        new_outcome(w, follow::env_followed(w, found, plan, mode, ctx, fuel).outcome),
    decreases fuel, 5int, 0int,
{
    lemma_env_target(w, plan, ctx);
    if let FindModel::Found(Some(c)) = follow::env_target(w, plan, ctx) {
        lemma_commands(w, c.command, c.context);
        match follow::target_interpreter(w, c) {
            FindModel::Found(InterpreterModel::Candidate(path)) => {
                lemma_followed_candidate(w, found, path, None, mode, c.context, fuel);
            },
            FindModel::Found(InterpreterModel::SearchCandidates(paths)) => {
                lemma_followed_search(w, found, paths, 0, c.context, fuel);
            },
            _ => {},
        }
    }
}

proof fn lemma_followed_argument(
    w: WorldModel,
    found: DiscoveryModel,
    argument: ArgumentModel,
    mode: ExecAllowMode,
    ctx: ContextModel,
    fuel: nat,
)
    requires
        w.sensible(),
    ensures
        new_outcome(w, follow::argument_followed(w, found, argument, mode, ctx, fuel).outcome),
    decreases fuel, 6int, 0int,
{
    if let ArgumentModel::Utf8(text) = argument {
        if let Ok(Some(plan)) = env_command::shebang_plan(text, ctx.environment, w.realtime) {
            lemma_followed_env(w, found, plan, mode, ctx, fuel);
        }
    }
}

proof fn lemma_followed_candidate(
    w: WorldModel,
    found: DiscoveryModel,
    path: Seq<u8>,
    argument: Option<ArgumentModel>,
    mode: ExecAllowMode,
    ctx: ContextModel,
    fuel: nat,
)
    requires
        w.sensible(),
    ensures
        new_outcome(w, follow::candidate_followed(w, found, path, argument, mode, ctx, fuel).outcome),
    decreases
            fuel,
            if argument is Some {
                7int
            } else {
                3int
            },
            0int,
{
    if !path.contains(0x2f) {
        lemma_followed_name(w, found, vstd::utf8::decode_utf8(path), mode, ctx, fuel);
    } else {
        lemma_file(w, ctx.path(path), mode);
        if let FindModel::Found(Some(file)) = discovery::resolved_path(w, ctx.path(path), mode) {
            lemma_followed_file(w, found, file, mode, ctx, fuel);
            let after = follow::file_followed(w, found, file, mode, ctx, fuel);
            if let Some(a) = argument {
                lemma_followed_argument(w, after.found, a, mode, ctx, fuel);
            }
        }
    }
}

proof fn lemma_followed_name(
    w: WorldModel,
    found: DiscoveryModel,
    raw: Seq<char>,
    mode: ExecAllowMode,
    ctx: ContextModel,
    fuel: nat,
)
    requires
        w.sensible(),
    ensures
        new_outcome(w, follow::name_followed(w, found, raw, mode, ctx, fuel).outcome),
    decreases fuel, 2int, 0int,
{
    let bytes = vstd::utf8::encode_utf8(raw);
    lemma_commands(w, raw, ctx);
    lemma_file(w, bytes, mode);
    if !raw.contains('/') {
        if let FindModel::Found(paths) = discovery::commands_in(w, raw, ctx) {
            lemma_followed_search(w, found, paths, 0, ctx, fuel);
        }
    } else if mode is Strict {
        if let FindModel::Found(file) = discovery::resolved(w, bytes) {
            lemma_followed_file(w, found, file, mode, ctx, fuel);
        }
    } else if let FindModel::Found(Some(file)) = discovery::main_file(w, bytes) {
        lemma_followed_file(w, found, file, mode, ctx, fuel);
    }
}

proof fn lemma_followed_search(
    w: WorldModel,
    found: DiscoveryModel,
    paths: Seq<Seq<u8>>,
    from: int,
    ctx: ContextModel,
    fuel: nat,
)
    requires
        w.sensible(),
    ensures
        new_outcome(w, follow::search_followed(w, found, paths, from, ctx, fuel).outcome),
    decreases fuel, 1int, paths.len() - from,
{
    if 0 <= from < paths.len() {
        lemma_file(w, paths[from], ExecAllowMode::Auto);
        let tried = discovery::resolved_path(w, paths[from], ExecAllowMode::Auto);
        let after = match tried {
            FindModel::Need(q) => follow::need(found, q),
            FindModel::Fail(e) => follow::broken(found, e),
            FindModel::Found(None) => follow::done(found),
            FindModel::Found(Some(file)) => if file.facts.runnable() {
                follow::file_followed(w, found, file, ExecAllowMode::Auto, ctx, fuel)
            } else {
                follow::done(found)
            },
        };
        if let FindModel::Found(Some(file)) = tried {
            lemma_followed_file(w, found, file, ExecAllowMode::Auto, ctx, fuel);
        }
        let next = match after.outcome {
            OutcomeModel::Failed(e) => follow::noted(
                after.found,
                "skip interpreter discovery for PATH candidate '"@,
                paths[from],
                e,
            ),
            _ => after.found,
        };
        lemma_followed_search(w, next, paths, from + 1, ctx, fuel);
    }
}

// ---------------------------------------------------------------------------
// Restrictions
// ---------------------------------------------------------------------------

proof fn lemma_pinned(w: WorldModel, raw: Seq<char>, allow_missing: bool, kind: Seq<char>)
    requires
        w.sensible(),
    ensures
        new_question(w, policy::pinned(w, raw, allow_missing, kind)),
{
    let q = QuestionModel::OpenDirectory(vstd::utf8::encode_utf8(raw));
    assert(w.knows(q) matches Some(r) ==> facts::fits(q, r));
}

proof fn lemma_preset(w: WorldModel, dirs: Seq<Seq<u8>>, names: Seq<Seq<char>>, from: int)
    requires
        w.sensible(),
    ensures
        new_question(w, policy::preset_added(w, dirs, names, from)),
    decreases names.len() - from,
{
    if 0 <= from < names.len() {
        lemma_pinned(w, names[from], true, "write allow path"@);
        if let FindModel::Found(more) = policy::dir_added(w, dirs, names[from], true) {
            lemma_preset(w, more, names, from + 1);
        }
    }
}

proof fn lemma_presets(w: WorldModel, dirs: Seq<Seq<u8>>, presets: Seq<WritePreset>, from: int)
    requires
        w.sensible(),
    ensures
        new_question(w, policy::presets_added(w, dirs, presets, from)),
    decreases presets.len() - from,
{
    if 0 <= from < presets.len() {
        let names = policy::preset_dirs(presets[from]);
        lemma_preset(w, dirs, names, 0);
        if let FindModel::Found(more) = policy::preset_added(w, dirs, names, 0) {
            lemma_presets(w, more, presets, from + 1);
        }
    }
}

proof fn lemma_writes(w: WorldModel, dirs: Seq<Seq<u8>>, raws: Seq<Seq<char>>, from: int)
    requires
        w.sensible(),
    ensures
        new_question(w, policy::writes_added(w, dirs, raws, from)),
    decreases raws.len() - from,
{
    if 0 <= from < raws.len() {
        lemma_pinned(w, raws[from], false, "write allow path"@);
        if let FindModel::Found(more) = policy::dir_added(w, dirs, raws[from], false) {
            lemma_writes(w, more, raws, from + 1);
        }
    }
}

proof fn lemma_devices(w: WorldModel, paths: Seq<Seq<u8>>, raws: Seq<Seq<char>>, from: int)
    requires
        w.sensible(),
    ensures
        new_question(w, policy::devices_added(w, paths, raws, from)),
    decreases raws.len() - from,
{
    if 0 <= from < raws.len() {
        let q = QuestionModel::Open(vstd::utf8::encode_utf8(raws[from]));
        assert(w.knows(q) matches Some(r) ==> facts::fits(q, r));
        if let FindModel::Found(p) = policy::device_path(w, raws[from]) {
            lemma_devices(w, facts::with_path(paths, p), raws, from + 1);
        }
    }
}

proof fn lemma_execs(w: WorldModel, found: DiscoveryModel, raws: Seq<Seq<char>>, from: int)
    requires
        w.sensible(),
    ensures
        new_question(w, policy::execs_added(w, found, raws, from)),
    decreases raws.len() - from,
{
    if 0 <= from < raws.len() {
        lemma_top(w, found, raws[from], ExecAllowMode::Strict);
        let after = follow::top_followed(w, found, raws[from], ExecAllowMode::Strict);
        if after.outcome is Done {
            lemma_execs(w, after.found, raws, from + 1);
        }
    }
}

proof fn lemma_top(w: WorldModel, found: DiscoveryModel, raw: Seq<char>, mode: ExecAllowMode)
    requires
        w.sensible(),
    ensures
        new_outcome(w, follow::top_followed(w, found, raw, mode).outcome),
{
    lemma_followed_name(
        w,
        DiscoveryModel { visited: Seq::empty(), ..found },
        raw,
        mode,
        w.context,
        discovery::VISIT_LIMIT as nat,
    );
}

/// Working out the restrictions of a command never asks what is known already.
pub proof fn law_restrictions_ask_nothing_twice(w: WorldModel, m: CliModel, cmd: Seq<Seq<char>>)
    requires
        w.sensible(),
    ensures
        new_question(w, policy::restrictions(w, m, cmd)),
{
    let none = Seq::<Seq<u8>>::empty();
    lemma_presets(w, none, m.write_preset, 0);
    if let FindModel::Found(dirs) = policy::presets_added(w, none, m.write_preset, 0) {
        lemma_writes(w, dirs, m.write_allow, 0);
    }
    lemma_devices(w, none, m.device_ioctl_allow, 0);
    lemma_pinned(w, "/dev"@, true, "default writable directory"@);
    lemma_execs(w, follow::empty(), m.exec_allow, 0);
    if cmd.len() > 0 {
        lemma_top(w, follow::empty(), cmd[0], ExecAllowMode::Auto);
        let main = follow::top_followed(w, follow::empty(), cmd[0], ExecAllowMode::Auto);
        if main.outcome is Done {
            lemma_execs(w, main.found, m.exec_allow, 0);
        }
    }
}

proof fn lemma_platform(w: WorldModel, m: CliModel)
    requires
        w.sensible(),
    ensures
        new_question(w, crate::explain::platform_of(w, m)),
        new_question(w, platform::validity(w, m)),
{
    if let Ok(cmd) = crate::expand::command(m.cmd, m.expand_env, w.context.environment) {
        law_restrictions_ask_nothing_twice(w, m, cmd);
    }
}

/// Neither the choice of what is to be done nor the preparation of a command asks what is known
/// already.
pub proof fn law_nothing_is_asked_twice(w: WorldModel, m: CliModel, file: FileContent)
    requires
        w.sensible(),
    ensures
        platform::task_of(w, m, file) matches TaskModel::Need(q) ==> w.knows(q) is None,
        platform::written(w, file) matches TaskModel::Need(q) ==> w.knows(q) is None,
        new_question(w, launch::prepared(w, m)),
{
    lemma_platform(w, m);
    lemma_platform(w, platform::effective(m, w.context.environment));
    if let Ok(c) = config::file_effect(crate::cli::DEFAULT_CONFIG_PATH@, true, file) {
        lemma_platform(w, c);
    }
    if let Ok(cmd) = crate::expand::command(m.cmd, m.expand_env, w.context.environment) {
        law_restrictions_ask_nothing_twice(w, m, cmd);
    }
}

} // verus!
