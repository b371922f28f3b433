//! That everything is found that a command needs in order to run.

use vstd::prelude::*;

use crate::context::ContextModel;
use crate::discovery::{self, ExecAllowMode, ResolvedModel, VISIT_LIMIT};
use crate::env_command::{self, PlanModel};
use crate::facts::{self, FindModel, WorldModel};
use crate::follow::{self, DiscoveryModel, Followed, OutcomeModel};
use crate::follow_law;
use crate::shebang::{ArgumentModel, InterpreterModel};

verus! {

// ---------------------------------------------------------------------------
// What leads where
// ---------------------------------------------------------------------------

/// Whether there is a file to run at a path.
pub open spec fn stands_for(w: WorldModel, path: Seq<u8>, file: ResolvedModel) -> bool {
    &&& discovery::resolved_path(w, path, ExecAllowMode::Auto) == FindModel::<
        Option<ResolvedModel>,
    >::Found(Some(file))
    &&& file.facts.runnable()
}

/// Whether a file is one of those that a command may be looked up as.
pub open spec fn search_leads(w: WorldModel, paths: Seq<Seq<u8>>, file: ResolvedModel) -> bool {
    exists|i: int| 0 <= i < paths.len() && stands_for(w, #[trigger] paths[i], file)
}

/// Whether a command stands for a file, in a context: a path for the file that is there, and a
/// name for every file that it may be looked up as.
pub open spec fn name_leads(
    w: WorldModel,
    raw: Seq<char>,
    ctx: ContextModel,
    file: ResolvedModel,
) -> bool {
    if raw.contains('/') {
        discovery::main_file(w, vstd::utf8::encode_utf8(raw)) == FindModel::<
            Option<ResolvedModel>,
        >::Found(Some(file))
    } else {
        discovery::commands_in(w, raw, ctx) matches FindModel::Found(paths) && search_leads(
            w,
            paths,
            file,
        )
    }
}

/// Whether an interpreter that is given by its path or its name is a file.
pub open spec fn path_leads(
    w: WorldModel,
    path: Seq<u8>,
    ctx: ContextModel,
    file: ResolvedModel,
) -> bool {
    if path.contains(0x2f) {
        stands_for(w, ctx.path(path), file)
    } else {
        vstd::utf8::valid_utf8(path) && name_leads(w, vstd::utf8::decode_utf8(path), ctx, file)
    }
}

/// Whether `env` is asked to run a file, in the context `c`.
pub open spec fn env_leads(
    w: WorldModel,
    plan: PlanModel,
    ctx: ContextModel,
    file: ResolvedModel,
    c: ContextModel,
) -> bool {
    match follow::env_target(w, plan, ctx) {
        FindModel::Found(Some(command)) => c == command.context && match follow::target_interpreter(
            w,
            command,
        ) {
            FindModel::Found(InterpreterModel::Candidate(path)) => path_leads(w, path, c, file),
            FindModel::Found(InterpreterModel::SearchCandidates(paths)) => search_leads(
                w,
                paths,
                file,
            ),
            _ => false,
        },
        _ => false,
    }
}

/// Whether an argument of `env` makes it run a file, in the context `c`.
pub open spec fn plan_leads(
    w: WorldModel,
    argument: ArgumentModel,
    ctx: ContextModel,
    file: ResolvedModel,
    c: ContextModel,
) -> bool {
    match argument {
        ArgumentModel::Utf8(text) => match env_command::shebang_plan(
            text,
            ctx.environment,
            w.realtime,
        ) {
            Ok(Some(plan)) => env_leads(w, plan, ctx, file, c),
            _ => false,
        },
        _ => false,
    }
}

/// Whether the interpreter at a path is `env`, by whatever name, and its argument makes it run a
/// file, in the context `c`.
pub open spec fn argument_leads(
    w: WorldModel,
    path: Seq<u8>,
    argument: ArgumentModel,
    ctx: ContextModel,
    file: ResolvedModel,
    c: ContextModel,
) -> bool {
    &&& path.contains(0x2f)
    &&& exists|e: ResolvedModel| #[trigger] stands_for(w, ctx.path(path), e) && e.env
    &&& plan_leads(w, argument, ctx, file, c)
}

/// Whether an interpreter is a file, or makes it run, in the context `c`.
pub open spec fn leads(
    w: WorldModel,
    interpreter: InterpreterModel,
    ctx: ContextModel,
    file: ResolvedModel,
    c: ContextModel,
) -> bool {
    match interpreter {
        InterpreterModel::Candidate(path) => c == ctx && path_leads(w, path, ctx, file),
        InterpreterModel::ShebangCandidate { path, argument } => (c == ctx && path_leads(
            w,
            path,
            ctx,
            file,
        )) || argument_leads(w, path, argument, ctx, file, c),
        InterpreterModel::SearchCandidates(paths) => c == ctx && search_leads(w, paths, file),
        InterpreterModel::EnvCommand(plan) => env_leads(w, plan, ctx, file, c),
        _ => false,
    }
}

/// Whether one of some interpreters is a file, or makes it run, in the context `c`.
pub open spec fn any_leads(
    w: WorldModel,
    list: Seq<InterpreterModel>,
    ctx: ContextModel,
    file: ResolvedModel,
    c: ContextModel,
) -> bool {
    exists|j: int| 0 <= j < list.len() && #[trigger] leads(w, list[j], ctx, file, c)
}

/// Whether a file that is run needs another one, which is run in the context `c`.
#[verifier::opaque]
pub open spec fn needs(
    w: WorldModel,
    path: Seq<u8>,
    ctx: ContextModel,
    file: ResolvedModel,
    c: ContextModel,
) -> bool {
    discovery::interpreters(w, path, ctx) matches FindModel::Found(list) && any_leads(
        w,
        list,
        ctx,
        file,
        c,
    )
}

/// Whether a file that is run needs a path, directly or through as many others as `steps` says.
pub open spec fn reaches(
    w: WorldModel,
    path: Seq<u8>,
    ctx: ContextModel,
    end: Seq<u8>,
    steps: nat,
) -> bool
    decreases steps,
{
    if steps == 0 {
        path == end
    } else {
        exists|file: ResolvedModel, c: ContextModel| #[trigger]
            needs(w, path, ctx, file, c) && reaches(w, file.path, c, end, (steps - 1) as nat)
    }
}

/// Whether following a command starts with a file that is run.
pub open spec fn starts_with(
    w: WorldModel,
    raw: Seq<char>,
    mode: ExecAllowMode,
    file: ResolvedModel,
) -> bool {
    if raw.contains('/') && mode is Strict {
        &&& discovery::resolved(w, vstd::utf8::encode_utf8(raw)) == FindModel::<
            ResolvedModel,
        >::Found(file)
        &&& file.facts.runnable()
    } else {
        name_leads(w, raw, w.context, file)
    }
}

// ---------------------------------------------------------------------------
// What following leaves behind
// ---------------------------------------------------------------------------

/// Whether nothing is lost.
pub open spec fn keeps(before: DiscoveryModel, after: DiscoveryModel) -> bool {
    &&& before.notes.len() <= after.notes.len()
    &&& before.visited.len() <= after.visited.len()
    &&& forall|v: (Seq<u8>, ContextModel)| #[trigger]
        before.visited.contains(v) ==> after.visited.contains(v)
    &&& forall|p: Seq<u8>| #[trigger] before.paths.contains(p) ==> after.paths.contains(p)
}

/// Whether every file that was followed is found.
pub open spec fn covered(found: DiscoveryModel) -> bool {
    forall|v: (Seq<u8>, ContextModel)| #[trigger]
        found.visited.contains(v) ==> found.paths.contains(v.0)
}

/// Whether everything was followed that a file needs.
pub open spec fn satisfied(
    w: WorldModel,
    found: DiscoveryModel,
    v: (Seq<u8>, ContextModel),
) -> bool {
    forall|file: ResolvedModel, c: ContextModel| #[trigger]
        needs(w, v.0, v.1, file, c) ==> found.visited.contains((file.path, c))
}

/// Whether everything was followed that the files need which were followed since `before`.
pub open spec fn complete(w: WorldModel, before: DiscoveryModel, after: DiscoveryModel) -> bool {
    forall|v: (Seq<u8>, ContextModel)| #[trigger]
        after.visited.contains(v) && !before.visited.contains(v) ==> satisfied(w, after, v)
}

/// Whether a step is done and has skipped nothing.
pub open spec fn smooth(before: DiscoveryModel, after: Followed) -> bool {
    after.outcome is Done && after.found.notes.len() == before.notes.len()
}

/// What holds between a state and a later one from which following goes on.
spec fn midway(w: WorldModel, before: DiscoveryModel, after: DiscoveryModel, fuel: nat) -> bool {
    &&& keeps(before, after)
    &&& after.notes.len() == before.notes.len() ==> complete(w, before, after)
    &&& after.notes.len() == before.notes.len() && covered(before) ==> covered(after)
    &&& covered(before) && follow_law::enough(before, fuel) && after.visited.len() <= VISIT_LIMIT
        ==> covered(after)
}

/// What holds between a state and the one that a step ends with.
spec fn thorough(w: WorldModel, before: DiscoveryModel, after: Followed, fuel: nat) -> bool {
    &&& keeps(before, after.found)
    &&& smooth(before, after) ==> complete(w, before, after.found)
    &&& smooth(before, after) && covered(before) ==> covered(after.found)
    &&& covered(before) && follow_law::enough(before, fuel) && !(after.outcome is Need)
        && after.found.visited.len() <= VISIT_LIMIT ==> covered(after.found)
}

proof fn lemma_thorough_further(
    w: WorldModel,
    before: DiscoveryModel,
    mid: DiscoveryModel,
    after: Followed,
    fuel: nat,
)
    requires
        midway(w, before, mid, fuel),
        thorough(w, mid, after, fuel),
    ensures
        thorough(w, before, after, fuel),
{
    if smooth(before, after) {
        assert forall|v: (Seq<u8>, ContextModel)| #[trigger]
            after.found.visited.contains(v) && !before.visited.contains(v) implies satisfied(
            w,
            after.found,
            v,
        ) by {
            if mid.visited.contains(v) {
                assert(satisfied(w, mid, v));
            }
        }
    }
}

proof fn lemma_slash_is_kept(chars: Seq<char>)
    requires
        chars.contains('/'),
    ensures
        vstd::utf8::encode_utf8(chars).contains(0x2f),
    decreases chars.len(),
{
    let first = vstd::utf8::encode_scalar(chars[0] as u32);
    let rest = vstd::utf8::encode_utf8(chars.drop_first());
    let whole = vstd::utf8::encode_utf8(chars);
    assert(whole == first + rest);
    if chars[0] == '/' {
        assert((0x2fu32 & 0x7F) as u8 == 0x2fu8) by (bit_vector);
        assert(first[0] == 0x2fu8);
        assert(whole[0] == 0x2fu8);
    } else {
        let i = choose|i: int| 0 <= i < chars.len() && chars[i] == '/';
        assert(chars.drop_first()[i - 1] == '/');
        lemma_slash_is_kept(chars.drop_first());
        let k = choose|k: int| 0 <= k < rest.len() && rest[k] == 0x2fu8;
        assert(whole[first.len() + k] == 0x2fu8);
    }
}

proof fn lemma_file_thorough(
    w: WorldModel,
    found: DiscoveryModel,
    file: ResolvedModel,
    mode: ExecAllowMode,
    ctx: ContextModel,
    fuel: nat,
)
    requires
        file.facts.runnable(),
    ensures
        thorough(w, found, follow::file_followed(w, found, file, mode, ctx, fuel), fuel),
        follow::file_followed(w, found, file, mode, ctx, fuel).found.visited.contains(
            (file.path, ctx),
        ),
    decreases fuel, 0int, 0int,
{
    let node = (file.path, ctx);
    let there = DiscoveryModel { visited: found.visited.push(node), ..found };
    let kept = DiscoveryModel { paths: facts::with_path(there.paths, file.path), ..there };
    let r = follow::file_followed(w, found, file, mode, ctx, fuel);
    if !found.visited.contains(node) {
        lemma_visited_once_more(found, file.path, ctx);
        if there.visited.len() <= VISIT_LIMIT && fuel > 0 {
            if let FindModel::Found(list) = discovery::interpreters(w, file.path, ctx) {
                let less = (fuel - 1) as nat;
                let after = follow::all_followed(w, kept, list, 0, mode, ctx, less);
                lemma_all_thorough(w, kept, list, 0, mode, ctx, less);
                assert(keeps(found, r.found));
                if smooth(found, r) {
                    reveal(needs);
                    assert(r == after);
                    assert(satisfied(w, r.found, node));
                    assert forall|v: (Seq<u8>, ContextModel)| #[trigger]
                        r.found.visited.contains(v) && !found.visited.contains(
                            v,
                        ) implies satisfied(w, r.found, v) by {
                        if kept.visited.contains(v) {
                            assert(v == node);
                        }
                    }
                }
            }
        }
    }
}

proof fn lemma_visited_once_more(found: DiscoveryModel, path: Seq<u8>, ctx: ContextModel)
    ensures
        ({
            let there = DiscoveryModel { visited: found.visited.push((path, ctx)), ..found };
            let kept = DiscoveryModel { paths: facts::with_path(there.paths, path), ..there };
            &&& keeps(found, there)
            &&& keeps(found, kept)
            &&& there.visited.contains((path, ctx))
            &&& covered(found) ==> covered(kept)
            &&& forall|v: (Seq<u8>, ContextModel)| #[trigger]
                kept.visited.contains(v) ==> v == (path, ctx) || found.visited.contains(v)
        }),
{
    let node = (path, ctx);
    let there = DiscoveryModel { visited: found.visited.push(node), ..found };
    let kept = DiscoveryModel { paths: facts::with_path(there.paths, path), ..there };
    assert forall|v: (Seq<u8>, ContextModel)| #[trigger]
        found.visited.contains(v) implies there.visited.contains(v) by {
        let i = choose|i: int| 0 <= i < found.visited.len() && found.visited[i] == v;
        assert(there.visited[i] == v);
    }
    assert(there.visited[found.visited.len() as int] == node);
    follow_law::lemma_paths_with_one_more(found.paths, path);
    assert forall|v: (Seq<u8>, ContextModel)| #[trigger]
        kept.visited.contains(v) implies v == node || found.visited.contains(v) by {
        let i = choose|i: int| 0 <= i < kept.visited.len() && kept.visited[i] == v;
        if i < found.visited.len() {
            assert(found.visited[i] == v);
        }
    }
}

proof fn lemma_all_thorough(
    w: WorldModel,
    found: DiscoveryModel,
    list: Seq<InterpreterModel>,
    from: int,
    mode: ExecAllowMode,
    ctx: ContextModel,
    fuel: nat,
)
    ensures
        thorough(w, found, follow::all_followed(w, found, list, from, mode, ctx, fuel), fuel),
        smooth(found, follow::all_followed(w, found, list, from, mode, ctx, fuel)) ==> forall|
            j: int,
            file: ResolvedModel,
            c: ContextModel,
        |
            0 <= from <= j < list.len() && #[trigger] leads(w, list[j], ctx, file, c)
                ==> follow::all_followed(
                w,
                found,
                list,
                from,
                mode,
                ctx,
                fuel,
            ).found.visited.contains((file.path, c)),
    decreases fuel, 9int, list.len() - from,
{
    if 0 <= from < list.len() {
        let after = follow::interpreter_followed(w, found, list[from], mode, ctx, fuel);
        lemma_interpreter_thorough(w, found, list[from], mode, ctx, fuel);
        if after.outcome is Done {
            let r = follow::all_followed(w, after.found, list, from + 1, mode, ctx, fuel);
            lemma_all_thorough(w, after.found, list, from + 1, mode, ctx, fuel);
            lemma_thorough_further(w, found, after.found, r, fuel);
        }
    }
}

proof fn lemma_interpreter_thorough(
    w: WorldModel,
    found: DiscoveryModel,
    interpreter: InterpreterModel,
    mode: ExecAllowMode,
    ctx: ContextModel,
    fuel: nat,
)
    ensures
        thorough(
            w,
            found,
            follow::interpreter_followed(w, found, interpreter, mode, ctx, fuel),
            fuel,
        ),
        smooth(found, follow::interpreter_followed(w, found, interpreter, mode, ctx, fuel))
            ==> forall|file: ResolvedModel, c: ContextModel| #[trigger]
            leads(w, interpreter, ctx, file, c) ==> follow::interpreter_followed(
                w,
                found,
                interpreter,
                mode,
                ctx,
                fuel,
            ).found.visited.contains((file.path, c)),
    decreases fuel, follow::rank(interpreter), 0int,
{
    match interpreter {
        InterpreterModel::Candidate(path) => {
            lemma_candidate_thorough(w, found, path, None, mode, ctx, fuel);
        },
        InterpreterModel::ShebangCandidate { path, argument } => {
            lemma_candidate_thorough(w, found, path, Some(argument), mode, ctx, fuel);
        },
        InterpreterModel::SearchCandidates(paths) => {
            lemma_search_thorough(w, found, paths, 0, ctx, fuel);
        },
        InterpreterModel::EnvCommand(plan) => {
            lemma_env_thorough(w, found, plan, mode, ctx, fuel);
        },
        _ => {},
    }
}

proof fn lemma_env_thorough(
    w: WorldModel,
    found: DiscoveryModel,
    plan: PlanModel,
    mode: ExecAllowMode,
    ctx: ContextModel,
    fuel: nat,
)
    ensures
        thorough(w, found, follow::env_followed(w, found, plan, mode, ctx, fuel), fuel),
        smooth(found, follow::env_followed(w, found, plan, mode, ctx, fuel)) ==> forall|
            file: ResolvedModel,
            c: ContextModel,
        | #[trigger]
            env_leads(w, plan, ctx, file, c) ==> follow::env_followed(
                w,
                found,
                plan,
                mode,
                ctx,
                fuel,
            ).found.visited.contains((file.path, c)),
    decreases fuel, 5int, 0int,
{
    if let FindModel::Found(Some(command)) = follow::env_target(w, plan, ctx) {
        match follow::target_interpreter(w, command) {
            FindModel::Found(InterpreterModel::Candidate(path)) => {
                lemma_candidate_thorough(w, found, path, None, mode, command.context, fuel);
            },
            FindModel::Found(InterpreterModel::SearchCandidates(paths)) => {
                lemma_search_thorough(w, found, paths, 0, command.context, fuel);
            },
            _ => {},
        }
    }
}

proof fn lemma_argument_thorough(
    w: WorldModel,
    found: DiscoveryModel,
    argument: ArgumentModel,
    mode: ExecAllowMode,
    ctx: ContextModel,
    fuel: nat,
)
    ensures
        thorough(w, found, follow::argument_followed(w, found, argument, mode, ctx, fuel), fuel),
        smooth(found, follow::argument_followed(w, found, argument, mode, ctx, fuel)) ==> forall|
            file: ResolvedModel,
            c: ContextModel,
        | #[trigger]
            plan_leads(w, argument, ctx, file, c) ==> follow::argument_followed(
                w,
                found,
                argument,
                mode,
                ctx,
                fuel,
            ).found.visited.contains((file.path, c)),
    decreases fuel, 6int, 0int,
{
    if let ArgumentModel::Utf8(text) = argument {
        if let Ok(Some(plan)) = env_command::shebang_plan(text, ctx.environment, w.realtime) {
            lemma_env_thorough(w, found, plan, mode, ctx, fuel);
        }
    }
}

proof fn lemma_candidate_thorough(
    w: WorldModel,
    found: DiscoveryModel,
    path: Seq<u8>,
    argument: Option<ArgumentModel>,
    mode: ExecAllowMode,
    ctx: ContextModel,
    fuel: nat,
)
    ensures
        ({
            let r = follow::candidate_followed(w, found, path, argument, mode, ctx, fuel);
            &&& thorough(w, found, r, fuel)
            &&& smooth(found, r) ==> forall|file: ResolvedModel| #[trigger]
                path_leads(w, path, ctx, file) ==> r.found.visited.contains((file.path, ctx))
            &&& smooth(found, r) && argument is Some ==> forall|
                file: ResolvedModel,
                c: ContextModel,
            | #[trigger]
                argument_leads(w, path, argument->0, ctx, file, c) ==> r.found.visited.contains(
                    (file.path, c),
                )
        }),
    decreases
            fuel,
            if argument is Some {
                7int
            } else {
                3int
            },
            0int,
{
    if !path.contains(0x2f) {
        if vstd::utf8::valid_utf8(path) {
            let raw = vstd::utf8::decode_utf8(path);
            vstd::utf8::decode_utf8_encode_utf8(path);
            if raw.contains('/') {
                lemma_slash_is_kept(raw);
            }
            lemma_name_thorough(w, found, raw, mode, ctx, fuel);
        }
    } else if let FindModel::Found(Some(file)) = discovery::resolved_path(
        w,
        ctx.path(path),
        mode,
    ) {
        if file.facts.runnable() {
            let after = follow::file_followed(w, found, file, mode, ctx, fuel);
            lemma_file_thorough(w, found, file, mode, ctx, fuel);
            if let Some(a) = argument {
                if after.outcome is Done && file.env {
                    lemma_argument_thorough(w, after.found, a, mode, ctx, fuel);
                    lemma_thorough_further(
                        w,
                        found,
                        after.found,
                        follow::argument_followed(w, after.found, a, mode, ctx, fuel),
                        fuel,
                    );
                }
            }
        }
    }
}

proof fn lemma_name_thorough(
    w: WorldModel,
    found: DiscoveryModel,
    raw: Seq<char>,
    mode: ExecAllowMode,
    ctx: ContextModel,
    fuel: nat,
)
    requires
        mode is Auto || !raw.contains('/'),
    ensures
        ({
            let r = follow::name_followed(w, found, raw, mode, ctx, fuel);
            &&& thorough(w, found, r, fuel)
            &&& !(r.outcome is Need) ==> forall|file: ResolvedModel| #[trigger]
                name_leads(w, raw, ctx, file) ==> r.found.visited.contains((file.path, ctx))
        }),
    decreases fuel, 2int, 0int,
{
    let bytes = vstd::utf8::encode_utf8(raw);
    if !raw.contains('/') {
        if let FindModel::Found(paths) = discovery::commands_in(w, raw, ctx) {
            lemma_search_thorough(w, found, paths, 0, ctx, fuel);
        }
    } else if let FindModel::Found(Some(file)) = discovery::main_file(w, bytes) {
        lemma_file_thorough(w, found, file, mode, ctx, fuel);
    }
}

proof fn lemma_search_thorough(
    w: WorldModel,
    found: DiscoveryModel,
    paths: Seq<Seq<u8>>,
    from: int,
    ctx: ContextModel,
    fuel: nat,
)
    ensures
        ({
            let r = follow::search_followed(w, found, paths, from, ctx, fuel);
            &&& thorough(w, found, r, fuel)
            &&& !(r.outcome is Need) ==> forall|i: int, file: ResolvedModel|
                0 <= from <= i < paths.len() && #[trigger] stands_for(w, paths[i], file)
                    ==> r.found.visited.contains((file.path, ctx))
        }),
    decreases fuel, 1int, paths.len() - from,
{
    if 0 <= from < paths.len() {
        let r = follow::search_followed(w, found, paths, from, ctx, fuel);
        let tried = discovery::resolved_path(w, paths[from], ExecAllowMode::Auto);
        let after = match tried {
            FindModel::Need(q) => follow::need(found, q),
            FindModel::Fail(e) => follow::broken(found, e),
            FindModel::Found(None) => follow::done(found),
            FindModel::Found(Some(file)) => if file.facts.runnable() {
                follow::file_followed(w, found, file, ExecAllowMode::Auto, ctx, fuel)
            } else {
                follow::done(found)
            },
        };
        if let FindModel::Found(Some(file)) = tried {
            if file.facts.runnable() {
                lemma_file_thorough(w, found, file, ExecAllowMode::Auto, ctx, fuel);
            }
        }
        assert(thorough(w, found, after, fuel));
        let next = match after.outcome {
            OutcomeModel::Failed(e) => follow::noted(
                after.found,
                "skip interpreter discovery for PATH candidate '"@,
                paths[from],
                e,
            ),
            _ => after.found,
        };
        if !(after.outcome is Need) {
            assert(midway(w, found, next, fuel));
            lemma_search_thorough(w, next, paths, from + 1, ctx, fuel);
            lemma_thorough_further(w, found, next, r, fuel);
        }
    }
}

// ---------------------------------------------------------------------------
// What is needed is found
// ---------------------------------------------------------------------------

/// What a command is followed from: what was found before, with nothing followed yet.
pub open spec fn outset(found: DiscoveryModel) -> DiscoveryModel {
    DiscoveryModel { visited: Seq::empty(), ..found }
}

proof fn lemma_top_thorough(
    w: WorldModel,
    found: DiscoveryModel,
    raw: Seq<char>,
    mode: ExecAllowMode,
    file: ResolvedModel,
)
    requires
        starts_with(w, raw, mode, file),
    ensures
        ({
            let r = follow::top_followed(w, found, raw, mode);
            &&& thorough(w, outset(found), r, VISIT_LIMIT as nat)
            &&& !(r.outcome is Need) ==> r.found.visited.contains((file.path, w.context))
        }),
{
    let fuel = VISIT_LIMIT as nat;
    if raw.contains('/') && mode is Strict {
        lemma_file_thorough(w, outset(found), file, mode, w.context, fuel);
    } else {
        lemma_name_thorough(w, outset(found), raw, mode, w.context, fuel);
    }
}

/// Following a command takes nothing back that was noted.
pub proof fn law_notes_stay(
    w: WorldModel,
    found: DiscoveryModel,
    raw: Seq<char>,
    mode: ExecAllowMode,
)
    ensures
        found.notes.len() <= follow::top_followed(w, found, raw, mode).found.notes.len(),
{
    let fuel = VISIT_LIMIT as nat;
    let bytes = vstd::utf8::encode_utf8(raw);
    if raw.contains('/') && mode is Strict {
        if let FindModel::Found(file) = discovery::resolved(w, bytes) {
            if file.facts.runnable() {
                lemma_file_thorough(w, outset(found), file, mode, w.context, fuel);
            }
        }
    } else {
        lemma_name_thorough(w, outset(found), raw, mode, w.context, fuel);
    }
}

/// A command itself is found: the file at its path, and every file that its name may be looked up
/// as. Only what lies beyond the limit of visits is left out.
pub proof fn law_command_is_found(
    w: WorldModel,
    found: DiscoveryModel,
    raw: Seq<char>,
    mode: ExecAllowMode,
    file: ResolvedModel,
)
    requires
        starts_with(w, raw, mode, file),
        follow::top_followed(w, found, raw, mode).outcome is Done,
        follow::top_followed(w, found, raw, mode).found.visited.len() <= VISIT_LIMIT,
    ensures
        follow::top_followed(w, found, raw, mode).found.paths.contains(file.path),
{
    lemma_top_thorough(w, found, raw, mode, file);
}

proof fn lemma_reached_is_visited(
    w: WorldModel,
    found: DiscoveryModel,
    path: Seq<u8>,
    ctx: ContextModel,
    end: Seq<u8>,
    steps: nat,
)
    requires
        complete(w, outset(found), found),
        covered(found),
        found.visited.contains((path, ctx)),
        reaches(w, path, ctx, end, steps),
    ensures
        found.paths.contains(end),
    decreases steps,
{
    if steps == 0 {
        assert(found.paths.contains((path, ctx).0));
    } else {
        let less = (steps - 1) as nat;
        let (file, c) = choose|file: ResolvedModel, c: ContextModel| #[trigger]
            needs(w, path, ctx, file, c) && reaches(w, file.path, c, end, less);
        let node = (path, ctx);
        assert(!outset(found).visited.contains(node));
        assert(satisfied(w, found, node));
        assert(needs(w, node.0, node.1, file, c));
        lemma_reached_is_visited(w, found, file.path, c, end, less);
    }
}

/// Everything is found that a command needs in order to run, through however many interpreters,
/// where nothing is wrong and nothing was skipped: from the file at its path, and from every file
/// that its name may be looked up as.
pub proof fn law_everything_needed_is_found(
    w: WorldModel,
    found: DiscoveryModel,
    raw: Seq<char>,
    mode: ExecAllowMode,
    file: ResolvedModel,
    end: Seq<u8>,
    steps: nat,
)
    requires
        starts_with(w, raw, mode, file),
        smooth(found, follow::top_followed(w, found, raw, mode)),
        reaches(w, file.path, w.context, end, steps),
    ensures
        follow::top_followed(w, found, raw, mode).found.paths.contains(end),
{
    let r = follow::top_followed(w, found, raw, mode);
    lemma_top_thorough(w, found, raw, mode, file);
    assert(outset(r.found).visited =~= outset(found).visited);
    lemma_reached_is_visited(w, r.found, file.path, w.context, end, steps);
}

proof fn lemma_interpreter_is_needed(
    w: WorldModel,
    path: Seq<u8>,
    ctx: ContextModel,
    list: Seq<InterpreterModel>,
    runner: ResolvedModel,
    c: ContextModel,
)
    requires
        discovery::interpreters(w, path, ctx) == FindModel::<Seq<InterpreterModel>>::Found(list),
        any_leads(w, list, ctx, runner, c),
    ensures
        needs(w, path, ctx, runner, c),
{
    reveal(needs);
}

proof fn lemma_one_step(
    w: WorldModel,
    path: Seq<u8>,
    ctx: ContextModel,
    runner: ResolvedModel,
    c: ContextModel,
)
    requires
        needs(w, path, ctx, runner, c),
    ensures
        reaches(w, path, ctx, runner.path, 1),
{
    assert(reaches(w, runner.path, c, runner.path, 0));
}

/// In particular, each interpreter of such a file is found, and what `env` is asked to run.
pub proof fn law_interpreters_are_found(
    w: WorldModel,
    found: DiscoveryModel,
    raw: Seq<char>,
    mode: ExecAllowMode,
    file: ResolvedModel,
    list: Seq<InterpreterModel>,
    runner: ResolvedModel,
    c: ContextModel,
)
    requires
        starts_with(w, raw, mode, file),
        smooth(found, follow::top_followed(w, found, raw, mode)),
        discovery::interpreters(w, file.path, w.context) == FindModel::<
            Seq<InterpreterModel>,
        >::Found(list),
        any_leads(w, list, w.context, runner, c),
    ensures
        follow::top_followed(w, found, raw, mode).found.paths.contains(runner.path),
{
    lemma_interpreter_is_needed(w, file.path, w.context, list, runner, c);
    lemma_one_step(w, file.path, w.context, runner, c);
    law_everything_needed_is_found(w, found, raw, mode, file, runner.path, 1);
}

} // verus!
