//! What following a command promises.

use vstd::prelude::*;

use crate::context::ContextModel;
use crate::discovery::{self, ExecAllowMode, ResolvedModel, VISIT_LIMIT};
use crate::env_command::{self, PlanModel};
use crate::facts::{self, FindModel, QuestionModel, ReplyModel, WorldModel};
use crate::follow::{self, DiscoveryModel, OutcomeModel};
use crate::shebang::{ArgumentModel, InterpreterModel};

verus! {

// ---------------------------------------------------------------------------
// What is found stays
// ---------------------------------------------------------------------------

/// Whether opening some path led to `p`.
pub open spec fn leads_to(w: WorldModel, q: Seq<u8>, p: Seq<u8>) -> bool {
    w.knows(QuestionModel::Open(q)) matches Some(ReplyModel::Opened { path, facts, env }) && path
        == p
}

/// Whether `p` is a path that was opened.
pub open spec fn was_opened(w: WorldModel, p: Seq<u8>) -> bool {
    exists|q: Seq<u8>| leads_to(w, q, p)
}

/// Whether paths are sorted and were all opened.
pub open spec fn sound(w: WorldModel, paths: Seq<Seq<u8>>) -> bool {
    &&& facts::sorted(paths)
    &&& forall|p: Seq<u8>| #[trigger] paths.contains(p) ==> was_opened(w, p)
}

/// Whether nothing that was known is lost, and what is new is sound.
pub open spec fn grows(w: WorldModel, before: DiscoveryModel, after: DiscoveryModel) -> bool {
    &&& after.visited.len() >= before.visited.len()
    &&& sound(w, before.paths) ==> sound(w, after.paths)
    &&& forall|p: Seq<u8>| #[trigger] before.paths.contains(p) ==> after.paths.contains(p)
}

proof fn lemma_grows_further(
    w: WorldModel,
    a: DiscoveryModel,
    b: DiscoveryModel,
    c: DiscoveryModel,
)
    requires
        grows(w, a, b),
        grows(w, b, c),
    ensures
        grows(w, a, c),
{
    assert forall|p: Seq<u8>| #[trigger] a.paths.contains(p) implies c.paths.contains(p) by {
        assert(b.paths.contains(p));
    }
}

proof fn lemma_path_added(w: WorldModel, found: DiscoveryModel, p: Seq<u8>)
    requires
        was_opened(w, p),
    ensures
        grows(
            w,
            found,
            DiscoveryModel { paths: facts::with_path(found.paths, p), ..found },
        ),
{
    lemma_paths_with_one_more(found.paths, p);
    if sound(w, found.paths) {
        facts::law_paths_stay_sorted(found.paths, p);
    }
}

proof fn lemma_resolved_opened(w: WorldModel, path: Seq<u8>)
    ensures
        discovery::resolved(w, path) matches FindModel::Found(x) ==> was_opened(w, x.path),
{
    if let FindModel::Found(x) = discovery::resolved(w, path) {
        assert(leads_to(w, path, x.path));
    }
}

proof fn lemma_file_grows(
    w: WorldModel,
    found: DiscoveryModel,
    file: ResolvedModel,
    mode: ExecAllowMode,
    ctx: ContextModel,
    fuel: nat,
)
    requires
        was_opened(w, file.path),
    ensures
        grows(w, found, follow::file_followed(w, found, file, mode, ctx, fuel).found),
    decreases fuel, 0int, 0int,
{
    let there = DiscoveryModel { visited: found.visited.push((file.path, ctx)), ..found };
    let kept = DiscoveryModel { paths: facts::with_path(there.paths, file.path), ..there };
    lemma_path_added(w, there, file.path);
    assert(grows(w, found, there));
    lemma_grows_further(w, found, there, kept);
    if fuel > 0 {
        let detected = if file.facts.runnable() {
            discovery::interpreters(w, file.path, ctx)
        } else {
            FindModel::Found(Seq::empty())
        };
        if let FindModel::Found(list) = detected {
            lemma_all_grow(w, kept, list, 0, mode, ctx, (fuel - 1) as nat);
            let after = follow::all_followed(w, kept, list, 0, mode, ctx, (fuel - 1) as nat);
            lemma_grows_further(w, found, kept, after.found);
        }
    }
}

proof fn lemma_all_grow(
    w: WorldModel,
    found: DiscoveryModel,
    list: Seq<InterpreterModel>,
    from: int,
    mode: ExecAllowMode,
    ctx: ContextModel,
    fuel: nat,
)
    ensures
        grows(w, found, follow::all_followed(w, found, list, from, mode, ctx, fuel).found),
    decreases fuel, 9int, list.len() - from,
{
    if 0 <= from < list.len() {
        let after = follow::interpreter_followed(w, found, list[from], mode, ctx, fuel);
        lemma_interpreter_grows(w, found, list[from], mode, ctx, fuel);
        if after.outcome is Done {
            lemma_all_grow(w, after.found, list, from + 1, mode, ctx, fuel);
            lemma_grows_further(
                w,
                found,
                after.found,
                follow::all_followed(w, after.found, list, from + 1, mode, ctx, fuel).found,
            );
        }
    }
}

proof fn lemma_interpreter_grows(
    w: WorldModel,
    found: DiscoveryModel,
    interpreter: InterpreterModel,
    mode: ExecAllowMode,
    ctx: ContextModel,
    fuel: nat,
)
    ensures
        grows(
            w,
            found,
            follow::interpreter_followed(w, found, interpreter, mode, ctx, fuel).found,
        ),
    decreases fuel, follow::rank(interpreter), 0int,
{
    match interpreter {
        InterpreterModel::Candidate(path) => {
            lemma_candidate_grows(w, found, path, None, mode, ctx, fuel);
        },
        InterpreterModel::ShebangCandidate { path, argument } => {
            lemma_candidate_grows(w, found, path, Some(argument), mode, ctx, fuel);
        },
        InterpreterModel::SearchCandidates(paths) => {
            lemma_search_grows(w, found, paths, 0, ctx, fuel);
        },
        InterpreterModel::EnvCommand(plan) => {
            lemma_env_grows(w, found, plan, mode, ctx, fuel);
        },
        _ => {},
    }
}

proof fn lemma_env_grows(
    w: WorldModel,
    found: DiscoveryModel,
    plan: PlanModel,
    mode: ExecAllowMode,
    ctx: ContextModel,
    fuel: nat,
)
    ensures
        grows(w, found, follow::env_followed(w, found, plan, mode, ctx, fuel).found),
    decreases fuel, 5int, 0int,
{
    if let FindModel::Found(Some(c)) = follow::env_target(w, plan, ctx) {
        match follow::target_interpreter(w, c) {
            FindModel::Found(InterpreterModel::Candidate(path)) => {
                lemma_candidate_grows(w, found, path, None, mode, c.context, fuel);
            },
            FindModel::Found(InterpreterModel::SearchCandidates(paths)) => {
                lemma_search_grows(w, found, paths, 0, c.context, fuel);
            },
            _ => {},
        }
    }
}

proof fn lemma_argument_grows(
    w: WorldModel,
    found: DiscoveryModel,
    argument: ArgumentModel,
    mode: ExecAllowMode,
    ctx: ContextModel,
    fuel: nat,
)
    ensures
        grows(w, found, follow::argument_followed(w, found, argument, mode, ctx, fuel).found),
    decreases fuel, 6int, 0int,
{
    if let ArgumentModel::Utf8(text) = argument {
        if let Ok(Some(plan)) = env_command::shebang_plan(text, ctx.environment, w.realtime) {
            lemma_env_grows(w, found, plan, mode, ctx, fuel);
        }
    }
}

proof fn lemma_candidate_grows(
    w: WorldModel,
    found: DiscoveryModel,
    path: Seq<u8>,
    argument: Option<ArgumentModel>,
    mode: ExecAllowMode,
    ctx: ContextModel,
    fuel: nat,
)
    ensures
        grows(
            w,
            found,
            follow::candidate_followed(w, found, path, argument, mode, ctx, fuel).found,
        ),
    decreases
            fuel,
            if argument is Some {
                7int
            } else {
                3int
            },
            0int,
{
    if !path.contains(0x2f) {
        lemma_name_grows(w, found, vstd::utf8::decode_utf8(path), mode, ctx, fuel);
    } else if let FindModel::Found(Some(file)) = discovery::resolved_path(
        w,
        ctx.path(path),
        mode,
    ) {
        lemma_resolved_opened(w, ctx.path(path));
        lemma_file_grows(w, found, file, mode, ctx, fuel);
        let after = follow::file_followed(w, found, file, mode, ctx, fuel);
        if let Some(a) = argument {
            lemma_argument_grows(w, after.found, a, mode, ctx, fuel);
            lemma_grows_further(
                w,
                found,
                after.found,
                follow::argument_followed(w, after.found, a, mode, ctx, fuel).found,
            );
        }
    }
}

proof fn lemma_name_grows(
    w: WorldModel,
    found: DiscoveryModel,
    raw: Seq<char>,
    mode: ExecAllowMode,
    ctx: ContextModel,
    fuel: nat,
)
    ensures
        grows(w, found, follow::name_followed(w, found, raw, mode, ctx, fuel).found),
    decreases fuel, 2int, 0int,
{
    let bytes = vstd::utf8::encode_utf8(raw);
    lemma_resolved_opened(w, bytes);
    if !raw.contains('/') {
        if let FindModel::Found(paths) = discovery::commands_in(w, raw, ctx) {
            lemma_search_grows(w, found, paths, 0, ctx, fuel);
        }
    } else if mode is Strict {
        if let FindModel::Found(file) = discovery::resolved(w, bytes) {
            lemma_file_grows(w, found, file, mode, ctx, fuel);
        }
    } else if let FindModel::Found(Some(file)) = discovery::main_file(w, bytes) {
        lemma_file_grows(w, found, file, mode, ctx, fuel);
    }
}

proof fn lemma_search_grows(
    w: WorldModel,
    found: DiscoveryModel,
    paths: Seq<Seq<u8>>,
    from: int,
    ctx: ContextModel,
    fuel: nat,
)
    ensures
        grows(w, found, follow::search_followed(w, found, paths, from, ctx, fuel).found),
    decreases fuel, 1int, paths.len() - from,
{
    if 0 <= from < paths.len() {
        let tried = discovery::resolved_path(w, paths[from], ExecAllowMode::Auto);
        lemma_resolved_opened(w, paths[from]);
        let after = match tried {
            FindModel::Need(q) => follow::need(found, q),
            FindModel::Fail(e) => follow::broken(found, e),
            FindModel::Found(None) => follow::done(found),
            FindModel::Found(Some(file)) => if file.facts.runnable() {
                follow::file_followed(w, found, file, ExecAllowMode::Auto, ctx, fuel)
            } else {
                follow::done(found)
            },
        };
        if let FindModel::Found(Some(file)) = tried {
            lemma_file_grows(w, found, file, ExecAllowMode::Auto, ctx, fuel);
        }
        assert(grows(w, found, after.found));
        let next = match after.outcome {
            OutcomeModel::Failed(e) => follow::noted(
                after.found,
                "skip interpreter discovery for PATH candidate '"@,
                paths[from],
                e,
            ),
            _ => after.found,
        };
        assert(grows(w, after.found, next));
        lemma_grows_further(w, found, after.found, next);
        lemma_search_grows(w, next, paths, from + 1, ctx, fuel);
        lemma_grows_further(
            w,
            found,
            next,
            follow::search_followed(w, next, paths, from + 1, ctx, fuel).found,
        );
    }
}

/// Every path that a command leads to was opened, the paths are sorted, and what was found before
/// stays.
pub proof fn law_only_opened_paths_are_found(
    w: WorldModel,
    found: DiscoveryModel,
    raw: Seq<char>,
    mode: ExecAllowMode,
)
    requires
        sound(w, found.paths),
    ensures
        sound(w, follow::top_followed(w, found, raw, mode).found.paths),
        forall|p: Seq<u8>| #[trigger]
            found.paths.contains(p) ==> follow::top_followed(
                w,
                found,
                raw,
                mode,
            ).found.paths.contains(p),
{
    let start = DiscoveryModel { visited: Seq::empty(), ..found };
    lemma_name_grows(w, start, raw, mode, w.context, VISIT_LIMIT as nat);
}

/// A command that is not there is left alone: nothing is found for it, and that is no failure.
pub proof fn law_missing_command_is_no_failure(
    w: WorldModel,
    found: DiscoveryModel,
    raw: Seq<char>,
    errno: i32,
    text: Seq<char>,
)
    requires
        raw.contains('/'),
        w.knows(QuestionModel::Look(vstd::utf8::encode_utf8(raw))) == Some(
            ReplyModel::Failed(errno, text),
        ),
        discovery::unavailable(errno),
    ensures
        follow::top_followed(w, found, raw, ExecAllowMode::Auto).outcome is Done,
        follow::top_followed(w, found, raw, ExecAllowMode::Auto).found.paths == found.paths,
{
}

// ---------------------------------------------------------------------------
// The limit
// ---------------------------------------------------------------------------

/// Whether there is enough fuel to reach the limit of visits.
pub open spec fn enough(found: DiscoveryModel, fuel: nat) -> bool {
    fuel + found.visited.len() >= VISIT_LIMIT
}

proof fn lemma_file_fuel(
    w: WorldModel,
    found: DiscoveryModel,
    file: ResolvedModel,
    mode: ExecAllowMode,
    ctx: ContextModel,
    fuel: nat,
    more: nat,
)
    requires
        enough(found, fuel),
        enough(found, more),
    ensures
        follow::file_followed(w, found, file, mode, ctx, fuel) == follow::file_followed(
            w,
            found,
            file,
            mode,
            ctx,
            more,
        ),
    decreases fuel, 0int, 0int,
{
    let there = DiscoveryModel { visited: found.visited.push((file.path, ctx)), ..found };
    let kept = DiscoveryModel { paths: facts::with_path(there.paths, file.path), ..there };
    if there.visited.len() <= VISIT_LIMIT {
        let detected = if file.facts.runnable() {
            discovery::interpreters(w, file.path, ctx)
        } else {
            FindModel::Found(Seq::empty())
        };
        if let FindModel::Found(list) = detected {
            lemma_all_fuel(w, kept, list, 0, mode, ctx, (fuel - 1) as nat, (more - 1) as nat);
        }
    }
}

proof fn lemma_all_fuel(
    w: WorldModel,
    found: DiscoveryModel,
    list: Seq<InterpreterModel>,
    from: int,
    mode: ExecAllowMode,
    ctx: ContextModel,
    fuel: nat,
    more: nat,
)
    requires
        enough(found, fuel),
        enough(found, more),
    ensures
        follow::all_followed(w, found, list, from, mode, ctx, fuel) == follow::all_followed(
            w,
            found,
            list,
            from,
            mode,
            ctx,
            more,
        ),
    decreases fuel, 9int, list.len() - from,
{
    if 0 <= from < list.len() {
        let after = follow::interpreter_followed(w, found, list[from], mode, ctx, fuel);
        lemma_interpreter_fuel(w, found, list[from], mode, ctx, fuel, more);
        lemma_interpreter_grows(w, found, list[from], mode, ctx, fuel);
        if after.outcome is Done {
            lemma_all_fuel(w, after.found, list, from + 1, mode, ctx, fuel, more);
        }
    }
}

proof fn lemma_interpreter_fuel(
    w: WorldModel,
    found: DiscoveryModel,
    interpreter: InterpreterModel,
    mode: ExecAllowMode,
    ctx: ContextModel,
    fuel: nat,
    more: nat,
)
    requires
        enough(found, fuel),
        enough(found, more),
    ensures
        follow::interpreter_followed(w, found, interpreter, mode, ctx, fuel)
            == follow::interpreter_followed(w, found, interpreter, mode, ctx, more),
    decreases fuel, follow::rank(interpreter), 0int,
{
    match interpreter {
        InterpreterModel::Candidate(path) => {
            lemma_candidate_fuel(w, found, path, None, mode, ctx, fuel, more);
        },
        InterpreterModel::ShebangCandidate { path, argument } => {
            lemma_candidate_fuel(w, found, path, Some(argument), mode, ctx, fuel, more);
        },
        InterpreterModel::SearchCandidates(paths) => {
            lemma_search_fuel(w, found, paths, 0, ctx, fuel, more);
        },
        InterpreterModel::EnvCommand(plan) => {
            lemma_env_fuel(w, found, plan, mode, ctx, fuel, more);
        },
        _ => {},
    }
}

proof fn lemma_env_fuel(
    w: WorldModel,
    found: DiscoveryModel,
    plan: PlanModel,
    mode: ExecAllowMode,
    ctx: ContextModel,
    fuel: nat,
    more: nat,
)
    requires
        enough(found, fuel),
        enough(found, more),
    ensures
        follow::env_followed(w, found, plan, mode, ctx, fuel) == follow::env_followed(
            w,
            found,
            plan,
            mode,
            ctx,
            more,
        ),
    decreases fuel, 5int, 0int,
{
    if let FindModel::Found(Some(c)) = follow::env_target(w, plan, ctx) {
        match follow::target_interpreter(w, c) {
            FindModel::Found(InterpreterModel::Candidate(path)) => {
                lemma_candidate_fuel(w, found, path, None, mode, c.context, fuel, more);
            },
            FindModel::Found(InterpreterModel::SearchCandidates(paths)) => {
                lemma_search_fuel(w, found, paths, 0, c.context, fuel, more);
            },
            _ => {},
        }
    }
}

proof fn lemma_argument_fuel(
    w: WorldModel,
    found: DiscoveryModel,
    argument: ArgumentModel,
    mode: ExecAllowMode,
    ctx: ContextModel,
    fuel: nat,
    more: nat,
)
    requires
        enough(found, fuel),
        enough(found, more),
    ensures
        follow::argument_followed(w, found, argument, mode, ctx, fuel)
            == follow::argument_followed(w, found, argument, mode, ctx, more),
    decreases fuel, 6int, 0int,
{
    if let ArgumentModel::Utf8(text) = argument {
        if let Ok(Some(plan)) = env_command::shebang_plan(text, ctx.environment, w.realtime) {
            lemma_env_fuel(w, found, plan, mode, ctx, fuel, more);
        }
    }
}

proof fn lemma_candidate_fuel(
    w: WorldModel,
    found: DiscoveryModel,
    path: Seq<u8>,
    argument: Option<ArgumentModel>,
    mode: ExecAllowMode,
    ctx: ContextModel,
    fuel: nat,
    more: nat,
)
    requires
        enough(found, fuel),
        enough(found, more),
    ensures
        follow::candidate_followed(w, found, path, argument, mode, ctx, fuel)
            == follow::candidate_followed(w, found, path, argument, mode, ctx, more),
    decreases
            fuel,
            if argument is Some {
                7int
            } else {
                3int
            },
            0int,
{
    if !path.contains(0x2f) {
        lemma_name_fuel(w, found, vstd::utf8::decode_utf8(path), mode, ctx, fuel, more);
    } else if let FindModel::Found(Some(file)) = discovery::resolved_path(
        w,
        ctx.path(path),
        mode,
    ) {
        lemma_resolved_opened(w, ctx.path(path));
        lemma_file_fuel(w, found, file, mode, ctx, fuel, more);
        lemma_file_grows(w, found, file, mode, ctx, fuel);
        let after = follow::file_followed(w, found, file, mode, ctx, fuel);
        if let Some(a) = argument {
            lemma_argument_fuel(w, after.found, a, mode, ctx, fuel, more);
        }
    }
}

proof fn lemma_name_fuel(
    w: WorldModel,
    found: DiscoveryModel,
    raw: Seq<char>,
    mode: ExecAllowMode,
    ctx: ContextModel,
    fuel: nat,
    more: nat,
)
    requires
        enough(found, fuel),
        enough(found, more),
    ensures
        follow::name_followed(w, found, raw, mode, ctx, fuel) == follow::name_followed(
            w,
            found,
            raw,
            mode,
            ctx,
            more,
        ),
    decreases fuel, 2int, 0int,
{
    let bytes = vstd::utf8::encode_utf8(raw);
    if !raw.contains('/') {
        if let FindModel::Found(paths) = discovery::commands_in(w, raw, ctx) {
            lemma_search_fuel(w, found, paths, 0, ctx, fuel, more);
        }
    } else if mode is Strict {
        if let FindModel::Found(file) = discovery::resolved(w, bytes) {
            lemma_file_fuel(w, found, file, mode, ctx, fuel, more);
        }
    } else if let FindModel::Found(Some(file)) = discovery::main_file(w, bytes) {
        lemma_file_fuel(w, found, file, mode, ctx, fuel, more);
    }
}

proof fn lemma_search_fuel(
    w: WorldModel,
    found: DiscoveryModel,
    paths: Seq<Seq<u8>>,
    from: int,
    ctx: ContextModel,
    fuel: nat,
    more: nat,
)
    requires
        enough(found, fuel),
        enough(found, more),
    ensures
        follow::search_followed(w, found, paths, from, ctx, fuel) == follow::search_followed(
            w,
            found,
            paths,
            from,
            ctx,
            more,
        ),
    decreases fuel, 1int, paths.len() - from,
{
    if 0 <= from < paths.len() {
        let tried = discovery::resolved_path(w, paths[from], ExecAllowMode::Auto);
        lemma_resolved_opened(w, paths[from]);
        let after = match tried {
            FindModel::Need(q) => follow::need(found, q),
            FindModel::Fail(e) => follow::broken(found, e),
            FindModel::Found(None) => follow::done(found),
            FindModel::Found(Some(file)) => if file.facts.runnable() {
                follow::file_followed(w, found, file, ExecAllowMode::Auto, ctx, fuel)
            } else {
                follow::done(found)
            },
        };
        if let FindModel::Found(Some(file)) = tried {
            lemma_file_fuel(w, found, file, ExecAllowMode::Auto, ctx, fuel, more);
            lemma_file_grows(w, found, file, ExecAllowMode::Auto, ctx, fuel);
        }
        let next = match after.outcome {
            OutcomeModel::Failed(e) => follow::noted(
                after.found,
                "skip interpreter discovery for PATH candidate '"@,
                paths[from],
                e,
            ),
            _ => after.found,
        };
        lemma_search_fuel(w, next, paths, from + 1, ctx, fuel, more);
    }
}

/// Nothing but the limit of visits ends the following of files that lead to others: with more
/// fuel the outcome is the same.
pub proof fn law_only_the_visit_limit_counts(
    w: WorldModel,
    found: DiscoveryModel,
    raw: Seq<char>,
    mode: ExecAllowMode,
    fuel: nat,
)
    requires
        fuel >= VISIT_LIMIT,
    ensures
        follow::top_followed(w, found, raw, mode) == follow::name_followed(
            w,
            DiscoveryModel { visited: Seq::empty(), ..found },
            raw,
            mode,
            w.context,
            fuel,
        ),
{
    let start = DiscoveryModel { visited: Seq::empty(), ..found };
    lemma_name_fuel(w, start, raw, mode, w.context, VISIT_LIMIT as nat, fuel);
}

// ---------------------------------------------------------------------------
// What is followed is found
// ---------------------------------------------------------------------------

/// What was found before stays.
pub proof fn law_found_paths_stay(
    w: WorldModel,
    found: DiscoveryModel,
    raw: Seq<char>,
    mode: ExecAllowMode,
)
    ensures
        forall|p: Seq<u8>| #[trigger]
            found.paths.contains(p) ==> follow::top_followed(
                w,
                found,
                raw,
                mode,
            ).found.paths.contains(p),
{
    let start = DiscoveryModel { visited: Seq::empty(), ..found };
    lemma_name_grows(w, start, raw, mode, w.context, VISIT_LIMIT as nat);
}

proof fn lemma_file_is_found(
    w: WorldModel,
    found: DiscoveryModel,
    file: ResolvedModel,
    mode: ExecAllowMode,
    ctx: ContextModel,
    fuel: nat,
)
    requires
        !found.visited.contains((file.path, ctx)),
        found.visited.len() < VISIT_LIMIT,
        fuel > 0,
        follow::file_followed(w, found, file, mode, ctx, fuel).outcome is Done,
    ensures
        follow::file_followed(w, found, file, mode, ctx, fuel).found.paths.contains(file.path),
{
    let there = DiscoveryModel { visited: found.visited.push((file.path, ctx)), ..found };
    let kept = DiscoveryModel { paths: facts::with_path(there.paths, file.path), ..there };
    lemma_paths_with_one_more(there.paths, file.path);
    let detected = if file.facts.runnable() {
        discovery::interpreters(w, file.path, ctx)
    } else {
        FindModel::Found(Seq::empty())
    };
    if let FindModel::Found(list) = detected {
        lemma_all_grow(w, kept, list, 0, mode, ctx, (fuel - 1) as nat);
    }
}

/// Adding a path loses none.
pub proof fn lemma_paths_with_one_more(paths: Seq<Seq<u8>>, p: Seq<u8>)
    ensures
        facts::with_path(paths, p).contains(p),
        forall|x: Seq<u8>| #[trigger]
            paths.contains(x) ==> facts::with_path(paths, p).contains(x),
{
    let after = facts::with_path(paths, p);
    let k = crate::text::first_where(paths, facts::not_before(p));
    crate::text::lemma_first_where_bounds(paths, facts::not_before(p));
    assert(after[k] == p);
    assert forall|x: Seq<u8>| #[trigger] paths.contains(x) implies after.contains(x) by {
        let i = choose|i: int| 0 <= i < paths.len() && paths[i] == x;
        if k < paths.len() && paths[k] == p || i < k {
            assert(after[i] == x);
        } else {
            assert(after[i + 1] == x);
        }
    }
}

/// A file that a path leads to is among what is found for it, where nothing is wrong.
pub proof fn law_followed_file_is_found(
    w: WorldModel,
    found: DiscoveryModel,
    raw: Seq<char>,
    mode: ExecAllowMode,
    file: ResolvedModel,
)
    requires
        raw.contains('/'),
        mode is Strict ==> discovery::resolved(w, vstd::utf8::encode_utf8(raw)) == FindModel::<
            ResolvedModel,
        >::Found(file),
        mode is Auto ==> discovery::main_file(w, vstd::utf8::encode_utf8(raw)) == FindModel::<
            Option<ResolvedModel>,
        >::Found(Some(file)),
        follow::top_followed(w, found, raw, mode).outcome is Done,
    ensures
        follow::top_followed(w, found, raw, mode).found.paths.contains(file.path),
{
    let start = DiscoveryModel { visited: Seq::empty(), ..found };
    lemma_file_is_found(w, start, file, mode, w.context, VISIT_LIMIT as nat);
}

/// So is the interpreter of a file that is allowed by its path, where it is the only one and is a
/// path itself, whatever was skipped further on.
pub proof fn law_interpreter_is_found(
    w: WorldModel,
    found: DiscoveryModel,
    raw: Seq<char>,
    file: ResolvedModel,
    interpreter: Seq<u8>,
    runner: ResolvedModel,
)
    requires
        raw.contains('/'),
        discovery::resolved(w, vstd::utf8::encode_utf8(raw)) == FindModel::<ResolvedModel>::Found(
            file,
        ),
        file.facts.runnable(),
        discovery::interpreters(w, file.path, w.context) == FindModel::<
            Seq<InterpreterModel>,
        >::Found(seq![InterpreterModel::Candidate(interpreter)]),
        interpreter.contains(0x2f),
        discovery::resolved(w, w.context.path(interpreter)) == FindModel::<ResolvedModel>::Found(
            runner,
        ),
        follow::top_followed(w, found, raw, ExecAllowMode::Strict).outcome is Done,
    ensures
        follow::top_followed(w, found, raw, ExecAllowMode::Strict).found.paths.contains(
            runner.path,
        ),
{
    let mode = ExecAllowMode::Strict;
    let ctx = w.context;
    let fuel = VISIT_LIMIT as nat;
    let less = (fuel - 1) as nat;
    let start = DiscoveryModel { visited: Seq::empty(), ..found };
    let there = DiscoveryModel { visited: start.visited.push((file.path, ctx)), ..start };
    let kept = DiscoveryModel { paths: facts::with_path(there.paths, file.path), ..there };
    let list = seq![InterpreterModel::Candidate(interpreter)];
    lemma_paths_with_one_more(there.paths, file.path);
    let after = follow::interpreter_followed(w, kept, list[0], mode, ctx, less);
    assert(after == follow::candidate_followed(w, kept, interpreter, None, mode, ctx, less));
    reveal_with_fuel(follow::all_followed, 2);
    assert(follow::all_followed(w, kept, list, 0, mode, ctx, less).found == after.found);
    assert(kept.visited.len() == 1);
    if kept.visited.contains((runner.path, ctx)) {
        assert(kept.visited[0] == (file.path, ctx));
        assert(runner.path == file.path);
        lemma_visited_file_is_left_alone(w, kept, runner, mode, ctx, less);
    } else {
        lemma_file_is_found(w, kept, runner, mode, ctx, less);
    }
}

proof fn lemma_visited_file_is_left_alone(
    w: WorldModel,
    found: DiscoveryModel,
    file: ResolvedModel,
    mode: ExecAllowMode,
    ctx: ContextModel,
    fuel: nat,
)
    requires
        found.visited.contains((file.path, ctx)),
    ensures
        follow::file_followed(w, found, file, mode, ctx, fuel).found == found,
{
}

} // verus!
