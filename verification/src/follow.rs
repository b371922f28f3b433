//! Follows a command to everything that has to be executable for it to run.

use vstd::prelude::*;

use crate::context::{self, ContextModel, ExecContext};
use crate::discovery::{
    self, detect_exec_interpreters_in_context, resolve_exec_allow_path_from_path,
    resolve_main_exec_allow_path, resolved_exec_allow_path_from_candidate, ExecAllowMode, Resolved,
    ResolvedModel, VISIT_LIMIT,
};
use crate::env_command::{
    self, env_chdir, env_shebang_plan, finish_env_shebang_command, CommandModel, EnvPlan,
    EnvShebangCommand, PlanModel,
};
use crate::error::{self, Error, ErrorModel};
use crate::facts::{
    self, add_sorted, quote_path, Find, FindModel, Question, QuestionModel, Reply, ReplyModel,
    World, WorldModel,
};
use crate::report;
use crate::shebang::{
    self, ArgumentModel, ExecInterpreter, InterpreterModel, ShebangArgument, INVALID_ENV_ARGUMENT,
};
use crate::text::{self, chars_of, copy_bytes, escape_str, has_char, same_bytes, utf8_text};

verus! {

// ---------------------------------------------------------------------------
// What was found
// ---------------------------------------------------------------------------

/// A file that was followed, in a context.
#[derive(Debug)]
pub struct Visit {
    pub path: Vec<u8>,
    pub context: ExecContext,
}

/// What was found so far.
#[derive(Debug)]
pub struct Discovery {
    /// The files and directories that have to be executable, sorted.
    pub paths: Vec<Vec<u8>>,
    pub visited: Vec<Visit>,
    /// What was skipped, and why.
    pub notes: Vec<String>,
}

/// What a [`Discovery`] holds.
pub struct DiscoveryModel {
    pub paths: Seq<Seq<u8>>,
    pub visited: Seq<(Seq<u8>, ContextModel)>,
    pub notes: Seq<Seq<char>>,
}

pub open spec fn view_visits(v: Seq<Visit>) -> Seq<(Seq<u8>, ContextModel)> {
    Seq::new(v.len(), |i: int| (v[i].path@, v[i].context@))
}

impl View for Discovery {
    type V = DiscoveryModel;

    open spec fn view(&self) -> DiscoveryModel {
        DiscoveryModel {
            paths: context::view_paths(self.paths@),
            visited: view_visits(self.visited@),
            notes: text::texts(self.notes@),
        }
    }
}

/// What came of following something.
#[derive(Debug)]
pub enum Outcome {
    Done,
    Failed(Error),
    Need(Question),
}

/// What an [`Outcome`] is.
pub enum OutcomeModel {
    Done,
    Failed(ErrorModel),
    Need(QuestionModel),
}

impl View for Outcome {
    type V = OutcomeModel;

    open spec fn view(&self) -> OutcomeModel {
        match *self {
            Outcome::Done => OutcomeModel::Done,
            Outcome::Failed(e) => OutcomeModel::Failed(e@),
            Outcome::Need(q) => OutcomeModel::Need(q@),
        }
    }
}

/// What is known after a step, and what came of it.
pub struct Followed {
    pub found: DiscoveryModel,
    pub outcome: OutcomeModel,
}

pub open spec fn done(found: DiscoveryModel) -> Followed {
    Followed { found, outcome: OutcomeModel::Done }
}

pub open spec fn failed(found: DiscoveryModel, message: Seq<char>) -> Followed {
    Followed { found, outcome: OutcomeModel::Failed(error::failure(message)) }
}

pub open spec fn broken(found: DiscoveryModel, e: ErrorModel) -> Followed {
    Followed { found, outcome: OutcomeModel::Failed(e) }
}

pub open spec fn need(found: DiscoveryModel, q: QuestionModel) -> Followed {
    Followed { found, outcome: OutcomeModel::Need(q) }
}

/// A note that something was skipped.
pub open spec fn noted(
    found: DiscoveryModel,
    before: Seq<char>,
    path: Seq<u8>,
    e: ErrorModel,
) -> DiscoveryModel {
    DiscoveryModel {
        notes: found.notes.push(before + report::shown_path(path) + "': "@ + e.messages[0]),
        ..found
    }
}

/// What is said where too much has to be followed.
pub open spec fn limit_text() -> Seq<char> {
    "exec interpreter discovery exceeds 256 file/context pairs"@
}

impl Discovery {
    /// Nothing was found yet.
    pub fn new() -> (r: Self)
        ensures
            r@ == empty(),
    {
        let r = Discovery { paths: Vec::new(), visited: Vec::new(), notes: Vec::new() };
        proof {
            assert(context::view_paths(r.paths@) =~= Seq::empty());
            assert(view_visits(r.visited@) =~= Seq::empty());
            assert(text::texts(r.notes@) =~= Seq::empty());
        }
        r
    }

    fn add_path(&mut self, path: &[u8])
        ensures
            final(self)@ == (DiscoveryModel {
                paths: facts::with_path(old(self)@.paths, path@),
                ..old(self)@
            }),
    {
        add_sorted(&mut self.paths, path);
    }

    fn note(&mut self, before: &str, path: &[u8], e: &Error)
        ensures
            final(self)@ == noted(old(self)@, before@, path@, e@),
    {
        let mut text = quote_path(before, path, "': ");
        text.append(e.message());
        let ghost said = text@;
        self.notes.push(text);
        proof {
            assert(text::texts(self.notes@) =~= text::texts(old(self).notes@).push(said));
            assert(said =~= before@ + report::shown_path(path@) + "': "@ + e@.messages[0]);
        }
    }

    /// Whether a file was followed in a context.
    fn has_visited(&self, path: &[u8], ctx: &ExecContext) -> (r: bool)
        ensures
            r == self@.visited.contains((path@, ctx@)),
    {
        let mut i: usize = 0;
        while i < self.visited.len()
            invariant
                i <= self.visited@.len(),
                forall|j: int|
                    0 <= j < i ==> (#[trigger] view_visits(self.visited@)[j]) != (path@, ctx@),
            decreases self.visited@.len() - i,
        {
            if same_bytes(self.visited[i].path.as_slice(), path) && self.visited[i].context.same(
                ctx,
            ) {
                assert(view_visits(self.visited@)[i as int] == (path@, ctx@));
                return true;
            }
            i = i + 1;
        }
        false
    }

    fn visit(&mut self, path: &[u8], ctx: &ExecContext)
        ensures
            final(self)@ == (DiscoveryModel {
                visited: old(self)@.visited.push((path@, ctx@)),
                ..old(self)@
            }),
            final(self).visited@.len() == old(self).visited@.len() + 1,
    {
        let entry = Visit { path: copy_bytes(path), context: ctx.duplicate() };
        self.visited.push(entry);
        proof {
            assert(view_visits(self.visited@) =~= view_visits(old(self).visited@).push(
                (path@, ctx@),
            ));
        }
    }
}

pub open spec fn empty() -> DiscoveryModel {
    DiscoveryModel { paths: Seq::empty(), visited: Seq::empty(), notes: Seq::empty() }
}

// ---------------------------------------------------------------------------
// Commands of `env`
// ---------------------------------------------------------------------------

/// What `env` is asked to run, with the directory that it changes to. Nothing, where that is not
/// there.
pub open spec fn env_target(w: WorldModel, plan: PlanModel, ctx: ContextModel) -> FindModel<
    Option<CommandModel>,
> {
    match env_command::chdir_path(plan, ctx) {
        None => FindModel::Found(env_command::planned_command(plan, ctx, None)),
        Some(path) => match w.knows(QuestionModel::Directory(path)) {
            Some(ReplyModel::Directory(d)) => FindModel::Found(
                env_command::planned_command(plan, ctx, d),
            ),
            _ => FindModel::Need(QuestionModel::Directory(path)),
        },
    }
}

pub open spec fn find_command(r: Find<Option<EnvShebangCommand>>) -> FindModel<
    Option<CommandModel>,
> {
    match r {
        Find::Need(q) => FindModel::Need(q@),
        Find::Fail(e) => FindModel::Fail(e@),
        Find::Found(Some(x)) => FindModel::Found(Some(x@)),
        Find::Found(None) => FindModel::Found(None),
    }
}

/// What `env` is asked to run, with the directory that it changes to.
pub fn find_env_target(w: &World, plan: &EnvPlan, ctx: &ExecContext) -> (r: Find<
    Option<EnvShebangCommand>,
>)
    ensures
        find_command(r) == env_target(w@, plan@, ctx@),
{
    let directory = match env_chdir(plan, ctx) {
        None => None,
        Some(path) => {
            let question = Question::Directory(path);
            match w.find(&question) {
                Some(Reply::Directory(Some(d))) => Some(copy_bytes(d.as_slice())),
                Some(Reply::Directory(None)) => None,
                _ => return Find::Need(question),
            }
        },
    };
    Find::Found(finish_env_shebang_command(plan, ctx, directory))
}

/// What a command of `env` stands for: a path, the files that it may be looked up as, or what the
/// caller would look up.
pub open spec fn target_interpreter(w: WorldModel, c: CommandModel) -> FindModel<InterpreterModel> {
    let bytes = vstd::utf8::encode_utf8(c.command);
    if c.command.contains('/') {
        FindModel::Found(InterpreterModel::Candidate(c.context.path(bytes)))
    } else if c.search_modified {
        match discovery::commands_in(w, c.command, c.context) {
            FindModel::Need(q) => FindModel::Need(q),
            FindModel::Fail(e) => FindModel::Fail(e),
            FindModel::Found(paths) => if paths.len() > 0 {
                FindModel::Found(InterpreterModel::SearchCandidates(paths))
            } else {
                FindModel::Found(InterpreterModel::Missing { command: c.command })
            },
        }
    } else {
        FindModel::Found(InterpreterModel::Candidate(bytes))
    }
}

pub open spec fn find_one(r: Find<ExecInterpreter>) -> FindModel<InterpreterModel> {
    match r {
        Find::Need(q) => FindModel::Need(q@),
        Find::Fail(e) => FindModel::Fail(e@),
        Find::Found(x) => FindModel::Found(x@),
    }
}

fn text_has_slash(s: &str) -> (r: bool)
    ensures
        r == s@.contains('/'),
{
    has_char(chars_of(s).as_slice(), '/')
}

/// What a command of `env` stands for.
pub fn resolve(w: &World, c: &EnvShebangCommand) -> (r: Find<ExecInterpreter>)
    ensures
        find_one(r) == target_interpreter(w@, c@),
{
    if text_has_slash(c.command.as_str()) {
        return Find::Found(
            ExecInterpreter::Candidate(c.context.path(c.command.as_str().as_bytes())),
        );
    }
    if c.search_modified {
        return match discovery::find_commands(w, c.command.as_str(), &c.context) {
            Find::Need(q) => Find::Need(q),
            Find::Fail(e) => Find::Fail(e),
            Find::Found(paths) => {
                if paths.len() > 0 {
                    Find::Found(ExecInterpreter::SearchCandidates(paths))
                } else {
                    Find::Found(ExecInterpreter::Missing { command: c.command.clone() })
                }
            },
        };
    }
    Find::Found(ExecInterpreter::Candidate(copy_bytes(c.command.as_str().as_bytes())))
}

// ---------------------------------------------------------------------------
// Following
// ---------------------------------------------------------------------------

/// How far an interpreter is from a file that is opened.
pub open spec fn rank(i: InterpreterModel) -> int {
    match i {
        InterpreterModel::ShebangCandidate { path, argument } => 8,
        InterpreterModel::EnvCommand(_) => 6,
        _ => 4,
    }
}

/// A file is followed: it has to be executable, and so has what runs it. A file that was followed
/// in the same context is not followed again, and there is an end to it all. Each file that is
/// followed on the way to another one counts, so `fuel` never ends before the limit is reached.
pub open spec fn file_followed(
    w: WorldModel,
    found: DiscoveryModel,
    file: ResolvedModel,
    mode: ExecAllowMode,
    ctx: ContextModel,
    fuel: nat,
) -> Followed
    decreases fuel, 0int, 0int,
{
    let there = DiscoveryModel { visited: found.visited.push((file.path, ctx)), ..found };
    if found.visited.contains((file.path, ctx)) {
        done(found)
    } else if there.visited.len() > VISIT_LIMIT || fuel == 0 {
        failed(there, limit_text())
    } else {
        let detected = if file.facts.runnable() {
            discovery::interpreters(w, file.path, ctx)
        } else {
            FindModel::Found(Seq::empty())
        };
        let kept = DiscoveryModel { paths: facts::with_path(there.paths, file.path), ..there };
        let after = match detected {
            FindModel::Need(q) => need(there, q),
            FindModel::Fail(e) => broken(kept, e),
            FindModel::Found(list) => all_followed(
                w,
                kept,
                list,
                0,
                mode,
                ctx,
                (fuel - 1) as nat,
            ),
        };
        match after.outcome {
            OutcomeModel::Failed(e) if mode is Auto => done(
                noted(
                    after.found,
                    "skip interpreter discovery for executable '"@,
                    file.path,
                    e,
                ),
            ),
            _ => after,
        }
    }
}

/// Interpreters are followed, up to the first failure.
pub open spec fn all_followed(
    w: WorldModel,
    found: DiscoveryModel,
    list: Seq<InterpreterModel>,
    from: int,
    mode: ExecAllowMode,
    ctx: ContextModel,
    fuel: nat,
) -> Followed
    decreases fuel, 9int, list.len() - from,
{
    if from < 0 || from >= list.len() {
        done(found)
    } else {
        let after = interpreter_followed(w, found, list[from], mode, ctx, fuel);
        if after.outcome is Done {
            all_followed(w, after.found, list, from + 1, mode, ctx, fuel)
        } else {
            after
        }
    }
}

/// An interpreter is followed.
pub open spec fn interpreter_followed(
    w: WorldModel,
    found: DiscoveryModel,
    interpreter: InterpreterModel,
    mode: ExecAllowMode,
    ctx: ContextModel,
    fuel: nat,
) -> Followed
    decreases fuel, rank(interpreter), 0int,
{
    match interpreter {
        InterpreterModel::Candidate(path) => candidate_followed(
            w,
            found,
            path,
            None,
            mode,
            ctx,
            fuel,
        ),
        InterpreterModel::ShebangCandidate { path, argument } => candidate_followed(
            w,
            found,
            path,
            Some(argument),
            mode,
            ctx,
            fuel,
        ),
        InterpreterModel::SearchCandidates(paths) => search_followed(w, found, paths, 0, ctx, fuel),
        InterpreterModel::EnvCommand(plan) => env_followed(w, found, plan, mode, ctx, fuel),
        InterpreterModel::Missing { command } => if mode is Auto {
            done(found)
        } else {
            failed(
                found,
                "resolve exec allow path '"@ + text::escape(command) + "' from shebang PATH"@,
            )
        },
        InterpreterModel::Unresolved { reason } => if mode is Auto {
            done(found)
        } else {
            failed(found, reason)
        },
    }
}

/// What `env` is asked to run is followed, in the context that `env` runs it in.
pub open spec fn env_followed(
    w: WorldModel,
    found: DiscoveryModel,
    plan: PlanModel,
    mode: ExecAllowMode,
    ctx: ContextModel,
    fuel: nat,
) -> Followed
    decreases fuel, 5int, 0int,
{
    match env_target(w, plan, ctx) {
        FindModel::Need(q) => need(found, q),
        FindModel::Fail(e) => broken(found, e),
        FindModel::Found(None) => done(found),
        FindModel::Found(Some(c)) => match target_interpreter(w, c) {
            FindModel::Need(q) => need(found, q),
            FindModel::Fail(e) => broken(found, e),
            FindModel::Found(InterpreterModel::Candidate(path)) => candidate_followed(
                w,
                found,
                path,
                None,
                mode,
                c.context,
                fuel,
            ),
            FindModel::Found(InterpreterModel::SearchCandidates(paths)) => search_followed(
                w,
                found,
                paths,
                0,
                c.context,
                fuel,
            ),
            FindModel::Found(_) => if mode is Auto {
                done(found)
            } else {
                failed(
                    found,
                    "resolve exec allow path '"@ + text::escape(c.command)
                        + "' from shebang PATH"@,
                )
            },
        },
    }
}

/// The argument of an interpreter that turned out to be `env` is followed.
pub open spec fn argument_followed(
    w: WorldModel,
    found: DiscoveryModel,
    argument: ArgumentModel,
    mode: ExecAllowMode,
    ctx: ContextModel,
    fuel: nat,
) -> Followed
    decreases fuel, 6int, 0int,
{
    match argument {
        ArgumentModel::Absent => done(found),
        ArgumentModel::InvalidUtf8 => failed(found, INVALID_ENV_ARGUMENT@),
        ArgumentModel::Utf8(text) => match env_command::shebang_plan(
            text,
            ctx.environment,
            w.realtime,
        ) {
            Err(reason) => failed(found, reason),
            Ok(None) => done(found),
            Ok(Some(plan)) => env_followed(w, found, plan, mode, ctx, fuel),
        },
    }
}

/// A path that has to be an executable file is followed. Where it is `env`, by whatever name, so
/// is its argument.
pub open spec fn candidate_followed(
    w: WorldModel,
    found: DiscoveryModel,
    path: Seq<u8>,
    argument: Option<ArgumentModel>,
    mode: ExecAllowMode,
    ctx: ContextModel,
    fuel: nat,
) -> Followed
    decreases
            fuel,
            if argument is Some {
                7int
            } else {
                3int
            },
            0int,
{
    if !path.contains(0x2f) {
        if vstd::utf8::valid_utf8(path) {
            name_followed(w, found, vstd::utf8::decode_utf8(path), mode, ctx, fuel)
        } else if mode is Auto {
            done(found)
        } else {
            failed(found, "resolve exec allow path from non-Unicode PATH command"@)
        }
    } else {
        match discovery::resolved_path(w, ctx.path(path), mode) {
            FindModel::Need(q) => need(found, q),
            FindModel::Fail(e) => broken(found, e),
            FindModel::Found(None) => done(found),
            FindModel::Found(Some(file)) => if !file.facts.runnable() {
                if mode is Auto {
                    done(found)
                } else {
                    failed(
                        found,
                        "exec interpreter path '"@ + report::shown_path(file.path)
                            + "' is not an executable file"@,
                    )
                }
            } else {
                let after = file_followed(w, found, file, mode, ctx, fuel);
                if after.outcome is Done && file.env && argument is Some {
                    argument_followed(w, after.found, argument->0, mode, ctx, fuel)
                } else {
                    after
                }
            },
        }
    }
}

/// A command is followed: a path as it is, and a name as the files that it may be looked up as.
pub open spec fn name_followed(
    w: WorldModel,
    found: DiscoveryModel,
    raw: Seq<char>,
    mode: ExecAllowMode,
    ctx: ContextModel,
    fuel: nat,
) -> Followed
    decreases fuel, 2int, 0int,
{
    let bytes = vstd::utf8::encode_utf8(raw);
    if !raw.contains('/') {
        match discovery::commands_in(w, raw, ctx) {
            FindModel::Need(q) => need(found, q),
            FindModel::Fail(e) => broken(found, e),
            FindModel::Found(paths) => if paths.len() == 0 && mode is Strict {
                failed(
                    found,
                    "resolve exec allow path '"@ + text::escape(raw) + "' from PATH"@,
                )
            } else {
                search_followed(w, found, paths, 0, ctx, fuel)
            },
        }
    } else if mode is Strict {
        match discovery::resolved(w, bytes) {
            FindModel::Need(q) => need(found, q),
            FindModel::Fail(e) => broken(found, e),
            FindModel::Found(file) => file_followed(w, found, file, mode, ctx, fuel),
        }
    } else {
        match discovery::main_file(w, bytes) {
            FindModel::Need(q) => need(found, q),
            FindModel::Fail(e) => broken(found, e),
            FindModel::Found(None) => done(found),
            FindModel::Found(Some(file)) => file_followed(w, found, file, mode, ctx, fuel),
        }
    }
}

/// Files that a command may be looked up as are followed. One that cannot be followed does not
/// stand in the way of another.
pub open spec fn search_followed(
    w: WorldModel,
    found: DiscoveryModel,
    paths: Seq<Seq<u8>>,
    from: int,
    ctx: ContextModel,
    fuel: nat,
) -> Followed
    decreases fuel, 1int, paths.len() - from,
{
    if from < 0 || from >= paths.len() {
        done(found)
    } else {
        let after = match discovery::resolved_path(w, paths[from], ExecAllowMode::Auto) {
            FindModel::Need(q) => need(found, q),
            FindModel::Fail(e) => broken(found, e),
            FindModel::Found(None) => done(found),
            FindModel::Found(Some(file)) => if file.facts.runnable() {
                file_followed(w, found, file, ExecAllowMode::Auto, ctx, fuel)
            } else {
                done(found)
            },
        };
        match after.outcome {
            OutcomeModel::Need(q) => after,
            OutcomeModel::Done => search_followed(w, after.found, paths, from + 1, ctx, fuel),
            OutcomeModel::Failed(e) => search_followed(
                w,
                noted(
                    after.found,
                    "skip interpreter discovery for PATH candidate '"@,
                    paths[from],
                    e,
                ),
                paths,
                from + 1,
                ctx,
                fuel,
            ),
        }
    }
}

/// What a function did to what was found, and what it returned.
pub open spec fn followed(found: Discovery, outcome: Outcome) -> Followed {
    Followed { found: found@, outcome: outcome@ }
}

fn insert_resolved_exec_path(
    w: &World,
    found: &mut Discovery,
    file: &Resolved,
    mode: ExecAllowMode,
    ctx: &ExecContext,
    fuel: usize,
) -> (r: Outcome)
    ensures
        followed(*final(found), r) == file_followed(
            w@,
            old(found)@,
            file@,
            mode,
            ctx@,
            fuel as nat,
        ),
    decreases fuel, 0int, 0int,
{
    if found.has_visited(file.path.as_slice(), ctx) {
        return Outcome::Done;
    }
    found.visit(file.path.as_slice(), ctx);
    if found.visited.len() > VISIT_LIMIT || fuel == 0 {
        return Outcome::Failed(
            Error::msg("exec interpreter discovery exceeds 256 file/context pairs".to_owned()),
        );
    }
    let detected = if file.facts.is_executable_file() {
        detect_exec_interpreters_in_context(w, file.path.as_slice(), ctx)
    } else {
        let none: Vec<ExecInterpreter> = Vec::new();
        assert(shebang::view_interpreters(none@) =~= Seq::empty());
        Find::Found(none)
    };
    let outcome = match detected {
        Find::Need(q) => return Outcome::Need(q),
        Find::Fail(e) => {
            found.add_path(file.path.as_slice());
            Outcome::Failed(e)
        },
        Find::Found(list) => {
            found.add_path(file.path.as_slice());
            insert_all(w, found, &list, 0, mode, ctx, fuel - 1)
        },
    };
    match outcome {
        Outcome::Failed(e) => {
            if let ExecAllowMode::Auto = mode {
                found.note(
                    "skip interpreter discovery for executable '",
                    file.path.as_slice(),
                    &e,
                );
                Outcome::Done
            } else {
                Outcome::Failed(e)
            }
        },
        other => other,
    }
}

fn insert_all(
    w: &World,
    found: &mut Discovery,
    list: &Vec<ExecInterpreter>,
    from: usize,
    mode: ExecAllowMode,
    ctx: &ExecContext,
    fuel: usize,
) -> (r: Outcome)
    ensures
        followed(*final(found), r) == all_followed(
            w@,
            old(found)@,
            shebang::view_interpreters(list@),
            from as int,
            mode,
            ctx@,
            fuel as nat,
        ),
    decreases fuel, 9int, list.len() - from,
{
    if from >= list.len() {
        return Outcome::Done;
    }
    assert(shebang::view_interpreters(list@)[from as int] == list@[from as int]@);
    match insert_exec_interpreter(w, found, &list[from], mode, ctx, fuel) {
        Outcome::Done => insert_all(w, found, list, from + 1, mode, ctx, fuel),
        other => other,
    }
}

fn insert_exec_interpreter(
    w: &World,
    found: &mut Discovery,
    interpreter: &ExecInterpreter,
    mode: ExecAllowMode,
    ctx: &ExecContext,
    fuel: usize,
) -> (r: Outcome)
    ensures
        followed(*final(found), r) == interpreter_followed(
            w@,
            old(found)@,
            interpreter@,
            mode,
            ctx@,
            fuel as nat,
        ),
    decreases fuel, rank(interpreter@), 0int,
{
    match interpreter {
        ExecInterpreter::Candidate(path) => insert_landlock_exec_path_candidate(
            w,
            found,
            path.as_slice(),
            None,
            mode,
            ctx,
            fuel,
        ),
        ExecInterpreter::ShebangCandidate { path, argument } => insert_landlock_exec_path_candidate(
            w,
            found,
            path.as_slice(),
            Some(argument),
            mode,
            ctx,
            fuel,
        ),
        ExecInterpreter::SearchCandidates(paths) => insert_exec_search_candidates(
            w,
            found,
            paths,
            0,
            ctx,
            fuel,
        ),
        ExecInterpreter::EnvCommand(plan) => insert_env_command(w, found, plan, mode, ctx, fuel),
        ExecInterpreter::Missing { command } => missing(mode, command.as_str()),
        ExecInterpreter::Unresolved { reason } => match mode {
            ExecAllowMode::Auto => Outcome::Done,
            ExecAllowMode::Strict => Outcome::Failed(Error::msg((*reason).to_owned())),
        },
    }
}

fn missing(mode: ExecAllowMode, command: &str) -> (r: Outcome)
    ensures
        r@ == if mode is Auto {
            OutcomeModel::Done
        } else {
            OutcomeModel::Failed(
                error::failure(
                    "resolve exec allow path '"@ + text::escape(command@)
                        + "' from shebang PATH"@,
                ),
            )
        },
{
    match mode {
        ExecAllowMode::Auto => Outcome::Done,
        ExecAllowMode::Strict => {
            let mut message = "resolve exec allow path '".to_owned();
            message.append(escape_str(command).as_str());
            message.append("' from shebang PATH");
            Outcome::Failed(Error::msg(message))
        },
    }
}

fn insert_env_command(
    w: &World,
    found: &mut Discovery,
    plan: &EnvPlan,
    mode: ExecAllowMode,
    ctx: &ExecContext,
    fuel: usize,
) -> (r: Outcome)
    ensures
        followed(*final(found), r) == env_followed(
            w@,
            old(found)@,
            plan@,
            mode,
            ctx@,
            fuel as nat,
        ),
    decreases fuel, 5int, 0int,
{
    let command = match find_env_target(w, plan, ctx) {
        Find::Need(q) => return Outcome::Need(q),
        Find::Fail(e) => return Outcome::Failed(e),
        Find::Found(None) => return Outcome::Done,
        Find::Found(Some(command)) => command,
    };
    match resolve(w, &command) {
        Find::Need(q) => Outcome::Need(q),
        Find::Fail(e) => Outcome::Failed(e),
        Find::Found(ExecInterpreter::Candidate(path)) => insert_landlock_exec_path_candidate(
            w,
            found,
            path.as_slice(),
            None,
            mode,
            &command.context,
            fuel,
        ),
        Find::Found(ExecInterpreter::SearchCandidates(paths)) => insert_exec_search_candidates(
            w,
            found,
            &paths,
            0,
            &command.context,
            fuel,
        ),
        Find::Found(_) => missing(mode, command.command.as_str()),
    }
}

fn insert_env_argument(
    w: &World,
    found: &mut Discovery,
    argument: &ShebangArgument,
    mode: ExecAllowMode,
    ctx: &ExecContext,
    fuel: usize,
) -> (r: Outcome)
    ensures
        followed(*final(found), r) == argument_followed(
            w@,
            old(found)@,
            argument@,
            mode,
            ctx@,
            fuel as nat,
        ),
    decreases fuel, 6int, 0int,
{
    match argument {
        ShebangArgument::Absent => Outcome::Done,
        ShebangArgument::InvalidUtf8 => Outcome::Failed(
            Error::msg(INVALID_ENV_ARGUMENT.to_owned()),
        ),
        ShebangArgument::Utf8(text) => match env_shebang_plan(
            text.as_str(),
            &ctx.environment,
            w.realtime,
        ) {
            Err(reason) => Outcome::Failed(Error::msg(reason.to_owned())),
            Ok(None) => Outcome::Done,
            Ok(Some(plan)) => insert_env_command(w, found, &plan, mode, ctx, fuel),
        },
    }
}

pub open spec fn opt_argument(v: Option<&ShebangArgument>) -> Option<ArgumentModel> {
    match v {
        Some(a) => Some(a@),
        None => None,
    }
}

fn insert_landlock_exec_path_candidate(
    w: &World,
    found: &mut Discovery,
    path: &[u8],
    argument: Option<&ShebangArgument>,
    mode: ExecAllowMode,
    ctx: &ExecContext,
    fuel: usize,
) -> (r: Outcome)
    ensures
        followed(*final(found), r) == candidate_followed(
            w@,
            old(found)@,
            path@,
            opt_argument(argument),
            mode,
            ctx@,
            fuel as nat,
        ),
    decreases
            fuel,
            if argument is Some {
                7int
            } else {
                3int
            },
            0int,
{
    if !context::has_slash(path) {
        return match utf8_text(path) {
            Ok(command) => insert_landlock_exec_path_inner(
                w,
                found,
                command.as_str(),
                mode,
                ctx,
                fuel,
            ),
            Err(_) => match mode {
                ExecAllowMode::Auto => Outcome::Done,
                ExecAllowMode::Strict => Outcome::Failed(
                    Error::msg(
                        "resolve exec allow path from non-Unicode PATH command".to_owned(),
                    ),
                ),
            },
        };
    }
    let file = match resolve_exec_allow_path_from_path(w, ctx.path(path).as_slice(), mode) {
        Find::Need(q) => return Outcome::Need(q),
        Find::Fail(e) => return Outcome::Failed(e),
        Find::Found(None) => return Outcome::Done,
        Find::Found(Some(file)) => file,
    };
    if !file.facts.is_executable_file() {
        return match mode {
            ExecAllowMode::Auto => Outcome::Done,
            ExecAllowMode::Strict => Outcome::Failed(
                Error::msg(
                    quote_path(
                        "exec interpreter path '",
                        file.path.as_slice(),
                        "' is not an executable file",
                    ),
                ),
            ),
        };
    }
    let outcome = insert_resolved_exec_path(w, found, &file, mode, ctx, fuel);
    match outcome {
        Outcome::Done => match argument {
            Some(argument) => {
                if file.env {
                    insert_env_argument(w, found, argument, mode, ctx, fuel)
                } else {
                    Outcome::Done
                }
            },
            None => Outcome::Done,
        },
        other => other,
    }
}

fn insert_landlock_exec_path_inner(
    w: &World,
    found: &mut Discovery,
    raw: &str,
    mode: ExecAllowMode,
    ctx: &ExecContext,
    fuel: usize,
) -> (r: Outcome)
    ensures
        followed(*final(found), r) == name_followed(
            w@,
            old(found)@,
            raw@,
            mode,
            ctx@,
            fuel as nat,
        ),
    decreases fuel, 2int, 0int,
{
    if !text_has_slash(raw) {
        return match discovery::find_commands(w, raw, ctx) {
            Find::Need(q) => Outcome::Need(q),
            Find::Fail(e) => Outcome::Failed(e),
            Find::Found(paths) => {
                if paths.len() == 0 {
                    if let ExecAllowMode::Strict = mode {
                        let mut message = "resolve exec allow path '".to_owned();
                        message.append(escape_str(raw).as_str());
                        message.append("' from PATH");
                        return Outcome::Failed(Error::msg(message));
                    }
                }
                insert_exec_search_candidates(w, found, &paths, 0, ctx, fuel)
            },
        };
    }
    match mode {
        ExecAllowMode::Strict => match resolved_exec_allow_path_from_candidate(w, raw.as_bytes()) {
            Find::Need(q) => Outcome::Need(q),
            Find::Fail(e) => Outcome::Failed(e),
            Find::Found(file) => insert_resolved_exec_path(w, found, &file, mode, ctx, fuel),
        },
        ExecAllowMode::Auto => match resolve_main_exec_allow_path(w, raw.as_bytes()) {
            Find::Need(q) => Outcome::Need(q),
            Find::Fail(e) => Outcome::Failed(e),
            Find::Found(None) => Outcome::Done,
            Find::Found(Some(file)) => insert_resolved_exec_path(w, found, &file, mode, ctx, fuel),
        },
    }
}

fn insert_exec_search_candidates(
    w: &World,
    found: &mut Discovery,
    paths: &Vec<Vec<u8>>,
    from: usize,
    ctx: &ExecContext,
    fuel: usize,
) -> (r: Outcome)
    ensures
        followed(*final(found), r) == search_followed(
            w@,
            old(found)@,
            context::view_paths(paths@),
            from as int,
            ctx@,
            fuel as nat,
        ),
    decreases fuel, 1int, paths.len() - from,
{
    if from >= paths.len() {
        return Outcome::Done;
    }
    let path = paths[from].as_slice();
    assert(context::view_paths(paths@)[from as int] == path@);
    let outcome = match resolve_exec_allow_path_from_path(w, path, ExecAllowMode::Auto) {
        Find::Need(q) => Outcome::Need(q),
        Find::Fail(e) => Outcome::Failed(e),
        Find::Found(None) => Outcome::Done,
        Find::Found(Some(file)) => {
            if file.facts.is_executable_file() {
                insert_resolved_exec_path(w, found, &file, ExecAllowMode::Auto, ctx, fuel)
            } else {
                Outcome::Done
            }
        },
    };
    match outcome {
        Outcome::Need(q) => Outcome::Need(q),
        Outcome::Done => insert_exec_search_candidates(w, found, paths, from + 1, ctx, fuel),
        Outcome::Failed(e) => {
            found.note("skip interpreter discovery for PATH candidate '", path, &e);
            insert_exec_search_candidates(w, found, paths, from + 1, ctx, fuel)
        },
    }
}

/// What a path or a command name leads to. Each one is followed by itself.
pub open spec fn top_followed(
    w: WorldModel,
    found: DiscoveryModel,
    raw: Seq<char>,
    mode: ExecAllowMode,
) -> Followed {
    name_followed(
        w,
        DiscoveryModel { visited: Seq::empty(), ..found },
        raw,
        mode,
        w.context,
        VISIT_LIMIT as nat,
    )
}

fn insert_top(w: &World, found: &mut Discovery, raw: &str, mode: ExecAllowMode) -> (r: Outcome)
    ensures
        followed(*final(found), r) == top_followed(w@, old(found)@, raw@, mode),
{
    found.visited = Vec::new();
    assert(view_visits(found.visited@) =~= Seq::empty());
    insert_landlock_exec_path_inner(w, found, raw, mode, &w.context, VISIT_LIMIT)
}

/// Follows a path or a command name that the user asked for.
pub fn insert_landlock_exec_path(w: &World, found: &mut Discovery, raw: &str) -> (r: Outcome)
    ensures
        followed(*final(found), r) == top_followed(w@, old(found)@, raw@, ExecAllowMode::Strict),
{
    insert_top(w, found, raw, ExecAllowMode::Strict)
}

/// Follows the command that is run.
pub fn insert_landlock_main_exec_path(w: &World, found: &mut Discovery, raw: &str) -> (r: Outcome)
    ensures
        followed(*final(found), r) == top_followed(w@, old(found)@, raw@, ExecAllowMode::Auto),
{
    insert_top(w, found, raw, ExecAllowMode::Auto)
}

} // verus!
