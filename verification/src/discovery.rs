//! Which files have to be executable for a command to run: the command, its interpreter, the
//! interpreter of that, and what `env` is asked to run on the way.

use vstd::prelude::*;

use crate::context::{self, join_path, split_search_path, ContextModel, ExecContext};
use crate::elf::{starts_with_elf_magic, ElfInterpreter, ElfModel};
use crate::error::{self, Error, ErrorModel};
use crate::facts::{
    self, io_error, quote_path, ElfStage, FileFacts, FileKind, Find, FindModel, Question,
    QuestionModel, Reply, ReplyModel, World, WorldModel,
};
use crate::report::{self, EACCES, ELOOP, ENAMETOOLONG, ENOENT, ENOTDIR, EPERM};
use crate::shebang::{
    self, fallback_candidate, filesystem_interpreter_path,
    parse_shebang_exec_interpreters_in_context, ExecInterpreter, InterpreterModel,
};
use crate::text::{self, copy_bytes, find_byte};

verus! {

/// How many files are followed, each in one context.
pub const VISIT_LIMIT: usize = 256;

/// How strict a lookup is. A path that the user asked for has to be there. What a command needs is
/// taken as far as it is found: what is not there fails when the command is run.
#[derive(Clone, Copy, Debug, PartialEq, Eq, Structural)]
pub enum ExecAllowMode {
    Strict,
    Auto,
}

// ---------------------------------------------------------------------------
// Single files
// ---------------------------------------------------------------------------

/// A file or a directory that was opened.
#[derive(Debug)]
pub struct Resolved {
    pub path: Vec<u8>,
    pub facts: FileFacts,
    pub env: bool,
}

/// What a [`Resolved`] is.
pub struct ResolvedModel {
    pub path: Seq<u8>,
    pub facts: FileFacts,
    pub env: bool,
}

impl View for Resolved {
    type V = ResolvedModel;

    open spec fn view(&self) -> ResolvedModel {
        ResolvedModel { path: self.path@, facts: self.facts, env: self.env }
    }
}

pub open spec fn find_resolved(r: Find<Resolved>) -> FindModel<ResolvedModel> {
    match r {
        Find::Need(q) => FindModel::Need(q@),
        Find::Fail(e) => FindModel::Fail(e@),
        Find::Found(x) => FindModel::Found(x@),
    }
}

pub open spec fn find_optional(r: Find<Option<Resolved>>) -> FindModel<Option<ResolvedModel>> {
    match r {
        Find::Need(q) => FindModel::Need(q@),
        Find::Fail(e) => FindModel::Fail(e@),
        Find::Found(Some(x)) => FindModel::Found(Some(x@)),
        Find::Found(None) => FindModel::Found(None),
    }
}

/// A message about a path, and what caused it.
pub open spec fn path_error(before: Seq<char>, path: Seq<u8>, after: Seq<char>, cause: Seq<char>) -> ErrorModel {
    error::caused(before + report::shown_path(path) + after, error::failure(cause))
}

/// A path that is opened: it has to be a file or a directory.
pub open spec fn resolved(w: WorldModel, path: Seq<u8>) -> FindModel<ResolvedModel> {
    match w.knows(QuestionModel::Open(path)) {
        Some(ReplyModel::Opened { path: actual, facts, env }) => if facts.kind is Directory
            || facts.kind is Regular {
            FindModel::Found(ResolvedModel { path: actual, facts, env })
        } else {
            FindModel::Fail(
                error::failure(
                    "exec allow path '"@ + report::shown_path(actual)
                        + "' is neither a regular file nor a directory"@,
                ),
            )
        },
        Some(ReplyModel::InspectFailed { path: actual, text }) => FindModel::Fail(
            path_error("inspect exec allow path '"@, actual, "'"@, text),
        ),
        Some(ReplyModel::Failed(errno, text)) => FindModel::Fail(
            path_error("open exec allow path '"@, path, "'"@, text),
        ),
        _ => FindModel::Need(QuestionModel::Open(path)),
    }
}

/// A path that is opened: it has to be a file or a directory.
pub fn resolved_exec_allow_path_from_candidate(w: &World, path: &[u8]) -> (r: Find<Resolved>)
    ensures
        find_resolved(r) == resolved(w@, path@),
{
    let question = Question::Open(copy_bytes(path));
    match w.find(&question) {
        Some(Reply::Opened { path: actual, facts, env }) => match facts.kind {
            FileKind::Directory | FileKind::Regular => Find::Found(
                Resolved { path: copy_bytes(actual.as_slice()), facts: *facts, env: *env },
            ),
            _ => Find::Fail(
                Error::msg(
                    quote_path(
                        "exec allow path '",
                        actual.as_slice(),
                        "' is neither a regular file nor a directory",
                    ),
                ),
            ),
        },
        Some(Reply::InspectFailed { path: actual, failure }) => Find::Fail(
            io_error(quote_path("inspect exec allow path '", actual.as_slice(), "'"), failure),
        ),
        Some(Reply::Failed(failure)) => Find::Fail(
            io_error(quote_path("open exec allow path '", path, "'"), failure),
        ),
        _ => Find::Need(question),
    }
}

/// Whether a failure means that a file is not there for this process, so that running it fails as
/// well.
pub open spec fn unavailable(errno: i32) -> bool {
    errno == ENOENT || errno == ENOTDIR || errno == EACCES || errno == EPERM || errno == ELOOP
        || errno == ENAMETOOLONG
}

/// Whether a failure means that a file is not there for this process.
pub fn auto_exec_candidate_is_unavailable(errno: i32) -> (r: bool)
    ensures
        r == unavailable(errno),
{
    errno == ENOENT || errno == ENOTDIR || errno == EACCES || errno == EPERM || errno == ELOOP
        || errno == ENAMETOOLONG
}

/// What is at a path that a command leads to. Nothing, where it is not there for this process.
pub open spec fn looked(w: WorldModel, path: Seq<u8>) -> FindModel<Option<FileFacts>> {
    match w.knows(QuestionModel::Look(path)) {
        Some(ReplyModel::Facts(facts)) => FindModel::Found(Some(facts)),
        Some(ReplyModel::Failed(errno, text)) => if unavailable(errno) {
            FindModel::Found(None)
        } else {
            FindModel::Fail(
                path_error("inspect main exec allow path candidate '"@, path, "'"@, text),
            )
        },
        _ => FindModel::Need(QuestionModel::Look(path)),
    }
}

pub open spec fn find_facts(r: Find<Option<FileFacts>>) -> FindModel<Option<FileFacts>> {
    match r {
        Find::Need(q) => FindModel::Need(q@),
        Find::Fail(e) => FindModel::Fail(e@),
        Find::Found(x) => FindModel::Found(x),
    }
}

fn look(w: &World, path: &[u8]) -> (r: Find<Option<FileFacts>>)
    ensures
        find_facts(r) == looked(w@, path@),
{
    let question = Question::Look(copy_bytes(path));
    match w.find(&question) {
        Some(Reply::Facts(facts)) => Find::Found(Some(*facts)),
        Some(Reply::Failed(failure)) => {
            if auto_exec_candidate_is_unavailable(failure.errno) {
                Find::Found(None)
            } else {
                Find::Fail(
                    io_error(
                        quote_path("inspect main exec allow path candidate '", path, "'"),
                        failure,
                    ),
                )
            }
        },
        _ => Find::Need(question),
    }
}

/// A path that is opened, or nothing where that is right and it is not there.
pub open spec fn resolved_path(w: WorldModel, path: Seq<u8>, mode: ExecAllowMode) -> FindModel<
    Option<ResolvedModel>,
> {
    let seen = looked(w, path);
    if mode is Auto && seen is Need {
        FindModel::Need(seen->Need_0)
    } else if mode is Auto && seen is Fail {
        FindModel::Fail(seen->Fail_0)
    } else if mode is Auto && seen->Found_0 is None {
        FindModel::Found(None)
    } else {
        match resolved(w, path) {
            FindModel::Need(q) => FindModel::Need(q),
            FindModel::Fail(e) => FindModel::Fail(e),
            FindModel::Found(x) => FindModel::Found(Some(x)),
        }
    }
}

/// A path that is opened, or nothing where that is right and it is not there.
pub fn resolve_exec_allow_path_from_path(w: &World, path: &[u8], mode: ExecAllowMode) -> (r: Find<
    Option<Resolved>,
>)
    ensures
        find_optional(r) == resolved_path(w@, path@, mode),
{
    if let ExecAllowMode::Auto = mode {
        match look(w, path) {
            Find::Need(q) => return Find::Need(q),
            Find::Fail(e) => return Find::Fail(e),
            Find::Found(None) => return Find::Found(None),
            Find::Found(Some(_)) => {},
        }
    }
    match resolved_exec_allow_path_from_candidate(w, path) {
        Find::Need(q) => Find::Need(q),
        Find::Fail(e) => Find::Fail(e),
        Find::Found(x) => Find::Found(Some(x)),
    }
}

/// The file of a command that is given as a path, if it can be run.
pub open spec fn main_file(w: WorldModel, path: Seq<u8>) -> FindModel<Option<ResolvedModel>> {
    match looked(w, path) {
        FindModel::Need(q) => FindModel::Need(q),
        FindModel::Fail(e) => FindModel::Fail(e),
        FindModel::Found(None) => FindModel::Found(None),
        FindModel::Found(Some(facts)) => if facts.kind !is Regular {
            FindModel::Found(None)
        } else {
            match resolved(w, path) {
                FindModel::Need(q) => FindModel::Need(q),
                FindModel::Fail(e) => FindModel::Fail(e),
                FindModel::Found(x) => if x.facts.runnable() {
                    FindModel::Found(Some(x))
                } else {
                    FindModel::Found(None)
                },
            }
        },
    }
}

/// The file of a command that is given as a path, if it can be run.
pub fn resolve_main_exec_allow_path(w: &World, path: &[u8]) -> (r: Find<Option<Resolved>>)
    ensures
        find_optional(r) == main_file(w@, path@),
{
    match look(w, path) {
        Find::Need(q) => Find::Need(q),
        Find::Fail(e) => Find::Fail(e),
        Find::Found(None) => Find::Found(None),
        Find::Found(Some(facts)) => match facts.kind {
            FileKind::Regular => match resolved_exec_allow_path_from_candidate(w, path) {
                Find::Need(q) => Find::Need(q),
                Find::Fail(e) => Find::Fail(e),
                Find::Found(x) => {
                    if x.facts.is_executable_file() {
                        Find::Found(Some(x))
                    } else {
                        Find::Found(None)
                    }
                },
            },
            _ => Find::Found(None),
        },
    }
}

// ---------------------------------------------------------------------------
// Search path
// ---------------------------------------------------------------------------

/// Where a command would be in a directory of the search path. A relative directory is taken from
/// where the command starts.
pub open spec fn candidate_in(dir: Seq<u8>, command: Seq<u8>, base: Option<Seq<u8>>) -> Seq<u8> {
    match base {
        Some(b) if !context::is_absolute(dir) => context::joined_path(
            context::joined_path(b, dir),
            command,
        ),
        _ => context::joined_path(dir, command),
    }
}

/// Whether there is something to run at a path.
pub open spec fn can_run(w: WorldModel, path: Seq<u8>) -> FindModel<bool> {
    match w.knows(QuestionModel::Look(path)) {
        Some(ReplyModel::Facts(facts)) => if !facts.runnable() || path.contains(0) {
            FindModel::Found(false)
        } else {
            match w.knows(QuestionModel::Access(path)) {
                Some(ReplyModel::Access(ok)) => FindModel::Found(ok),
                _ => FindModel::Need(QuestionModel::Access(path)),
            }
        },
        Some(ReplyModel::Failed(errno, text)) => FindModel::Found(false),
        _ => FindModel::Need(QuestionModel::Look(path)),
    }
}

pub open spec fn find_bool(r: Find<bool>) -> FindModel<bool> {
    match r {
        Find::Need(q) => FindModel::Need(q@),
        Find::Fail(e) => FindModel::Fail(e@),
        Find::Found(x) => FindModel::Found(x),
    }
}

fn has_nul(path: &[u8]) -> (r: bool)
    ensures
        r == path@.contains(0),
{
    let k: usize = find_byte(path, 0);
    proof {
        text::lemma_first_where_bounds(path@, text::is_byte(0));
        if k < path@.len() {
            assert(path@[k as int] == 0);
        } else {
            assert forall|j: int| 0 <= j < path@.len() implies path@[j] != 0 by {
                assert(!text::is_byte(0)(path@[j]));
            }
        }
    }
    k < path.len()
}

fn runs(w: &World, path: &[u8]) -> (r: Find<bool>)
    ensures
        find_bool(r) == can_run(w@, path@),
{
    let question = Question::Look(copy_bytes(path));
    match w.find(&question) {
        Some(Reply::Facts(facts)) => {
            if !facts.is_executable_file() || has_nul(path) {
                return Find::Found(false);
            }
            let access = Question::Access(copy_bytes(path));
            match w.find(&access) {
                Some(Reply::Access(ok)) => Find::Found(*ok),
                _ => Find::Need(access),
            }
        },
        Some(Reply::Failed(_)) => Find::Found(false),
        _ => Find::Need(question),
    }
}

/// The files that a command may stand for, in the order of the directories.
pub open spec fn candidates(
    w: WorldModel,
    dirs: Seq<Seq<u8>>,
    command: Seq<u8>,
    base: Option<Seq<u8>>,
) -> FindModel<Seq<Seq<u8>>>
    decreases dirs.len(),
{
    if dirs.len() == 0 {
        FindModel::Found(Seq::empty())
    } else {
        let path = candidate_in(dirs.last(), command, base);
        match candidates(w, dirs.drop_last(), command, base) {
            FindModel::Found(before) => match can_run(w, path) {
                FindModel::Found(true) => FindModel::Found(before.push(path)),
                FindModel::Found(false) => FindModel::Found(before),
                FindModel::Need(q) => FindModel::Need(q),
                FindModel::Fail(e) => FindModel::Fail(e),
            },
            other => other,
        }
    }
}

pub open spec fn find_paths(r: Find<Vec<Vec<u8>>>) -> FindModel<Seq<Seq<u8>>> {
    match r {
        Find::Need(q) => FindModel::Need(q@),
        Find::Fail(e) => FindModel::Fail(e@),
        Find::Found(x) => FindModel::Found(context::view_paths(x@)),
    }
}

proof fn lemma_candidates_stop(
    w: WorldModel,
    dirs: Seq<Seq<u8>>,
    command: Seq<u8>,
    base: Option<Seq<u8>>,
    n: int,
)
    requires
        0 <= n <= dirs.len(),
        !(candidates(w, dirs.take(n), command, base) is Found),
    ensures
        candidates(w, dirs, command, base) == candidates(w, dirs.take(n), command, base),
    decreases dirs.len() - n,
{
    if n < dirs.len() {
        assert(dirs.take(n + 1).drop_last() =~= dirs.take(n));
        lemma_candidates_stop(w, dirs, command, base, n + 1);
    } else {
        assert(dirs.take(n) =~= dirs);
    }
}

/// The files that a command may stand for, in the order of the search path.
pub fn executable_paths_in_search_path(
    w: &World,
    command: &[u8],
    search_path: &[u8],
    base: Option<&Vec<u8>>,
) -> (r: Find<Vec<Vec<u8>>>)
    ensures
        find_paths(r) == candidates(
            w@,
            context::search_dirs(search_path@),
            command@,
            match base {
                Some(b) => Some(b@),
                None => None,
            },
        ),
{
    let dirs = split_search_path(search_path);
    let ghost all = context::search_dirs(search_path@);
    let ghost from = match base {
        Some(b) => Some(b@),
        None => None,
    };
    let mut out: Vec<Vec<u8>> = Vec::new();
    let mut i: usize = 0;
    proof {
        assert(all.take(0) =~= Seq::empty());
        assert(context::view_paths(out@) =~= Seq::empty());
    }
    while i < dirs.len()
        invariant
            i <= dirs@.len(),
            context::view_paths(dirs@) == all,
            from == match base {
                Some(b) => Some(b@),
                None => None,
            },
            all == context::search_dirs(search_path@),
            candidates(w@, all.take(i as int), command@, from) == FindModel::Found(
                context::view_paths(out@),
            ),
        decreases dirs@.len() - i,
    {
        let dir = dirs[i].as_slice();
        proof {
            assert(all.take(i + 1).drop_last() =~= all.take(i as int));
            assert(all.take(i + 1).last() == dir@);
        }
        let path = match base {
            Some(b) => if context::absolute(dir) {
                join_path(dir, command)
            } else {
                join_path(join_path(b.as_slice(), dir).as_slice(), command)
            },
            None => join_path(dir, command),
        };
        let ghost before = context::view_paths(out@);
        match runs(w, path.as_slice()) {
            Find::Need(q) => {
                proof {
                    lemma_candidates_stop(w@, all, command@, from, i + 1);
                }
                return Find::Need(q);
            },
            Find::Fail(e) => {
                proof {
                    lemma_candidates_stop(w@, all, command@, from, i + 1);
                }
                return Find::Fail(e);
            },
            Find::Found(true) => {
                let ghost shown = path@;
                out.push(path);
                assert(context::view_paths(out@) =~= before.push(shown));
            },
            Find::Found(false) => {},
        }
        i = i + 1;
    }
    proof {
        assert(all.take(i as int) =~= all);
    }
    Find::Found(out)
}

/// The files that a command may stand for in a context.
pub open spec fn commands_in(w: WorldModel, command: Seq<char>, ctx: ContextModel) -> FindModel<
    Seq<Seq<u8>>,
> {
    candidates(
        w,
        context::search_dirs(ctx.search_path(w.default_path)),
        vstd::utf8::encode_utf8(command),
        ctx.cwd,
    )
}

/// The files that a command may stand for in a context.
pub fn find_commands(w: &World, command: &str, ctx: &ExecContext) -> (r: Find<Vec<Vec<u8>>>)
    ensures
        find_paths(r) == commands_in(w@, command@, ctx@),
{
    let path = ctx.search_path(w.default_path.as_slice());
    executable_paths_in_search_path(w, command.as_bytes(), path.as_slice(), ctx.cwd.as_ref())
}

/// The search path of a system that does not say, given what the system says: how much room it
/// asks for, and what it put there with how many bytes.
pub fn default_exec_search_path(len: usize, buffer: &[u8], written: usize) -> (r: Vec<u8>)
    ensures
        r@ == if len == 0 || written == 0 || written > buffer@.len() {
            vstd::utf8::encode_utf8("/bin:/usr/bin"@)
        } else {
            buffer@.take(written - 1)
        },
{
    if len == 0 || written == 0 || written > buffer.len() {
        return copy_bytes("/bin:/usr/bin".as_bytes());
    }
    let r = copy_bytes(vstd::slice::slice_subrange(buffer, 0, written - 1));
    assert(r@ =~= buffer@.take(written - 1));
    r
}

// ---------------------------------------------------------------------------
// Interpreters
// ---------------------------------------------------------------------------

/// What is said where the judgement of a binary failed.
pub open spec fn elf_stage_text(stage: ElfStage) -> Seq<char> {
    match stage {
        ElfStage::Header => "read ELF header '"@,
        ElfStage::ProgramHeaders => "read ELF program headers '"@,
        ElfStage::Size => "inspect ELF file '"@,
        ElfStage::Interpreter => "read ELF interpreter '"@,
    }
}

/// What runs a file: the interpreter of a script, that of a binary, and a shell for what the
/// kernel cannot run.
pub open spec fn interpreters(w: WorldModel, path: Seq<u8>, ctx: ContextModel) -> FindModel<
    Seq<InterpreterModel>,
> {
    match w.knows(QuestionModel::Head(path)) {
        Some(ReplyModel::Bytes(head)) => {
            let script = shebang::script_interpreters(head, ctx, w.realtime);
            if script.len() > 0 {
                FindModel::Found(script)
            } else if crate::elf::has_elf_magic(head) {
                match w.knows(QuestionModel::Elf(path)) {
                    Some(ReplyModel::Elf(ElfModel::Interpreter(p))) => FindModel::Found(
                        seq![InterpreterModel::Candidate(shebang::interpreter_path(p))],
                    ),
                    Some(ReplyModel::Elf(ElfModel::NoInterpreter)) => FindModel::Found(
                        Seq::empty(),
                    ),
                    Some(ReplyModel::Elf(ElfModel::Invalid)) => FindModel::Found(
                        seq![shebang::fallback_interpreter()],
                    ),
                    Some(ReplyModel::ElfFailed(stage, text)) => FindModel::Fail(
                        path_error(elf_stage_text(stage), path, "'"@, text),
                    ),
                    _ => FindModel::Need(QuestionModel::Elf(path)),
                }
            } else {
                FindModel::Found(seq![shebang::fallback_interpreter()])
            }
        },
        Some(ReplyModel::ReadFailed(text)) => FindModel::Fail(
            path_error("read exec allow file '"@, path, "'"@, text),
        ),
        Some(ReplyModel::Failed(errno, text)) => FindModel::Fail(
            path_error(
                "open exec allow file '"@,
                path,
                "' for interpreter discovery"@,
                text,
            ),
        ),
        _ => FindModel::Need(QuestionModel::Head(path)),
    }
}

pub open spec fn find_interpreters(r: Find<Vec<ExecInterpreter>>) -> FindModel<
    Seq<InterpreterModel>,
> {
    match r {
        Find::Need(q) => FindModel::Need(q@),
        Find::Fail(e) => FindModel::Fail(e@),
        Find::Found(x) => FindModel::Found(shebang::view_interpreters(x@)),
    }
}

fn one(interpreter: ExecInterpreter) -> (r: Vec<ExecInterpreter>)
    ensures
        shebang::view_interpreters(r@) == seq![interpreter@],
{
    let mut out: Vec<ExecInterpreter> = Vec::new();
    out.push(interpreter);
    assert(shebang::view_interpreters(out@) =~= seq![interpreter@]);
    out
}

/// What runs a file that is kept open.
pub fn detect_exec_interpreters_in_context(w: &World, path: &[u8], ctx: &ExecContext) -> (r: Find<
    Vec<ExecInterpreter>,
>)
    ensures
        find_interpreters(r) == interpreters(w@, path@, ctx@),
{
    let question = Question::Head(copy_bytes(path));
    let head = match w.find(&question) {
        Some(Reply::Bytes(head)) => head,
        Some(Reply::ReadFailed(failure)) => {
            return Find::Fail(
                io_error(quote_path("read exec allow file '", path, "'"), failure),
            );
        },
        Some(Reply::Failed(failure)) => {
            return Find::Fail(
                io_error(
                    quote_path("open exec allow file '", path, "' for interpreter discovery"),
                    failure,
                ),
            );
        },
        _ => return Find::Need(question),
    };
    let script = parse_shebang_exec_interpreters_in_context(head.as_slice(), ctx, w.realtime);
    if script.len() > 0 {
        return Find::Found(script);
    }
    if starts_with_elf_magic(head.as_slice()) {
        let question = Question::Elf(copy_bytes(path));
        return match w.find(&question) {
            Some(Reply::Elf(ElfInterpreter::Interpreter(p))) => Find::Found(
                one(ExecInterpreter::Candidate(filesystem_interpreter_path(p.as_slice()))),
            ),
            Some(Reply::Elf(ElfInterpreter::NoInterpreter)) => {
                let none: Vec<ExecInterpreter> = Vec::new();
                assert(shebang::view_interpreters(none@) =~= Seq::empty());
                Find::Found(none)
            },
            Some(Reply::Elf(ElfInterpreter::Invalid)) => Find::Found(one(fallback_candidate())),
            Some(Reply::ElfFailed(stage, failure)) => {
                let before = match stage {
                    ElfStage::Header => "read ELF header '",
                    ElfStage::ProgramHeaders => "read ELF program headers '",
                    ElfStage::Size => "inspect ELF file '",
                    ElfStage::Interpreter => "read ELF interpreter '",
                };
                Find::Fail(io_error(quote_path(before, path, "'"), failure))
            },
            _ => Find::Need(question),
        };
    }
    Find::Found(one(fallback_candidate()))
}

} // verus!
