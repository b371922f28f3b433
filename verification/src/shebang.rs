//! The first line of a script: which interpreter the kernel runs, and with which argument.

use vstd::prelude::*;
use vstd::slice::slice_subrange;

use crate::context::{self, join_path, ContextModel, ExecContext};
use crate::env_command::{self, env_shebang_plan, EnvPlan, PlanModel};
use crate::env_signal::RealtimeRange;
use crate::text::{self, copy_bytes, readable_text, same_bytes, utf8_text};

verus! {

/// How much of a file the kernel looks at.
pub const LINUX_BINPRM_BUF_SIZE: usize = 256;

/// The shell that runs what the kernel cannot.
pub const EXECVP_FALLBACK_SHELL: &'static str = "/bin/sh";

/// What is said of an argument that is no text.
pub const INVALID_ENV_ARGUMENT: &'static str = "env shebang argument is not valid UTF-8";

// ---------------------------------------------------------------------------
// The line
// ---------------------------------------------------------------------------

/// Whether a byte separates words of the line.
pub open spec fn spec_is_space(b: u8) -> bool {
    b == 0x20 || b == 0x09
}

/// Whether a byte separates words of the line.
pub fn is_shebang_space(byte: u8) -> (r: bool)
    ensures
        r == spec_is_space(byte),
{
    byte == 0x20 || byte == 0x09
}

/// Kinds of bytes that are looked for.
#[derive(Clone, Copy, Debug)]
pub enum Mark {
    Space,
    Word,
    LineEnd,
    WordEnd,
}

pub open spec fn marked(mark: Mark) -> spec_fn(u8) -> bool {
    |b: u8|
        match mark {
            Mark::Space => spec_is_space(b),
            Mark::Word => !spec_is_space(b),
            Mark::LineEnd => b == 0x0a || b == 0,
            Mark::WordEnd => spec_is_space(b) || b == 0,
        }
}

/// Where a kind of byte first occurs, or the length.
fn find_mark(s: &[u8], mark: Mark) -> (r: usize)
    ensures
        r == text::first_where(s@, marked(mark)),
        r <= s@.len(),
{
    let mut i: usize = 0;
    while i < s.len()
        invariant
            i <= s@.len(),
            forall|j: int| 0 <= j < i ==> !marked(mark)(#[trigger] s@[j]),
        decreases s@.len() - i,
    {
        let b: u8 = s[i];
        let found = match mark {
            Mark::Space => is_shebang_space(b),
            Mark::Word => !is_shebang_space(b),
            Mark::LineEnd => b == 0x0a || b == 0,
            Mark::WordEnd => is_shebang_space(b) || b == 0,
        };
        assert(found == marked(mark)(s@[i as int]));
        if found {
            proof {
                text::lemma_first_where(s@, marked(mark), i as int);
            }
            return i;
        }
        i = i + 1;
    }
    proof {
        text::lemma_first_where(s@, marked(mark), i as int);
    }
    i
}

/// A line without the spaces at its end.
pub open spec fn trim_end(s: Seq<u8>) -> Seq<u8>
    decreases s.len(),
{
    if s.len() > 0 && spec_is_space(s.last()) {
        trim_end(s.drop_last())
    } else {
        s
    }
}

fn trim_shebang_space_end<'a>(bytes: &'a [u8]) -> (r: &'a [u8])
    ensures
        r@ == trim_end(bytes@),
{
    let mut end: usize = bytes.len();
    proof {
        assert(bytes@.take(end as int) =~= bytes@);
    }
    while end > 0 && is_shebang_space(bytes[end - 1])
        invariant
            end <= bytes@.len(),
            trim_end(bytes@.take(end as int)) == trim_end(bytes@),
        decreases end,
    {
        proof {
            assert(bytes@.take(end as int).drop_last() =~= bytes@.take(end - 1));
        }
        end = end - 1;
    }
    let r = slice_subrange(bytes, 0, end);
    proof {
        assert(r@ =~= bytes@.take(end as int));
    }
    r
}

/// The argument of an interpreter.
#[derive(Debug)]
pub enum ShebangArgument {
    Absent,
    Utf8(String),
    InvalidUtf8,
}

/// What a [`ShebangArgument`] is.
pub enum ArgumentModel {
    Absent,
    Utf8(Seq<char>),
    InvalidUtf8,
}

impl View for ShebangArgument {
    type V = ArgumentModel;

    open spec fn view(&self) -> ArgumentModel {
        match *self {
            ShebangArgument::Absent => ArgumentModel::Absent,
            ShebangArgument::Utf8(s) => ArgumentModel::Utf8(s@),
            ShebangArgument::InvalidUtf8 => ArgumentModel::InvalidUtf8,
        }
    }
}

/// What the first line of a script asks for.
#[derive(Debug)]
pub enum Shebang {
    Parts { interpreter: Vec<u8>, argument: ShebangArgument },
    /// Nothing that the kernel understands.
    ExecvpFallback,
}

/// What a [`Shebang`] is.
pub enum ShebangModel {
    Parts { interpreter: Seq<u8>, argument: ArgumentModel },
    ExecvpFallback,
}

impl View for Shebang {
    type V = ShebangModel;

    open spec fn view(&self) -> ShebangModel {
        match *self {
            Shebang::Parts { interpreter, argument } => ShebangModel::Parts {
                interpreter: interpreter@,
                argument: argument@,
            },
            Shebang::ExecvpFallback => ShebangModel::ExecvpFallback,
        }
    }
}

/// Bytes as an argument.
pub open spec fn argument_of(bytes: Seq<u8>) -> ArgumentModel {
    if bytes.len() == 0 {
        ArgumentModel::Absent
    } else if vstd::utf8::valid_utf8(bytes) {
        ArgumentModel::Utf8(vstd::utf8::decode_utf8(bytes))
    } else {
        ArgumentModel::InvalidUtf8
    }
}

/// The interpreter is the first word of a line, and everything behind it is one argument.
pub open spec fn line_parts(line: Seq<u8>) -> ShebangModel {
    let line = trim_end(line);
    let start = text::first_where(line, marked(Mark::Word));
    if start >= line.len() {
        ShebangModel::ExecvpFallback
    } else {
        let rest = line.skip(start);
        let end = text::first_where(rest, marked(Mark::Space));
        let tail = rest.skip(end);
        ShebangModel::Parts {
            interpreter: rest.take(end),
            argument: argument_of(tail.skip(text::first_where(tail, marked(Mark::Word)))),
        }
    }
}

fn parse_shebang_line(line: &[u8]) -> (r: Shebang)
    ensures
        r@ == line_parts(line@),
{
    let line = trim_shebang_space_end(line);
    let start: usize = find_mark(line, Mark::Word);
    if start >= line.len() {
        return Shebang::ExecvpFallback;
    }
    let rest = slice_subrange(line, start, line.len());
    let end: usize = find_mark(rest, Mark::Space);
    let tail = slice_subrange(rest, end, rest.len());
    let from: usize = find_mark(tail, Mark::Word);
    let argument = slice_subrange(tail, from, tail.len());
    let interpreter = copy_bytes(slice_subrange(rest, 0, end));
    proof {
        assert(rest@ =~= line@.skip(start as int));
        assert(tail@ =~= rest@.skip(end as int));
        assert(argument@ =~= tail@.skip(from as int));
        assert(interpreter@ =~= rest@.take(end as int));
    }
    let argument = if argument.len() == 0 {
        ShebangArgument::Absent
    } else {
        match utf8_text(argument) {
            Ok(s) => ShebangArgument::Utf8(s),
            Err(_) => ShebangArgument::InvalidUtf8,
        }
    };
    Shebang::Parts { interpreter, argument }
}

/// Whether the end of the interpreter can be seen.
pub open spec fn spec_terminated(visible: Seq<u8>) -> bool {
    let line = visible.skip(2);
    let start = text::first_where(line, marked(Mark::Word));
    let word = line.skip(start);
    start < line.len() && text::first_where(word, marked(Mark::WordEnd)) < word.len()
}

fn shebang_interpreter_is_terminated(visible: &[u8]) -> (r: bool)
    requires
        visible@.len() >= 2,
    ensures
        r == spec_terminated(visible@),
{
    let line = slice_subrange(visible, 2, visible.len());
    assert(line@ =~= visible@.skip(2));
    let start: usize = find_mark(line, Mark::Word);
    if start >= line.len() {
        return false;
    }
    let word = slice_subrange(line, start, line.len());
    assert(word@ =~= line@.skip(start as int));
    find_mark(word, Mark::WordEnd) < word.len()
}

/// The part of a file that the kernel looks at.
pub open spec fn visible_part(bytes: Seq<u8>) -> Seq<u8> {
    if bytes.len() < LINUX_BINPRM_BUF_SIZE {
        bytes
    } else {
        bytes.take(LINUX_BINPRM_BUF_SIZE as int)
    }
}

/// What the first line of a file asks for, if it is a script. The kernel sees only so much of it.
/// A line that goes on beyond is cut, unless not even the interpreter ends before that. The last
/// byte of a full buffer is lost.
pub open spec fn shebang_of(bytes: Seq<u8>) -> Option<ShebangModel> {
    if bytes.len() < 2 || bytes[0] != 0x23 || bytes[1] != 0x21 {
        None
    } else {
        let visible = visible_part(bytes);
        let end = text::first_where(visible, marked(Mark::LineEnd));
        if end < visible.len() {
            Some(line_parts(visible.subrange(2, end)))
        } else if bytes.len() < LINUX_BINPRM_BUF_SIZE {
            Some(line_parts(visible.skip(2)))
        } else if spec_terminated(visible) {
            Some(line_parts(visible.subrange(2, LINUX_BINPRM_BUF_SIZE - 1)))
        } else {
            Some(ShebangModel::ExecvpFallback)
        }
    }
}

/// What the first line of a file asks for, if it is a script.
pub fn parse_shebang(bytes: &[u8]) -> (r: Option<Shebang>)
    ensures
        match r {
            Some(s) => shebang_of(bytes@) == Some(s@),
            None => shebang_of(bytes@) is None,
        },
{
    if bytes.len() < 2 || bytes[0] != 0x23 || bytes[1] != 0x21 {
        return None;
    }
    let len: usize = if bytes.len() < LINUX_BINPRM_BUF_SIZE {
        bytes.len()
    } else {
        LINUX_BINPRM_BUF_SIZE
    };
    let visible = slice_subrange(bytes, 0, len);
    assert(visible@ =~= visible_part(bytes@));
    let end: usize = find_mark(visible, Mark::LineEnd);
    if end < visible.len() {
        proof {
            text::lemma_first_where_bounds(visible@, marked(Mark::LineEnd));
            assert(marked(Mark::LineEnd)(visible@[end as int]));
            assert(visible@[0] == 0x23 && visible@[1] == 0x21);
        }
        return Some(parse_shebang_line(slice_subrange(visible, 2, end)));
    }
    if bytes.len() < LINUX_BINPRM_BUF_SIZE {
        let line = slice_subrange(visible, 2, visible.len());
        assert(line@ =~= visible@.skip(2));
        return Some(parse_shebang_line(line));
    }
    if shebang_interpreter_is_terminated(visible) {
        Some(parse_shebang_line(slice_subrange(visible, 2, LINUX_BINPRM_BUF_SIZE - 1)))
    } else {
        Some(Shebang::ExecvpFallback)
    }
}

// ---------------------------------------------------------------------------
// The interpreters
// ---------------------------------------------------------------------------

/// The path of an interpreter: a bare name stands for a file in the present directory, not for a
/// command.
pub open spec fn interpreter_path(path: Seq<u8>) -> Seq<u8> {
    if path.contains(0x2f) {
        path
    } else {
        context::joined_path(seq![0x2eu8], path)
    }
}

/// The path of an interpreter.
pub fn filesystem_interpreter_path(path: &[u8]) -> (r: Vec<u8>)
    ensures
        r@ == interpreter_path(path@),
{
    if context::has_slash(path) {
        copy_bytes(path)
    } else {
        let mut here: Vec<u8> = Vec::new();
        here.push(0x2e);
        assert(here@ =~= seq![0x2eu8]);
        join_path(here.as_slice(), path)
    }
}

/// Where `env` is found.
pub open spec fn env_paths() -> Seq<Seq<u8>> {
    seq![
        vstd::utf8::encode_utf8("/usr/bin/env"@),
        vstd::utf8::encode_utf8("/bin/env"@),
    ]
}

/// Whether an interpreter is `env`, by its path.
pub fn is_env_interpreter(path: &[u8]) -> (r: bool)
    ensures
        r == env_paths().contains(path@),
{
    let a = same_bytes(path, "/usr/bin/env".as_bytes());
    let b = same_bytes(path, "/bin/env".as_bytes());
    proof {
        if a {
            assert(env_paths()[0] == path@);
        }
        if b {
            assert(env_paths()[1] == path@);
        }
    }
    a || b
}

/// The device and the number of a file.
#[derive(Clone, Copy, Debug, PartialEq, Eq, Structural)]
pub struct FileId {
    pub dev: u64,
    pub ino: u64,
}

/// The name of a file: what stands behind the last slash.
pub open spec fn file_name(path: Seq<u8>) -> Seq<u8>
    decreases path.len(),
{
    let k = text::first_where(path, text::is_byte(0x2f));
    if 0 <= k < path.len() {
        file_name(path.skip(k + 1))
    } else {
        path
    }
}

fn ends_in_env(path: &[u8]) -> (r: bool)
    ensures
        r == (file_name(path@) == vstd::utf8::encode_utf8("env"@)),
    decreases path@.len(),
{
    let k: usize = text::find_byte(path, 0x2f);
    if k < path.len() {
        let rest = slice_subrange(path, k + 1, path.len());
        assert(rest@ =~= path@.skip(k + 1));
        ends_in_env(rest)
    } else {
        same_bytes(path, "env".as_bytes())
    }
}

/// Whether a file is the `env` at a known place. A binary that serves many commands is not: it
/// goes by the name it is called by, so that it is the shell as well, or has another name.
pub fn env_reference_matches(
    file: FileId,
    env_target: Option<&[u8]>,
    env: Option<FileId>,
    shell: Option<FileId>,
) -> (r: bool)
    ensures
        r == (match env_target {
            Some(target) => file_name(target@) == vstd::utf8::encode_utf8("env"@),
            None => false,
        } && shell != Some(file) && env == Some(file)),
{
    match env_target {
        Some(target) => {
            if !ends_in_env(target) {
                return false;
            }
        },
        None => return false,
    }
    if let Some(known) = shell {
        if known.dev == file.dev && known.ino == file.ino {
            return false;
        }
    }
    match env {
        Some(known) => known.dev == file.dev && known.ino == file.ino,
        None => false,
    }
}

/// What runs a file.
#[derive(Debug)]
pub enum ExecInterpreter {
    /// A file.
    Candidate(Vec<u8>),
    /// A file with an argument, which says more where the file is `env`.
    ShebangCandidate { path: Vec<u8>, argument: ShebangArgument },
    /// Files, of which the first that can be run counts.
    SearchCandidates(Vec<Vec<u8>>),
    /// What `env` is asked to run.
    EnvCommand(EnvPlan),
    /// A command that is not there.
    Missing { command: String },
    /// Nothing that could be made out.
    Unresolved { reason: &'static str },
}

/// What an [`ExecInterpreter`] is.
pub enum InterpreterModel {
    Candidate(Seq<u8>),
    ShebangCandidate { path: Seq<u8>, argument: ArgumentModel },
    SearchCandidates(Seq<Seq<u8>>),
    EnvCommand(PlanModel),
    Missing { command: Seq<char> },
    Unresolved { reason: Seq<char> },
}

impl View for ExecInterpreter {
    type V = InterpreterModel;

    open spec fn view(&self) -> InterpreterModel {
        match *self {
            ExecInterpreter::Candidate(path) => InterpreterModel::Candidate(path@),
            ExecInterpreter::ShebangCandidate { path, argument } =>
                InterpreterModel::ShebangCandidate { path: path@, argument: argument@ },
            ExecInterpreter::SearchCandidates(paths) => InterpreterModel::SearchCandidates(
                context::view_paths(paths@),
            ),
            ExecInterpreter::EnvCommand(plan) => InterpreterModel::EnvCommand(plan@),
            ExecInterpreter::Missing { command } => InterpreterModel::Missing {
                command: command@,
            },
            ExecInterpreter::Unresolved { reason } => InterpreterModel::Unresolved {
                reason: reason@,
            },
        }
    }
}

pub open spec fn view_interpreters(v: Seq<ExecInterpreter>) -> Seq<InterpreterModel> {
    Seq::new(v.len(), |i: int| v[i]@)
}

/// What runs what the kernel cannot.
pub open spec fn fallback_interpreter() -> InterpreterModel {
    InterpreterModel::Candidate(vstd::utf8::encode_utf8(EXECVP_FALLBACK_SHELL@))
}

/// What `env` runs, given its argument.
pub open spec fn env_part(argument: ArgumentModel, ctx: ContextModel, rt: RealtimeRange) -> Seq<
    InterpreterModel,
> {
    match argument {
        ArgumentModel::Absent => Seq::empty(),
        ArgumentModel::Utf8(text) => match env_command::shebang_plan(text, ctx.environment, rt) {
            Ok(Some(plan)) => seq![InterpreterModel::EnvCommand(plan)],
            Ok(None) => Seq::empty(),
            Err(reason) => seq![InterpreterModel::Unresolved { reason }],
        },
        ArgumentModel::InvalidUtf8 => seq![
            InterpreterModel::Unresolved { reason: INVALID_ENV_ARGUMENT@ },
        ],
    }
}

/// What runs a file that is a script: the interpreter of its first line, and what `env` is asked
/// to run where that is `env`.
pub open spec fn script_interpreters(bytes: Seq<u8>, ctx: ContextModel, rt: RealtimeRange) -> Seq<
    InterpreterModel,
> {
    match shebang_of(bytes) {
        None => Seq::empty(),
        Some(ShebangModel::ExecvpFallback) => seq![fallback_interpreter()],
        Some(ShebangModel::Parts { interpreter, argument }) => {
            let path = interpreter_path(interpreter);
            if env_paths().contains(interpreter) {
                seq![InterpreterModel::Candidate(path)] + env_part(argument, ctx, rt)
            } else if argument is Absent {
                seq![InterpreterModel::Candidate(path)]
            } else {
                seq![InterpreterModel::ShebangCandidate { path, argument }]
            }
        },
    }
}

/// The shell that runs what the kernel cannot.
pub fn fallback_candidate() -> (r: ExecInterpreter)
    ensures
        r@ == fallback_interpreter(),
{
    ExecInterpreter::Candidate(copy_bytes(EXECVP_FALLBACK_SHELL.as_bytes()))
}

/// What runs a file that is a script, in a context.
pub fn parse_shebang_exec_interpreters_in_context(
    bytes: &[u8],
    context: &ExecContext,
    rt: RealtimeRange,
) -> (r: Vec<ExecInterpreter>)
    ensures
        view_interpreters(r@) == script_interpreters(bytes@, context@, rt),
{
    let mut out: Vec<ExecInterpreter> = Vec::new();
    let shebang = match parse_shebang(bytes) {
        None => {
            assert(view_interpreters(out@) =~= Seq::empty());
            return out;
        },
        Some(shebang) => shebang,
    };
    let (interpreter, argument) = match shebang {
        Shebang::ExecvpFallback => {
            out.push(fallback_candidate());
            assert(view_interpreters(out@) =~= seq![fallback_interpreter()]);
            return out;
        },
        Shebang::Parts { interpreter, argument } => (interpreter, argument),
    };
    let path = filesystem_interpreter_path(interpreter.as_slice());
    let ghost path_model = path@;
    if !is_env_interpreter(interpreter.as_slice()) {
        match argument {
            ShebangArgument::Absent => {
                out.push(ExecInterpreter::Candidate(path));
            },
            argument => {
                out.push(ExecInterpreter::ShebangCandidate { path, argument });
            },
        }
        assert(view_interpreters(out@) =~= script_interpreters(bytes@, context@, rt));
        return out;
    }
    out.push(ExecInterpreter::Candidate(path));
    match argument {
        ShebangArgument::Absent => {},
        ShebangArgument::Utf8(text) => match env_shebang_plan(
            text.as_str(),
            &context.environment,
            rt,
        ) {
            Ok(Some(plan)) => {
                out.push(ExecInterpreter::EnvCommand(plan));
            },
            Ok(None) => {},
            Err(reason) => {
                out.push(ExecInterpreter::Unresolved { reason });
            },
        },
        ShebangArgument::InvalidUtf8 => {
            out.push(ExecInterpreter::Unresolved { reason: INVALID_ENV_ARGUMENT });
        },
    }
    proof {
        assert(view_interpreters(out@) =~= seq![InterpreterModel::Candidate(path_model)]
            + env_part(argument@, context@, rt));
    }
    out
}

/// The interpreter of a script as it is shown, if the file is a script.
pub open spec fn shown_interpreter(bytes: Seq<u8>) -> Option<Seq<char>> {
    match shebang_of(bytes) {
        None => None,
        Some(ShebangModel::ExecvpFallback) => Some(EXECVP_FALLBACK_SHELL@),
        Some(ShebangModel::Parts { interpreter, argument }) => Some(
            text::readable(interpreter_path(interpreter)),
        ),
    }
}

/// The interpreter of a script, if the file is a script.
pub fn parse_shebang_interpreter(bytes: &[u8]) -> (r: Option<String>)
    ensures
        match r {
            Some(s) => shown_interpreter(bytes@) == Some(s@),
            None => shown_interpreter(bytes@) is None,
        },
{
    match parse_shebang(bytes) {
        None => None,
        Some(Shebang::ExecvpFallback) => Some(EXECVP_FALLBACK_SHELL.to_owned()),
        Some(Shebang::Parts { interpreter, argument }) => {
            let path = filesystem_interpreter_path(interpreter.as_slice());
            Some(readable_text(path.as_slice()))
        },
    }
}

/// Nothing behind what the kernel sees of a script matters.
pub proof fn law_hidden_part_is_ignored(a: Seq<u8>, b: Seq<u8>)
    requires
        a.len() >= LINUX_BINPRM_BUF_SIZE,
        b.len() >= LINUX_BINPRM_BUF_SIZE,
        a.take(LINUX_BINPRM_BUF_SIZE as int) == b.take(LINUX_BINPRM_BUF_SIZE as int),
    ensures
        shebang_of(a) == shebang_of(b),
        shown_interpreter(a) == shown_interpreter(b),
{
    let n = LINUX_BINPRM_BUF_SIZE as int;
    assert(a[0] == a.take(n)[0] && a[1] == a.take(n)[1]);
    assert(b[0] == b.take(n)[0] && b[1] == b.take(n)[1]);
}

} // verus!
