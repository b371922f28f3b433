//! What is known of the file system.
//!
//! The rules do not look at files themselves. They ask, and are started again once the answer is
//! among the facts.

use vstd::prelude::*;

use crate::context::{ContextModel, ExecContext};
use crate::elf::{ElfInterpreter, ElfModel};
use crate::env_signal::RealtimeRange;
use crate::error::{Error, ErrorModel};
use crate::report::{self, Failure};
use crate::text::{self, copy_bytes, escape_bytes, same_bytes};

verus! {

/// What a file is.
#[derive(Clone, Copy, Debug, PartialEq, Eq, Structural)]
pub enum FileKind {
    Regular,
    Directory,
    CharDevice,
    BlockDevice,
    Other,
}

/// What a file is, and whether anyone may execute it.
#[derive(Clone, Copy, Debug, PartialEq, Eq, Structural)]
pub struct FileFacts {
    pub kind: FileKind,
    pub executable: bool,
}

impl FileFacts {
    /// Whether a file can be run.
    pub open spec fn runnable(self) -> bool {
        self.kind is Regular && self.executable
    }

    /// Whether a file can be run.
    pub fn is_executable_file(self) -> (r: bool)
        ensures
            r == self.runnable(),
    {
        match self.kind {
            FileKind::Regular => self.executable,
            _ => false,
        }
    }
}

/// A question about the file system.
#[derive(Debug)]
pub enum Question {
    /// Open a path, and keep it open under the path that it really has.
    Open(Vec<u8>),
    /// The same for a path that has to be a directory.
    OpenDirectory(Vec<u8>),
    /// Look at what a path leads to.
    Look(Vec<u8>),
    /// Ask whether this process may execute a file.
    Access(Vec<u8>),
    /// Read the beginning of a file that is kept open.
    Head(Vec<u8>),
    /// Judge a file that is kept open as a binary.
    Elf(Vec<u8>),
    /// Find the real path of a directory.
    Directory(Vec<u8>),
}

/// What a [`Question`] is.
pub enum QuestionModel {
    Open(Seq<u8>),
    OpenDirectory(Seq<u8>),
    Look(Seq<u8>),
    Access(Seq<u8>),
    Head(Seq<u8>),
    Elf(Seq<u8>),
    Directory(Seq<u8>),
}

impl View for Question {
    type V = QuestionModel;

    open spec fn view(&self) -> QuestionModel {
        match *self {
            Question::Open(path) => QuestionModel::Open(path@),
            Question::OpenDirectory(path) => QuestionModel::OpenDirectory(path@),
            Question::Look(path) => QuestionModel::Look(path@),
            Question::Access(path) => QuestionModel::Access(path@),
            Question::Head(path) => QuestionModel::Head(path@),
            Question::Elf(path) => QuestionModel::Elf(path@),
            Question::Directory(path) => QuestionModel::Directory(path@),
        }
    }
}

impl Question {
    /// Whether two questions are the same.
    pub fn same(&self, other: &Question) -> (r: bool)
        ensures
            r == (self@ == other@),
    {
        match (self, other) {
            (Question::Open(a), Question::Open(b)) => same_bytes(a.as_slice(), b.as_slice()),
            (Question::OpenDirectory(a), Question::OpenDirectory(b)) => same_bytes(
                a.as_slice(),
                b.as_slice(),
            ),
            (Question::Look(a), Question::Look(b)) => same_bytes(a.as_slice(), b.as_slice()),
            (Question::Access(a), Question::Access(b)) => same_bytes(a.as_slice(), b.as_slice()),
            (Question::Head(a), Question::Head(b)) => same_bytes(a.as_slice(), b.as_slice()),
            (Question::Elf(a), Question::Elf(b)) => same_bytes(a.as_slice(), b.as_slice()),
            (Question::Directory(a), Question::Directory(b)) => same_bytes(
                a.as_slice(),
                b.as_slice(),
            ),
            _ => false,
        }
    }
}

/// Where the judgement of a binary failed.
#[derive(Clone, Copy, Debug, PartialEq, Eq, Structural)]
pub enum ElfStage {
    Header,
    ProgramHeaders,
    Size,
    Interpreter,
}

/// An answer.
#[derive(Debug)]
pub enum Reply {
    /// A path was opened. `env` says whether it is the system's `env`.
    Opened { path: Vec<u8>, facts: FileFacts, env: bool },
    /// A path was opened and could not be looked at.
    InspectFailed { path: Vec<u8>, failure: Failure },
    Facts(FileFacts),
    Access(bool),
    Bytes(Vec<u8>),
    ReadFailed(Failure),
    Elf(ElfInterpreter),
    ElfFailed(ElfStage, Failure),
    Directory(Option<Vec<u8>>),
    Failed(Failure),
}

/// What an [`Reply`] says.
pub enum ReplyModel {
    Opened { path: Seq<u8>, facts: FileFacts, env: bool },
    InspectFailed { path: Seq<u8>, text: Seq<char> },
    Facts(FileFacts),
    Access(bool),
    Bytes(Seq<u8>),
    ReadFailed(Seq<char>),
    Elf(ElfModel),
    ElfFailed(ElfStage, Seq<char>),
    Directory(Option<Seq<u8>>),
    Failed(i32, Seq<char>),
}

impl View for Reply {
    type V = ReplyModel;

    open spec fn view(&self) -> ReplyModel {
        match *self {
            Reply::Opened { path, facts, env } => ReplyModel::Opened { path: path@, facts, env },
            Reply::InspectFailed { path, failure } => ReplyModel::InspectFailed {
                path: path@,
                text: failure.text@,
            },
            Reply::Facts(facts) => ReplyModel::Facts(facts),
            Reply::Access(ok) => ReplyModel::Access(ok),
            Reply::Bytes(bytes) => ReplyModel::Bytes(bytes@),
            Reply::ReadFailed(f) => ReplyModel::ReadFailed(f.text@),
            Reply::Elf(e) => ReplyModel::Elf(e@),
            Reply::ElfFailed(stage, f) => ReplyModel::ElfFailed(stage, f.text@),
            Reply::Directory(d) => ReplyModel::Directory(crate::context::opt_bytes(d)),
            Reply::Failed(f) => ReplyModel::Failed(f.errno, f.text@),
        }
    }
}

/// A question and its answer.
#[derive(Debug)]
pub struct Fact {
    pub question: Question,
    pub reply: Reply,
}

/// The answer to a question among some facts: the first one counts.
pub open spec fn answer(facts: Seq<Fact>, q: QuestionModel) -> Option<ReplyModel>
    decreases facts.len(),
{
    if facts.len() == 0 {
        None
    } else if facts[0].question@ == q {
        Some(facts[0].reply@)
    } else {
        answer(facts.skip(1), q)
    }
}

/// Everything that the rules go by.
#[derive(Debug)]
pub struct World {
    /// The environment that commands inherit.
    pub context: ExecContext,
    /// Where commands are looked up where the environment does not say.
    pub default_path: Vec<u8>,
    pub realtime: RealtimeRange,
    pub facts: Vec<Fact>,
}

/// What a [`World`] holds.
pub struct WorldModel {
    pub context: ContextModel,
    pub default_path: Seq<u8>,
    pub realtime: RealtimeRange,
    pub facts: Seq<Fact>,
}

impl View for World {
    type V = WorldModel;

    open spec fn view(&self) -> WorldModel {
        WorldModel {
            context: self.context@,
            default_path: self.default_path@,
            realtime: self.realtime,
            facts: self.facts@,
        }
    }
}

/// Whether a reply is one to a question of this kind.
pub open spec fn fits(q: QuestionModel, reply: ReplyModel) -> bool {
    match q {
        QuestionModel::Open(_) | QuestionModel::OpenDirectory(_) => reply is Opened || reply
            is InspectFailed || reply is Failed,
        QuestionModel::Look(_) => reply is Facts || reply is Failed,
        QuestionModel::Access(_) => reply is Access,
        QuestionModel::Head(_) => reply is Bytes || reply is ReadFailed || reply is Failed,
        QuestionModel::Elf(_) => reply is Elf || reply is ElfFailed,
        QuestionModel::Directory(_) => reply is Directory,
    }
}

impl WorldModel {
    /// What is known about a question.
    pub open spec fn knows(self, q: QuestionModel) -> Option<ReplyModel> {
        answer(self.facts, q)
    }

    /// Whether every reply is one to its question.
    pub open spec fn sensible(self) -> bool {
        forall|q: QuestionModel| #[trigger]
            self.knows(q) matches Some(reply) ==> fits(q, reply)
    }
}

impl World {
    /// The answer to a question, if it is known.
    pub fn find(&self, question: &Question) -> (r: Option<&Reply>)
        ensures
            match r {
                Some(reply) => self@.knows(question@) == Some(reply@),
                None => self@.knows(question@) is None,
            },
    {
        let mut i: usize = 0;
        proof {
            assert(self.facts@.skip(0) =~= self.facts@);
        }
        while i < self.facts.len()
            invariant
                i <= self.facts@.len(),
                answer(self.facts@, question@) == answer(self.facts@.skip(i as int), question@),
            decreases self.facts@.len() - i,
        {
            proof {
                assert(self.facts@.skip(i as int)[0] == self.facts@[i as int]);
                assert(self.facts@.skip(i as int).skip(1) =~= self.facts@.skip(i + 1));
            }
            if self.facts[i].question.same(question) {
                return Some(&self.facts[i].reply);
            }
            i = i + 1;
        }
        None
    }
}

/// What came of going by the facts: something has to be known first, it failed, or it is found.
#[derive(Debug)]
pub enum Find<T> {
    Need(Question),
    Fail(Error),
    Found(T),
}

/// What a [`Find`] is.
pub enum FindModel<T> {
    Need(QuestionModel),
    Fail(ErrorModel),
    Found(T),
}

/// A text with a path in it.
pub fn quote_path(before: &str, path: &[u8], after: &str) -> (r: String)
    ensures
        r@ == before@ + report::shown_path(path@) + after@,
{
    let mut out = before.to_owned();
    out.append(escape_bytes(path).as_str());
    out.append(after);
    out
}

/// An error that a failed call leads to.
pub fn io_error(message: String, failure: &Failure) -> (r: Error)
    ensures
        r@ == crate::error::caused(message@, crate::error::failure(failure.text@)),
{
    Error::with_source(message, Error::msg(failure.text.clone()))
}

// ---------------------------------------------------------------------------
// Sorted paths
// ---------------------------------------------------------------------------

/// Whether some bytes come before others.
pub open spec fn less(a: Seq<u8>, b: Seq<u8>) -> bool
    decreases a.len(),
{
    b.len() > 0 && (a.len() == 0 || a[0] < b[0] || (a[0] == b[0] && less(a.skip(1), b.skip(1))))
}

fn bytes_less(a: &[u8], b: &[u8]) -> (r: bool)
    ensures
        r == less(a@, b@),
{
    let mut i: usize = 0;
    proof {
        assert(a@.skip(0) =~= a@);
        assert(b@.skip(0) =~= b@);
    }
    while i < a.len() && i < b.len() && a[i] == b[i]
        invariant
            i <= a@.len(),
            i <= b@.len(),
            less(a@, b@) == less(a@.skip(i as int), b@.skip(i as int)),
        decreases a@.len() - i,
    {
        proof {
            assert(a@.skip(i as int).skip(1) =~= a@.skip(i + 1));
            assert(b@.skip(i as int).skip(1) =~= b@.skip(i + 1));
        }
        i = i + 1;
    }
    if i >= b.len() {
        false
    } else if i >= a.len() {
        true
    } else {
        a[i] < b[i]
    }
}

/// Whether a path does not come before `p`.
pub open spec fn not_before(p: Seq<u8>) -> spec_fn(Seq<u8>) -> bool {
    |x: Seq<u8>| !less(x, p)
}

/// Sorted paths with one more: it goes where it belongs, and only once.
pub open spec fn with_path(paths: Seq<Seq<u8>>, p: Seq<u8>) -> Seq<Seq<u8>> {
    let k = text::first_where(paths, not_before(p));
    if k < paths.len() && paths[k] == p {
        paths
    } else {
        paths.insert(k, p)
    }
}

/// Adds a path to sorted paths.
pub fn add_sorted(paths: &mut Vec<Vec<u8>>, p: &[u8])
    ensures
        crate::context::view_paths(final(paths)@) == with_path(
            crate::context::view_paths(old(paths)@),
            p@,
        ),
{
    let ghost before = crate::context::view_paths(paths@);
    let mut k: usize = 0;
    while k < paths.len() && bytes_less(paths[k].as_slice(), p)
        invariant
            k <= paths@.len(),
            before == crate::context::view_paths(paths@),
            forall|j: int| 0 <= j < k ==> !not_before(p@)(#[trigger] before[j]),
        decreases paths@.len() - k,
    {
        assert(before[k as int] == paths@[k as int]@);
        k = k + 1;
    }
    proof {
        if k < paths@.len() {
            assert(before[k as int] == paths@[k as int]@);
        }
        text::lemma_first_where(before, not_before(p@), k as int);
    }
    if k < paths.len() && same_bytes(paths[k].as_slice(), p) {
        return;
    }
    paths.insert(k, copy_bytes(p));
    proof {
        assert(crate::context::view_paths(paths@) =~= before.insert(k as int, p@));
    }
}

/// Whether each path comes before the next.
pub open spec fn sorted(paths: Seq<Seq<u8>>) -> bool {
    forall|i: int, j: int| 0 <= i < j < paths.len() ==> less(#[trigger] paths[i], #[trigger] paths[j])
}

proof fn lemma_less_transitive(a: Seq<u8>, b: Seq<u8>, c: Seq<u8>)
    requires
        less(a, b),
        less(b, c),
    ensures
        less(a, c),
    decreases a.len(),
{
    if a.len() > 0 && a[0] == b[0] && b[0] == c[0] {
        lemma_less_transitive(a.skip(1), b.skip(1), c.skip(1));
    }
}

proof fn lemma_less_total(a: Seq<u8>, b: Seq<u8>)
    ensures
        less(a, b) || less(b, a) || a == b,
    decreases a.len(),
{
    if a.len() > 0 && b.len() > 0 && a[0] == b[0] {
        lemma_less_total(a.skip(1), b.skip(1));
        if a.skip(1) == b.skip(1) {
            assert(a =~= seq![a[0]] + a.skip(1));
            assert(b =~= seq![b[0]] + b.skip(1));
        }
    } else if a.len() == 0 && b.len() == 0 {
        assert(a =~= b);
    }
}

/// Paths stay sorted, and nothing but the new path comes in.
pub proof fn law_paths_stay_sorted(paths: Seq<Seq<u8>>, p: Seq<u8>)
    requires
        sorted(paths),
    ensures
        sorted(with_path(paths, p)),
        forall|x: Seq<u8>| #[trigger]
            with_path(paths, p).contains(x) <==> paths.contains(x) || x == p,
{
    let k = text::first_where(paths, not_before(p));
    let after = with_path(paths, p);
    text::lemma_first_where_bounds(paths, not_before(p));
    if k < paths.len() && paths[k] == p {
        assert forall|x: Seq<u8>| #[trigger] after.contains(x) <==> paths.contains(x) || x
            == p by {
            if x == p {
                assert(paths[k] == x);
            }
        }
    } else {
        assert forall|i: int, j: int| 0 <= i < j < after.len() implies less(
            #[trigger] after[i],
            #[trigger] after[j],
        ) by {
            if i < k && j == k {
                assert(!not_before(p)(paths[i]));
            } else if i < k && j < k {
                assert(less(paths[i], paths[j]));
            } else if i < k && j > k {
                assert(less(paths[i], paths[j - 1]));
            } else if i == k {
                assert(not_before(p)(paths[k]));
                lemma_less_total(paths[k], p);
                if j - 1 > k {
                    lemma_less_transitive(p, paths[k], paths[j - 1]);
                }
            } else {
                assert(less(paths[i - 1], paths[j - 1]));
            }
        }
        assert forall|x: Seq<u8>| #[trigger] after.contains(x) <==> paths.contains(x) || x
            == p by {
            if paths.contains(x) {
                let i = choose|i: int| 0 <= i < paths.len() && paths[i] == x;
                if i < k {
                    assert(after[i] == x);
                } else {
                    assert(after[i + 1] == x);
                }
            }
            if x == p {
                assert(after[k] == x);
            }
            if after.contains(x) && x != p {
                let i = choose|i: int| 0 <= i < after.len() && after[i] == x;
                if i < k {
                    assert(paths[i] == x);
                } else {
                    assert(paths[i - 1] == x);
                }
            }
        }
    }
}

} // verus!
