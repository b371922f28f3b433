//! The interpreters of a script as they are shown.

use vstd::prelude::*;

use crate::facts::{Find, FindModel, World, WorldModel};
use crate::follow::{self, find_env_target, resolve};
use crate::shebang::{
    self, parse_shebang_exec_interpreters_in_context, ExecInterpreter, InterpreterModel,
};
use crate::text::{self, readable_text};

verus! {

/// Paths as texts.
pub open spec fn readable_paths(v: Seq<Seq<u8>>) -> Seq<Seq<char>> {
    Seq::new(v.len(), |i: int| text::readable(v[i]))
}

/// What an interpreter that needs no further lookup is shown as.
pub open spec fn plain_display(i: InterpreterModel) -> Seq<Seq<char>> {
    match i {
        InterpreterModel::Candidate(path) => seq![text::readable(path)],
        InterpreterModel::ShebangCandidate { path, argument } => seq![text::readable(path)],
        InterpreterModel::SearchCandidates(paths) => readable_paths(paths),
        InterpreterModel::EnvCommand(_) => Seq::empty(),
        InterpreterModel::Missing { command } => seq![command],
        InterpreterModel::Unresolved { reason } => seq![reason],
    }
}

/// What an interpreter is shown as: for `env`, what it is asked to run.
pub open spec fn display(w: WorldModel, i: InterpreterModel) -> FindModel<Seq<Seq<char>>> {
    match i {
        InterpreterModel::EnvCommand(plan) => match follow::env_target(w, plan, w.context) {
            FindModel::Need(q) => FindModel::Need(q),
            FindModel::Fail(e) => FindModel::Fail(e),
            FindModel::Found(None) => FindModel::Found(Seq::empty()),
            FindModel::Found(Some(c)) => match follow::target_interpreter(w, c) {
                FindModel::Need(q) => FindModel::Need(q),
                FindModel::Fail(e) => FindModel::Fail(e),
                FindModel::Found(target) => FindModel::Found(plain_display(target)),
            },
        },
        _ => FindModel::Found(plain_display(i)),
    }
}

/// What interpreters are shown as, from one on.
pub open spec fn displays(
    w: WorldModel,
    list: Seq<InterpreterModel>,
    from: int,
    before: Seq<Seq<char>>,
) -> FindModel<Seq<Seq<char>>>
    decreases list.len() - from,
{
    if from < 0 || from >= list.len() {
        FindModel::Found(before)
    } else {
        match display(w, list[from]) {
            FindModel::Found(more) => displays(w, list, from + 1, before + more),
            other => other,
        }
    }
}

pub open spec fn find_texts(r: Find<Vec<String>>) -> FindModel<Seq<Seq<char>>> {
    match r {
        Find::Need(q) => FindModel::Need(q@),
        Find::Fail(e) => FindModel::Fail(e@),
        Find::Found(x) => FindModel::Found(text::texts(x@)),
    }
}

fn push_text(out: &mut Vec<String>, s: String)
    ensures
        text::texts(final(out)@) == text::texts(old(out)@) + seq![s@],
{
    let ghost said = s@;
    out.push(s);
    assert(text::texts(out@) =~= text::texts(old(out)@) + seq![said]);
}

fn push_display(out: &mut Vec<String>, i: &ExecInterpreter)
    ensures
        text::texts(final(out)@) == text::texts(old(out)@) + plain_display(i@),
{
    match i {
        ExecInterpreter::Candidate(path) => push_text(out, readable_text(path.as_slice())),
        ExecInterpreter::ShebangCandidate { path, argument } => push_text(
            out,
            readable_text(path.as_slice()),
        ),
        ExecInterpreter::SearchCandidates(paths) => {
            let ghost start = text::texts(out@);
            let ghost all = readable_paths(crate::context::view_paths(paths@));
            let mut k: usize = 0;
            assert(start + all.take(0) =~= start);
            while k < paths.len()
                invariant
                    k <= paths@.len(),
                    all == readable_paths(crate::context::view_paths(paths@)),
                    text::texts(out@) == start + all.take(k as int),
                decreases paths@.len() - k,
            {
                let s = readable_text(paths[k].as_slice());
                proof {
                    assert(s@ == all[k as int]);
                    assert(start + all.take(k + 1) =~= start + all.take(k as int) + seq![
                        all[k as int],
                    ]);
                }
                push_text(out, s);
                k = k + 1;
            }
            assert(all.take(k as int) =~= all);
        },
        ExecInterpreter::EnvCommand(_) => {
            assert(text::texts(out@) + Seq::<Seq<char>>::empty() =~= text::texts(out@));
        },
        ExecInterpreter::Missing { command } => push_text(out, command.clone()),
        ExecInterpreter::Unresolved { reason } => push_text(out, (*reason).to_owned()),
    }
}

/// What runs a script, as it is shown.
pub fn parse_shebang_exec_paths(w: &World, bytes: &[u8]) -> (r: Find<Vec<String>>)
    ensures
        find_texts(r) == displays(
            w@,
            shebang::script_interpreters(bytes@, w@.context, w@.realtime),
            0,
            Seq::empty(),
        ),
{
    let list = parse_shebang_exec_interpreters_in_context(bytes, &w.context, w.realtime);
    let ghost all = shebang::view_interpreters(list@);
    let ghost wanted = displays(w@, all, 0, Seq::empty());
    let mut out: Vec<String> = Vec::new();
    let mut i: usize = 0;
    assert(text::texts(out@) =~= Seq::empty());
    while i < list.len()
        invariant
            i <= list@.len(),
            all == shebang::view_interpreters(list@),
            all == shebang::script_interpreters(bytes@, w@.context, w@.realtime),
            wanted == displays(w@, all, 0, Seq::empty()),
            wanted == displays(w@, all, i as int, text::texts(out@)),
        decreases list@.len() - i,
    {
        assert(all[i as int] == list@[i as int]@);
        match &list[i] {
            ExecInterpreter::EnvCommand(plan) => match find_env_target(w, plan, &w.context) {
                Find::Need(q) => return Find::Need(q),
                Find::Fail(e) => return Find::Fail(e),
                Find::Found(None) => {
                    assert(text::texts(out@) + Seq::<Seq<char>>::empty() =~= text::texts(out@));
                },
                Find::Found(Some(command)) => match resolve(w, &command) {
                    Find::Need(q) => return Find::Need(q),
                    Find::Fail(e) => return Find::Fail(e),
                    Find::Found(target) => {
                        push_display(&mut out, &target);
                    },
                },
            },
            other => {
                push_display(&mut out, other);
            },
        }
        i = i + 1;
    }
    Find::Found(out)
}

} // verus!
