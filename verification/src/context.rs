//! The environment and the directory in which a command is looked up, and the paths involved.
//!
//! Names, values and paths are bytes: the operating system does not ask for UTF-8.

use vstd::prelude::*;
use vstd::slice::slice_subrange;

use crate::text::{self, copy_bytes, find_byte, push_bytes, same_bytes};

verus! {

/// One variable.
#[derive(Debug)]
pub struct Variable {
    pub name: Vec<u8>,
    pub value: Vec<u8>,
}

/// A set of environment variables.
#[derive(Debug)]
pub struct Environment {
    variables: Vec<Variable>,
}

/// The value of `name` in a list of variables: the last one of that name counts.
pub open spec fn value_in(v: Seq<Variable>, name: Seq<u8>) -> Option<Seq<u8>>
    decreases v.len(),
{
    if v.len() == 0 {
        None
    } else if v.last().name@ == name {
        Some(v.last().value@)
    } else {
        value_in(v.drop_last(), name)
    }
}

impl View for Environment {
    type V = Map<Seq<u8>, Seq<u8>>;

    closed spec fn view(&self) -> Map<Seq<u8>, Seq<u8>> {
        Map::new(
            |name: Seq<u8>| value_in(self.variables@, name) is Some,
            |name: Seq<u8>| value_in(self.variables@, name)->0,
        )
    }
}

/// The value that a map holds for a name, if it holds one.
pub open spec fn lookup(m: Map<Seq<u8>, Seq<u8>>, name: Seq<u8>) -> Option<Seq<u8>> {
    if m.contains_key(name) {
        Some(m[name])
    } else {
        None
    }
}

impl Environment {
    /// An environment without variables.
    pub fn new() -> (r: Self)
        ensures
            r@ == Map::<Seq<u8>, Seq<u8>>::empty(),
    {
        let r = Environment { variables: Vec::new() };
        proof {
            assert(r@ =~= Map::<Seq<u8>, Seq<u8>>::empty());
        }
        r
    }

    /// The value of a variable.
    pub fn get(&self, name: &[u8]) -> (r: Option<&Vec<u8>>)
        ensures
            match r {
                Some(value) => lookup(self@, name@) == Some(value@),
                None => lookup(self@, name@) is None,
            },
    {
        let mut i: usize = self.variables.len();
        proof {
            assert(self.variables@.take(i as int) =~= self.variables@);
        }
        while i > 0
            invariant
                i <= self.variables@.len(),
                value_in(self.variables@, name@) == value_in(
                    self.variables@.take(i as int),
                    name@,
                ),
            decreases i,
        {
            proof {
                let t = self.variables@.take(i as int);
                assert(t.last() == self.variables@[i - 1]);
                assert(t.drop_last() =~= self.variables@.take(i - 1));
            }
            i = i - 1;
            if same_bytes(self.variables[i].name.as_slice(), name) {
                return Some(&self.variables[i].value);
            }
        }
        None
    }

    /// Takes a variable out.
    pub fn remove(&mut self, name: &[u8])
        ensures
            final(self)@ == old(self)@.remove(name@),
    {
        let mut kept: Vec<Variable> = Vec::new();
        let mut i: usize = 0;
        while i < self.variables.len()
            invariant
                self.variables@ == old(self).variables@,
                i <= self.variables@.len(),
                forall|n: Seq<u8>| #[trigger]
                    value_in(kept@, n) == if n == name@ {
                        None
                    } else {
                        value_in(self.variables@.take(i as int), n)
                    },
            decreases self.variables@.len() - i,
        {
            let ghost before = kept@;
            proof {
                let t = self.variables@.take(i + 1);
                assert(t.last() == self.variables@[i as int]);
                assert(t.drop_last() =~= self.variables@.take(i as int));
            }
            if !same_bytes(self.variables[i].name.as_slice(), name) {
                let variable = Variable {
                    name: copy_bytes(self.variables[i].name.as_slice()),
                    value: copy_bytes(self.variables[i].value.as_slice()),
                };
                kept.push(variable);
                proof {
                    assert(kept@.drop_last() =~= before);
                    assert(kept@.last() == variable);
                    assert forall|n: Seq<u8>| #[trigger]
                        value_in(kept@, n) == if n == name@ {
                            None
                        } else {
                            value_in(self.variables@.take(i + 1), n)
                        } by {
                        assert(value_in(before, n) == if n == name@ {
                            None
                        } else {
                            value_in(self.variables@.take(i as int), n)
                        });
                    }
                }
            }
            i = i + 1;
        }
        proof {
            assert(self.variables@.take(i as int) =~= self.variables@);
        }
        self.variables = kept;
        proof {
            assert(self@ =~= old(self)@.remove(name@)) by {
                assert forall|n: Seq<u8>| self@.contains_key(n) == old(self)@.remove(
                    name@,
                ).contains_key(n) by {
                    assert(value_in(self.variables@, n) == if n == name@ {
                        None
                    } else {
                        value_in(old(self).variables@, n)
                    });
                }
            }
        }
    }

    /// Sets a variable.
    pub fn insert(&mut self, name: Vec<u8>, value: Vec<u8>)
        ensures
            final(self)@ == old(self)@.insert(name@, value@),
    {
        self.remove(name.as_slice());
        let ghost without = self.variables@;
        let ghost middle = self@;
        self.variables.push(Variable { name, value });
        proof {
            assert(self.variables@.drop_last() =~= without);
            assert(self@ =~= middle.insert(name@, value@));
            assert(self@ =~= old(self)@.insert(name@, value@));
        }
    }

    /// An environment with the same variables.
    pub fn duplicate(&self) -> (r: Self)
        ensures
            r@ == self@,
    {
        let mut variables: Vec<Variable> = Vec::new();
        let mut i: usize = 0;
        while i < self.variables.len()
            invariant
                i <= self.variables@.len(),
                forall|n: Seq<u8>| #[trigger]
                    value_in(variables@, n) == value_in(self.variables@.take(i as int), n),
            decreases self.variables@.len() - i,
        {
            let ghost before = variables@;
            let variable = Variable {
                name: copy_bytes(self.variables[i].name.as_slice()),
                value: copy_bytes(self.variables[i].value.as_slice()),
            };
            variables.push(variable);
            proof {
                let t = self.variables@.take(i + 1);
                assert(t.last() == self.variables@[i as int]);
                assert(t.drop_last() =~= self.variables@.take(i as int));
                assert(variables@.drop_last() =~= before);
                assert(variables@.last() == variable);
                assert forall|n: Seq<u8>| #[trigger]
                    value_in(variables@, n) == value_in(self.variables@.take(i + 1), n) by {
                    assert(value_in(before, n) == value_in(self.variables@.take(i as int), n));
                }
            }
            i = i + 1;
        }
        proof {
            assert(self.variables@.take(i as int) =~= self.variables@);
        }
        let r = Environment { variables };
        proof {
            assert(r@ =~= self@);
        }
        r
    }

    /// Whether every variable of this environment has the same value in `other`.
    fn within(&self, other: &Environment) -> (r: bool)
        ensures
            r == (forall|n: Seq<u8>| #[trigger]
                self@.contains_key(n) ==> lookup(other@, n) == Some(self@[n])),
    {
        let mut i: usize = 0;
        while i < self.variables.len()
            invariant
                i <= self.variables@.len(),
                forall|j: int|
                    0 <= j < i ==> lookup(other@, (#[trigger] self.variables@[j]).name@) == Some(
                        self@[self.variables@[j].name@],
                    ),
            decreases self.variables@.len() - i,
        {
            let name = self.variables[i].name.as_slice();
            proof {
                lemma_value_present(self.variables@, i as int);
            }
            assert(self@.contains_key(name@));
            let here = self.get(name);
            let there = other.get(name);
            match (here, there) {
                (Some(a), Some(b)) => {
                    if !same_bytes(a.as_slice(), b.as_slice()) {
                        return false;
                    }
                },
                _ => {
                    return false;
                },
            }
            i = i + 1;
        }
        proof {
            assert forall|n: Seq<u8>| #[trigger] self@.contains_key(n) implies lookup(other@, n)
                == Some(self@[n]) by {
                lemma_value_source(self.variables@, n);
                let j = choose|j: int|
                    0 <= j < self.variables@.len() && (#[trigger] self.variables@[j]).name@ == n;
                assert(self.variables@[j].name@ == n);
            }
        }
        true
    }

    /// Whether two environments hold the same variables.
    pub fn same(&self, other: &Environment) -> (r: bool)
        ensures
            r == (self@ == other@),
    {
        let a = self.within(other);
        let b = other.within(self);
        proof {
            if a && b {
                assert forall|n: Seq<u8>| self@.contains_key(n) == other@.contains_key(n) by {
                    if self@.contains_key(n) {
                        assert(lookup(other@, n) is Some);
                    }
                    if other@.contains_key(n) {
                        assert(lookup(self@, n) is Some);
                    }
                }
                assert(self@ =~= other@);
            }
        }
        a && b
    }
}

proof fn lemma_value_present(v: Seq<Variable>, i: int)
    requires
        0 <= i < v.len(),
    ensures
        value_in(v, v[i].name@) is Some,
    decreases v.len(),
{
    if i < v.len() - 1 {
        lemma_value_present(v.drop_last(), i);
        assert(v.drop_last()[i] == v[i]);
    }
}

proof fn lemma_value_source(v: Seq<Variable>, name: Seq<u8>)
    requires
        value_in(v, name) is Some,
    ensures
        exists|j: int| 0 <= j < v.len() && (#[trigger] v[j]).name@ == name,
    decreases v.len(),
{
    if v.last().name@ == name {
        assert(v[v.len() - 1].name@ == name);
    } else {
        lemma_value_source(v.drop_last(), name);
        let j = choose|j: int|
            0 <= j < v.drop_last().len() && (#[trigger] v.drop_last()[j]).name@ == name;
        assert(v[j].name@ == name);
    }
}

// ---------------------------------------------------------------------------
// Paths
// ---------------------------------------------------------------------------

/// Whether a path begins at the root.
pub open spec fn is_absolute(path: Seq<u8>) -> bool {
    path.len() > 0 && path[0] == 0x2f
}

/// Whether a path begins at the root.
pub fn absolute(path: &[u8]) -> (r: bool)
    ensures
        r == is_absolute(path@),
{
    path.len() > 0 && path[0] == 0x2f
}

/// Whether a path has more than one component, or begins at the root.
pub fn has_slash(path: &[u8]) -> (r: bool)
    ensures
        r == path@.contains(0x2f),
{
    let k: usize = find_byte(path, 0x2f);
    proof {
        text::lemma_first_where_bounds(path@, text::is_byte(0x2f));
        if k < path@.len() {
            assert(path@[k as int] == 0x2f);
        } else {
            assert forall|j: int| 0 <= j < path@.len() implies path@[j] != 0x2f by {
                assert(!text::is_byte(0x2f)(path@[j]));
            }
        }
    }
    k < path.len()
}

/// `path` taken from the directory `base`: a path that begins at the root stands for itself.
pub open spec fn joined_path(base: Seq<u8>, path: Seq<u8>) -> Seq<u8> {
    if is_absolute(path) || base.len() == 0 {
        path
    } else if base.last() == 0x2f {
        base + path
    } else {
        base.push(0x2f) + path
    }
}

/// `path` taken from the directory `base`.
pub fn join_path(base: &[u8], path: &[u8]) -> (r: Vec<u8>)
    ensures
        r@ == joined_path(base@, path@),
{
    if absolute(path) || base.len() == 0 {
        return copy_bytes(path);
    }
    let mut out = copy_bytes(base);
    if base[base.len() - 1] != 0x2f {
        out.push(0x2f);
    }
    push_bytes(&mut out, path);
    out
}

/// The directories of a search path: what stands between its colons.
pub open spec fn search_dirs(path: Seq<u8>) -> Seq<Seq<u8>>
    decreases path.len(),
{
    let k = text::first_where(path, text::is_byte(0x3a));
    if 0 <= k < path.len() {
        seq![path.take(k)] + search_dirs(path.skip(k + 1))
    } else {
        seq![path]
    }
}

/// Runs of bytes as sequences.
pub open spec fn view_paths(v: Seq<Vec<u8>>) -> Seq<Seq<u8>> {
    Seq::new(v.len(), |i: int| v[i]@)
}

/// The directories of a search path.
pub fn split_search_path(path: &[u8]) -> (r: Vec<Vec<u8>>)
    ensures
        view_paths(r@) == search_dirs(path@),
{
    let mut out: Vec<Vec<u8>> = Vec::new();
    let mut rest: &[u8] = path;
    proof {
        assert(view_paths(out@) + search_dirs(rest@) =~= search_dirs(path@));
    }
    loop
        invariant
            view_paths(out@) + search_dirs(rest@) == search_dirs(path@),
        decreases rest@.len(),
    {
        let k: usize = find_byte(rest, 0x3a);
        let ghost before = out@;
        let ghost whole = rest@;
        if k >= rest.len() {
            let dir = copy_bytes(rest);
            out.push(dir);
            proof {
                assert(view_paths(out@) =~= view_paths(before) + seq![whole]);
            }
            return out;
        }
        let dir = copy_bytes(slice_subrange(rest, 0, k));
        out.push(dir);
        rest = slice_subrange(rest, k + 1, rest.len());
        proof {
            assert(rest@ =~= whole.skip(k + 1));
            assert(dir@ =~= whole.take(k as int));
            assert(view_paths(out@) =~= view_paths(before).push(dir@));
            assert(view_paths(before) + (seq![dir@] + search_dirs(rest@)) =~= view_paths(out@)
                + search_dirs(rest@));
        }
    }
}

// ---------------------------------------------------------------------------
// Context
// ---------------------------------------------------------------------------

/// The environment and the directory that a command starts with. Without a directory, it starts
/// in that of the caller.
#[derive(Debug)]
pub struct ExecContext {
    pub environment: Environment,
    pub cwd: Option<Vec<u8>>,
}

/// What an [`ExecContext`] holds.
pub struct ContextModel {
    pub environment: Map<Seq<u8>, Seq<u8>>,
    pub cwd: Option<Seq<u8>>,
}

/// The bytes of an optional path.
pub open spec fn opt_bytes(v: Option<Vec<u8>>) -> Option<Seq<u8>> {
    match v {
        Some(b) => Some(b@),
        None => None,
    }
}

impl View for ExecContext {
    type V = ContextModel;

    open spec fn view(&self) -> ContextModel {
        ContextModel { environment: self.environment@, cwd: opt_bytes(self.cwd) }
    }
}

/// The name of the variable that holds the search path.
pub open spec fn path_variable() -> Seq<u8> {
    seq![0x50u8, 0x41u8, 0x54u8, 0x48u8]
}

/// The name of the variable that holds the search path.
pub fn path_name() -> (r: Vec<u8>)
    ensures
        r@ == path_variable(),
{
    let mut out: Vec<u8> = Vec::new();
    out.push(0x50);
    out.push(0x41);
    out.push(0x54);
    out.push(0x48);
    out
}

impl ContextModel {
    /// The path that a relative path stands for in this context.
    pub open spec fn path(self, path: Seq<u8>) -> Seq<u8> {
        match self.cwd {
            Some(cwd) => joined_path(cwd, path),
            None => path,
        }
    }

    /// The search path, or `fallback` where the environment sets none.
    pub open spec fn search_path(self, fallback: Seq<u8>) -> Seq<u8> {
        match lookup(self.environment, path_variable()) {
            Some(value) => value,
            None => fallback,
        }
    }
}

impl ExecContext {
    /// The path that a relative path stands for in this context.
    pub fn path(&self, path: &[u8]) -> (r: Vec<u8>)
        ensures
            r@ == self@.path(path@),
    {
        match &self.cwd {
            Some(cwd) => join_path(cwd.as_slice(), path),
            None => copy_bytes(path),
        }
    }

    /// The search path, or `fallback` where the environment sets none.
    pub fn search_path(&self, fallback: &[u8]) -> (r: Vec<u8>)
        ensures
            r@ == self@.search_path(fallback@),
    {
        let name = path_name();
        match self.environment.get(name.as_slice()) {
            Some(value) => copy_bytes(value.as_slice()),
            None => copy_bytes(fallback),
        }
    }

    /// A context with the same contents.
    pub fn duplicate(&self) -> (r: Self)
        ensures
            r@ == self@,
    {
        let cwd = match &self.cwd {
            Some(cwd) => Some(copy_bytes(cwd.as_slice())),
            None => None,
        };
        ExecContext { environment: self.environment.duplicate(), cwd }
    }

    /// Whether two contexts have the same contents.
    pub fn same(&self, other: &ExecContext) -> (r: bool)
        ensures
            r == (self@ == other@),
    {
        let cwd = match (&self.cwd, &other.cwd) {
            (Some(a), Some(b)) => same_bytes(a.as_slice(), b.as_slice()),
            (None, None) => true,
            _ => false,
        };
        cwd && self.environment.same(&other.environment)
    }
}

} // verus!
