//! Expansion of environment references in the arguments of the managed command.
//!
//! `${NAME}` stands for a variable, `${NAME:-default}` for a variable or, where it is unset or
//! empty, for a default that may hold references itself, and `$$` for a dollar sign. Any other
//! dollar sign stands for itself.

use vstd::prelude::*;
use vstd::slice::slice_subrange;

use crate::context::{self, Environment};
use crate::env_split::{self, variable_name};
use crate::error::{self, Error, ErrorModel};
use crate::text::{self, chars_of, escape_str, push_chars, text_of, utf8_text};

verus! {

/// How deep defaults may be nested.
pub const MAX_ENV_EXPANSION_DEPTH: usize = 32;

/// What an open brace belongs to.
#[derive(Clone, Copy, Debug, PartialEq, Eq, Structural)]
pub enum EnvBraceFrame {
    /// A reference.
    Expansion,
    /// A text that only looks like a reference, since its dollar sign is escaped.
    Literal,
}

/// What stands at the front of a text, as far as braces are concerned.
pub struct BraceStep {
    /// The braces that are open behind it.
    pub stack: Seq<EnvBraceFrame>,
    /// How long it is.
    pub len: int,
    /// Whether it closes a brace.
    pub closes: bool,
}

/// Reads what stands at the front of `s`, with the braces of `stack` open. A closing brace closes
/// the last one of them.
pub open spec fn brace_step(s: Seq<char>, stack: Seq<EnvBraceFrame>) -> BraceStep {
    let literal = EnvBraceFrame::Literal;
    if s.len() > 2 && s[0] == '$' && s[1] == '$' && s[2] == '{' {
        BraceStep { stack: stack.push(literal), len: 3, closes: false }
    } else if s.len() > 1 && s[0] == '$' && s[1] == '$' {
        BraceStep { stack, len: 2, closes: false }
    } else if s.len() > 1 && s[0] == '$' && s[1] == '{' {
        BraceStep { stack: stack.push(EnvBraceFrame::Expansion), len: 2, closes: false }
    } else if s.len() > 0 && s[0] == '{' && stack.len() > 0 && stack.last() == literal {
        BraceStep { stack: stack.push(literal), len: 1, closes: false }
    } else if s.len() > 0 && s[0] == '}' && stack.len() > 0 {
        BraceStep { stack: stack.drop_last(), len: 1, closes: true }
    } else {
        BraceStep { stack, len: 1, closes: false }
    }
}

/// Where the brace that closes the first one of `stack` stands in `s`.
pub open spec fn closing_brace(s: Seq<char>, stack: Seq<EnvBraceFrame>) -> Option<int>
    decreases s.len(),
{
    let step = brace_step(s, stack);
    if s.len() == 0 {
        None
    } else if step.closes && step.stack.len() == 0 {
        Some(0)
    } else if s.len() < step.len {
        None
    } else {
        match closing_brace(s.skip(step.len), step.stack) {
            Some(k) => Some(step.len + k),
            None => None,
        }
    }
}

/// Where the operator `:-` stands in `s` outside of all braces.
pub open spec fn default_operator(s: Seq<char>, stack: Seq<EnvBraceFrame>) -> Option<int>
    decreases s.len(),
{
    let step = brace_step(s, stack);
    if s.len() == 0 {
        None
    } else if stack.len() == 0 && s.len() > 1 && s[0] == ':' && s[1] == '-' {
        Some(0)
    } else if s.len() < step.len {
        None
    } else {
        match default_operator(s.skip(step.len), step.stack) {
            Some(k) => Some(step.len + k),
            None => None,
        }
    }
}

/// How many levels of nesting are left below `depth`.
pub open spec fn levels_left(depth: int) -> int {
    if depth <= MAX_ENV_EXPANSION_DEPTH + 1 {
        MAX_ENV_EXPANSION_DEPTH + 2 - depth
    } else {
        0
    }
}

/// What a text expands to, or the message of the error. `depth` is how deep the text is nested.
pub open spec fn expanded(s: Seq<char>, depth: nat, env: Map<Seq<u8>, Seq<u8>>) -> Result<
    Seq<char>,
    Seq<char>,
>
    decreases levels_left(depth as int), 0nat, s.len(),
{
    if depth > MAX_ENV_EXPANSION_DEPTH {
        Err("environment expansion nesting exceeds 32 levels"@)
    } else if s.len() == 0 {
        Ok(Seq::empty())
    } else if s[0] != '$' || s.len() == 1 {
        prefixed(seq![s[0]], expanded(s.skip(1), depth, env))
    } else if s[1] == '$' {
        prefixed(seq!['$'], expanded(s.skip(2), depth, env))
    } else if s[1] == '{' {
        match closing_brace(s.skip(2), seq![EnvBraceFrame::Expansion]) {
            None => Err("missing closing '}'"@),
            Some(k) => if 0 <= k < s.len() - 2 {
                match braced(s.skip(2).take(k), depth + 1, env) {
                    Err(e) => Err(e),
                    Ok(value) => prefixed(value, expanded(s.skip(k + 3), depth, env)),
                }
            } else {
                Err("missing closing '}'"@)
            },
        }
    } else {
        prefixed(seq!['$'], expanded(s.skip(1), depth, env))
    }
}

/// A text in front of the rest, unless the rest has an error.
pub open spec fn prefixed(front: Seq<char>, rest: Result<Seq<char>, Seq<char>>) -> Result<
    Seq<char>,
    Seq<char>,
> {
    match rest {
        Ok(r) => Ok(front + r),
        Err(e) => Err(e),
    }
}

/// What the text between the braces of a reference expands to.
pub open spec fn braced(body: Seq<char>, depth: nat, env: Map<Seq<u8>, Seq<u8>>) -> Result<
    Seq<char>,
    Seq<char>,
>
    decreases levels_left(depth as int), 2nat, 0nat,
{
    match default_operator(body, Seq::empty()) {
        Some(k) => {
            let name = body.take(k);
            if !env_split::is_variable_name(name) {
                Err("invalid environment variable name '"@ + text::escape(name) + "'"@)
            } else {
                value_or_default(name, Some(body.skip(k + 2)), depth, env)
            }
        },
        None => if env_split::is_variable_name(body) {
            value_or_default(body, None, depth, env)
        } else {
            Err("unsupported braced environment expansion '${"@ + text::escape(body) + "}'"@)
        },
    }
}

/// The value of a variable. A default takes the place of a value that is unset or empty.
pub open spec fn value_or_default(
    name: Seq<char>,
    default: Option<Seq<char>>,
    depth: nat,
    env: Map<Seq<u8>, Seq<u8>>,
) -> Result<Seq<char>, Seq<char>>
    decreases levels_left(depth as int), 1nat, 0nat,
{
    let found = context::lookup(env, vstd::utf8::encode_utf8(name));
    if found is Some && !vstd::utf8::valid_utf8(found->0) {
        Err("environment variable '"@ + name + "' contains non-Unicode data"@)
    } else {
        let value = match found {
            Some(v) => vstd::utf8::decode_utf8(v),
            None => Seq::empty(),
        };
        match default {
            Some(d) => if value.len() > 0 {
                Ok(value)
            } else {
                expanded(d, depth, env)
            },
            None => Ok(value),
        }
    }
}

/// What reads the front of a text.
struct Step {
    len: usize,
    closes: bool,
}

fn take_step(s: &[char], at: usize, stack: &mut Vec<EnvBraceFrame>) -> (r: Step)
    requires
        at < s@.len(),
    ensures
        ({
            let step = brace_step(s@.skip(at as int), old(stack)@);
            &&& r.len == step.len
            &&& r.closes == step.closes
            &&& final(stack)@ == step.stack
            &&& 0 < r.len <= s@.len() - at
        }),
{
    let ghost t = s@.skip(at as int);
    let left: usize = s.len() - at;
    proof {
        assert(t[0] == s@[at as int]);
        if left > 1 {
            assert(t[1] == s@[at + 1]);
        }
        if left > 2 {
            assert(t[2] == s@[at + 2]);
        }
    }
    if s[at] == '$' && left > 1 {
        if s[at + 1] == '$' {
            if left > 2 && s[at + 2] == '{' {
                stack.push(EnvBraceFrame::Literal);
                return Step { len: 3, closes: false };
            }
            return Step { len: 2, closes: false };
        }
        if s[at + 1] == '{' {
            stack.push(EnvBraceFrame::Expansion);
            return Step { len: 2, closes: false };
        }
    }
    if s[at] == '{' && stack.len() > 0 && stack[stack.len() - 1] == EnvBraceFrame::Literal {
        stack.push(EnvBraceFrame::Literal);
        return Step { len: 1, closes: false };
    }
    if s[at] == '}' && stack.len() > 0 {
        let _ = stack.pop();
        return Step { len: 1, closes: true };
    }
    Step { len: 1, closes: false }
}

/// Where the brace that closes a reference stands, counted from the front of `s`, which is the
/// text behind the opening brace.
pub fn find_matching_brace(s: &[char]) -> (r: Option<usize>)
    ensures
        match r {
            Some(k) => closing_brace(s@, seq![EnvBraceFrame::Expansion]) == Some(k as int) && k
                < s@.len(),
            None => closing_brace(s@, seq![EnvBraceFrame::Expansion]) is None,
        },
{
    let mut stack: Vec<EnvBraceFrame> = Vec::new();
    stack.push(EnvBraceFrame::Expansion);
    let mut i: usize = 0;
    let ghost wanted = closing_brace(s@, seq![EnvBraceFrame::Expansion]);
    proof {
        assert(s@.skip(0) =~= s@);
        assert(stack@ =~= seq![EnvBraceFrame::Expansion]);
    }
    while i < s.len()
        invariant
            i <= s@.len(),
            wanted == closing_brace(s@, seq![EnvBraceFrame::Expansion]),
            wanted == match closing_brace(s@.skip(i as int), stack@) {
                Some(k) => Some(i + k),
                None => None::<int>,
            },
        decreases s@.len() - i,
    {
        let step = take_step(s, i, &mut stack);
        if step.closes && stack.len() == 0 {
            return Some(i);
        }
        proof {
            assert(s@.skip(i as int).skip(step.len as int) =~= s@.skip(i + step.len));
        }
        i = i + step.len;
    }
    None
}

/// Where the operator `:-` stands outside of all braces.
fn find_default_operator(s: &[char]) -> (r: Option<usize>)
    ensures
        match r {
            Some(k) => default_operator(s@, Seq::empty()) == Some(k as int) && k + 2 <= s@.len(),
            None => default_operator(s@, Seq::empty()) is None,
        },
{
    let mut stack: Vec<EnvBraceFrame> = Vec::new();
    let mut i: usize = 0;
    let ghost wanted = default_operator(s@, Seq::empty());
    proof {
        assert(s@.skip(0) =~= s@);
        assert(stack@ =~= Seq::empty());
    }
    while i < s.len()
        invariant
            i <= s@.len(),
            wanted == default_operator(s@, Seq::empty()),
            wanted == match default_operator(s@.skip(i as int), stack@) {
                Some(k) => Some(i + k),
                None => None::<int>,
            },
        decreases s@.len() - i,
    {
        if stack.len() == 0 && s[i] == ':' && s.len() - i > 1 && s[i + 1] == '-' {
            return Some(i);
        }
        let step = take_step(s, i, &mut stack);
        proof {
            assert(s@.skip(i as int).skip(step.len as int) =~= s@.skip(i + step.len));
        }
        i = i + step.len;
    }
    None
}

/// The name and the default of a reference that has a default.
pub fn split_braced_default<'a>(body: &'a [char]) -> (r: Option<(&'a [char], &'a [char])>)
    ensures
        match r {
            Some((name, default)) => {
                &&& default_operator(body@, Seq::empty()) matches Some(k)
                &&& name@ == body@.take(k)
                &&& default@ == body@.skip(k + 2)
            },
            None => default_operator(body@, Seq::empty()) is None,
        },
{
    match find_default_operator(body) {
        None => None,
        Some(k) => {
            assert(body.len() == body@.len());
            let name = slice_subrange(body, 0, k);
            let default = slice_subrange(body, k + 2, body.len());
            proof {
                assert(name@ =~= body@.take(k as int));
                assert(default@ =~= body@.skip(k + 2));
            }
            Some((name, default))
        },
    }
}

/// The outcome of an expansion as the contracts speak of it.
pub open spec fn expansion_result(r: Result<Vec<char>, Error>) -> Result<Seq<char>, ErrorModel> {
    match r {
        Ok(v) => Ok(v@),
        Err(e) => Err(e@),
    }
}

/// The outcome of an expansion, with the message made an error.
pub open spec fn with_error(r: Result<Seq<char>, Seq<char>>) -> Result<Seq<char>, ErrorModel> {
    match r {
        Ok(v) => Ok(v),
        Err(e) => Err(error::failure(e)),
    }
}

fn expand_braced_env(body: &[char], depth: usize, env: &Environment) -> (r: Result<Vec<char>, Error>)
    ensures
        expansion_result(r) == with_error(braced(body@, depth as nat, env@)),
    decreases levels_left(depth as int), 2nat, 0nat,
{
    match split_braced_default(body) {
        Some((name, default)) => {
            if !variable_name(name) {
                let name_text = text_of(name);
                let mut message = "invalid environment variable name '".to_owned();
                message.append(escape_str(name_text.as_str()).as_str());
                message.append("'");
                return Err(Error::msg(message));
            }
            resolve_env_value(name, Some(default), depth, env)
        },
        None => {
            if variable_name(body) {
                resolve_env_value(body, None, depth, env)
            } else {
                let body_text = text_of(body);
                let mut message = "unsupported braced environment expansion '${".to_owned();
                message.append(escape_str(body_text.as_str()).as_str());
                message.append("}'");
                Err(Error::msg(message))
            }
        },
    }
}

/// The characters of an optional slice.
pub open spec fn opt_slice(v: Option<&[char]>) -> Option<Seq<char>> {
    match v {
        Some(c) => Some(c@),
        None => None,
    }
}

fn resolve_env_value(name: &[char], default: Option<&[char]>, depth: usize, env: &Environment) -> (r:
    Result<Vec<char>, Error>)
    ensures
        expansion_result(r) == with_error(
            value_or_default(name@, opt_slice(default), depth as nat, env@),
        ),
    decreases levels_left(depth as int), 1nat, 0nat,
{
    let name_text = text_of(name);
    let mut value: Vec<char> = Vec::new();
    match env.get(name_text.as_str().as_bytes()) {
        None => {
            proof {
                assert(value@ =~= Seq::empty());
            }
        },
        Some(bytes) => match utf8_text(bytes.as_slice()) {
            Ok(s) => {
                value = chars_of(s.as_str());
            },
            Err(_) => {
                let mut message = "environment variable '".to_owned();
                message.append(name_text.as_str());
                message.append("' contains non-Unicode data");
                return Err(Error::msg(message));
            },
        },
    }
    match default {
        Some(fallback) => {
            if value.len() > 0 {
                Ok(value)
            } else {
                expand_command_arg_with_depth(fallback, depth, env)
            }
        },
        None => Ok(value),
    }
}

/// Expands a text that is nested `depth` deep.
pub fn expand_command_arg_with_depth(arg: &[char], depth: usize, env: &Environment) -> (r: Result<
    Vec<char>,
    Error,
>)
    ensures
        expansion_result(r) == with_error(expanded(arg@, depth as nat, env@)),
    decreases levels_left(depth as int), 0nat, arg@.len(),
{
    if depth > MAX_ENV_EXPANSION_DEPTH {
        return Err(Error::msg("environment expansion nesting exceeds 32 levels".to_owned()));
    }
    let mut out: Vec<char> = Vec::new();
    let mut i: usize = 0;
    let ghost wanted = expanded(arg@, depth as nat, env@);
    proof {
        assert(arg@.skip(0) =~= arg@);
        match wanted {
            Ok(v) => {
                assert(Seq::<char>::empty() + v =~= v);
            },
            Err(_) => {},
        }
    }
    while i < arg.len()
        invariant
            depth <= MAX_ENV_EXPANSION_DEPTH,
            i <= arg@.len(),
            wanted == expanded(arg@, depth as nat, env@),
            wanted == prefixed(out@, expanded(arg@.skip(i as int), depth as nat, env@)),
        decreases arg@.len() - i,
    {
        let ghost s = arg@.skip(i as int);
        let ghost before = out@;
        let left: usize = arg.len() - i;
        proof {
            assert(s[0] == arg@[i as int]);
            if left > 1 {
                assert(s[1] == arg@[i + 1]);
                assert(s.skip(2) =~= arg@.skip(i + 2));
            }
            assert(s.skip(1) =~= arg@.skip(i + 1));
        }
        if arg[i] != '$' || left == 1 {
            out.push(arg[i]);
            proof {
                lemma_prefixed(before, seq![s[0]], expanded(arg@.skip(i + 1), depth as nat, env@));
                assert(before + seq![s[0]] =~= out@);
            }
            i = i + 1;
        } else if arg[i + 1] == '$' {
            out.push('$');
            proof {
                lemma_prefixed(before, seq!['$'], expanded(arg@.skip(i + 2), depth as nat, env@));
                assert(before + seq!['$'] =~= out@);
            }
            i = i + 2;
        } else if arg[i + 1] == '{' {
            let rest = slice_subrange(arg, i + 2, arg.len());
            proof {
                assert(rest@ =~= s.skip(2));
            }
            match find_matching_brace(rest) {
                None => {
                    return Err(Error::msg("missing closing '}'".to_owned()));
                },
                Some(k) => {
                    let body = slice_subrange(rest, 0, k);
                    proof {
                        assert(body@ =~= s.skip(2).take(k as int));
                        assert(s.skip(k + 3) =~= arg@.skip(i + k + 3));
                    }
                    match expand_braced_env(body, depth + 1, env) {
                        Err(e) => {
                            return Err(e);
                        },
                        Ok(value) => {
                            push_chars(&mut out, value.as_slice());
                            proof {
                                lemma_prefixed(
                                    before,
                                    value@,
                                    expanded(arg@.skip(i + k + 3), depth as nat, env@),
                                );
                            }
                            i = i + k + 3;
                        },
                    }
                },
            }
        } else {
            out.push('$');
            proof {
                lemma_prefixed(before, seq!['$'], expanded(arg@.skip(i + 1), depth as nat, env@));
                assert(before + seq!['$'] =~= out@);
            }
            i = i + 1;
        }
    }
    proof {
        assert(arg@.skip(i as int) =~= Seq::empty());
        assert(out@ + Seq::<char>::empty() =~= out@);
    }
    Ok(out)
}

proof fn lemma_prefixed(a: Seq<char>, b: Seq<char>, rest: Result<Seq<char>, Seq<char>>)
    ensures
        prefixed(a, prefixed(b, rest)) == prefixed(a + b, rest),
{
    match rest {
        Ok(r) => {
            assert(a + (b + r) =~= a + b + r);
        },
        Err(_) => {},
    }
}

// ---------------------------------------------------------------------------
// Commands
// ---------------------------------------------------------------------------

/// What one argument expands to, with the error that the caller sees.
pub open spec fn argument(s: Seq<char>, env: Map<Seq<u8>, Seq<u8>>) -> Result<
    Seq<char>,
    ErrorModel,
> {
    match expanded(s, 0, env) {
        Ok(v) => Ok(v),
        Err(e) => Err(
            error::caused("expand environment references in child argument"@, error::failure(e)),
        ),
    }
}

/// Expands one argument.
pub fn expand_command_arg(arg: &str, env: &Environment) -> (r: Result<String, Error>)
    ensures
        match r {
            Ok(s) => argument(arg@, env@) == Ok::<Seq<char>, ErrorModel>(s@),
            Err(e) => argument(arg@, env@) == Err::<Seq<char>, ErrorModel>(e@),
        },
{
    let chars = chars_of(arg);
    match expand_command_arg_with_depth(chars.as_slice(), 0, env) {
        Ok(v) => Ok(text_of(v.as_slice())),
        Err(e) => Err(
            Error::with_source("expand environment references in child argument".to_owned(), e),
        ),
    }
}

/// What the arguments of a command expand to. The first error counts.
pub open spec fn arguments(args: Seq<Seq<char>>, env: Map<Seq<u8>, Seq<u8>>) -> Result<
    Seq<Seq<char>>,
    ErrorModel,
>
    decreases args.len(),
{
    if args.len() == 0 {
        Ok(Seq::empty())
    } else {
        match arguments(args.drop_last(), env) {
            Err(e) => Err(e),
            Ok(done) => match argument(args.last(), env) {
                Err(e) => Err(e),
                Ok(v) => Ok(done.push(v)),
            },
        }
    }
}

/// What makes a command impossible to look up: a program without a name.
pub open spec fn command_error(args: Seq<Seq<char>>) -> Option<ErrorModel> {
    if args.len() > 0 && args[0].len() == 0 {
        Some(error::failure("command program cannot be empty"@))
    } else {
        None
    }
}

/// The command that is run for the arguments `args`.
pub open spec fn command(
    args: Seq<Seq<char>>,
    expand_env: bool,
    env: Map<Seq<u8>, Seq<u8>>,
) -> Result<Seq<Seq<char>>, ErrorModel> {
    let resolved = if expand_env {
        arguments(args, env)
    } else {
        Ok(args)
    };
    match resolved {
        Err(e) => Err(e),
        Ok(v) => match command_error(v) {
            Some(e) => Err(e),
            None => Ok(v),
        },
    }
}

fn expand_command_args(cmd: &Vec<String>, env: &Environment) -> (r: Result<Vec<String>, Error>)
    ensures
        match r {
            Ok(v) => arguments(text::texts(cmd@), env@) == Ok::<Seq<Seq<char>>, ErrorModel>(
                text::texts(v@),
            ),
            Err(e) => arguments(text::texts(cmd@), env@) == Err::<Seq<Seq<char>>, ErrorModel>(e@),
        },
{
    let mut out: Vec<String> = Vec::new();
    let mut i: usize = 0;
    let ghost all = text::texts(cmd@);
    proof {
        assert(text::texts(out@) =~= Seq::empty());
    }
    while i < cmd.len()
        invariant
            i <= cmd@.len(),
            all == text::texts(cmd@),
            arguments(all.take(i as int), env@) == Ok::<Seq<Seq<char>>, ErrorModel>(
                text::texts(out@),
            ),
        decreases cmd@.len() - i,
    {
        let ghost before = text::texts(out@);
        proof {
            assert(all.take(i + 1).drop_last() =~= all.take(i as int));
            assert(all.take(i + 1).last() == cmd@[i as int]@);
        }
        match expand_command_arg(cmd[i].as_str(), env) {
            Ok(v) => {
                out.push(v);
                proof {
                    assert(text::texts(out@) =~= before.push(v@));
                }
            },
            Err(e) => {
                proof {
                    lemma_error_stays(all, i + 1, env@);
                    assert(all.take(all.len() as int) =~= all);
                }
                return Err(e);
            },
        }
        i = i + 1;
    }
    proof {
        assert(all.take(all.len() as int) =~= all);
    }
    Ok(out)
}

proof fn lemma_error_stays(args: Seq<Seq<char>>, n: int, env: Map<Seq<u8>, Seq<u8>>)
    requires
        0 <= n <= args.len(),
        arguments(args.take(n), env) is Err,
    ensures
        arguments(args.take(args.len() as int), env) == arguments(args.take(n), env),
    decreases args.len() - n,
{
    if n < args.len() {
        assert(args.take(n + 1).drop_last() =~= args.take(n));
        lemma_error_stays(args, n + 1, env);
    }
}

/// A copy of a list of texts.
pub fn copy_texts(v: &Vec<String>) -> (r: Vec<String>)
    ensures
        text::texts(r@) == text::texts(v@),
{
    let mut out: Vec<String> = Vec::new();
    let mut i: usize = 0;
    while i < v.len()
        invariant
            i <= v@.len(),
            out@.len() == i,
            forall|j: int| 0 <= j < i ==> (#[trigger] out@[j])@ == v@[j]@,
        decreases v@.len() - i,
    {
        out.push(v[i].clone());
        i = i + 1;
    }
    proof {
        assert(text::texts(out@) =~= text::texts(v@));
    }
    out
}

fn validate_program_name(args: &Vec<String>) -> (r: Result<(), Error>)
    ensures
        match r {
            Ok(_) => command_error(text::texts(args@)) is None,
            Err(e) => command_error(text::texts(args@)) == Some(e@),
        },
{
    proof {
        if args@.len() > 0 {
            assert(text::texts(args@)[0] == args@[0]@);
        }
    }
    if args.len() > 0 && args[0].as_str().is_empty() {
        return Err(Error::msg("command program cannot be empty".to_owned()));
    }
    Ok(())
}

/// The command that is run for the arguments `cmd`, in the environment `env`.
pub fn resolve_command_args(cmd: &Vec<String>, expand_env: bool, env: &Environment) -> (r: Result<
    Vec<String>,
    Error,
>)
    ensures
        match r {
            Ok(v) => command(text::texts(cmd@), expand_env, env@) == Ok::<
                Seq<Seq<char>>,
                ErrorModel,
            >(text::texts(v@)),
            Err(e) => command(text::texts(cmd@), expand_env, env@) == Err::<
                Seq<Seq<char>>,
                ErrorModel,
            >(e@),
        },
{
    let args = if expand_env {
        match expand_command_args(cmd, env) {
            Ok(v) => v,
            Err(e) => return Err(e),
        }
    } else {
        copy_texts(cmd)
    };
    match validate_program_name(&args) {
        Ok(_) => Ok(args),
        Err(e) => Err(e),
    }
}

/// A text without a dollar sign is left as it is.
pub proof fn law_plain_text_is_kept(s: Seq<char>, env: Map<Seq<u8>, Seq<u8>>)
    requires
        !s.contains('$'),
    ensures
        expanded(s, 0, env) == Ok::<Seq<char>, Seq<char>>(s),
    decreases s.len(),
{
    if s.len() > 0 {
        assert(s[0] != '$') by {
            assert(s.contains(s[0]));
        }
        assert forall|i: int| 0 <= i < s.skip(1).len() implies s.skip(1)[i] != '$' by {
            assert(s.contains(s[i + 1]));
        }
        law_plain_text_is_kept(s.skip(1), env);
        assert(seq![s[0]] + s.skip(1) =~= s);
    } else {
        assert(s =~= Seq::empty());
    }
}

/// A doubled dollar sign stands for one, whatever follows it, an opening brace too.
pub proof fn law_doubled_dollar(rest: Seq<char>, env: Map<Seq<u8>, Seq<u8>>)
    ensures
        expanded(seq!['$', '$'] + rest, 0, env) == prefixed(seq!['$'], expanded(rest, 0, env)),
{
    let s = seq!['$', '$'] + rest;
    assert(s.skip(2) =~= rest);
    assert(s[0] == '$' && s[1] == '$');
}

/// The value of a variable is taken as it is: it is not expanded again.
pub proof fn law_values_are_not_expanded(
    name: Seq<char>,
    value: Seq<char>,
    env: Map<Seq<u8>, Seq<u8>>,
    depth: nat,
)
    requires
        context::lookup(env, vstd::utf8::encode_utf8(name)) == Some(
            vstd::utf8::encode_utf8(value),
        ),
    ensures
        value_or_default(name, None, depth, env) == Ok::<Seq<char>, Seq<char>>(value),
{
    vstd::utf8::encode_utf8_valid_utf8(value);
    vstd::utf8::encode_utf8_decode_utf8(value);
}

/// A default counts exactly where the variable is unset or empty.
pub proof fn law_default_replaces_nothing(
    name: Seq<char>,
    value: Seq<char>,
    default: Seq<char>,
    env: Map<Seq<u8>, Seq<u8>>,
    depth: nat,
)
    requires
        context::lookup(env, vstd::utf8::encode_utf8(name)) is None || context::lookup(
            env,
            vstd::utf8::encode_utf8(name),
        ) == Some(vstd::utf8::encode_utf8(value)),
    ensures
        value_or_default(name, Some(default), depth, env) == if context::lookup(
            env,
            vstd::utf8::encode_utf8(name),
        ) is Some && value.len() > 0 {
            Ok(value)
        } else {
            expanded(default, depth, env)
        },
{
    vstd::utf8::encode_utf8_valid_utf8(value);
    vstd::utf8::encode_utf8_decode_utf8(value);
}

/// A dollar sign in front of anything but a brace or another dollar sign stands for itself.
pub proof fn law_unbraced_dollar_is_kept(c: char, rest: Seq<char>, env: Map<Seq<u8>, Seq<u8>>)
    requires
        c != '$',
        c != '{',
    ensures
        expanded(seq!['$', c] + rest, 0, env) == prefixed(
            seq!['$'],
            expanded(seq![c] + rest, 0, env),
        ),
{
    let s = seq!['$', c] + rest;
    assert(s.skip(1) =~= seq![c] + rest);
    assert(s[0] == '$' && s[1] == c);
}

} // verus!
