//! What becomes of the words of a command, and of the references in a word.

use vstd::prelude::*;

use crate::error::{self, ErrorModel};
use crate::expand::{self, EnvBraceFrame};
use crate::text;

verus! {

// ---------------------------------------------------------------------------
// Words
// ---------------------------------------------------------------------------

/// Every word of a command is expanded by itself: there are as many words as before, and each is
/// what its own expansion gives. Where that fails, the first word that cannot be expanded is the one
/// whose error is reported.
pub proof fn law_every_word_is_expanded(args: Seq<Seq<char>>, env: Map<Seq<u8>, Seq<u8>>)
    ensures
        match expand::arguments(args, env) {
            Ok(v) => {
                &&& v.len() == args.len()
                &&& forall|i: int|
                    0 <= i < args.len() ==> expand::argument(#[trigger] args[i], env) == Ok::<
                        Seq<char>,
                        ErrorModel,
                    >(v[i])
            },
            Err(e) => exists|k: int|
                0 <= k < args.len() && expand::argument(#[trigger] args[k], env) == Err::<
                    Seq<char>,
                    ErrorModel,
                >(e) && forall|i: int|
                    0 <= i < k ==> expand::argument(#[trigger] args[i], env) is Ok,
        },
    decreases args.len(),
{
    if args.len() > 0 {
        let front = args.drop_last();
        law_every_word_is_expanded(front, env);
        let n = args.len() - 1;
        assert forall|i: int| 0 <= i < n implies front[i] == #[trigger] args[i] by {}
        match expand::arguments(front, env) {
            Ok(done) => {
                match expand::argument(args.last(), env) {
                    Ok(v) => {
                        assert(expand::arguments(args, env)->Ok_0 == done.push(v));
                        assert forall|i: int| 0 <= i < args.len() implies expand::argument(
                            #[trigger] args[i],
                            env,
                        ) == Ok::<Seq<char>, ErrorModel>(done.push(v)[i]) by {
                            if i < n {
                                assert(front[i] == args[i]);
                            }
                        }
                    },
                    Err(e) => {
                        assert(expand::argument(args[n], env) == Err::<Seq<char>, ErrorModel>(e));
                        assert forall|i: int| 0 <= i < n implies expand::argument(
                            #[trigger] args[i],
                            env,
                        ) is Ok by {
                            assert(front[i] == args[i]);
                        }
                    },
                }
            },
            Err(e) => {
                let k = choose|k: int|
                    0 <= k < front.len() && expand::argument(#[trigger] front[k], env) == Err::<
                        Seq<char>,
                        ErrorModel,
                    >(e) && forall|i: int|
                        0 <= i < k ==> expand::argument(#[trigger] front[i], env) is Ok;
                assert(args[k] == front[k]);
                assert forall|i: int| 0 <= i < k implies expand::argument(
                    #[trigger] args[i],
                    env,
                ) is Ok by {
                    assert(front[i] == args[i]);
                }
            },
        }
    }
}

/// The command that is run has as many words as the given one. Where references are expanded, each
/// word is its own expansion, and else each is as it was given.
pub proof fn law_command_word_by_word(
    args: Seq<Seq<char>>,
    expand_env: bool,
    env: Map<Seq<u8>, Seq<u8>>,
)
    ensures
        expand::command(args, expand_env, env) matches Ok(v) ==> {
            &&& v.len() == args.len()
            &&& forall|i: int|
                0 <= i < args.len() ==> if expand_env {
                    expand::argument(#[trigger] args[i], env) == Ok::<Seq<char>, ErrorModel>(v[i])
                } else {
                    v[i] == args[i]
                }
            &&& v.len() > 0 ==> v[0].len() > 0
        },
{
    law_every_word_is_expanded(args, env);
}

/// A command is refused exactly where a word cannot be expanded, and the error is that of the first
/// such word, or where its program comes out empty.
pub proof fn law_commands_that_are_refused(
    args: Seq<Seq<char>>,
    expand_env: bool,
    env: Map<Seq<u8>, Seq<u8>>,
)
    ensures
        ({
            let r = expand::command(args, expand_env, env);
            let empty = error::failure("command program cannot be empty"@);
            let all_good = !expand_env || forall|i: int|
                0 <= i < args.len() ==> expand::argument(#[trigger] args[i], env) is Ok;
            let program = if expand_env {
                expand::argument(args[0], env)
            } else {
                Ok(args[0])
            };
            &&& all_good ==> (r is Err <==> args.len() > 0 && program->Ok_0.len() == 0)
            &&& all_good && r is Err ==> r->Err_0 == empty
            &&& !all_good ==> r is Err
            &&& forall|k: int|
                expand_env && 0 <= k < args.len() && expand::argument(
                    #[trigger] args[k],
                    env,
                ) is Err && (forall|i: int|
                    0 <= i < k ==> expand::argument(#[trigger] args[i], env) is Ok) ==> r is Err
                    && r->Err_0 == expand::argument(args[k], env)->Err_0
        }),
{
    law_every_word_is_expanded(args, env);
    assert forall|k: int|
        expand_env && 0 <= k < args.len() && expand::argument(#[trigger] args[k], env) is Err && (
        forall|i: int|
            0 <= i < k ==> expand::argument(
                #[trigger] args[i],
                env,
            ) is Ok) implies expand::command(args, expand_env, env) is Err && expand::command(
        args,
        expand_env,
        env,
    )->Err_0 == expand::argument(args[k], env)->Err_0 by {
        let e = expand::arguments(args, env)->Err_0;
        let j = choose|j: int|
            0 <= j < args.len() && expand::argument(#[trigger] args[j], env) == Err::<
                Seq<char>,
                ErrorModel,
            >(e) && forall|i: int| 0 <= i < j ==> expand::argument(#[trigger] args[i], env) is Ok;
        assert(j == k) by {
            if j < k {
                assert(expand::argument(args[j], env) is Ok);
            }
            if k < j {
                assert(expand::argument(args[k], env) is Ok);
            }
        }
    }
}

// ---------------------------------------------------------------------------
// References
// ---------------------------------------------------------------------------

/// A letter of the alphabet or an underscore.
pub open spec fn is_letter(c: char) -> bool {
    'a' <= c <= 'z' || 'A' <= c <= 'Z' || c == '_'
}

/// The name of a variable: letters, underscores and digits, but no digit in front.
pub open spec fn is_name(s: Seq<char>) -> bool {
    s.len() > 0 && is_letter(s[0]) && forall|i: int|
        0 <= i < s.len() ==> is_letter(#[trigger] s[i]) || '0' <= s[i] <= '9'
}

/// Characters that mean nothing to the braces and the operator of a reference.
pub open spec fn is_inert(s: Seq<char>) -> bool {
    forall|i: int|
        0 <= i < s.len() ==> #[trigger] s[i] != '$' && s[i] != '{' && s[i] != '}' && s[i] != ':'
}

/// The text of a reference to `body`.
pub open spec fn reference(body: Seq<char>) -> Seq<char> {
    seq!['$', '{'] + body + seq!['}']
}

/// A default behind the name of a variable.
pub open spec fn or_else(name: Seq<char>, default: Seq<char>) -> Seq<char> {
    name + seq![':', '-'] + default
}

/// Whether the braces in a text are closed in it, so that one behind it closes one in front of it.
pub open spec fn is_balanced(s: Seq<char>) -> bool {
    expand::closing_brace(s + seq!['}'], seq![EnvBraceFrame::Expansion]) == Some(s.len() as int)
}

/// What the environment gives for a name: nothing where it is unset.
pub open spec fn value_of(name: Seq<char>, env: Map<Seq<u8>, Seq<u8>>) -> Seq<u8> {
    let key = vstd::utf8::encode_utf8(name);
    if env.dom().contains(key) {
        env[key]
    } else {
        Seq::empty()
    }
}

proof fn lemma_closing_skips(s: Seq<char>, rest: Seq<char>, stack: Seq<EnvBraceFrame>)
    requires
        forall|i: int|
            0 <= i < s.len() ==> #[trigger] s[i] != '$' && s[i] != '{' && s[i] != '}',
    ensures
        expand::closing_brace(s + rest, stack) == match expand::closing_brace(rest, stack) {
            Some(k) => Some(s.len() + k),
            None => None::<int>,
        },
    decreases s.len(),
{
    if s.len() == 0 {
        assert(s + rest =~= rest);
    } else {
        let t = s + rest;
        assert(t[0] == s[0]);
        assert(t.skip(1) =~= s.skip(1) + rest);
        lemma_closing_skips(s.skip(1), rest, stack);
    }
}

proof fn lemma_operator_skips(s: Seq<char>, rest: Seq<char>)
    requires
        is_inert(s),
    ensures
        expand::default_operator(s + rest, Seq::empty()) == match expand::default_operator(
            rest,
            Seq::empty(),
        ) {
            Some(k) => Some(s.len() + k),
            None => None::<int>,
        },
    decreases s.len(),
{
    if s.len() == 0 {
        assert(s + rest =~= rest);
    } else {
        let t = s + rest;
        assert(t[0] == s[0]);
        assert(t.skip(1) =~= s.skip(1) + rest);
        lemma_operator_skips(s.skip(1), rest);
    }
}

/// What stands behind the closing brace does not matter to where it is.
proof fn lemma_closing_stays(s: Seq<char>, rest: Seq<char>, stack: Seq<EnvBraceFrame>)
    requires
        expand::closing_brace(s + seq!['}'], stack) == Some(s.len() as int),
    ensures
        expand::closing_brace(s + seq!['}'] + rest, stack) == Some(s.len() as int),
    decreases s.len(),
{
    let a = s + seq!['}'];
    let b = a + rest;
    assert(a[s.len() as int] == '}');
    assert forall|i: int| 0 <= i < a.len() implies a[i] == b[i] by {}
    let step = expand::brace_step(a, stack);
    if s.len() > 0 {
        assert(a[0] == s[0] && b[0] == s[0]);
        assert(a[1] == b[1]);
        if s.len() == 1 {
            assert(a[1] == '}');
        } else {
            assert(a[2] == b[2]);
        }
        assert(expand::brace_step(b, stack) == step);
        let n = step.len;
        if n <= s.len() {
            assert(a.skip(n) =~= s.skip(n) + seq!['}']);
            assert(b.skip(n) =~= s.skip(n) + seq!['}'] + rest);
            lemma_closing_stays(s.skip(n), rest, step.stack);
        }
    } else {
        assert(a[0] == '}' && b[0] == '}');
        assert(expand::brace_step(b, stack) == step);
        if !(step.closes && step.stack.len() == 0) {
            assert(a.skip(1).len() == 0);
        }
    }
}

proof fn lemma_names_are_inert(name: Seq<char>)
    requires
        is_name(name),
    ensures
        is_inert(name),
        crate::env_split::is_variable_name(name),
{
    assert forall|i: int| 0 <= i < name.len() implies #[trigger] name[i] != '$' && name[i] != '{'
        && name[i] != '}' && name[i] != ':' by {
        assert(is_letter(name[i]) || '0' <= name[i] <= '9');
    }
}

/// A reference with its brace found.
proof fn lemma_reference(
    body: Seq<char>,
    rest: Seq<char>,
    depth: nat,
    env: Map<Seq<u8>, Seq<u8>>,
)
    requires
        depth <= 32,
        is_balanced(body),
    ensures
        expand::expanded(reference(body) + rest, depth, env) == match expand::braced(
            body,
            depth + 1,
            env,
        ) {
            Ok(v) => expand::prefixed(v, expand::expanded(rest, depth, env)),
            Err(e) => Err(e),
        },
{
    let s = reference(body) + rest;
    assert(s[0] == '$' && s[1] == '{');
    assert(s.skip(2) =~= body + seq!['}'] + rest);
    lemma_closing_stays(body, rest, seq![EnvBraceFrame::Expansion]);
    let k = body.len() as int;
    assert(s.skip(2).take(k) =~= body);
    assert(s.skip(k + 3) =~= rest);
}

proof fn lemma_inert_is_balanced(s: Seq<char>)
    requires
        is_inert(s),
    ensures
        is_balanced(s),
{
    let stack = seq![EnvBraceFrame::Expansion];
    lemma_closing_skips(s, seq!['}'], stack);
    let step = expand::brace_step(seq!['}'], stack);
    assert(step.closes && step.stack.len() == 0);
}

/// Text without dollar signs is kept, and what follows is expanded as if it stood alone, as deep as
/// defaults may be nested, which is 32 levels.
pub proof fn law_text_in_front_is_kept(
    front: Seq<char>,
    rest: Seq<char>,
    depth: nat,
    env: Map<Seq<u8>, Seq<u8>>,
)
    requires
        depth <= 32,
        !front.contains('$'),
    ensures
        expand::expanded(front + rest, depth, env) == match expand::expanded(rest, depth, env) {
            Ok(v) => Ok(front + v),
            Err(e) => Err(e),
        },
    decreases front.len(),
{
    if front.len() == 0 {
        assert(front + rest =~= rest);
        if let Ok(v) = expand::expanded(rest, depth, env) {
            assert(front + v =~= v);
        }
    } else {
        let s = front + rest;
        assert(front.contains(front[0]));
        assert forall|i: int| 0 <= i < front.len() - 1 implies front.skip(1)[i] != '$' by {
            assert(front.contains(front[i + 1]));
        }
        assert(s.skip(1) =~= front.skip(1) + rest);
        law_text_in_front_is_kept(front.skip(1), rest, depth, env);
        if let Ok(v) = expand::expanded(rest, depth, env) {
            assert(seq![front[0]] + (front.skip(1) + v) =~= front + v);
        }
    }
}

/// At every level that is allowed, a doubled dollar sign stands for one, and one in front of anything but a
/// brace or another one, or at the end, for itself.
pub proof fn law_dollar_signs(c: char, rest: Seq<char>, depth: nat, env: Map<Seq<u8>, Seq<u8>>)
    requires
        depth <= 32,
    ensures
        expand::expanded(seq!['$', '$'] + rest, depth, env) == match expand::expanded(
            rest,
            depth,
            env,
        ) {
            Ok(v) => Ok(seq!['$'] + v),
            Err(e) => Err(e),
        },
        c != '$' && c != '{' ==> expand::expanded(seq!['$', c] + rest, depth, env)
            == match expand::expanded(seq![c] + rest, depth, env) {
            Ok(v) => Ok(seq!['$'] + v),
            Err(e) => Err(e),
        },
        expand::expanded(seq!['$'], depth, env) == Ok::<Seq<char>, Seq<char>>(seq!['$']),
{
    let two = seq!['$', '$'] + rest;
    assert(two[0] == '$' && two[1] == '$');
    assert(two.skip(2) =~= rest);
    let one = seq!['$', c] + rest;
    assert(one[0] == '$' && one[1] == c);
    assert(one.skip(1) =~= seq![c] + rest);
    let none = Seq::<char>::empty();
    assert(seq!['$'].skip(1) =~= none);
    assert(expand::expanded(none, depth, env) == Ok::<Seq<char>, Seq<char>>(none));
    assert(seq!['$'] + none =~= seq!['$']);
}

/// Plain text is kept at every level that is allowed, and nothing is accepted below these 32
/// levels, not even nothing.
pub proof fn law_levels(s: Seq<char>, depth: nat, env: Map<Seq<u8>, Seq<u8>>)
    ensures
        depth <= 32 && !s.contains('$') ==> expand::expanded(s, depth, env) == Ok::<
            Seq<char>,
            Seq<char>,
        >(s),
        depth > 32 ==> expand::expanded(s, depth, env) == Err::<Seq<char>, Seq<char>>(
            "environment expansion nesting exceeds 32 levels"@,
        ),
{
    if depth <= 32 && !s.contains('$') {
        law_text_in_front_is_kept(s, Seq::empty(), depth, env);
        assert(s + Seq::<char>::empty() =~= s);
    }
}

/// A reference stands for the value of its variable, or for nothing where it is unset, and what
/// follows is expanded as if it stood alone. A value that is no text is an error.
pub proof fn law_references_give_values(
    name: Seq<char>,
    rest: Seq<char>,
    depth: nat,
    env: Map<Seq<u8>, Seq<u8>>,
)
    requires
        depth <= 32,
        is_name(name),
    ensures
        ({
            let r = expand::expanded(reference(name) + rest, depth, env);
            let value = value_of(name, env);
            if vstd::utf8::valid_utf8(value) {
                match expand::expanded(rest, depth, env) {
                    Ok(v) => r == Ok::<Seq<char>, Seq<char>>(vstd::utf8::decode_utf8(value) + v),
                    Err(e) => r == Err::<Seq<char>, Seq<char>>(e),
                }
            } else {
                r == Err::<Seq<char>, Seq<char>>(
                    "environment variable '"@ + name + "' contains non-Unicode data"@,
                )
            }
        }),
{
    lemma_names_are_inert(name);
    lemma_inert_is_balanced(name);
    lemma_reference(name, rest, depth, env);
    lemma_operator_skips(name, Seq::empty());
    assert(name + Seq::<char>::empty() =~= name);
    lemma_nothing();
}

proof fn lemma_nothing()
    ensures
        vstd::utf8::valid_utf8(Seq::<u8>::empty()),
        vstd::utf8::decode_utf8(Seq::<u8>::empty()) == Seq::<char>::empty(),
{
}

/// A default counts where its variable is unset or empty, is expanded itself, one level deeper, and
/// may hold references again. A variable with a value hides it, with all that it holds.
pub proof fn law_defaults_stand_in(
    name: Seq<char>,
    default: Seq<char>,
    rest: Seq<char>,
    depth: nat,
    env: Map<Seq<u8>, Seq<u8>>,
)
    requires
        depth <= 32,
        is_name(name),
        is_balanced(default),
        vstd::utf8::valid_utf8(value_of(name, env)),
    ensures
        ({
            let r = expand::expanded(reference(or_else(name, default)) + rest, depth, env);
            let value = vstd::utf8::decode_utf8(value_of(name, env));
            let own = if value.len() > 0 {
                Ok(value)
            } else {
                expand::expanded(default, depth + 1, env)
            };
            match (own, expand::expanded(rest, depth, env)) {
                (Ok(a), Ok(b)) => r == Ok::<Seq<char>, Seq<char>>(a + b),
                (Err(e), _) => r == Err::<Seq<char>, Seq<char>>(e),
                (Ok(_), Err(e)) => r == Err::<Seq<char>, Seq<char>>(e),
            }
        }),
{
    let body = or_else(name, default);
    let stack = seq![EnvBraceFrame::Expansion];
    lemma_names_are_inert(name);
    let tail = default + seq!['}'];
    let front = name + seq![':', '-'];
    assert(body + seq!['}'] =~= front + tail);
    lemma_closing_skips(front, tail, stack);
    assert(is_balanced(body));
    lemma_reference(body, rest, depth, env);
    let op = seq![':', '-'] + default;
    assert(body =~= name + op);
    lemma_operator_skips(name, op);
    assert(body.take(name.len() as int) =~= name);
    assert(body.skip(name.len() as int + 2) =~= default);
    lemma_nothing();
}

proof fn lemma_no_brace(s: Seq<char>, stack: Seq<EnvBraceFrame>)
    requires
        !s.contains('}'),
    ensures
        expand::closing_brace(s, stack) is None,
    decreases s.len(),
{
    if s.len() > 0 {
        assert(s.contains(s[0]));
        let step = expand::brace_step(s, stack);
        if step.len <= s.len() {
            assert forall|i: int| 0 <= i < s.skip(step.len).len() implies s.skip(step.len)[i]
                != '}' by {
                assert(s.contains(s[i + step.len]));
            }
            lemma_no_brace(s.skip(step.len), step.stack);
        }
    }
}

/// A reference that is never closed is an error, whatever stands in it.
pub proof fn law_references_have_an_end(
    rest: Seq<char>,
    depth: nat,
    env: Map<Seq<u8>, Seq<u8>>,
)
    requires
        depth <= 32,
        !rest.contains('}'),
    ensures
        expand::expanded(seq!['$', '{'] + rest, depth, env) == Err::<Seq<char>, Seq<char>>(
            "missing closing '}'"@,
        ),
{
    let s = seq!['$', '{'] + rest;
    assert(s.skip(2) =~= rest);
    assert(s[0] == '$' && s[1] == '{');
    lemma_no_brace(rest, seq![EnvBraceFrame::Expansion]);
}

/// A reference to what is no name is an error, and the error shows it.
pub proof fn law_references_need_a_name(
    body: Seq<char>,
    default: Option<Seq<char>>,
    rest: Seq<char>,
    depth: nat,
    env: Map<Seq<u8>, Seq<u8>>,
)
    requires
        depth <= 32,
        is_inert(body),
        !is_name(body),
        default matches Some(d) ==> is_balanced(d),
    ensures
        match default {
            None => expand::expanded(reference(body) + rest, depth, env) == Err::<
                Seq<char>,
                Seq<char>,
            >("unsupported braced environment expansion '${"@ + text::escape(body) + "}'"@),
            Some(d) => expand::expanded(reference(or_else(body, d)) + rest, depth, env) == Err::<
                Seq<char>,
                Seq<char>,
            >("invalid environment variable name '"@ + text::escape(body) + "'"@),
        },
{
    assert(!crate::env_split::is_variable_name(body)) by {
        if crate::env_split::is_variable_name(body) {
            assert forall|i: int| 0 <= i < body.len() implies is_letter(#[trigger] body[i]) || '0'
                <= body[i] <= '9' by {
                assert(crate::env_split::is_name_part(body[i]));
            }
        }
    }
    match default {
        None => {
            lemma_inert_is_balanced(body);
            lemma_reference(body, rest, depth, env);
            lemma_operator_skips(body, Seq::empty());
            assert(body + Seq::<char>::empty() =~= body);
        },
        Some(default) => {
            let whole = or_else(body, default);
            let stack = seq![EnvBraceFrame::Expansion];
            let tail = default + seq!['}'];
            let front = body + seq![':', '-'];
            assert(whole + seq!['}'] =~= front + tail);
            lemma_closing_skips(front, tail, stack);
            assert(is_balanced(whole));
            lemma_reference(whole, rest, depth, env);
            let op = seq![':', '-'] + default;
            assert(whole =~= body + op);
            lemma_operator_skips(body, op);
            assert(whole.take(body.len() as int) =~= body);
        },
    }
}

/// Texts that are balanced: those without braces, dollar signs and colons, and a balanced text behind
/// such a text or behind a reference to a balanced text.
pub proof fn law_what_is_balanced(a: Seq<char>, b: Seq<char>)
    ensures
        is_inert(a) ==> is_balanced(a),
        is_inert(a) && is_balanced(b) ==> is_balanced(a + b),
        is_balanced(a) && is_balanced(b) ==> is_balanced(reference(a) + b),
{
    let stack = seq![EnvBraceFrame::Expansion];
    if is_inert(a) {
        lemma_inert_is_balanced(a);
        if is_balanced(b) {
            lemma_closing_skips(a, b + seq!['}'], stack);
            assert(a + (b + seq!['}']) =~= a + b + seq!['}']);
        }
    }
    if is_balanced(a) && is_balanced(b) {
        let s = reference(a) + b + seq!['}'];
        assert(s[0] == '$' && s[1] == '{');
        let behind = b + seq!['}'];
        let inner = a + seq!['}'] + behind;
        assert(s.skip(2) =~= inner);
        lemma_closing_of_two(a, behind, stack, stack);
        assert(stack + stack =~= stack.push(EnvBraceFrame::Expansion));
    }
}

/// A brace that closes the last open one leaves those below it open.
proof fn lemma_closing_of_two(
    s: Seq<char>,
    rest: Seq<char>,
    below: Seq<EnvBraceFrame>,
    stack: Seq<EnvBraceFrame>,
)
    requires
        below.len() > 0,
        stack.len() > 0,
        expand::closing_brace(s + seq!['}'], stack) == Some(s.len() as int),
    ensures
        expand::closing_brace(s + seq!['}'] + rest, below + stack) == match expand::closing_brace(
            rest,
            below,
        ) {
            Some(k) => Some(s.len() + 1 + k),
            None => None::<int>,
        },
    decreases s.len(),
{
    let a = s + seq!['}'];
    let b = a + rest;
    assert(a[s.len() as int] == '}');
    assert forall|i: int| 0 <= i < a.len() implies a[i] == b[i] by {}
    let step = expand::brace_step(a, stack);
    let both = expand::brace_step(b, below + stack);
    assert((below + stack).last() == stack.last());
    assert((below + stack).drop_last() =~= below + stack.drop_last());
    assert((below + stack).push(EnvBraceFrame::Literal) =~= below + stack.push(
        EnvBraceFrame::Literal,
    ));
    assert((below + stack).push(EnvBraceFrame::Expansion) =~= below + stack.push(
        EnvBraceFrame::Expansion,
    ));
    if s.len() > 0 {
        assert(a[0] == s[0] && b[0] == s[0]);
        assert(a[1] == b[1]);
        if s.len() > 1 {
            assert(a[2] == b[2]);
        }
        assert(both.len == step.len && both.closes == step.closes && both.stack == below
            + step.stack);
        let n = step.len;
        assert(n <= s.len());
        assert(a.skip(n) =~= s.skip(n) + seq!['}']);
        assert(b.skip(n) =~= s.skip(n) + seq!['}'] + rest);
        lemma_closing_of_two(s.skip(n), rest, below, step.stack);
    } else {
        assert(a[0] == '}' && b[0] == '}');
        assert(step.closes && step.stack.len() == 0) by {
            assert(a.skip(1).len() == 0);
            assert(expand::closing_brace(a.skip(1), step.stack) is None);
        }
        assert(both.stack =~= below);
        assert(b.skip(1) =~= rest);
    }
}

} // verus!
