//! How `env` reads its text and its options, piece by piece.

use vstd::prelude::*;

use crate::env_command::{self, ActionModel, EnvLongOption, Moves, OptionsModel, PlanModel};
use crate::env_signal::RealtimeRange;
use crate::env_split;
use crate::text;

verus! {

// ---------------------------------------------------------------------------
// Splitting
// ---------------------------------------------------------------------------

/// A space, a tab, a line feed, a form feed or a carriage return.
pub open spec fn parts_words(c: char) -> bool {
    c == ' ' || c == '\t' || c == '\n' || c == '\x0c' || c == '\r'
}

/// A character that stands for itself outside of quotes.
pub open spec fn stands_alone(c: char) -> bool {
    c != '\\' && c != '$' && c != '\'' && c != '"' && !parts_words(c)
}

/// A word without quotes, references and escapes.
pub open spec fn is_plain(w: Seq<char>) -> bool {
    w.len() > 0 && w[0] != '#' && forall|i: int| 0 <= i < w.len() ==> stands_alone(#[trigger] w[i])
}

/// Whether a character stands for itself in quotes of this kind.
pub open spec fn stands_in(c: char, quote: char) -> bool {
    c != quote && c != '\\' && (c == '$' ==> quote == '\'')
}

proof fn lemma_plain(
    w: Seq<char>,
    rest: Seq<char>,
    field: Option<Seq<char>>,
    env: Map<Seq<u8>, Seq<u8>>,
)
    requires
        w.len() > 0,
        field is None ==> w[0] != '#',
        forall|i: int| 0 <= i < w.len() ==> stands_alone(#[trigger] w[i]),
    ensures
        env_split::split_from(w + rest, None, field, env) == env_split::split_from(
            rest,
            None,
            env_split::extended(field, w),
            env,
        ),
    decreases w.len(),
{
    let s = w + rest;
    let t = w.skip(1);
    assert(s[0] == w[0]);
    assert(stands_alone(w[0]));
    assert(s.skip(1) =~= t + rest);
    let one = env_split::extended(field, seq![w[0]]);
    if t.len() == 0 {
        assert(t + rest =~= rest);
        assert(seq![w[0]] =~= w);
    } else {
        lemma_plain(t, rest, one, env);
        match field {
            Some(f) => {
                assert(f + seq![w[0]] + t =~= f + w);
            },
            None => {
                assert(seq![w[0]] + t =~= w);
            },
        }
    }
}

proof fn lemma_quoted(
    q: Seq<char>,
    quote: char,
    rest: Seq<char>,
    field: Seq<char>,
    env: Map<Seq<u8>, Seq<u8>>,
)
    requires
        quote == '\'' || quote == '"',
        forall|i: int| 0 <= i < q.len() ==> stands_in(#[trigger] q[i], quote),
    ensures
        env_split::split_from(q + rest, Some(quote), Some(field), env) == env_split::split_from(
            rest,
            Some(quote),
            Some(field + q),
            env,
        ),
    decreases q.len(),
{
    let s = q + rest;
    if q.len() == 0 {
        assert(s =~= rest);
        assert(field + q =~= field);
    } else {
        assert(s[0] == q[0]);
        assert(stands_in(q[0], quote));
        assert(s.skip(1) =~= q.skip(1) + rest);
        lemma_quoted(q.skip(1), quote, rest, field + seq![q[0]], env);
        assert(field + seq![q[0]] + q.skip(1) =~= field + q);
    }
}

/// A plain word in front of a separator is one word, and what follows is split as if it stood alone.
/// A word at the end needs no separator, and separators in front are passed over.
pub proof fn law_words_are_parted(
    w: Seq<char>,
    c: char,
    rest: Seq<char>,
    env: Map<Seq<u8>, Seq<u8>>,
)
    requires
        is_plain(w),
        parts_words(c),
    ensures
        env_split::split_fields(w, env) == Some(seq![w]),
        env_split::split_fields(w + seq![c] + rest, env) == match env_split::split_fields(rest, env) {
            Some(words) => Some(seq![w] + words),
            None => None,
        },
        env_split::split_fields(seq![c] + rest, env) == env_split::split_fields(rest, env),
        env_split::split_fields(Seq::empty(), env) == Some(Seq::<Seq<char>>::empty()),
{
    let none = Seq::<char>::empty();
    lemma_plain(w, none, None, env);
    assert(w + none =~= w);
    assert(seq![w] + Seq::<Seq<char>>::empty() =~= seq![w]);
    let tail = seq![c] + rest;
    lemma_plain(w, tail, None, env);
    assert(w + tail =~= w + seq![c] + rest);
    assert(tail[0] == c);
    assert(tail.skip(1) =~= rest);
}

/// What stands between quotes belongs to the word as it is, blanks and the other quotes too, and so do
/// references between single quotes. Nothing between quotes is still a word.
pub proof fn law_quotes_keep_words_together(
    q: Seq<char>,
    quote: char,
    rest: Seq<char>,
    env: Map<Seq<u8>, Seq<u8>>,
)
    requires
        quote == '\'' || quote == '"',
        forall|i: int| 0 <= i < q.len() ==> stands_in(#[trigger] q[i], quote),
    ensures
        env_split::split_fields(seq![quote] + q + seq![quote] + rest, env) == env_split::split_from(
            rest,
            None,
            Some(q),
            env,
        ),
        env_split::split_fields(seq![quote] + q + seq![quote], env) == Some(seq![q]),
        env_split::split_fields(seq![quote] + q, env) is None,
{
    let none = Seq::<char>::empty();
    lemma_between_quotes(q, quote, rest, env);
    lemma_between_quotes(q, quote, none, env);
    assert(seq![quote] + q + seq![quote] + none =~= seq![quote] + q + seq![quote]);
    assert(env_split::split_from(none, None, Some(q), env) == Some(
        seq![q] + Seq::<Seq<char>>::empty(),
    ));
    assert(seq![q] + Seq::<Seq<char>>::empty() =~= seq![q]);
    let s = seq![quote] + q;
    assert(s[0] == quote);
    assert(s.skip(1) =~= q + none);
    lemma_quoted(q, quote, none, none, env);
}

proof fn lemma_between_quotes(
    q: Seq<char>,
    quote: char,
    rest: Seq<char>,
    env: Map<Seq<u8>, Seq<u8>>,
)
    requires
        quote == '\'' || quote == '"',
        forall|i: int| 0 <= i < q.len() ==> stands_in(#[trigger] q[i], quote),
    ensures
        env_split::split_fields(seq![quote] + q + seq![quote] + rest, env) == env_split::split_from(
            rest,
            None,
            Some(q),
            env,
        ),
{
    let none = Seq::<char>::empty();
    let end = seq![quote] + rest;
    let s = seq![quote] + q + end;
    assert(s =~= seq![quote] + q + seq![quote] + rest);
    assert(s[0] == quote);
    assert(s.skip(1) =~= q + end);
    lemma_quoted(q, quote, end, none, env);
    assert(none + q =~= q);
    assert(end[0] == quote);
    assert(end.skip(1) =~= rest);
    assert(q + none =~= q);
}

/// The characters that can be escaped, outside of quotes and between double quotes: `f`, `n`, `r`, `t`
/// and `v` are the ones that are not seen, and a backslash, a quote, a dollar sign and a number sign
/// stand for themselves. Any other letter is refused, but for `_`, which is a blank between quotes and
/// parts words outside of them, and `c`, which ends the text outside of them.
pub proof fn law_escapes(
    c: char,
    rest: Seq<char>,
    quoted: bool,
    field: Option<Seq<char>>,
    env: Map<Seq<u8>, Seq<u8>>,
)
    ensures
        ({
            let quote = if quoted {
                Some('"')
            } else {
                None
            };
            let r = env_split::split_from(seq!['\\', c] + rest, quote, field, env);
            let with = |x: char|
                env_split::split_from(rest, quote, env_split::extended(field, seq![x]), env);
            &&& c == 'n' ==> r == with('\n')
            &&& c == 't' ==> r == with('\t')
            &&& c == 'r' ==> r == with('\r')
            &&& c == 'f' ==> r == with('\x0c')
            &&& c == 'v' ==> r == with('\x0b')
            &&& c == '\\' || c == '\'' || c == '"' || c == '$' || c == '#' ==> r == with(c)
            &&& c == '_' && quoted ==> r == with(' ')
            &&& c == '_' && !quoted ==> r == env_split::with_field(
                field,
                env_split::split_fields(rest, env),
            )
            &&& c == 'c' && !quoted ==> r == env_split::with_field(field, Some(Seq::empty()))
            &&& c != 'n' && c != 't' && c != 'r' && c != 'f' && c != 'v' && c != '\\' && c != '\''
                && c != '"' && c != '$' && c != '#' && c != '_' && (c != 'c' || quoted) ==> r is None
        }),
{
    let s = seq!['\\', c] + rest;
    assert(s[0] == '\\');
    assert(s.skip(1)[0] == c);
    assert(s.skip(1).skip(1) =~= rest);
}

/// Between single quotes a backslash escapes only itself and the quote.
pub proof fn law_escapes_in_single_quotes(
    c: char,
    rest: Seq<char>,
    field: Seq<char>,
    env: Map<Seq<u8>, Seq<u8>>,
)
    ensures
        env_split::split_from(seq!['\\', c] + rest, Some('\''), Some(field), env) == if c == '\\' || c
            == '\'' {
            env_split::split_from(rest, Some('\''), Some(field + seq![c]), env)
        } else {
            env_split::split_from(
                seq![c] + rest,
                Some('\''),
                Some(field + seq!['\\']),
                env,
            )
        },
{
    let s = seq!['\\', c] + rest;
    assert(s[0] == '\\');
    assert(s.skip(1) =~= seq![c] + rest);
    assert(s.skip(1)[0] == c);
    assert(s.skip(1).skip(1) =~= rest);
}

/// A number sign where a word would begin ends the text.
pub proof fn law_comments_end_the_text(rest: Seq<char>, env: Map<Seq<u8>, Seq<u8>>)
    ensures
        env_split::split_fields(seq!['#'] + rest, env) == Some(Seq::<Seq<char>>::empty()),
{
    assert((seq!['#'] + rest)[0] == '#');
}

/// A reference stands for the value of its variable, as part of the word, whatever blanks the value
/// holds. One that is unset is nothing, and begins no word. A value that is no text is refused.
pub proof fn law_references_in_words(
    name: Seq<char>,
    rest: Seq<char>,
    field: Option<Seq<char>>,
    env: Map<Seq<u8>, Seq<u8>>,
)
    requires
        name.len() > 0,
        name[0] == '_' || 'a' <= name[0] <= 'z' || 'A' <= name[0] <= 'Z',
        forall|i: int|
            0 <= i < name.len() ==> #[trigger] name[i] == '_' || 'a' <= name[i] <= 'z' || 'A'
                <= name[i] <= 'Z' || '0' <= name[i] <= '9',
    ensures
        ({
            let key = vstd::utf8::encode_utf8(name);
            let r = env_split::split_from(
                seq!['$', '{'] + name + seq!['}'] + rest,
                None,
                field,
                env,
            );
            if !env.dom().contains(key) {
                r == env_split::split_from(rest, None, field, env)
            } else if vstd::utf8::valid_utf8(env[key]) {
                r == env_split::split_from(
                    rest,
                    None,
                    env_split::extended(field, vstd::utf8::decode_utf8(env[key])),
                    env,
                )
            } else {
                r is None
            }
        }),
{
    let s = seq!['$', '{'] + name + seq!['}'] + rest;
    let t = s.skip(1);
    let body = t.skip(1);
    assert(s[0] == '$');
    assert(t[0] == '{');
    assert(body =~= name + seq!['}'] + rest);
    assert forall|i: int| 0 <= i < name.len() implies !text::is_char('}')(#[trigger] body[i]) by {
        assert(body[i] == name[i]);
    }
    assert(body[name.len() as int] == '}');
    text::lemma_first_where(body, text::is_char('}'), name.len() as int);
    assert(body.take(name.len() as int) =~= name);
    assert(body.skip(name.len() as int + 1) =~= rest);
    assert forall|i: int| 0 <= i < name.len() implies env_split::is_name_part(
        #[trigger] name[i],
    ) by {}
}

// ---------------------------------------------------------------------------
// Options
// ---------------------------------------------------------------------------

/// A word may shorten the name of a long option as far as it is the beginning of no other name.
pub proof fn law_long_options_may_be_shortened(name: Seq<char>, k: int)
    ensures
        env_command::unique_match(name) == Some(k) <==> {
            &&& 0 <= k < 13
            &&& name.is_prefix_of(env_command::long_names()[k])
            &&& forall|j: int|
                0 <= j < 13 && j != k ==> !name.is_prefix_of(#[trigger] env_command::long_names()[j])
        },
{
    let all = env_command::long_names();
    let p = env_command::begins_with(name);
    let i = text::first_where(all, p);
    text::lemma_first_where_bounds(all, p);
    if i < 13 {
        let rest = all.skip(i + 1);
        let j = text::first_where(rest, p);
        text::lemma_first_where_bounds(rest, p);
        assert(p(all[i]));
        if j < rest.len() {
            assert(p(rest[j]));
            assert(rest[j] == all[i + 1 + j]);
            assert(name.is_prefix_of(all[i + 1 + j]));
        } else {
            assert forall|x: int| 0 <= x < 13 && x != i implies !name.is_prefix_of(
                #[trigger] all[x],
            ) by {
                if x < i {
                    assert(!p(all[x]));
                } else {
                    assert(all[x] == rest[x - i - 1]);
                    assert(!p(rest[x - i - 1]));
                }
            }
        }
        if 0 <= k < 13 && k != i && name.is_prefix_of(all[k]) {
            assert(name.is_prefix_of(all[i]));
        }
    } else if 0 <= k < 13 {
        assert(!p(all[k]));
    }
}

spec fn first_letter(s: Seq<char>) -> (nat, char) {
    (s.len(), s[0])
}

proof fn lemma_first_letters()
    ensures
        first_letter("argv0"@) == (5nat, 'a'),
        first_letter("block-signal"@) == (12nat, 'b'),
        first_letter("chdir"@) == (5nat, 'c'),
        first_letter("debug"@) == (5nat, 'd'),
        first_letter("default-signal"@) == (14nat, 'd'),
        first_letter("help"@) == (4nat, 'h'),
        first_letter("ignore-environment"@) == (18nat, 'i'),
        first_letter("ignore-signal"@) == (13nat, 'i'),
        first_letter("list-signal-handling"@) == (20nat, 'l'),
        first_letter("null"@) == (4nat, 'n'),
        first_letter("split-string"@) == (12nat, 's'),
        first_letter("unset"@) == (5nat, 'u'),
        first_letter("version"@) == (7nat, 'v'),
        "debug"@[2] == 'b' && "default-signal"@[2] == 'f',
        "ignore-environment"@[7] == 'e' && "ignore-signal"@[7] == 's',
        forall|k: int, i: int|
            0 <= k < 13 && 0 <= i < env_command::long_names()[k].len()
                ==> #[trigger] env_command::long_names()[k][i] != '=',
{
    assert(first_letter("argv0"@) == (5nat, 'a')) by {
        reveal_strlit("argv0");
    }
    assert(first_letter("block-signal"@) == (12nat, 'b')) by {
        reveal_strlit("block-signal");
    }
    assert(first_letter("chdir"@) == (5nat, 'c')) by {
        reveal_strlit("chdir");
    }
    assert(first_letter("debug"@) == (5nat, 'd')) by {
        reveal_strlit("debug");
    }
    assert(first_letter("default-signal"@) == (14nat, 'd')) by {
        reveal_strlit("default-signal");
    }
    assert(first_letter("help"@) == (4nat, 'h')) by {
        reveal_strlit("help");
    }
    assert(first_letter("ignore-environment"@) == (18nat, 'i')) by {
        reveal_strlit("ignore-environment");
    }
    assert(first_letter("ignore-signal"@) == (13nat, 'i')) by {
        reveal_strlit("ignore-signal");
    }
    assert(first_letter("list-signal-handling"@) == (20nat, 'l')) by {
        reveal_strlit("list-signal-handling");
    }
    assert(first_letter("null"@) == (4nat, 'n')) by {
        reveal_strlit("null");
    }
    assert(first_letter("split-string"@) == (12nat, 's')) by {
        reveal_strlit("split-string");
    }
    assert(first_letter("unset"@) == (5nat, 'u')) by {
        reveal_strlit("unset");
    }
    assert(first_letter("version"@) == (7nat, 'v')) by {
        reveal_strlit("version");
    }
    reveal_strlit("debug");
    reveal_strlit("default-signal");
    reveal_strlit("ignore-environment");
    reveal_strlit("ignore-signal");
    assert forall|k: int, i: int|
        0 <= k < 13 && 0 <= i < env_command::long_names()[k].len() implies #[trigger] env_command::long_names()[k][i]
        != '=' by {
        lemma_no_equals(k, i);
    }
}

proof fn lemma_no_equals(k: int, i: int)
    requires
        0 <= k < 13,
        0 <= i < env_command::long_names()[k].len(),
    ensures
        env_command::long_names()[k][i] != '=',
{
    if k == 0 {
        reveal_strlit("argv0");
    }
    if k == 1 {
        reveal_strlit("block-signal");
    }
    if k == 2 {
        reveal_strlit("chdir");
    }
    if k == 3 {
        reveal_strlit("debug");
    }
    if k == 4 {
        reveal_strlit("default-signal");
    }
    if k == 5 {
        reveal_strlit("help");
    }
    if k == 6 {
        reveal_strlit("ignore-environment");
    }
    if k == 7 {
        reveal_strlit("ignore-signal");
    }
    if k == 8 {
        reveal_strlit("list-signal-handling");
    }
    if k == 9 {
        reveal_strlit("null");
    }
    if k == 10 {
        reveal_strlit("split-string");
    }
    if k == 11 {
        reveal_strlit("unset");
    }
    if k == 12 {
        reveal_strlit("version");
    }
}

proof fn lemma_full_name(k: int)
    requires
        0 <= k < 13,
    ensures
        env_command::unique_match(env_command::long_names()[k]) == Some(k),
        env_command::long_names()[k].len() > 0,
{
    let all = env_command::long_names();
    let name = all[k];
    lemma_first_letters();
    assert(name.is_prefix_of(all[k])) by {
        assert(name.subrange(0, name.len() as int) =~= name);
    }
    assert forall|j: int| 0 <= j < 13 && j != k implies !name.is_prefix_of(#[trigger] all[j]) by {
        let other = all[j];
        let i: int = if first_letter(name).1 != first_letter(other).1 {
            0
        } else if first_letter(name).1 == 'd' {
            2
        } else {
            7
        };
        assert(i < name.len());
        assert(name[i] != other[i]);
        if name.is_prefix_of(other) {
            assert(other.subrange(0, name.len() as int)[i] == other[i]);
        }
    }
    law_long_options_may_be_shortened(name, k);
}

proof fn lemma_classified(k: int, v: Seq<char>)
    requires
        0 <= k < 13,
    ensures
        ({
            let name = env_command::long_names()[k];
            let option = env_command::long_option(k);
            &&& env_command::classify(dashed(name)) == Some((option, None::<Seq<char>>))
            &&& env_command::classify(dashed(name) + seq!['='] + v) == Some((option, Some(v)))
        }),
{
    let name = env_command::long_names()[k];
    let p = text::is_char('=');
    lemma_full_name(k);
    lemma_first_letters();
    let a = dashed(name);
    assert(a.skip(2) =~= name);
    assert forall|i: int| 0 <= i < name.len() implies !p(#[trigger] name[i]) by {}
    text::lemma_first_where(name, p, name.len() as int);
    assert(name.take(name.len() as int) =~= name);
    let b = dashed(name) + seq!['='] + v;
    let body = b.skip(2);
    assert(body =~= name + seq!['='] + v);
    assert forall|i: int| 0 <= i < name.len() implies !p(#[trigger] body[i]) by {
        assert(body[i] == name[i]);
    }
    text::lemma_first_where(body, p, name.len() as int);
    assert(body.take(name.len() as int) =~= name);
    assert(body.skip(name.len() as int + 1) =~= v);
}

/// A long option.
pub open spec fn dashed(name: Seq<char>) -> Seq<char> {
    seq!['-', '-'] + name
}

/// What the long options are called.
pub proof fn law_names_of_long_options(v: Seq<char>)
    ensures
        env_command::classify(dashed("argv0"@)) == Some((EnvLongOption::Argv0, None::<Seq<char>>)),
        env_command::classify(dashed("argv0"@) + seq!['='] + v) == Some((EnvLongOption::Argv0, Some(v))),
        env_command::classify(dashed("block-signal"@)) == Some((EnvLongOption::BlockSignal, None::<Seq<char>>)),
        env_command::classify(dashed("block-signal"@) + seq!['='] + v) == Some((EnvLongOption::BlockSignal, Some(v))),
        env_command::classify(dashed("chdir"@)) == Some((EnvLongOption::Chdir, None::<Seq<char>>)),
        env_command::classify(dashed("chdir"@) + seq!['='] + v) == Some((EnvLongOption::Chdir, Some(v))),
        env_command::classify(dashed("debug"@)) == Some((EnvLongOption::Debug, None::<Seq<char>>)),
        env_command::classify(dashed("debug"@) + seq!['='] + v) == Some((EnvLongOption::Debug, Some(v))),
        env_command::classify(dashed("default-signal"@)) == Some((EnvLongOption::DefaultSignal, None::<Seq<char>>)),
        env_command::classify(dashed("default-signal"@) + seq!['='] + v) == Some((EnvLongOption::DefaultSignal, Some(v))),
        env_command::classify(dashed("help"@)) == Some((EnvLongOption::Help, None::<Seq<char>>)),
        env_command::classify(dashed("help"@) + seq!['='] + v) == Some((EnvLongOption::Help, Some(v))),
        env_command::classify(dashed("ignore-environment"@)) == Some((EnvLongOption::IgnoreEnvironment, None::<Seq<char>>)),
        env_command::classify(dashed("ignore-environment"@) + seq!['='] + v) == Some((EnvLongOption::IgnoreEnvironment, Some(v))),
        env_command::classify(dashed("ignore-signal"@)) == Some((EnvLongOption::IgnoreSignal, None::<Seq<char>>)),
        env_command::classify(dashed("ignore-signal"@) + seq!['='] + v) == Some((EnvLongOption::IgnoreSignal, Some(v))),
        env_command::classify(dashed("list-signal-handling"@)) == Some((EnvLongOption::ListSignalHandling, None::<Seq<char>>)),
        env_command::classify(dashed("list-signal-handling"@) + seq!['='] + v) == Some((EnvLongOption::ListSignalHandling, Some(v))),
        env_command::classify(dashed("null"@)) == Some((EnvLongOption::Null, None::<Seq<char>>)),
        env_command::classify(dashed("null"@) + seq!['='] + v) == Some((EnvLongOption::Null, Some(v))),
        env_command::classify(dashed("split-string"@)) == Some((EnvLongOption::SplitString, None::<Seq<char>>)),
        env_command::classify(dashed("split-string"@) + seq!['='] + v) == Some((EnvLongOption::SplitString, Some(v))),
        env_command::classify(dashed("unset"@)) == Some((EnvLongOption::Unset, None::<Seq<char>>)),
        env_command::classify(dashed("unset"@) + seq!['='] + v) == Some((EnvLongOption::Unset, Some(v))),
        env_command::classify(dashed("version"@)) == Some((EnvLongOption::Version, None::<Seq<char>>)),
        env_command::classify(dashed("version"@) + seq!['='] + v) == Some((EnvLongOption::Version, Some(v))),
{
    lemma_classified(0, v);
    lemma_classified(1, v);
    lemma_classified(2, v);
    lemma_classified(3, v);
    lemma_classified(4, v);
    lemma_classified(5, v);
    lemma_classified(6, v);
    lemma_classified(7, v);
    lemma_classified(8, v);
    lemma_classified(9, v);
    lemma_classified(10, v);
    lemma_classified(11, v);
    lemma_classified(12, v);
}

/// What the long options do. A value may be attached or be the next word, where one is taken. Of those
/// that take none, an attached one is refused.
pub proof fn law_long_options(
    arg: Seq<char>,
    value: Option<Seq<char>>,
    option: EnvLongOption,
    next: Option<Seq<char>>,
    o: OptionsModel,
    rt: RealtimeRange,
)
    requires
        env_command::classify(arg) == Some((option, value)),
    ensures
        ({
            let r = env_command::long_outcome(arg, next, o, rt);
            let given = if value is Some {
                value
            } else {
                next
            };
            &&& option is Unset && given is Some ==> r.action is Continue && r.options == (
            OptionsModel { unset: o.unset.push(given->0), ..o })
            &&& option is Chdir && given is Some ==> r.action is Continue && r.options == (
            OptionsModel { chdir: given, ..o })
            &&& option is Chdir && given is None ==> r.action is Invalid
            &&& option is SplitString && given is Some ==> r.action == ActionModel::SplitString(
                given->0,
            ) && r.options == o
            &&& option is IgnoreEnvironment && value is None ==> r.action is Continue && r.options
                == (OptionsModel { ignore: true, ..o })
            &&& (option is Help || option is Version || option is Null) && value is None
                ==> r.action is Return
            &&& (option is Debug || option is ListSignalHandling || option is Argv0) && value is None
                ==> r.action is Continue && r.options == o
            &&& (option is IgnoreEnvironment || option is Help || option is Version || option is Null
                || option is Debug || option is ListSignalHandling) && value is Some
                ==> r.action is Invalid
            &&& (option is Unset || option is Chdir || option is SplitString) && given is Some
                ==> r.moves == if value is Some {
                Moves::Stays
            } else {
                Moves::Takes
            }
        }),
{
}

/// The short options: `-i` leaves the environment out, `-v` changes nothing, and `-u` and `-C` take the
/// next word, for a variable to be taken out and for a directory. `-a` passes one over, and `-0` runs
/// nothing.
pub proof fn law_short_options(
    value: Seq<char>,
    rest: Seq<Seq<char>>,
    o: OptionsModel,
    env: Map<Seq<u8>, Seq<u8>>,
    rt: RealtimeRange,
    steps: nat,
)
    requires
        steps <= 32,
    ensures
        env_command::read_args(seq![seq!['-', 'i']] + rest, o, env, rt, steps)
            == env_command::read_args(rest, OptionsModel { ignore: true, ..o }, env, rt, steps),
        env_command::read_args(seq![seq!['-', 'v']] + rest, o, env, rt, steps)
            == env_command::read_args(rest, o, env, rt, steps),
        env_command::read_args(seq![seq!['-', 'u'], value] + rest, o, env, rt, steps)
            == env_command::read_args(
            rest,
            OptionsModel { unset: o.unset.push(value), ..o },
            env,
            rt,
            steps,
        ),
        env_command::read_args(seq![seq!['-', 'C'], value] + rest, o, env, rt, steps)
            == env_command::read_args(
            rest,
            OptionsModel { chdir: Some(value), ..o },
            env,
            rt,
            steps,
        ),
        env_command::read_args(seq![seq!['-', 'a'], value] + rest, o, env, rt, steps)
            == env_command::read_args(rest, o, env, rt, steps),
        env_command::read_args(seq![seq!['-', '0']] + rest, o, env, rt, steps) == Ok::<
            Option<PlanModel>,
            Seq<char>,
        >(None),
{
    lemma_short_option('i', rest, o, env, rt, steps);
    lemma_short_option('v', rest, o, env, rt, steps);
    lemma_short_option('0', rest, o, env, rt, steps);
    lemma_short_taking('u', value, rest, o, env, rt, steps);
    lemma_short_taking('C', value, rest, o, env, rt, steps);
    lemma_short_taking('a', value, rest, o, env, rt, steps);
}

proof fn lemma_short_option(
    c: char,
    rest: Seq<Seq<char>>,
    o: OptionsModel,
    env: Map<Seq<u8>, Seq<u8>>,
    rt: RealtimeRange,
    steps: nat,
)
    requires
        c == 'i' || c == 'v' || c == '0',
        steps <= 32,
    ensures
        env_command::read_args(seq![seq!['-', c]] + rest, o, env, rt, steps) == match c {
            'i' => env_command::read_args(rest, OptionsModel { ignore: true, ..o }, env, rt, steps),
            'v' => env_command::read_args(rest, o, env, rt, steps),
            _ => Ok(None),
        },
{
    let a = seq!['-', c];
    let fields = seq![a] + rest;
    assert(fields[0] == a);
    assert(fields.skip(1) =~= rest);
    let s = a.skip(1);
    assert(s.len() == 1 && s[0] == c);
    assert(s.skip(1).len() == 0);
    assert(a[1] != '-');
    reveal_with_fuel(env_command::short_outcome, 3);
}

proof fn lemma_short_taking(
    c: char,
    value: Seq<char>,
    rest: Seq<Seq<char>>,
    o: OptionsModel,
    env: Map<Seq<u8>, Seq<u8>>,
    rt: RealtimeRange,
    steps: nat,
)
    requires
        c == 'u' || c == 'C' || c == 'a',
        steps <= 32,
    ensures
        env_command::read_args(seq![seq!['-', c], value] + rest, o, env, rt, steps)
            == env_command::read_args(
            rest,
            match c {
                'u' => OptionsModel { unset: o.unset.push(value), ..o },
                'C' => OptionsModel { chdir: Some(value), ..o },
                _ => o,
            },
            env,
            rt,
            steps,
        ),
{
    let a = seq!['-', c];
    let fields = seq![a, value] + rest;
    assert(fields[0] == a && fields[1] == value);
    assert(fields.skip(2) =~= rest);
    let s = a.skip(1);
    assert(s.len() == 1 && s[0] == c);
    assert(s.skip(1).len() == 0);
    assert(a[1] != '-');
}

/// The text of `-S` is split, and its words stand in front of those that follow. This goes on for 32
/// such texts, and the next is one too many.
pub proof fn law_texts_are_split_in_place(
    value: Seq<char>,
    rest: Seq<Seq<char>>,
    o: OptionsModel,
    env: Map<Seq<u8>, Seq<u8>>,
    rt: RealtimeRange,
    steps: nat,
)
    ensures
        steps < 32 ==> env_command::read_args(
            seq![seq!['-', 'S'], value] + rest,
            o,
            env,
            rt,
            steps,
        ) == match env_split::split_fields(value, env) {
            Some(words) => env_command::read_args(words + rest, o, env, rt, steps + 1),
            None => Ok(None),
        },
        steps == 32 ==> env_command::read_args(
            seq![seq!['-', 'S'], value] + rest,
            o,
            env,
            rt,
            steps,
        ) is Err,
{
    let a = seq!['-', 'S'];
    let fields = seq![a, value] + rest;
    assert(fields[0] == a && fields[1] == value);
    assert(fields.skip(2) =~= rest);
    let s = a.skip(1);
    assert(s.len() == 1 && s[0] == 'S');
    assert(s.skip(1).len() == 0);
    assert(a[1] != '-');
}

// ---------------------------------------------------------------------------
// Operands
// ---------------------------------------------------------------------------

/// An assignment in front of others puts its variable into the environment, up to the first equals
/// sign, and the first word without one is the command. Without a command nothing is run.
pub proof fn law_assignments_come_before_the_command(
    name: Seq<char>,
    value: Seq<char>,
    command: Seq<char>,
    rest: Seq<Seq<char>>,
    env: Map<Seq<u8>, Seq<u8>>,
    chdir: Option<Seq<char>>,
)
    requires
        !name.contains('='),
        !command.contains('='),
    ensures
        env_command::assign(seq![name + seq!['='] + value] + rest, env, chdir) == env_command::assign(
            rest,
            env.insert(vstd::utf8::encode_utf8(name), vstd::utf8::encode_utf8(value)),
            chdir,
        ),
        env_command::assign(seq![command] + rest, env, chdir) == Some(
            PlanModel { command, environment: env, chdir },
        ),
        env_command::assign(Seq::empty(), env, chdir) is None,
{
    let a = name + seq!['='] + value;
    let p = text::is_char('=');
    assert forall|i: int| 0 <= i < name.len() implies !p(#[trigger] a[i]) by {
        assert(a[i] == name[i]);
        assert(name.contains(name[i]));
    }
    assert(a[name.len() as int] == '=');
    text::lemma_first_where(a, p, name.len() as int);
    assert(a.take(name.len() as int) =~= name);
    assert(a.skip(name.len() as int + 1) =~= value);
    assert((seq![a] + rest)[0] == a);
    assert((seq![a] + rest).skip(1) =~= rest);
    assert forall|i: int| 0 <= i < command.len() implies !p(#[trigger] command[i]) by {
        assert(command.contains(command[i]));
    }
    text::lemma_first_where(command, p, command.len() as int);
    assert((seq![command] + rest)[0] == command);
}

/// The variables that are taken out are no longer there, the others are as they were, and a name that is
/// empty or holds an equals sign cannot be taken out. An environment that is left out is empty.
pub proof fn law_variables_are_taken_out(
    env: Map<Seq<u8>, Seq<u8>>,
    unset: Seq<Seq<char>>,
    key: Seq<u8>,
)
    ensures
        env_command::start_environment(env, true, unset) == Some(Map::<Seq<u8>, Seq<u8>>::empty()),
        match env_command::start_environment(env, false, unset) {
            Some(left) => {
                let out = exists|i: int|
                    0 <= i < unset.len() && vstd::utf8::encode_utf8(#[trigger] unset[i]) == key;
                &&& left.dom().contains(key) <==> env.dom().contains(key) && !out
                &&& left.dom().contains(key) ==> left[key] == env[key]
            },
            None => exists|i: int|
                0 <= i < unset.len() && ((#[trigger] unset[i]).len() == 0 || unset[i].contains('=')),
        },
    decreases unset.len(),
{
    if unset.len() > 0 {
        let rest = unset.skip(1);
        assert forall|i: int| 0 <= i < rest.len() implies rest[i] == unset[i + 1] by {}
        if env_command::can_unset(unset[0]) {
            let env1 = env.remove(vstd::utf8::encode_utf8(unset[0]));
            law_variables_are_taken_out(env1, rest, key);
            match env_command::start_environment(env, false, unset) {
                Some(_) => {
                    if exists|i: int|
                        0 <= i < unset.len() && vstd::utf8::encode_utf8(#[trigger] unset[i]) == key {
                        let i = choose|i: int|
                            0 <= i < unset.len() && vstd::utf8::encode_utf8(#[trigger] unset[i])
                                == key;
                        if i > 0 {
                            assert(rest[i - 1] == unset[i]);
                        }
                    }
                    if exists|i: int|
                        0 <= i < rest.len() && vstd::utf8::encode_utf8(#[trigger] rest[i]) == key {
                        let i = choose|i: int|
                            0 <= i < rest.len() && vstd::utf8::encode_utf8(#[trigger] rest[i])
                                == key;
                        assert(unset[i + 1] == rest[i]);
                    }
                },
                None => {
                    let i = choose|i: int|
                        0 <= i < rest.len() && ((#[trigger] rest[i]).len() == 0
                            || rest[i].contains('='));
                    assert(unset[i + 1] == rest[i]);
                },
            }
        } else {
            assert(unset[0].len() == 0 || unset[0].contains('='));
        }
    }
}

/// Two dashes end the options, a single dash in front of the operands leaves the environment out, and a
/// word that begins with no dash is the first operand.
pub proof fn law_where_operands_begin(
    first: Seq<char>,
    rest: Seq<Seq<char>>,
    o: OptionsModel,
    env: Map<Seq<u8>, Seq<u8>>,
    rt: RealtimeRange,
    steps: nat,
)
    requires
        steps <= 32,
        first.len() > 0 && first[0] != '-',
        !o.bad_signal,
    ensures
        env_command::read_args(seq![seq!['-', '-'], first] + rest, o, env, rt, steps)
            == env_command::read_args(seq![first] + rest, o, env, rt, steps),
        env_command::read_args(seq![first] + rest, o, env, rt, steps) == Ok::<
            Option<PlanModel>,
            Seq<char>,
        >(
            match env_command::start_environment(env, o.ignore, o.unset) {
                Some(e) => env_command::assign(seq![first] + rest, e, o.chdir),
                None => None,
            },
        ),
        env_command::read_args(seq![seq!['-'], first] + rest, o, env, rt, steps) == Ok::<
            Option<PlanModel>,
            Seq<char>,
        >(env_command::assign(seq![first] + rest, Map::empty(), o.chdir)),
{
    let dashes = seq![seq!['-', '-'], first] + rest;
    assert(dashes[0] == seq!['-', '-']);
    assert(dashes.skip(1) =~= seq![first] + rest);
    assert((seq![first] + rest)[0] == first);
    let dash = seq![seq!['-'], first] + rest;
    assert(dash[0] == seq!['-']);
    assert(dash.skip(1) =~= seq![first] + rest);
    assert(seq!['-'].len() != seq!['-', '-'].len());
    assert(first != seq!['-', '-'] && first != seq!['-']);
}

} // verus!
