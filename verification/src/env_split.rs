//! How `env -S` splits one argument into several.

use vstd::prelude::*;
use vstd::slice::slice_subrange;

use crate::context::{self, Environment, ExecContext};
use crate::text::{self, chars_of, find_char, push_chars, text_of, utf8_text};

verus! {

/// What an escape sequence stands for.
pub enum Escape {
    /// A character of the field.
    Literal(char),
    /// The end of the field.
    Separator,
    /// The end of the whole text.
    End,
    /// Nothing: the sequence is unknown.
    Unknown,
}

/// What a backslash and `c` stand for.
pub open spec fn escape_meaning(c: char, quoted: bool) -> Escape {
    if c == '_' {
        if quoted {
            Escape::Literal(' ')
        } else {
            Escape::Separator
        }
    } else if c == 'c' && !quoted {
        Escape::End
    } else if c == 'n' {
        Escape::Literal('\n')
    } else if c == 't' {
        Escape::Literal('\t')
    } else if c == 'r' {
        Escape::Literal('\r')
    } else if c == 'f' {
        Escape::Literal('\x0c')
    } else if c == 'v' {
        Escape::Literal('\x0b')
    } else if c == '\\' || c == '\'' || c == '"' || c == '$' || c == '#' {
        Escape::Literal(c)
    } else {
        Escape::Unknown
    }
}

fn read_escape(c: char, quoted: bool) -> (r: Escape)
    ensures
        r == escape_meaning(c, quoted),
{
    if c == '_' {
        if quoted {
            Escape::Literal(' ')
        } else {
            Escape::Separator
        }
    } else if c == 'c' && !quoted {
        Escape::End
    } else if c == 'n' {
        Escape::Literal('\n')
    } else if c == 't' {
        Escape::Literal('\t')
    } else if c == 'r' {
        Escape::Literal('\r')
    } else if c == 'f' {
        Escape::Literal('\x0c')
    } else if c == 'v' {
        Escape::Literal('\x0b')
    } else if c == '\\' || c == '\'' || c == '"' || c == '$' || c == '#' {
        Escape::Literal(c)
    } else {
        Escape::Unknown
    }
}

/// Whether a backslash in front of `rest` begins an escape sequence. Between single quotes only
/// backslashes and single quotes can be escaped.
pub open spec fn begins_escape(quote: Option<char>, rest: Seq<char>) -> bool {
    quote != Some('\'') || (rest.len() > 0 && (rest[0] == '\\' || rest[0] == '\''))
}

pub open spec fn is_name_start(c: char) -> bool {
    c == '_' || 'a' <= c <= 'z' || 'A' <= c <= 'Z'
}

pub open spec fn is_name_part(c: char) -> bool {
    is_name_start(c) || text::is_digit(c)
}

/// A variable name: letters, digits and underscores, with no digit in front.
pub open spec fn is_variable_name(s: Seq<char>) -> bool {
    &&& s.len() > 0
    &&& is_name_start(s[0])
    &&& forall|i: int| 0 <= i < s.len() ==> is_name_part(#[trigger] s[i])
}

/// Whether a text is a variable name.
pub fn variable_name(s: &[char]) -> (r: bool)
    ensures
        r == is_variable_name(s@),
{
    if s.len() == 0 {
        return false;
    }
    let c = s[0];
    if !(c == '_' || ('a' <= c && c <= 'z') || ('A' <= c && c <= 'Z')) {
        return false;
    }
    let mut i: usize = 0;
    while i < s.len()
        invariant
            i <= s@.len(),
            forall|j: int| 0 <= j < i ==> is_name_part(#[trigger] s@[j]),
        decreases s@.len() - i,
    {
        let c = s[i];
        if !(c == '_' || ('a' <= c && c <= 'z') || ('A' <= c && c <= 'Z') || ('0' <= c && c
            <= '9')) {
            assert(!is_name_part(s@[i as int]));
            return false;
        }
        i = i + 1;
    }
    true
}

/// What a reference to a variable expands to.
pub enum Reference {
    /// The value of the variable, and what follows the reference.
    Value { value: Seq<char>, rest: Seq<char> },
    /// Nothing, since the variable is not set, and what follows the reference.
    Unset { rest: Seq<char> },
    /// Nothing: there is no well-formed reference, or the value is not valid UTF-8.
    Bad,
}

/// Reads the reference whose dollar sign stands in front of `s`.
pub open spec fn reference(s: Seq<char>, env: Map<Seq<u8>, Seq<u8>>) -> Reference {
    let body = s.skip(1);
    let k = text::first_where(body, text::is_char('}'));
    let name = body.take(k);
    let rest = body.skip(k + 1);
    if s.len() == 0 || s[0] != '{' || k >= body.len() || !is_variable_name(name) {
        Reference::Bad
    } else {
        match context::lookup(env, vstd::utf8::encode_utf8(name)) {
            None => Reference::Unset { rest },
            Some(value) => if vstd::utf8::valid_utf8(value) {
                Reference::Value { value: vstd::utf8::decode_utf8(value), rest }
            } else {
                Reference::Bad
            },
        }
    }
}

/// A field that may have begun, extended by `more`.
pub open spec fn extended(field: Option<Seq<char>>, more: Seq<char>) -> Option<Seq<char>> {
    match field {
        Some(f) => Some(f + more),
        None => Some(more),
    }
}

/// The field that was begun, if any, in front of the fields that follow.
pub open spec fn with_field(field: Option<Seq<char>>, rest: Option<Seq<Seq<char>>>) -> Option<
    Seq<Seq<char>>,
> {
    match (field, rest) {
        (Some(f), Some(r)) => Some(seq![f] + r),
        (None, r) => r,
        (_, None) => None,
    }
}

/// White space that separates fields.
pub open spec fn is_separator(c: char) -> bool {
    c == ' ' || c == '\t' || c == '\n' || c == '\x0c' || c == '\r'
}

/// The fields of the text `s`, read with `quote` open and `field` begun. `None` stands for a text
/// that cannot be split.
pub open spec fn split_from(
    s: Seq<char>,
    quote: Option<char>,
    field: Option<Seq<char>>,
    env: Map<Seq<u8>, Seq<u8>>,
) -> Option<Seq<Seq<char>>>
    decreases s.len(),
{
    let t = s.skip(1);
    if s.len() == 0 {
        if quote is Some {
            None
        } else {
            with_field(field, Some(Seq::empty()))
        }
    } else if s[0] == '\\' && begins_escape(quote, t) {
        if t.len() == 0 {
            None
        } else {
            match escape_meaning(t[0], quote is Some) {
                Escape::Literal(c) => split_from(t.skip(1), quote, extended(field, seq![c]), env),
                Escape::Separator => with_field(field, split_from(t.skip(1), None, None, env)),
                Escape::End => with_field(field, Some(Seq::empty())),
                Escape::Unknown => None,
            }
        }
    } else if s[0] == '$' && quote != Some('\'') {
        match reference(t, env) {
            Reference::Bad => None,
            Reference::Unset { rest } => if rest.len() < s.len() {
                split_from(rest, quote, field, env)
            } else {
                None
            },
            Reference::Value { value, rest } => if rest.len() < s.len() {
                split_from(rest, quote, extended(field, value), env)
            } else {
                None
            },
        }
    } else if quote is Some {
        if quote == Some(s[0]) {
            split_from(t, None, extended(field, Seq::empty()), env)
        } else {
            split_from(t, quote, extended(field, seq![s[0]]), env)
        }
    } else if s[0] == '\'' || s[0] == '"' {
        split_from(t, Some(s[0]), extended(field, Seq::empty()), env)
    } else if s[0] == '#' && field is None {
        Some(Seq::empty())
    } else if is_separator(s[0]) {
        with_field(field, split_from(t, None, None, env))
    } else {
        split_from(t, quote, extended(field, seq![s[0]]), env)
    }
}

/// The fields of a text.
pub open spec fn split_fields(s: Seq<char>, env: Map<Seq<u8>, Seq<u8>>) -> Option<
    Seq<Seq<char>>,
> {
    split_from(s, None, None, env)
}

/// What a list of fields, if there is one, is called in contracts.
pub open spec fn view_fields(r: Option<Vec<Vec<char>>>) -> Option<Seq<Seq<char>>> {
    match r {
        Some(v) => Some(text::view_lines(v@)),
        None => None,
    }
}

/// Fields that are known in front of those that are still to be read.
pub open spec fn after(done: Seq<Seq<char>>, rest: Option<Seq<Seq<char>>>) -> Option<
    Seq<Seq<char>>,
> {
    match rest {
        Some(r) => Some(done + r),
        None => None,
    }
}

proof fn lemma_after(done: Seq<Seq<char>>, field: Seq<char>, rest: Option<Seq<Seq<char>>>)
    ensures
        after(done, with_field(Some(field), rest)) == after(done.push(field), rest),
{
    match rest {
        Some(r) => {
            assert(done + (seq![field] + r) =~= done.push(field) + r);
        },
        None => {},
    }
}

/// A reference that was read: its value, if the variable is set, and how long the reference is.
struct ReadReference {
    value: Option<Vec<char>>,
    len: usize,
}

fn read_reference(s: &[char], env: &Environment) -> (r: Option<ReadReference>)
    ensures
        match r {
            None => reference(s@, env@) == Reference::Bad,
            Some(x) => x.len <= s@.len() && match x.value {
                Some(v) => reference(s@, env@) == (Reference::Value {
                    value: v@,
                    rest: s@.skip(x.len as int),
                }),
                None => reference(s@, env@) == (Reference::Unset { rest: s@.skip(x.len as int) }),
            },
        },
{
    if s.len() == 0 || s[0] != '{' {
        return None;
    }
    let body = slice_subrange(s, 1, s.len());
    proof {
        assert(body@ =~= s@.skip(1));
    }
    let k: usize = find_char(body, '}');
    if k >= body.len() {
        return None;
    }
    let name = slice_subrange(body, 0, k);
    proof {
        assert(name@ =~= body@.take(k as int));
        assert(body@.skip(k + 1) =~= s@.skip(k + 2));
    }
    if !variable_name(name) {
        return None;
    }
    let name_text = text_of(name);
    match env.get(name_text.as_str().as_bytes()) {
        None => Some(ReadReference { value: None, len: k + 2 }),
        Some(bytes) => match utf8_text(bytes.as_slice()) {
            Err(_) => None,
            Ok(value) => {
                let chars = chars_of(value.as_str());
                Some(ReadReference { value: Some(chars), len: k + 2 })
            },
        },
    }
}

/// The field in progress, as the contracts speak of it.
spec fn open_field(in_field: bool, current: Seq<char>) -> Option<Seq<char>> {
    if in_field {
        Some(current)
    } else {
        None
    }
}

/// Splits a text into fields.
#[verifier::rlimit(40)]
pub fn split_chars(raw: &[char], env: &Environment) -> (r: Option<Vec<Vec<char>>>)
    ensures
        view_fields(r) == split_fields(raw@, env@),
{
    let mut fields: Vec<Vec<char>> = Vec::new();
    let mut current: Vec<char> = Vec::new();
    let mut in_field = false;
    let mut quote: Option<char> = None;
    let mut i: usize = 0;
    proof {
        assert(raw@.skip(0) =~= raw@);
        match split_fields(raw@, env@) {
            Some(x) => {
                assert(text::view_lines(fields@) + x =~= x);
            },
            None => {},
        }
    }
    while i < raw.len()
        invariant
            i <= raw@.len(),
            !in_field ==> current@.len() == 0,
            split_fields(raw@, env@) == after(
                text::view_lines(fields@),
                split_from(raw@.skip(i as int), quote, open_field(in_field, current@), env@),
            ),
        decreases raw@.len() - i,
    {
        let c = raw[i];
        let rest = slice_subrange(raw, i + 1, raw.len());
        let ghost s = raw@.skip(i as int);
        let ghost before = current@;
        let ghost field = open_field(in_field, current@);
        let ghost done = text::view_lines(fields@);
        proof {
            assert(s[0] == c);
            assert(s.skip(1) =~= rest@);
            assert(rest@ =~= raw@.skip(i + 1));
        }
        let in_single = match quote {
            Some(q) => q == '\'',
            None => false,
        };
        if c == '\\' && (!in_single || (rest.len() > 0 && (rest[0] == '\\' || rest[0] == '\''))) {
            if rest.len() == 0 {
                return None;
            }
            proof {
                assert(rest@.skip(1) =~= raw@.skip(i + 2));
            }
            match read_escape(rest[0], quote.is_some()) {
                Escape::Literal(e) => {
                    current.push(e);
                    in_field = true;
                    proof {
                        assert(extended(field, seq![e]) == Some(current@)) by {
                            assert(before + seq![e] =~= current@);
                            assert(before.len() == 0 ==> seq![e] =~= current@);
                        }
                    }
                },
                Escape::Separator => {
                    if in_field {
                        fields.push(current);
                        current = Vec::new();
                        in_field = false;
                        proof {
                            assert(text::view_lines(fields@) =~= done.push(before));
                            lemma_after(
                                done,
                                before,
                                split_from(raw@.skip(i + 2), None, None, env@),
                            );
                        }
                    }
                },
                Escape::End => {
                    if in_field {
                        fields.push(current);
                        proof {
                            assert(text::view_lines(fields@) =~= done.push(before));
                            lemma_after(done, before, Some(Seq::empty()));
                        }
                    }
                    proof {
                        assert(text::view_lines(fields@) + Seq::<Seq<char>>::empty()
                            =~= text::view_lines(fields@));
                    }
                    return Some(fields);
                },
                Escape::Unknown => {
                    return None;
                },
            }
            i = i + 2;
            continue;
        }
        if c == '$' && !in_single {
            match read_reference(rest, env) {
                None => {
                    return None;
                },
                Some(found) => {
                    proof {
                        assert(rest@.skip(found.len as int) =~= raw@.skip(i + 1 + found.len));
                    }
                    if let Some(value) = found.value {
                        push_chars(&mut current, value.as_slice());
                        in_field = true;
                        proof {
                            assert(extended(field, value@) == Some(current@)) by {
                                assert(before + value@ =~= current@);
                                assert(before.len() == 0 ==> value@ =~= current@);
                            }
                        }
                    }
                    i = i + 1 + found.len;
                },
            }
            continue;
        }
        if let Some(q) = quote {
            if c == q {
                quote = None;
                proof {
                    assert(extended(field, Seq::empty()) == Some(current@)) by {
                        assert(before + Seq::<char>::empty() =~= current@);
                        assert(before.len() == 0 ==> current@ =~= Seq::<char>::empty());
                    }
                }
            } else {
                current.push(c);
                proof {
                    assert(extended(field, seq![c]) == Some(current@)) by {
                        assert(before + seq![c] =~= current@);
                        assert(before.len() == 0 ==> seq![c] =~= current@);
                    }
                }
            }
            in_field = true;
            i = i + 1;
            continue;
        }
        if c == '\'' || c == '"' {
            quote = Some(c);
            in_field = true;
            proof {
                assert(extended(field, Seq::empty()) == Some(current@)) by {
                    assert(before + Seq::<char>::empty() =~= current@);
                    assert(before.len() == 0 ==> current@ =~= Seq::<char>::empty());
                }
            }
            i = i + 1;
            continue;
        }
        if c == '#' && !in_field {
            proof {
                assert(done + Seq::<Seq<char>>::empty() =~= done);
            }
            return Some(fields);
        }
        if c == ' ' || c == '\t' || c == '\n' || c == '\x0c' || c == '\r' {
            if in_field {
                fields.push(current);
                current = Vec::new();
                in_field = false;
                proof {
                    assert(text::view_lines(fields@) =~= done.push(before));
                    lemma_after(done, before, split_from(raw@.skip(i + 1), None, None, env@));
                }
            }
            i = i + 1;
            continue;
        }
        current.push(c);
        in_field = true;
        proof {
            assert(extended(field, seq![c]) == Some(current@)) by {
                assert(before + seq![c] =~= current@);
                assert(before.len() == 0 ==> seq![c] =~= current@);
            }
        }
        i = i + 1;
    }
    if quote.is_some() {
        return None;
    }
    let ghost done = text::view_lines(fields@);
    if in_field {
        let ghost last = current@;
        fields.push(current);
        proof {
            assert(text::view_lines(fields@) =~= done.push(last));
            lemma_after(done, last, Some(Seq::empty()));
        }
    }
    proof {
        assert(text::view_lines(fields@) + Seq::<Seq<char>>::empty() =~= text::view_lines(fields@));
    }
    Some(fields)
}

/// Texts made of runs of characters.
pub fn to_strings(fields: &Vec<Vec<char>>) -> (r: Vec<String>)
    ensures
        text::texts(r@) == text::view_lines(fields@),
{
    let mut out: Vec<String> = Vec::new();
    let mut i: usize = 0;
    while i < fields.len()
        invariant
            i <= fields@.len(),
            out@.len() == i,
            forall|j: int| 0 <= j < i ==> (#[trigger] out@[j])@ == fields@[j]@,
        decreases fields@.len() - i,
    {
        out.push(text_of(fields[i].as_slice()));
        i = i + 1;
    }
    proof {
        assert(text::texts(out@) =~= text::view_lines(fields@));
    }
    out
}

/// Splits the argument of `env -S` into fields. References to variables are expanded from the
/// inherited environment while splitting, and their values are not split again.
pub fn split_env_split_string(raw: &str, context: &ExecContext) -> (r: Option<Vec<String>>)
    ensures
        match r {
            Some(v) => split_fields(raw@, context@.environment) == Some(text::texts(v@)),
            None => split_fields(raw@, context@.environment) is None,
        },
{
    let chars = chars_of(raw);
    match split_chars(chars.as_slice(), &context.environment) {
        Some(fields) => Some(to_strings(&fields)),
        None => None,
    }
}

} // verus!
