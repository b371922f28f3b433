//! What the first line of a script says, for every line that is written out.

use vstd::prelude::*;

use crate::shebang::{self, ArgumentModel, Mark, ShebangModel};
use crate::text;

verus! {

/// Spaces and tabs, or nothing.
pub open spec fn is_blank(s: Seq<u8>) -> bool {
    forall|i: int| 0 <= i < s.len() ==> #[trigger] s[i] == 32 || s[i] == 9
}

/// Bytes that stay on one line.
pub open spec fn is_inline(s: Seq<u8>) -> bool {
    forall|i: int| 0 <= i < s.len() ==> #[trigger] s[i] != 10 && s[i] != 0
}

/// A word that no blank parts.
pub open spec fn is_word(s: Seq<u8>) -> bool {
    s.len() > 0 && forall|i: int| 0 <= i < s.len() ==> #[trigger] s[i] != 32 && s[i] != 9
}

/// A text that neither begins nor ends with a blank.
pub open spec fn is_tight(s: Seq<u8>) -> bool {
    s.len() > 0 ==> s[0] != 32 && s[0] != 9 && s.last() != 32 && s.last() != 9
}

proof fn lemma_trim_end(s: Seq<u8>, blanks: Seq<u8>)
    requires
        is_blank(blanks),
        s.len() > 0 ==> s.last() != 32 && s.last() != 9,
    ensures
        shebang::trim_end(s + blanks) == s,
    decreases blanks.len(),
{
    let t = s + blanks;
    if blanks.len() == 0 {
        assert(t =~= s);
    } else {
        assert(t.last() == blanks.last());
        assert(blanks.last() == blanks[blanks.len() - 1]);
        assert(t.drop_last() =~= s + blanks.drop_last());
        lemma_trim_end(s, blanks.drop_last());
    }
}

/// The parts of a line: an interpreter between blanks, and behind blanks an argument, which may hold
/// blanks itself but neither begins nor ends with one.
proof fn lemma_line_parts(
    before: Seq<u8>,
    interpreter: Seq<u8>,
    between: Seq<u8>,
    argument: Seq<u8>,
    after: Seq<u8>,
)
    requires
        is_blank(before) && is_blank(between) && is_blank(after),
        is_word(interpreter),
        is_tight(argument),
        argument.len() > 0 ==> between.len() > 0,
        argument.len() == 0 ==> between.len() == 0,
    ensures
        shebang::line_parts(before + interpreter + between + argument + after) == (
        ShebangModel::Parts { interpreter, argument: shebang::argument_of(argument) }),
{
    let tail = between + argument;
    let core = before + interpreter + tail;
    assert(before + interpreter + between + argument + after =~= core + after);
    assert(core.last() == if argument.len() > 0 {
        argument.last()
    } else {
        interpreter.last()
    });
    assert(interpreter.last() == interpreter[interpreter.len() - 1]);
    lemma_trim_end(core, after);
    let start = before.len() as int;
    let word = shebang::marked(Mark::Word);
    let space = shebang::marked(Mark::Space);
    assert forall|i: int| 0 <= i < start implies !word(#[trigger] core[i]) by {
        assert(core[i] == before[i]);
    }
    assert(core[start] == interpreter[0]);
    text::lemma_first_where(core, word, start);
    let rest = core.skip(start);
    assert(rest =~= interpreter + tail);
    let end = interpreter.len() as int;
    assert forall|i: int| 0 <= i < end implies !space(#[trigger] rest[i]) by {
        assert(rest[i] == interpreter[i]);
    }
    if tail.len() > 0 {
        assert(rest[end] == between[0]);
    }
    text::lemma_first_where(rest, space, end);
    assert(rest.take(end) =~= interpreter);
    assert(rest.skip(end) =~= tail);
    assert forall|i: int| 0 <= i < between.len() implies !word(#[trigger] tail[i]) by {
        assert(tail[i] == between[i]);
    }
    if argument.len() > 0 {
        assert(tail[between.len() as int] == argument[0]);
    }
    text::lemma_first_where(tail, word, between.len() as int);
    assert(tail.skip(between.len() as int) =~= argument);
}

/// The first line of a script, with what follows it.
pub open spec fn script(line: Seq<u8>, rest: Seq<u8>) -> Seq<u8> {
    seq![35u8, 33] + line + seq![10u8] + rest
}

proof fn lemma_first_line(line: Seq<u8>, rest: Seq<u8>)
    requires
        is_inline(line),
        line.len() + 2 < 256,
    ensures
        shebang::shebang_of(script(line, rest)) == Some(shebang::line_parts(line)),
{
    let s = script(line, rest);
    let v = shebang::visible_part(s);
    let k = line.len() as int + 2;
    assert(s[0] == 35 && s[1] == 33);
    assert(s[k] == 10);
    assert(v[k] == 10);
    let p = shebang::marked(Mark::LineEnd);
    assert forall|i: int| 0 <= i < k implies !p(#[trigger] v[i]) by {
        assert(v[i] == s[i]);
        if i >= 2 {
            assert(s[i] == line[i - 2]);
        }
    }
    text::lemma_first_where(v, p, k);
    assert(v.subrange(2, k) =~= line);
}

/// A script names its interpreter as the first word of its first line, and the rest of the line, with
/// the blanks around it taken away, is one argument. Nothing behind the line counts. The line has to
/// end within the first 256 bytes.
pub proof fn law_scripts_name_an_interpreter(
    before: Seq<u8>,
    interpreter: Seq<u8>,
    between: Seq<u8>,
    argument: Seq<u8>,
    after: Seq<u8>,
    rest: Seq<u8>,
)
    requires
        is_blank(before) && is_blank(between) && is_blank(after),
        is_word(interpreter) && is_inline(interpreter),
        is_tight(argument) && is_inline(argument),
        argument.len() > 0 ==> between.len() > 0,
        argument.len() == 0 ==> between.len() == 0,
        before.len() + interpreter.len() + between.len() + argument.len() + after.len() + 2 < 256,
    ensures
        ({
            let line = before + interpreter + between + argument + after;
            shebang::shebang_of(script(line, rest)) == Some(
                ShebangModel::Parts {
                    interpreter,
                    argument: if argument.len() == 0 {
                        ArgumentModel::Absent
                    } else if vstd::utf8::valid_utf8(argument) {
                        ArgumentModel::Utf8(vstd::utf8::decode_utf8(argument))
                    } else {
                        ArgumentModel::InvalidUtf8
                    },
                },
            )
        }),
{
    let line = before + interpreter + between + argument + after;
    assert(is_inline(line)) by {
        let a = before.len() as int;
        let b = a + interpreter.len();
        let c = b + between.len();
        let d = c + argument.len();
        assert forall|i: int| 0 <= i < line.len() implies #[trigger] line[i] != 10 && line[i]
            != 0 by {
            if i < a {
                assert(line[i] == before[i]);
            } else if i < b {
                assert(line[i] == interpreter[i - a]);
            } else if i < c {
                assert(line[i] == between[i - b]);
            } else if i < d {
                assert(line[i] == argument[i - c]);
            } else {
                assert(line[i] == after[i - d]);
            }
        }
    }
    lemma_first_line(line, rest);
    lemma_line_parts(before, interpreter, between, argument, after);
}

/// A first line without a word is run by the shell, and a file that does not begin with `#!` is no
/// script.
pub proof fn law_scripts_without_an_interpreter(blanks: Seq<u8>, rest: Seq<u8>, other: Seq<u8>)
    requires
        is_blank(blanks),
        blanks.len() + 2 < 256,
        other.len() < 2 || other[0] != 35 || other[1] != 33,
    ensures
        shebang::shebang_of(script(blanks, rest)) == Some(ShebangModel::ExecvpFallback),
        shebang::shebang_of(other) is None,
{
    lemma_first_line(blanks, rest);
    lemma_trim_end(Seq::empty(), blanks);
    assert(Seq::<u8>::empty() + blanks =~= blanks);
}

/// An interpreter that is named by a path is looked for at that path, and one that is named by a bare
/// word in the current directory.
pub proof fn law_where_interpreters_are(path: Seq<u8>)
    requires
        path.len() > 0,
    ensures
        path.contains(47) ==> shebang::interpreter_path(path) == path,
        !path.contains(47) ==> shebang::interpreter_path(path) == seq![46u8, 47] + path,
{
}

} // verus!
