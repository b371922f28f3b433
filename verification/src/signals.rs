//! The names of the standard Linux signals and how users may write them.

use vstd::prelude::*;
use vstd::slice::slice_subrange;

use crate::text::{self, chars_of, is_text, trimmed};

verus! {

pub const SIGHUP: i32 = 1;

pub const SIGINT: i32 = 2;

pub const SIGQUIT: i32 = 3;

pub const SIGILL: i32 = 4;

pub const SIGTRAP: i32 = 5;

pub const SIGABRT: i32 = 6;

pub const SIGBUS: i32 = 7;

pub const SIGFPE: i32 = 8;

pub const SIGKILL: i32 = 9;

pub const SIGSEGV: i32 = 11;

pub const SIGPIPE: i32 = 13;

pub const SIGTERM: i32 = 15;

pub const SIGCHLD: i32 = 17;

pub const SIGCONT: i32 = 18;

pub const SIGSTOP: i32 = 19;

pub const SIGTTIN: i32 = 21;

pub const SIGTTOU: i32 = 22;

pub const SIGSYS: i32 = 31;

/// How many standard signals there are.
pub const SIGNAL_COUNT: usize = 31;

/// The names of the standard signals, without their prefix, in the order of their numbers. The
/// first of them has the number 1.
pub open spec fn names() -> Seq<Seq<char>> {
    seq![
        "HUP"@,
        "INT"@,
        "QUIT"@,
        "ILL"@,
        "TRAP"@,
        "ABRT"@,
        "BUS"@,
        "FPE"@,
        "KILL"@,
        "USR1"@,
        "SEGV"@,
        "USR2"@,
        "PIPE"@,
        "ALRM"@,
        "TERM"@,
        "STKFLT"@,
        "CHLD"@,
        "CONT"@,
        "STOP"@,
        "TSTP"@,
        "TTIN"@,
        "TTOU"@,
        "URG"@,
        "XCPU"@,
        "XFSZ"@,
        "VTALRM"@,
        "PROF"@,
        "WINCH"@,
        "IO"@,
        "PWR"@,
        "SYS"@,
    ]
}

/// The name of the signal at `index`, without its prefix.
pub fn signal_name(index: usize) -> (r: &'static str)
    requires
        index < SIGNAL_COUNT,
    ensures
        r@ == names()[index as int],
{
    if index == 0 { "HUP" }
    else if index == 1 { "INT" }
    else if index == 2 { "QUIT" }
    else if index == 3 { "ILL" }
    else if index == 4 { "TRAP" }
    else if index == 5 { "ABRT" }
    else if index == 6 { "BUS" }
    else if index == 7 { "FPE" }
    else if index == 8 { "KILL" }
    else if index == 9 { "USR1" }
    else if index == 10 { "SEGV" }
    else if index == 11 { "USR2" }
    else if index == 12 { "PIPE" }
    else if index == 13 { "ALRM" }
    else if index == 14 { "TERM" }
    else if index == 15 { "STKFLT" }
    else if index == 16 { "CHLD" }
    else if index == 17 { "CONT" }
    else if index == 18 { "STOP" }
    else if index == 19 { "TSTP" }
    else if index == 20 { "TTIN" }
    else if index == 21 { "TTOU" }
    else if index == 22 { "URG" }
    else if index == 23 { "XCPU" }
    else if index == 24 { "XFSZ" }
    else if index == 25 { "VTALRM" }
    else if index == 26 { "PROF" }
    else if index == 27 { "WINCH" }
    else if index == 28 { "IO" }
    else if index == 29 { "PWR" }
    else { "SYS" }
}

/// The ASCII upper case of a character.
pub open spec fn upper_char(c: char) -> char {
    if 'a' <= c <= 'z' {
        (c as u32 - 32) as u8 as char
    } else {
        c
    }
}

/// The ASCII upper case of a text.
pub open spec fn upper(s: Seq<char>) -> Seq<char> {
    Seq::new(s.len(), |i: int| upper_char(s[i]))
}

/// The ASCII upper case of a character.
pub fn to_upper(c: char) -> (r: char)
    ensures
        r == upper_char(c),
{
    if 'a' <= c && c <= 'z' {
        (c as u32 - 32) as u8 as char
    } else {
        c
    }
}

/// The ASCII upper case of a run of characters.
pub fn upper_chars(s: &[char]) -> (r: Vec<char>)
    ensures
        r@ == upper(s@),
{
    let mut out: Vec<char> = Vec::new();
    let mut i: usize = 0;
    while i < s.len()
        invariant
            i <= s@.len(),
            out@.len() == i,
            forall|j: int| 0 <= j < i ==> out@[j] == upper_char(s@[j]),
        decreases s@.len() - i,
    {
        out.push(to_upper(s[i]));
        i = i + 1;
    }
    proof {
        assert(out@ =~= upper(s@));
    }
    out
}

/// `s` without the prefix `SIG`.
pub open spec fn strip_sig(s: Seq<char>) -> Seq<char> {
    if s.len() >= 3 && s[0] == 'S' && s[1] == 'I' && s[2] == 'G' {
        s.skip(3)
    } else {
        s
    }
}

/// What is looked up for a signal that a user wrote: case and white space around it do not
/// matter, and the prefix may be there or not.
pub open spec fn normal_name(raw: Seq<char>) -> Seq<char> {
    strip_sig(upper(text::trim(raw)))
}

pub open spec fn equals(s: Seq<char>) -> spec_fn(Seq<char>) -> bool {
    |x: Seq<char>| x == s
}

/// The index of the signal that a user wrote, or the number of signals when there is none.
pub open spec fn signal_index(raw: Seq<char>) -> int {
    text::first_where(names(), equals(normal_name(raw)))
}

/// The number of the signal that a user wrote.
pub open spec fn signal_number(raw: Seq<char>) -> Option<int> {
    if 0 <= signal_index(raw) < SIGNAL_COUNT {
        Some(signal_index(raw) + 1)
    } else {
        None
    }
}

/// The index of the first signal with the given name, or the number of signals.
pub fn find_name(name: &[char]) -> (r: usize)
    ensures
        r == text::first_where(names(), equals(name@)),
        r <= SIGNAL_COUNT,
{
    let mut i: usize = 0;
    while i < SIGNAL_COUNT && !is_text(name, signal_name(i))
        invariant
            i <= SIGNAL_COUNT,
            forall|j: int| 0 <= j < i ==> #[trigger] names()[j] != name@,
        decreases SIGNAL_COUNT - i,
    {
        i = i + 1;
    }
    proof {
        assert(names().len() == SIGNAL_COUNT);
        text::lemma_first_where(names(), equals(name@), i as int);
    }
    i
}

fn find_signal(raw: &str) -> (r: usize)
    ensures
        r == signal_index(raw@),
        r <= SIGNAL_COUNT,
{
    let chars = chars_of(raw);
    let trimmed_chars = trimmed(chars.as_slice());
    let name = upper_chars(trimmed_chars);
    let s = name.as_slice();
    if s.len() >= 3 && s[0] == 'S' && s[1] == 'I' && s[2] == 'G' {
        let stripped = slice_subrange(s, 3, s.len());
        proof {
            assert(stripped@ =~= s@.skip(3));
        }
        find_name(stripped)
    } else {
        find_name(s)
    }
}

/// The name, without prefix, of the signal that a user wrote.
pub fn canonical_signal_name(raw: &str) -> (r: Option<&'static str>)
    ensures
        match r {
            Some(name) => signal_index(raw@) < SIGNAL_COUNT && name@ == names()[signal_index(raw@)],
            None => signal_index(raw@) == SIGNAL_COUNT,
        },
{
    let i: usize = find_signal(raw);
    if i < SIGNAL_COUNT {
        Some(signal_name(i))
    } else {
        None
    }
}

/// The number of the signal that a user wrote.
pub fn signal_from_str(raw: &str) -> (r: Option<i32>)
    ensures
        match r {
            Some(n) => signal_number(raw@) == Some(n as int),
            None => signal_number(raw@) is None,
        },
{
    let i: usize = find_signal(raw);
    if i < SIGNAL_COUNT {
        Some(i as i32 + 1)
    } else {
        None
    }
}

/// The number of the signal that a user wrote, by name.
pub fn signal_by_name(name: &str) -> (r: Option<i32>)
    ensures
        match r {
            Some(n) => signal_number(name@) == Some(n as int),
            None => signal_number(name@) is None,
        },
{
    signal_from_str(name)
}

/// Texts joined by a separator.
pub open spec fn joined(parts: Seq<Seq<char>>, separator: Seq<char>) -> Seq<char>
    decreases parts.len(),
{
    if parts.len() == 0 {
        Seq::empty()
    } else if parts.len() == 1 {
        parts[0]
    } else {
        joined(parts.drop_last(), separator) + separator + parts.last()
    }
}

/// The names of all signals, separated by commas.
pub fn all_names() -> (r: String)
    ensures
        r@ == joined(names(), ", "@),
{
    let mut out = signal_name(0).to_owned();
    let mut i: usize = 1;
    proof {
        assert(names().len() == SIGNAL_COUNT);
        assert(names().take(1).len() == 1);
        assert(names().take(1)[0] == names()[0]);
    }
    while i < SIGNAL_COUNT
        invariant
            1 <= i <= SIGNAL_COUNT,
            names().len() == SIGNAL_COUNT,
            out@ == joined(names().take(i as int), ", "@),
        decreases SIGNAL_COUNT - i,
    {
        out.append(", ");
        out.append(signal_name(i));
        proof {
            let t = names().take(i + 1);
            assert(t.drop_last() =~= names().take(i as int));
            assert(t.last() == names()[i as int]);
        }
        i = i + 1;
    }
    proof {
        assert(names().take(SIGNAL_COUNT as int) =~= names());
    }
    out
}

/// A word of capital letters and digits.
pub open spec fn is_capital(c: char) -> bool {
    'A' <= c <= 'Z' || '0' <= c <= '9'
}

pub open spec fn capital_word(s: Seq<char>) -> bool {
    s.len() > 0 && forall|i: int| 0 <= i < s.len() ==> is_capital(#[trigger] s[i])
}

/// The names of the signals are words of capital letters and digits.
pub proof fn lemma_names_are_words(k: int)
    requires
        0 <= k < SIGNAL_COUNT,
    ensures
        capital_word(names()[k]),
{
    if k == 0 {
        reveal_strlit("HUP");
        assert(names()[k] =~= seq!['H', 'U', 'P']);
    }
    if k == 1 {
        reveal_strlit("INT");
        assert(names()[k] =~= seq!['I', 'N', 'T']);
    }
    if k == 2 {
        reveal_strlit("QUIT");
        assert(names()[k] =~= seq!['Q', 'U', 'I', 'T']);
    }
    if k == 3 {
        reveal_strlit("ILL");
        assert(names()[k] =~= seq!['I', 'L', 'L']);
    }
    if k == 4 {
        reveal_strlit("TRAP");
        assert(names()[k] =~= seq!['T', 'R', 'A', 'P']);
    }
    if k == 5 {
        reveal_strlit("ABRT");
        assert(names()[k] =~= seq!['A', 'B', 'R', 'T']);
    }
    if k == 6 {
        reveal_strlit("BUS");
        assert(names()[k] =~= seq!['B', 'U', 'S']);
    }
    if k == 7 {
        reveal_strlit("FPE");
        assert(names()[k] =~= seq!['F', 'P', 'E']);
    }
    if k == 8 {
        reveal_strlit("KILL");
        assert(names()[k] =~= seq!['K', 'I', 'L', 'L']);
    }
    if k == 9 {
        reveal_strlit("USR1");
        assert(names()[k] =~= seq!['U', 'S', 'R', '1']);
    }
    if k == 10 {
        reveal_strlit("SEGV");
        assert(names()[k] =~= seq!['S', 'E', 'G', 'V']);
    }
    if k == 11 {
        reveal_strlit("USR2");
        assert(names()[k] =~= seq!['U', 'S', 'R', '2']);
    }
    if k == 12 {
        reveal_strlit("PIPE");
        assert(names()[k] =~= seq!['P', 'I', 'P', 'E']);
    }
    if k == 13 {
        reveal_strlit("ALRM");
        assert(names()[k] =~= seq!['A', 'L', 'R', 'M']);
    }
    if k == 14 {
        reveal_strlit("TERM");
        assert(names()[k] =~= seq!['T', 'E', 'R', 'M']);
    }
    if k == 15 {
        reveal_strlit("STKFLT");
        assert(names()[k] =~= seq!['S', 'T', 'K', 'F', 'L', 'T']);
    }
    if k == 16 {
        reveal_strlit("CHLD");
        assert(names()[k] =~= seq!['C', 'H', 'L', 'D']);
    }
    if k == 17 {
        reveal_strlit("CONT");
        assert(names()[k] =~= seq!['C', 'O', 'N', 'T']);
    }
    if k == 18 {
        reveal_strlit("STOP");
        assert(names()[k] =~= seq!['S', 'T', 'O', 'P']);
    }
    if k == 19 {
        reveal_strlit("TSTP");
        assert(names()[k] =~= seq!['T', 'S', 'T', 'P']);
    }
    if k == 20 {
        reveal_strlit("TTIN");
        assert(names()[k] =~= seq!['T', 'T', 'I', 'N']);
    }
    if k == 21 {
        reveal_strlit("TTOU");
        assert(names()[k] =~= seq!['T', 'T', 'O', 'U']);
    }
    if k == 22 {
        reveal_strlit("URG");
        assert(names()[k] =~= seq!['U', 'R', 'G']);
    }
    if k == 23 {
        reveal_strlit("XCPU");
        assert(names()[k] =~= seq!['X', 'C', 'P', 'U']);
    }
    if k == 24 {
        reveal_strlit("XFSZ");
        assert(names()[k] =~= seq!['X', 'F', 'S', 'Z']);
    }
    if k == 25 {
        reveal_strlit("VTALRM");
        assert(names()[k] =~= seq!['V', 'T', 'A', 'L', 'R', 'M']);
    }
    if k == 26 {
        reveal_strlit("PROF");
        assert(names()[k] =~= seq!['P', 'R', 'O', 'F']);
    }
    if k == 27 {
        reveal_strlit("WINCH");
        assert(names()[k] =~= seq!['W', 'I', 'N', 'C', 'H']);
    }
    if k == 28 {
        reveal_strlit("IO");
        assert(names()[k] =~= seq!['I', 'O']);
    }
    if k == 29 {
        reveal_strlit("PWR");
        assert(names()[k] =~= seq!['P', 'W', 'R']);
    }
    if k == 30 {
        reveal_strlit("SYS");
        assert(names()[k] =~= seq!['S', 'Y', 'S']);
    }
}

/// The full name of a signal is read as that signal.
pub proof fn lemma_full_name(raw: Seq<char>)
    requires
        signal_index(raw) < SIGNAL_COUNT,
    ensures
        ({
            let full = "SIG"@ + names()[signal_index(raw)];
            &&& signal_index(full) == signal_index(raw)
            &&& capital_word(full)
            &&& text::trim(full) == full
        }),
{
    text::lemma_first_where_bounds(names(), equals(normal_name(raw)));
    let k = signal_index(raw);
    let name = names()[k];
    lemma_names_are_words(k);
    reveal_strlit("SIG");
    let full = "SIG"@ + name;
    assert(full[0] == 'S' && full[1] == 'I' && full[2] == 'G');
    assert(capital_word(full)) by {
        assert forall|i: int| 0 <= i < full.len() implies is_capital(#[trigger] full[i]) by {
            if i >= 3 {
                assert(full[i] == name[i - 3]);
            }
        }
    }
    assert(is_capital(full[0]) && is_capital(full.last()));
    text::lemma_trim_fixed(full);
    assert(upper(full) =~= full) by {
        assert forall|i: int| 0 <= i < full.len() implies upper_char(full[i]) == full[i] by {
            assert(is_capital(full[i]));
        }
    }
    assert(full.skip(3) =~= name);
    assert(normal_name(full) == name);
    assert(name == normal_name(raw));
}

} // verus!
