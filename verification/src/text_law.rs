//! How numbers, lines and blanks are read, and how texts are shown.

use vstd::prelude::*;

use crate::text::{self, NumberError};

verus! {

// ---------------------------------------------------------------------------
// Numbers
// ---------------------------------------------------------------------------

/// The value of a digit, in base sixteen too.
pub open spec fn worth(c: char) -> int {
    match c {
        '0' => 0,
        '1' => 1,
        '2' => 2,
        '3' => 3,
        '4' => 4,
        '5' => 5,
        '6' => 6,
        '7' => 7,
        '8' => 8,
        '9' => 9,
        'a' => 10,
        'b' => 11,
        'c' => 12,
        'd' => 13,
        'e' => 14,
        'f' => 15,
        _ => -1,
    }
}

/// What a text of digits is worth.
pub open spec fn sum(s: Seq<char>, base: int) -> int
    decreases s.len(),
{
    if s.len() == 0 {
        0
    } else {
        sum(s.drop_last(), base) * base + worth(s.last())
    }
}

/// Whether a text is made of decimal digits.
pub open spec fn is_decimal(s: Seq<char>) -> bool {
    forall|i: int| 0 <= i < s.len() ==> 0 <= worth(#[trigger] s[i]) <= 9
}

proof fn lemma_worth(c: char)
    ensures
        text::is_digit(c) <==> 0 <= worth(c) <= 9,
        text::is_digit(c) ==> text::digit_value(c) == worth(c),
{
}

proof fn lemma_sum_positive(s: Seq<char>)
    requires
        is_decimal(s),
    ensures
        sum(s, 10) >= 0,
    decreases s.len(),
{
    if s.len() > 0 {
        assert(s.last() == s[s.len() - 1]);
        lemma_sum_positive(s.drop_last());
    }
}

proof fn lemma_scan_push(s: Seq<char>, c: char, acc: nat, max: nat)
    requires
        is_decimal(s),
        0 <= worth(c) <= 9,
    ensures
        text::scan_digits(s.push(c), acc, max) == match text::scan_digits(s, acc, max) {
            Ok(n) => if n * 10 + worth(c) > max {
                Err(NumberError::TooLarge)
            } else {
                Ok((n * 10 + worth(c)) as nat)
            },
            Err(e) => Err(e),
        },
    decreases s.len(),
{
    reveal_with_fuel(text::scan_digits, 2);
    lemma_worth(c);
    if s.len() == 0 {
        assert(s.push(c)[0] == c);
        assert(s.push(c).skip(1).len() == 0);
    } else {
        lemma_worth(s[0]);
        assert(s.push(c)[0] == s[0]);
        assert(s.push(c).skip(1) =~= s.skip(1).push(c));
        assert(0 <= worth(s[0]) <= 9);
        if acc * 10 + text::digit_value(s[0]) <= max {
            lemma_scan_push(s.skip(1), c, acc * 10 + text::digit_value(s[0]), max);
        }
    }
}

proof fn lemma_scan(s: Seq<char>, max: nat)
    requires
        is_decimal(s),
    ensures
        text::scan_digits(s, 0, max) == if sum(s, 10) <= max {
            Ok(sum(s, 10) as nat)
        } else {
            Err(NumberError::TooLarge)
        },
    decreases s.len(),
{
    lemma_sum_positive(s);
    if s.len() > 0 {
        let front = s.drop_last();
        assert(s =~= front.push(s.last()));
        assert(s.last() == s[s.len() - 1]);
        lemma_sum_positive(front);
        lemma_scan(front, max);
        lemma_scan_push(front, s.last(), 0, max);
    }
}

/// Decimal digits are read as the number that they write, with or without a plus sign and whatever zeros
/// stand in front. A number above the largest one that is allowed is refused.
pub proof fn law_digits_are_a_number(s: Seq<char>, max: nat)
    requires
        s.len() > 0,
        is_decimal(s),
    ensures
        text::unsigned_of(s, max) == if sum(s, 10) <= max {
            Ok(sum(s, 10) as nat)
        } else {
            Err(NumberError::TooLarge)
        },
        text::unsigned_of(seq!['+'] + s, max) == text::unsigned_of(s, max),
{
    lemma_scan(s, max);
    lemma_worth(s[0]);
    assert(0 <= worth(s[0]) <= 9);
    assert(s[0] != '+');
    assert((seq!['+'] + s)[0] == '+');
    assert((seq!['+'] + s).skip(1) =~= s);
}

proof fn lemma_scan_refuses(s: Seq<char>, acc: nat, max: nat, k: int)
    requires
        0 <= k < s.len(),
        !(0 <= worth(s[k]) <= 9),
    ensures
        text::scan_digits(s, acc, max) is Err,
    decreases s.len(),
{
    lemma_worth(s[0]);
    if k > 0 && text::is_digit(s[0]) && acc * 10 + text::digit_value(s[0]) <= max {
        assert(s.skip(1)[k - 1] == s[k]);
        lemma_scan_refuses(s.skip(1), acc * 10 + text::digit_value(s[0]), max, k - 1);
    }
}

/// Anything else is no number: nothing at all, a sign alone, and whatever holds another character.
pub proof fn law_what_is_no_number(s: Seq<char>, max: nat, k: int)
    requires
        0 <= k < s.len(),
        !(0 <= worth(s[k]) <= 9),
        s[k] == '+' ==> k > 0 || s.len() == 1,
    ensures
        text::unsigned_of(s, max) is Err,
        text::unsigned_of(Seq::empty(), max) == Err::<nat, NumberError>(NumberError::Empty),
{
    if s[0] == '+' && s.len() > 1 {
        assert(s.skip(1)[k - 1] == s[k]);
        lemma_scan_refuses(s.skip(1), 0, max, k - 1);
    } else {
        lemma_scan_refuses(s, 0, max, k);
    }
}

/// A number is written with the digits that are worth it, in base ten and in base sixteen.
pub proof fn law_numbers_are_written_out(n: nat, base: nat)
    requires
        base == 10 || base == 16,
    ensures
        sum(text::digits(n, base), base as int) == n,
        text::digits(n, base).len() > 0,
        n > 0 ==> text::digits(n, base)[0] != '0',
    decreases n,
{
    let d = text::digits(n, base);
    if n < base {
        assert(d.drop_last().len() == 0);
        assert(sum(d.drop_last(), base as int) == 0);
        assert(worth(text::digit_char(n)) == n);
    } else {
        let front = text::digits(n / base, base);
        assert(0 < n / base < n) by (nonlinear_arith)
            requires
                n >= base,
                base == 10 || base == 16,
        ;
        law_numbers_are_written_out(n / base, base);
        assert(d == front.push(text::digit_char(n % base)));
        assert(d.drop_last() =~= front);
        assert(worth(text::digit_char(n % base)) == n % base);
        assert(n / base * base + n % base == n) by (nonlinear_arith)
            requires
                base == 10 || base == 16,
        ;
    }
}

// ---------------------------------------------------------------------------
// Blanks and lines
// ---------------------------------------------------------------------------

/// The characters of white space, by number.
pub open spec fn is_white(c: char) -> bool {
    let n = c as u32;
    9 <= n <= 13 || n == 32 || n == 133 || n == 160 || n == 5760 || 8192 <= n <= 8202 || n == 8232 || n
        == 8233 || n == 8239 || n == 8287 || n == 12288
}

proof fn lemma_white(c: char)
    ensures
        text::is_space(c) <==> is_white(c),
{
}

proof fn lemma_trim_front(a: Seq<char>, s: Seq<char>)
    requires
        forall|i: int| 0 <= i < a.len() ==> is_white(#[trigger] a[i]),
        s.len() > 0 ==> !is_white(s[0]),
    ensures
        text::trim_start(a + s) == s,
    decreases a.len(),
{
    let t = a + s;
    if a.len() == 0 {
        assert(t =~= s);
        if s.len() > 0 {
            lemma_white(s[0]);
        }
    } else {
        assert(t[0] == a[0]);
        lemma_white(a[0]);
        assert(t.skip(1) =~= a.skip(1) + s);
        lemma_trim_front(a.skip(1), s);
    }
}

proof fn lemma_trim_back(s: Seq<char>, b: Seq<char>)
    requires
        forall|i: int| 0 <= i < b.len() ==> is_white(#[trigger] b[i]),
        s.len() > 0 ==> !is_white(s.last()),
    ensures
        text::trim_end(s + b) == s,
    decreases b.len(),
{
    let t = s + b;
    if b.len() == 0 {
        assert(t =~= s);
        if s.len() > 0 {
            lemma_white(s.last());
        }
    } else {
        assert(t.last() == b[b.len() - 1]);
        lemma_white(t.last());
        assert(t.drop_last() =~= s + b.drop_last());
        lemma_trim_back(s, b.drop_last());
    }
}

/// White space around a text is taken away, all of it, and nothing else.
pub proof fn law_white_space_is_trimmed(a: Seq<char>, s: Seq<char>, b: Seq<char>)
    requires
        forall|i: int| 0 <= i < a.len() ==> is_white(#[trigger] a[i]),
        forall|i: int| 0 <= i < b.len() ==> is_white(#[trigger] b[i]),
        s.len() > 0,
        !is_white(s[0]) && !is_white(s.last()),
    ensures
        text::trim(a + s + b) == s,
        text::trim(a) == Seq::<char>::empty(),
{
    assert(a + s + b =~= a + (s + b));
    assert((s + b)[0] == s[0]);
    lemma_trim_front(a, s + b);
    lemma_trim_back(s, b);
    lemma_trim_front(a, Seq::empty());
    assert(a + Seq::<char>::empty() =~= a);
}

/// Lines end with a line feed, or with a carriage return and a line feed. The last one needs no end, and
/// what follows the last end is no line where it is empty.
pub proof fn law_line_feeds_end_lines(line: Seq<char>, rest: Seq<char>)
    requires
        !line.contains('\n'),
    ensures
        text::lines(Seq::empty()) == Seq::<Seq<char>>::empty(),
        line.len() > 0 ==> text::lines(line) == seq![line],
        line.len() == 0 || line.last() != '\r' ==> text::lines(line + seq!['\n'] + rest) == seq![line]
            + text::lines(rest),
        text::lines(line + seq!['\r', '\n'] + rest) == seq![line] + text::lines(rest),
{
    let p = text::is_char('\n');
    assert forall|i: int| 0 <= i < line.len() implies !p(#[trigger] line[i]) by {
        assert(line.contains(line[i]));
    }
    text::lemma_first_where(line, p, line.len() as int);
    let s = line + seq!['\n'] + rest;
    assert forall|i: int| 0 <= i < line.len() implies !p(#[trigger] s[i]) by {
        assert(s[i] == line[i]);
    }
    assert(s[line.len() as int] == '\n');
    text::lemma_first_where(s, p, line.len() as int);
    assert(s.take(line.len() as int) =~= line);
    assert(s.skip(line.len() as int + 1) =~= rest);
    let k = line.len() as int + 1;
    let t = line + seq!['\r', '\n'] + rest;
    assert forall|i: int| 0 <= i < k implies !p(#[trigger] t[i]) by {
        if i < line.len() {
            assert(t[i] == line[i]);
        } else {
            assert(t[i] == '\r');
        }
    }
    assert(t[k] == '\n');
    text::lemma_first_where(t, p, k);
    assert(t.take(k) =~= line.push('\r'));
    assert(t.take(k).drop_last() =~= line);
    assert(t.skip(k + 1) =~= rest);
}

// ---------------------------------------------------------------------------
// Showing
// ---------------------------------------------------------------------------

/// A text is shown character by character.
pub proof fn law_texts_are_shown_in_order(a: Seq<char>, b: Seq<char>)
    ensures
        text::escape(a + b) == text::escape(a) + text::escape(b),
        text::escape(Seq::empty()) == Seq::<char>::empty(),
    decreases b.len(),
{
    if b.len() == 0 {
        assert(a + b =~= a);
        assert(text::escape(a) + Seq::<char>::empty() =~= text::escape(a));
    } else {
        assert((a + b).drop_last() =~= a + b.drop_last());
        assert((a + b).last() == b.last());
        law_texts_are_shown_in_order(a, b.drop_last());
        assert(text::escape(a) + text::escape(b.drop_last()) + text::escape_char(b.last())
            =~= text::escape(a) + (text::escape(b.drop_last()) + text::escape_char(b.last())));
    }
}

/// How a character is shown: those from 32 to 126 as they are, but for quotes and the backslash, which
/// get a backslash in front, and so do a tab, a line feed and a carriage return, as letters. All others
/// are shown by their number in base sixteen.
pub proof fn law_characters_are_shown(c: char)
    ensures
        ({
            let n = c as u32;
            let shown = text::escape(seq![c]);
            &&& 32 <= n <= 126 && n != 34 && n != 39 && n != 92 ==> shown == seq![c]
            &&& n == 34 || n == 39 || n == 92 ==> shown == seq!['\\', c]
            &&& n == 9 ==> shown == seq!['\\', 't']
            &&& n == 10 ==> shown == seq!['\\', 'n']
            &&& n == 13 ==> shown == seq!['\\', 'r']
            &&& (n < 32 || n > 126) && n != 9 && n != 10 && n != 13 ==> {
                let k = shown.len() as int;
                &&& k > 4
                &&& shown.take(3) == seq!['\\', 'u', '{']
                &&& shown.last() == '}'
                &&& sum(shown.subrange(3, k - 1), 16) == n
            }
        }),
{
    let n = c as u32;
    let s = seq![c];
    assert(s.drop_last().len() == 0);
    assert(text::escape(s.drop_last()) =~= Seq::<char>::empty());
    assert(text::escape(s) =~= text::escape_char(c));
    law_numbers_are_written_out(n as nat, 16);
    let d = text::digits(n as nat, 16);
    if (n < 32 || n > 126) && n != 9 && n != 10 && n != 13 {
        let shown = seq!['\\', 'u', '{'] + d + seq!['}'];
        assert(text::escape_char(c) == shown);
        assert(shown.subrange(3, shown.len() - 1) =~= d);
        assert(shown.take(3) =~= seq!['\\', 'u', '{']);
    }
}

/// The value of a digit of base sixteen, as a byte.
pub open spec fn byte_worth(b: u8) -> int {
    if 48 <= b <= 57 {
        b - 48
    } else if 97 <= b <= 102 {
        b - 87
    } else {
        -1
    }
}

/// Bytes are shown one by one, those from 32 to 126 as they are, but for quotes and the backslash, and all
/// others but for the tab, the line feed and the carriage return by two digits of base sixteen.
pub proof fn law_bytes_are_shown(a: Seq<u8>, b: u8)
    ensures
        ({
            let shown = text::escape_raw(a.push(b));
            let before = text::escape_raw(a);
            &&& 32 <= b <= 126 && b != 34 && b != 39 && b != 92 ==> shown == before + seq![b]
            &&& b == 34 || b == 39 || b == 92 ==> shown == before + seq![92u8, b]
            &&& b == 9 ==> shown == before + seq![92u8, 116]
            &&& b == 10 ==> shown == before + seq![92u8, 110]
            &&& b == 13 ==> shown == before + seq![92u8, 114]
            &&& (b < 32 || b > 126) && b != 9 && b != 10 && b != 13 ==> {
                let k = before.len() as int;
                &&& shown.len() == k + 4
                &&& shown.take(k + 2) == before + seq![92u8, 120]
                &&& 0 <= byte_worth(shown[k + 2]) <= 15 && 0 <= byte_worth(shown[k + 3])
                &&& byte_worth(shown[k + 2]) * 16 + byte_worth(shown[k + 3]) == b
            }
        }),
        text::escape_raw(Seq::empty()) == Seq::<u8>::empty(),
{
    assert(a.push(b).drop_last() =~= a);
    assert(a.push(b).last() == b);
    let shown = text::escape_raw(a.push(b));
    let k = text::escape_raw(a).len() as int;
    if (b < 32 || b > 126) && b != 9 && b != 10 && b != 13 {
        assert(shown.take(k + 2) =~= text::escape_raw(a) + seq![92u8, 120]);
    }
}

} // verus!
