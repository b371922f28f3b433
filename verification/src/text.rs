//! Text primitives: scanning, trimming, escaping, and decimal numbers.
//!
//! Text is worked on as slices of `char`; `String` appears only where callers see it.

use vstd::prelude::*;
use vstd::slice::slice_subrange;

verus! {

/// `String::push` appends one character to the end of the string.
pub assume_specification[ String::push ](s: &mut String, c: char)
    ensures
        final(s)@ == old(s)@.push(c),
;

/// What `std::str::Utf8Error` displays for bytes that are not valid UTF-8.
pub uninterp spec fn utf8_error_text(bytes: Seq<u8>) -> Seq<char>;

/// `std::str::from_utf8`: succeeds exactly on valid UTF-8, with the text that the bytes encode.
/// The wording of the error is the standard library's and is only named here.
#[verifier::external_body]
pub(crate) fn utf8_text(bytes: &[u8]) -> (r: Result<String, String>)
    ensures
        match r {
            Ok(s) => vstd::utf8::valid_utf8(bytes@) && s@ == vstd::utf8::decode_utf8(bytes@),
            Err(e) => !vstd::utf8::valid_utf8(bytes@) && e@ == utf8_error_text(bytes@),
        },
{
    match std::str::from_utf8(bytes) {
        Ok(s) => Ok(s.to_owned()),
        Err(e) => Err(e.to_string()),
    }
}

/// The text that [`String::from_utf8_lossy`] gives for some bytes.
pub uninterp spec fn lossy_utf8(bytes: Seq<u8>) -> Seq<char>;

/// `String::from_utf8_lossy`: bytes as text, with replacement characters for what is no UTF-8.
/// Bytes that are UTF-8 throughout stand for themselves. Which replacements the others get is only
/// named, by `lossy_utf8`.
#[verifier::external_body]
fn lossy_text(bytes: &[u8]) -> (r: String)
    ensures
        r@ == lossy_utf8(bytes@),
        vstd::utf8::valid_utf8(bytes@) ==> r@ == vstd::utf8::decode_utf8(bytes@),
{
    String::from_utf8_lossy(bytes).into_owned()
}

/// Bytes as a text to be read. Those that are no UTF-8 have replacement characters among them.
pub open spec fn readable(bytes: Seq<u8>) -> Seq<char> {
    if vstd::utf8::valid_utf8(bytes) {
        vstd::utf8::decode_utf8(bytes)
    } else {
        lossy_utf8(bytes)
    }
}

/// Bytes as a text to be read.
pub fn readable_text(bytes: &[u8]) -> (r: String)
    ensures
        r@ == readable(bytes@),
{
    lossy_text(bytes)
}

// ---------------------------------------------------------------------------
// Searching
// ---------------------------------------------------------------------------

/// The index of the first element that satisfies `p`, or the length when there is none.
pub open spec fn first_where<T>(s: Seq<T>, p: spec_fn(T) -> bool) -> int
    decreases s.len(),
{
    if s.len() == 0 {
        0
    } else if p(s[0]) {
        0
    } else {
        1 + first_where(s.skip(1), p)
    }
}

/// `first_where` is the only index with nothing before it and a match at it.
pub proof fn lemma_first_where<T>(s: Seq<T>, p: spec_fn(T) -> bool, k: int)
    requires
        0 <= k <= s.len(),
        forall|i: int| 0 <= i < k ==> !p(#[trigger] s[i]),
        k < s.len() ==> p(s[k]),
    ensures
        first_where(s, p) == k,
    decreases s.len(),
{
    if s.len() > 0 && k > 0 {
        assert(!p(s[0]));
        assert forall|i: int| 0 <= i < k - 1 implies !p(#[trigger] s.skip(1)[i]) by {
            assert(s.skip(1)[i] == s[i + 1]);
        }
        lemma_first_where(s.skip(1), p, k - 1);
    }
}

/// What `first_where` returns is in range, has no match before it, and is a match when inside.
pub proof fn lemma_first_where_bounds<T>(s: Seq<T>, p: spec_fn(T) -> bool)
    ensures
        0 <= first_where(s, p) <= s.len(),
        forall|i: int| 0 <= i < first_where(s, p) ==> !p(#[trigger] s[i]),
        first_where(s, p) < s.len() ==> p(s[first_where(s, p)]),
    decreases s.len(),
{
    if s.len() > 0 && !p(s[0]) {
        lemma_first_where_bounds(s.skip(1), p);
        assert forall|i: int| 0 <= i < first_where(s, p) implies !p(#[trigger] s[i]) by {
            if i > 0 {
                assert(s[i] == s.skip(1)[i - 1]);
            }
        }
    }
}

pub open spec fn is_char(c: char) -> spec_fn(char) -> bool {
    |x: char| x == c
}

pub open spec fn is_byte(b: u8) -> spec_fn(u8) -> bool {
    |x: u8| x == b
}

/// Where `c` first occurs in `s`, or the length of `s`.
pub fn find_char(s: &[char], c: char) -> (r: usize)
    ensures
        r == first_where(s@, is_char(c)),
        r <= s@.len(),
{
    let mut i: usize = 0;
    while i < s.len() && s[i] != c
        invariant
            i <= s@.len(),
            forall|j: int| 0 <= j < i ==> s@[j] != c,
        decreases s@.len() - i,
    {
        i = i + 1;
    }
    proof {
        lemma_first_where(s@, is_char(c), i as int);
    }
    i
}

/// Where `b` first occurs in `s`, or the length of `s`.
pub fn find_byte(s: &[u8], b: u8) -> (r: usize)
    ensures
        r == first_where(s@, is_byte(b)),
        r <= s@.len(),
{
    let mut i: usize = 0;
    while i < s.len() && s[i] != b
        invariant
            i <= s@.len(),
            forall|j: int| 0 <= j < i ==> s@[j] != b,
        decreases s@.len() - i,
    {
        i = i + 1;
    }
    proof {
        lemma_first_where(s@, is_byte(b), i as int);
    }
    i
}

/// Whether `c` occurs in `s`.
pub fn has_char(s: &[char], c: char) -> (r: bool)
    ensures
        r == s@.contains(c),
{
    let k: usize = find_char(s, c);
    proof {
        lemma_first_where_bounds(s@, is_char(c));
    }
    if k < s.len() {
        assert(s@[k as int] == c);
        true
    } else {
        assert forall|j: int| 0 <= j < s@.len() implies s@[j] != c by {
            assert(!is_char(c)(s@[j]));
        }
        false
    }
}

// ---------------------------------------------------------------------------
// Conversions and comparisons
// ---------------------------------------------------------------------------

/// The characters of `s`.
pub fn chars_of(s: &str) -> (r: Vec<char>)
    ensures
        r@ == s@,
{
    let mut out: Vec<char> = Vec::new();
    for c in iter: s.chars()
        invariant
            out@ == s@.take(iter.index()),
            iter.seq() == s@,
    {
        proof {
            assert(s@.take(iter.index() + 1) =~= s@.take(iter.index()).push(c));
        }
        out.push(c);
    }
    proof {
        assert(s@.take(s@.len() as int) =~= s@);
    }
    out
}

/// The text made of `chars`.
pub fn text_of(chars: &[char]) -> (r: String)
    ensures
        r@ == chars@,
{
    let mut out = String::new();
    let mut i: usize = 0;
    while i < chars.len()
        invariant
            i <= chars@.len(),
            out@ == chars@.take(i as int),
        decreases chars@.len() - i,
    {
        out.push(chars[i]);
        proof {
            assert(chars@.take(i + 1) =~= chars@.take(i as int).push(chars@[i as int]));
        }
        i = i + 1;
    }
    proof {
        assert(chars@.take(chars@.len() as int) =~= chars@);
    }
    out
}

/// Whether two runs of characters are the same.
pub fn same_chars(a: &[char], b: &[char]) -> (r: bool)
    ensures
        r == (a@ == b@),
{
    if a.len() != b.len() {
        return false;
    }
    let mut i: usize = 0;
    while i < a.len()
        invariant
            i <= a@.len(),
            a@.len() == b@.len(),
            forall|j: int| 0 <= j < i ==> a@[j] == b@[j],
        decreases a@.len() - i,
    {
        if a[i] != b[i] {
            assert(a@[i as int] != b@[i as int]);
            return false;
        }
        i = i + 1;
    }
    assert(a@ =~= b@);
    true
}

/// Whether `a` is exactly the text `b`.
pub fn is_text(a: &[char], b: &str) -> (r: bool)
    ensures
        r == (a@ == b@),
{
    let other = chars_of(b);
    same_chars(a, other.as_slice())
}

/// Whether two texts are the same.
pub fn same_text(a: &str, b: &str) -> (r: bool)
    ensures
        r == (a@ == b@),
{
    let chars = chars_of(a);
    is_text(chars.as_slice(), b)
}

/// Whether two runs of bytes are the same.
pub fn same_bytes(a: &[u8], b: &[u8]) -> (r: bool)
    ensures
        r == (a@ == b@),
{
    if a.len() != b.len() {
        return false;
    }
    let mut i: usize = 0;
    while i < a.len()
        invariant
            i <= a@.len(),
            a@.len() == b@.len(),
            forall|j: int| 0 <= j < i ==> a@[j] == b@[j],
        decreases a@.len() - i,
    {
        if a[i] != b[i] {
            assert(a@[i as int] != b@[i as int]);
            return false;
        }
        i = i + 1;
    }
    assert(a@ =~= b@);
    true
}

/// Whether `a` begins with `b`.
pub fn starts_with(a: &[char], b: &[char]) -> (r: bool)
    ensures
        r == b@.is_prefix_of(a@),
{
    if a.len() < b.len() {
        return false;
    }
    let head = slice_subrange(a, 0, b.len());
    let r = same_chars(head, b);
    assert(b@.is_prefix_of(a@) <==> b@ =~= a@.subrange(0, b@.len() as int));
    r
}

/// A copy of a run of characters.
pub fn copy_chars(s: &[char]) -> (r: Vec<char>)
    ensures
        r@ == s@,
{
    let mut out: Vec<char> = Vec::new();
    let mut i: usize = 0;
    while i < s.len()
        invariant
            i <= s@.len(),
            out@ == s@.take(i as int),
        decreases s@.len() - i,
    {
        out.push(s[i]);
        proof {
            assert(s@.take(i + 1) =~= s@.take(i as int).push(s@[i as int]));
        }
        i = i + 1;
    }
    proof {
        assert(s@.take(s@.len() as int) =~= s@);
    }
    out
}

/// A copy of a run of bytes.
pub fn copy_bytes(s: &[u8]) -> (r: Vec<u8>)
    ensures
        r@ == s@,
{
    let mut out: Vec<u8> = Vec::new();
    push_bytes(&mut out, s);
    proof {
        assert(Seq::<u8>::empty() + s@ =~= s@);
    }
    out
}

/// Appends `extra` to `out`.
pub fn push_bytes(out: &mut Vec<u8>, extra: &[u8])
    ensures
        final(out)@ == old(out)@ + extra@,
{
    let mut i: usize = 0;
    while i < extra.len()
        invariant
            i <= extra@.len(),
            out@ == old(out)@ + extra@.take(i as int),
        decreases extra@.len() - i,
    {
        out.push(extra[i]);
        proof {
            assert(old(out)@ + extra@.take(i + 1) =~= (old(out)@ + extra@.take(i as int)).push(
                extra@[i as int],
            ));
        }
        i = i + 1;
    }
    proof {
        assert(extra@.take(extra@.len() as int) =~= extra@);
    }
}

/// Appends `extra` to `out`.
pub fn push_chars(out: &mut Vec<char>, extra: &[char])
    ensures
        final(out)@ == old(out)@ + extra@,
{
    let mut i: usize = 0;
    while i < extra.len()
        invariant
            i <= extra@.len(),
            out@ == old(out)@ + extra@.take(i as int),
        decreases extra@.len() - i,
    {
        out.push(extra[i]);
        proof {
            assert(old(out)@ + extra@.take(i + 1) =~= (old(out)@ + extra@.take(i as int)).push(
                extra@[i as int],
            ));
        }
        i = i + 1;
    }
    proof {
        assert(extra@.take(extra@.len() as int) =~= extra@);
    }
}

/// The texts held by a list of strings.
pub open spec fn texts(v: Seq<String>) -> Seq<Seq<char>> {
    Seq::new(v.len(), |i: int| v[i]@)
}

// ---------------------------------------------------------------------------
// White space and lines
// ---------------------------------------------------------------------------

/// The characters with the Unicode property `White_Space`.
pub open spec fn is_space(c: char) -> bool {
    ||| '\u{9}' <= c <= '\u{d}'
    ||| c == ' '
    ||| c == '\u{85}'
    ||| c == '\u{a0}'
    ||| c == '\u{1680}'
    ||| '\u{2000}' <= c <= '\u{200a}'
    ||| c == '\u{2028}'
    ||| c == '\u{2029}'
    ||| c == '\u{202f}'
    ||| c == '\u{205f}'
    ||| c == '\u{3000}'
}

pub open spec fn space_pred() -> spec_fn(char) -> bool {
    |c: char| is_space(c)
}

/// Whether `c` is white space.
pub fn space(c: char) -> (r: bool)
    ensures
        r == is_space(c),
{
    ('\u{9}' <= c && c <= '\u{d}') || c == ' ' || c == '\u{85}' || c == '\u{a0}' || c == '\u{1680}'
        || ('\u{2000}' <= c && c <= '\u{200a}') || c == '\u{2028}' || c == '\u{2029}'
        || c == '\u{202f}' || c == '\u{205f}' || c == '\u{3000}'
}

/// `s` without its leading white space.
pub open spec fn trim_start(s: Seq<char>) -> Seq<char>
    decreases s.len(),
{
    if s.len() > 0 && is_space(s[0]) {
        trim_start(s.skip(1))
    } else {
        s
    }
}

/// `s` without its trailing white space.
pub open spec fn trim_end(s: Seq<char>) -> Seq<char>
    decreases s.len(),
{
    if s.len() > 0 && is_space(s.last()) {
        trim_end(s.drop_last())
    } else {
        s
    }
}

/// `s` without white space at either end.
pub open spec fn trim(s: Seq<char>) -> Seq<char> {
    trim_end(trim_start(s))
}

/// A text with no white space at either end is left as it is by `trim`.
pub proof fn lemma_trim_fixed(s: Seq<char>)
    ensures
        trim(s) == s <==> (s.len() == 0 || (!is_space(s[0]) && !is_space(s.last()))),
{
    lemma_trim_end_shape(trim_start(s));
    lemma_trim_start_shape(s);
}

proof fn lemma_trim_end_shape(s: Seq<char>)
    ensures
        trim_end(s).len() <= s.len(),
        trim_end(s) == s.take(trim_end(s).len() as int),
        s.len() > 0 && is_space(s.last()) ==> trim_end(s).len() < s.len(),
        trim_end(s).len() > 0 ==> !is_space(trim_end(s).last()),
    decreases s.len(),
{
    if s.len() > 0 && is_space(s.last()) {
        lemma_trim_end_shape(s.drop_last());
        let n = trim_end(s).len() as int;
        assert(s.drop_last().take(n) =~= s.take(n));
    } else {
        assert(s.take(s.len() as int) =~= s);
    }
}

proof fn lemma_trim_start_shape(s: Seq<char>)
    ensures
        trim_start(s).len() <= s.len(),
        trim_start(s) == s.skip(s.len() - trim_start(s).len()),
        s.len() > 0 && is_space(s[0]) ==> trim_start(s).len() < s.len(),
        trim_start(s).len() > 0 ==> !is_space(trim_start(s)[0]),
    decreases s.len(),
{
    if s.len() > 0 && is_space(s[0]) {
        lemma_trim_start_shape(s.skip(1));
        let n = trim_start(s).len() as int;
        assert(s.skip(1).skip(s.len() - 1 - n) =~= s.skip(s.len() - n));
    } else {
        assert(s.skip(0) =~= s);
    }
}

/// What is left of a text by `trim` has no white space at either end and lies within it.
pub proof fn lemma_trim_shape(s: Seq<char>)
    ensures
        trim(s).len() <= s.len(),
        trim(trim(s)) == trim(s),
        trim(s).len() > 0 ==> !is_space(trim(s)[0]) && !is_space(trim(s).last()),
{
    lemma_trim_start_shape(s);
    lemma_trim_end_shape(trim_start(s));
    let t = trim(s);
    if t.len() > 0 {
        assert(t[0] == trim_start(s)[0]);
    }
    lemma_trim_fixed(t);
}

/// `s` without white space at either end.
pub fn trimmed<'a>(s: &'a [char]) -> (r: &'a [char])
    ensures
        r@ == trim(s@),
{
    let mut start: usize = 0;
    proof {
        assert(s@.skip(0) =~= s@);
    }
    while start < s.len() && space(s[start])
        invariant
            start <= s@.len(),
            trim_start(s@) == trim_start(s@.skip(start as int)),
        decreases s@.len() - start,
    {
        proof {
            assert(s@.skip(start as int).skip(1) =~= s@.skip(start + 1));
        }
        start = start + 1;
    }
    let mut end: usize = s.len();
    proof {
        assert(trim_start(s@) == s@.skip(start as int));
        assert(s@.subrange(start as int, end as int) =~= s@.skip(start as int));
    }
    while start < end && space(s[end - 1])
        invariant
            start <= end <= s@.len(),
            trim_end(s@.skip(start as int)) == trim_end(s@.subrange(start as int, end as int)),
        decreases end,
    {
        proof {
            let t = s@.subrange(start as int, end as int);
            assert(t.last() == s@[end - 1]);
            assert(t.drop_last() =~= s@.subrange(start as int, end - 1));
        }
        end = end - 1;
    }
    proof {
        let t = s@.subrange(start as int, end as int);
        if start < end {
            assert(t.last() == s@[end - 1]);
        }
    }
    slice_subrange(s, start, end)
}

/// A line without the carriage return that may stand before its line feed.
pub open spec fn strip_return(s: Seq<char>) -> Seq<char> {
    if s.len() > 0 && s.last() == '\r' {
        s.drop_last()
    } else {
        s
    }
}

/// The lines of `s`: each ends in a line feed, or a carriage return and a line feed, and the last
/// one may have no end.
pub open spec fn lines(s: Seq<char>) -> Seq<Seq<char>>
    decreases s.len(),
{
    let k = first_where(s, is_char('\n'));
    if s.len() == 0 {
        Seq::empty()
    } else if 0 <= k < s.len() {
        seq![strip_return(s.take(k))] + lines(s.skip(k + 1))
    } else {
        seq![s]
    }
}

/// The runs of characters held by a list of them.
pub open spec fn view_lines(all: Seq<Vec<char>>) -> Seq<Seq<char>> {
    Seq::new(all.len(), |i: int| all[i]@)
}

/// The lines of `s`.
pub fn split_lines(s: &[char]) -> (r: Vec<Vec<char>>)
    ensures
        view_lines(r@) == lines(s@),
{
    let mut out: Vec<Vec<char>> = Vec::new();
    let mut rest: &[char] = s;
    proof {
        assert(view_lines(out@) + lines(rest@) =~= lines(s@));
    }
    while rest.len() > 0
        invariant
            view_lines(out@) + lines(rest@) == lines(s@),
        decreases rest@.len(),
    {
        let k: usize = find_char(rest, '\n');
        let ghost before = out@;
        let ghost whole = rest@;
        if k < rest.len() {
            let mut end: usize = k;
            if end > 0 && rest[end - 1] == '\r' {
                end = end - 1;
            }
            let line = copy_chars(slice_subrange(rest, 0, end));
            proof {
                assert(strip_return(whole.take(k as int)) =~= line@);
            }
            out.push(line);
            rest = slice_subrange(rest, k + 1, rest.len());
            proof {
                assert(rest@ =~= whole.skip(k + 1));
                assert(view_lines(out@) =~= view_lines(before).push(line@));
                assert(view_lines(before) + (seq![line@] + lines(rest@)) =~= view_lines(out@)
                    + lines(rest@));
            }
        } else {
            let line = copy_chars(rest);
            out.push(line);
            rest = slice_subrange(rest, k, rest.len());
            proof {
                assert(view_lines(out@) =~= view_lines(before).push(whole));
                assert(lines(rest@) =~= Seq::empty());
                assert(view_lines(before) + seq![whole] =~= view_lines(out@) + lines(rest@));
            }
        }
    }
    proof {
        assert(lines(rest@) =~= Seq::empty());
        assert(view_lines(out@) + Seq::<Seq<char>>::empty() =~= view_lines(out@));
    }
    out
}

// ---------------------------------------------------------------------------
// Numbers
// ---------------------------------------------------------------------------

/// The character of a digit below sixteen.
pub open spec fn digit_char(d: nat) -> char {
    if d == 0 { '0' }
    else if d == 1 { '1' }
    else if d == 2 { '2' }
    else if d == 3 { '3' }
    else if d == 4 { '4' }
    else if d == 5 { '5' }
    else if d == 6 { '6' }
    else if d == 7 { '7' }
    else if d == 8 { '8' }
    else if d == 9 { '9' }
    else if d == 10 { 'a' }
    else if d == 11 { 'b' }
    else if d == 12 { 'c' }
    else if d == 13 { 'd' }
    else if d == 14 { 'e' }
    else { 'f' }
}

/// The digits of `n` in `base`, without leading zeros.
pub open spec fn digits(n: nat, base: nat) -> Seq<char>
    decreases n,
{
    if n < base || base < 2 {
        seq![digit_char(n)]
    } else {
        proof {
            assert(n / base < n) by (nonlinear_arith)
                requires
                    n >= base,
                    base >= 2,
            ;
        }
        digits(n / base, base).push(digit_char(n % base))
    }
}

/// `n` written in base ten.
pub open spec fn decimal(n: nat) -> Seq<char> {
    digits(n, 10)
}

/// The character of a digit below sixteen.
pub fn digit(d: u64) -> (r: char)
    requires
        d < 16,
    ensures
        r == digit_char(d as nat),
{
    if d == 0 { '0' }
    else if d == 1 { '1' }
    else if d == 2 { '2' }
    else if d == 3 { '3' }
    else if d == 4 { '4' }
    else if d == 5 { '5' }
    else if d == 6 { '6' }
    else if d == 7 { '7' }
    else if d == 8 { '8' }
    else if d == 9 { '9' }
    else if d == 10 { 'a' }
    else if d == 11 { 'b' }
    else if d == 12 { 'c' }
    else if d == 13 { 'd' }
    else if d == 14 { 'e' }
    else { 'f' }
}

/// The digits of `n` in `base`.
pub fn digits_of(n: u64, base: u64) -> (r: Vec<char>)
    requires
        2 <= base <= 16,
    ensures
        r@ == digits(n as nat, base as nat),
    decreases n,
{
    if n < base {
        let mut out: Vec<char> = Vec::new();
        out.push(digit(n));
        proof {
            assert(out@ =~= seq![digit_char(n as nat)]);
        }
        out
    } else {
        proof {
            assert(n / base < n) by (nonlinear_arith)
                requires
                    n >= base,
                    base >= 2,
            ;
            assert(n % base < base) by (nonlinear_arith)
                requires
                    base >= 2,
            ;
        }
        let mut out = digits_of(n / base, base);
        out.push(digit(n % base));
        out
    }
}

/// `n` written in base ten.
pub fn decimal_text(n: u64) -> (r: String)
    ensures
        r@ == decimal(n as nat),
{
    let chars = digits_of(n, 10);
    text_of(chars.as_slice())
}

/// Why a text is not an unsigned number.
#[derive(Clone, Copy, Debug, PartialEq, Eq, Structural)]
pub enum NumberError {
    /// There is nothing to read.
    Empty,
    /// A character is not a decimal digit.
    InvalidDigit,
    /// The number is above the largest one allowed.
    TooLarge,
}

/// The sentence that describes a number error.
pub open spec fn number_error_text(e: NumberError) -> Seq<char> {
    match e {
        NumberError::Empty => "cannot parse integer from empty string"@,
        NumberError::InvalidDigit => "invalid digit found in string"@,
        NumberError::TooLarge => "number too large to fit in target type"@,
    }
}

impl NumberError {
    /// The sentence that describes this error.
    pub fn describe(self) -> (r: &'static str)
        ensures
            r@ == number_error_text(self),
    {
        match self {
            NumberError::Empty => "cannot parse integer from empty string",
            NumberError::InvalidDigit => "invalid digit found in string",
            NumberError::TooLarge => "number too large to fit in target type",
        }
    }
}

pub open spec fn is_digit(c: char) -> bool {
    '0' <= c <= '9'
}

pub open spec fn digit_value(c: char) -> nat {
    (c as u32 - '0' as u32) as nat
}

/// Reads the digits of `s` onto `acc`. The first character that is no digit, or that takes the
/// number above `max`, decides the error.
pub open spec fn scan_digits(s: Seq<char>, acc: nat, max: nat) -> Result<nat, NumberError>
    decreases s.len(),
{
    if s.len() == 0 {
        Ok(acc)
    } else if !is_digit(s[0]) {
        Err(NumberError::InvalidDigit)
    } else if acc * 10 + digit_value(s[0]) > max {
        Err(NumberError::TooLarge)
    } else {
        scan_digits(s.skip(1), acc * 10 + digit_value(s[0]), max)
    }
}

/// The unsigned number that `s` writes in base ten, with an optional leading plus sign.
pub open spec fn unsigned_of(s: Seq<char>, max: nat) -> Result<nat, NumberError> {
    if s.len() == 0 {
        Err(NumberError::Empty)
    } else if s[0] == '+' && s.len() > 1 {
        scan_digits(s.skip(1), 0, max)
    } else {
        scan_digits(s, 0, max)
    }
}

/// Reads an unsigned number no larger than `max`.
pub fn parse_unsigned(s: &[char], max: u64) -> (r: Result<u64, NumberError>)
    ensures
        match r {
            Ok(n) => unsigned_of(s@, max as nat) == Ok::<nat, NumberError>(n as nat) && n <= max,
            Err(e) => unsigned_of(s@, max as nat) == Err::<nat, NumberError>(e),
        },
{
    if s.len() == 0 {
        return Err(NumberError::Empty);
    }
    let mut i: usize = 0;
    if s[0] == '+' && s.len() > 1 {
        i = 1;
    }
    let mut acc: u64 = 0;
    proof {
        assert(s@.skip(0) =~= s@);
    }
    while i < s.len()
        invariant
            i <= s@.len(),
            acc <= max,
            unsigned_of(s@, max as nat) == scan_digits(s@.skip(i as int), acc as nat, max as nat),
        decreases s@.len() - i,
    {
        let c = s[i];
        proof {
            assert(s@.skip(i as int)[0] == c);
            assert(s@.skip(i as int).skip(1) =~= s@.skip(i + 1));
        }
        if !('0' <= c && c <= '9') {
            return Err(NumberError::InvalidDigit);
        }
        let d: u64 = (c as u32 - '0' as u32) as u64;
        assert(d == digit_value(c));
        if acc as u128 * 10 + d as u128 > max as u128 {
            return Err(NumberError::TooLarge);
        }
        acc = acc * 10 + d;
        i = i + 1;
    }
    Ok(acc)
}

/// The digits of a number are read back as that number.
pub proof fn lemma_decimal_read_back(n: nat, max: nat)
    requires
        n <= max,
    ensures
        unsigned_of(decimal(n), max) == Ok::<nat, NumberError>(n),
{
    lemma_decimal_shape(n);
    lemma_scan_decimal(n, max);
}

/// The digits of a number are not empty and hold nothing but decimal digits.
pub proof fn lemma_decimal_shape(n: nat)
    ensures
        decimal(n).len() > 0,
        forall|i: int| 0 <= i < decimal(n).len() ==> is_digit(#[trigger] decimal(n)[i]),
    decreases n,
{
    if n >= 10 {
        lemma_decimal_shape(n / 10);
    }
}

proof fn lemma_scan_decimal(n: nat, max: nat)
    requires
        n <= max,
    ensures
        scan_digits(decimal(n), 0, max) == Ok::<nat, NumberError>(n),
    decreases n,
{
    reveal_with_fuel(scan_digits, 2);
    if n >= 10 {
        lemma_scan_decimal(n / 10, max);
        lemma_scan_push(decimal(n / 10), digit_char(n % 10), 0, max);
        assert(digit_value(digit_char(n % 10)) == n % 10);
    } else {
        assert(digit_value(digit_char(n)) == n);
        let s = decimal(n);
        assert(s.skip(1) =~= Seq::empty());
    }
}

proof fn lemma_scan_push(s: Seq<char>, c: char, acc: nat, max: nat)
    requires
        is_digit(c),
        scan_digits(s, acc, max) is Ok,
        scan_digits(s, acc, max)->Ok_0 * 10 + digit_value(c) <= max,
    ensures
        scan_digits(s.push(c), acc, max) == Ok::<nat, NumberError>(
            scan_digits(s, acc, max)->Ok_0 * 10 + digit_value(c),
        ),
    decreases s.len(),
{
    reveal_with_fuel(scan_digits, 2);
    if s.len() == 0 {
        assert(s.push(c).skip(1) =~= Seq::empty());
    } else {
        assert(s.push(c).skip(1) =~= s.skip(1).push(c));
        assert(s.push(c)[0] == s[0]);
        lemma_scan_push(s.skip(1), c, acc * 10 + digit_value(s[0]), max);
    }
}

// ---------------------------------------------------------------------------
// Escaping
// ---------------------------------------------------------------------------

/// Whether `c` is a printable ASCII character.
pub open spec fn is_plain(c: char) -> bool {
    ' ' <= c <= '~'
}

/// How one character is shown in a diagnostic.
pub open spec fn escape_char(c: char) -> Seq<char> {
    if c == '\t' {
        seq!['\\', 't']
    } else if c == '\r' {
        seq!['\\', 'r']
    } else if c == '\n' {
        seq!['\\', 'n']
    } else if c == '\'' || c == '"' || c == '\\' {
        seq!['\\', c]
    } else if is_plain(c) {
        seq![c]
    } else {
        seq!['\\', 'u', '{'] + digits(c as u32 as nat, 16) + seq!['}']
    }
}

/// How a text is shown in a diagnostic.
pub open spec fn escape(s: Seq<char>) -> Seq<char>
    decreases s.len(),
{
    if s.len() == 0 {
        Seq::empty()
    } else {
        escape(s.drop_last()) + escape_char(s.last())
    }
}

/// Shows a text in printable ASCII: quotes and backslashes are escaped, and every other character
/// outside the printable range is written as an escape sequence.
pub fn escape_str(s: &str) -> (r: String)
    ensures
        r@ == escape(s@),
{
    let chars = chars_of(s);
    let mut out: Vec<char> = Vec::new();
    let mut i: usize = 0;
    while i < chars.len()
        invariant
            i <= chars@.len(),
            out@ == escape(chars@.take(i as int)),
        decreases chars@.len() - i,
    {
        let c = chars[i];
        proof {
            assert(chars@.take(i + 1).drop_last() =~= chars@.take(i as int));
            assert(chars@.take(i + 1).last() == c);
        }
        let ghost before = out@;
        if c == '\t' {
            out.push('\\');
            out.push('t');
        } else if c == '\r' {
            out.push('\\');
            out.push('r');
        } else if c == '\n' {
            out.push('\\');
            out.push('n');
        } else if c == '\'' || c == '"' || c == '\\' {
            out.push('\\');
            out.push(c);
        } else if ' ' <= c && c <= '~' {
            out.push(c);
        } else {
            out.push('\\');
            out.push('u');
            out.push('{');
            let hex = digits_of(c as u32 as u64, 16);
            push_chars(&mut out, hex.as_slice());
            out.push('}');
        }
        assert(out@ =~= before + escape_char(c));
        i = i + 1;
    }
    proof {
        assert(chars@.take(chars@.len() as int) =~= chars@);
    }
    text_of(out.as_slice())
}

/// How one byte is shown in a diagnostic.
pub open spec fn escape_byte(b: u8) -> Seq<u8> {
    if b == 9 {
        seq![92u8, 116u8]
    } else if b == 13 {
        seq![92u8, 114u8]
    } else if b == 10 {
        seq![92u8, 110u8]
    } else if b == 39 || b == 34 || b == 92 {
        seq![92u8, b]
    } else if 32 <= b <= 126 {
        seq![b]
    } else {
        seq![92u8, 120u8, hex_byte(b / 16), hex_byte(b % 16)]
    }
}

/// The ASCII code of a hexadecimal digit.
pub open spec fn hex_byte(d: u8) -> u8 {
    if d < 10 {
        (48 + d) as u8
    } else {
        (87 + d) as u8
    }
}

/// How a run of bytes is shown in a diagnostic.
pub open spec fn escape_raw(s: Seq<u8>) -> Seq<u8>
    decreases s.len(),
{
    if s.len() == 0 {
        Seq::empty()
    } else {
        escape_raw(s.drop_last()) + escape_byte(s.last())
    }
}

/// Shows a run of bytes in printable ASCII, appended to `out`.
pub fn push_escaped(out: &mut Vec<u8>, s: &[u8])
    ensures
        final(out)@ == old(out)@ + escape_raw(s@),
{
    let mut i: usize = 0;
    proof {
        assert(old(out)@ + escape_raw(s@.take(0)) =~= old(out)@);
    }
    while i < s.len()
        invariant
            i <= s@.len(),
            out@ == old(out)@ + escape_raw(s@.take(i as int)),
        decreases s@.len() - i,
    {
        let b: u8 = s[i];
        proof {
            assert(s@.take(i + 1).drop_last() =~= s@.take(i as int));
            assert(s@.take(i + 1).last() == b);
        }
        let ghost before = out@;
        if b == 9 {
            out.push(92);
            out.push(116);
        } else if b == 13 {
            out.push(92);
            out.push(114);
        } else if b == 10 {
            out.push(92);
            out.push(110);
        } else if b == 39 || b == 34 || b == 92 {
            out.push(92);
            out.push(b);
        } else if 32 <= b && b <= 126 {
            out.push(b);
        } else {
            out.push(92);
            out.push(120);
            out.push(hex_code(b / 16));
            out.push(hex_code(b % 16));
        }
        assert(out@ =~= before + escape_byte(b));
        assert(old(out)@ + escape_raw(s@.take(i + 1)) =~= before + escape_byte(b));
        i = i + 1;
    }
    proof {
        assert(s@.take(s@.len() as int) =~= s@);
    }
}

/// The ASCII code of a hexadecimal digit.
fn hex_code(d: u8) -> (r: u8)
    requires
        d < 16,
    ensures
        r == hex_byte(d),
{
    if d < 10 {
        48 + d
    } else {
        87 + d
    }
}

/// The text whose characters have the codes `s`.
pub open spec fn ascii_text(s: Seq<u8>) -> Seq<char> {
    Seq::new(s.len(), |i: int| s[i] as char)
}

/// Shows a run of bytes in printable ASCII.
pub fn escape_bytes(s: &[u8]) -> (r: String)
    ensures
        r@ == ascii_text(escape_raw(s@)),
{
    let mut bytes: Vec<u8> = Vec::new();
    push_escaped(&mut bytes, s);
    proof {
        assert(bytes@ =~= escape_raw(s@));
    }
    let mut out = String::new();
    let mut i: usize = 0;
    while i < bytes.len()
        invariant
            i <= bytes@.len(),
            out@ == ascii_text(bytes@.take(i as int)),
        decreases bytes@.len() - i,
    {
        out.push(bytes[i] as char);
        proof {
            assert(ascii_text(bytes@.take(i + 1)) =~= ascii_text(bytes@.take(i as int)).push(
                bytes@[i as int] as char,
            ));
        }
        i = i + 1;
    }
    proof {
        assert(bytes@.take(bytes@.len() as int) =~= bytes@);
    }
    out
}

/// An escaped text holds printable ASCII only, whatever the text was.
pub proof fn law_escape_is_printable(s: Seq<char>)
    ensures
        forall|i: int| 0 <= i < escape(s).len() ==> is_plain(#[trigger] escape(s)[i]),
    decreases s.len(),
{
    if s.len() > 0 {
        law_escape_is_printable(s.drop_last());
        let c = s.last();
        lemma_digits_plain(c as u32 as nat, 16);
        let head = escape(s.drop_last());
        let hex = digits(c as u32 as nat, 16);
        assert forall|i: int| 0 <= i < escape(s).len() implies is_plain(
            #[trigger] escape(s)[i],
        ) by {
            if i < head.len() {
                assert(escape(s)[i] == head[i]);
            } else {
                let j = i - head.len();
                assert(escape(s)[i] == escape_char(c)[j]);
                if escape_char(c).len() > 4 || !is_plain(c) {
                    if 3 <= j < 3 + hex.len() {
                        assert(escape_char(c)[j] == hex[j - 3]);
                    }
                }
            }
        }
    }
}

proof fn lemma_digits_plain(n: nat, base: nat)
    ensures
        forall|i: int| 0 <= i < digits(n, base).len() ==> is_plain(#[trigger] digits(n, base)[i]),
    decreases n,
{
    if n >= base && base >= 2 {
        assert(n / base < n) by (nonlinear_arith)
            requires
                n >= base,
                base >= 2,
        ;
        lemma_digits_plain(n / base, base);
        let head = digits(n / base, base);
        assert forall|i: int| 0 <= i < digits(n, base).len() implies is_plain(
            #[trigger] digits(n, base)[i],
        ) by {
            if i < head.len() {
                assert(digits(n, base)[i] == head[i]);
            }
        }
    }
}

/// An escaped run of bytes holds printable ASCII only, whatever the bytes were.
pub proof fn law_escape_bytes_is_printable(s: Seq<u8>)
    ensures
        forall|i: int| 0 <= i < escape_raw(s).len() ==> 32 <= #[trigger] escape_raw(s)[i] <= 126,
    decreases s.len(),
{
    if s.len() > 0 {
        law_escape_bytes_is_printable(s.drop_last());
        let head = escape_raw(s.drop_last());
        assert forall|i: int| 0 <= i < escape_raw(s).len() implies 32 <= #[trigger] escape_raw(
            s,
        )[i] <= 126 by {
            if i < head.len() {
                assert(escape_raw(s)[i] == head[i]);
            } else {
                assert(escape_raw(s)[i] == escape_byte(s.last())[i - head.len()]);
            }
        }
    }
}

} // verus!
