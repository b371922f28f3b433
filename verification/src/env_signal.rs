//! The signals that the options of `env` name.

use vstd::prelude::*;
use vstd::slice::slice_subrange;

use crate::signals::{self, upper_chars};
use crate::text::{self, chars_of, find_char, is_text, parse_unsigned, starts_with};

verus! {

/// The first and the last real-time signal that the C library leaves to programs.
#[derive(Clone, Copy, Debug, PartialEq, Eq, Structural)]
pub struct RealtimeRange {
    pub min: i32,
    pub max: i32,
}

/// `libc::SIGRTMIN`: the number is the C library's choice, so nothing is said of it.
#[verifier::external_body]
fn libc_sigrtmin() -> i32 {
    libc::SIGRTMIN()
}

/// `libc::SIGRTMAX`: the number is the C library's choice, so nothing is said of it.
#[verifier::external_body]
fn libc_sigrtmax() -> i32 {
    libc::SIGRTMAX()
}

/// The real-time signals of the C library that this program is linked with.
pub fn realtime_range() -> RealtimeRange {
    RealtimeRange { min: libc_sigrtmin(), max: libc_sigrtmax() }
}

/// The number that a run of decimal digits writes, if it fits.
pub open spec fn plain_number(s: Seq<char>) -> Option<int> {
    if s.len() == 0 || s[0] == '+' {
        None
    } else {
        match text::unsigned_of(s, 2147483647) {
            Ok(n) => Some(n as int),
            Err(_) => None,
        }
    }
}

/// The number of a signal by its upper-case name, aliases among them.
pub open spec fn named(name: Seq<char>) -> Option<int> {
    let k = text::first_where(signals::names(), signals::equals(name));
    if name == "IOT"@ {
        Some(6)
    } else if name == "CLD"@ {
        Some(17)
    } else if name == "POLL"@ {
        Some(29)
    } else if 0 <= k < signals::SIGNAL_COUNT {
        Some(k + 1)
    } else {
        None
    }
}

/// The number, if it is that of a real-time signal.
pub open spec fn in_range(n: int, rt: RealtimeRange) -> Option<int> {
    if rt.min <= n <= rt.max {
        Some(n)
    } else {
        None
    }
}

/// The number of a real-time signal by its upper-case name.
pub open spec fn realtime(name: Seq<char>, rt: RealtimeRange) -> Option<int> {
    let plus = "RTMIN+"@;
    let minus = "RTMAX-"@;
    if name == "RTMIN"@ {
        Some(rt.min as int)
    } else if name == "RTMAX"@ {
        Some(rt.max as int)
    } else if plus.is_prefix_of(name) && plain_number(name.skip(plus.len() as int)) is Some {
        in_range(rt.min + plain_number(name.skip(plus.len() as int))->0, rt)
    } else if minus.is_prefix_of(name) && plain_number(name.skip(minus.len() as int)) is Some {
        in_range(rt.max - plain_number(name.skip(minus.len() as int))->0, rt)
    } else {
        None
    }
}

/// `s` without the prefix `SIG` in any case.
pub open spec fn strip_prefix(s: Seq<char>) -> Seq<char> {
    if s.len() >= 3 && signals::upper_char(s[0]) == 'S' && signals::upper_char(s[1]) == 'I'
        && signals::upper_char(s[2]) == 'G' {
        s.skip(3)
    } else {
        s
    }
}

/// The number of the signal that `raw` names: by name, as a real-time signal, or by number.
pub open spec fn env_signal(raw: Seq<char>, rt: RealtimeRange) -> Option<int> {
    let s = strip_prefix(raw);
    let name = signals::upper(s);
    if named(name) is Some {
        named(name)
    } else if realtime(name, rt) is Some {
        realtime(name, rt)
    } else {
        match plain_number(s) {
            Some(n) => if 1 <= n <= rt.max {
                Some(n)
            } else {
                None
            },
            None => None,
        }
    }
}

/// An optional number as the contracts speak of it.
pub open spec fn opt_int(n: Option<i32>) -> Option<int> {
    match n {
        Some(x) => Some(x as int),
        None => None,
    }
}

fn parse_env_unsigned_c_int(s: &[char]) -> (r: Option<i32>)
    ensures
        opt_int(r) == plain_number(s@),
        r matches Some(n) ==> n >= 0,
{
    if s.len() == 0 || s[0] == '+' {
        return None;
    }
    match parse_unsigned(s, 2147483647) {
        Ok(n) => Some(n as i32),
        Err(_) => None,
    }
}

fn env_named_signal_number(name: &[char]) -> (r: Option<i32>)
    ensures
        opt_int(r) == named(name@),
{
    if is_text(name, "IOT") {
        return Some(6);
    }
    if is_text(name, "CLD") {
        return Some(17);
    }
    if is_text(name, "POLL") {
        return Some(29);
    }
    let k: usize = signals::find_name(name);
    if k < signals::SIGNAL_COUNT {
        Some(k as i32 + 1)
    } else {
        None
    }
}

fn env_realtime_signal_number(name: &[char], rt: RealtimeRange) -> (r: Option<i32>)
    ensures
        opt_int(r) == realtime(name@, rt),
{
    if is_text(name, "RTMIN") {
        return Some(rt.min);
    }
    if is_text(name, "RTMAX") {
        return Some(rt.max);
    }
    let plus = chars_of("RTMIN+");
    if starts_with(name, plus.as_slice()) {
        let rest = slice_subrange(name, plus.len(), name.len());
        proof {
            assert(rest@ =~= name@.skip(plus@.len() as int));
        }
        if let Some(offset) = parse_env_unsigned_c_int(rest) {
            return match rt.min.checked_add(offset) {
                Some(n) => if rt.min <= n && n <= rt.max {
                    Some(n)
                } else {
                    None
                },
                None => None,
            };
        }
    }
    let minus = chars_of("RTMAX-");
    if starts_with(name, minus.as_slice()) {
        let rest = slice_subrange(name, minus.len(), name.len());
        proof {
            assert(rest@ =~= name@.skip(minus@.len() as int));
        }
        if let Some(offset) = parse_env_unsigned_c_int(rest) {
            return match rt.max.checked_sub(offset) {
                Some(n) => if rt.min <= n && n <= rt.max {
                    Some(n)
                } else {
                    None
                },
                None => None,
            };
        }
    }
    None
}

/// The number of the signal that `raw` names.
pub fn env_signal_number(raw: &[char], rt: RealtimeRange) -> (r: Option<i32>)
    ensures
        opt_int(r) == env_signal(raw@, rt),
{
    let s = if raw.len() >= 3 && signals::to_upper(raw[0]) == 'S' && signals::to_upper(raw[1])
        == 'I' && signals::to_upper(raw[2]) == 'G' {
        slice_subrange(raw, 3, raw.len())
    } else {
        raw
    };
    proof {
        assert(s@ =~= strip_prefix(raw@));
    }
    let name = upper_chars(s);
    if let Some(n) = env_named_signal_number(name.as_slice()) {
        return Some(n);
    }
    if let Some(n) = env_realtime_signal_number(name.as_slice(), rt) {
        return Some(n);
    }
    match parse_env_unsigned_c_int(s) {
        Some(n) => if 1 <= n && n <= rt.max {
            Some(n)
        } else {
            None
        },
        None => None,
    }
}

/// What a list of signals asks for.
#[derive(Clone, Copy, Debug, PartialEq, Eq, Structural)]
pub enum SignalList {
    /// A signal is unknown, or one of the C library is to be blocked. The flag is as under
    /// `Accepted`, for the entries before that one.
    Refused { unchangeable: bool },
    /// All is well, but for a disposition that cannot be changed where the flag is set.
    Accepted { unchangeable: bool },
}

/// Whether the C library keeps a signal for itself.
pub open spec fn is_reserved(n: int, rt: RealtimeRange) -> bool {
    32 <= n < rt.min
}

/// Judges a list of signals separated by commas. Empty entries do not count. Blocking SIGKILL or
/// SIGSTOP is tolerated; changing their disposition is not.
pub open spec fn judge_list(s: Seq<char>, block: bool, rt: RealtimeRange, unchangeable: bool) -> SignalList
    decreases s.len(),
{
    let k = text::first_where(s, text::is_char(','));
    let entry = if 0 <= k < s.len() {
        s.take(k)
    } else {
        s
    };
    let now = judge_entry(entry, block, rt, unchangeable);
    if 0 <= k < s.len() {
        match now {
            SignalList::Refused { .. } => now,
            SignalList::Accepted { unchangeable: u } => judge_list(s.skip(k + 1), block, rt, u),
        }
    } else {
        now
    }
}

/// Judges one entry of a list of signals.
pub open spec fn judge_entry(
    entry: Seq<char>,
    block: bool,
    rt: RealtimeRange,
    unchangeable: bool,
) -> SignalList {
    if entry.len() == 0 {
        SignalList::Accepted { unchangeable }
    } else {
        match env_signal(entry, rt) {
            None => SignalList::Refused { unchangeable },
            Some(n) => if block {
                if is_reserved(n, rt) {
                    SignalList::Refused { unchangeable }
                } else {
                    SignalList::Accepted { unchangeable }
                }
            } else {
                SignalList::Accepted {
                    unchangeable: unchangeable || is_reserved(n, rt) || n == 9 || n == 19,
                }
            },
        }
    }
}

fn judge_one(entry: &[char], block: bool, rt: RealtimeRange, unchangeable: bool) -> (r: SignalList)
    ensures
        r == judge_entry(entry@, block, rt, unchangeable),
{
    if entry.len() == 0 {
        return SignalList::Accepted { unchangeable };
    }
    match env_signal_number(entry, rt) {
        None => SignalList::Refused { unchangeable },
        Some(n) => {
            let reserved = 32 <= n && n < rt.min;
            if block {
                if reserved {
                    SignalList::Refused { unchangeable }
                } else {
                    SignalList::Accepted { unchangeable }
                }
            } else {
                SignalList::Accepted {
                    unchangeable: unchangeable || reserved || n == signals::SIGKILL || n
                        == signals::SIGSTOP,
                }
            }
        },
    }
}

/// Judges a list of signals separated by commas.
pub fn judge_signals(list: &[char], block: bool, rt: RealtimeRange, unchangeable: bool) -> (r:
    SignalList)
    ensures
        r == judge_list(list@, block, rt, unchangeable),
{
    let mut rest: &[char] = list;
    let mut flag = unchangeable;
    loop
        invariant
            judge_list(list@, block, rt, unchangeable) == judge_list(rest@, block, rt, flag),
        decreases rest@.len(),
    {
        let k: usize = find_char(rest, ',');
        let entry = slice_subrange(rest, 0, k);
        proof {
            if k < rest@.len() {
                assert(entry@ =~= rest@.take(k as int));
            } else {
                assert(entry@ =~= rest@);
            }
        }
        match judge_one(entry, block, rt, flag) {
            SignalList::Refused { unchangeable: u } => {
                return SignalList::Refused { unchangeable: u };
            },
            SignalList::Accepted { unchangeable: u } => {
                if k >= rest.len() {
                    return SignalList::Accepted { unchangeable: u };
                }
                let ghost whole = rest@;
                rest = slice_subrange(rest, k + 1, rest.len());
                flag = u;
                proof {
                    assert(rest@ =~= whole.skip(k + 1));
                }
            },
        }
    }
}

} // verus!
