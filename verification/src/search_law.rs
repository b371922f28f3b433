//! Where commands are looked for, and which signal a name is.

use vstd::prelude::*;

use crate::cli;
use crate::context::{self, ContextModel};
use crate::control;
use crate::discovery;
use crate::env_signal::{self, RealtimeRange, SignalList};
use crate::error::ErrorModel;
use crate::facts::{self, FileFacts, FindModel, QuestionModel, ReplyModel, WorldModel};
use crate::signals;
use crate::text;

verus! {

// ---------------------------------------------------------------------------
// Directories
// ---------------------------------------------------------------------------

/// Directories, parted by colons.
pub open spec fn with_colons(dirs: Seq<Seq<u8>>) -> Seq<u8>
    decreases dirs.len(),
{
    if dirs.len() == 0 {
        Seq::empty()
    } else if dirs.len() == 1 {
        dirs[0]
    } else {
        dirs[0] + seq![58u8] + with_colons(dirs.skip(1))
    }
}

/// The directories of a search path are what its colons part, in their order and with the empty ones:
/// none holds a colon, there is at least one, and with the colons they are the path again.
pub proof fn law_colons_part_directories(path: Seq<u8>)
    ensures
        context::search_dirs(path).len() > 0,
        with_colons(context::search_dirs(path)) == path,
        forall|i: int|
            0 <= i < context::search_dirs(path).len() ==> !(#[trigger] context::search_dirs(
                path,
            )[i]).contains(58),
    decreases path.len(),
{
    let p = text::is_byte(0x3a);
    let k = text::first_where(path, p);
    text::lemma_first_where_bounds(path, p);
    let dirs = context::search_dirs(path);
    if k < path.len() {
        let rest = path.skip(k + 1);
        law_colons_part_directories(rest);
        let more = context::search_dirs(rest);
        assert(dirs == seq![path.take(k)] + more);
        assert(dirs.skip(1) =~= more);
        assert(path =~= path.take(k) + seq![58u8] + rest);
        assert forall|i: int| 0 <= i < dirs.len() implies !(#[trigger] dirs[i]).contains(58) by {
            if i == 0 {
                assert forall|j: int| 0 <= j < k implies dirs[0][j] != 58 by {
                    assert(!p(path[j]));
                }
            } else {
                assert(dirs[i] == more[i - 1]);
            }
        }
    } else {
        assert(dirs =~= seq![path]);
        assert forall|j: int| 0 <= j < path.len() implies path[j] != 58 by {
            assert(!p(path[j]));
        }
    }
}

proof fn lemma_dirs_again(dirs: Seq<Seq<u8>>)
    requires
        dirs.len() > 0,
        forall|i: int| 0 <= i < dirs.len() ==> !(#[trigger] dirs[i]).contains(58),
    ensures
        context::search_dirs(with_colons(dirs)) == dirs,
    decreases dirs.len(),
{
    let p = text::is_byte(0x3a);
    let path = with_colons(dirs);
    let first = dirs[0];
    let k = first.len() as int;
    assert forall|i: int| 0 <= i < k implies !p(#[trigger] path[i]) by {
        assert(path[i] == first[i]);
        assert(first.contains(first[i]));
    }
    if dirs.len() == 1 {
        text::lemma_first_where(path, p, k);
        assert(context::search_dirs(path) =~= dirs);
    } else {
        let rest = dirs.skip(1);
        assert forall|i: int| 0 <= i < rest.len() implies !(#[trigger] rest[i]).contains(58) by {
            assert(rest[i] == dirs[i + 1]);
        }
        lemma_dirs_again(rest);
        assert(path[k] == 58);
        text::lemma_first_where(path, p, k);
        assert(path.take(k) =~= first);
        assert(path.skip(k + 1) =~= with_colons(rest));
        assert(seq![first] + rest =~= dirs);
    }
}

/// A command is looked for in the directories of the variable `PATH`, where it is set, and else in those of
/// the system, seen from the current directory.
pub proof fn law_where_commands_are_looked_for(
    w: WorldModel,
    command: Seq<char>,
    ctx: ContextModel,
    dirs: Seq<Seq<u8>>,
)
    requires
        dirs.len() > 0,
        forall|i: int| 0 <= i < dirs.len() ==> !(#[trigger] dirs[i]).contains(58),
        ({
            let key = seq![80u8, 65, 84, 72];
            with_colons(dirs) == if ctx.environment.dom().contains(key) {
                ctx.environment[key]
            } else {
                w.default_path
            }
        }),
    ensures
        discovery::commands_in(w, command, ctx) == discovery::candidates(
            w,
            dirs,
            vstd::utf8::encode_utf8(command),
            ctx.cwd,
        ),
{
    lemma_dirs_again(dirs);
}

/// A command is looked for right beneath each directory. A directory that is not absolute, the empty one
/// among them, is beneath the current directory, where that is known.
pub proof fn law_where_a_command_may_be(dir: Seq<u8>, command: Seq<u8>, cwd: Seq<u8>)
    requires
        command.len() > 0 && command[0] != 47,
        cwd.len() > 1 && cwd[0] == 47 && cwd.last() != 47,
    ensures
        dir.len() > 0 && dir[0] == 47 && dir.last() != 47 ==> discovery::candidate_in(
            dir,
            command,
            Some(cwd),
        ) == dir + seq![47u8] + command,
        dir.len() > 0 && dir[0] == 47 && dir.last() == 47 ==> discovery::candidate_in(
            dir,
            command,
            Some(cwd),
        ) == dir + command,
        dir.len() > 0 && dir[0] != 47 && dir.last() != 47 ==> discovery::candidate_in(
            dir,
            command,
            Some(cwd),
        ) == cwd + seq![47u8] + dir + seq![47u8] + command,
        dir.len() == 0 ==> discovery::candidate_in(dir, command, Some(cwd)) == cwd + seq![47u8]
            + command,
        dir.len() == 0 ==> discovery::candidate_in(dir, command, None) == command,
        dir.len() > 0 && dir.last() != 47 ==> discovery::candidate_in(dir, command, None) == dir
            + seq![47u8] + command,
{
    if dir.len() == 0 {
        assert(cwd.push(47) + dir =~= cwd + seq![47u8]);
        assert(context::joined_path(cwd, dir) =~= cwd + seq![47u8]);
        assert(context::joined_path(cwd, dir).last() == 47);
    } else if dir[0] != 47 && dir.last() != 47 {
        assert(context::joined_path(cwd, dir) =~= cwd + seq![47u8] + dir);
        assert((cwd + seq![47u8] + dir).last() == dir.last());
        assert((cwd + seq![47u8] + dir).push(47) + command =~= cwd + seq![47u8] + dir + seq![47u8]
            + command);
    }
    assert(dir.push(47) + command =~= dir + seq![47u8] + command);
}

/// The files that a command may be are found directory by directory: those of the first directories
/// come before those of the others, a file that can be run is among them, and one that cannot is not.
pub proof fn law_directories_are_searched_in_order(
    w: WorldModel,
    front: Seq<Seq<u8>>,
    dir: Seq<u8>,
    command: Seq<u8>,
    cwd: Option<Seq<u8>>,
)
    requires
        discovery::candidates(w, front, command, cwd) is Found,
        discovery::can_run(w, discovery::candidate_in(dir, command, cwd)) is Found,
    ensures
        ({
            let before = discovery::candidates(w, front, command, cwd)->Found_0;
            let path = discovery::candidate_in(dir, command, cwd);
            let r = discovery::candidates(w, front.push(dir), command, cwd);
            r == FindModel::Found(
                if discovery::can_run(w, path)->Found_0 {
                    before.push(path)
                } else {
                    before
                },
            )
        }),
        discovery::candidates(w, Seq::empty(), command, cwd) == FindModel::Found(
            Seq::<Seq<u8>>::empty(),
        ),
{
    assert(front.push(dir).drop_last() =~= front);
    assert(front.push(dir).last() == dir);
}

/// A file can be run where it is a regular file that is marked as executable and this process may
/// execute it. A file that cannot be looked at cannot be run, whatever the reason.
pub proof fn law_what_can_be_run(w: WorldModel, path: Seq<u8>)
    requires
        !path.contains(0),
    ensures
        discovery::can_run(w, path) == FindModel::Found(true) <==> {
            &&& w.knows(QuestionModel::Look(path)) matches Some(ReplyModel::Facts(facts))
            &&& facts.kind is Regular
            &&& facts.executable
            &&& w.knows(QuestionModel::Access(path)) == Some(ReplyModel::Access(true))
        },
        w.knows(QuestionModel::Look(path)) matches Some(ReplyModel::Failed(..))
            ==> discovery::can_run(w, path) == FindModel::Found(false),
        w.knows(QuestionModel::Look(path)) is None ==> discovery::can_run(w, path)
            == FindModel::<bool>::Need(QuestionModel::Look(path)),
{
}

/// A command that is not there is passed over, which is what 1, 2, 13, 20, 36 and 40 say of it. Every
/// other trouble with it is a failure.
pub proof fn law_what_is_not_there(w: WorldModel, path: Seq<u8>, errno: i32, reason: Seq<char>)
    requires
        w.knows(QuestionModel::Look(path)) == Some(ReplyModel::Failed(errno, reason)),
    ensures
        ({
            let passed = errno == 1 || errno == 2 || errno == 13 || errno == 20 || errno == 36
                || errno == 40;
            &&& discovery::looked(w, path) == FindModel::Found(None::<FileFacts>) <==> passed
            &&& discovery::looked(w, path) is Fail <==> !passed
        }),
{
}

/// The search path is the variable `PATH` of the environment, where it is set, even where it is empty,
/// and else the one of the system.
pub proof fn law_search_path_is_the_variable(ctx: ContextModel, fallback: Seq<u8>)
    ensures
        ({
            let key = seq![80u8, 65, 84, 72];
            ctx.search_path(fallback) == if ctx.environment.dom().contains(key) {
                ctx.environment[key]
            } else {
                fallback
            }
        }),
{
}

// ---------------------------------------------------------------------------
// Signals
// ---------------------------------------------------------------------------

/// By what a name is told apart from the others.
spec fn look(s: Seq<char>) -> (nat, char, char, char) {
    (s.len(), s[0], s[1], s.last())
}

proof fn lemma_looks()
    ensures
        look("HUP"@) == (3nat, 'H', 'U', 'P'),
        look("INT"@) == (3nat, 'I', 'N', 'T'),
        look("QUIT"@) == (4nat, 'Q', 'U', 'T'),
        look("ILL"@) == (3nat, 'I', 'L', 'L'),
        look("TRAP"@) == (4nat, 'T', 'R', 'P'),
        look("ABRT"@) == (4nat, 'A', 'B', 'T'),
        look("BUS"@) == (3nat, 'B', 'U', 'S'),
        look("FPE"@) == (3nat, 'F', 'P', 'E'),
        look("KILL"@) == (4nat, 'K', 'I', 'L'),
        look("USR1"@) == (4nat, 'U', 'S', '1'),
        look("SEGV"@) == (4nat, 'S', 'E', 'V'),
        look("USR2"@) == (4nat, 'U', 'S', '2'),
        look("PIPE"@) == (4nat, 'P', 'I', 'E'),
        look("ALRM"@) == (4nat, 'A', 'L', 'M'),
        look("TERM"@) == (4nat, 'T', 'E', 'M'),
        look("STKFLT"@) == (6nat, 'S', 'T', 'T'),
        look("CHLD"@) == (4nat, 'C', 'H', 'D'),
        look("CONT"@) == (4nat, 'C', 'O', 'T'),
        look("STOP"@) == (4nat, 'S', 'T', 'P'),
        look("TSTP"@) == (4nat, 'T', 'S', 'P'),
        look("TTIN"@) == (4nat, 'T', 'T', 'N'),
        look("TTOU"@) == (4nat, 'T', 'T', 'U'),
        look("URG"@) == (3nat, 'U', 'R', 'G'),
        look("XCPU"@) == (4nat, 'X', 'C', 'U'),
        look("XFSZ"@) == (4nat, 'X', 'F', 'Z'),
        look("VTALRM"@) == (6nat, 'V', 'T', 'M'),
        look("PROF"@) == (4nat, 'P', 'R', 'F'),
        look("WINCH"@) == (5nat, 'W', 'I', 'H'),
        look("IO"@) == (2nat, 'I', 'O', 'O'),
        look("PWR"@) == (3nat, 'P', 'W', 'R'),
        look("SYS"@) == (3nat, 'S', 'Y', 'S'),
{
    assert(look("HUP"@) == (3nat, 'H', 'U', 'P')) by {
        reveal_strlit("HUP");
    }
    assert(look("INT"@) == (3nat, 'I', 'N', 'T')) by {
        reveal_strlit("INT");
    }
    assert(look("QUIT"@) == (4nat, 'Q', 'U', 'T')) by {
        reveal_strlit("QUIT");
    }
    assert(look("ILL"@) == (3nat, 'I', 'L', 'L')) by {
        reveal_strlit("ILL");
    }
    assert(look("TRAP"@) == (4nat, 'T', 'R', 'P')) by {
        reveal_strlit("TRAP");
    }
    assert(look("ABRT"@) == (4nat, 'A', 'B', 'T')) by {
        reveal_strlit("ABRT");
    }
    assert(look("BUS"@) == (3nat, 'B', 'U', 'S')) by {
        reveal_strlit("BUS");
    }
    assert(look("FPE"@) == (3nat, 'F', 'P', 'E')) by {
        reveal_strlit("FPE");
    }
    assert(look("KILL"@) == (4nat, 'K', 'I', 'L')) by {
        reveal_strlit("KILL");
    }
    assert(look("USR1"@) == (4nat, 'U', 'S', '1')) by {
        reveal_strlit("USR1");
    }
    assert(look("SEGV"@) == (4nat, 'S', 'E', 'V')) by {
        reveal_strlit("SEGV");
    }
    assert(look("USR2"@) == (4nat, 'U', 'S', '2')) by {
        reveal_strlit("USR2");
    }
    assert(look("PIPE"@) == (4nat, 'P', 'I', 'E')) by {
        reveal_strlit("PIPE");
    }
    assert(look("ALRM"@) == (4nat, 'A', 'L', 'M')) by {
        reveal_strlit("ALRM");
    }
    assert(look("TERM"@) == (4nat, 'T', 'E', 'M')) by {
        reveal_strlit("TERM");
    }
    assert(look("STKFLT"@) == (6nat, 'S', 'T', 'T')) by {
        reveal_strlit("STKFLT");
    }
    assert(look("CHLD"@) == (4nat, 'C', 'H', 'D')) by {
        reveal_strlit("CHLD");
    }
    assert(look("CONT"@) == (4nat, 'C', 'O', 'T')) by {
        reveal_strlit("CONT");
    }
    assert(look("STOP"@) == (4nat, 'S', 'T', 'P')) by {
        reveal_strlit("STOP");
    }
    assert(look("TSTP"@) == (4nat, 'T', 'S', 'P')) by {
        reveal_strlit("TSTP");
    }
    assert(look("TTIN"@) == (4nat, 'T', 'T', 'N')) by {
        reveal_strlit("TTIN");
    }
    assert(look("TTOU"@) == (4nat, 'T', 'T', 'U')) by {
        reveal_strlit("TTOU");
    }
    assert(look("URG"@) == (3nat, 'U', 'R', 'G')) by {
        reveal_strlit("URG");
    }
    assert(look("XCPU"@) == (4nat, 'X', 'C', 'U')) by {
        reveal_strlit("XCPU");
    }
    assert(look("XFSZ"@) == (4nat, 'X', 'F', 'Z')) by {
        reveal_strlit("XFSZ");
    }
    assert(look("VTALRM"@) == (6nat, 'V', 'T', 'M')) by {
        reveal_strlit("VTALRM");
    }
    assert(look("PROF"@) == (4nat, 'P', 'R', 'F')) by {
        reveal_strlit("PROF");
    }
    assert(look("WINCH"@) == (5nat, 'W', 'I', 'H')) by {
        reveal_strlit("WINCH");
    }
    assert(look("IO"@) == (2nat, 'I', 'O', 'O')) by {
        reveal_strlit("IO");
    }
    assert(look("PWR"@) == (3nat, 'P', 'W', 'R')) by {
        reveal_strlit("PWR");
    }
    assert(look("SYS"@) == (3nat, 'S', 'Y', 'S')) by {
        reveal_strlit("SYS");
    }
}

/// Whether a name is that of this signal, in capital or small letters, with or without `SIG` in front
/// of it, and with blanks around it.
pub open spec fn is_called(raw: Seq<char>, name: Seq<char>) -> bool {
    let s = signals::upper(text::trim(raw));
    s == name || s == seq!['S', 'I', 'G'] + name
}

/// The number of each name.
pub open spec fn number_of(name: Seq<char>) -> int {
    if name == "HUP"@ {
        1
    } else if name == "INT"@ {
        2
    } else if name == "QUIT"@ {
        3
    } else if name == "ILL"@ {
        4
    } else if name == "TRAP"@ {
        5
    } else if name == "ABRT"@ {
        6
    } else if name == "BUS"@ {
        7
    } else if name == "FPE"@ {
        8
    } else if name == "KILL"@ {
        9
    } else if name == "USR1"@ {
        10
    } else if name == "SEGV"@ {
        11
    } else if name == "USR2"@ {
        12
    } else if name == "PIPE"@ {
        13
    } else if name == "ALRM"@ {
        14
    } else if name == "TERM"@ {
        15
    } else if name == "STKFLT"@ {
        16
    } else if name == "CHLD"@ {
        17
    } else if name == "CONT"@ {
        18
    } else if name == "STOP"@ {
        19
    } else if name == "TSTP"@ {
        20
    } else if name == "TTIN"@ {
        21
    } else if name == "TTOU"@ {
        22
    } else if name == "URG"@ {
        23
    } else if name == "XCPU"@ {
        24
    } else if name == "XFSZ"@ {
        25
    } else if name == "VTALRM"@ {
        26
    } else if name == "PROF"@ {
        27
    } else if name == "WINCH"@ {
        28
    } else if name == "IO"@ {
        29
    } else if name == "PWR"@ {
        30
    } else if name == "SYS"@ {
        31
    } else {
        0
    }
}

proof fn lemma_index(name: Seq<char>, k: int)
    requires
        0 <= k < 31,
        name == signals::names()[k],
        forall|i: int| 0 <= i < k ==> #[trigger] signals::names()[i] != name,
    ensures
        text::first_where(signals::names(), signals::equals(name)) == k,
{
    let p = signals::equals(name);
    assert forall|i: int| 0 <= i < k implies !p(#[trigger] signals::names()[i]) by {}
    text::lemma_first_where(signals::names(), p, k);
}

proof fn lemma_numbers(k: int)
    requires
        0 <= k < 31,
    ensures
        number_of(signals::names()[k]) == k + 1,
        text::first_where(signals::names(), signals::equals(signals::names()[k])) == k,
{
    lemma_looks();
    let name = signals::names()[k];
    assert(number_of(name) == k + 1);
    assert forall|i: int| 0 <= i < k implies #[trigger] signals::names()[i] != name by {
        assert(number_of(signals::names()[i]) == i + 1);
    }
    lemma_index(name, k);
}

proof fn lemma_unknown(name: Seq<char>)
    requires
        number_of(name) == 0,
    ensures
        text::first_where(signals::names(), signals::equals(name)) == 31,
{
    let p = signals::equals(name);
    assert forall|i: int| 0 <= i < 31 implies !p(#[trigger] signals::names()[i]) by {
        lemma_numbers(i);
    }
    text::lemma_first_where(signals::names(), p, 31);
}

proof fn lemma_known(name: Seq<char>)
    requires
        number_of(name) != 0,
    ensures
        1 <= number_of(name) <= 31,
        name == signals::names()[number_of(name) - 1],
        text::first_where(signals::names(), signals::equals(name)) == number_of(name) - 1,
{
    let k = number_of(name) - 1;
    assert(0 <= k < 31);
    assert(name == signals::names()[k]);
    lemma_numbers(k);
}

/// A signal is known by its name, with or without `SIG` in front of it, in capital or small letters and
/// with blanks around it, and the number is that of the name.
pub proof fn law_signals_have_names(raw: Seq<char>, name: Seq<char>)
    requires
        is_called(raw, name),
        name.len() < 3 || name.take(3) != seq!['S', 'I', 'G'],
    ensures
        signals::signal_number(raw) == if number_of(name) > 0 {
            Some(number_of(name))
        } else {
            None
        },
{
    let s = signals::upper(text::trim(raw));
    if s == name {
        if s.len() >= 3 {
            assert(s.take(3) != seq!['S', 'I', 'G']);
            if s[0] == 'S' && s[1] == 'I' && s[2] == 'G' {
                assert(s.take(3) =~= seq!['S', 'I', 'G']);
            }
        }
        assert(signals::strip_sig(s) == name);
    } else {
        assert(s[0] == 'S' && s[1] == 'I' && s[2] == 'G');
        assert(s.skip(3) =~= name);
    }
    if number_of(name) != 0 {
        lemma_known(name);
    } else {
        lemma_unknown(name);
    }
}

/// In the lists of `env`, a signal may also be given by its number, up to the last of the real time.
pub proof fn law_signals_have_numbers(n: nat, rt: RealtimeRange)
    requires
        n <= 2147483647,
    ensures
        env_signal::plain_number(text::decimal(n)) == Some(n as int),
        env_signal::env_signal(text::decimal(n), rt) == if 1 <= n <= rt.max {
            Some(n as int)
        } else {
            None
        },
{
    let s = text::decimal(n);
    text::lemma_decimal_shape(n);
    text::lemma_decimal_read_back(n, 2147483647);
    assert(text::is_digit(s[0]));
    assert(env_signal::strip_prefix(s) == s);
    let u = signals::upper(s);
    assert(u[0] == s[0]);
    assert(number_of(u) == 0) by {
        lemma_looks();
    }
    lemma_unknown(u);
    assert(env_signal::named(u) is None) by {
        reveal_strlit("IOT");
        reveal_strlit("CLD");
        reveal_strlit("POLL");
    }
    assert(env_signal::realtime(u, rt) is None) by {
        reveal_strlit("RTMIN");
        reveal_strlit("RTMAX");
        reveal_strlit("RTMIN+");
        reveal_strlit("RTMAX-");
        if "RTMIN+"@.is_prefix_of(u) {
            assert("RTMIN+"@[0] == u[0]);
        }
        if "RTMAX-"@.is_prefix_of(u) {
            assert("RTMAX-"@[0] == u[0]);
        }
    }
}

/// The signals that cannot be caught (9 and 19) and those of the C library (from 32 up to the first of
/// the real time) may not be given a disposition; only the latter may not be blocked. An unknown signal
/// is refused either way, and an empty entry is passed over.
pub proof fn law_which_signals_are_refused(
    entry: Seq<char>,
    n: int,
    rt: RealtimeRange,
    before: bool,
)
    requires
        entry.len() > 0,
    ensures
        env_signal::env_signal(entry, rt) is None ==> {
            &&& env_signal::judge_entry(entry, true, rt, before) is Refused
            &&& env_signal::judge_entry(entry, false, rt, before) is Refused
        },
        env_signal::env_signal(entry, rt) == Some(n) ==> {
            let reserved = 32 <= n && n < rt.min;
            &&& env_signal::judge_entry(entry, true, rt, before) is Refused <==> reserved
            &&& env_signal::judge_entry(entry, false, rt, before) == (SignalList::Accepted {
                unchangeable: before || reserved || n == 9 || n == 19,
            })
        },
        env_signal::judge_entry(Seq::empty(), true, rt, before) == (SignalList::Accepted {
            unchangeable: before,
        }),
        env_signal::judge_entry(Seq::empty(), false, rt, before) == (SignalList::Accepted {
            unchangeable: before,
        }),
{
}

/// A list of signals is judged entry by entry, up to the first that is refused.
pub proof fn law_lists_are_judged_in_order(
    entry: Seq<char>,
    rest: Seq<char>,
    block: bool,
    rt: RealtimeRange,
    before: bool,
)
    requires
        !entry.contains(','),
    ensures
        env_signal::judge_list(entry, block, rt, before) == env_signal::judge_entry(
            entry,
            block,
            rt,
            before,
        ),
        env_signal::judge_list(entry + seq![','] + rest, block, rt, before)
            == match env_signal::judge_entry(entry, block, rt, before) {
            SignalList::Refused { unchangeable } => SignalList::Refused { unchangeable },
            SignalList::Accepted { unchangeable } => env_signal::judge_list(
                rest,
                block,
                rt,
                unchangeable,
            ),
        },
{
    let p = text::is_char(',');
    let s = entry + seq![','] + rest;
    let k = entry.len() as int;
    assert forall|i: int| 0 <= i < k implies !p(#[trigger] entry[i]) by {
        assert(entry.contains(entry[i]));
    }
    assert forall|i: int| 0 <= i < k implies !p(#[trigger] s[i]) by {
        assert(s[i] == entry[i]);
    }
    assert(s[k] == ',');
    text::lemma_first_where(entry, p, k);
    text::lemma_first_where(s, p, k);
    assert(s.take(k) =~= entry);
    assert(s.skip(k + 1) =~= rest);
}

/// The signal for the death of the parent is the one that is named, and is kept by its full name.
pub proof fn law_signal_for_the_death_of_the_parent(raw: Seq<char>, name: Seq<char>)
    requires
        is_called(raw, name),
        number_of(name) > 0,
        name.len() < 3 || name.take(3) != seq!['S', 'I', 'G'],
        text::trim(raw).len() > 0,
    ensures
        control::pdeath_number(Some(raw)) == Ok::<Option<int>, ErrorModel>(Some(number_of(name))),
        cli::signal_text(raw) == Ok::<Seq<char>, Seq<char>>("SIG"@ + name),
{
    law_signals_have_names(raw, name);
    lemma_known(name);
}

/// Small letters are made capital, and every other character is kept.
pub proof fn law_capital_letters(c: char)
    ensures
        97 <= c as u32 <= 122 ==> signals::upper_char(c) as u32 == c as u32 - 32,
        !(97 <= c as u32 <= 122) ==> signals::upper_char(c) == c,
{
}

/// Whether a text begins with `SIG`, in capital or small letters.
pub open spec fn begins_with_sig(s: Seq<char>) -> bool {
    s.len() >= 3 && (s[0] == 'S' || s[0] == 's') && (s[1] == 'I' || s[1] == 'i') && (s[2] == 'G' || s[2]
        == 'g')
}

/// In the lists of `env`, a signal is known by its name too, with or without `SIG` in front of it and in
/// capital or small letters.
pub proof fn law_names_in_lists(sig: Seq<char>, name: Seq<char>, rt: RealtimeRange)
    requires
        begins_with_sig(sig) && sig.len() == 3,
        !begins_with_sig(name),
        number_of(signals::upper(name)) > 0,
    ensures
        env_signal::env_signal(name, rt) == Some(number_of(signals::upper(name))),
        env_signal::env_signal(sig + name, rt) == Some(number_of(signals::upper(name))),
{
    let u = signals::upper(name);
    assert(env_signal::strip_prefix(name) == name);
    assert((sig + name).skip(3) =~= name);
    assert(env_signal::strip_prefix(sig + name) == name);
    lemma_known(u);
    lemma_looks();
    assert(u != "IOT"@ && u != "CLD"@ && u != "POLL"@) by {
        reveal_strlit("IOT");
        reveal_strlit("CLD");
        reveal_strlit("POLL");
        assert(look("IOT"@) == (3nat, 'I', 'O', 'T'));
        assert(look("CLD"@) == (3nat, 'C', 'L', 'D'));
        assert(look("POLL"@) == (4nat, 'P', 'O', 'L'));
        assert(number_of("IOT"@) == 0);
        assert(number_of("CLD"@) == 0);
        assert(number_of("POLL"@) == 0);
    }
}

/// Paths are sorted byte by byte: the first byte that differs decides, and a path comes before those that
/// go on from it.
pub proof fn law_order_of_paths(front: Seq<u8>, a: u8, b: u8, more: Seq<u8>, other: Seq<u8>)
    ensures
        a != b ==> (facts::less(front + seq![a] + more, front + seq![b] + other) <==> a < b),
        facts::less(front, front + seq![a] + more),
        !facts::less(front + seq![a] + more, front),
        !facts::less(front, front),
    decreases front.len(),
{
    let x = front + seq![a] + more;
    let y = front + seq![b] + other;
    if front.len() == 0 {
        assert(x[0] == a && y[0] == b);
    } else {
        let rest = front.skip(1);
        assert(x[0] == front[0] && y[0] == front[0]);
        assert(x.skip(1) =~= rest + seq![a] + more);
        assert(y.skip(1) =~= rest + seq![b] + other);
        law_order_of_paths(rest, a, b, more, other);
    }
}

/// In the lists of `env`, a real time signal is known by its distance from the first or to the last of
/// them, as far as there are such signals.
pub proof fn law_real_time_signals(n: nat, rt: RealtimeRange)
    requires
        n <= 2147483647,
        0 < rt.min <= rt.max,
    ensures
        env_signal::realtime("RTMIN"@, rt) == Some(rt.min as int),
        env_signal::realtime("RTMAX"@, rt) == Some(rt.max as int),
        env_signal::realtime("RTMIN+"@ + text::decimal(n), rt) == if rt.min + n <= rt.max {
            Some(rt.min + n)
        } else {
            None
        },
        env_signal::realtime("RTMAX-"@ + text::decimal(n), rt) == if rt.max - n >= rt.min {
            Some(rt.max - n)
        } else {
            None
        },
{
    reveal_strlit("RTMIN");
    reveal_strlit("RTMAX");
    reveal_strlit("RTMIN+");
    reveal_strlit("RTMAX-");
    let d = text::decimal(n);
    text::lemma_decimal_shape(n);
    text::lemma_decimal_read_back(n, 2147483647);
    assert(text::is_digit(d[0]));
    assert("RTMIN"@[3] != "RTMAX"@[3]);
    let a = "RTMIN+"@ + d;
    let b = "RTMAX-"@ + d;
    assert(a.len() > 6 && b.len() > 6);
    assert(a.subrange(0, 6) =~= "RTMIN+"@);
    assert(a.skip(6) =~= d);
    assert(b.subrange(0, 6) =~= "RTMAX-"@);
    assert(b.skip(6) =~= d);
    assert(b[3] == 'A');
    if "RTMIN+"@.is_prefix_of(b) {
        assert(b.subrange(0, 6)[3] == "RTMIN+"@[3]);
    }
}

} // verus!
