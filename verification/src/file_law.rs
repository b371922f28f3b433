//! How the lines of a configuration file are read, when the file counts, and what is said in the end.

use vstd::prelude::*;

use crate::args;
use crate::cli::{self, CliErrorModel, CliModel, CliParseErrorKind};
use crate::config::{self, FileContent};
use crate::config_text;
use crate::env_defaults::{self, EnvLogModel};
use crate::error;
use crate::landlock::LandlockError;
use crate::launch;
use crate::logging::{self, Level};
use crate::platform;
use crate::policy::PolicyModel;
use crate::report;
use crate::text;
use crate::text_law;

verus! {

// ---------------------------------------------------------------------------
// Lines
// ---------------------------------------------------------------------------

/// A key: a word without white space that begins with a letter.
pub open spec fn is_key(key: Seq<char>) -> bool {
    key.len() > 0 && ('a' <= key[0] <= 'z' || 'A' <= key[0] <= 'Z') && forall|i: int|
        0 <= i < key.len() ==> !text_law::is_white(#[trigger] key[i])
}

/// White space, or nothing.
pub open spec fn is_white(s: Seq<char>) -> bool {
    forall|i: int| 0 <= i < s.len() ==> text_law::is_white(#[trigger] s[i])
}

proof fn lemma_spaces(c: char)
    ensures
        text::is_space(c) <==> text_law::is_white(c),
{
}

proof fn lemma_key_and_value(key: Seq<char>, gap: Seq<char>, value: Seq<char>)
    requires
        is_key(key),
        is_white(gap),
        gap.len() > 0 <==> value.len() > 0,
        value.len() > 0 ==> !text_law::is_white(value[0]) && !text_law::is_white(value.last()),
    ensures
        config::line_key(key + gap + value) == key,
        config::line_key(seq!['-', '-'] + key + gap + value) == key,
        config::line_value(key + gap + value) == if value.len() > 0 {
            Some(value)
        } else {
            None
        },
        config::line_value(seq!['-', '-'] + key + gap + value) == if value.len() > 0 {
            Some(value)
        } else {
            None
        },
{
    lemma_front(key, gap, value);
    let raw = seq!['-', '-'] + key;
    lemma_front(raw, gap, value);
    assert(raw + gap + value =~= seq!['-', '-'] + key + gap + value);
    assert(raw.skip(2) =~= key);
}

proof fn lemma_front(word: Seq<char>, gap: Seq<char>, value: Seq<char>)
    requires
        word.len() > 0,
        is_white(gap),
        gap.len() > 0 <==> value.len() > 0,
        value.len() > 0 ==> !text_law::is_white(value[0]) && !text_law::is_white(value.last()),
        forall|i: int| 0 <= i < word.len() ==> !text_law::is_white(#[trigger] word[i]),
    ensures
        ({
            let line = word + gap + value;
            let k = text::first_where(line, text::space_pred());
            &&& k == word.len()
            &&& line.take(k) == word
            &&& text::trim(line.skip(k)) == value
        }),
{
    let line = word + gap + value;
    let k = word.len() as int;
    let p = text::space_pred();
    assert forall|i: int| 0 <= i < k implies !p(#[trigger] line[i]) by {
        assert(line[i] == word[i]);
        lemma_spaces(word[i]);
    }
    if gap.len() > 0 {
        assert(line[k] == gap[0]);
        lemma_spaces(gap[0]);
    }
    text::lemma_first_where(line, p, k);
    assert(line.take(k) =~= word);
    assert(line.skip(k) =~= gap + value);
    let none = Seq::<char>::empty();
    if value.len() > 0 {
        text_law::law_white_space_is_trimmed(gap, value, none);
        assert(gap + value + none =~= gap + value);
    } else {
        assert(gap + value =~= none);
    }
}

proof fn lemma_tight_line(before: Seq<char>, word: Seq<char>, gap: Seq<char>, value: Seq<char>, after: Seq<char>)
    requires
        word.len() > 0,
        is_white(before) && is_white(gap) && is_white(after),
        gap.len() > 0 <==> value.len() > 0,
        value.len() > 0 ==> !text_law::is_white(value[0]) && !text_law::is_white(value.last()),
        forall|i: int| 0 <= i < word.len() ==> !text_law::is_white(#[trigger] word[i]),
    ensures
        text::trim(before + (word + gap + value) + after) == word + gap + value,
{
    let line = word + gap + value;
    assert(line[0] == word[0]);
    if value.len() > 0 {
        assert(line.last() == value.last());
    } else {
        assert(line.last() == word[word.len() - 1]);
    }
    text_law::law_white_space_is_trimmed(before, line, after);
}

/// A line is a key and, behind white space, a value, with white space around them and with or without two
/// dashes in front of the key. It changes what the lines before it came to, and an error names the line by
/// its number.
pub proof fn law_lines_are_keys_and_values(
    path: Seq<char>,
    all: Seq<Seq<char>>,
    before: Seq<char>,
    dashes: bool,
    key: Seq<char>,
    gap: Seq<char>,
    value: Seq<char>,
    after: Seq<char>,
)
    requires
        is_key(key),
        is_white(before) && is_white(gap) && is_white(after),
        gap.len() > 0 <==> value.len() > 0,
        value.len() > 0 ==> !text_law::is_white(value[0]) && !text_law::is_white(value.last()),
    ensures
        ({
            let word = if dashes {
                seq!['-', '-'] + key
            } else {
                key
            };
            let line = before + (word + gap + value) + after;
            let given = if value.len() > 0 {
                Some(value)
            } else {
                None
            };
            config::lines_effect(path, all.push(line)) == match config::lines_effect(path, all) {
                Err(e) => Err(e),
                Ok(m) => match config::line_effect(m, key, given) {
                    Ok(to) => Ok(to),
                    Err(message) => Err(
                        cli::config_file_error(
                            path + ":"@ + text::decimal(all.len() + 1) + ": "@ + message,
                        ),
                    ),
                },
            }
        }),
{
    let word = if dashes {
        seq!['-', '-'] + key
    } else {
        key
    };
    let core = word + gap + value;
    let line = before + core + after;
    assert forall|i: int| 0 <= i < word.len() implies !text_law::is_white(#[trigger] word[i]) by {
        if dashes && i >= 2 {
            assert(word[i] == key[i - 2]);
        } else if !dashes {
            assert(word[i] == key[i]);
        }
    }
    lemma_tight_line(before, word, gap, value, after);
    lemma_key_and_value(key, gap, value);
    assert(seq!['-', '-'] + key + gap + value =~= (seq!['-', '-'] + key) + gap + value);
    assert(all.push(line).last() == line);
    assert(all.push(line).drop_last() =~= all);
    assert(core[0] == word[0]);
    assert(core[0] != '#');
}

/// A file without lines gives the settings that there are without one.
pub proof fn law_empty_files_change_nothing(path: Seq<char>, file: FileContent, required: bool)
    ensures
        config::lines_effect(path, Seq::empty()) == Ok::<CliModel, CliErrorModel>(
            cli::default_settings(),
        ),
        file is NotFound && !required ==> config::file_effect(path, required, file) == Ok::<
            CliModel,
            CliErrorModel,
        >(cli::default_settings()),
        file is NotFound && required ==> config::file_effect(path, required, file) is Err,
        file is Failed ==> config::file_effect(path, required, file) is Err,
        file matches FileContent::Text(s) ==> config::file_effect(path, required, file)
            == config::lines_effect(path, text::lines(s@)),
{
}

/// The settings that there are without any being given: nothing is turned on, and the grace period is half
/// a second.
pub proof fn law_settings_without_any()
    ensures
        ({
            let m = cli::default_settings();
            &&& !m.subreaper && m.pdeath is None && m.verbosity == 0 && !m.warn_on_reap
            &&& !m.pgroup_kill && m.remap_exit.len() == 0 && m.grace_ms == 500
            &&& !m.write_restrict && m.write_allow.len() == 0 && m.write_preset.len() == 0
            &&& !m.restrict_warn_only && !m.write_no_dev
            &&& m.bind_tcp_allow.len() == 0 && m.connect_tcp_allow.len() == 0
            &&& !m.scope_signals && !m.scope_abstract_unix
            &&& m.exec_allow.len() == 0 && m.device_ioctl_allow.len() == 0 && !m.expand_env
            &&& !m.explain && !m.print_config && !m.write_config && !m.check_config && !m.no_config
            &&& m.cmd.len() == 0
        }),
{
}

/// The configuration file counts unless the command line asks for it to be left alone, checked, printed or
/// written. Then its settings come first, and the command line is read on top of them.
pub proof fn law_when_the_file_counts(argv: Seq<Seq<char>>, file: FileContent, m: CliModel)
    requires
        args::command_line(cli::default_settings(), argv) == Ok::<CliModel, CliErrorModel>(m),
    ensures
        ({
            let r = args::full_command_line(argv, file);
            if m.no_config || m.print_config || m.write_config || m.check_config {
                r == Ok::<CliModel, CliErrorModel>(m)
            } else {
                &&& file is NotFound ==> r == Ok::<CliModel, CliErrorModel>(m)
                &&& file is Failed ==> r is Err
                &&& file matches FileContent::Text(s) ==> match config::lines_effect(
                    "/etc/tino/tino.conf"@,
                    text::lines(s@),
                ) {
                    Ok(base) => r == args::command_line(base, argv),
                    Err(e) => r == Err::<CliModel, CliErrorModel>(e),
                }
            }
        }),
{
}

/// The name of the program is not read, and has to be there. A grace period does not go with the check of
/// the file.
pub proof fn law_first_word_is_the_program(base: CliModel, program: Seq<char>, rest: Seq<Seq<char>>)
    ensures
        args::command_line(base, Seq::empty()) is Err,
        args::command_line(base, seq![program] + rest) == match args::read_args(base, rest, 0, false) {
            Err(e) => Err(e),
            Ok(p) => if p.0.check_config && p.1 {
                Err(cli::message_error("--check-config does not accept --grace-ms"@))
            } else {
                Ok(p.0)
            },
        },
{
    assert((seq![program] + rest).skip(1) =~= rest);
}

// ---------------------------------------------------------------------------
// Writing
// ---------------------------------------------------------------------------

/// A text that a line can hold: no white space around it, and neither the end of a line nor a NUL in it.
pub open spec fn fits_a_line(v: Seq<char>) -> bool {
    v.len() > 0 && v == text::trim(v) && !v.contains('\n') && !v.contains('\r') && !v.contains('\0')
}

/// Whether all paths of a list can be written: those from the root, and bare names where they may be.
pub open spec fn can_be_written(paths: Seq<Seq<char>>, names: bool) -> bool {
    forall|i: int|
        0 <= i < paths.len() ==> fits_a_line(#[trigger] paths[i]) && (paths[i][0] == '/' || (names
            && !paths[i].contains('/')))
}

proof fn lemma_paths_written(key: Seq<char>, paths: Seq<Seq<char>>, names: bool)
    ensures
        config_text::path_entries(key, paths, names) is Ok <==> can_be_written(paths, names),
    decreases paths.len(),
{
    if paths.len() > 0 {
        let front = paths.drop_last();
        lemma_paths_written(key, front, names);
        assert forall|i: int| 0 <= i < front.len() implies front[i] == #[trigger] paths[i] by {}
        assert(paths.last() == paths[paths.len() - 1]);
        if can_be_written(paths, names) {
            assert forall|i: int| 0 <= i < front.len() implies fits_a_line(#[trigger] front[i]) && (
            front[i][0] == '/' || (names && !front[i].contains('/'))) by {
                assert(front[i] == paths[i]);
            }
        }
        if can_be_written(front, names) && config_text::path_complaint(
            key,
            paths.last(),
            names,
        ) is None {
            assert forall|i: int| 0 <= i < paths.len() implies fits_a_line(#[trigger] paths[i]) && (
            paths[i][0] == '/' || (names && !paths[i].contains('/'))) by {
                if i < front.len() {
                    assert(front[i] == paths[i]);
                }
            }
        }
    }
}

proof fn lemma_ports_written(key: Seq<char>, option: Seq<char>, ports: Seq<u16>)
    ensures
        config_text::port_entries(key, option, ports) is Ok <==> !ports.contains(0),
    decreases ports.len(),
{
    if ports.len() > 0 {
        let front = ports.drop_last();
        lemma_ports_written(key, option, front);
        if front.contains(0) {
            let i = choose|i: int| 0 <= i < front.len() && front[i] == 0;
            assert(ports[i] == 0);
        }
        if ports.contains(0) && ports.last() != 0 {
            let i = choose|i: int| 0 <= i < ports.len() && ports[i] == 0;
            assert(front[i] == 0);
        }
        if ports.last() == 0 {
            assert(ports[ports.len() - 1] == 0);
        }
    }
}

/// Settings can be written to a file exactly where each path of theirs fits a line and begins at the root,
/// or is a bare name where one may be, no port is 0, and the signal for the death of the parent is known.
pub proof fn law_settings_that_can_be_written(m: CliModel)
    ensures
        config_text::config_entries(m) is Ok <==> {
            &&& m.pdeath matches Some(raw) ==> text::trim(raw).len() > 0
                && crate::signals::signal_number(raw) is Some
            &&& can_be_written(m.write_allow, false)
            &&& can_be_written(m.exec_allow, true)
            &&& can_be_written(m.device_ioctl_allow, false)
            &&& !m.bind_tcp_allow.contains(0)
            &&& !m.connect_tcp_allow.contains(0)
        },
{
    lemma_paths_written("write-allow"@, m.write_allow, false);
    lemma_paths_written("exec-allow"@, m.exec_allow, true);
    lemma_paths_written("device-ioctl-allow"@, m.device_ioctl_allow, false);
    lemma_ports_written("bind-tcp-allow"@, "--bind-tcp-allow"@, m.bind_tcp_allow);
    lemma_ports_written("connect-tcp-allow"@, "--connect-tcp-allow"@, m.connect_tcp_allow);
    if let Some(raw) = m.pdeath {
        text::lemma_first_where_bounds(
            crate::signals::names(),
            crate::signals::equals(crate::signals::normal_name(raw)),
        );
    }
}

// ---------------------------------------------------------------------------
// Words
// ---------------------------------------------------------------------------

/// What is logged is told by its level and comes from this program.
pub proof fn law_lines_of_the_log(message: Seq<char>)
    ensures
        logging::log_line(Level::Warn, message) == "WARN"@ + " tino: "@ + message + "\n"@,
        logging::log_line(Level::Info, message) == "INFO"@ + " tino: "@ + message + "\n"@,
        logging::log_line(Level::Debug, message) == "DEBUG"@ + " tino: "@ + message + "\n"@,
{
}

/// The last words of a run tell the error with all that it came from, and where help is, after an error of
/// usage only.
pub proof fn law_last_words(e: error::ErrorModel)
    ensures
        e.usage ==> platform::last_words(e) == "ERROR tino: "@ + error::report_text(e.messages) + "\n"@
            + "Try 'tino --help' for usage.\n"@,
        !e.usage ==> platform::last_words(e) == "ERROR tino: "@ + error::report_text(e.messages)
            + "\n"@,
{
    if !e.usage {
        let s = "ERROR tino: "@ + error::report_text(e.messages) + "\n"@;
        assert(s + Seq::<char>::empty() =~= s);
    }
}

/// What is said of a command that cannot be run names the command, the error number and what it likely
/// means.
pub proof fn law_words_about_commands(program: Seq<u8>, errno: i32)
    requires
        errno >= 0,
    ensures
        ({
            let hint = if errno == 2 {
                ": file not found; check the path or PATH lookup"@
            } else if errno == 13 {
                ": permission denied or file is not executable"@
            } else if errno == 8 {
                ": file is not a recognized executable format"@
            } else if errno == 20 {
                ": a path component is not a directory"@
            } else if errno == 7 {
                ": argument list or environment is too large"@
            } else {
                Seq::empty()
            };
            report::exec_failure_text(program, errno) == "tino: execvp failed for '"@ + text::ascii_text(
                text::escape_raw(program),
            ) + "'"@ + hint + " (errno "@ + text::decimal(errno as nat) + ")\n"@
        }),
{
}

/// A command without words, or with a word that holds a NUL, is refused before anything is started.
pub proof fn law_words_that_are_refused(words: Seq<Seq<char>>)
    ensures
        launch::argv_fault(words) is None <==> words.len() > 0 && forall|i: int|
            0 <= i < words.len() ==> !(#[trigger] words[i]).contains('\0'),
{
}

/// What is said of a command line that cannot be read tells what is wrong with it and how it is used, and
/// of a file that cannot be read only what is wrong.
pub proof fn law_words_about_the_command_line(e: CliErrorModel)
    ensures
        e.kind == CliParseErrorKind::Message ==> cli::printed(e).1 == "error: "@ + e.message + "\n\n"@
            + "usage: tino [OPTIONS] [--] CMD [ARGS...]"@
            + "\nTry 'tino --help' for more information.\n"@,
        e.kind == CliParseErrorKind::Config ==> cli::printed(e).1 == "error: "@ + e.message + "\n"@,
{
}

/// What the environment turned on or off is logged as a detail, by the name of the variable.
pub proof fn law_words_about_the_environment(name: Seq<char>, on: bool, level: u8)
    ensures
        ({
            let log = EnvLogModel {
                subreaper_env: Some((name, on)),
                pgroup_env: None,
                verbosity_env: Some((name, level)),
                invalid_flags: Seq::empty(),
                verbosity_error: None,
            };
            let lines = env_defaults::log_lines(log);
            &&& lines.len() == 2
            &&& on ==> lines[0] == (Level::Debug, "subreaper"@ + " enabled via "@ + name)
            &&& !on ==> lines[0] == (Level::Debug, "subreaper"@ + " disabled via "@ + name)
            &&& lines[1] == (
                Level::Debug,
                "verbosity sourced from "@ + name + ": "@ + text::decimal(level as nat),
            )
        }),
{
}

/// What is said of restrictions that cannot be put on: whether the command is run all the same, and what is
/// the matter.
pub proof fn law_words_about_restrictions(e: LandlockError)
    ensures
        report::restriction_failure_text(true, e)
            == "tino: access restriction unavailable; continuing (backend landlock: "@
            + report::restriction_error_text(e) + ")\n"@,
        report::restriction_failure_text(false, e)
            == "tino: access restriction failed (backend landlock: "@
            + report::restriction_error_text(e) + ")\n"@,
{
}

/// What a refusal by the kernel may come from: 1 and 13 hint at a filter of system calls.
pub open spec fn filter_hint(errno: i32) -> Seq<char> {
    if errno == 1 || errno == 13 {
        "; blocked by seccomp?"@
    } else {
        Seq::empty()
    }
}

/// What is the matter is told by the call that failed, by what it was about and by the error number.
pub proof fn law_words_about_what_is_the_matter(e: LandlockError, errno: i32)
    requires
        errno >= 0,
    ensures
        ({
            let n = text::decimal(errno as nat);
            &&& e == LandlockError::NotSupported ==> report::restriction_error_text(e)
                == "not supported (kernel/LSM)"@
            &&& e == LandlockError::QueryAbi(errno) ==> report::restriction_error_text(e)
                == "query ABI errno "@ + n + filter_hint(errno)
            &&& e == LandlockError::CreateRuleset(errno) ==> report::restriction_error_text(e)
                == "create ruleset errno "@ + n + filter_hint(errno)
            &&& e == LandlockError::SetNoNewPrivs(errno) ==> report::restriction_error_text(e)
                == "PR_SET_NO_NEW_PRIVS errno "@ + n
            &&& e == LandlockError::RestrictSelf(errno) ==> report::restriction_error_text(e)
                == "restrict self errno "@ + n + filter_hint(errno)
            &&& e matches LandlockError::AbiTooOld { feature, required_abi, current_abi } ==> (
            report::restriction_error_text(e) == feature@ + " requires ABI "@ + text::decimal(
                required_abi as nat,
            ) + " but kernel reports ABI "@ + text::decimal(current_abi as nat))
            &&& e matches LandlockError::OpenPath { path, errno: x } ==> (x == errno
                ==> report::restriction_error_text(e) == "open "@ + text::ascii_text(
                text::escape_raw(path@),
            ) + " errno "@ + n)
            &&& e matches LandlockError::AddRule { path, errno: x } ==> (x == errno
                ==> report::restriction_error_text(e) == "add rule "@ + text::ascii_text(
                text::escape_raw(path@),
            ) + " errno "@ + n + filter_hint(errno))
            &&& e matches LandlockError::AddNetPortRule { port: q, action, errno: x } ==> (x == errno
                ==> report::restriction_error_text(e) == "add "@ + action@ + " rule for port "@
                + text::decimal(q as nat) + " errno "@ + n + filter_hint(errno))
        }),
{
}

/// What is logged of the restrictions of a command: what was skipped comes first, and then each directory,
/// port and path that is allowed.
pub proof fn law_restrictions_are_logged(p: PolicyModel, i: int)
    ensures
        ({
            let lines = launch::policy_lines(p);
            &&& lines.len() == p.notes.len() + 1 + p.writable_dirs.len() + p.bind_tcp_ports.len()
                + p.connect_tcp_ports.len() + p.exec_allow_paths.len()
                + p.device_ioctl_allow_paths.len()
            &&& 0 <= i < p.notes.len() ==> lines[i] == p.notes[i]
            &&& 0 <= i < p.writable_dirs.len() ==> lines.contains(
                "write allow dir: "@ + report::shown_path(p.writable_dirs[i]),
            )
            &&& 0 <= i < p.bind_tcp_ports.len() ==> lines.contains(
                "bind TCP allow port: "@ + text::decimal(p.bind_tcp_ports[i] as nat),
            )
            &&& 0 <= i < p.connect_tcp_ports.len() ==> lines.contains(
                "connect TCP allow port: "@ + text::decimal(p.connect_tcp_ports[i] as nat),
            )
            &&& 0 <= i < p.exec_allow_paths.len() ==> lines.contains(
                "exec allow path: "@ + report::shown_path(p.exec_allow_paths[i]),
            )
            &&& 0 <= i < p.device_ioctl_allow_paths.len() ==> lines.contains(
                "device ioctl allow path: "@ + report::shown_path(p.device_ioctl_allow_paths[i]),
            )
        }),
{
    let lines = launch::policy_lines(p);
    let a = p.notes.len() as int + 1;
    let b = a + p.writable_dirs.len();
    let c = b + p.bind_tcp_ports.len();
    let d = c + p.connect_tcp_ports.len();
    let e = d + p.exec_allow_paths.len();
    if 0 <= i < p.writable_dirs.len() {
        assert(lines[a + i] == "write allow dir: "@ + report::shown_path(p.writable_dirs[i]));
    }
    if 0 <= i < p.bind_tcp_ports.len() {
        assert(lines[b + i] == "bind TCP allow port: "@ + text::decimal(p.bind_tcp_ports[i] as nat));
    }
    if 0 <= i < p.connect_tcp_ports.len() {
        assert(lines[c + i] == "connect TCP allow port: "@ + text::decimal(
            p.connect_tcp_ports[i] as nat,
        ));
    }
    if 0 <= i < p.exec_allow_paths.len() {
        assert(lines[d + i] == "exec allow path: "@ + report::shown_path(p.exec_allow_paths[i]));
    }
    if 0 <= i < p.device_ioctl_allow_paths.len() {
        assert(lines[e + i] == "device ioctl allow path: "@ + report::shown_path(
            p.device_ioctl_allow_paths[i],
        ));
    }
}

} // verus!
