//! What is written as a configuration file is read back.

use vstd::prelude::*;

use crate::cli::{self, CliErrorModel, CliModel, Flag, ValueOption, WritePreset};
use crate::config;
use crate::config_keys;
use crate::config_text::{self, Entry};
use crate::signals;
use crate::text;

verus! {

/// What of the settings a configuration file can hold: signals are written by their full names,
/// verbosities above the highest level are that level, and neither a command nor anything that
/// only the command line can ask for is written.
pub open spec fn writable(m: CliModel) -> CliModel {
    CliModel {
        pdeath: match m.pdeath {
            Some(raw) => Some(cli::signal_text(raw)->Ok_0),
            None => None,
        },
        verbosity: config_text::capped(m.verbosity),
        explain: false,
        print_config: false,
        write_config: false,
        check_config: false,
        no_config: false,
        cmd: Seq::empty(),
        ..m
    }
}

// ---------------------------------------------------------------------------
// Lines
// ---------------------------------------------------------------------------

/// A value that stays as it is on a line.
pub open spec fn plain_value(v: Seq<char>) -> bool {
    &&& v.len() > 0
    &&& text::trim(v) == v
    &&& !v.contains('\n')
    &&& !v.contains('\r')
    &&& !v.contains('\0')
}

/// An entry whose line can be read.
pub open spec fn plain_entry(e: Entry) -> bool {
    config_keys::plain_key(e.key) && (e.value matches Some(v) ==> plain_value(v))
}

pub open spec fn plain_entries(es: Seq<Entry>) -> bool {
    forall|i: int| 0 <= i < es.len() ==> plain_entry(#[trigger] es[i])
}

proof fn lemma_entry_line(e: Entry)
    requires
        plain_entry(e),
    ensures
        ({
            let line = config_text::entry_line(e);
            &&& !line.contains('\n')
            &&& text::strip_return(line) == line
            &&& text::trim(line) == line
            &&& !config::is_blank(line)
            &&& config::line_key(line) == e.key
            &&& config::line_value(line) == e.value
        }),
{
    let line = config_text::entry_line(e);
    let n = e.key.len() as int;
    assert(line[0] == e.key[0]);
    assert forall|i: int| 0 <= i < line.len() implies line[i] != '\n' by {
        if i < n {
            assert(line[i] == e.key[i]);
        } else if i > n {
            assert(line[i] == e.value->0[i - n - 1]);
            assert(e.value->0.contains(line[i]));
        }
    }
    match e.value {
        None => {
            assert(line.last() == e.key[n - 1]);
            text::lemma_trim_fixed(line);
            text::lemma_first_where(line, text::space_pred(), n);
            assert(line.take(n) =~= e.key);
            assert(line.skip(n) =~= Seq::empty());
            assert(text::trim(line.skip(n)).len() == 0) by {
                text::lemma_trim_shape(line.skip(n));
            }
        },
        Some(v) => {
            text::lemma_trim_fixed(v);
            assert(line.last() == v.last());
            assert(v.contains(v.last()));
            text::lemma_trim_fixed(line);
            assert(line[n] == ' ');
            assert forall|i: int| 0 <= i < n implies !text::space_pred()(#[trigger] line[i]) by {
                assert(line[i] == e.key[i]);
            }
            text::lemma_first_where(line, text::space_pred(), n);
            assert(line.take(n) =~= e.key);
            let rest = line.skip(n);
            assert(rest =~= seq![' '] + v);
            assert(rest[0] == ' ');
            assert(rest.skip(1) =~= v);
            assert(text::trim_start(rest) == text::trim_start(v));
            assert(text::trim_start(v) == v);
        },
    }
    assert(config::line_key(line) == e.key) by {
        assert(e.key[0] != '-');
    }
}

/// The lines of entries.
pub open spec fn entry_lines(es: Seq<Entry>) -> Seq<Seq<char>> {
    Seq::new(es.len(), |i: int| config_text::entry_line(es[i]))
}

proof fn lemma_first_line(line: Seq<char>, rest: Seq<char>)
    requires
        !line.contains('\n'),
        text::strip_return(line) == line,
    ensures
        text::lines(line + seq!['\n'] + rest) == seq![line] + text::lines(rest),
{
    let s = line + seq!['\n'] + rest;
    let k = line.len() as int;
    assert forall|i: int| 0 <= i < k implies !text::is_char('\n')(#[trigger] s[i]) by {
        assert(s[i] == line[i]);
        assert(line.contains(line[i]));
    }
    assert(s[k] == '\n');
    text::lemma_first_where(s, text::is_char('\n'), k);
    assert(s.take(k) =~= line);
    assert(s.skip(k + 1) =~= rest);
}

proof fn lemma_lines_of_entries(es: Seq<Entry>)
    requires
        plain_entries(es),
    ensures
        text::lines(config_text::entries_text(es)) == entry_lines(es),
    decreases es.len(),
{
    if es.len() == 0 {
        assert(entry_lines(es) =~= Seq::empty());
    } else {
        let first = seq![es[0]];
        let rest = es.skip(1);
        assert(es =~= first + rest);
        assert(plain_entry(es[0]));
        assert forall|i: int| 0 <= i < rest.len() implies plain_entry(#[trigger] rest[i]) by {
            assert(rest[i] == es[i + 1]);
        }
        lemma_lines_of_entries(rest);
        config_text::lemma_entries_text_add(first, rest);
        reveal_with_fuel(config_text::entries_text, 2);
        let line = config_text::entry_line(es[0]);
        assert(first.drop_last() =~= Seq::empty());
        assert(config_text::entries_text(first) =~= line + seq!['\n']);
        lemma_entry_line(es[0]);
        lemma_first_line(line, config_text::entries_text(rest));
        assert(seq![line] + entry_lines(rest) =~= entry_lines(es));
    }
}

// ---------------------------------------------------------------------------
// Effects
// ---------------------------------------------------------------------------

/// The settings after the entries, read from `m` on.
pub open spec fn applied(m: CliModel, es: Seq<Entry>) -> Result<CliModel, Seq<char>>
    decreases es.len(),
{
    if es.len() == 0 {
        Ok(m)
    } else {
        match applied(m, es.drop_last()) {
            Err(e) => Err(e),
            Ok(x) => config::line_effect(x, es.last().key, es.last().value),
        }
    }
}

proof fn lemma_file_of_entries(path: Seq<char>, es: Seq<Entry>, m: CliModel)
    requires
        plain_entries(es),
        applied(cli::default_settings(), es) == Ok::<CliModel, Seq<char>>(m),
    ensures
        config::lines_effect(path, entry_lines(es)) == Ok::<CliModel, CliErrorModel>(m),
    decreases es.len(),
{
    let all = entry_lines(es);
    if es.len() > 0 {
        let front = es.drop_last();
        assert(applied(cli::default_settings(), front) is Ok);
        let x = applied(cli::default_settings(), front)->Ok_0;
        assert forall|i: int| 0 <= i < front.len() implies plain_entry(#[trigger] front[i]) by {
            assert(front[i] == es[i]);
        }
        lemma_file_of_entries(path, front, x);
        assert(all.drop_last() =~= entry_lines(front));
        assert(plain_entry(es[es.len() - 1]));
        lemma_entry_line(es.last());
    }
}

proof fn lemma_applied_add(m: CliModel, a: Seq<Entry>, b: Seq<Entry>)
    requires
        applied(m, a) is Ok,
    ensures
        applied(m, a + b) == applied(applied(m, a)->Ok_0, b),
    decreases b.len(),
{
    if b.len() == 0 {
        assert(a + b =~= a);
    } else {
        lemma_applied_add(m, a, b.drop_last());
        assert((a + b).drop_last() =~= a + b.drop_last());
        assert((a + b).last() == b.last());
    }
}

/// Entries that are read from `m` as `x`.
#[verifier::opaque]
pub open spec fn gives(m: CliModel, es: Seq<Entry>, x: CliModel) -> bool {
    plain_entries(es) && applied(m, es) == Ok::<CliModel, Seq<char>>(x)
}

proof fn lemma_gives_none(m: CliModel)
    ensures
        gives(m, Seq::empty(), m),
{
    reveal(gives);
}

proof fn lemma_gives_one(m: CliModel, e: Entry, x: CliModel)
    requires
        plain_entry(e),
        config::line_effect(m, e.key, e.value) == Ok::<CliModel, Seq<char>>(x),
    ensures
        gives(m, seq![e], x),
{
    reveal(gives);
    reveal_with_fuel(applied, 2);
    assert(seq![e].drop_last() =~= Seq::empty());
}

proof fn lemma_gives_add(m: CliModel, a: Seq<Entry>, x: CliModel, b: Seq<Entry>, y: CliModel)
    requires
        gives(m, a, x),
        gives(x, b, y),
    ensures
        gives(m, a + b, y),
{
    reveal(gives);
    lemma_applied_add(m, a, b);
    assert forall|i: int| 0 <= i < (a + b).len() implies plain_entry(#[trigger] (a + b)[i]) by {
        if i < a.len() {
            assert((a + b)[i] == a[i]);
        } else {
            assert((a + b)[i] == b[i - a.len()]);
        }
    }
}

proof fn lemma_flag(m: CliModel, on: bool, key: Seq<char>, f: Flag)
    requires
        config_keys::plain_key(key),
        config::key_meaning(key) == config::ConfigKey::Flag(f),
    ensures
        gives(m, config_text::flag_entry(on, key), if on {
            cli::with_flag(m, f)
        } else {
            m
        }),
{
    if on {
        lemma_gives_one(m, Entry { key, value: None }, cli::with_flag(m, f));
    } else {
        lemma_gives_none(m);
    }
}

proof fn lemma_decimal_plain(n: nat)
    ensures
        plain_value(text::decimal(n)),
{
    text::lemma_decimal_shape(n);
    let d = text::decimal(n);
    assert(text::is_digit(d[0]) && text::is_digit(d[d.len() - 1]));
    text::lemma_trim_fixed(d);
    assert forall|c: char| d.contains(c) implies text::is_digit(c) by {
        let i = choose|i: int| 0 <= i < d.len() && d[i] == c;
        assert(text::is_digit(d[i]));
    }
}

proof fn lemma_number(m: CliModel, key: Seq<char>, n: nat, max: nat)
    requires
        n <= max,
    ensures
        config::value_complaint(key, text::decimal(n)) is None,
        config::line_number(key, text::decimal(n), max) == Ok::<nat, Seq<char>>(n),
{
    lemma_decimal_plain(n);
    text::lemma_decimal_read_back(n, max);
}

proof fn lemma_codes(m: CliModel, codes: Seq<u8>)
    ensures
        gives(
            m,
            config_text::code_entries(codes),
            CliModel { remap_exit: m.remap_exit + codes, ..m },
        ),
    decreases codes.len(),
{
    if codes.len() == 0 {
        assert(m.remap_exit + codes =~= m.remap_exit);
        lemma_gives_none(m);
    } else {
        let front = codes.drop_last();
        lemma_codes(m, front);
        let x = CliModel { remap_exit: m.remap_exit + front, ..m };
        let y = CliModel { remap_exit: m.remap_exit + codes, ..m };
        config_keys::lemma_key_remap_exit();
        lemma_number(x, "remap-exit"@, codes.last() as nat, 255);
        lemma_decimal_plain(codes.last() as nat);
        let e = config_text::entry("remap-exit"@, text::decimal(codes.last() as nat));
        assert((m.remap_exit + front).push(codes.last()) =~= m.remap_exit + codes);
        lemma_gives_one(x, e, y);
        lemma_gives_add(m, config_text::code_entries(front), x, seq![e], y);
        assert(config_text::code_entries(front) + seq![e] =~= config_text::code_entries(codes));
    }
}

proof fn lemma_preset_name(p: WritePreset)
    ensures
        plain_value(cli::preset_name(p)),
        cli::preset_of(cli::preset_name(p)) == Ok::<WritePreset, Seq<char>>(p),
{
    reveal_strlit("tmp");
    reveal_strlit("runtime");
    assert("tmp"@ =~= seq!['t', 'm', 'p']);
    assert("runtime"@ =~= seq!['r', 'u', 'n', 't', 'i', 'm', 'e']);
    text::lemma_trim_fixed(cli::preset_name(p));
}

proof fn lemma_presets(m: CliModel, presets: Seq<WritePreset>)
    ensures
        gives(
            m,
            config_text::preset_entries(presets),
            CliModel { write_preset: m.write_preset + presets, ..m },
        ),
    decreases presets.len(),
{
    if presets.len() == 0 {
        assert(m.write_preset + presets =~= m.write_preset);
        lemma_gives_none(m);
    } else {
        let front = presets.drop_last();
        lemma_presets(m, front);
        let x = CliModel { write_preset: m.write_preset + front, ..m };
        let y = CliModel { write_preset: m.write_preset + presets, ..m };
        config_keys::lemma_key_write_preset();
        lemma_preset_name(presets.last());
        let e = config_text::entry("write-preset"@, cli::preset_name(presets.last()));
        assert((m.write_preset + front).push(presets.last()) =~= m.write_preset + presets);
        lemma_gives_one(x, e, y);
        lemma_gives_add(m, config_text::preset_entries(front), x, seq![e], y);
        assert(config_text::preset_entries(front) + seq![e] =~= config_text::preset_entries(
            presets,
        ));
    }
}

/// The settings with more paths.
pub open spec fn with_paths(m: CliModel, option: ValueOption, paths: Seq<Seq<char>>) -> CliModel {
    match option {
        ValueOption::WriteAllow => CliModel { write_allow: m.write_allow + paths, ..m },
        ValueOption::ExecAllow => CliModel { exec_allow: m.exec_allow + paths, ..m },
        _ => CliModel { device_ioctl_allow: m.device_ioctl_allow + paths, ..m },
    }
}

proof fn lemma_path_step(m: CliModel, option: ValueOption, paths: Seq<Seq<char>>)
    requires
        paths.len() > 0,
    ensures
        cli::with_path(with_paths(m, option, paths.drop_last()), option, paths.last())
            == with_paths(m, option, paths),
{
    let front = paths.drop_last();
    let v = paths.last();
    match option {
        ValueOption::WriteAllow => {
            assert((m.write_allow + front).push(v) =~= m.write_allow + paths);
        },
        ValueOption::ExecAllow => {
            assert((m.exec_allow + front).push(v) =~= m.exec_allow + paths);
        },
        _ => {
            assert((m.device_ioctl_allow + front).push(v) =~= m.device_ioctl_allow + paths);
        },
    }
}

proof fn lemma_no_paths(m: CliModel, option: ValueOption)
    ensures
        with_paths(m, option, Seq::empty()) == m,
{
    assert(m.write_allow + Seq::<Seq<char>>::empty() =~= m.write_allow);
    assert(m.exec_allow + Seq::<Seq<char>>::empty() =~= m.exec_allow);
    assert(m.device_ioctl_allow + Seq::<Seq<char>>::empty() =~= m.device_ioctl_allow);
}

proof fn lemma_path_line(m: CliModel, option: ValueOption, key: Seq<char>, v: Seq<char>)
    requires
        option == ValueOption::WriteAllow || option == ValueOption::ExecAllow || option
            == ValueOption::DeviceIoctlAllow,
        config_keys::plain_key(key),
        config::key_meaning(key) == config::ConfigKey::Value(option),
        config_text::text_complaint(key, v) is None,
    ensures
        gives(m, seq![config_text::entry(key, v)], cli::with_path(m, option, v)),
{
    lemma_gives_one(m, config_text::entry(key, v), cli::with_path(m, option, v));
}

proof fn lemma_paths(
    m: CliModel,
    option: ValueOption,
    key: Seq<char>,
    paths: Seq<Seq<char>>,
    names: bool,
)
    requires
        option == ValueOption::WriteAllow || option == ValueOption::ExecAllow || option
            == ValueOption::DeviceIoctlAllow,
        config_keys::plain_key(key),
        config::key_meaning(key) == config::ConfigKey::Value(option),
        config_text::path_entries(key, paths, names) is Ok,
    ensures
        gives(
            m,
            config_text::path_entries(key, paths, names)->Ok_0,
            with_paths(m, option, paths),
        ),
    decreases paths.len(),
{
    if paths.len() == 0 {
        assert(paths =~= Seq::empty());
        lemma_no_paths(m, option);
        lemma_gives_none(m);
    } else {
        let front = paths.drop_last();
        lemma_paths(m, option, key, front, names);
        let x = with_paths(m, option, front);
        let y = with_paths(m, option, paths);
        let v = paths.last();
        assert(config_text::text_complaint(key, v) is None);
        let e = config_text::entry(key, v);
        lemma_path_step(m, option, paths);
        lemma_path_line(x, option, key, v);
        let done = config_text::path_entries(key, front, names)->Ok_0;
        lemma_gives_add(m, done, x, seq![e], y);
        assert(done + seq![e] =~= done.push(e));
    }
}

/// The settings with more ports.
pub open spec fn with_ports(m: CliModel, option: ValueOption, ports: Seq<u16>) -> CliModel {
    match option {
        ValueOption::BindTcpAllow => CliModel { bind_tcp_allow: m.bind_tcp_allow + ports, ..m },
        _ => CliModel { connect_tcp_allow: m.connect_tcp_allow + ports, ..m },
    }
}

proof fn lemma_port_step(m: CliModel, option: ValueOption, ports: Seq<u16>)
    requires
        ports.len() > 0,
    ensures
        cli::with_port(with_ports(m, option, ports.drop_last()), option, ports.last())
            == with_ports(m, option, ports),
{
    let front = ports.drop_last();
    let p = ports.last();
    match option {
        ValueOption::BindTcpAllow => {
            assert((m.bind_tcp_allow + front).push(p) =~= m.bind_tcp_allow + ports);
        },
        _ => {
            assert((m.connect_tcp_allow + front).push(p) =~= m.connect_tcp_allow + ports);
        },
    }
}

proof fn lemma_no_ports(m: CliModel, option: ValueOption)
    ensures
        with_ports(m, option, Seq::empty()) == m,
{
    assert(m.bind_tcp_allow + Seq::<u16>::empty() =~= m.bind_tcp_allow);
    assert(m.connect_tcp_allow + Seq::<u16>::empty() =~= m.connect_tcp_allow);
}

proof fn lemma_port_line(m: CliModel, option: ValueOption, key: Seq<char>, p: u16)
    requires
        option == ValueOption::BindTcpAllow || option == ValueOption::ConnectTcpAllow,
        config_keys::plain_key(key),
        config::key_meaning(key) == config::ConfigKey::Value(option),
        p != 0,
    ensures
        gives(
            m,
            seq![config_text::entry(key, text::decimal(p as nat))],
            cli::with_port(m, option, p),
        ),
{
    lemma_number(m, key, p as nat, 65535);
    lemma_decimal_plain(p as nat);
    lemma_gives_one(
        m,
        config_text::entry(key, text::decimal(p as nat)),
        cli::with_port(m, option, p),
    );
}

proof fn lemma_ports(
    m: CliModel,
    option: ValueOption,
    key: Seq<char>,
    long: Seq<char>,
    ports: Seq<u16>,
)
    requires
        option == ValueOption::BindTcpAllow || option == ValueOption::ConnectTcpAllow,
        config_keys::plain_key(key),
        config::key_meaning(key) == config::ConfigKey::Value(option),
        config_text::port_entries(key, long, ports) is Ok,
    ensures
        gives(
            m,
            config_text::port_entries(key, long, ports)->Ok_0,
            with_ports(m, option, ports),
        ),
    decreases ports.len(),
{
    if ports.len() == 0 {
        assert(ports =~= Seq::empty());
        lemma_no_ports(m, option);
        lemma_gives_none(m);
    } else {
        let front = ports.drop_last();
        lemma_ports(m, option, key, long, front);
        let x = with_ports(m, option, front);
        let y = with_ports(m, option, ports);
        let p = ports.last();
        let e = config_text::entry(key, text::decimal(p as nat));
        lemma_port_step(m, option, ports);
        lemma_port_line(x, option, key, p);
        let done = config_text::port_entries(key, long, front)->Ok_0;
        lemma_gives_add(m, done, x, seq![e], y);
        assert(done + seq![e] =~= done.push(e));
    }
}

proof fn lemma_signal(m: CliModel, pdeath: Option<Seq<char>>)
    requires
        m.pdeath is None,
        config_text::signal_entries(pdeath) is Ok,
    ensures
        gives(
            m,
            config_text::signal_entries(pdeath)->Ok_0,
            CliModel {
                pdeath: match pdeath {
                    Some(raw) => Some(cli::signal_text(raw)->Ok_0),
                    None => None,
                },
                ..m
            },
        ),
{
    match pdeath {
        None => {
            lemma_gives_none(m);
        },
        Some(raw) => {
            let s = cli::signal_text(raw)->Ok_0;
            signals::lemma_full_name(raw);
            assert(signals::is_capital(s[0]));
            assert forall|c: char| s.contains(c) implies signals::is_capital(c) by {
                let i = choose|i: int| 0 <= i < s.len() && s[i] == c;
                assert(signals::is_capital(s[i]));
            }
            config_keys::lemma_key_pdeath();
            lemma_gives_one(m, config_text::entry("pdeath"@, s), cli::with_signal(m, s));
        },
    }
}

proof fn lemma_verbosity(m: CliModel, verbosity: u8)
    requires
        m.verbosity == 0,
    ensures
        gives(
            m,
            config_text::verbosity_entries(verbosity),
            CliModel { verbosity: config_text::capped(verbosity), ..m },
        ),
{
    if verbosity > 0 {
        let v = config_text::capped(verbosity);
        config_keys::lemma_key_verbosity();
        lemma_number(m, "verbosity"@, v as nat, 255);
        lemma_decimal_plain(v as nat);
        lemma_gives_one(
            m,
            config_text::entry("verbosity"@, text::decimal(v as nat)),
            cli::with_verbosity(m, v),
        );
    } else {
        lemma_gives_none(m);
    }
}

proof fn lemma_grace(m: CliModel, grace_ms: u64)
    requires
        m.grace_ms == 500,
    ensures
        gives(m, config_text::grace_entries(grace_ms), CliModel { grace_ms, ..m }),
{
    if grace_ms != 500 {
        config_keys::lemma_key_grace_ms();
        lemma_number(m, "grace-ms"@, grace_ms as nat, 18446744073709551615);
        lemma_decimal_plain(grace_ms as nat);
        lemma_gives_one(
            m,
            config_text::entry("grace-ms"@, text::decimal(grace_ms as nat)),
            cli::with_grace(m, grace_ms),
        );
    } else {
        lemma_gives_none(m);
    }
}

#[verifier::rlimit(40)]
proof fn lemma_command_part(d: CliModel, m: CliModel)
    requires
        d == cli::default_settings(),
        config_text::command_entries(m) is Ok,
    ensures
        gives(
            d,
            config_text::command_entries(m)->Ok_0,
            CliModel {
                subreaper: m.subreaper,
                pdeath: writable(m).pdeath,
                verbosity: writable(m).verbosity,
                warn_on_reap: m.warn_on_reap,
                pgroup_kill: m.pgroup_kill,
                remap_exit: m.remap_exit,
                grace_ms: m.grace_ms,
                ..d
            },
        ),
{
    let e1 = config_text::flag_entry(m.subreaper, "subreaper"@);
    let e2 = config_text::signal_entries(m.pdeath)->Ok_0;
    let e3 = config_text::verbosity_entries(m.verbosity);
    let e4 = config_text::flag_entry(m.warn_on_reap, "warn-on-reap"@);
    let e5 = config_text::flag_entry(m.pgroup_kill, "pgroup-kill"@);
    let e6 = config_text::code_entries(m.remap_exit);
    let e7 = config_text::grace_entries(m.grace_ms);
    let m1 = CliModel { subreaper: m.subreaper, ..d };
    let m2 = CliModel { pdeath: writable(m).pdeath, ..m1 };
    let m3 = CliModel { verbosity: writable(m).verbosity, ..m2 };
    let m4 = CliModel { warn_on_reap: m.warn_on_reap, ..m3 };
    let m5 = CliModel { pgroup_kill: m.pgroup_kill, ..m4 };
    let m6 = CliModel { remap_exit: m.remap_exit, ..m5 };
    let m7 = CliModel { grace_ms: m.grace_ms, ..m6 };
    config_keys::lemma_key_subreaper();
    lemma_flag(d, m.subreaper, "subreaper"@, Flag::Subreaper);
    assert(gives(d, e1, m1));
    lemma_signal(m1, m.pdeath);
    assert(gives(m1, e2, m2));
    lemma_verbosity(m2, m.verbosity);
    config_keys::lemma_key_warn_on_reap();
    lemma_flag(m3, m.warn_on_reap, "warn-on-reap"@, Flag::WarnOnReap);
    assert(gives(m3, e4, m4));
    config_keys::lemma_key_pgroup_kill();
    lemma_flag(m4, m.pgroup_kill, "pgroup-kill"@, Flag::PgroupKill);
    assert(gives(m4, e5, m5));
    lemma_codes(m5, m.remap_exit);
    assert(m5.remap_exit + m.remap_exit =~= m.remap_exit);
    assert(gives(m5, e6, m6));
    lemma_grace(m6, m.grace_ms);
    assert(gives(m6, e7, m7));
    lemma_gives_add(m2, e3, m3, e4, m4);
    lemma_gives_add(m2, e3 + e4, m4, e5, m5);
    lemma_gives_add(m2, e3 + e4 + e5, m5, e6, m6);
    lemma_gives_add(m2, e3 + e4 + e5 + e6, m6, e7, m7);
    let tail = e3 + e4 + e5 + e6 + e7;
    lemma_gives_add(m1, e2, m2, tail, m7);
    lemma_gives_add(d, e1, m1, e2 + tail, m7);
}

proof fn lemma_write_paths(d: CliModel, m: CliModel)
    requires
        d.write_restrict == false,
        d.write_allow == Seq::<Seq<char>>::empty(),
        config_text::path_entries("write-allow"@, m.write_allow, false) is Ok,
    ensures
        gives(
            d,
            config_text::flag_entry(m.write_restrict, "write-restrict"@)
                + config_text::path_entries("write-allow"@, m.write_allow, false)->Ok_0,
            CliModel { write_restrict: m.write_restrict, write_allow: m.write_allow, ..d },
        ),
{
    let e1 = config_text::flag_entry(m.write_restrict, "write-restrict"@);
    let e2 = config_text::path_entries("write-allow"@, m.write_allow, false)->Ok_0;
    let m1 = CliModel { write_restrict: m.write_restrict, ..d };
    let m2 = CliModel { write_allow: m.write_allow, ..m1 };
    config_keys::lemma_key_write_restrict();
    lemma_flag(d, m.write_restrict, "write-restrict"@, Flag::WriteRestrict);
    assert(gives(d, e1, m1));
    config_keys::lemma_key_write_allow();
    lemma_paths(m1, ValueOption::WriteAllow, "write-allow"@, m.write_allow, false);
    assert(m1.write_allow + m.write_allow =~= m.write_allow);
    assert(gives(m1, e2, m2));
    lemma_gives_add(d, e1, m1, e2, m2);
}

proof fn lemma_write_rest(d: CliModel, m: CliModel)
    requires
        d.write_preset == Seq::<WritePreset>::empty(),
        d.restrict_warn_only == false,
        d.write_no_dev == false,
    ensures
        gives(
            d,
            config_text::preset_entries(m.write_preset) + config_text::flag_entry(
                m.restrict_warn_only,
                "restrict-warn-only"@,
            ) + config_text::flag_entry(m.write_no_dev, "write-no-dev"@),
            CliModel {
                write_preset: m.write_preset,
                restrict_warn_only: m.restrict_warn_only,
                write_no_dev: m.write_no_dev,
                ..d
            },
        ),
{
    let e3 = config_text::preset_entries(m.write_preset);
    let e4 = config_text::flag_entry(m.restrict_warn_only, "restrict-warn-only"@);
    let e5 = config_text::flag_entry(m.write_no_dev, "write-no-dev"@);
    let m3 = CliModel { write_preset: m.write_preset, ..d };
    let m4 = CliModel { restrict_warn_only: m.restrict_warn_only, ..m3 };
    let m5 = CliModel { write_no_dev: m.write_no_dev, ..m4 };
    lemma_presets(d, m.write_preset);
    assert(d.write_preset + m.write_preset =~= m.write_preset);
    assert(gives(d, e3, m3));
    config_keys::lemma_key_restrict_warn_only();
    lemma_flag(m3, m.restrict_warn_only, "restrict-warn-only"@, Flag::RestrictWarnOnly);
    assert(gives(m3, e4, m4));
    config_keys::lemma_key_write_no_dev();
    lemma_flag(m4, m.write_no_dev, "write-no-dev"@, Flag::WriteNoDev);
    assert(gives(m4, e5, m5));
    lemma_gives_add(d, e3, m3, e4, m4);
    lemma_gives_add(d, e3 + e4, m4, e5, m5);
}

proof fn lemma_write_part(d: CliModel, m: CliModel)
    requires
        d.write_restrict == false,
        d.write_allow == Seq::<Seq<char>>::empty(),
        d.write_preset == Seq::<WritePreset>::empty(),
        d.restrict_warn_only == false,
        d.write_no_dev == false,
        config_text::write_entries(m) is Ok,
    ensures
        gives(
            d,
            config_text::write_entries(m)->Ok_0,
            CliModel {
                write_restrict: m.write_restrict,
                write_allow: m.write_allow,
                write_preset: m.write_preset,
                restrict_warn_only: m.restrict_warn_only,
                write_no_dev: m.write_no_dev,
                ..d
            },
        ),
{
    let front = config_text::flag_entry(m.write_restrict, "write-restrict"@);
    let paths = config_text::path_entries("write-allow"@, m.write_allow, false)->Ok_0;
    let rest = config_text::preset_entries(m.write_preset) + config_text::flag_entry(
        m.restrict_warn_only,
        "restrict-warn-only"@,
    ) + config_text::flag_entry(m.write_no_dev, "write-no-dev"@);
    let m1 = CliModel { write_restrict: m.write_restrict, write_allow: m.write_allow, ..d };
    let m2 = CliModel {
        write_preset: m.write_preset,
        restrict_warn_only: m.restrict_warn_only,
        write_no_dev: m.write_no_dev,
        ..m1
    };
    lemma_write_paths(d, m);
    lemma_write_rest(m1, m);
    lemma_gives_add(d, front + paths, m1, rest, m2);
    assert(front + paths + rest =~= front + (paths + rest));
}

#[verifier::rlimit(40)]
proof fn lemma_network_part(d: CliModel, m: CliModel)
    requires
        d.bind_tcp_allow == Seq::<u16>::empty(),
        d.connect_tcp_allow == Seq::<u16>::empty(),
        d.scope_signals == false,
        d.scope_abstract_unix == false,
        config_text::network_entries(m) is Ok,
    ensures
        gives(
            d,
            config_text::network_entries(m)->Ok_0,
            CliModel {
                bind_tcp_allow: m.bind_tcp_allow,
                connect_tcp_allow: m.connect_tcp_allow,
                scope_signals: m.scope_signals,
                scope_abstract_unix: m.scope_abstract_unix,
                ..d
            },
        ),
{
    let e1 = config_text::port_entries(
        "bind-tcp-allow"@,
        "--bind-tcp-allow"@,
        m.bind_tcp_allow,
    )->Ok_0;
    let e2 = config_text::port_entries(
        "connect-tcp-allow"@,
        "--connect-tcp-allow"@,
        m.connect_tcp_allow,
    )->Ok_0;
    let e3 = config_text::flag_entry(m.scope_signals, "scope-signals"@);
    let e4 = config_text::flag_entry(m.scope_abstract_unix, "scope-abstract-unix"@);
    let m1 = CliModel { bind_tcp_allow: m.bind_tcp_allow, ..d };
    let m2 = CliModel { connect_tcp_allow: m.connect_tcp_allow, ..m1 };
    let m3 = CliModel { scope_signals: m.scope_signals, ..m2 };
    let m4 = CliModel { scope_abstract_unix: m.scope_abstract_unix, ..m3 };
    config_keys::lemma_key_bind_tcp_allow();
    lemma_ports(
        d,
        ValueOption::BindTcpAllow,
        "bind-tcp-allow"@,
        "--bind-tcp-allow"@,
        m.bind_tcp_allow,
    );
    assert(d.bind_tcp_allow + m.bind_tcp_allow =~= m.bind_tcp_allow);
    assert(gives(d, e1, m1));
    config_keys::lemma_key_connect_tcp_allow();
    lemma_ports(
        m1,
        ValueOption::ConnectTcpAllow,
        "connect-tcp-allow"@,
        "--connect-tcp-allow"@,
        m.connect_tcp_allow,
    );
    assert(m1.connect_tcp_allow + m.connect_tcp_allow =~= m.connect_tcp_allow);
    assert(gives(m1, e2, m2));
    config_keys::lemma_key_scope_signals();
    lemma_flag(m2, m.scope_signals, "scope-signals"@, Flag::ScopeSignals);
    assert(gives(m2, e3, m3));
    config_keys::lemma_key_scope_abstract_unix();
    lemma_flag(m3, m.scope_abstract_unix, "scope-abstract-unix"@, Flag::ScopeAbstractUnix);
    assert(gives(m3, e4, m4));
    lemma_gives_add(m2, e3, m3, e4, m4);
    lemma_gives_add(m1, e2, m2, e3 + e4, m4);
    lemma_gives_add(d, e1, m1, e2 + (e3 + e4), m4);
}

proof fn lemma_exec_part(d: CliModel, m: CliModel)
    requires
        d.exec_allow == Seq::<Seq<char>>::empty(),
        d.device_ioctl_allow == Seq::<Seq<char>>::empty(),
        d.expand_env == false,
        config_text::exec_entries(m) is Ok,
    ensures
        gives(
            d,
            config_text::exec_entries(m)->Ok_0,
            CliModel {
                exec_allow: m.exec_allow,
                device_ioctl_allow: m.device_ioctl_allow,
                expand_env: m.expand_env,
                ..d
            },
        ),
{
    let e1 = config_text::path_entries("exec-allow"@, m.exec_allow, true)->Ok_0;
    let e2 = config_text::path_entries("device-ioctl-allow"@, m.device_ioctl_allow, false)->Ok_0;
    let e3 = config_text::flag_entry(m.expand_env, "expand-env"@);
    let m1 = CliModel { exec_allow: m.exec_allow, ..d };
    let m2 = CliModel { device_ioctl_allow: m.device_ioctl_allow, ..m1 };
    let m3 = CliModel { expand_env: m.expand_env, ..m2 };
    config_keys::lemma_key_exec_allow();
    lemma_paths(d, ValueOption::ExecAllow, "exec-allow"@, m.exec_allow, true);
    assert(d.exec_allow + m.exec_allow =~= m.exec_allow);
    assert(gives(d, e1, m1));
    config_keys::lemma_key_device_ioctl_allow();
    lemma_paths(
        m1,
        ValueOption::DeviceIoctlAllow,
        "device-ioctl-allow"@,
        m.device_ioctl_allow,
        false,
    );
    assert(m1.device_ioctl_allow + m.device_ioctl_allow =~= m.device_ioctl_allow);
    assert(gives(m1, e2, m2));
    config_keys::lemma_key_expand_env();
    lemma_flag(m2, m.expand_env, "expand-env"@, Flag::ExpandEnv);
    assert(gives(m2, e3, m3));
    lemma_gives_add(m1, e2, m2, e3, m3);
    lemma_gives_add(d, e1, m1, e2 + e3, m3);
}

/// Whatever settings are written as a configuration file, reading the file gives them back, as
/// far as a file can hold them.
pub proof fn law_written_config_is_read_back(path: Seq<char>, m: CliModel)
    requires
        config_text::config_entries(m) is Ok,
    ensures
        config::content_effect(
            path,
            config_text::entries_text(config_text::config_entries(m)->Ok_0),
        ) == Ok::<CliModel, CliErrorModel>(writable(m)),
{
    let d = cli::default_settings();
    let a = config_text::command_entries(m)->Ok_0;
    let b = config_text::write_entries(m)->Ok_0;
    let c = config_text::network_entries(m)->Ok_0;
    let e = config_text::exec_entries(m)->Ok_0;
    let m1 = CliModel {
        subreaper: m.subreaper,
        pdeath: writable(m).pdeath,
        verbosity: writable(m).verbosity,
        warn_on_reap: m.warn_on_reap,
        pgroup_kill: m.pgroup_kill,
        remap_exit: m.remap_exit,
        grace_ms: m.grace_ms,
        ..d
    };
    let m2 = CliModel {
        write_restrict: m.write_restrict,
        write_allow: m.write_allow,
        write_preset: m.write_preset,
        restrict_warn_only: m.restrict_warn_only,
        write_no_dev: m.write_no_dev,
        ..m1
    };
    let m3 = CliModel {
        bind_tcp_allow: m.bind_tcp_allow,
        connect_tcp_allow: m.connect_tcp_allow,
        scope_signals: m.scope_signals,
        scope_abstract_unix: m.scope_abstract_unix,
        ..m2
    };
    let m4 = CliModel {
        exec_allow: m.exec_allow,
        device_ioctl_allow: m.device_ioctl_allow,
        expand_env: m.expand_env,
        ..m3
    };
    lemma_command_part(d, m);
    lemma_write_part(m1, m);
    lemma_network_part(m2, m);
    lemma_exec_part(m3, m);
    assert(m4 == writable(m));
    lemma_gives_add(m2, c, m3, e, m4);
    lemma_gives_add(m1, b, m2, c + e, m4);
    lemma_gives_add(d, a, m1, b + (c + e), m4);
    let es = a + (b + (c + e));
    reveal(gives);
    lemma_lines_of_entries(es);
    lemma_file_of_entries(path, es, m4);
}

/// A blank line or a comment changes nothing, wherever it stands in a file.
pub proof fn law_blank_lines_are_ignored(
    path: Seq<char>,
    before: Seq<Seq<char>>,
    line: Seq<char>,
    after: Seq<Seq<char>>,
)
    requires
        config::is_blank(text::trim(line)),
    ensures
        config::lines_effect(path, before.push(line) + after) is Ok <==> config::lines_effect(
            path,
            before + after,
        ) is Ok,
        config::lines_effect(path, before + after) is Ok ==> config::lines_effect(
            path,
            before.push(line) + after,
        ) == config::lines_effect(path, before + after),
    decreases after.len(),
{
    let with = before.push(line) + after;
    let without = before + after;
    if after.len() == 0 {
        assert(with.drop_last() =~= before);
        assert(without =~= before);
        assert(with.last() == line);
    } else {
        law_blank_lines_are_ignored(path, before, line, after.drop_last());
        assert(with.drop_last() =~= before.push(line) + after.drop_last());
        assert(without.drop_last() =~= before + after.drop_last());
        assert(with.last() == without.last());
    }
}

} // verus!
