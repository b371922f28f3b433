//! How the command line and the configuration file go together.

use vstd::prelude::*;

use crate::args::{self, Choice, Parsed};
use crate::cli::{self, CliErrorModel, CliModel, Flag, ValueOption, WritePreset};
use crate::config::FileContent;

verus! {

/// The settings `given` on top of the settings `base`: flags only enable, lists append, and
/// scalars override where they were given. `grace` says whether a grace period was given.
#[verifier::opaque]
pub open spec fn merged(base: CliModel, given: CliModel, grace: bool) -> CliModel {
    CliModel {
        subreaper: base.subreaper || given.subreaper,
        pdeath: if given.pdeath is Some {
            given.pdeath
        } else {
            base.pdeath
        },
        verbosity: counted(base.verbosity, given.verbosity),
        warn_on_reap: base.warn_on_reap || given.warn_on_reap,
        pgroup_kill: base.pgroup_kill || given.pgroup_kill,
        remap_exit: base.remap_exit + given.remap_exit,
        grace_ms: if grace {
            given.grace_ms
        } else {
            base.grace_ms
        },
        write_restrict: base.write_restrict || given.write_restrict,
        write_allow: base.write_allow + given.write_allow,
        write_preset: base.write_preset + given.write_preset,
        restrict_warn_only: base.restrict_warn_only || given.restrict_warn_only,
        write_no_dev: base.write_no_dev || given.write_no_dev,
        bind_tcp_allow: base.bind_tcp_allow + given.bind_tcp_allow,
        connect_tcp_allow: base.connect_tcp_allow + given.connect_tcp_allow,
        scope_signals: base.scope_signals || given.scope_signals,
        scope_abstract_unix: base.scope_abstract_unix || given.scope_abstract_unix,
        exec_allow: base.exec_allow + given.exec_allow,
        device_ioctl_allow: base.device_ioctl_allow + given.device_ioctl_allow,
        expand_env: base.expand_env || given.expand_env,
        explain: base.explain || given.explain,
        print_config: base.print_config || given.print_config,
        write_config: base.write_config || given.write_config,
        check_config: base.check_config || given.check_config,
        no_config: base.no_config || given.no_config,
        cmd: base.cmd + given.cmd,
    }
}

/// Two counts of the verbosity option, up to the largest number there is.
pub open spec fn counted(a: u8, b: u8) -> u8 {
    if a + b > 255 {
        255
    } else {
        (a + b) as u8
    }
}

/// What reading arguments onto `base` comes to, from what reading them on their own comes to.
pub open spec fn on_top(base: CliModel, r: Result<Parsed, CliErrorModel>) -> Result<
    Parsed,
    CliErrorModel,
> {
    match r {
        Ok((given, grace)) => Ok((merged(base, given, grace), grace)),
        Err(e) => Err(e),
    }
}

proof fn lemma_supervision_flag(m: CliModel, c: CliModel, g: bool, f: Flag)
    requires
        f == Flag::Subreaper || f == Flag::WarnOnReap || f == Flag::PgroupKill || f == Flag::ExpandEnv,
    ensures
        cli::with_flag(merged(m, c, g), f) == merged(m, cli::with_flag(c, f), g),
{
    reveal(merged);
    match f {
        Flag::Subreaper => {
            assert(cli::with_flag(merged(m, c, g), f) == (CliModel {
                subreaper: true,
                ..merged(m, c, g)
            }));
        },
        Flag::WarnOnReap => {
            assert(cli::with_flag(merged(m, c, g), f) == (CliModel {
                warn_on_reap: true,
                ..merged(m, c, g)
            }));
        },
        Flag::PgroupKill => {
            assert(cli::with_flag(merged(m, c, g), f) == (CliModel {
                pgroup_kill: true,
                ..merged(m, c, g)
            }));
        },
        _ => {
            assert(cli::with_flag(merged(m, c, g), f) == (CliModel {
                expand_env: true,
                ..merged(m, c, g)
            }));
        },
    }
}

proof fn lemma_restriction_flag(m: CliModel, c: CliModel, g: bool, f: Flag)
    requires
        f == Flag::WriteRestrict || f == Flag::RestrictWarnOnly || f == Flag::WriteNoDev || f == Flag::ScopeSignals || f == Flag::ScopeAbstractUnix,
    ensures
        cli::with_flag(merged(m, c, g), f) == merged(m, cli::with_flag(c, f), g),
{
    reveal(merged);
    match f {
        Flag::WriteRestrict => {
            assert(cli::with_flag(merged(m, c, g), f) == (CliModel {
                write_restrict: true,
                ..merged(m, c, g)
            }));
        },
        Flag::RestrictWarnOnly => {
            assert(cli::with_flag(merged(m, c, g), f) == (CliModel {
                restrict_warn_only: true,
                ..merged(m, c, g)
            }));
        },
        Flag::WriteNoDev => {
            assert(cli::with_flag(merged(m, c, g), f) == (CliModel {
                write_no_dev: true,
                ..merged(m, c, g)
            }));
        },
        Flag::ScopeSignals => {
            assert(cli::with_flag(merged(m, c, g), f) == (CliModel {
                scope_signals: true,
                ..merged(m, c, g)
            }));
        },
        _ => {
            assert(cli::with_flag(merged(m, c, g), f) == (CliModel {
                scope_abstract_unix: true,
                ..merged(m, c, g)
            }));
        },
    }
}

proof fn lemma_control_flag(m: CliModel, c: CliModel, g: bool, f: Flag)
    requires
        f == Flag::Explain || f == Flag::PrintConfig || f == Flag::WriteConfig || f == Flag::CheckConfig || f == Flag::NoConfig,
    ensures
        cli::with_flag(merged(m, c, g), f) == merged(m, cli::with_flag(c, f), g),
{
    reveal(merged);
    match f {
        Flag::Explain => {
            assert(cli::with_flag(merged(m, c, g), f) == (CliModel {
                explain: true,
                ..merged(m, c, g)
            }));
        },
        Flag::PrintConfig => {
            assert(cli::with_flag(merged(m, c, g), f) == (CliModel {
                print_config: true,
                ..merged(m, c, g)
            }));
        },
        Flag::WriteConfig => {
            assert(cli::with_flag(merged(m, c, g), f) == (CliModel {
                write_config: true,
                ..merged(m, c, g)
            }));
        },
        Flag::CheckConfig => {
            assert(cli::with_flag(merged(m, c, g), f) == (CliModel {
                check_config: true,
                ..merged(m, c, g)
            }));
        },
        _ => {
            assert(cli::with_flag(merged(m, c, g), f) == (CliModel {
                no_config: true,
                ..merged(m, c, g)
            }));
        },
    }
}

proof fn lemma_flag(m: CliModel, c: CliModel, g: bool, f: Flag)
    ensures
        cli::with_flag(merged(m, c, g), f) == merged(m, cli::with_flag(c, f), g),
{
    match f {
        Flag::Subreaper | Flag::WarnOnReap | Flag::PgroupKill | Flag::ExpandEnv => {
            lemma_supervision_flag(m, c, g, f);
        },
        Flag::WriteRestrict | Flag::RestrictWarnOnly | Flag::WriteNoDev | Flag::ScopeSignals | Flag::ScopeAbstractUnix => {
            lemma_restriction_flag(m, c, g, f);
        },
        Flag::Explain | Flag::PrintConfig | Flag::WriteConfig | Flag::CheckConfig | Flag::NoConfig => {
            lemma_control_flag(m, c, g, f);
        },
    }
}

proof fn lemma_verbose(m: CliModel, c: CliModel, g: bool)
    ensures
        args::more_verbose(merged(m, c, g)) == merged(m, args::more_verbose(c), g),
{
    reveal(merged);
}

proof fn lemma_signal(m: CliModel, c: CliModel, g: bool, s: Seq<char>)
    ensures
        cli::with_signal(merged(m, c, g), s) == merged(m, cli::with_signal(c, s), g),
{
    reveal(merged);
}

proof fn lemma_grace(m: CliModel, c: CliModel, g: bool, n: u64)
    ensures
        cli::with_grace(merged(m, c, g), n) == merged(m, cli::with_grace(c, n), true),
{
    reveal(merged);
}

proof fn lemma_exit_code(m: CliModel, c: CliModel, g: bool, n: u8)
    ensures
        cli::with_exit_code(merged(m, c, g), n) == merged(m, cli::with_exit_code(c, n), g),
{
    reveal(merged);
    assert((m.remap_exit + c.remap_exit).push(n) =~= m.remap_exit + c.remap_exit.push(n));
}

proof fn lemma_preset(m: CliModel, c: CliModel, g: bool, p: WritePreset)
    ensures
        cli::with_preset(merged(m, c, g), p) == merged(m, cli::with_preset(c, p), g),
{
    reveal(merged);
    assert((m.write_preset + c.write_preset).push(p) =~= m.write_preset + c.write_preset.push(p));
}

proof fn lemma_write_path(m: CliModel, c: CliModel, g: bool, s: Seq<char>)
    ensures
        (CliModel { write_allow: merged(m, c, g).write_allow.push(s), ..merged(m, c, g) }) == merged(
            m,
            CliModel { write_allow: c.write_allow.push(s), ..c },
            g,
        ),
{
    reveal(merged);
    assert((m.write_allow + c.write_allow).push(s) =~= m.write_allow + c.write_allow.push(s));
}

proof fn lemma_exec_path(m: CliModel, c: CliModel, g: bool, s: Seq<char>)
    ensures
        (CliModel { exec_allow: merged(m, c, g).exec_allow.push(s), ..merged(m, c, g) }) == merged(
            m,
            CliModel { exec_allow: c.exec_allow.push(s), ..c },
            g,
        ),
{
    reveal(merged);
    assert((m.exec_allow + c.exec_allow).push(s) =~= m.exec_allow + c.exec_allow.push(s));
}

proof fn lemma_device_path(m: CliModel, c: CliModel, g: bool, s: Seq<char>)
    ensures
        (CliModel { device_ioctl_allow: merged(m, c, g).device_ioctl_allow.push(s), ..merged(m, c, g) }) == merged(
            m,
            CliModel { device_ioctl_allow: c.device_ioctl_allow.push(s), ..c },
            g,
        ),
{
    reveal(merged);
    assert((m.device_ioctl_allow + c.device_ioctl_allow).push(s) =~= m.device_ioctl_allow + c.device_ioctl_allow.push(s));
}

proof fn lemma_path(m: CliModel, c: CliModel, g: bool, option: ValueOption, s: Seq<char>)
    ensures
        cli::with_path(merged(m, c, g), option, s) == merged(m, cli::with_path(c, option, s), g),
{
    lemma_write_path(m, c, g, s);
    lemma_exec_path(m, c, g, s);
    lemma_device_path(m, c, g, s);
}

proof fn lemma_bind_port(m: CliModel, c: CliModel, g: bool, p: u16)
    ensures
        (CliModel { bind_tcp_allow: merged(m, c, g).bind_tcp_allow.push(p), ..merged(m, c, g) }) == merged(
            m,
            CliModel { bind_tcp_allow: c.bind_tcp_allow.push(p), ..c },
            g,
        ),
{
    reveal(merged);
    assert((m.bind_tcp_allow + c.bind_tcp_allow).push(p) =~= m.bind_tcp_allow + c.bind_tcp_allow.push(p));
}

proof fn lemma_connect_port(m: CliModel, c: CliModel, g: bool, p: u16)
    ensures
        (CliModel { connect_tcp_allow: merged(m, c, g).connect_tcp_allow.push(p), ..merged(m, c, g) }) == merged(
            m,
            CliModel { connect_tcp_allow: c.connect_tcp_allow.push(p), ..c },
            g,
        ),
{
    reveal(merged);
    assert((m.connect_tcp_allow + c.connect_tcp_allow).push(p) =~= m.connect_tcp_allow + c.connect_tcp_allow.push(p));
}

proof fn lemma_port(m: CliModel, c: CliModel, g: bool, option: ValueOption, p: u16)
    ensures
        cli::with_port(merged(m, c, g), option, p) == merged(m, cli::with_port(c, option, p), g),
{
    lemma_bind_port(m, c, g, p);
    lemma_connect_port(m, c, g, p);
}

proof fn lemma_command(m: CliModel, c: CliModel, g: bool, s: Seq<char>, rest: Seq<Seq<char>>)
    ensures
        args::with_command(merged(m, c, g), s, rest) == merged(
            m,
            args::with_command(c, s, rest),
            g,
        ),
{
    reveal(merged);
    assert((m.cmd + c.cmd).push(s) + rest =~= m.cmd + (c.cmd.push(s) + rest));
}

/// What a value of an option does on top of `m`, from what it does on its own.
spec fn value_on_top(m: CliModel, r: Result<CliModel, CliErrorModel>, g: bool) -> Result<
    CliModel,
    CliErrorModel,
> {
    match r {
        Ok(c) => Ok(merged(m, c, g)),
        Err(e) => Err(e),
    }
}

proof fn lemma_value(
    m: CliModel,
    c: CliModel,
    g: bool,
    option: ValueOption,
    a: Seq<Seq<char>>,
    read: nat,
)
    ensures
        args::value_effect(merged(m, c, g), option, a, read) == value_on_top(
            m,
            args::value_effect(c, option, a, read),
            g || option == ValueOption::GraceMs,
        ),
{
    match option {
        ValueOption::RemapExit => {
            if args::number_at(a, read, 255) is Ok {
                lemma_exit_code(m, c, g, args::number_at(a, read, 255)->Ok_0 as u8);
            }
        },
        ValueOption::GraceMs => {
            if args::number_at(a, read, 18446744073709551615) is Ok {
                lemma_grace(m, c, g, args::number_at(a, read, 18446744073709551615)->Ok_0 as u64);
            }
        },
        ValueOption::BindTcpAllow | ValueOption::ConnectTcpAllow => {
            if args::number_at(a, read, 65535) is Ok {
                lemma_port(m, c, g, option, args::number_at(a, read, 65535)->Ok_0 as u16);
            }
        },
        _ => {
            if args::value_at(a, read) is Ok {
                let v = args::value_at(a, read)->Ok_0;
                lemma_path(m, c, g, option, v);
                if cli::signal_text(v) is Ok {
                    lemma_signal(m, c, g, cli::signal_text(v)->Ok_0);
                }
                if cli::preset_of(v) is Ok {
                    lemma_preset(m, c, g, cli::preset_of(v)->Ok_0);
                }
            }
        },
    }
}

proof fn lemma_read_args(m: CliModel, c: CliModel, a: Seq<Seq<char>>, read: nat, g: bool)
    ensures
        args::read_args(merged(m, c, g), a, read, g) == on_top(
            m,
            args::read_args(c, a, read, g),
        ),
    decreases a.len(), args::left_to_read(a, read),
{
    match args::token_at(a, read) {
        Err(_) => {},
        Ok(None) => {},
        Ok(Some(t)) => {
            let goes_on = args::group_goes_on(a, read);
            match args::choice(t) {
                Choice::Flag(f) => {
                    lemma_flag(m, c, g, f);
                    if goes_on {
                        lemma_read_args(m, cli::with_flag(c, f), a, read + 1, g);
                    } else {
                        lemma_read_args(m, cli::with_flag(c, f), a.skip(1), 0, g);
                    }
                },
                Choice::Verbose => {
                    lemma_verbose(m, c, g);
                    if goes_on {
                        lemma_read_args(m, args::more_verbose(c), a, read + 1, g);
                    } else {
                        lemma_read_args(m, args::more_verbose(c), a.skip(1), 0, g);
                    }
                },
                Choice::Value(option) => {
                    lemma_value(m, c, g, option, a, read);
                    if args::value_effect(c, option, a, read) is Ok {
                        let x = args::value_effect(c, option, a, read)->Ok_0;
                        let h = g || option == ValueOption::GraceMs;
                        lemma_read_args(m, x, args::left_behind_value(a, read), 0, h);
                    }
                },
                Choice::Command => {
                    if t is Value {
                        lemma_command(m, c, g, t->Value_0, args::left_behind(a, read));
                    }
                },
                _ => {},
            }
        },
    }
}

proof fn lemma_nothing_given(base: CliModel)
    ensures
        merged(base, cli::default_settings(), false) == base,
{
    reveal(merged);
    assert(base.remap_exit + cli::default_settings().remap_exit =~= base.remap_exit);
    assert(base.write_allow + cli::default_settings().write_allow =~= base.write_allow);
    assert(base.write_preset + cli::default_settings().write_preset =~= base.write_preset);
    assert(base.bind_tcp_allow + cli::default_settings().bind_tcp_allow =~= base.bind_tcp_allow);
    assert(base.connect_tcp_allow + cli::default_settings().connect_tcp_allow =~= base.connect_tcp_allow);
    assert(base.exec_allow + cli::default_settings().exec_allow =~= base.exec_allow);
    assert(base.device_ioctl_allow + cli::default_settings().device_ioctl_allow =~= base.device_ioctl_allow);
    assert(base.cmd + cli::default_settings().cmd =~= base.cmd);
}

/// A command line is read onto settings just as it is read on its own: what it gives goes on top
/// of what is there. Flags only enable, lists append, and scalars override.
pub proof fn law_command_line_goes_on_top(base: CliModel, a: Seq<Seq<char>>)
    ensures
        args::read_args(base, a, 0, false) == on_top(
            base,
            args::read_args(cli::default_settings(), a, 0, false),
        ),
{
    lemma_nothing_given(base);
    lemma_read_args(base, cli::default_settings(), a, 0, false);
}

/// Behind two dashes everything is the command and its arguments, whatever it looks like.
pub proof fn law_all_behind_dashes_is_the_command(m: CliModel, rest: Seq<Seq<char>>, grace: bool)
    requires
        rest.len() > 0,
    ensures
        args::read_args(m, seq![seq!['-', '-']] + rest, 0, grace) == Ok::<
            args::Parsed,
            CliErrorModel,
        >((CliModel { cmd: m.cmd + rest, ..m }, grace)),
{
    let a = seq![seq!['-', '-']] + rest;
    assert(a[0] == seq!['-', '-']);
    assert(a[1] == rest[0]);
    assert(a.skip(2) =~= rest.skip(1));
    assert(m.cmd.push(rest[0]) + rest.skip(1) =~= m.cmd + rest);
}

/// The first argument that is no option begins the command, and all that follow belong to it,
/// whatever they look like.
pub proof fn law_first_plain_argument_begins_the_command(
    m: CliModel,
    a: Seq<Seq<char>>,
    grace: bool,
)
    requires
        a.len() > 0,
        !args::is_group(a[0]),
        !args::is_long(a[0]),
        a[0] != seq!['-', '-'],
    ensures
        args::read_args(m, a, 0, grace) == Ok::<args::Parsed, CliErrorModel>(
            (CliModel { cmd: m.cmd + a, ..m }, grace),
        ),
{
    assert(m.cmd.push(a[0]) + a.skip(1) =~= m.cmd + a);
}

/// Where the command line asks for the configuration file to be left alone, the file does not
/// matter.
pub proof fn law_skipped_file_does_not_matter(argv: Seq<Seq<char>>, file: FileContent)
    requires
        args::command_line(cli::default_settings(), argv) matches Ok(m) ==> args::skips_file(m),
    ensures
        args::full_command_line(argv, file) == args::command_line(cli::default_settings(), argv),
{
}

} // verus!
