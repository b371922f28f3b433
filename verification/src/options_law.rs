//! What each option of the command line and each line of a configuration file does, by its name.

use vstd::prelude::*;

use crate::args::{self, Choice};
use crate::cli::{self, CliModel, CliParseErrorKind, Flag, ValueOption, WritePreset};
use crate::config;
use crate::config_keys;
use crate::text;

verus! {

/// An argument that is a long option.
pub open spec fn long(name: Seq<char>) -> Seq<char> {
    seq!['-', '-'] + name
}

/// Whether an argument in front of others turns the settings `m` into `to`, and nothing else.
#[verifier::opaque]
pub open spec fn turns(m: CliModel, a: Seq<char>, rest: Seq<Seq<char>>, grace: bool, to: CliModel) -> bool {
    args::read_args(m, seq![a] + rest, 0, grace) == args::read_args(to, rest, 0, grace)
}

/// Whether an option with a value in front of others turns the settings `m` into `to`, with the value
/// behind it and with the value attached to it.
#[verifier::opaque]
pub open spec fn turns_with(
    m: CliModel,
    name: Seq<char>,
    v: Seq<char>,
    rest: Seq<Seq<char>>,
    grace: bool,
    to: CliModel,
) -> bool {
    &&& args::read_args(m, seq![long(name), v] + rest, 0, grace) == args::read_args(to, rest, 0, grace)
    &&& args::read_args(m, seq![long(name) + seq!['='] + v] + rest, 0, grace) == args::read_args(
        to,
        rest,
        0,
        grace,
    )
}

/// A name that can be told from a value that is attached to it.
spec fn is_option_name(name: Seq<char>) -> bool {
    name.len() > 0 && forall|i: int| 0 <= i < name.len() ==> #[trigger] name[i] != '='
}

proof fn lemma_option_names()
    ensures
        is_option_name("subreaper"@),
        is_option_name("warn-on-reap"@),
        is_option_name("pgroup-kill"@),
        is_option_name("write-restrict"@),
        is_option_name("restrict-warn-only"@),
        is_option_name("write-no-dev"@),
        is_option_name("scope-signals"@),
        is_option_name("scope-abstract-unix"@),
        is_option_name("expand-env"@),
        is_option_name("explain"@),
        is_option_name("print-config"@),
        is_option_name("write-config"@),
        is_option_name("check-config"@),
        is_option_name("no-config"@),
        is_option_name("parent-death-signal"@),
        is_option_name("remap-exit"@),
        is_option_name("grace-ms"@),
        is_option_name("write-allow"@),
        is_option_name("write-preset"@),
        is_option_name("bind-tcp-allow"@),
        is_option_name("connect-tcp-allow"@),
        is_option_name("exec-allow"@),
        is_option_name("device-ioctl-allow"@),
        is_option_name("help"@),
        is_option_name("version"@),
        is_option_name("verbose"@),
        config_keys::mark("verbose"@) == (7nat, 'v', 'e'),
{
    assert(is_option_name("subreaper"@)) by {
        reveal_strlit("subreaper");
    }
    assert(is_option_name("warn-on-reap"@)) by {
        reveal_strlit("warn-on-reap");
    }
    assert(is_option_name("pgroup-kill"@)) by {
        reveal_strlit("pgroup-kill");
    }
    assert(is_option_name("write-restrict"@)) by {
        reveal_strlit("write-restrict");
    }
    assert(is_option_name("restrict-warn-only"@)) by {
        reveal_strlit("restrict-warn-only");
    }
    assert(is_option_name("write-no-dev"@)) by {
        reveal_strlit("write-no-dev");
    }
    assert(is_option_name("scope-signals"@)) by {
        reveal_strlit("scope-signals");
    }
    assert(is_option_name("scope-abstract-unix"@)) by {
        reveal_strlit("scope-abstract-unix");
    }
    assert(is_option_name("expand-env"@)) by {
        reveal_strlit("expand-env");
    }
    assert(is_option_name("explain"@)) by {
        reveal_strlit("explain");
    }
    assert(is_option_name("print-config"@)) by {
        reveal_strlit("print-config");
    }
    assert(is_option_name("write-config"@)) by {
        reveal_strlit("write-config");
    }
    assert(is_option_name("check-config"@)) by {
        reveal_strlit("check-config");
    }
    assert(is_option_name("no-config"@)) by {
        reveal_strlit("no-config");
    }
    assert(is_option_name("parent-death-signal"@)) by {
        reveal_strlit("parent-death-signal");
    }
    assert(is_option_name("remap-exit"@)) by {
        reveal_strlit("remap-exit");
    }
    assert(is_option_name("grace-ms"@)) by {
        reveal_strlit("grace-ms");
    }
    assert(is_option_name("write-allow"@)) by {
        reveal_strlit("write-allow");
    }
    assert(is_option_name("write-preset"@)) by {
        reveal_strlit("write-preset");
    }
    assert(is_option_name("bind-tcp-allow"@)) by {
        reveal_strlit("bind-tcp-allow");
    }
    assert(is_option_name("connect-tcp-allow"@)) by {
        reveal_strlit("connect-tcp-allow");
    }
    assert(is_option_name("exec-allow"@)) by {
        reveal_strlit("exec-allow");
    }
    assert(is_option_name("device-ioctl-allow"@)) by {
        reveal_strlit("device-ioctl-allow");
    }
    assert(is_option_name("help"@)) by {
        reveal_strlit("help");
    }
    assert(is_option_name("version"@)) by {
        reveal_strlit("version");
    }
    assert(is_option_name("verbose"@)) by {
        reveal_strlit("verbose");
    }
    assert(config_keys::mark("verbose"@) == (7nat, 'v', 'e')) by {
        reveal_strlit("verbose");
    }
}

proof fn lemma_long_token(name: Seq<char>, rest: Seq<Seq<char>>)
    requires
        is_option_name(name),
    ensures
        args::token_at(seq![long(name)] + rest, 0) == Ok::<Option<args::TokenModel>, Seq<char>>(
            Some(args::TokenModel::Long(name)),
        ),
        !args::has_attached(seq![long(name)] + rest),
        !args::group_goes_on(seq![long(name)] + rest, 0),
        (seq![long(name)] + rest).skip(1) == rest,
        args::long_value(long(name)) is None,
{
    let a = long(name);
    assert(a.skip(2) =~= name);
    assert forall|i: int| 0 <= i < name.len() implies !text::is_char('=')(#[trigger] name[i]) by {}
    text::lemma_first_where(name, text::is_char('='), name.len() as int);
    assert(name.take(name.len() as int) =~= name);
    assert((seq![a] + rest)[0] == a);
    assert((seq![a] + rest).skip(1) =~= rest);
    assert forall|i: int| 0 <= i < a.len() implies a[i] != '=' by {
        if i >= 2 {
            assert(a[i] == name[i - 2]);
        }
    }
}

proof fn lemma_flag(m: CliModel, name: Seq<char>, f: Flag, rest: Seq<Seq<char>>, grace: bool)
    requires
        is_option_name(name),
        args::long_choice(name) == Choice::Flag(f),
    ensures
        turns(m, long(name), rest, grace, cli::with_flag(m, f)),
{
    reveal(turns);
    lemma_long_token(name, rest);
}

proof fn lemma_flag_choices()
    ensures
        args::long_choice("subreaper"@) == Choice::Flag(Flag::Subreaper),
        args::long_choice("warn-on-reap"@) == Choice::Flag(Flag::WarnOnReap),
        args::long_choice("pgroup-kill"@) == Choice::Flag(Flag::PgroupKill),
        args::long_choice("write-restrict"@) == Choice::Flag(Flag::WriteRestrict),
        args::long_choice("restrict-warn-only"@) == Choice::Flag(Flag::RestrictWarnOnly),
        args::long_choice("write-no-dev"@) == Choice::Flag(Flag::WriteNoDev),
        args::long_choice("scope-signals"@) == Choice::Flag(Flag::ScopeSignals),
        args::long_choice("scope-abstract-unix"@) == Choice::Flag(Flag::ScopeAbstractUnix),
        args::long_choice("expand-env"@) == Choice::Flag(Flag::ExpandEnv),
        args::long_choice("explain"@) == Choice::Flag(Flag::Explain),
        args::long_choice("print-config"@) == Choice::Flag(Flag::PrintConfig),
        args::long_choice("write-config"@) == Choice::Flag(Flag::WriteConfig),
        args::long_choice("check-config"@) == Choice::Flag(Flag::CheckConfig),
        args::long_choice("no-config"@) == Choice::Flag(Flag::NoConfig),
{
    config_keys::lemma_marks();
    lemma_option_names();
}

/// Each flag turns one setting on and leaves the others.
pub proof fn law_flags(m: CliModel, rest: Seq<Seq<char>>, grace: bool)
    ensures
        turns(m, long("subreaper"@), rest, grace, CliModel { subreaper: true, ..m }),
        turns(m, long("warn-on-reap"@), rest, grace, CliModel { warn_on_reap: true, ..m }),
        turns(m, long("pgroup-kill"@), rest, grace, CliModel { pgroup_kill: true, ..m }),
        turns(m, long("write-restrict"@), rest, grace, CliModel { write_restrict: true, ..m }),
        turns(m, long("restrict-warn-only"@), rest, grace, CliModel { restrict_warn_only: true, ..m }),
        turns(m, long("write-no-dev"@), rest, grace, CliModel { write_no_dev: true, ..m }),
        turns(m, long("scope-signals"@), rest, grace, CliModel { scope_signals: true, ..m }),
        turns(m, long("scope-abstract-unix"@), rest, grace, CliModel { scope_abstract_unix: true, ..m }),
        turns(m, long("expand-env"@), rest, grace, CliModel { expand_env: true, ..m }),
        turns(m, long("explain"@), rest, grace, CliModel { explain: true, ..m }),
        turns(m, long("print-config"@), rest, grace, CliModel { print_config: true, ..m }),
        turns(m, long("write-config"@), rest, grace, CliModel { write_config: true, ..m }),
        turns(m, long("check-config"@), rest, grace, CliModel { check_config: true, ..m }),
        turns(m, long("no-config"@), rest, grace, CliModel { no_config: true, ..m }),
{
    assert(turns(m, long("subreaper"@), rest, grace, CliModel { subreaper: true, ..m })) by {
        lemma_option_names();
        lemma_flag_choices();
        lemma_flag(m, "subreaper"@, Flag::Subreaper, rest, grace);
    }
    assert(turns(m, long("warn-on-reap"@), rest, grace, CliModel { warn_on_reap: true, ..m })) by {
        lemma_option_names();
        lemma_flag_choices();
        lemma_flag(m, "warn-on-reap"@, Flag::WarnOnReap, rest, grace);
    }
    assert(turns(m, long("pgroup-kill"@), rest, grace, CliModel { pgroup_kill: true, ..m })) by {
        lemma_option_names();
        lemma_flag_choices();
        lemma_flag(m, "pgroup-kill"@, Flag::PgroupKill, rest, grace);
    }
    assert(turns(m, long("write-restrict"@), rest, grace, CliModel { write_restrict: true, ..m })) by {
        lemma_option_names();
        lemma_flag_choices();
        lemma_flag(m, "write-restrict"@, Flag::WriteRestrict, rest, grace);
    }
    assert(turns(m, long("restrict-warn-only"@), rest, grace, CliModel { restrict_warn_only: true, ..m })) by {
        lemma_option_names();
        lemma_flag_choices();
        lemma_flag(m, "restrict-warn-only"@, Flag::RestrictWarnOnly, rest, grace);
    }
    assert(turns(m, long("write-no-dev"@), rest, grace, CliModel { write_no_dev: true, ..m })) by {
        lemma_option_names();
        lemma_flag_choices();
        lemma_flag(m, "write-no-dev"@, Flag::WriteNoDev, rest, grace);
    }
    assert(turns(m, long("scope-signals"@), rest, grace, CliModel { scope_signals: true, ..m })) by {
        lemma_option_names();
        lemma_flag_choices();
        lemma_flag(m, "scope-signals"@, Flag::ScopeSignals, rest, grace);
    }
    assert(turns(m, long("scope-abstract-unix"@), rest, grace, CliModel { scope_abstract_unix: true, ..m })) by {
        lemma_option_names();
        lemma_flag_choices();
        lemma_flag(m, "scope-abstract-unix"@, Flag::ScopeAbstractUnix, rest, grace);
    }
    assert(turns(m, long("expand-env"@), rest, grace, CliModel { expand_env: true, ..m })) by {
        lemma_option_names();
        lemma_flag_choices();
        lemma_flag(m, "expand-env"@, Flag::ExpandEnv, rest, grace);
    }
    assert(turns(m, long("explain"@), rest, grace, CliModel { explain: true, ..m })) by {
        lemma_option_names();
        lemma_flag_choices();
        lemma_flag(m, "explain"@, Flag::Explain, rest, grace);
    }
    assert(turns(m, long("print-config"@), rest, grace, CliModel { print_config: true, ..m })) by {
        lemma_option_names();
        lemma_flag_choices();
        lemma_flag(m, "print-config"@, Flag::PrintConfig, rest, grace);
    }
    assert(turns(m, long("write-config"@), rest, grace, CliModel { write_config: true, ..m })) by {
        lemma_option_names();
        lemma_flag_choices();
        lemma_flag(m, "write-config"@, Flag::WriteConfig, rest, grace);
    }
    assert(turns(m, long("check-config"@), rest, grace, CliModel { check_config: true, ..m })) by {
        lemma_option_names();
        lemma_flag_choices();
        lemma_flag(m, "check-config"@, Flag::CheckConfig, rest, grace);
    }
    assert(turns(m, long("no-config"@), rest, grace, CliModel { no_config: true, ..m })) by {
        lemma_option_names();
        lemma_flag_choices();
        lemma_flag(m, "no-config"@, Flag::NoConfig, rest, grace);
    }
}

/// Each short flag does what its long one does.
pub proof fn law_short_flags(m: CliModel, rest: Seq<Seq<char>>, grace: bool)
    ensures
        turns(m, seq!['-', 's'], rest, grace, CliModel { subreaper: true, ..m }),
        turns(m, seq!['-', 'w'], rest, grace, CliModel { warn_on_reap: true, ..m }),
        turns(m, seq!['-', 'g'], rest, grace, CliModel { pgroup_kill: true, ..m }),
{
    assert(turns(m, seq!['-', 's'], rest, grace, CliModel { subreaper: true, ..m })) by {
        lemma_short(m, 's', rest, grace);
    }
    assert(turns(m, seq!['-', 'w'], rest, grace, CliModel { warn_on_reap: true, ..m })) by {
        lemma_short(m, 'w', rest, grace);
    }
    assert(turns(m, seq!['-', 'g'], rest, grace, CliModel { pgroup_kill: true, ..m })) by {
        lemma_short(m, 'g', rest, grace);
    }
}

/// How often more is to be logged is counted, up to 255, by either name.
pub proof fn law_verbosity_is_counted(
    m: CliModel,
    more: CliModel,
    rest: Seq<Seq<char>>,
    grace: bool,
)
    requires
        more == (CliModel { verbosity: more.verbosity, ..m }),
        more.verbosity == m.verbosity + 1 || (m.verbosity == 255 && more.verbosity == 255),
    ensures
        turns(m, seq!['-', 'v'], rest, grace, more),
        turns(m, long("verbose"@), rest, grace, more),
{
    assert(args::more_verbose(m) == more);
    lemma_short(m, 'v', rest, grace);
    lemma_verbose(m, rest, grace);
}

proof fn lemma_verbose(m: CliModel, rest: Seq<Seq<char>>, grace: bool)
    ensures
        turns(m, long("verbose"@), rest, grace, args::more_verbose(m)),
{
    reveal(turns);
    lemma_option_names();
    config_keys::lemma_marks();
    lemma_long_token("verbose"@, rest);
}

proof fn lemma_short(m: CliModel, c: char, rest: Seq<Seq<char>>, grace: bool)
    requires
        args::is_ascii(c),
        c != '-',
    ensures
        args::short_choice(c) matches Choice::Flag(f) ==> turns(
            m,
            seq!['-', c],
            rest,
            grace,
            cli::with_flag(m, f),
        ),
        args::short_choice(c) is Verbose ==> turns(
            m,
            seq!['-', c],
            rest,
            grace,
            args::more_verbose(m),
        ),
{
    reveal(turns);
    let a = seq!['-', c];
    assert((seq![a] + rest)[0] == a);
    assert((seq![a] + rest).skip(1) =~= rest);
}

/// A word of letters after one dash is as many short options: the first does what it does alone, and
/// the rest is read behind it.
pub proof fn law_short_flags_in_one_word(
    m: CliModel,
    c: char,
    more: Seq<char>,
    rest: Seq<Seq<char>>,
    grace: bool,
)
    requires
        c == 's' || c == 'w' || c == 'g' || c == 'v',
        more.len() > 0,
    ensures
        ({
            let a = seq![seq!['-', c] + more] + rest;
            args::read_args(m, a, 0, grace) == args::read_args(
                match c {
                    's' => CliModel { subreaper: true, ..m },
                    'w' => CliModel { warn_on_reap: true, ..m },
                    'g' => CliModel { pgroup_kill: true, ..m },
                    _ => if m.verbosity < 255 {
                        CliModel { verbosity: (m.verbosity + 1) as u8, ..m }
                    } else {
                        m
                    },
                },
                a,
                1,
                grace,
            )
        }),
{
    let w = seq!['-', c] + more;
    assert((seq![w] + rest)[0] == w);
    if m.verbosity == 255 {
        assert(args::more_verbose(m) == m);
    }
}

// ---------------------------------------------------------------------------
// Values
// ---------------------------------------------------------------------------

proof fn lemma_value(
    m: CliModel,
    name: Seq<char>,
    option: ValueOption,
    v: Seq<char>,
    rest: Seq<Seq<char>>,
)
    requires
        is_option_name(name),
        args::long_choice(name) == Choice::Value(option),
    ensures
        ({
            let apart = seq![long(name), v] + rest;
            let joined = seq![long(name) + seq!['='] + v] + rest;
            &&& args::value_at(apart, 0) == Ok::<Seq<char>, Seq<char>>(v)
            &&& args::value_at(joined, 0) == Ok::<Seq<char>, Seq<char>>(v)
            &&& args::left_behind_value(apart, 0) == rest
            &&& args::left_behind_value(joined, 0) == rest
            &&& args::token_at(apart, 0) == Ok::<Option<args::TokenModel>, Seq<char>>(
                Some(args::TokenModel::Long(name)),
            )
            &&& args::token_at(joined, 0) == Ok::<Option<args::TokenModel>, Seq<char>>(
                Some(args::TokenModel::Long(name)),
            )
            &&& apart.len() > 0 && joined.len() > 0
        }),
{
    let apart = seq![long(name), v] + rest;
    lemma_long_token(name, seq![v] + rest);
    assert(apart =~= seq![long(name)] + (seq![v] + rest));
    assert(apart.skip(2) =~= rest);
    let a = long(name) + seq!['='] + v;
    let joined = seq![a] + rest;
    assert(joined[0] == a);
    assert(joined.skip(1) =~= rest);
    let body = a.skip(2);
    assert(body =~= name + seq!['='] + v);
    assert forall|i: int| 0 <= i < name.len() implies !text::is_char('=')(#[trigger] body[i]) by {
        assert(body[i] == name[i]);
    }
    text::lemma_first_where(body, text::is_char('='), name.len() as int);
    assert(body.take(name.len() as int) =~= name);
    assert(body.skip(name.len() as int + 1) =~= v);
}

proof fn lemma_text_value(
    m: CliModel,
    name: Seq<char>,
    option: ValueOption,
    v: Seq<char>,
    rest: Seq<Seq<char>>,
    grace: bool,
    to: CliModel,
)
    requires
        is_option_name(name),
        args::long_choice(name) == Choice::Value(option),
        option is WriteAllow || option is ExecAllow || option is DeviceIoctlAllow
            || option is WritePreset,
        args::text_effect(m, option, v) == Ok::<CliModel, cli::CliErrorModel>(to),
    ensures
        turns_with(m, name, v, rest, grace, to),
{
    reveal(turns_with);
    lemma_value(m, name, option, v, rest);
}

proof fn lemma_number_value(
    m: CliModel,
    name: Seq<char>,
    option: ValueOption,
    n: nat,
    max: nat,
    rest: Seq<Seq<char>>,
    grace: bool,
    to: CliModel,
)
    requires
        is_option_name(name),
        args::long_choice(name) == Choice::Value(option),
        n <= max,
        option is RemapExit && max == 255 && to == cli::with_exit_code(m, n as u8) || (
        option is BindTcpAllow || option is ConnectTcpAllow) && max == 65535 && n > 0 && to
            == cli::with_port(m, option, n as u16),
    ensures
        turns_with(m, name, text::decimal(n), rest, grace, to),
{
    reveal(turns_with);
    lemma_value(m, name, option, text::decimal(n), rest);
    text::lemma_decimal_read_back(n, max);
}

proof fn lemma_grace(m: CliModel, n: nat, rest: Seq<Seq<char>>, grace: bool)
    requires
        n <= u64::MAX,
    ensures
        turns_with_grace(m, n, rest, grace),
{
    lemma_option_names();
    config_keys::lemma_marks();
    lemma_value(m, "grace-ms"@, ValueOption::GraceMs, text::decimal(n), rest);
    text::lemma_decimal_read_back(n, 18446744073709551615);
}

/// Whether the grace period of an option, with its value behind it or attached to it, is kept, and
/// it is kept in mind that one was given.
pub open spec fn turns_with_grace(m: CliModel, n: nat, rest: Seq<Seq<char>>, grace: bool) -> bool {
    let to = CliModel { grace_ms: n as u64, ..m };
    let apart = seq![long("grace-ms"@), text::decimal(n)] + rest;
    let joined = seq![long("grace-ms"@) + seq!['='] + text::decimal(n)] + rest;
    &&& args::read_args(m, apart, 0, grace) == args::read_args(to, rest, 0, true)
    &&& args::read_args(m, joined, 0, grace) == args::read_args(to, rest, 0, true)
}

/// Ports are never 0.
proof fn lemma_no_port(m: CliModel, name: Seq<char>, option: ValueOption, rest: Seq<Seq<char>>, grace: bool)
    requires
        is_option_name(name),
        args::long_choice(name) == Choice::Value(option),
        option is BindTcpAllow || option is ConnectTcpAllow,
    ensures
        args::read_args(m, seq![long(name), text::decimal(0)] + rest, 0, grace) is Err,
{
    lemma_value(m, name, option, text::decimal(0), rest);
    text::lemma_decimal_read_back(0, 65535);
}

/// Each option with a text for a value adds it at the end of one list and leaves the other settings.
pub proof fn law_lists(m: CliModel, v: Seq<char>, rest: Seq<Seq<char>>, grace: bool)
    ensures
        turns_with(
            m,
            "write-allow"@,
            v,
            rest,
            grace,
            CliModel { write_allow: m.write_allow.push(v), ..m },
        ),
        turns_with(
            m,
            "exec-allow"@,
            v,
            rest,
            grace,
            CliModel { exec_allow: m.exec_allow.push(v), ..m },
        ),
        turns_with(
            m,
            "device-ioctl-allow"@,
            v,
            rest,
            grace,
            CliModel { device_ioctl_allow: m.device_ioctl_allow.push(v), ..m },
        ),
        turns_with(
            m,
            "write-preset"@,
            "tmp"@,
            rest,
            grace,
            CliModel { write_preset: m.write_preset.push(WritePreset::Tmp), ..m },
        ),
        turns_with(
            m,
            "write-preset"@,
            "runtime"@,
            rest,
            grace,
            CliModel { write_preset: m.write_preset.push(WritePreset::Runtime), ..m },
        ),
{
    lemma_option_names();
    config_keys::lemma_marks();
    assert("tmp"@ != "runtime"@) by {
        reveal_strlit("tmp");
        reveal_strlit("runtime");
    }
    lemma_text_value(
        m,
        "write-allow"@,
        ValueOption::WriteAllow,
        v,
        rest,
        grace,
        CliModel { write_allow: m.write_allow.push(v), ..m },
    );
    lemma_text_value(
        m,
        "exec-allow"@,
        ValueOption::ExecAllow,
        v,
        rest,
        grace,
        CliModel { exec_allow: m.exec_allow.push(v), ..m },
    );
    lemma_text_value(
        m,
        "device-ioctl-allow"@,
        ValueOption::DeviceIoctlAllow,
        v,
        rest,
        grace,
        CliModel { device_ioctl_allow: m.device_ioctl_allow.push(v), ..m },
    );
    let option = ValueOption::WritePreset;
    let tmp = CliModel { write_preset: m.write_preset.push(WritePreset::Tmp), ..m };
    let runtime = CliModel { write_preset: m.write_preset.push(WritePreset::Runtime), ..m };
    lemma_text_value(m, "write-preset"@, option, "tmp"@, rest, grace, tmp);
    lemma_text_value(m, "write-preset"@, option, "runtime"@, rest, grace, runtime);
}

/// Each option with a number for a value keeps the number: the grace period and the exit codes that
/// become 0, and the ports, which are never 0.
pub proof fn law_numbers(m: CliModel, n: nat, rest: Seq<Seq<char>>, grace: bool)
    ensures
        n <= u64::MAX ==> turns_with_grace(m, n, rest, grace),
        n <= 255 ==> turns_with(
            m,
            "remap-exit"@,
            text::decimal(n),
            rest,
            grace,
            CliModel { remap_exit: m.remap_exit.push(n as u8), ..m },
        ),
        0 < n <= 65535 ==> turns_with(
            m,
            "bind-tcp-allow"@,
            text::decimal(n),
            rest,
            grace,
            CliModel { bind_tcp_allow: m.bind_tcp_allow.push(n as u16), ..m },
        ) && turns_with(
            m,
            "connect-tcp-allow"@,
            text::decimal(n),
            rest,
            grace,
            CliModel { connect_tcp_allow: m.connect_tcp_allow.push(n as u16), ..m },
        ),
        n == 0 ==> args::read_args(
            m,
            seq![long("bind-tcp-allow"@), text::decimal(n)] + rest,
            0,
            grace,
        ) is Err && args::read_args(
            m,
            seq![long("connect-tcp-allow"@), text::decimal(n)] + rest,
            0,
            grace,
        ) is Err,
{
    lemma_option_names();
    config_keys::lemma_marks();
    if n <= u64::MAX {
        lemma_grace(m, n, rest, grace);
    }
    if n <= 255 {
        let to = CliModel { remap_exit: m.remap_exit.push(n as u8), ..m };
        lemma_number_value(m, "remap-exit"@, ValueOption::RemapExit, n, 255, rest, grace, to);
    }
    if 0 < n <= 65535 {
        let to = CliModel { bind_tcp_allow: m.bind_tcp_allow.push(n as u16), ..m };
        let option = ValueOption::BindTcpAllow;
        lemma_number_value(m, "bind-tcp-allow"@, option, n, 65535, rest, grace, to);
        let to = CliModel { connect_tcp_allow: m.connect_tcp_allow.push(n as u16), ..m };
        let option = ValueOption::ConnectTcpAllow;
        lemma_number_value(m, "connect-tcp-allow"@, option, n, 65535, rest, grace, to);
    }
    lemma_no_port(m, "bind-tcp-allow"@, ValueOption::BindTcpAllow, rest, grace);
    lemma_no_port(m, "connect-tcp-allow"@, ValueOption::ConnectTcpAllow, rest, grace);
}

/// The short options with a value do what their long ones do.
pub proof fn law_short_values(m: CliModel, v: Seq<char>, rest: Seq<Seq<char>>, grace: bool)
    ensures
        args::read_args(m, seq![seq!['-', 'p'], v] + rest, 0, grace) == args::read_args(
            m,
            seq![long("parent-death-signal"@), v] + rest,
            0,
            grace,
        ),
        args::read_args(m, seq![seq!['-', 'e'], v] + rest, 0, grace) == args::read_args(
            m,
            seq![long("remap-exit"@), v] + rest,
            0,
            grace,
        ),
        args::read_args(m, seq![seq!['-', 't'], v] + rest, 0, grace) == args::read_args(
            m,
            seq![long("grace-ms"@), v] + rest,
            0,
            grace,
        ),
{
    lemma_option_names();
    config_keys::lemma_marks();
    lemma_value(m, "parent-death-signal"@, ValueOption::ParentDeathSignal, v, rest);
    lemma_value(m, "remap-exit"@, ValueOption::RemapExit, v, rest);
    lemma_value(m, "grace-ms"@, ValueOption::GraceMs, v, rest);
    lemma_short_value('p', v, rest);
    lemma_short_value('e', v, rest);
    lemma_short_value('t', v, rest);
}

proof fn lemma_short_value(c: char, v: Seq<char>, rest: Seq<Seq<char>>)
    requires
        args::is_ascii(c),
        c != '-',
    ensures
        ({
            let a = seq![seq!['-', c], v] + rest;
            &&& args::value_at(a, 0) == Ok::<Seq<char>, Seq<char>>(v)
            &&& args::left_behind_value(a, 0) == rest
            &&& args::token_at(a, 0) == Ok::<Option<args::TokenModel>, Seq<char>>(
                Some(args::TokenModel::Short(c)),
            )
        }),
{
    let a = seq![seq!['-', c], v] + rest;
    assert(a[0] == seq!['-', c]);
    assert(a[1] == v);
    assert(a.skip(2) =~= rest);
}

/// Help and the version end the reading of the command line, by either name, and so does an option
/// that there is not.
pub proof fn law_requests_end_the_reading(
    m: CliModel,
    c: char,
    rest: Seq<Seq<char>>,
    grace: bool,
)
    ensures
        args::read_args(m, seq![long("help"@)] + rest, 0, grace) matches Err(e) && e.kind
            == CliParseErrorKind::Help,
        args::read_args(m, seq![seq!['-', 'h']] + rest, 0, grace) matches Err(e) && e.kind
            == CliParseErrorKind::Help,
        args::read_args(m, seq![long("version"@)] + rest, 0, grace) matches Err(e) && e.kind
            == CliParseErrorKind::Version,
        args::read_args(m, seq![seq!['-', 'V']] + rest, 0, grace) matches Err(e) && e.kind
            == CliParseErrorKind::Version,
        c != '-' && c != 'h' && c != 'V' && c != 's' && c != 'w' && c != 'g' && c != 'v' && c != 'p'
            && c != 'e' && c != 't' ==> args::read_args(m, seq![seq!['-', c]] + rest, 0, grace) is Err,
{
    lemma_option_names();
    config_keys::lemma_marks();
    lemma_long_token("help"@, rest);
    lemma_long_token("version"@, rest);
    assert((seq![seq!['-', 'h']] + rest)[0] == seq!['-', 'h']);
    assert((seq![seq!['-', 'V']] + rest)[0] == seq!['-', 'V']);
    assert((seq![seq!['-', c]] + rest)[0] == seq!['-', c]);
}

/// A name that is none of these is refused, whatever it is the beginning of.
pub proof fn law_unknown_options(m: CliModel, name: Seq<char>, rest: Seq<Seq<char>>, grace: bool)
    requires
        name.len() > 0,
        forall|i: int| 0 <= i < name.len() ==> #[trigger] name[i] != '=',
        name != "subreaper"@,
        name != "warn-on-reap"@,
        name != "pgroup-kill"@,
        name != "write-restrict"@,
        name != "restrict-warn-only"@,
        name != "write-no-dev"@,
        name != "scope-signals"@,
        name != "scope-abstract-unix"@,
        name != "expand-env"@,
        name != "explain"@,
        name != "print-config"@,
        name != "write-config"@,
        name != "check-config"@,
        name != "no-config"@,
        name != "parent-death-signal"@,
        name != "remap-exit"@,
        name != "grace-ms"@,
        name != "write-allow"@,
        name != "write-preset"@,
        name != "bind-tcp-allow"@,
        name != "connect-tcp-allow"@,
        name != "exec-allow"@,
        name != "device-ioctl-allow"@,
        name != "help"@,
        name != "version"@,
        name != "verbose"@,
    ensures
        args::read_args(m, seq![long(name)] + rest, 0, grace) is Err,
{
    lemma_long_token(name, rest);
}

/// An option that takes no value is refused with one, and an option that takes one is refused without.
pub proof fn law_values_where_they_belong(
    m: CliModel,
    name: Seq<char>,
    v: Seq<char>,
    rest: Seq<Seq<char>>,
    grace: bool,
)
    requires
        name.len() > 0,
        forall|i: int| 0 <= i < name.len() ==> #[trigger] name[i] != '=',
    ensures
        args::long_choice(name) !is Value ==> args::read_args(
            m,
            seq![long(name) + seq!['='] + v] + rest,
            0,
            grace,
        ) is Err,
        args::long_choice(name) is Value ==> args::read_args(m, seq![long(name)], 0, grace) is Err,
{
    let none = Seq::<Seq<char>>::empty();
    lemma_long_token(name, none);
    assert(seq![long(name)] + none =~= seq![long(name)]);
    let a = long(name) + seq!['='] + v;
    let joined = seq![a] + rest;
    assert(joined[0] == a);
    let body = a.skip(2);
    assert(body =~= name + seq!['='] + v);
    assert forall|i: int| 0 <= i < name.len() implies !text::is_char('=')(#[trigger] body[i]) by {
        assert(body[i] == name[i]);
    }
    text::lemma_first_where(body, text::is_char('='), name.len() as int);
    assert(body.take(name.len() as int) =~= name);
    assert(a[name.len() as int + 2] == '=');
    assert(a.contains('='));
}

// ---------------------------------------------------------------------------
// Configuration files
// ---------------------------------------------------------------------------

/// Each key of a configuration file that is a flag turns one setting on and leaves the others, and
/// takes no value.
pub proof fn law_config_flags(m: CliModel, v: Seq<char>)
    ensures
        config::line_effect(m, "subreaper"@, None) == Ok::<CliModel, Seq<char>>(
            CliModel { subreaper: true, ..m },
        ),
        config::line_effect(m, "subreaper"@, Some(v)) is Err,
        config::line_effect(m, "warn-on-reap"@, None) == Ok::<CliModel, Seq<char>>(
            CliModel { warn_on_reap: true, ..m },
        ),
        config::line_effect(m, "warn-on-reap"@, Some(v)) is Err,
        config::line_effect(m, "pgroup-kill"@, None) == Ok::<CliModel, Seq<char>>(
            CliModel { pgroup_kill: true, ..m },
        ),
        config::line_effect(m, "pgroup-kill"@, Some(v)) is Err,
        config::line_effect(m, "write-restrict"@, None) == Ok::<CliModel, Seq<char>>(
            CliModel { write_restrict: true, ..m },
        ),
        config::line_effect(m, "write-restrict"@, Some(v)) is Err,
        config::line_effect(m, "restrict-warn-only"@, None) == Ok::<CliModel, Seq<char>>(
            CliModel { restrict_warn_only: true, ..m },
        ),
        config::line_effect(m, "restrict-warn-only"@, Some(v)) is Err,
        config::line_effect(m, "write-no-dev"@, None) == Ok::<CliModel, Seq<char>>(
            CliModel { write_no_dev: true, ..m },
        ),
        config::line_effect(m, "write-no-dev"@, Some(v)) is Err,
        config::line_effect(m, "scope-signals"@, None) == Ok::<CliModel, Seq<char>>(
            CliModel { scope_signals: true, ..m },
        ),
        config::line_effect(m, "scope-signals"@, Some(v)) is Err,
        config::line_effect(m, "scope-abstract-unix"@, None) == Ok::<CliModel, Seq<char>>(
            CliModel { scope_abstract_unix: true, ..m },
        ),
        config::line_effect(m, "scope-abstract-unix"@, Some(v)) is Err,
        config::line_effect(m, "expand-env"@, None) == Ok::<CliModel, Seq<char>>(
            CliModel { expand_env: true, ..m },
        ),
        config::line_effect(m, "expand-env"@, Some(v)) is Err,
{
    config_keys::lemma_key_subreaper();
    config_keys::lemma_key_warn_on_reap();
    config_keys::lemma_key_pgroup_kill();
    config_keys::lemma_key_write_restrict();
    config_keys::lemma_key_restrict_warn_only();
    config_keys::lemma_key_write_no_dev();
    config_keys::lemma_key_scope_signals();
    config_keys::lemma_key_scope_abstract_unix();
    config_keys::lemma_key_expand_env();
}

/// What only the command line can ask for is refused in a file.
pub proof fn law_config_leaves_requests_out(m: CliModel, v: Option<Seq<char>>)
    ensures
        config::line_effect(m, "explain"@, v) is Err,
        config::line_effect(m, "print-config"@, v) is Err,
        config::line_effect(m, "write-config"@, v) is Err,
        config::line_effect(m, "check-config"@, v) is Err,
        config::line_effect(m, "no-config"@, v) is Err,
        config::line_effect(m, "help"@, v) is Err,
        config::line_effect(m, "version"@, v) is Err,
{
    config_keys::lemma_marks();
}

/// Whether a text can be the value of a line.
pub open spec fn is_line_value(v: Seq<char>) -> bool {
    !v.contains('\n') && !v.contains('\r') && !v.contains('\0')
}

/// Each key of a configuration file that is a list gets its value at the end, and leaves the other
/// settings. A value is required, on one line and without NUL bytes.
pub proof fn law_config_lists(m: CliModel, v: Seq<char>)
    ensures
        config::line_effect(m, "write-allow"@, Some(v)) == if is_line_value(v) {
            Ok(CliModel { write_allow: m.write_allow.push(v), ..m })
        } else {
            Err(config::value_complaint("write-allow"@, v)->0)
        },
        config::line_effect(m, "exec-allow"@, Some(v)) == if is_line_value(v) {
            Ok(CliModel { exec_allow: m.exec_allow.push(v), ..m })
        } else {
            Err(config::value_complaint("exec-allow"@, v)->0)
        },
        config::line_effect(m, "device-ioctl-allow"@, Some(v)) == if is_line_value(v) {
            Ok(CliModel { device_ioctl_allow: m.device_ioctl_allow.push(v), ..m })
        } else {
            Err(config::value_complaint("device-ioctl-allow"@, v)->0)
        },
        config::line_effect(m, "write-allow"@, None) is Err,
        config::line_effect(m, "exec-allow"@, None) is Err,
        config::line_effect(m, "device-ioctl-allow"@, None) is Err,
        config::line_effect(m, "write-preset"@, None) is Err,
        config::line_effect(m, "write-preset"@, Some("tmp"@)) == Ok::<CliModel, Seq<char>>(
            CliModel { write_preset: m.write_preset.push(WritePreset::Tmp), ..m },
        ),
        config::line_effect(m, "write-preset"@, Some("runtime"@)) == Ok::<CliModel, Seq<char>>(
            CliModel { write_preset: m.write_preset.push(WritePreset::Runtime), ..m },
        ),
        v != "tmp"@ && v != "runtime"@ ==> config::line_effect(m, "write-preset"@, Some(v)) is Err,
{
    config_keys::lemma_key_write_allow();
    config_keys::lemma_key_exec_allow();
    config_keys::lemma_key_device_ioctl_allow();
    config_keys::lemma_key_write_preset();
    assert("tmp"@ != "runtime"@ && is_line_value("tmp"@) && is_line_value("runtime"@)) by {
        reveal_strlit("tmp");
        reveal_strlit("runtime");
    }
}

proof fn lemma_number_text(n: nat, max: nat)
    requires
        n <= max,
    ensures
        text::unsigned_of(text::decimal(n), max) == Ok::<nat, text::NumberError>(n),
        is_line_value(text::decimal(n)),
{
    let v = text::decimal(n);
    text::lemma_decimal_shape(n);
    text::lemma_decimal_read_back(n, max);
    assert forall|i: int| 0 <= i < v.len() implies v[i] != '\n' && v[i] != '\r' && v[i] != '\0' by {
        assert(text::is_digit(v[i]));
    }
}

/// The grace period of a configuration file is kept, in milliseconds.
pub proof fn law_config_grace(m: CliModel, n: nat)
    ensures
        n <= u64::MAX ==> config::line_effect(m, "grace-ms"@, Some(text::decimal(n))) == Ok::<
            CliModel,
            Seq<char>,
        >(CliModel { grace_ms: n as u64, ..m }),
        config::line_effect(m, "grace-ms"@, None) is Err,
{
    config_keys::lemma_key_grace_ms();
    if n <= 18446744073709551615 {
        lemma_number_text(n, 18446744073709551615);
    }
}

/// An exit code of a configuration file is added to those that become 0.
pub proof fn law_config_exit_codes(m: CliModel, n: nat)
    ensures
        n <= 255 ==> config::line_effect(m, "remap-exit"@, Some(text::decimal(n))) == Ok::<
            CliModel,
            Seq<char>,
        >(CliModel { remap_exit: m.remap_exit.push(n as u8), ..m }),
        config::line_effect(m, "remap-exit"@, None) is Err,
{
    config_keys::lemma_key_remap_exit();
    if n <= 255 {
        lemma_number_text(n, 255);
    }
}

/// A port of a configuration file is added to its list, and is never 0.
pub proof fn law_config_ports(m: CliModel, n: nat)
    ensures
        0 < n <= 65535 ==> config::line_effect(m, "bind-tcp-allow"@, Some(text::decimal(n))) == Ok::<
            CliModel,
            Seq<char>,
        >(CliModel { bind_tcp_allow: m.bind_tcp_allow.push(n as u16), ..m }),
        0 < n <= 65535 ==> config::line_effect(m, "connect-tcp-allow"@, Some(text::decimal(n))) == Ok::<
            CliModel,
            Seq<char>,
        >(CliModel { connect_tcp_allow: m.connect_tcp_allow.push(n as u16), ..m }),
        n == 0 ==> config::line_effect(m, "bind-tcp-allow"@, Some(text::decimal(n))) is Err,
        n == 0 ==> config::line_effect(m, "connect-tcp-allow"@, Some(text::decimal(n))) is Err,
        config::line_effect(m, "bind-tcp-allow"@, None) is Err,
        config::line_effect(m, "connect-tcp-allow"@, None) is Err,
{
    config_keys::lemma_key_bind_tcp_allow();
    config_keys::lemma_key_connect_tcp_allow();
    if n <= 65535 {
        lemma_number_text(n, 65535);
    }
}

/// The verbosity of a configuration file is kept, and is no more than 3.
pub proof fn law_config_verbosity(m: CliModel, n: nat)
    ensures
        n <= 3 ==> config::line_effect(m, "verbosity"@, Some(text::decimal(n))) == Ok::<
            CliModel,
            Seq<char>,
        >(CliModel { verbosity: n as u8, ..m }),
        3 < n <= 255 ==> config::line_effect(m, "verbosity"@, Some(text::decimal(n))) is Err,
        config::line_effect(m, "verbosity"@, None) is Err,
        config::line_effect(m, "pdeath"@, None) is Err,
{
    config_keys::lemma_key_verbosity();
    config_keys::lemma_key_pdeath();
    if n <= 255 {
        lemma_number_text(n, 255);
    }
}

} // verus!
