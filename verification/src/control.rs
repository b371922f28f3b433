//! What is asked for besides running a command, and which settings go together.

use vstd::prelude::*;

use crate::cli::{self, Cli, CliModel};
use crate::error::{self, Error, ErrorModel};
use crate::signals::{self, canonical_signal_name, signal_by_name};
use crate::text::{self, escape_str};

verus! {

/// Something to do in place of running a command.
#[derive(Clone, Copy, Debug, PartialEq, Eq, Structural)]
pub enum ControlMode {
    CheckConfig,
    WriteConfig,
    PrintConfig,
    Explain,
}

impl ControlMode {
    pub open spec fn name(self) -> Seq<char> {
        match self {
            ControlMode::CheckConfig => "--check-config"@,
            ControlMode::WriteConfig => "--write-config"@,
            ControlMode::PrintConfig => "--print-config"@,
            ControlMode::Explain => "--explain"@,
        }
    }

    /// The option that asks for it.
    pub fn option(self) -> (r: &'static str)
        ensures
            r@ == self.name(),
    {
        match self {
            ControlMode::CheckConfig => "--check-config",
            ControlMode::WriteConfig => "--write-config",
            ControlMode::PrintConfig => "--print-config",
            ControlMode::Explain => "--explain",
        }
    }

    /// Whether it goes without a command.
    pub fn rejects_command(self) -> (r: bool)
        ensures
            r == (self !is Explain),
    {
        match self {
            ControlMode::CheckConfig | ControlMode::WriteConfig | ControlMode::PrintConfig => true,
            ControlMode::Explain => false,
        }
    }
}

/// The modes that are asked for, in their order.
pub open spec fn modes(m: CliModel) -> Seq<ControlMode> {
    (if m.check_config {
        seq![ControlMode::CheckConfig]
    } else {
        Seq::empty()
    }) + (if m.write_config {
        seq![ControlMode::WriteConfig]
    } else {
        Seq::empty()
    }) + (if m.print_config {
        seq![ControlMode::PrintConfig]
    } else {
        Seq::empty()
    }) + (if m.explain {
        seq![ControlMode::Explain]
    } else {
        Seq::empty()
    })
}

/// The first setting that differs from its default, by the option that sets it.
pub open spec fn inline_option(m: CliModel) -> Option<Seq<char>> {
    if m.subreaper {
        Some("--subreaper"@)
    } else if m.pdeath is Some {
        Some("--parent-death-signal"@)
    } else if m.verbosity > 0 {
        Some("--verbose"@)
    } else if m.warn_on_reap {
        Some("--warn-on-reap"@)
    } else if m.pgroup_kill {
        Some("--pgroup-kill"@)
    } else if m.remap_exit.len() > 0 {
        Some("--remap-exit"@)
    } else if m.grace_ms != 500 {
        Some("--grace-ms"@)
    } else if m.write_restrict {
        Some("--write-restrict"@)
    } else if m.write_allow.len() > 0 {
        Some("--write-allow"@)
    } else if m.write_preset.len() > 0 {
        Some("--write-preset"@)
    } else if m.restrict_warn_only {
        Some("--restrict-warn-only"@)
    } else if m.write_no_dev {
        Some("--write-no-dev"@)
    } else if m.bind_tcp_allow.len() > 0 {
        Some("--bind-tcp-allow"@)
    } else if m.connect_tcp_allow.len() > 0 {
        Some("--connect-tcp-allow"@)
    } else if m.scope_signals {
        Some("--scope-signals"@)
    } else if m.scope_abstract_unix {
        Some("--scope-abstract-unix"@)
    } else if m.exec_allow.len() > 0 {
        Some("--exec-allow"@)
    } else if m.device_ioctl_allow.len() > 0 {
        Some("--device-ioctl-allow"@)
    } else if m.expand_env {
        Some("--expand-env"@)
    } else {
        None
    }
}

/// The first setting that differs from its default, by the option that sets it.
pub fn check_config_inline_option(cli: &Cli) -> (r: Option<&'static str>)
    ensures
        match r {
            Some(option) => inline_option(cli@) == Some(option@),
            None => inline_option(cli@) is None,
        },
{
    if cli.subreaper {
        return Some("--subreaper");
    }
    if cli.pdeath.is_some() {
        return Some("--parent-death-signal");
    }
    if cli.verbosity > 0 {
        return Some("--verbose");
    }
    if cli.warn_on_reap {
        return Some("--warn-on-reap");
    }
    if cli.pgroup_kill {
        return Some("--pgroup-kill");
    }
    if cli.remap_exit.len() > 0 {
        return Some("--remap-exit");
    }
    if cli.grace_ms != 500 {
        return Some("--grace-ms");
    }
    if cli.write_restrict {
        return Some("--write-restrict");
    }
    if cli.write_allow.len() > 0 {
        return Some("--write-allow");
    }
    if cli.write_preset.len() > 0 {
        return Some("--write-preset");
    }
    if cli.restrict_warn_only {
        return Some("--restrict-warn-only");
    }
    if cli.write_no_dev {
        return Some("--write-no-dev");
    }
    if cli.bind_tcp_allow.len() > 0 {
        return Some("--bind-tcp-allow");
    }
    if cli.connect_tcp_allow.len() > 0 {
        return Some("--connect-tcp-allow");
    }
    if cli.scope_signals {
        return Some("--scope-signals");
    }
    if cli.scope_abstract_unix {
        return Some("--scope-abstract-unix");
    }
    if cli.exec_allow.len() > 0 {
        return Some("--exec-allow");
    }
    if cli.device_ioctl_allow.len() > 0 {
        return Some("--device-ioctl-allow");
    }
    if cli.expand_env {
        return Some("--expand-env");
    }
    None
}

/// The mode that is asked for. There is at most one, and a check of the configuration file goes by
/// that file alone.
pub open spec fn selected(m: CliModel) -> Result<Option<ControlMode>, ErrorModel> {
    let asked = modes(m);
    if m.no_config && m.check_config {
        Err(error::misuse("--no-config cannot be used with --check-config"@))
    } else if asked.len() == 0 {
        Ok(None)
    } else if asked.len() > 1 {
        Err(error::misuse(asked[0].name() + " cannot be used with "@ + asked[1].name()))
    } else if asked[0] is CheckConfig && inline_option(m) is Some {
        Err(error::misuse("--check-config does not accept "@ + inline_option(m)->0))
    } else {
        Ok(Some(asked[0]))
    }
}

fn conflict(first: ControlMode, second: ControlMode) -> (r: Error)
    ensures
        r@ == error::misuse(first.name() + " cannot be used with "@ + second.name()),
{
    let mut message = first.option().to_owned();
    message.append(" cannot be used with ");
    message.append(second.option());
    Error::usage(message)
}

/// The modes that four switches ask for.
fn asked_modes(check: bool, write: bool, print: bool, explain: bool) -> (r: Vec<ControlMode>)
    ensures
        r@ == (if check {
            seq![ControlMode::CheckConfig]
        } else {
            Seq::empty()
        }) + (if write {
            seq![ControlMode::WriteConfig]
        } else {
            Seq::empty()
        }) + (if print {
            seq![ControlMode::PrintConfig]
        } else {
            Seq::empty()
        }) + (if explain {
            seq![ControlMode::Explain]
        } else {
            Seq::empty()
        }),
{
    let mut asked: Vec<ControlMode> = Vec::new();
    if check {
        asked.push(ControlMode::CheckConfig);
    }
    if write {
        asked.push(ControlMode::WriteConfig);
    }
    if print {
        asked.push(ControlMode::PrintConfig);
    }
    if explain {
        asked.push(ControlMode::Explain);
    }
    asked
}

/// The mode that is asked for.
pub fn selected_control_mode(cli: &Cli) -> (r: Result<Option<ControlMode>, Error>)
    ensures
        match r {
            Ok(mode) => selected(cli@) == Ok::<Option<ControlMode>, ErrorModel>(mode),
            Err(e) => selected(cli@) == Err::<Option<ControlMode>, ErrorModel>(e@),
        },
{
    if cli.no_config && cli.check_config {
        return Err(Error::usage("--no-config cannot be used with --check-config".to_owned()));
    }
    let asked = asked_modes(cli.check_config, cli.write_config, cli.print_config, cli.explain);
    assert(asked@ == modes(cli@));
    if asked.len() == 0 {
        return Ok(None);
    }
    if asked.len() > 1 {
        return Err(conflict(asked[0], asked[1]));
    }
    let mode = asked[0];
    if let ControlMode::CheckConfig = mode {
        if let Some(option) = check_config_inline_option(cli) {
            let mut message = "--check-config does not accept ".to_owned();
            message.append(option);
            return Err(Error::usage(message));
        }
    }
    Ok(Some(mode))
}

/// The error of a command that goes with a mode which takes none.
pub open spec fn command_misuse(m: CliModel, mode: ControlMode) -> Option<ErrorModel> {
    if mode !is Explain && m.cmd.len() > 0 {
        Some(error::misuse(mode.name() + " does not accept CMD"@))
    } else {
        None
    }
}

/// Refuses a command that goes with a mode which takes none.
pub fn reject_control_command(cli: &Cli, mode: ControlMode) -> (r: Result<(), Error>)
    ensures
        crate::policy::fault(r) == command_misuse(cli@, mode),
{
    if mode.rejects_command() && cli.cmd.len() > 0 {
        let mut message = mode.option().to_owned();
        message.append(" does not accept CMD");
        return Err(Error::usage(message));
    }
    Ok(())
}

// ---------------------------------------------------------------------------
// The parent-death signal
// ---------------------------------------------------------------------------

/// The error of a signal that does not exist.
pub open spec fn pdeath_misuse(raw: Seq<char>) -> ErrorModel {
    error::misuse(
        "invalid pdeath signal '"@ + text::escape(raw)
            + "'; supported values align with `tino --help`"@,
    )
}

/// The name of the parent-death signal, in its normal form.
pub fn pdeath_signal_name(signal: &str) -> (r: Result<&'static str, Error>)
    ensures
        match r {
            Ok(name) => signals::signal_number(signal@) is Some && name@ == signals::names()[
                signals::signal_index(signal@)],
            Err(e) => signals::signal_number(signal@) is None && e@ == pdeath_misuse(signal@),
        },
{
    proof {
        text::lemma_first_where_bounds(
            signals::names(),
            signals::equals(signals::normal_name(signal@)),
        );
    }
    match canonical_signal_name(signal) {
        Some(name) => Ok(name),
        None => {
            let mut message = "invalid pdeath signal '".to_owned();
            message.append(escape_str(signal).as_str());
            message.append("'; supported values align with `tino --help`");
            Err(Error::usage(message))
        },
    }
}

/// What is wrong with the parent-death signal, if anything.
pub open spec fn signal_fault(m: CliModel) -> Option<ErrorModel> {
    match m.pdeath {
        None => None,
        Some(raw) => if signals::signal_number(raw) is None {
            Some(pdeath_misuse(raw))
        } else {
            None
        },
    }
}

/// Checks the parent-death signal.
pub fn validate_config_signal(cli: &Cli) -> (r: Result<(), Error>)
    ensures
        crate::policy::fault(r) == signal_fault(cli@),
{
    match &cli.pdeath {
        None => Ok(()),
        Some(signal) => match pdeath_signal_name(signal.as_str()) {
            Ok(_) => Ok(()),
            Err(e) => Err(e),
        },
    }
}

/// The parent-death signal as it is shown.
pub open spec fn shown_pdeath(pdeath: Option<Seq<char>>) -> Result<Seq<char>, ErrorModel> {
    match pdeath {
        None => Ok("none"@),
        Some(raw) => if signals::signal_number(raw) is None {
            Err(pdeath_misuse(raw))
        } else {
            Ok("SIG"@ + signals::names()[signals::signal_index(raw)])
        },
    }
}

/// The parent-death signal as it is shown.
pub fn explain_pdeath(cli: &Cli) -> (r: Result<String, Error>)
    ensures
        match r {
            Ok(s) => shown_pdeath(cli@.pdeath) == Ok::<Seq<char>, ErrorModel>(s@),
            Err(e) => shown_pdeath(cli@.pdeath) == Err::<Seq<char>, ErrorModel>(e@),
        },
{
    match &cli.pdeath {
        None => Ok("none".to_owned()),
        Some(signal) => match pdeath_signal_name(signal.as_str()) {
            Ok(name) => {
                let mut out = "SIG".to_owned();
                out.append(name);
                Ok(out)
            },
            Err(e) => Err(e),
        },
    }
}

/// The number of the parent-death signal.
pub open spec fn pdeath_number(pdeath: Option<Seq<char>>) -> Result<Option<int>, ErrorModel> {
    match pdeath {
        None => Ok(None),
        Some(raw) => match signals::signal_number(raw) {
            Some(n) => Ok(Some(n)),
            None => Err(
                error::failure(
                    "invalid signal '"@ + text::escape(raw)
                        + "'; supported values align with `tino --help`"@,
                ),
            ),
        },
    }
}

/// The number of the parent-death signal.
pub fn pdeath_signal(cli: &Cli) -> (r: Result<Option<i32>, Error>)
    ensures
        match r {
            Ok(Some(n)) => pdeath_number(cli@.pdeath) == Ok::<Option<int>, ErrorModel>(
                Some(n as int),
            ),
            Ok(None) => pdeath_number(cli@.pdeath) == Ok::<Option<int>, ErrorModel>(None),
            Err(e) => pdeath_number(cli@.pdeath) == Err::<Option<int>, ErrorModel>(e@),
        },
{
    match &cli.pdeath {
        None => Ok(None),
        Some(raw) => match signal_by_name(raw.as_str()) {
            Some(n) => Ok(Some(n)),
            None => {
                let mut message = "invalid signal '".to_owned();
                message.append(escape_str(raw.as_str()).as_str());
                message.append("'; supported values align with `tino --help`");
                Err(Error::msg(message))
            },
        },
    }
}

// ---------------------------------------------------------------------------
// Exit codes
// ---------------------------------------------------------------------------

/// Which exit codes become 0.
pub open spec fn remap_table(codes: Seq<u8>) -> Seq<bool> {
    Seq::new(256, |i: int| codes.contains(i as u8))
}

/// Which exit codes become 0.
pub fn build_exit_remap(codes: &Vec<u8>) -> (r: [bool; 256])
    ensures
        r@ == remap_table(codes@),
{
    let mut map: [bool; 256] = [false;256];
    let mut i: usize = 0;
    while i < codes.len()
        invariant
            i <= codes@.len(),
            forall|code: u8| #[trigger] map@[code as int] == codes@.take(i as int).contains(code),
        decreases codes@.len() - i,
    {
        let c: u8 = codes[i];
        let ghost before = map@;
        map[c as usize] = true;
        proof {
            let earlier = codes@.take(i as int);
            let later = codes@.take(i + 1);
            assert(later =~= earlier.push(c));
            assert forall|code: u8| #[trigger] map@[code as int] == later.contains(code) by {
                assert(before[code as int] == earlier.contains(code));
                if earlier.contains(code) {
                    let j = choose|j: int| 0 <= j < earlier.len() && earlier[j] == code;
                    assert(later[j] == code);
                }
                if code == c {
                    assert(later[i as int] == code);
                }
                if later.contains(code) && code != c {
                    let j = choose|j: int| 0 <= j < later.len() && later[j] == code;
                    assert(earlier[j] == code);
                }
            }
        }
        i = i + 1;
    }
    proof {
        assert(codes@.take(i as int) =~= codes@);
        assert forall|k: int| 0 <= k < 256 implies map@[k] == codes@.contains(k as u8) by {
            assert((k as u8) as int == k);
            assert(map@[(k as u8) as int] == codes@.contains(k as u8));
        }
        assert(map@ =~= remap_table(codes@));
    }
    map
}

// ---------------------------------------------------------------------------
// Laws
// ---------------------------------------------------------------------------

/// No two modes go together.
pub proof fn law_modes_exclude_each_other(m: CliModel)
    ensures
        m.check_config && (m.write_config || m.print_config || m.explain) ==> selected(m) is Err,
        m.write_config && (m.print_config || m.explain) ==> selected(m) is Err,
        m.print_config && m.explain ==> selected(m) is Err,
        m.check_config && m.no_config ==> selected(m) is Err,
{
}

/// The check of a configuration file takes no setting of its own.
pub proof fn law_check_takes_no_settings(m: CliModel)
    requires
        m.check_config,
        selected(m) is Ok,
    ensures
        selected(m) == Ok::<Option<ControlMode>, ErrorModel>(Some(ControlMode::CheckConfig)),
        m == (CliModel {
            explain: false,
            print_config: false,
            write_config: false,
            check_config: true,
            no_config: false,
            cmd: m.cmd,
            ..cli::default_settings()
        }),
{
    assert(m.remap_exit =~= Seq::empty());
    assert(m.write_allow =~= Seq::empty());
    assert(m.write_preset =~= Seq::empty());
    assert(m.bind_tcp_allow =~= Seq::empty());
    assert(m.connect_tcp_allow =~= Seq::empty());
    assert(m.exec_allow =~= Seq::empty());
    assert(m.device_ioctl_allow =~= Seq::empty());
}

} // verus!
