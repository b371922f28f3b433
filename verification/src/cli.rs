//! The settings of a run, and what is common to all the ways in which they are given.

use vstd::prelude::*;

use crate::signals::{self, all_names, canonical_signal_name};
use crate::text::{self, chars_of, escape_str, is_text, same_text, trimmed};

verus! {

/// Line-based configuration file that is read before the command line.
pub const DEFAULT_CONFIG_PATH: &'static str = "/etc/tino/tino.conf";

/// How the program is used, in one line.
pub const USAGE: &'static str = "usage: tino [OPTIONS] [--] CMD [ARGS...]";

/// The options of the program.
pub const HELP_TEXT: &'static str = "Options:
  -s, --subreaper                Reap orphaned descendants
  -p, --parent-death-signal SIG  Signal child if tino dies
  -g, --pgroup-kill              Forward signals to the child's process group
  -w, --warn-on-reap             Warn on secondary reaps; enables subreaper
  -t, --grace-ms MS              Delay before SIGKILL (default: 500 ms)
  -e, --remap-exit CODE          Treat child exit CODE as success
  -v, --verbose                  Increase logging (-v: INFO, -vv: DEBUG)
      --expand-env               Expand environment variables in CMD/ARGS
  -h, --help                     Show help
  -V, --version                  Show version

Landlock (Linux):
      --write-restrict           Restrict child filesystem writes
      --write-allow PATH         Allow writes to PATH; enables restriction
      --write-preset PRESET      Allow tmp/runtime writes; enables restriction
      --write-no-dev             Do not automatically allow /dev writes
      --bind-tcp-allow PORT      Allow TCP binding only on selected ports
      --connect-tcp-allow PORT   Allow TCP connections only to selected ports
      --scope-signals            Limit signals to the same Landlock domain
      --scope-abstract-unix      Limit abstract sockets to the same domain
      --exec-allow PATH|CMD      Allow executing PATH or PATH-resolved CMD
      --device-ioctl-allow PATH  Allow device ioctl beneath absolute PATH
      --restrict-warn-only       Warn and continue when access restriction fails

Config (/etc/tino/tino.conf):
      --explain                  Show effective settings without running CMD
      --print-config             Validate and print config from CLI options
      --write-config             Validate and replace the config file
      --check-config             Validate the config file
      --no-config                Skip the config file

Documentation: https://github.com/oksyd/tino#readme
";

/// The name and the version of the program.
pub const VERSION_TEXT: &'static str = "tino 0.1.0
";

// ---------------------------------------------------------------------------
// Presets
// ---------------------------------------------------------------------------

/// Named presets for conservative writable directory allowlists.
#[derive(Clone, Copy, Debug, PartialEq, Eq, Structural)]
pub enum WritePreset {
    /// Allow `/tmp` and `/var/tmp`.
    Tmp,
    /// Allow `/tmp`, `/var/tmp`, and `/run`.
    Runtime,
}

/// The name of a preset.
pub open spec fn preset_name(p: WritePreset) -> Seq<char> {
    match p {
        WritePreset::Tmp => "tmp"@,
        WritePreset::Runtime => "runtime"@,
    }
}

/// The preset of a name.
pub open spec fn preset_of(raw: Seq<char>) -> Result<WritePreset, Seq<char>> {
    if raw == "tmp"@ {
        Ok(WritePreset::Tmp)
    } else if raw == "runtime"@ {
        Ok(WritePreset::Runtime)
    } else {
        Err(
            "invalid value for --write-preset: "@ + text::escape(raw)
                + " (expected tmp or runtime)"@,
        )
    }
}

impl WritePreset {
    /// The name of the preset.
    pub fn as_str(self) -> (r: &'static str)
        ensures
            r@ == preset_name(self),
    {
        match self {
            WritePreset::Tmp => "tmp",
            WritePreset::Runtime => "runtime",
        }
    }

    /// The preset of a name.
    pub fn parse(raw: &str) -> (r: Result<Self, CliParseError>)
        ensures
            match r {
                Ok(p) => preset_of(raw@) == Ok::<WritePreset, Seq<char>>(p),
                Err(e) => preset_of(raw@) is Err && e@ == message_error(preset_of(raw@)->Err_0),
            },
    {
        if same_text(raw, "tmp") {
            Ok(WritePreset::Tmp)
        } else if same_text(raw, "runtime") {
            Ok(WritePreset::Runtime)
        } else {
            let mut message = "invalid value for --write-preset: ".to_owned();
            message.append(escape_str(raw).as_str());
            message.append(" (expected tmp or runtime)");
            Err(CliParseError::from_message(message))
        }
    }
}

// ---------------------------------------------------------------------------
// Errors
// ---------------------------------------------------------------------------

/// Kind of CLI parsing failure.
#[derive(Clone, Copy, Debug, PartialEq, Eq, Structural)]
pub enum CliParseErrorKind {
    /// Argument parsing failed.
    Message,
    /// Configuration file parsing failed.
    Config,
    /// `--help` or `-h` was requested.
    Help,
    /// `--version` or `-V` was requested.
    Version,
}

/// Why settings could not be read.
#[derive(Debug)]
pub struct CliParseError {
    kind: CliParseErrorKind,
    message: String,
}

/// What a [`CliParseError`] holds.
pub struct CliErrorModel {
    pub kind: CliParseErrorKind,
    pub message: Seq<char>,
}

impl View for CliParseError {
    type V = CliErrorModel;

    closed spec fn view(&self) -> CliErrorModel {
        CliErrorModel { kind: self.kind, message: self.message@ }
    }
}

/// The model of a failure to read arguments.
pub open spec fn message_error(message: Seq<char>) -> CliErrorModel {
    CliErrorModel { kind: CliParseErrorKind::Message, message }
}

/// The model of a failure to read a configuration file.
pub open spec fn config_file_error(message: Seq<char>) -> CliErrorModel {
    CliErrorModel { kind: CliParseErrorKind::Config, message }
}

/// The model of a request for help.
pub open spec fn help_request() -> CliErrorModel {
    CliErrorModel { kind: CliParseErrorKind::Help, message: USAGE@ + "\n\n"@ + HELP_TEXT@ }
}

/// The model of a request for the version.
pub open spec fn version_request() -> CliErrorModel {
    CliErrorModel { kind: CliParseErrorKind::Version, message: VERSION_TEXT@ }
}

impl CliParseError {
    /// A failure to read arguments.
    pub fn from_message(message: String) -> (r: Self)
        ensures
            r@ == message_error(message@),
    {
        CliParseError { kind: CliParseErrorKind::Message, message }
    }

    /// A failure to read a configuration file.
    pub fn config(message: String) -> (r: Self)
        ensures
            r@ == config_file_error(message@),
    {
        CliParseError { kind: CliParseErrorKind::Config, message }
    }

    /// A request for help.
    pub fn help() -> (r: Self)
        ensures
            r@ == help_request(),
    {
        let mut message = USAGE.to_owned();
        message.append("\n\n");
        message.append(HELP_TEXT);
        CliParseError { kind: CliParseErrorKind::Help, message }
    }

    /// A request for the version.
    pub fn version() -> (r: Self)
        ensures
            r@ == version_request(),
    {
        CliParseError { kind: CliParseErrorKind::Version, message: VERSION_TEXT.to_owned() }
    }

    /// Returns the parsing error category.
    pub fn kind(&self) -> (r: CliParseErrorKind)
        ensures
            r == self@.kind,
    {
        self.kind
    }

    /// What the error says.
    pub fn message(&self) -> (r: &str)
        ensures
            r@ == self@.message,
    {
        self.message.as_str()
    }
}

/// What is printed for an error, and where to.
#[derive(Debug)]
pub struct Printout {
    pub to_stderr: bool,
    pub text: String,
    pub exit_code: i32,
}

/// What is printed for an error: help and version are no failures.
pub open spec fn printed(e: CliErrorModel) -> (bool, Seq<char>, int) {
    match e.kind {
        CliParseErrorKind::Help | CliParseErrorKind::Version => (false, e.message, 0),
        CliParseErrorKind::Config => (true, "error: "@ + e.message + "\n"@, 2),
        CliParseErrorKind::Message => (
            true,
            "error: "@ + e.message + "\n\n"@ + USAGE@
                + "\nTry 'tino --help' for more information.\n"@,
            2,
        ),
    }
}

impl CliParseError {
    /// What is printed for the error, and the exit code that follows.
    pub fn printout(&self) -> (r: Printout)
        ensures
            (r.to_stderr, r.text@, r.exit_code as int) == printed(self@),
    {
        match self.kind {
            CliParseErrorKind::Help | CliParseErrorKind::Version => {
                Printout { to_stderr: false, text: self.message.clone(), exit_code: 0 }
            },
            CliParseErrorKind::Config => {
                let mut out = "error: ".to_owned();
                out.append(self.message.as_str());
                out.append("\n");
                Printout { to_stderr: true, text: out, exit_code: 2 }
            },
            CliParseErrorKind::Message => {
                let mut out = "error: ".to_owned();
                out.append(self.message.as_str());
                out.append("\n\n");
                out.append(USAGE);
                out.append("\nTry 'tino --help' for more information.\n");
                Printout { to_stderr: true, text: out, exit_code: 2 }
            },
        }
    }
}

// ---------------------------------------------------------------------------
// Settings
// ---------------------------------------------------------------------------

/// The settings of a run.
#[derive(Clone, Debug)]
pub struct Cli {
    /// Enable `PR_SET_CHILD_SUBREAPER` so this init can reap orphaned grandchildren.
    pub subreaper: bool,
    /// Set a parent-death signal via `PR_SET_PDEATHSIG` (e.g. `TERM`, `SIGTERM`).
    pub pdeath: Option<String>,
    /// Increase log verbosity.
    pub verbosity: u8,
    /// Emit a warning when reaping secondary child processes.
    pub warn_on_reap: bool,
    /// Forward signals to the child's process group.
    pub pgroup_kill: bool,
    /// Remap these child exit codes to success.
    pub remap_exit: Vec<u8>,
    /// Grace period in milliseconds before a termination signal is followed by SIGKILL.
    pub grace_ms: u64,
    /// Restrict child filesystem writes to explicitly allowed directories.
    pub write_restrict: bool,
    /// Allow writes beneath these paths, which enables write restriction.
    pub write_allow: Vec<String>,
    /// Add presets of writable directories, which enables write restriction.
    pub write_preset: Vec<WritePreset>,
    /// Continue even if requested restrictions cannot be applied.
    pub restrict_warn_only: bool,
    /// Do not automatically allow `/dev` writes.
    pub write_no_dev: bool,
    /// Allow binding TCP listeners only on these local ports.
    pub bind_tcp_allow: Vec<u16>,
    /// Allow outbound TCP connections only to these remote ports.
    pub connect_tcp_allow: Vec<u16>,
    /// Restrict signal delivery to processes within the same Landlock domain.
    pub scope_signals: bool,
    /// Restrict abstract UNIX socket connects to the same Landlock domain.
    pub scope_abstract_unix: bool,
    /// Allow executing files beneath these paths, which enables exec restriction.
    pub exec_allow: Vec<String>,
    /// Allow device ioctl operations beneath these paths.
    pub device_ioctl_allow: Vec<String>,
    /// Expand environment references in child command arguments.
    pub expand_env: bool,
    /// Explain the effective configuration and command, then exit.
    pub explain: bool,
    /// Print configuration for active options, then exit.
    pub print_config: bool,
    /// Write configuration for active options to [`DEFAULT_CONFIG_PATH`], then exit.
    pub write_config: bool,
    /// Validate the fixed configuration file, then exit.
    pub check_config: bool,
    /// Skip the fixed configuration file at [`DEFAULT_CONFIG_PATH`].
    pub no_config: bool,
    /// Child command and trailing arguments.
    pub cmd: Vec<String>,
}

/// What a [`Cli`] holds.
pub struct CliModel {
    pub subreaper: bool,
    pub pdeath: Option<Seq<char>>,
    pub verbosity: u8,
    pub warn_on_reap: bool,
    pub pgroup_kill: bool,
    pub remap_exit: Seq<u8>,
    pub grace_ms: u64,
    pub write_restrict: bool,
    pub write_allow: Seq<Seq<char>>,
    pub write_preset: Seq<WritePreset>,
    pub restrict_warn_only: bool,
    pub write_no_dev: bool,
    pub bind_tcp_allow: Seq<u16>,
    pub connect_tcp_allow: Seq<u16>,
    pub scope_signals: bool,
    pub scope_abstract_unix: bool,
    pub exec_allow: Seq<Seq<char>>,
    pub device_ioctl_allow: Seq<Seq<char>>,
    pub expand_env: bool,
    pub explain: bool,
    pub print_config: bool,
    pub write_config: bool,
    pub check_config: bool,
    pub no_config: bool,
    pub cmd: Seq<Seq<char>>,
}

/// The text of an optional string.
pub open spec fn opt_text(v: Option<String>) -> Option<Seq<char>> {
    match v {
        Some(s) => Some(s@),
        None => None,
    }
}

impl View for Cli {
    type V = CliModel;

    open spec fn view(&self) -> CliModel {
        CliModel {
            subreaper: self.subreaper,
            pdeath: opt_text(self.pdeath),
            verbosity: self.verbosity,
            warn_on_reap: self.warn_on_reap,
            pgroup_kill: self.pgroup_kill,
            remap_exit: self.remap_exit@,
            grace_ms: self.grace_ms,
            write_restrict: self.write_restrict,
            write_allow: text::texts(self.write_allow@),
            write_preset: self.write_preset@,
            restrict_warn_only: self.restrict_warn_only,
            write_no_dev: self.write_no_dev,
            bind_tcp_allow: self.bind_tcp_allow@,
            connect_tcp_allow: self.connect_tcp_allow@,
            scope_signals: self.scope_signals,
            scope_abstract_unix: self.scope_abstract_unix,
            exec_allow: text::texts(self.exec_allow@),
            device_ioctl_allow: text::texts(self.device_ioctl_allow@),
            expand_env: self.expand_env,
            explain: self.explain,
            print_config: self.print_config,
            write_config: self.write_config,
            check_config: self.check_config,
            no_config: self.no_config,
            cmd: text::texts(self.cmd@),
        }
    }
}

/// The settings where nothing was asked for.
pub open spec fn default_settings() -> CliModel {
    CliModel {
        subreaper: false,
        pdeath: None,
        verbosity: 0,
        warn_on_reap: false,
        pgroup_kill: false,
        remap_exit: Seq::empty(),
        grace_ms: 500,
        write_restrict: false,
        write_allow: Seq::empty(),
        write_preset: Seq::empty(),
        restrict_warn_only: false,
        write_no_dev: false,
        bind_tcp_allow: Seq::empty(),
        connect_tcp_allow: Seq::empty(),
        scope_signals: false,
        scope_abstract_unix: false,
        exec_allow: Seq::empty(),
        device_ioctl_allow: Seq::empty(),
        expand_env: false,
        explain: false,
        print_config: false,
        write_config: false,
        check_config: false,
        no_config: false,
        cmd: Seq::empty(),
    }
}

impl Default for Cli {
    fn default() -> (r: Self)
        ensures
            r@ == default_settings(),
    {
        let r = Cli {
            subreaper: false,
            pdeath: None,
            verbosity: 0,
            warn_on_reap: false,
            pgroup_kill: false,
            remap_exit: Vec::new(),
            grace_ms: 500,
            write_restrict: false,
            write_allow: Vec::new(),
            write_preset: Vec::new(),
            restrict_warn_only: false,
            write_no_dev: false,
            bind_tcp_allow: Vec::new(),
            connect_tcp_allow: Vec::new(),
            scope_signals: false,
            scope_abstract_unix: false,
            exec_allow: Vec::new(),
            device_ioctl_allow: Vec::new(),
            expand_env: false,
            explain: false,
            print_config: false,
            write_config: false,
            check_config: false,
            no_config: false,
            cmd: Vec::new(),
        };
        proof {
            assert(text::texts(r.write_allow@) =~= Seq::empty());
        }
        r
    }
}

impl Cli {
    /// The verbosity that counts: there are no levels above 3.
    pub fn resolved_verbosity(&self) -> (r: u8)
        ensures
            r == if self@.verbosity < 3 { self@.verbosity } else { 3u8 },
    {
        if self.verbosity < 3 {
            self.verbosity
        } else {
            3
        }
    }
}

// ---------------------------------------------------------------------------
// Options
// ---------------------------------------------------------------------------

/// An option that is either given or not.
#[derive(Clone, Copy, Debug, PartialEq, Eq, Structural)]
pub enum Flag {
    Subreaper,
    WarnOnReap,
    PgroupKill,
    WriteRestrict,
    RestrictWarnOnly,
    WriteNoDev,
    ScopeSignals,
    ScopeAbstractUnix,
    ExpandEnv,
    Explain,
    PrintConfig,
    WriteConfig,
    CheckConfig,
    NoConfig,
}

/// The settings with a flag set.
pub open spec fn with_flag(m: CliModel, f: Flag) -> CliModel {
    match f {
        Flag::Subreaper => CliModel { subreaper: true, ..m },
        Flag::WarnOnReap => CliModel { warn_on_reap: true, ..m },
        Flag::PgroupKill => CliModel { pgroup_kill: true, ..m },
        Flag::WriteRestrict => CliModel { write_restrict: true, ..m },
        Flag::RestrictWarnOnly => CliModel { restrict_warn_only: true, ..m },
        Flag::WriteNoDev => CliModel { write_no_dev: true, ..m },
        Flag::ScopeSignals => CliModel { scope_signals: true, ..m },
        Flag::ScopeAbstractUnix => CliModel { scope_abstract_unix: true, ..m },
        Flag::ExpandEnv => CliModel { expand_env: true, ..m },
        Flag::Explain => CliModel { explain: true, ..m },
        Flag::PrintConfig => CliModel { print_config: true, ..m },
        Flag::WriteConfig => CliModel { write_config: true, ..m },
        Flag::CheckConfig => CliModel { check_config: true, ..m },
        Flag::NoConfig => CliModel { no_config: true, ..m },
    }
}

/// The flag of a long name.
pub open spec fn flag_of(name: Seq<char>) -> Option<Flag> {
    if name == "subreaper"@ { Some(Flag::Subreaper) }
    else if name == "warn-on-reap"@ { Some(Flag::WarnOnReap) }
    else if name == "pgroup-kill"@ { Some(Flag::PgroupKill) }
    else if name == "write-restrict"@ { Some(Flag::WriteRestrict) }
    else if name == "restrict-warn-only"@ { Some(Flag::RestrictWarnOnly) }
    else if name == "write-no-dev"@ { Some(Flag::WriteNoDev) }
    else if name == "scope-signals"@ { Some(Flag::ScopeSignals) }
    else if name == "scope-abstract-unix"@ { Some(Flag::ScopeAbstractUnix) }
    else if name == "expand-env"@ { Some(Flag::ExpandEnv) }
    else if name == "explain"@ { Some(Flag::Explain) }
    else if name == "print-config"@ { Some(Flag::PrintConfig) }
    else if name == "write-config"@ { Some(Flag::WriteConfig) }
    else if name == "check-config"@ { Some(Flag::CheckConfig) }
    else if name == "no-config"@ { Some(Flag::NoConfig) }
    else { None }
}

/// The flag of a long name.
pub fn find_flag(name: &[char]) -> (r: Option<Flag>)
    ensures
        r == flag_of(name@),
{
    if is_text(name, "subreaper") { Some(Flag::Subreaper) }
    else if is_text(name, "warn-on-reap") { Some(Flag::WarnOnReap) }
    else if is_text(name, "pgroup-kill") { Some(Flag::PgroupKill) }
    else if is_text(name, "write-restrict") { Some(Flag::WriteRestrict) }
    else if is_text(name, "restrict-warn-only") { Some(Flag::RestrictWarnOnly) }
    else if is_text(name, "write-no-dev") { Some(Flag::WriteNoDev) }
    else if is_text(name, "scope-signals") { Some(Flag::ScopeSignals) }
    else if is_text(name, "scope-abstract-unix") { Some(Flag::ScopeAbstractUnix) }
    else if is_text(name, "expand-env") { Some(Flag::ExpandEnv) }
    else if is_text(name, "explain") { Some(Flag::Explain) }
    else if is_text(name, "print-config") { Some(Flag::PrintConfig) }
    else if is_text(name, "write-config") { Some(Flag::WriteConfig) }
    else if is_text(name, "check-config") { Some(Flag::CheckConfig) }
    else if is_text(name, "no-config") { Some(Flag::NoConfig) }
    else { None }
}

/// `osarg::set_flag` sets the flag that it is given.
pub assume_specification[ osarg::set_flag ](flag: &mut bool)
    ensures
        *final(flag),
;

/// `osarg::count_flag` counts one more, up to the largest number there is.
pub assume_specification[ osarg::count_flag ](counter: &mut u8)
    ensures
        *final(counter) == if *old(counter) == 255 { 255int } else { *old(counter) + 1 },
;

impl Cli {
    /// Sets a flag about the managed command.
    fn set_supervision(&mut self, f: Flag)
        requires
            f == Flag::Subreaper || f == Flag::WarnOnReap || f == Flag::PgroupKill || f == Flag::ExpandEnv,
        ensures
            final(self)@ == with_flag(old(self)@, f),
    {
        let ghost m = self@;
        let mut on = false;
        osarg::set_flag(&mut on);
        match f {
            Flag::Subreaper => {
                self.subreaper = on;
                assert(self@ == (CliModel { subreaper: true, ..m }));
            },
            Flag::WarnOnReap => {
                self.warn_on_reap = on;
                assert(self@ == (CliModel { warn_on_reap: true, ..m }));
            },
            Flag::PgroupKill => {
                self.pgroup_kill = on;
                assert(self@ == (CliModel { pgroup_kill: true, ..m }));
            },
            _ => {
                self.expand_env = on;
                assert(self@ == (CliModel { expand_env: true, ..m }));
            },
        }
    }

    /// Sets a flag about access restrictions.
    fn set_restriction(&mut self, f: Flag)
        requires
            f == Flag::WriteRestrict || f == Flag::RestrictWarnOnly || f == Flag::WriteNoDev || f == Flag::ScopeSignals || f == Flag::ScopeAbstractUnix,
        ensures
            final(self)@ == with_flag(old(self)@, f),
    {
        let ghost m = self@;
        let mut on = false;
        osarg::set_flag(&mut on);
        match f {
            Flag::WriteRestrict => {
                self.write_restrict = on;
                assert(self@ == (CliModel { write_restrict: true, ..m }));
            },
            Flag::RestrictWarnOnly => {
                self.restrict_warn_only = on;
                assert(self@ == (CliModel { restrict_warn_only: true, ..m }));
            },
            Flag::WriteNoDev => {
                self.write_no_dev = on;
                assert(self@ == (CliModel { write_no_dev: true, ..m }));
            },
            Flag::ScopeSignals => {
                self.scope_signals = on;
                assert(self@ == (CliModel { scope_signals: true, ..m }));
            },
            _ => {
                self.scope_abstract_unix = on;
                assert(self@ == (CliModel { scope_abstract_unix: true, ..m }));
            },
        }
    }

    /// Sets a flag about the configuration file.
    fn set_control(&mut self, f: Flag)
        requires
            f == Flag::Explain || f == Flag::PrintConfig || f == Flag::WriteConfig || f == Flag::CheckConfig || f == Flag::NoConfig,
        ensures
            final(self)@ == with_flag(old(self)@, f),
    {
        let ghost m = self@;
        let mut on = false;
        osarg::set_flag(&mut on);
        match f {
            Flag::Explain => {
                self.explain = on;
                assert(self@ == (CliModel { explain: true, ..m }));
            },
            Flag::PrintConfig => {
                self.print_config = on;
                assert(self@ == (CliModel { print_config: true, ..m }));
            },
            Flag::WriteConfig => {
                self.write_config = on;
                assert(self@ == (CliModel { write_config: true, ..m }));
            },
            Flag::CheckConfig => {
                self.check_config = on;
                assert(self@ == (CliModel { check_config: true, ..m }));
            },
            _ => {
                self.no_config = on;
                assert(self@ == (CliModel { no_config: true, ..m }));
            },
        }
    }

    /// Sets a flag.
    pub fn set(&mut self, f: Flag)
        ensures
            final(self)@ == with_flag(old(self)@, f),
    {
        match f {
            Flag::Subreaper | Flag::WarnOnReap | Flag::PgroupKill | Flag::ExpandEnv => self.set_supervision(f),
            Flag::WriteRestrict | Flag::RestrictWarnOnly | Flag::WriteNoDev | Flag::ScopeSignals | Flag::ScopeAbstractUnix => self.set_restriction(f),
            Flag::Explain | Flag::PrintConfig | Flag::WriteConfig | Flag::CheckConfig | Flag::NoConfig => self.set_control(f),
        }
    }
}

/// An option that takes a value.
#[derive(Clone, Copy, Debug, PartialEq, Eq, Structural)]
pub enum ValueOption {
    ParentDeathSignal,
    RemapExit,
    GraceMs,
    WriteAllow,
    WritePreset,
    BindTcpAllow,
    ConnectTcpAllow,
    ExecAllow,
    DeviceIoctlAllow,
}

/// The option that takes a value, by its long name.
pub open spec fn value_option_of(name: Seq<char>) -> Option<ValueOption> {
    if name == "parent-death-signal"@ { Some(ValueOption::ParentDeathSignal) }
    else if name == "remap-exit"@ { Some(ValueOption::RemapExit) }
    else if name == "grace-ms"@ { Some(ValueOption::GraceMs) }
    else if name == "write-allow"@ { Some(ValueOption::WriteAllow) }
    else if name == "write-preset"@ { Some(ValueOption::WritePreset) }
    else if name == "bind-tcp-allow"@ { Some(ValueOption::BindTcpAllow) }
    else if name == "connect-tcp-allow"@ { Some(ValueOption::ConnectTcpAllow) }
    else if name == "exec-allow"@ { Some(ValueOption::ExecAllow) }
    else if name == "device-ioctl-allow"@ { Some(ValueOption::DeviceIoctlAllow) }
    else { None }
}

/// The option that takes a value, by its long name.
pub fn find_value_option(name: &[char]) -> (r: Option<ValueOption>)
    ensures
        r == value_option_of(name@),
{
    if is_text(name, "parent-death-signal") { Some(ValueOption::ParentDeathSignal) }
    else if is_text(name, "remap-exit") { Some(ValueOption::RemapExit) }
    else if is_text(name, "grace-ms") { Some(ValueOption::GraceMs) }
    else if is_text(name, "write-allow") { Some(ValueOption::WriteAllow) }
    else if is_text(name, "write-preset") { Some(ValueOption::WritePreset) }
    else if is_text(name, "bind-tcp-allow") { Some(ValueOption::BindTcpAllow) }
    else if is_text(name, "connect-tcp-allow") { Some(ValueOption::ConnectTcpAllow) }
    else if is_text(name, "exec-allow") { Some(ValueOption::ExecAllow) }
    else if is_text(name, "device-ioctl-allow") { Some(ValueOption::DeviceIoctlAllow) }
    else { None }
}

// ---------------------------------------------------------------------------
// Values
// ---------------------------------------------------------------------------

/// The full name of the signal that a user wrote.
pub open spec fn signal_text(raw: Seq<char>) -> Result<Seq<char>, Seq<char>> {
    if text::trim(raw).len() == 0 {
        Err("signal name cannot be empty"@)
    } else if signals::signal_index(raw) < signals::SIGNAL_COUNT {
        Ok("SIG"@ + signals::names()[signals::signal_index(raw)])
    } else {
        Err(
            "invalid signal '"@ + text::escape(raw) + "'; supported values: "@ + signals::joined(
                signals::names(),
                ", "@,
            ),
        )
    }
}

/// The full name of the signal that a user wrote.
pub fn parse_signal(raw: &str) -> (r: Result<String, CliParseError>)
    ensures
        match r {
            Ok(s) => signal_text(raw@) == Ok::<Seq<char>, Seq<char>>(s@),
            Err(e) => signal_text(raw@) is Err && e@ == message_error(signal_text(raw@)->Err_0),
        },
{
    let chars = chars_of(raw);
    if trimmed(chars.as_slice()).len() == 0 {
        return Err(CliParseError::from_message("signal name cannot be empty".to_owned()));
    }
    match canonical_signal_name(raw) {
        Some(name) => {
            let mut out = "SIG".to_owned();
            out.append(name);
            Ok(out)
        },
        None => {
            let mut message = "invalid signal '".to_owned();
            message.append(escape_str(raw).as_str());
            message.append("'; supported values: ");
            message.append(all_names().as_str());
            Err(CliParseError::from_message(message))
        },
    }
}

/// The complaint about port 0.
pub open spec fn port_error(option: Seq<char>) -> Seq<char> {
    "invalid value for "@ + option + ": 0 (expected 1-65535)"@
}

/// Lets every port but 0 pass.
pub fn validate_port(option: &str, port: u16) -> (r: Result<u16, CliParseError>)
    ensures
        match r {
            Ok(p) => p == port && port != 0,
            Err(e) => port == 0 && e@ == message_error(port_error(option@)),
        },
{
    if port == 0 {
        let mut message = "invalid value for ".to_owned();
        message.append(option);
        message.append(": 0 (expected 1-65535)");
        return Err(CliParseError::from_message(message));
    }
    Ok(port)
}

/// One more text behind a list of texts.
pub proof fn lemma_texts_push(v: Seq<String>, s: String)
    ensures
        text::texts(v.push(s)) == text::texts(v).push(s@),
{
    assert(text::texts(v.push(s)) =~= text::texts(v).push(s@));
}

// ---------------------------------------------------------------------------
// Settings with a value
// ---------------------------------------------------------------------------

/// The settings with a parent-death signal.
pub open spec fn with_signal(m: CliModel, signal: Seq<char>) -> CliModel {
    CliModel { pdeath: Some(signal), ..m }
}

/// The settings with one more exit code that counts as success.
pub open spec fn with_exit_code(m: CliModel, code: u8) -> CliModel {
    CliModel { remap_exit: m.remap_exit.push(code), ..m }
}

/// The settings with a grace period.
pub open spec fn with_grace(m: CliModel, millis: u64) -> CliModel {
    CliModel { grace_ms: millis, ..m }
}

/// The settings with a verbosity.
pub open spec fn with_verbosity(m: CliModel, verbosity: u8) -> CliModel {
    CliModel { verbosity, ..m }
}

/// The settings with one more preset.
pub open spec fn with_preset(m: CliModel, preset: WritePreset) -> CliModel {
    CliModel { write_preset: m.write_preset.push(preset), ..m }
}

/// The settings with one more path.
pub open spec fn with_path(m: CliModel, option: ValueOption, path: Seq<char>) -> CliModel {
    match option {
        ValueOption::WriteAllow => CliModel { write_allow: m.write_allow.push(path), ..m },
        ValueOption::ExecAllow => CliModel { exec_allow: m.exec_allow.push(path), ..m },
        _ => CliModel { device_ioctl_allow: m.device_ioctl_allow.push(path), ..m },
    }
}

/// The settings with one more port.
pub open spec fn with_port(m: CliModel, option: ValueOption, port: u16) -> CliModel {
    match option {
        ValueOption::BindTcpAllow => CliModel { bind_tcp_allow: m.bind_tcp_allow.push(port), ..m },
        _ => CliModel { connect_tcp_allow: m.connect_tcp_allow.push(port), ..m },
    }
}

impl Cli {
    /// Sets the parent-death signal.
    pub fn set_signal(&mut self, signal: String)
        ensures
            final(self)@ == with_signal(old(self)@, signal@),
    {
        self.pdeath = Some(signal);
    }

    /// Adds an exit code that counts as success.
    pub fn add_exit_code(&mut self, code: u8)
        ensures
            final(self)@ == with_exit_code(old(self)@, code),
    {
        self.remap_exit.push(code);
    }

    /// Sets the grace period.
    pub fn set_grace(&mut self, millis: u64)
        ensures
            final(self)@ == with_grace(old(self)@, millis),
    {
        self.grace_ms = millis;
    }

    /// Sets the verbosity.
    pub fn set_verbosity(&mut self, verbosity: u8)
        ensures
            final(self)@ == with_verbosity(old(self)@, verbosity),
    {
        self.verbosity = verbosity;
    }

    /// Adds a preset.
    pub fn add_preset(&mut self, preset: WritePreset)
        ensures
            final(self)@ == with_preset(old(self)@, preset),
    {
        self.write_preset.push(preset);
    }

    /// Adds a path to the list of `option`.
    pub fn add_path(&mut self, option: ValueOption, path: String)
        ensures
            final(self)@ == with_path(old(self)@, option, path@),
    {
        let ghost m = self@;
        match option {
            ValueOption::WriteAllow => {
                proof {
                    lemma_texts_push(self.write_allow@, path);
                }
                self.write_allow.push(path);
                assert(self@ == (CliModel { write_allow: m.write_allow.push(path@), ..m }));
            },
            ValueOption::ExecAllow => {
                proof {
                    lemma_texts_push(self.exec_allow@, path);
                }
                self.exec_allow.push(path);
                assert(self@ == (CliModel { exec_allow: m.exec_allow.push(path@), ..m }));
            },
            _ => {
                proof {
                    lemma_texts_push(self.device_ioctl_allow@, path);
                }
                self.device_ioctl_allow.push(path);
                assert(self@ == (CliModel {
                    device_ioctl_allow: m.device_ioctl_allow.push(path@),
                    ..m
                }));
            },
        }
    }

    /// Adds a port to the list of `option`.
    pub fn add_port(&mut self, option: ValueOption, port: u16)
        ensures
            final(self)@ == with_port(old(self)@, option, port),
    {
        match option {
            ValueOption::BindTcpAllow => {
                self.bind_tcp_allow.push(port);
            },
            _ => {
                self.connect_tcp_allow.push(port);
            },
        }
    }
}

} // verus!
