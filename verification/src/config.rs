//! The configuration file: one setting per line, blank lines and comments ignored.

use vstd::prelude::*;
use vstd::slice::slice_subrange;

use crate::cli::{
    self, find_flag, find_value_option, parse_signal, validate_port, Cli, CliErrorModel, CliModel,
    CliParseError, Flag, ValueOption, WritePreset,
};
use crate::text::{
    self, chars_of, decimal_text, escape_str, has_char, is_text, parse_unsigned, space, split_lines,
    text_of, trimmed,
};

verus! {

// ---------------------------------------------------------------------------
// Keys
// ---------------------------------------------------------------------------

/// What a key of the configuration file asks for.
#[derive(Clone, Copy, Debug, PartialEq, Eq, Structural)]
pub enum ConfigKey {
    /// A setting without a value.
    Flag(Flag),
    /// A setting with a value.
    Value(ValueOption),
    /// How much is logged.
    Verbosity,
    /// Something that only the command line can ask for.
    CommandLineOnly,
    /// Nothing that is known.
    Unknown,
}

/// Whether a flag can only be given on the command line.
pub open spec fn is_control(f: Flag) -> bool {
    f == Flag::Explain || f == Flag::PrintConfig || f == Flag::WriteConfig || f == Flag::CheckConfig
        || f == Flag::NoConfig
}

/// What a key asks for.
pub open spec fn key_meaning(key: Seq<char>) -> ConfigKey {
    if key == "pdeath"@ {
        ConfigKey::Value(ValueOption::ParentDeathSignal)
    } else if key == "verbosity"@ {
        ConfigKey::Verbosity
    } else if key == "help"@ || key == "version"@ {
        ConfigKey::CommandLineOnly
    } else {
        match cli::flag_of(key) {
            Some(f) => if is_control(f) {
                ConfigKey::CommandLineOnly
            } else {
                ConfigKey::Flag(f)
            },
            None => match cli::value_option_of(key) {
                Some(v) => ConfigKey::Value(v),
                None => ConfigKey::Unknown,
            },
        }
    }
}

fn find_key(key: &[char]) -> (r: ConfigKey)
    ensures
        r == key_meaning(key@),
{
    if is_text(key, "pdeath") {
        return ConfigKey::Value(ValueOption::ParentDeathSignal);
    }
    if is_text(key, "verbosity") {
        return ConfigKey::Verbosity;
    }
    if is_text(key, "help") || is_text(key, "version") {
        return ConfigKey::CommandLineOnly;
    }
    match find_flag(key) {
        Some(f) => {
            if f == Flag::Explain || f == Flag::PrintConfig || f == Flag::WriteConfig || f
                == Flag::CheckConfig || f == Flag::NoConfig {
                ConfigKey::CommandLineOnly
            } else {
                ConfigKey::Flag(f)
            }
        },
        None => match find_value_option(key) {
            Some(v) => ConfigKey::Value(v),
            None => ConfigKey::Unknown,
        },
    }
}

// ---------------------------------------------------------------------------
// Lines
// ---------------------------------------------------------------------------

/// Whether a text begins with two dashes and goes on behind them.
pub open spec fn has_option_prefix(s: Seq<char>) -> bool {
    s.len() > 2 && s[0] == '-' && s[1] == '-'
}

/// The key of a line: what stands in front of the first white space, without leading dashes.
pub open spec fn line_key(line: Seq<char>) -> Seq<char> {
    let raw = line.take(text::first_where(line, text::space_pred()));
    if has_option_prefix(raw) {
        raw.skip(2)
    } else {
        raw
    }
}

/// The value of a line: what stands behind the first white space, if anything does.
pub open spec fn line_value(line: Seq<char>) -> Option<Seq<char>> {
    let value = text::trim(line.skip(text::first_where(line, text::space_pred())));
    if value.len() == 0 {
        None
    } else {
        Some(value)
    }
}

fn find_space(s: &[char]) -> (r: usize)
    ensures
        r == text::first_where(s@, text::space_pred()),
        r <= s@.len(),
{
    let mut i: usize = 0;
    while i < s.len() && !space(s[i])
        invariant
            i <= s@.len(),
            forall|j: int| 0 <= j < i ==> !text::is_space(#[trigger] s@[j]),
        decreases s@.len() - i,
    {
        i = i + 1;
    }
    proof {
        text::lemma_first_where(s@, text::space_pred(), i as int);
    }
    i
}

/// The characters of an optional slice.
pub open spec fn opt_slice(v: Option<&[char]>) -> Option<Seq<char>> {
    match v {
        Some(c) => Some(c@),
        None => None,
    }
}

/// The key and the value of a line.
pub fn split_config_line<'a>(line: &'a [char]) -> (r: (&'a [char], Option<&'a [char]>))
    ensures
        r.0@ == line_key(line@),
        opt_slice(r.1) == line_value(line@),
{
    let k: usize = find_space(line);
    let raw = slice_subrange(line, 0, k);
    let rest = slice_subrange(line, k, line.len());
    proof {
        assert(raw@ =~= line@.take(k as int));
        assert(rest@ =~= line@.skip(k as int));
    }
    let value = trimmed(rest);
    let key = if raw.len() > 2 && raw[0] == '-' && raw[1] == '-' {
        let stripped = slice_subrange(raw, 2, raw.len());
        proof {
            assert(stripped@ =~= raw@.skip(2));
        }
        stripped
    } else {
        raw
    };
    if value.len() == 0 {
        (key, None)
    } else {
        (key, Some(value))
    }
}

/// What makes a value impossible to write in a file of lines, or to hand to the kernel.
pub open spec fn value_complaint(key: Seq<char>, value: Seq<char>) -> Option<Seq<char>> {
    if value.contains('\n') || value.contains('\r') {
        Some("config value for '"@ + key + "' cannot contain newlines"@)
    } else if value.contains('\0') {
        Some("config value for '"@ + key + "' cannot contain NUL bytes"@)
    } else {
        None
    }
}

fn quoted(before: &str, key: &str, behind: &str) -> (r: String)
    ensures
        r@ == before@ + key@ + behind@,
{
    let mut out = before.to_owned();
    out.append(key);
    out.append(behind);
    out
}

fn complain_about_value(key: &str, value: &[char]) -> (r: Option<String>)
    ensures
        cli::opt_text(r) == value_complaint(key@, value@),
{
    if has_char(value, '\n') || has_char(value, '\r') {
        return Some(quoted("config value for '", key, "' cannot contain newlines"));
    }
    if has_char(value, '\0') {
        return Some(quoted("config value for '", key, "' cannot contain NUL bytes"));
    }
    None
}

/// A number in a line, or the complaint about it.
pub open spec fn line_number(key: Seq<char>, value: Seq<char>, max: nat) -> Result<nat, Seq<char>> {
    match text::unsigned_of(value, max) {
        Ok(n) => Ok(n),
        Err(e) => Err("invalid value for '"@ + key + "': "@ + text::number_error_text(e)),
    }
}

fn read_number(key: &str, value: &[char], max: u64) -> (r: Result<u64, String>)
    ensures
        match r {
            Ok(n) => line_number(key@, value@, max as nat) == Ok::<nat, Seq<char>>(n as nat) && n
                <= max,
            Err(e) => line_number(key@, value@, max as nat) == Err::<nat, Seq<char>>(e@),
        },
{
    match parse_unsigned(value, max) {
        Ok(n) => Ok(n),
        Err(e) => Err(quoted("invalid value for '", key, "': ").concat(e.describe())),
    }
}

/// The settings after a line that gives `option` a value.
pub open spec fn value_effect(m: CliModel, option: ValueOption, key: Seq<char>, value: Seq<char>) -> Result<
    CliModel,
    Seq<char>,
> {
    match option {
        ValueOption::ParentDeathSignal => match cli::signal_text(value) {
            Ok(s) => Ok(cli::with_signal(m, s)),
            Err(e) => Err(e),
        },
        ValueOption::RemapExit => match line_number(key, value, 255) {
            Ok(n) => Ok(cli::with_exit_code(m, n as u8)),
            Err(e) => Err(e),
        },
        ValueOption::GraceMs => match line_number(key, value, 18446744073709551615) {
            Ok(n) => Ok(cli::with_grace(m, n as u64)),
            Err(e) => Err(e),
        },
        ValueOption::WritePreset => match cli::preset_of(value) {
            Ok(p) => Ok(cli::with_preset(m, p)),
            Err(e) => Err(e),
        },
        ValueOption::BindTcpAllow | ValueOption::ConnectTcpAllow => match line_number(
            key,
            value,
            65535,
        ) {
            Ok(n) => if n == 0 {
                Err(cli::port_error(key))
            } else {
                Ok(cli::with_port(m, option, n as u16))
            },
            Err(e) => Err(e),
        },
        ValueOption::WriteAllow | ValueOption::ExecAllow | ValueOption::DeviceIoctlAllow => Ok(
            cli::with_path(m, option, value),
        ),
    }
}

/// The settings after a line with the given key and value, or the complaint about it.
pub open spec fn line_effect(m: CliModel, key: Seq<char>, value: Option<Seq<char>>) -> Result<
    CliModel,
    Seq<char>,
> {
    match key_meaning(key) {
        ConfigKey::Flag(f) => if value is Some {
            Err("'"@ + key + "' does not take a value"@)
        } else {
            Ok(cli::with_flag(m, f))
        },
        ConfigKey::CommandLineOnly => Err(
            "'"@ + text::escape(key) + "' is only allowed on the command line"@,
        ),
        ConfigKey::Unknown => Err("unknown config option '"@ + text::escape(key) + "'"@),
        ConfigKey::Verbosity => match value {
            None => Err("'"@ + key + "' requires a value"@),
            Some(v) => match value_complaint(key, v) {
                Some(e) => Err(e),
                None => match line_number(key, v, 255) {
                    Err(e) => Err(e),
                    Ok(n) => if n > 3 {
                        Err("invalid value for 'verbosity': expected 0-3"@)
                    } else {
                        Ok(cli::with_verbosity(m, n as u8))
                    },
                },
            },
        },
        ConfigKey::Value(option) => match value {
            None => Err("'"@ + key + "' requires a value"@),
            Some(v) => match value_complaint(key, v) {
                Some(e) => Err(e),
                None => value_effect(m, option, key, v),
            },
        },
    }
}

/// Whether a change to the settings came out as wanted. An error leaves the settings as they were.
pub open spec fn changed(
    before: CliModel,
    r: Result<(), String>,
    after: CliModel,
    wanted: Result<CliModel, Seq<char>>,
) -> bool {
    match (r, wanted) {
        (Ok(_), Ok(m)) => after == m,
        (Err(e), Err(message)) => e@ == message && after == before,
        _ => false,
    }
}

fn apply_value(cli: &mut Cli, option: ValueOption, key: &str, value: &[char]) -> (r: Result<
    (),
    String,
>)
    ensures
        changed(
            old(cli)@,
            r,
            final(cli)@,
            value_effect(old(cli)@, option, key@, value@),
        ),
{
    match option {
        ValueOption::ParentDeathSignal => {
            let raw = text_of(value);
            match parse_signal(raw.as_str()) {
                Ok(s) => {
                    cli.set_signal(s);
                    Ok(())
                },
                Err(e) => Err(e.message().to_owned()),
            }
        },
        ValueOption::RemapExit => match read_number(key, value, 255) {
            Ok(n) => {
                cli.add_exit_code(n as u8);
                Ok(())
            },
            Err(e) => Err(e),
        },
        ValueOption::GraceMs => match read_number(key, value, u64::MAX) {
            Ok(n) => {
                cli.set_grace(n);
                Ok(())
            },
            Err(e) => Err(e),
        },
        ValueOption::WritePreset => {
            let raw = text_of(value);
            match WritePreset::parse(raw.as_str()) {
                Ok(p) => {
                    cli.add_preset(p);
                    Ok(())
                },
                Err(e) => Err(e.message().to_owned()),
            }
        },
        ValueOption::BindTcpAllow | ValueOption::ConnectTcpAllow => match read_number(
            key,
            value,
            65535,
        ) {
            Ok(n) => match validate_port(key, n as u16) {
                Ok(port) => {
                    cli.add_port(option, port);
                    Ok(())
                },
                Err(e) => Err(e.message().to_owned()),
            },
            Err(e) => Err(e),
        },
        ValueOption::WriteAllow | ValueOption::ExecAllow | ValueOption::DeviceIoctlAllow => {
            cli.add_path(option, text_of(value));
            Ok(())
        },
    }
}

/// A value that has to be there and that has to be representable.
fn config_value<'a>(key: &str, value: Option<&'a [char]>) -> (r: Result<&'a [char], String>)
    ensures
        match r {
            Ok(v) => opt_slice(value) == Some(v@) && value_complaint(key@, v@) is None,
            Err(e) => match opt_slice(value) {
                None => e@ == "'"@ + key@ + "' requires a value"@,
                Some(v) => value_complaint(key@, v) == Some(e@),
            },
        },
{
    match value {
        None => Err(quoted("'", key, "' requires a value")),
        Some(v) => match complain_about_value(key, v) {
            Some(e) => Err(e),
            None => Ok(v),
        },
    }
}

fn apply_setting(cli: &mut Cli, key: &[char], value: Option<&[char]>) -> (r: Result<(), String>)
    ensures
        changed(old(cli)@, r, final(cli)@, line_effect(old(cli)@, key@, opt_slice(value))),
{
    let key_text = text_of(key);
    match find_key(key) {
        ConfigKey::Flag(f) => {
            if value.is_some() {
                return Err(quoted("'", key_text.as_str(), "' does not take a value"));
            }
            cli.set(f);
            Ok(())
        },
        ConfigKey::CommandLineOnly => {
            let shown = escape_str(key_text.as_str());
            Err(quoted("'", shown.as_str(), "' is only allowed on the command line"))
        },
        ConfigKey::Unknown => {
            let shown = escape_str(key_text.as_str());
            Err(quoted("unknown config option '", shown.as_str(), "'"))
        },
        ConfigKey::Verbosity => match config_value(key_text.as_str(), value) {
            Err(e) => Err(e),
            Ok(v) => match read_number(key_text.as_str(), v, 255) {
                Err(e) => Err(e),
                Ok(n) => {
                    if n > 3 {
                        return Err("invalid value for 'verbosity': expected 0-3".to_owned());
                    }
                    cli.set_verbosity(n as u8);
                    Ok(())
                },
            },
        },
        ConfigKey::Value(option) => match config_value(key_text.as_str(), value) {
            Err(e) => Err(e),
            Ok(v) => apply_value(cli, option, key_text.as_str(), v),
        },
    }
}

/// An error in a line of a file.
pub open spec fn located(path: Seq<char>, line_no: nat, message: Seq<char>) -> CliErrorModel {
    cli::config_file_error(path + ":"@ + text::decimal(line_no) + ": "@ + message)
}

fn config_error(path: &str, line_no: usize, message: &str) -> (r: CliParseError)
    ensures
        r@ == located(path@, line_no as nat, message@),
{
    let mut out = path.to_owned();
    out.append(":");
    out.append(decimal_text(line_no as u64).as_str());
    out.append(": ");
    out.append(message);
    CliParseError::config(out)
}

/// Applies one line that is neither blank nor a comment. A line that cannot be applied leaves the
/// settings as they were.
pub fn apply_config_line(cli: &mut Cli, path: &str, line_no: usize, line: &[char]) -> (r: Result<
    (),
    CliParseError,
>)
    ensures
        match (r, line_effect(old(cli)@, line_key(line@), line_value(line@))) {
            (Ok(_), Ok(m)) => final(cli)@ == m,
            (Err(e), Err(message)) => e@ == located(path@, line_no as nat, message) && final(cli)@
                == old(cli)@,
            _ => false,
        },
{
    let (key, value) = split_config_line(line);
    match apply_setting(cli, key, value) {
        Ok(_) => Ok(()),
        Err(message) => Err(config_error(path, line_no, message.as_str())),
    }
}

/// Whether a line, trimmed, says nothing.
pub open spec fn is_blank(line: Seq<char>) -> bool {
    line.len() == 0 || line[0] == '#'
}

/// The settings after the lines of a file, or the error in the first bad line.
pub open spec fn lines_effect(path: Seq<char>, all: Seq<Seq<char>>) -> Result<
    CliModel,
    CliErrorModel,
>
    decreases all.len(),
{
    if all.len() == 0 {
        Ok(cli::default_settings())
    } else {
        let line = text::trim(all.last());
        match lines_effect(path, all.drop_last()) {
            Err(e) => Err(e),
            Ok(m) => if is_blank(line) {
                Ok(m)
            } else {
                match line_effect(m, line_key(line), line_value(line)) {
                    Ok(x) => Ok(x),
                    Err(message) => Err(located(path, all.len(), message)),
                }
            },
        }
    }
}

/// The settings that a file holds.
pub open spec fn content_effect(path: Seq<char>, content: Seq<char>) -> Result<
    CliModel,
    CliErrorModel,
> {
    lines_effect(path, text::lines(content))
}

/// Settings that were read, as the contracts speak of them.
pub open spec fn cli_result(r: Result<Cli, CliParseError>) -> Result<CliModel, CliErrorModel> {
    match r {
        Ok(c) => Ok(c@),
        Err(e) => Err(e@),
    }
}

proof fn lemma_lines_error(path: Seq<char>, all: Seq<Seq<char>>, n: int)
    requires
        0 <= n <= all.len(),
        lines_effect(path, all.take(n)) is Err,
    ensures
        lines_effect(path, all) == lines_effect(path, all.take(n)),
    decreases all.len() - n,
{
    if n < all.len() {
        assert(all.take(n + 1).drop_last() =~= all.take(n));
        lemma_lines_error(path, all, n + 1);
    } else {
        assert(all.take(n) =~= all);
    }
}

/// Reads the contents of a configuration file. `path` is the name of the file in errors.
pub fn parse_config_content(path: &str, content: &str) -> (r: Result<Cli, CliParseError>)
    ensures
        cli_result(r) == content_effect(path@, content@),
{
    let chars = chars_of(content);
    let lines = split_lines(chars.as_slice());
    let ghost all = text::view_lines(lines@);
    let mut cli = Cli::default();
    let mut i: usize = 0;
    while i < lines.len()
        invariant
            i <= lines@.len(),
            all == text::view_lines(lines@),
            all == text::lines(content@),
            lines_effect(path@, all.take(i as int)) == Ok::<CliModel, CliErrorModel>(cli@),
        decreases lines@.len() - i,
    {
        let line = trimmed(lines[i].as_slice());
        let ghost t = all.take(i + 1);
        proof {
            assert(t.drop_last() =~= all.take(i as int));
            assert(t.last() == lines@[i as int]@);
        }
        if line.len() > 0 && line[0] != '#' {
            match apply_config_line(&mut cli, path, i + 1, line) {
                Ok(_) => {},
                Err(e) => {
                    proof {
                        assert(lines_effect(path@, t) == Err::<CliModel, CliErrorModel>(e@));
                        lemma_lines_error(path@, all, i + 1);
                    }
                    return Err(e);
                },
            }
        }
        i = i + 1;
    }
    proof {
        assert(all.take(i as int) =~= all);
    }
    Ok(cli)
}

/// What comes of reading the file: its contents, or why it cannot be read.
#[derive(Debug)]
pub enum FileContent {
    /// The file holds this text.
    Text(String),
    /// There is no such file.
    NotFound,
    /// The file cannot be read, for the given reason.
    Failed(String),
}

/// The settings of a file. A file that is not required may be missing.
pub open spec fn file_effect(path: Seq<char>, required: bool, content: FileContent) -> Result<
    CliModel,
    CliErrorModel,
> {
    match content {
        FileContent::Text(s) => content_effect(path, s@),
        FileContent::NotFound => if required {
            Err(cli::config_file_error(path + ": file not found"@))
        } else {
            Ok(cli::default_settings())
        },
        FileContent::Failed(e) => Err(cli::config_file_error("read "@ + path + ": "@ + e@)),
    }
}

/// The settings of a file that was read.
pub fn load_config(path: &str, required: bool, content: &FileContent) -> (r: Result<
    Cli,
    CliParseError,
>)
    ensures
        cli_result(r) == file_effect(path@, required, *content),
{
    match content {
        FileContent::Text(s) => parse_config_content(path, s.as_str()),
        FileContent::NotFound => {
            if required {
                let mut message = path.to_owned();
                message.append(": file not found");
                Err(CliParseError::config(message))
            } else {
                Ok(Cli::default())
            }
        },
        FileContent::Failed(e) => {
            let mut message = quoted("read ", path, ": ");
            message.append(e.as_str());
            Err(CliParseError::config(message))
        },
    }
}

} // verus!
