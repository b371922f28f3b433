//! The command line: options in front, the command to manage behind them.
//!
//! Splitting arguments into options and values is the work of `osarg`. What each option means is
//! decided here. A position in the arguments is the list of those that are left, together with
//! how many short options of the first one have been read already.

use osarg::{Arg, Parser};
use vstd::prelude::*;

use crate::cli::{
    self, find_flag, find_value_option, parse_signal, validate_port, Cli, CliErrorModel, CliModel,
    CliParseError, Flag, ValueOption, WritePreset,
};
use crate::config::{self, load_config, FileContent};
use crate::text::{self, chars_of, escape_str, has_char, is_text};

verus! {

/// What stands at a position.
#[derive(Debug)]
pub enum Token {
    /// A short option.
    Short(char),
    /// A long option, without its dashes and its value.
    Long(String),
    /// An argument that is no option.
    Value(String),
}

/// What a [`Token`] holds.
pub enum TokenModel {
    Short(char),
    Long(Seq<char>),
    Value(Seq<char>),
}

impl View for Token {
    type V = TokenModel;

    open spec fn view(&self) -> TokenModel {
        match *self {
            Token::Short(c) => TokenModel::Short(c),
            Token::Long(s) => TokenModel::Long(s@),
            Token::Value(s) => TokenModel::Value(s@),
        }
    }
}

// ---------------------------------------------------------------------------
// Tokens
// ---------------------------------------------------------------------------

/// A group of short options.
pub open spec fn is_group(a: Seq<char>) -> bool {
    a.len() > 1 && a[0] == '-' && a[1] != '-'
}

/// A long option, with or without a value.
pub open spec fn is_long(a: Seq<char>) -> bool {
    a.len() > 2 && a[0] == '-' && a[1] == '-'
}

pub open spec fn is_ascii(c: char) -> bool {
    c <= '\u{7f}'
}

/// A position: where short options have been read already, there are more of them.
pub open spec fn is_position(args: Seq<Seq<char>>, read: nat) -> bool {
    read > 0 ==> {
        &&& args.len() > 0
        &&& is_group(args[0])
        &&& read + 1 < args[0].len()
        &&& forall|i: int| 1 <= i <= read ==> is_ascii(#[trigger] args[0][i])
    }
}

/// The name of a long option.
pub open spec fn long_name(a: Seq<char>) -> Seq<char> {
    let body = a.skip(2);
    body.take(text::first_where(body, text::is_char('=')))
}

/// The value that is attached to a long option.
pub open spec fn long_value(a: Seq<char>) -> Option<Seq<char>> {
    let body = a.skip(2);
    let k = text::first_where(body, text::is_char('='));
    if 0 <= k < body.len() {
        Some(body.skip(k + 1))
    } else {
        None
    }
}

pub open spec fn bad_name(a: Seq<char>) -> Seq<char> {
    "option name is invalid or not valid UTF-8: "@ + a
}

/// What stands at a position. Behind two dashes there are no options.
pub open spec fn token_at(args: Seq<Seq<char>>, read: nat) -> Result<Option<TokenModel>, Seq<char>> {
    if args.len() == 0 {
        Ok(None)
    } else {
        let a = args[0];
        if is_group(a) {
            if is_ascii(a[read as int + 1]) {
                Ok(Some(TokenModel::Short(a[read as int + 1])))
            } else {
                Err(bad_name(a))
            }
        } else if is_long(a) {
            if long_name(a).len() == 0 {
                Err(bad_name(a))
            } else {
                Ok(Some(TokenModel::Long(long_name(a))))
            }
        } else if a == seq!['-', '-'] {
            if args.len() > 1 {
                Ok(Some(TokenModel::Value(args[1])))
            } else {
                Ok(None)
            }
        } else {
            Ok(Some(TokenModel::Value(a)))
        }
    }
}

/// Whether more short options follow the one at a position.
pub open spec fn group_goes_on(args: Seq<Seq<char>>, read: nat) -> bool {
    args.len() > 0 && is_group(args[0]) && read + 2 < args[0].len()
}

/// The arguments that are left behind what stands at a position. A group of short options that
/// goes on is left with those that follow.
pub open spec fn left_behind(args: Seq<Seq<char>>, read: nat) -> Seq<Seq<char>> {
    if args.len() == 0 {
        args
    } else if group_goes_on(args, read) {
        seq![seq!['-'] + args[0].skip(read as int + 2)] + args.skip(1)
    } else if args[0] == seq!['-', '-'] && args.len() > 1 {
        args.skip(2)
    } else {
        args.skip(1)
    }
}

/// The value of the option at a position: what is attached to it, or else the next argument.
pub open spec fn value_at(args: Seq<Seq<char>>, read: nat) -> Result<Seq<char>, Seq<char>> {
    let a = args[0];
    if is_long(a) && long_value(a) is Some {
        Ok(long_value(a)->0)
    } else if group_goes_on(args, read) {
        Ok(a.skip(read as int + 2))
    } else if args.len() > 1 {
        Ok(args[1])
    } else {
        Err("missing value for argument: "@ + a)
    }
}

/// The arguments that are left behind the option at a position and its value.
pub open spec fn left_behind_value(args: Seq<Seq<char>>, read: nat) -> Seq<Seq<char>> {
    let a = args[0];
    if (is_long(a) && long_value(a) is Some) || group_goes_on(args, read) || args.len() < 2 {
        args.skip(1)
    } else {
        args.skip(2)
    }
}

/// The number that the option at a position has as its value.
pub open spec fn number_at(args: Seq<Seq<char>>, read: nat, max: nat) -> Result<nat, Seq<char>> {
    match value_at(args, read) {
        Err(e) => Err(e),
        Ok(v) => match text::unsigned_of(v, max) {
            Ok(n) => Ok(n),
            Err(_) => Err("invalid value: "@ + v),
        },
    }
}

/// A token that was read, as the contracts speak of it.
pub open spec fn token_result(r: Result<Option<Token>, String>) -> Result<
    Option<TokenModel>,
    Seq<char>,
> {
    match r {
        Ok(Some(t)) => Ok(Some(t@)),
        Ok(None) => Ok(None),
        Err(e) => Err(e@),
    }
}

/// A text that was read, as the contracts speak of it.
pub open spec fn text_result(r: Result<String, String>) -> Result<Seq<char>, Seq<char>> {
    match r {
        Ok(s) => Ok(s@),
        Err(e) => Err(e@),
    }
}

/// Whether an option stands at a position.
pub open spec fn option_at(args: Seq<Seq<char>>, read: nat) -> bool {
    token_at(args, read) matches Ok(Some(t)) && !(t is Value)
}

/// `osarg::Parser::next`, on a parser that has read the short options in front of a position: what
/// stands at the position, and the arguments that are left behind it. An error is given as the
/// text that it displays.
#[verifier::external_body]
pub(crate) fn parser_next(args: &Vec<String>, read: usize) -> (r: (Result<Option<Token>, String>, Vec<String>))
    requires
        is_position(text::texts(args@), read as nat),
    ensures
        token_result(r.0) == token_at(text::texts(args@), read as nat),
        r.0 is Ok ==> text::texts(r.1@) == left_behind(text::texts(args@), read as nat),
{
    let mut parser = Parser::from_args(args);
    for _ in 0..read {
        let _ = parser.next();
    }
    let token = match parser.next() {
        Ok(None) => Ok(None),
        Ok(Some(Arg::Short(c))) => Ok(Some(Token::Short(c))),
        Ok(Some(Arg::Long(name))) => Ok(Some(Token::Long(name.to_owned()))),
        Ok(Some(Arg::Value(v))) => Ok(Some(Token::Value(v.to_string_lossy().into_owned()))),
        Err(e) => Err(e.to_string()),
    };
    (token, parser.remaining_vec().iter().map(|a| a.to_string_lossy().into_owned()).collect())
}

/// `osarg::Parser::value`, behind `next` at a position where an option stands: the value of the
/// option, and the arguments that are left behind it. An error is given as the text that it
/// displays.
#[verifier::external_body]
pub(crate) fn parser_value(args: &Vec<String>, read: usize) -> (r: (Result<String, String>, Vec<String>))
    requires
        is_position(text::texts(args@), read as nat),
        option_at(text::texts(args@), read as nat),
    ensures
        text_result(r.0) == value_at(text::texts(args@), read as nat),
        text::texts(r.1@) == left_behind_value(text::texts(args@), read as nat),
{
    let mut parser = Parser::from_args(args);
    for _ in 0..read {
        let _ = parser.next();
    }
    let _ = parser.next();
    let value = match parser.value() {
        Ok(v) => Ok(v.to_string_lossy().into_owned()),
        Err(e) => Err(e.to_string()),
    };
    (value, parser.remaining_vec().iter().map(|a| a.to_string_lossy().into_owned()).collect())
}

/// `osarg::Parser::parse::<u8>`, behind `next` at a position where an option stands: the value of
/// the option as a number, and the arguments that are left behind it.
#[verifier::external_body]
fn parser_parse_u8(args: &Vec<String>, read: usize) -> (r: (Result<u8, String>, Vec<String>))
    requires
        is_position(text::texts(args@), read as nat),
        option_at(text::texts(args@), read as nat),
    ensures
        match r.0 {
            Ok(n) => number_at(text::texts(args@), read as nat, 255) == Ok::<nat, Seq<char>>(
                n as nat,
            ),
            Err(e) => number_at(text::texts(args@), read as nat, 255) == Err::<nat, Seq<char>>(e@),
        },
        text::texts(r.1@) == left_behind_value(text::texts(args@), read as nat),
{
    let mut parser = Parser::from_args(args);
    for _ in 0..read {
        let _ = parser.next();
    }
    let _ = parser.next();
    let value = parser.parse::<u8>().map_err(|e| e.to_string());
    (value, parser.remaining_vec().iter().map(|a| a.to_string_lossy().into_owned()).collect())
}

/// `osarg::Parser::parse::<u16>`, behind `next` at a position where an option stands: the value of
/// the option as a number, and the arguments that are left behind it.
#[verifier::external_body]
fn parser_parse_u16(args: &Vec<String>, read: usize) -> (r: (Result<u16, String>, Vec<String>))
    requires
        is_position(text::texts(args@), read as nat),
        option_at(text::texts(args@), read as nat),
    ensures
        match r.0 {
            Ok(n) => number_at(text::texts(args@), read as nat, 65535) == Ok::<nat, Seq<char>>(
                n as nat,
            ),
            Err(e) => number_at(text::texts(args@), read as nat, 65535) == Err::<nat, Seq<char>>(
                e@,
            ),
        },
        text::texts(r.1@) == left_behind_value(text::texts(args@), read as nat),
{
    let mut parser = Parser::from_args(args);
    for _ in 0..read {
        let _ = parser.next();
    }
    let _ = parser.next();
    let value = parser.parse::<u16>().map_err(|e| e.to_string());
    (value, parser.remaining_vec().iter().map(|a| a.to_string_lossy().into_owned()).collect())
}

/// `osarg::Parser::parse::<u64>`, behind `next` at a position where an option stands: the value of
/// the option as a number, and the arguments that are left behind it.
#[verifier::external_body]
fn parser_parse_u64(args: &Vec<String>, read: usize) -> (r: (Result<u64, String>, Vec<String>))
    requires
        is_position(text::texts(args@), read as nat),
        option_at(text::texts(args@), read as nat),
    ensures
        match r.0 {
            Ok(n) => number_at(text::texts(args@), read as nat, 18446744073709551615) == Ok::<
                nat,
                Seq<char>,
            >(n as nat),
            Err(e) => number_at(text::texts(args@), read as nat, 18446744073709551615) == Err::<
                nat,
                Seq<char>,
            >(e@),
        },
        text::texts(r.1@) == left_behind_value(text::texts(args@), read as nat),
{
    let mut parser = Parser::from_args(args);
    for _ in 0..read {
        let _ = parser.next();
    }
    let _ = parser.next();
    let value = parser.parse::<u64>().map_err(|e| e.to_string());
    (value, parser.remaining_vec().iter().map(|a| a.to_string_lossy().into_owned()).collect())
}

/// `osarg::Parser::current_value_and_remaining`, behind `next` where an argument that is no option
/// stands at the front: that argument, and all that follow it.
#[verifier::external_body]
fn parser_command(args: &Vec<String>) -> (r: Result<(String, Vec<String>), String>)
    requires
        token_at(text::texts(args@), 0) matches Ok(Some(t)) && t is Value,
    ensures
        match r {
            Ok((command, rest)) => {
                &&& token_at(text::texts(args@), 0) == Ok::<Option<TokenModel>, Seq<char>>(
                    Some(TokenModel::Value(command@)),
                )
                &&& text::texts(rest@) == left_behind(text::texts(args@), 0)
            },
            Err(_) => false,
        },
{
    let mut parser = Parser::from_args(args);
    let _ = parser.next();
    match parser.current_value_and_remaining() {
        Ok((command, rest)) => Ok((
            command.to_string_lossy().into_owned(),
            rest.iter().map(|a| a.to_string_lossy().into_owned()).collect(),
        )),
        Err(e) => Err(e.to_string()),
    }
}

// ---------------------------------------------------------------------------
// Options
// ---------------------------------------------------------------------------

/// What a token asks for.
#[derive(Clone, Copy, Debug, PartialEq, Eq, Structural)]
pub enum Choice {
    Help,
    Version,
    Flag(Flag),
    Verbose,
    Value(ValueOption),
    /// The command begins here.
    Command,
    /// Nothing that is known.
    Unknown,
}

/// What a short option asks for.
pub open spec fn short_choice(c: char) -> Choice {
    if c == 'h' {
        Choice::Help
    } else if c == 'V' {
        Choice::Version
    } else if c == 's' {
        Choice::Flag(Flag::Subreaper)
    } else if c == 'w' {
        Choice::Flag(Flag::WarnOnReap)
    } else if c == 'g' {
        Choice::Flag(Flag::PgroupKill)
    } else if c == 'v' {
        Choice::Verbose
    } else if c == 'p' {
        Choice::Value(ValueOption::ParentDeathSignal)
    } else if c == 'e' {
        Choice::Value(ValueOption::RemapExit)
    } else if c == 't' {
        Choice::Value(ValueOption::GraceMs)
    } else {
        Choice::Unknown
    }
}

/// What a long option asks for.
pub open spec fn long_choice(name: Seq<char>) -> Choice {
    if name == "help"@ {
        Choice::Help
    } else if name == "version"@ {
        Choice::Version
    } else if name == "verbose"@ {
        Choice::Verbose
    } else if cli::flag_of(name) is Some {
        Choice::Flag(cli::flag_of(name)->0)
    } else if cli::value_option_of(name) is Some {
        Choice::Value(cli::value_option_of(name)->0)
    } else {
        Choice::Unknown
    }
}

/// What a token asks for.
pub open spec fn choice(t: TokenModel) -> Choice {
    match t {
        TokenModel::Short(c) => short_choice(c),
        TokenModel::Long(name) => long_choice(name),
        TokenModel::Value(_) => Choice::Command,
    }
}

/// What a token asks for.
pub fn token_choice(t: &Token) -> (r: Choice)
    ensures
        r == choice(t@),
{
    match t {
        Token::Short(c) => {
            let c = *c;
            if c == 'h' {
                Choice::Help
            } else if c == 'V' {
                Choice::Version
            } else if c == 's' {
                Choice::Flag(Flag::Subreaper)
            } else if c == 'w' {
                Choice::Flag(Flag::WarnOnReap)
            } else if c == 'g' {
                Choice::Flag(Flag::PgroupKill)
            } else if c == 'v' {
                Choice::Verbose
            } else if c == 'p' {
                Choice::Value(ValueOption::ParentDeathSignal)
            } else if c == 'e' {
                Choice::Value(ValueOption::RemapExit)
            } else if c == 't' {
                Choice::Value(ValueOption::GraceMs)
            } else {
                Choice::Unknown
            }
        },
        Token::Long(name) => {
            let chars = chars_of(name.as_str());
            let s = chars.as_slice();
            if is_text(s, "help") {
                Choice::Help
            } else if is_text(s, "version") {
                Choice::Version
            } else if is_text(s, "verbose") {
                Choice::Verbose
            } else {
                match find_flag(s) {
                    Some(f) => Choice::Flag(f),
                    None => match find_value_option(s) {
                        Some(v) => Choice::Value(v),
                        None => Choice::Unknown,
                    },
                }
            }
        },
        Token::Value(_) => Choice::Command,
    }
}

/// The complaint about a value that is attached to an option without one.
pub open spec fn attached_error(name: Seq<char>) -> CliErrorModel {
    cli::message_error("--"@ + name + " does not take a value"@)
}

/// Refuses a value that is attached to a long option which takes none.
pub fn reject_attached_flag_value(t: &Token, attached: bool) -> (r: Result<(), CliParseError>)
    ensures
        match (r, t@) {
            (Err(e), TokenModel::Long(name)) => attached && e@ == attached_error(name),
            (Err(_), _) => false,
            (Ok(_), TokenModel::Long(_)) => !attached,
            (Ok(_), _) => true,
        },
{
    match t {
        Token::Long(name) => {
            if attached {
                let mut message = "--".to_owned();
                message.append(name.as_str());
                message.append(" does not take a value");
                return Err(CliParseError::from_message(message));
            }
            Ok(())
        },
        _ => Ok(()),
    }
}

/// The complaint about a token that asks for nothing known.
pub open spec fn unexpected(t: TokenModel) -> CliErrorModel {
    cli::message_error(
        text::escape(
            match t {
                TokenModel::Short(c) => "unexpected argument: "@ + seq!['-', c],
                TokenModel::Long(name) => "unexpected argument: "@ + ("--"@ + name),
                TokenModel::Value(v) => "unexpected positional argument: "@ + v,
            },
        ),
    )
}

/// The complaint about a token that asks for nothing known.
pub fn unexpected_token(t: &Token) -> (r: CliParseError)
    ensures
        r@ == unexpected(t@),
{
    let mut message = "unexpected argument: ".to_owned();
    match t {
        Token::Short(c) => {
            message.push('-');
            message.push(*c);
            proof {
                assert(message@ =~= "unexpected argument: "@ + seq!['-', *c]);
            }
        },
        Token::Long(name) => {
            message.append("--");
            message.append(name.as_str());
            proof {
                assert(message@ =~= "unexpected argument: "@ + ("--"@ + name@));
            }
        },
        Token::Value(v) => {
            message = "unexpected positional argument: ".to_owned();
            message.append(v.as_str());
        },
    }
    CliParseError::from_message(escape_str(message.as_str()))
}

/// The long name of an option with its dashes, as errors show it.
pub open spec fn dashed(option: ValueOption) -> Seq<char> {
    match option {
        ValueOption::ParentDeathSignal => "--parent-death-signal"@,
        ValueOption::RemapExit => "--remap-exit"@,
        ValueOption::GraceMs => "--grace-ms"@,
        ValueOption::WriteAllow => "--write-allow"@,
        ValueOption::WritePreset => "--write-preset"@,
        ValueOption::BindTcpAllow => "--bind-tcp-allow"@,
        ValueOption::ConnectTcpAllow => "--connect-tcp-allow"@,
        ValueOption::ExecAllow => "--exec-allow"@,
        ValueOption::DeviceIoctlAllow => "--device-ioctl-allow"@,
    }
}

/// The long name of an option with its dashes.
pub fn dashed_name(option: ValueOption) -> (r: &'static str)
    ensures
        r@ == dashed(option),
{
    match option {
        ValueOption::ParentDeathSignal => "--parent-death-signal",
        ValueOption::RemapExit => "--remap-exit",
        ValueOption::GraceMs => "--grace-ms",
        ValueOption::WriteAllow => "--write-allow",
        ValueOption::WritePreset => "--write-preset",
        ValueOption::BindTcpAllow => "--bind-tcp-allow",
        ValueOption::ConnectTcpAllow => "--connect-tcp-allow",
        ValueOption::ExecAllow => "--exec-allow",
        ValueOption::DeviceIoctlAllow => "--device-ioctl-allow",
    }
}

/// Whether errors about the value of an option name the option.
pub open spec fn names_itself(option: ValueOption) -> bool {
    !(option == ValueOption::ParentDeathSignal || option == ValueOption::RemapExit || option
        == ValueOption::GraceMs)
}

/// An error about the value of an option.
pub open spec fn value_error(option: ValueOption, e: Seq<char>) -> CliErrorModel {
    if names_itself(option) {
        cli::message_error(dashed(option) + ": "@ + text::escape(e))
    } else {
        cli::message_error(text::escape(e))
    }
}

/// An error about the value of an option.
pub fn option_value_error(option: ValueOption, e: &str) -> (r: CliParseError)
    ensures
        r@ == value_error(option, e@),
{
    let shown = escape_str(e);
    if option == ValueOption::ParentDeathSignal || option == ValueOption::RemapExit || option
        == ValueOption::GraceMs {
        CliParseError::from_message(shown)
    } else {
        let mut message = dashed_name(option).to_owned();
        message.append(": ");
        message.append(shown.as_str());
        CliParseError::from_message(message)
    }
}

/// The settings with a text as the value of an option.
pub open spec fn text_effect(m: CliModel, option: ValueOption, v: Seq<char>) -> Result<
    CliModel,
    CliErrorModel,
> {
    match option {
        ValueOption::ParentDeathSignal => match cli::signal_text(v) {
            Ok(s) => Ok(cli::with_signal(m, s)),
            Err(e) => Err(cli::message_error(e)),
        },
        ValueOption::WritePreset => match cli::preset_of(v) {
            Ok(p) => Ok(cli::with_preset(m, p)),
            Err(e) => Err(cli::message_error(e)),
        },
        _ => Ok(cli::with_path(m, option, v)),
    }
}

/// Gives an option a text as its value.
pub fn apply_text(cli: &mut Cli, option: ValueOption, v: &str) -> (r: Result<(), CliParseError>)
    ensures
        match (r, text_effect(old(cli)@, option, v@)) {
            (Ok(_), Ok(m)) => final(cli)@ == m,
            (Err(e), Err(x)) => e@ == x && final(cli)@ == old(cli)@,
            _ => false,
        },
{
    match option {
        ValueOption::ParentDeathSignal => match parse_signal(v) {
            Ok(s) => {
                cli.set_signal(s);
                Ok(())
            },
            Err(e) => Err(e),
        },
        ValueOption::WritePreset => match WritePreset::parse(v) {
            Ok(p) => {
                cli.add_preset(p);
                Ok(())
            },
            Err(e) => Err(e),
        },
        _ => {
            cli.add_path(option, v.to_owned());
            Ok(())
        },
    }
}

/// The settings with the value of the option at a position.
pub open spec fn value_effect(
    m: CliModel,
    option: ValueOption,
    args: Seq<Seq<char>>,
    read: nat,
) -> Result<CliModel, CliErrorModel> {
    match option {
        ValueOption::RemapExit => match number_at(args, read, 255) {
            Ok(n) => Ok(cli::with_exit_code(m, n as u8)),
            Err(e) => Err(value_error(option, e)),
        },
        ValueOption::GraceMs => match number_at(args, read, 18446744073709551615) {
            Ok(n) => Ok(cli::with_grace(m, n as u64)),
            Err(e) => Err(value_error(option, e)),
        },
        ValueOption::BindTcpAllow | ValueOption::ConnectTcpAllow => match number_at(
            args,
            read,
            65535,
        ) {
            Ok(n) => if n == 0 {
                Err(cli::message_error(cli::port_error(dashed(option))))
            } else {
                Ok(cli::with_port(m, option, n as u16))
            },
            Err(e) => Err(value_error(option, e)),
        },
        _ => match value_at(args, read) {
            Ok(v) => text_effect(m, option, v),
            Err(e) => Err(value_error(option, e)),
        },
    }
}

pub(crate) fn apply_value(cli: &mut Cli, option: ValueOption, args: &Vec<String>, read: usize) -> (r: Result<
    Vec<String>,
    CliParseError,
>)
    requires
        is_position(text::texts(args@), read as nat),
        option_at(text::texts(args@), read as nat),
    ensures
        match (r, value_effect(old(cli)@, option, text::texts(args@), read as nat)) {
            (Ok(rest), Ok(m)) => final(cli)@ == m && text::texts(rest@) == left_behind_value(
                text::texts(args@),
                read as nat,
            ),
            (Err(e), Err(x)) => e@ == x && final(cli)@ == old(cli)@,
            _ => false,
        },
{
    match option {
        ValueOption::RemapExit => {
            let (value, rest) = parser_parse_u8(args, read);
            match value {
                Ok(n) => {
                    cli.add_exit_code(n);
                    Ok(rest)
                },
                Err(e) => Err(option_value_error(option, e.as_str())),
            }
        },
        ValueOption::GraceMs => {
            let (value, rest) = parser_parse_u64(args, read);
            match value {
                Ok(n) => {
                    cli.set_grace(n);
                    Ok(rest)
                },
                Err(e) => Err(option_value_error(option, e.as_str())),
            }
        },
        ValueOption::BindTcpAllow | ValueOption::ConnectTcpAllow => {
            let (value, rest) = parser_parse_u16(args, read);
            match value {
                Ok(n) => match validate_port(dashed_name(option), n) {
                    Ok(port) => {
                        cli.add_port(option, port);
                        Ok(rest)
                    },
                    Err(e) => Err(e),
                },
                Err(e) => Err(option_value_error(option, e.as_str())),
            }
        },
        _ => {
            let (value, rest) = parser_value(args, read);
            match value {
                Ok(v) => match apply_text(cli, option, v.as_str()) {
                    Ok(_) => Ok(rest),
                    Err(e) => Err(e),
                },
                Err(e) => Err(option_value_error(option, e.as_str())),
            }
        },
    }
}

// ---------------------------------------------------------------------------
// The command line
// ---------------------------------------------------------------------------

/// The verbosity, counted once more.
pub open spec fn more_verbose(m: CliModel) -> CliModel {
    cli::with_verbosity(
        m,
        if m.verbosity == 255 {
            255
        } else {
            (m.verbosity + 1) as u8
        },
    )
}

/// The settings with a command.
pub open spec fn with_command(m: CliModel, command: Seq<char>, rest: Seq<Seq<char>>) -> CliModel {
    CliModel { cmd: m.cmd.push(command) + rest, ..m }
}

/// Whether a value is attached to the long option at the front.
pub open spec fn has_attached(args: Seq<Seq<char>>) -> bool {
    args.len() > 0 && is_long(args[0]) && args[0].contains('=')
}

/// What reading arguments comes to: the settings, and whether a grace period was given.
pub type Parsed = (CliModel, bool);

/// How much there is left to read at a position.
pub open spec fn left_to_read(args: Seq<Seq<char>>, read: nat) -> nat {
    if args.len() > 0 && args[0].len() >= read {
        (args[0].len() - read) as nat
    } else {
        0
    }
}

/// Reads arguments onto the settings `m`, from a position on.
pub open spec fn read_args(m: CliModel, args: Seq<Seq<char>>, read: nat, grace: bool) -> Result<
    Parsed,
    CliErrorModel,
>
    decreases args.len(), left_to_read(args, read),
{
    let goes_on = group_goes_on(args, read);
    match token_at(args, read) {
        Err(e) => Err(cli::message_error(text::escape(e))),
        Ok(None) => Ok((m, grace)),
        Ok(Some(t)) => {
            let attached = t is Long && has_attached(args);
            match choice(t) {
                Choice::Help => if attached {
                    Err(attached_error(t->Long_0))
                } else {
                    Err(cli::help_request())
                },
                Choice::Version => if attached {
                    Err(attached_error(t->Long_0))
                } else {
                    Err(cli::version_request())
                },
                Choice::Flag(f) => if attached {
                    Err(attached_error(t->Long_0))
                } else if goes_on {
                    read_args(cli::with_flag(m, f), args, read + 1, grace)
                } else {
                    read_args(cli::with_flag(m, f), args.skip(1), 0, grace)
                },
                Choice::Verbose => if attached {
                    Err(attached_error(t->Long_0))
                } else if goes_on {
                    read_args(more_verbose(m), args, read + 1, grace)
                } else {
                    read_args(more_verbose(m), args.skip(1), 0, grace)
                },
                Choice::Value(option) => match value_effect(m, option, args, read) {
                    Err(e) => Err(e),
                    Ok(x) => if args.len() > 0 {
                        read_args(
                            x,
                            left_behind_value(args, read),
                            0,
                            grace || option == ValueOption::GraceMs,
                        )
                    } else {
                        Ok((x, grace))
                    },
                },
                Choice::Command => match t {
                    TokenModel::Value(v) => Ok(
                        (with_command(m, v, left_behind(args, read)), grace),
                    ),
                    _ => Ok((m, grace)),
                },
                Choice::Unknown => Err(unexpected(t)),
            }
        },
    }
}

/// The settings of a command line, read onto the settings `base`.
pub open spec fn command_line(base: CliModel, argv: Seq<Seq<char>>) -> Result<
    CliModel,
    CliErrorModel,
> {
    if argv.len() == 0 {
        Err(cli::message_error("missing argv[0]"@))
    } else {
        match read_args(base, argv.skip(1), 0, false) {
            Err(e) => Err(e),
            Ok((m, grace)) => if m.check_config && grace {
                Err(cli::message_error("--check-config does not accept --grace-ms"@))
            } else {
                Ok(m)
            },
        }
    }
}

fn drop_first(args: &Vec<String>) -> (r: Vec<String>)
    requires
        args@.len() > 0,
    ensures
        text::texts(r@) == text::texts(args@).skip(1),
{
    let mut out: Vec<String> = Vec::new();
    let mut i: usize = 1;
    while i < args.len()
        invariant
            1 <= i <= args@.len(),
            out@.len() == i - 1,
            forall|j: int| 0 <= j < i - 1 ==> (#[trigger] out@[j])@ == args@[j + 1]@,
        decreases args@.len() - i,
    {
        out.push(args[i].clone());
        i = i + 1;
    }
    proof {
        assert(text::texts(out@) =~= text::texts(args@).skip(1));
    }
    out
}

pub(crate) fn attached_value(args: &Vec<String>) -> (r: bool)
    requires
        args@.len() > 0,
    ensures
        r == (text::texts(args@)[0].len() >= 2 && text::texts(args@)[0][0] == '-' && text::texts(
            args@,
        )[0][1] == '-' && text::texts(args@)[0].contains('=')),
{
    let chars = chars_of(args[0].as_str());
    chars.len() >= 2 && chars[0] == '-' && chars[1] == '-' && has_char(chars.as_slice(), '=')
}

/// The position behind a short option or a long option without a value.
pub(crate) fn step(args: Vec<String>, read: usize, rest: Vec<String>) -> (r: (Vec<String>, usize))
    requires
        is_position(text::texts(args@), read as nat),
        option_at(text::texts(args@), read as nat),
        text::texts(rest@) == left_behind(text::texts(args@), read as nat),
    ensures
        if group_goes_on(text::texts(args@), read as nat) {
            text::texts(r.0@) == text::texts(args@) && r.1 == read + 1
        } else {
            text::texts(r.0@) == text::texts(args@).skip(1) && r.1 == 0
        },
        is_position(text::texts(r.0@), r.1 as nat),
{
    let ghost all = text::texts(args@);
    assert(text::texts(rest@).len() == rest@.len());
    assert(all.len() == args@.len());
    if rest.len() == args.len() {
        let group = chars_of(args[0].as_str());
        assert(all[0] == group@);
        assert(group.len() == group@.len());
        (args, read + 1)
    } else {
        (rest, 0)
    }
}

impl Cli {
    /// Counts one more verbosity option.
    pub fn add_verbosity(&mut self)
        ensures
            final(self)@ == more_verbose(old(self)@),
    {
        let mut verbosity: u8 = self.verbosity;
        osarg::count_flag(&mut verbosity);
        self.verbosity = verbosity;
    }

    /// Sets the command.
    pub fn add_command(&mut self, command: String, rest: Vec<String>)
        ensures
            final(self)@ == with_command(old(self)@, command@, text::texts(rest@)),
    {
        let ghost m = self@;
        let mut tail = rest;
        proof {
            cli::lemma_texts_push(self.cmd@, command);
        }
        self.cmd.push(command);
        let ghost front = self.cmd@;
        self.cmd.append(&mut tail);
        proof {
            assert(text::texts(self.cmd@) =~= text::texts(front) + text::texts(rest@));
        }
    }

    /// Reads arguments onto these settings. The result says whether a grace period was given.
    #[verifier::rlimit(60)]
    fn read_onto(&mut self, given: Vec<String>) -> (r: Result<bool, CliParseError>)
        ensures
            match (r, read_args(old(self)@, text::texts(given@), 0, false)) {
                (Ok(grace), Ok((m, g))) => final(self)@ == m && grace == g,
                (Err(e), Err(x)) => e@ == x,
                _ => false,
            },
    {
        let ghost wanted = read_args(self@, text::texts(given@), 0, false);
        let mut args = given;
        let mut read: usize = 0;
        let mut grace = false;
        loop
            invariant
                is_position(text::texts(args@), read as nat),
                wanted == read_args(old(self)@, text::texts(given@), 0, false),
                wanted == read_args(self@, text::texts(args@), read as nat, grace),
            decreases args@.len(), left_to_read(text::texts(args@), read as nat),
        {
            let ghost all = text::texts(args@);
            let (found, rest) = parser_next(&args, read);
            let token = match found {
                Err(e) => {
                    return Err(CliParseError::from_message(escape_str(e.as_str())));
                },
                Ok(None) => {
                    return Ok(grace);
                },
                Ok(Some(token)) => token,
            };
            let asked = token_choice(&token);
            if asked == Choice::Command {
                proof {
                    assert(read == 0);
                }
                match parser_command(&args) {
                    Ok((command, tail)) => {
                        self.add_command(command, tail);
                        return Ok(grace);
                    },
                    Err(e) => {
                        return Err(CliParseError::from_message(escape_str(e.as_str())));
                    },
                }
            }
            assert(option_at(all, read as nat));
            if let Choice::Value(option) = asked {
                match apply_value(self, option, &args, read) {
                    Err(e) => {
                        return Err(e);
                    },
                    Ok(tail) => {
                        grace = grace || option == ValueOption::GraceMs;
                        args = tail;
                        read = 0;
                    },
                }
                continue;
            }
            if asked == Choice::Unknown {
                return Err(unexpected_token(&token));
            }
            let attached = attached_value(&args);
            match reject_attached_flag_value(&token, attached) {
                Err(e) => {
                    return Err(e);
                },
                Ok(_) => {},
            }
            match asked {
                Choice::Help => {
                    return Err(CliParseError::help());
                },
                Choice::Version => {
                    return Err(CliParseError::version());
                },
                Choice::Flag(f) => {
                    self.set(f);
                },
                _ => {
                    self.add_verbosity();
                },
            }
            let moved = step(args, read, rest);
            args = moved.0;
            read = moved.1;
        }
    }

    /// Reads process-style arguments onto the settings `base`. The first argument is the name of
    /// the program.
    pub fn try_parse_from_base(argv: &Vec<String>, base: Cli) -> (r: Result<Cli, CliParseError>)
        ensures
            config::cli_result(r) == command_line(base@, text::texts(argv@)),
    {
        if argv.len() == 0 {
            return Err(CliParseError::from_message("missing argv[0]".to_owned()));
        }
        let mut cli = base;
        let rest = drop_first(argv);
        match cli.read_onto(rest) {
            Err(e) => Err(e),
            Ok(grace) => {
                if cli.check_config && grace {
                    return Err(
                        CliParseError::from_message(
                            "--check-config does not accept --grace-ms".to_owned(),
                        ),
                    );
                }
                Ok(cli)
            },
        }
    }

    /// Reads process-style arguments. The first argument is the name of the program.
    pub fn try_parse_from(argv: &Vec<String>) -> (r: Result<Cli, CliParseError>)
        ensures
            config::cli_result(r) == command_line(cli::default_settings(), text::texts(argv@)),
    {
        Cli::try_parse_from_base(argv, Cli::default())
    }

    /// Whether these settings ask for the configuration file to be left alone.
    pub fn skips_config_file(&self) -> (r: bool)
        ensures
            r == skips_file(self@),
    {
        self.no_config || self.print_config || self.write_config || self.check_config
    }

    /// Reads process-style arguments onto the settings of the configuration file, unless the
    /// arguments ask for the file to be left alone.
    pub fn try_parse_with_default_config_from(argv: &Vec<String>, file: FileContent) -> (r: Result<
        Cli,
        CliParseError,
    >)
        ensures
            config::cli_result(r) == full_command_line(text::texts(argv@), file),
    {
        let cli_only = match Cli::try_parse_from(argv) {
            Err(e) => return Err(e),
            Ok(cli) => cli,
        };
        if cli_only.skips_config_file() {
            return Ok(cli_only);
        }
        match load_config(cli::DEFAULT_CONFIG_PATH, false, &file) {
            Err(e) => Err(e),
            Ok(base) => Cli::try_parse_from_base(argv, base),
        }
    }
}

/// The error of an argument that is no text.
pub open spec fn not_text(bytes: Seq<u8>) -> CliErrorModel {
    cli::message_error(
        "argument is not valid UTF-8: "@ + text::ascii_text(text::escape_raw(bytes)),
    )
}

/// An argument as a text.
pub fn os_string_into_string(bytes: &[u8]) -> (r: Result<String, CliParseError>)
    ensures
        match r {
            Ok(s) => vstd::utf8::valid_utf8(bytes@) && s@ == vstd::utf8::decode_utf8(bytes@),
            Err(e) => !vstd::utf8::valid_utf8(bytes@) && e@ == not_text(bytes@),
        },
{
    match text::utf8_text(bytes) {
        Ok(s) => Ok(s),
        Err(_) => {
            let mut message = "argument is not valid UTF-8: ".to_owned();
            message.append(text::escape_bytes(bytes).as_str());
            Err(CliParseError::from_message(message))
        },
    }
}

/// Whether settings ask for the configuration file to be left alone.
pub open spec fn skips_file(m: CliModel) -> bool {
    m.no_config || m.print_config || m.write_config || m.check_config
}

/// The settings of a command line together with those of the configuration file.
pub open spec fn full_command_line(argv: Seq<Seq<char>>, file: FileContent) -> Result<
    CliModel,
    CliErrorModel,
> {
    match command_line(cli::default_settings(), argv) {
        Err(e) => Err(e),
        Ok(m) => if skips_file(m) {
            Ok(m)
        } else {
            match config::file_effect(cli::DEFAULT_CONFIG_PATH@, false, file) {
                Err(e) => Err(e),
                Ok(base) => command_line(base, argv),
            }
        },
    }
}

} // verus!
