//! Arguments as the system gives them: bytes, which need not be texts.
//!
//! Options and the command are texts. An argument that is none is an error, but which one depends
//! on the arguments in front of it: it may be the value of an option or a part of the command, and
//! it does not matter behind an error or a request for help.

use vstd::prelude::*;
use vstd::slice::slice_subrange;

use crate::args::{
    self, apply_value, attached_value, dashed_name, os_string_into_string, parser_next,
    parser_value, reject_attached_flag_value, step, token_choice, unexpected_token, Choice, Token,
    TokenModel,
};
use crate::cli::{self, Cli, CliErrorModel, CliModel, CliParseError, ValueOption};
use crate::context;
use crate::text::{self, escape_str, readable_text, text_of, utf8_text};

verus! {

// ---------------------------------------------------------------------------
// In front of an argument
// ---------------------------------------------------------------------------

/// What the next argument is, once the arguments in front of it are read.
#[derive(Debug)]
pub enum Outlook {
    /// It is not read any more.
    Fails(CliParseError),
    /// The value of an option.
    Awaits(ValueOption),
    /// An option, or the beginning of the command.
    Begins,
    /// A part of the command.
    Command,
}

/// What an [`Outlook`] says.
pub enum OutlookModel {
    Fails(CliErrorModel),
    Awaits(ValueOption),
    Begins,
    Command,
}

impl View for Outlook {
    type V = OutlookModel;

    open spec fn view(&self) -> OutlookModel {
        match *self {
            Outlook::Fails(e) => OutlookModel::Fails(e@),
            Outlook::Awaits(option) => OutlookModel::Awaits(option),
            Outlook::Begins => OutlookModel::Begins,
            Outlook::Command => OutlookModel::Command,
        }
    }
}

/// What follows the arguments `args`, read from a position on.
pub open spec fn outlook(args: Seq<Seq<char>>, read: nat) -> OutlookModel
    decreases args.len(), args::left_to_read(args, read),
{
    match args::token_at(args, read) {
        Err(e) => OutlookModel::Fails(cli::message_error(text::escape(e))),
        Ok(None) => if args.len() == 0 {
            OutlookModel::Begins
        } else {
            OutlookModel::Command
        },
        Ok(Some(t)) => {
            let attached = t is Long && args::has_attached(args);
            match args::choice(t) {
                Choice::Help => if attached {
                    OutlookModel::Fails(args::attached_error(t->Long_0))
                } else {
                    OutlookModel::Fails(cli::help_request())
                },
                Choice::Version => if attached {
                    OutlookModel::Fails(args::attached_error(t->Long_0))
                } else {
                    OutlookModel::Fails(cli::version_request())
                },
                Choice::Flag(_) | Choice::Verbose => if attached {
                    OutlookModel::Fails(args::attached_error(t->Long_0))
                } else if args::group_goes_on(args, read) {
                    outlook(args, read + 1)
                } else {
                    outlook(args.skip(1), 0)
                },
                Choice::Value(option) => if args::value_at(args, read) is Err || args.len() == 0 {
                    OutlookModel::Awaits(option)
                } else {
                    match args::value_effect(cli::default_settings(), option, args, read) {
                        Err(e) => OutlookModel::Fails(e),
                        Ok(_) => outlook(args::left_behind_value(args, read), 0),
                    }
                },
                Choice::Command => OutlookModel::Command,
                Choice::Unknown => OutlookModel::Fails(args::unexpected(t)),
            }
        },
    }
}

/// What follows some arguments.
#[verifier::rlimit(60)]
pub fn look_ahead(given: Vec<String>) -> (r: Outlook)
    ensures
        r@ == outlook(text::texts(given@), 0),
{
    let ghost wanted = outlook(text::texts(given@), 0);
    let mut args = given;
    let mut read: usize = 0;
    loop
        invariant
            args::is_position(text::texts(args@), read as nat),
            wanted == outlook(text::texts(given@), 0),
            wanted == outlook(text::texts(args@), read as nat),
        decreases args@.len(), args::left_to_read(text::texts(args@), read as nat),
    {
        let ghost all = text::texts(args@);
        assert(all.len() == args@.len());
        let (found, rest) = parser_next(&args, read);
        let token = match found {
            Err(e) => {
                return Outlook::Fails(CliParseError::from_message(escape_str(e.as_str())));
            },
            Ok(None) => {
                if args.len() == 0 {
                    return Outlook::Begins;
                }
                return Outlook::Command;
            },
            Ok(Some(token)) => token,
        };
        let asked = token_choice(&token);
        if asked == Choice::Command {
            return Outlook::Command;
        }
        assert(args::option_at(all, read as nat));
        if let Choice::Value(option) = asked {
            let (value, _) = parser_value(&args, read);
            if value.is_err() {
                return Outlook::Awaits(option);
            }
            let mut scratch = Cli::default();
            match apply_value(&mut scratch, option, &args, read) {
                Err(e) => {
                    return Outlook::Fails(e);
                },
                Ok(tail) => {
                    args = tail;
                    read = 0;
                },
            }
            continue;
        }
        if asked == Choice::Unknown {
            return Outlook::Fails(unexpected_token(&token));
        }
        let attached = attached_value(&args);
        match reject_attached_flag_value(&token, attached) {
            Err(e) => {
                return Outlook::Fails(e);
            },
            Ok(_) => {},
        }
        match asked {
            Choice::Help => {
                return Outlook::Fails(CliParseError::help());
            },
            Choice::Version => {
                return Outlook::Fails(CliParseError::version());
            },
            _ => {},
        }
        let moved = step(args, read, rest);
        args = moved.0;
        read = moved.1;
    }
}

// ---------------------------------------------------------------------------
// An argument that is no text
// ---------------------------------------------------------------------------

/// An argument as far as options are told apart in it: by its ASCII characters. Every other byte
/// stands for some character that is none.
pub open spec fn shape(arg: Seq<u8>) -> Seq<char> {
    Seq::new(
        arg.len(),
        |i: int|
            if arg[i] < 0x80 {
                arg[i] as char
            } else {
                '\u{fffd}'
            },
    )
}

/// The error of a value that is no text.
pub open spec fn value_not_text(option: ValueOption, value: Seq<u8>) -> CliErrorModel {
    let said = text::escape("argument is not valid UTF-8: "@ + text::readable(value));
    cli::message_error(
        if option == ValueOption::BindTcpAllow || option == ValueOption::ConnectTcpAllow {
            args::dashed(option) + ": "@ + said
        } else {
            said
        },
    )
}

/// The error of an option whose name is no text.
pub open spec fn name_not_text(arg: Seq<u8>) -> CliErrorModel {
    cli::message_error(text::escape(args::bad_name(text::readable(arg))))
}

/// The error of an argument that is no text and stands where an option or the command begins, of
/// which `read` short options have been read. What is no text about a long option with a good name
/// is the value that is attached to it.
pub open spec fn front_not_text(arg: Seq<u8>, read: nat) -> CliErrorModel
    decreases arg.len() - read,
{
    match args::token_at(seq![shape(arg)], read) {
        Err(_) => name_not_text(arg),
        Ok(Some(TokenModel::Short(c))) => match args::short_choice(c) {
            Choice::Help => cli::help_request(),
            Choice::Version => cli::version_request(),
            Choice::Flag(_) | Choice::Verbose => if read + 2 < arg.len() {
                front_not_text(arg, read + 1)
            } else {
                args::not_text(arg)
            },
            Choice::Value(option) => value_not_text(option, arg.skip(read as int + 2)),
            _ => args::unexpected(TokenModel::Short(c)),
        },
        Ok(Some(TokenModel::Long(n))) => {
            let raw = arg.subrange(2, n.len() as int + 2);
            let name = vstd::utf8::decode_utf8(raw);
            if !vstd::utf8::valid_utf8(raw) {
                name_not_text(arg)
            } else {
                match args::long_choice(name) {
                    Choice::Value(option) => value_not_text(option, arg.skip(n.len() as int + 3)),
                    Choice::Unknown => args::unexpected(TokenModel::Long(name)),
                    _ => args::attached_error(name),
                }
            }
        },
        Ok(_) => args::not_text(arg),
    }
}

/// The error of an argument that is no text, behind the arguments `before`.
pub open spec fn refusal(before: Seq<Seq<char>>, arg: Seq<u8>) -> CliErrorModel {
    match outlook(before, 0) {
        OutlookModel::Fails(e) => e,
        OutlookModel::Awaits(option) => value_not_text(option, arg),
        OutlookModel::Begins => front_not_text(arg, 0),
        OutlookModel::Command => args::not_text(arg),
    }
}

fn shape_of(arg: &[u8]) -> (r: String)
    ensures
        r@ == shape(arg@),
{
    let mut out: Vec<char> = Vec::new();
    let mut i: usize = 0;
    while i < arg.len()
        invariant
            i <= arg@.len(),
            out@.len() == i,
            forall|j: int| 0 <= j < i ==> #[trigger] out@[j] == shape(arg@)[j],
        decreases arg@.len() - i,
    {
        let b = arg[i];
        out.push(
            if b < 0x80 {
                b as char
            } else {
                '\u{fffd}'
            },
        );
        i = i + 1;
    }
    assert(out@ =~= shape(arg@));
    text_of(out.as_slice())
}

fn refuse_value(option: ValueOption, value: &[u8]) -> (r: CliParseError)
    ensures
        r@ == value_not_text(option, value@),
{
    let mut message = "argument is not valid UTF-8: ".to_owned();
    message.append(readable_text(value).as_str());
    let said = escape_str(message.as_str());
    if option == ValueOption::BindTcpAllow || option == ValueOption::ConnectTcpAllow {
        let mut named = dashed_name(option).to_owned();
        named.append(": ");
        named.append(said.as_str());
        CliParseError::from_message(named)
    } else {
        CliParseError::from_message(said)
    }
}

fn refuse_name(arg: &[u8]) -> (r: CliParseError)
    ensures
        r@ == name_not_text(arg@),
{
    let mut message = "option name is invalid or not valid UTF-8: ".to_owned();
    message.append(readable_text(arg).as_str());
    CliParseError::from_message(escape_str(message.as_str()))
}

fn refuse_argument(arg: &[u8]) -> (r: CliParseError)
    ensures
        r@ == args::not_text(arg@),
{
    let mut message = "argument is not valid UTF-8: ".to_owned();
    message.append(text::escape_bytes(arg).as_str());
    CliParseError::from_message(message)
}

proof fn lemma_dashes_are_text(arg: Seq<u8>)
    requires
        arg.len() > 2,
        arg[0] == 0x2d,
        arg[1] == 0x2d,
        vstd::utf8::valid_utf8(arg.skip(2)),
    ensures
        vstd::utf8::valid_utf8(arg),
{
    assert(0x2du8 & 0x80 == 0) by (bit_vector);
    let rest = vstd::utf8::pop_first_scalar(arg);
    assert(rest =~= arg.skip(1));
    assert(vstd::utf8::pop_first_scalar(rest) =~= arg.skip(2));
    assert(vstd::utf8::valid_utf8(rest));
}

fn refuse_long(arg: &[u8], n: usize) -> (r: CliParseError)
    requires
        !vstd::utf8::valid_utf8(arg@),
        args::is_long(shape(arg@)),
        n == args::long_name(shape(arg@)).len(),
        n > 0,
    ensures
        r@ == front_not_text(arg@, 0),
{
    let ghost s = shape(arg@);
    let ghost body = s.skip(2);
    let len: usize = arg.len();
    proof {
        assert(len == s.len());
        text::lemma_first_where_bounds(body, text::is_char('='));
        assert(arg@[0] == 0x2d && arg@[1] == 0x2d) by {
            assert(s[0] == '-' && s[1] == '-');
        }
        assert(args::token_at(seq![s], 0) == Ok::<Option<TokenModel>, Seq<char>>(
            Some(TokenModel::Long(args::long_name(s))),
        ));
    }
    let raw = slice_subrange(arg, 2, n + 2);
    match utf8_text(raw) {
        Err(_) => refuse_name(arg),
        Ok(name) => {
            proof {
                if n + 2 == arg@.len() {
                    assert(raw@ =~= arg@.skip(2));
                    lemma_dashes_are_text(arg@);
                }
            }
            let token = Token::Long(name);
            match token_choice(&token) {
                Choice::Value(option) => {
                    let value = slice_subrange(arg, n + 3, len);
                    assert(value@ =~= arg@.skip(n + 3));
                    refuse_value(option, value)
                },
                Choice::Unknown => unexpected_token(&token),
                _ => match reject_attached_flag_value(&token, true) {
                    Err(e) => e,
                    Ok(_) => unexpected_token(&token),
                },
            }
        },
    }
}

/// The error of an argument that is no text and stands where an option or the command begins.
fn refuse_front(arg: &[u8]) -> (r: CliParseError)
    requires
        !vstd::utf8::valid_utf8(arg@),
    ensures
        r@ == front_not_text(arg@, 0),
{
    let ghost s = shape(arg@);
    let mut only: Vec<String> = Vec::new();
    only.push(shape_of(arg));
    assert(text::texts(only@) =~= seq![s]);
    let len: usize = arg.len();
    let mut read: usize = 0;
    loop
        invariant
            !vstd::utf8::valid_utf8(arg@),
            s == shape(arg@),
            len == arg@.len(),
            text::texts(only@) == seq![s],
            args::is_position(seq![s], read as nat),
            front_not_text(arg@, 0) == front_not_text(arg@, read as nat),
        decreases arg@.len() - read,
    {
        let (found, _) = parser_next(&only, read);
        let token = match found {
            Err(_) => {
                return refuse_name(arg);
            },
            Ok(None) => {
                return refuse_argument(arg);
            },
            Ok(Some(token)) => token,
        };
        match &token {
            Token::Value(_) => {
                return refuse_argument(arg);
            },
            Token::Long(name) => {
                let n: usize = text::chars_of(name.as_str()).len();
                return refuse_long(arg, n);
            },
            Token::Short(_) => {},
        }
        assert(seq![s][0] == s && args::is_group(s) && read + 2 <= len);
        match token_choice(&token) {
            Choice::Help => {
                return CliParseError::help();
            },
            Choice::Version => {
                return CliParseError::version();
            },
            Choice::Value(option) => {
                let value = slice_subrange(arg, read + 2, len);
                assert(value@ =~= arg@.skip(read + 2));
                return refuse_value(option, value);
            },
            Choice::Flag(_) | Choice::Verbose => {
                if read + 2 >= len {
                    return refuse_argument(arg);
                }
            },
            _ => {
                return unexpected_token(&token);
            },
        }
        read = read + 1;
    }
}

// ---------------------------------------------------------------------------
// All arguments
// ---------------------------------------------------------------------------

/// Arguments as texts to be read.
pub open spec fn readable_all(argv: Seq<Seq<u8>>) -> Seq<Seq<char>> {
    Seq::new(argv.len(), |i: int| text::readable(argv[i]))
}

pub open spec fn not_utf8() -> spec_fn(Seq<u8>) -> bool {
    |arg: Seq<u8>| !vstd::utf8::valid_utf8(arg)
}

/// The arguments of a process as texts, or the error of the first one that is none. The name of
/// the program may be anything.
pub open spec fn texts_of(argv: Seq<Seq<u8>>) -> Result<Seq<Seq<char>>, CliErrorModel> {
    if argv.len() == 0 {
        Ok(Seq::empty())
    } else {
        let rest = argv.skip(1);
        let k = text::first_where(rest, not_utf8());
        if 0 <= k < rest.len() {
            Err(refusal(readable_all(rest.take(k)), rest[k]))
        } else {
            Ok(readable_all(argv))
        }
    }
}

/// The arguments of a process as texts, or the error of the first one that is none.
pub fn argument_texts(argv: &Vec<Vec<u8>>) -> (r: Result<Vec<String>, CliParseError>)
    ensures
        match (r, texts_of(context::view_paths(argv@))) {
            (Ok(v), Ok(t)) => text::texts(v@) == t,
            (Err(e), Err(x)) => e@ == x,
            _ => false,
        },
{
    let ghost all = context::view_paths(argv@);
    let ghost rest = all.skip(1);
    let mut out: Vec<String> = Vec::new();
    if argv.len() == 0 {
        assert(text::texts(out@) =~= Seq::empty());
        return Ok(out);
    }
    out.push(readable_text(argv[0].as_slice()));
    let mut before: Vec<String> = Vec::new();
    let mut i: usize = 1;
    while i < argv.len()
        invariant
            1 <= i <= argv@.len(),
            all == context::view_paths(argv@),
            rest == all.skip(1),
            out@.len() == i,
            before@.len() == i - 1,
            forall|j: int| 0 <= j < i ==> (#[trigger] out@[j])@ == text::readable(all[j]),
            forall|j: int| 0 <= j < i - 1 ==> (#[trigger] before@[j])@ == text::readable(rest[j]),
            forall|j: int| 0 <= j < i - 1 ==> vstd::utf8::valid_utf8(#[trigger] rest[j]),
        decreases argv@.len() - i,
    {
        let arg = argv[i].as_slice();
        assert(rest[i - 1] == arg@);
        match os_string_into_string(arg) {
            Ok(s) => {
                out.push(s.clone());
                before.push(s);
            },
            Err(e) => {
                proof {
                    text::lemma_first_where(rest, not_utf8(), i - 1);
                    assert(text::texts(before@) =~= readable_all(rest.take(i - 1)));
                }
                return Err(
                    match look_ahead(before) {
                        Outlook::Fails(earlier) => earlier,
                        Outlook::Awaits(option) => refuse_value(option, arg),
                        Outlook::Begins => refuse_front(arg),
                        Outlook::Command => e,
                    },
                );
            },
        }
        i = i + 1;
    }
    proof {
        text::lemma_first_where(rest, not_utf8(), rest.len() as int);
        assert(text::texts(out@) =~= readable_all(all));
    }
    Ok(out)
}

// ---------------------------------------------------------------------------
// Laws
// ---------------------------------------------------------------------------

proof fn lemma_value_in_front(
    m: CliModel,
    option: ValueOption,
    args: Seq<Seq<char>>,
    more: Seq<Seq<char>>,
    read: nat,
)
    requires
        args.len() > 0,
        args::value_at(args, read) is Ok,
    ensures
        args::value_at(args + more, read) == args::value_at(args, read),
        args::value_effect(m, option, args + more, read) == args::value_effect(
            m,
            option,
            args,
            read,
        ),
        args::left_behind_value(args + more, read) == args::left_behind_value(args, read) + more,
{
    let all = args + more;
    assert(all[0] == args[0]);
    assert(all.skip(1) =~= args.skip(1) + more);
    if args.len() > 1 {
        assert(all[1] == args[1]);
        assert(all.skip(2) =~= args.skip(2) + more);
    }
}

/// Whether the values of an option are good does not depend on the settings so far.
proof fn lemma_value_alone(
    m: CliModel,
    option: ValueOption,
    args: Seq<Seq<char>>,
    read: nat,
)
    ensures
        match (
            args::value_effect(m, option, args, read),
            args::value_effect(cli::default_settings(), option, args, read),
        ) {
            (Ok(_), Ok(_)) => true,
            (Err(a), Err(b)) => a == b,
            _ => false,
        },
{
}

proof fn lemma_arguments_in_front(
    m: CliModel,
    args: Seq<Seq<char>>,
    read: nat,
    grace: bool,
    more: Seq<Seq<char>>,
)
    ensures
        match outlook(args, read) {
            OutlookModel::Fails(e) => args::read_args(m, args + more, read, grace) == Err::<
                args::Parsed,
                CliErrorModel,
            >(e),
            OutlookModel::Begins => args::read_args(m, args, read, grace) matches Ok((x, g))
                && args::read_args(m, args + more, read, grace) == args::read_args(
                x,
                more,
                if args.len() == 0 {
                    read
                } else {
                    0
                },
                g,
            ),
            OutlookModel::Command => args::read_args(m, args + more, read, grace) is Ok,
            OutlookModel::Awaits(_) => args::read_args(m, args, read, grace) is Err,
        },
    decreases args.len(), args::left_to_read(args, read),
{
    let all = args + more;
    if args.len() == 0 {
        assert(all =~= more);
    } else {
        assert(all[0] == args[0]);
        assert(all.skip(1) =~= args.skip(1) + more);
        if args[0] == seq!['-', '-'] && args.len() > 1 {
            assert(all[1] == args[1]);
        }
        if let Ok(Some(t)) = args::token_at(args, read) {
            match args::choice(t) {
                Choice::Flag(f) => {
                    let x = cli::with_flag(m, f);
                    if args::group_goes_on(args, read) {
                        lemma_arguments_in_front(x, args, read + 1, grace, more);
                    } else {
                        lemma_arguments_in_front(x, args.skip(1), 0, grace, more);
                    }
                },
                Choice::Verbose => {
                    let x = args::more_verbose(m);
                    if args::group_goes_on(args, read) {
                        lemma_arguments_in_front(x, args, read + 1, grace, more);
                    } else {
                        lemma_arguments_in_front(x, args.skip(1), 0, grace, more);
                    }
                },
                Choice::Value(option) => {
                    lemma_value_alone(m, option, args, read);
                    if args::value_at(args, read) is Ok {
                        lemma_value_in_front(m, option, args, more, read);
                        if let Ok(x) = args::value_effect(m, option, args, read) {
                            lemma_arguments_in_front(
                                x,
                                args::left_behind_value(args, read),
                                0,
                                grace || option == ValueOption::GraceMs,
                                more,
                            );
                        }
                    }
                },
                _ => {},
            }
        }
    }
}

/// The arguments in front decide what the next one is: behind an error nothing is read any more,
/// an option or the command begins afresh, and behind the beginning of the command everything
/// belongs to it.
pub proof fn law_arguments_in_front_decide(
    m: CliModel,
    args: Seq<Seq<char>>,
    grace: bool,
    more: Seq<Seq<char>>,
)
    ensures
        match outlook(args, 0) {
            OutlookModel::Fails(e) => args::read_args(m, args + more, 0, grace) == Err::<
                args::Parsed,
                CliErrorModel,
            >(e),
            OutlookModel::Begins => args::read_args(m, args, 0, grace) matches Ok((x, g))
                && args::read_args(m, args + more, 0, grace) == args::read_args(x, more, 0, g),
            OutlookModel::Command => args::read_args(m, args + more, 0, grace) is Ok,
            OutlookModel::Awaits(_) => args::read_args(m, args, 0, grace) is Err,
        },
{
    lemma_arguments_in_front(m, args, 0, grace, more);
}

/// The arguments of a process have texts exactly where each one behind the name of the program is
/// UTF-8, and the texts are then what they encode.
pub proof fn law_good_arguments_have_texts(argv: Seq<Seq<u8>>)
    ensures
        texts_of(argv) is Ok <==> forall|i: int|
            1 <= i < argv.len() ==> vstd::utf8::valid_utf8(#[trigger] argv[i]),
        texts_of(argv) matches Ok(t) ==> t.len() == argv.len() && forall|i: int|
            1 <= i < argv.len() ==> #[trigger] t[i] == vstd::utf8::decode_utf8(argv[i]),
{
    if argv.len() > 0 {
        let rest = argv.skip(1);
        let k = text::first_where(rest, not_utf8());
        text::lemma_first_where_bounds(rest, not_utf8());
        if k < rest.len() {
            assert(not_utf8()(rest[k]));
            assert(!vstd::utf8::valid_utf8(argv[k + 1]));
        } else {
            assert forall|i: int| 1 <= i < argv.len() implies vstd::utf8::valid_utf8(
                #[trigger] argv[i],
            ) by {
                assert(argv[i] == rest[i - 1]);
                assert(!not_utf8()(rest[i - 1]));
            }
        }
    }
}

} // verus!
