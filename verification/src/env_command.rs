//! The command that an `env` invocation runs, as GNU `env` reads its arguments.

use vstd::prelude::*;
use vstd::slice::slice_subrange;

use crate::context::{self, ContextModel, Environment, ExecContext};
use crate::env_signal::{self, judge_signals, realtime_range, RealtimeRange, SignalList};
use crate::env_split::{self, split_chars};
use crate::text::{self, chars_of, copy_bytes, copy_chars, find_char, same_bytes, text_of};

verus! {

// ---------------------------------------------------------------------------
// Long options
// ---------------------------------------------------------------------------

/// A long option of `env`.
#[derive(Clone, Copy, Debug, PartialEq, Eq, Structural)]
pub enum EnvLongOption {
    Argv0,
    BlockSignal,
    Chdir,
    Debug,
    DefaultSignal,
    Help,
    IgnoreEnvironment,
    IgnoreSignal,
    ListSignalHandling,
    Null,
    SplitString,
    Unset,
    Version,
}

/// How many long options there are.
pub const LONG_OPTION_COUNT: usize = 13;

/// The names of the long options.
pub open spec fn long_names() -> Seq<Seq<char>> {
    seq![
        "argv0"@,
        "block-signal"@,
        "chdir"@,
        "debug"@,
        "default-signal"@,
        "help"@,
        "ignore-environment"@,
        "ignore-signal"@,
        "list-signal-handling"@,
        "null"@,
        "split-string"@,
        "unset"@,
        "version"@,
    ]
}

/// The long option whose name is at `index`.
pub open spec fn long_option(index: int) -> EnvLongOption {
    if index == 0 { EnvLongOption::Argv0 }
    else if index == 1 { EnvLongOption::BlockSignal }
    else if index == 2 { EnvLongOption::Chdir }
    else if index == 3 { EnvLongOption::Debug }
    else if index == 4 { EnvLongOption::DefaultSignal }
    else if index == 5 { EnvLongOption::Help }
    else if index == 6 { EnvLongOption::IgnoreEnvironment }
    else if index == 7 { EnvLongOption::IgnoreSignal }
    else if index == 8 { EnvLongOption::ListSignalHandling }
    else if index == 9 { EnvLongOption::Null }
    else if index == 10 { EnvLongOption::SplitString }
    else if index == 11 { EnvLongOption::Unset }
    else { EnvLongOption::Version }
}

fn option_at(index: usize) -> (r: (EnvLongOption, &'static str))
    requires
        index < LONG_OPTION_COUNT,
    ensures
        r.0 == long_option(index as int),
        r.1@ == long_names()[index as int],
{
    if index == 0 { (EnvLongOption::Argv0, "argv0") }
    else if index == 1 { (EnvLongOption::BlockSignal, "block-signal") }
    else if index == 2 { (EnvLongOption::Chdir, "chdir") }
    else if index == 3 { (EnvLongOption::Debug, "debug") }
    else if index == 4 { (EnvLongOption::DefaultSignal, "default-signal") }
    else if index == 5 { (EnvLongOption::Help, "help") }
    else if index == 6 { (EnvLongOption::IgnoreEnvironment, "ignore-environment") }
    else if index == 7 { (EnvLongOption::IgnoreSignal, "ignore-signal") }
    else if index == 8 { (EnvLongOption::ListSignalHandling, "list-signal-handling") }
    else if index == 9 { (EnvLongOption::Null, "null") }
    else if index == 10 { (EnvLongOption::SplitString, "split-string") }
    else if index == 11 { (EnvLongOption::Unset, "unset") }
    else { (EnvLongOption::Version, "version") }
}

pub open spec fn begins_with(name: Seq<char>) -> spec_fn(Seq<char>) -> bool {
    |full: Seq<char>| name.is_prefix_of(full)
}

/// The index of the only long option whose name begins with `name`.
pub open spec fn unique_match(name: Seq<char>) -> Option<int> {
    let i = text::first_where(long_names(), begins_with(name));
    if i >= LONG_OPTION_COUNT {
        None
    } else if text::first_where(long_names().skip(i + 1), begins_with(name)) < LONG_OPTION_COUNT - i
        - 1 {
        None
    } else {
        Some(i)
    }
}

/// Whether a text begins with two dashes.
pub open spec fn is_long(arg: Seq<char>) -> bool {
    arg.len() >= 2 && arg[0] == '-' && arg[1] == '-'
}

/// The text in front of the first equal sign.
pub open spec fn before_equal(s: Seq<char>) -> Seq<char> {
    s.take(text::first_where(s, text::is_char('=')))
}

/// The text behind the first equal sign, if there is one.
pub open spec fn after_equal(s: Seq<char>) -> Option<Seq<char>> {
    let k = text::first_where(s, text::is_char('='));
    if 0 <= k < s.len() {
        Some(s.skip(k + 1))
    } else {
        None
    }
}

/// The long option that `arg` is, and its attached value. The name may be cut short as long as
/// only one option can be meant.
pub open spec fn classify(arg: Seq<char>) -> Option<(EnvLongOption, Option<Seq<char>>)> {
    let body = arg.skip(2);
    let name = before_equal(body);
    if !is_long(arg) || name.len() == 0 {
        None
    } else {
        match unique_match(name) {
            None => None,
            Some(i) => Some((long_option(i), after_equal(body))),
        }
    }
}

/// The bytes of an optional text.
pub open spec fn opt_chars(v: Option<Vec<char>>) -> Option<Seq<char>> {
    match v {
        Some(c) => Some(c@),
        None => None,
    }
}

fn find_unique(name: &[char]) -> (r: Option<EnvLongOption>)
    ensures
        match r {
            Some(o) => unique_match(name@) is Some && o == long_option(unique_match(name@)->0),
            None => unique_match(name@) is None,
        },
{
    let mut i: usize = 0;
    while i < LONG_OPTION_COUNT && !text::starts_with(chars_of(option_at(i).1).as_slice(), name)
        invariant
            i <= LONG_OPTION_COUNT,
            forall|j: int| 0 <= j < i ==> !name@.is_prefix_of(#[trigger] long_names()[j]),
        decreases LONG_OPTION_COUNT - i,
    {
        i = i + 1;
    }
    proof {
        assert(long_names().len() == LONG_OPTION_COUNT);
        text::lemma_first_where(long_names(), begins_with(name@), i as int);
    }
    if i >= LONG_OPTION_COUNT {
        return None;
    }
    let mut j: usize = i + 1;
    let ghost tail = long_names().skip(i + 1);
    while j < LONG_OPTION_COUNT
        invariant
            i < j <= LONG_OPTION_COUNT,
            long_names().len() == LONG_OPTION_COUNT,
            tail == long_names().skip(i + 1),
            i == text::first_where(long_names(), begins_with(name@)),
            forall|k: int| i < k < j ==> !name@.is_prefix_of(#[trigger] long_names()[k]),
        decreases LONG_OPTION_COUNT - j,
    {
        if text::starts_with(chars_of(option_at(j).1).as_slice(), name) {
            proof {
                assert forall|k: int| 0 <= k < j - i - 1 implies !begins_with(name@)(
                    #[trigger] tail[k],
                ) by {
                    assert(tail[k] == long_names()[i + 1 + k]);
                }
                assert(tail[j - i - 1] == long_names()[j as int]);
                text::lemma_first_where(tail, begins_with(name@), j - i - 1);
            }
            return None;
        }
        j = j + 1;
    }
    proof {
        assert forall|k: int| 0 <= k < tail.len() implies !begins_with(name@)(#[trigger] tail[k]) by {
            assert(tail[k] == long_names()[i + 1 + k]);
        }
        text::lemma_first_where(tail, begins_with(name@), tail.len() as int);
    }
    Some(option_at(i).0)
}

/// The long option that `arg` is, and its attached value.
pub fn classify_env_long_option(arg: &[char]) -> (r: Option<(EnvLongOption, Option<Vec<char>>)>)
    ensures
        match r {
            Some((o, v)) => classify(arg@) == Some((o, opt_chars(v))),
            None => classify(arg@) is None,
        },
{
    if !(arg.len() >= 2 && arg[0] == '-' && arg[1] == '-') {
        return None;
    }
    let body = slice_subrange(arg, 2, arg.len());
    proof {
        assert(body@ =~= arg@.skip(2));
    }
    let k: usize = find_char(body, '=');
    let name = slice_subrange(body, 0, k);
    proof {
        assert(name@ =~= before_equal(body@));
    }
    if name.len() == 0 {
        return None;
    }
    match find_unique(name) {
        None => None,
        Some(option) => {
            if k < body.len() {
                let value = copy_chars(slice_subrange(body, k + 1, body.len()));
                proof {
                    assert(value@ =~= body@.skip(k + 1));
                }
                Some((option, Some(value)))
            } else {
                Some((option, None))
            }
        },
    }
}

// ---------------------------------------------------------------------------
// Options
// ---------------------------------------------------------------------------

/// What the options read so far ask for.
#[derive(Debug)]
pub struct EnvShebangOptions {
    pub ignore_environment: bool,
    pub unset_names: Vec<Vec<char>>,
    pub chdir: Option<Vec<char>>,
    pub invalid_signal_disposition: bool,
}

/// What an [`EnvShebangOptions`] holds.
pub struct OptionsModel {
    pub ignore: bool,
    pub unset: Seq<Seq<char>>,
    pub chdir: Option<Seq<char>>,
    pub bad_signal: bool,
}

impl View for EnvShebangOptions {
    type V = OptionsModel;

    open spec fn view(&self) -> OptionsModel {
        OptionsModel {
            ignore: self.ignore_environment,
            unset: text::view_lines(self.unset_names@),
            chdir: opt_chars(self.chdir),
            bad_signal: self.invalid_signal_disposition,
        }
    }
}

/// The options before any argument was read.
pub open spec fn initial_options(ignore: bool) -> OptionsModel {
    OptionsModel { ignore, unset: Seq::empty(), chdir: None, bad_signal: false }
}

/// What reading one option leads to.
#[derive(Debug)]
pub enum EnvOptionAction {
    /// The next argument is read.
    Continue,
    /// `env` runs no command.
    Return,
    /// The text is split and read in place of what was read so far.
    SplitString(Vec<char>),
    /// `env` refuses the option.
    Invalid,
}

/// What an [`EnvOptionAction`] says.
pub enum ActionModel {
    Continue,
    Return,
    SplitString(Seq<char>),
    Invalid,
}

impl View for EnvOptionAction {
    type V = ActionModel;

    open spec fn view(&self) -> ActionModel {
        match *self {
            EnvOptionAction::Continue => ActionModel::Continue,
            EnvOptionAction::Return => ActionModel::Return,
            EnvOptionAction::SplitString(s) => ActionModel::SplitString(s@),
            EnvOptionAction::Invalid => ActionModel::Invalid,
        }
    }
}

/// What an option does to the position in the arguments.
pub enum Moves {
    Stays,
    /// The argument at the position is taken as the value of the option.
    Takes,
    /// The argument at the position, if there is one, is passed over.
    Skips,
}

/// The position after an option, of `count` arguments.
pub open spec fn moved(moves: Moves, index: int, count: int) -> int {
    match moves {
        Moves::Stays => index,
        Moves::Takes => index + 1,
        Moves::Skips => if index < count {
            index + 1
        } else {
            count
        },
    }
}

/// The outcome of one option: what to do, what it does to the position, and the options as they
/// are now.
pub struct Outcome {
    pub action: ActionModel,
    pub moves: Moves,
    pub options: OptionsModel,
}

pub open spec fn outcome(action: ActionModel, moves: Moves, options: OptionsModel) -> Outcome {
    Outcome { action, moves, options }
}

/// A group of short options, without its dash.
pub open spec fn undashed(arg: Seq<char>) -> Seq<char> {
    if arg.len() == 0 {
        arg
    } else {
        arg.skip(1)
    }
}

pub open spec fn set_ignore(o: OptionsModel) -> OptionsModel {
    OptionsModel { ignore: true, ..o }
}

pub open spec fn add_unset(o: OptionsModel, name: Seq<char>) -> OptionsModel {
    OptionsModel { unset: o.unset.push(name), ..o }
}

pub open spec fn set_chdir(o: OptionsModel, dir: Seq<char>) -> OptionsModel {
    OptionsModel { chdir: Some(dir), ..o }
}

/// An option about signals. Without a list, a change of dispositions replaces all of them, and so
/// takes back what earlier options asked for in vain.
pub open spec fn signal_outcome(
    value: Option<Seq<char>>,
    block: bool,
    o: OptionsModel,
    rt: RealtimeRange,
) -> Outcome {
    match value {
        None => outcome(
            ActionModel::Continue,
            Moves::Stays,
            OptionsModel { bad_signal: block && o.bad_signal, ..o },
        ),
        Some(list) => match env_signal::judge_list(list, block, rt, o.bad_signal) {
            SignalList::Refused { unchangeable } => outcome(
                ActionModel::Invalid,
                Moves::Stays,
                OptionsModel { bad_signal: unchangeable, ..o },
            ),
            SignalList::Accepted { unchangeable } => outcome(
                ActionModel::Continue,
                Moves::Stays,
                OptionsModel { bad_signal: unchangeable, ..o },
            ),
        },
    }
}

/// What the long option `arg` leads to, with `next` as the argument behind it.
pub open spec fn long_outcome(
    arg: Seq<char>,
    next: Option<Seq<char>>,
    o: OptionsModel,
    rt: RealtimeRange,
) -> Outcome {
    match classify(arg) {
        None => outcome(ActionModel::Invalid, Moves::Stays, o),
        Some((option, value)) => match option {
            EnvLongOption::SplitString => match (value, next) {
                (Some(v), _) => outcome(ActionModel::SplitString(v), Moves::Stays, o),
                (None, Some(n)) => outcome(ActionModel::SplitString(n), Moves::Takes, o),
                (None, None) => outcome(ActionModel::Continue, Moves::Stays, o),
            },
            EnvLongOption::IgnoreEnvironment => if value is Some {
                outcome(ActionModel::Invalid, Moves::Stays, o)
            } else {
                outcome(ActionModel::Continue, Moves::Stays, set_ignore(o))
            },
            EnvLongOption::Unset => match (value, next) {
                (Some(v), _) => outcome(ActionModel::Continue, Moves::Stays, add_unset(o, v)),
                (None, Some(n)) => outcome(ActionModel::Continue, Moves::Takes, add_unset(o, n)),
                (None, None) => outcome(ActionModel::Continue, Moves::Stays, o),
            },
            EnvLongOption::Chdir => match (value, next) {
                (Some(v), _) => outcome(ActionModel::Continue, Moves::Stays, set_chdir(o, v)),
                (None, Some(n)) => outcome(ActionModel::Continue, Moves::Takes, set_chdir(o, n)),
                (None, None) => outcome(ActionModel::Invalid, Moves::Stays, o),
            },
            EnvLongOption::Argv0 => outcome(
                ActionModel::Continue,
                if value is None {
                    Moves::Skips
                } else {
                    Moves::Stays
                },
                o,
            ),
            EnvLongOption::BlockSignal => signal_outcome(value, true, o, rt),
            EnvLongOption::DefaultSignal | EnvLongOption::IgnoreSignal => signal_outcome(
                value,
                false,
                o,
                rt,
            ),
            EnvLongOption::Help | EnvLongOption::Null | EnvLongOption::Version => if value is Some {
                outcome(ActionModel::Invalid, Moves::Stays, o)
            } else {
                outcome(ActionModel::Return, Moves::Stays, o)
            },
            EnvLongOption::Debug | EnvLongOption::ListSignalHandling => if value is Some {
                outcome(ActionModel::Invalid, Moves::Stays, o)
            } else {
                outcome(ActionModel::Continue, Moves::Stays, o)
            },
        },
    }
}

/// What the short options `s` lead to, with `next` as the argument behind them.
pub open spec fn short_outcome(s: Seq<char>, next: Option<Seq<char>>, o: OptionsModel) -> Outcome
    decreases s.len(),
{
    let tail = s.skip(1);
    if s.len() == 0 {
        outcome(ActionModel::Continue, Moves::Stays, o)
    } else if s[0] == 'i' {
        short_outcome(tail, next, set_ignore(o))
    } else if s[0] == 'v' {
        short_outcome(tail, next, o)
    } else if s[0] == '0' {
        outcome(ActionModel::Return, Moves::Stays, o)
    } else if s[0] == 'u' {
        if tail.len() > 0 {
            outcome(ActionModel::Continue, Moves::Stays, add_unset(o, tail))
        } else {
            match next {
                Some(n) => outcome(ActionModel::Continue, Moves::Takes, add_unset(o, n)),
                None => outcome(ActionModel::Continue, Moves::Stays, o),
            }
        }
    } else if s[0] == 'a' {
        outcome(
            ActionModel::Continue,
            if tail.len() == 0 {
                Moves::Skips
            } else {
                Moves::Stays
            },
            o,
        )
    } else if s[0] == 'C' {
        if tail.len() > 0 {
            outcome(ActionModel::Continue, Moves::Stays, set_chdir(o, tail))
        } else {
            match next {
                Some(n) => outcome(ActionModel::Continue, Moves::Takes, set_chdir(o, n)),
                None => outcome(ActionModel::Invalid, Moves::Stays, o),
            }
        }
    } else if s[0] == 'S' {
        if tail.len() > 0 {
            outcome(ActionModel::SplitString(tail), Moves::Stays, o)
        } else {
            match next {
                Some(n) => outcome(ActionModel::SplitString(n), Moves::Takes, o),
                None => outcome(ActionModel::Continue, Moves::Stays, o),
            }
        }
    } else {
        outcome(ActionModel::Invalid, Moves::Stays, o)
    }
}

/// The argument at `index`, if there is one.
pub open spec fn next_arg(fields: Seq<Seq<char>>, index: int) -> Option<Seq<char>> {
    if 0 <= index < fields.len() {
        Some(fields[index])
    } else {
        None
    }
}

/// What a step has done to the position and to the options.
pub open spec fn performed(
    action: EnvOptionAction,
    wanted: Outcome,
    count: nat,
    index_before: usize,
    index_after: usize,
    options_after: OptionsModel,
) -> bool {
    &&& action@ == wanted.action
    &&& index_after == moved(wanted.moves, index_before as int, count as int)
    &&& options_after == wanted.options
}

fn validate_env_signal_option(
    value: &Option<Vec<char>>,
    block_signal: bool,
    options: &mut EnvShebangOptions,
    rt: RealtimeRange,
) -> (r: EnvOptionAction)
    ensures
        performed(
            r,
            signal_outcome(opt_chars(*value), block_signal, old(options)@, rt),
            0,
            0,
            0,
            final(options)@,
        ),
{
    match value {
        None => {
            if !block_signal {
                options.invalid_signal_disposition = false;
            }
            EnvOptionAction::Continue
        },
        Some(list) => {
            match judge_signals(
                list.as_slice(),
                block_signal,
                rt,
                options.invalid_signal_disposition,
            ) {
                SignalList::Refused { unchangeable } => {
                    options.invalid_signal_disposition = unchangeable;
                    EnvOptionAction::Invalid
                },
                SignalList::Accepted { unchangeable } => {
                    options.invalid_signal_disposition = unchangeable;
                    EnvOptionAction::Continue
                },
            }
        },
    }
}

/// Takes the attached value, or else the next argument, as the value of an option.
fn take_value(value: Option<Vec<char>>, fields: &Vec<Vec<char>>, idx: &mut usize) -> (r: Option<
    Vec<char>,
>)
    ensures
        ({
            let v = opt_chars(value);
            let next = next_arg(text::view_lines(fields@), *old(idx) as int);
            &&& opt_chars(r) == if v is Some { v } else { next }
            &&& *final(idx) == *old(idx) + if v is None && next is Some { 1int } else { 0int }
        }),
{
    match value {
        Some(v) => Some(v),
        None => {
            if *idx < fields.len() {
                let v = copy_chars(fields[*idx].as_slice());
                *idx = *idx + 1;
                Some(v)
            } else {
                None
            }
        },
    }
}

/// Passes over the next argument, if there is one.
fn skip_argument(fields: &Vec<Vec<char>>, idx: &mut usize)
    ensures
        *final(idx) == moved(Moves::Skips, *old(idx) as int, fields@.len() as int),
{
    if *idx < fields.len() {
        *idx = *idx + 1;
    } else {
        *idx = fields.len();
    }
}

fn push_unset(options: &mut EnvShebangOptions, name: Vec<char>)
    ensures
        final(options)@ == add_unset(old(options)@, name@),
{
    options.unset_names.push(name);
    proof {
        assert(text::view_lines(options.unset_names@) =~= text::view_lines(
            old(options).unset_names@,
        ).push(name@));
    }
}

/// Reads a long option.
pub fn env_long_option_action(
    arg: &[char],
    fields: &Vec<Vec<char>>,
    idx: &mut usize,
    options: &mut EnvShebangOptions,
    rt: RealtimeRange,
) -> (r: EnvOptionAction)
    ensures
        performed(
            r,
            long_outcome(
                arg@,
                next_arg(text::view_lines(fields@), *old(idx) as int),
                old(options)@,
                rt,
            ),
            fields@.len(),
            *old(idx),
            *final(idx),
            final(options)@,
        ),
{
    let (option, value) = match classify_env_long_option(arg) {
        None => return EnvOptionAction::Invalid,
        Some(found) => found,
    };
    match option {
        EnvLongOption::SplitString => match take_value(value, fields, idx) {
            Some(split) => EnvOptionAction::SplitString(split),
            None => EnvOptionAction::Continue,
        },
        EnvLongOption::IgnoreEnvironment => {
            if value.is_some() {
                return EnvOptionAction::Invalid;
            }
            options.ignore_environment = true;
            EnvOptionAction::Continue
        },
        EnvLongOption::Unset => {
            if let Some(name) = take_value(value, fields, idx) {
                push_unset(options, name);
            }
            EnvOptionAction::Continue
        },
        EnvLongOption::Chdir => match take_value(value, fields, idx) {
            Some(dir) => {
                options.chdir = Some(dir);
                EnvOptionAction::Continue
            },
            None => EnvOptionAction::Invalid,
        },
        EnvLongOption::Argv0 => {
            if value.is_none() {
                skip_argument(fields, idx);
            }
            EnvOptionAction::Continue
        },
        EnvLongOption::BlockSignal => validate_env_signal_option(&value, true, options, rt),
        EnvLongOption::DefaultSignal | EnvLongOption::IgnoreSignal => validate_env_signal_option(
            &value,
            false,
            options,
            rt,
        ),
        EnvLongOption::Help | EnvLongOption::Null | EnvLongOption::Version => {
            if value.is_some() {
                EnvOptionAction::Invalid
            } else {
                EnvOptionAction::Return
            }
        },
        EnvLongOption::Debug | EnvLongOption::ListSignalHandling => {
            if value.is_some() {
                EnvOptionAction::Invalid
            } else {
                EnvOptionAction::Continue
            }
        },
    }
}

/// Reads a group of short options.
pub fn env_short_option_action(
    arg: &[char],
    fields: &Vec<Vec<char>>,
    idx: &mut usize,
    options: &mut EnvShebangOptions,
) -> (r: EnvOptionAction)
    ensures
        performed(
            r,
            short_outcome(
                undashed(arg@),
                next_arg(text::view_lines(fields@), *old(idx) as int),
                old(options)@,
            ),
            fields@.len(),
            *old(idx),
            *final(idx),
            final(options)@,
        ),
{
    let ghost next = next_arg(text::view_lines(fields@), *old(idx) as int);
    if arg.len() == 0 {
        return EnvOptionAction::Continue;
    }
    let mut i: usize = 1;
    while i < arg.len()
        invariant
            1 <= i <= arg@.len(),
            *idx == *old(idx),
            next == next_arg(text::view_lines(fields@), *old(idx) as int),
            short_outcome(undashed(arg@), next, old(options)@) == short_outcome(
                arg@.skip(i as int),
                next,
                options@,
            ),
        decreases arg@.len() - i,
    {
        let c = arg[i];
        let tail = slice_subrange(arg, i + 1, arg.len());
        proof {
            assert(arg@.skip(i as int)[0] == c);
            assert(arg@.skip(i as int).skip(1) =~= tail@);
            assert(tail@ =~= arg@.skip(i + 1));
        }
        if c == 'i' {
            options.ignore_environment = true;
        } else if c == 'v' {
        } else if c == '0' {
            return EnvOptionAction::Return;
        } else if c == 'u' {
            let attached = if tail.len() > 0 {
                Some(copy_chars(tail))
            } else {
                None
            };
            if let Some(name) = take_value(attached, fields, idx) {
                push_unset(options, name);
            }
            return EnvOptionAction::Continue;
        } else if c == 'a' {
            if tail.len() == 0 {
                skip_argument(fields, idx);
            }
            return EnvOptionAction::Continue;
        } else if c == 'C' {
            let attached = if tail.len() > 0 {
                Some(copy_chars(tail))
            } else {
                None
            };
            return match take_value(attached, fields, idx) {
                Some(dir) => {
                    options.chdir = Some(dir);
                    EnvOptionAction::Continue
                },
                None => EnvOptionAction::Invalid,
            };
        } else if c == 'S' {
            let attached = if tail.len() > 0 {
                Some(copy_chars(tail))
            } else {
                None
            };
            return match take_value(attached, fields, idx) {
                Some(split) => EnvOptionAction::SplitString(split),
                None => EnvOptionAction::Continue,
            };
        } else {
            return EnvOptionAction::Invalid;
        }
        i = i + 1;
    }
    EnvOptionAction::Continue
}

// ---------------------------------------------------------------------------
// Operands
// ---------------------------------------------------------------------------

/// The command that `env` is asked to run: its name, its environment, and the directory that `env`
/// changes to first.
#[derive(Debug)]
pub struct EnvPlan {
    pub command: String,
    pub environment: Environment,
    pub chdir: Option<String>,
}

/// What an [`EnvPlan`] holds.
pub struct PlanModel {
    pub command: Seq<char>,
    pub environment: Map<Seq<u8>, Seq<u8>>,
    pub chdir: Option<Seq<char>>,
}

/// The text of an optional string.
pub open spec fn opt_text(v: Option<String>) -> Option<Seq<char>> {
    match v {
        Some(c) => Some(c@),
        None => None,
    }
}

impl View for EnvPlan {
    type V = PlanModel;

    open spec fn view(&self) -> PlanModel {
        PlanModel {
            command: self.command@,
            environment: self.environment@,
            chdir: opt_text(self.chdir),
        }
    }
}

pub open spec fn opt_plan(p: Option<EnvPlan>) -> Option<PlanModel> {
    match p {
        Some(x) => Some(x@),
        None => None,
    }
}

/// A name that can be taken out of the environment.
pub open spec fn can_unset(name: Seq<char>) -> bool {
    name.len() > 0 && !name.contains('=')
}

/// The environment without the given names, unless one of them cannot be taken out.
pub open spec fn without(env: Map<Seq<u8>, Seq<u8>>, unset: Seq<Seq<char>>) -> Option<
    Map<Seq<u8>, Seq<u8>>,
>
    decreases unset.len(),
{
    if unset.len() == 0 {
        Some(env)
    } else if !can_unset(unset[0]) {
        None
    } else {
        without(env.remove(vstd::utf8::encode_utf8(unset[0])), unset.skip(1))
    }
}

/// The environment that the operands start from. Clearing it makes all unsets idle, those of
/// impossible names too.
pub open spec fn start_environment(
    env: Map<Seq<u8>, Seq<u8>>,
    ignore: bool,
    unset: Seq<Seq<char>>,
) -> Option<Map<Seq<u8>, Seq<u8>>> {
    if ignore {
        Some(Map::empty())
    } else {
        without(env, unset)
    }
}

/// Reads assignments until the command comes.
pub open spec fn assign(
    fields: Seq<Seq<char>>,
    env: Map<Seq<u8>, Seq<u8>>,
    chdir: Option<Seq<char>>,
) -> Option<PlanModel>
    decreases fields.len(),
{
    if fields.len() == 0 {
        None
    } else {
        match after_equal(fields[0]) {
            Some(value) => assign(
                fields.skip(1),
                env.insert(
                    vstd::utf8::encode_utf8(before_equal(fields[0])),
                    vstd::utf8::encode_utf8(value),
                ),
                chdir,
            ),
            None => Some(PlanModel { command: fields[0], environment: env, chdir }),
        }
    }
}

/// What the operands ask for. One leading dash clears the environment.
pub open spec fn operands(
    fields: Seq<Seq<char>>,
    o: OptionsModel,
    env: Map<Seq<u8>, Seq<u8>>,
) -> Option<PlanModel> {
    let dash = fields.len() > 0 && fields[0] == seq!['-'];
    let rest = if dash {
        fields.skip(1)
    } else {
        fields
    };
    if o.bad_signal {
        None
    } else {
        match start_environment(env, o.ignore || dash, o.unset) {
            None => None,
            Some(e) => assign(rest, e, o.chdir),
        }
    }
}

fn valid_env_unset_name(name: &[char]) -> (r: bool)
    ensures
        r == can_unset(name@),
{
    name.len() > 0 && !text::has_char(name, '=')
}

fn is_dash(s: &[char]) -> (r: bool)
    ensures
        r == (s@ == seq!['-']),
{
    let r = s.len() == 1 && s[0] == '-';
    proof {
        if r {
            assert(s@ =~= seq!['-']);
        } else if s@ == seq!['-'] {
            assert(s@.len() == 1 && s@[0] == '-');
        }
    }
    r
}

fn environment_without(env: &Environment, unset: &Vec<Vec<char>>) -> (r: Option<Environment>)
    ensures
        match r {
            Some(e) => without(env@, text::view_lines(unset@)) == Some(e@),
            None => without(env@, text::view_lines(unset@)) is None,
        },
{
    let mut out = env.duplicate();
    let mut i: usize = 0;
    let ghost names = text::view_lines(unset@);
    proof {
        assert(names.skip(0) =~= names);
    }
    while i < unset.len()
        invariant
            i <= unset@.len(),
            names == text::view_lines(unset@),
            without(env@, names) == without(out@, names.skip(i as int)),
        decreases unset@.len() - i,
    {
        proof {
            assert(names.skip(i as int)[0] == unset@[i as int]@);
            assert(names.skip(i as int).skip(1) =~= names.skip(i + 1));
        }
        if !valid_env_unset_name(unset[i].as_slice()) {
            return None;
        }
        let name = text_of(unset[i].as_slice());
        out.remove(name.as_str().as_bytes());
        i = i + 1;
    }
    Some(out)
}

/// Reads the operands from `start` on.
pub fn env_shebang_command_operands(
    fields: &Vec<Vec<char>>,
    start: usize,
    options: &EnvShebangOptions,
    inherited: &Environment,
) -> (r: Option<EnvPlan>)
    requires
        start <= fields@.len(),
    ensures
        opt_plan(r) == operands(
            text::view_lines(fields@).skip(start as int),
            options@,
            inherited@,
        ),
{
    let ghost all = text::view_lines(fields@);
    let ghost given = all.skip(start as int);
    if options.invalid_signal_disposition {
        return None;
    }
    let dash = start < fields.len() && is_dash(fields[start].as_slice());
    proof {
        if start < fields@.len() {
            assert(given[0] == fields@[start as int]@);
        }
    }
    let mut i: usize = if dash {
        start + 1
    } else {
        start
    };
    let mut env = if options.ignore_environment || dash {
        Environment::new()
    } else {
        match environment_without(inherited, &options.unset_names) {
            None => return None,
            Some(env) => env,
        }
    };
    proof {
        if dash {
            assert(given.skip(1) =~= all.skip(i as int));
        }
    }
    while i < fields.len()
        invariant
            i <= fields@.len(),
            all == text::view_lines(fields@),
            given == all.skip(start as int),
            operands(given, options@, inherited@) == assign(
                all.skip(i as int),
                env@,
                options@.chdir,
            ),
        decreases fields@.len() - i,
    {
        let arg = fields[i].as_slice();
        proof {
            assert(all.skip(i as int)[0] == arg@);
            assert(all.skip(i as int).skip(1) =~= all.skip(i + 1));
        }
        let k: usize = find_char(arg, '=');
        if k < arg.len() {
            let name = text_of(slice_subrange(arg, 0, k));
            let value = text_of(slice_subrange(arg, k + 1, arg.len()));
            proof {
                assert(name@ =~= before_equal(arg@));
                assert(value@ =~= arg@.skip(k + 1));
            }
            env.insert(
                copy_bytes(name.as_str().as_bytes()),
                copy_bytes(value.as_str().as_bytes()),
            );
        } else {
            let chdir = match &options.chdir {
                Some(dir) => Some(text_of(dir.as_slice())),
                None => None,
            };
            return Some(EnvPlan { command: text_of(arg), environment: env, chdir });
        }
        i = i + 1;
    }
    None
}

// ---------------------------------------------------------------------------
// Arguments
// ---------------------------------------------------------------------------

/// How often `-S` may be met before the arguments are given up.
pub const SPLIT_STEP_LIMIT: u32 = 32;

/// The complaint about too many uses of `-S`.
pub open spec fn split_limit_text() -> Seq<char> {
    "env split-string expansion exceeds 32 steps"@
}

/// Reads arguments: options in front, operands behind. `steps` counts how often `-S` was met.
pub open spec fn read_args(
    fields: Seq<Seq<char>>,
    o: OptionsModel,
    env: Map<Seq<u8>, Seq<u8>>,
    rt: RealtimeRange,
    steps: nat,
) -> Result<Option<PlanModel>, Seq<char>>
    decreases SPLIT_STEP_LIMIT + 1 - steps, fields.len(),
{
    let rest = fields.skip(1);
    let next = next_arg(fields, 1);
    if fields.len() == 0 || steps > SPLIT_STEP_LIMIT {
        Ok(None)
    } else if fields[0] == seq!['-', '-'] {
        Ok(operands(rest, o, env))
    } else if fields[0] == seq!['-'] || fields[0].len() == 0 || fields[0][0] != '-' {
        Ok(operands(fields, o, env))
    } else {
        let wanted = if is_long(fields[0]) {
            long_outcome(fields[0], next, o, rt)
        } else {
            short_outcome(fields[0].skip(1), next, o)
        };
        let behind = if wanted.moves !is Stays && fields.len() > 1 {
            fields.skip(2)
        } else {
            rest
        };
        match wanted.action {
            ActionModel::Continue => read_args(behind, wanted.options, env, rt, steps),
            ActionModel::Return => Ok(None),
            ActionModel::Invalid => Ok(None),
            ActionModel::SplitString(s) => if steps >= SPLIT_STEP_LIMIT {
                Err(split_limit_text())
            } else {
                match env_split::split_fields(s, env) {
                    None => Ok(None),
                    Some(expanded) => read_args(
                        expanded + behind,
                        wanted.options,
                        env,
                        rt,
                        steps + 1,
                    ),
                }
            },
        }
    }
}

/// The outcome of reading arguments, as the contracts speak of it.
pub open spec fn plan_result(r: Result<Option<EnvPlan>, &'static str>) -> Result<
    Option<PlanModel>,
    Seq<char>,
> {
    match r {
        Ok(p) => Ok(opt_plan(p)),
        Err(e) => Err(e@),
    }
}

proof fn lemma_taken_is_there(fields: Seq<Seq<char>>, o: OptionsModel, rt: RealtimeRange)
    requires
        fields.len() > 0,
    ensures
        long_outcome(fields[0], next_arg(fields, 1), o, rt).moves is Takes ==> fields.len() > 1,
        short_outcome(fields[0].skip(1), next_arg(fields, 1), o).moves is Takes ==> fields.len() > 1,
{
    lemma_short_taken_is_there(fields[0].skip(1), next_arg(fields, 1), o);
}

proof fn lemma_short_taken_is_there(s: Seq<char>, next: Option<Seq<char>>, o: OptionsModel)
    ensures
        short_outcome(s, next, o).moves is Takes ==> next is Some,
    decreases s.len(),
{
    if s.len() > 0 {
        lemma_short_taken_is_there(s.skip(1), next, set_ignore(o));
        lemma_short_taken_is_there(s.skip(1), next, o);
    }
}

/// Reads the arguments of `env`.
#[verifier::rlimit(40)]
pub fn env_shebang_command_fields(
    given: Vec<Vec<char>>,
    given_options: EnvShebangOptions,
    inherited: &Environment,
    rt: RealtimeRange,
) -> (r: Result<Option<EnvPlan>, &'static str>)
    ensures
        plan_result(r) == read_args(
            text::view_lines(given@),
            given_options@,
            inherited@,
            rt,
            0,
        ),
{
    let ghost wanted = read_args(
        text::view_lines(given@),
        given_options@,
        inherited@,
        rt,
        0,
    );
    let mut fields = given;
    let mut options = given_options;
    let mut idx: usize = 0;
    let mut split_steps: u32 = 0;
    proof {
        assert(text::view_lines(fields@).skip(0) =~= text::view_lines(fields@));
    }
    while idx < fields.len()
        invariant
            idx <= fields@.len(),
            split_steps <= SPLIT_STEP_LIMIT,
            wanted == read_args(
                text::view_lines(given@),
                given_options@,
                inherited@,
                rt,
                0,
            ),
            wanted == read_args(
                text::view_lines(fields@).skip(idx as int),
                options@,
                inherited@,
                rt,
                split_steps as nat,
            ),
        decreases SPLIT_STEP_LIMIT - split_steps, fields@.len() - idx,
    {
        let ghost all = text::view_lines(fields@);
        let ghost here = all.skip(idx as int);
        let arg = copy_chars(fields[idx].as_slice());
        proof {
            assert(here[0] == arg@);
            assert(here.skip(1) =~= all.skip(idx + 1));
            if idx + 1 < all.len() {
                assert(here[1] == all[idx + 1]);
                assert(here.skip(2) =~= all.skip(idx + 2));
            }
            assert(next_arg(here, 1) == next_arg(all, idx + 1));
            lemma_taken_is_there(here, options@, rt);
        }
        let start: usize = idx;
        idx = idx + 1;
        let two_dashes = arg.len() == 2 && arg[0] == '-' && arg[1] == '-';
        proof {
            if two_dashes {
                assert(arg@ =~= seq!['-', '-']);
            } else if arg@ == seq!['-', '-'] {
                assert(arg@.len() == 2 && arg@[0] == '-' && arg@[1] == '-');
            }
        }
        if two_dashes {
            return Ok(env_shebang_command_operands(&fields, idx, &options, inherited));
        }
        if is_dash(arg.as_slice()) || arg.len() == 0 || arg[0] != '-' {
            return Ok(env_shebang_command_operands(&fields, start, &options, inherited));
        }
        let action = if arg.len() >= 2 && arg[1] == '-' {
            env_long_option_action(arg.as_slice(), &fields, &mut idx, &mut options, rt)
        } else {
            env_short_option_action(arg.as_slice(), &fields, &mut idx, &mut options)
        };
        match action {
            EnvOptionAction::Continue => {},
            EnvOptionAction::Return => {
                return Ok(None);
            },
            EnvOptionAction::Invalid => {
                return Ok(None);
            },
            EnvOptionAction::SplitString(split) => {
                if split_steps >= SPLIT_STEP_LIMIT {
                    return Err("env split-string expansion exceeds 32 steps");
                }
                split_steps = split_steps + 1;
                let mut expanded = match split_chars(split.as_slice(), inherited) {
                    None => return Ok(None),
                    Some(expanded) => expanded,
                };
                let ghost front = text::view_lines(expanded@);
                let mut rest = fields.split_off(idx);
                let ghost behind = text::view_lines(rest@);
                proof {
                    assert(behind =~= all.skip(idx as int));
                }
                expanded.append(&mut rest);
                fields = expanded;
                idx = 0;
                proof {
                    assert(text::view_lines(fields@) =~= front + behind);
                    assert(text::view_lines(fields@).skip(0) =~= front + behind);
                }
            },
        }
    }
    Ok(None)
}

/// The value of a leading `-S`, and whether the environment is cleared on the way to it.
pub open spec fn short_split(s: Seq<char>, ignore: bool) -> Option<(Seq<char>, bool)>
    decreases s.len(),
{
    if s.len() == 0 {
        None
    } else if s[0] == 'S' {
        Some((s.skip(1), ignore))
    } else if s[0] == 'i' {
        short_split(s.skip(1), true)
    } else if s[0] == 'v' {
        short_split(s.skip(1), ignore)
    } else {
        None
    }
}

/// The text that the only argument of a shebang line asks `env` to split.
pub open spec fn split_request(arg: Seq<char>) -> Option<(Seq<char>, bool)> {
    match classify(arg) {
        Some((EnvLongOption::SplitString, Some(value))) => Some((value, false)),
        _ => if arg.len() == 0 || arg[0] != '-' || is_long(arg) {
            None
        } else {
            short_split(arg.skip(1), false)
        },
    }
}

fn env_split_string(arg: &[char]) -> (r: Option<(Vec<char>, bool)>)
    ensures
        match r {
            Some((v, ignore)) => split_request(arg@) == Some((v@, ignore)),
            None => split_request(arg@) is None,
        },
{
    if let Some((EnvLongOption::SplitString, Some(value))) = classify_env_long_option(arg) {
        return Some((value, false));
    }
    if arg.len() == 0 || arg[0] != '-' || (arg.len() >= 2 && arg[1] == '-') {
        return None;
    }
    let mut i: usize = 1;
    let mut ignore = false;
    while i < arg.len()
        invariant
            1 <= i <= arg@.len(),
            split_request(arg@) == short_split(arg@.skip(i as int), ignore),
        decreases arg@.len() - i,
    {
        let c = arg[i];
        proof {
            assert(arg@.skip(i as int)[0] == c);
            assert(arg@.skip(i as int).skip(1) =~= arg@.skip(i + 1));
        }
        i = i + 1;
        if c == 'S' {
            let value = copy_chars(slice_subrange(arg, i, arg.len()));
            proof {
                assert(value@ =~= arg@.skip(i as int));
            }
            return Some((value, ignore));
        } else if c == 'i' {
            ignore = true;
        } else if c != 'v' {
            return None;
        }
    }
    None
}

/// The command that the argument of an `env` shebang line asks for. The line hands all of it over
/// as one argument, which `-S` splits.
pub open spec fn shebang_plan(arg: Seq<char>, env: Map<Seq<u8>, Seq<u8>>, rt: RealtimeRange) -> Result<
    Option<PlanModel>,
    Seq<char>,
> {
    match split_request(arg) {
        None => read_args(seq![arg], initial_options(false), env, rt, 0),
        Some((value, ignore)) => match env_split::split_fields(value, env) {
            None => Ok(None),
            Some(fields) => read_args(fields, initial_options(ignore), env, rt, 0),
        },
    }
}

/// The command that the argument of an `env` shebang line asks for, given the real-time signals
/// of the C library.
pub fn env_shebang_plan(argument: &str, inherited: &Environment, rt: RealtimeRange) -> (r: Result<
    Option<EnvPlan>,
    &'static str,
>)
    ensures
        plan_result(r) == shebang_plan(argument@, inherited@, rt),
{
    let chars = chars_of(argument);
    match env_split_string(chars.as_slice()) {
        Some((value, ignore)) => match split_chars(value.as_slice(), inherited) {
            None => Ok(None),
            Some(fields) => {
                let options = EnvShebangOptions {
                    ignore_environment: ignore,
                    unset_names: Vec::new(),
                    chdir: None,
                    invalid_signal_disposition: false,
                };
                proof {
                    assert(text::view_lines(options.unset_names@) =~= Seq::empty());
                }
                env_shebang_command_fields(fields, options, inherited, rt)
            },
        },
        None => {
            let mut fields: Vec<Vec<char>> = Vec::new();
            fields.push(chars);
            let options = EnvShebangOptions {
                ignore_environment: false,
                unset_names: Vec::new(),
                chdir: None,
                invalid_signal_disposition: false,
            };
            proof {
                assert(text::view_lines(options.unset_names@) =~= Seq::empty());
                assert(text::view_lines(fields@) =~= seq![argument@]);
            }
            env_shebang_command_fields(fields, options, inherited, rt)
        },
    }
}

/// The command that the argument of an `env` shebang line asks for.
pub fn env_shebang_command(argument: &str, context: &ExecContext) -> (r: Result<
    Option<EnvPlan>,
    &'static str,
>)
    ensures
        exists|rt: RealtimeRange|
            plan_result(r) == #[trigger] shebang_plan(argument@, context@.environment, rt),
{
    let rt = realtime_range();
    let r = env_shebang_plan(argument, &context.environment, rt);
    assert(plan_result(r) == shebang_plan(argument@, context@.environment, rt));
    r
}

// ---------------------------------------------------------------------------
// The command in its context
// ---------------------------------------------------------------------------

/// A command that `env` runs, and the context that it runs in.
#[derive(Debug)]
pub struct EnvShebangCommand {
    pub command: String,
    pub context: ExecContext,
    /// Whether the command is looked up elsewhere than the caller would look.
    pub search_modified: bool,
}

/// What an [`EnvShebangCommand`] holds.
pub struct CommandModel {
    pub command: Seq<char>,
    pub context: ContextModel,
    pub search_modified: bool,
}

impl View for EnvShebangCommand {
    type V = CommandModel;

    open spec fn view(&self) -> CommandModel {
        CommandModel {
            command: self.command@,
            context: self.context@,
            search_modified: self.search_modified,
        }
    }
}

/// The directory that a plan changes to, as a path that has to be looked up. A directory named by
/// an empty text is none.
pub open spec fn chdir_path(plan: PlanModel, inherited: ContextModel) -> Option<Seq<u8>> {
    match plan.chdir {
        None => None,
        Some(dir) => if dir.len() == 0 {
            None
        } else {
            Some(inherited.path(vstd::utf8::encode_utf8(dir)))
        },
    }
}

/// The path of the directory that a plan changes to, which has to be looked up.
pub fn env_chdir(plan: &EnvPlan, inherited: &ExecContext) -> (r: Option<Vec<u8>>)
    ensures
        context::opt_bytes(r) == chdir_path(plan@, inherited@),
{
    match &plan.chdir {
        None => None,
        Some(dir) => {
            if dir.as_str().is_empty() {
                None
            } else {
                Some(inherited.path(dir.as_str().as_bytes()))
            }
        },
    }
}

/// The command of a plan. `directory` is what looking up the directory gave: a plan that changes
/// to a directory which is not there runs nothing.
pub open spec fn planned_command(
    plan: PlanModel,
    inherited: ContextModel,
    directory: Option<Seq<u8>>,
) -> Option<CommandModel> {
    let cwd = if plan.chdir is Some {
        directory
    } else {
        inherited.cwd
    };
    let there = ContextModel { environment: plan.environment, cwd };
    if plan.chdir is Some && (plan.chdir->0.len() == 0 || directory is None) {
        None
    } else {
        Some(
            CommandModel {
                command: plan.command,
                context: there,
                search_modified: cwd != inherited.cwd || context::lookup(
                    plan.environment,
                    context::path_variable(),
                ) != context::lookup(inherited.environment, context::path_variable()),
            },
        )
    }
}

fn same_opt_bytes(a: Option<&Vec<u8>>, b: Option<&Vec<u8>>) -> (r: bool)
    ensures
        r == match (a, b) {
            (Some(x), Some(y)) => x@ == y@,
            (None, None) => true,
            _ => false,
        },
{
    match (a, b) {
        (Some(x), Some(y)) => same_bytes(x.as_slice(), y.as_slice()),
        (None, None) => true,
        _ => false,
    }
}

/// The command of a plan, once the directory it changes to was looked up.
pub fn finish_env_shebang_command(
    plan: &EnvPlan,
    inherited: &ExecContext,
    directory: Option<Vec<u8>>,
) -> (r: Option<EnvShebangCommand>)
    ensures
        match r {
            Some(c) => planned_command(plan@, inherited@, context::opt_bytes(directory)) == Some(
                c@,
            ),
            None => planned_command(plan@, inherited@, context::opt_bytes(directory)) is None,
        },
{
    let cwd = match &plan.chdir {
        Some(dir) => {
            if dir.as_str().is_empty() {
                return None;
            }
            match directory {
                None => return None,
                Some(found) => Some(found),
            }
        },
        None => match &inherited.cwd {
            Some(cwd) => Some(copy_bytes(cwd.as_slice())),
            None => None,
        },
    };
    let name = context::path_name();
    let moved = !same_opt_bytes(cwd.as_ref(), inherited.cwd.as_ref());
    let here = plan.environment.get(name.as_slice());
    let there = inherited.environment.get(name.as_slice());
    let changed = !same_opt_bytes(here, there);
    let context = ExecContext { environment: plan.environment.duplicate(), cwd };
    Some(
        EnvShebangCommand {
            command: plan.command.clone(),
            context,
            search_modified: moved || changed,
        },
    )
}

/// A variable may expand to another `-S`, but never without end: once the limit is reached, one
/// more `-S` is an error.
pub proof fn law_split_is_bounded(
    fields: Seq<Seq<char>>,
    o: OptionsModel,
    env: Map<Seq<u8>, Seq<u8>>,
    rt: RealtimeRange,
    text: Seq<char>,
)
    requires
        fields.len() > 0,
        fields[0].len() > 0 && fields[0][0] == '-' && fields[0] != seq!['-'] && fields[0] != seq!['-', '-'],
        is_long(fields[0]) ==> long_outcome(fields[0], next_arg(fields, 1), o, rt).action
            == ActionModel::SplitString(text),
        !is_long(fields[0]) ==> short_outcome(fields[0].skip(1), next_arg(fields, 1), o).action
            == ActionModel::SplitString(text),
    ensures
        read_args(fields, o, env, rt, SPLIT_STEP_LIMIT as nat) == Err::<
            Option<PlanModel>,
            Seq<char>,
        >(split_limit_text()),
{
}

} // verus!
