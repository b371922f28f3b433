//! Settings that come from the environment where nothing else gives them.

use vstd::prelude::*;

use crate::cli::{Cli, CliModel};
use crate::context::{self, Environment};
use crate::logging::Level;
use crate::report;
use crate::signals::{self, upper_chars};
use crate::text::{self, chars_of, copy_bytes, decimal_text, escape_bytes, is_text, parse_unsigned, trimmed, utf8_text};

verus! {

/// What a text says about a switch: a number that is 0 or 1, or a word in any case.
pub open spec fn switch_of(raw: Seq<u8>) -> Option<bool> {
    if !vstd::utf8::valid_utf8(raw) {
        None
    } else {
        let word = text::trim(vstd::utf8::decode_utf8(raw));
        match text::unsigned_of(word, 255) {
            Ok(n) => if n == 0 {
                Some(false)
            } else if n == 1 {
                Some(true)
            } else {
                None
            },
            Err(_) => {
                let upper = signals::upper(word);
                if upper == "TRUE"@ || upper == "YES"@ || upper == "ON"@ {
                    Some(true)
                } else if upper == "FALSE"@ || upper == "NO"@ || upper == "OFF"@ {
                    Some(false)
                } else {
                    None
                }
            },
        }
    }
}

/// What a text says about a switch, if it says anything.
pub fn interpret_env_flag(raw: &[u8]) -> (r: Option<bool>)
    ensures
        r == switch_of(raw@),
{
    let whole = match utf8_text(raw) {
        Ok(s) => chars_of(s.as_str()),
        Err(_) => return None,
    };
    let word = trimmed(whole.as_slice());
    match parse_unsigned(word, 255) {
        Ok(n) => {
            if n == 0 {
                Some(false)
            } else if n == 1 {
                Some(true)
            } else {
                None
            }
        },
        Err(_) => {
            let upper = upper_chars(word);
            let upper = upper.as_slice();
            if is_text(upper, "TRUE") || is_text(upper, "YES") || is_text(upper, "ON") {
                Some(true)
            } else if is_text(upper, "FALSE") || is_text(upper, "NO") || is_text(upper, "OFF") {
                Some(false)
            } else {
                None
            }
        },
    }
}

/// What a text says about the verbosity.
pub open spec fn verbosity_of(raw: Seq<u8>) -> Result<u8, Seq<char>> {
    if !vstd::utf8::valid_utf8(raw) {
        Err("not valid UTF-8"@)
    } else {
        match text::unsigned_of(text::trim(vstd::utf8::decode_utf8(raw)), 255) {
            Ok(n) => Ok(n as u8),
            Err(e) => Err(text::number_error_text(e)),
        }
    }
}

/// What a text says about the verbosity.
pub fn parse_env_verbosity(raw: &[u8]) -> (r: Result<u8, String>)
    ensures
        match r {
            Ok(n) => verbosity_of(raw@) == Ok::<u8, Seq<char>>(n),
            Err(e) => verbosity_of(raw@) == Err::<u8, Seq<char>>(e@),
        },
{
    let whole = match utf8_text(raw) {
        Ok(s) => chars_of(s.as_str()),
        Err(_) => return Err("not valid UTF-8".to_owned()),
    };
    match parse_unsigned(trimmed(whole.as_slice()), 255) {
        Ok(n) => Ok(n as u8),
        Err(e) => Err(e.describe().to_owned()),
    }
}

/// The value of the first of two variables that is set, and its name.
pub open spec fn first_set(env: Map<Seq<u8>, Seq<u8>>, native: Seq<char>, other: Seq<char>) -> Option<
    (Seq<char>, Seq<u8>),
> {
    match context::lookup(env, vstd::utf8::encode_utf8(native)) {
        Some(value) => Some((native, value)),
        None => match context::lookup(env, vstd::utf8::encode_utf8(other)) {
            Some(value) => Some((other, value)),
            None => None,
        },
    }
}

fn env_default(env: &Environment, native: &'static str, other: &'static str) -> (r: Option<
    (&'static str, Vec<u8>),
>)
    ensures
        match r {
            Some((name, value)) => first_set(env@, native@, other@) == Some((name@, value@)),
            None => first_set(env@, native@, other@) is None,
        },
{
    match env.get(native.as_bytes()) {
        Some(value) => Some((native, copy_bytes(value.as_slice()))),
        None => match env.get(other.as_bytes()) {
            Some(value) => Some((other, copy_bytes(value.as_slice()))),
            None => None,
        },
    }
}

/// What came from the environment, and what did not because it is wrong.
#[derive(Debug)]
pub struct EnvDefaultLog {
    pub subreaper_env: Option<(&'static str, bool)>,
    pub pgroup_env: Option<(&'static str, bool)>,
    pub verbosity_env: Option<(&'static str, u8)>,
    pub invalid_flags: Vec<(&'static str, Vec<u8>)>,
    pub verbosity_error: Option<(&'static str, Vec<u8>, String)>,
}

/// What an [`EnvDefaultLog`] holds.
pub struct EnvLogModel {
    pub subreaper_env: Option<(Seq<char>, bool)>,
    pub pgroup_env: Option<(Seq<char>, bool)>,
    pub verbosity_env: Option<(Seq<char>, u8)>,
    pub invalid_flags: Seq<(Seq<char>, Seq<u8>)>,
    pub verbosity_error: Option<(Seq<char>, Seq<u8>, Seq<char>)>,
}

pub open spec fn view_flag(v: Option<(&'static str, bool)>) -> Option<(Seq<char>, bool)> {
    match v {
        Some((name, on)) => Some((name@, on)),
        None => None,
    }
}

pub open spec fn view_invalid(v: Seq<(&'static str, Vec<u8>)>) -> Seq<(Seq<char>, Seq<u8>)> {
    Seq::new(v.len(), |i: int| (v[i].0@, v[i].1@))
}

impl View for EnvDefaultLog {
    type V = EnvLogModel;

    open spec fn view(&self) -> EnvLogModel {
        EnvLogModel {
            subreaper_env: view_flag(self.subreaper_env),
            pgroup_env: view_flag(self.pgroup_env),
            verbosity_env: match self.verbosity_env {
                Some((name, level)) => Some((name@, level)),
                None => None,
            },
            invalid_flags: view_invalid(self.invalid_flags@),
            verbosity_error: match self.verbosity_error {
                Some((name, value, e)) => Some((name@, value@, e@)),
                None => None,
            },
        }
    }
}

impl Default for EnvDefaultLog {
    fn default() -> (r: Self)
        ensures
            r@ == nothing_from_env(),
    {
        let r = EnvDefaultLog {
            subreaper_env: None,
            pgroup_env: None,
            verbosity_env: None,
            invalid_flags: Vec::new(),
            verbosity_error: None,
        };
        assert(view_invalid(r.invalid_flags@) =~= Seq::empty());
        r
    }
}

pub open spec fn nothing_from_env() -> EnvLogModel {
    EnvLogModel {
        subreaper_env: None,
        pgroup_env: None,
        verbosity_env: None,
        invalid_flags: Seq::empty(),
        verbosity_error: None,
    }
}

/// What the environment says about a switch that is off.
pub enum SwitchModel {
    Silent,
    Says(Seq<char>, bool),
    Invalid(Seq<char>, Seq<u8>),
}

/// What the environment says about a switch. It is not asked about one that is on.
pub open spec fn switch_default(
    on: bool,
    env: Map<Seq<u8>, Seq<u8>>,
    native: Seq<char>,
    other: Seq<char>,
) -> SwitchModel {
    if on {
        SwitchModel::Silent
    } else {
        match first_set(env, native, other) {
            None => SwitchModel::Silent,
            Some((name, value)) => match switch_of(value) {
                Some(b) => SwitchModel::Says(name, b),
                None => SwitchModel::Invalid(name, value),
            },
        }
    }
}

/// The switch after that.
pub open spec fn switched(on: bool, s: SwitchModel) -> bool {
    match s {
        SwitchModel::Says(name, b) => b,
        _ => on,
    }
}

pub open spec fn switch_log(s: SwitchModel) -> Option<(Seq<char>, bool)> {
    match s {
        SwitchModel::Says(name, b) => Some((name, b)),
        _ => None,
    }
}

pub open spec fn switch_fault(s: SwitchModel) -> Seq<(Seq<char>, Seq<u8>)> {
    match s {
        SwitchModel::Invalid(name, value) => seq![(name, value)],
        _ => Seq::empty(),
    }
}

pub open spec fn subreaper_default(on: bool, env: Map<Seq<u8>, Seq<u8>>) -> SwitchModel {
    switch_default(on, env, "TINO_SUBREAPER"@, "TINI_SUBREAPER"@)
}

pub open spec fn pgroup_default(on: bool, env: Map<Seq<u8>, Seq<u8>>) -> SwitchModel {
    switch_default(
        on,
        env,
        "TINO_KILL_PROCESS_GROUP"@,
        "TINI_KILL_PROCESS_GROUP"@,
    )
}

/// The verbosity that the environment gives where none is set, and its name.
pub open spec fn verbosity_default(level: u8, env: Map<Seq<u8>, Seq<u8>>) -> Option<
    (Seq<char>, u8),
> {
    if level != 0 {
        None
    } else {
        match first_set(env, "TINO_VERBOSITY"@, "TINI_VERBOSITY"@) {
            None => None,
            Some((name, value)) => match verbosity_of(value) {
                Ok(n) => Some(
                    (
                        name,
                        if n < 3 {
                            n
                        } else {
                            3u8
                        },
                    ),
                ),
                Err(_) => None,
            },
        }
    }
}

pub open spec fn verbosity_fault(level: u8, env: Map<Seq<u8>, Seq<u8>>) -> Option<
    (Seq<char>, Seq<u8>, Seq<char>),
> {
    if level != 0 {
        None
    } else {
        match first_set(env, "TINO_VERBOSITY"@, "TINI_VERBOSITY"@) {
            None => None,
            Some((name, value)) => match verbosity_of(value) {
                Ok(_) => None,
                Err(e) => Some((name, value, e)),
            },
        }
    }
}

/// The settings with what the environment adds.
pub open spec fn with_defaults(m: CliModel, env: Map<Seq<u8>, Seq<u8>>) -> CliModel {
    CliModel {
        subreaper: switched(m.subreaper, subreaper_default(m.subreaper, env)),
        pgroup_kill: switched(m.pgroup_kill, pgroup_default(m.pgroup_kill, env)),
        verbosity: match verbosity_default(m.verbosity, env) {
            Some((name, n)) => n,
            None => m.verbosity,
        },
        ..m
    }
}

/// What is known of where three settings came from.
pub open spec fn read_log(
    subreaper: bool,
    pgroup_kill: bool,
    verbosity: u8,
    env: Map<Seq<u8>, Seq<u8>>,
) -> EnvLogModel {
    EnvLogModel {
        subreaper_env: switch_log(subreaper_default(subreaper, env)),
        pgroup_env: switch_log(pgroup_default(pgroup_kill, env)),
        verbosity_env: verbosity_default(verbosity, env),
        invalid_flags: switch_fault(subreaper_default(subreaper, env)) + switch_fault(
            pgroup_default(pgroup_kill, env),
        ),
        verbosity_error: verbosity_fault(verbosity, env),
    }
}

/// What is known of where the settings came from.
pub open spec fn defaults_log(m: CliModel, env: Map<Seq<u8>, Seq<u8>>) -> EnvLogModel {
    read_log(m.subreaper, m.pgroup_kill, m.verbosity, env)
}

/// A switch, what the environment says about it, and what it says that is wrong.
fn default_switch(
    on: bool,
    env: &Environment,
    native: &'static str,
    other: &'static str,
    invalid: &mut Vec<(&'static str, Vec<u8>)>,
) -> (r: (bool, Option<(&'static str, bool)>))
    ensures
        ({
            let s = switch_default(on, env@, native@, other@);
            &&& r.0 == switched(on, s)
            &&& view_flag(r.1) == switch_log(s)
            &&& view_invalid(final(invalid)@) == view_invalid(old(invalid)@) + switch_fault(s)
        }),
{
    let ghost s = switch_default(on, env@, native@, other@);
    let ghost before = view_invalid(invalid@);
    if !on {
        if let Some((name, value)) = env_default(env, native, other) {
            match interpret_env_flag(value.as_slice()) {
                Some(b) => {
                    assert(before + switch_fault(s) =~= before);
                    return (b, Some((name, b)));
                },
                None => {
                    let ghost shown = value@;
                    invalid.push((name, value));
                    assert(view_invalid(invalid@) =~= before + seq![(name@, shown)]);
                    return (on, None);
                },
            }
        }
    }
    assert(before + switch_fault(s) =~= before);
    (on, None)
}

/// The verbosity, where it came from, and what is wrong with it.
fn default_verbosity(level: u8, env: &Environment) -> (r: (
    u8,
    Option<(&'static str, u8)>,
    Option<(&'static str, Vec<u8>, String)>,
))
    ensures
        r.0 == match verbosity_default(level, env@) {
            Some((name, n)) => n,
            None => level,
        },
        match r.1 {
            Some((name, n)) => verbosity_default(level, env@) == Some((name@, n)),
            None => verbosity_default(level, env@) is None,
        },
        match r.2 {
            Some((name, value, e)) => verbosity_fault(level, env@) == Some((name@, value@, e@)),
            None => verbosity_fault(level, env@) is None,
        },
{
    if level == 0 {
        if let Some((name, value)) = env_default(env, "TINO_VERBOSITY", "TINI_VERBOSITY") {
            match parse_env_verbosity(value.as_slice()) {
                Ok(n) => {
                    let n: u8 = if n < 3 {
                        n
                    } else {
                        3
                    };
                    return (n, Some((name, n)), None);
                },
                Err(e) => return (level, None, Some((name, value, e))),
            }
        }
    }
    (level, None, None)
}

/// What the environment gives for three settings.
fn read_env_defaults(subreaper: bool, pgroup_kill: bool, verbosity: u8, env: &Environment) -> (r: (
    bool,
    bool,
    u8,
    EnvDefaultLog,
))
    ensures
        r.0 == switched(subreaper, subreaper_default(subreaper, env@)),
        r.1 == switched(pgroup_kill, pgroup_default(pgroup_kill, env@)),
        r.2 == match verbosity_default(verbosity, env@) {
            Some((name, n)) => n,
            None => verbosity,
        },
        r.3@ == read_log(subreaper, pgroup_kill, verbosity, env@),
{
    let mut invalid_flags: Vec<(&'static str, Vec<u8>)> = Vec::new();
    assert(view_invalid(invalid_flags@) =~= Seq::empty());
    let (new_subreaper, subreaper_env) = default_switch(
        subreaper,
        env,
        "TINO_SUBREAPER",
        "TINI_SUBREAPER",
        &mut invalid_flags,
    );
    let (new_pgroup, pgroup_env) = default_switch(
        pgroup_kill,
        env,
        "TINO_KILL_PROCESS_GROUP",
        "TINI_KILL_PROCESS_GROUP",
        &mut invalid_flags,
    );
    proof {
        assert(view_invalid(invalid_flags@) =~= switch_fault(subreaper_default(subreaper, env@))
            + switch_fault(pgroup_default(pgroup_kill, env@)));
    }
    let (new_verbosity, verbosity_env, verbosity_error) = default_verbosity(verbosity, env);
    let log = EnvDefaultLog {
        subreaper_env,
        pgroup_env,
        verbosity_env,
        invalid_flags,
        verbosity_error,
    };
    (new_subreaper, new_pgroup, new_verbosity, log)
}

/// Takes from the environment what is not set otherwise.
pub fn apply_env_defaults_with(cli: &mut Cli, env: &Environment) -> (r: EnvDefaultLog)
    ensures
        final(cli)@ == with_defaults(old(cli)@, env@),
        r@ == defaults_log(old(cli)@, env@),
{
    let ghost m = cli@;
    let (subreaper, pgroup_kill, verbosity, log) = read_env_defaults(
        cli.subreaper,
        cli.pgroup_kill,
        cli.verbosity,
        env,
    );
    cli.subreaper = subreaper;
    cli.pgroup_kill = pgroup_kill;
    cli.verbosity = verbosity;
    assert(cli@ == (CliModel { subreaper, pgroup_kill, verbosity, ..m }));
    log
}

// ---------------------------------------------------------------------------
// What is logged
// ---------------------------------------------------------------------------

/// What is said of a switch.
pub open spec fn switch_line(what: Seq<char>, v: Option<(Seq<char>, bool)>) -> Seq<
    (Level, Seq<char>),
> {
    match v {
        None => Seq::empty(),
        Some((name, on)) => seq![
            (
                Level::Debug,
                what + (if on {
                    " enabled via "@
                } else {
                    " disabled via "@
                }) + name,
            ),
        ],
    }
}

pub open spec fn verbosity_line(v: Option<(Seq<char>, u8)>) -> Seq<(Level, Seq<char>)> {
    match v {
        None => Seq::empty(),
        Some((name, level)) => seq![
            (
                Level::Debug,
                "verbosity sourced from "@ + name + ": "@ + text::decimal(level as nat),
            ),
        ],
    }
}

pub open spec fn invalid_lines(v: Seq<(Seq<char>, Seq<u8>)>) -> Seq<(Level, Seq<char>)> {
    Seq::new(
        v.len(),
        |i: int|
            (
                Level::Warn,
                "invalid boolean env default: "@ + v[i].0 + "="@ + report::shown_path(v[i].1),
            ),
    )
}

pub open spec fn fault_line(v: Option<(Seq<char>, Seq<u8>, Seq<char>)>) -> Seq<(Level, Seq<char>)> {
    match v {
        None => Seq::empty(),
        Some((name, value, e)) => seq![
            (Level::Warn, "invalid "@ + name + "="@ + report::shown_path(value) + ": "@ + e),
        ],
    }
}

/// What is logged about what came from the environment.
pub open spec fn log_lines(m: EnvLogModel) -> Seq<(Level, Seq<char>)> {
    switch_line("subreaper"@, m.subreaper_env) + switch_line(
        "process group kill"@,
        m.pgroup_env,
    ) + verbosity_line(m.verbosity_env) + invalid_lines(m.invalid_flags) + fault_line(
        m.verbosity_error,
    )
}

pub open spec fn view_lines(v: Seq<(Level, String)>) -> Seq<(Level, Seq<char>)> {
    Seq::new(v.len(), |i: int| (v[i].0, v[i].1@))
}

fn push_line(out: &mut Vec<(Level, String)>, level: Level, message: String)
    ensures
        view_lines(final(out)@) == view_lines(old(out)@).push((level, message@)),
{
    let ghost said = message@;
    out.push((level, message));
    assert(view_lines(out@) =~= view_lines(old(out)@).push((level, said)));
}

fn push_switch(out: &mut Vec<(Level, String)>, what: &str, v: Option<(&'static str, bool)>)
    ensures
        view_lines(final(out)@) == view_lines(old(out)@) + switch_line(what@, view_flag(v)),
{
    match v {
        None => {
            assert(view_lines(out@) + Seq::empty() =~= view_lines(out@));
        },
        Some((name, on)) => {
            let mut message = what.to_owned();
            if on {
                message.append(" enabled via ");
            } else {
                message.append(" disabled via ");
            }
            message.append(name);
            let ghost before = view_lines(out@);
            let ghost said = message@;
            push_line(out, Level::Debug, message);
            assert(view_lines(out@) =~= before + seq![(Level::Debug, said)]);
        },
    }
}

impl EnvDefaultLog {
    /// What is logged about what came from the environment.
    pub fn emit(&self) -> (r: Vec<(Level, String)>)
        ensures
            view_lines(r@) == log_lines(self@),
    {
        let mut out: Vec<(Level, String)> = Vec::new();
        assert(view_lines(out@) =~= Seq::empty());
        push_switch(&mut out, "subreaper", self.subreaper_env);
        push_switch(&mut out, "process group kill", self.pgroup_env);
        if let Some((name, level)) = self.verbosity_env {
            let mut message = "verbosity sourced from ".to_owned();
            message.append(name);
            message.append(": ");
            message.append(decimal_text(level as u64).as_str());
            push_line(&mut out, Level::Debug, message);
        }
        let ghost start = switch_line("subreaper"@, self@.subreaper_env) + switch_line(
            "process group kill"@,
            self@.pgroup_env,
        ) + verbosity_line(self@.verbosity_env);
        assert(view_lines(out@) =~= start);
        let ghost all = invalid_lines(self@.invalid_flags);
        let mut i: usize = 0;
        assert(start + all.take(0) =~= start);
        while i < self.invalid_flags.len()
            invariant
                i <= self.invalid_flags@.len(),
                all == invalid_lines(self@.invalid_flags),
                view_lines(out@) == start + all.take(i as int),
            decreases self.invalid_flags@.len() - i,
        {
            let name = self.invalid_flags[i].0;
            let mut message = "invalid boolean env default: ".to_owned();
            message.append(name);
            message.append("=");
            message.append(escape_bytes(self.invalid_flags[i].1.as_slice()).as_str());
            proof {
                assert((Level::Warn, message@) == all[i as int]);
                assert(start + all.take(i + 1) =~= (start + all.take(i as int)).push(
                    all[i as int],
                ));
            }
            push_line(&mut out, Level::Warn, message);
            i = i + 1;
        }
        assert(all.take(i as int) =~= all);
        if let Some((name, value, e)) = &self.verbosity_error {
            let mut message = "invalid ".to_owned();
            message.append(name);
            message.append("=");
            message.append(escape_bytes(value.as_slice()).as_str());
            message.append(": ");
            message.append(e.as_str());
            push_line(&mut out, Level::Warn, message);
        }
        assert(view_lines(out@) =~= log_lines(self@));
        out
    }
}

// ---------------------------------------------------------------------------
// Laws
// ---------------------------------------------------------------------------

/// What is set by other means is not touched by the environment.
pub proof fn law_settings_win_over_environment(m: CliModel, env: Map<Seq<u8>, Seq<u8>>)
    ensures
        m.subreaper ==> with_defaults(m, env).subreaper,
        m.pgroup_kill ==> with_defaults(m, env).pgroup_kill,
        m.verbosity > 0 ==> with_defaults(m, env).verbosity == m.verbosity,
        with_defaults(m, env) == (CliModel {
            subreaper: with_defaults(m, env).subreaper,
            pgroup_kill: with_defaults(m, env).pgroup_kill,
            verbosity: with_defaults(m, env).verbosity,
            ..m
        }),
{
}

/// A native variable hides the variable of the same meaning under the other name.
pub proof fn law_native_names_win(
    env: Map<Seq<u8>, Seq<u8>>,
    native: Seq<char>,
    other: Seq<char>,
    value: Seq<u8>,
)
    requires
        vstd::utf8::encode_utf8(native) != vstd::utf8::encode_utf8(other),
        context::lookup(env, vstd::utf8::encode_utf8(native)) is Some,
    ensures
        first_set(env.insert(vstd::utf8::encode_utf8(other), value), native, other) == first_set(
            env,
            native,
            other,
        ),
{
}

} // verus!
