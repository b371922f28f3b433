//! From the settings to what is done.

use vstd::prelude::*;

use crate::cli::{self, Cli, CliModel, DEFAULT_CONFIG_PATH};
use crate::config::{self, load_config, FileContent};
use crate::config_text;
use crate::control::{
    self, build_exit_remap, reject_control_command, selected_control_mode, validate_config_signal,
    ControlMode,
};
use crate::env_defaults::{self, apply_env_defaults_with};
use crate::error::{self, Error, ErrorModel};
use crate::explain::{self, collect_explain_platform, explain, ExplainOrigins};
use crate::facts::{Find, FindModel, Question, QuestionModel, World, WorldModel};
use crate::logging::Level;
use crate::text;

verus! {

/// A command that is to be run, with the settings that count.
#[derive(Debug)]
pub struct Launch {
    pub cli: Cli,
    /// The verbosity of what is logged.
    pub verbosity: u8,
    /// What is logged first.
    pub log: Vec<(Level, String)>,
    /// Which exit codes become 0.
    pub expect_zero: [bool; 256],
}

/// What a [`Launch`] holds.
pub struct LaunchModel {
    pub settings: CliModel,
    pub verbosity: u8,
    pub log: Seq<(Level, Seq<char>)>,
    pub expect_zero: Seq<bool>,
}

impl View for Launch {
    type V = LaunchModel;

    open spec fn view(&self) -> LaunchModel {
        LaunchModel {
            settings: self.cli@,
            verbosity: self.verbosity,
            log: env_defaults::view_lines(self.log@),
            expect_zero: self.expect_zero@,
        }
    }
}

/// What is to be done.
#[derive(Debug)]
pub enum Task {
    /// Something about the file system has to be known first.
    Need(Question),
    /// It cannot be done.
    Fail(Error),
    /// Print a text and end well.
    Print(String),
    /// Write the configuration file, then see whether it is good.
    WriteConfig(String),
    /// Run a command.
    Supervise(Launch),
    /// Log what there is to log, then print a text and end well, or say what is wrong.
    Report { verbosity: u8, log: Vec<(Level, String)>, outcome: Result<String, Error> },
}

/// What a [`Task`] is.
pub enum TaskModel {
    Need(QuestionModel),
    Fail(ErrorModel),
    Print(Seq<char>),
    WriteConfig(Seq<char>),
    Supervise(LaunchModel),
    Report {
        verbosity: u8,
        log: Seq<(Level, Seq<char>)>,
        outcome: Result<Seq<char>, ErrorModel>,
    },
}

impl View for Task {
    type V = TaskModel;

    open spec fn view(&self) -> TaskModel {
        match *self {
            Task::Need(q) => TaskModel::Need(q@),
            Task::Fail(e) => TaskModel::Fail(e@),
            Task::Print(s) => TaskModel::Print(s@),
            Task::WriteConfig(s) => TaskModel::WriteConfig(s@),
            Task::Supervise(launch) => TaskModel::Supervise(launch@),
            Task::Report { verbosity, log, outcome } => TaskModel::Report {
                verbosity,
                log: env_defaults::view_lines(log@),
                outcome: match outcome {
                    Ok(s) => Ok(s@),
                    Err(e) => Err(e@),
                },
            },
        }
    }
}

// ---------------------------------------------------------------------------
// Configuration
// ---------------------------------------------------------------------------

/// Whether settings can be put to use: the first thing that is wrong or not known.
pub open spec fn validity(w: WorldModel, m: CliModel) -> FindModel<()> {
    match control::signal_fault(m) {
        Some(e) => FindModel::Fail(e),
        None => match explain::platform_of(w, m) {
            FindModel::Need(q) => FindModel::Need(q),
            FindModel::Fail(e) => FindModel::Fail(e),
            FindModel::Found(_) => FindModel::Found(()),
        },
    }
}

pub open spec fn find_unit(r: Find<()>) -> FindModel<()> {
    match r {
        Find::Need(q) => FindModel::Need(q@),
        Find::Fail(e) => FindModel::Fail(e@),
        Find::Found(x) => FindModel::Found(x),
    }
}

/// Checks whether settings can be put to use.
pub fn validate_config(w: &World, cli: &Cli) -> (r: Find<()>)
    ensures
        find_unit(r) == validity(w@, cli@),
{
    match validate_config_signal(cli) {
        Err(e) => return Find::Fail(e),
        Ok(()) => {},
    }
    match collect_explain_platform(w, cli) {
        Find::Need(q) => Find::Need(q),
        Find::Fail(e) => Find::Fail(e),
        Find::Found(_) => Find::Found(()),
    }
}

/// What comes of checking the configuration file: a message that it is good, or what is wrong.
pub open spec fn checked_file(w: WorldModel, file: FileContent, message: Seq<char>) -> TaskModel {
    match config::file_effect(DEFAULT_CONFIG_PATH@, true, file) {
        Err(e) => TaskModel::Fail(error::failure(e.message)),
        Ok(m) => match validity(w, m) {
            FindModel::Need(q) => TaskModel::Need(q),
            FindModel::Fail(e) => TaskModel::Fail(e),
            FindModel::Found(_) => TaskModel::Print(message + DEFAULT_CONFIG_PATH@ + "\n"@),
        },
    }
}

fn check_file(w: &World, file: &FileContent, message: &str) -> (r: Task)
    ensures
        r@ == checked_file(w@, *file, message@),
{
    let config = match load_config(DEFAULT_CONFIG_PATH, true, file) {
        Err(e) => return Task::Fail(Error::msg(e.message().to_owned())),
        Ok(config) => config,
    };
    match validate_config(w, &config) {
        Find::Need(q) => Task::Need(q),
        Find::Fail(e) => Task::Fail(e),
        Find::Found(()) => {
            let mut out = message.to_owned();
            out.append(DEFAULT_CONFIG_PATH);
            out.append("\n");
            Task::Print(out)
        },
    }
}

/// What comes of checking the configuration file that was just written.
pub open spec fn written(w: WorldModel, file: FileContent) -> TaskModel {
    checked_file(w, file, "tino: config written: "@)
}

/// Checks the configuration file that was just written.
pub fn check_written_config(w: &World, file: &FileContent) -> (r: Task)
    ensures
        r@ == written(w@, *file),
{
    check_file(w, file, "tino: config written: ")
}

/// The text of the configuration file, where the settings can be put to use and written down.
pub open spec fn config_file_text(w: WorldModel, m: CliModel) -> FindModel<Seq<char>> {
    match validity(w, m) {
        FindModel::Need(q) => FindModel::Need(q),
        FindModel::Fail(e) => FindModel::Fail(e),
        FindModel::Found(_) => match config_text::config_entries(m) {
            Err(message) => FindModel::Fail(error::misuse(message)),
            Ok(entries) => FindModel::Found(config_text::entries_text(entries)),
        },
    }
}

fn text_for_config_file(w: &World, cli: &Cli) -> (r: Find<String>)
    ensures
        explain::find_text(r) == config_file_text(w@, cli@),
{
    match validate_config(w, cli) {
        Find::Need(q) => return Find::Need(q),
        Find::Fail(e) => return Find::Fail(e),
        Find::Found(()) => {},
    }
    match cli.config_text() {
        Err(e) => Find::Fail(Error::usage(e.message().to_owned())),
        Ok(s) => Find::Found(s),
    }
}

// ---------------------------------------------------------------------------
// Running
// ---------------------------------------------------------------------------

/// The settings that count: with what the environment adds, and with the subreaper that a warning
/// about reaped children needs.
pub open spec fn effective(m: CliModel, env: Map<Seq<u8>, Seq<u8>>) -> CliModel {
    let with = env_defaults::with_defaults(m, env);
    CliModel { subreaper: with.subreaper || with.warn_on_reap, ..with }
}

/// Whether a warning about reaped children asked for the subreaper.
pub open spec fn implied_subreaper(m: CliModel, env: Map<Seq<u8>, Seq<u8>>) -> bool {
    let with = env_defaults::with_defaults(m, env);
    with.warn_on_reap && !with.subreaper
}

/// What is logged before a command is run.
pub open spec fn first_log(m: CliModel, env: Map<Seq<u8>, Seq<u8>>) -> Seq<(Level, Seq<char>)> {
    env_defaults::log_lines(env_defaults::defaults_log(m, env)) + if implied_subreaper(m, env) {
        seq![(Level::Debug, "subreaper enabled via --warn-on-reap"@)]
    } else {
        Seq::empty()
    }
}

pub open spec fn top_verbosity(level: u8) -> u8 {
    if level < 3 {
        level
    } else {
        3
    }
}

/// Lines that are logged for debugging.
pub open spec fn debug_lines(v: Seq<Seq<char>>) -> Seq<(Level, Seq<char>)> {
    Seq::new(v.len(), |i: int| (Level::Debug, v[i]))
}

/// An explanation, or what stands against it, behind what was skipped on the way.
pub open spec fn explanation(
    w: WorldModel,
    settings: CliModel,
    outcome: Result<Seq<char>, ErrorModel>,
) -> TaskModel {
    TaskModel::Report {
        verbosity: top_verbosity(settings.verbosity),
        log: debug_lines(explain::explain_notes(w, settings)),
        outcome,
    }
}

/// What is done where no file of settings is concerned: the explanation, or the command.
pub open spec fn launched(w: WorldModel, m: CliModel) -> TaskModel {
    let env = w.context.environment;
    let settings = effective(m, env);
    if m.explain {
        match explain::explained(
            w,
            settings,
            ExplainOrigins {
                subreaper: m.subreaper,
                pgroup_kill: m.pgroup_kill,
                verbosity: m.verbosity,
            },
            env_defaults::defaults_log(m, env),
            implied_subreaper(m, env),
        ) {
            FindModel::Need(q) => TaskModel::Need(q),
            FindModel::Fail(e) => explanation(w, settings, Err(e)),
            FindModel::Found(s) => explanation(w, settings, Ok(s)),
        }
    } else if m.cmd.len() == 0 {
        TaskModel::Report {
            verbosity: top_verbosity(settings.verbosity),
            log: first_log(m, env),
            outcome: Err(error::misuse("missing CMD (use --help)"@)),
        }
    } else {
        TaskModel::Supervise(
            LaunchModel {
                settings,
                verbosity: top_verbosity(settings.verbosity),
                log: first_log(m, env),
                expect_zero: control::remap_table(m.remap_exit),
            },
        )
    }
}

/// What some settings ask for. `file` is what the configuration file holds.
pub open spec fn task_of(w: WorldModel, m: CliModel, file: FileContent) -> TaskModel {
    match control::selected(m) {
        Err(e) => TaskModel::Fail(e),
        Ok(Some(mode)) if mode !is Explain => match control::command_misuse(m, mode) {
            Some(e) => TaskModel::Fail(e),
            None => if mode is CheckConfig {
                checked_file(w, file, "tino: config OK: "@)
            } else {
                match config_file_text(w, m) {
                    FindModel::Need(q) => TaskModel::Need(q),
                    FindModel::Fail(e) => TaskModel::Fail(e),
                    FindModel::Found(s) => if mode is WriteConfig {
                        TaskModel::WriteConfig(s)
                    } else {
                        TaskModel::Print(s)
                    },
                }
            },
        },
        Ok(_) => launched(w, m),
    }
}

fn launch(w: &World, cli: Cli) -> (r: Task)
    ensures
        r@ == launched(w@, cli@),
{
    let ghost m = cli@;
    let ghost env = w.context.environment@;
    let mut cli = cli;
    let origins = ExplainOrigins {
        subreaper: cli.subreaper,
        pgroup_kill: cli.pgroup_kill,
        verbosity: cli.verbosity,
    };
    let env_defaults = apply_env_defaults_with(&mut cli, &w.context.environment);
    let ghost with = cli@;
    let implied = cli.warn_on_reap && !cli.subreaper;
    if implied {
        cli.subreaper = true;
    }
    assert(cli@ == (CliModel { subreaper: with.subreaper || with.warn_on_reap, ..with }));
    let verbosity: u8 = cli.resolved_verbosity();
    if cli.explain {
        let explanation = explain(w, &cli, &origins, &env_defaults, implied);
        let log = for_debugging(explanation.notes);
        return match explanation.outcome {
            Find::Need(q) => Task::Need(q),
            Find::Fail(e) => Task::Report { verbosity, log, outcome: Err(e) },
            Find::Found(s) => Task::Report { verbosity, log, outcome: Ok(s) },
        };
    }
    let log = full_log(&env_defaults, implied);
    if cli.cmd.len() == 0 {
        let error = Error::usage("missing CMD (use --help)".to_owned());
        return Task::Report { verbosity, log, outcome: Err(error) };
    }
    let expect_zero = build_exit_remap(&cli.remap_exit);
    Task::Supervise(Launch { cli, verbosity, log, expect_zero })
}

fn for_debugging(notes: Vec<String>) -> (r: Vec<(Level, String)>)
    ensures
        env_defaults::view_lines(r@) == debug_lines(text::texts(notes@)),
{
    let mut out: Vec<(Level, String)> = Vec::new();
    let mut i: usize = 0;
    while i < notes.len()
        invariant
            i <= notes@.len(),
            out@.len() == i,
            forall|j: int|
                0 <= j < i ==> (#[trigger] out@[j]).0 == Level::Debug && out@[j].1@
                    == notes@[j]@,
        decreases notes@.len() - i,
    {
        out.push((Level::Debug, notes[i].clone()));
        i = i + 1;
    }
    assert(env_defaults::view_lines(out@) =~= debug_lines(text::texts(notes@)));
    out
}

fn full_log(env_defaults: &env_defaults::EnvDefaultLog, implied: bool) -> (r: Vec<(Level, String)>)
    ensures
        env_defaults::view_lines(r@) == env_defaults::log_lines(env_defaults@) + if implied {
            seq![(Level::Debug, "subreaper enabled via --warn-on-reap"@)]
        } else {
            Seq::empty()
        },
{
    let mut log = env_defaults.emit();
    let ghost before = env_defaults::view_lines(log@);
    if implied {
        let said = "subreaper enabled via --warn-on-reap".to_owned();
        let ghost text = said@;
        log.push((Level::Debug, said));
        assert(env_defaults::view_lines(log@) =~= before + seq![(Level::Debug, text)]);
    } else {
        assert(before + Seq::empty() =~= before);
    }
    log
}

/// Works out what some settings ask for. `file` is what the configuration file holds.
pub fn run(w: &World, cli: Cli, file: &FileContent) -> (r: Task)
    ensures
        r@ == task_of(w@, cli@, *file),
{
    let mode = match selected_control_mode(&cli) {
        Err(e) => return Task::Fail(e),
        Ok(None) | Ok(Some(ControlMode::Explain)) => return launch(w, cli),
        Ok(Some(mode)) => mode,
    };
    match reject_control_command(&cli, mode) {
        Err(e) => return Task::Fail(e),
        Ok(()) => {},
    }
    if let ControlMode::CheckConfig = mode {
        return check_file(w, file, "tino: config OK: ");
    }
    match text_for_config_file(w, &cli) {
        Find::Need(q) => Task::Need(q),
        Find::Fail(e) => Task::Fail(e),
        Find::Found(s) => match mode {
            ControlMode::WriteConfig => Task::WriteConfig(s),
            _ => Task::Print(s),
        },
    }
}

/// What is said of an error at the end.
pub open spec fn last_words(e: ErrorModel) -> Seq<char> {
    "ERROR tino: "@ + error::report_text(e.messages) + "\n"@ + if e.usage {
        "Try 'tino --help' for usage.\n"@
    } else {
        Seq::empty()
    }
}

/// What is said of an error at the end, and the exit code that goes with it.
pub fn failure_printout(e: &Error) -> (r: (String, i32))
    ensures
        r.0@ == last_words(e@),
        r.1 == if e@.usage {
            2i32
        } else {
            1i32
        },
{
    let code: i32 = e.exit_code();
    let mut out = "ERROR tino: ".to_owned();
    out.append(e.report().as_str());
    out.append("\n");
    if code == 2 {
        out.append("Try 'tino --help' for usage.\n");
    } else {
        assert(out@ + Seq::<char>::empty() =~= out@);
    }
    (out, code)
}

// ---------------------------------------------------------------------------
// Laws
// ---------------------------------------------------------------------------

/// A warning about reaped children brings the subreaper with it.
pub proof fn law_warnings_need_the_subreaper(m: CliModel, env: Map<Seq<u8>, Seq<u8>>)
    ensures
        m.warn_on_reap ==> effective(m, env).subreaper,
        effective(m, env).warn_on_reap == m.warn_on_reap,
{
}

/// A command is run only where no other mode is asked for and there is a command.
pub proof fn law_commands_run_alone(w: WorldModel, m: CliModel, file: FileContent)
    requires
        task_of(w, m, file) is Supervise,
    ensures
        m.cmd.len() > 0,
        !m.check_config,
        !m.write_config,
        !m.print_config,
        !m.explain,
{
}

/// A mode other than the explanation takes no command.
pub proof fn law_only_the_explanation_takes_a_command(w: WorldModel, m: CliModel, file: FileContent)
    requires
        m.cmd.len() > 0,
        m.check_config || m.write_config || m.print_config,
    ensures
        task_of(w, m, file) is Fail,
{
}

/// The text of a configuration file that is printed or written holds the given settings and
/// nothing else, whatever the file and the environment held before.
pub proof fn law_given_settings_are_written(w: WorldModel, m: CliModel, file: FileContent)
    ensures
        task_of(w, m, file) matches TaskModel::WriteConfig(s) ==> m.write_config
            && config_text::config_entries(m) is Ok && s == config_text::entries_text(
            config_text::config_entries(m)->Ok_0,
        ),
        m.print_config ==> (task_of(w, m, file) matches TaskModel::Print(s)
            ==> config_text::config_entries(m) is Ok && s == config_text::entries_text(
            config_text::config_entries(m)->Ok_0,
        )),
{
}

} // verus!
