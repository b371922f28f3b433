use tino::config::FileContent;
use tino::config_file::{
    final_config_permissions, write_next, Present, Target, WriteEvent, WriteStep,
    MAX_TEMP_ATTEMPTS, NEW_FILE_MODE,
};
use tino::context::{Environment, ExecContext};
use tino::control::{
    build_exit_remap, explain_pdeath, pdeath_signal, selected_control_mode, ControlMode,
};
use tino::env_defaults::{
    apply_env_defaults_with, interpret_env_flag, parse_env_verbosity, EnvDefaultLog,
};
use tino::env_signal::realtime_range;
use tino::error::{Context, Error};
use tino::expand::{expand_command_arg, expand_command_arg_with_depth, resolve_command_args};
use tino::explain::{
    collect_explain_platform, escaped_list, explain, pgroup_kill_source, subreaper_source,
    verbosity_source, ExplainOrigins,
};
use tino::facts::{Fact, Find, Question, Reply, World};
use tino::landlock::{
    allowed_write_access_fs, apply, begin, errno_indicates_not_supported, handled_execute_access,
    handled_ioctl_access, handled_network_access, handled_scope_access, handled_write_access_fs,
    plan, ruleset_masks, Answer, LandlockConfig, LandlockError, Request as RuleRequest, Rule,
    ACCESS_FS_EXECUTE, ACCESS_FS_IOCTL_DEV, ACCESS_FS_MAKE_BLOCK, ACCESS_FS_MAKE_CHAR,
    ACCESS_FS_REFER, ACCESS_FS_TRUNCATE, ACCESS_FS_WRITE_FILE, ACCESS_NET_BIND_TCP,
    ACCESS_NET_CONNECT_TCP, SCOPE_ABSTRACT_UNIX_SOCKET, SCOPE_SIGNAL,
};
use tino::launch::{
    accepts_signal, child_next, configure_parent_prctl, discards_signal, finish_restore,
    forward_to_main_child, manage_process_group, owned_foreground_tty, prepare,
    prepare_resolved_command, reads_signal, require_single_thread,
    send_warning, ChildEvent, ChildPlan, ChildStep, GroupEvent, GroupReply, GroupStep,
};
use tino::logging::{init, Level};
use tino::platform::{failure_printout, validate_config, Task};
use tino::report::{
    exec_failure_exit_code, report_exec_failure, report_landlock_failure, Failure, E2BIG, EACCES,
    ECHILD, EINTR, ENOENT, ENOEXEC, ENOSYS, ENOTDIR, EOPNOTSUPP, EPERM, ESRCH,
};
use tino::run;
use tino::session::{Session, Stage, StageEvent};
use tino::signals::{
    canonical_signal_name, signal_by_name, SIGCHLD, SIGCONT, SIGKILL, SIGPIPE, SIGTERM, SIGTTIN,
};
use tino::supervise::{
    compute_exit_code, signal_fd_poll_failed, wait_status_drain_action, Core, Effect, Event, Phase,
    PollTimeout, Request, Settings, ShutdownDeadline, Step, Supervisor, WaitLoop, WaitStatus,
    POLLERR, POLLHUP, POLLIN, POLLNVAL, SIGNAL_BATCH_LIMIT,
};
use tino::text::escape_bytes;
use tino::Cli;

fn failure(errno: i32, text: &str) -> Failure {
    Failure {
        errno,
        text: text.into(),
    }
}

fn environment(vars: &[(&str, &str)]) -> Environment {
    let mut env = Environment::new();
    for (name, value) in vars {
        env.insert(name.as_bytes().to_vec(), value.as_bytes().to_vec());
    }
    env
}

/// A system without any file.
fn bare_world(vars: &[(&str, &str)]) -> World {
    World {
        context: ExecContext {
            environment: environment(vars),
            cwd: None,
        },
        default_path: b"/bin:/usr/bin".to_vec(),
        realtime: realtime_range(),
        facts: Vec::new(),
    }
}

fn not_there(question: Question) -> Fact {
    let reply = match question {
        Question::Directory(_) => Reply::Directory(None),
        _ => Reply::Failed(failure(ENOENT, "No such file or directory (os error 2)")),
    };
    Fact { question, reply }
}

fn ask<T>(vars: &[(&str, &str)], f: impl Fn(&World) -> Find<T>) -> Result<T, Error> {
    let mut w = bare_world(vars);
    loop {
        match f(&w) {
            Find::Need(question) => w.facts.push(not_there(question)),
            Find::Fail(e) => return Err(e),
            Find::Found(x) => return Ok(x),
        }
    }
}

fn task(vars: &[(&str, &str)], cli: &Cli, file: &FileContent) -> Task {
    let mut w = bare_world(vars);
    loop {
        match run(&w, cli.clone(), file) {
            Task::Need(question) => w.facts.push(not_there(question)),
            other => return other,
        }
    }
}

fn base_cli() -> Cli {
    Cli {
        cmd: vec!["/bin/true".into()],
        ..Cli::default()
    }
}

fn apply_env_defaults_from(cli: &mut Cli, vars: &[(&str, &str)]) -> EnvDefaultLog {
    apply_env_defaults_with(cli, &environment(vars))
}

// Errors and logging

#[test]
fn exit_code_survives_nested_context() {
    for (error, expected) in [
        (Error::usage("bad option combination".into()), 2),
        (Error::msg("supervision failed".into()), 1),
    ] {
        let result: Result<(), Error> = Err(error);
        let error = result
            .context("inner")
            .context("outer")
            .unwrap_err();
        assert_eq!(error.exit_code(), expected);
    }
    let result: Result<(), Error> = Err(Error::msg(
        std::io::Error::from_raw_os_error(13).to_string(),
    ));
    assert_eq!(
        result.context("open file").unwrap_err().exit_code(),
        1
    );
}

#[test]
fn context_comes_first_in_a_report() {
    let result: Result<(), Error> = Err(Error::msg("cause".into()));
    let error = result.context("outer").unwrap_err();
    assert_eq!(error.message(), "outer");
    assert_eq!(error.report(), "outer\ncaused by: cause");
}

#[test]
fn failures_are_printed_with_a_hint_where_they_are_misuse() {
    assert_eq!(
        failure_printout(&Error::usage("bad".into())),
        (
            "ERROR tino: bad\nTry 'tino --help' for usage.\n".to_string(),
            2
        )
    );
    assert_eq!(
        failure_printout(&Error::msg("bad".into())),
        ("ERROR tino: bad\n".to_string(), 1)
    );
}

#[test]
fn init_maps_verbosity_to_expected_levels() {
    let logger = init(0);
    assert!(!logger.enabled(Level::Info));
    assert!(!logger.debug_enabled());

    let logger = init(1);
    assert!(logger.enabled(Level::Info));
    assert!(!logger.debug_enabled());

    let logger = init(2);
    assert!(logger.enabled(Level::Info));
    assert!(logger.debug_enabled());
}

#[test]
fn init_logging_is_idempotent() {
    assert_eq!(init(2), init(2));
}

#[test]
fn mod_init_logging_is_idempotent() {
    assert_eq!(init(0), init(0));
    assert_eq!(init(1), init(1));
}

#[test]
fn log_lines_carry_their_level() {
    assert_eq!(
        init(0).log(Level::Warn, "text"),
        Some("WARN tino: text\n".to_string())
    );
    assert_eq!(init(0).log(Level::Info, "text"), None);
    assert_eq!(
        init(9).log(Level::Debug, "text"),
        Some("DEBUG tino: text\n".to_string())
    );
}

// Control modes and settings

#[test]
fn control_modes_are_mutually_exclusive() {
    let mut cli = base_cli();
    cli.check_config = true;
    cli.write_config = true;

    let err = selected_control_mode(&cli).expect_err("conflicting modes must fail");

    assert!(
        err.message().contains("--check-config cannot be used with --write-config"),
        "unexpected error: {}",
        err.message()
    );
}

#[test]
fn no_config_cannot_check_config() {
    let mut cli = base_cli();
    cli.no_config = true;
    cli.check_config = true;

    let err = selected_control_mode(&cli).expect_err("contradictory config modes must fail");

    assert!(
        err.message().contains("--no-config cannot be used with --check-config"),
        "unexpected error: {}",
        err.message()
    );
}

#[test]
fn check_config_rejects_inline_runtime_options() {
    let cli = Cli {
        check_config: true,
        write_allow: vec!["/tmp".into()],
        ..Cli::default()
    };

    let err = selected_control_mode(&cli).expect_err("inline config options must fail");

    assert!(
        err.message().contains("--check-config does not accept --write-allow"),
        "unexpected error: {}",
        err.message()
    );
}

#[test]
fn validate_config_rejects_manual_invalid_pdeath_signal() {
    let cli = Cli {
        pdeath: Some("\u{1b}[31m".into()),
        ..Cli::default()
    };

    let err = ask(&[], |w| validate_config(w, &cli)).expect_err("invalid manual pdeath signal must fail");
    let message = err.report();

    assert!(message.contains("invalid pdeath signal"));
    assert!(message.contains(r"\u{1b}"));
    assert!(!message.contains('\u{1b}'));
}

#[test]
fn explain_pdeath_normalizes_manual_signal() {
    let cli = Cli {
        pdeath: Some(" term ".into()),
        ..Cli::default()
    };

    let pdeath = explain_pdeath(&cli).expect("manual pdeath signal should normalize");

    assert_eq!(pdeath, "SIGTERM");
}

#[test]
fn explain_pdeath_rejects_manual_invalid_signal_without_raw_control_bytes() {
    let cli = Cli {
        pdeath: Some("\u{1b}[31m".into()),
        ..Cli::default()
    };

    let err = explain_pdeath(&cli).expect_err("invalid manual pdeath signal must fail");
    let message = err.report();

    assert!(message.contains("invalid pdeath signal"));
    assert!(message.contains(r"\u{1b}"));
    assert!(!message.contains('\u{1b}'));
}

#[test]
fn explain_rejects_manual_command_with_embedded_nul() {
    let cli = Cli {
        explain: true,
        cmd: vec!["/bin/true".into(), "embedded\0argument".into()],
        ..Cli::default()
    };
    let origins = ExplainOrigins {
        subreaper: false,
        pgroup_kill: false,
        verbosity: 0,
    };

    let err = ask(&[], |w| explain(w, &cli, &origins, &EnvDefaultLog::default(), false).outcome)
        .expect_err("explain must reject arguments that cannot be executed");

    assert_eq!(err.exit_code(), 2);
    assert!(err.message().contains("embedded NUL byte"));
}

#[test]
fn env_boolean_defaults_take_effect() {
    let mut cli = base_cli();

    let log = apply_env_defaults_from(
        &mut cli,
        &[("TINI_SUBREAPER", "true"), ("TINI_KILL_PROCESS_GROUP", "0")],
    );
    assert!(cli.subreaper);
    assert!(!cli.pgroup_kill);
    assert_eq!(log.subreaper_env, Some(("TINI_SUBREAPER", true)));
    assert_eq!(log.pgroup_env, Some(("TINI_KILL_PROCESS_GROUP", false)));
    assert!(log.invalid_flags.is_empty());
}

#[test]
fn native_env_defaults_win_over_tini_compatibility_names() {
    let mut cli = base_cli();
    let log = apply_env_defaults_from(
        &mut cli,
        &[
            ("TINO_SUBREAPER", "true"),
            ("TINI_SUBREAPER", "false"),
            ("TINO_KILL_PROCESS_GROUP", "1"),
            ("TINI_KILL_PROCESS_GROUP", "0"),
            ("TINO_VERBOSITY", "2"),
            ("TINI_VERBOSITY", "3"),
        ],
    );

    assert!(cli.subreaper);
    assert!(cli.pgroup_kill);
    assert_eq!(cli.verbosity, 2);
    assert_eq!(log.subreaper_env, Some(("TINO_SUBREAPER", true)));
    assert_eq!(log.pgroup_env, Some(("TINO_KILL_PROCESS_GROUP", true)));
    assert_eq!(log.verbosity_env, Some(("TINO_VERBOSITY", 2)));
}

#[test]
fn invalid_boolean_env_is_reported() {
    let mut cli = base_cli();

    let log = apply_env_defaults_from(&mut cli, &[("TINI_SUBREAPER", "maybe")]);
    assert_eq!(
        log.invalid_flags,
        vec![("TINI_SUBREAPER", b"maybe".to_vec())]
    );
    assert!(!cli.subreaper);
}

#[test]
fn verbosity_env_applies_when_flags_absent() {
    let mut cli = base_cli();

    let log = apply_env_defaults_from(&mut cli, &[("TINI_VERBOSITY", "3")]);
    assert_eq!(cli.verbosity, 3);
    assert_eq!(log.verbosity_env, Some(("TINI_VERBOSITY", 3)));
    assert!(log.verbosity_error.is_none());
}

#[test]
fn invalid_verbosity_is_logged_without_panicking() {
    let mut cli = base_cli();

    let log = apply_env_defaults_from(&mut cli, &[("TINI_VERBOSITY", "noise")]);
    assert_eq!(cli.verbosity, 0);
    assert!(log.verbosity_env.is_none());
    assert_eq!(
        log.verbosity_error,
        Some((
            "TINI_VERBOSITY",
            b"noise".to_vec(),
            "invalid digit found in string".into()
        ))
    );
}

#[test]
fn verbosity_flag_wins_over_env() {
    let mut cli = base_cli();
    cli.verbosity = 2;

    let log = apply_env_defaults_from(&mut cli, &[("TINI_VERBOSITY", "3")]);
    assert_eq!(cli.verbosity, 2);
    assert!(log.verbosity_env.is_none());
}

#[test]
fn boolean_flags_win_over_env() {
    let mut cli = base_cli();
    cli.subreaper = true;
    cli.pgroup_kill = true;
    let log = apply_env_defaults_from(
        &mut cli,
        &[
            ("TINI_SUBREAPER", "false"),
            ("TINI_KILL_PROCESS_GROUP", "0"),
        ],
    );

    assert!(cli.subreaper);
    assert!(cli.pgroup_kill);
    assert!(log.subreaper_env.is_none());
    assert!(log.pgroup_env.is_none());
}

#[test]
fn explain_sources_use_configured_for_merged_cli_state() {
    let origins = ExplainOrigins {
        subreaper: true,
        pgroup_kill: true,
        verbosity: 1,
    };
    let env_defaults = EnvDefaultLog::default();

    assert_eq!(
        subreaper_source(&origins, &env_defaults, false),
        "configured"
    );
    assert_eq!(pgroup_kill_source(&origins, &env_defaults), "configured");
    assert_eq!(verbosity_source(&origins, &env_defaults), "configured");
}

#[test]
fn empty_boolean_env_default_is_rejected() {
    assert!(interpret_env_flag(b"   ").is_none());
    assert_eq!(interpret_env_flag(b" Yes "), Some(true));
    assert_eq!(interpret_env_flag(b"off"), Some(false));
}

#[test]
fn non_utf8_env_defaults_are_preserved_in_diagnostics() {
    let mut cli = base_cli();
    let raw = vec![b'1', 0xff];
    let mut env = Environment::new();
    env.insert(b"TINO_SUBREAPER".to_vec(), raw.clone());
    let log = apply_env_defaults_with(&mut cli, &env);

    assert_eq!(log.invalid_flags, vec![("TINO_SUBREAPER", raw.clone())]);
    assert_eq!(escape_bytes(&log.invalid_flags[0].1), r"1\xff");
    assert!(!cli.subreaper);
    assert!(parse_env_verbosity(&raw).is_err());
}

#[test]
fn escaped_list_keeps_preescaped_path_diagnostics_readable() {
    assert_eq!(
        escaped_list(&vec!["/tmp/a\\xff".into(), "/tmp/quote\\\"".into()]),
        r#"["/tmp/a\xff", "/tmp/quote\""]"#
    );
}

#[test]
fn explain_shows_what_would_be_done() {
    let cli = Cli {
        explain: true,
        subreaper: true,
        verbosity: 2,
        cmd: vec!["/bin/\"x\"".into(), "a\tb".into()],
        ..Cli::default()
    };
    let Task::Report { verbosity, log, outcome: Ok(text) } =
        task(&[("TINI_KILL_PROCESS_GROUP", "1")], &cli, &FileContent::NotFound)
    else {
        panic!("expected text");
    };
    assert_eq!(verbosity, 2);
    assert!(log.is_empty());
    assert!(text.contains(r#""/bin/\"x\"""#), "{text}");
    assert!(text.contains(r#""a\tb""#), "{text}");
    assert!(text.contains("TINI_KILL_PROCESS_GROUP"), "{text}");
    assert!(text.contains("configured"), "{text}");
}

#[test]
fn modes_are_told_apart() {
    assert_eq!(selected_control_mode(&base_cli()).unwrap(), None);
    for (cli, mode) in [
        (Cli { check_config: true, ..Cli::default() }, ControlMode::CheckConfig),
        (Cli { write_config: true, ..Cli::default() }, ControlMode::WriteConfig),
        (Cli { print_config: true, ..Cli::default() }, ControlMode::PrintConfig),
        (Cli { explain: true, ..Cli::default() }, ControlMode::Explain),
    ] {
        assert_eq!(selected_control_mode(&cli).unwrap(), Some(mode));
    }
}

#[test]
fn config_modes_print_write_and_check() {
    let cli = Cli {
        print_config: true,
        grace_ms: 250,
        ..Cli::default()
    };
    let Task::Print(text) = task(&[], &cli, &FileContent::NotFound) else {
        panic!("expected text");
    };
    assert!(text.contains("250"), "{text}");
    let Task::WriteConfig(written) = task(
        &[],
        &Cli {
            write_config: true,
            print_config: false,
            ..cli
        },
        &FileContent::NotFound,
    ) else {
        panic!("expected a file");
    };
    assert_eq!(written, text);
    let check = Cli {
        check_config: true,
        ..Cli::default()
    };
    match task(&[], &check, &FileContent::Text(written)) {
        Task::Print(said) => assert!(said.starts_with("tino: config OK: "), "{said}"),
        other => panic!("unexpected: {other:?}"),
    }
    match task(&[], &check, &FileContent::Text("nonsense = 1\n".into())) {
        Task::Fail(e) => assert!(e.report().contains("nonsense"), "{}", e.report()),
        other => panic!("unexpected: {other:?}"),
    }
    match task(
        &[],
        &Cli {
            cmd: vec!["x".into()],
            ..check
        },
        &FileContent::NotFound,
    ) {
        Task::Fail(e) => assert_eq!(e.exit_code(), 2),
        other => panic!("unexpected: {other:?}"),
    }
}

#[test]
fn command_is_launched_with_its_settings() {
    let cli = Cli {
        warn_on_reap: true,
        remap_exit: vec![143],
        ..base_cli()
    };
    match task(&[("TINO_VERBOSITY", "1")], &cli, &FileContent::NotFound) {
        Task::Supervise(launch) => {
            assert!(launch.cli.subreaper);
            assert_eq!(launch.verbosity, 1);
            assert!(launch.expect_zero[143]);
            assert!(!launch.expect_zero[1]);
        }
        other => panic!("unexpected: {other:?}"),
    }
    match task(&[("TINO_SUBREAPER", "maybe")], &Cli::default(), &FileContent::NotFound) {
        Task::Report { log, outcome: Err(error), .. } => {
            assert_eq!(error.exit_code(), 2);
            assert_eq!(error.message(), "missing CMD (use --help)");
            assert_eq!(
                log,
                [(
                    Level::Warn,
                    "invalid boolean env default: TINO_SUBREAPER=maybe".to_string()
                )]
            );
        }
        other => panic!("unexpected: {other:?}"),
    }
}

#[test]
fn exit_codes_that_count_as_success_are_marked() {
    let remap = build_exit_remap(&vec![0, 255]);
    assert!(remap[0] && remap[255] && !remap[1]);
}

#[test]
fn pdeath_signal_resolves_without_mutating_parent() {
    let mut cli = base_cli();
    cli.pdeath = Some("SIGUSR1".into());

    let signal = pdeath_signal(&cli).expect("resolve pdeath signal");
    assert_eq!(signal, Some(SIGUSR1));
    assert_eq!(pdeath_signal(&base_cli()).unwrap(), None);
}

#[test]
fn pdeath_signal_rejects_invalid_signal_without_raw_control_bytes() {
    let mut cli = base_cli();
    cli.pdeath = Some("\u{1b}[31m".into());

    let err = pdeath_signal(&cli).expect_err("invalid pdeath signal must fail");
    let message = err.report();

    assert!(message.contains(r"\u{1b}"));
    assert!(!message.contains('\u{1b}'));
}

#[test]
fn exec_failure_exit_codes_follow_shell_conventions() {
    assert_eq!(exec_failure_exit_code(ENOENT), 127);
    assert_eq!(exec_failure_exit_code(EACCES), 126);
    assert_eq!(exec_failure_exit_code(ENOEXEC), 126);
    assert_eq!(exec_failure_exit_code(ENOTDIR), 127);
    assert_eq!(exec_failure_exit_code(E2BIG), 126);
}

#[test]
fn signal_lookup_accepts_variants_with_or_without_prefix() {
    assert_eq!(signal_by_name("TERM"), Some(SIGTERM));
    assert_eq!(signal_by_name("SIGTERM"), Some(SIGTERM));
    assert_eq!(signal_by_name("TSTP"), Some(SIGTSTP));
    assert_eq!(canonical_signal_name("sigterm"), Some("TERM"));
}

#[test]
fn signal_lookup_rejects_unknown_signal() {
    assert!(signal_by_name("NOPE").is_none());
}

// Expansion

#[test]
fn expand_command_arg_rejects_invalid_syntax() {
    let env = environment(&[]);
    let err = expand_command_arg("${__TINO_TEST_MISSING_PORT_123456__", &env)
        .expect_err("missing brace");
    let message = err.report();
    assert!(
        message.contains("missing closing '}'"),
        "unexpected error: {message}"
    );

    let err = expand_command_arg("${NAME:+value}", &env).expect_err("unsupported operator");
    let message = err.report();
    assert!(
        message.contains("unsupported braced environment expansion"),
        "unexpected error: {message}"
    );
}

#[test]
fn expand_command_arg_supports_defaults_and_escapes() {
    let env = environment(&[]);
    let expanded = expand_command_arg(
        "port=${MISSING_PORT:-8900},literal=$${HOME},missing=${MISSING_VALUE}",
        &env,
    )
    .expect("expand env with defaults and escapes");

    assert_eq!(expanded, "port=8900,literal=${HOME},missing=");
}

#[test]
fn expand_command_arg_supports_escaped_braces_inside_defaults() {
    let expanded = expand_command_arg("${MISSING:-x$${HOME}y}", &environment(&[]))
        .expect("expand escaped default literal");

    assert_eq!(expanded, "x${HOME}y");
}

#[test]
fn expand_command_arg_ignores_default_operator_inside_escaped_literal() {
    let expanded = expand_command_arg("${MISSING:-x$${HOME:-fallback}y}", &environment(&[]))
        .expect("expand escaped operator literal");

    assert_eq!(expanded, "x${HOME:-fallback}y");
}

#[test]
fn expand_command_arg_supports_nested_defaults() {
    let expanded = expand_command_arg("${PRIMARY:-${FALLBACK:-8900}}", &environment(&[]))
        .expect("expand nested default");

    assert_eq!(expanded, "8900");
}

#[test]
fn expand_command_arg_leaves_unbraced_dollar_names_unchanged() {
    let expanded = expand_command_arg("$MISSING ${MISSING:-8900}", &environment(&[]))
        .expect("expand env with unbraced name");

    assert_eq!(expanded, "$MISSING 8900");
}

#[test]
fn resolve_command_rejects_empty_program_after_expansion() {
    let err = resolve_command_args(&vec!["${MISSING}".into()], true, &environment(&[]))
        .expect_err("expanded empty command must fail");

    assert!(
        err.report().contains("command program cannot be empty"),
        "unexpected error: {}",
        err.report()
    );
}

#[test]
fn values_of_variables_are_not_expanded_again() {
    let env = environment(&[("A", "${B}"), ("B", "x"), ("EMPTY", "")]);
    assert_eq!(expand_command_arg("${A}${EMPTY}", &env).unwrap(), "${B}");
    assert_eq!(expand_command_arg("${A:-y}", &env).unwrap(), "${B}");
    assert_eq!(expand_command_arg("a$$b", &env).unwrap(), "a$b");
    assert_eq!(expand_command_arg("plain", &env).unwrap(), "plain");
}

// Restrictions

#[test]
fn allowed_write_mask_excludes_device_nodes() {
    let allowed = allowed_write_access_fs(handled_write_access_fs(3, true).unwrap());
    assert_eq!(allowed & ACCESS_FS_MAKE_CHAR, 0);
    assert_eq!(allowed & ACCESS_FS_MAKE_BLOCK, 0);
    assert_ne!(allowed & ACCESS_FS_WRITE_FILE, 0);
}

#[test]
fn write_restrictions_require_truncation_support() {
    for abi in [1, 2] {
        assert!(matches!(
            handled_write_access_fs(abi, true),
            Err(LandlockError::AbiTooOld {
                feature: "filesystem write restrictions",
                required_abi: 3,
                current_abi,
            }) if current_abi == abi
        ));
        assert_eq!(handled_write_access_fs(abi, false).unwrap(), 0);
    }
    let v3 = handled_write_access_fs(3, true).unwrap();
    assert_ne!(v3 & ACCESS_FS_REFER, 0);
    assert_ne!(v3 & ACCESS_FS_TRUNCATE, 0);
}

#[test]
fn handled_network_access_requires_abi_v4() {
    let err = handled_network_access(3, true, false).unwrap_err();
    assert!(matches!(
        err,
        LandlockError::AbiTooOld {
            feature: "TCP port restrictions",
            required_abi: 4,
            current_abi: 3,
        }
    ));
}

#[test]
fn handled_network_access_tracks_requested_port_actions() {
    assert_eq!(handled_network_access(4, false, false).unwrap(), 0);
    assert_eq!(
        handled_network_access(4, true, false).unwrap(),
        ACCESS_NET_BIND_TCP
    );
    assert_eq!(
        handled_network_access(4, false, true).unwrap(),
        ACCESS_NET_CONNECT_TCP
    );
    assert_eq!(
        handled_network_access(4, true, true).unwrap(),
        ACCESS_NET_BIND_TCP | ACCESS_NET_CONNECT_TCP
    );
}

#[test]
fn handled_scope_access_requires_abi_v6() {
    let err = handled_scope_access(5, true, false).unwrap_err();
    assert!(matches!(
        err,
        LandlockError::AbiTooOld {
            feature: "IPC scopes",
            required_abi: 6,
            current_abi: 5,
        }
    ));
}

#[test]
fn handled_scope_access_tracks_requested_scopes() {
    assert_eq!(handled_scope_access(6, false, false).unwrap(), 0);
    assert_eq!(
        handled_scope_access(6, true, false).unwrap(),
        SCOPE_SIGNAL
    );
    assert_eq!(
        handled_scope_access(6, false, true).unwrap(),
        SCOPE_ABSTRACT_UNIX_SOCKET
    );
    assert_eq!(
        handled_scope_access(6, true, true).unwrap(),
        SCOPE_SIGNAL | SCOPE_ABSTRACT_UNIX_SOCKET
    );
}

#[test]
fn handled_ioctl_access_requires_abi_v5() {
    let err = handled_ioctl_access(4, true).unwrap_err();
    assert!(matches!(
        err,
        LandlockError::AbiTooOld {
            feature: "device ioctl restrictions",
            required_abi: 5,
            current_abi: 4,
        }
    ));
}

#[test]
fn handled_execute_and_ioctl_access_track_requested_state() {
    assert_eq!(handled_execute_access(false), 0);
    assert_eq!(handled_execute_access(true), ACCESS_FS_EXECUTE);
    assert_eq!(handled_ioctl_access(5, false).unwrap(), 0);
    assert_eq!(
        handled_ioctl_access(5, true).unwrap(),
        ACCESS_FS_IOCTL_DEV
    );
}

#[test]
fn errno_not_supported_classifies_known_values() {
    assert!(errno_indicates_not_supported(ENOSYS));
    assert!(errno_indicates_not_supported(EOPNOTSUPP));
    assert!(!errno_indicates_not_supported(EPERM));
}

fn no_restriction() -> LandlockConfig {
    LandlockConfig {
        write_requested: false,
        warn_only: false,
        no_dev: false,
        preset_names: Vec::new(),
        writable_dirs: Vec::new(),
        dev_dir: None,
        bind_tcp_ports: Vec::new(),
        connect_tcp_ports: Vec::new(),
        scope_signals: false,
        scope_abstract_unix: false,
        exec_requested: false,
        exec_allow_paths: Vec::new(),
        device_ioctl_allow_paths: Vec::new(),
    }
}

#[test]
fn restrictions_are_applied_rule_by_rule() {
    let config = LandlockConfig {
        write_requested: true,
        writable_dirs: vec![b"/tmp".to_vec()],
        bind_tcp_ports: vec![80],
        ..no_restriction()
    };
    let rules = plan(&config, 4).unwrap().rules;
    assert_eq!(rules.len(), 2);
    assert!(matches!(&rules[0], Rule::Path { path, directory: true, .. } if path == b"/tmp"));
    assert!(matches!(&rules[1], Rule::Port { port: 80, access: ACCESS_NET_BIND_TCP }));

    let (progress, request) = begin();
    assert!(matches!(request, RuleRequest::QueryAbi));
    let (progress, request) = apply(&config, progress, Answer::Value(4));
    assert!(matches!(
        request,
        RuleRequest::CreateRuleset { abi_version: 4, handled_net: ACCESS_NET_BIND_TCP, scoped: 0, .. }
    ));
    let (progress, request) = apply(&config, progress, Answer::Value(0));
    assert!(matches!(request, RuleRequest::AddRule(0)));
    let (progress, request) = apply(&config, progress, Answer::Value(0));
    assert!(matches!(request, RuleRequest::AddRule(1)));
    let (progress, request) = apply(&config, progress, Answer::Value(0));
    assert!(matches!(request, RuleRequest::SetNoNewPrivs));
    let (progress, request) = apply(&config, progress, Answer::Value(0));
    assert!(matches!(request, RuleRequest::RestrictSelf));
    let (_, request) = apply(&config, progress, Answer::Value(0));
    assert!(matches!(request, RuleRequest::Done(4)));
}

#[test]
fn each_step_of_a_restriction_can_fail() {
    let config = LandlockConfig {
        exec_requested: true,
        exec_allow_paths: vec![b"/bin/sh".to_vec()],
        ..no_restriction()
    };
    let (progress, _) = begin();
    let (_, request) = apply(&config, progress, Answer::Errno(ENOSYS));
    assert!(matches!(request, RuleRequest::Failed(LandlockError::NotSupported)));
    let (progress, _) = begin();
    let (_, request) = apply(&config, progress, Answer::Errno(EPERM));
    assert!(matches!(request, RuleRequest::Failed(LandlockError::QueryAbi(EPERM))));

    let failed_at = |ok: usize, answer: Answer| {
        let (progress, _) = begin();
        let (mut progress, mut request) = apply(&config, progress, Answer::Value(1));
        for _ in 0..ok {
            (progress, request) = apply(&config, progress, Answer::Value(0));
        }
        let _ = request;
        match apply(&config, progress, answer) {
            (_, RuleRequest::Failed(e)) => report_landlock_failure(false, &e),
            (_, other) => panic!("unexpected: {other:?}"),
        }
    };
    assert!(failed_at(0, Answer::Errno(EPERM)).contains("create"));
    assert!(failed_at(1, Answer::OpenErrno(ENOENT)).contains("/bin/sh"));
    assert!(failed_at(1, Answer::Errno(EPERM)).contains("/bin/sh"));
    assert_ne!(
        failed_at(2, Answer::Errno(EPERM)),
        failed_at(3, Answer::Errno(EPERM))
    );
}

#[test]
fn ruleset_grows_with_the_version() {
    assert_eq!(
        [1u32, 3, 4, 5, 6, 7].map(ruleset_masks),
        [1, 1, 2, 2, 3, 3]
    );
}

#[test]
fn exec_failures_are_reported_without_control_bytes() {
    let said = report_exec_failure(b"/bin/\x1b", ENOENT);
    assert!(said.contains(r"\x1b"), "{said}");
    assert!(!said.contains('\u{1b}'));
}

// Starting a command

#[test]
fn commands_cannot_hold_a_zero_byte() {
    assert_eq!(
        prepare_resolved_command(&vec!["a".into(), "\u{e9}".into()]).unwrap(),
        vec![b"a".to_vec(), vec![0xc3, 0xa9]]
    );
    assert_eq!(
        prepare_resolved_command(&vec!["a\0".into()])
            .unwrap_err()
            .message(),
        "command argument contains embedded NUL byte"
    );
    assert_eq!(
        resolve_command_args(&vec!["a\0".into()], false, &environment(&[])).unwrap(),
        ["a\0"]
    );

    let cli = Cli {
        cmd: vec!["/bin/true".into(), "embedded\0argument".into()],
        ..Cli::default()
    };
    let err = ask(&[], |w| prepare(w, &cli).outcome).unwrap_err();
    assert_eq!(err.exit_code(), 1);
    assert_eq!(
        err.report(),
        "prepare child command\ncaused by: command argument contains embedded NUL byte"
    );

    let cli = Cli {
        write_allow: vec!["relative".into()],
        ..cli
    };
    let err = ask(&[], |w| prepare(w, &cli).outcome).unwrap_err();
    assert!(!err.report().contains("NUL"), "{}", err.report());
}

#[test]
fn nesting_is_limited_wherever_it_starts() {
    let env = environment(&[]);
    let text: Vec<char> = "a${X:-b}".chars().collect();
    let expanded = expand_command_arg_with_depth(&text, 31, &env).unwrap();
    assert_eq!(expanded, ['a', 'b']);
    for depth in [32, 33, 34, usize::MAX] {
        let err = expand_command_arg_with_depth(&text, depth, &env).unwrap_err();
        assert_eq!(err.message(), "environment expansion nesting exceeds 32 levels");
    }
    assert_eq!(expand_command_arg_with_depth(&['x'], 32, &env).unwrap(), ['x']);
}

#[test]
fn exit_code_is_that_of_the_child() {
    let mut zero = [false; 256];
    zero[143] = true;
    for (status, code) in [
        (WaitStatus::Exited(42, 3), 3),
        (WaitStatus::Signaled(42, 15, false), 0),
        (WaitStatus::Signaled(42, 9, true), 137),
    ] {
        let step = go(Supervisor::start(0), settings(), Event::Polled(POLLIN), 0);
        let child = Event::Signal { number: SIGCHLD, own: false };
        let step = go(step, settings(), child, 0);
        let step = go(step, settings(), Event::Waited(WaitStatus::Exited(7, 99)), 0);
        assert_eq!(step.next.core.main_exit, None);
        let mut step = go(step, settings(), Event::Waited(status), 0);
        assert!(step.next.core.main_exit.is_some());
        while !matches!(step.request, Request::Exit(_)) {
            let event = match step.request {
                Request::WaitAny => Event::WaitFailed(failure(ECHILD, "none")),
                Request::ReadSignal => Event::NoSignal,
                Request::Poll(_) => Event::Polled(0),
                other => panic!("unexpected request: {other:?}"),
            };
            step = step.next.supervise_child(settings(), &zero, &event, 0);
        }
        match step.request {
            Request::Exit(given) => assert_eq!(given, code),
            other => panic!("unexpected request: {other:?}"),
        }
    }
}

#[test]
fn command_is_prepared_with_its_signal() {
    let cli = Cli {
        pdeath: Some("TERM".into()),
        expand_env: true,
        cmd: vec!["${NAME}".into(), "x".into()],
        ..Cli::default()
    };
    let prepared = ask(&[("NAME", "/bin/echo")], |w| prepare(w, &cli).outcome).unwrap();
    assert_eq!(prepared.pdeath, Some(SIGTERM));
    assert_eq!(prepared.argv, vec![b"/bin/echo".to_vec(), b"x".to_vec()]);
    assert!(prepared.policy.is_none());
}

#[test]
fn what_is_explained_is_run() {
    let cli = Cli {
        expand_env: true,
        scope_signals: true,
        cmd: vec!["/bin/${NAME}".into(), "$$x".into()],
        ..Cli::default()
    };
    let vars = &[("NAME", "echo")];
    let platform = ask(vars, |w| collect_explain_platform(w, &cli)).unwrap();
    let prepared = ask(vars, |w| prepare(w, &cli).outcome).unwrap();
    assert_eq!(platform.effective_cmd, ["/bin/echo", "$x"]);
    assert_eq!(prepared.argv, vec![b"/bin/echo".to_vec(), b"$x".to_vec()]);
    assert!(platform.policy.unwrap().config.scope_signals);
    assert!(prepared.policy.unwrap().config.scope_signals);
}

#[test]
fn only_the_right_signals_are_read() {
    assert!(reads_signal(SIGTERM));
    assert!(!reads_signal(11));
    assert!(discards_signal(SIGTERM, true, false));
    assert!(!discards_signal(SIGTERM, true, true));
    assert!(!discards_signal(SIGCHLD, true, false));
    assert!(accepts_signal(SIGTERM, true, true));
    assert!(!accepts_signal(11, false, false));
    for (blocked, pending) in [(false, false), (true, false), (false, true), (true, true)] {
        assert_eq!(accepts_signal(SIGCONT, blocked, pending), !(blocked && pending));
    }
}

#[test]
fn terminal_is_owned_by_its_group() {
    assert_eq!(owned_foreground_tty(7, 7), Some(7));
    assert_eq!(owned_foreground_tty(7, 8), None);
    assert_eq!(owned_foreground_tty(-1, -1), None);
}

#[test]
fn restrictions_are_logged_before_a_start_that_fails() {
    let cli = Cli {
        scope_signals: true,
        bind_tcp_allow: vec![80, 443, 80],
        cmd: vec!["/bin/true".into(), "a\0b".into()],
        ..Cli::default()
    };
    let preparation = prepare(&bare_world(&[]), &cli);
    assert!(matches!(preparation.outcome, Find::Fail(_)));
    assert_eq!(preparation.log.len(), 3);
    assert!(preparation.log[0].starts_with("landlock restriction enabled: "));
    assert_eq!(preparation.log[1], "bind TCP allow port: 80");
    assert_eq!(preparation.log[2], "bind TCP allow port: 443");

    let unrestricted = prepare(&bare_world(&[]), &base_cli());
    assert!(matches!(unrestricted.outcome, Find::Found(_)));
    assert!(unrestricted.log.is_empty());
}

#[test]
fn other_threads_are_refused() {
    assert!(require_single_thread(1).is_ok());
    assert!(require_single_thread(2)
        .unwrap_err()
        .message()
        .contains("single-threaded process"));
}

#[test]
fn lost_receivers_are_no_cause_for_a_warning() {
    assert_eq!(send_warning(SIGTERM, &failure(ESRCH, "gone")), None);
    assert_eq!(
        send_warning(SIGTERM, &failure(EPERM, "refused")),
        Some("forward signal 15 failed: refused".to_string())
    );
}

#[test]
fn child_outside_the_group_gets_signals_of_its_own() {
    assert_eq!(forward_to_main_child(7, &GroupReply::Group(7)), (false, None));
    assert_eq!(forward_to_main_child(7, &GroupReply::Group(8)), (true, None));
    let (forward, warning) =
        forward_to_main_child(7, &GroupReply::Failed(failure(EPERM, "refused")));
    assert!(forward);
    assert!(warning.unwrap().contains("refused"));
}

#[test]
fn process_group_is_used_once_it_is_there() {
    assert!(matches!(
        manage_process_group(7, &GroupEvent::Requested(true)),
        GroupStep::Join
    ));
    assert!(matches!(
        manage_process_group(7, &GroupEvent::Requested(false)),
        GroupStep::Decided(false, None)
    ));
    assert!(matches!(
        manage_process_group(7, &GroupEvent::Joined),
        GroupStep::Decided(true, None)
    ));
    assert!(matches!(
        manage_process_group(7, &GroupEvent::JoinFailed(failure(EACCES, "execed"))),
        GroupStep::Query
    ));
    assert!(matches!(
        manage_process_group(7, &GroupEvent::InGroup(7)),
        GroupStep::Decided(true, None)
    ));
}

#[test]
fn parent_without_subreaper_goes_on() {
    assert!(configure_parent_prctl(None).is_ok());
    assert!(configure_parent_prctl(Some(&failure(EPERM, "refused"))).is_ok());
}

fn whole_plan() -> ChildPlan {
    ChildPlan {
        pdeath: Some(SIGTERM),
        pgroup_kill: true,
        claim_terminal: true,
        restrict: true,
        warn_only: false,
    }
}

#[test]
fn child_takes_its_steps_in_order() {
    let mut step = ChildStep::ResetSigpipe;
    let mut seen = vec![step];
    while step != ChildStep::Exec {
        step = child_next(whole_plan(), b"/bin/true", step, &ChildEvent::Done).1;
        seen.push(step);
    }
    assert_eq!(
        seen,
        [
            ChildStep::ResetSigpipe,
            ChildStep::SetPdeath(SIGTERM),
            ChildStep::CheckParent(SIGTERM),
            ChildStep::SetGroup,
            ChildStep::ClaimTerminal,
            ChildStep::SetMask,
            ChildStep::Restrict,
            ChildStep::Exec,
        ]
    );
}

#[test]
fn child_without_restrictions_runs_only_where_that_is_allowed() {
    let failed = ChildEvent::RestrictFailed(LandlockError::NotSupported);
    let (said, step) = child_next(whole_plan(), b"/bin/true", ChildStep::Restrict, &failed);
    assert!(matches!(step, ChildStep::Exit(_)), "{said}");
    let plan = ChildPlan {
        warn_only: true,
        ..whole_plan()
    };
    let (said, step) = child_next(plan, b"/bin/true", ChildStep::Restrict, &failed);
    assert_eq!(step, ChildStep::Exec, "{said}");
    let (said, step) = child_next(
        plan,
        b"/bin/true",
        ChildStep::Exec,
        &ChildEvent::Failed(ENOENT),
    );
    assert_eq!(step, ChildStep::Exit(127), "{said}");
    let (_, step) = child_next(
        plan,
        b"/bin/true",
        ChildStep::CheckParent(SIGTERM),
        &ChildEvent::ParentChanged,
    );
    assert_eq!(step, ChildStep::SignalSelf(SIGTERM));
}

#[test]
fn first_error_is_the_one_that_counts() {
    let (result, warning) = finish_restore(
        Err(Error::msg("first".into())),
        Err(Error::msg("second".into())),
    );
    assert_eq!(result.unwrap_err().message(), "first");
    assert!(warning.unwrap().contains("second"));
    let (result, warning) = finish_restore(Ok(3), Err(Error::msg("second".into())));
    assert_eq!(result.unwrap_err().message(), "second");
    assert!(warning.is_none());
    let (result, warning) = finish_restore(Ok(3), Ok(()));
    assert_eq!(result.unwrap(), 3);
    assert!(warning.is_none());
}

// Supervision

#[test]
fn compute_exit_code_remaps_expected_values() {
    let mut expect_zero = [false; 256];
    expect_zero[3] = true;
    assert_eq!(compute_exit_code(3, &expect_zero), 0);
    assert_eq!(compute_exit_code(5, &expect_zero), 5);
}

#[test]
fn signal_fd_poll_failed_rejects_error_states() {
    assert!(!signal_fd_poll_failed(0));
    assert!(!signal_fd_poll_failed(POLLIN));
    assert!(signal_fd_poll_failed(POLLERR));
    assert!(signal_fd_poll_failed(POLLHUP));
    assert!(signal_fd_poll_failed(POLLNVAL));
}

#[test]
fn wait_status_drain_continues_after_non_terminal_child_statuses() {
    assert_eq!(
        wait_status_drain_action(WaitStatus::Stopped(11, SIGTERM as u8)),
        WaitLoop::Continue
    );
    assert_eq!(
        wait_status_drain_action(WaitStatus::Continued(11)),
        WaitLoop::Continue
    );
    assert_eq!(
        wait_status_drain_action(WaitStatus::StillAlive),
        WaitLoop::Break
    );
}

#[test]
fn huge_grace_period_does_not_panic() {
    let _deadline = ShutdownDeadline::after(1, u64::MAX);
    assert_eq!(
        ShutdownDeadline::after(u128::MAX, u64::MAX),
        ShutdownDeadline::Never
    );
}

#[test]
fn never_shutdown_deadline_uses_max_poll_timeout() {
    assert_eq!(
        ShutdownDeadline::Never.poll_timeout(0),
        PollTimeout::Millis(i32::MAX)
    );
}

#[test]
fn deadlines_are_rounded_up_to_whole_milliseconds() {
    let deadline = ShutdownDeadline::after(0, 2);
    assert_eq!(deadline, ShutdownDeadline::At(2_000_000));
    assert_eq!(deadline.poll_timeout(1), PollTimeout::Millis(2));
    assert_eq!(deadline.poll_timeout(1_500_000), PollTimeout::Millis(1));
    assert!(!deadline.expired(1_999_999));
    assert!(deadline.expired(2_000_000));
}

const SIGUSR1: i32 = 10;
const SIGTSTP: i32 = 20;
const NO_REMAP: [bool; 256] = [false; 256];

fn settings() -> Settings {
    Settings {
        grace_ms: 500,
        warn_on_reap: false,
        use_pgroup: false,
        foreground: false,
        child: 42,
    }
}

fn fresh_core(phase: Phase) -> Core {
    Core {
        phase,
        ..Supervisor::start(0).next.core
    }
}

fn go(step: Step, set: Settings, event: Event, now: u128) -> Step {
    step.next.supervise_child(set, &NO_REMAP, &event, now)
}

#[test]
fn reaping_without_children_succeeds() {
    let core = Core {
        main_exit: Some(0),
        ..fresh_core(Phase::CleanReaping)
    };
    let supervisor = Supervisor { core, error: None };
    let step = supervisor.supervise_child(
        settings(),
        &NO_REMAP,
        &Event::WaitFailed(failure(ECHILD, "No child processes (os error 10)")),
        0,
    );
    assert!(matches!(step.request, Request::Exit(0)), "{:?}", step.request);
}

#[test]
fn sigchld_without_waitable_main_child_errors() {
    let step = Supervisor {
        core: fresh_core(Phase::Waiting),
        error: None,
    }
    .supervise_child(
        settings(),
        &NO_REMAP,
        &Event::WaitFailed(failure(ECHILD, "No child processes (os error 10)")),
        0,
    );
    assert!(matches!(step.request, Request::KillChild), "{:?}", step.request);
    let step = go(step, settings(), Event::SendFailed(failure(ESRCH, "gone")), 0);
    let step = go(step, settings(), Event::WaitFailed(failure(ECHILD, "none")), 0);
    match step.request {
        Request::Fail(err) => assert!(
            err.report().contains("main child is no longer waitable"),
            "unexpected error: {}",
            err.report()
        ),
        other => panic!("unexpected request: {other:?}"),
    }
}

#[test]
fn child_is_followed_to_its_end() {
    let step = Supervisor::start(0);
    assert!(matches!(step.request, Request::Poll(PollTimeout::Block)));
    let step = go(step, settings(), Event::Polled(POLLIN), 0);
    assert!(matches!(step.request, Request::ReadSignal));
    assert_eq!(step.next.core.budget, SIGNAL_BATCH_LIMIT);
    let signal = Event::Signal { number: SIGUSR1, own: false };
    let step = go(step, settings(), signal, 0);
    assert!(matches!(step.effects[..], [Effect::Forward(SIGUSR1)]));
    let signal = Event::Signal { number: SIGPIPE, own: true };
    let step = go(step, settings(), signal, 0);
    assert!(step.effects.is_empty());
    let signal = Event::Signal { number: SIGTTIN, own: false };
    let step = go(step, settings(), signal, 0);
    assert!(matches!(&step.effects[..], [Effect::Log(Level::Debug, text)] if text == "ignoring signal 21"));
    let signal = Event::Signal { number: SIGCHLD, own: false };
    let step = go(step, settings(), signal, 0);
    assert!(matches!(step.request, Request::WaitAny));
    let step = go(step, settings(), Event::Waited(WaitStatus::Exited(7, 1)), 0);
    assert!(matches!(step.request, Request::WaitAny));
    let step = go(step, settings(), Event::WaitFailed(failure(EINTR, "again")), 0);
    assert!(matches!(step.request, Request::WaitAny));
    let mut step = go(step, settings(), Event::Waited(WaitStatus::Signaled(42, 9, false)), 0);
    let mut rounds = 0;
    while !matches!(step.request, Request::Exit(_)) {
        let event = match step.request {
            Request::WaitAny => Event::WaitFailed(failure(ECHILD, "none")),
            Request::ReadSignal => Event::NoSignal,
            Request::Poll(_) => Event::Polled(0),
            other => panic!("unexpected request: {other:?}"),
        };
        step = step.next.supervise_child(settings(), &NO_REMAP, &event, 0);
        rounds += 1;
        assert!(rounds < 20);
    }
    assert!(matches!(step.request, Request::Exit(137)));
}

#[test]
fn grace_period_ends_with_a_kill() {
    let term = || Event::Signal { number: SIGTERM, own: false };
    let step = go(Supervisor::start(0), settings(), Event::Polled(POLLIN), 0);
    let step = go(step, settings(), term(), 0);
    assert_eq!(
        step.next.core.deadline,
        Some(ShutdownDeadline::At(500_000_000))
    );
    let early = go(step, settings(), Event::NoSignal, 1_000_000);
    assert!(matches!(early.request, Request::Poll(PollTimeout::Millis(499))));
    let late = go(early, settings(), Event::Polled(0), 500_000_000);
    assert!(late.next.core.killed);
    assert!(matches!(
        late.effects[..],
        [Effect::Log(Level::Info, _), Effect::Forward(SIGKILL)]
    ));

    let step = go(Supervisor::start(0), settings(), Event::Polled(POLLIN), 0);
    let step = go(step, settings(), term(), 0);
    let step = go(step, settings(), term(), 5);
    assert!(step.next.core.killed);
}

#[test]
fn failed_poll_ends_the_child() {
    let step = go(Supervisor::start(0), settings(), Event::Polled(POLLERR), 0);
    assert!(matches!(step.request, Request::KillChild));
    let set = Settings {
        use_pgroup: true,
        ..settings()
    };
    let step = go(Supervisor::start(0), set, Event::PollFailed(failure(EPERM, "refused")), 0);
    assert!(matches!(step.effects[..], [Effect::SignalGroup(SIGKILL)]));
    let step = go(step, set, Event::Sent, 0);
    let step = go(step, set, Event::Waited(WaitStatus::Signaled(42, 9, false)), 0);
    assert!(matches!(step.request, Request::WaitGroup));
    let step = go(step, set, Event::WaitFailed(failure(ECHILD, "none")), 0);
    match step.request {
        Request::Fail(e) => assert!(e.report().contains("refused"), "{}", e.report()),
        other => panic!("unexpected request: {other:?}"),
    }
}

// The configuration file

fn target() -> Target {
    Target {
        parent: "/etc/tino".into(),
        name: "tino.conf".into(),
        process: 12,
    }
}

#[test]
fn config_file_is_replaced_in_one_move() {
    assert_eq!(target().path(), "/etc/tino/tino.conf");
    assert_eq!(
        target().temp_path_for_attempt(3),
        "/etc/tino/.tino.conf.tmp.12.3"
    );
    let mut step = WriteStep::MakeParent;
    let mut seen = Vec::new();
    loop {
        seen.push(format!("{step:?}"));
        let event = match step {
            WriteStep::Inspect => WriteEvent::Found(Present::Regular(0o640)),
            WriteStep::Create { attempt: 0, .. } => WriteEvent::Exists,
            WriteStep::Done => break,
            _ => WriteEvent::Worked,
        };
        step = write_next(&target(), step, &event);
    }
    assert_eq!(
        seen,
        [
            "MakeParent",
            "Inspect",
            "Create { mode: 416, attempt: 0 }",
            "Create { mode: 416, attempt: 1 }",
            "Write { mode: 416, attempt: 1 }",
            "SetMode { mode: 416, attempt: 1 }",
            "Sync { attempt: 1 }",
            "Rename { attempt: 1 }",
            "OpenParent",
            "SyncParent",
            "Done",
        ]
    );
}

#[test]
fn failed_writes_leave_no_file_behind() {
    let failed = || WriteEvent::Failed(failure(EPERM, "refused"));
    match write_next(&target(), WriteStep::Write { mode: 1, attempt: 4 }, &failed()) {
        WriteStep::Failed { error, remove } => {
            assert_eq!(remove, Some(4));
            assert!(error.report().contains("refused"));
        }
        other => panic!("unexpected: {other:?}"),
    }
    match write_next(&target(), WriteStep::MakeParent, &failed()) {
        WriteStep::Failed { remove, .. } => assert_eq!(remove, None),
        other => panic!("unexpected: {other:?}"),
    }
    match write_next(
        &target(),
        WriteStep::Create { mode: 1, attempt: MAX_TEMP_ATTEMPTS - 1 },
        &WriteEvent::Exists,
    ) {
        WriteStep::Failed { remove, .. } => assert_eq!(remove, None),
        other => panic!("unexpected: {other:?}"),
    }
}

#[test]
fn links_are_not_followed() {
    assert_eq!(
        final_config_permissions(&target(), &Present::NotFound).unwrap(),
        NEW_FILE_MODE
    );
    assert_eq!(
        final_config_permissions(&target(), &Present::Regular(0o100_600)).unwrap(),
        0o600
    );
    assert!(final_config_permissions(&target(), &Present::Symlink).is_err());
    assert!(final_config_permissions(&target(), &Present::Other).is_err());
    assert!(
        final_config_permissions(&target(), &Present::Failed(failure(EACCES, "denied")))
            .unwrap_err()
            .report()
            .contains("denied")
    );
}

/// Writes the configuration file of a made-up system, and gives the mode that it ends with.
fn write_over(present: Present, taken: u32) -> Result<u32, Error> {
    let mut present = Some(present);
    let mut step = WriteStep::MakeParent;
    let mut mode_set = 0;
    loop {
        let event = match &step {
            WriteStep::Inspect => WriteEvent::Found(present.take().unwrap()),
            WriteStep::Create { attempt, .. } if *attempt < taken => WriteEvent::Exists,
            WriteStep::SetMode { mode, .. } => {
                mode_set = *mode;
                WriteEvent::Worked
            }
            WriteStep::Done => return Ok(mode_set),
            _ => WriteEvent::Worked,
        };
        step = match step {
            WriteStep::Failed { error, .. } => return Err(error),
            step => write_next(&target(), step, &event),
        };
    }
}

#[test]
fn atomic_write_preserves_existing_permissions() {
    assert_eq!(write_over(Present::Regular(0o100_600), 0).unwrap(), 0o600);
}

#[test]
fn atomic_write_uses_readable_permissions_for_new_config() {
    assert_eq!(write_over(Present::NotFound, 0).unwrap(), 0o644);
}

#[test]
fn atomic_write_does_not_follow_existing_temp_symlink() {
    assert_eq!(write_over(Present::Regular(0o644), 1).unwrap(), 0o644);
}

#[test]
fn atomic_write_rejects_destination_symlink() {
    let err = write_over(Present::Symlink, 0).expect_err("destination symlink must be rejected");
    assert!(
        err.report().contains("refusing to replace symlink config path"),
        "unexpected symlink error: {}",
        err.report()
    );
}

#[test]
fn atomic_write_rejects_non_file_destination() {
    let err = write_over(Present::Other, 0).expect_err("directory destination must be rejected");
    assert!(
        err.report().contains("is not a regular file"),
        "unexpected non-file error: {}",
        err.report()
    );
}

#[test]
fn write_config_does_not_create_parent_when_serialization_fails() {
    let cli = Cli {
        write_config: true,
        write_allow: vec!["relative/path".into()],
        ..Cli::default()
    };
    let err = cli.config_text().expect_err("invalid config must fail before writing");
    assert!(
        err.message().contains("must be an absolute path"),
        "unexpected error: {}",
        err.message()
    );
    assert!(matches!(task(&[], &cli, &FileContent::NotFound), Task::Fail(_)));
}

#[test]
fn configure_parent_prctl_handles_subreaper_capability() {
    assert_eq!(configure_parent_prctl(None).unwrap(), (true, None));
    let (enabled, said) = configure_parent_prctl(Some(&failure(EPERM, "denied"))).unwrap();
    assert!(!enabled, "subreaper state should be unchanged when capability is denied");
    assert!(said.unwrap().ends_with("denied"));
    assert!(configure_parent_prctl(Some(&failure(ENOSYS, "none"))).is_err());
}

#[test]
fn manage_process_group_detects_group_after_leader_exit() {
    let event = GroupEvent::JoinFailed(failure(ESRCH, "gone"));
    assert!(matches!(
        manage_process_group(7, &event),
        GroupStep::CheckExists
    ));
    assert!(
        matches!(
            manage_process_group(7, &GroupEvent::Exists(true)),
            GroupStep::Decided(true, None)
        ),
        "process group should remain manageable after the leader exits"
    );
}

#[test]
fn cleanup_keeps_the_deadline_of_the_child() {
    let set = Settings {
        use_pgroup: true,
        ..settings()
    };
    let term = Event::Signal { number: SIGTERM, own: false };
    let child = Event::Signal { number: SIGCHLD, own: false };
    let step = go(Supervisor::start(0), set, Event::Polled(POLLIN), 0);
    let step = go(step, set, term, 0);
    let step = go(step, set, child, 100);
    let step = go(step, set, Event::Waited(WaitStatus::Exited(42, 3)), 100);
    let step = go(step, set, Event::Waited(WaitStatus::StillAlive), 400_000_000);
    assert!(matches!(
        step.effects[..],
        [Effect::Log(Level::Info, _), Effect::SignalGroup(SIGTERM)]
    ));
    assert_eq!(
        step.next.core.clean,
        ShutdownDeadline::At(500_000_000)
    );
    let step = go(step, set, Event::NoSignal, 500_000_000);
    let step = go(step, set, Event::WaitFailed(failure(ECHILD, "none")), 500_000_000);
    let step = go(step, set, Event::GroupExists(true), 500_000_000);
    assert!(matches!(
        step.effects[..],
        [Effect::Log(Level::Info, _), Effect::SignalGroup(SIGKILL)]
    ));
    let step = go(step, set, Event::NoSignal, 500_000_001);
    let step = go(step, set, Event::WaitFailed(failure(ECHILD, "none")), 500_000_001);
    let step = go(step, set, Event::GroupExists(false), 500_000_001);
    assert!(matches!(step.request, Request::Exit(3)));
}

#[test]
fn explanation_is_written_line_by_line() {
    let cli = Cli {
        explain: true,
        grace_ms: 500,
        remap_exit: vec![143, 7],
        bind_tcp_allow: vec![443, 80],
        scope_signals: true,
        cmd: vec!["/bin/true".into()],
        ..Cli::default()
    };
    let vars = [("TINO_SUBREAPER", "1"), ("TINI_VERBOSITY", "noise")];
    match task(&vars, &cli, &FileContent::NotFound) {
        Task::Report { outcome: Ok(text), .. } => assert_eq!(
            text,
            "mode: explain\n\
             subreaper: true\n\
             subreaper.source: env:TINO_SUBREAPER\n\
             pdeath: none\n\
             verbosity: 0\n\
             verbosity.source: default\n\
             warn_on_reap: false\n\
             pgroup_kill: false\n\
             pgroup_kill.source: default\n\
             grace_ms: 500\n\
             remap_exit: [143, 7]\n\
             expand_env: false\n\
             command.present: true\n\
             command.original: [\"/bin/true\"]\n\
             command.effective: [\"/bin/true\"]\n\
             write_restrict.enabled: false\n\
             tcp_restrict.enabled: true\n\
             tcp_restrict.backend: landlock\n\
             tcp_restrict.warn_only: false\n\
             tcp_restrict.bind_allow_ports: [80, 443]\n\
             tcp_restrict.connect_allow_ports: []\n\
             ipc_scope.enabled: true\n\
             ipc_scope.backend: landlock\n\
             ipc_scope.warn_only: false\n\
             ipc_scope.signals: true\n\
             ipc_scope.abstract_unix: false\n\
             exec_restrict.enabled: false\n\
             device_ioctl_restrict.enabled: false\n\
             warnings:\n\
             - invalid TINI_VERBOSITY=noise: invalid digit found in string\n"
        ),
        other => panic!("unexpected: {other:?}"),
    }
}

// The whole run

/// Runs through all stages, and gives them, what was said, and the result.
fn run_stages(
    subreaper: bool,
    mut f: impl FnMut(Stage) -> StageEvent,
) -> (Vec<Stage>, Vec<String>, Result<i32, Error>) {
    let mut session = Session::new(subreaper);
    let mut seen = Vec::new();
    let mut said = Vec::new();
    while session.stage != Stage::Over {
        seen.push(session.stage);
        let event = f(session.stage);
        let (next, warning) = session.run_impl(event);
        said.extend(warning);
        session = next;
    }
    (seen, said, session.result)
}

fn all_goes_well(stage: Stage) -> StageEvent {
    match stage {
        Stage::Parent => StageEvent::Asked { restorable: true },
        Stage::Supervising => StageEvent::Ended(Ok(7)),
        _ => StageEvent::Worked,
    }
}

#[test]
fn run_puts_everything_back() {
    let (seen, said, result) = run_stages(true, all_goes_well);
    assert_eq!(
        seen,
        [
            Stage::Signals,
            Stage::Reaping,
            Stage::Preparing,
            Stage::Parent,
            Stage::Spawning,
            Stage::Supervising,
            Stage::Terminal,
            Stage::UndoParent,
            Stage::UndoReaping,
            Stage::UndoSignals,
        ]
    );
    assert!(said.is_empty());
    assert_eq!(result.unwrap(), 7);
}

#[test]
fn failed_run_puts_back_what_it_changed() {
    let fail_at = |failing: Stage| {
        let (seen, said, result) = run_stages(true, |stage| {
            if stage == failing {
                StageEvent::Failed(Error::msg("broken".into()))
            } else {
                all_goes_well(stage)
            }
        });
        assert!(said.is_empty());
        assert_eq!(result.unwrap_err().message(), "broken");
        seen
    };
    assert_eq!(fail_at(Stage::Signals), [Stage::Signals]);
    assert_eq!(
        fail_at(Stage::Reaping),
        [Stage::Signals, Stage::Reaping, Stage::UndoSignals]
    );
    assert_eq!(
        fail_at(Stage::Preparing)[3..],
        [Stage::UndoReaping, Stage::UndoSignals]
    );
    assert_eq!(
        fail_at(Stage::Spawning)[5..],
        [Stage::UndoParent, Stage::UndoReaping, Stage::UndoSignals]
    );
}

#[test]
fn first_error_of_a_run_counts() {
    let (_, said, result) = run_stages(false, |stage| match stage {
        Stage::UndoReaping => StageEvent::Failed(Error::msg("first".into())),
        Stage::UndoSignals => StageEvent::Failed(Error::msg("second".into())),
        _ => all_goes_well(stage),
    });
    assert_eq!(result.unwrap_err().message(), "first");
    assert_eq!(said, ["restore process state failed: second"]);

    let (_, said, result) = run_stages(false, |stage| match stage {
        Stage::Preparing => StageEvent::Failed(Error::usage("first".into())),
        Stage::UndoSignals => StageEvent::Failed(Error::msg("second".into())),
        _ => all_goes_well(stage),
    });
    assert_eq!(result.unwrap_err().exit_code(), 2);
    assert_eq!(said, ["restore signal mask failed: second"]);
}
