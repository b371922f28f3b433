use tino::args::{apply_text, os_string_into_string};
use tino::cli::{parse_signal, CliParseError, CliParseErrorKind, ValueOption};
use tino::config::{apply_config_line, parse_config_content, FileContent};
use tino::raw_args::argument_texts;
use tino::{Cli, WritePreset, DEFAULT_CONFIG_PATH};

fn argv(args: &[&str]) -> Vec<String> {
    args.iter().map(|arg| arg.to_string()).collect()
}

fn parse(args: &[&str]) -> Result<Cli, CliParseError> {
    Cli::try_parse_from(&argv(args))
}

fn parse_ok(args: &[&str]) -> Cli {
    parse(args).expect("parse cli")
}

fn config(content: &str) -> Result<Cli, CliParseError> {
    parse_config_content(DEFAULT_CONFIG_PATH, content)
}

#[test]
fn parse_signal_accepts_known_variants() {
    assert_eq!(parse_signal("TERM").unwrap(), "SIGTERM");
    assert_eq!(parse_signal("sigterm").unwrap(), "SIGTERM");
    assert_eq!(parse_signal("SIGUSR1").unwrap(), "SIGUSR1");
}

#[test]
fn parse_signal_rejects_unknown_values() {
    assert!(parse_signal("NOPE").is_err());
    assert!(parse_signal("").is_err());
}

#[test]
fn parse_signal_rejects_unknown_values_without_raw_control_bytes() {
    let err = parse_signal("\u{1b}[31m").expect_err("control-byte signal must fail");
    let message = err.message();

    assert!(message.contains(r"\u{1b}"));
    assert!(!message.contains('\u{1b}'));
}

#[test]
fn parse_counts_grouped_verbosity_and_collects_command_tail() {
    let cli = parse(&["tino", "-vv", "--", "/bin/echo", "--value"]).expect("parse cli");
    assert_eq!(cli.verbosity, 2);
    assert_eq!(cli.cmd, vec!["/bin/echo", "--value"]);
}

#[test]
fn parse_help_and_version_as_control_flow() {
    let help = parse(&["tino", "--help"]).unwrap_err();
    assert_eq!(help.kind(), CliParseErrorKind::Help);

    let version = parse(&["tino", "-V"]).unwrap_err();
    assert_eq!(version.kind(), CliParseErrorKind::Version);
}

#[test]
fn parse_rejects_attached_values_for_long_flags() {
    for flag in [
        "subreaper",
        "warn-on-reap",
        "pgroup-kill",
        "write-restrict",
        "restrict-warn-only",
        "write-no-dev",
        "scope-signals",
        "scope-abstract-unix",
        "expand-env",
        "explain",
        "print-config",
        "write-config",
        "check-config",
        "no-config",
        "help",
        "version",
        "verbose",
    ] {
        for value in ["", "false", "\u{1b}[31m"] {
            let arg = format!("--{flag}={value}");
            let err = parse(&["tino", &arg]).unwrap_err();
            assert_eq!(err.kind(), CliParseErrorKind::Message, "{arg:?}");
            assert_eq!(err.message(), format!("--{flag} does not take a value"));
        }
    }
}

#[test]
fn parse_preserves_flag_like_values_and_command_arguments() {
    for args in [
        vec![
            "tino",
            "--exec-allow",
            "--write-config=false",
            "--",
            "echo",
            "--no-config=false",
        ],
        vec![
            "tino",
            "--exec-allow=--write-config=false",
            "echo",
            "--no-config=false",
        ],
    ] {
        let cli = parse_ok(&args);
        assert_eq!(cli.exec_allow, ["--write-config=false"]);
        assert_eq!(cli.cmd, ["echo", "--no-config=false"]);
        assert!(!cli.write_config);
        assert!(!cli.no_config);
    }
}

#[test]
fn parse_check_config_rejects_explicit_default_grace() {
    for args in [
        vec!["tino", "--check-config", "--grace-ms", "500"],
        vec!["tino", "--grace-ms=500", "--check-config"],
        vec!["tino", "--check-config", "-t500"],
        vec!["tino", "-t", "1", "-t", "500", "--check-config"],
    ] {
        let err = parse(&args).unwrap_err();
        assert_eq!(err.kind(), CliParseErrorKind::Message);
        assert_eq!(err.message(), "--check-config does not accept --grace-ms");
    }
    let cli = parse_ok(&["tino", "echo", "--check-config", "--grace-ms=500"]);
    assert_eq!(cli.cmd, ["echo", "--check-config", "--grace-ms=500"]);
}

#[test]
fn parse_rejects_empty_argv() {
    let err = parse(&[]).unwrap_err();

    assert_eq!(err.kind(), CliParseErrorKind::Message);
    assert_eq!(err.message(), "missing argv[0]");
}

#[test]
fn parse_supports_short_and_long_flag_spellings() {
    let cases: &[(&[&str], fn(&Cli) -> bool)] = &[
        (&["tino", "-s"], |cli| cli.subreaper),
        (&["tino", "--subreaper"], |cli| cli.subreaper),
        (&["tino", "-w"], |cli| cli.warn_on_reap),
        (&["tino", "--warn-on-reap"], |cli| cli.warn_on_reap),
        (&["tino", "-g"], |cli| cli.pgroup_kill),
        (&["tino", "--pgroup-kill"], |cli| cli.pgroup_kill),
        (&["tino", "--write-restrict"], |cli| cli.write_restrict),
        (&["tino", "--restrict-warn-only"], |cli| cli.restrict_warn_only),
        (&["tino", "--write-no-dev"], |cli| cli.write_no_dev),
        (&["tino", "--scope-signals"], |cli| cli.scope_signals),
        (&["tino", "--scope-abstract-unix"], |cli| cli.scope_abstract_unix),
        (&["tino", "--expand-env"], |cli| cli.expand_env),
        (&["tino", "--explain"], |cli| cli.explain),
        (&["tino", "--print-config"], |cli| cli.print_config),
        (&["tino", "--write-config"], |cli| cli.write_config),
        (&["tino", "--check-config"], |cli| cli.check_config),
        (&["tino", "--no-config"], |cli| cli.no_config),
    ];

    for (args, predicate) in cases {
        let cli = parse_ok(args);
        assert!(predicate(&cli), "flag did not parse as expected: {args:?}");
    }
}

#[test]
fn parse_supports_value_option_spellings() {
    let cases: &[(&[&str], fn(&Cli) -> bool)] = &[
        (&["tino", "-p", "TERM"], |cli| cli.pdeath.as_deref() == Some("SIGTERM")),
        (&["tino", "-pTERM"], |cli| cli.pdeath.as_deref() == Some("SIGTERM")),
        (&["tino", "--parent-death-signal", "TERM"], |cli| {
            cli.pdeath.as_deref() == Some("SIGTERM")
        }),
        (&["tino", "--parent-death-signal=TERM"], |cli| {
            cli.pdeath.as_deref() == Some("SIGTERM")
        }),
        (&["tino", "-e", "3"], |cli| cli.remap_exit == vec![3]),
        (&["tino", "--remap-exit", "3"], |cli| cli.remap_exit == vec![3]),
        (&["tino", "--remap-exit=3"], |cli| cli.remap_exit == vec![3]),
        (&["tino", "-t", "250"], |cli| cli.grace_ms == 250),
        (&["tino", "-t250"], |cli| cli.grace_ms == 250),
        (&["tino", "--grace-ms", "250"], |cli| cli.grace_ms == 250),
        (&["tino", "--grace-ms=250"], |cli| cli.grace_ms == 250),
        (&["tino", "--write-allow", "/tmp"], |cli| cli.write_allow == vec!["/tmp"]),
        (&["tino", "--write-allow=/tmp"], |cli| cli.write_allow == vec!["/tmp"]),
        (&["tino", "--write-preset", "tmp"], |cli| {
            cli.write_preset == vec![WritePreset::Tmp]
        }),
        (&["tino", "--write-preset=runtime"], |cli| {
            cli.write_preset == vec![WritePreset::Runtime]
        }),
        (&["tino", "--bind-tcp-allow", "80"], |cli| cli.bind_tcp_allow == vec![80]),
        (&["tino", "--bind-tcp-allow=80"], |cli| cli.bind_tcp_allow == vec![80]),
        (&["tino", "--connect-tcp-allow", "443"], |cli| {
            cli.connect_tcp_allow == vec![443]
        }),
        (&["tino", "--connect-tcp-allow=443"], |cli| cli.connect_tcp_allow == vec![443]),
        (&["tino", "--exec-allow", "/bin/sh"], |cli| cli.exec_allow == vec!["/bin/sh"]),
        (&["tino", "--exec-allow=/bin/sh"], |cli| cli.exec_allow == vec!["/bin/sh"]),
        (&["tino", "--device-ioctl-allow", "/dev/null"], |cli| {
            cli.device_ioctl_allow == vec!["/dev/null"]
        }),
        (&["tino", "--device-ioctl-allow=/dev/null"], |cli| {
            cli.device_ioctl_allow == vec!["/dev/null"]
        }),
    ];

    for (args, predicate) in cases {
        let cli = parse_ok(args);
        assert!(
            predicate(&cli),
            "value option did not parse as expected: {args:?}"
        );
    }
}

#[test]
fn parse_collects_repeatable_values_in_order() {
    let cli = parse_ok(&[
        "tino",
        "-e",
        "3",
        "--remap-exit=7",
        "--write-allow=/tmp",
        "--write-allow",
        "/run",
        "--bind-tcp-allow=80",
        "--bind-tcp-allow",
        "443",
        "--connect-tcp-allow=8080",
        "--connect-tcp-allow",
        "8443",
        "--exec-allow=/bin/sh",
        "--exec-allow",
        "/usr/bin/env",
        "--device-ioctl-allow=/dev/null",
        "--device-ioctl-allow",
        "/dev/pts",
    ]);

    assert_eq!(cli.remap_exit, vec![3, 7]);
    assert_eq!(cli.write_allow, vec!["/tmp", "/run"]);
    assert_eq!(cli.bind_tcp_allow, vec![80, 443]);
    assert_eq!(cli.connect_tcp_allow, vec![8080, 8443]);
    assert_eq!(cli.exec_allow, vec!["/bin/sh", "/usr/bin/env"]);
    assert_eq!(cli.device_ioctl_allow, vec!["/dev/null", "/dev/pts"]);
}

#[test]
fn parse_accumulates_repeated_verbosity_flags() {
    let cases: &[(&[&str], u8)] = &[
        (&["tino", "-vvv"], 3),
        (&["tino", "-v", "-v"], 2),
        (&["tino", "--verbose"], 1),
        (&["tino", "--verbose", "--verbose"], 2),
        (&["tino", "--verbose", "-vv"], 3),
    ];

    for (args, expected) in cases {
        let cli = parse_ok(args);
        assert_eq!(
            cli.verbosity, *expected,
            "unexpected verbosity for {args:?}"
        );
    }
}

#[test]
fn parse_supports_short_long_attached_and_repeatable_options() {
    let cli = parse_ok(&[
        "tino",
        "-svgw",
        "-pTERM",
        "-e",
        "3",
        "--remap-exit=7",
        "-t250",
        "--write-restrict",
        "--write-allow",
        "/tmp",
        "--write-preset=runtime",
        "--restrict-warn-only",
        "--write-no-dev",
        "--bind-tcp-allow",
        "80",
        "--bind-tcp-allow=443",
        "--connect-tcp-allow",
        "8080",
        "--scope-signals",
        "--scope-abstract-unix",
        "--exec-allow",
        "/bin/sh",
        "--device-ioctl-allow",
        "/dev/null",
        "--expand-env",
        "--explain",
        "--",
        "/bin/echo",
        "hello",
    ]);

    assert!(cli.subreaper);
    assert_eq!(cli.pdeath.as_deref(), Some("SIGTERM"));
    assert_eq!(cli.verbosity, 1);
    assert!(cli.warn_on_reap);
    assert!(cli.pgroup_kill);
    assert_eq!(cli.remap_exit, vec![3, 7]);
    assert_eq!(cli.grace_ms, 250);
    assert!(cli.write_restrict);
    assert_eq!(cli.write_allow, vec!["/tmp"]);
    assert_eq!(cli.write_preset, vec![WritePreset::Runtime]);
    assert!(cli.restrict_warn_only);
    assert!(cli.write_no_dev);
    assert_eq!(cli.bind_tcp_allow, vec![80, 443]);
    assert_eq!(cli.connect_tcp_allow, vec![8080]);
    assert!(cli.scope_signals);
    assert!(cli.scope_abstract_unix);
    assert_eq!(cli.exec_allow, vec!["/bin/sh"]);
    assert_eq!(cli.device_ioctl_allow, vec!["/dev/null"]);
    assert!(cli.expand_env);
    assert!(cli.explain);
    assert!(!cli.print_config);
    assert!(!cli.write_config);
    assert!(!cli.check_config);
    assert!(!cli.no_config);
    assert_eq!(cli.cmd, vec!["/bin/echo", "hello"]);
}

#[test]
fn parse_config_content_accepts_line_based_options() {
    let cli = config(
        r#"
            # one tino option per line
            subreaper
            pgroup-kill
            pdeath TERM
            verbosity 2
            remap-exit 3
            grace-ms 250
            write-restrict
            write-allow /data/logs
            write-preset runtime
            restrict-warn-only
            write-no-dev
            bind-tcp-allow 8900
            connect-tcp-allow 11800
            scope-signals
            scope-abstract-unix
            exec-allow /opt/app
            device-ioctl-allow /dev/null
            expand-env
        "#,
    )
    .expect("parse config content");

    assert!(cli.subreaper);
    assert!(cli.pgroup_kill);
    assert_eq!(cli.pdeath.as_deref(), Some("SIGTERM"));
    assert_eq!(cli.verbosity, 2);
    assert_eq!(cli.remap_exit, vec![3]);
    assert_eq!(cli.grace_ms, 250);
    assert!(cli.write_restrict);
    assert_eq!(cli.write_allow, vec!["/data/logs"]);
    assert_eq!(cli.write_preset, vec![WritePreset::Runtime]);
    assert!(cli.restrict_warn_only);
    assert!(cli.write_no_dev);
    assert_eq!(cli.bind_tcp_allow, vec![8900]);
    assert_eq!(cli.connect_tcp_allow, vec![11800]);
    assert!(cli.scope_signals);
    assert!(cli.scope_abstract_unix);
    assert_eq!(cli.exec_allow, vec!["/opt/app"]);
    assert_eq!(cli.device_ioctl_allow, vec!["/dev/null"]);
    assert!(cli.expand_env);
    assert!(cli.cmd.is_empty());
}

#[test]
fn parse_config_content_accepts_optional_long_option_prefix() {
    let cli = config("--write-allow /data/logs\n--bind-tcp-allow 8900\n")
        .expect("parse config with long option prefixes");

    assert_eq!(cli.write_allow, vec!["/data/logs"]);
    assert_eq!(cli.bind_tcp_allow, vec![8900]);
}

#[test]
fn parse_config_content_rejects_commands_and_control_flow() {
    let command = config("/bin/echo hello").expect_err("command must not be accepted");
    assert_eq!(command.kind(), CliParseErrorKind::Config);
    assert!(command.message().contains("unknown config option"));

    let control = config("explain").expect_err("control-flow options must not be accepted");
    assert_eq!(control.kind(), CliParseErrorKind::Config);
    assert!(control.message().contains("only allowed on the command line"));
}

#[test]
fn parse_config_content_rejects_unknown_option_without_raw_control_bytes() {
    let err = config("\u{1b}[31m true").expect_err("unknown config option must fail");
    let message = err.message();

    assert_eq!(err.kind(), CliParseErrorKind::Config);
    assert!(message.contains("unknown config option"));
    assert!(message.contains(r"\u{1b}"));
    assert!(!message.contains('\u{1b}'));
}

#[test]
fn parse_config_content_rejects_unrepresentable_values_early() {
    for (content, expected) in [
        ("write-allow /tmp\0x\n", "cannot contain NUL bytes"),
        ("exec-allow /bin/sh\rx\n", "cannot contain newlines"),
    ] {
        let err = config(content).expect_err("unrepresentable config value must fail");

        assert_eq!(err.kind(), CliParseErrorKind::Config);
        assert!(
            err.message().contains(expected),
            "unexpected config value error for {content:?}: {}",
            err.message()
        );
    }
}

#[test]
fn parse_config_content_rejects_verbosity_above_effective_max() {
    let err = config("verbosity 4\n").expect_err("unsupported config verbosity must fail");

    assert_eq!(err.kind(), CliParseErrorKind::Config);
    assert!(
        err.message().contains("expected 0-3"),
        "unexpected verbosity range error: {}",
        err.message()
    );
}

#[test]
fn config_text_serializes_active_options() {
    let cli = parse_ok(&[
        "tino",
        "-s",
        "-g",
        "-p",
        "TERM",
        "-v",
        "-e",
        "3",
        "--grace-ms",
        "250",
        "--write-restrict",
        "--write-allow",
        "/data/logs",
        "--write-preset",
        "runtime",
        "--restrict-warn-only",
        "--write-no-dev",
        "--bind-tcp-allow",
        "8900",
        "--connect-tcp-allow",
        "11800",
        "--scope-signals",
        "--scope-abstract-unix",
        "--exec-allow",
        "/opt/app/service",
        "--device-ioctl-allow",
        "/dev/null",
        "--expand-env",
    ]);

    let lines = [
        "subreaper",
        "pdeath SIGTERM",
        "verbosity 1",
        "pgroup-kill",
        "remap-exit 3",
        "grace-ms 250",
        "write-restrict",
        "write-allow /data/logs",
        "write-preset runtime",
        "restrict-warn-only",
        "write-no-dev",
        "bind-tcp-allow 8900",
        "connect-tcp-allow 11800",
        "scope-signals",
        "scope-abstract-unix",
        "exec-allow /opt/app/service",
        "device-ioctl-allow /dev/null",
        "expand-env",
    ];
    assert_eq!(
        cli.config_text().expect("serialize config text"),
        lines.join("\n") + "\n"
    );
}

#[test]
fn config_text_serializes_effective_verbosity() {
    let cli = parse_ok(&["tino", "-vvvv"]);

    assert_eq!(
        cli.config_text().expect("serialize capped verbosity"),
        "verbosity 3\n"
    );
}

#[test]
fn config_text_rejects_multiline_values() {
    let cli = parse_ok(&["tino", "--write-allow", "/tmp\nexec-allow /bin/sh"]);

    let err = cli.config_text().expect_err("multiline value must fail");
    assert!(
        err.message().contains("cannot contain newlines"),
        "unexpected error: {}",
        err.message()
    );
}

#[test]
fn config_text_rejects_non_roundtrippable_values() {
    for value in ["", "  ", " /tmp", "/tmp ", "/tmp\0x"] {
        let cli = parse_ok(&["tino", "--write-allow", value]);
        let err = cli
            .config_text()
            .expect_err("non-roundtrippable config value must fail");
        assert!(
            err.message().contains("cannot"),
            "unexpected error for {value:?}: {}",
            err.message()
        );
    }
}

#[test]
fn config_text_rejects_relative_landlock_paths() {
    let cases = [
        Cli {
            write_allow: vec!["logs".into()],
            ..Cli::default()
        },
        Cli {
            exec_allow: vec!["./service".into()],
            ..Cli::default()
        },
        Cli {
            device_ioctl_allow: vec!["dev/null".into()],
            ..Cli::default()
        },
    ];

    for cli in cases {
        let err = cli
            .config_text()
            .expect_err("relative landlock path must not serialize");
        assert!(
            err.message().contains("absolute path"),
            "unexpected relative-path serialization error: {}",
            err.message()
        );
    }
}

#[test]
fn config_text_allows_exec_command_names() {
    let cli = Cli {
        exec_allow: vec!["sh".into()],
        ..Cli::default()
    };

    assert_eq!(
        cli.config_text().expect("serialize exec command name"),
        "exec-allow sh\n"
    );
}

#[test]
fn config_text_rejects_manual_values_that_would_not_parse_back() {
    let invalid_signal = Cli {
        pdeath: Some("\u{1b}[31m".into()),
        ..Cli::default()
    };
    let err = invalid_signal
        .config_text()
        .expect_err("invalid manual pdeath signal must fail");
    let message = err.message();
    assert!(message.contains("invalid signal"));
    assert!(message.contains(r"\u{1b}"));
    assert!(!message.contains('\u{1b}'));

    for cli in [
        Cli {
            bind_tcp_allow: vec![0],
            ..Cli::default()
        },
        Cli {
            connect_tcp_allow: vec![0],
            ..Cli::default()
        },
    ] {
        let err = cli
            .config_text()
            .expect_err("zero TCP port must not be serialized");
        assert!(
            err.message().contains("expected 1-65535"),
            "unexpected zero-port serialization error: {}",
            err.message()
        );
    }
}

#[test]
fn cli_args_apply_on_top_of_config_content() {
    let base = config(
        "expand-env\nwrite-allow /data/logs\nbind-tcp-allow 8900\nparent-death-signal TERM\nverbosity 1\ngrace-ms 100\n",
    )
    .expect("parse config content");
    let cli = Cli::try_parse_from_base(
        &argv(&[
            "tino",
            "--write-allow",
            "/tmp",
            "--bind-tcp-allow",
            "9090",
            "--parent-death-signal=USR1",
            "--verbose",
            "--grace-ms=250",
            "--",
            "/bin/echo",
            "${MESSAGE:-ok}",
        ]),
        base,
    )
    .expect("parse args over config");

    assert!(cli.expand_env);
    assert_eq!(cli.write_allow, vec!["/data/logs", "/tmp"]);
    assert_eq!(cli.bind_tcp_allow, vec![8900, 9090]);
    assert_eq!(cli.pdeath.as_deref(), Some("SIGUSR1"));
    assert_eq!(cli.verbosity, 2);
    assert_eq!(cli.grace_ms, 250);
    assert_eq!(cli.cmd, vec!["/bin/echo", "${MESSAGE:-ok}"]);
}

#[test]
fn parse_first_positional_collects_remaining_command() {
    let cli = parse_ok(&["tino", "--expand-env", "/bin/echo", "--literal-flag"]);

    assert!(cli.expand_env);
    assert_eq!(cli.cmd, vec!["/bin/echo", "--literal-flag"]);
}

#[test]
fn parse_rejects_unknown_argument() {
    let err = parse(&["tino", "--nope"]).unwrap_err();
    assert_eq!(err.kind(), CliParseErrorKind::Message);
    assert!(err.message().contains("unexpected argument"));
}

#[test]
fn parse_rejects_unknown_argument_without_raw_control_bytes() {
    let err = parse(&["tino", "--\u{1b}[31m"]).unwrap_err();
    let message = err.message();

    assert_eq!(err.kind(), CliParseErrorKind::Message);
    assert!(message.contains("unexpected argument"));
    assert!(message.contains(r"\u{1b}"));
    assert!(!message.contains('\u{1b}'));
}

#[test]
fn parse_rejects_missing_option_value() {
    let cases = [
        ["tino", "-p"],
        ["tino", "--parent-death-signal"],
        ["tino", "-e"],
        ["tino", "-t"],
        ["tino", "--grace-ms"],
        ["tino", "--write-allow"],
        ["tino", "--write-preset"],
        ["tino", "--bind-tcp-allow"],
        ["tino", "--connect-tcp-allow"],
        ["tino", "--exec-allow"],
        ["tino", "--device-ioctl-allow"],
    ];

    for args in cases {
        let err = parse(&args).unwrap_err();
        assert_eq!(err.kind(), CliParseErrorKind::Message);
        assert!(
            err.message().contains("missing value"),
            "unexpected missing-value error for {args:?}: {}",
            err.message()
        );
    }
}

#[test]
fn parse_rejects_invalid_numeric_value() {
    let cases = [
        ["tino", "-e", "256"],
        ["tino", "--bind-tcp-allow", "0"],
        ["tino", "--bind-tcp-allow", "70000"],
        ["tino", "--connect-tcp-allow", "0"],
        ["tino", "--connect-tcp-allow", "70000"],
        ["tino", "--grace-ms", "abc"],
    ];

    for args in cases {
        let err = parse(&args).unwrap_err();
        assert_eq!(err.kind(), CliParseErrorKind::Message);
        assert!(
            err.message().contains("invalid value")
                || err.message().contains("invalid digit")
                || err.message().contains("number too large"),
            "unexpected numeric parse error for {args:?}: {}",
            err.message()
        );
    }
}

#[test]
fn parse_rejects_invalid_numeric_value_without_raw_control_bytes() {
    let err = parse(&["tino", "--grace-ms", "\u{1b}[31m"]).unwrap_err();
    let message = err.message();

    assert_eq!(err.kind(), CliParseErrorKind::Message);
    assert!(message.contains("invalid value"));
    assert!(message.contains(r"\u{1b}"));
    assert!(!message.contains('\u{1b}'));
}

#[test]
fn parse_config_content_rejects_zero_tcp_ports() {
    for content in ["bind-tcp-allow 0\n", "connect-tcp-allow 0\n"] {
        let err = config(content).expect_err("zero tcp port must fail");
        assert_eq!(err.kind(), CliParseErrorKind::Config);
        assert!(
            err.message().contains("expected 1-65535"),
            "unexpected port range error for {content:?}: {}",
            err.message()
        );
    }
}

#[test]
fn parse_rejects_invalid_write_preset() {
    let err = parse(&["tino", "--write-preset", "logs"]).unwrap_err();
    assert_eq!(err.kind(), CliParseErrorKind::Message);
    assert!(err.message().contains("invalid value for --write-preset"));
}

#[test]
fn parse_rejects_invalid_write_preset_without_raw_control_bytes() {
    let err = parse(&["tino", "--write-preset", "\u{1b}[31m"]).unwrap_err();
    let message = err.message();

    assert_eq!(err.kind(), CliParseErrorKind::Message);
    assert!(message.contains("invalid value for --write-preset"));
    assert!(message.contains(r"\u{1b}"));
    assert!(!message.contains('\u{1b}'));
}

#[test]
fn arguments_have_to_be_text() {
    let err = os_string_into_string(&[0xff, 0xfe]).unwrap_err();
    assert_eq!(err.kind(), CliParseErrorKind::Message);
    assert_eq!(err.message(), r"argument is not valid UTF-8: \xff\xfe");

    let err = os_string_into_string(&[0x1b, b'[', b'3', b'1', b'm', 0xff]).unwrap_err();
    assert!(err.message().contains(r"\x1b"));
    assert!(!err.message().contains('\u{1b}'));

    assert_eq!(os_string_into_string("ü".as_bytes()).unwrap(), "ü");
}

#[test]
fn written_config_is_read_back() {
    let cli = parse_ok(&[
        "tino", "-sgw", "-pUSR1", "-vv", "-e3", "-e4", "-t7", "--write-allow=/a b", "--write-preset=tmp",
        "--bind-tcp-allow=65535", "--exec-allow=sh",
    ]);
    let text = cli.config_text().unwrap();
    let back = config(&text).unwrap();
    assert_eq!(back.config_text().unwrap(), text);
    assert!(back.subreaper && back.pgroup_kill && back.warn_on_reap);
    assert_eq!(back.pdeath.as_deref(), Some("SIGUSR1"));
    assert_eq!(back.verbosity, 2);
    assert_eq!(back.remap_exit, vec![3, 4]);
    assert_eq!(back.grace_ms, 7);
    assert_eq!(back.write_allow, vec!["/a b"]);
    assert_eq!(back.write_preset, vec![WritePreset::Tmp]);
    assert_eq!(back.bind_tcp_allow, vec![65535]);
    assert_eq!(back.exec_allow, vec!["sh"]);
}

#[test]
fn config_file_is_read_unless_skipped() {
    let text = || FileContent::Text("grace-ms 9\n".into());
    let merged = Cli::try_parse_with_default_config_from(&argv(&["tino", "-s"]), text()).unwrap();
    assert_eq!(merged.grace_ms, 9);
    assert!(merged.subreaper);

    for option in ["--no-config", "--print-config", "--write-config", "--check-config"] {
        let cli =
            Cli::try_parse_with_default_config_from(&argv(&["tino", option]), text()).unwrap();
        assert_eq!(cli.grace_ms, 500);
    }

    let missing =
        Cli::try_parse_with_default_config_from(&argv(&["tino"]), FileContent::NotFound).unwrap();
    assert_eq!(missing.grace_ms, 500);

    let err = Cli::try_parse_with_default_config_from(
        &argv(&["tino"]),
        FileContent::Failed("broken".into()),
    )
    .unwrap_err();
    assert_eq!(err.kind(), CliParseErrorKind::Config);
    assert_eq!(err.message(), "read /etc/tino/tino.conf: broken");
}

#[test]
fn command_line_goes_on_top() {
    let base = Cli {
        verbosity: 1,
        remap_exit: vec![1],
        grace_ms: 3,
        pgroup_kill: true,
        ..Cli::default()
    };
    let cli = Cli::try_parse_from_base(&argv(&["tino", "-v", "-e2", "-t4", "-s"]), base).unwrap();
    assert_eq!(cli.verbosity, 2);
    assert_eq!(cli.remap_exit, vec![1, 2]);
    assert_eq!(cli.grace_ms, 4);
    assert!(cli.pgroup_kill && cli.subreaper);
}

#[test]
fn requests_and_errors_are_printed_where_they_belong() {
    let help = parse(&["tino", "-h"]).unwrap_err().printout();
    assert!(!help.to_stderr);
    assert_eq!(help.exit_code, 0);
    assert!(help.text.contains("--write-allow"));

    let message = parse(&["tino", "--nope"]).unwrap_err().printout();
    assert!(message.to_stderr);
    assert_eq!(message.exit_code, 2);

    let broken = config("nope\n").unwrap_err().printout();
    assert!(broken.to_stderr);
    assert!(broken.text.starts_with("error: "));
}

fn parse_raw(args: &[&[u8]]) -> Result<Cli, CliParseError> {
    let argv = args.iter().map(|arg| arg.to_vec()).collect();
    Cli::try_parse_from(&argument_texts(&argv)?)
}

#[test]
fn parse_rejects_non_utf8_attached_flag_values() {
    let err = parse_raw(&[b"tino", b"--restrict-warn-only=\xff"]).unwrap_err();
    assert_eq!(err.kind(), CliParseErrorKind::Message);
    assert_eq!(
        err.message(),
        "--restrict-warn-only does not take a value"
    );
}

#[test]
fn parse_rejects_non_utf8_command_arguments() {
    let err = parse_raw(&[b"tino", b"--", &[0xff, 0xfe]]).unwrap_err();

    assert_eq!(err.kind(), CliParseErrorKind::Message);
    assert!(err.message().contains("not valid UTF-8"));
}

#[test]
fn parse_rejects_non_utf8_command_arguments_without_raw_control_bytes() {
    let err = parse_raw(&[b"tino", b"--", &[0x1b, b'[', b'3', b'1', b'm', 0xff]]).unwrap_err();
    let message = err.message();

    assert_eq!(err.kind(), CliParseErrorKind::Message);
    assert!(message.contains("not valid UTF-8"));
    assert!(message.contains(r"\x1b"));
    assert!(!message.contains('\u{1b}'));
}

#[test]
fn good_arguments_are_read_as_texts() {
    let argv = vec![b"\xfftino".to_vec(), b"-s".to_vec(), "h\u{e9}".as_bytes().to_vec()];
    let texts = argument_texts(&argv).unwrap();
    assert_eq!(texts, ["\u{fffd}tino", "-s", "h\u{e9}"]);
    let cli = Cli::try_parse_from(&texts).unwrap();
    assert!(cli.subreaper);
    assert_eq!(cli.cmd, ["h\u{e9}"]);
    assert!(argument_texts(&Vec::new()).unwrap().is_empty());
}

#[test]
fn arguments_in_front_decide_the_error() {
    let cases: [(&[&[u8]], &str); 19] = [
        (&[b"run", b"\xff"], r"argument is not valid UTF-8: \xff"),
        (&[b"-s", b"a\xff"], r"argument is not valid UTF-8: a\xff"),
        (&[b"--write-allow", b"--", b"--", b"--a\xff"], r"argument is not valid UTF-8: --a\xff"),
        (&[b"--write-allow", b"--", b"--a\xff"], "option name is invalid or not valid UTF-8: --a\\u{fffd}"),
        (&[b"--a\xff"], "option name is invalid or not valid UTF-8: --a\\u{fffd}"),
        (&[b"--=\xff"], "option name is invalid or not valid UTF-8: --=\\u{fffd}"),
        (&[b"-s\xff"], "option name is invalid or not valid UTF-8: -s\\u{fffd}"),
        (&[b"-sx\xff"], "unexpected argument: -x"),
        (&[b"--nope=\xff"], "unexpected argument: --nope"),
        (&[b"--verbose=\xff"], "--verbose does not take a value"),
        (&[b"--help=\xff"], "--help does not take a value"),
        (&[b"--write-allow", b"\xff"], "argument is not valid UTF-8: \\u{fffd}"),
        (&[b"--write-allow=/a\xff"], "argument is not valid UTF-8: /a\\u{fffd}"),
        (&[b"-sp\xff"], "argument is not valid UTF-8: \\u{fffd}"),
        (&[b"-t", b"1\xff"], "argument is not valid UTF-8: 1\\u{fffd}"),
        (
            &[b"--bind-tcp-allow", b"\xff"],
            "--bind-tcp-allow: argument is not valid UTF-8: \\u{fffd}",
        ),
        (
            &[b"--connect-tcp-allow=\xff"],
            "--connect-tcp-allow: argument is not valid UTF-8: \\u{fffd}",
        ),
        (&[b"--nope", b"\xff"], "unexpected argument: --nope"),
        (&[b"-e", b"256", b"\xff"], "invalid value: 256"),
    ];
    for (args, message) in cases {
        let mut argv = vec![b"tino".to_vec()];
        argv.extend(args.iter().map(|arg| arg.to_vec()));
        let err = argument_texts(&argv).unwrap_err();
        assert_eq!(err.kind(), CliParseErrorKind::Message, "{args:?}");
        assert_eq!(err.message(), message, "{args:?}");
    }
    for args in [&[&b"-h"[..], b"\xff"][..], &[b"-sh\xff"]] {
        let mut argv = vec![b"tino".to_vec()];
        argv.extend(args.iter().map(|arg| arg.to_vec()));
        assert_eq!(argument_texts(&argv).unwrap_err().kind(), CliParseErrorKind::Help);
    }
    let argv = vec![b"tino".to_vec(), b"-V\xff".to_vec()];
    assert_eq!(argument_texts(&argv).unwrap_err().kind(), CliParseErrorKind::Version);
}

#[test]
fn bad_lines_leave_the_settings() {
    let mut cli = config("verbosity 2\nwrite-allow /a\n").unwrap();
    let before = format!("{cli:?}");
    for (line, said) in [
        ("grace-ms nope", "/etc/x:7: "),
        ("write-preset nope", "/etc/x:7: "),
        ("bind-tcp-allow 0", "/etc/x:7: "),
        ("verbosity 4", "/etc/x:7: invalid value for 'verbosity': expected 0-3"),
        ("subreaper yes", "/etc/x:7: 'subreaper' does not take a value"),
        ("nope", "/etc/x:7: unknown config option 'nope'"),
    ] {
        let chars: Vec<char> = line.chars().collect();
        let err = apply_config_line(&mut cli, "/etc/x", 7, &chars).unwrap_err();
        assert!(err.message().starts_with(said), "{}", err.message());
        assert_eq!(err.kind(), CliParseErrorKind::Config);
        assert_eq!(format!("{cli:?}"), before, "{line}");
    }
}

#[test]
fn bad_values_leave_the_settings() {
    let mut cli = Cli::default();
    let before = format!("{cli:?}");
    apply_text(&mut cli, ValueOption::ParentDeathSignal, "nope").unwrap_err();
    apply_text(&mut cli, ValueOption::WritePreset, "nope").unwrap_err();
    assert_eq!(format!("{cli:?}"), before);
    apply_text(&mut cli, ValueOption::ParentDeathSignal, "term").unwrap();
    assert_eq!(cli.pdeath.as_deref(), Some("SIGTERM"));
}
