use tino::config::FileContent;
use tino::context::{Environment, ExecContext};
use tino::discovery::{
    default_exec_search_path, detect_exec_interpreters_in_context, find_commands,
};
use tino::elf::{
    executable_elf_machines, parse_elf_interpreter, read_elf_interpreter,
    read_elf_interpreter_from_file, Arch, ElfAsk, ElfInterpreter, ElfPieces,
};
use tino::env_command::{
    env_chdir, env_long_option_action, env_shebang_command, env_short_option_action,
    finish_env_shebang_command, EnvOptionAction, EnvShebangCommand, EnvShebangOptions,
};
use tino::env_signal::{judge_signals, realtime_range, SignalList};
use tino::env_split::split_env_split_string;
use tino::error::Error;
use tino::expand::resolve_command_args;
use tino::facts::{
    ElfStage, Fact, FileFacts, FileKind, Find, Question, Reply, World,
};
use tino::follow::{
    insert_landlock_exec_path, insert_landlock_main_exec_path, Discovery, Outcome,
};
use tino::launch::prepare;
use tino::logging::Level;
use tino::platform::Task;
use tino::policy::{build_landlock_config_for_args, skipped_notes, unique_ports, Policy};
use tino::report::Failure;
use tino::shebang::{
    env_reference_matches, is_env_interpreter, parse_shebang_interpreter, ExecInterpreter, FileId,
    ShebangArgument,
    EXECVP_FALLBACK_SHELL, LINUX_BINPRM_BUF_SIZE,
};
use tino::shown::parse_shebang_exec_paths;
use tino::{run, Cli};

/// A file of a made-up system.
#[derive(Clone)]
struct Entry {
    path: &'static str,
    target: &'static str,
    kind: FileKind,
    executable: bool,
    content: Vec<u8>,
}

fn file(path: &'static str, content: &[u8]) -> Entry {
    Entry {
        path,
        target: path,
        kind: FileKind::Regular,
        executable: true,
        content: content.to_vec(),
    }
}

fn dir(path: &'static str) -> Entry {
    Entry {
        path,
        target: path,
        kind: FileKind::Directory,
        executable: true,
        content: Vec::new(),
    }
}

fn system() -> Vec<Entry> {
    vec![
        dir("/"),
        dir("/tmp"),
        dir("/dev"),
        file("/bin/sh", &minimal_elf64_with_interpreter(256, b"/lib/ld.so")),
        file("/usr/bin/env", &minimal_elf64_with_interpreter(256, b"/lib/ld.so")),
        file("/lib/ld.so", &static_elf64()),
    ]
}

fn not_found() -> Failure {
    Failure {
        errno: 2,
        text: "No such file or directory (os error 2)".into(),
    }
}

fn find_entry<'a>(files: &'a [Entry], path: &[u8]) -> Option<&'a Entry> {
    let path = String::from_utf8_lossy(path).into_owned();
    let path = path.trim_end_matches('/').to_string();
    let path = if path.is_empty() { "/".to_string() } else { path };
    let entry = files.iter().find(|entry| entry.path == path)?;
    files.iter().find(|other| other.path == entry.target)
}

fn reply(files: &[Entry], question: &Question) -> Reply {
    let path = match question {
        Question::Open(path)
        | Question::OpenDirectory(path)
        | Question::Look(path)
        | Question::Access(path)
        | Question::Head(path)
        | Question::Elf(path)
        | Question::Directory(path) => path,
    };
    let Some(entry) = find_entry(files, path) else {
        return match question {
            Question::Directory(_) => Reply::Directory(None),
            _ => Reply::Failed(not_found()),
        };
    };
    let facts = FileFacts {
        kind: entry.kind,
        executable: entry.executable,
    };
    let opened = Reply::Opened {
        path: entry.path.as_bytes().to_vec(),
        facts,
        env: entry.path == "/usr/bin/env",
    };
    match question {
        Question::Open(_) => opened,
        Question::OpenDirectory(_) => match entry.kind {
            FileKind::Directory => opened,
            _ => Reply::Failed(Failure {
                errno: 20,
                text: "Not a directory (os error 20)".into(),
            }),
        },
        Question::Look(_) => Reply::Facts(facts),
        Question::Access(_) => Reply::Access(true),
        Question::Head(_) => Reply::Bytes(entry.content.clone()),
        Question::Elf(_) => Reply::Elf(read_elf_interpreter(&entry.content, Arch::X86_64, true)),
        Question::Directory(_) => Reply::Directory(match entry.kind {
            FileKind::Directory => Some(entry.path.as_bytes().to_vec()),
            _ => None,
        }),
    }
}

fn environment(vars: &[(&str, &[u8])]) -> Environment {
    let mut env = Environment::new();
    for (name, value) in vars {
        env.insert(name.as_bytes().to_vec(), value.to_vec());
    }
    env
}

fn world(vars: &[(&str, &[u8])]) -> World {
    World {
        context: ExecContext {
            environment: environment(vars),
            cwd: None,
        },
        default_path: b"/bin:/usr/bin".to_vec(),
        realtime: realtime_range(),
        facts: Vec::new(),
    }
}

fn learn(w: &mut World, files: &[Entry], question: Question) {
    assert!(w.find(&question).is_none(), "asked twice: {question:?}");
    let reply = reply(files, &question);
    w.facts.push(Fact { question, reply });
}

fn ask<T>(w: &mut World, files: &[Entry], f: impl Fn(&World) -> Find<T>) -> Result<T, Error> {
    loop {
        match f(w) {
            Find::Need(question) => learn(w, files, question),
            Find::Fail(e) => return Err(e),
            Find::Found(x) => return Ok(x),
        }
    }
}

fn shown_paths_with(vars: &[(&str, &[u8])], files: &[Entry], bytes: &[u8]) -> Vec<String> {
    let mut w = world(vars);
    ask(&mut w, files, |w| parse_shebang_exec_paths(w, bytes)).unwrap()
}

fn shown_paths(bytes: &[u8]) -> Vec<String> {
    shown_paths_with(&[("PATH", b"/usr/bin:/bin")], &system(), bytes)
}

fn follow(
    files: &[Entry],
    vars: &[(&str, &[u8])],
    raw: &str,
    strict: bool,
) -> (Vec<String>, Result<(), Error>, Vec<String>) {
    let mut w = world(vars);
    loop {
        let mut found = Discovery::new();
        let outcome = if strict {
            insert_landlock_exec_path(&w, &mut found, raw)
        } else {
            insert_landlock_main_exec_path(&w, &mut found, raw)
        };
        let result = match outcome {
            Outcome::Need(question) => {
                learn(&mut w, files, question);
                continue;
            }
            Outcome::Done => Ok(()),
            Outcome::Failed(e) => Err(e),
        };
        let paths = found
            .paths
            .iter()
            .map(|path| String::from_utf8_lossy(path).into_owned())
            .collect();
        return (paths, result, found.notes);
    }
}

fn policy(cli: &Cli, files: &[Entry]) -> Result<Option<Policy>, Error> {
    let mut w = world(&[("PATH", b"/usr/bin:/bin")]);
    let cmd = resolve_command_args(&cli.cmd, cli.expand_env, &w.context.environment)?;
    ask(&mut w, files, |w| build_landlock_config_for_args(w, cli, &cmd))
}

fn minimal_elf64() -> Vec<u8> {
    let mut bytes = vec![0u8; 120];
    bytes[0..4].copy_from_slice(b"\x7FELF");
    bytes[4] = 2;
    bytes[5] = 1;
    bytes[16..18].copy_from_slice(&2u16.to_le_bytes());
    let machine = executable_elf_machines(Arch::X86_64).first().copied().unwrap_or(62);
    bytes[18..20].copy_from_slice(&machine.to_le_bytes());
    bytes[32..40].copy_from_slice(&64u64.to_le_bytes());
    bytes[54..56].copy_from_slice(&56u16.to_le_bytes());
    bytes[56..58].copy_from_slice(&1u16.to_le_bytes());
    bytes
}

fn static_elf64() -> Vec<u8> {
    let mut bytes = minimal_elf64();
    set_minimal_elf64_load_segment(&mut bytes, 0x0040_0000, 1, 1, 1);
    bytes
}

fn minimal_elf64_with_interpreter(interpreter_offset: usize, interpreter: &[u8]) -> Vec<u8> {
    let filesz = interpreter.len() + 1;
    let mut bytes = minimal_elf64();
    let interp_ph = 64 + 56;
    bytes.resize((interp_ph + 56).max(interpreter_offset + filesz), 0);
    bytes[56..58].copy_from_slice(&2u16.to_le_bytes());
    set_minimal_elf64_load_segment(&mut bytes, 0x0040_0000, 1, 1, 1);
    bytes[interp_ph..interp_ph + 4].copy_from_slice(&3u32.to_le_bytes());
    bytes[interp_ph + 8..interp_ph + 16]
        .copy_from_slice(&(interpreter_offset as u64).to_le_bytes());
    bytes[interp_ph + 32..interp_ph + 40].copy_from_slice(&(filesz as u64).to_le_bytes());
    bytes[interpreter_offset..interpreter_offset + interpreter.len()].copy_from_slice(interpreter);
    bytes
}

fn set_minimal_elf64_load_segment(
    bytes: &mut [u8],
    vaddr: u64,
    filesz: u64,
    memsz: u64,
    flags: u32,
) {
    let load_ph = 64;
    bytes[24..32].copy_from_slice(&vaddr.to_le_bytes());
    bytes[load_ph..load_ph + 4].copy_from_slice(&1u32.to_le_bytes());
    bytes[load_ph + 4..load_ph + 8].copy_from_slice(&flags.to_le_bytes());
    bytes[load_ph + 16..load_ph + 24].copy_from_slice(&vaddr.to_le_bytes());
    bytes[load_ph + 32..load_ph + 40].copy_from_slice(&filesz.to_le_bytes());
    bytes[load_ph + 40..load_ph + 48].copy_from_slice(&memsz.to_le_bytes());
}

fn env_command(argument: &str, context: &ExecContext) -> Result<Option<EnvShebangCommand>, String> {
    let Some(plan) = env_shebang_command(argument, context).map_err(|e| e.to_string())? else {
        return Ok(None);
    };
    let directory = env_chdir(&plan, context).and_then(|path| {
        match reply(&system(), &Question::Directory(path)) {
            Reply::Directory(directory) => directory,
            _ => None,
        }
    });
    Ok(finish_env_shebang_command(&plan, context, directory))
}

#[test]
fn parse_shebang_exec_paths_uses_last_kernel_visible_terminator() {
    let path = format!("/{}", "x".repeat(252));
    let mut bytes = format!("#!{path} ").into_bytes();
    bytes.extend_from_slice(b"ignored\n");

    assert_eq!(bytes[LINUX_BINPRM_BUF_SIZE - 1], b' ');
    assert_eq!(shown_paths(&bytes), vec![path]);
}

#[test]
fn parse_shebang_exec_paths_falls_back_after_kernel_buffer() {
    let path = format!("/{}", "x".repeat(253));
    let mut bytes = format!("#!{path} ").into_bytes();
    bytes.extend_from_slice(b"ignored\n");

    assert_eq!(bytes[LINUX_BINPRM_BUF_SIZE], b' ');
    assert_eq!(
        shown_paths(&bytes),
        vec![EXECVP_FALLBACK_SHELL]
    );
}

#[test]
fn parse_shebang_exec_paths_detects_direct_interpreter() {
    assert_eq!(
        shown_paths(b"#!/bin/sh -e\necho ok\n"),
        vec!["/bin/sh"]
    );
    assert_eq!(
        shown_paths(b"#!interp -e\necho ok\n"),
        vec!["./interp"]
    );
    assert_eq!(
        shown_paths(b"#!./interp -e\necho ok\n"),
        vec!["./interp"]
    );
    assert_eq!(
        shown_paths(b"#!/bin/sh \xff\n"),
        vec!["/bin/sh"]
    );
    assert_eq!(
        shown_paths(b"#!/bin/sh\r\n"),
        vec!["/bin/sh\r"]
    );
    assert_eq!(shown_paths(b"#! \t\r\n"), vec!["./\r"]);
}

#[test]
fn parse_shebang_truncates_full_buffer_arguments_before_last_byte() {
    let prefix = b"#!/usr/bin/env -S ";
    let mut bytes = prefix.to_vec();
    bytes.resize(LINUX_BINPRM_BUF_SIZE - b"/bin/shX".len(), b' ');
    bytes.extend_from_slice(b"/bin/shX");
    bytes.push(b'\n');
    assert_eq!(
        shown_paths(&bytes),
        vec!["/usr/bin/env", "/bin/sh"]
    );

    // A newline in the last buffer byte retains the preceding character.
    bytes[LINUX_BINPRM_BUF_SIZE - 1] = b'\n';
    assert_eq!(
        shown_paths(&bytes),
        vec!["/usr/bin/env", "/bin/sh"]
    );
}

#[test]
fn parse_shebang_exec_paths_detects_env_command() {
    assert_eq!(
        shown_paths(b"#!/usr/bin/env python3\nprint('ok')\n"),
        vec!["/usr/bin/env", "python3"]
    );
    assert_eq!(
        shown_paths(b"#!/usr/bin/env python\xff\nprint('ok')\n"),
        vec!["/usr/bin/env", "env shebang argument is not valid UTF-8"]
    );
    assert_eq!(
        shown_paths(b"#!/bin/env python3\nprint('ok')\n"),
        vec!["/bin/env", "python3"]
    );
    assert_eq!(
        shown_paths(b"#!/opt/app/env python3\nprint('ok')\n"),
        vec!["/opt/app/env"]
    );
    assert_eq!(
        shown_paths(b"#!env python3\nprint('ok')\n"),
        vec!["./env"]
    );
}

#[test]
fn env_shebang_detection_is_conservative() {
    assert!(is_env_interpreter(b"/usr/bin/env"));
    assert!(is_env_interpreter(b"/bin/env"));
    assert!(!is_env_interpreter(b"/opt/app/env"));
    assert!(!is_env_interpreter(b"env"));
    assert!(!is_env_interpreter(b"./env"));
}

#[test]
fn parse_shebang_exec_paths_detects_env_split_command() {
    assert_eq!(
        shown_paths(b"#!/usr/bin/env -S python3 -u\nprint('ok')\n"),
        vec!["/usr/bin/env", "python3"]
    );
    assert_eq!(
        shown_paths(b"#!/usr/bin/env -vS python3 -u\nprint('ok')\n"),
        vec!["/usr/bin/env", "python3"]
    );
    assert_eq!(
        shown_paths(b"#!/usr/bin/env -iS /bin/sh\nexit 0\n"),
        vec!["/usr/bin/env", "/bin/sh"]
    );
    assert_eq!(
        shown_paths(b"#!/usr/bin/env -viS /bin/sh\nexit 0\n"),
        vec!["/usr/bin/env", "/bin/sh"]
    );
    assert_eq!(
        shown_paths(b"#!/usr/bin/env -ivS /bin/sh\nexit 0\n"),
        vec!["/usr/bin/env", "/bin/sh"]
    );
}

#[test]
fn parse_shebang_exec_paths_detects_env_options_and_assignments() {
    assert_eq!(
        shown_paths(
            b"#!/usr/bin/env -S -u OLD SERVICE_ENV=test python3 -u\nprint('ok')\n"
        ),
        vec!["/usr/bin/env", "python3"]
    );
    assert_eq!(
        shown_paths(
            b"#!/usr/bin/env -S SERVICE_ENV=test -u OLD python3 -u\nprint('ok')\n"
        ),
        vec!["/usr/bin/env", "-u"]
    );
    assert_eq!(
        shown_paths(b"#!/usr/bin/env --split-string=--chdir /tmp /bin/sh\n"),
        vec!["/usr/bin/env", "/bin/sh"]
    );
    assert_eq!(
        shown_paths(b"#!/usr/bin/env --spl=/bin/sh\n"),
        vec!["/usr/bin/env", "/bin/sh"]
    );
    assert_eq!(
        shown_paths(b"#!/usr/bin/env -S --spl=/bin/sh -c true\n"),
        vec!["/usr/bin/env", "/bin/sh"]
    );
    assert_eq!(
        shown_paths(b"#!/usr/bin/env -S --spl /bin/sh -c true\n"),
        vec!["/usr/bin/env", "/bin/sh"]
    );
    assert_eq!(
        shown_paths(b"#!/usr/bin/env -S --chd / PATH=bin sh -c true\n"),
        vec!["/usr/bin/env", "/bin/sh"]
    );
    assert_eq!(
        shown_paths(b"#!/usr/bin/env -S --un PATH /bin/sh -c true\n"),
        vec!["/usr/bin/env", "/bin/sh"]
    );
    assert_eq!(
        shown_paths(b"#!/usr/bin/env -S --deb --lis /bin/sh -c true\n"),
        vec!["/usr/bin/env", "/bin/sh"]
    );
    assert_eq!(
        shown_paths(b"#!/usr/bin/env -S -- NAME=value -tool --flag\n"),
        vec!["/usr/bin/env", "-tool"]
    );
    assert_eq!(
        shown_paths(b"#!/usr/bin/env -S -iu OLD /bin/sh -c true\n"),
        vec!["/usr/bin/env", "/bin/sh"]
    );
    assert_eq!(
        shown_paths(b"#!/usr/bin/env -S -ia NAME /bin/sh -c true\n"),
        vec!["/usr/bin/env", "/bin/sh"]
    );
    assert_eq!(
        shown_paths(
            b"#!/usr/bin/env -S --block-signal=TERM,15,015,SIG15 /bin/sh -c true\n"
        ),
        vec!["/usr/bin/env", "/bin/sh"]
    );
    assert_eq!(
        shown_paths(
            b"#!/usr/bin/env -S --block-signal=STOP --default-signal=TERM /bin/sh\n"
        ),
        vec!["/usr/bin/env", "/bin/sh"]
    );
    assert_eq!(
        shown_paths(
            b"#!/usr/bin/env -S --block-signal=CHLD,XCPU,RTMIN+1,RTMAX-1 /bin/sh\n"
        ),
        vec!["/usr/bin/env", "/bin/sh"]
    );
    assert_eq!(
        shown_paths(
            b"#!/usr/bin/env -S --default-signal=CHLD --ignore-signal=URG /bin/sh\n"
        ),
        vec!["/usr/bin/env", "/bin/sh"]
    );
}

#[test]
fn parse_shebang_exec_paths_ignores_invalid_env_options() {
    assert_eq!(
        shown_paths(b"#!/usr/bin/env -S --not-an-env-option /bin/sh\n"),
        vec!["/usr/bin/env"]
    );
    assert_eq!(
        shown_paths(b"#!/usr/bin/env -S --ignore /bin/sh\n"),
        vec!["/usr/bin/env"]
    );
    assert_eq!(
        shown_paths(b"#!/usr/bin/env -S --d /bin/sh\n"),
        vec!["/usr/bin/env"]
    );
    assert_eq!(
        shown_paths(b"#!/usr/bin/env -S --debug=value /bin/sh\n"),
        vec!["/usr/bin/env"]
    );
    assert_eq!(
        shown_paths(b"#!/usr/bin/env -S --ver /bin/sh\n"),
        vec!["/usr/bin/env"]
    );
    assert_eq!(
        shown_paths(b"#!/usr/bin/env -S -q /bin/sh\n"),
        vec!["/usr/bin/env"]
    );
    assert_eq!(
        shown_paths(b"#!/usr/bin/env -S --help /bin/sh\n"),
        vec!["/usr/bin/env"]
    );
    assert_eq!(
        shown_paths(b"#!/usr/bin/env -S -0 /bin/sh\n"),
        vec!["/usr/bin/env"]
    );
    assert_eq!(
        shown_paths(b"#!/usr/bin/env -S --unset= /bin/sh\n"),
        vec!["/usr/bin/env"]
    );
    assert_eq!(
        shown_paths(b"#!/usr/bin/env -S --unset = /bin/sh\n"),
        vec!["/usr/bin/env"]
    );
    assert_eq!(
        shown_paths(b"#!/usr/bin/env -S -u= /bin/sh\n"),
        vec!["/usr/bin/env"]
    );
    assert_eq!(
        shown_paths(
            br"#!/usr/bin/env -S --chdir '' /bin/sh
"
        ),
        vec!["/usr/bin/env"]
    );
    assert_eq!(
        shown_paths(
            br"#!/usr/bin/env -S -C '' /bin/sh
"
        ),
        vec!["/usr/bin/env"]
    );
    assert_eq!(
        shown_paths(
            b"#!/usr/bin/env -S --chdir /definitely/missing/tino-env-chdir /bin/sh\n"
        ),
        vec!["/usr/bin/env"]
    );
    assert_eq!(
        shown_paths(
            b"#!/usr/bin/env -S -C /definitely/missing/tino-env-chdir /bin/sh\n"
        ),
        vec!["/usr/bin/env"]
    );
    assert_eq!(
        shown_paths(b"#!/usr/bin/env -S --block-signal=NOPE /bin/sh\n"),
        vec!["/usr/bin/env"]
    );
    assert_eq!(
        shown_paths(b"#!/usr/bin/env -S --default-signal=0 /bin/sh\n"),
        vec!["/usr/bin/env"]
    );
    assert_eq!(
        shown_paths(b"#!/usr/bin/env -S --block-signal=+15 /bin/sh\n"),
        vec!["/usr/bin/env"]
    );
    assert_eq!(
        shown_paths(b"#!/usr/bin/env -S --block-signal=SIG+15 /bin/sh\n"),
        vec!["/usr/bin/env"]
    );
    assert_eq!(
        shown_paths(b"#!/usr/bin/env -S --block-signal=32 /bin/sh\n"),
        vec!["/usr/bin/env"]
    );
    assert_eq!(
        shown_paths(b"#!/usr/bin/env -S --default-signal=33 /bin/sh\n"),
        vec!["/usr/bin/env"]
    );
    assert_eq!(
        shown_paths(b"#!/usr/bin/env -S --ignore-signal=KILL /bin/sh\n"),
        vec!["/usr/bin/env"]
    );
    assert_eq!(
        shown_paths(b"#!/usr/bin/env -S --default-signal=STOP /bin/sh\n"),
        vec!["/usr/bin/env"]
    );
    assert_eq!(
        shown_paths(b"#!/usr/bin/env -S --block-signal=RTMIN+99 /bin/sh\n"),
        vec!["/usr/bin/env"]
    );
    assert_eq!(
        shown_paths(b"#!/usr/bin/env -S --block-signal=RTMAX-99 /bin/sh\n"),
        vec!["/usr/bin/env"]
    );
    assert_eq!(
        shown_paths(b"#!/usr/bin/env -S --block-signal=RTMIN+-1 /bin/sh\n"),
        vec!["/usr/bin/env"]
    );
    assert_eq!(
        shown_paths(b"#!/usr/bin/env -S --block-signal=RTMIN++1 /bin/sh\n"),
        vec!["/usr/bin/env"]
    );
    assert_eq!(
        shown_paths(b"#!/usr/bin/env -S --block-signal=RTMAX--1 /bin/sh\n"),
        vec!["/usr/bin/env"]
    );
    assert_eq!(
        shown_paths(b"#!/usr/bin/env -S --block-signal=RTMAX-+1 /bin/sh\n"),
        vec!["/usr/bin/env"]
    );
}

#[test]
fn parse_shebang_exec_paths_keeps_env_argument_without_split() {
    assert_eq!(
        shown_paths(b"#!/usr/bin/env python3 -u\nprint('ok')\n"),
        vec!["/usr/bin/env", "python3 -u"]
    );
}

#[test]
fn parse_shebang_exec_paths_handles_env_split_quotes() {
    assert_eq!(
        shown_paths(
            br#"#!/usr/bin/env -S --argv0 "shell alias" /bin/sh -e
"#
        ),
        vec!["/usr/bin/env", "/bin/sh"]
    );
    assert_eq!(
        shown_paths(
            br"#!/usr/bin/env -S python3\_-u
"
        ),
        vec!["/usr/bin/env", "python3"]
    );
    assert_eq!(
        shown_paths(
            br#"#!/usr/bin/env -S "/bin/with\_space" -e
"#
        ),
        vec!["/usr/bin/env", "/bin/with space"]
    );
}

#[test]
fn parse_shebang_exec_paths_ignores_invalid_env_split_string() {
    assert_eq!(
        shown_paths(
            br"#!/usr/bin/env -S /bin/sh\ x
"
        ),
        vec!["/usr/bin/env"]
    );
    assert_eq!(
        shown_paths(
            br#"#!/usr/bin/env -S "/bin/sh -e
"#
        ),
        vec!["/usr/bin/env"]
    );
    assert_eq!(
        shown_paths(
            br"#!/usr/bin/env -S # /bin/sh
"
        ),
        vec!["/usr/bin/env"]
    );
    assert_eq!(
        shown_paths(
            br"#!/usr/bin/env -S $TINO_TEST_ENV_SHEBANG_COMMAND /bin/sh
"
        ),
        vec!["/usr/bin/env"]
    );
    assert_eq!(
        shown_paths(
            br"#!/usr/bin/env -S ${TINO_TEST_ENV_SHEBANG_COMMAND:-/bin/sh}
"
        ),
        vec!["/usr/bin/env"]
    );
}

#[test]
fn parse_shebang_exec_paths_stops_env_option_parsing_after_assignment() {
    assert_eq!(
        shown_paths(b"#!/usr/bin/env -S FOO=bar -i tool\n"),
        vec!["/usr/bin/env", "-i"]
    );
    assert_eq!(
        shown_paths(b"#!/usr/bin/env -S PATH=/tmp --chdir / tool\n"),
        vec!["/usr/bin/env", "--chdir"]
    );
}

#[test]
fn parse_elf_interpreter_rejects_overflowing_program_header_offset() {
    let mut bytes = minimal_elf64();
    bytes[32..40].copy_from_slice(&u64::MAX.to_le_bytes());

    let err = parse_elf_interpreter(&bytes).expect_err("overflowing program header offset");
    let message = err.report();
    assert!(
        message.contains("ELF program header offset overflow"),
        "unexpected error: {message}"
    );
}

#[test]
fn parse_elf_interpreter_rejects_tiny_program_header_entries() {
    let mut bytes = minimal_elf64();
    bytes[54..56].copy_from_slice(&1u16.to_le_bytes());

    let err = parse_elf_interpreter(&bytes).expect_err("tiny program header entry");
    let message = err.report();
    assert!(
        message.contains("ELF program header entry too small"),
        "unexpected error: {message}"
    );
}

#[test]
fn parse_elf_interpreter_rejects_overflowing_interpreter_segment() {
    let mut bytes = minimal_elf64();
    let ph = 64;
    bytes[ph..ph + 4].copy_from_slice(&3u32.to_le_bytes());
    bytes[ph + 8..ph + 16].copy_from_slice(&u64::MAX.to_le_bytes());
    bytes[ph + 32..ph + 40].copy_from_slice(&16u64.to_le_bytes());

    let err = parse_elf_interpreter(&bytes).expect_err("overflowing interpreter segment");
    let message = err.report();
    assert!(
        message.contains("ELF interpreter segment offset overflow"),
        "unexpected error: {message}"
    );
}

#[test]
fn parse_elf_interpreter_rejects_unterminated_interpreter_path() {
    let interpreter = b"/lib64/ld-linux-x86-64.so.2";
    let mut bytes = minimal_elf64_with_interpreter(256, interpreter);
    let interp_ph = 64 + 56;
    bytes[interp_ph + 32..interp_ph + 40]
        .copy_from_slice(&(interpreter.len() as u64).to_le_bytes());

    let err = parse_elf_interpreter(&bytes).expect_err("unterminated interpreter must fail");
    let message = err.report();

    assert!(
        message.contains("ELF interpreter path is not NUL-terminated"),
        "unexpected error: {message}"
    );
}

#[test]
fn env_shebang_dash_ends_options_and_clears_environment() {
    let mut context = world(&[("PATH", b"/usr/bin:/bin")]).context;
    context
        .environment
        .insert(b"TINO_INHERITED".to_vec(), b"present".to_vec());
    for (argument, expected, assigned) in [
        ("-S -- - NAME=value /bin/sh", "/bin/sh", true),
        ("-S - NAME=value /bin/sh", "/bin/sh", true),
        ("-S - -u PATH /bin/true", "-u", false),
        ("-S - -- /bin/true", "--", false),
        ("-S -- - - /bin/true", "-", false),
    ] {
        let command = env_command(argument, &context)
            .expect("parse env arguments")
            .expect("find command after env dash");
        assert_eq!(command.command, expected, "{argument}");
        let expected_environment = if assigned {
            environment(&[("NAME", b"value")])
        } else {
            environment(&[])
        };
        assert!(
            command.context.environment.same(&expected_environment),
            "{argument}"
        );
    }
}

#[test]
fn env_split_string_matches_gnu_quote_escapes() {
    let context = world(&[]).context;
    for (raw, expected) in [
        (r"'/bin/with\'quote'", "/bin/with'quote"),
        (r"'/bin/with\\slash'", r"/bin/with\slash"),
        (r"'/bin/with\_space'", r"/bin/with\_space"),
        (r"'/bin/with\cvalue'", r"/bin/with\cvalue"),
        (r#""/bin/with\\slash""#, r"/bin/with\slash"),
    ] {
        assert_eq!(
            split_env_split_string(raw, &context),
            Some(vec![expected.to_owned()]),
            "{raw:?}"
        );
    }
    for raw in [r"/bin/with\avalue", r"/bin/with\bvalue", r#""/bin/sh\c""#] {
        assert_eq!(split_env_split_string(raw, &context), None, "{raw:?}");
    }
}

#[test]
fn env_split_string_cycles_are_bounded() {
    let mut context = world(&[]).context;
    for value in ["-S ${TINO_SPLIT_LOOP}", "--split-string=${TINO_SPLIT_LOOP}"] {
        context
            .environment
            .insert(b"TINO_SPLIT_LOOP".to_vec(), value.as_bytes().to_vec());
        assert_eq!(
            env_shebang_command("-S ${TINO_SPLIT_LOOP}", &context).map(|_| ()),
            Err("env split-string expansion exceeds 32 steps")
        );
    }
}

#[test]
fn nested_env_split_strings_keep_options_and_inherited_expansion_context() {
    let context = world(&[
        ("TINO_SPLIT_FIRST", b"-S ${TINO_SPLIT_SECOND}"),
        ("TINO_SPLIT_SECOND", b"/bin/sh"),
    ])
    .context;
    let command = env_command("-S -i -C /tmp ${TINO_SPLIT_FIRST} -e", &context)
        .expect("bounded split expansion")
        .expect("resolved command");
    assert_eq!(command.command, "/bin/sh");
    assert_eq!(command.context.cwd.as_deref(), Some(&b"/tmp"[..]));
    assert!(command.context.environment.same(&environment(&[])));
}

#[test]
fn env_chdir_applies_final_option_relative_to_inherited_directory() {
    let context = ExecContext {
        environment: environment(&[]),
        cwd: Some(b"/".to_vec()),
    };
    let command = env_command("-S -C missing -C tmp /bin/sh", &context)
        .unwrap()
        .unwrap();
    assert_eq!(command.context.cwd, Some(b"/tmp".to_vec()));
    assert!(env_command("-S -C tmp -C '' /bin/sh", &context)
        .unwrap()
        .is_none());
}

#[test]
fn parse_shebang_exec_paths_handles_env_split_variables() {
    let vars: &[(&str, &[u8])] = &[("NAME", b"/bin/sh")];
    assert_eq!(
        shown_paths_with(vars, &system(), b"#!/usr/bin/env -S ${NAME} -c true\n"),
        vec!["/usr/bin/env", "/bin/sh"]
    );
    assert_eq!(
        shown_paths_with(vars, &system(), b"#!/usr/bin/env -S '${NAME}' -c true\n"),
        vec!["/usr/bin/env", "${NAME}"]
    );
}

#[test]
fn parse_shebang_exec_paths_expands_env_split_variables_before_environment_changes() {
    let vars: &[(&str, &[u8])] = &[("NAME", b"/bin/sh")];
    assert_eq!(
        shown_paths_with(vars, &system(), b"#!/usr/bin/env -iS ${NAME} /bin/echo\n"),
        vec!["/usr/bin/env", "/bin/sh"]
    );
    assert_eq!(
        shown_paths_with(vars, &system(), b"#!/usr/bin/env -S -u NAME -S ${NAME} /bin/echo\n"),
        vec!["/usr/bin/env", "/bin/sh"]
    );
}

#[test]
fn parse_shebang_exec_paths_omits_unset_env_split_variables() {
    assert_eq!(
        shown_paths(b"#!/usr/bin/env -S ${NAME} /bin/sh\n"),
        vec!["/usr/bin/env", "/bin/sh"]
    );
}

#[test]
fn parse_shebang_exec_paths_preserves_empty_env_split_variables() {
    let vars: &[(&str, &[u8])] = &[("NAME", b"")];
    assert_eq!(
        shown_paths_with(vars, &system(), b"#!/usr/bin/env -S ${NAME} /bin/sh\n"),
        vec!["/usr/bin/env", ""]
    );
}

#[test]
fn parse_shebang_exec_paths_keeps_env_split_variable_values_atomic() {
    let vars: &[(&str, &[u8])] = &[("NAME", b"/bin/sh -c")];
    assert_eq!(
        shown_paths_with(vars, &system(), b"#!/usr/bin/env -S ${NAME} true\n"),
        vec!["/usr/bin/env", "/bin/sh -c"]
    );
}

#[test]
fn parse_shebang_exec_paths_rejects_non_utf8_env_split_variables() {
    let vars: &[(&str, &[u8])] = &[("NAME", &[0xff])];
    assert_eq!(
        shown_paths_with(vars, &system(), b"#!/usr/bin/env -S ${NAME} /bin/sh\n"),
        vec!["/usr/bin/env"]
    );
}

#[test]
fn parse_shebang_exec_paths_uses_env_path_assignment() {
    let mut files = system();
    files.push(file("/root/bin/python3", b"fake python\n"));
    assert_eq!(
        shown_paths_with(
            &[],
            &files,
            b"#!/usr/bin/env -S -i PATH=/root/bin python3 -u\nprint('ok')\n"
        ),
        vec!["/usr/bin/env", "/root/bin/python3"]
    );
    assert_eq!(
        shown_paths_with(
            &[],
            &files,
            b"#!/usr/bin/env -S -- PATH=/root/bin python3 -u\nprint('ok')\n"
        ),
        vec!["/usr/bin/env", "/root/bin/python3"]
    );
}

#[test]
fn write_no_dev_alone_does_not_request_write_restriction() {
    let cli = Cli {
        write_no_dev: true,
        ..Cli::default()
    };

    assert!(policy(&cli, &system()).unwrap().is_none());
}

#[test]
fn write_no_dev_modifies_write_restriction_when_requested() {
    let cli = Cli {
        write_restrict: true,
        write_no_dev: true,
        ..Cli::default()
    };

    let config = policy(&cli, &system())
        .unwrap()
        .expect("write restriction config")
        .config;
    assert!(config.write_requested);
    assert!(config.no_dev);
    assert!(config.dev_dir.is_none());
}

#[test]
fn build_landlock_config_rejects_manual_zero_tcp_ports() {
    for cli in [
        Cli {
            bind_tcp_allow: vec![0],
            ..Cli::default()
        },
        Cli {
            connect_tcp_allow: vec![0],
            ..Cli::default()
        },
    ] {
        let Err(err) = policy(&cli, &system()) else {
            panic!("zero TCP port must fail");
        };
        let message = err.report();

        assert!(
            message.contains("expected 1-65535"),
            "unexpected zero-port error: {message}"
        );
    }
}

#[test]
fn build_landlock_config_rejects_paths_with_surrounding_whitespace() {
    let cases = [
        (
            Cli {
                write_allow: vec![" /tmp".into()],
                ..Cli::default()
            },
            "--write-allow PATH cannot have surrounding whitespace",
        ),
        (
            Cli {
                exec_allow: vec!["/bin/sh ".into()],
                ..Cli::default()
            },
            "--exec-allow PATH cannot have surrounding whitespace",
        ),
        (
            Cli {
                device_ioctl_allow: vec![" /dev/null ".into()],
                ..Cli::default()
            },
            "--device-ioctl-allow PATH cannot have surrounding whitespace",
        ),
    ];

    for (cli, expected) in cases {
        let Err(err) = policy(&cli, &system()) else {
            panic!("path with surrounding whitespace must fail");
        };
        let message = err.report();

        assert!(
            message.contains(expected),
            "unexpected path whitespace error: {message}"
        );
    }
}

#[test]
fn build_landlock_config_rejects_relative_allow_paths() {
    let cases = [
        (
            Cli {
                write_allow: vec!["logs".into()],
                ..Cli::default()
            },
            "--write-allow PATH must be absolute",
        ),
        (
            Cli {
                exec_allow: vec!["./service".into()],
                ..Cli::default()
            },
            "--exec-allow PATH must be absolute when it contains '/'",
        ),
        (
            Cli {
                device_ioctl_allow: vec!["dev/null".into()],
                ..Cli::default()
            },
            "--device-ioctl-allow PATH must be absolute",
        ),
    ];

    for (cli, expected) in cases {
        let Err(err) = policy(&cli, &system()) else {
            panic!("relative landlock allow path must fail");
        };
        let message = err.report();

        assert!(
            message.contains(expected),
            "unexpected relative allow path error: {message}"
        );
    }
}

#[test]
fn write_allow_missing_path_escapes_control_bytes() {
    let cli = Cli {
        write_allow: vec!["/definitely/missing/tino-\u{1b}[31m".into()],
        ..Cli::default()
    };

    let Err(err) = policy(&cli, &system()) else {
        panic!("missing write allow path must fail");
    };
    let message = err.report();

    assert!(message.contains(r"\x1b"));
    assert!(!message.contains('\u{1b}'));
}

#[test]
fn device_ioctl_allow_missing_path_escapes_control_bytes() {
    let cli = Cli {
        device_ioctl_allow: vec!["/definitely/missing/tino-\u{1b}[31m".into()],
        ..Cli::default()
    };

    let Err(err) = policy(&cli, &system()) else {
        panic!("missing device ioctl allow path must fail");
    };
    let message = err.report();

    assert!(message.contains(r"\x1b"));
    assert!(!message.contains('\u{1b}'));
}

#[test]
fn main_exec_auto_allow_skips_missing_program() {
    let (paths, result, _) = follow(
        &system(),
        &[],
        "/definitely/missing/tino-test-binary",
        false,
    );
    result.expect("missing main program should be left to execvp");

    assert!(paths.is_empty());
}

#[test]
fn explicit_exec_allow_still_rejects_missing_program() {
    let (_, result, _) = follow(&system(), &[], "/definitely/missing/tino-test-binary", true);
    let err = result.expect_err("explicit missing exec allow path must fail");

    assert!(
        err.report().contains("open exec allow path"),
        "unexpected error: {}",
        err.report()
    );
}

#[test]
fn explicit_exec_allow_missing_path_escapes_control_bytes() {
    let (_, result, _) = follow(&system(), &[], "/definitely/missing/tino-\u{1b}[31m", true);
    let err = result.expect_err("explicit missing exec allow path must fail");
    let message = err.report();

    assert!(message.contains(r"\x1b"));
    assert!(!message.contains('\u{1b}'));
}

#[test]
fn explicit_exec_allow_missing_path_command_escapes_control_bytes() {
    let (_, result, _) = follow(&system(), &[], "missing-\u{1b}[31m", true);
    let err = result.expect_err("explicit missing exec allow command must fail");
    let message = err.report();

    assert!(message.contains(r"\u{1b}"));
    assert!(!message.contains('\u{1b}'));
}

#[test]
fn exec_path_resolution_uses_default_path_when_path_unset() {
    let mut w = world(&[]);
    let context = world(&[]).context;
    let found = ask(&mut w, &system(), |w| find_commands(w, "sh", &context)).unwrap();
    assert_eq!(found, vec![b"/bin/sh".to_vec()]);
    for strict in [false, true] {
        let (paths, result, _) = follow(&system(), &[], "sh", strict);
        result.unwrap();
        assert!(paths.contains(&"/bin/sh".to_string()), "{paths:?}");
    }
}

#[test]
fn every_file_of_a_name_is_found_with_its_interpreters() {
    let mut files = system();
    files.push(file("/one/tool", b"#!/usr/bin/env -S helper x\n"));
    files.push(file("/two/tool", b"#!/bin/sh\n"));
    files.push(file("/two/helper", b"#!/two/last\n"));
    files.push(file("/two/last", &static_elf64()));
    let vars: &[(&str, &[u8])] = &[("PATH", b"/one:/two")];
    for strict in [false, true] {
        let (paths, result, notes) = follow(&files, vars, "tool", strict);
        result.unwrap();
        assert_eq!(
            paths,
            [
                "/bin/sh",
                "/lib/ld.so",
                "/one/tool",
                "/two/helper",
                "/two/last",
                "/two/tool",
                "/usr/bin/env"
            ]
        );
        assert!(notes.is_empty());
    }
}

#[test]
fn command_that_is_looked_up_is_allowed() {
    let mut files = system();
    files.push(file("/app/allowed", &static_elf64()));
    let cli = Cli {
        exec_allow: vec!["/app/allowed".into()],
        cmd: vec!["sh".into()],
        ..Cli::default()
    };
    let policy = policy(&cli, &files).unwrap().unwrap();
    assert_eq!(
        policy.config.exec_allow_paths,
        vec![b"/app/allowed".to_vec(), b"/bin/sh".to_vec(), b"/lib/ld.so".to_vec()]
    );
    assert!(policy.notes.is_empty());
}

#[test]
fn what_was_skipped_is_known_after_a_failure() {
    let mut files = system();
    files.push(file("/app/odd", b"#!/app/alias \xff\n"));
    files.push(Entry {
        target: "/usr/bin/env",
        ..file("/app/alias", b"")
    });
    let cli = Cli {
        exec_allow: vec!["/missing".into()],
        cmd: vec!["/app/odd".into()],
        ..Cli::default()
    };
    let mut w = world(&[("PATH", b"/bin")]);
    let err = ask(&mut w, &files, |w| {
        build_landlock_config_for_args(w, &cli, &cli.cmd)
    })
    .unwrap_err();
    assert!(err.report().contains("/missing"), "{}", err.report());
    let notes = skipped_notes(&w, &cli, &cli.cmd);
    assert_eq!(notes.len(), 1, "{notes:?}");
    assert!(notes[0].starts_with("skip interpreter discovery for executable '/app/odd': "));

    let preparation = prepare(&w, &cli);
    assert!(matches!(preparation.outcome, Find::Fail(_)));
    assert_eq!(preparation.log, notes);

    let explained = Cli {
        explain: true,
        ..cli
    };
    match run(&w, explained, &FileContent::NotFound) {
        Task::Report { log, outcome, .. } => {
            assert!(outcome.is_err());
            assert_eq!(log, [(Level::Debug, notes[0].clone())]);
        }
        other => panic!("unexpected: {other:?}"),
    }
}

fn env_options() -> EnvShebangOptions {
    EnvShebangOptions {
        ignore_environment: false,
        unset_names: Vec::new(),
        chdir: None,
        invalid_signal_disposition: false,
    }
}

fn chars(s: &str) -> Vec<char> {
    s.chars().collect()
}

#[test]
fn refused_env_options_leave_the_position() {
    let fields = vec![chars("next")];
    let rt = realtime_range();
    for arg in ["--debug=value", "--ignore-environment=x", "--nope", "--help=x"] {
        let mut idx = 0;
        let mut options = env_options();
        let action = env_long_option_action(&chars(arg), &fields, &mut idx, &mut options, rt);
        assert!(matches!(action, EnvOptionAction::Invalid), "{arg}");
        assert_eq!(idx, 0);
        assert!(!options.ignore_environment);
        assert!(!options.invalid_signal_disposition);
    }

    let mut idx = 0;
    let mut options = env_options();
    let action = env_short_option_action(&chars("-iX"), &fields, &mut idx, &mut options);
    assert!(matches!(action, EnvOptionAction::Invalid));
    assert_eq!(idx, 0);
    assert!(options.ignore_environment);
}

#[test]
fn env_options_behind_the_arguments_take_nothing() {
    let fields = vec![chars("only")];
    let rt = realtime_range();
    for (arg, idx, after) in [
        ("--argv0", 0, 1),
        ("--argv0", 1, 1),
        ("--argv0", 5, 1),
        ("--argv0=x", 5, 5),
        ("--unset", 0, 1),
        ("--unset", 5, 5),
        ("--debug", 5, 5),
    ] {
        let mut at = idx;
        let action =
            env_long_option_action(&chars(arg), &fields, &mut at, &mut env_options(), rt);
        assert!(matches!(action, EnvOptionAction::Continue), "{arg} {idx}");
        assert_eq!(at, after, "{arg} {idx}");
    }
    for (arg, idx, after) in [("-a", 5, 1), ("-ax", 5, 5), ("-u", 5, 5), ("", 5, 5), ("-", 0, 0)] {
        let mut at = idx;
        let action = env_short_option_action(&chars(arg), &fields, &mut at, &mut env_options());
        assert!(matches!(action, EnvOptionAction::Continue), "{arg} {idx}");
        assert_eq!(at, after, "{arg} {idx}");
    }
}

#[test]
fn refused_signal_lists_keep_what_came_before() {
    let rt = realtime_range();
    for (arg, flag) in [
        ("--ignore-signal=KILL,bogus", true),
        ("--ignore-signal=bogus,KILL", false),
        ("--block-signal=KILL,bogus", false),
    ] {
        let mut idx = 0;
        let mut options = env_options();
        let action = env_long_option_action(&chars(arg), &Vec::new(), &mut idx, &mut options, rt);
        assert!(matches!(action, EnvOptionAction::Invalid), "{arg}");
        assert_eq!(options.invalid_signal_disposition, flag, "{arg}");
    }
    let judged = judge_signals(&chars("STOP,"), false, rt, false);
    assert_eq!(judged, SignalList::Accepted { unchangeable: true });
}

#[test]
fn command_is_followed_to_its_interpreters() {
    let mut files = system();
    files.push(file("/app/run", b"#!/usr/bin/env -S PATH=/app tool -x\n"));
    files.push(file("/app/tool", b"#!/bin/sh\n"));
    let (paths, result, notes) = follow(&files, &[], "/app/run", true);
    result.unwrap();
    assert_eq!(
        paths,
        ["/app/run", "/app/tool", "/bin/sh", "/lib/ld.so", "/usr/bin/env"]
    );
    assert!(notes.is_empty());
}

#[test]
fn alias_of_env_is_followed_by_what_it_is() {
    let mut files = system();
    files.push(Entry {
        target: "/usr/bin/env",
        ..file("/app/alias", b"")
    });
    files.push(file("/app/run", b"#!/app/alias -S /app/tool\n"));
    files.push(file("/app/tool", b"#!/bin/sh\n"));
    let (paths, result, _) = follow(&files, &[], "/app/run", true);
    result.unwrap();
    assert!(paths.contains(&"/app/tool".to_string()));
    assert!(!paths.contains(&"/app/alias".to_string()));
}

#[test]
fn missing_interpreter_is_an_error_only_where_it_was_asked_for() {
    let mut files = system();
    files.push(file("/app/run", b"#!/usr/bin/env missing\n"));
    let (_, result, _) = follow(&files, &[], "/app/run", true);
    assert_eq!(
        result.unwrap_err().message(),
        "resolve exec allow path 'missing' from PATH"
    );
    let (paths, result, _) = follow(&files, &[], "/app/run", false);
    result.unwrap();
    assert_eq!(paths, ["/app/run", "/lib/ld.so", "/usr/bin/env"]);
}

#[test]
fn scripts_that_run_each_other_come_to_an_end() {
    let mut files = system();
    files.push(file("/app/a", b"#!/app/b\n"));
    files.push(file("/app/b", b"#!/app/a\n"));
    let (paths, result, _) = follow(&files, &[], "/app/a", true);
    result.unwrap();
    assert_eq!(paths, ["/app/a", "/app/b"]);
}

#[test]
fn other_search_candidates_are_kept_where_one_fails() {
    let mut files = system();
    files.push(file("/one/tool", b"#!/usr/bin/env \xff\n"));
    files.push(file("/two/tool", b"#!/bin/sh\n"));
    let (paths, result, _) = follow(&files, &[("PATH", b"/one:/two")], "tool", true);
    result.unwrap();
    assert_eq!(
        paths,
        ["/bin/sh", "/lib/ld.so", "/one/tool", "/two/tool", "/usr/bin/env"]
    );
}

#[test]
fn policy_holds_what_was_asked_for() {
    let mut files = system();
    files.push(dir("/var/tmp"));
    files.push(Entry {
        kind: FileKind::CharDevice,
        ..file("/dev/null", b"")
    });
    let cli = Cli {
        write_preset: vec![tino::WritePreset::Runtime, tino::WritePreset::Runtime],
        write_allow: vec!["/dev".into()],
        bind_tcp_allow: vec![443, 80, 443],
        device_ioctl_allow: vec!["/dev/null".into()],
        exec_allow: vec!["sh".into()],
        cmd: vec!["/bin/sh".into()],
        ..Cli::default()
    };
    let config = policy(&cli, &files).unwrap().unwrap().config;
    assert_eq!(config.preset_names, ["runtime"]);
    assert_eq!(
        config.writable_dirs,
        [b"/dev".to_vec(), b"/tmp".to_vec(), b"/var/tmp".to_vec()]
    );
    assert_eq!(config.dev_dir, Some(b"/dev".to_vec()));
    assert_eq!(config.bind_tcp_ports, [80, 443]);
    assert!(config.exec_requested);
    assert_eq!(config.exec_allow_paths, [b"/bin/sh".to_vec(), b"/lib/ld.so".to_vec()]);
    assert_eq!(config.device_ioctl_allow_paths, [b"/dev/null".to_vec()]);

    let file_as_device = Cli {
        device_ioctl_allow: vec!["/bin/sh".into()],
        ..Cli::default()
    };
    assert!(policy(&file_as_device, &files)
        .unwrap_err()
        .message()
        .contains("neither a directory nor a device node"));
    let file_as_dir = Cli {
        write_allow: vec!["/bin/sh".into()],
        ..Cli::default()
    };
    assert_eq!(
        policy(&file_as_dir, &files).unwrap_err().report(),
        "open write allow path '/bin/sh'\ncaused by: Not a directory (os error 20)"
    );
}

#[test]
fn ports_are_sorted_and_unique() {
    assert_eq!(unique_ports("--x", &vec![9, 3, 9, 1]).unwrap(), [1, 3, 9]);
    assert_eq!(
        unique_ports("--x", &vec![1, 0]).unwrap_err().message(),
        "invalid value for --x: 0 (expected 1-65535)"
    );
}

#[test]
fn failed_looks_are_reported_with_their_place() {
    let mut w = world(&[]);
    let context = world(&[]).context;
    w.facts.push(Fact {
        question: Question::Head(b"/x".to_vec()),
        reply: Reply::Bytes(b"\x7fELF".to_vec()),
    });
    w.facts.push(Fact {
        question: Question::Elf(b"/x".to_vec()),
        reply: Reply::ElfFailed(
            ElfStage::ProgramHeaders,
            Failure {
                errno: 5,
                text: "Input/output error".into(),
            },
        ),
    });
    match detect_exec_interpreters_in_context(&w, b"/x", &context) {
        Find::Fail(e) => assert_eq!(
            e.report(),
            "read ELF program headers '/x'\ncaused by: Input/output error"
        ),
        other => panic!("unexpected: {other:?}"),
    }
    w.facts.push(Fact {
        question: Question::Head(b"/y".to_vec()),
        reply: Reply::Bytes(b"text".to_vec()),
    });
    match detect_exec_interpreters_in_context(&w, b"/y", &context) {
        Find::Found(list) => assert!(matches!(
            &list[..],
            [ExecInterpreter::Candidate(path)] if path == EXECVP_FALLBACK_SHELL.as_bytes()
        )),
        other => panic!("unexpected: {other:?}"),
    }
}

#[test]
fn default_search_path_falls_back() {
    assert_eq!(default_exec_search_path(0, b"", 0), b"/bin:/usr/bin");
    assert_eq!(default_exec_search_path(4, b"/x\0\0", 9), b"/bin:/usr/bin");
    assert_eq!(default_exec_search_path(3, b"/x\0", 3), b"/x");
}

#[test]
fn interpreter_of_a_script_is_shown() {
    assert_eq!(parse_shebang_interpreter(b"no script"), None);
    assert_eq!(parse_shebang_interpreter(b"#!/bin/sh -e\n"), Some("/bin/sh".into()));
    assert_eq!(parse_shebang_interpreter(b"#!\n"), Some("/bin/sh".into()));
    assert_eq!(parse_shebang_interpreter(b"#!/bin/\xff\n"), Some("/bin/\u{fffd}".into()));
    let mut long = b"#!/bin/sh ".to_vec();
    long.resize(LINUX_BINPRM_BUF_SIZE, b'x');
    let mut longer = long.clone();
    longer.extend_from_slice(b"y\n/other");
    assert_eq!(parse_shebang_interpreter(&long), parse_shebang_interpreter(&longer));
}

#[test]
fn multicall_binaries_are_not_env() {
    let env = FileId { dev: 1, ino: 2 };
    let shell = FileId { dev: 1, ino: 3 };
    let target: &[u8] = b"/usr/bin/env";
    assert!(env_reference_matches(env, Some(target), Some(env), Some(shell)));
    assert!(!env_reference_matches(env, Some(target), Some(env), Some(env)));
    assert!(!env_reference_matches(env, Some(b"/bin/busybox"), Some(env), Some(shell)));
    assert!(!env_reference_matches(shell, Some(target), Some(env), None));
    assert!(!env_reference_matches(env, None, Some(env), None));
}

#[test]
fn elf_is_judged_by_pieces_as_by_the_whole() {
    let file = minimal_elf64_with_interpreter(256, b"/lib64/ld-linux-x86-64.so.2");
    let whole = read_elf_interpreter(&file, Arch::X86_64, true);
    assert_eq!(
        whole,
        ElfInterpreter::Interpreter(b"/lib64/ld-linux-x86-64.so.2".to_vec())
    );
    let mut pieces = ElfPieces {
        header: file[..64].to_vec(),
        file_len: file.len() as u64,
        table: None,
        path: None,
    };
    loop {
        match read_elf_interpreter_from_file(&pieces, Arch::X86_64, true) {
            ElfAsk::ReadTable { offset, len } => {
                pieces.table = Some(file[offset as usize..offset as usize + len].to_vec());
            }
            ElfAsk::ReadPath { offset, len } => {
                pieces.path = Some(file[offset as usize..offset as usize + len].to_vec());
            }
            ElfAsk::Done(d) => {
                assert_eq!(d, whole);
                break;
            }
        }
    }
    assert_eq!(
        parse_elf_interpreter(&file).unwrap().as_deref(),
        Some("/lib64/ld-linux-x86-64.so.2")
    );
    assert_eq!(read_elf_interpreter(&file, Arch::X86_64, false), ElfInterpreter::Invalid);

    let mut fixed = minimal_elf64();
    set_minimal_elf64_load_segment(&mut fixed, 0x0040_0000, 1, 1, 1);
    assert_eq!(
        read_elf_interpreter(&fixed, Arch::X86_64, true),
        ElfInterpreter::NoInterpreter
    );
}

// What a file needs in order to run

const PREFIX_LEN: usize = 4096;

fn detect(content: &[u8]) -> Vec<ExecInterpreter> {
    let mut files = system();
    files.push(file("/t/program", content));
    let mut w = world(&[("PATH", b"/usr/bin:/bin")]);
    let context = world(&[("PATH", b"/usr/bin:/bin")]).context;
    ask(&mut w, &files, |w| {
        detect_exec_interpreters_in_context(w, b"/t/program", &context)
    })
    .unwrap()
}

fn assert_candidate(found: &[ExecInterpreter], expected: &[u8]) {
    assert!(
        matches!(found, [ExecInterpreter::Candidate(path)] if path == expected),
        "unexpected interpreters: {found:?}"
    );
}

fn assert_fallback(content: &[u8]) {
    assert_candidate(&detect(content), EXECVP_FALLBACK_SHELL.as_bytes());
}

#[test]
fn detect_exec_interpreters_reads_elf_interpreter_segment_directly() {
    let interpreter = b"/lib64/ld-linux-x86-64.so.2";
    let bytes = minimal_elf64_with_interpreter(PREFIX_LEN * 2, interpreter);
    assert_candidate(&detect(&bytes), interpreter);
}

#[test]
fn detect_exec_interpreters_preserves_non_utf8_elf_interpreter_path() {
    let interpreter = b"/tmp/tino-ld-\xff";
    let bytes = minimal_elf64_with_interpreter(PREFIX_LEN * 2, interpreter);
    assert_candidate(&detect(&bytes), interpreter);
}

#[test]
fn detect_exec_interpreters_rejects_unterminated_elf_interpreter_path() {
    let interpreter = b"/lib64/ld-linux-x86-64.so.2";
    let mut bytes = minimal_elf64_with_interpreter(PREFIX_LEN * 2, interpreter);
    let interp_ph = 64 + 56;
    bytes[interp_ph + 32..interp_ph + 40]
        .copy_from_slice(&(interpreter.len() as u64).to_le_bytes());
    assert_fallback(&bytes);
}

#[test]
fn detect_exec_interpreters_adds_execvp_shell_for_malformed_elf() {
    assert_fallback(b"\x7FELFnot really elf\n");
}

#[test]
fn detect_exec_interpreters_accepts_load_mappings_past_eof() {
    let mut bytes = minimal_elf64_with_interpreter(256, b"/lib/ld-test.so");
    bytes[56..58].copy_from_slice(&3u16.to_le_bytes());
    let ph = 64 + 2 * 56;
    bytes[ph..ph + 56].fill(0);
    bytes[ph..ph + 4].copy_from_slice(&1u32.to_le_bytes());
    bytes[ph + 4..ph + 8].copy_from_slice(&6u32.to_le_bytes());
    bytes[ph + 8..ph + 16].copy_from_slice(&0x10_0000u64.to_le_bytes());
    bytes[ph + 16..ph + 24].copy_from_slice(&0x50_0000u64.to_le_bytes());
    bytes[ph + 40..ph + 48].copy_from_slice(&4096u64.to_le_bytes());
    bytes[ph + 48..ph + 56].copy_from_slice(&4096u64.to_le_bytes());
    for filesz in [0u64, 1, 4096] {
        bytes[ph + 32..ph + 40].copy_from_slice(&filesz.to_le_bytes());
        assert_candidate(&detect(&bytes), b"/lib/ld-test.so");
    }
}

#[test]
fn detect_exec_interpreters_rejects_oversized_program_header_entries() {
    let mut bytes = minimal_elf64_with_interpreter(256, b"/lib/ld-test.so");
    let table = bytes[64..64 + 2 * 56].to_vec();
    let phoff = bytes.len() as u64;
    for entry in table.chunks(56) {
        bytes.extend_from_slice(entry);
        bytes.extend_from_slice(&[0; 8]);
    }
    bytes[32..40].copy_from_slice(&phoff.to_le_bytes());
    bytes[54..56].copy_from_slice(&64u16.to_le_bytes());
    assert_fallback(&bytes);
}

#[test]
fn detect_exec_interpreters_adds_execvp_shell_for_elf_without_load_segment() {
    assert_fallback(&minimal_elf64());
}

#[test]
fn detect_exec_interpreters_adds_execvp_shell_for_static_elf_without_executable_entry() {
    let mut bytes = minimal_elf64();
    set_minimal_elf64_load_segment(&mut bytes, 0x0040_0000, 1, 1, 0);
    assert_fallback(&bytes);
}

#[test]
fn detect_exec_interpreters_adds_execvp_shell_for_overflowing_load_segment() {
    let mut bytes = minimal_elf64();
    set_minimal_elf64_load_segment(&mut bytes, u64::MAX, 0, 1, 1);
    assert_fallback(&bytes);
}

#[test]
fn detect_exec_interpreters_keeps_valid_static_elf_without_shell_fallback() {
    assert!(detect(&static_elf64()).is_empty());
}

#[test]
fn detect_exec_interpreters_adds_execvp_shell_for_non_native_elf_machine() {
    let mut bytes = minimal_elf64();
    bytes[18..20].copy_from_slice(&0u16.to_le_bytes());
    let load_ph = 64;
    bytes[load_ph..load_ph + 4].copy_from_slice(&1u32.to_le_bytes());
    bytes[load_ph + 32..load_ph + 40].copy_from_slice(&1u64.to_le_bytes());
    assert_fallback(&bytes);
}

#[test]
fn detect_exec_interpreters_adds_execvp_shell_for_elf_with_invalid_program_header_offset() {
    let mut bytes = minimal_elf64();
    bytes[32..40].copy_from_slice(&u64::MAX.to_le_bytes());
    assert_fallback(&bytes);
}

#[test]
fn detect_exec_interpreters_adds_execvp_shell_for_text_without_shebang() {
    assert_fallback(b"echo ok\n");
}

#[test]
fn detect_exec_interpreters_adds_execvp_shell_for_empty_shebang() {
    assert_fallback(b"#!\necho ok\n");
}

#[test]
fn detect_exec_interpreters_adds_execvp_shell_for_unterminated_long_shebang() {
    let mut bytes = b"#!/bin/sh".to_vec();
    bytes.extend(std::iter::repeat(b'x').take(LINUX_BINPRM_BUF_SIZE));
    bytes.extend_from_slice(b"\necho ok\n");
    assert_fallback(&bytes);
}

#[test]
fn detect_exec_interpreters_limits_shebang_argument_to_kernel_buffer() {
    let mut bytes = b"#!/bin/sh ".to_vec();
    bytes.extend(std::iter::repeat(b'x').take(LINUX_BINPRM_BUF_SIZE));
    bytes.extend_from_slice(b"\necho ok\n");
    let found = detect(&bytes);
    assert!(
        matches!(
            &found[..],
            [ExecInterpreter::ShebangCandidate { path, argument: ShebangArgument::Utf8(text) }]
                if path == b"/bin/sh" && *text == "x".repeat(245)
        ),
        "unexpected interpreters: {found:?}"
    );
}

#[test]
fn detect_exec_interpreters_keeps_relative_shebang_interpreter_without_shell_fallback() {
    assert_candidate(&detect(b"#!bad\necho should-not-run\n"), b"./bad");
}

#[test]
fn detect_exec_interpreters_does_not_trim_carriage_return_from_shebang() {
    assert_candidate(&detect(b"#!/bin/sh\r\necho should-not-run\n"), b"/bin/sh\r");
}

// What a command is allowed to run

fn with(extra: Vec<Entry>) -> Vec<Entry> {
    let mut files = system();
    files.extend(extra);
    files
}

fn plain(path: &'static str, content: &[u8]) -> Entry {
    Entry {
        executable: false,
        ..file(path, content)
    }
}

fn exec_allow(path: &str) -> Cli {
    Cli {
        exec_allow: vec![path.into()],
        ..Cli::default()
    }
}

#[test]
fn exec_allow_symlink_stores_only_canonical_target() {
    let link = Entry {
        target: "/t/target",
        ..file("/t/link", b"")
    };
    let files = with(vec![link, plain("/t/target", b"not-an-elf\n")]);
    let config = policy(&exec_allow("/t/link"), &files).unwrap().unwrap().config;
    assert_eq!(config.exec_allow_paths, [b"/t/target".to_vec()]);
}

#[test]
fn exec_allow_non_executable_file_skips_interpreter_probe() {
    let mut bytes = minimal_elf64();
    bytes[54..56].copy_from_slice(&1u16.to_le_bytes());
    let files = with(vec![plain("/t/not-executable", &bytes)]);
    let config = policy(&exec_allow("/t/not-executable"), &files)
        .expect("non-executable exec allow path should not be probed as ELF")
        .expect("exec allow config")
        .config;
    assert_eq!(config.exec_allow_paths.len(), 1);
}

#[test]
fn main_exec_auto_allow_skips_non_executable_program_paths() {
    let fifo = Entry {
        kind: FileKind::Other,
        ..file("/t/fifo", b"")
    };
    let files = with(vec![
        dir("/t/directory"),
        plain("/t/file", b"not executable\n"),
        fifo,
    ]);
    for path in ["/t/directory", "/t/file", "/t/fifo"] {
        let (paths, result, _) = follow(&files, &[], path, false);
        result.expect("non-executable main path should be left to execvp");
        assert!(
            paths.is_empty(),
            "auto main exec allowlist must not broaden for {path:?}: {paths:?}"
        );
    }
}

#[test]
fn explicit_exec_allow_still_accepts_directory_paths() {
    let files = with(vec![dir("/t/dir")]);
    let config = policy(&exec_allow("/t/dir"), &files).unwrap().unwrap().config;
    assert_eq!(config.exec_allow_paths, [b"/t/dir".to_vec()]);
}

#[test]
fn landlock_config_reuses_resolved_command_for_auto_exec_allow() {
    let files = with(vec![
        file("/t/program", b"#!/bin/sh\n"),
        file("/t/helper", b"#!/bin/sh\n"),
    ]);
    let cli = Cli {
        cmd: vec!["${BROKEN".into()],
        expand_env: true,
        exec_allow: vec!["/t/helper".into()],
        ..Cli::default()
    };
    let effective_cmd = vec!["/t/program".to_string()];
    let mut w = world(&[]);
    let config = ask(&mut w, &files, |w| {
        build_landlock_config_for_args(w, &cli, &effective_cmd)
    })
    .expect("config builder must not re-expand the original command")
    .expect("exec restriction config")
    .config;
    assert!(config.exec_allow_paths.contains(&b"/t/program".to_vec()));
    assert!(config.exec_allow_paths.contains(&b"/t/helper".to_vec()));
}

#[test]
fn main_exec_auto_allow_skips_missing_env_shebang_command() {
    let missing = "definitely-missing-tino-interpreter";
    let script = format!("#!/usr/bin/env {missing}\n");
    let files = with(vec![file("/t/script", script.as_bytes())]);
    let (allowed, result, _) = follow(&files, &[], "/t/script", false);
    result.expect("missing shebang command should be left to child execution");
    assert!(allowed.contains(&"/t/script".to_string()));
    assert!(allowed.iter().all(|path| !path.contains(missing)));
}

#[test]
fn main_exec_auto_allow_skips_invalid_utf8_env_shebang_argument() {
    let files = with(vec![file("/t/script", b"#!/usr/bin/env python\xff\n")]);
    let (allowed, result, _) = follow(&files, &[], "/t/script", false);
    result.expect("invalid env shebang argument should be left to child execution");
    assert!(allowed.contains(&"/t/script".to_string()));
}

#[test]
fn main_exec_auto_allow_respects_env_shebang_path_assignment() {
    let files = with(vec![
        file("/t/parent-path/python3", b"parent python\n"),
        dir("/t/shebang-path"),
        file("/t/script", b"#!/usr/bin/env -S -i PATH=/t/shebang-path python3\n"),
    ]);
    let (allowed, result, _) = follow(&files, &[("PATH", b"/t/parent-path")], "/t/script", false);
    result.expect("missing shebang PATH command should not fall back to parent PATH");
    assert!(!allowed.contains(&"/t/parent-path/python3".to_string()));
}

#[test]
fn main_exec_auto_allow_respects_env_unset_path() {
    for shebang in [
        "#!/usr/bin/env -S -u PATH python3\n",
        "#!/usr/bin/env -S -uPATH python3\n",
        "#!/usr/bin/env -S --unset PATH python3\n",
        "#!/usr/bin/env -S --unset=PATH python3\n",
    ] {
        let files = with(vec![
            file("/t/parent-path/python3", b"parent python\n"),
            file("/t/script", shebang.as_bytes()),
        ]);
        let (allowed, result, _) =
            follow(&files, &[("PATH", b"/t/parent-path")], "/t/script", false);
        result.expect("unset PATH shebang should not use parent PATH");
        assert!(!allowed.contains(&"/t/parent-path/python3".to_string()));
    }
}

#[test]
fn main_exec_auto_allow_respects_env_ignore_before_split() {
    let files = with(vec![
        file("/t/parent-path/parent-only", b"parent-only tool\n"),
        file("/t/script", b"#!/usr/bin/env -iS parent-only\n"),
    ]);
    let (allowed, result, _) = follow(&files, &[("PATH", b"/t/parent-path")], "/t/script", false);
    result.expect("env -iS shebang should not use parent PATH");
    assert!(!allowed.contains(&"/t/parent-path/parent-only".to_string()));
}

#[test]
fn main_exec_auto_allow_respects_env_chdir_for_relative_path() {
    let files = with(vec![
        dir("/t/app"),
        file("/t/app/bin/tool", b"fake tool\n"),
        file("/t/bin/tool", b"fake tool\n"),
        file("/t/script", b"#!/usr/bin/env -S --chdir /t/app PATH=bin tool\n"),
    ]);
    let (allowed, result, _) = follow(&files, &[], "/t/script", false);
    result.expect("relative shebang PATH should resolve after env --chdir");
    assert!(allowed.contains(&"/t/app/bin/tool".to_string()), "{allowed:?}");
    assert!(!allowed.contains(&"/t/bin/tool".to_string()));
}

#[test]
fn main_exec_auto_allow_skips_directory_shebang_interpreter() {
    let files = with(vec![
        dir("/t/interpreter-dir"),
        file("/t/script", b"#!/t/interpreter-dir\necho should-not-run\n"),
    ]);
    let (allowed, result, _) = follow(&files, &[], "/t/script", false);
    result.expect("directory shebang interpreter should be left to child execution");
    assert!(allowed.contains(&"/t/script".to_string()));
    assert!(!allowed.contains(&"/t/interpreter-dir".to_string()));
}

#[test]
fn main_exec_auto_allow_prefers_executable_path_candidate() {
    let files = with(vec![
        plain("/t/first/tool", b"not executable\n"),
        file("/t/second/tool", b"executable\n"),
    ]);
    let mut w = world(&[("PATH", b"/t/first:/t/second")]);
    let context = world(&[("PATH", b"/t/first:/t/second")]).context;
    let found = ask(&mut w, &files, |w| find_commands(w, "tool", &context)).unwrap();
    assert_eq!(found.first(), Some(&b"/t/second/tool".to_vec()));
}

#[test]
fn explicit_exec_allow_rejects_missing_env_shebang_command() {
    let missing = "definitely-missing-tino-interpreter";
    let script = format!("#!/usr/bin/env {missing}\n");
    let files = with(vec![file("/t/script", script.as_bytes())]);
    let (_, result, _) = follow(&files, &[], "/t/script", true);
    let err = result.expect_err("explicit exec allow should strictly validate dependencies");
    assert!(err.report().contains(missing), "unexpected error: {}", err.report());
}

#[test]
fn explicit_exec_allow_rejects_invalid_utf8_env_shebang_argument() {
    let files = with(vec![file("/t/script", b"#!/usr/bin/env python\xff\n")]);
    let (_, result, _) = follow(&files, &[], "/t/script", true);
    let err = result.expect_err("explicit exec allow should reject unresolved dependency");
    assert!(
        err.report().contains("env shebang argument is not valid UTF-8"),
        "unexpected error: {}",
        err.report()
    );
}

#[test]
fn explicit_exec_allow_missing_env_shebang_command_escapes_control_bytes() {
    let files = with(vec![file("/t/script", b"#!/usr/bin/env missing-\x1b[31m\n")]);
    let (_, result, _) = follow(&files, &[], "/t/script", true);
    let message = result
        .expect_err("explicit exec allow should reject missing shebang dependency")
        .report();
    assert!(
        message.contains(r"\u{1b}"),
        "expected escaped control byte in error: {message}"
    );
    assert!(
        !message.contains('\u{1b}'),
        "error must not emit raw terminal control bytes: {message}"
    );
}

#[test]
fn explicit_exec_allow_rejects_missing_env_path_assignment_command() {
    let files = with(vec![
        dir("/t/shebang-path"),
        file("/t/script", b"#!/usr/bin/env -S -i PATH=/t/shebang-path python3\n"),
    ]);
    let (_, result, _) = follow(&files, &[], "/t/script", true);
    let err = result.expect_err("explicit exec allow should reject missing shebang PATH command");
    assert!(
        err.report().contains("from shebang PATH"),
        "unexpected error: {}",
        err.report()
    );
}

#[test]
fn explicit_exec_allow_respects_env_ignore_before_split() {
    let files = with(vec![
        file("/t/parent-path/parent-only", b"parent-only tool\n"),
        file("/t/script", b"#!/usr/bin/env -iS parent-only\n"),
    ]);
    let (_, result, _) = follow(&files, &[("PATH", b"/t/parent-path")], "/t/script", true);
    let err = result.expect_err("explicit env -iS shebang must not use parent PATH");
    assert!(
        err.report().contains("from shebang PATH"),
        "unexpected error: {}",
        err.report()
    );
}

#[test]
fn explicit_exec_allow_rejects_directory_shebang_interpreter() {
    let files = with(vec![
        dir("/t/interpreter-dir"),
        file("/t/script", b"#!/t/interpreter-dir\necho should-not-run\n"),
    ]);
    let (_, result, _) = follow(&files, &[], "/t/script", true);
    let message = result
        .expect_err("explicit exec allow should reject directory shebang dependency")
        .report();
    assert!(
        message.contains("not an executable file"),
        "unexpected directory shebang error: {message}"
    );
}

#[test]
fn parse_shebang_exec_paths_uses_env_chdir_for_relative_path() {
    let files = with(vec![dir("/t/app"), file("/t/app/bin/tool", b"fake tool\n")]);
    for shebang in [
        "#!/usr/bin/env -S --chdir /t/app PATH=bin tool\n",
        "#!/usr/bin/env -S--chdir /t/app PATH=bin tool\n",
        "#!/usr/bin/env --split-string=--chdir /t/app PATH=bin tool\n",
    ] {
        assert_eq!(
            shown_paths_with(&[], &files, shebang.as_bytes()),
            vec!["/usr/bin/env", "/t/app/bin/tool"]
        );
    }
}
