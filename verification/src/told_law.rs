//! What an explanation tells, line by line, and what a file leads to.

use vstd::prelude::*;

use crate::cli::CliModel;
use crate::context::{self, ContextModel};
use crate::control;
use crate::discovery;
use crate::env_command::{self, PlanModel};
use crate::env_defaults::EnvLogModel;
use crate::explain::{self, ExplainOrigins, PlatformModel};
use crate::facts::{FindModel, QuestionModel, ReplyModel, WorldModel};
use crate::elf::ElfModel;
use crate::follow;
use crate::shebang::{self, ArgumentModel, InterpreterModel, ShebangModel};
use crate::signals;
use crate::text;

verus! {

// ---------------------------------------------------------------------------
// Explanations
// ---------------------------------------------------------------------------

/// A switch as it is told.
pub open spec fn yes_or_no(b: bool) -> Seq<char> {
    if b {
        "true"@
    } else {
        "false"@
    }
}

/// Items between brackets, parted by commas and blanks.
pub open spec fn in_brackets(items: Seq<Seq<char>>) -> Seq<char> {
    "["@ + with_commas(items) + "]"@
}

/// Items that are parted by commas and blanks.
pub open spec fn with_commas(items: Seq<Seq<char>>) -> Seq<char>
    decreases items.len(),
{
    if items.len() == 0 {
        Seq::empty()
    } else if items.len() == 1 {
        items[0]
    } else {
        items[0] + ", "@ + with_commas(items.skip(1))
    }
}

proof fn lemma_commas(items: Seq<Seq<char>>)
    ensures
        signals::joined(items, ", "@) == with_commas(items),
    decreases items.len(),
{
    if items.len() > 1 {
        lemma_commas_from_front(items);
        lemma_commas(items.skip(1));
    }
}

proof fn lemma_commas_from_front(items: Seq<Seq<char>>)
    requires
        items.len() > 1,
    ensures
        signals::joined(items, ", "@) == items[0] + ", "@ + signals::joined(items.skip(1), ", "@),
    decreases items.len(),
{
    let front = items.drop_last();
    let rest = items.skip(1);
    assert(rest.last() == items.last());
    if items.len() == 2 {
        assert(signals::joined(front, ", "@) == front[0]);
        assert(signals::joined(rest, ", "@) == rest[0]);
    } else {
        lemma_commas_from_front(front);
        assert(front.skip(1) =~= rest.drop_last());
        let inner = signals::joined(rest.drop_last(), ", "@);
        assert(items[0] + ", "@ + inner + ", "@ + items.last() =~= items[0] + ", "@ + (inner + ", "@
            + items.last()));
    }
}

/// The first lines tell of the process, from the mode on, each by its name.
pub proof fn law_process_is_explained(
    m: CliModel,
    pdeath: Seq<char>,
    p: PlatformModel,
    o: ExplainOrigins,
    log: EnvLogModel,
    implied: bool,
)
    ensures
        ({
            let lines = explain::explain_lines(m, pdeath, p, o, log, implied);
            &&& lines.len() >= 20
            &&& lines[0] == "mode: explain"@
            &&& lines[1] == "subreaper: "@ + yes_or_no(m.subreaper)
            &&& lines[3] == "pdeath: "@ + pdeath
            &&& lines[4] == "verbosity: "@ + text::decimal(
                if m.verbosity < 3 {
                    m.verbosity as nat
                } else {
                    3
                },
            )
            &&& lines[6] == "warn_on_reap: "@ + yes_or_no(m.warn_on_reap)
            &&& lines[7] == "pgroup_kill: "@ + yes_or_no(m.pgroup_kill)
            &&& lines[9] == "grace_ms: "@ + text::decimal(m.grace_ms as nat)
            &&& lines[11] == "expand_env: "@ + yes_or_no(m.expand_env)
            &&& lines[12] == "command.present: "@ + yes_or_no(m.cmd.len() > 0)
        }),
{
}

/// Where a setting comes from is told: from the configuration, from a variable of the environment by its
/// name, from the wish for warnings, or from nowhere.
pub proof fn law_origins_are_explained(
    m: CliModel,
    pdeath: Seq<char>,
    p: PlatformModel,
    o: ExplainOrigins,
    log: EnvLogModel,
    implied: bool,
)
    ensures
        ({
            let lines = explain::explain_lines(m, pdeath, p, o, log, implied);
            &&& o.subreaper ==> lines[2] == "subreaper.source: "@ + "configured"@
            &&& !o.subreaper && implied ==> lines[2] == "subreaper.source: "@ + "--warn-on-reap"@
            &&& !o.subreaper && !implied && log.subreaper_env is None ==> lines[2]
                == "subreaper.source: "@ + "default"@
            &&& !o.subreaper && !implied && log.subreaper_env is Some ==> lines[2]
                == "subreaper.source: "@ + ("env:"@ + (log.subreaper_env->0).0)
            &&& o.verbosity > 0 ==> lines[5] == "verbosity.source: "@ + "configured"@
            &&& o.verbosity == 0 && log.verbosity_env is None ==> lines[5] == "verbosity.source: "@
                + "default"@
            &&& o.verbosity == 0 && log.verbosity_env is Some ==> lines[5] == "verbosity.source: "@ + (
            "env:"@ + (log.verbosity_env->0).0)
            &&& o.pgroup_kill ==> lines[8] == "pgroup_kill.source: "@ + "configured"@
            &&& !o.pgroup_kill && log.pgroup_env is None ==> lines[8] == "pgroup_kill.source: "@
                + "default"@
            &&& !o.pgroup_kill && log.pgroup_env is Some ==> lines[8] == "pgroup_kill.source: "@ + (
            "env:"@ + (log.pgroup_env->0).0)
        }),
{
}

/// All exit codes that become 0 are told, and all words of the command, as they were given and as they
/// come out.
pub proof fn law_lists_are_explained(
    m: CliModel,
    pdeath: Seq<char>,
    p: PlatformModel,
    o: ExplainOrigins,
    log: EnvLogModel,
    implied: bool,
)
    ensures
        ({
            let lines = explain::explain_lines(m, pdeath, p, o, log, implied);
            &&& lines[10] == "remap_exit: "@ + in_brackets(
                Seq::new(m.remap_exit.len(), |i: int| text::decimal(m.remap_exit[i] as nat)),
            )
            &&& lines[13] == "command.original: "@ + in_brackets(
                Seq::new(m.cmd.len(), |i: int| explain::debug_text(m.cmd[i])),
            )
            &&& lines[14] == "command.effective: "@ + in_brackets(
                Seq::new(
                    p.effective_cmd.len(),
                    |i: int| explain::debug_text(p.effective_cmd[i]),
                ),
            )
        }),
{
    lemma_commas(explain::byte_items(m.remap_exit));
    lemma_commas(explain::debug_items(m.cmd));
    lemma_commas(explain::debug_items(p.effective_cmd));
    assert(explain::byte_items(m.remap_exit) =~= Seq::new(
        m.remap_exit.len(),
        |i: int| text::decimal(m.remap_exit[i] as nat),
    ));
    assert(explain::debug_items(m.cmd) =~= Seq::new(
        m.cmd.len(),
        |i: int| explain::debug_text(m.cmd[i]),
    ));
    assert(explain::debug_items(p.effective_cmd) =~= Seq::new(
        p.effective_cmd.len(),
        |i: int| explain::debug_text(p.effective_cmd[i]),
    ));
}

/// Each kind of restriction is told to be on exactly where it is.
pub proof fn law_restrictions_are_explained(p: PlatformModel)
    ensures
        explain::write_lines(p.policy)[0] == if p.policy is Some && p.policy->0.write_requested {
            "write_restrict.enabled: true"@
        } else {
            "write_restrict.enabled: false"@
        },
        explain::tcp_lines(p.policy)[0] == if p.policy is Some && (p.policy->0.bind_tcp_ports.len() > 0
            || p.policy->0.connect_tcp_ports.len() > 0) {
            "tcp_restrict.enabled: true"@
        } else {
            "tcp_restrict.enabled: false"@
        },
        explain::scope_lines(p.policy)[0] == if p.policy is Some && (p.policy->0.scope_signals
            || p.policy->0.scope_abstract_unix) {
            "ipc_scope.enabled: true"@
        } else {
            "ipc_scope.enabled: false"@
        },
        explain::exec_lines(p.policy)[0] == if p.policy is Some && p.policy->0.exec_requested {
            "exec_restrict.enabled: true"@
        } else {
            "exec_restrict.enabled: false"@
        },
        explain::ioctl_lines(p.policy)[0] == if p.policy is Some
            && p.policy->0.device_ioctl_allow_paths.len() > 0 {
            "device_ioctl_restrict.enabled: true"@
        } else {
            "device_ioctl_restrict.enabled: false"@
        },
{
}

/// All of this is told, of the process, of the command, of each kind of restriction and of what is wrong
/// with the environment, and nothing else.
pub proof fn law_everything_is_explained(
    m: CliModel,
    pdeath: Seq<char>,
    p: PlatformModel,
    o: ExplainOrigins,
    log: EnvLogModel,
    implied: bool,
    line: Seq<char>,
)
    ensures
        ({
            let lines = explain::explain_lines(m, pdeath, p, o, log, implied);
            lines.skip(15).contains(line) <==> explain::write_lines(p.policy).contains(line)
                || explain::tcp_lines(p.policy).contains(line) || explain::scope_lines(
                p.policy,
            ).contains(line) || explain::exec_lines(p.policy).contains(line) || explain::ioctl_lines(
                p.policy,
            ).contains(line) || explain::warning_lines(log).contains(line)
        }),
{
    let first = explain::process_lines(m, pdeath, o, log, implied) + explain::command_lines(
        m,
        p.effective_cmd,
    );
    let a = explain::write_lines(p.policy);
    let b = explain::tcp_lines(p.policy);
    let c = explain::scope_lines(p.policy);
    let d = explain::exec_lines(p.policy);
    let e = explain::ioctl_lines(p.policy);
    let f = explain::warning_lines(log);
    assert(first.len() == 15);
    assert(explain::explain_lines(m, pdeath, p, o, log, implied).skip(15) =~= a + b + c + d + e + f);
    lemma_parts(a + b + c + d + e, f, line);
    lemma_parts(a + b + c + d, e, line);
    lemma_parts(a + b + c, d, line);
    lemma_parts(a + b, c, line);
    lemma_parts(a, b, line);
}

proof fn lemma_parts(a: Seq<Seq<char>>, b: Seq<Seq<char>>, line: Seq<char>)
    ensures
        (a + b).contains(line) <==> a.contains(line) || b.contains(line),
{
    if a.contains(line) {
        let i = choose|i: int| 0 <= i < a.len() && a[i] == line;
        assert((a + b)[i] == line);
    }
    if b.contains(line) {
        let i = choose|i: int| 0 <= i < b.len() && b[i] == line;
        assert((a + b)[a.len() + i] == line);
    }
    if (a + b).contains(line) {
        let i = choose|i: int| 0 <= i < (a + b).len() && (a + b)[i] == line;
        if i < a.len() {
            assert(a[i] == line);
        } else {
            assert(b[i - a.len()] == line);
        }
    }
}

/// A variable of the environment that cannot be made sense of is told of, by its name.
pub proof fn law_warnings_are_explained(log: EnvLogModel, i: int)
    requires
        0 <= i < log.invalid_flags.len(),
    ensures
        explain::warning_lines(log).len() == 1 + log.invalid_flags.len() + if log.verbosity_error is Some {
            1int
        } else {
            0
        },
        explain::warning_lines(log)[0] == "warnings:"@,
        explain::warning_lines(log)[1 + i] == "- invalid boolean env default "@
            + log.invalid_flags[i].0 + "="@ + crate::report::shown_path(log.invalid_flags[i].1),
{
}

/// What is told of the ports that are allowed: all of them, and whether the restrictions may be missing.
pub proof fn law_ports_are_explained(p: PlatformModel)
    requires
        p.policy is Some,
        p.policy->0.bind_tcp_ports.len() > 0 || p.policy->0.connect_tcp_ports.len() > 0,
    ensures
        ({
            let c = p.policy->0;
            let lines = explain::tcp_lines(p.policy);
            &&& lines[2] == "tcp_restrict.warn_only: "@ + yes_or_no(c.warn_only)
            &&& lines[3] == "tcp_restrict.bind_allow_ports: "@ + in_brackets(
                Seq::new(c.bind_tcp_ports.len(), |i: int| text::decimal(c.bind_tcp_ports[i] as nat)),
            )
            &&& lines[4] == "tcp_restrict.connect_allow_ports: "@ + in_brackets(
                Seq::new(
                    c.connect_tcp_ports.len(),
                    |i: int| text::decimal(c.connect_tcp_ports[i] as nat),
                ),
            )
        }),
{
    let c = p.policy->0;
    lemma_commas(explain::port_items(c.bind_tcp_ports));
    lemma_commas(explain::port_items(c.connect_tcp_ports));
    assert(explain::port_items(c.bind_tcp_ports) =~= Seq::new(
        c.bind_tcp_ports.len(),
        |i: int| text::decimal(c.bind_tcp_ports[i] as nat),
    ));
    assert(explain::port_items(c.connect_tcp_ports) =~= Seq::new(
        c.connect_tcp_ports.len(),
        |i: int| text::decimal(c.connect_tcp_ports[i] as nat),
    ));
}

/// What is told of the directories that may be written to, of what may be executed and of the devices
/// that may be used: all of them, between quotes.
pub proof fn law_paths_are_explained(p: PlatformModel)
    requires
        p.policy is Some,
    ensures
        ({
            let c = p.policy->0;
            let quoted = |v: Seq<Seq<u8>>|
                in_brackets(
                    Seq::new(v.len(), |i: int| "\""@ + crate::report::shown_path(v[i]) + "\""@),
                );
            &&& c.write_requested ==> explain::write_lines(p.policy)[4]
                == "write_restrict.dev_writable: "@ + yes_or_no(!c.no_dev)
            &&& c.write_requested ==> explain::write_lines(p.policy)[5]
                == "write_restrict.allow_dirs: "@ + quoted(c.writable_dirs)
            &&& c.exec_requested ==> explain::exec_lines(p.policy)[3]
                == "exec_restrict.allow_paths: "@ + quoted(c.exec_allow_paths)
            &&& c.device_ioctl_allow_paths.len() > 0 ==> explain::ioctl_lines(p.policy)[3]
                == "device_ioctl_restrict.allow_paths: "@ + quoted(c.device_ioctl_allow_paths)
        }),
{
    let c = p.policy->0;
    lemma_quoted(c.writable_dirs);
    lemma_quoted(c.exec_allow_paths);
    lemma_quoted(c.device_ioctl_allow_paths);
}

proof fn lemma_quoted(v: Seq<Seq<u8>>)
    ensures
        explain::list_text(explain::quoted_items(explain::shown_paths(v))) == in_brackets(
            Seq::new(v.len(), |i: int| "\""@ + crate::report::shown_path(v[i]) + "\""@),
        ),
{
    let items = explain::quoted_items(explain::shown_paths(v));
    lemma_commas(items);
    assert(items =~= Seq::new(v.len(), |i: int| "\""@ + crate::report::shown_path(v[i]) + "\""@));
}

/// An explanation is its lines, each with a line feed behind it.
pub proof fn law_lines_of_an_explanation(lines: Seq<Seq<char>>, line: Seq<char>)
    ensures
        explain::unlines(lines.push(line)) == explain::unlines(lines) + line + seq!['\n'],
        explain::unlines(Seq::empty()) == Seq::<char>::empty(),
{
    assert(lines.push(line).drop_last() =~= lines);
    reveal_strlit("\n");
    assert("\n"@ =~= seq!['\n']);
}

/// A signal for the death of the parent is shown by its full name, and its absence as `none`.
pub proof fn law_signal_is_explained(raw: Seq<char>)
    ensures
        control::shown_pdeath(None) == Ok::<Seq<char>, crate::error::ErrorModel>("none"@),
        signals::signal_number(raw) matches Some(n) ==> control::shown_pdeath(Some(raw)) == Ok::<
            Seq<char>,
            crate::error::ErrorModel,
        >("SIG"@ + signals::names()[n - 1]),
        signals::signal_number(raw) is None ==> control::shown_pdeath(Some(raw)) is Err
            && control::shown_pdeath(Some(raw))->Err_0.usage,
{
}

// ---------------------------------------------------------------------------
// Files
// ---------------------------------------------------------------------------

/// The shell that runs what nothing else does.
pub open spec fn shell() -> InterpreterModel {
    InterpreterModel::Candidate(seq![47u8, 98, 105, 110, 47, 115, 104])
}

proof fn lemma_shell()
    ensures
        shebang::fallback_interpreter() == shell(),
{
    reveal_strlit("/bin/sh");
    let s = "/bin/sh"@;
    assert(s =~= seq!['/', 'b', 'i', 'n', '/', 's', 'h']);
    reveal_with_fuel(vstd::utf8::encode_utf8, 9);
    let b = vstd::utf8::encode_utf8(s);
    vstd::utf8::is_ascii_chars_encode_utf8(s);
    assert(b =~= seq![47u8, 98, 105, 110, 47, 115, 104]);
}

/// What a file needs in order to run: what its first line names, or the loader that its image names, or
/// the shell where it is neither a script nor an image that can be run. An image without a loader needs
/// nothing.
pub proof fn law_what_a_file_needs(
    w: WorldModel,
    path: Seq<u8>,
    ctx: ContextModel,
    head: Seq<u8>,
    loader: Seq<u8>,
)
    requires
        w.knows(QuestionModel::Head(path)) == Some(ReplyModel::Bytes(head)),
        head.len() < 2 || head[0] != 35 || head[1] != 33,
    ensures
        ({
            let r = discovery::interpreters(w, path, ctx);
            let image = head.len() >= 4 && head[0] == 127 && head[1] == 69 && head[2] == 76 && head[3]
                == 70;
            let judged = w.knows(QuestionModel::Elf(path));
            &&& !image ==> r == FindModel::Found(seq![shell()])
            &&& image && judged == Some(ReplyModel::Elf(ElfModel::Invalid)) ==> r == FindModel::Found(
                seq![shell()],
            )
            &&& image && judged == Some(ReplyModel::Elf(ElfModel::NoInterpreter)) ==> r
                == FindModel::Found(Seq::<InterpreterModel>::empty())
            &&& image && judged == Some(ReplyModel::Elf(ElfModel::Interpreter(loader)))
                && loader.contains(47) ==> r == FindModel::Found(
                seq![InterpreterModel::Candidate(loader)],
            )
        }),
{
    lemma_shell();
}

/// A script needs its interpreter. Where that is not the program `env` by one of its two paths, an
/// argument is kept along with it, and where it is, what `env` is asked to run is needed too.
pub proof fn law_what_a_script_needs(
    head: Seq<u8>,
    ctx: ContextModel,
    rt: crate::env_signal::RealtimeRange,
    interpreter: Seq<u8>,
    argument: ArgumentModel,
)
    requires
        shebang::shebang_of(head) == Some(ShebangModel::Parts { interpreter, argument }),
        interpreter.contains(47),
    ensures
        ({
            let r = shebang::script_interpreters(head, ctx, rt);
            let env = interpreter == vstd::utf8::encode_utf8("/usr/bin/env"@) || interpreter
                == vstd::utf8::encode_utf8("/bin/env"@);
            &&& !env && argument is Absent ==> r == seq![InterpreterModel::Candidate(interpreter)]
            &&& !env && argument !is Absent ==> r == seq![
                InterpreterModel::ShebangCandidate { path: interpreter, argument },
            ]
            &&& env ==> r.len() >= 1 && r[0] == InterpreterModel::Candidate(interpreter)
            &&& env && argument is Utf8 ==> match env_command::shebang_plan(
                argument->Utf8_0,
                ctx.environment,
                rt,
            ) {
                Ok(Some(plan)) => r.len() == 2 && r[1] == InterpreterModel::EnvCommand(plan),
                Ok(None) => r.len() == 1,
                Err(reason) => r.len() == 2 && r[1] is Unresolved,
            }
            &&& env && argument is InvalidUtf8 ==> r.len() == 2 && r[1] is Unresolved
            &&& env && argument is Absent ==> r.len() == 1
        }),
{
    let paths = shebang::env_paths();
    assert(paths[0] == vstd::utf8::encode_utf8("/usr/bin/env"@));
    assert(paths[1] == vstd::utf8::encode_utf8("/bin/env"@));
}

/// What `env` runs: a command with a slash is the file at that path, seen from the directory that `env`
/// goes to, a bare one is looked for as ever where neither the directory nor the search path was changed,
/// and else in the changed one.
pub proof fn law_what_env_runs(
    w: WorldModel,
    plan: PlanModel,
    inherited: ContextModel,
    directory: Option<Seq<u8>>,
)
    ensures
        ({
            let r = env_command::planned_command(plan, inherited, directory);
            let key = seq![80u8, 65, 84, 72];
            let same_path = plan.environment.dom().contains(key)
                == inherited.environment.dom().contains(key) && (plan.environment.dom().contains(key)
                ==> plan.environment[key] == inherited.environment[key]);
            &&& plan.chdir is None ==> r is Some && r->0.command == plan.command
                && r->0.context.cwd == inherited.cwd && r->0.context.environment == plan.environment
                && r->0.search_modified == !same_path
            &&& plan.chdir is Some && plan.chdir->0.len() > 0 && directory is Some ==> r is Some
                && r->0.command == plan.command && r->0.context.cwd == directory
                && r->0.context.environment == plan.environment && r->0.search_modified == !(same_path
                && directory == inherited.cwd)
            &&& plan.chdir is Some && (plan.chdir->0.len() == 0 || directory is None) ==> r is None
        }),
{
}

/// Where the command of `env` is looked for.
pub proof fn law_where_env_looks(w: WorldModel, c: env_command::CommandModel)
    ensures
        ({
            let r = follow::target_interpreter(w, c);
            let bytes = vstd::utf8::encode_utf8(c.command);
            &&& c.command.contains('/') ==> r == FindModel::Found(
                InterpreterModel::Candidate(
                    match c.context.cwd {
                        Some(cwd) => context::joined_path(cwd, bytes),
                        None => bytes,
                    },
                ),
            )
            &&& !c.command.contains('/') && !c.search_modified ==> r == FindModel::Found(
                InterpreterModel::Candidate(bytes),
            )
            &&& !c.command.contains('/') && c.search_modified ==> match discovery::commands_in(
                w,
                c.command,
                c.context,
            ) {
                FindModel::Found(paths) => r == FindModel::Found(
                    if paths.len() > 0 {
                        InterpreterModel::SearchCandidates(paths)
                    } else {
                        InterpreterModel::Missing { command: c.command }
                    },
                ),
                FindModel::Need(q) => r == FindModel::<InterpreterModel>::Need(q),
                FindModel::Fail(e) => r == FindModel::<InterpreterModel>::Fail(e),
            }
        }),
{
}

} // verus!
