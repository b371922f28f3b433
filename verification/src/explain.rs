//! What would be done, in words.

use vstd::prelude::*;

use crate::cli::{Cli, CliModel};
use crate::context;
use crate::control::{self, explain_pdeath};
use crate::env_defaults::{self, EnvDefaultLog, EnvLogModel};
use crate::error::{self, Error, ErrorModel};
use crate::expand::{self, resolve_command_args};
use crate::facts::{Find, FindModel, World, WorldModel};
use crate::policy::{
    self, build_landlock_config_for_args, skipped_notes, Policy, PolicyModel,
};
use crate::report;
use crate::signals;
use crate::text::{self, chars_of, decimal_text, escape_bytes, has_char};

verus! {

/// What the settings were before the environment was asked.
#[derive(Clone, Copy, Debug)]
pub struct ExplainOrigins {
    pub subreaper: bool,
    pub pgroup_kill: bool,
    pub verbosity: u8,
}

/// What would be run, and what it would be restricted to.
#[derive(Debug)]
pub struct ExplainPlatform {
    pub effective_cmd: Vec<String>,
    pub policy: Option<Policy>,
}

/// What an [`ExplainPlatform`] holds.
pub struct PlatformModel {
    pub effective_cmd: Seq<Seq<char>>,
    pub policy: Option<PolicyModel>,
}

impl View for ExplainPlatform {
    type V = PlatformModel;

    open spec fn view(&self) -> PlatformModel {
        PlatformModel {
            effective_cmd: text::texts(self.effective_cmd@),
            policy: match self.policy {
                Some(p) => Some(p@),
                None => None,
            },
        }
    }
}

/// What would be run, and what it would be restricted to.
pub open spec fn platform_of(w: WorldModel, m: CliModel) -> FindModel<PlatformModel> {
    match expand::command(m.cmd, m.expand_env, w.context.environment) {
        Err(e) => FindModel::Fail(e),
        Ok(effective_cmd) => match policy::restrictions(w, m, effective_cmd) {
            FindModel::Need(q) => FindModel::Need(q),
            FindModel::Fail(e) => FindModel::Fail(e),
            FindModel::Found(policy) => FindModel::Found(PlatformModel { effective_cmd, policy }),
        },
    }
}

pub open spec fn find_platform(r: Find<ExplainPlatform>) -> FindModel<PlatformModel> {
    match r {
        Find::Need(q) => FindModel::Need(q@),
        Find::Fail(e) => FindModel::Fail(e@),
        Find::Found(x) => FindModel::Found(x@),
    }
}

/// What would be run, and what it would be restricted to.
pub fn collect_explain_platform(w: &World, cli: &Cli) -> (r: Find<ExplainPlatform>)
    ensures
        find_platform(r) == platform_of(w@, cli@),
{
    match resolve_command_args(&cli.cmd, cli.expand_env, &w.context.environment) {
        Err(e) => Find::Fail(e),
        Ok(effective_cmd) => match build_landlock_config_for_args(w, cli, &effective_cmd) {
            Find::Need(q) => Find::Need(q),
            Find::Fail(e) => Find::Fail(e),
            Find::Found(policy) => Find::Found(ExplainPlatform { effective_cmd, policy }),
        },
    }
}

// ---------------------------------------------------------------------------
// Values
// ---------------------------------------------------------------------------

/// How the standard library shows a text with its quotes.
pub uninterp spec fn debug_text(s: Seq<char>) -> Seq<char>;

/// The `Debug` form of a text, as `format!` writes it: in quotes, with escapes. Which characters
/// are escaped is only named, by `debug_text`.
#[verifier::external_body]
fn debug_str(s: &str) -> (r: String)
    ensures
        r@ == debug_text(s@),
{
    format!("{s:?}")
}

pub open spec fn flag_text(b: bool) -> Seq<char> {
    if b {
        "true"@
    } else {
        "false"@
    }
}

fn flag(b: bool) -> (r: &'static str)
    ensures
        r@ == flag_text(b),
{
    if b {
        "true"
    } else {
        "false"
    }
}

/// A list as it is shown.
pub open spec fn list_text(items: Seq<Seq<char>>) -> Seq<char> {
    "["@ + signals::joined(items, ", "@) + "]"@
}

fn list(items: &Vec<String>) -> (r: String)
    ensures
        r@ == list_text(text::texts(items@)),
{
    let ghost all = text::texts(items@);
    let mut out = "[".to_owned();
    let mut i: usize = 0;
    assert(all.take(0) =~= Seq::empty());
    assert("["@ + signals::joined(all.take(0), ", "@) =~= "["@);
    while i < items.len()
        invariant
            i <= items@.len(),
            all == text::texts(items@),
            out@ == "["@ + signals::joined(all.take(i as int), ", "@),
        decreases items@.len() - i,
    {
        proof {
            assert(all.take(i + 1).drop_last() =~= all.take(i as int));
            assert(all.take(i + 1).last() == items@[i as int]@);
        }
        if i > 0 {
            out.append(", ");
        }
        out.append(items[i].as_str());
        proof {
            let before = signals::joined(all.take(i as int), ", "@);
            if i > 0 {
                assert("["@ + before + ", "@ + items@[i as int]@ =~= "["@ + (before + ", "@
                    + items@[i as int]@));
            } else {
                assert(all.take(1)[0] == items@[0]@);
                assert("["@ + before + items@[0]@ =~= "["@ + items@[0]@);
            }
        }
        i = i + 1;
    }
    assert(all.take(i as int) =~= all);
    out.append("]");
    out
}

/// Texts with the quotes and escapes of the standard library.
pub open spec fn debug_items(v: Seq<Seq<char>>) -> Seq<Seq<char>> {
    Seq::new(v.len(), |i: int| debug_text(v[i]))
}

fn debug_list(v: &Vec<String>) -> (r: String)
    ensures
        r@ == list_text(debug_items(text::texts(v@))),
{
    let mut items: Vec<String> = Vec::new();
    let mut i: usize = 0;
    while i < v.len()
        invariant
            i <= v@.len(),
            items@.len() == i,
            forall|j: int| 0 <= j < i ==> (#[trigger] items@[j])@ == debug_text(v@[j]@),
        decreases v@.len() - i,
    {
        items.push(debug_str(v[i].as_str()));
        i = i + 1;
    }
    assert(text::texts(items@) =~= debug_items(text::texts(v@)));
    list(&items)
}

fn debug_names(v: &Vec<&'static str>) -> (r: String)
    ensures
        r@ == list_text(debug_items(policy::view_names(v@))),
{
    let mut items: Vec<String> = Vec::new();
    let mut i: usize = 0;
    while i < v.len()
        invariant
            i <= v@.len(),
            items@.len() == i,
            forall|j: int| 0 <= j < i ==> (#[trigger] items@[j])@ == debug_text(v@[j]@),
        decreases v@.len() - i,
    {
        items.push(debug_str(v[i]));
        i = i + 1;
    }
    assert(text::texts(items@) =~= debug_items(policy::view_names(v@)));
    list(&items)
}

/// Numbers in base ten.
pub open spec fn byte_items(v: Seq<u8>) -> Seq<Seq<char>> {
    Seq::new(v.len(), |i: int| text::decimal(v[i] as nat))
}

fn byte_list(v: &Vec<u8>) -> (r: String)
    ensures
        r@ == list_text(byte_items(v@)),
{
    let mut items: Vec<String> = Vec::new();
    let mut i: usize = 0;
    while i < v.len()
        invariant
            i <= v@.len(),
            items@.len() == i,
            forall|j: int| 0 <= j < i ==> (#[trigger] items@[j])@ == text::decimal(v@[j] as nat),
        decreases v@.len() - i,
    {
        items.push(decimal_text(v[i] as u64));
        i = i + 1;
    }
    assert(text::texts(items@) =~= byte_items(v@));
    list(&items)
}

/// Ports in base ten.
pub open spec fn port_items(v: Seq<u16>) -> Seq<Seq<char>> {
    Seq::new(v.len(), |i: int| text::decimal(v[i] as nat))
}

fn port_list(v: &Vec<u16>) -> (r: String)
    ensures
        r@ == list_text(port_items(v@)),
{
    let mut items: Vec<String> = Vec::new();
    let mut i: usize = 0;
    while i < v.len()
        invariant
            i <= v@.len(),
            items@.len() == i,
            forall|j: int| 0 <= j < i ==> (#[trigger] items@[j])@ == text::decimal(v@[j] as nat),
        decreases v@.len() - i,
    {
        items.push(decimal_text(v[i] as u64));
        i = i + 1;
    }
    assert(text::texts(items@) =~= port_items(v@));
    list(&items)
}

/// Texts in quotes, as they are.
pub open spec fn quoted_items(v: Seq<Seq<char>>) -> Seq<Seq<char>> {
    Seq::new(v.len(), |i: int| "\""@ + v[i] + "\""@)
}

/// A list of texts that are escaped already.
pub fn escaped_list(values: &Vec<String>) -> (r: String)
    ensures
        r@ == list_text(quoted_items(text::texts(values@))),
{
    let mut items: Vec<String> = Vec::new();
    let mut i: usize = 0;
    while i < values.len()
        invariant
            i <= values@.len(),
            items@.len() == i,
            forall|j: int|
                0 <= j < i ==> (#[trigger] items@[j])@ == "\""@ + values@[j]@ + "\""@,
        decreases values@.len() - i,
    {
        let mut item = "\"".to_owned();
        item.append(values[i].as_str());
        item.append("\"");
        items.push(item);
        i = i + 1;
    }
    assert(text::texts(items@) =~= quoted_items(text::texts(values@)));
    list(&items)
}

/// Paths as they are shown.
pub open spec fn shown_paths(v: Seq<Seq<u8>>) -> Seq<Seq<char>> {
    Seq::new(v.len(), |i: int| report::shown_path(v[i]))
}

fn path_list(v: &Vec<Vec<u8>>) -> (r: String)
    ensures
        r@ == list_text(quoted_items(shown_paths(context::view_paths(v@)))),
{
    let mut items: Vec<String> = Vec::new();
    let mut i: usize = 0;
    while i < v.len()
        invariant
            i <= v@.len(),
            items@.len() == i,
            forall|j: int| 0 <= j < i ==> (#[trigger] items@[j])@ == report::shown_path(v@[j]@),
        decreases v@.len() - i,
    {
        items.push(escape_bytes(v[i].as_slice()));
        i = i + 1;
    }
    assert(text::texts(items@) =~= shown_paths(context::view_paths(v@)));
    escaped_list(&items)
}

// ---------------------------------------------------------------------------
// Sources
// ---------------------------------------------------------------------------

/// Where a setting came from.
pub open spec fn source_text(configured: bool, name: Option<Seq<char>>) -> Seq<char> {
    if configured {
        "configured"@
    } else {
        match name {
            Some(n) => "env:"@ + n,
            None => "default"@,
        }
    }
}

fn source(configured: bool, name: Option<&'static str>) -> (r: String)
    ensures
        r@ == source_text(
            configured,
            match name {
                Some(n) => Some(n@),
                None => None,
            },
        ),
{
    if configured {
        return "configured".to_owned();
    }
    match name {
        Some(n) => {
            let mut out = "env:".to_owned();
            out.append(n);
            out
        },
        None => "default".to_owned(),
    }
}

pub open spec fn name_of(v: Option<(Seq<char>, bool)>) -> Option<Seq<char>> {
    match v {
        Some((name, on)) => Some(name),
        None => None,
    }
}

/// Where the subreaper setting came from. A warning about reaped children asks for it too.
pub open spec fn subreaper_origin(o: ExplainOrigins, log: EnvLogModel, implied: bool) -> Seq<char> {
    if !o.subreaper && implied {
        "--warn-on-reap"@
    } else {
        source_text(o.subreaper, name_of(log.subreaper_env))
    }
}

/// Where the subreaper setting came from.
pub fn subreaper_source(origins: &ExplainOrigins, env_defaults: &EnvDefaultLog, implied: bool) -> (r:
    String)
    ensures
        r@ == subreaper_origin(*origins, env_defaults@, implied),
{
    if !origins.subreaper && implied {
        return "--warn-on-reap".to_owned();
    }
    let name = match env_defaults.subreaper_env {
        Some((name, _)) => Some(name),
        None => None,
    };
    source(origins.subreaper, name)
}

/// Where the setting for process groups came from.
pub fn pgroup_kill_source(origins: &ExplainOrigins, env_defaults: &EnvDefaultLog) -> (r: String)
    ensures
        r@ == source_text(origins.pgroup_kill, name_of(env_defaults@.pgroup_env)),
{
    let name = match env_defaults.pgroup_env {
        Some((name, _)) => Some(name),
        None => None,
    };
    source(origins.pgroup_kill, name)
}

pub open spec fn level_name(v: Option<(Seq<char>, u8)>) -> Option<Seq<char>> {
    match v {
        Some((name, level)) => Some(name),
        None => None,
    }
}

/// Where the verbosity came from.
pub fn verbosity_source(origins: &ExplainOrigins, env_defaults: &EnvDefaultLog) -> (r: String)
    ensures
        r@ == source_text(origins.verbosity > 0, level_name(env_defaults@.verbosity_env)),
{
    let name = match env_defaults.verbosity_env {
        Some((name, _)) => Some(name),
        None => None,
    };
    source(origins.verbosity > 0, name)
}

// ---------------------------------------------------------------------------
// Lines
// ---------------------------------------------------------------------------

/// Lines, each with its end.
pub open spec fn unlines(lines: Seq<Seq<char>>) -> Seq<char>
    decreases lines.len(),
{
    if lines.len() == 0 {
        Seq::empty()
    } else {
        unlines(lines.drop_last()) + lines.last() + "\n"@
    }
}

fn join_lines(lines: &Vec<String>) -> (r: String)
    ensures
        r@ == unlines(text::texts(lines@)),
{
    let ghost all = text::texts(lines@);
    let mut out = "".to_owned();
    let mut i: usize = 0;
    proof {
        reveal_strlit("");
        assert(out@ =~= Seq::empty());
        assert(all.take(0) =~= Seq::empty());
    }
    while i < lines.len()
        invariant
            i <= lines@.len(),
            all == text::texts(lines@),
            out@ == unlines(all.take(i as int)),
        decreases lines@.len() - i,
    {
        proof {
            assert(all.take(i + 1).drop_last() =~= all.take(i as int));
            assert(all.take(i + 1).last() == lines@[i as int]@);
        }
        out.append(lines[i].as_str());
        out.append("\n");
        i = i + 1;
    }
    assert(all.take(i as int) =~= all);
    out
}

fn put(out: &mut Vec<String>, label: &str, value: &str)
    ensures
        text::texts(final(out)@) == text::texts(old(out)@).push(label@ + value@),
{
    let mut line = label.to_owned();
    line.append(value);
    let ghost said = line@;
    out.push(line);
    assert(text::texts(out@) =~= text::texts(old(out)@).push(said));
}

fn put_line(out: &mut Vec<String>, line: &str)
    ensures
        text::texts(final(out)@) == text::texts(old(out)@).push(line@),
{
    out.push(line.to_owned());
    assert(text::texts(out@) =~= text::texts(old(out)@).push(line@));
}

/// The lines about reaping and logging.
pub open spec fn process_lines(
    m: CliModel,
    pdeath: Seq<char>,
    o: ExplainOrigins,
    log: EnvLogModel,
    implied: bool,
) -> Seq<Seq<char>> {
    seq![
        "mode: explain"@,
        "subreaper: "@ + flag_text(m.subreaper),
        "subreaper.source: "@ + subreaper_origin(o, log, implied),
        "pdeath: "@ + pdeath,
        "verbosity: "@ + text::decimal(
            (if m.verbosity < 3 {
                m.verbosity
            } else {
                3
            }) as nat,
        ),
        "verbosity.source: "@ + source_text(o.verbosity > 0, level_name(log.verbosity_env)),
        "warn_on_reap: "@ + flag_text(m.warn_on_reap),
        "pgroup_kill: "@ + flag_text(m.pgroup_kill),
        "pgroup_kill.source: "@ + source_text(o.pgroup_kill, name_of(log.pgroup_env)),
    ]
}

/// The lines about the command.
pub open spec fn command_lines(m: CliModel, effective: Seq<Seq<char>>) -> Seq<Seq<char>> {
    seq![
        "grace_ms: "@ + text::decimal(m.grace_ms as nat),
        "remap_exit: "@ + list_text(byte_items(m.remap_exit)),
        "expand_env: "@ + flag_text(m.expand_env),
        "command.present: "@ + flag_text(m.cmd.len() > 0),
        "command.original: "@ + list_text(debug_items(m.cmd)),
        "command.effective: "@ + list_text(debug_items(effective)),
    ]
}

/// The lines about writing.
pub open spec fn write_lines(p: Option<PolicyModel>) -> Seq<Seq<char>> {
    match p {
        Some(c) if c.write_requested => seq![
            "write_restrict.enabled: true"@,
            "write_restrict.backend: landlock"@,
            "write_restrict.presets: "@ + list_text(debug_items(c.preset_names)),
            "write_restrict.warn_only: "@ + flag_text(c.warn_only),
            "write_restrict.dev_writable: "@ + flag_text(!c.no_dev),
            "write_restrict.allow_dirs: "@ + list_text(
                quoted_items(shown_paths(c.writable_dirs)),
            ),
        ],
        _ => seq!["write_restrict.enabled: false"@],
    }
}

/// The lines about TCP.
pub open spec fn tcp_lines(p: Option<PolicyModel>) -> Seq<Seq<char>> {
    match p {
        Some(c) if c.bind_tcp_ports.len() > 0 || c.connect_tcp_ports.len() > 0 => seq![
            "tcp_restrict.enabled: true"@,
            "tcp_restrict.backend: landlock"@,
            "tcp_restrict.warn_only: "@ + flag_text(c.warn_only),
            "tcp_restrict.bind_allow_ports: "@ + list_text(port_items(c.bind_tcp_ports)),
            "tcp_restrict.connect_allow_ports: "@ + list_text(port_items(c.connect_tcp_ports)),
        ],
        _ => seq!["tcp_restrict.enabled: false"@],
    }
}

/// The lines about scopes.
pub open spec fn scope_lines(p: Option<PolicyModel>) -> Seq<Seq<char>> {
    match p {
        Some(c) if c.scope_signals || c.scope_abstract_unix => seq![
            "ipc_scope.enabled: true"@,
            "ipc_scope.backend: landlock"@,
            "ipc_scope.warn_only: "@ + flag_text(c.warn_only),
            "ipc_scope.signals: "@ + flag_text(c.scope_signals),
            "ipc_scope.abstract_unix: "@ + flag_text(c.scope_abstract_unix),
        ],
        _ => seq!["ipc_scope.enabled: false"@],
    }
}

/// The lines about executables.
pub open spec fn exec_lines(p: Option<PolicyModel>) -> Seq<Seq<char>> {
    match p {
        Some(c) if c.exec_requested => seq![
            "exec_restrict.enabled: true"@,
            "exec_restrict.backend: landlock"@,
            "exec_restrict.warn_only: "@ + flag_text(c.warn_only),
            "exec_restrict.allow_paths: "@ + list_text(
                quoted_items(shown_paths(c.exec_allow_paths)),
            ),
        ],
        _ => seq!["exec_restrict.enabled: false"@],
    }
}

/// The lines about device ioctl.
pub open spec fn ioctl_lines(p: Option<PolicyModel>) -> Seq<Seq<char>> {
    match p {
        Some(c) if c.device_ioctl_allow_paths.len() > 0 => seq![
            "device_ioctl_restrict.enabled: true"@,
            "device_ioctl_restrict.backend: landlock"@,
            "device_ioctl_restrict.warn_only: "@ + flag_text(c.warn_only),
            "device_ioctl_restrict.allow_paths: "@ + list_text(
                quoted_items(shown_paths(c.device_ioctl_allow_paths)),
            ),
        ],
        _ => seq!["device_ioctl_restrict.enabled: false"@],
    }
}

pub open spec fn invalid_flag_lines(v: Seq<(Seq<char>, Seq<u8>)>) -> Seq<Seq<char>> {
    Seq::new(
        v.len(),
        |i: int|
            "- invalid boolean env default "@ + v[i].0 + "="@ + report::shown_path(v[i].1),
    )
}

pub open spec fn verbosity_error_lines(v: Option<(Seq<char>, Seq<u8>, Seq<char>)>) -> Seq<
    Seq<char>,
> {
    match v {
        None => Seq::empty(),
        Some((name, value, e)) => seq![
            "- invalid "@ + name + "="@ + report::shown_path(value) + ": "@ + e,
        ],
    }
}

/// The lines about what is wrong in the environment.
pub open spec fn warning_lines(log: EnvLogModel) -> Seq<Seq<char>> {
    if log.invalid_flags.len() == 0 && log.verbosity_error is None {
        Seq::empty()
    } else {
        seq!["warnings:"@] + invalid_flag_lines(log.invalid_flags) + verbosity_error_lines(
            log.verbosity_error,
        )
    }
}

/// All lines.
pub open spec fn explain_lines(
    m: CliModel,
    pdeath: Seq<char>,
    p: PlatformModel,
    o: ExplainOrigins,
    log: EnvLogModel,
    implied: bool,
) -> Seq<Seq<char>> {
    process_lines(m, pdeath, o, log, implied) + command_lines(m, p.effective_cmd) + write_lines(
        p.policy,
    ) + tcp_lines(p.policy) + scope_lines(p.policy) + exec_lines(p.policy) + ioctl_lines(p.policy)
        + warning_lines(log)
}

fn put_process(
    out: &mut Vec<String>,
    cli: &Cli,
    pdeath: &str,
    origins: &ExplainOrigins,
    log: &EnvDefaultLog,
    implied: bool,
)
    ensures
        text::texts(final(out)@) == text::texts(old(out)@) + process_lines(
            cli@,
            pdeath@,
            *origins,
            log@,
            implied,
        ),
{
    let ghost before = text::texts(out@);
    put_line(out, "mode: explain");
    put(out, "subreaper: ", flag(cli.subreaper));
    put(out, "subreaper.source: ", subreaper_source(origins, log, implied).as_str());
    put(out, "pdeath: ", pdeath);
    put(out, "verbosity: ", decimal_text(cli.resolved_verbosity() as u64).as_str());
    put(out, "verbosity.source: ", verbosity_source(origins, log).as_str());
    put(out, "warn_on_reap: ", flag(cli.warn_on_reap));
    put(out, "pgroup_kill: ", flag(cli.pgroup_kill));
    put(out, "pgroup_kill.source: ", pgroup_kill_source(origins, log).as_str());
    assert(text::texts(out@) =~= before + process_lines(cli@, pdeath@, *origins, log@, implied));
}

fn put_command(out: &mut Vec<String>, cli: &Cli, effective: &Vec<String>)
    ensures
        text::texts(final(out)@) == text::texts(old(out)@) + command_lines(
            cli@,
            text::texts(effective@),
        ),
{
    let ghost before = text::texts(out@);
    put(out, "grace_ms: ", decimal_text(cli.grace_ms).as_str());
    put(out, "remap_exit: ", byte_list(&cli.remap_exit).as_str());
    put(out, "expand_env: ", flag(cli.expand_env));
    put(out, "command.present: ", flag(cli.cmd.len() > 0));
    put(out, "command.original: ", debug_list(&cli.cmd).as_str());
    put(out, "command.effective: ", debug_list(effective).as_str());
    assert(text::texts(out@) =~= before + command_lines(cli@, text::texts(effective@)));
}

pub open spec fn opt_policy(p: Option<Policy>) -> Option<PolicyModel> {
    match p {
        Some(x) => Some(x@),
        None => None,
    }
}

fn put_write(out: &mut Vec<String>, policy: &Option<Policy>)
    ensures
        text::texts(final(out)@) == text::texts(old(out)@) + write_lines(opt_policy(*policy)),
{
    let ghost before = text::texts(out@);
    if let Some(p) = policy {
        let c = &p.config;
        if c.write_requested {
            put_line(out, "write_restrict.enabled: true");
            put_line(out, "write_restrict.backend: landlock");
            put(out, "write_restrict.presets: ", debug_names(&c.preset_names).as_str());
            put(out, "write_restrict.warn_only: ", flag(c.warn_only));
            put(out, "write_restrict.dev_writable: ", flag(!c.no_dev));
            put(out, "write_restrict.allow_dirs: ", path_list(&c.writable_dirs).as_str());
            assert(text::texts(out@) =~= before + write_lines(opt_policy(*policy)));
            return;
        }
    }
    put_line(out, "write_restrict.enabled: false");
    assert(text::texts(out@) =~= before + write_lines(opt_policy(*policy)));
}

fn put_tcp(out: &mut Vec<String>, policy: &Option<Policy>)
    ensures
        text::texts(final(out)@) == text::texts(old(out)@) + tcp_lines(opt_policy(*policy)),
{
    let ghost before = text::texts(out@);
    if let Some(p) = policy {
        let c = &p.config;
        if c.bind_tcp_ports.len() > 0 || c.connect_tcp_ports.len() > 0 {
            put_line(out, "tcp_restrict.enabled: true");
            put_line(out, "tcp_restrict.backend: landlock");
            put(out, "tcp_restrict.warn_only: ", flag(c.warn_only));
            put(out, "tcp_restrict.bind_allow_ports: ", port_list(&c.bind_tcp_ports).as_str());
            put(
                out,
                "tcp_restrict.connect_allow_ports: ",
                port_list(&c.connect_tcp_ports).as_str(),
            );
            assert(text::texts(out@) =~= before + tcp_lines(opt_policy(*policy)));
            return;
        }
    }
    put_line(out, "tcp_restrict.enabled: false");
    assert(text::texts(out@) =~= before + tcp_lines(opt_policy(*policy)));
}

fn put_scope(out: &mut Vec<String>, policy: &Option<Policy>)
    ensures
        text::texts(final(out)@) == text::texts(old(out)@) + scope_lines(opt_policy(*policy)),
{
    let ghost before = text::texts(out@);
    if let Some(p) = policy {
        let c = &p.config;
        if c.scope_signals || c.scope_abstract_unix {
            put_line(out, "ipc_scope.enabled: true");
            put_line(out, "ipc_scope.backend: landlock");
            put(out, "ipc_scope.warn_only: ", flag(c.warn_only));
            put(out, "ipc_scope.signals: ", flag(c.scope_signals));
            put(out, "ipc_scope.abstract_unix: ", flag(c.scope_abstract_unix));
            assert(text::texts(out@) =~= before + scope_lines(opt_policy(*policy)));
            return;
        }
    }
    put_line(out, "ipc_scope.enabled: false");
    assert(text::texts(out@) =~= before + scope_lines(opt_policy(*policy)));
}

fn put_exec(out: &mut Vec<String>, policy: &Option<Policy>)
    ensures
        text::texts(final(out)@) == text::texts(old(out)@) + exec_lines(opt_policy(*policy)),
{
    let ghost before = text::texts(out@);
    if let Some(p) = policy {
        let c = &p.config;
        if c.exec_requested {
            put_line(out, "exec_restrict.enabled: true");
            put_line(out, "exec_restrict.backend: landlock");
            put(out, "exec_restrict.warn_only: ", flag(c.warn_only));
            put(out, "exec_restrict.allow_paths: ", path_list(&c.exec_allow_paths).as_str());
            assert(text::texts(out@) =~= before + exec_lines(opt_policy(*policy)));
            return;
        }
    }
    put_line(out, "exec_restrict.enabled: false");
    assert(text::texts(out@) =~= before + exec_lines(opt_policy(*policy)));
}

fn put_ioctl(out: &mut Vec<String>, policy: &Option<Policy>)
    ensures
        text::texts(final(out)@) == text::texts(old(out)@) + ioctl_lines(opt_policy(*policy)),
{
    let ghost before = text::texts(out@);
    if let Some(p) = policy {
        let c = &p.config;
        if c.device_ioctl_allow_paths.len() > 0 {
            put_line(out, "device_ioctl_restrict.enabled: true");
            put_line(out, "device_ioctl_restrict.backend: landlock");
            put(out, "device_ioctl_restrict.warn_only: ", flag(c.warn_only));
            put(
                out,
                "device_ioctl_restrict.allow_paths: ",
                path_list(&c.device_ioctl_allow_paths).as_str(),
            );
            assert(text::texts(out@) =~= before + ioctl_lines(opt_policy(*policy)));
            return;
        }
    }
    put_line(out, "device_ioctl_restrict.enabled: false");
    assert(text::texts(out@) =~= before + ioctl_lines(opt_policy(*policy)));
}

fn put_warnings(out: &mut Vec<String>, log: &EnvDefaultLog)
    ensures
        text::texts(final(out)@) == text::texts(old(out)@) + warning_lines(log@),
{
    let ghost before = text::texts(out@);
    if log.invalid_flags.len() == 0 && log.verbosity_error.is_none() {
        assert(before + warning_lines(log@) =~= before);
        return;
    }
    put_line(out, "warnings:");
    let ghost all = invalid_flag_lines(log@.invalid_flags);
    let ghost start = before + seq!["warnings:"@];
    let mut i: usize = 0;
    assert(text::texts(out@) =~= start + all.take(0));
    while i < log.invalid_flags.len()
        invariant
            i <= log.invalid_flags@.len(),
            all == invalid_flag_lines(log@.invalid_flags),
            text::texts(out@) == start + all.take(i as int),
        decreases log.invalid_flags@.len() - i,
    {
        let mut line = "- invalid boolean env default ".to_owned();
        line.append(log.invalid_flags[i].0);
        line.append("=");
        line.append(escape_bytes(log.invalid_flags[i].1.as_slice()).as_str());
        proof {
            assert(line@ == all[i as int]);
            assert(start + all.take(i + 1) =~= (start + all.take(i as int)).push(all[i as int]));
        }
        put_line(out, line.as_str());
        i = i + 1;
    }
    assert(all.take(i as int) =~= all);
    if let Some((name, value, e)) = &log.verbosity_error {
        let mut line = "- invalid ".to_owned();
        line.append(name);
        line.append("=");
        line.append(escape_bytes(value.as_slice()).as_str());
        line.append(": ");
        line.append(e.as_str());
        put_line(out, line.as_str());
    }
    assert(text::texts(out@) =~= before + warning_lines(log@));
}

/// What stands against explaining a command: an argument that no program can be given.
pub open spec fn unusable(args: Seq<Seq<char>>) -> Option<ErrorModel> {
    if exists|i: int| 0 <= i < args.len() && (#[trigger] args[i]).contains('\0') {
        Some(error::misuse("command argument contains embedded NUL byte"@))
    } else {
        None
    }
}

fn reject_unusable(args: &Vec<String>) -> (r: Result<(), Error>)
    ensures
        match r {
            Ok(_) => unusable(text::texts(args@)) is None,
            Err(e) => unusable(text::texts(args@)) == Some(e@),
        },
{
    let ghost all = text::texts(args@);
    let mut i: usize = 0;
    while i < args.len()
        invariant
            i <= args@.len(),
            all == text::texts(args@),
            forall|j: int| 0 <= j < i ==> !(#[trigger] all[j]).contains('\0'),
        decreases args@.len() - i,
    {
        let chars = chars_of(args[i].as_str());
        assert(all[i as int] == chars@);
        if has_char(chars.as_slice(), '\0') {
            assert(all[i as int].contains('\0'));
            return Err(Error::usage("command argument contains embedded NUL byte".to_owned()));
        }
        i = i + 1;
    }
    Ok(())
}

/// What would be done, in words.
pub open spec fn explained(
    w: WorldModel,
    m: CliModel,
    o: ExplainOrigins,
    log: EnvLogModel,
    implied: bool,
) -> FindModel<Seq<char>> {
    match control::shown_pdeath(m.pdeath) {
        Err(e) => FindModel::Fail(e),
        Ok(pdeath) => match platform_of(w, m) {
            FindModel::Need(q) => FindModel::Need(q),
            FindModel::Fail(e) => FindModel::Fail(e),
            FindModel::Found(p) => match unusable(p.effective_cmd) {
                Some(e) => FindModel::Fail(e),
                None => FindModel::Found(
                    unlines(explain_lines(m, pdeath, p, o, log, implied)),
                ),
            },
        },
    }
}

/// What is skipped in working out what would be done, whether that comes out or not.
pub open spec fn explain_notes(w: WorldModel, m: CliModel) -> Seq<Seq<char>> {
    match (
        control::shown_pdeath(m.pdeath),
        expand::command(m.cmd, m.expand_env, w.context.environment),
    ) {
        (Ok(_), Ok(cmd)) => policy::skipped(w, m, cmd),
        _ => Seq::empty(),
    }
}

/// What would be done, in words, and what was skipped in working it out.
#[derive(Debug)]
pub struct Explanation {
    pub notes: Vec<String>,
    pub outcome: Find<String>,
}

fn notes_on_command(w: &World, cli: &Cli) -> (r: Vec<String>)
    ensures
        control::shown_pdeath(cli@.pdeath) is Ok ==> text::texts(r@) == explain_notes(w@, cli@),
{
    match resolve_command_args(&cli.cmd, cli.expand_env, &w.context.environment) {
        Ok(cmd) => skipped_notes(w, cli, &cmd),
        Err(_) => {
            let none: Vec<String> = Vec::new();
            assert(text::texts(none@) =~= Seq::empty());
            none
        },
    }
}

pub open spec fn find_text(r: Find<String>) -> FindModel<Seq<char>> {
    match r {
        Find::Need(q) => FindModel::Need(q@),
        Find::Fail(e) => FindModel::Fail(e@),
        Find::Found(x) => FindModel::Found(x@),
    }
}

fn explain_text(
    cli: &Cli,
    pdeath: &str,
    platform: &ExplainPlatform,
    origins: &ExplainOrigins,
    log: &EnvDefaultLog,
    implied: bool,
) -> (r: String)
    ensures
        r@ == unlines(
            explain_lines(cli@, pdeath@, platform@, *origins, log@, implied),
        ),
{
    let mut out: Vec<String> = Vec::new();
    assert(text::texts(out@) =~= Seq::empty());
    put_process(&mut out, cli, pdeath, origins, log, implied);
    put_command(&mut out, cli, &platform.effective_cmd);
    put_write(&mut out, &platform.policy);
    put_tcp(&mut out, &platform.policy);
    put_scope(&mut out, &platform.policy);
    put_exec(&mut out, &platform.policy);
    put_ioctl(&mut out, &platform.policy);
    put_warnings(&mut out, log);
    assert(text::texts(out@) =~= explain_lines(
        cli@,
        pdeath@,
        platform@,
        *origins,
        log@,
        implied,
    ));
    join_lines(&out)
}

/// What would be done, in words.
pub fn explain(
    w: &World,
    cli: &Cli,
    origins: &ExplainOrigins,
    env_defaults: &EnvDefaultLog,
    warn_implies_subreaper: bool,
) -> (r: Explanation)
    ensures
        find_text(r.outcome) == explained(
            w@,
            cli@,
            *origins,
            env_defaults@,
            warn_implies_subreaper,
        ),
        text::texts(r.notes@) == explain_notes(w@, cli@),
{
    let pdeath = match explain_pdeath(cli) {
        Err(e) => {
            let notes: Vec<String> = Vec::new();
            assert(text::texts(notes@) =~= Seq::empty());
            return Explanation { notes, outcome: Find::Fail(e) };
        },
        Ok(pdeath) => pdeath,
    };
    let notes = notes_on_command(w, cli);
    let outcome = match collect_explain_platform(w, cli) {
        Find::Need(q) => Find::Need(q),
        Find::Fail(e) => Find::Fail(e),
        Find::Found(platform) => match reject_unusable(&platform.effective_cmd) {
            Err(e) => Find::Fail(e),
            Ok(_) => Find::Found(
                explain_text(
                    cli,
                    pdeath.as_str(),
                    &platform,
                    origins,
                    env_defaults,
                    warn_implies_subreaper,
                ),
            ),
        },
    };
    Explanation { notes, outcome }
}

} // verus!
