//! Access restrictions: what the kernel is asked to handle, and which rules it is given.

use vstd::prelude::*;

use crate::report::{ENOENT, ENOSYS, EOPNOTSUPP};
use crate::text::copy_bytes;

verus! {

pub const ACCESS_FS_EXECUTE: u64 = 1;

pub const ACCESS_FS_WRITE_FILE: u64 = 2;

pub const ACCESS_FS_REMOVE_DIR: u64 = 16;

pub const ACCESS_FS_REMOVE_FILE: u64 = 32;

pub const ACCESS_FS_MAKE_CHAR: u64 = 64;

pub const ACCESS_FS_MAKE_DIR: u64 = 128;

pub const ACCESS_FS_MAKE_REG: u64 = 256;

pub const ACCESS_FS_MAKE_SOCK: u64 = 512;

pub const ACCESS_FS_MAKE_FIFO: u64 = 1024;

pub const ACCESS_FS_MAKE_BLOCK: u64 = 2048;

pub const ACCESS_FS_MAKE_SYM: u64 = 4096;

pub const ACCESS_FS_REFER: u64 = 8192;

pub const ACCESS_FS_TRUNCATE: u64 = 16384;

pub const ACCESS_FS_IOCTL_DEV: u64 = 32768;

pub const ACCESS_NET_BIND_TCP: u64 = 1;

pub const ACCESS_NET_CONNECT_TCP: u64 = 2;

pub const SCOPE_ABSTRACT_UNIX_SOCKET: u64 = 1;

pub const SCOPE_SIGNAL: u64 = 2;

/// What the child is restricted to.
#[derive(Debug)]
pub struct LandlockConfig {
    pub write_requested: bool,
    pub warn_only: bool,
    pub no_dev: bool,
    pub preset_names: Vec<&'static str>,
    pub writable_dirs: Vec<Vec<u8>>,
    /// The directory of devices, where it is writable by default and there.
    pub dev_dir: Option<Vec<u8>>,
    pub bind_tcp_ports: Vec<u16>,
    pub connect_tcp_ports: Vec<u16>,
    pub scope_signals: bool,
    pub scope_abstract_unix: bool,
    pub exec_requested: bool,
    pub exec_allow_paths: Vec<Vec<u8>>,
    pub device_ioctl_allow_paths: Vec<Vec<u8>>,
}

/// Why the child could not be restricted.
#[derive(Debug)]
pub enum LandlockError {
    NotSupported,
    AbiTooOld { feature: &'static str, required_abi: u32, current_abi: u32 },
    QueryAbi(i32),
    CreateRuleset(i32),
    OpenPath { path: Vec<u8>, errno: i32 },
    AddRule { path: Vec<u8>, errno: i32 },
    AddNetPortRule { port: u16, action: &'static str, errno: i32 },
    SetNoNewPrivs(i32),
    RestrictSelf(i32),
}

/// What a [`LandlockError`] says.
pub enum LandlockErrorModel {
    NotSupported,
    AbiTooOld { feature: Seq<char>, required_abi: u32, current_abi: u32 },
    QueryAbi(i32),
    CreateRuleset(i32),
    OpenPath { path: Seq<u8>, errno: i32 },
    AddRule { path: Seq<u8>, errno: i32 },
    AddNetPortRule { port: u16, action: Seq<char>, errno: i32 },
    SetNoNewPrivs(i32),
    RestrictSelf(i32),
}

impl View for LandlockError {
    type V = LandlockErrorModel;

    open spec fn view(&self) -> LandlockErrorModel {
        match *self {
            LandlockError::NotSupported => LandlockErrorModel::NotSupported,
            LandlockError::AbiTooOld { feature, required_abi, current_abi } =>
                LandlockErrorModel::AbiTooOld { feature: feature@, required_abi, current_abi },
            LandlockError::QueryAbi(e) => LandlockErrorModel::QueryAbi(e),
            LandlockError::CreateRuleset(e) => LandlockErrorModel::CreateRuleset(e),
            LandlockError::OpenPath { path, errno } => LandlockErrorModel::OpenPath {
                path: path@,
                errno,
            },
            LandlockError::AddRule { path, errno } => LandlockErrorModel::AddRule {
                path: path@,
                errno,
            },
            LandlockError::AddNetPortRule { port, action, errno } =>
                LandlockErrorModel::AddNetPortRule { port, action: action@, errno },
            LandlockError::SetNoNewPrivs(e) => LandlockErrorModel::SetNoNewPrivs(e),
            LandlockError::RestrictSelf(e) => LandlockErrorModel::RestrictSelf(e),
        }
    }
}

/// The error of a kernel that lacks a feature.
pub open spec fn too_old(feature: Seq<char>, required_abi: u32, current_abi: u32) -> LandlockErrorModel {
    LandlockErrorModel::AbiTooOld { feature, required_abi, current_abi }
}

/// A mask that was worked out, as the contracts speak of it.
pub open spec fn mask_result(r: Result<u64, LandlockError>) -> Result<u64, LandlockErrorModel> {
    match r {
        Ok(m) => Ok(m),
        Err(e) => Err(e@),
    }
}

// ---------------------------------------------------------------------------
// Masks
// ---------------------------------------------------------------------------

/// All ways of changing the file system.
pub open spec fn all_writes() -> u64 {
    ACCESS_FS_WRITE_FILE | ACCESS_FS_REMOVE_DIR | ACCESS_FS_REMOVE_FILE | ACCESS_FS_MAKE_CHAR
        | ACCESS_FS_MAKE_DIR | ACCESS_FS_MAKE_REG | ACCESS_FS_MAKE_SOCK | ACCESS_FS_MAKE_FIFO
        | ACCESS_FS_MAKE_BLOCK | ACCESS_FS_MAKE_SYM | ACCESS_FS_REFER | ACCESS_FS_TRUNCATE
}

/// The ways of changing the file system that are handled. Without truncation the kernel could be
/// got around, so it has to know about it.
pub open spec fn write_mask(abi: u32, requested: bool) -> Result<u64, LandlockErrorModel> {
    if !requested {
        Ok(0)
    } else if abi < 3 {
        Err(too_old("filesystem write restrictions"@, 3, abi))
    } else {
        Ok(all_writes())
    }
}

/// The ways of changing the file system that are handled.
pub fn handled_write_access_fs(abi_version: u32, requested: bool) -> (r: Result<u64, LandlockError>)
    ensures
        mask_result(r) == write_mask(abi_version, requested),
{
    if !requested {
        return Ok(0);
    }
    if abi_version < 3 {
        return Err(
            LandlockError::AbiTooOld {
                feature: "filesystem write restrictions",
                required_abi: 3,
                current_abi: abi_version,
            },
        );
    }
    Ok(
        ACCESS_FS_WRITE_FILE | ACCESS_FS_REMOVE_DIR | ACCESS_FS_REMOVE_FILE | ACCESS_FS_MAKE_CHAR
            | ACCESS_FS_MAKE_DIR | ACCESS_FS_MAKE_REG | ACCESS_FS_MAKE_SOCK | ACCESS_FS_MAKE_FIFO
            | ACCESS_FS_MAKE_BLOCK | ACCESS_FS_MAKE_SYM | ACCESS_FS_REFER | ACCESS_FS_TRUNCATE,
    )
}

/// What is allowed in a writable directory: all that is handled but for making devices.
pub open spec fn allowed_writes(handled: u64) -> u64 {
    handled & !(ACCESS_FS_MAKE_CHAR | ACCESS_FS_MAKE_BLOCK)
}

/// What is allowed in a writable directory.
pub fn allowed_write_access_fs(handled_writes: u64) -> (r: u64)
    ensures
        r == allowed_writes(handled_writes),
{
    handled_writes & !(ACCESS_FS_MAKE_CHAR | ACCESS_FS_MAKE_BLOCK)
}

/// Whether execution is handled.
pub open spec fn execute_mask(requested: bool) -> u64 {
    if requested {
        ACCESS_FS_EXECUTE
    } else {
        0
    }
}

/// Whether execution is handled.
pub fn handled_execute_access(requested: bool) -> (r: u64)
    ensures
        r == execute_mask(requested),
{
    if requested {
        ACCESS_FS_EXECUTE
    } else {
        0
    }
}

/// Whether device ioctl is handled.
pub open spec fn ioctl_mask(abi: u32, requested: bool) -> Result<u64, LandlockErrorModel> {
    if !requested {
        Ok(0)
    } else if abi < 5 {
        Err(too_old("device ioctl restrictions"@, 5, abi))
    } else {
        Ok(ACCESS_FS_IOCTL_DEV)
    }
}

/// Whether device ioctl is handled.
pub fn handled_ioctl_access(abi_version: u32, requested: bool) -> (r: Result<u64, LandlockError>)
    ensures
        mask_result(r) == ioctl_mask(abi_version, requested),
{
    if !requested {
        return Ok(0);
    }
    if abi_version < 5 {
        return Err(
            LandlockError::AbiTooOld {
                feature: "device ioctl restrictions",
                required_abi: 5,
                current_abi: abi_version,
            },
        );
    }
    Ok(ACCESS_FS_IOCTL_DEV)
}

/// What of the network is handled.
pub open spec fn network_mask(abi: u32, bind: bool, connect: bool) -> Result<
    u64,
    LandlockErrorModel,
> {
    if !bind && !connect {
        Ok(0)
    } else if abi < 4 {
        Err(too_old("TCP port restrictions"@, 4, abi))
    } else if bind && connect {
        Ok(ACCESS_NET_BIND_TCP | ACCESS_NET_CONNECT_TCP)
    } else if bind {
        Ok(ACCESS_NET_BIND_TCP)
    } else {
        Ok(ACCESS_NET_CONNECT_TCP)
    }
}

/// What of the network is handled.
pub fn handled_network_access(abi_version: u32, allow_bind_tcp: bool, allow_connect_tcp: bool) -> (r:
    Result<u64, LandlockError>)
    ensures
        mask_result(r) == network_mask(abi_version, allow_bind_tcp, allow_connect_tcp),
{
    if !allow_bind_tcp && !allow_connect_tcp {
        return Ok(0);
    }
    if abi_version < 4 {
        return Err(
            LandlockError::AbiTooOld {
                feature: "TCP port restrictions",
                required_abi: 4,
                current_abi: abi_version,
            },
        );
    }
    if allow_bind_tcp && allow_connect_tcp {
        Ok(ACCESS_NET_BIND_TCP | ACCESS_NET_CONNECT_TCP)
    } else if allow_bind_tcp {
        Ok(ACCESS_NET_BIND_TCP)
    } else {
        Ok(ACCESS_NET_CONNECT_TCP)
    }
}

/// What is limited to the domain of the child.
pub open spec fn scope_mask(abi: u32, signals: bool, abstract_unix: bool) -> Result<
    u64,
    LandlockErrorModel,
> {
    if !signals && !abstract_unix {
        Ok(0)
    } else if abi < 6 {
        Err(too_old("IPC scopes"@, 6, abi))
    } else if signals && abstract_unix {
        Ok(SCOPE_ABSTRACT_UNIX_SOCKET | SCOPE_SIGNAL)
    } else if abstract_unix {
        Ok(SCOPE_ABSTRACT_UNIX_SOCKET)
    } else {
        Ok(SCOPE_SIGNAL)
    }
}

/// What is limited to the domain of the child.
pub fn handled_scope_access(abi_version: u32, scope_signals: bool, scope_abstract_unix: bool) -> (r:
    Result<u64, LandlockError>)
    ensures
        mask_result(r) == scope_mask(abi_version, scope_signals, scope_abstract_unix),
{
    if !scope_signals && !scope_abstract_unix {
        return Ok(0);
    }
    if abi_version < 6 {
        return Err(
            LandlockError::AbiTooOld {
                feature: "IPC scopes",
                required_abi: 6,
                current_abi: abi_version,
            },
        );
    }
    if scope_signals && scope_abstract_unix {
        Ok(SCOPE_ABSTRACT_UNIX_SOCKET | SCOPE_SIGNAL)
    } else if scope_abstract_unix {
        Ok(SCOPE_ABSTRACT_UNIX_SOCKET)
    } else {
        Ok(SCOPE_SIGNAL)
    }
}

/// Whether an error number means that the kernel lacks the feature.
pub open spec fn means_unsupported(errno: i32) -> bool {
    errno == ENOSYS || errno == EOPNOTSUPP
}

/// Whether an error number means that the kernel lacks the feature.
pub fn errno_indicates_not_supported(errno: i32) -> (r: bool)
    ensures
        r == means_unsupported(errno),
{
    errno == ENOSYS || errno == EOPNOTSUPP
}

// ---------------------------------------------------------------------------
// Rules
// ---------------------------------------------------------------------------

/// A rule that the kernel is given.
#[derive(Debug)]
pub enum Rule {
    /// Access to what lies beneath a path, which may have to be a directory.
    Path { path: Vec<u8>, access: u64, directory: bool },
    /// Access to a port.
    Port { port: u16, access: u64 },
}

/// What a [`Rule`] says.
pub enum RuleModel {
    Path { path: Seq<u8>, access: u64, directory: bool },
    Port { port: u16, access: u64 },
}

impl View for Rule {
    type V = RuleModel;

    open spec fn view(&self) -> RuleModel {
        match *self {
            Rule::Path { path, access, directory } => RuleModel::Path {
                path: path@,
                access,
                directory,
            },
            Rule::Port { port, access } => RuleModel::Port { port, access },
        }
    }
}

pub open spec fn view_rules(v: Seq<Rule>) -> Seq<RuleModel> {
    Seq::new(v.len(), |i: int| v[i]@)
}

/// Rules for paths that are all given the same access.
pub open spec fn path_rules(paths: Seq<Vec<u8>>, access: u64, directory: bool) -> Seq<RuleModel> {
    Seq::new(
        paths.len(),
        |i: int| RuleModel::Path { path: paths[i]@, access, directory },
    )
}

/// Rules for ports that are all given the same access.
pub open spec fn port_rules(ports: Seq<u16>, access: u64) -> Seq<RuleModel> {
    Seq::new(ports.len(), |i: int| RuleModel::Port { port: ports[i], access })
}

/// What the kernel is asked for: what it has to handle, and the exceptions.
#[derive(Debug)]
pub struct Restriction {
    pub abi_version: u32,
    pub handled_fs: u64,
    pub handled_net: u64,
    pub scoped: u64,
    pub rules: Vec<Rule>,
}

/// What a [`Restriction`] holds.
pub struct RestrictionModel {
    pub abi_version: u32,
    pub handled_fs: u64,
    pub handled_net: u64,
    pub scoped: u64,
    pub rules: Seq<RuleModel>,
}

impl View for Restriction {
    type V = RestrictionModel;

    open spec fn view(&self) -> RestrictionModel {
        RestrictionModel {
            abi_version: self.abi_version,
            handled_fs: self.handled_fs,
            handled_net: self.handled_net,
            scoped: self.scoped,
            rules: view_rules(self.rules@),
        }
    }
}

/// The rule for the directory of devices: its files may be written, nothing more.
pub open spec fn dev_rules(dev_dir: Option<Vec<u8>>) -> Seq<RuleModel> {
    match dev_dir {
        Some(path) => seq![
            RuleModel::Path { path: path@, access: ACCESS_FS_WRITE_FILE, directory: true },
        ],
        None => Seq::empty(),
    }
}

/// The rules of a configuration, in the order in which they are added.
pub open spec fn all_rules(c: LandlockConfig, writes: u64) -> Seq<RuleModel> {
    dev_rules(c.dev_dir) + path_rules(c.writable_dirs@, allowed_writes(writes), true) + path_rules(
        c.exec_allow_paths@,
        ACCESS_FS_EXECUTE,
        false,
    ) + path_rules(c.device_ioctl_allow_paths@, ACCESS_FS_IOCTL_DEV, false) + port_rules(
        c.bind_tcp_ports@,
        ACCESS_NET_BIND_TCP,
    ) + port_rules(c.connect_tcp_ports@, ACCESS_NET_CONNECT_TCP)
}

/// What the kernel is asked for on behalf of a configuration. The first feature that it lacks
/// counts, and so does having nothing to ask for.
pub open spec fn planned(c: LandlockConfig, abi: u32) -> Result<
    RestrictionModel,
    LandlockErrorModel,
> {
    let writes = write_mask(abi, c.write_requested);
    let ioctl = ioctl_mask(abi, c.device_ioctl_allow_paths@.len() > 0);
    let net = network_mask(abi, c.bind_tcp_ports@.len() > 0, c.connect_tcp_ports@.len() > 0);
    let scope = scope_mask(abi, c.scope_signals, c.scope_abstract_unix);
    if writes is Err {
        Err(writes->Err_0)
    } else if ioctl is Err {
        Err(ioctl->Err_0)
    } else if net is Err {
        Err(net->Err_0)
    } else if scope is Err {
        Err(scope->Err_0)
    } else {
        let fs = writes->Ok_0 | execute_mask(c.exec_requested) | ioctl->Ok_0;
        if fs == 0 && net->Ok_0 == 0 && scope->Ok_0 == 0 {
            Err(LandlockErrorModel::NotSupported)
        } else {
            Ok(
                RestrictionModel {
                    abi_version: abi,
                    handled_fs: fs,
                    handled_net: net->Ok_0,
                    scoped: scope->Ok_0,
                    rules: all_rules(c, writes->Ok_0),
                },
            )
        }
    }
}

fn push_path_rules(out: &mut Vec<Rule>, paths: &Vec<Vec<u8>>, access: u64, directory: bool)
    ensures
        view_rules(final(out)@) == view_rules(old(out)@) + path_rules(paths@, access, directory),
{
    let ghost start = view_rules(out@);
    let mut i: usize = 0;
    while i < paths.len()
        invariant
            i <= paths@.len(),
            view_rules(out@) =~= start + path_rules(paths@, access, directory).take(i as int),
        decreases paths@.len() - i,
    {
        let rule = Rule::Path { path: copy_bytes(paths[i].as_slice()), access, directory };
        let ghost before = out@;
        out.push(rule);
        proof {
            assert(view_rules(out@) =~= view_rules(before).push(rule@));
        }
        i = i + 1;
    }
    proof {
        assert(path_rules(paths@, access, directory).take(i as int) =~= path_rules(
            paths@,
            access,
            directory,
        ));
    }
}

fn push_port_rules(out: &mut Vec<Rule>, ports: &Vec<u16>, access: u64)
    ensures
        view_rules(final(out)@) == view_rules(old(out)@) + port_rules(ports@, access),
{
    let ghost start = view_rules(out@);
    let mut i: usize = 0;
    while i < ports.len()
        invariant
            i <= ports@.len(),
            view_rules(out@) =~= start + port_rules(ports@, access).take(i as int),
        decreases ports@.len() - i,
    {
        let rule = Rule::Port { port: ports[i], access };
        let ghost before = out@;
        out.push(rule);
        proof {
            assert(view_rules(out@) =~= view_rules(before).push(rule@));
        }
        i = i + 1;
    }
    proof {
        assert(port_rules(ports@, access).take(i as int) =~= port_rules(ports@, access));
    }
}

/// A plan that was made, as the contracts speak of it.
pub open spec fn plan_result(r: Result<Restriction, LandlockError>) -> Result<
    RestrictionModel,
    LandlockErrorModel,
> {
    match r {
        Ok(p) => Ok(p@),
        Err(e) => Err(e@),
    }
}

/// What the kernel of the given version is asked for.
pub fn plan(config: &LandlockConfig, abi_version: u32) -> (r: Result<Restriction, LandlockError>)
    ensures
        plan_result(r) == planned(*config, abi_version),
{
    let writes: u64 = match handled_write_access_fs(abi_version, config.write_requested) {
        Ok(m) => m,
        Err(e) => return Err(e),
    };
    let ioctl: u64 = match handled_ioctl_access(
        abi_version,
        config.device_ioctl_allow_paths.len() > 0,
    ) {
        Ok(m) => m,
        Err(e) => return Err(e),
    };
    let net: u64 = match handled_network_access(
        abi_version,
        config.bind_tcp_ports.len() > 0,
        config.connect_tcp_ports.len() > 0,
    ) {
        Ok(m) => m,
        Err(e) => return Err(e),
    };
    let scope: u64 = match handled_scope_access(
        abi_version,
        config.scope_signals,
        config.scope_abstract_unix,
    ) {
        Ok(m) => m,
        Err(e) => return Err(e),
    };
    let fs: u64 = writes | handled_execute_access(config.exec_requested) | ioctl;
    if fs == 0 && net == 0 && scope == 0 {
        return Err(LandlockError::NotSupported);
    }
    let allowed: u64 = allowed_write_access_fs(writes);
    let mut rules: Vec<Rule> = Vec::new();
    if let Some(dev) = &config.dev_dir {
        rules.push(
            Rule::Path {
                path: copy_bytes(dev.as_slice()),
                access: ACCESS_FS_WRITE_FILE,
                directory: true,
            },
        );
    }
    proof {
        assert(view_rules(rules@) =~= dev_rules(config.dev_dir));
    }
    push_path_rules(&mut rules, &config.writable_dirs, allowed, true);
    push_path_rules(&mut rules, &config.exec_allow_paths, ACCESS_FS_EXECUTE, false);
    push_path_rules(&mut rules, &config.device_ioctl_allow_paths, ACCESS_FS_IOCTL_DEV, false);
    push_port_rules(&mut rules, &config.bind_tcp_ports, ACCESS_NET_BIND_TCP);
    push_port_rules(&mut rules, &config.connect_tcp_ports, ACCESS_NET_CONNECT_TCP);
    Ok(Restriction { abi_version, handled_fs: fs, handled_net: net, scoped: scope, rules })
}

// ---------------------------------------------------------------------------
// Applying
// ---------------------------------------------------------------------------

/// How many of the three masks a kernel takes.
pub open spec fn mask_count(abi: u32) -> int {
    if abi >= 6 {
        3
    } else if abi >= 4 {
        2
    } else {
        1
    }
}

/// How many of the three masks a kernel takes: one for files, later one for the network, and later
/// one for scopes.
pub fn ruleset_masks(abi_version: u32) -> (r: usize)
    ensures
        r == mask_count(abi_version),
        r == if abi_version >= 6 {
            3int
        } else if abi_version >= 4 {
            2
        } else {
            1
        },
{
    if abi_version >= 6 {
        3
    } else if abi_version >= 4 {
        2
    } else {
        1
    }
}

/// A system call that is to be made.
#[derive(Debug)]
pub enum Request {
    /// Ask for the version of the interface.
    QueryAbi,
    /// Make a set of rules, of the layout that the version knows.
    CreateRuleset { abi_version: u32, handled_fs: u64, handled_net: u64, scoped: u64 },
    /// Add the rule at this index.
    AddRule(usize),
    /// Give up the right to gain privileges.
    SetNoNewPrivs,
    /// Enforce the rules.
    RestrictSelf,
    /// Nothing is left to do: the child is restricted.
    Done(u32),
    /// The child is not restricted.
    Failed(LandlockError),
}

/// What came of a system call.
#[derive(Clone, Copy, Debug, PartialEq, Eq, Structural)]
pub enum Answer {
    /// It gave a number.
    Value(u32),
    /// It failed.
    Errno(i32),
    /// The path of a rule could not be opened.
    OpenErrno(i32),
}

/// How far the restriction of the child has come.
#[derive(Debug)]
pub enum Progress {
    /// The version was asked for.
    Querying,
    /// The set of rules was asked for.
    Creating(Restriction),
    /// The rule at this index was asked for.
    Adding(Restriction, usize),
    /// The right to gain privileges was given up.
    Dropping(Restriction),
    /// The rules were asked to be enforced.
    Restricting(Restriction),
    /// It is over.
    Over,
}

/// What a [`Request`] says.
pub enum RequestModel {
    QueryAbi,
    CreateRuleset { abi_version: u32, handled_fs: u64, handled_net: u64, scoped: u64 },
    AddRule(int),
    SetNoNewPrivs,
    RestrictSelf,
    Done(u32),
    Failed(LandlockErrorModel),
}

impl View for Request {
    type V = RequestModel;

    open spec fn view(&self) -> RequestModel {
        match *self {
            Request::QueryAbi => RequestModel::QueryAbi,
            Request::CreateRuleset { abi_version, handled_fs, handled_net, scoped } =>
                RequestModel::CreateRuleset { abi_version, handled_fs, handled_net, scoped },
            Request::AddRule(i) => RequestModel::AddRule(i as int),
            Request::SetNoNewPrivs => RequestModel::SetNoNewPrivs,
            Request::RestrictSelf => RequestModel::RestrictSelf,
            Request::Done(abi) => RequestModel::Done(abi),
            Request::Failed(e) => RequestModel::Failed(e@),
        }
    }
}

/// How far the restriction of the child has come.
pub enum ProgressModel {
    Querying,
    Creating(RestrictionModel),
    Adding(RestrictionModel, int),
    Dropping(RestrictionModel),
    Restricting(RestrictionModel),
    Over,
}

impl View for Progress {
    type V = ProgressModel;

    open spec fn view(&self) -> ProgressModel {
        match *self {
            Progress::Querying => ProgressModel::Querying,
            Progress::Creating(p) => ProgressModel::Creating(p@),
            Progress::Adding(p, i) => ProgressModel::Adding(p@, i as int),
            Progress::Dropping(p) => ProgressModel::Dropping(p@),
            Progress::Restricting(p) => ProgressModel::Restricting(p@),
            Progress::Over => ProgressModel::Over,
        }
    }
}

/// The call that adds the rule at `index`, or the one behind the last rule.
pub open spec fn rule_step(p: RestrictionModel, index: int) -> (ProgressModel, RequestModel) {
    if index < p.rules.len() {
        (ProgressModel::Adding(p, index), RequestModel::AddRule(index))
    } else {
        (ProgressModel::Dropping(p), RequestModel::SetNoNewPrivs)
    }
}

pub open spec fn failed(e: LandlockErrorModel) -> (ProgressModel, RequestModel) {
    (ProgressModel::Over, RequestModel::Failed(e))
}

/// The action that a port rule is about.
pub open spec fn action_name(access: u64) -> Seq<char> {
    if access == ACCESS_NET_BIND_TCP {
        "bind TCP"@
    } else {
        "connect TCP"@
    }
}

/// The error of a rule that could not be added. A directory of devices that is not there is no
/// error: it stands at the front and may only be written to.
pub open spec fn rule_error(rule: RuleModel, index: int, a: Answer) -> Option<LandlockErrorModel> {
    match (rule, a) {
        (_, Answer::Value(_)) => None,
        (RuleModel::Path { path, access, directory }, Answer::OpenErrno(errno)) => if errno
            == ENOENT && index == 0 && access == ACCESS_FS_WRITE_FILE {
            None
        } else {
            Some(LandlockErrorModel::OpenPath { path, errno })
        },
        (RuleModel::Path { path, access, directory }, Answer::Errno(errno)) => Some(
            LandlockErrorModel::AddRule { path, errno },
        ),
        (RuleModel::Port { port, access }, Answer::Errno(errno)) => Some(
            LandlockErrorModel::AddNetPortRule { port, action: action_name(access), errno },
        ),
        (RuleModel::Port { port, access }, Answer::OpenErrno(errno)) => Some(
            LandlockErrorModel::AddNetPortRule { port, action: action_name(access), errno },
        ),
    }
}

/// What follows an answer. Every rule is added before any is enforced, and the first failure ends
/// it all.
pub open spec fn next_step(c: LandlockConfig, s: ProgressModel, a: Answer) -> (
    ProgressModel,
    RequestModel,
) {
    match (s, a) {
        (ProgressModel::Querying, Answer::Value(abi)) => match planned(c, abi) {
            Err(e) => failed(e),
            Ok(p) => (
                ProgressModel::Creating(p),
                RequestModel::CreateRuleset {
                    abi_version: p.abi_version,
                    handled_fs: p.handled_fs,
                    handled_net: p.handled_net,
                    scoped: p.scoped,
                },
            ),
        },
        (ProgressModel::Querying, Answer::Errno(e)) | (
            ProgressModel::Querying,
            Answer::OpenErrno(e),
        ) => if means_unsupported(e) {
            failed(LandlockErrorModel::NotSupported)
        } else {
            failed(LandlockErrorModel::QueryAbi(e))
        },
        (ProgressModel::Creating(p), Answer::Value(_)) => rule_step(p, 0),
        (ProgressModel::Creating(p), Answer::Errno(e)) | (
            ProgressModel::Creating(p),
            Answer::OpenErrno(e),
        ) => if means_unsupported(e) {
            failed(LandlockErrorModel::NotSupported)
        } else {
            failed(LandlockErrorModel::CreateRuleset(e))
        },
        (ProgressModel::Adding(p, i), _) => match rule_error(p.rules[i], i, a) {
            Some(e) => failed(e),
            None => rule_step(p, i + 1),
        },
        (ProgressModel::Dropping(p), Answer::Value(_)) => (
            ProgressModel::Restricting(p),
            RequestModel::RestrictSelf,
        ),
        (ProgressModel::Dropping(_), Answer::Errno(e)) | (
            ProgressModel::Dropping(_),
            Answer::OpenErrno(e),
        ) => failed(LandlockErrorModel::SetNoNewPrivs(e)),
        (ProgressModel::Restricting(p), Answer::Value(_)) => (
            ProgressModel::Over,
            RequestModel::Done(p.abi_version),
        ),
        (ProgressModel::Restricting(_), Answer::Errno(e)) | (
            ProgressModel::Restricting(_),
            Answer::OpenErrno(e),
        ) => if means_unsupported(e) {
            failed(LandlockErrorModel::NotSupported)
        } else {
            failed(LandlockErrorModel::RestrictSelf(e))
        },
        (ProgressModel::Over, _) => failed(LandlockErrorModel::NotSupported),
    }
}

impl Progress {
    /// Where a rule is being added, it is one of the rules.
    pub open spec fn wf(self) -> bool {
        self matches Progress::Adding(p, i) ==> i < p.rules@.len()
    }
}

fn add_rule(p: Restriction, index: usize) -> (r: (Progress, Request))
    requires
        index <= p.rules@.len(),
    ensures
        (r.0@, r.1@) == rule_step(p@, index as int),
        r.0.wf(),
{
    if index < p.rules.len() {
        (Progress::Adding(p, index), Request::AddRule(index))
    } else {
        (Progress::Dropping(p), Request::SetNoNewPrivs)
    }
}

fn fail(e: LandlockError) -> (r: (Progress, Request))
    ensures
        (r.0@, r.1@) == failed(e@),
        r.0.wf(),
{
    (Progress::Over, Request::Failed(e))
}

fn complain_about_rule(rule: &Rule, index: usize, answer: Answer) -> (r: Option<LandlockError>)
    ensures
        match r {
            Some(e) => rule_error(rule@, index as int, answer) == Some(e@),
            None => rule_error(rule@, index as int, answer) is None,
        },
{
    match answer {
        Answer::Value(_) => None,
        Answer::OpenErrno(errno) => match rule {
            Rule::Path { path, access, directory } => {
                if errno == ENOENT && index == 0 && *access == ACCESS_FS_WRITE_FILE {
                    None
                } else {
                    Some(LandlockError::OpenPath { path: copy_bytes(path.as_slice()), errno })
                }
            },
            Rule::Port { port, access } => Some(port_complaint(*port, *access, errno)),
        },
        Answer::Errno(errno) => match rule {
            Rule::Path { path, access, directory } => Some(
                LandlockError::AddRule { path: copy_bytes(path.as_slice()), errno },
            ),
            Rule::Port { port, access } => Some(port_complaint(*port, *access, errno)),
        },
    }
}

fn port_complaint(port: u16, access: u64, errno: i32) -> (r: LandlockError)
    ensures
        r@ == (LandlockErrorModel::AddNetPortRule { port, action: action_name(access), errno }),
{
    if access == ACCESS_NET_BIND_TCP {
        LandlockError::AddNetPortRule { port, action: "bind TCP", errno }
    } else {
        LandlockError::AddNetPortRule { port, action: "connect TCP", errno }
    }
}

/// The first call, and how far that is.
pub fn begin() -> (r: (Progress, Request))
    ensures
        (r.0@, r.1@) == (ProgressModel::Querying, RequestModel::QueryAbi),
        r.0.wf(),
{
    (Progress::Querying, Request::QueryAbi)
}

/// Restricts the child, one system call at a time: takes the answer to the last call and gives
/// the next one.
pub fn apply(config: &LandlockConfig, progress: Progress, answer: Answer) -> (r: (Progress, Request))
    requires
        progress.wf(),
    ensures
        (r.0@, r.1@) == next_step(*config, progress@, answer),
        r.0.wf(),
{
    match progress {
        Progress::Querying => match answer {
            Answer::Value(abi) => match plan(config, abi) {
                Err(e) => fail(e),
                Ok(p) => {
                    let request = Request::CreateRuleset {
                        abi_version: p.abi_version,
                        handled_fs: p.handled_fs,
                        handled_net: p.handled_net,
                        scoped: p.scoped,
                    };
                    (Progress::Creating(p), request)
                },
            },
            Answer::Errno(e) | Answer::OpenErrno(e) => {
                if errno_indicates_not_supported(e) {
                    fail(LandlockError::NotSupported)
                } else {
                    fail(LandlockError::QueryAbi(e))
                }
            },
        },
        Progress::Creating(p) => match answer {
            Answer::Value(_) => add_rule(p, 0),
            Answer::Errno(e) | Answer::OpenErrno(e) => {
                if errno_indicates_not_supported(e) {
                    fail(LandlockError::NotSupported)
                } else {
                    fail(LandlockError::CreateRuleset(e))
                }
            },
        },
        Progress::Adding(p, index) => match complain_about_rule(&p.rules[index], index, answer) {
            Some(e) => fail(e),
            None => {
                assert(index < p.rules.len());
                add_rule(p, index + 1)
            },
        },
        Progress::Dropping(p) => match answer {
            Answer::Value(_) => (Progress::Restricting(p), Request::RestrictSelf),
            Answer::Errno(e) | Answer::OpenErrno(e) => fail(LandlockError::SetNoNewPrivs(e)),
        },
        Progress::Restricting(p) => match answer {
            Answer::Value(_) => {
                let abi: u32 = p.abi_version;
                (Progress::Over, Request::Done(abi))
            },
            Answer::Errno(e) | Answer::OpenErrno(e) => {
                if errno_indicates_not_supported(e) {
                    fail(LandlockError::NotSupported)
                } else {
                    fail(LandlockError::RestrictSelf(e))
                }
            },
        },
        Progress::Over => fail(LandlockError::NotSupported),
    }
}

// ---------------------------------------------------------------------------
// Laws
// ---------------------------------------------------------------------------

/// A writable directory never allows making devices, and allows all other handled ways of
/// writing.
pub proof fn law_no_devices_can_be_made(handled: u64)
    ensures
        allowed_writes(handled) & ACCESS_FS_MAKE_CHAR == 0,
        allowed_writes(handled) & ACCESS_FS_MAKE_BLOCK == 0,
        allowed_writes(handled) | (handled & (ACCESS_FS_MAKE_CHAR | ACCESS_FS_MAKE_BLOCK))
            == handled,
{
    assert((handled & !(64u64 | 2048u64)) & 64u64 == 0) by (bit_vector);
    assert((handled & !(64u64 | 2048u64)) & 2048u64 == 0) by (bit_vector);
    assert((handled & !(64u64 | 2048u64)) | (handled & (64u64 | 2048u64)) == handled)
        by (bit_vector);
}

/// A restriction is enforced only after every one of its rules was answered without failure: the
/// step that asks for enforcement comes from the step that gave up privileges, and that one from
/// the last rule.
pub proof fn law_all_rules_come_first(c: LandlockConfig, s: ProgressModel, a: Answer)
    ensures
        next_step(c, s, a).1 is RestrictSelf ==> s is Dropping,
        next_step(c, s, a).1 is SetNoNewPrivs ==> {
            ||| s matches ProgressModel::Creating(p) && p.rules.len() == 0
            ||| s matches ProgressModel::Adding(p, i) && i + 1 >= p.rules.len() && rule_error(
                p.rules[i],
                i,
                a,
            ) is None
        },
        next_step(c, s, a).1 is Done ==> s is Restricting && a is Value,
{
}

/// Whatever is requested, a kernel that is too old for it is refused: nothing is dropped in
/// silence.
pub proof fn law_old_kernels_are_refused(c: LandlockConfig, abi: u32)
    ensures
        c.write_requested && abi < 3 ==> planned(c, abi) is Err,
        (c.bind_tcp_ports@.len() > 0 || c.connect_tcp_ports@.len() > 0) && abi < 4 ==> planned(
            c,
            abi,
        ) is Err,
        c.device_ioctl_allow_paths@.len() > 0 && abi < 5 ==> planned(c, abi) is Err,
        (c.scope_signals || c.scope_abstract_unix) && abi < 6 ==> planned(c, abi) is Err,
{
}

} // verus!
