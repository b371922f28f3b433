//! Starting a command: what has to be ready before it, what its process does on the way, and what
//! is put back after it.

use vstd::prelude::*;

use crate::cli::{Cli, CliModel};
use crate::context;
use crate::control::{self, pdeath_signal};
use crate::error::{self, Error, ErrorModel};
use crate::expand::{self, resolve_command_args};
use crate::explain;
use crate::facts::{quote_path, Find, FindModel, World, WorldModel};
use crate::landlock::LandlockError;
use crate::policy::{
    self, build_landlock_config_for_args, skipped_notes, Policy, PolicyModel,
};
use crate::report::{
    self, exec_failure_exit_code, report_exec_failure, report_landlock_failure, Failure, EACCES,
    ENOENT, ENOTDIR, EPERM, ESRCH,
};
use crate::signals::{
    SIGABRT, SIGBUS, SIGCHLD, SIGCONT, SIGFPE, SIGILL, SIGSEGV, SIGSYS, SIGTRAP,
};
use crate::text::{self, chars_of, copy_bytes, decimal_text, has_char};

verus! {

// ---------------------------------------------------------------------------
// Before
// ---------------------------------------------------------------------------

/// What is wrong with the arguments of a command, if anything.
pub open spec fn argv_fault(args: Seq<Seq<char>>) -> Option<ErrorModel> {
    if args.len() == 0 {
        Some(error::failure("missing CMD (use --help)"@))
    } else if exists|i: int| 0 <= i < args.len() && (#[trigger] args[i]).contains('\0') {
        Some(error::failure("command argument contains embedded NUL byte"@))
    } else {
        None
    }
}

/// The arguments of a command as bytes.
pub open spec fn argv_bytes(args: Seq<Seq<char>>) -> Seq<Seq<u8>> {
    Seq::new(args.len(), |i: int| vstd::utf8::encode_utf8(args[i]))
}

/// The arguments of a command as bytes, without a NUL among them.
pub fn prepare_resolved_command(args: &Vec<String>) -> (r: Result<Vec<Vec<u8>>, Error>)
    ensures
        match r {
            Ok(v) => argv_fault(text::texts(args@)) is None && context::view_paths(v@)
                == argv_bytes(text::texts(args@)),
            Err(e) => argv_fault(text::texts(args@)) == Some(e@),
        },
{
    let ghost all = text::texts(args@);
    if args.len() == 0 {
        return Err(Error::msg("missing CMD (use --help)".to_owned()));
    }
    let mut out: Vec<Vec<u8>> = Vec::new();
    let mut i: usize = 0;
    while i < args.len()
        invariant
            args@.len() > 0,
            all == text::texts(args@),
            i <= args@.len(),
            out@.len() == i,
            forall|j: int| 0 <= j < i ==> !(#[trigger] all[j]).contains('\0'),
            forall|j: int|
                0 <= j < i ==> (#[trigger] out@[j])@ == vstd::utf8::encode_utf8(args@[j]@),
        decreases args@.len() - i,
    {
        let arg = args[i].as_str();
        assert(all[i as int] == arg@);
        if has_char(chars_of(arg).as_slice(), '\0') {
            assert(all[i as int].contains('\0'));
            return Err(Error::msg("command argument contains embedded NUL byte".to_owned()));
        }
        out.push(copy_bytes(arg.as_bytes()));
        i = i + 1;
    }
    assert(context::view_paths(out@) =~= argv_bytes(all));
    Ok(out)
}

/// What has to be ready before a command is started.
#[derive(Debug)]
pub struct Prepared {
    pub pdeath: Option<i32>,
    pub argv: Vec<Vec<u8>>,
    pub policy: Option<Policy>,
}

/// What a [`Prepared`] holds.
pub struct PreparedModel {
    pub pdeath: Option<int>,
    pub argv: Seq<Seq<u8>>,
    pub policy: Option<PolicyModel>,
}

impl View for Prepared {
    type V = PreparedModel;

    open spec fn view(&self) -> PreparedModel {
        PreparedModel {
            pdeath: match self.pdeath {
                Some(n) => Some(n as int),
                None => None,
            },
            argv: context::view_paths(self.argv@),
            policy: explain::opt_policy(self.policy),
        }
    }
}

/// What has to be ready before a command is started: the first thing that is wrong or not known.
pub open spec fn prepared(w: WorldModel, m: CliModel) -> FindModel<PreparedModel> {
    match control::pdeath_number(m.pdeath) {
        Err(e) => FindModel::Fail(e),
        Ok(pdeath) => match expand::command(m.cmd, m.expand_env, w.context.environment) {
            Err(e) => FindModel::Fail(error::caused("prepare child command"@, e)),
            Ok(cmd) => match policy::restrictions(w, m, cmd) {
                FindModel::Need(q) => FindModel::Need(q),
                FindModel::Fail(e) => FindModel::Fail(e),
                FindModel::Found(policy) => match argv_fault(cmd) {
                    Some(e) => FindModel::Fail(error::caused("prepare child command"@, e)),
                    None => FindModel::Found(
                        PreparedModel { pdeath, argv: argv_bytes(cmd), policy },
                    ),
                },
            },
        },
    }
}

/// What is logged, for debugging, in getting ready, whether the command can be started or not:
/// what was skipped, and the restrictions once they are known.
pub open spec fn preparation_log(w: WorldModel, m: CliModel) -> Seq<Seq<char>> {
    match (
        control::pdeath_number(m.pdeath),
        expand::command(m.cmd, m.expand_env, w.context.environment),
    ) {
        (Ok(_), Ok(cmd)) => match policy::restrictions(w, m, cmd) {
            FindModel::Need(_) => Seq::empty(),
            FindModel::Fail(_) => policy::skipped(w, m, cmd),
            FindModel::Found(Some(p)) => policy_lines(p),
            FindModel::Found(None) => Seq::empty(),
        },
        _ => Seq::empty(),
    }
}

/// What came of getting ready, and what is logged about it.
#[derive(Debug)]
pub struct Preparation {
    pub log: Vec<String>,
    pub outcome: Find<Prepared>,
}

fn without_log(outcome: Find<Prepared>) -> (r: Preparation)
    ensures
        find_prepared(r.outcome) == find_prepared(outcome),
        text::texts(r.log@) == Seq::<Seq<char>>::empty(),
{
    let log: Vec<String> = Vec::new();
    assert(text::texts(log@) =~= Seq::empty());
    Preparation { log, outcome }
}

pub open spec fn find_prepared(r: Find<Prepared>) -> FindModel<PreparedModel> {
    match r {
        Find::Need(q) => FindModel::Need(q@),
        Find::Fail(e) => FindModel::Fail(e@),
        Find::Found(x) => FindModel::Found(x@),
    }
}

/// Gets everything ready before a command is started.
pub fn prepare(w: &World, cli: &Cli) -> (r: Preparation)
    ensures
        find_prepared(r.outcome) == prepared(w@, cli@),
        text::texts(r.log@) == preparation_log(w@, cli@),
{
    let pdeath = match pdeath_signal(cli) {
        Err(e) => return without_log(Find::Fail(e)),
        Ok(pdeath) => pdeath,
    };
    let cmd = match resolve_command_args(&cli.cmd, cli.expand_env, &w.context.environment) {
        Err(e) => {
            let e = Error::with_source("prepare child command".to_owned(), e);
            return without_log(Find::Fail(e));
        },
        Ok(cmd) => cmd,
    };
    let policy = match build_landlock_config_for_args(w, cli, &cmd) {
        Find::Need(q) => return without_log(Find::Need(q)),
        Find::Fail(e) => {
            let log = skipped_notes(w, cli, &cmd);
            return Preparation { log, outcome: Find::Fail(e) };
        },
        Find::Found(policy) => policy,
    };
    let log = match &policy {
        Some(p) => policy_log(p),
        None => {
            let log: Vec<String> = Vec::new();
            assert(text::texts(log@) =~= Seq::empty());
            log
        },
    };
    let outcome = match prepare_resolved_command(&cmd) {
        Err(e) => Find::Fail(Error::with_source("prepare child command".to_owned(), e)),
        Ok(argv) => Find::Found(Prepared { pdeath, argv, policy }),
    };
    Preparation { log, outcome }
}

// ---------------------------------------------------------------------------
// What is logged about the restrictions
// ---------------------------------------------------------------------------

/// A summary of the restrictions.
pub open spec fn policy_summary(p: PolicyModel) -> Seq<char> {
    "landlock restriction enabled: warn_only="@ + explain::flag_text(p.warn_only) + ", no_dev="@
        + explain::flag_text(p.no_dev) + ", writable_dirs="@ + text::decimal(
        p.writable_dirs.len(),
    ) + ", bind_tcp_ports="@ + text::decimal(p.bind_tcp_ports.len()) + ", connect_tcp_ports="@
        + text::decimal(p.connect_tcp_ports.len()) + ", scope_signals="@ + explain::flag_text(
        p.scope_signals,
    ) + ", scope_abstract_unix="@ + explain::flag_text(p.scope_abstract_unix)
        + ", exec_allow_paths="@ + text::decimal(p.exec_allow_paths.len())
        + ", device_ioctl_allow_paths="@ + text::decimal(p.device_ioctl_allow_paths.len())
}

pub open spec fn path_lines(label: Seq<char>, paths: Seq<Seq<u8>>) -> Seq<Seq<char>> {
    Seq::new(paths.len(), |i: int| label + report::shown_path(paths[i]))
}

pub open spec fn port_lines(label: Seq<char>, ports: Seq<u16>) -> Seq<Seq<char>> {
    Seq::new(ports.len(), |i: int| label + text::decimal(ports[i] as nat))
}

/// What is logged, for debugging, about the restrictions.
pub open spec fn policy_lines(p: PolicyModel) -> Seq<Seq<char>> {
    p.notes + seq![policy_summary(p)] + path_lines("write allow dir: "@, p.writable_dirs)
        + port_lines("bind TCP allow port: "@, p.bind_tcp_ports) + port_lines(
        "connect TCP allow port: "@,
        p.connect_tcp_ports,
    ) + path_lines("exec allow path: "@, p.exec_allow_paths) + path_lines(
        "device ioctl allow path: "@,
        p.device_ioctl_allow_paths,
    )
}

fn yes_no(b: bool) -> (r: &'static str)
    ensures
        r@ == explain::flag_text(b),
{
    if b {
        "true"
    } else {
        "false"
    }
}

fn push_paths(out: &mut Vec<String>, label: &str, paths: &Vec<Vec<u8>>)
    ensures
        text::texts(final(out)@) == text::texts(old(out)@) + path_lines(
            label@,
            context::view_paths(paths@),
        ),
{
    let ghost start = text::texts(out@);
    let ghost all = path_lines(label@, context::view_paths(paths@));
    let mut i: usize = 0;
    assert(start + all.take(0) =~= start);
    while i < paths.len()
        invariant
            i <= paths@.len(),
            all == path_lines(label@, context::view_paths(paths@)),
            text::texts(out@) == start + all.take(i as int),
        decreases paths@.len() - i,
    {
        let line = quote_path(label, paths[i].as_slice(), "");
        proof {
            reveal_strlit("");
            assert(line@ =~= all[i as int]);
            assert(start + all.take(i + 1) =~= (start + all.take(i as int)).push(all[i as int]));
        }
        let ghost before = text::texts(out@);
        out.push(line);
        assert(text::texts(out@) =~= before.push(all[i as int]));
        i = i + 1;
    }
    assert(all.take(i as int) =~= all);
}

fn push_ports(out: &mut Vec<String>, label: &str, ports: &Vec<u16>)
    ensures
        text::texts(final(out)@) == text::texts(old(out)@) + port_lines(label@, ports@),
{
    let ghost start = text::texts(out@);
    let ghost all = port_lines(label@, ports@);
    let mut i: usize = 0;
    assert(start + all.take(0) =~= start);
    while i < ports.len()
        invariant
            i <= ports@.len(),
            all == port_lines(label@, ports@),
            text::texts(out@) == start + all.take(i as int),
        decreases ports@.len() - i,
    {
        let mut line = label.to_owned();
        line.append(decimal_text(ports[i] as u64).as_str());
        proof {
            assert(line@ == all[i as int]);
            assert(start + all.take(i + 1) =~= (start + all.take(i as int)).push(all[i as int]));
        }
        let ghost before = text::texts(out@);
        out.push(line);
        assert(text::texts(out@) =~= before.push(all[i as int]));
        i = i + 1;
    }
    assert(all.take(i as int) =~= all);
}

fn summary(p: &Policy) -> (r: String)
    ensures
        r@ == policy_summary(p@),
{
    let c = &p.config;
    let mut out = "landlock restriction enabled: warn_only=".to_owned();
    out.append(yes_no(c.warn_only));
    out.append(", no_dev=");
    out.append(yes_no(c.no_dev));
    out.append(", writable_dirs=");
    out.append(decimal_text(c.writable_dirs.len() as u64).as_str());
    out.append(", bind_tcp_ports=");
    out.append(decimal_text(c.bind_tcp_ports.len() as u64).as_str());
    out.append(", connect_tcp_ports=");
    out.append(decimal_text(c.connect_tcp_ports.len() as u64).as_str());
    out.append(", scope_signals=");
    out.append(yes_no(c.scope_signals));
    out.append(", scope_abstract_unix=");
    out.append(yes_no(c.scope_abstract_unix));
    out.append(", exec_allow_paths=");
    out.append(decimal_text(c.exec_allow_paths.len() as u64).as_str());
    out.append(", device_ioctl_allow_paths=");
    out.append(decimal_text(c.device_ioctl_allow_paths.len() as u64).as_str());
    out
}

/// What is logged, for debugging, about the restrictions.
pub fn policy_log(p: &Policy) -> (r: Vec<String>)
    ensures
        text::texts(r@) == policy_lines(p@),
{
    let mut out = expand::copy_texts(&p.notes);
    let line = summary(p);
    let ghost said = line@;
    let ghost before = text::texts(out@);
    out.push(line);
    assert(text::texts(out@) =~= before + seq![said]);
    let c = &p.config;
    push_paths(&mut out, "write allow dir: ", &c.writable_dirs);
    push_ports(&mut out, "bind TCP allow port: ", &c.bind_tcp_ports);
    push_ports(&mut out, "connect TCP allow port: ", &c.connect_tcp_ports);
    push_paths(&mut out, "exec allow path: ", &c.exec_allow_paths);
    push_paths(&mut out, "device ioctl allow path: ", &c.device_ioctl_allow_paths);
    out
}

// ---------------------------------------------------------------------------
// Signals
// ---------------------------------------------------------------------------

/// Signals that a process brings on itself: they are never read as those of others.
pub open spec fn excluded(sig: i32) -> bool {
    sig == SIGFPE || sig == SIGILL || sig == SIGSEGV || sig == SIGBUS || sig == SIGABRT || sig
        == SIGTRAP || sig == SIGSYS
}

/// Whether a signal is read by the supervisor.
pub open spec fn reads(sig: i32) -> bool {
    !excluded(sig)
}

/// Whether a signal is blocked during supervision, given whether it was blocked before.
pub open spec fn blocks(sig: i32, blocked_before: bool) -> bool {
    reads(sig) || blocked_before
}

/// Whether the supervisor takes a signal, given whether the caller had it blocked and whether it was
/// waiting then.
pub open spec fn accepts(sig: i32, blocked_before: bool, pending: bool) -> bool {
    reads(sig) && !(sig == SIGCONT && blocked_before && pending)
}

/// Whether a signal is read by the supervisor.
pub fn reads_signal(sig: i32) -> (r: bool)
    ensures
        r == reads(sig),
        r == !excluded(sig),
{
    !(sig == SIGFPE || sig == SIGILL || sig == SIGSEGV || sig == SIGBUS || sig == SIGABRT || sig
        == SIGTRAP || sig == SIGSYS)
}

/// Whether the supervisor takes a signal, given whether the caller had it blocked and whether it was
/// waiting then. A signal to continue that the caller has waiting stays with the caller.
pub fn accepts_signal(sig: i32, blocked_before: bool, pending: bool) -> (r: bool)
    ensures
        r == accepts(sig, blocked_before, pending),
        r == (!excluded(sig) && !(sig == SIGCONT && blocked_before && pending)),
{
    reads_signal(sig) && !(sig == SIGCONT && blocked_before && pending)
}

/// The group that has the terminal, where it is the group `own_group`.
pub open spec fn owned_tty(terminal_group: i32, own_group: i32) -> Option<i32> {
    if terminal_group != -1 && terminal_group == own_group {
        Some(terminal_group)
    } else {
        None
    }
}

/// The group that has the terminal, where it is the group of this process. A terminal that has
/// none is shown as -1.
pub fn owned_foreground_tty(terminal_group: i32, own_group: i32) -> (r: Option<i32>)
    ensures
        r == owned_tty(terminal_group, own_group),
        r == if terminal_group != -1 && terminal_group == own_group {
            Some(terminal_group)
        } else {
            None
        },
{
    if terminal_group != -1 && terminal_group == own_group {
        Some(terminal_group)
    } else {
        None
    }
}

/// Whether a signal is blocked during supervision: those that are read, and those that were
/// blocked before.
pub fn blocks_signal(sig: i32, blocked_before: bool) -> (r: bool)
    ensures
        r == blocks(sig, blocked_before),
        r == (!excluded(sig) || blocked_before),
{
    reads_signal(sig) || blocked_before
}

/// Whether what is left of a signal is thrown away at the end.
pub open spec fn discards(sig: i32, blocked_now: bool, blocked_before: bool) -> bool {
    sig != SIGCHLD && blocked_now && !blocked_before
}

/// Whether what is left of a signal is thrown away when the old mask comes back: where only the
/// supervision blocked it. The end of a child is not among them, since the caller may wait for it.
pub fn discards_signal(sig: i32, blocked_now: bool, blocked_before: bool) -> (r: bool)
    ensures
        r == discards(sig, blocked_now, blocked_before),
        r == (sig != SIGCHLD && blocked_now && !blocked_before),
{
    sig != SIGCHLD && blocked_now && !blocked_before
}

/// Refuses a process with more than one thread: signals and children belong to all of it.
pub fn require_single_thread(threads: usize) -> (r: Result<(), Error>)
    ensures
        policy::fault(r) == if threads > 1 {
            Some(
                error::failure(
                    "tino::run requires a single-threaded process; launch the tino binary from a multithreaded host"@,
                ),
            )
        } else {
            None
        },
{
    if threads > 1 {
        return Err(
            Error::msg(
                "tino::run requires a single-threaded process; launch the tino binary from a multithreaded host".to_owned(),
            ),
        );
    }
    Ok(())
}

/// What is said where a signal could not be sent. A process that is gone is no news.
pub open spec fn send_fault(sig: i32, errno: i32, text: Seq<char>) -> Option<Seq<char>> {
    if errno == ESRCH {
        None
    } else {
        Some(
            "forward signal "@ + text::decimal(
                if sig >= 0 {
                    sig as nat
                } else {
                    0
                },
            ) + " failed: "@ + text,
        )
    }
}

/// What is said where a signal could not be sent.
pub fn send_warning(sig: i32, failure: &Failure) -> (r: Option<String>)
    ensures
        match r {
            Some(s) => send_fault(sig, failure.errno, failure.text@) == Some(s@),
            None => send_fault(sig, failure.errno, failure.text@) is None,
        },
{
    if failure.errno == ESRCH {
        return None;
    }
    let mut out = "forward signal ".to_owned();
    out.append(
        decimal_text(
            if sig >= 0 {
                sig as u64
            } else {
                0
            },
        ).as_str(),
    );
    out.append(" failed: ");
    out.append(failure.text.as_str());
    Some(out)
}

// ---------------------------------------------------------------------------
// Process groups
// ---------------------------------------------------------------------------

/// What a question about a process group gave.
#[derive(Debug)]
pub enum GroupReply {
    /// The child is in this group.
    Group(u32),
    Failed(Failure),
}

/// Whether a signal for the group of the child is sent to the child as well, and what is said.
/// A child that left the group would not be reached otherwise.
pub open spec fn direct(child: u32, reply: GroupReply) -> (bool, Option<Seq<char>>) {
    match reply {
        GroupReply::Group(group) => (group != child, None),
        GroupReply::Failed(f) => if f.errno == ESRCH {
            (false, None)
        } else {
            (
                true,
                Some("query main child process group before direct forwarding: "@ + f.text@),
            )
        },
    }
}

/// Whether a signal for the group of the child is sent to the child as well.
pub fn forward_to_main_child(child: u32, reply: &GroupReply) -> (r: (bool, Option<String>))
    ensures
        r.0 == direct(child, *reply).0,
        match r.1 {
            Some(s) => direct(child, *reply).1 == Some(s@),
            None => direct(child, *reply).1 is None,
        },
{
    match reply {
        GroupReply::Group(group) => (*group != child, None),
        GroupReply::Failed(f) => {
            if f.errno == ESRCH {
                (false, None)
            } else {
                let mut out = "query main child process group before direct forwarding: ".to_owned();
                out.append(f.text.as_str());
                (true, Some(out))
            }
        },
    }
}

/// What came of the last step towards a process group for the child.
#[derive(Debug)]
pub enum GroupEvent {
    /// Whether one was asked for.
    Requested(bool),
    Joined,
    JoinFailed(Failure),
    /// The child is in this group.
    InGroup(u32),
    QueryFailed(Failure),
    /// Whether the group is there after the child has ended.
    Exists(bool),
    ExistsFailed(Failure),
}

/// The next step towards a process group for the child.
#[derive(Debug)]
pub enum GroupStep {
    /// Put the child into a group of its own.
    Join,
    /// Ask which group the child is in.
    Query,
    /// Ask whether the group of the child is there.
    CheckExists,
    /// The group is used or not, and this is said.
    Decided(bool, Option<String>),
}

/// What a [`GroupStep`] is.
pub enum GroupStepModel {
    Join,
    Query,
    CheckExists,
    Decided(bool, Option<Seq<char>>),
}

impl View for GroupStep {
    type V = GroupStepModel;

    open spec fn view(&self) -> GroupStepModel {
        match *self {
            GroupStep::Join => GroupStepModel::Join,
            GroupStep::Query => GroupStepModel::Query,
            GroupStep::CheckExists => GroupStepModel::CheckExists,
            GroupStep::Decided(used, said) => GroupStepModel::Decided(
                used,
                match said {
                    Some(s) => Some(s@),
                    None => None,
                },
            ),
        }
    }
}

pub open spec fn disabled(why: Seq<char>, text: Seq<char>) -> GroupStepModel {
    GroupStepModel::Decided(false, Some(why + " (disabling --pgroup-kill): "@ + text))
}

/// The next step towards a process group. The child does the same for itself, so that the parent
/// may come too late: then the group of the child decides, or that of the children it left.
pub open spec fn group_step(child: u32, event: GroupEvent) -> GroupStepModel {
    match event {
        GroupEvent::Requested(true) => GroupStepModel::Join,
        GroupEvent::Requested(false) => GroupStepModel::Decided(false, None),
        GroupEvent::Joined => GroupStepModel::Decided(true, None),
        GroupEvent::JoinFailed(f) => if f.errno == EACCES {
            GroupStepModel::Query
        } else if f.errno == ESRCH {
            GroupStepModel::CheckExists
        } else {
            disabled("cannot manage process group"@, f.text@)
        },
        GroupEvent::InGroup(group) => if group == child {
            GroupStepModel::Decided(true, None)
        } else {
            GroupStepModel::Decided(
                false,
                Some(
                    "child PID "@ + text::decimal(child as nat) + " is in PGID "@ + text::decimal(
                        group as nat,
                    ) + " (disabling --pgroup-kill)"@,
                ),
            )
        },
        GroupEvent::QueryFailed(f) => if f.errno == ESRCH {
            GroupStepModel::CheckExists
        } else {
            disabled("cannot query child process group"@, f.text@)
        },
        GroupEvent::Exists(there) => GroupStepModel::Decided(there, None),
        GroupEvent::ExistsFailed(f) => disabled(
            "cannot query process group after child exit"@,
            f.text@,
        ),
    }
}

fn disable(why: &str, failure: &Failure) -> (r: GroupStep)
    ensures
        r@ == disabled(why@, failure.text@),
{
    let mut out = why.to_owned();
    out.append(" (disabling --pgroup-kill): ");
    out.append(failure.text.as_str());
    GroupStep::Decided(false, Some(out))
}

/// The next step towards a process group for the child.
pub fn manage_process_group(child: u32, event: &GroupEvent) -> (r: GroupStep)
    ensures
        r@ == group_step(child, *event),
{
    match event {
        GroupEvent::Requested(requested) => {
            if *requested {
                GroupStep::Join
            } else {
                GroupStep::Decided(false, None)
            }
        },
        GroupEvent::Joined => GroupStep::Decided(true, None),
        GroupEvent::JoinFailed(f) => {
            if f.errno == EACCES {
                GroupStep::Query
            } else if f.errno == ESRCH {
                GroupStep::CheckExists
            } else {
                disable("cannot manage process group", f)
            }
        },
        GroupEvent::InGroup(group) => {
            if *group == child {
                return GroupStep::Decided(true, None);
            }
            let mut out = "child PID ".to_owned();
            out.append(decimal_text(child as u64).as_str());
            out.append(" is in PGID ");
            out.append(decimal_text(*group as u64).as_str());
            out.append(" (disabling --pgroup-kill)");
            GroupStep::Decided(false, Some(out))
        },
        GroupEvent::QueryFailed(f) => {
            if f.errno == ESRCH {
                GroupStep::CheckExists
            } else {
                disable("cannot query child process group", f)
            }
        },
        GroupEvent::Exists(there) => GroupStep::Decided(*there, None),
        GroupEvent::ExistsFailed(f) => disable("cannot query process group after child exit", f),
    }
}

/// What came of asking for the subreaper: whether it is enabled, what is said, or an error.
pub open spec fn subreaper_outcome(errno: Option<(i32, Seq<char>)>) -> Result<
    (bool, Option<Seq<char>>),
    ErrorModel,
> {
    match errno {
        None => Ok((true, None)),
        Some((e, text)) => if e == EPERM {
            Ok(
                (
                    false,
                    Some(
                        "subreaper capability rejected; continuing without subreaper: "@ + text,
                    ),
                ),
            )
        } else {
            Err(error::failure("prctl SUBREAPER: "@ + text))
        },
    }
}

/// What comes of asking for the subreaper.
pub fn configure_parent_prctl(failure: Option<&Failure>) -> (r: Result<
    (bool, Option<String>),
    Error,
>)
    ensures
        ({
            let wanted = subreaper_outcome(
                match failure {
                    Some(f) => Some((f.errno, f.text@)),
                    None => None,
                },
            );
            match r {
                Ok((on, None)) => wanted == Ok::<(bool, Option<Seq<char>>), ErrorModel>((on, None)),
                Ok((on, Some(s))) => wanted == Ok::<(bool, Option<Seq<char>>), ErrorModel>(
                    (on, Some(s@)),
                ),
                Err(e) => wanted == Err::<(bool, Option<Seq<char>>), ErrorModel>(e@),
            }
        }),
{
    match failure {
        None => Ok((true, None)),
        Some(f) => {
            if f.errno == EPERM {
                let mut out = "subreaper capability rejected; continuing without subreaper: ".to_owned();
                out.append(f.text.as_str());
                Ok((false, Some(out)))
            } else {
                let mut out = "prctl SUBREAPER: ".to_owned();
                out.append(f.text.as_str());
                Err(Error::msg(out))
            }
        },
    }
}

// ---------------------------------------------------------------------------
// In the child
// ---------------------------------------------------------------------------

/// What the process of the command is asked to do before it runs it.
#[derive(Clone, Copy, Debug)]
pub struct ChildPlan {
    pub pdeath: Option<i32>,
    pub pgroup_kill: bool,
    /// Whether the terminal is handed over.
    pub claim_terminal: bool,
    pub restrict: bool,
    /// Whether the command runs without restrictions where they cannot be had.
    pub warn_only: bool,
}

/// A step of that process.
#[derive(Clone, Copy, Debug, PartialEq, Eq, Structural)]
pub enum ChildStep {
    /// Put the default action for broken pipes back.
    ResetSigpipe,
    /// Ask for a signal when the parent dies.
    SetPdeath(i32),
    /// See whether the parent died before that.
    CheckParent(i32),
    /// Send that signal to itself.
    SignalSelf(i32),
    /// Go into a process group of its own.
    SetGroup,
    /// Hand the terminal over to that group.
    ClaimTerminal,
    /// Put the signal mask of the caller back.
    SetMask,
    /// Put the restrictions on.
    Restrict,
    /// Run the command.
    Exec,
    /// End with an exit code.
    Exit(i32),
}

/// What came of a step.
#[derive(Debug)]
pub enum ChildEvent {
    Done,
    Failed(i32),
    /// The parent is another one.
    ParentChanged,
    RestrictFailed(LandlockError),
}

/// What is said, and the next step.
pub struct ChildMove {
    pub said: Seq<char>,
    pub step: ChildStep,
}

pub open spec fn silently(step: ChildStep) -> ChildMove {
    ChildMove { said: Seq::empty(), step }
}

pub open spec fn saying(said: Seq<char>, step: ChildStep) -> ChildMove {
    ChildMove { said, step }
}

/// The step towards a process group, if one is asked for.
pub open spec fn group_stage(p: ChildPlan) -> ChildStep {
    if p.pgroup_kill {
        ChildStep::SetGroup
    } else {
        ChildStep::SetMask
    }
}

pub open spec fn restrict_stage(p: ChildPlan) -> ChildStep {
    if p.restrict {
        ChildStep::Restrict
    } else {
        ChildStep::Exec
    }
}

/// What follows a step of the process. What cannot be done without ends it.
pub open spec fn child_move(p: ChildPlan, program: Seq<u8>, step: ChildStep, event: ChildEvent) -> ChildMove {
    match (step, event) {
        (ChildStep::ResetSigpipe, ChildEvent::Done) => silently(
            match p.pdeath {
                Some(sig) => ChildStep::SetPdeath(sig),
                None => group_stage(p),
            },
        ),
        (ChildStep::ResetSigpipe, _) => saying(
            "tino: failed to reset SIGPIPE in child\n"@,
            ChildStep::Exit(1),
        ),
        (ChildStep::SetPdeath(sig), ChildEvent::Failed(errno)) => saying(
            "tino: failed to set child parent-death signal (errno "@ + report::errno_text(errno)
                + ")\n"@,
            ChildStep::Exit(1),
        ),
        (ChildStep::SetPdeath(sig), _) => silently(ChildStep::CheckParent(sig)),
        (ChildStep::CheckParent(sig), ChildEvent::ParentChanged) => silently(
            ChildStep::SignalSelf(sig),
        ),
        (ChildStep::CheckParent(sig), _) => silently(group_stage(p)),
        (ChildStep::SignalSelf(sig), _) => silently(group_stage(p)),
        (ChildStep::SetGroup, ChildEvent::Done) => silently(
            if p.claim_terminal {
                ChildStep::ClaimTerminal
            } else {
                ChildStep::SetMask
            },
        ),
        (ChildStep::SetGroup, _) => saying(
            "tino: failed to establish child process group\n"@,
            ChildStep::SetMask,
        ),
        (ChildStep::ClaimTerminal, _) => silently(ChildStep::SetMask),
        (ChildStep::SetMask, ChildEvent::Done) => silently(restrict_stage(p)),
        (ChildStep::SetMask, _) => saying(
            "tino: failed to restore signal mask in child\n"@,
            ChildStep::Exit(1),
        ),
        (ChildStep::Restrict, ChildEvent::RestrictFailed(e)) => saying(
            report::restriction_failure_text(p.warn_only, e),
            if p.warn_only {
                ChildStep::Exec
            } else {
                ChildStep::Exit(1)
            },
        ),
        (ChildStep::Restrict, _) => silently(ChildStep::Exec),
        (ChildStep::Exec, ChildEvent::Failed(errno)) => saying(
            report::exec_failure_text(program, errno),
            ChildStep::Exit(
                if errno == ENOENT || errno == ENOTDIR {
                    127
                } else {
                    126
                },
            ),
        ),
        (ChildStep::Exec, _) => silently(ChildStep::Exit(127)),
        (ChildStep::Exit(code), _) => silently(ChildStep::Exit(code)),
    }
}

fn quiet() -> (r: String)
    ensures
        r@ == Seq::<char>::empty(),
{
    let r = "".to_owned();
    proof {
        reveal_strlit("");
        assert(r@ =~= Seq::<char>::empty());
    }
    r
}

/// What follows a step of the process that runs the command: what is said, and the next step.
pub fn child_next(plan: ChildPlan, program: &[u8], step: ChildStep, event: &ChildEvent) -> (r: (
    String,
    ChildStep,
))
    ensures
        ({
            let wanted = child_move(plan, program@, step, *event);
            r.0@ == wanted.said && r.1 == wanted.step
        }),
{
    let group = if plan.pgroup_kill {
        ChildStep::SetGroup
    } else {
        ChildStep::SetMask
    };
    match step {
        ChildStep::ResetSigpipe => match event {
            ChildEvent::Done => match plan.pdeath {
                Some(sig) => (quiet(), ChildStep::SetPdeath(sig)),
                None => (quiet(), group),
            },
            _ => ("tino: failed to reset SIGPIPE in child\n".to_owned(), ChildStep::Exit(1)),
        },
        ChildStep::SetPdeath(sig) => match event {
            ChildEvent::Failed(errno) => {
                let mut out = "tino: failed to set child parent-death signal (errno ".to_owned();
                report::push_errno(&mut out, *errno);
                out.append(")\n");
                (out, ChildStep::Exit(1))
            },
            _ => (quiet(), ChildStep::CheckParent(sig)),
        },
        ChildStep::CheckParent(sig) => match event {
            ChildEvent::ParentChanged => (quiet(), ChildStep::SignalSelf(sig)),
            _ => (quiet(), group),
        },
        ChildStep::SignalSelf(_) => (quiet(), group),
        ChildStep::SetGroup => match event {
            ChildEvent::Done => (
                quiet(),
                if plan.claim_terminal {
                    ChildStep::ClaimTerminal
                } else {
                    ChildStep::SetMask
                },
            ),
            _ => (
                "tino: failed to establish child process group\n".to_owned(),
                ChildStep::SetMask,
            ),
        },
        ChildStep::ClaimTerminal => (quiet(), ChildStep::SetMask),
        ChildStep::SetMask => match event {
            ChildEvent::Done => (
                quiet(),
                if plan.restrict {
                    ChildStep::Restrict
                } else {
                    ChildStep::Exec
                },
            ),
            _ => ("tino: failed to restore signal mask in child\n".to_owned(), ChildStep::Exit(1)),
        },
        ChildStep::Restrict => match event {
            ChildEvent::RestrictFailed(e) => (
                report_landlock_failure(plan.warn_only, e),
                if plan.warn_only {
                    ChildStep::Exec
                } else {
                    ChildStep::Exit(1)
                },
            ),
            _ => (quiet(), ChildStep::Exec),
        },
        ChildStep::Exec => match event {
            ChildEvent::Failed(errno) => (
                report_exec_failure(program, *errno),
                ChildStep::Exit(exec_failure_exit_code(*errno)),
            ),
            _ => (quiet(), ChildStep::Exit(127)),
        },
        ChildStep::Exit(code) => (quiet(), ChildStep::Exit(code)),
    }
}

// ---------------------------------------------------------------------------
// After
// ---------------------------------------------------------------------------

/// The result once one thing was put back: an error there counts only where there is none yet.
pub open spec fn after_restore(result: Result<int, ErrorModel>, restore: Option<ErrorModel>) -> Result<
    int,
    ErrorModel,
> {
    match (result, restore) {
        (Ok(_), Some(e)) => Err(e),
        _ => result,
    }
}

pub open spec fn exit_result(r: Result<i32, Error>) -> Result<int, ErrorModel> {
    match r {
        Ok(code) => Ok(code as int),
        Err(e) => Err(e@),
    }
}

/// The result once one thing was put back, and what is said of an error that does not count.
pub fn finish_restore(result: Result<i32, Error>, restore: Result<(), Error>) -> (r: (
    Result<i32, Error>,
    Option<String>,
))
    ensures
        exit_result(r.0) == after_restore(exit_result(result), policy::fault(restore)),
        match r.1 {
            Some(s) => result is Err && restore is Err && s@ == "restore process state failed: "@
                + error::report_text(policy::fault(restore)->0.messages),
            None => !(result is Err && restore is Err),
        },
{
    match restore {
        Ok(()) => (result, None),
        Err(e) => match result {
            Ok(_) => (Err(e), None),
            Err(first) => {
                let mut out = "restore process state failed: ".to_owned();
                out.append(e.report().as_str());
                (Err(first), Some(out))
            },
        },
    }
}

// ---------------------------------------------------------------------------
// Laws
// ---------------------------------------------------------------------------

/// A command that cannot be restricted is not run, unless that is allowed, and it is always said.
pub proof fn law_no_command_without_its_restrictions(p: ChildPlan, program: Seq<u8>, e: LandlockError)
    ensures
        !p.warn_only ==> child_move(
            p,
            program,
            ChildStep::Restrict,
            ChildEvent::RestrictFailed(e),
        ).step == ChildStep::Exit(1),
        child_move(p, program, ChildStep::Restrict, ChildEvent::RestrictFailed(e)).said
            == report::restriction_failure_text(p.warn_only, e),
{
}

/// What is explained is what is run: a command that can be started is explained with the arguments
/// and the restrictions that it gets, and one that is explained can be started, where there is a
/// command at all and the signal on the death of the parent is right.
pub proof fn law_what_is_explained_is_run(w: WorldModel, m: CliModel)
    ensures
        prepared(w, m) matches FindModel::Found(p) ==> {
            &&& explain::platform_of(w, m) matches FindModel::Found(x)
            &&& explain::unusable(x.effective_cmd) is None
            &&& p.argv == argv_bytes(x.effective_cmd)
            &&& p.policy == x.policy
        },
        explain::platform_of(w, m) matches FindModel::Found(x) ==> (explain::unusable(
            x.effective_cmd,
        ) is None && x.effective_cmd.len() > 0 && control::pdeath_number(m.pdeath) is Ok
            ==> prepared(w, m) is Found),
{
}

/// A command is run only behind its restrictions, where there are any: whatever step comes before
/// it, it is the one that put them on.
pub proof fn law_restrictions_come_before_the_command(
    p: ChildPlan,
    program: Seq<u8>,
    step: ChildStep,
    event: ChildEvent,
)
    requires
        p.restrict,
        child_move(p, program, step, event).step is Exec,
    ensures
        step is Restrict,
        event is RestrictFailed ==> p.warn_only,
{
}

/// The first error is the one that counts.
pub proof fn law_first_error_is_kept(first: ErrorModel, restore: Option<ErrorModel>)
    ensures
        after_restore(Err(first), restore) == Err::<int, ErrorModel>(first),
{
}

} // verus!
