//! What the child says when it cannot be restricted or cannot be run.

use vstd::prelude::*;

use crate::landlock::LandlockError;
use crate::text::{self, decimal_text, escape_bytes};

verus! {

pub const EPERM: i32 = 1;

pub const ENOENT: i32 = 2;

pub const ESRCH: i32 = 3;

pub const EINTR: i32 = 4;

pub const E2BIG: i32 = 7;

pub const ENOEXEC: i32 = 8;

pub const ECHILD: i32 = 10;

pub const EACCES: i32 = 13;

pub const ENOTDIR: i32 = 20;

pub const EINVAL: i32 = 22;

pub const ENAMETOOLONG: i32 = 36;

pub const ENOSYS: i32 = 38;

pub const ELOOP: i32 = 40;

pub const EOPNOTSUPP: i32 = 95;

/// Why a system call failed.
#[derive(Debug)]
pub struct Failure {
    pub errno: i32,
    pub text: String,
}

/// An error number as it is shown: without a sign.
pub open spec fn errno_text(errno: i32) -> Seq<char> {
    text::decimal(
        if errno >= 0 {
            errno as nat
        } else {
            (errno + 4294967296) as nat
        },
    )
}

/// Adds an error number to a text.
pub fn push_errno(out: &mut String, errno: i32)
    ensures
        final(out)@ == old(out)@ + errno_text(errno),
{
    let n: u64 = if errno >= 0 {
        errno as u64
    } else {
        (errno as i64 + 4294967296) as u64
    };
    out.append(decimal_text(n).as_str());
}

/// What an error number of an `exec` call usually means.
pub open spec fn exec_hint(errno: i32) -> Seq<char> {
    if errno == ENOENT {
        ": file not found; check the path or PATH lookup"@
    } else if errno == EACCES {
        ": permission denied or file is not executable"@
    } else if errno == ENOEXEC {
        ": file is not a recognized executable format"@
    } else if errno == ENOTDIR {
        ": a path component is not a directory"@
    } else if errno == E2BIG {
        ": argument list or environment is too large"@
    } else {
        Seq::empty()
    }
}

fn push_exec_hint(out: &mut String, errno: i32)
    ensures
        final(out)@ == old(out)@ + exec_hint(errno),
{
    if errno == ENOENT {
        out.append(": file not found; check the path or PATH lookup");
    } else if errno == EACCES {
        out.append(": permission denied or file is not executable");
    } else if errno == ENOEXEC {
        out.append(": file is not a recognized executable format");
    } else if errno == ENOTDIR {
        out.append(": a path component is not a directory");
    } else if errno == E2BIG {
        out.append(": argument list or environment is too large");
    } else {
        assert(out@ =~= old(out)@ + exec_hint(errno));
    }
}

/// What is said when a program cannot be run.
pub open spec fn exec_failure_text(program: Seq<u8>, errno: i32) -> Seq<char> {
    "tino: execvp failed for '"@ + text::ascii_text(text::escape_raw(program)) + "'"@ + exec_hint(
        errno,
    ) + " (errno "@ + errno_text(errno) + ")\n"@
}

/// What is said when a program cannot be run.
pub fn report_exec_failure(program: &[u8], errno: i32) -> (r: String)
    ensures
        r@ == exec_failure_text(program@, errno),
{
    let mut out = "tino: execvp failed for '".to_owned();
    out.append(escape_bytes(program).as_str());
    out.append("'");
    push_exec_hint(&mut out, errno);
    out.append(" (errno ");
    push_errno(&mut out, errno);
    out.append(")\n");
    out
}

/// The exit code of a command that could not be run.
pub open spec fn exec_code(errno: i32) -> int {
    if errno == ENOENT || errno == ENOTDIR {
        127
    } else {
        126
    }
}

/// The exit code of a child that cannot be run: 127 where there is nothing to run, else 126.
pub fn exec_failure_exit_code(errno: i32) -> (r: i32)
    ensures
        r == exec_code(errno),
        r == if errno == ENOENT || errno == ENOTDIR { 127i32 } else { 126i32 },
{
    if errno == ENOENT || errno == ENOTDIR {
        127
    } else {
        126
    }
}

/// A guess at what refused a system call.
pub open spec fn seccomp_hint(errno: i32) -> Seq<char> {
    if errno == EPERM || errno == EACCES {
        "; blocked by seccomp?"@
    } else {
        Seq::empty()
    }
}

fn push_seccomp_hint(out: &mut String, errno: i32)
    ensures
        final(out)@ == old(out)@ + seccomp_hint(errno),
{
    if errno == EPERM || errno == EACCES {
        out.append("; blocked by seccomp?");
    } else {
        assert(out@ =~= old(out)@ + seccomp_hint(errno));
    }
}

/// A path as it is shown.
pub open spec fn shown_path(path: Seq<u8>) -> Seq<char> {
    text::ascii_text(text::escape_raw(path))
}

/// Why access could not be restricted.
pub open spec fn restriction_error_text(e: LandlockError) -> Seq<char> {
    match e {
        LandlockError::NotSupported => "not supported (kernel/LSM)"@,
        LandlockError::AbiTooOld { feature, required_abi, current_abi } => feature@
            + " requires ABI "@ + text::decimal(required_abi as nat) + " but kernel reports ABI "@
            + text::decimal(current_abi as nat),
        LandlockError::QueryAbi(errno) => "query ABI errno "@ + errno_text(errno) + seccomp_hint(
            errno,
        ),
        LandlockError::CreateRuleset(errno) => "create ruleset errno "@ + errno_text(errno)
            + seccomp_hint(errno),
        LandlockError::OpenPath { path, errno } => "open "@ + shown_path(path@) + " errno "@
            + errno_text(errno),
        LandlockError::AddRule { path, errno } => "add rule "@ + shown_path(path@) + " errno "@
            + errno_text(errno) + seccomp_hint(errno),
        LandlockError::AddNetPortRule { port, action, errno } => "add "@ + action@
            + " rule for port "@ + text::decimal(port as nat) + " errno "@ + errno_text(errno)
            + seccomp_hint(errno),
        LandlockError::SetNoNewPrivs(errno) => "PR_SET_NO_NEW_PRIVS errno "@ + errno_text(errno),
        LandlockError::RestrictSelf(errno) => "restrict self errno "@ + errno_text(errno)
            + seccomp_hint(errno),
    }
}

fn push_restriction_error(out: &mut String, e: &LandlockError)
    ensures
        final(out)@ =~= old(out)@ + restriction_error_text(*e),
{
    match e {
        LandlockError::NotSupported => {
            out.append("not supported (kernel/LSM)");
        },
        LandlockError::AbiTooOld { feature, required_abi, current_abi } => {
            out.append(feature);
            out.append(" requires ABI ");
            out.append(decimal_text(*required_abi as u64).as_str());
            out.append(" but kernel reports ABI ");
            out.append(decimal_text(*current_abi as u64).as_str());
        },
        LandlockError::QueryAbi(errno) => {
            out.append("query ABI errno ");
            push_errno(out, *errno);
            push_seccomp_hint(out, *errno);
        },
        LandlockError::CreateRuleset(errno) => {
            out.append("create ruleset errno ");
            push_errno(out, *errno);
            push_seccomp_hint(out, *errno);
        },
        LandlockError::OpenPath { path, errno } => {
            out.append("open ");
            out.append(escape_bytes(path.as_slice()).as_str());
            out.append(" errno ");
            push_errno(out, *errno);
        },
        LandlockError::AddRule { path, errno } => {
            out.append("add rule ");
            out.append(escape_bytes(path.as_slice()).as_str());
            out.append(" errno ");
            push_errno(out, *errno);
            push_seccomp_hint(out, *errno);
        },
        LandlockError::AddNetPortRule { port, action, errno } => {
            out.append("add ");
            out.append(action);
            out.append(" rule for port ");
            out.append(decimal_text(*port as u64).as_str());
            out.append(" errno ");
            push_errno(out, *errno);
            push_seccomp_hint(out, *errno);
        },
        LandlockError::SetNoNewPrivs(errno) => {
            out.append("PR_SET_NO_NEW_PRIVS errno ");
            push_errno(out, *errno);
        },
        LandlockError::RestrictSelf(errno) => {
            out.append("restrict self errno ");
            push_errno(out, *errno);
            push_seccomp_hint(out, *errno);
        },
    }
}

/// What is said when access could not be restricted.
pub open spec fn restriction_failure_text(warn_only: bool, e: LandlockError) -> Seq<char> {
    (if warn_only {
        "tino: access restriction unavailable; continuing (backend landlock: "@
    } else {
        "tino: access restriction failed (backend landlock: "@
    }) + restriction_error_text(e) + ")\n"@
}

/// What is said when access could not be restricted.
pub fn report_landlock_failure(warn_only: bool, e: &LandlockError) -> (r: String)
    ensures
        r@ == restriction_failure_text(warn_only, *e),
{
    let mut out = if warn_only {
        "tino: access restriction unavailable; continuing (backend landlock: ".to_owned()
    } else {
        "tino: access restriction failed (backend landlock: ".to_owned()
    };
    push_restriction_error(&mut out, e);
    out.append(")\n");
    out
}

} // verus!
