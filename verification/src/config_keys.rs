//! The keys of a configuration file: what each is, and that each is a plain word.

use vstd::prelude::*;

use crate::cli::{Flag, ValueOption};
use crate::config::{self, ConfigKey};
use crate::text;

verus! {

/// A word that stands at the front of a line and ends at the first white space.
pub open spec fn plain_key(k: Seq<char>) -> bool {
    &&& k.len() > 0
    &&& 'a' <= k[0] <= 'z'
    &&& forall|i: int| 0 <= i < k.len() ==> !text::is_space(#[trigger] k[i])
}

/// By what a word is told apart from the others: its length and the letters at its ends.
pub open spec fn mark(k: Seq<char>) -> (nat, char, char) {
    (k.len(), k[0], k.last())
}

/// The marks of all words that can stand where a key does. No two are the same.
pub proof fn lemma_marks()
    ensures
        mark("subreaper"@) == (9nat, 's', 'r'),
        mark("warn-on-reap"@) == (12nat, 'w', 'p'),
        mark("pgroup-kill"@) == (11nat, 'p', 'l'),
        mark("write-restrict"@) == (14nat, 'w', 't'),
        mark("restrict-warn-only"@) == (18nat, 'r', 'y'),
        mark("write-no-dev"@) == (12nat, 'w', 'v'),
        mark("scope-signals"@) == (13nat, 's', 's'),
        mark("scope-abstract-unix"@) == (19nat, 's', 'x'),
        mark("expand-env"@) == (10nat, 'e', 'v'),
        mark("explain"@) == (7nat, 'e', 'n'),
        mark("print-config"@) == (12nat, 'p', 'g'),
        mark("write-config"@) == (12nat, 'w', 'g'),
        mark("check-config"@) == (12nat, 'c', 'g'),
        mark("no-config"@) == (9nat, 'n', 'g'),
        mark("help"@) == (4nat, 'h', 'p'),
        mark("version"@) == (7nat, 'v', 'n'),
        mark("pdeath"@) == (6nat, 'p', 'h'),
        mark("remap-exit"@) == (10nat, 'r', 't'),
        mark("grace-ms"@) == (8nat, 'g', 's'),
        mark("write-allow"@) == (11nat, 'w', 'w'),
        mark("write-preset"@) == (12nat, 'w', 't'),
        mark("bind-tcp-allow"@) == (14nat, 'b', 'w'),
        mark("connect-tcp-allow"@) == (17nat, 'c', 'w'),
        mark("exec-allow"@) == (10nat, 'e', 'w'),
        mark("device-ioctl-allow"@) == (18nat, 'd', 'w'),
        mark("parent-death-signal"@) == (19nat, 'p', 'l'),
        mark("verbosity"@) == (9nat, 'v', 'y'),
{
    assert(mark("subreaper"@) == (9nat, 's', 'r')) by {
        reveal_strlit("subreaper");
    }
    assert(mark("warn-on-reap"@) == (12nat, 'w', 'p')) by {
        reveal_strlit("warn-on-reap");
    }
    assert(mark("pgroup-kill"@) == (11nat, 'p', 'l')) by {
        reveal_strlit("pgroup-kill");
    }
    assert(mark("write-restrict"@) == (14nat, 'w', 't')) by {
        reveal_strlit("write-restrict");
    }
    assert(mark("restrict-warn-only"@) == (18nat, 'r', 'y')) by {
        reveal_strlit("restrict-warn-only");
    }
    assert(mark("write-no-dev"@) == (12nat, 'w', 'v')) by {
        reveal_strlit("write-no-dev");
    }
    assert(mark("scope-signals"@) == (13nat, 's', 's')) by {
        reveal_strlit("scope-signals");
    }
    assert(mark("scope-abstract-unix"@) == (19nat, 's', 'x')) by {
        reveal_strlit("scope-abstract-unix");
    }
    assert(mark("expand-env"@) == (10nat, 'e', 'v')) by {
        reveal_strlit("expand-env");
    }
    assert(mark("explain"@) == (7nat, 'e', 'n')) by {
        reveal_strlit("explain");
    }
    assert(mark("print-config"@) == (12nat, 'p', 'g')) by {
        reveal_strlit("print-config");
    }
    assert(mark("write-config"@) == (12nat, 'w', 'g')) by {
        reveal_strlit("write-config");
    }
    assert(mark("check-config"@) == (12nat, 'c', 'g')) by {
        reveal_strlit("check-config");
    }
    assert(mark("no-config"@) == (9nat, 'n', 'g')) by {
        reveal_strlit("no-config");
    }
    assert(mark("help"@) == (4nat, 'h', 'p')) by {
        reveal_strlit("help");
    }
    assert(mark("version"@) == (7nat, 'v', 'n')) by {
        reveal_strlit("version");
    }
    assert(mark("pdeath"@) == (6nat, 'p', 'h')) by {
        reveal_strlit("pdeath");
    }
    assert(mark("remap-exit"@) == (10nat, 'r', 't')) by {
        reveal_strlit("remap-exit");
    }
    assert(mark("grace-ms"@) == (8nat, 'g', 's')) by {
        reveal_strlit("grace-ms");
    }
    assert(mark("write-allow"@) == (11nat, 'w', 'w')) by {
        reveal_strlit("write-allow");
    }
    assert(mark("write-preset"@) == (12nat, 'w', 't')) by {
        reveal_strlit("write-preset");
    }
    assert(mark("bind-tcp-allow"@) == (14nat, 'b', 'w')) by {
        reveal_strlit("bind-tcp-allow");
    }
    assert(mark("connect-tcp-allow"@) == (17nat, 'c', 'w')) by {
        reveal_strlit("connect-tcp-allow");
    }
    assert(mark("exec-allow"@) == (10nat, 'e', 'w')) by {
        reveal_strlit("exec-allow");
    }
    assert(mark("device-ioctl-allow"@) == (18nat, 'd', 'w')) by {
        reveal_strlit("device-ioctl-allow");
    }
    assert(mark("parent-death-signal"@) == (19nat, 'p', 'l')) by {
        reveal_strlit("parent-death-signal");
    }
    assert(mark("verbosity"@) == (9nat, 'v', 'y')) by {
        reveal_strlit("verbosity");
    }
}

pub proof fn lemma_key_subreaper()
    ensures
        plain_key("subreaper"@),
        config::key_meaning("subreaper"@) == ConfigKey::Flag(Flag::Subreaper),
{
    reveal_strlit("subreaper");
    lemma_marks();
}

pub proof fn lemma_key_warn_on_reap()
    ensures
        plain_key("warn-on-reap"@),
        config::key_meaning("warn-on-reap"@) == ConfigKey::Flag(Flag::WarnOnReap),
{
    reveal_strlit("warn-on-reap");
    lemma_marks();
}

pub proof fn lemma_key_pgroup_kill()
    ensures
        plain_key("pgroup-kill"@),
        config::key_meaning("pgroup-kill"@) == ConfigKey::Flag(Flag::PgroupKill),
{
    reveal_strlit("pgroup-kill");
    lemma_marks();
}

pub proof fn lemma_key_write_restrict()
    ensures
        plain_key("write-restrict"@),
        config::key_meaning("write-restrict"@) == ConfigKey::Flag(Flag::WriteRestrict),
{
    reveal_strlit("write-restrict");
    lemma_marks();
}

pub proof fn lemma_key_restrict_warn_only()
    ensures
        plain_key("restrict-warn-only"@),
        config::key_meaning("restrict-warn-only"@) == ConfigKey::Flag(Flag::RestrictWarnOnly),
{
    reveal_strlit("restrict-warn-only");
    lemma_marks();
}

pub proof fn lemma_key_write_no_dev()
    ensures
        plain_key("write-no-dev"@),
        config::key_meaning("write-no-dev"@) == ConfigKey::Flag(Flag::WriteNoDev),
{
    reveal_strlit("write-no-dev");
    lemma_marks();
}

pub proof fn lemma_key_scope_signals()
    ensures
        plain_key("scope-signals"@),
        config::key_meaning("scope-signals"@) == ConfigKey::Flag(Flag::ScopeSignals),
{
    reveal_strlit("scope-signals");
    lemma_marks();
}

pub proof fn lemma_key_scope_abstract_unix()
    ensures
        plain_key("scope-abstract-unix"@),
        config::key_meaning("scope-abstract-unix"@) == ConfigKey::Flag(Flag::ScopeAbstractUnix),
{
    reveal_strlit("scope-abstract-unix");
    lemma_marks();
}

pub proof fn lemma_key_expand_env()
    ensures
        plain_key("expand-env"@),
        config::key_meaning("expand-env"@) == ConfigKey::Flag(Flag::ExpandEnv),
{
    reveal_strlit("expand-env");
    lemma_marks();
}

pub proof fn lemma_key_pdeath()
    ensures
        plain_key("pdeath"@),
        config::key_meaning("pdeath"@) == ConfigKey::Value(ValueOption::ParentDeathSignal),
{
    reveal_strlit("pdeath");
    lemma_marks();
}

pub proof fn lemma_key_remap_exit()
    ensures
        plain_key("remap-exit"@),
        config::key_meaning("remap-exit"@) == ConfigKey::Value(ValueOption::RemapExit),
{
    reveal_strlit("remap-exit");
    lemma_marks();
}

pub proof fn lemma_key_grace_ms()
    ensures
        plain_key("grace-ms"@),
        config::key_meaning("grace-ms"@) == ConfigKey::Value(ValueOption::GraceMs),
{
    reveal_strlit("grace-ms");
    lemma_marks();
}

pub proof fn lemma_key_write_allow()
    ensures
        plain_key("write-allow"@),
        config::key_meaning("write-allow"@) == ConfigKey::Value(ValueOption::WriteAllow),
{
    reveal_strlit("write-allow");
    lemma_marks();
}

pub proof fn lemma_key_write_preset()
    ensures
        plain_key("write-preset"@),
        config::key_meaning("write-preset"@) == ConfigKey::Value(ValueOption::WritePreset),
{
    reveal_strlit("write-preset");
    lemma_marks();
}

pub proof fn lemma_key_bind_tcp_allow()
    ensures
        plain_key("bind-tcp-allow"@),
        config::key_meaning("bind-tcp-allow"@) == ConfigKey::Value(ValueOption::BindTcpAllow),
{
    reveal_strlit("bind-tcp-allow");
    lemma_marks();
}

pub proof fn lemma_key_connect_tcp_allow()
    ensures
        plain_key("connect-tcp-allow"@),
        config::key_meaning("connect-tcp-allow"@) == ConfigKey::Value(ValueOption::ConnectTcpAllow),
{
    reveal_strlit("connect-tcp-allow");
    lemma_marks();
}

pub proof fn lemma_key_exec_allow()
    ensures
        plain_key("exec-allow"@),
        config::key_meaning("exec-allow"@) == ConfigKey::Value(ValueOption::ExecAllow),
{
    reveal_strlit("exec-allow");
    lemma_marks();
}

pub proof fn lemma_key_device_ioctl_allow()
    ensures
        plain_key("device-ioctl-allow"@),
        config::key_meaning("device-ioctl-allow"@) == ConfigKey::Value(ValueOption::DeviceIoctlAllow),
{
    reveal_strlit("device-ioctl-allow");
    lemma_marks();
}

pub proof fn lemma_key_verbosity()
    ensures
        plain_key("verbosity"@),
        config::key_meaning("verbosity"@) == ConfigKey::Verbosity,
{
    reveal_strlit("verbosity");
    lemma_marks();
}

} // verus!
