//! What the restrictions of a command allow: all that was asked for, and nothing else.

use vstd::prelude::*;

use crate::cli::{CliModel, WritePreset};
use crate::facts::{self, FindModel, QuestionModel, ReplyModel, WorldModel};
use crate::policy;
use crate::policy_law;

verus! {

/// Whether a path that was given leads to the directory `d`.
pub open spec fn leads_to(w: WorldModel, raw: Seq<char>, d: Seq<u8>) -> bool {
    policy_law::directory_leads_to(w, vstd::utf8::encode_utf8(raw), d)
}

/// Whether a path that was given leads to a directory.
pub open spec fn leads_somewhere(w: WorldModel, raw: Seq<char>) -> bool {
    exists|d: Seq<u8>| leads_to(w, raw, d)
}

/// Whether one of the paths that were given, from the one at `from` on, leads to the directory `d`.
pub open spec fn one_leads_to(w: WorldModel, raws: Seq<Seq<char>>, from: int, d: Seq<u8>) -> bool {
    exists|i: int| from <= i < raws.len() && leads_to(w, #[trigger] raws[i], d)
}

/// Whether a preset leads to the directory `d`.
pub open spec fn preset_leads_to(w: WorldModel, preset: WritePreset, d: Seq<u8>) -> bool {
    leads_to(w, "/tmp"@, d) || leads_to(w, "/var/tmp"@, d) || (preset is Runtime && leads_to(
        w,
        "/run"@,
        d,
    ))
}

/// Whether one of the presets, from the one at `from` on, leads to the directory `d`.
pub open spec fn one_preset_leads_to(
    w: WorldModel,
    presets: Seq<WritePreset>,
    from: int,
    d: Seq<u8>,
) -> bool {
    exists|i: int| from <= i < presets.len() && preset_leads_to(w, #[trigger] presets[i], d)
}

proof fn lemma_one(w: WorldModel, dirs: Seq<Seq<u8>>, raw: Seq<char>, allow_missing: bool, d: Seq<u8>)
    requires
        facts::sorted(dirs),
    ensures
        policy::dir_added(w, dirs, raw, allow_missing) matches FindModel::Found(after) ==> {
            &&& facts::sorted(after)
            &&& after.contains(d) <==> dirs.contains(d) || leads_to(w, raw, d)
            &&& !allow_missing ==> leads_somewhere(w, raw)
        },
{
    match policy::pinned(w, raw, allow_missing, "write allow path"@) {
        FindModel::Found(Some(p)) => {
            facts::law_paths_stay_sorted(dirs, p);
            assert(leads_to(w, raw, p));
        },
        _ => {},
    }
}

proof fn lemma_writes(w: WorldModel, dirs: Seq<Seq<u8>>, raws: Seq<Seq<char>>, from: int, d: Seq<u8>)
    requires
        facts::sorted(dirs),
        0 <= from,
    ensures
        policy::writes_added(w, dirs, raws, from) matches FindModel::Found(after) ==> {
            &&& facts::sorted(after)
            &&& after.contains(d) <==> dirs.contains(d) || one_leads_to(w, raws, from, d)
            &&& forall|i: int|
                from <= i < raws.len() ==> leads_somewhere(w, #[trigger] raws[i])
        },
    decreases raws.len() - from,
{
    if from < raws.len() {
        lemma_one(w, dirs, raws[from], false, d);
        if let FindModel::Found(more) = policy::dir_added(w, dirs, raws[from], false) {
            lemma_writes(w, more, raws, from + 1, d);
            if policy::absolute_misuse("--write-allow"@, raws[from]) is None {
                if policy::writes_added(w, more, raws, from + 1) is Found {
                    if one_leads_to(w, raws, from, d) && !leads_to(w, raws[from], d) {
                        let i = choose|i: int|
                            from <= i < raws.len() && leads_to(w, #[trigger] raws[i], d);
                        assert(from + 1 <= i);
                    }
                    if one_leads_to(w, raws, from + 1, d) {
                        let i = choose|i: int|
                            from + 1 <= i < raws.len() && leads_to(w, #[trigger] raws[i], d);
                        assert(leads_to(w, raws[i], d));
                    }
                }
            }
        }
    }
}

proof fn lemma_preset(w: WorldModel, dirs: Seq<Seq<u8>>, preset: WritePreset, d: Seq<u8>)
    requires
        facts::sorted(dirs),
    ensures
        policy::preset_added(w, dirs, policy::preset_dirs(preset), 0) matches FindModel::Found(after)
            ==> {
            &&& facts::sorted(after)
            &&& after.contains(d) <==> dirs.contains(d) || preset_leads_to(w, preset, d)
        },
{
    let names = policy::preset_dirs(preset);
    reveal_with_fuel(policy::preset_added, 5);
    lemma_one(w, dirs, "/tmp"@, true, d);
    if let FindModel::Found(a) = policy::dir_added(w, dirs, "/tmp"@, true) {
        lemma_one(w, a, "/var/tmp"@, true, d);
        if let FindModel::Found(b) = policy::dir_added(w, a, "/var/tmp"@, true) {
            lemma_one(w, b, "/run"@, true, d);
        }
    }
}

proof fn lemma_presets(
    w: WorldModel,
    dirs: Seq<Seq<u8>>,
    presets: Seq<WritePreset>,
    from: int,
    d: Seq<u8>,
)
    requires
        facts::sorted(dirs),
        0 <= from,
    ensures
        policy::presets_added(w, dirs, presets, from) matches FindModel::Found(after) ==> {
            &&& facts::sorted(after)
            &&& after.contains(d) <==> dirs.contains(d) || one_preset_leads_to(w, presets, from, d)
        },
    decreases presets.len() - from,
{
    if from < presets.len() {
        lemma_preset(w, dirs, presets[from], d);
        if let FindModel::Found(more) = policy::preset_added(
            w,
            dirs,
            policy::preset_dirs(presets[from]),
            0,
        ) {
            lemma_presets(w, more, presets, from + 1, d);
            if one_preset_leads_to(w, presets, from, d) && !preset_leads_to(w, presets[from], d) {
                let i = choose|i: int|
                    from <= i < presets.len() && preset_leads_to(w, #[trigger] presets[i], d);
                assert(from + 1 <= i);
            }
            if one_preset_leads_to(w, presets, from + 1, d) {
                let i = choose|i: int|
                    from + 1 <= i < presets.len() && preset_leads_to(w, #[trigger] presets[i], d);
                assert(preset_leads_to(w, presets[i], d));
            }
        }
    }
}

/// The directories that may be written to are exactly those that a path of the settings or a preset
/// leads to: `/tmp` and `/var/tmp`, and `/run` for the larger preset. A path of the settings leads to
/// one without fail.
pub proof fn law_writable_directories_are_those_asked_for(
    w: WorldModel,
    m: CliModel,
    cmd: Seq<Seq<char>>,
    d: Seq<u8>,
)
    ensures
        policy::restrictions(w, m, cmd) matches FindModel::Found(Some(p)) ==> {
            &&& p.writable_dirs.contains(d) <==> one_leads_to(w, m.write_allow, 0, d)
                || one_preset_leads_to(w, m.write_preset, 0, d)
            &&& forall|i: int|
                0 <= i < m.write_allow.len() ==> leads_somewhere(w, #[trigger] m.write_allow[i])
        },
{
    let none = Seq::<Seq<u8>>::empty();
    lemma_presets(w, none, m.write_preset, 0, d);
    if let FindModel::Found(dirs) = policy::presets_added(w, none, m.write_preset, 0) {
        lemma_writes(w, dirs, m.write_allow, 0, d);
    }
}

/// The directory of devices may be written to where writing is restricted, unless that is refused, and
/// is the one that `/dev` leads to.
pub proof fn law_directory_of_devices(w: WorldModel, m: CliModel, cmd: Seq<Seq<char>>, d: Seq<u8>)
    ensures
        policy::restrictions(w, m, cmd) matches FindModel::Found(Some(p)) ==> {
            let asked = m.write_restrict || m.write_allow.len() > 0 || m.write_preset.len() > 0;
            p.dev_dir == Some(d) <==> asked && !m.write_no_dev && leads_to(w, "/dev"@, d)
        },
{
}

/// Whether a path that was given leads to a device or a directory `d`.
pub open spec fn leads_to_device(w: WorldModel, raw: Seq<char>, d: Seq<u8>) -> bool {
    match w.knows(QuestionModel::Open(vstd::utf8::encode_utf8(raw))) {
        Some(ReplyModel::Opened { path, facts, env }) => path == d && (facts.kind is Directory
            || facts.kind is CharDevice || facts.kind is BlockDevice),
        _ => false,
    }
}

/// Whether a path that was given leads to a device or a directory.
pub open spec fn leads_to_some_device(w: WorldModel, raw: Seq<char>) -> bool {
    exists|d: Seq<u8>| leads_to_device(w, raw, d)
}

/// Whether one of the paths that were given, from the one at `from` on, leads to a device or a
/// directory `d`.
pub open spec fn one_leads_to_device(
    w: WorldModel,
    raws: Seq<Seq<char>>,
    from: int,
    d: Seq<u8>,
) -> bool {
    exists|i: int| from <= i < raws.len() && leads_to_device(w, #[trigger] raws[i], d)
}

proof fn lemma_devices(
    w: WorldModel,
    paths: Seq<Seq<u8>>,
    raws: Seq<Seq<char>>,
    from: int,
    d: Seq<u8>,
)
    requires
        facts::sorted(paths),
        0 <= from,
    ensures
        policy::devices_added(w, paths, raws, from) matches FindModel::Found(after) ==> {
            &&& after.contains(d) <==> paths.contains(d) || one_leads_to_device(w, raws, from, d)
            &&& forall|i: int|
                from <= i < raws.len() ==> leads_to_some_device(w, #[trigger] raws[i])
        },
    decreases raws.len() - from,
{
    if from < raws.len() {
        if let FindModel::Found(p) = policy::device_path(w, raws[from]) {
            facts::law_paths_stay_sorted(paths, p);
            assert(leads_to_device(w, raws[from], p));
            let more = facts::with_path(paths, p);
            lemma_devices(w, more, raws, from + 1, d);
            if one_leads_to_device(w, raws, from, d) && !leads_to_device(w, raws[from], d) {
                let i = choose|i: int|
                    from <= i < raws.len() && leads_to_device(w, #[trigger] raws[i], d);
                assert(from + 1 <= i);
            }
            if one_leads_to_device(w, raws, from + 1, d) {
                let i = choose|i: int|
                    from + 1 <= i < raws.len() && leads_to_device(w, #[trigger] raws[i], d);
                assert(leads_to_device(w, raws[i], d));
            }
        }
    }
}

/// The devices that may be used are exactly those that a path of the settings leads to, and each of
/// these paths leads to a device or a directory.
pub proof fn law_devices_are_those_asked_for(
    w: WorldModel,
    m: CliModel,
    cmd: Seq<Seq<char>>,
    d: Seq<u8>,
)
    ensures
        policy::restrictions(w, m, cmd) matches FindModel::Found(Some(p)) ==> {
            &&& p.device_ioctl_allow_paths.contains(d) <==> one_leads_to_device(
                w,
                m.device_ioctl_allow,
                0,
                d,
            )
            &&& forall|i: int|
                0 <= i < m.device_ioctl_allow.len() ==> leads_to_some_device(w, #[trigger] m.device_ioctl_allow[i])
        },
{
    lemma_devices(w, Seq::empty(), m.device_ioctl_allow, 0, d);
}

/// The ports that may be bound and connected to are exactly those of the settings, and none is 0. Whether
/// the restrictions may be missing is as the settings say.
pub proof fn law_ports_are_those_asked_for(
    w: WorldModel,
    m: CliModel,
    cmd: Seq<Seq<char>>,
    port: u16,
)
    ensures
        policy::restrictions(w, m, cmd) matches FindModel::Found(Some(p)) ==> {
            &&& p.bind_tcp_ports.contains(port) <==> m.bind_tcp_allow.contains(port)
            &&& p.connect_tcp_ports.contains(port) <==> m.connect_tcp_allow.contains(port)
            &&& !p.bind_tcp_ports.contains(0) && !p.connect_tcp_ports.contains(0)
            &&& p.warn_only == m.restrict_warn_only
        },
{
    policy::law_ports_are_the_given_ones(m.bind_tcp_allow);
    policy::law_ports_are_the_given_ones(m.connect_tcp_allow);
}

/// Which paths are refused before they are looked at: for writing and for devices those that are empty,
/// have blanks around them or do not begin at the root, and for execution those that are empty, have
/// blanks around them, or hold a slash and do not begin at the root.
pub proof fn law_paths_that_are_refused(option: Seq<char>, raw: Seq<char>)
    ensures
        policy::absolute_misuse(option, raw) is None <==> raw.len() > 0 && raw[0] == '/'
            && crate::text::trim(raw) == raw,
        policy::exec_misuse(option, raw) is None <==> raw.len() > 0 && crate::text::trim(raw) == raw
            && (raw[0] == '/' || !raw.contains('/')),
        policy::absolute_misuse(option, raw) matches Some(e) ==> e.usage,
        policy::exec_misuse(option, raw) matches Some(e) ==> e.usage,
{
}

} // verus!
