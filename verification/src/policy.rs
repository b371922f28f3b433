//! From the settings to what the child is restricted to.

use vstd::prelude::*;

use crate::cli::{self, Cli, CliModel, WritePreset};
use crate::discovery::{self, ExecAllowMode};
use crate::error::{self, Error, ErrorModel};
use crate::facts::{
    self, add_sorted, io_error, quote_path, FileKind, Find, FindModel, Question, QuestionModel,
    Reply, ReplyModel, World, WorldModel,
};
use crate::follow::{
    self, insert_landlock_exec_path, insert_landlock_main_exec_path, Discovery, DiscoveryModel,
    Outcome, OutcomeModel,
};
use crate::context;
use crate::landlock::LandlockConfig;
use crate::report::{self, ENOENT};
use crate::text::{self, chars_of, copy_bytes, has_char, same_chars, trimmed};

verus! {

// ---------------------------------------------------------------------------
// Options
// ---------------------------------------------------------------------------

/// What is wrong with a path that was given as an option, if anything.
pub open spec fn path_misuse(option: Seq<char>, raw: Seq<char>) -> Option<ErrorModel> {
    if raw.len() == 0 {
        Some(error::misuse(option + " PATH cannot be empty"@))
    } else if raw != text::trim(raw) {
        Some(error::misuse(option + " PATH cannot have surrounding whitespace"@))
    } else {
        None
    }
}

pub open spec fn starts_at_root(raw: Seq<char>) -> bool {
    raw.len() > 0 && raw[0] == '/'
}

/// What is wrong with a path that has to begin at the root, if anything.
pub open spec fn absolute_misuse(option: Seq<char>, raw: Seq<char>) -> Option<ErrorModel> {
    if path_misuse(option, raw) is Some {
        path_misuse(option, raw)
    } else if !starts_at_root(raw) {
        Some(error::misuse(option + " PATH must be absolute"@))
    } else {
        None
    }
}

/// What is wrong with a path or command name, if anything.
pub open spec fn exec_misuse(option: Seq<char>, raw: Seq<char>) -> Option<ErrorModel> {
    if path_misuse(option, raw) is Some {
        path_misuse(option, raw)
    } else if raw.contains('/') && !starts_at_root(raw) {
        Some(error::misuse(option + " PATH must be absolute when it contains '/'"@))
    } else {
        None
    }
}

/// The error of a check, if it found one.
pub open spec fn fault(r: Result<(), Error>) -> Option<ErrorModel> {
    match r {
        Ok(()) => None,
        Err(e) => Some(e@),
    }
}

fn misuse(option: &str, rest: &str) -> (r: Error)
    ensures
        r@ == error::misuse(option@ + rest@),
{
    let mut message = option.to_owned();
    message.append(rest);
    Error::usage(message)
}

/// Checks a path that was given as an option.
pub fn landlock_path_option(option: &str, raw: &str) -> (r: Result<(), Error>)
    ensures
        fault(r) == path_misuse(option@, raw@),
{
    let chars = chars_of(raw);
    if chars.len() == 0 {
        return Err(misuse(option, " PATH cannot be empty"));
    }
    if !same_chars(chars.as_slice(), trimmed(chars.as_slice())) {
        return Err(misuse(option, " PATH cannot have surrounding whitespace"));
    }
    Ok(())
}

/// Checks a path that has to begin at the root.
pub fn landlock_absolute_path_option(option: &str, raw: &str) -> (r: Result<(), Error>)
    ensures
        fault(r) == absolute_misuse(option@, raw@),
{
    match landlock_path_option(option, raw) {
        Err(e) => return Err(e),
        Ok(()) => {},
    }
    let chars = chars_of(raw);
    if chars[0] != '/' {
        return Err(misuse(option, " PATH must be absolute"));
    }
    Ok(())
}

/// Checks a path or command name.
pub fn landlock_exec_path_option(option: &str, raw: &str) -> (r: Result<(), Error>)
    ensures
        fault(r) == exec_misuse(option@, raw@),
{
    match landlock_path_option(option, raw) {
        Err(e) => return Err(e),
        Ok(()) => {},
    }
    let chars = chars_of(raw);
    if has_char(chars.as_slice(), '/') && chars[0] != '/' {
        return Err(misuse(option, " PATH must be absolute when it contains '/'"));
    }
    Ok(())
}

/// Whether numbers rise from one to the next.
pub open spec fn rising(v: Seq<u16>) -> bool {
    forall|i: int, j: int| 0 <= i < j < v.len() ==> v[i] < v[j]
}

/// Ports in order, each once.
pub fn unique_ports(option: &str, raw_ports: &Vec<u16>) -> (r: Result<Vec<u16>, Error>)
    ensures
        match r {
            Ok(ports) => {
                &&& !raw_ports@.contains(0)
                &&& rising(ports@)
                &&& forall|x: u16| #[trigger] ports@.contains(x) <==> raw_ports@.contains(x)
            },
            Err(e) => raw_ports@.contains(0) && e@ == zero_port(option@),
        },
{
    let mut out: Vec<u16> = Vec::new();
    let mut i: usize = 0;
    while i < raw_ports.len()
        invariant
            i <= raw_ports@.len(),
            forall|j: int| 0 <= j < i ==> raw_ports@[j] != 0,
        decreases raw_ports@.len() - i,
    {
        if raw_ports[i] == 0 {
            let mut message = "invalid value for ".to_owned();
            message.append(option);
            message.append(": 0 (expected 1-65535)");
            assert(raw_ports@[i as int] == 0);
            return Err(Error::usage(message));
        }
        i = i + 1;
    }
    let mut n: usize = 0;
    while n < raw_ports.len()
        invariant
            n <= raw_ports@.len(),
            rising(out@),
            forall|x: u16| #[trigger] out@.contains(x) <==> raw_ports@.take(n as int).contains(x),
        decreases raw_ports@.len() - n,
    {
        let port: u16 = raw_ports[n];
        let ghost before = out@;
        let mut k: usize = 0;
        while k < out.len() && out[k] < port
            invariant
                k <= out@.len(),
                out@ == before,
                forall|j: int| 0 <= j < k ==> out@[j] < port,
            decreases out@.len() - k,
        {
            k = k + 1;
        }
        if k >= out.len() || out[k] != port {
            out.insert(k, port);
        }
        proof {
            lemma_port_added(before, out@, k as int, port);
            let earlier = raw_ports@.take(n as int);
            let later = raw_ports@.take(n + 1);
            assert(later =~= earlier.push(port));
            assert forall|x: u16| #[trigger] out@.contains(x) <==> later.contains(x) by {
                assert(before.contains(x) <==> earlier.contains(x));
                if earlier.contains(x) {
                    let j = choose|j: int| 0 <= j < earlier.len() && earlier[j] == x;
                    assert(later[j] == x);
                }
                if x == port {
                    assert(later[n as int] == x);
                }
                if later.contains(x) && x != port {
                    let j = choose|j: int| 0 <= j < later.len() && later[j] == x;
                    assert(earlier[j] == x);
                }
            }
        }
        n = n + 1;
    }
    assert(raw_ports@.take(n as int) =~= raw_ports@);
    Ok(out)
}

/// The error of a port that is 0.
pub open spec fn zero_port(option: Seq<char>) -> ErrorModel {
    error::misuse("invalid value for "@ + option + ": 0 (expected 1-65535)"@)
}

proof fn lemma_port_added(before: Seq<u16>, after: Seq<u16>, k: int, port: u16)
    requires
        rising(before),
        0 <= k <= before.len(),
        forall|j: int| 0 <= j < k ==> before[j] < port,
        k < before.len() ==> before[k] >= port,
        after == if k < before.len() && before[k] == port {
            before
        } else {
            before.insert(k, port)
        },
    ensures
        rising(after),
        forall|x: u16| #[trigger] after.contains(x) <==> before.contains(x) || x == port,
{
    assert forall|x: u16| #[trigger] after.contains(x) <==> before.contains(x) || x == port by {
        if before.contains(x) {
            let j = choose|j: int| 0 <= j < before.len() && before[j] == x;
            if after == before || j < k {
                assert(after[j] == x);
            } else {
                assert(after[j + 1] == x);
            }
        }
        if x == port {
            assert(after[k] == x);
        }
        if after.contains(x) && x != port {
            let j = choose|j: int| 0 <= j < after.len() && after[j] == x;
            if after == before || j < k {
                assert(before[j] == x);
            } else {
                assert(before[j - 1] == x);
            }
        }
    }
}

/// The only ports in order: there is no other way to put the same ports.
pub proof fn lemma_rising_unique(a: Seq<u16>, b: Seq<u16>)
    requires
        rising(a),
        rising(b),
        forall|x: u16| #[trigger] a.contains(x) <==> b.contains(x),
    ensures
        a == b,
    decreases a.len(),
{
    if a.len() == 0 {
        if b.len() > 0 {
            assert(b.contains(b[0]));
            assert(a.contains(b[0]));
        }
        assert(a =~= b);
    } else {
        assert(a.contains(a.last()));
        assert(b.contains(a.last()));
        assert(b.contains(b.last()));
        assert(a.contains(b.last()));
        let i = choose|i: int| 0 <= i < b.len() && b[i] == a.last();
        let j = choose|j: int| 0 <= j < a.len() && a[j] == b.last();
        assert(a.last() == b.last()) by {
            if i < b.len() - 1 {
                assert(b[i] < b[b.len() - 1]);
            }
            if j < a.len() - 1 {
                assert(a[j] < a[a.len() - 1]);
            }
        }
        let a0 = a.drop_last();
        let b0 = b.drop_last();
        assert forall|x: u16| #[trigger] a0.contains(x) <==> b0.contains(x) by {
            if a0.contains(x) {
                let m = choose|m: int| 0 <= m < a0.len() && a0[m] == x;
                assert(a[m] == x && a[m] < a[a.len() - 1]);
                assert(a.contains(x));
                let n = choose|n: int| 0 <= n < b.len() && b[n] == x;
                assert(b0[n] == x);
            }
            if b0.contains(x) {
                let m = choose|m: int| 0 <= m < b0.len() && b0[m] == x;
                assert(b[m] == x && b[m] < b[b.len() - 1]);
                assert(b.contains(x));
                assert(a.contains(x));
                let n = choose|n: int| 0 <= n < a.len() && a[n] == x;
                assert(a0[n] == x);
            }
        }
        lemma_rising_unique(a0, b0);
        assert(a =~= a0.push(a.last()));
        assert(b =~= b0.push(b.last()));
    }
}

// ---------------------------------------------------------------------------
// Directories and devices
// ---------------------------------------------------------------------------

/// The directories of a preset.
pub open spec fn preset_dirs(preset: WritePreset) -> Seq<Seq<char>> {
    match preset {
        WritePreset::Tmp => seq!["/tmp"@, "/var/tmp"@],
        WritePreset::Runtime => seq!["/tmp"@, "/var/tmp"@, "/run"@],
    }
}

pub open spec fn view_names(v: Seq<&'static str>) -> Seq<Seq<char>> {
    Seq::new(v.len(), |i: int| v[i]@)
}

/// The directories of a preset.
pub fn preset_paths(preset: WritePreset) -> (r: Vec<&'static str>)
    ensures
        view_names(r@) == preset_dirs(preset),
{
    let mut out: Vec<&'static str> = Vec::new();
    out.push("/tmp");
    out.push("/var/tmp");
    match preset {
        WritePreset::Tmp => {},
        WritePreset::Runtime => {
            out.push("/run");
        },
    }
    assert(view_names(out@) =~= preset_dirs(preset));
    out
}

/// A directory that is opened. One that is not there may be left out, where that is right.
pub open spec fn pinned(w: WorldModel, raw: Seq<char>, allow_missing: bool, kind: Seq<char>) -> FindModel<
    Option<Seq<u8>>,
> {
    let path = vstd::utf8::encode_utf8(raw);
    match w.knows(QuestionModel::OpenDirectory(path)) {
        Some(ReplyModel::Opened { path: actual, facts, env }) => FindModel::Found(Some(actual)),
        Some(ReplyModel::InspectFailed { path: actual, text }) => FindModel::Found(Some(actual)),
        Some(ReplyModel::Failed(errno, text)) => if allow_missing && errno == ENOENT {
            FindModel::Found(None)
        } else {
            FindModel::Fail(
                discovery::path_error("open "@ + kind + " '"@, path, "'"@, text),
            )
        },
        _ => FindModel::Need(QuestionModel::OpenDirectory(path)),
    }
}

pub open spec fn find_opt_path(r: Find<Option<Vec<u8>>>) -> FindModel<Option<Seq<u8>>> {
    match r {
        Find::Need(q) => FindModel::Need(q@),
        Find::Fail(e) => FindModel::Fail(e@),
        Find::Found(x) => FindModel::Found(context::opt_bytes(x)),
    }
}

/// A directory that is opened, if it is there or has to be.
pub fn pin_allow_path(w: &World, raw: &str, allow_missing: bool, kind: &str) -> (r: Find<
    Option<Vec<u8>>,
>)
    ensures
        find_opt_path(r) == pinned(w@, raw@, allow_missing, kind@),
{
    let question = Question::OpenDirectory(copy_bytes(raw.as_bytes()));
    match w.find(&question) {
        Some(Reply::Opened { path, facts, env }) => Find::Found(Some(copy_bytes(path.as_slice()))),
        Some(Reply::InspectFailed { path, failure }) => Find::Found(
            Some(copy_bytes(path.as_slice())),
        ),
        Some(Reply::Failed(failure)) => {
            if allow_missing && failure.errno == ENOENT {
                Find::Found(None)
            } else {
                let mut before = "open ".to_owned();
                before.append(kind);
                before.append(" '");
                Find::Fail(
                    io_error(quote_path(before.as_str(), raw.as_bytes(), "'"), failure),
                )
            }
        },
        _ => Find::Need(question),
    }
}

/// Directories with one more, if it is there or has to be.
pub open spec fn dir_added(w: WorldModel, dirs: Seq<Seq<u8>>, raw: Seq<char>, allow_missing: bool) -> FindModel<
    Seq<Seq<u8>>,
> {
    match pinned(w, raw, allow_missing, "write allow path"@) {
        FindModel::Need(q) => FindModel::Need(q),
        FindModel::Fail(e) => FindModel::Fail(e),
        FindModel::Found(None) => FindModel::Found(dirs),
        FindModel::Found(Some(path)) => FindModel::Found(facts::with_path(dirs, path)),
    }
}

/// Adds a directory.
pub fn insert_landlock_writable_dir(
    w: &World,
    dirs: Vec<Vec<u8>>,
    raw: &str,
    allow_missing: bool,
) -> (r: Find<Vec<Vec<u8>>>)
    ensures
        discovery::find_paths(r) == dir_added(
            w@,
            context::view_paths(dirs@),
            raw@,
            allow_missing,
        ),
{
    let mut dirs = dirs;
    match pin_allow_path(w, raw, allow_missing, "write allow path") {
        Find::Need(q) => Find::Need(q),
        Find::Fail(e) => Find::Fail(e),
        Find::Found(None) => Find::Found(dirs),
        Find::Found(Some(path)) => {
            add_sorted(&mut dirs, path.as_slice());
            Find::Found(dirs)
        },
    }
}

/// Directories with those of a preset that are there, from one on.
pub open spec fn preset_added(w: WorldModel, dirs: Seq<Seq<u8>>, names: Seq<Seq<char>>, from: int) -> FindModel<
    Seq<Seq<u8>>,
>
    decreases names.len() - from,
{
    if from < 0 || from >= names.len() {
        FindModel::Found(dirs)
    } else {
        match dir_added(w, dirs, names[from], true) {
            FindModel::Found(more) => preset_added(w, more, names, from + 1),
            other => other,
        }
    }
}

/// Directories with those of all presets that are there, from one on.
pub open spec fn presets_added(
    w: WorldModel,
    dirs: Seq<Seq<u8>>,
    presets: Seq<WritePreset>,
    from: int,
) -> FindModel<Seq<Seq<u8>>>
    decreases presets.len() - from,
{
    if from < 0 || from >= presets.len() {
        FindModel::Found(dirs)
    } else {
        match preset_added(w, dirs, preset_dirs(presets[from]), 0) {
            FindModel::Found(more) => presets_added(w, more, presets, from + 1),
            other => other,
        }
    }
}

fn add_preset_dirs(w: &World, dirs: Vec<Vec<u8>>, names: &Vec<&'static str>, from: usize) -> (r: Find<
    Vec<Vec<u8>>,
>)
    ensures
        discovery::find_paths(r) == preset_added(
            w@,
            context::view_paths(dirs@),
            view_names(names@),
            from as int,
        ),
    decreases names.len() - from,
{
    if from >= names.len() {
        return Find::Found(dirs);
    }
    assert(view_names(names@)[from as int] == names@[from as int]@);
    match insert_landlock_writable_dir(w, dirs, names[from], true) {
        Find::Found(more) => add_preset_dirs(w, more, names, from + 1),
        other => other,
    }
}

fn add_presets(w: &World, dirs: Vec<Vec<u8>>, presets: &Vec<WritePreset>, from: usize) -> (r: Find<
    Vec<Vec<u8>>,
>)
    ensures
        discovery::find_paths(r) == presets_added(
            w@,
            context::view_paths(dirs@),
            presets@,
            from as int,
        ),
    decreases presets.len() - from,
{
    if from >= presets.len() {
        return Find::Found(dirs);
    }
    let names = preset_paths(presets[from]);
    match add_preset_dirs(w, dirs, &names, 0) {
        Find::Found(more) => add_presets(w, more, presets, from + 1),
        other => other,
    }
}

/// Directories with those that were asked for, from one on.
pub open spec fn writes_added(
    w: WorldModel,
    dirs: Seq<Seq<u8>>,
    raws: Seq<Seq<char>>,
    from: int,
) -> FindModel<Seq<Seq<u8>>>
    decreases raws.len() - from,
{
    if from < 0 || from >= raws.len() {
        FindModel::Found(dirs)
    } else {
        match absolute_misuse("--write-allow"@, raws[from]) {
            Some(e) => FindModel::Fail(e),
            None => match dir_added(w, dirs, raws[from], false) {
                FindModel::Found(more) => writes_added(w, more, raws, from + 1),
                other => other,
            },
        }
    }
}

fn add_writes(w: &World, dirs: Vec<Vec<u8>>, raws: &Vec<String>, from: usize) -> (r: Find<
    Vec<Vec<u8>>,
>)
    ensures
        discovery::find_paths(r) == writes_added(
            w@,
            context::view_paths(dirs@),
            text::texts(raws@),
            from as int,
        ),
    decreases raws.len() - from,
{
    if from >= raws.len() {
        return Find::Found(dirs);
    }
    let raw = raws[from].as_str();
    assert(text::texts(raws@)[from as int] == raw@);
    match landlock_absolute_path_option("--write-allow", raw) {
        Err(e) => return Find::Fail(e),
        Ok(()) => {},
    }
    match insert_landlock_writable_dir(w, dirs, raw, false) {
        Find::Found(more) => add_writes(w, more, raws, from + 1),
        other => other,
    }
}

/// A path for device ioctl: a device, or a directory of devices.
pub open spec fn device_path(w: WorldModel, raw: Seq<char>) -> FindModel<Seq<u8>> {
    let path = vstd::utf8::encode_utf8(raw);
    match w.knows(QuestionModel::Open(path)) {
        Some(ReplyModel::Opened { path: actual, facts, env }) => if facts.kind is Directory
            || facts.kind is CharDevice || facts.kind is BlockDevice {
            FindModel::Found(actual)
        } else {
            FindModel::Fail(
                error::failure(
                    "device ioctl allow path '"@ + report::shown_path(actual)
                        + "' is neither a directory nor a device node"@,
                ),
            )
        },
        Some(ReplyModel::InspectFailed { path: actual, text }) => FindModel::Fail(
            discovery::path_error("inspect device ioctl allow path '"@, actual, "'"@, text),
        ),
        Some(ReplyModel::Failed(errno, text)) => FindModel::Fail(
            discovery::path_error("open device ioctl allow path '"@, path, "'"@, text),
        ),
        _ => FindModel::Need(QuestionModel::Open(path)),
    }
}

/// Adds a path for device ioctl.
pub fn insert_landlock_device_ioctl_path(w: &World, paths: Vec<Vec<u8>>, raw: &str) -> (r: Find<
    Vec<Vec<u8>>,
>)
    ensures
        discovery::find_paths(r) == match device_path(w@, raw@) {
            FindModel::Need(q) => FindModel::Need(q),
            FindModel::Fail(e) => FindModel::Fail(e),
            FindModel::Found(path) => FindModel::Found(
                facts::with_path(context::view_paths(paths@), path),
            ),
        },
{
    let mut paths = paths;
    let question = Question::Open(copy_bytes(raw.as_bytes()));
    match w.find(&question) {
        Some(Reply::Opened { path, facts, env }) => match facts.kind {
            FileKind::Directory | FileKind::CharDevice | FileKind::BlockDevice => {
                add_sorted(&mut paths, path.as_slice());
                Find::Found(paths)
            },
            _ => Find::Fail(
                Error::msg(
                    quote_path(
                        "device ioctl allow path '",
                        path.as_slice(),
                        "' is neither a directory nor a device node",
                    ),
                ),
            ),
        },
        Some(Reply::InspectFailed { path, failure }) => Find::Fail(
            io_error(
                quote_path("inspect device ioctl allow path '", path.as_slice(), "'"),
                failure,
            ),
        ),
        Some(Reply::Failed(failure)) => Find::Fail(
            io_error(quote_path("open device ioctl allow path '", raw.as_bytes(), "'"), failure),
        ),
        _ => Find::Need(question),
    }
}

/// Paths for device ioctl, from one on.
pub open spec fn devices_added(
    w: WorldModel,
    paths: Seq<Seq<u8>>,
    raws: Seq<Seq<char>>,
    from: int,
) -> FindModel<Seq<Seq<u8>>>
    decreases raws.len() - from,
{
    if from < 0 || from >= raws.len() {
        FindModel::Found(paths)
    } else {
        match absolute_misuse("--device-ioctl-allow"@, raws[from]) {
            Some(e) => FindModel::Fail(e),
            None => match device_path(w, raws[from]) {
                FindModel::Need(q) => FindModel::Need(q),
                FindModel::Fail(e) => FindModel::Fail(e),
                FindModel::Found(path) => devices_added(
                    w,
                    facts::with_path(paths, path),
                    raws,
                    from + 1,
                ),
            },
        }
    }
}

fn add_devices(w: &World, paths: Vec<Vec<u8>>, raws: &Vec<String>, from: usize) -> (r: Find<
    Vec<Vec<u8>>,
>)
    ensures
        discovery::find_paths(r) == devices_added(
            w@,
            context::view_paths(paths@),
            text::texts(raws@),
            from as int,
        ),
    decreases raws.len() - from,
{
    if from >= raws.len() {
        return Find::Found(paths);
    }
    let raw = raws[from].as_str();
    assert(text::texts(raws@)[from as int] == raw@);
    match landlock_absolute_path_option("--device-ioctl-allow", raw) {
        Err(e) => return Find::Fail(e),
        Ok(()) => {},
    }
    match insert_landlock_device_ioctl_path(w, paths, raw) {
        Find::Found(more) => add_devices(w, more, raws, from + 1),
        other => other,
    }
}

// ---------------------------------------------------------------------------
// Executables
// ---------------------------------------------------------------------------

/// What has to be executable for the paths and names that were asked for, from one on.
pub open spec fn execs_added(
    w: WorldModel,
    found: DiscoveryModel,
    raws: Seq<Seq<char>>,
    from: int,
) -> FindModel<DiscoveryModel>
    decreases raws.len() - from,
{
    if from < 0 || from >= raws.len() {
        FindModel::Found(found)
    } else {
        match exec_misuse("--exec-allow"@, raws[from]) {
            Some(e) => FindModel::Fail(e),
            None => {
                let after = follow::top_followed(w, found, raws[from], ExecAllowMode::Strict);
                match after.outcome {
                    OutcomeModel::Need(q) => FindModel::Need(q),
                    OutcomeModel::Failed(e) => FindModel::Fail(e),
                    OutcomeModel::Done => execs_added(w, after.found, raws, from + 1),
                }
            },
        }
    }
}

pub open spec fn find_discovery(r: Find<Discovery>) -> FindModel<DiscoveryModel> {
    match r {
        Find::Need(q) => FindModel::Need(q@),
        Find::Fail(e) => FindModel::Fail(e@),
        Find::Found(x) => FindModel::Found(x@),
    }
}

fn add_execs(w: &World, found: Discovery, raws: &Vec<String>, from: usize) -> (r: Find<Discovery>)
    ensures
        find_discovery(r) == execs_added(w@, found@, text::texts(raws@), from as int),
    decreases raws.len() - from,
{
    if from >= raws.len() {
        return Find::Found(found);
    }
    let raw = raws[from].as_str();
    assert(text::texts(raws@)[from as int] == raw@);
    match landlock_exec_path_option("--exec-allow", raw) {
        Err(e) => return Find::Fail(e),
        Ok(()) => {},
    }
    let mut found = found;
    match insert_landlock_exec_path(w, &mut found, raw) {
        Outcome::Need(q) => Find::Need(q),
        Outcome::Failed(e) => Find::Fail(e),
        Outcome::Done => add_execs(w, found, raws, from + 1),
    }
}

/// What has to be executable: for the command itself, and for what was asked for.
pub open spec fn executables(w: WorldModel, exec_allow: Seq<Seq<char>>, cmd: Seq<Seq<char>>) -> FindModel<
    DiscoveryModel,
> {
    if exec_allow.len() == 0 {
        FindModel::Found(follow::empty())
    } else if cmd.len() == 0 {
        execs_added(w, follow::empty(), exec_allow, 0)
    } else {
        let main = follow::top_followed(w, follow::empty(), cmd[0], ExecAllowMode::Auto);
        match main.outcome {
            OutcomeModel::Need(q) => FindModel::Need(q),
            OutcomeModel::Failed(e) => FindModel::Fail(e),
            OutcomeModel::Done => execs_added(w, main.found, exec_allow, 0),
        }
    }
}

fn find_executables(w: &World, exec_allow: &Vec<String>, cmd: &Vec<String>) -> (r: Find<Discovery>)
    ensures
        find_discovery(r) == executables(w@, text::texts(exec_allow@), text::texts(cmd@)),
{
    let mut found = Discovery::new();
    if exec_allow.len() == 0 {
        return Find::Found(found);
    }
    if cmd.len() > 0 {
        assert(text::texts(cmd@)[0] == cmd@[0]@);
        match insert_landlock_main_exec_path(w, &mut found, cmd[0].as_str()) {
            Outcome::Need(q) => return Find::Need(q),
            Outcome::Failed(e) => return Find::Fail(e),
            Outcome::Done => {},
        }
    }
    add_execs(w, found, exec_allow, 0)
}

/// What is skipped in following what was asked for, up to the first thing that is wrong.
pub open spec fn execs_skipped(
    w: WorldModel,
    found: DiscoveryModel,
    raws: Seq<Seq<char>>,
    from: int,
) -> Seq<Seq<char>>
    decreases raws.len() - from,
{
    if from < 0 || from >= raws.len() || exec_misuse("--exec-allow"@, raws[from]) is Some {
        found.notes
    } else {
        let after = follow::top_followed(w, found, raws[from], ExecAllowMode::Strict);
        if after.outcome is Done {
            execs_skipped(w, after.found, raws, from + 1)
        } else {
            after.found.notes
        }
    }
}

/// What is skipped in finding what has to be executable, up to the first thing that is wrong.
pub open spec fn executables_skipped(
    w: WorldModel,
    exec_allow: Seq<Seq<char>>,
    cmd: Seq<Seq<char>>,
) -> Seq<Seq<char>> {
    if exec_allow.len() == 0 {
        Seq::empty()
    } else if cmd.len() == 0 {
        execs_skipped(w, follow::empty(), exec_allow, 0)
    } else {
        let main = follow::top_followed(w, follow::empty(), cmd[0], ExecAllowMode::Auto);
        if main.outcome is Done {
            execs_skipped(w, main.found, exec_allow, 0)
        } else {
            main.found.notes
        }
    }
}

fn note_execs(w: &World, found: Discovery, raws: &Vec<String>, from: usize) -> (r: Vec<String>)
    ensures
        text::texts(r@) == execs_skipped(w@, found@, text::texts(raws@), from as int),
    decreases raws@.len() - from,
{
    if from >= raws.len() {
        return found.notes;
    }
    let raw = raws[from].as_str();
    assert(text::texts(raws@)[from as int] == raw@);
    if landlock_exec_path_option("--exec-allow", raw).is_err() {
        return found.notes;
    }
    let mut found = found;
    match insert_landlock_exec_path(w, &mut found, raw) {
        Outcome::Done => note_execs(w, found, raws, from + 1),
        _ => found.notes,
    }
}

fn note_executables(w: &World, exec_allow: &Vec<String>, cmd: &Vec<String>) -> (r: Vec<String>)
    ensures
        text::texts(r@) == executables_skipped(w@, text::texts(exec_allow@), text::texts(cmd@)),
{
    let mut found = Discovery::new();
    if exec_allow.len() == 0 {
        return found.notes;
    }
    if cmd.len() > 0 {
        assert(text::texts(cmd@)[0] == cmd@[0]@);
        match insert_landlock_main_exec_path(w, &mut found, cmd[0].as_str()) {
            Outcome::Done => {},
            _ => {
                return found.notes;
            },
        }
    }
    note_execs(w, found, exec_allow, 0)
}

// ---------------------------------------------------------------------------
// The whole
// ---------------------------------------------------------------------------

/// What the child is restricted to, and what was skipped on the way.
#[derive(Debug)]
pub struct Policy {
    pub config: LandlockConfig,
    pub notes: Vec<String>,
}

/// What a [`Policy`] holds.
pub struct PolicyModel {
    pub write_requested: bool,
    pub warn_only: bool,
    pub no_dev: bool,
    pub preset_names: Seq<Seq<char>>,
    pub writable_dirs: Seq<Seq<u8>>,
    pub dev_dir: Option<Seq<u8>>,
    pub bind_tcp_ports: Seq<u16>,
    pub connect_tcp_ports: Seq<u16>,
    pub scope_signals: bool,
    pub scope_abstract_unix: bool,
    pub exec_requested: bool,
    pub exec_allow_paths: Seq<Seq<u8>>,
    pub device_ioctl_allow_paths: Seq<Seq<u8>>,
    pub notes: Seq<Seq<char>>,
}

impl View for Policy {
    type V = PolicyModel;

    open spec fn view(&self) -> PolicyModel {
        PolicyModel {
            write_requested: self.config.write_requested,
            warn_only: self.config.warn_only,
            no_dev: self.config.no_dev,
            preset_names: view_names(self.config.preset_names@),
            writable_dirs: context::view_paths(self.config.writable_dirs@),
            dev_dir: context::opt_bytes(self.config.dev_dir),
            bind_tcp_ports: self.config.bind_tcp_ports@,
            connect_tcp_ports: self.config.connect_tcp_ports@,
            scope_signals: self.config.scope_signals,
            scope_abstract_unix: self.config.scope_abstract_unix,
            exec_requested: self.config.exec_requested,
            exec_allow_paths: context::view_paths(self.config.exec_allow_paths@),
            device_ioctl_allow_paths: context::view_paths(self.config.device_ioctl_allow_paths@),
            notes: text::texts(self.notes@),
        }
    }
}

/// The names of presets, each once, in the order in which they first occur.
pub open spec fn preset_names(presets: Seq<WritePreset>) -> Seq<Seq<char>>
    decreases presets.len(),
{
    if presets.len() == 0 {
        Seq::empty()
    } else {
        let before = preset_names(presets.drop_last());
        if presets.drop_last().contains(presets.last()) {
            before
        } else {
            before.push(cli::preset_name(presets.last()))
        }
    }
}

fn names_of(presets: &Vec<WritePreset>) -> (r: Vec<&'static str>)
    ensures
        view_names(r@) == preset_names(presets@),
{
    let mut out: Vec<&'static str> = Vec::new();
    let mut tmp = false;
    let mut runtime = false;
    let mut i: usize = 0;
    proof {
        assert(presets@.take(0) =~= Seq::empty());
        assert(view_names(out@) =~= Seq::empty());
    }
    while i < presets.len()
        invariant
            i <= presets@.len(),
            view_names(out@) == preset_names(presets@.take(i as int)),
            tmp == presets@.take(i as int).contains(WritePreset::Tmp),
            runtime == presets@.take(i as int).contains(WritePreset::Runtime),
        decreases presets@.len() - i,
    {
        let preset = presets[i];
        let ghost earlier = presets@.take(i as int);
        let ghost later = presets@.take(i + 1);
        let ghost before = view_names(out@);
        proof {
            assert(later.drop_last() =~= earlier);
            assert(later =~= earlier.push(preset));
            assert(later[i as int] == preset);
            assert forall|p: WritePreset| #[trigger] later.contains(p) <==> earlier.contains(p) || p
                == preset by {
                if earlier.contains(p) {
                    let j = choose|j: int| 0 <= j < earlier.len() && earlier[j] == p;
                    assert(later[j] == p);
                }
                if later.contains(p) && p != preset {
                    let j = choose|j: int| 0 <= j < later.len() && later[j] == p;
                    assert(earlier[j] == p);
                }
            }
        }
        let known = match preset {
            WritePreset::Tmp => tmp,
            WritePreset::Runtime => runtime,
        };
        if !known {
            let name = preset.as_str();
            out.push(name);
            assert(view_names(out@) =~= before.push(name@));
        }
        match preset {
            WritePreset::Tmp => {
                tmp = true;
            },
            WritePreset::Runtime => {
                runtime = true;
            },
        }
        i = i + 1;
    }
    assert(presets@.take(i as int) =~= presets@);
    out
}

/// Whether writing is restricted.
pub open spec fn write_requested(m: CliModel) -> bool {
    m.write_restrict || m.write_allow.len() > 0 || m.write_preset.len() > 0
}

/// Whether anything is restricted.
pub open spec fn anything_requested(m: CliModel) -> bool {
    write_requested(m) || m.bind_tcp_allow.len() > 0 || m.connect_tcp_allow.len() > 0
        || m.scope_signals || m.scope_abstract_unix || m.exec_allow.len() > 0
        || m.device_ioctl_allow.len() > 0
}

/// The directory of devices, where it stays writable and is there.
pub open spec fn dev_dir(w: WorldModel, m: CliModel) -> FindModel<Option<Seq<u8>>> {
    if write_requested(m) && !m.write_no_dev {
        pinned(w, "/dev"@, true, "default writable directory"@)
    } else {
        FindModel::Found(None)
    }
}

/// The writable directories.
pub open spec fn writable(w: WorldModel, m: CliModel) -> FindModel<Seq<Seq<u8>>> {
    match presets_added(w, Seq::empty(), m.write_preset, 0) {
        FindModel::Found(dirs) => writes_added(w, dirs, m.write_allow, 0),
        other => other,
    }
}

/// Ports in order, each once.
pub open spec fn port_set(v: Seq<u16>) -> Seq<u16> {
    choose|r: Seq<u16>| #[trigger] rising(r) && forall|x: u16| #[trigger] r.contains(x) <==> v.contains(x)
}

/// What a policy says, given the parts that were found.
pub open spec fn policy_of(
    m: CliModel,
    dirs: Seq<Seq<u8>>,
    found: DiscoveryModel,
    devices: Seq<Seq<u8>>,
    dev: Option<Seq<u8>>,
) -> PolicyModel {
    PolicyModel {
        write_requested: write_requested(m),
        warn_only: m.restrict_warn_only,
        no_dev: m.write_no_dev,
        preset_names: preset_names(m.write_preset),
        writable_dirs: dirs,
        dev_dir: dev,
        bind_tcp_ports: port_set(m.bind_tcp_allow),
        connect_tcp_ports: port_set(m.connect_tcp_allow),
        scope_signals: m.scope_signals,
        scope_abstract_unix: m.scope_abstract_unix,
        exec_requested: m.exec_allow.len() > 0,
        exec_allow_paths: found.paths,
        device_ioctl_allow_paths: devices,
        notes: found.notes,
    }
}

/// The restrictions of some settings for a command, if there are any: first the directories, then
/// the executables, the devices, the directory of devices, and the ports. The first thing that is
/// wrong or not known counts.
pub open spec fn restrictions(w: WorldModel, m: CliModel, cmd: Seq<Seq<char>>) -> FindModel<
    Option<PolicyModel>,
> {
    if !anything_requested(m) {
        FindModel::Found(None)
    } else {
        match writable(w, m) {
            FindModel::Need(q) => FindModel::Need(q),
            FindModel::Fail(e) => FindModel::Fail(e),
            FindModel::Found(dirs) => match executables(w, m.exec_allow, cmd) {
                FindModel::Need(q) => FindModel::Need(q),
                FindModel::Fail(e) => FindModel::Fail(e),
                FindModel::Found(found) => match devices_added(
                    w,
                    Seq::empty(),
                    m.device_ioctl_allow,
                    0,
                ) {
                    FindModel::Need(q) => FindModel::Need(q),
                    FindModel::Fail(e) => FindModel::Fail(e),
                    FindModel::Found(devices) => match dev_dir(w, m) {
                        FindModel::Need(q) => FindModel::Need(q),
                        FindModel::Fail(e) => FindModel::Fail(e),
                        FindModel::Found(dev) => if m.bind_tcp_allow.contains(0) {
                            FindModel::Fail(zero_port("--bind-tcp-allow"@))
                        } else if m.connect_tcp_allow.contains(0) {
                            FindModel::Fail(zero_port("--connect-tcp-allow"@))
                        } else {
                            FindModel::Found(Some(policy_of(m, dirs, found, devices, dev)))
                        },
                    },
                },
            },
        }
    }
}

/// What is skipped in working out the restrictions, whether they come out or not: nothing is
/// followed before the directories are known.
pub open spec fn skipped(w: WorldModel, m: CliModel, cmd: Seq<Seq<char>>) -> Seq<Seq<char>> {
    if writable(w, m) is Found {
        executables_skipped(w, m.exec_allow, cmd)
    } else {
        Seq::empty()
    }
}

/// What is skipped in working out the restrictions.
pub fn skipped_notes(w: &World, cli: &Cli, effective_cmd: &Vec<String>) -> (r: Vec<String>)
    ensures
        text::texts(r@) == skipped(w@, cli@, text::texts(effective_cmd@)),
{
    let none: Vec<String> = Vec::new();
    assert(text::texts(none@) =~= Seq::empty());
    match add_presets(w, no_paths(), &cli.write_preset, 0) {
        Find::Found(dirs) => match add_writes(w, dirs, &cli.write_allow, 0) {
            Find::Found(_) => note_executables(w, &cli.exec_allow, effective_cmd),
            _ => none,
        },
        _ => none,
    }
}

proof fn lemma_added_execs_are_noted(
    w: WorldModel,
    found: DiscoveryModel,
    raws: Seq<Seq<char>>,
    from: int,
)
    ensures
        execs_added(w, found, raws, from) matches FindModel::Found(after) ==> after.notes
            == execs_skipped(w, found, raws, from),
    decreases raws.len() - from,
{
    if 0 <= from < raws.len() {
        let after = follow::top_followed(w, found, raws[from], ExecAllowMode::Strict);
        if after.outcome is Done {
            lemma_added_execs_are_noted(w, after.found, raws, from + 1);
        }
    }
}

proof fn lemma_executables_are_noted(
    w: WorldModel,
    exec_allow: Seq<Seq<char>>,
    cmd: Seq<Seq<char>>,
)
    ensures
        executables(w, exec_allow, cmd) matches FindModel::Found(found) ==> found.notes
            == executables_skipped(w, exec_allow, cmd),
{
    lemma_added_execs_are_noted(w, follow::empty(), exec_allow, 0);
    if cmd.len() > 0 {
        let main = follow::top_followed(w, follow::empty(), cmd[0], ExecAllowMode::Auto);
        lemma_added_execs_are_noted(w, main.found, exec_allow, 0);
    }
}

/// Restrictions that come out say all that was skipped on the way.
pub proof fn law_restrictions_say_what_was_skipped(
    w: WorldModel,
    m: CliModel,
    cmd: Seq<Seq<char>>,
)
    ensures
        restrictions(w, m, cmd) matches FindModel::Found(r) ==> skipped(w, m, cmd) == match r {
            Some(p) => p.notes,
            None => Seq::empty(),
        },
{
    lemma_executables_are_noted(w, m.exec_allow, cmd);
}

pub open spec fn find_policy(r: Find<Option<Policy>>) -> FindModel<Option<PolicyModel>> {
    match r {
        Find::Need(q) => FindModel::Need(q@),
        Find::Fail(e) => FindModel::Fail(e@),
        Find::Found(Some(x)) => FindModel::Found(Some(x@)),
        Find::Found(None) => FindModel::Found(None),
    }
}

proof fn lemma_ports_can_be_put_in_order(v: Seq<u16>) -> (r: Seq<u16>)
    ensures
        rising(r),
        forall|x: u16| #[trigger] r.contains(x) <==> v.contains(x),
    decreases v.len(),
{
    if v.len() == 0 {
        v
    } else {
        let port = v.last();
        let before = lemma_ports_can_be_put_in_order(v.drop_last());
        let not_below = |x: u16| x >= port;
        let k = text::first_where(before, not_below);
        text::lemma_first_where_bounds(before, not_below);
        assert forall|j: int| 0 <= j < k implies before[j] < port by {
            assert(!not_below(before[j]));
        }
        if k < before.len() {
            assert(not_below(before[k]));
        }
        let r = if k >= before.len() || before[k] != port {
            before.insert(k, port)
        } else {
            before
        };
        lemma_port_added(before, r, k, port);
        assert forall|x: u16| #[trigger] r.contains(x) <==> v.contains(x) by {
            assert(v =~= v.drop_last().push(port));
            assert(before.contains(x) <==> v.drop_last().contains(x));
            if v.drop_last().contains(x) {
                let j = choose|j: int| 0 <= j < v.len() - 1 && v.drop_last()[j] == x;
                assert(v[j] == x);
            }
            if x == port {
                assert(v[v.len() - 1] == x);
            }
            if v.contains(x) && x != port {
                let j = choose|j: int| 0 <= j < v.len() && v[j] == x;
                assert(v.drop_last()[j] == x);
            }
        }
        r
    }
}

/// Ports in order are the given ports and no others, and each stands there once.
pub proof fn law_ports_are_the_given_ones(v: Seq<u16>)
    ensures
        rising(port_set(v)),
        forall|x: u16| #[trigger] port_set(v).contains(x) <==> v.contains(x),
{
    let r = lemma_ports_can_be_put_in_order(v);
    assert(rising(r) && forall|x: u16| #[trigger] r.contains(x) <==> v.contains(x));
}

proof fn lemma_port_set(v: Seq<u16>, r: Seq<u16>)
    requires
        rising(r),
        forall|x: u16| #[trigger] r.contains(x) <==> v.contains(x),
    ensures
        port_set(v) == r,
{
    let chosen = port_set(v);
    assert(rising(chosen) && forall|x: u16| #[trigger] chosen.contains(x) <==> v.contains(x));
    lemma_rising_unique(chosen, r);
}

fn no_paths() -> (r: Vec<Vec<u8>>)
    ensures
        context::view_paths(r@) == Seq::<Seq<u8>>::empty(),
{
    let r: Vec<Vec<u8>> = Vec::new();
    assert(context::view_paths(r@) =~= Seq::<Seq<u8>>::empty());
    r
}

/// The restrictions of some settings for a command, if there are any.
pub fn build_landlock_config_for_args(w: &World, cli: &Cli, effective_cmd: &Vec<String>) -> (r: Find<
    Option<Policy>,
>)
    ensures
        find_policy(r) == restrictions(w@, cli@, text::texts(effective_cmd@)),
{
    let write_requested = cli.write_restrict || cli.write_allow.len() > 0
        || cli.write_preset.len() > 0;
    let exec_requested = cli.exec_allow.len() > 0;
    if !write_requested && cli.bind_tcp_allow.len() == 0 && cli.connect_tcp_allow.len() == 0
        && !cli.scope_signals && !cli.scope_abstract_unix && !exec_requested
        && cli.device_ioctl_allow.len() == 0 {
        return Find::Found(None);
    }
    let dirs = match add_presets(w, no_paths(), &cli.write_preset, 0) {
        Find::Need(q) => return Find::Need(q),
        Find::Fail(e) => return Find::Fail(e),
        Find::Found(dirs) => dirs,
    };
    let writable_dirs = match add_writes(w, dirs, &cli.write_allow, 0) {
        Find::Need(q) => return Find::Need(q),
        Find::Fail(e) => return Find::Fail(e),
        Find::Found(dirs) => dirs,
    };
    let found = match find_executables(w, &cli.exec_allow, effective_cmd) {
        Find::Need(q) => return Find::Need(q),
        Find::Fail(e) => return Find::Fail(e),
        Find::Found(found) => found,
    };
    let device_ioctl_allow_paths = match add_devices(w, no_paths(), &cli.device_ioctl_allow, 0) {
        Find::Need(q) => return Find::Need(q),
        Find::Fail(e) => return Find::Fail(e),
        Find::Found(paths) => paths,
    };
    let dev_dir = if write_requested && !cli.write_no_dev {
        match pin_allow_path(w, "/dev", true, "default writable directory") {
            Find::Need(q) => return Find::Need(q),
            Find::Fail(e) => return Find::Fail(e),
            Find::Found(dev) => dev,
        }
    } else {
        None
    };
    let bind_tcp_ports = match unique_ports("--bind-tcp-allow", &cli.bind_tcp_allow) {
        Err(e) => return Find::Fail(e),
        Ok(ports) => ports,
    };
    let connect_tcp_ports = match unique_ports("--connect-tcp-allow", &cli.connect_tcp_allow) {
        Err(e) => return Find::Fail(e),
        Ok(ports) => ports,
    };
    proof {
        lemma_port_set(cli.bind_tcp_allow@, bind_tcp_ports@);
        lemma_port_set(cli.connect_tcp_allow@, connect_tcp_ports@);
    }
    let preset_names = names_of(&cli.write_preset);
    Find::Found(
        Some(
            Policy {
                config: LandlockConfig {
                    write_requested,
                    warn_only: cli.restrict_warn_only,
                    no_dev: cli.write_no_dev,
                    preset_names,
                    writable_dirs,
                    dev_dir,
                    bind_tcp_ports,
                    connect_tcp_ports,
                    scope_signals: cli.scope_signals,
                    scope_abstract_unix: cli.scope_abstract_unix,
                    exec_requested,
                    exec_allow_paths: found.paths,
                    device_ioctl_allow_paths,
                },
                notes: found.notes,
            },
        ),
    )
}

} // verus!
