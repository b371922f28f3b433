//! Settings written as a configuration file, so that reading the file gives them back.

use vstd::prelude::*;

use crate::cli::{self, parse_signal, validate_port, Cli, CliModel, CliParseError, WritePreset};
use crate::config;
use crate::text::{self, chars_of, decimal_text, has_char, same_chars, trimmed};

verus! {

/// One line of a file: a key, and a value where the key takes one.
pub struct Entry {
    pub key: Seq<char>,
    pub value: Option<Seq<char>>,
}

pub open spec fn entry(key: Seq<char>, value: Seq<char>) -> Entry {
    Entry { key, value: Some(value) }
}

/// The line of an entry.
pub open spec fn entry_line(e: Entry) -> Seq<char> {
    match e.value {
        Some(v) => e.key + seq![' '] + v,
        None => e.key,
    }
}

/// Lines, each with its end.
pub open spec fn entries_text(es: Seq<Entry>) -> Seq<char>
    decreases es.len(),
{
    if es.len() == 0 {
        Seq::empty()
    } else {
        entries_text(es.drop_last()) + entry_line(es.last()) + seq!['\n']
    }
}

/// The line of a flag, where it is set.
pub open spec fn flag_entry(on: bool, key: Seq<char>) -> Seq<Entry> {
    if on {
        seq![Entry { key, value: None }]
    } else {
        Seq::empty()
    }
}

/// What makes a value impossible to read back.
pub open spec fn text_complaint(key: Seq<char>, value: Seq<char>) -> Option<Seq<char>> {
    if value.len() == 0 || value != text::trim(value) {
        Some(
            "config value for '"@ + key + "' cannot be empty or have surrounding whitespace"@,
        )
    } else {
        config::value_complaint(key, value)
    }
}

/// What makes a path impossible to use: it has to be absolute, unless it is the bare name of a
/// command where those are allowed.
pub open spec fn path_complaint(key: Seq<char>, value: Seq<char>, names: bool) -> Option<Seq<char>> {
    match text_complaint(key, value) {
        Some(e) => Some(e),
        None => if value[0] == '/' {
            None
        } else if !names {
            Some("config value for '"@ + key + "' must be an absolute path"@)
        } else if value.contains('/') {
            Some(
                "config value for '"@ + key
                    + "' must be an absolute path when it contains '/'"@,
            )
        } else {
            None
        },
    }
}

/// Lines of paths, or the complaint about the first bad one.
pub open spec fn path_entries(key: Seq<char>, paths: Seq<Seq<char>>, names: bool) -> Result<
    Seq<Entry>,
    Seq<char>,
>
    decreases paths.len(),
{
    if paths.len() == 0 {
        Ok(Seq::empty())
    } else {
        match path_entries(key, paths.drop_last(), names) {
            Err(e) => Err(e),
            Ok(es) => match path_complaint(key, paths.last(), names) {
                Some(e) => Err(e),
                None => Ok(es.push(entry(key, paths.last()))),
            },
        }
    }
}

/// Lines of ports, or the complaint about the first bad one.
pub open spec fn port_entries(key: Seq<char>, option: Seq<char>, ports: Seq<u16>) -> Result<
    Seq<Entry>,
    Seq<char>,
>
    decreases ports.len(),
{
    if ports.len() == 0 {
        Ok(Seq::empty())
    } else {
        match port_entries(key, option, ports.drop_last()) {
            Err(e) => Err(e),
            Ok(es) => if ports.last() == 0 {
                Err(cli::port_error(option))
            } else {
                Ok(es.push(entry(key, text::decimal(ports.last() as nat))))
            },
        }
    }
}

/// Lines of exit codes.
pub open spec fn code_entries(codes: Seq<u8>) -> Seq<Entry>
    decreases codes.len(),
{
    if codes.len() == 0 {
        Seq::empty()
    } else {
        code_entries(codes.drop_last()).push(
            entry("remap-exit"@, text::decimal(codes.last() as nat)),
        )
    }
}

/// Lines of presets.
pub open spec fn preset_entries(presets: Seq<WritePreset>) -> Seq<Entry>
    decreases presets.len(),
{
    if presets.len() == 0 {
        Seq::empty()
    } else {
        preset_entries(presets.drop_last()).push(
            entry("write-preset"@, cli::preset_name(presets.last())),
        )
    }
}

/// The line of the parent-death signal, where one is set.
pub open spec fn signal_entries(pdeath: Option<Seq<char>>) -> Result<Seq<Entry>, Seq<char>> {
    match pdeath {
        None => Ok(Seq::empty()),
        Some(raw) => match cli::signal_text(raw) {
            Ok(s) => Ok(seq![entry("pdeath"@, s)]),
            Err(e) => Err(e),
        },
    }
}

/// The verbosity that counts.
pub open spec fn capped(verbosity: u8) -> u8 {
    if verbosity < 3 {
        verbosity
    } else {
        3
    }
}

pub open spec fn verbosity_entries(verbosity: u8) -> Seq<Entry> {
    if verbosity > 0 {
        seq![entry("verbosity"@, text::decimal(capped(verbosity) as nat))]
    } else {
        Seq::empty()
    }
}

pub open spec fn grace_entries(grace_ms: u64) -> Seq<Entry> {
    if grace_ms != 500 {
        seq![entry("grace-ms"@, text::decimal(grace_ms as nat))]
    } else {
        Seq::empty()
    }
}

/// Lines behind lines. The first complaint counts.
pub open spec fn both(a: Result<Seq<Entry>, Seq<char>>, b: Result<Seq<Entry>, Seq<char>>) -> Result<
    Seq<Entry>,
    Seq<char>,
> {
    match (a, b) {
        (Err(e), _) => Err(e),
        (Ok(_), Err(e)) => Err(e),
        (Ok(x), Ok(y)) => Ok(x + y),
    }
}

/// The lines about the managed command.
pub open spec fn command_entries(m: CliModel) -> Result<Seq<Entry>, Seq<char>> {
    both(
        Ok(flag_entry(m.subreaper, "subreaper"@)),
        both(
            signal_entries(m.pdeath),
            Ok(
                verbosity_entries(m.verbosity) + flag_entry(m.warn_on_reap, "warn-on-reap"@)
                    + flag_entry(m.pgroup_kill, "pgroup-kill"@) + code_entries(m.remap_exit)
                    + grace_entries(m.grace_ms),
            ),
        ),
    )
}

/// The lines about writing.
pub open spec fn write_entries(m: CliModel) -> Result<Seq<Entry>, Seq<char>> {
    both(
        Ok(flag_entry(m.write_restrict, "write-restrict"@)),
        both(
            path_entries("write-allow"@, m.write_allow, false),
            Ok(
                preset_entries(m.write_preset) + flag_entry(
                    m.restrict_warn_only,
                    "restrict-warn-only"@,
                ) + flag_entry(m.write_no_dev, "write-no-dev"@),
            ),
        ),
    )
}

/// The lines about ports and scopes.
pub open spec fn network_entries(m: CliModel) -> Result<Seq<Entry>, Seq<char>> {
    both(
        port_entries("bind-tcp-allow"@, "--bind-tcp-allow"@, m.bind_tcp_allow),
        both(
            port_entries("connect-tcp-allow"@, "--connect-tcp-allow"@, m.connect_tcp_allow),
            Ok(
                flag_entry(m.scope_signals, "scope-signals"@) + flag_entry(
                    m.scope_abstract_unix,
                    "scope-abstract-unix"@,
                ),
            ),
        ),
    )
}

/// The lines about execution and devices.
pub open spec fn exec_entries(m: CliModel) -> Result<Seq<Entry>, Seq<char>> {
    both(
        path_entries("exec-allow"@, m.exec_allow, true),
        both(
            path_entries("device-ioctl-allow"@, m.device_ioctl_allow, false),
            Ok(flag_entry(m.expand_env, "expand-env"@)),
        ),
    )
}

/// The lines of all settings that differ from their defaults, or the complaint about the first
/// one that could not be read back.
pub open spec fn config_entries(m: CliModel) -> Result<Seq<Entry>, Seq<char>> {
    both(
        command_entries(m),
        both(write_entries(m), both(network_entries(m), exec_entries(m))),
    )
}

// ---------------------------------------------------------------------------
// Writing
// ---------------------------------------------------------------------------

/// The text of lines behind lines is text behind text.
pub proof fn lemma_entries_text_add(a: Seq<Entry>, b: Seq<Entry>)
    ensures
        entries_text(a + b) == entries_text(a) + entries_text(b),
    decreases b.len(),
{
    if b.len() == 0 {
        assert(a + b =~= a);
        assert(entries_text(a) + Seq::<char>::empty() =~= entries_text(a));
    } else {
        lemma_entries_text_add(a, b.drop_last());
        assert((a + b).drop_last() =~= a + b.drop_last());
        assert((a + b).last() == b.last());
        assert(entries_text(a + b) =~= entries_text(a) + entries_text(b));
    }
}

/// Whether writing lines to `before` gave `after`, or the complaint about them.
pub open spec fn wrote(
    es: Result<Seq<Entry>, Seq<char>>,
    before: Seq<char>,
    after: Seq<char>,
    r: Result<(), CliParseError>,
) -> bool {
    match (es, r) {
        (Ok(x), Ok(_)) => after == before + entries_text(x),
        (Err(message), Err(e)) => e@ == cli::message_error(message),
        _ => false,
    }
}

proof fn lemma_wrote_one(before: Seq<char>, e: Entry)
    ensures
        before + entries_text(seq![e]) == before + entry_line(e) + seq!['\n'],
{
    let es = seq![e];
    reveal_with_fuel(entries_text, 2);
    assert(es.drop_last() =~= Seq::empty());
    assert(es.last() == e);
    assert(before + entries_text(es) =~= before + entry_line(e) + seq!['\n']);
}

proof fn lemma_wrote_more(before: Seq<char>, a: Seq<Entry>, b: Seq<Entry>)
    ensures
        before + entries_text(a) + entries_text(b) == before + entries_text(a + b),
{
    lemma_entries_text_add(a, b);
    assert(before + entries_text(a) + entries_text(b) =~= before + (entries_text(a)
        + entries_text(b)));
}

fn push_config_flag(out: &mut String, enabled: bool, key: &str)
    ensures
        final(out)@ == old(out)@ + entries_text(flag_entry(enabled, key@)),
{
    if enabled {
        out.append(key);
        out.append("\n");
        proof {
            reveal_strlit("\n");
            assert("\n"@ =~= seq!['\n']);
            lemma_wrote_one(old(out)@, Entry { key: key@, value: None });
        }
    } else {
        proof {
            assert(old(out)@ + entries_text(flag_entry(enabled, key@)) =~= old(out)@);
        }
    }
}

fn push_line(out: &mut String, key: &str, value: &str)
    ensures
        final(out)@ == old(out)@ + entries_text(seq![entry(key@, value@)]),
{
    out.append(key);
    out.append(" ");
    out.append(value);
    out.append("\n");
    proof {
        reveal_strlit("\n");
        reveal_strlit(" ");
        assert("\n"@ =~= seq!['\n']);
        assert(" "@ =~= seq![' ']);
        lemma_wrote_one(old(out)@, entry(key@, value@));
        assert(out@ =~= old(out)@ + entry_line(entry(key@, value@)) + seq!['\n']);
    }
}

fn quoted(before: &str, key: &str, behind: &str) -> (r: String)
    ensures
        r@ == before@ + key@ + behind@,
{
    let mut out = before.to_owned();
    out.append(key);
    out.append(behind);
    out
}

fn validate_config_value(key: &str, value: &str) -> (r: Result<(), CliParseError>)
    ensures
        match r {
            Ok(_) => text_complaint(key@, value@) is None,
            Err(e) => text_complaint(key@, value@) is Some && e@ == cli::message_error(
                text_complaint(key@, value@)->0,
            ),
        },
{
    let chars = chars_of(value);
    let s = chars.as_slice();
    if s.len() == 0 || !same_chars(s, trimmed(s)) {
        return Err(
            CliParseError::from_message(
                quoted(
                    "config value for '",
                    key,
                    "' cannot be empty or have surrounding whitespace",
                ),
            ),
        );
    }
    if has_char(s, '\n') || has_char(s, '\r') {
        return Err(
            CliParseError::from_message(
                quoted("config value for '", key, "' cannot contain newlines"),
            ),
        );
    }
    if has_char(s, '\0') {
        return Err(
            CliParseError::from_message(
                quoted("config value for '", key, "' cannot contain NUL bytes"),
            ),
        );
    }
    Ok(())
}

fn validate_config_path(key: &str, value: &str, names: bool) -> (r: Result<(), CliParseError>)
    ensures
        match r {
            Ok(_) => path_complaint(key@, value@, names) is None,
            Err(e) => path_complaint(key@, value@, names) is Some && e@ == cli::message_error(
                path_complaint(key@, value@, names)->0,
            ),
        },
{
    match validate_config_value(key, value) {
        Err(e) => return Err(e),
        Ok(_) => {},
    }
    let chars = chars_of(value);
    if chars[0] == '/' {
        return Ok(());
    }
    if !names {
        return Err(
            CliParseError::from_message(
                quoted("config value for '", key, "' must be an absolute path"),
            ),
        );
    }
    if has_char(chars.as_slice(), '/') {
        return Err(
            CliParseError::from_message(
                quoted(
                    "config value for '",
                    key,
                    "' must be an absolute path when it contains '/'",
                ),
            ),
        );
    }
    Ok(())
}

proof fn lemma_path_error(key: Seq<char>, paths: Seq<Seq<char>>, names: bool, n: int)
    requires
        0 <= n <= paths.len(),
        path_entries(key, paths.take(n), names) is Err,
    ensures
        path_entries(key, paths, names) == path_entries(key, paths.take(n), names),
    decreases paths.len() - n,
{
    if n < paths.len() {
        assert(paths.take(n + 1).drop_last() =~= paths.take(n));
        lemma_path_error(key, paths, names, n + 1);
    } else {
        assert(paths.take(n) =~= paths);
    }
}

fn push_config_paths(out: &mut String, key: &str, paths: &Vec<String>, names: bool) -> (r: Result<
    (),
    CliParseError,
>)
    ensures
        wrote(
            path_entries(key@, text::texts(paths@), names),
            old(out)@,
            final(out)@,
            r,
        ),
{
    let ghost all = text::texts(paths@);
    let ghost mut done: Seq<Entry> = Seq::empty();
    let mut i: usize = 0;
    proof {
        assert(old(out)@ + entries_text(done) =~= old(out)@);
    }
    while i < paths.len()
        invariant
            i <= paths@.len(),
            all == text::texts(paths@),
            path_entries(key@, all.take(i as int), names) == Ok::<Seq<Entry>, Seq<char>>(done),
            out@ == old(out)@ + entries_text(done),
        decreases paths@.len() - i,
    {
        let ghost t = all.take(i + 1);
        proof {
            assert(t.drop_last() =~= all.take(i as int));
            assert(t.last() == paths@[i as int]@);
        }
        match validate_config_path(key, paths[i].as_str(), names) {
            Err(e) => {
                proof {
                    lemma_path_error(key@, all, names, i + 1);
                }
                return Err(e);
            },
            Ok(_) => {},
        }
        push_line(out, key, paths[i].as_str());
        proof {
            let one = seq![entry(key@, paths@[i as int]@)];
            lemma_wrote_more(old(out)@, done, one);
            assert(done + one =~= done.push(one[0]));
            done = done + one;
        }
        i = i + 1;
    }
    proof {
        assert(all.take(i as int) =~= all);
    }
    Ok(())
}

proof fn lemma_port_error(key: Seq<char>, option: Seq<char>, ports: Seq<u16>, n: int)
    requires
        0 <= n <= ports.len(),
        port_entries(key, option, ports.take(n)) is Err,
    ensures
        port_entries(key, option, ports) == port_entries(key, option, ports.take(n)),
    decreases ports.len() - n,
{
    if n < ports.len() {
        assert(ports.take(n + 1).drop_last() =~= ports.take(n));
        lemma_port_error(key, option, ports, n + 1);
    } else {
        assert(ports.take(n) =~= ports);
    }
}

fn push_config_ports(out: &mut String, key: &str, option: &str, ports: &Vec<u16>) -> (r: Result<
    (),
    CliParseError,
>)
    ensures
        wrote(port_entries(key@, option@, ports@), old(out)@, final(out)@, r),
{
    let ghost mut done: Seq<Entry> = Seq::empty();
    let mut i: usize = 0;
    proof {
        assert(old(out)@ + entries_text(done) =~= old(out)@);
    }
    while i < ports.len()
        invariant
            i <= ports@.len(),
            port_entries(key@, option@, ports@.take(i as int)) == Ok::<Seq<Entry>, Seq<char>>(done),
            out@ == old(out)@ + entries_text(done),
        decreases ports@.len() - i,
    {
        let ghost t = ports@.take(i + 1);
        proof {
            assert(t.drop_last() =~= ports@.take(i as int));
            assert(t.last() == ports@[i as int]);
        }
        let port: u16 = match validate_port(option, ports[i]) {
            Err(e) => {
                proof {
                    lemma_port_error(key@, option@, ports@, i + 1);
                }
                return Err(e);
            },
            Ok(port) => port,
        };
        push_line(out, key, decimal_text(port as u64).as_str());
        proof {
            let one = seq![entry(key@, text::decimal(port as nat))];
            lemma_wrote_more(old(out)@, done, one);
            assert(done + one =~= done.push(one[0]));
            done = done + one;
        }
        i = i + 1;
    }
    proof {
        assert(ports@.take(i as int) =~= ports@);
    }
    Ok(())
}

fn push_config_codes(out: &mut String, codes: &Vec<u8>)
    ensures
        final(out)@ == old(out)@ + entries_text(code_entries(codes@)),
{
    let mut i: usize = 0;
    proof {
        assert(old(out)@ + entries_text(code_entries(codes@.take(0))) =~= old(out)@);
    }
    while i < codes.len()
        invariant
            i <= codes@.len(),
            out@ == old(out)@ + entries_text(code_entries(codes@.take(i as int))),
        decreases codes@.len() - i,
    {
        push_line(out, "remap-exit", decimal_text(codes[i] as u64).as_str());
        proof {
            let t = codes@.take(i + 1);
            assert(t.drop_last() =~= codes@.take(i as int));
            assert(t.last() == codes@[i as int]);
            let done = code_entries(codes@.take(i as int));
            let one = seq![entry("remap-exit"@, text::decimal(codes@[i as int] as nat))];
            lemma_wrote_more(old(out)@, done, one);
            assert(done + one =~= done.push(one[0]));
        }
        i = i + 1;
    }
    proof {
        assert(codes@.take(i as int) =~= codes@);
    }
}

fn push_config_presets(out: &mut String, presets: &Vec<WritePreset>)
    ensures
        final(out)@ == old(out)@ + entries_text(preset_entries(presets@)),
{
    let mut i: usize = 0;
    proof {
        assert(old(out)@ + entries_text(preset_entries(presets@.take(0))) =~= old(out)@);
    }
    while i < presets.len()
        invariant
            i <= presets@.len(),
            out@ == old(out)@ + entries_text(preset_entries(presets@.take(i as int))),
        decreases presets@.len() - i,
    {
        push_line(out, "write-preset", presets[i].as_str());
        proof {
            let t = presets@.take(i + 1);
            assert(t.drop_last() =~= presets@.take(i as int));
            assert(t.last() == presets@[i as int]);
            let done = preset_entries(presets@.take(i as int));
            let one = seq![entry("write-preset"@, cli::preset_name(presets@[i as int]))];
            lemma_wrote_more(old(out)@, done, one);
            assert(done + one =~= done.push(one[0]));
        }
        i = i + 1;
    }
    proof {
        assert(presets@.take(i as int) =~= presets@);
    }
}

impl Cli {
    fn push_command_lines(&self, out: &mut String) -> (r: Result<(), CliParseError>)
        ensures
            wrote(command_entries(self@), old(out)@, final(out)@, r),
    {
        let ghost m = self@;
        let ghost start = out@;
        push_config_flag(out, self.subreaper, "subreaper");
        let ghost mut done = flag_entry(m.subreaper, "subreaper"@);
        if let Some(signal) = &self.pdeath {
            match parse_signal(signal.as_str()) {
                Err(e) => {
                    return Err(e);
                },
                Ok(s) => {
                    push_line(out, "pdeath", s.as_str());
                    proof {
                        let one = seq![entry("pdeath"@, s@)];
                        lemma_wrote_more(start, done, one);
                        done = done + one;
                    }
                },
            }
        } else {
            proof {
                assert(done + Seq::<Entry>::empty() =~= done);
            }
        }
        let ghost front = done;
        let ghost signal = signal_entries(m.pdeath)->Ok_0;
        assert(front == flag_entry(m.subreaper, "subreaper"@) + signal);
        let ghost middle = out@;
        let verbosity: u8 = self.resolved_verbosity();
        let ghost mut more = verbosity_entries(m.verbosity);
        if verbosity > 0 {
            push_line(out, "verbosity", decimal_text(verbosity as u64).as_str());
        } else {
            proof {
                assert(middle + entries_text(more) =~= middle);
            }
        }
        push_config_flag(out, self.warn_on_reap, "warn-on-reap");
        proof {
            lemma_wrote_more(middle, more, flag_entry(m.warn_on_reap, "warn-on-reap"@));
            more = more + flag_entry(m.warn_on_reap, "warn-on-reap"@);
        }
        push_config_flag(out, self.pgroup_kill, "pgroup-kill");
        proof {
            lemma_wrote_more(middle, more, flag_entry(m.pgroup_kill, "pgroup-kill"@));
            more = more + flag_entry(m.pgroup_kill, "pgroup-kill"@);
        }
        push_config_codes(out, &self.remap_exit);
        proof {
            lemma_wrote_more(middle, more, code_entries(m.remap_exit));
            more = more + code_entries(m.remap_exit);
        }
        if self.grace_ms != 500 {
            push_line(out, "grace-ms", decimal_text(self.grace_ms).as_str());
        } else {
            proof {
                assert(out@ + entries_text(grace_entries(m.grace_ms)) =~= out@);
            }
        }
        proof {
            lemma_wrote_more(middle, more, grace_entries(m.grace_ms));
            more = more + grace_entries(m.grace_ms);
            lemma_wrote_more(start, front, more);
            assert(front + more =~= flag_entry(m.subreaper, "subreaper"@) + (signal + more));
        }
        Ok(())
    }

    fn push_write_lines(&self, out: &mut String) -> (r: Result<(), CliParseError>)
        ensures
            wrote(write_entries(self@), old(out)@, final(out)@, r),
    {
        let ghost m = self@;
        let ghost start = out@;
        push_config_flag(out, self.write_restrict, "write-restrict");
        let ghost flag = flag_entry(m.write_restrict, "write-restrict"@);
        match push_config_paths(out, "write-allow", &self.write_allow, false) {
            Err(e) => {
                return Err(e);
            },
            Ok(_) => {},
        }
        let ghost paths = path_entries("write-allow"@, m.write_allow, false)->Ok_0;
        proof {
            lemma_wrote_more(start, flag, paths);
        }
        let ghost middle = out@;
        push_config_presets(out, &self.write_preset);
        let ghost mut more = preset_entries(m.write_preset);
        push_config_flag(out, self.restrict_warn_only, "restrict-warn-only");
        proof {
            let next = flag_entry(m.restrict_warn_only, "restrict-warn-only"@);
            lemma_wrote_more(middle, more, next);
            more = more + next;
        }
        push_config_flag(out, self.write_no_dev, "write-no-dev");
        proof {
            let next = flag_entry(m.write_no_dev, "write-no-dev"@);
            lemma_wrote_more(middle, more, next);
            more = more + next;
            lemma_wrote_more(start, flag + paths, more);
            assert(flag + paths + more =~= flag + (paths + more));
        }
        Ok(())
    }

    fn push_network_lines(&self, out: &mut String) -> (r: Result<(), CliParseError>)
        ensures
            wrote(network_entries(self@), old(out)@, final(out)@, r),
    {
        let ghost m = self@;
        let ghost start = out@;
        match push_config_ports(out, "bind-tcp-allow", "--bind-tcp-allow", &self.bind_tcp_allow) {
            Err(e) => {
                return Err(e);
            },
            Ok(_) => {},
        }
        let ghost bind = port_entries("bind-tcp-allow"@, "--bind-tcp-allow"@, m.bind_tcp_allow)->Ok_0;
        match push_config_ports(
            out,
            "connect-tcp-allow",
            "--connect-tcp-allow",
            &self.connect_tcp_allow,
        ) {
            Err(e) => {
                return Err(e);
            },
            Ok(_) => {},
        }
        let ghost connect = port_entries(
            "connect-tcp-allow"@,
            "--connect-tcp-allow"@,
            m.connect_tcp_allow,
        )->Ok_0;
        proof {
            lemma_wrote_more(start, bind, connect);
        }
        let ghost middle = out@;
        push_config_flag(out, self.scope_signals, "scope-signals");
        push_config_flag(out, self.scope_abstract_unix, "scope-abstract-unix");
        proof {
            let a = flag_entry(m.scope_signals, "scope-signals"@);
            let b = flag_entry(m.scope_abstract_unix, "scope-abstract-unix"@);
            lemma_wrote_more(middle, a, b);
            lemma_wrote_more(start, bind + connect, a + b);
            assert(bind + connect + (a + b) =~= bind + (connect + (a + b)));
        }
        Ok(())
    }

    fn push_exec_lines(&self, out: &mut String) -> (r: Result<(), CliParseError>)
        ensures
            wrote(exec_entries(self@), old(out)@, final(out)@, r),
    {
        let ghost m = self@;
        let ghost start = out@;
        match push_config_paths(out, "exec-allow", &self.exec_allow, true) {
            Err(e) => {
                return Err(e);
            },
            Ok(_) => {},
        }
        let ghost a = path_entries("exec-allow"@, m.exec_allow, true)->Ok_0;
        match push_config_paths(out, "device-ioctl-allow", &self.device_ioctl_allow, false) {
            Err(e) => {
                return Err(e);
            },
            Ok(_) => {},
        }
        let ghost b = path_entries("device-ioctl-allow"@, m.device_ioctl_allow, false)->Ok_0;
        push_config_flag(out, self.expand_env, "expand-env");
        proof {
            let c = flag_entry(m.expand_env, "expand-env"@);
            lemma_wrote_more(start, a, b);
            lemma_wrote_more(start, a + b, c);
            assert(a + b + c =~= a + (b + c));
        }
        Ok(())
    }

    /// The settings as the contents of a configuration file. What could not be read back is
    /// refused.
    pub fn config_text(&self) -> (r: Result<String, CliParseError>)
        ensures
            match (r, config_entries(self@)) {
                (Ok(s), Ok(es)) => s@ == entries_text(es),
                (Err(e), Err(message)) => e@ == cli::message_error(message),
                _ => false,
            },
    {
        let mut out = String::new();
        match self.push_command_lines(&mut out) {
            Err(e) => {
                return Err(e);
            },
            Ok(_) => {},
        }
        let ghost a = command_entries(self@)->Ok_0;
        match self.push_write_lines(&mut out) {
            Err(e) => {
                return Err(e);
            },
            Ok(_) => {},
        }
        let ghost b = write_entries(self@)->Ok_0;
        match self.push_network_lines(&mut out) {
            Err(e) => {
                return Err(e);
            },
            Ok(_) => {},
        }
        let ghost c = network_entries(self@)->Ok_0;
        match self.push_exec_lines(&mut out) {
            Err(e) => {
                return Err(e);
            },
            Ok(_) => {},
        }
        proof {
            let d = exec_entries(self@)->Ok_0;
            let none = Seq::<char>::empty();
            lemma_wrote_more(none, a, b);
            lemma_wrote_more(none, a + b, c);
            lemma_wrote_more(none, a + b + c, d);
            assert(a + b + c + d =~= a + (b + (c + d)));
            assert(none + entries_text(a + b + c + d) =~= entries_text(a + b + c + d));
        }
        Ok(out)
    }
}

} // verus!
