//! Daemon bookkeeping: the files the daemon keeps under the config
//! directory, the reading of PID files, command lines and `ps` output, and
//! the decisions of the single-instance check and of `cava-bg off`.

use vstd::prelude::*;
use crate::text::{
    CharClass, chars_of, contains_seq, ends_with_seq, join_space, lines_of, lines_spec,
    split_by, split_pieces, starts_with_seq, str_contains, str_ends_with, str_eq,
    str_starts_with, string_from_chars, trim, trim_str, views,
};
use crate::paths::{extend_chars, join_path, join_spec, path_parent, spec_path_parent};

verus! {

/// The numeric value of a string of decimal digits.
pub open spec fn digits_value(d: Seq<char>) -> int
    decreases d.len(),
{
    if d.len() == 0 {
        0
    } else {
        digits_value(d.drop_last()) * 10 + (d.last() as int - '0' as int)
    }
}

/// Every character of `d` is an ASCII digit.
pub open spec fn all_digits(d: Seq<char>) -> bool {
    forall|i: int| 0 <= i < d.len() ==> '0' <= #[trigger] d[i] && d[i] <= '9'
}

/// What `str::parse::<i32>` accepts: an optional `+` or `-`, then one or more
/// ASCII digits, whose value fits an `i32`.
pub open spec fn parse_i32_spec(s: Seq<char>) -> Option<int> {
    let neg = s.len() > 0 && s[0] == '-';
    let signed = s.len() > 0 && (s[0] == '-' || s[0] == '+');
    let d = if signed {
        s.drop_first()
    } else {
        s
    };
    if d.len() == 0 || !all_digits(d) {
        None
    } else {
        let v = if neg {
            -digits_value(d)
        } else {
            digits_value(d)
        };
        if i32::MIN <= v && v <= i32::MAX {
            Some(v)
        } else {
            None
        }
    }
}

proof fn lemma_digits_value_grows(d: Seq<char>, k: int)
    requires
        all_digits(d),
        0 <= k <= d.len(),
    ensures
        digits_value(d.take(k)) <= digits_value(d),
        0 <= digits_value(d.take(k)),
    decreases d.len() - k,
{
    if k < d.len() {
        lemma_digits_value_grows(d, k + 1);
        assert(d.take(k + 1).drop_last() =~= d.take(k));
        assert(d.take(k + 1).last() == d[k]);
    } else {
        assert(d.take(k) =~= d);
        lemma_digits_value_nonneg(d);
    }
}

proof fn lemma_digits_value_nonneg(d: Seq<char>)
    requires
        all_digits(d),
    ensures
        0 <= digits_value(d),
    decreases d.len(),
{
    if d.len() > 0 {
        assert(all_digits(d.drop_last()));
        lemma_digits_value_nonneg(d.drop_last());
    }
}

/// `s.parse::<i32>().ok()`.
pub fn parse_i32(s: &str) -> (r: Option<i32>)
    ensures
        match r {
            Some(v) => parse_i32_spec(s@) == Some(v as int),
            None => parse_i32_spec(s@) is None,
        },
{
    let v = chars_of(s);
    let n = v.len();
    let mut start: usize = 0;
    let mut neg = false;
    if n > 0 && (v[0] == '-' || v[0] == '+') {
        neg = v[0] == '-';
        start = 1;
    }
    let ghost d = if start == 1 {
        v@.drop_first()
    } else {
        v@
    };
    assert(d =~= v@.subrange(start as int, n as int));
    if start == n {
        return None;
    }
    let mut acc: i64 = 0;
    let mut i: usize = start;
    while i < n
        invariant
            start <= i <= n == v@.len(),
            v@ == s@,
            start <= 1,
            (start == 1) == (n > 0 && (v@[0] == '-' || v@[0] == '+')),
            neg == (n > 0 && v@[0] == '-'),
            d == (if start == 1 { v@.drop_first() } else { v@ }),
            d == v@.subrange(start as int, n as int),
            forall|q: int| 0 <= q < i - start ==> '0' <= #[trigger] d[q] && d[q] <= '9',
            acc == digits_value(d.take(i - start)),
            0 <= acc <= 2147483648,
        decreases n - i,
    {
        let c = v[i];
        assert(d[i - start] == c);
        if !('0' <= c && c <= '9') {
            assert(!all_digits(d));
            return None;
        }
        let digit = (c as u32 - '0' as u32) as i64;
        proof {
            assert(d.take(i - start + 1).drop_last() =~= d.take(i - start));
            assert(d.take(i - start + 1).last() == c);
            assert(0 <= acc * 10 + digit <= 21474836489) by (nonlinear_arith)
                requires
                    0 <= acc <= 2147483648,
                    0 <= digit <= 9,
            ;
        }
        acc = acc * 10 + digit;
        i = i + 1;
        if acc > 2147483648 {
            let tail_ok = all_digit_tail(v.as_slice(), i);
            proof {
                let k = (i - start) as int;
                if tail_ok {
                    assert forall|q: int| 0 <= q < d.len() implies '0' <= #[trigger] d[q] && d[q] <= '9' by {
                        assert(d[q] == v@[q + start]);
                        if q >= k {
                            assert('0' <= v@[q + start] && v@[q + start] <= '9');
                        }
                    }
                    lemma_digits_value_grows(d, k);
                } else {
                    let q = choose|q: int| i <= q < v@.len() && !('0' <= #[trigger] v@[q] && v@[q] <= '9');
                    assert(d[q - start] == v@[q]);
                    assert(!all_digits(d));
                }
            }
            return None;
        }
    }
    assert(d.take(n - start) =~= d);
    if neg {
        Some((-acc) as i32)
    } else if acc > 2147483647 {
        None
    } else {
        Some(acc as i32)
    }
}

fn all_digit_tail(v: &[char], from: usize) -> (r: bool)
    requires
        from <= v@.len(),
    ensures
        r == forall|q: int| from <= q < v@.len() ==> '0' <= #[trigger] v@[q] && v@[q] <= '9',
{
    let mut i = from;
    while i < v.len()
        invariant
            from <= i <= v@.len(),
            forall|q: int| from <= q < i ==> '0' <= #[trigger] v@[q] && v@[q] <= '9',
        decreases v@.len() - i,
    {
        if !('0' <= v[i] && v[i] <= '9') {
            return false;
        }
        i = i + 1;
    }
    true
}

/// `std::str::from_utf8(b)`, owned: the text when `b` is valid UTF-8.
#[verifier::external_body]
pub(crate) fn utf8_to_string(b: &[u8]) -> (r: Option<String>)
    ensures
        r is Some <==> vstd::utf8::valid_utf8(b@),
        r is Some ==> r->0@ == vstd::utf8::decode_utf8(b@),
{
    std::str::from_utf8(b).ok().map(|s| s.to_string())
}

/// The state of a split of `b` at zero bytes: finished pieces and the current one.
pub open spec fn zero_split_state(b: Seq<u8>) -> (Seq<Seq<u8>>, Seq<u8>)
    decreases b.len(),
{
    if b.len() == 0 {
        (Seq::empty(), Seq::empty())
    } else {
        let (d, c) = zero_split_state(b.drop_last());
        if b.last() == 0 {
            (d.push(c), Seq::empty())
        } else {
            (d, c.push(b.last()))
        }
    }
}

/// The pieces of `b` between zero bytes.
pub open spec fn zero_pieces(b: Seq<u8>) -> Seq<Seq<u8>> {
    zero_split_state(b).0.push(zero_split_state(b).1)
}

/// The pieces that are non-empty UTF-8 text, decoded, in order.
pub open spec fn text_pieces(p: Seq<Seq<u8>>) -> Seq<Seq<char>>
    decreases p.len(),
{
    if p.len() == 0 {
        Seq::empty()
    } else if p.last().len() > 0 && vstd::utf8::valid_utf8(p.last()) {
        text_pieces(p.drop_last()).push(vstd::utf8::decode_utf8(p.last()))
    } else {
        text_pieces(p.drop_last())
    }
}

/// The arguments in a `/proc/<pid>/cmdline` file: its zero-separated pieces
/// that are non-empty UTF-8 text.
pub open spec fn cmdline_args_spec(b: Seq<u8>) -> Seq<Seq<char>> {
    text_pieces(zero_pieces(b))
}

/// The arguments in the bytes of a `/proc/<pid>/cmdline` file (see `cmdline_args_spec`).
pub fn split_cmdline(bytes: &[u8]) -> (r: Vec<String>)
    ensures
        views(r@) == cmdline_args_spec(bytes@),
{
    let mut pieces: Vec<Vec<u8>> = Vec::new();
    let mut cur: Vec<u8> = Vec::new();
    let mut i: usize = 0;
    while i < bytes.len()
        invariant
            0 <= i <= bytes@.len(),
            (pieces@.map_values(|x: Vec<u8>| x@), cur@) == zero_split_state(bytes@.take(i as int)),
        decreases bytes@.len() - i,
    {
        proof {
            assert(bytes@.take(i + 1).drop_last() =~= bytes@.take(i as int));
            assert(bytes@.take(i + 1).last() == bytes@[i as int]);
        }
        if bytes[i] == 0 {
            let ghost old_p = pieces@.map_values(|x: Vec<u8>| x@);
            let done = cur;
            cur = Vec::new();
            pieces.push(done);
            assert(pieces@.map_values(|x: Vec<u8>| x@) =~= old_p.push(done@));
        } else {
            cur.push(bytes[i]);
        }
        i = i + 1;
    }
    assert(bytes@.take(bytes@.len() as int) =~= bytes@);
    let ghost old_p = pieces@.map_values(|x: Vec<u8>| x@);
    let last = cur;
    pieces.push(last);
    assert(pieces@.map_values(|x: Vec<u8>| x@) =~= old_p.push(last@));
    let ghost pv = pieces@.map_values(|x: Vec<u8>| x@);
    let mut out: Vec<String> = Vec::new();
    let mut j: usize = 0;
    while j < pieces.len()
        invariant
            pv == pieces@.map_values(|x: Vec<u8>| x@),
            pv == zero_pieces(bytes@),
            0 <= j <= pieces@.len(),
            views(out@) == text_pieces(pv.take(j as int)),
        decreases pieces@.len() - j,
    {
        proof {
            assert(pv.take(j + 1).drop_last() =~= pv.take(j as int));
            assert(pv.take(j + 1).last() == pieces@[j as int]@);
        }
        if pieces[j].len() > 0 {
            match utf8_to_string(pieces[j].as_slice()) {
                Some(text) => {
                    let ghost before = views(out@);
                    out.push(text);
                    assert(views(out@) =~= before.push(text@));
                },
                None => {},
            }
        }
        j = j + 1;
    }
    assert(pv.take(pv.len() as int) =~= pv);
    out
}

/// Arguments that mark a command line as a running daemon.
pub open spec fn is_start_arg(a: Seq<char>) -> bool {
    a == "on"@ || a == "restart"@ || a == "__run"@ || a == "__supervisor"@ || a == "--debug"@ || a == "--config"@
}

/// Arguments that mark a command line as a one-shot client command.
pub open spec fn is_client_arg(a: Seq<char>) -> bool {
    a == "off"@ || a == "kill"@ || a == "status"@ || a == "outputs"@ || a == "output-on"@ || a == "output-off"@
        || a == "gui"@ || a == "help"@
}

/// A command line belongs to the cava-bg daemon: it has at least two
/// arguments, one of them starts or runs the daemon, and none is a client command.
pub open spec fn cava_bg_cmdline_spec(args: Seq<Seq<char>>) -> bool {
    args.len() >= 2 && (exists|i: int| 0 <= i < args.len() && is_start_arg(#[trigger] args[i]))
        && !(exists|i: int| 0 <= i < args.len() && is_client_arg(#[trigger] args[i]))
}

fn start_arg(a: &str) -> (r: bool)
    ensures
        r == is_start_arg(a@),
{
    str_eq(a, "on") || str_eq(a, "restart") || str_eq(a, "__run") || str_eq(a, "__supervisor") || str_eq(a, "--debug")
        || str_eq(a, "--config")
}

fn client_arg(a: &str) -> (r: bool)
    ensures
        r == is_client_arg(a@),
{
    str_eq(a, "off") || str_eq(a, "kill") || str_eq(a, "status") || str_eq(a, "outputs") || str_eq(a, "output-on")
        || str_eq(a, "output-off") || str_eq(a, "gui") || str_eq(a, "help")
}

/// Whether a process's arguments show the cava-bg daemon (see `cava_bg_cmdline_spec`).
pub fn is_cava_bg_cmdline(args: &[String]) -> (r: bool)
    ensures
        r == cava_bg_cmdline_spec(views(args@)),
{
    let ghost av = views(args@);
    if args.len() < 2 {
        return false;
    }
    let mut has_start = false;
    let mut has_client = false;
    let mut i: usize = 0;
    while i < args.len()
        invariant
            av == views(args@),
            0 <= i <= args@.len(),
            has_start == exists|k: int| 0 <= k < i && is_start_arg(#[trigger] av[k]),
            has_client == exists|k: int| 0 <= k < i && is_client_arg(#[trigger] av[k]),
        decreases args@.len() - i,
    {
        assert(av[i as int] == args@[i as int]@);
        if start_arg(args[i].as_str()) {
            has_start = true;
        }
        if client_arg(args[i].as_str()) {
            has_client = true;
        }
        i = i + 1;
    }
    has_start && !has_client
}

/// A command line belongs to the supervisor: at least two arguments, one of them `__supervisor`.
pub open spec fn supervisor_cmdline_spec(args: Seq<Seq<char>>) -> bool {
    args.len() >= 2 && exists|i: int| 0 <= i < args.len() && #[trigger] args[i] == "__supervisor"@
}

/// Whether a process's arguments show the supervisor (see `supervisor_cmdline_spec`).
pub fn is_supervisor_cmdline(args: &[String]) -> (r: bool)
    ensures
        r == supervisor_cmdline_spec(views(args@)),
{
    let ghost av = views(args@);
    if args.len() < 2 {
        return false;
    }
    let mut i: usize = 0;
    while i < args.len()
        invariant
            av == views(args@),
            args@.len() >= 2,
            0 <= i <= args@.len(),
            forall|k: int| 0 <= k < i ==> #[trigger] av[k] != "__supervisor"@,
        decreases args@.len() - i,
    {
        assert(av[i as int] == args@[i as int]@);
        if str_eq(args[i].as_str(), "__supervisor") {
            return true;
        }
        i = i + 1;
    }
    false
}

/// A `/proc/<pid>/stat` text shows a zombie: its third whitespace-separated field is `Z`.
pub open spec fn stat_zombie_spec(stat: Seq<char>) -> bool {
    let f = split_pieces(stat, CharClass::Whitespace, false);
    f.len() > 2 && f[2] == "Z"@
}

/// Whether a process's stat text shows a zombie (see `stat_zombie_spec`).
pub fn stat_is_zombie(stat: &str) -> (r: bool)
    ensures
        r == stat_zombie_spec(stat@),
{
    let fields = split_by(stat, CharClass::Whitespace, false);
    if fields.len() > 2 {
        assert(views(fields@)[2] == fields@[2]@);
        str_eq(fields[2].as_str(), "Z")
    } else {
        false
    }
}

/// A PID file whose content is not a process id.
#[derive(Debug, Clone, PartialEq, Eq, Structural)]
pub enum PidFileError {
    InvalidPid,
}

/// What a PID file holds: nothing when it is blank, the process id when its
/// trimmed text parses as one, and an error otherwise.
pub fn parse_pid_text(content: &str) -> (r: Result<Option<i32>, PidFileError>)
    ensures
        trim(content@).len() == 0 ==> r == Ok::<Option<i32>, PidFileError>(None),
        trim(content@).len() > 0 ==> match parse_i32_spec(trim(content@)) {
            Some(v) => r matches Ok(Some(p)) && p == v,
            None => r == Err::<Option<i32>, PidFileError>(PidFileError::InvalidPid),
        },
{
    let t = trim_str(content);
    if t.as_str().is_empty() {
        return Ok(None);
    }
    match parse_i32(t.as_str()) {
        Some(p) => Ok(Some(p)),
        None => Err(PidFileError::InvalidPid),
    }
}

/// What the single-instance check does with one PID file.
#[derive(Debug, Clone, Copy, PartialEq, Eq, Structural)]
pub enum PidFileVerdict {
    /// The file names a live cava-bg process: another instance runs.
    AnotherInstance,
    /// The file names a live process that is not cava-bg: remove the file.
    RemoveForeign,
    /// The file names a process that no longer runs: remove the file.
    RemoveDead,
    /// The file is empty: remove it.
    RemoveEmpty,
}

/// The single-instance check's verdict on a PID file: `pid` is what the file
/// holds, `alive` whether that process runs, `is_cava_bg` whether its command
/// line is the daemon's.
pub fn pid_file_verdict(pid: Option<i32>, alive: bool, is_cava_bg: bool) -> (r: PidFileVerdict)
    ensures
        pid is None ==> r == PidFileVerdict::RemoveEmpty,
        pid is Some && alive && is_cava_bg ==> r == PidFileVerdict::AnotherInstance,
        pid is Some && alive && !is_cava_bg ==> r == PidFileVerdict::RemoveForeign,
        pid is Some && !alive ==> r == PidFileVerdict::RemoveDead,
{
    match pid {
        Some(_) => if alive && is_cava_bg {
            PidFileVerdict::AnotherInstance
        } else if alive {
            PidFileVerdict::RemoveForeign
        } else {
            PidFileVerdict::RemoveDead
        },
        None => PidFileVerdict::RemoveEmpty,
    }
}

/// How `cava-bg off` ends.
#[derive(Debug, Clone, Copy, PartialEq, Eq, Structural)]
pub enum StopOutcome {
    /// At least one daemon process was stopped.
    Stopped,
    /// Some processes could not be stopped and none was.
    SomeFailed,
    /// No running daemon was found.
    NothingRunning,
}

/// The outcome of `cava-bg off` from whether any process was stopped and how
/// many could not be.
pub fn stop_outcome(killed_any: bool, failed_count: usize) -> (r: StopOutcome)
    ensures
        killed_any ==> r == StopOutcome::Stopped,
        !killed_any && failed_count > 0 ==> r == StopOutcome::SomeFailed,
        !killed_any && failed_count == 0 ==> r == StopOutcome::NothingRunning,
{
    if killed_any {
        StopOutcome::Stopped
    } else if failed_count > 0 {
        StopOutcome::SomeFailed
    } else {
        StopOutcome::NothingRunning
    }
}

/// `systemctl --user is-active` printed `active` (after trimming).
pub fn systemctl_reports_active(stdout: &str) -> (r: bool)
    ensures
        r == (trim(stdout@) == "active"@),
{
    let t = trim_str(stdout);
    str_eq(t.as_str(), "active")
}

/// A file name of the config directory is a per-output PID file:
/// `daemon.<...>.pid`.
pub fn is_daemon_pid_file_name(name: &str) -> (r: bool)
    ensures
        r == (starts_with_seq(name@, "daemon."@) && ends_with_seq(name@, ".pid"@)),
{
    str_starts_with(name, "daemon.") && str_ends_with(name, ".pid")
}

/// The daemon log is rotated once it exceeds one megabyte.
pub fn log_needs_rotation(size: u64) -> (r: bool)
    ensures
        r == (size > 1048576),
{
    size > 1048576
}

fn concat2(a: &str, b: &str) -> (r: String)
    ensures
        r@ == a@ + b@,
{
    let mut v = chars_of(a);
    extend_chars(&mut v, chars_of(b).as_slice());
    string_from_chars(v.as_slice())
}

fn concat3(a: &str, b: &str, c: &str) -> (r: String)
    ensures
        r@ == a@ + b@ + c@,
{
    let mut v = chars_of(a);
    extend_chars(&mut v, chars_of(b).as_slice());
    extend_chars(&mut v, chars_of(c).as_slice());
    string_from_chars(v.as_slice())
}

/// The PID file of the daemon (or of the daemon of one output) under `home`.
pub fn pid_file_path(home: &str, output: Option<&str>) -> (r: String)
    ensures
        output matches Some(name) ==> r@ == home@ + "/.config/cava-bg/daemon."@ + name@ + ".pid"@,
        output is None ==> r@ == home@ + "/.config/cava-bg/daemon.pid"@,
{
    match output {
        Some(name) => {
            let a = concat3(home, "/.config/cava-bg/daemon.", name);
            concat2(a.as_str(), ".pid")
        },
        None => concat2(home, "/.config/cava-bg/daemon.pid"),
    }
}

/// The log file of the daemon (or of the daemon of one output) under `home`.
pub fn daemon_log_path(home: &str, output: Option<&str>) -> (r: String)
    ensures
        output matches Some(name) ==> r@ == home@ + "/.config/cava-bg/daemon."@ + name@ + ".log"@,
        output is None ==> r@ == home@ + "/.config/cava-bg/daemon.log"@,
{
    match output {
        Some(name) => {
            let a = concat3(home, "/.config/cava-bg/daemon.", name);
            concat2(a.as_str(), ".log")
        },
        None => concat2(home, "/.config/cava-bg/daemon.log"),
    }
}

/// The default configuration file under `home`.
pub fn default_config_path(home: &str) -> (r: String)
    ensures
        r@ == home@ + "/.config/cava-bg/config.toml"@,
{
    concat2(home, "/.config/cava-bg/config.toml")
}

/// PID files of older versions, still removed by `off` and the single-instance check.
pub fn legacy_pid_file_paths(home: &str) -> (r: Vec<String>)
    ensures
        views(r@) == seq![home@ + "/.config/cava-bg/cava-bg.pid"@, "/tmp/cava-bg.pid"@],
{
    let mut v: Vec<String> = Vec::new();
    v.push(concat2(home, "/.config/cava-bg/cava-bg.pid"));
    v.push(crate::text::owned("/tmp/cava-bg.pid"));
    assert(views(v@) =~= seq![home@ + "/.config/cava-bg/cava-bg.pid"@, "/tmp/cava-bg.pid"@]);
    v
}

/// The file the rotated log is moved to.
pub fn rotated_log_path(log_path: &str) -> (r: String)
    ensures
        r@ == log_path@ + ".old"@,
{
    concat2(log_path, ".old")
}

/// A file next to the config file: `name` joined to the config file's parent
/// directory, or to `/tmp` when it has none.
pub open spec fn beside_config_spec(config_path: Seq<char>, name: Seq<char>) -> Seq<char> {
    match spec_path_parent(config_path) {
        Some(dir) => join_spec(dir, name),
        None => join_spec("/tmp"@, name),
    }
}

fn beside_config(config_path: &str, name: &str) -> (r: String)
    ensures
        r@ == beside_config_spec(config_path@, name@),
{
    match path_parent(config_path) {
        Some(dir) => join_path(dir.as_str(), name),
        None => join_path("/tmp", name),
    }
}

/// Where the daemon publishes the outputs it drives.
pub fn runtime_outputs_path(config_path: &str) -> (r: String)
    ensures
        r@ == beside_config_spec(config_path@, "runtime-outputs.json"@),
{
    beside_config(config_path, "runtime-outputs.json")
}

/// The socket through which the configuration editor pushes live color changes.
pub fn runtime_color_socket_path(config_path: &str) -> (r: String)
    ensures
        r@ == beside_config_spec(config_path@, "runtime-color-update.sock"@),
{
    beside_config(config_path, "runtime-color-update.sock")
}

/// The process id that a line of `ps aux` output gives for cava-bg: lines
/// that mention `cava-bg`, other than the `grep` and `cava-bg off` lines,
/// hold it as their second whitespace-separated word.
pub open spec fn ps_line_pid(line: Seq<char>) -> Option<int> {
    if contains_seq(line, "cava-bg"@) && !contains_seq(line, "grep cava-bg"@) && !contains_seq(line, "cava-bg off"@) {
        let parts = split_pieces(line, CharClass::Whitespace, false);
        if parts.len() >= 2 {
            parse_i32_spec(parts[1])
        } else {
            None
        }
    } else {
        None
    }
}

/// The cava-bg process ids found in `ps aux` lines, in order of first
/// appearance: positive, other than `current`, each once.
pub open spec fn ps_pids(lines: Seq<Seq<char>>, current: i32) -> Seq<i32>
    decreases lines.len(),
{
    if lines.len() == 0 {
        Seq::empty()
    } else {
        let acc = ps_pids(lines.drop_last(), current);
        match ps_line_pid(lines.last()) {
            Some(p) => if p > 0 && p != current && !acc.contains(p as i32) {
                acc.push(p as i32)
            } else {
                acc
            },
            None => acc,
        }
    }
}

fn ps_line_pid_exec(line: &str) -> (r: Option<i32>)
    ensures
        match ps_line_pid(line@) {
            Some(v) => r == Some(v as i32) && i32::MIN <= v <= i32::MAX,
            None => r is None,
        },
{
    if !(str_contains(line, "cava-bg") && !str_contains(line, "grep cava-bg") && !str_contains(line, "cava-bg off")) {
        return None;
    }
    let parts = split_by(line, CharClass::Whitespace, false);
    if parts.len() < 2 {
        return None;
    }
    assert(views(parts@)[1] == parts@[1]@);
    parse_i32(parts[1].as_str())
}

fn contains_pid(v: &Vec<i32>, p: i32) -> (r: bool)
    ensures
        r == v@.contains(p),
{
    let mut i: usize = 0;
    while i < v.len()
        invariant
            0 <= i <= v@.len(),
            forall|k: int| 0 <= k < i ==> v@[k] != p,
        decreases v@.len() - i,
    {
        if v[i] == p {
            return true;
        }
        i = i + 1;
    }
    false
}

/// The cava-bg process ids in the output of `ps aux` (see `ps_pids`), leaving
/// out the process `current_pid`.
pub fn ps_output_pids(stdout: &str, current_pid: i32) -> (r: Vec<i32>)
    ensures
        r@ == ps_pids(lines_spec(stdout@), current_pid),
{
    let lines = lines_of(stdout);
    let ghost lv = views(lines@);
    let mut pids: Vec<i32> = Vec::new();
    let mut j: usize = 0;
    while j < lines.len()
        invariant
            lv == views(lines@),
            lv == lines_spec(stdout@),
            0 <= j <= lines@.len(),
            pids@ == ps_pids(lv.take(j as int), current_pid),
        decreases lines@.len() - j,
    {
        assert(lv.take(j + 1).drop_last() =~= lv.take(j as int));
        assert(lv.take(j + 1).last() == lines@[j as int]@);
        match ps_line_pid_exec(lines[j].as_str()) {
            Some(p) => {
                if p > 0 && p != current_pid && !contains_pid(&pids, p) {
                    pids.push(p);
                }
            },
            None => {},
        }
        j = j + 1;
    }
    assert(lv.take(lines@.len() as int) =~= lv);
    pids
}

/// What to do after one more look at a process being stopped: the process
/// gets twenty looks after `SIGTERM` and ten after `SIGKILL`, with a pause
/// after each look that finds it alive.
#[derive(Debug, Clone, Copy, PartialEq, Eq, Structural)]
pub enum EscalationAction {
    /// The process is gone.
    Stopped,
    /// Pause, then look again.
    Wait,
    /// Pause, send `SIGKILL`, then look again.
    WaitThenKill,
    /// Pause, then give up: the process could not be stopped.
    WaitThenGiveUp,
}

/// Looks after `SIGTERM` before `SIGKILL` is sent.
pub const TERM_LOOKS: u32 = 20;
/// Looks after `SIGKILL` before giving up.
pub const KILL_LOOKS: u32 = 10;

/// The next action once `failed_looks` earlier looks found the process alive
/// and this look found it `alive` or not.
pub fn escalation_after_look(failed_looks: u32, alive: bool) -> (r: EscalationAction)
    requires
        failed_looks < TERM_LOOKS + KILL_LOOKS,
    ensures
        !alive ==> r == EscalationAction::Stopped,
        alive && failed_looks + 1 == TERM_LOOKS ==> r == EscalationAction::WaitThenKill,
        alive && failed_looks + 1 == TERM_LOOKS + KILL_LOOKS ==> r == EscalationAction::WaitThenGiveUp,
        alive && failed_looks + 1 != TERM_LOOKS && failed_looks + 1 != TERM_LOOKS + KILL_LOOKS ==> r
            == EscalationAction::Wait,
{
    if !alive {
        EscalationAction::Stopped
    } else if failed_looks + 1 == TERM_LOOKS {
        EscalationAction::WaitThenKill
    } else if failed_looks + 1 == TERM_LOOKS + KILL_LOOKS {
        EscalationAction::WaitThenGiveUp
    } else {
        EscalationAction::Wait
    }
}

/// What `cava-bg status` reports about the daemon.
#[derive(Debug, Clone, Copy, PartialEq, Eq, Structural)]
pub enum DaemonStatus {
    /// The supervisor runs, with this process id.
    Supervisor(i32),
    /// A daemon runs without a supervisor, with this process id.
    Daemon(i32),
    /// Only legacy or per-output daemons run.
    PerOutputOnly,
    Stopped,
}

/// The daemon's status from the main PID file (`main_pid`, and whether that
/// process is a running cava-bg, `main_running`), whether it is the
/// supervisor, and whether any other PID file names a running cava-bg.
pub fn daemon_status(main_pid: Option<i32>, main_running: bool, is_supervisor: bool, any_other_running: bool) -> (r: DaemonStatus)
    ensures
        main_pid matches Some(p) ==> (main_running && is_supervisor ==> r == DaemonStatus::Supervisor(p)),
        main_pid matches Some(p) ==> (main_running && !is_supervisor ==> r == DaemonStatus::Daemon(p)),
        !(main_pid is Some && main_running) && any_other_running ==> r == DaemonStatus::PerOutputOnly,
        !(main_pid is Some && main_running) && !any_other_running ==> r == DaemonStatus::Stopped,
{
    match main_pid {
        Some(p) => {
            if main_running && is_supervisor {
                return DaemonStatus::Supervisor(p);
            }
            if main_running {
                return DaemonStatus::Daemon(p);
            }
        },
        None => {},
    }
    if any_other_running {
        DaemonStatus::PerOutputOnly
    } else {
        DaemonStatus::Stopped
    }
}

/// The output a per-output PID file belongs to: the `<output>` of a file
/// named `daemon.<output>.pid`.
pub open spec fn output_of_pid_file_spec(name: Seq<char>) -> Option<Seq<char>> {
    if starts_with_seq(name, "daemon."@) {
        let rest = name.subrange(7, name.len() as int);
        if ends_with_seq(rest, ".pid"@) {
            Some(rest.subrange(0, rest.len() - 4))
        } else {
            None
        }
    } else {
        None
    }
}

/// `name.strip_prefix("daemon.").and_then(|n| n.strip_suffix(".pid"))`.
pub fn output_of_pid_file(name: &str) -> (r: Option<String>)
    ensures
        match output_of_pid_file_spec(name@) {
            Some(o) => r matches Some(x) && x@ == o,
            None => r is None,
        },
{
    proof {
        reveal_strlit("daemon.");
        reveal_strlit(".pid");
    }
    if !str_starts_with(name, "daemon.") {
        return None;
    }
    let v = chars_of(name);
    let rest = crate::text::sub_chars(v.as_slice(), 7, v.len());
    let rest_s = string_from_chars(rest.as_slice());
    if !str_ends_with(rest_s.as_str(), ".pid") {
        return None;
    }
    let m = rest.len() - 4;
    let out = crate::text::sub_chars(rest.as_slice(), 0, m);
    Some(string_from_chars(out.as_slice()))
}

/// The arguments a supervisor starts the daemon of one output with.
pub fn child_args(config_path: &str, output_name: &str, systemd_mode: bool) -> (r: Vec<String>)
    ensures
        views(r@) == seq!["__run"@, "--supervised"@, "--config"@, config_path@, "--output"@, output_name@]
            + if systemd_mode {
            seq!["--systemd"@]
        } else {
            Seq::empty()
        },
{
    let mut v: Vec<String> = Vec::new();
    v.push(crate::text::owned("__run"));
    v.push(crate::text::owned("--supervised"));
    v.push(crate::text::owned("--config"));
    v.push(crate::text::owned(config_path));
    v.push(crate::text::owned("--output"));
    v.push(crate::text::owned(output_name));
    if systemd_mode {
        v.push(crate::text::owned("--systemd"));
    }
    let ghost base = seq!["__run"@, "--supervised"@, "--config"@, config_path@, "--output"@, output_name@];
    assert(views(v@) =~= base + if systemd_mode {
        seq!["--systemd"@]
    } else {
        Seq::empty()
    });
    v
}

/// The position of the first occurrence of `pat` in `s` at or after `i` (`str::find`).
pub open spec fn find_from(s: Seq<char>, pat: Seq<char>, i: int) -> Option<int>
    decreases s.len() + 1 - i,
{
    if i < 0 || i + pat.len() > s.len() {
        None
    } else if crate::text::occurs_at(s, pat, i) {
        Some(i)
    } else {
        find_from(s, pat, i + 1)
    }
}

/// A line a per-output daemon printed, tagged with its output: `[name] ` goes
/// after the first `] ` of the line (`prefix] [name] message`), or in front
/// of a line that has none.
pub open spec fn child_log_line_spec(name: Seq<char>, line: Seq<char>) -> Seq<char> {
    match find_from(line, "] "@, 0) {
        Some(i) => line.subrange(0, i) + "] ["@ + name + "] "@ + line.subrange(i + 2, line.len() as int),
        None => "["@ + name + "] "@ + line,
    }
}

/// `line` tagged with the output `name` (see `child_log_line_spec`).
pub fn child_log_line(name: &str, line: &str) -> (r: String)
    ensures
        r@ == child_log_line_spec(name@, line@),
{
    let v = chars_of(line);
    let pat = chars_of("] ");
    proof {
        reveal_strlit("] ");
    }
    let n = v.len();
    let mut i: usize = 0;
    while i < n && n - i >= 2
        invariant
            i <= n,
            v@ == line@,
            pat@ == "] "@,
            n == v@.len(),
            find_from(v@, pat@, 0) == find_from(v@, pat@, i as int),
        decreases n - i,
    {
        if crate::text::occurs_at_exec(v.as_slice(), pat.as_slice(), i) {
            let head = crate::text::sub_chars(v.as_slice(), 0, i);
            let tail = crate::text::sub_chars(v.as_slice(), i + 2, n);
            let mut out = head;
            extend_chars(&mut out, chars_of("] [").as_slice());
            extend_chars(&mut out, chars_of(name).as_slice());
            extend_chars(&mut out, pat.as_slice());
            extend_chars(&mut out, tail.as_slice());
            return string_from_chars(out.as_slice());
        }
        i = i + 1;
    }
    let mut out = chars_of("[");
    extend_chars(&mut out, chars_of(name).as_slice());
    extend_chars(&mut out, pat.as_slice());
    extend_chars(&mut out, v.as_slice());
    string_from_chars(out.as_slice())
}

/// What a PID file holds: the process id in decimal, then a newline.
pub open spec fn pid_text_spec(pid: u32) -> Seq<char> {
    crate::text::decimal(pid as nat).push('\n')
}

/// The text written to a PID file (`format!("{pid}\n")`).
pub fn pid_file_text(pid: u32) -> (r: String)
    ensures
        r@ == pid_text_spec(pid),
{
    let mut v: Vec<char> = Vec::new();
    crate::text::push_decimal(pid, &mut v);
    v.push('\n');
    assert(v@ =~= pid_text_spec(pid));
    string_from_chars(v.as_slice())
}

proof fn lemma_decimal(n: nat)
    ensures
        crate::text::decimal(n).len() > 0,
        all_digits(crate::text::decimal(n)),
        digits_value(crate::text::decimal(n)) == n,
    decreases n,
{
    let d = crate::text::decimal(n);
    if n < 10 {
        assert((((n + 48) as u32) as char) as int == n + 48);
        assert(d.drop_last() =~= Seq::<char>::empty());
        assert(digits_value(d.drop_last()) == 0);
    } else {
        lemma_decimal(n / 10);
        let c = (((n % 10) + 48) as u32) as char;
        assert(c as int == (n % 10) + 48);
        assert(d.drop_last() =~= crate::text::decimal(n / 10));
        assert(d.last() == c);
        assert(digits_value(d) == digits_value(d.drop_last()) * 10 + (c as int - '0' as int));
        assert((n / 10) * 10 + n % 10 == n);
        assert(all_digits(d)) by {
            assert forall|i: int| 0 <= i < d.len() implies '0' <= #[trigger] d[i] && d[i] <= '9' by {
                if i < d.len() - 1 {
                    assert(d[i] == crate::text::decimal(n / 10)[i]);
                }
            }
        }
    }
}

/// A PID file written for `pid` is read back as `pid` (`parse_pid_text` gives
/// `Ok(Some(pid))`) whenever `pid` fits an `i32`.
pub proof fn law_pid_file_round_trip(pid: u32)
    requires
        pid <= i32::MAX,
    ensures
        trim(pid_text_spec(pid)).len() > 0,
        parse_i32_spec(trim(pid_text_spec(pid))) == Some(pid as int),
{
    let d = crate::text::decimal(pid as nat);
    let w = pid_text_spec(pid);
    lemma_decimal(pid as nat);
    assert('0' <= d[0] <= '9');
    assert('0' <= d.last() <= '9');
    assert(w[0] == d[0]);
    assert(crate::text::trim_start_by(w, CharClass::Whitespace) == w);
    assert(w.drop_last() =~= d);
    assert(crate::text::trim_end_by(d, CharClass::Whitespace) == d);
    assert(crate::text::trim_end_by(w, CharClass::Whitespace) == d);
    assert(trim(w) == d);
}

/// The arguments `cava-bg on` starts the background daemon with: the daemon
/// of one output when an output is named, else the supervisor when asked
/// for, else the daemon of all outputs.
pub open spec fn daemon_args_spec(config_path: Seq<char>, output: Option<Seq<char>>, supervisor: bool) -> Seq<Seq<char>> {
    match output {
        Some(o) => seq!["__run"@, "--config"@, config_path, "--output"@, o],
        None => if supervisor {
            seq!["__supervisor"@, "--config"@, config_path]
        } else {
            seq!["__run"@, "--config"@, config_path]
        },
    }
}

/// The arguments of the background daemon (see `daemon_args_spec`).
pub fn daemon_args(config_path: &str, output: Option<&str>, supervisor: bool) -> (r: Vec<String>)
    ensures
        views(r@) == daemon_args_spec(config_path@, crate::text::opt_view(output), supervisor),
{
    let mut v: Vec<String> = Vec::new();
    match output {
        Some(o) => {
            v.push(crate::text::owned("__run"));
            v.push(crate::text::owned("--config"));
            v.push(crate::text::owned(config_path));
            v.push(crate::text::owned("--output"));
            v.push(crate::text::owned(o));
        },
        None => {
            if supervisor {
                v.push(crate::text::owned("__supervisor"));
            } else {
                v.push(crate::text::owned("__run"));
            }
            v.push(crate::text::owned("--config"));
            v.push(crate::text::owned(config_path));
        },
    }
    assert(views(v@) =~= daemon_args_spec(config_path@, crate::text::opt_view(output), supervisor));
    v
}

/// The daemon of each output has a PID file of its own: the PID files of two
/// different outputs differ, and neither is the PID file of the daemon of
/// all outputs.
pub proof fn law_pid_files_distinct(home: Seq<char>, a: Seq<char>, b: Seq<char>)
    ensures
        a != b ==> home + "/.config/cava-bg/daemon."@ + a + ".pid"@ != home + "/.config/cava-bg/daemon."@ + b + ".pid"@,
        home + "/.config/cava-bg/daemon."@ + a + ".pid"@ != home + "/.config/cava-bg/daemon.pid"@,
{
    reveal_strlit("/.config/cava-bg/daemon.");
    reveal_strlit(".pid");
    reveal_strlit("/.config/cava-bg/daemon.pid");
    let pre = home + "/.config/cava-bg/daemon."@;
    let x = pre + a + ".pid"@;
    let y = pre + b + ".pid"@;
    assert(".pid"@.len() == 4);
    assert(x.len() == pre.len() + a.len() + 4);
    assert(y.len() == pre.len() + b.len() + 4);
    if a != b && x == y {
        assert(x.len() == y.len());
        assert(a.len() == b.len());
        assert(x.subrange(pre.len() as int, (pre.len() + a.len()) as int) =~= a);
        assert(y.subrange(pre.len() as int, (pre.len() + b.len()) as int) =~= b);
    }
    let main = home + "/.config/cava-bg/daemon.pid"@;
    assert(x.len() == main.len() + a.len() + 1);
}

} // verus!
