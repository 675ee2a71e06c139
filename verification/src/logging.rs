//! Where the log goes, when it is rotated, the memory report read at start-up, and the
//! error summary.

use vstd::prelude::*;
use crate::config::manager::{EnvPaths, TargetOs, xdg_config_dir, xdg_config_dir_of};
use crate::text::{
    append_decimal, concat_str, decimal, has_prefix, parse_u64, str_chars, str_starts_with,
    unsigned_value,
};

verus! {

/// How much the log records, from nothing to everything.
#[derive(Debug, Clone, Copy, PartialEq, Eq, Structural)]
pub enum LogLevel {
    Off,
    Error,
    Warn,
    Info,
    Debug,
    Trace,
}

/// The log's settings.
pub struct LoggingConfig {
    /// The directory that holds the log files.
    pub log_dir: String,
    /// The current log file.
    pub log_file: String,
    /// What is recorded.
    pub level: LogLevel,
    /// Whether a large log is moved aside at start-up.
    pub enable_rotation: bool,
    /// The size, in bytes, from which the log is rotated.
    pub max_file_size: u64,
    /// How many log files are kept, the current one included.
    pub max_files: usize,
}

/// Ten mebibytes: the size from which the log is rotated.
pub const DEFAULT_MAX_LOG_SIZE: u64 = 10485760;

/// The number of log files kept by default.
pub const DEFAULT_MAX_LOG_FILES: usize = 5;

/// The directory under which the "Mira/logs" directory goes: %APPDATA% on Windows, ~/Library/
/// Application Support on macOS, the XDG configuration directory elsewhere; a missing
/// variable stands for the current directory ".".
pub open spec fn log_base_dir(os: TargetOs, env: EnvPaths) -> Seq<char> {
    match os {
        TargetOs::Windows => match env.appdata {
            Some(a) => a@,
            None => "."@,
        },
        TargetOs::MacOs => match env.home {
            Some(h) => h@ + "/Library/Application Support"@,
            None => "."@ + "/Library/Application Support"@,
        },
        TargetOs::Other => xdg_config_dir(env),
    }
}

/// The default log directory: the base directory followed by "/Mira/logs".
pub open spec fn default_log_dir_of(os: TargetOs, env: EnvPaths) -> Seq<char> {
    log_base_dir(os, env) + "/Mira/logs"@
}

/// The default log directory (see `default_log_dir_of`).
pub fn default_log_dir(os: TargetOs, env: &EnvPaths) -> (r: String)
    ensures
        r@ == default_log_dir_of(os, *env),
{
    let base = match os {
        TargetOs::Windows => match &env.appdata {
            Some(a) => a.clone(),
            None => String::from_str("."),
        },
        TargetOs::MacOs => match &env.home {
            Some(h) => concat_str(h.as_str(), "/Library/Application Support"),
            None => concat_str(".", "/Library/Application Support"),
        },
        TargetOs::Other => xdg_config_dir_of(env),
    };
    concat_str(base.as_str(), "/Mira/logs")
}

impl LoggingConfig {
    /// The default settings for logs kept in `log_dir`: file "mira.log" there, level Info,
    /// rotation on, 10 MiB per file, five files.
    pub fn with_log_dir(log_dir: String) -> (r: Self)
        ensures
            r.log_dir@ == log_dir@,
            r.log_file@ == log_dir@ + "/mira.log"@,
            r.level == LogLevel::Info,
            r.enable_rotation,
            r.max_file_size == DEFAULT_MAX_LOG_SIZE,
            r.max_files == DEFAULT_MAX_LOG_FILES,
    {
        let log_file = concat_str(log_dir.as_str(), "/mira.log");
        LoggingConfig {
            log_dir,
            log_file,
            level: LogLevel::Info,
            enable_rotation: true,
            max_file_size: DEFAULT_MAX_LOG_SIZE,
            max_files: DEFAULT_MAX_LOG_FILES,
        }
    }

    /// The default settings on platform `os` with environment `env`.
    pub fn default_for(os: TargetOs, env: &EnvPaths) -> (r: Self)
        ensures
            r.log_dir@ == default_log_dir_of(os, *env),
            r.log_file@ == default_log_dir_of(os, *env) + "/mira.log"@,
            r.level == LogLevel::Info,
            r.enable_rotation,
            r.max_file_size == DEFAULT_MAX_LOG_SIZE,
            r.max_files == DEFAULT_MAX_LOG_FILES,
    {
        Self::with_log_dir(default_log_dir(os, env))
    }
}

/// One file operation of a log rotation.
#[derive(Debug, Clone, Copy, PartialEq, Eq, Structural)]
pub enum RotationStep {
    /// Delete backup number `n` ("mira.log.n").
    Remove(usize),
    /// Rename backup `n` to backup `n + 1`.
    Shift(usize),
    /// Rename the current log to backup 1.
    BackupCurrent,
}

/// The steps for backups `i`, `i - 1`, ..., 1, where `exists[n]` tells whether backup `n` is
/// there: the backup numbered `max_files - 1` is deleted, the others move up by one.
pub open spec fn shift_steps(exists: Seq<bool>, max_files: nat, i: nat) -> Seq<RotationStep>
    decreases i,
{
    if i == 0 {
        Seq::empty()
    } else {
        let rest = shift_steps(exists, max_files, (i - 1) as nat);
        if exists[i as int] {
            let step = if i + 1 >= max_files {
                RotationStep::Remove(i as usize)
            } else {
                RotationStep::Shift(i as usize)
            };
            seq![step] + rest
        } else {
            rest
        }
    }
}

/// The rotation of a log at start-up: nothing when the log is missing or smaller than
/// `max_file_size`; else the backups from `max_files - 1` down to 1, then the log itself.
pub open spec fn rotation_plan_of(
    log_exists: bool,
    log_size: u64,
    max_file_size: u64,
    max_files: usize,
    exists: Seq<bool>,
) -> Seq<RotationStep> {
    if !log_exists || log_size < max_file_size {
        Seq::empty()
    } else {
        let top: nat = if max_files >= 1 { (max_files - 1) as nat } else { 0 };
        shift_steps(exists, max_files as nat, top).push(RotationStep::BackupCurrent)
    }
}

/// The file operations that rotate the log (see `rotation_plan_of`); `backup_exists[n]`
/// tells whether backup `n` is there, for each `n` below `max_files`.
pub fn rotation_plan(
    log_exists: bool,
    log_size: u64,
    max_file_size: u64,
    max_files: usize,
    backup_exists: &Vec<bool>,
) -> (r: Vec<RotationStep>)
    requires
        backup_exists@.len() >= max_files,
    ensures
        r@ == rotation_plan_of(log_exists, log_size, max_file_size, max_files, backup_exists@),
{
    let mut steps: Vec<RotationStep> = Vec::new();
    if !log_exists || log_size < max_file_size {
        return steps;
    }
    let top: usize = if max_files >= 1 { max_files - 1 } else { 0 };
    let mut i: usize = top;
    while i > 0
        invariant
            i <= top,
            top < backup_exists@.len() || top == 0,
            top == (if max_files >= 1 { (max_files - 1) as nat } else { 0nat }),
            steps@ + shift_steps(backup_exists@, max_files as nat, i as nat) == shift_steps(
                backup_exists@,
                max_files as nat,
                top as nat,
            ),
        decreases i,
    {
        let ghost before = steps@;
        if backup_exists[i] {
            if i + 1 >= max_files {
                steps.push(RotationStep::Remove(i));
            } else {
                steps.push(RotationStep::Shift(i));
            }
        }
        i = i - 1;
        assert(steps@ + shift_steps(backup_exists@, max_files as nat, i as nat) =~= before
            + shift_steps(backup_exists@, max_files as nat, (i + 1) as nat));
    }
    assert(steps@ =~= shift_steps(backup_exists@, max_files as nat, top as nat));
    steps.push(RotationStep::BackupCurrent);
    steps
}

/// A rotation deletes only the oldest kept backup: every `Remove` step names backup
/// `max_files - 1`, and every `Shift` names a backup below it.
pub proof fn lemma_rotation_keeps_within_limit(
    exists: Seq<bool>,
    max_files: nat,
    i: nat,
    k: int,
)
    requires
        i < max_files <= usize::MAX,
        0 <= k < shift_steps(exists, max_files, i).len(),
    ensures
        shift_steps(exists, max_files, i)[k] matches RotationStep::Remove(n) ==> n + 1
            == max_files,
        shift_steps(exists, max_files, i)[k] matches RotationStep::Shift(n) ==> 1 <= n && n + 1
            < max_files,
        !(shift_steps(exists, max_files, i)[k] is BackupCurrent),
    decreases i,
{
    if i > 0 {
        let rest = shift_steps(exists, max_files, (i - 1) as nat);
        if exists[i as int] {
            let step = if i + 1 >= max_files {
                RotationStep::Remove(i as usize)
            } else {
                RotationStep::Shift(i as usize)
            };
            assert(shift_steps(exists, max_files, i) == seq![step] + rest);
            if k > 0 {
                assert((seq![step] + rest)[k] == rest[k - 1]);
                lemma_rotation_keeps_within_limit(exists, max_files, (i - 1) as nat, k - 1);
            } else {
                assert((seq![step] + rest)[0] == step);
            }
        } else {
            lemma_rotation_keeps_within_limit(exists, max_files, (i - 1) as nat, k);
        }
    }
}

/// The machine's memory, in mebibytes.
#[derive(Debug, Clone, Copy, PartialEq, Eq, Structural)]
pub struct MemoryInfo {
    pub total_mb: u64,
    pub available_mb: u64,
}

/// Whether `str::split_whitespace` splits at `c` (Unicode White_Space).
pub open spec fn is_space(c: char) -> bool {
    ||| c == '\t' || c == '\n' || c == '\u{0B}' || c == '\u{0C}' || c == '\r' || c == ' '
    ||| c == '\u{85}' || c == '\u{A0}' || c == '\u{1680}'
    ||| '\u{2000}' <= c && c <= '\u{200A}'
    ||| c == '\u{2028}' || c == '\u{2029}' || c == '\u{202F}' || c == '\u{205F}' || c == '\u{3000}'
}

/// Whether `c` is white space (see `is_space`).
fn char_is_space(c: char) -> (r: bool)
    ensures
        r == is_space(c),
{
    c == '\t' || c == '\n' || c == '\u{0B}' || c == '\u{0C}' || c == '\r' || c == ' ' || c
        == '\u{85}' || c == '\u{A0}' || c == '\u{1680}' || ('\u{2000}' <= c && c <= '\u{200A}')
        || c == '\u{2028}' || c == '\u{2029}' || c == '\u{202F}' || c == '\u{205F}' || c
        == '\u{3000}'
}

/// The first position at or after `i` that holds no white space (or the end).
pub open spec fn skip_space(s: Seq<char>, i: int) -> int
    decreases s.len() - i,
{
    if i < 0 || i >= s.len() {
        i
    } else if is_space(s[i]) {
        skip_space(s, i + 1)
    } else {
        i
    }
}

/// The first position at or after `i` that holds white space (or the end).
pub open spec fn skip_word(s: Seq<char>, i: int) -> int
    decreases s.len() - i,
{
    if i < 0 || i >= s.len() {
        i
    } else if !is_space(s[i]) {
        skip_word(s, i + 1)
    } else {
        i
    }
}

/// The second word of a line, or the empty text when it has fewer than two words.
pub open spec fn second_word(line: Seq<char>) -> Seq<char> {
    let a = skip_space(line, 0);
    let b = skip_word(line, a);
    let c = skip_space(line, b);
    let d = skip_word(line, c);
    line.subrange(c, d)
}

/// The number a "/proc/meminfo" line carries: its second word read as a `u64`, or 0.
pub open spec fn line_number(line: Seq<char>) -> u64 {
    match unsigned_value(second_word(line)) {
        Some(n) => if n <= u64::MAX {
            n as u64
        } else {
            0
        },
        None => 0,
    }
}

/// The (total, available) kibibytes after reading one line.
pub open spec fn apply_meminfo_line(line: Seq<char>, total: u64, avail: u64) -> (u64, u64) {
    if has_prefix(line, "MemTotal:"@) {
        (line_number(line), avail)
    } else if has_prefix(line, "MemAvailable:"@) {
        (total, line_number(line))
    } else {
        (total, avail)
    }
}

/// The position of the first line break in `s`, or its length.
pub open spec fn line_end(s: Seq<char>, i: int) -> int
    decreases s.len() - i,
{
    if i < 0 || i >= s.len() {
        s.len() as int
    } else if s[i] == '\n' {
        i
    } else {
        line_end(s, i + 1)
    }
}

/// The (total, available) kibibytes after reading the lines of `s` one by one, starting from
/// (`total`, `avail`): the last "MemTotal:" and "MemAvailable:" lines win.
pub open spec fn scan_meminfo(s: Seq<char>, total: u64, avail: u64) -> (u64, u64)
    decreases s.len(),
{
    if s.len() == 0 {
        (total, avail)
    } else {
        let k = line_end(s, 0);
        let next = apply_meminfo_line(s.take(k), total, avail);
        proof {
            lemma_line_end_bounds(s, 0);
        }
        if k < s.len() {
            scan_meminfo(s.skip(k + 1), next.0, next.1)
        } else {
            next
        }
    }
}

/// `line_end` lies between `i` and the end, at a line break or at the end, and no line
/// break comes before it.
pub proof fn lemma_line_end_bounds(s: Seq<char>, i: int)
    requires
        0 <= i <= s.len(),
    ensures
        i <= line_end(s, i) <= s.len(),
        line_end(s, i) < s.len() ==> s[line_end(s, i)] == '\n',
        forall|j: int| i <= j < line_end(s, i) ==> s[j] != '\n',
    decreases s.len() - i,
{
    if i < s.len() && s[i] != '\n' {
        lemma_line_end_bounds(s, i + 1);
    }
}

proof fn lemma_line_end_shift(s: Seq<char>, p: int, i: int)
    requires
        0 <= p <= s.len(),
        0 <= i <= s.len() - p,
    ensures
        line_end(s.skip(p), i) == line_end(s, p + i) - p,
    decreases s.len() - p - i,
{
    if i < s.len() - p && s[p + i] != '\n' {
        lemma_line_end_shift(s, p, i + 1);
    }
}

/// The end of the line that starts at `start`.
fn find_line_end(s: &Vec<char>, start: usize) -> (k: usize)
    requires
        start <= s@.len(),
    ensures
        k == line_end(s@, start as int),
{
    let mut k = start;
    while k < s.len() && s[k] != '\n'
        invariant
            start <= k <= s@.len(),
            line_end(s@, k as int) == line_end(s@, start as int),
        decreases s@.len() - k,
    {
        k = k + 1;
    }
    k
}

fn skip_space_exec(s: &Vec<char>, i: usize) -> (j: usize)
    requires
        i <= s@.len(),
    ensures
        j == skip_space(s@, i as int),
        i <= j <= s@.len(),
{
    let mut j = i;
    while j < s.len() && char_is_space(s[j])
        invariant
            i <= j <= s@.len(),
            skip_space(s@, j as int) == skip_space(s@, i as int),
        decreases s@.len() - j,
    {
        j = j + 1;
    }
    j
}

fn skip_word_exec(s: &Vec<char>, i: usize) -> (j: usize)
    requires
        i <= s@.len(),
    ensures
        j == skip_word(s@, i as int),
        i <= j <= s@.len(),
{
    let mut j = i;
    while j < s.len() && !char_is_space(s[j])
        invariant
            i <= j <= s@.len(),
            skip_word(s@, j as int) == skip_word(s@, i as int),
        decreases s@.len() - j,
    {
        j = j + 1;
    }
    j
}

/// The characters `s[from..to]`.
fn copy_range(s: &Vec<char>, from: usize, to: usize) -> (r: Vec<char>)
    requires
        from <= to <= s@.len(),
    ensures
        r@ == s@.subrange(from as int, to as int),
{
    let mut r: Vec<char> = Vec::new();
    let mut i = from;
    while i < to
        invariant
            from <= i <= to,
            to <= s@.len(),
            r@ == s@.subrange(from as int, i as int),
        decreases to - i,
    {
        r.push(s[i]);
        i = i + 1;
        assert(r@ =~= s@.subrange(from as int, i as int));
    }
    r
}

/// The number a line carries (see `line_number`).
fn line_number_exec(line: &Vec<char>) -> (r: u64)
    ensures
        r == line_number(line@),
{
    let a = skip_space_exec(line, 0);
    let b = skip_word_exec(line, a);
    let c = skip_space_exec(line, b);
    let d = skip_word_exec(line, c);
    let word = copy_range(line, c, d);
    match parse_u64(word.as_slice()) {
        Some(v) => v,
        None => 0,
    }
}

fn chars_start_with(s: &Vec<char>, prefix: &str) -> (r: bool)
    ensures
        r == has_prefix(s@, prefix@),
{
    let p = str_chars(prefix);
    if p.len() > s.len() {
        return false;
    }
    let mut i: usize = 0;
    while i < p.len()
        invariant
            p@ == prefix@,
            p@.len() <= s@.len(),
            i <= p@.len(),
            forall|j: int| 0 <= j < i ==> s@[j] == p@[j],
        decreases p@.len() - i,
    {
        if s[i] != p[i] {
            assert(s@.subrange(0, p@.len() as int)[i as int] != p@[i as int]);
            return false;
        }
        i = i + 1;
    }
    assert(s@.subrange(0, p@.len() as int) =~= p@);
    true
}

/// The kibibyte counts that "/proc/meminfo" text reports (see `scan_meminfo`).
pub fn meminfo_kib(text: &str) -> (r: (u64, u64))
    ensures
        r == scan_meminfo(text@, 0, 0),
{
    let s = str_chars(text);
    let mut pos: usize = 0;
    let mut total: u64 = 0;
    let mut avail: u64 = 0;
    assert(s@.skip(0) =~= s@);
    while pos < s.len()
        invariant
            s@ == text@,
            pos <= s@.len(),
            scan_meminfo(s@.skip(pos as int), total, avail) == scan_meminfo(s@, 0, 0),
        decreases s@.len() - pos,
    {
        let ghost rest = s@.skip(pos as int);
        let k = find_line_end(&s, pos);
        proof {
            lemma_line_end_bounds(s@, pos as int);
            lemma_line_end_shift(s@, pos as int, 0);
            assert(rest.take(k - pos) =~= s@.subrange(pos as int, k as int));
        }
        let line = copy_range(&s, pos, k);
        let n = line_number_exec(&line);
        if chars_start_with(&line, "MemTotal:") {
            total = n;
        } else if chars_start_with(&line, "MemAvailable:") {
            avail = n;
        }
        if k < s.len() {
            assert(rest.skip(k - pos + 1) =~= s@.skip(k + 1));
            pos = k + 1;
        } else {
            assert(s@.skip(s@.len() as int) =~= Seq::<char>::empty());
            pos = k;
        }
    }
    assert(s@.skip(pos as int) =~= Seq::<char>::empty());
    (total, avail)
}

/// The memory that "/proc/meminfo" text reports, each count divided by 1024.
pub fn parse_meminfo(text: &str) -> (r: MemoryInfo)
    ensures
        r.total_mb == scan_meminfo(text@, 0, 0).0 / 1024,
        r.available_mb == scan_meminfo(text@, 0, 0).1 / 1024,
{
    let (total, avail) = meminfo_kib(text);
    MemoryInfo { total_mb: total / 1024, available_mb: avail / 1024 }
}

/// The memory report when only the total, in bytes, is known: half of it counts as
/// available.
pub fn memory_info_from_total_bytes(total_bytes: u64) -> (r: MemoryInfo)
    ensures
        r.total_mb == total_bytes / 1048576,
        r.available_mb == (total_bytes / 2) / 1048576,
{
    MemoryInfo { total_mb: total_bytes / 1048576, available_mb: (total_bytes / 2) / 1048576 }
}

/// The end of `s.subrange(0, j)` once trailing white space is dropped.
pub open spec fn trim_end(s: Seq<char>, j: int) -> int
    decreases j,
{
    if j <= 0 || j > s.len() {
        j
    } else if is_space(s[j - 1]) {
        trim_end(s, j - 1)
    } else {
        j
    }
}

/// `s` without leading and trailing white space, as `str::trim` gives it.
pub open spec fn trimmed(s: Seq<char>) -> Seq<char> {
    let a = skip_space(s, 0);
    let b = trim_end(s, s.len() as int);
    if a < b {
        s.subrange(a, b)
    } else {
        Seq::empty()
    }
}

/// The memory report from the text that `sysctl -n hw.memsize` prints: the total in bytes,
/// surrounded by any white space. `None` when the trimmed text is no `u64`.
pub fn parse_memsize(text: &str) -> (r: Option<MemoryInfo>)
    ensures
        r == (match unsigned_value(trimmed(text@)) {
            Some(v) => if v <= u64::MAX {
                Some(
                    MemoryInfo {
                        total_mb: (v / 1048576) as u64,
                        available_mb: (v / 2 / 1048576) as u64,
                    },
                )
            } else {
                None
            },
            None => None,
        }),
{
    let s = str_chars(text);
    let n = s.len();
    let mut a: usize = 0;
    while a < n && char_is_space(s[a])
        invariant
            s@ == text@,
            n == s@.len(),
            a <= n,
            skip_space(s@, a as int) == skip_space(s@, 0),
        decreases n - a,
    {
        a = a + 1;
    }
    let mut b: usize = n;
    while b > 0 && char_is_space(s[b - 1])
        invariant
            s@ == text@,
            n == s@.len(),
            b <= n,
            trim_end(s@, b as int) == trim_end(s@, n as int),
        decreases b,
    {
        b = b - 1;
    }
    let body: Vec<char> = if a < b {
        copy_range(&s, a, b)
    } else {
        Vec::new()
    };
    assert(body@ == trimmed(text@));
    match parse_u64(body.as_slice()) {
        Some(total_bytes) => Some(memory_info_from_total_bytes(total_bytes)),
        None => None,
    }
}

/// The summary line for the error counters.
pub open spec fn error_statistics_text(camera: u32, render: u32, window: u32, config: u32) -> Seq<
    char,
> {
    "错误统计: 摄像头="@ + decimal(camera as nat) + ", 渲染="@ + decimal(render as nat)
        + ", 窗口="@ + decimal(window as nat) + ", 配置="@ + decimal(config as nat)
}

/// The warning to log about errors so far: none when every counter is zero, else the
/// summary line.
pub fn log_error_statistics(
    camera_errors: u32,
    render_errors: u32,
    window_errors: u32,
    config_errors: u32,
) -> (r: Option<String>)
    requires
        camera_errors + render_errors + window_errors + config_errors <= u32::MAX,
    ensures
        camera_errors + render_errors + window_errors + config_errors == 0 <==> r is None,
        r matches Some(m) ==> m@ == error_statistics_text(
            camera_errors,
            render_errors,
            window_errors,
            config_errors,
        ),
{
    if camera_errors + render_errors + window_errors + config_errors > 0 {
        let mut m = String::from_str("错误统计: 摄像头=");
        append_decimal(&mut m, camera_errors as u64);
        m.append(", 渲染=");
        append_decimal(&mut m, render_errors as u64);
        m.append(", 窗口=");
        append_decimal(&mut m, window_errors as u64);
        m.append(", 配置=");
        append_decimal(&mut m, config_errors as u64);
        Some(m)
    } else {
        None
    }
}

/// Sets the level up to which records pass: `log`'s global maximum level becomes `level`.
/// The request always succeeds.
pub fn set_log_level(level: LogLevel) -> (r: Result<(), String>)
    ensures
        r is Ok,
{
    apply_max_level(level);
    Ok(())
}

/// Calls `log::set_max_level` with the `log::LevelFilter` variant that has the same name as
/// `level`. The `log` crate stores it in a global that `log::max_level` reads back; a
/// global is nothing that a clause here can speak of, so nothing is claimed.
#[verifier::external_body]
fn apply_max_level(level: LogLevel) {
    log::set_max_level(
        match level {
            LogLevel::Off => log::LevelFilter::Off,
            LogLevel::Error => log::LevelFilter::Error,
            LogLevel::Warn => log::LevelFilter::Warn,
            LogLevel::Info => log::LevelFilter::Info,
            LogLevel::Debug => log::LevelFilter::Debug,
            LogLevel::Trace => log::LevelFilter::Trace,
        },
    );
}

/// Writes out whatever the installed logger holds in its buffers. Calls `flush` on
/// `log::logger()`, the logger that the `log` crate dispatches to; nothing is claimed of it.
#[verifier::external_body]
pub fn flush_logs() {
    log::Log::flush(log::logger());
}

} // verus!
