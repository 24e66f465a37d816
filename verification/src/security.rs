//! Command security policy and bearer-token rotation.
//!
//! The policy decides whether a `(command, args)` pair may run: the command's
//! file name must be on the allow-list, no argument may contain a path
//! traversal (`..`), a shell metacharacter, or a reference to a denied path.
//! The token store keeps the agent's bearer token and accepts a rotated token
//! only when it is well formed.
//!
//! Spawning the child process under the wall-clock budget and writing the
//! rotated token to disk are the caller's I/O; [`next_poll_action`] holds the
//! decision that the polling loop makes at each step.

use std::time::Duration;
use vstd::prelude::*;

use crate::text::{
    self, char_is_control, char_is_white_space, push_decimal, str_contains, str_starts_with, to_chars,
};

verus! {

/// Default wall-clock timeout applied to each external command execution.
pub const DEFAULT_EXEC_TIMEOUT_SECS: u64 = 30;

/// The `Duration` that `Duration::from_secs(secs)` builds.
pub uninterp spec fn duration_of_secs(secs: u64) -> Duration;

/// Trusted: `std::time::Duration::from_secs`.  It builds a `Duration` from
/// the number of seconds alone, so its result is named by the arguments.
pub assume_specification[ core::time::Duration::from_secs ](secs: u64) -> (d: Duration)
    ensures
        d == duration_of_secs(secs),
;

/// Trusted: `Clone` for `std::time::Duration`, a `Copy` type whose clone is
/// the same value.
pub assume_specification[ <Duration as Clone>::clone ](d: &Duration) -> (r: Duration)
    ensures
        r == *d,
;

// ---------------------------------------------------------------------------
// Errors
// ---------------------------------------------------------------------------

/// Errors produced by the security policy.
#[derive(Debug, Clone, PartialEq, Eq)]
pub enum SecurityError {
    CommandNotAllowed(String),
    EmptyCommand,
    ShellMetacharacter(String),
    DeniedPath(String),
    PathTraversal(String),
    Timeout { limit_secs: u64 },
    Spawn { cmd: String, reason: String },
    InvalidToken(String),
    Io(String),
}

/// The mathematical value of a [`SecurityError`].
pub enum SecurityErrorView {
    CommandNotAllowed(Seq<char>),
    EmptyCommand,
    ShellMetacharacter(Seq<char>),
    DeniedPath(Seq<char>),
    PathTraversal(Seq<char>),
    Timeout { limit_secs: u64 },
    Spawn { cmd: Seq<char>, reason: Seq<char> },
    InvalidToken(Seq<char>),
    Io(Seq<char>),
}

impl View for SecurityError {
    type V = SecurityErrorView;

    open spec fn view(&self) -> SecurityErrorView {
        match self {
            SecurityError::CommandNotAllowed(s) => SecurityErrorView::CommandNotAllowed(s@),
            SecurityError::EmptyCommand => SecurityErrorView::EmptyCommand,
            SecurityError::ShellMetacharacter(s) => SecurityErrorView::ShellMetacharacter(s@),
            SecurityError::DeniedPath(s) => SecurityErrorView::DeniedPath(s@),
            SecurityError::PathTraversal(s) => SecurityErrorView::PathTraversal(s@),
            SecurityError::Timeout { limit_secs } => SecurityErrorView::Timeout {
                limit_secs: *limit_secs,
            },
            SecurityError::Spawn { cmd, reason } => SecurityErrorView::Spawn {
                cmd: cmd@,
                reason: reason@,
            },
            SecurityError::InvalidToken(s) => SecurityErrorView::InvalidToken(s@),
            SecurityError::Io(s) => SecurityErrorView::Io(s@),
        }
    }
}

/// The view of a unit result.
pub open spec fn unit_result_view(r: Result<(), SecurityError>) -> Result<(), SecurityErrorView> {
    match r {
        Ok(()) => Ok(()),
        Err(e) => Err(e@),
    }
}

/// The human-readable text of an error.
pub open spec fn error_message(e: SecurityErrorView) -> Seq<char> {
    match e {
        SecurityErrorView::CommandNotAllowed(c) => "command not in whitelist: "@ + c,
        SecurityErrorView::EmptyCommand => "empty command"@,
        SecurityErrorView::ShellMetacharacter(c) => "shell metacharacter detected in command: "@ + c,
        SecurityErrorView::DeniedPath(a) => "argument references denied path: "@ + a,
        SecurityErrorView::PathTraversal(a) => "path traversal ('..') is not permitted: "@ + a,
        SecurityErrorView::Timeout { limit_secs } => "command exceeded "@ + text::decimal_seq(
            limit_secs as nat,
        ) + "s timeout"@,
        SecurityErrorView::Spawn { cmd, reason } => "failed to spawn command "@ + cmd + ": "@
            + reason,
        SecurityErrorView::InvalidToken(t) => "invalid token: "@ + t,
        SecurityErrorView::Io(m) => "io error: "@ + m,
    }
}

impl SecurityError {
    /// The human-readable text of this error.
    pub fn message(&self) -> (r: String)
        ensures
            r@ == error_message(self@),
    {
        match self {
            SecurityError::CommandNotAllowed(c) => {
                let mut m = "command not in whitelist: ".to_owned();
                m.append(c.as_str());
                m
            },
            SecurityError::EmptyCommand => "empty command".to_owned(),
            SecurityError::ShellMetacharacter(c) => {
                let mut m = "shell metacharacter detected in command: ".to_owned();
                m.append(c.as_str());
                m
            },
            SecurityError::DeniedPath(a) => {
                let mut m = "argument references denied path: ".to_owned();
                m.append(a.as_str());
                m
            },
            SecurityError::PathTraversal(a) => {
                let mut m = "path traversal ('..') is not permitted: ".to_owned();
                m.append(a.as_str());
                m
            },
            SecurityError::Timeout { limit_secs } => {
                let mut m = "command exceeded ".to_owned();
                push_decimal(&mut m, *limit_secs);
                m.append("s timeout");
                m
            },
            SecurityError::Spawn { cmd, reason } => {
                let mut m = "failed to spawn command ".to_owned();
                m.append(cmd.as_str());
                m.append(": ");
                m.append(reason.as_str());
                m
            },
            SecurityError::InvalidToken(t) => {
                let mut m = "invalid token: ".to_owned();
                m.append(t.as_str());
                m
            },
            SecurityError::Io(e) => {
                let mut m = "io error: ".to_owned();
                m.append(e.as_str());
                m
            },
        }
    }
}

/// Result of a permitted command execution.
#[derive(Debug, Clone, PartialEq, Eq)]
pub struct ExecOutput {
    pub exit_code: Option<i32>,
    pub stdout: String,
    pub stderr: String,
    pub duration_ms: u64,
}

// ---------------------------------------------------------------------------
// File names
// ---------------------------------------------------------------------------

/// The characters after the last `/` of `p`.
pub open spec fn last_segment(p: Seq<char>) -> Seq<char>
    decreases p.len(),
{
    if p.len() == 0 || p.last() == '/' {
        seq![]
    } else {
        last_segment(p.drop_last()).push(p.last())
    }
}

/// What `Path::new(p).file_name()` gives on Unix: the last component,
/// ignoring repeated and trailing `/` and `.` components; `None` when the
/// path has no component or ends in `..`.
pub open spec fn file_name(p: Seq<char>) -> Option<Seq<char>>
    decreases p.len(),
{
    if p.len() == 0 {
        None
    } else if p.last() == '/' {
        file_name(p.drop_last())
    } else if last_segment(p) == seq!['.'] {
        if p.len() == 1 {
            None
        } else {
            file_name(p.drop_last())
        }
    } else if last_segment(p) == seq!['.', '.'] {
        None
    } else {
        Some(last_segment(p))
    }
}

/// The name a command is matched by: its file name, or the whole command
/// when it has none.
pub open spec fn command_name(cmd: Seq<char>) -> Seq<char> {
    match file_name(cmd) {
        Some(n) => n,
        None => cmd,
    }
}

proof fn lemma_last_segment_suffix(p: Seq<char>)
    ensures
        last_segment(p).len() <= p.len(),
        last_segment(p) == p.subrange(p.len() - last_segment(p).len(), p.len() as int),
        forall|i: int| 0 <= i < last_segment(p).len() ==> last_segment(p)[i] != '/',
        last_segment(p).len() < p.len() ==> p[p.len() - last_segment(p).len() - 1] == '/',
    decreases p.len(),
{
    if p.len() > 0 && p.last() != '/' {
        lemma_last_segment_suffix(p.drop_last());
        let s = last_segment(p.drop_last());
        assert(last_segment(p) =~= p.subrange(p.len() - s.len() - 1, p.len() as int));
    } else {
        assert(p.subrange(p.len() as int, p.len() as int) =~= Seq::<char>::empty());
    }
}

proof fn lemma_last_segment_of_suffix(p: Seq<char>, b: int)
    requires
        0 <= b <= p.len(),
        b == 0 || p[b - 1] == '/',
        forall|i: int| b <= i < p.len() ==> p[i] != '/',
    ensures
        last_segment(p) == p.subrange(b, p.len() as int),
    decreases p.len() - b,
{
    if b < p.len() {
        lemma_last_segment_of_suffix(p.drop_last(), b);
        assert(p.drop_last().subrange(b, p.len() - 1).push(p.last()) =~= p.subrange(
            b,
            p.len() as int,
        ));
    } else {
        assert(p.subrange(b, p.len() as int) =~= Seq::<char>::empty());
    }
}

/// Bounds of `file_name(v)` inside `v`.
fn file_name_bounds(v: &Vec<char>) -> (r: Option<(usize, usize)>)
    ensures
        match r {
            Some((b, e)) => b <= e <= v.len() && file_name(v@) == Some(v@.subrange(b as int, e as int)),
            None => file_name(v@) is None,
        },
{
    let mut end = v.len();
    assert(v@.subrange(0, end as int) =~= v@);
    loop
        invariant
            end <= v.len(),
            file_name(v@) == file_name(v@.subrange(0, end as int)),
        decreases end,
    {
        let ghost p = v@.subrange(0, end as int);
        if end == 0 {
            return None;
        }
        if v[end - 1] == '/' {
            assert(p.drop_last() =~= v@.subrange(0, end - 1));
            end = end - 1;
            continue;
        }
        let mut b = end;
        while b > 0 && v[b - 1] != '/'
            invariant
                b <= end,
                end <= v.len(),
                forall|i: int| b <= i < end ==> v@[i] != '/',
            decreases b,
        {
            b = b - 1;
        }
        proof {
            lemma_last_segment_of_suffix(p, b as int);
            assert(p.subrange(b as int, end as int) =~= v@.subrange(b as int, end as int));
        }
        if end - b == 1 && v[b] == '.' {
            assert(last_segment(p) =~= seq!['.']);
            if b == 0 {
                return None;
            }
            assert(p.drop_last() =~= v@.subrange(0, end - 1));
            end = end - 1;
            continue;
        }
        if end - b == 2 && v[b] == '.' && v[b + 1] == '.' {
            assert(last_segment(p) =~= seq!['.', '.']);
            return None;
        }
        proof {
            assert(p.last() == v@[end - 1]);
            if last_segment(p) == seq!['.'] {
                assert(last_segment(p).len() == 1);
                assert(last_segment(p)[0] == v@[b as int]);
            }
            if last_segment(p) == seq!['.', '.'] {
                assert(last_segment(p).len() == 2);
                assert(last_segment(p)[0] == v@[b as int]);
                assert(last_segment(p)[1] == v@[b + 1]);
            }
        }
        return Some((b, end));
    }
}

// ---------------------------------------------------------------------------
// Argument screening
// ---------------------------------------------------------------------------

/// The shell metacharacters that are refused in commands and arguments.
pub open spec fn is_shell_metachar(c: char) -> bool {
    c == ';' || c == '&' || c == '|' || c == '`' || c == '$' || c == '<' || c == '>' || c == '\n'
        || c == '\r' || c == '\0'
}

pub open spec fn has_shell_metachar(s: Seq<char>) -> bool {
    exists|i: int| 0 <= i < s.len() && is_shell_metachar(s[i])
}

/// Whether `arg` references the denied entry `denied`.  An entry that starts
/// with `/` is an absolute prefix: `arg` must start with it.  An entry that
/// starts with `~` matches when `arg` contains it literally, or contains it
/// with `~` replaced by the home directory (when one is known), or contains
/// the part after `~` when that part starts with `/` (so `~/.ssh` catches
/// `/.ssh` under any home).  Any other entry matches anywhere in `arg`.
pub open spec fn matches_denied(arg: Seq<char>, denied: Seq<char>, home: Option<Seq<char>>) -> bool {
    if denied.len() > 0 && denied[0] == '/' {
        text::starts_with_seq(arg, denied)
    } else if denied.len() > 0 && denied[0] == '~' {
        let rest = denied.drop_first();
        ||| text::contains_seq(arg, denied)
        ||| (home matches Some(h) && text::contains_seq(arg, h + rest))
        ||| (rest.len() > 0 && rest[0] == '/' && text::contains_seq(arg, rest))
    } else {
        text::contains_seq(arg, denied)
    }
}

fn contains_shell_metacharacter(s: &str) -> (r: bool)
    ensures
        r == has_shell_metachar(s@),
{
    let v = to_chars(s);
    let mut i: usize = 0;
    while i < v.len()
        invariant
            v@ == s@,
            i <= v.len(),
            forall|k: int| 0 <= k < i ==> !is_shell_metachar(v@[k]),
        decreases v.len() - i,
    {
        let c = v[i];
        if c == ';' || c == '&' || c == '|' || c == '`' || c == '$' || c == '<' || c == '>' || c
            == '\n' || c == '\r' || c == '\0' {
            return true;
        }
        i = i + 1;
    }
    false
}

fn arg_matches_denied(arg: &str, denied: &str, home: Option<&str>) -> (r: bool)
    ensures
        r == matches_denied(
            arg@,
            denied@,
            match home {
                Some(h) => Some(h@),
                None => None,
            },
        ),
{
    let dv = to_chars(denied);
    if dv.len() > 0 && dv[0] == '/' {
        return str_starts_with(arg, denied);
    }
    if dv.len() > 0 && dv[0] == '~' {
        if str_contains(arg, denied) {
            return true;
        }
        let rest = denied.substring_char(1, dv.len());
        assert(rest@ =~= denied@.drop_first());
        if let Some(h) = home {
            let mut expanded = h.to_owned();
            expanded.append(rest);
            if str_contains(arg, expanded.as_str()) {
                return true;
            }
        }
        let rv = to_chars(rest);
        rv.len() > 0 && rv[0] == '/' && str_contains(arg, rest)
    } else {
        str_contains(arg, denied)
    }
}

// ---------------------------------------------------------------------------
// Policy
// ---------------------------------------------------------------------------

/// Security policy controlling command execution.
///
/// Constructed via [`SecurityPolicy::new`] (defaults) or the `with_*`
/// builder helpers.
#[derive(Debug, Clone)]
pub struct SecurityPolicy {
    allowed_commands: Vec<String>,
    denied_paths: Vec<String>,
    exec_timeout: Duration,
    /// Extra denied prefix (the agent's own config dir).
    config_dir: Option<String>,
    /// Home directory used to expand `~`-prefixed denied entries.
    home_dir: Option<String>,
}

/// The mathematical value of a [`SecurityPolicy`].
pub struct PolicyView {
    pub allowed: Seq<Seq<char>>,
    pub denied: Seq<Seq<char>>,
    pub timeout: Duration,
    pub config_dir: Option<Seq<char>>,
    pub home_dir: Option<Seq<char>>,
}

/// The characters of each string.
pub open spec fn strings_view(v: Seq<String>) -> Seq<Seq<char>> {
    v.map_values(|s: String| s@)
}

/// The characters of each string slice.
pub open spec fn strs_view(v: Seq<&str>) -> Seq<Seq<char>> {
    v.map_values(|s: &str| s@)
}

pub open spec fn opt_string_view(o: Option<String>) -> Option<Seq<char>> {
    match o {
        Some(s) => Some(s@),
        None => None,
    }
}

impl View for SecurityPolicy {
    type V = PolicyView;

    closed spec fn view(&self) -> PolicyView {
        PolicyView {
            allowed: strings_view(self.allowed_commands@),
            denied: strings_view(self.denied_paths@),
            timeout: self.exec_timeout,
            config_dir: opt_string_view(self.config_dir),
            home_dir: opt_string_view(self.home_dir),
        }
    }
}

/// The commands a default policy allows.
pub open spec fn default_allowed_commands() -> Seq<Seq<char>> {
    seq![
        "echo"@,
        "ls"@,
        "ps"@,
        "df"@,
        "cat"@,
        "uptime"@,
        "date"@,
        "systemctl"@,
        "service"@,
        "curl"@,
    ]
}

/// The path prefixes a default policy denies.
pub open spec fn default_denied_paths() -> Seq<Seq<char>> {
    seq![
        "/etc/shadow"@,
        "/etc/passwd"@,
        "/etc/gshadow"@,
        "/root"@,
        "/var/lib/secrets"@,
        "/.ssh"@,
        "/home/"@,
    ]
}

/// Whether the policy allows `cmd`: it is not empty and its name is on the
/// allow-list.
pub open spec fn command_allowed(p: PolicyView, cmd: Seq<char>) -> bool {
    cmd.len() > 0 && p.allowed.contains(command_name(cmd))
}

/// Whether `arg` references one of the policy's denied prefixes or its
/// config directory.
pub open spec fn arg_denied(p: PolicyView, arg: Seq<char>) -> bool {
    ||| exists|i: int| 0 <= i < p.denied.len() && matches_denied(arg, #[trigger] p.denied[i], p.home_dir)
    ||| (p.config_dir matches Some(d) && matches_denied(arg, d, p.home_dir))
}

/// What `check_arg` answers for `arg`.
pub open spec fn check_arg_spec(p: PolicyView, arg: Seq<char>) -> Result<(), SecurityErrorView> {
    if text::contains_seq(arg, ".."@) {
        Err(SecurityErrorView::PathTraversal(arg))
    } else if arg_denied(p, arg) {
        Err(SecurityErrorView::DeniedPath(arg))
    } else {
        Ok(())
    }
}

/// What the argument loop of `validate` answers: the error of the first
/// argument that fails, if any.
pub open spec fn check_args_spec(p: PolicyView, args: Seq<Seq<char>>) -> Result<(), SecurityErrorView>
    decreases args.len(),
{
    if args.len() == 0 {
        Ok(())
    } else if has_shell_metachar(args[0]) {
        Err(SecurityErrorView::ShellMetacharacter(args[0]))
    } else {
        match check_arg_spec(p, args[0]) {
            Err(e) => Err(e),
            Ok(()) => check_args_spec(p, args.drop_first()),
        }
    }
}

/// What `validate` answers for `(cmd, args)`.
pub open spec fn validate_spec(p: PolicyView, cmd: Seq<char>, args: Seq<Seq<char>>) -> Result<
    (),
    SecurityErrorView,
> {
    if cmd.len() == 0 {
        Err(SecurityErrorView::EmptyCommand)
    } else if has_shell_metachar(cmd) {
        Err(SecurityErrorView::ShellMetacharacter(cmd))
    } else if !command_allowed(p, cmd) {
        Err(SecurityErrorView::CommandNotAllowed(cmd))
    } else {
        check_args_spec(p, args)
    }
}

fn strs_to_strings(v: &[&str]) -> (r: Vec<String>)
    ensures
        strings_view(r@) == strs_view(v@),
{
    let mut r: Vec<String> = Vec::new();
    let mut i: usize = 0;
    while i < v.len()
        invariant
            i <= v.len(),
            r@.len() == i,
            forall|k: int| 0 <= k < i ==> #[trigger] r@[k]@ == v@[k]@,
        decreases v.len() - i,
    {
        r.push(v[i].to_owned());
        i = i + 1;
    }
    assert(strings_view(r@) =~= strs_view(v@));
    r
}

fn opt_str_to_string(o: Option<&str>) -> (r: Option<String>)
    ensures
        opt_string_view(r) == match o {
            Some(s) => Some(s@),
            None => None::<Seq<char>>,
        },
{
    match o {
        Some(s) => Some(s.to_owned()),
        None => None,
    }
}

impl Default for SecurityPolicy {
    /// The default policy: a small command allow-list, the sensitive system
    /// paths denied, and a 30 second timeout.
    fn default() -> (p: Self)
        ensures
            p@.allowed == default_allowed_commands(),
            p@.denied == default_denied_paths(),
            p@.timeout == duration_of_secs(DEFAULT_EXEC_TIMEOUT_SECS),
            p@.config_dir is None,
            p@.home_dir is None,
    {
        SecurityPolicy::new()
    }
}

impl SecurityPolicy {
    /// Construct a default policy.
    pub fn new() -> (p: Self)
        ensures
            p@.allowed == default_allowed_commands(),
            p@.denied == default_denied_paths(),
            p@.timeout == duration_of_secs(DEFAULT_EXEC_TIMEOUT_SECS),
            p@.config_dir is None,
            p@.home_dir is None,
    {
        let allowed = strs_to_strings(
            &["echo", "ls", "ps", "df", "cat", "uptime", "date", "systemctl", "service", "curl"],
        );
        let denied = strs_to_strings(
            &[
                "/etc/shadow",
                "/etc/passwd",
                "/etc/gshadow",
                "/root",
                "/var/lib/secrets",
                "/.ssh",
                "/home/",
            ],
        );
        let p = SecurityPolicy {
            allowed_commands: allowed,
            denied_paths: denied,
            exec_timeout: Duration::from_secs(DEFAULT_EXEC_TIMEOUT_SECS),
            config_dir: None,
            home_dir: None,
        };
        assert(p@.allowed =~= default_allowed_commands());
        assert(p@.denied =~= default_denied_paths());
        p
    }

    /// Override the set of allowed commands.
    pub fn with_allowed_commands(self, cmds: &[&str]) -> (p: Self)
        ensures
            p@ == (PolicyView { allowed: strs_view(cmds@), ..self@ }),
    {
        SecurityPolicy { allowed_commands: strs_to_strings(cmds), ..self }
    }

    /// Override the set of denied path prefixes.
    pub fn with_denied_paths(self, paths: &[&str]) -> (p: Self)
        ensures
            p@ == (PolicyView { denied: strs_view(paths@), ..self@ }),
    {
        SecurityPolicy { denied_paths: strs_to_strings(paths), ..self }
    }

    /// Override the per-command wall-clock timeout.
    pub fn with_timeout(self, timeout: Duration) -> (p: Self)
        ensures
            p@ == (PolicyView { timeout: timeout, ..self@ }),
    {
        SecurityPolicy { exec_timeout: timeout, ..self }
    }

    /// Treat the given directory as denied (typically the agent's own config
    /// dir, so that `cat` cannot read the stored token).
    pub fn with_config_dir(self, dir: &str) -> (p: Self)
        ensures
            p@ == (PolicyView { config_dir: Some(dir@), ..self@ }),
    {
        SecurityPolicy { config_dir: Some(dir.to_owned()), ..self }
    }

    /// Set the home directory that `~`-prefixed denied entries expand to
    /// (the value of `$HOME` where the agent runs; `None` when it is unset).
    pub fn with_home_dir(self, home: Option<&str>) -> (p: Self)
        ensures
            p@ == (PolicyView {
                home_dir: match home {
                    Some(h) => Some(h@),
                    None => None,
                },
                ..self@
            }),
    {
        SecurityPolicy { home_dir: opt_str_to_string(home), ..self }
    }

    pub fn allowed_commands(&self) -> (r: &[String])
        ensures
            strings_view(r@) == self@.allowed,
    {
        self.allowed_commands.as_slice()
    }

    pub fn denied_paths(&self) -> (r: &[String])
        ensures
            strings_view(r@) == self@.denied,
    {
        self.denied_paths.as_slice()
    }

    pub fn timeout(&self) -> (r: Duration)
        ensures
            r == self@.timeout,
    {
        self.exec_timeout
    }

    /// Check whether `command` (matched by its file name) is in the whitelist.
    pub fn is_command_allowed(&self, command: &str) -> (r: bool)
        ensures
            r == command_allowed(self@, command@),
    {
        if command.is_empty() {
            return false;
        }
        let v = to_chars(command);
        let name: String = match file_name_bounds(&v) {
            Some((b, e)) => command.substring_char(b, e).to_owned(),
            None => command.to_owned(),
        };
        assert(name@ == command_name(command@));
        let mut i: usize = 0;
        while i < self.allowed_commands.len()
            invariant
                i <= self.allowed_commands.len(),
                name@ == command_name(command@),
                command@.len() > 0,
                forall|k: int| 0 <= k < i ==> self.allowed_commands@[k]@ != name@,
            decreases self.allowed_commands.len() - i,
        {
            if self.allowed_commands[i] == name {
                assert(self@.allowed[i as int] == name@);
                assert(self@.allowed.contains(name@));
                return true;
            }
            i = i + 1;
        }
        assert(!self@.allowed.contains(name@)) by {
            if self@.allowed.contains(name@) {
                let k = choose|k: int| 0 <= k < self@.allowed.len() && self@.allowed[k] == name@;
                assert(self.allowed_commands@[k]@ == name@);
            }
        }
        false
    }

    fn arg_is_denied(&self, arg: &str) -> (r: bool)
        ensures
            r == arg_denied(self@, arg@),
    {
        let home: Option<&str> = match &self.home_dir {
            Some(h) => Some(h.as_str()),
            None => None,
        };
        let ghost hv = self@.home_dir;
        assert(hv == match home {
            Some(h) => Some(h@),
            None => None::<Seq<char>>,
        });
        let mut i: usize = 0;
        while i < self.denied_paths.len()
            invariant
                i <= self.denied_paths.len(),
                hv == self@.home_dir,
                hv == match home {
                    Some(h) => Some(h@),
                    None => None::<Seq<char>>,
                },
                forall|k: int|
                    0 <= k < i ==> !matches_denied(arg@, #[trigger] self@.denied[k], hv),
            decreases self.denied_paths.len() - i,
        {
            if arg_matches_denied(arg, self.denied_paths[i].as_str(), home) {
                assert(matches_denied(arg@, self@.denied[i as int], hv));
                return true;
            }
            i = i + 1;
        }
        if let Some(dir) = &self.config_dir {
            if arg_matches_denied(arg, dir.as_str(), home) {
                return true;
            }
        }
        false
    }

    /// Reject any argument that references a denied path or contains a
    /// path-traversal (`..`) component.
    pub fn check_arg(&self, arg: &str) -> (r: Result<(), SecurityError>)
        ensures
            unit_result_view(r) == check_arg_spec(self@, arg@),
    {
        if str_contains(arg, "..") {
            return Err(SecurityError::PathTraversal(arg.to_owned()));
        }
        if self.arg_is_denied(arg) {
            return Err(SecurityError::DeniedPath(arg.to_owned()));
        }
        Ok(())
    }

    /// Validate a `(command, args)` pair against the policy.
    pub fn validate(&self, command: &str, args: &[&str]) -> (r: Result<(), SecurityError>)
        ensures
            unit_result_view(r) == validate_spec(self@, command@, strs_view(args@)),
    {
        if command.is_empty() {
            return Err(SecurityError::EmptyCommand);
        }
        if contains_shell_metacharacter(command) {
            return Err(SecurityError::ShellMetacharacter(command.to_owned()));
        }
        if !self.is_command_allowed(command) {
            return Err(SecurityError::CommandNotAllowed(command.to_owned()));
        }
        let ghost all = strs_view(args@);
        let mut i: usize = 0;
        assert(all.skip(0) =~= all);
        while i < args.len()
            invariant
                i <= args.len(),
                all == strs_view(args@),
                validate_spec(self@, command@, all) == check_args_spec(self@, all),
                check_args_spec(self@, all) == check_args_spec(self@, all.skip(i as int)),
            decreases args.len() - i,
        {
            let a = args[i];
            let ghost rest = all.skip(i as int);
            assert(rest[0] == a@);
            if contains_shell_metacharacter(a) {
                return Err(SecurityError::ShellMetacharacter(a.to_owned()));
            }
            match self.check_arg(a) {
                Err(e) => {
                    return Err(e);
                },
                Ok(()) => {},
            }
            assert(rest.drop_first() =~= all.skip(i + 1));
            i = i + 1;
        }
        assert(all.skip(i as int) =~= Seq::<Seq<char>>::empty());
        Ok(())
    }
}


// ---------------------------------------------------------------------------
// Run plans
// ---------------------------------------------------------------------------

/// A command that the policy has accepted, with the wall-clock budget it
/// runs under.  Only [`SecurityPolicy::prepare_run`] makes one, so every plan
/// that is executed has passed validation.
#[derive(Debug)]
pub struct RunPlan {
    command: String,
    args: Vec<String>,
    timeout: Duration,
}

impl RunPlan {
    pub closed spec fn command_view(&self) -> Seq<char> {
        self.command@
    }

    pub closed spec fn args_view(&self) -> Seq<Seq<char>> {
        strings_view(self.args@)
    }

    pub closed spec fn timeout_view(&self) -> Duration {
        self.timeout
    }

    /// The program to start.
    pub fn command(&self) -> (r: &str)
        ensures
            r@ == self.command_view(),
    {
        self.command.as_str()
    }

    /// Its arguments.
    pub fn args(&self) -> (r: &[String])
        ensures
            strings_view(r@) == self.args_view(),
    {
        self.args.as_slice()
    }

    /// The wall-clock budget.
    pub fn timeout(&self) -> (r: Duration)
        ensures
            r == self.timeout_view(),
    {
        self.timeout
    }
}

impl SecurityPolicy {
    /// Validate `(command, args)` and, when the policy accepts it, return the
    /// plan that runs it under the policy's timeout.  Starting the process
    /// and enforcing the budget (see [`next_poll_action`]) is the caller's I/O.
    pub fn prepare_run(&self, command: &str, args: &[&str]) -> (r: Result<RunPlan, SecurityError>)
        ensures
            match r {
                Ok(plan) => {
                    &&& validate_spec(self@, command@, strs_view(args@)) is Ok
                    &&& plan.command_view() == command@
                    &&& plan.args_view() == strs_view(args@)
                    &&& plan.timeout_view() == self@.timeout
                },
                Err(e) => validate_spec(self@, command@, strs_view(args@)) == Err::<
                    (),
                    SecurityErrorView,
                >(e@),
            },
    {
        match self.validate(command, args) {
            Err(e) => Err(e),
            Ok(()) => Ok(
                RunPlan {
                    command: command.to_owned(),
                    args: strs_to_strings(args),
                    timeout: self.exec_timeout,
                },
            ),
        }
    }
}

// ---------------------------------------------------------------------------
// Timeout enforcement
// ---------------------------------------------------------------------------

/// What polling the child process reported.
pub enum PollStatus {
    /// The child has exited with this code (`None` when killed by a signal).
    Exited { exit_code: Option<i32> },
    /// The child is still running.
    Running,
    /// Polling the child failed.
    WaitFailed,
}

/// What the polling loop does next.
#[derive(Debug, PartialEq, Eq)]
pub enum PollAction {
    /// Collect the child's output and report this exit code.
    Finish { exit_code: Option<i32> },
    /// The budget is spent: kill and reap the child, report a timeout.
    KillTimedOut,
    /// Sleep one poll interval, then poll again.
    Sleep,
    /// Report the polling failure.
    Abort,
}

/// One step of the wall-clock enforcement loop: given what the last poll
/// reported and how long the child has run, decide what to do.
pub fn next_poll_action(status: &PollStatus, elapsed_nanos: u128, timeout_nanos: u128) -> (a:
    PollAction)
    ensures
        match *status {
            PollStatus::Exited { exit_code } => a == (PollAction::Finish { exit_code }),
            PollStatus::Running => if elapsed_nanos >= timeout_nanos {
                a == PollAction::KillTimedOut
            } else {
                a == PollAction::Sleep
            },
            PollStatus::WaitFailed => a == PollAction::Abort,
        },
{
    match status {
        PollStatus::Exited { exit_code } => PollAction::Finish { exit_code: *exit_code },
        PollStatus::Running => {
            if elapsed_nanos >= timeout_nanos {
                PollAction::KillTimedOut
            } else {
                PollAction::Sleep
            }
        },
        PollStatus::WaitFailed => PollAction::Abort,
    }
}

// ---------------------------------------------------------------------------
// Token rotation
// ---------------------------------------------------------------------------

/// Whether some character of `t` is white space or a control character.
pub open spec fn has_space_or_control(t: Seq<char>) -> bool {
    exists|i: int| 0 <= i < t.len() && (text::is_white_space(t[i]) || text::is_control_char(t[i]))
}

/// What `validate_token_format` answers: tokens must be 8 to 4096 bytes of
/// UTF-8 without white space or control characters.
pub open spec fn token_format_spec(t: Seq<char>) -> Result<(), SecurityErrorView> {
    if t.len() == 0 {
        Err(SecurityErrorView::InvalidToken("token is empty"@))
    } else if vstd::utf8::encode_utf8(t).len() < 8 {
        Err(SecurityErrorView::InvalidToken("token too short (min 8 chars)"@))
    } else if vstd::utf8::encode_utf8(t).len() > 4096 {
        Err(SecurityErrorView::InvalidToken("token too long (max 4096 chars)"@))
    } else if has_space_or_control(t) {
        Err(SecurityErrorView::InvalidToken("token contains whitespace or control characters"@))
    } else {
        Ok(())
    }
}

/// Basic structural checks for tokens. Rejects empty strings, tokens with
/// whitespace / control chars, and absurdly long values.
pub fn validate_token_format(token: &str) -> (r: Result<(), SecurityError>)
    ensures
        unit_result_view(r) == token_format_spec(token@),
{
    if token.is_empty() {
        return Err(SecurityError::InvalidToken("token is empty".to_owned()));
    }
    let byte_len = token.as_bytes().len();
    assert(byte_len == vstd::utf8::encode_utf8(token@).len());
    if byte_len < 8 {
        return Err(SecurityError::InvalidToken("token too short (min 8 chars)".to_owned()));
    }
    if byte_len > 4096 {
        return Err(SecurityError::InvalidToken("token too long (max 4096 chars)".to_owned()));
    }
    let v = to_chars(token);
    let mut i: usize = 0;
    while i < v.len()
        invariant
            v@ == token@,
            token@.len() > 0,
            8 <= vstd::utf8::encode_utf8(token@).len() <= 4096,
            i <= v.len(),
            forall|k: int| 0 <= k < i ==> !(text::is_white_space(v@[k]) || text::is_control_char(v@[k])),
        decreases v.len() - i,
    {
        if char_is_white_space(v[i]) || char_is_control(v[i]) {
            return Err(
                SecurityError::InvalidToken(
                    "token contains whitespace or control characters".to_owned(),
                ),
            );
        }
        i = i + 1;
    }
    Ok(())
}

/// The agent's current bearer token, with the optional path that rotations
/// are written through to.
///
/// A store is one owned value and cannot be cloned: every rotation goes
/// through the one `&mut` handle, and callers that hand the token to several
/// tasks share that single store themselves (behind a lock), so a rotation
/// made by any of them is seen by all.
#[derive(Debug)]
pub struct TokenStore {
    token: String,
    persist_path: Option<String>,
}

/// The mathematical value of a [`TokenStore`].
pub struct TokenStoreView {
    pub token: Seq<char>,
    pub persist_path: Option<Seq<char>>,
}

impl View for TokenStore {
    type V = TokenStoreView;

    closed spec fn view(&self) -> TokenStoreView {
        TokenStoreView { token: self.token@, persist_path: opt_string_view(self.persist_path) }
    }
}

/// The view of a boolean result.
pub open spec fn bool_result_view(r: Result<bool, SecurityError>) -> Result<bool, SecurityErrorView> {
    match r {
        Ok(b) => Ok(b),
        Err(e) => Err(e@),
    }
}

/// What rotating the store `s` to `t` gives: the new store and the answer.
pub open spec fn rotate_spec(s: TokenStoreView, t: Seq<char>) -> (TokenStoreView, Result<(), SecurityErrorView>) {
    match token_format_spec(t) {
        Ok(()) => (TokenStoreView { token: t, ..s }, Ok(())),
        Err(e) => (s, Err(e)),
    }
}

/// What `maybe_rotate` gives: a present, non-empty token that differs from
/// the current one is rotated to; anything else leaves the store alone.
pub open spec fn maybe_rotate_spec(s: TokenStoreView, t: Option<Seq<char>>) -> (TokenStoreView, Result<bool, SecurityErrorView>) {
    match t {
        Some(tok) => if tok.len() == 0 || tok == s.token {
            (s, Ok(false))
        } else {
            match rotate_spec(s, tok).1 {
                Ok(()) => (rotate_spec(s, tok).0, Ok(true)),
                Err(e) => (s, Err(e)),
            }
        },
        None => (s, Ok(false)),
    }
}

impl TokenStore {
    /// Create a store with an initial token (may be empty).
    pub fn new(initial: &str) -> (s: Self)
        ensures
            s@ == (TokenStoreView { token: initial@, persist_path: None }),
    {
        TokenStore { token: initial.to_owned(), persist_path: None }
    }

    /// Create a store whose rotations are also written to `path`.
    pub fn with_persist_path(initial: &str, path: &str) -> (s: Self)
        ensures
            s@ == (TokenStoreView { token: initial@, persist_path: Some(path@) }),
    {
        TokenStore { token: initial.to_owned(), persist_path: Some(path.to_owned()) }
    }

    /// Return a copy of the current token.
    pub fn current(&self) -> (r: String)
        ensures
            r@ == self@.token,
    {
        self.token.clone()
    }

    /// True if the current token is empty.
    pub fn is_empty(&self) -> (r: bool)
        ensures
            r == (self@.token.len() == 0),
    {
        self.token.as_str().is_empty()
    }

    /// The path that rotations are written through to, if any.
    pub fn persist_path(&self) -> (r: Option<String>)
        ensures
            opt_string_view(r) == self@.persist_path,
    {
        match &self.persist_path {
            Some(p) => Some(p.clone()),
            None => None,
        }
    }

    /// Rotate to a new token: validate its format and, when it is well
    /// formed, make it the current token.  Writing it to the persist path is
    /// the caller's I/O.
    pub fn rotate(&mut self, new_token: &str) -> (r: Result<(), SecurityError>)
        ensures
            final(self)@ == rotate_spec(old(self)@, new_token@).0,
            unit_result_view(r) == rotate_spec(old(self)@, new_token@).1,
    {
        match validate_token_format(new_token) {
            Err(e) => Err(e),
            Ok(()) => {
                self.token = new_token.to_owned();
                Ok(())
            },
        }
    }

    /// Apply a rotation if the provided optional token is `Some`.
    /// Returns true if a rotation actually occurred.
    pub fn maybe_rotate(&mut self, new_token: Option<&str>) -> (r: Result<bool, SecurityError>)
        ensures
            (final(self)@, bool_result_view(r)) == maybe_rotate_spec(
                old(self)@,
                match new_token {
                    Some(t) => Some(t@),
                    None => None,
                },
            ),
    {
        match new_token {
            Some(t) => {
                if t.is_empty() {
                    return Ok(false);
                }
                let candidate = t.to_owned();
                if candidate == self.token {
                    return Ok(false);
                }
                match self.rotate(t) {
                    Ok(()) => Ok(true),
                    Err(e) => Err(e),
                }
            },
            None => Ok(false),
        }
    }
}

// ---------------------------------------------------------------------------
// Laws
// ---------------------------------------------------------------------------

/// Every argument that passes the argument loop of `validate` is free of
/// shell metacharacters, of `..`, and of references to denied paths.
proof fn lemma_checked_args_are_screened(p: PolicyView, args: Seq<Seq<char>>)
    requires
        check_args_spec(p, args) is Ok,
    ensures
        forall|i: int|
            0 <= i < args.len() ==> {
                &&& !has_shell_metachar(#[trigger] args[i])
                &&& !text::contains_seq(args[i], ".."@)
                &&& !arg_denied(p, args[i])
            },
    decreases args.len(),
{
    if args.len() > 0 {
        lemma_checked_args_are_screened(p, args.drop_first());
        assert forall|i: int| 0 <= i < args.len() implies {
            &&& !has_shell_metachar(#[trigger] args[i])
            &&& !text::contains_seq(args[i], ".."@)
            &&& !arg_denied(p, args[i])
        } by {
            if i > 0 {
                assert(args[i] == args.drop_first()[i - 1]);
            }
        }
    }
}

/// A call that the policy accepts runs an allow-listed command, and neither
/// the command nor any argument holds a shell metacharacter; no argument
/// holds `..` or references a denied path or the config directory.
pub proof fn lemma_accepted_call_is_screened(p: PolicyView, cmd: Seq<char>, args: Seq<Seq<char>>)
    requires
        validate_spec(p, cmd, args) is Ok,
    ensures
        command_allowed(p, cmd),
        !has_shell_metachar(cmd),
        forall|i: int|
            0 <= i < args.len() ==> {
                &&& !has_shell_metachar(#[trigger] args[i])
                &&& !text::contains_seq(args[i], ".."@)
                &&& !arg_denied(p, args[i])
            },
{
    lemma_checked_args_are_screened(p, args);
}

/// A plain file name: not empty, without `/`, and neither `.` nor `..`.
pub open spec fn is_plain_file_name(name: Seq<char>) -> bool {
    &&& name.len() > 0
    &&& forall|i: int| 0 <= i < name.len() ==> name[i] != '/'
    &&& name != seq!['.']
    &&& name != seq!['.', '.']
}

proof fn lemma_file_name_of_plain_suffix(path: Seq<char>, name: Seq<char>)
    requires
        is_plain_file_name(name),
        path.len() >= name.len(),
        path.subrange(path.len() - name.len(), path.len() as int) == name,
        path.len() == name.len() || path[path.len() - name.len() - 1] == '/',
    ensures
        file_name(path) == Some(name),
{
    let b = path.len() - name.len();
    assert forall|i: int| b <= i < path.len() implies path[i] != '/' by {
        assert(path[i] == name[i - b]);
    }
    lemma_last_segment_of_suffix(path, b);
    assert(path.last() == name.last());
}

/// Commands are matched by file name only: a directory in front of a plain
/// file name changes nothing about whether the command is allowed.
pub proof fn lemma_allowed_by_file_name(p: PolicyView, dir: Seq<char>, name: Seq<char>)
    requires
        is_plain_file_name(name),
    ensures
        command_allowed(p, dir + seq!['/'] + name) == command_allowed(p, name),
{
    let path = dir + seq!['/'] + name;
    assert(path.subrange(path.len() - name.len(), path.len() as int) =~= name);
    assert(path[path.len() - name.len() - 1] == '/');
    lemma_file_name_of_plain_suffix(path, name);
    assert(name.subrange(0, name.len() as int) =~= name);
    lemma_file_name_of_plain_suffix(name, name);
}

/// A command given by a plain name, bare or behind any directory, is allowed
/// exactly when that name is itself an entry of the allow-list: an entry that
/// is only a prefix or a part of the name (`ps` for `psql`) does not count.
pub proof fn lemma_plain_command_allowed_iff_listed(p: PolicyView, dir: Seq<char>, name: Seq<char>)
    requires
        is_plain_file_name(name),
    ensures
        command_allowed(p, name) == p.allowed.contains(name),
        command_allowed(p, dir + seq!['/'] + name) == p.allowed.contains(name),
{
    assert(name.subrange(0, name.len() as int) =~= name);
    lemma_file_name_of_plain_suffix(name, name);
    lemma_allowed_by_file_name(p, dir, name);
}

/// Whatever the command, an allowed one has a non-empty name that equals an
/// allow-list entry character for character.
pub proof fn lemma_allowed_command_is_listed(p: PolicyView, cmd: Seq<char>)
    requires
        command_allowed(p, cmd),
    ensures
        cmd.len() > 0,
        exists|j: int| 0 <= j < p.allowed.len() && p.allowed[j] == command_name(cmd),
{
}

/// A denied entry that starts with `/` refuses exactly the arguments that
/// begin with it, whatever the home directory: `/etc/shadow` refuses
/// `/etc/shadow/x` but not `/etc` or `/tmp/etc/shadow`.
pub proof fn lemma_absolute_entry_is_prefix(arg: Seq<char>, d: Seq<char>, home: Option<Seq<char>>)
    requires
        d.len() > 0,
        d[0] == '/',
    ensures
        matches_denied(arg, d, home) <==> (d.len() <= arg.len() && arg.subrange(0, d.len() as int)
            == d),
{
}

/// `..` occurs in `arg` exactly when two consecutive characters are dots.
proof fn lemma_dot_dot(arg: Seq<char>)
    ensures
        text::contains_seq(arg, ".."@) <==> exists|i: int|
            #![trigger arg[i]]
            0 <= i && i + 1 < arg.len() && arg[i] == '.' && arg[i + 1] == '.',
{
    reveal_strlit("..");
    if text::contains_seq(arg, ".."@) {
        let i = choose|i: int| text::occurs_at(arg, ".."@, i);
        assert(arg.subrange(i, i + 2)[0] == arg[i]);
        assert(arg.subrange(i, i + 2)[1] == arg[i + 1]);
    }
    if exists|i: int| #![trigger arg[i]] 0 <= i && i + 1 < arg.len() && arg[i] == '.' && arg[i + 1] == '.' {
        let i = choose|i: int| #![trigger arg[i]] 0 <= i && i + 1 < arg.len() && arg[i] == '.' && arg[i + 1] == '.';
        assert(arg.subrange(i, i + 2) =~= ".."@);
        assert(text::occurs_at(arg, ".."@, i));
    }
}

/// Under a policy whose denied entries and config directory are all
/// absolute, an argument is accepted exactly when it holds no two
/// consecutive dots and begins with none of those entries.  So `/etc` is
/// accepted under the default policy although `/etc/shadow` is denied.
pub proof fn lemma_check_arg_under_absolute_entries(p: PolicyView, arg: Seq<char>)
    requires
        forall|j: int|
            #![trigger p.denied[j]]
            0 <= j < p.denied.len() ==> p.denied[j].len() > 0 && p.denied[j][0] == '/',
        p.config_dir matches Some(d) ==> d.len() > 0 && d[0] == '/',
    ensures
        (check_arg_spec(p, arg) is Ok) <==> {
            &&& !exists|i: int|
                #![trigger arg[i]]
                0 <= i && i + 1 < arg.len() && arg[i] == '.' && arg[i + 1] == '.'
            &&& forall|j: int|
                0 <= j < p.denied.len() ==> !(p.denied[j].len() <= arg.len() && arg.subrange(
                    0,
                    p.denied[j].len() as int,
                ) == #[trigger] p.denied[j])
            &&& (p.config_dir matches Some(d) ==> !(d.len() <= arg.len() && arg.subrange(
                0,
                d.len() as int,
            ) == d))
        },
{
    lemma_dot_dot(arg);
    assert forall|j: int| 0 <= j < p.denied.len() implies matches_denied(arg, #[trigger] p.denied[j], p.home_dir)
        == (p.denied[j].len() <= arg.len() && arg.subrange(0, p.denied[j].len() as int) == p.denied[j]) by {
        lemma_absolute_entry_is_prefix(arg, p.denied[j], p.home_dir);
    }
    if let Some(d) = p.config_dir {
        lemma_absolute_entry_is_prefix(arg, d, p.home_dir);
    }
}

/// `q` is at least as strict as `p`: it allows no more commands and denies
/// every prefix that `p` denies, with the same config dir and home.
pub open spec fn at_least_as_strict(q: PolicyView, p: PolicyView) -> bool {
    &&& forall|c: Seq<char>| q.allowed.contains(c) ==> p.allowed.contains(c)
    &&& forall|d: Seq<char>| p.denied.contains(d) ==> q.denied.contains(d)
    &&& q.config_dir == p.config_dir
    &&& q.home_dir == p.home_dir
}

proof fn lemma_stricter_accepts_args(q: PolicyView, p: PolicyView, args: Seq<Seq<char>>)
    requires
        at_least_as_strict(q, p),
        check_args_spec(q, args) is Ok,
    ensures
        check_args_spec(p, args) is Ok,
    decreases args.len(),
{
    if args.len() > 0 {
        let a = args[0];
        if arg_denied(p, a) {
            if exists|i: int| 0 <= i < p.denied.len() && matches_denied(a, #[trigger] p.denied[i], p.home_dir) {
                let i = choose|i: int| 0 <= i < p.denied.len() && matches_denied(a, #[trigger] p.denied[i], p.home_dir);
                assert(p.denied.contains(p.denied[i]));
                assert(q.denied.contains(p.denied[i]));
                let j = choose|j: int| 0 <= j < q.denied.len() && q.denied[j] == p.denied[i];
                assert(matches_denied(a, q.denied[j], q.home_dir));
            }
            assert(arg_denied(q, a));
        }
        lemma_stricter_accepts_args(q, p, args.drop_first());
    }
}

/// Tightening a policy (fewer allowed commands, more denied prefixes) never
/// admits a call that the looser policy refuses.
pub proof fn lemma_stricter_policy_accepts_less(q: PolicyView, p: PolicyView, cmd: Seq<char>, args: Seq<Seq<char>>)
    requires
        at_least_as_strict(q, p),
        validate_spec(q, cmd, args) is Ok,
    ensures
        validate_spec(p, cmd, args) is Ok,
{
    lemma_stricter_accepts_args(q, p, args);
}

/// A token the store accepts is never empty, so the store is not empty after
/// a successful rotation.
pub proof fn lemma_accepted_token_not_empty(s: TokenStoreView, t: Seq<char>)
    requires
        rotate_spec(s, t).1 is Ok,
    ensures
        rotate_spec(s, t).0.token == t,
        t.len() > 0,
{
}

/// Rotation is idempotent: once `maybe_rotate(Some(t))` has succeeded, the
/// store holds `t`, and offering `t` again is a no-op that reports `false`.
pub proof fn lemma_maybe_rotate_idempotent(s: TokenStoreView, t: Seq<char>)
    requires
        maybe_rotate_spec(s, Some(t)).1 is Ok,
        t.len() > 0,
    ensures
        maybe_rotate_spec(s, Some(t)).0.token == t,
        maybe_rotate_spec(maybe_rotate_spec(s, Some(t)).0, Some(t)) == (
        maybe_rotate_spec(s, Some(t)).0,
        Ok::<bool, SecurityErrorView>(false),
        ),
{
}

/// The store only ever switches to a well-formed token: whenever a rotation
/// changes the token, the new token passes `validate_token_format`.
pub proof fn lemma_rotation_only_to_valid_tokens(s: TokenStoreView, t: Option<Seq<char>>)
    requires
        maybe_rotate_spec(s, t).0.token != s.token,
    ensures
        token_format_spec(maybe_rotate_spec(s, t).0.token) is Ok,
        maybe_rotate_spec(s, t).1 == Ok::<bool, SecurityErrorView>(true),
{
}

/// A refused rotation leaves the store exactly as it was.
pub proof fn lemma_refused_rotation_keeps_store(s: TokenStoreView, t: Option<Seq<char>>)
    requires
        maybe_rotate_spec(s, t).1 is Err,
    ensures
        maybe_rotate_spec(s, t).0 == s,
{
}

/// A call that may change a store's token: `rotate` with a token, or
/// `maybe_rotate` with what a heartbeat offered.
pub enum TokenCall {
    Rotate(Seq<char>),
    MaybeRotate(Option<Seq<char>>),
}

/// The store after one call.
pub open spec fn apply_token_call(s: TokenStoreView, c: TokenCall) -> TokenStoreView {
    match c {
        TokenCall::Rotate(t) => rotate_spec(s, t).0,
        TokenCall::MaybeRotate(t) => maybe_rotate_spec(s, t).0,
    }
}

/// The store after the calls, in order.
pub open spec fn apply_token_calls(s: TokenStoreView, calls: Seq<TokenCall>) -> TokenStoreView
    decreases calls.len(),
{
    if calls.len() == 0 {
        s
    } else {
        apply_token_call(apply_token_calls(s, calls.drop_last()), calls.last())
    }
}

/// The token a call offers, if any.
pub open spec fn offered_token(c: TokenCall) -> Option<Seq<char>> {
    match c {
        TokenCall::Rotate(t) => Some(t),
        TokenCall::MaybeRotate(t) => t,
    }
}

/// The last offered token that passes the format check, or `init` when no
/// call offered one.
pub open spec fn last_accepted_token(init: Seq<char>, calls: Seq<TokenCall>) -> Seq<char>
    decreases calls.len(),
{
    if calls.len() == 0 {
        init
    } else if offered_token(calls.last()) matches Some(t) && token_format_spec(t) is Ok {
        offered_token(calls.last())->0
    } else {
        last_accepted_token(init, calls.drop_last())
    }
}

/// After any sequence of `rotate` and `maybe_rotate` calls, the store holds
/// the last offered token that passed the format check, or its initial
/// token when there was none; its persist path never changes.
pub proof fn lemma_current_is_last_accepted(s: TokenStoreView, calls: Seq<TokenCall>)
    ensures
        apply_token_calls(s, calls).token == last_accepted_token(s.token, calls),
        apply_token_calls(s, calls).persist_path == s.persist_path,
    decreases calls.len(),
{
    if calls.len() > 0 {
        lemma_current_is_last_accepted(s, calls.drop_last());
    }
}

/// Text of characters below U+0080 is one UTF-8 byte per character.
proof fn lemma_ascii_utf8_len(t: Seq<char>)
    requires
        forall|i: int| 0 <= i < t.len() ==> (#[trigger] t[i] as u32) < 0x80,
    ensures
        vstd::utf8::encode_utf8(t).len() == t.len(),
    decreases t.len(),
{
    if t.len() > 0 {
        let r = t.drop_first();
        assert forall|i: int| 0 <= i < r.len() implies (#[trigger] r[i] as u32) < 0x80 by {
            assert(r[i] == t[i + 1]);
        }
        lemma_ascii_utf8_len(r);
        assert((t[0] as u32) < 0x80);
    }
}

/// An accepted token holds no control character, no space and no other
/// white space at any position, the last included, and is 8 to 4096 bytes
/// of UTF-8.  Conversely every token of 8 to 4096 printable ASCII
/// characters (`!` to `~`) is accepted.
pub proof fn lemma_token_format(t: Seq<char>)
    ensures
        token_format_spec(t) is Ok ==> {
            &&& forall|i: int|
                0 <= i < t.len() ==> {
                    &&& (#[trigger] t[i] as u32) > 0x20
                    &&& !(0x7f <= (t[i] as u32) <= 0xa0)
                    &&& !text::is_white_space(t[i])
                }
            &&& 8 <= vstd::utf8::encode_utf8(t).len() <= 4096
        },
        (8 <= t.len() <= 4096 && forall|i: int| 0 <= i < t.len() ==> 0x21 <= (#[trigger] t[i] as u32)
            <= 0x7e) ==> token_format_spec(t) is Ok,
{
    if token_format_spec(t) is Ok {
        assert forall|i: int| 0 <= i < t.len() implies {
            &&& (#[trigger] t[i] as u32) > 0x20
            &&& !(0x7f <= (t[i] as u32) <= 0xa0)
            &&& !text::is_white_space(t[i])
        } by {
            assert(!(text::is_white_space(t[i]) || text::is_control_char(t[i])));
        }
    }
    if 8 <= t.len() <= 4096 && forall|i: int| 0 <= i < t.len() ==> 0x21 <= (#[trigger] t[i] as u32) <= 0x7e {
        lemma_ascii_utf8_len(t);
        assert forall|i: int| 0 <= i < t.len() implies !(text::is_white_space(#[trigger] t[i])
            || text::is_control_char(t[i])) by {
            assert(0x21 <= (t[i] as u32) <= 0x7e);
        }
    }
}

} // verus!
