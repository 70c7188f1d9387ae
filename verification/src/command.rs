//! External commands: how they are described, what is logged of them, how a finished
//! or timed-out run is judged, and how a viewer is launched detached.
use vstd::prelude::*;

use crate::assoc::assoc_insert;
use crate::assoc::assoc_map;
use crate::assoc::keys_ascending;
use crate::assoc::pairs_view;
use crate::config::path_join;
use crate::config::join_path;
use crate::config::strings_view;
use crate::text::chars_of;
use crate::text::decimal;
use crate::text::decimal_string;
use crate::text::join_strings;
use crate::text::join_words;
use crate::text::push_char;
use crate::text::push_str;
use crate::text::trim;
use crate::text::trimmed;

verus! {

/// Writes command results to a log file.
#[derive(Debug)]
pub struct CommandRunner {
    pub log_path: String,
}

impl CommandRunner {
    pub fn new(log_path: String) -> (r: CommandRunner)
        ensures
            r.log_path == log_path,
    {
        CommandRunner { log_path }
    }
}

/// A command to run: the program, its arguments, and its time limit in seconds.
#[derive(Debug)]
pub struct CommandInvocation {
    pub program: String,
    pub args: Vec<String>,
    pub timeout_secs: u64,
}

pub open spec fn invocation_args(c: CommandInvocation) -> Seq<Seq<char>> {
    strings_view(c.args@)
}

pub open spec fn min_nat(a: nat, b: nat) -> nat {
    if a < b {
        a
    } else {
        b
    }
}

pub open spec fn strs_view(v: Seq<&str>) -> Seq<Seq<char>> {
    v.map_values(|s: &str| s@)
}

/// Owned copies of `v`.
pub fn strings_of(v: &Vec<&str>) -> (out: Vec<String>)
    ensures
        strings_view(out@) == strs_view(v@),
{
    let mut out: Vec<String> = Vec::new();
    let mut i: usize = 0;
    while i < v.len()
        invariant
            0 <= i <= v@.len(),
            strings_view(out@) == strs_view(v@).take(i as int),
        decreases v.len() - i,
    {
        let mut s = String::new();
        push_str(&mut s, v[i]);
        assert(s@ =~= v@[i as int]@);
        let ghost before = out@;
        out.push(s);
        assert(out@ == before.push(s));
        assert(strings_view(out@) =~= strings_view(before).push(s@));
        i = i + 1;
        assert(strs_view(v@).take(i as int) =~= strs_view(v@).take(i - 1).push(v@[i - 1]@));
    }
    assert(strs_view(v@).take(v@.len() as int) =~= strs_view(v@));
    out
}

// ---------------------------------------------------------------------------
// Describing and logging commands
// ---------------------------------------------------------------------------

/// What a finished command gave back.
#[derive(Debug)]
pub struct CommandResult {
    pub command: Vec<String>,
    pub exit_code: Option<i32>,
    pub stdout: String,
    pub stderr: String,
    pub duration_ms: u64,
}

/// The program followed by its arguments.
pub fn command_vec(program: &str, args: &Vec<String>) -> (c: Vec<String>)
    ensures
        strings_view(c@) == seq![program@] + strings_view(args@),
{
    let mut c: Vec<String> = Vec::new();
    let mut p = String::new();
    push_str(&mut p, program);
    c.push(p);
    let mut i: usize = 0;
    while i < args.len()
        invariant
            0 <= i <= args@.len(),
            strings_view(c@) == seq![program@] + strings_view(args@).take(i as int),
        decreases args.len() - i,
    {
        let mut a = String::new();
        push_str(&mut a, args[i].as_str());
        let ghost before = c@;
        c.push(a);
        assert(strings_view(c@) =~= strings_view(before).push(args@[i as int]@));
        i = i + 1;
        assert(strings_view(args@).take(i as int) =~= strings_view(args@).take(i - 1).push(args@[i - 1]@));
        assert(seq![program@] + strings_view(args@).take(i as int) =~= (seq![program@] + strings_view(args@).take(i - 1)).push(args@[i - 1]@));
    }
    assert(strings_view(args@).take(args@.len() as int) =~= strings_view(args@));
    c
}

/// The command as one line: its words joined with spaces.
pub fn display_command(command: &Vec<String>) -> (s: String)
    ensures
        s@ == join_words(strings_view(command@), " "@),
{
    let s = join_strings(command, 0, command.len(), " ");
    assert(strings_view(command@).subrange(0, command@.len() as int) =~= strings_view(command@));
    s
}

/// `": " + stderr` (trimmed), or nothing when stderr is blank.
pub open spec fn spec_stderr_suffix(stderr: Seq<char>) -> Seq<char> {
    if trim(stderr).len() == 0 {
        Seq::empty()
    } else {
        ": "@ + trim(stderr)
    }
}

pub fn stderr_suffix(stderr: &str) -> (s: String)
    ensures
        s@ == spec_stderr_suffix(stderr@),
{
    let v = chars_of(stderr);
    let t = trimmed(&v);
    let mut s = String::new();
    if t.len() > 0 {
        push_str(&mut s, ": ");
        crate::text::push_chars(&mut s, &t, 0, t.len());
        assert(t@.subrange(0, t@.len() as int) =~= t@);
    }
    s
}

/// How one character is written into a quoted log value.
pub open spec fn log_escape(c: char) -> Seq<char> {
    if c == '\\' {
        seq!['\\', '\\']
    } else if c == '"' {
        seq!['\\', '"']
    } else if c == '\n' {
        seq!['\\', 'n']
    } else {
        seq![c]
    }
}

/// `value` with backslashes, double quotes and newlines escaped.
pub open spec fn spec_sanitize(value: Seq<char>) -> Seq<char>
    decreases value.len(),
{
    if value.len() == 0 {
        Seq::empty()
    } else {
        spec_sanitize(value.drop_last()) + log_escape(value.last())
    }
}

pub fn sanitize_log_value(value: &str) -> (s: String)
    ensures
        s@ == spec_sanitize(value@),
{
    let v = chars_of(value);
    let mut s = String::new();
    let mut i: usize = 0;
    while i < v.len()
        invariant
            0 <= i <= v@.len(),
            s@ == spec_sanitize(v@.take(i as int)),
        decreases v.len() - i,
    {
        let c = v[i];
        if c == '\\' {
            push_char(&mut s, '\\');
            push_char(&mut s, '\\');
        } else if c == '"' {
            push_char(&mut s, '\\');
            push_char(&mut s, '"');
        } else if c == '\n' {
            push_char(&mut s, '\\');
            push_char(&mut s, 'n');
        } else {
            push_char(&mut s, c);
        }
        assert(v@.take(i + 1).drop_last() =~= v@.take(i as int));
        i = i + 1;
        assert(s@ =~= spec_sanitize(v@.take(i as int)));
    }
    assert(v@.take(v@.len() as int) =~= v@);
    s
}

/// A sanitized value holds no line break: each log record stays on one line.
pub proof fn lemma_sanitize_has_no_newline(value: Seq<char>)
    ensures
        forall|k: int| 0 <= k < spec_sanitize(value).len() ==> #[trigger] spec_sanitize(value)[k] != '\n',
    decreases value.len(),
{
    if value.len() > 0 {
        lemma_sanitize_has_no_newline(value.drop_last());
        let p = spec_sanitize(value.drop_last());
        let e = log_escape(value.last());
        assert forall|k: int| 0 <= k < spec_sanitize(value).len() implies #[trigger] spec_sanitize(value)[k] != '\n' by {
            if k < p.len() {
                assert(spec_sanitize(value)[k] == p[k]);
            } else {
                assert(spec_sanitize(value)[k] == e[k - p.len()]);
            }
        }
    }
}

/// A signed integer in decimal, as `Display` writes it.
pub open spec fn signed_decimal(i: int) -> Seq<char> {
    if i < 0 {
        "-"@ + decimal((-i) as nat)
    } else {
        decimal(i as nat)
    }
}

pub fn signed_decimal_string(i: i32) -> (s: String)
    ensures
        s@ == signed_decimal(i as int),
{
    if i < 0 {
        let m = (0i64 - i as i64) as u64;
        let mut s = String::new();
        push_str(&mut s, "-");
        let d = decimal_string(m);
        push_str(&mut s, d.as_str());
        s
    } else {
        decimal_string(i as u64)
    }
}

/// An optional exit code as `{:?}` writes it: `Some(n)` or `None`.
pub open spec fn debug_exit_code(code: Option<i32>) -> Seq<char> {
    match code {
        Some(c) => "Some("@ + signed_decimal(c as int) + ")"@,
        None => "None"@,
    }
}

fn debug_exit_code_string(code: Option<i32>) -> (s: String)
    ensures
        s@ == debug_exit_code(code),
{
    let mut s = String::new();
    match code {
        Some(c) => {
            push_str(&mut s, "Some(");
            let d = signed_decimal_string(c);
            push_str(&mut s, d.as_str());
            push_str(&mut s, ")");
        },
        None => {
            push_str(&mut s, "None");
        },
    }
    s
}

pub open spec fn bool_text(b: bool) -> Seq<char> {
    if b {
        "true"@
    } else {
        "false"@
    }
}

/// The log record of a finished (or timed-out) command, written at `timestamp`
/// (seconds since the Unix epoch).
pub open spec fn spec_result_log_line(
    timestamp: nat,
    timeout: bool,
    command: Seq<Seq<char>>,
    exit_code: Option<i32>,
    duration_ms: nat,
    stderr: Seq<char>,
) -> Seq<char> {
    decimal(timestamp) + " status="@ + (if timeout {
        "timeout"@
    } else {
        "done"@
    }) + " exit="@ + debug_exit_code(exit_code) + " duration_ms="@ + decimal(duration_ms)
        + " cmd=\""@ + join_words(command, " "@) + "\" stderr=\""@ + spec_sanitize(trim(stderr))
        + "\"\n"@
}

/// How a detached launch is described.
#[derive(Debug)]
pub struct DetachedLaunch {
    pub program: String,
    pub args: Vec<String>,
    pub env_vars: Vec<(String, String)>,
    pub run_as_user: Option<String>,
    pub setsid: bool,
}

/// The log record of a viewer started as `pid` at `timestamp`.
pub open spec fn spec_spawn_log_line(
    timestamp: nat,
    pid: nat,
    setsid: bool,
    run_as_user: Seq<char>,
    env_keys: Seq<Seq<char>>,
    command: Seq<Seq<char>>,
) -> Seq<char> {
    decimal(timestamp) + " status=spawned pid="@ + decimal(pid) + " setsid="@ + bool_text(setsid)
        + " run_as_user=\""@ + spec_sanitize(run_as_user) + "\" env_keys=\""@ + spec_sanitize(
        join_words(env_keys, ","@),
    ) + "\" cmd=\""@ + join_words(command, " "@) + "\"\n"@
}

pub open spec fn env_keys(env: Seq<(Seq<char>, Seq<char>)>) -> Seq<Seq<char>> {
    env.map_values(|p: (Seq<char>, Seq<char>)| p.0)
}

impl CommandRunner {
    /// The log record of a finished or timed-out command.
    pub fn log_result(&self, result: &CommandResult, timeout: bool, timestamp: u64) -> (line: String)
        ensures
            line@ == spec_result_log_line(
                timestamp as nat,
                timeout,
                strings_view(result.command@),
                result.exit_code,
                result.duration_ms as nat,
                result.stderr@,
            ),
    {
        let mut line = decimal_string(timestamp);
        push_str(&mut line, " status=");
        if timeout {
            push_str(&mut line, "timeout");
        } else {
            push_str(&mut line, "done");
        }
        push_str(&mut line, " exit=");
        let e = debug_exit_code_string(result.exit_code);
        push_str(&mut line, e.as_str());
        push_str(&mut line, " duration_ms=");
        let d = decimal_string(result.duration_ms);
        push_str(&mut line, d.as_str());
        push_str(&mut line, " cmd=\"");
        let c = display_command(&result.command);
        push_str(&mut line, c.as_str());
        push_str(&mut line, "\" stderr=\"");
        let sv = chars_of(result.stderr.as_str());
        let st = trimmed(&sv);
        let mut t = String::new();
        crate::text::push_chars(&mut t, &st, 0, st.len());
        assert(st@.subrange(0, st@.len() as int) =~= st@);
        let san = sanitize_log_value(t.as_str());
        push_str(&mut line, san.as_str());
        push_str(&mut line, "\"\n");
        line
    }

    /// The log record of a detached viewer launch.
    pub fn log_detached(&self, launch: &DetachedLaunch, pid: u32, timestamp: u64) -> (line: String)
        ensures
            line@ == spec_spawn_log_line(
                timestamp as nat,
                pid as nat,
                launch.setsid,
                match launch.run_as_user {
                    Some(u) => u@,
                    None => Seq::empty(),
                },
                env_keys(pairs_view(launch.env_vars@)),
                seq![launch.program@] + strings_view(launch.args@),
            ),
    {
        let command = command_vec(launch.program.as_str(), &launch.args);
        let mut keys: Vec<String> = Vec::new();
        let mut i: usize = 0;
        while i < launch.env_vars.len()
            invariant
                0 <= i <= launch.env_vars@.len(),
                strings_view(keys@) == env_keys(pairs_view(launch.env_vars@)).take(i as int),
            decreases launch.env_vars.len() - i,
        {
            let mut k = String::new();
            push_str(&mut k, launch.env_vars[i].0.as_str());
            let ghost before = keys@;
            keys.push(k);
            assert(strings_view(keys@) =~= strings_view(before).push(launch.env_vars@[i as int].0@));
            i = i + 1;
            assert(env_keys(pairs_view(launch.env_vars@)).take(i as int) =~= env_keys(
                pairs_view(launch.env_vars@),
            ).take(i - 1).push(launch.env_vars@[i - 1].0@));
        }
        assert(env_keys(pairs_view(launch.env_vars@)).take(launch.env_vars@.len() as int)
            =~= env_keys(pairs_view(launch.env_vars@)));
        let joined = join_strings(&keys, 0, keys.len(), ",");
        assert(strings_view(keys@).subrange(0, keys@.len() as int) =~= strings_view(keys@));
        let mut line = decimal_string(timestamp);
        push_str(&mut line, " status=spawned pid=");
        let p = decimal_string(pid as u64);
        push_str(&mut line, p.as_str());
        push_str(&mut line, " setsid=");
        if launch.setsid {
            push_str(&mut line, "true");
        } else {
            push_str(&mut line, "false");
        }
        push_str(&mut line, " run_as_user=\"");
        let user = match &launch.run_as_user {
            Some(u) => sanitize_log_value(u.as_str()),
            None => sanitize_log_value(""),
        };
        proof {
            if launch.run_as_user is None {
                assert(""@ =~= Seq::<char>::empty()) by {
                    reveal_strlit("");
                }
            }
        }
        push_str(&mut line, user.as_str());
        push_str(&mut line, "\" env_keys=\"");
        let ek = sanitize_log_value(joined.as_str());
        push_str(&mut line, ek.as_str());
        push_str(&mut line, "\" cmd=\"");
        let c = display_command(&command);
        push_str(&mut line, c.as_str());
        push_str(&mut line, "\"\n");
        line
    }
}

// ---------------------------------------------------------------------------
// Judging a run
// ---------------------------------------------------------------------------

/// Why a command did not give a usable result.
#[derive(Debug)]
pub enum CommandError {
    /// The program is not in `PATH`.
    NotFound { program: String },
    /// The program exited unsuccessfully.
    Failed { command: Vec<String>, exit_code: Option<i32>, stderr: String },
    /// The program ran past its time limit and was killed.
    TimedOut { command: Vec<String>, timeout_secs: u64, stderr: String },
}

pub open spec fn spec_command_error_message(e: CommandError) -> Seq<char> {
    match e {
        CommandError::NotFound { program } => "`"@ + program@ + "` was not found in PATH"@,
        CommandError::Failed { command, exit_code, stderr } => "command failed: "@ + join_words(
            strings_view(command@),
            " "@,
        ) + " (exit "@ + debug_exit_code(exit_code) + ")"@ + spec_stderr_suffix(stderr@),
        CommandError::TimedOut { command, timeout_secs, stderr } => "command timed out after "@
            + decimal(timeout_secs as nat) + "s: "@ + join_words(strings_view(command@), " "@)
            + spec_stderr_suffix(stderr@),
    }
}

impl CommandError {
    pub fn message(&self) -> (m: String)
        ensures
            m@ == spec_command_error_message(*self),
    {
        let mut m = String::new();
        match self {
            CommandError::NotFound { program } => {
                push_str(&mut m, "`");
                push_str(&mut m, program.as_str());
                push_str(&mut m, "` was not found in PATH");
            },
            CommandError::Failed { command, exit_code, stderr } => {
                push_str(&mut m, "command failed: ");
                let c = display_command(command);
                push_str(&mut m, c.as_str());
                push_str(&mut m, " (exit ");
                let e = debug_exit_code_string(*exit_code);
                push_str(&mut m, e.as_str());
                push_str(&mut m, ")");
                let s = stderr_suffix(stderr.as_str());
                push_str(&mut m, s.as_str());
            },
            CommandError::TimedOut { command, timeout_secs, stderr } => {
                push_str(&mut m, "command timed out after ");
                let t = decimal_string(*timeout_secs);
                push_str(&mut m, t.as_str());
                push_str(&mut m, "s: ");
                let c = display_command(command);
                push_str(&mut m, c.as_str());
                let s = stderr_suffix(stderr.as_str());
                push_str(&mut m, s.as_str());
            },
        }
        m
    }
}

/// The outcome of the check that `program` can be run: an error naming it when it is
/// not in `PATH`.
pub fn ensure_command(program: &str, found: bool) -> (r: Result<(), CommandError>)
    ensures
        match r {
            Ok(_) => found,
            Err(CommandError::NotFound { program: p }) => !found && p@ == program@,
            Err(_) => false,
        },
{
    if found {
        Ok(())
    } else {
        let mut p = String::new();
        push_str(&mut p, program);
        Err(CommandError::NotFound { program: p })
    }
}

/// What the wait for a running command does next.
#[derive(Clone, Copy, Debug, PartialEq, Eq, Structural)]
pub enum PollStep {
    /// The command has exited: collect its output.
    Collect,
    /// The time is up: kill it, then collect its output.
    Kill,
    /// Look again after a pause.
    Wait,
}

/// The next step while waiting for a command: an exited command is collected first;
/// otherwise it is killed once `elapsed_ms` reaches the limit.
pub fn poll_step(exited: bool, elapsed_ms: u64, timeout_secs: u64) -> (s: PollStep)
    ensures
        s == (if exited {
            PollStep::Collect
        } else if elapsed_ms as nat >= timeout_secs as nat * 1000 {
            PollStep::Kill
        } else {
            PollStep::Wait
        }),
{
    if exited {
        PollStep::Collect
    } else if (elapsed_ms as u128) >= (timeout_secs as u128) * 1000 {
        PollStep::Kill
    } else {
        PollStep::Wait
    }
}

/// Judges a collected run: a killed command is a time-out, an unsuccessful exit a
/// failure; otherwise the result stands.
pub fn finish_run(result: CommandResult, success: bool, timed_out: bool, timeout_secs: u64) -> (r: Result<CommandResult, CommandError>)
    ensures
        match r {
            Ok(x) => !timed_out && success && x == result,
            Err(CommandError::TimedOut { command, timeout_secs: t, stderr }) => timed_out && command == result.command && t == timeout_secs && stderr == result.stderr,
            Err(CommandError::Failed { command, exit_code, stderr }) => !timed_out && !success && command == result.command && exit_code == result.exit_code && stderr == result.stderr,
            Err(CommandError::NotFound { .. }) => false,
        },
{
    if timed_out {
        Err(CommandError::TimedOut { command: result.command, timeout_secs, stderr: result.stderr })
    } else if !success {
        Err(CommandError::Failed { command: result.command, exit_code: result.exit_code, stderr: result.stderr })
    } else {
        Ok(result)
    }
}

// ---------------------------------------------------------------------------
// Launching viewers
// ---------------------------------------------------------------------------

/// The desktop user who started the launcher through `sudo`.
#[derive(Debug)]
pub struct InvokingUser {
    pub name: String,
    pub uid: Option<u32>,
    pub home: Option<String>,
}

/// The invoking user from `SUDO_USER`, `SUDO_UID` and the text of `/etc/passwd` (none
/// when `SUDO_USER` is unset, empty or `root`).
pub fn invoking_user(sudo_user: Option<&str>, sudo_uid: Option<&str>, passwd: Option<&str>) -> (r: Option<InvokingUser>)
    ensures
        match r {
            Some(u) => crate::config::spec_invoking_user_name(
                match sudo_user { Some(x) => Some(x@), None => None },
            ) == Some(u.name@)
                && crate::config::opt_u32_view(u.uid) == match sudo_uid {
                    Some(x) => match crate::text::parse_unsigned(x@, u32::MAX as nat) {
                        Ok(n) => Some(n),
                        Err(_) => None::<nat>,
                    },
                    None => None,
                }
                && crate::config::opt_view(u.home) == match passwd {
                    Some(p) => crate::config::spec_passwd_home(p@, u.name@),
                    None => None,
                },
            None => crate::config::spec_invoking_user_name(
                match sudo_user { Some(x) => Some(x@), None => None },
            ) is None,
        },
{
    let name = crate::config::invoking_user_name(sudo_user);
    match name {
        None => None,
        Some(n) => {
            let uid = crate::config::parse_u32_opt(sudo_uid);
            let home = match passwd {
                Some(p) => crate::config::passwd_home(p, n.as_str()),
                None => None,
            };
            Some(InvokingUser { name: n, uid, home })
        },
    }
}

/// How the viewer is started as another user.
#[derive(Clone, Copy, Debug, PartialEq, Eq, Structural)]
pub enum UserSwitcher {
    Runuser,
    Sudo,
}

pub open spec fn switcher_program(s: UserSwitcher) -> Seq<char> {
    match s {
        UserSwitcher::Runuser => "runuser"@,
        UserSwitcher::Sudo => "sudo"@,
    }
}

impl UserSwitcher {
    pub fn program(self) -> (p: &'static str)
        ensures
            p@ == switcher_program(self),
    {
        match self {
            UserSwitcher::Runuser => "runuser",
            UserSwitcher::Sudo => "sudo",
        }
    }
}

/// Why a viewer could not be launched.
#[derive(Debug)]
pub enum LaunchError {
    /// The viewer must run as the invoking user, but neither `runuser` nor `sudo` exists.
    NoUserSwitcher,
    /// The program is not in `PATH`.
    NotFound { program: String },
}

impl LaunchError {
    pub fn message(&self) -> (m: String)
        ensures
            m@ == match *self {
                LaunchError::NoUserSwitcher => "viewer must run as the invoking desktop user, but neither `runuser` nor `sudo` was found"@,
                LaunchError::NotFound { program } => "`"@ + program@ + "` was not found in PATH"@,
            },
    {
        let mut m = String::new();
        match self {
            LaunchError::NoUserSwitcher => push_str(
                &mut m,
                "viewer must run as the invoking desktop user, but neither `runuser` nor `sudo` was found",
            ),
            LaunchError::NotFound { program } => {
                push_str(&mut m, "`");
                push_str(&mut m, program.as_str());
                push_str(&mut m, "` was not found in PATH");
            },
        }
        m
    }
}

/// `runuser` when it exists, else `sudo` when it exists.
pub fn user_switcher(runuser_exists: bool, sudo_exists: bool) -> (r: Result<UserSwitcher, LaunchError>)
    ensures
        match r {
            Ok(s) => s == (if runuser_exists { UserSwitcher::Runuser } else { UserSwitcher::Sudo })
                && (runuser_exists || sudo_exists),
            Err(LaunchError::NoUserSwitcher) => !runuser_exists && !sudo_exists,
            Err(_) => false,
        },
{
    if runuser_exists {
        Ok(UserSwitcher::Runuser)
    } else if sudo_exists {
        Ok(UserSwitcher::Sudo)
    } else {
        Err(LaunchError::NoUserSwitcher)
    }
}

/// What the host offers that a launch depends on.
#[derive(Debug)]
pub struct HostFacts {
    /// `setsid` is in `PATH`.
    pub setsid_exists: bool,
    /// The viewer program is in `PATH`.
    pub program_exists: bool,
    pub runuser_exists: bool,
    pub sudo_exists: bool,
    /// `/usr/bin/env` is a file.
    pub usr_bin_env_is_file: bool,
}

/// The session variables that a viewer inherits when they are set.
pub open spec fn session_variable_names() -> Seq<Seq<char>> {
    seq![
        "DISPLAY"@,
        "WAYLAND_DISPLAY"@,
        "XAUTHORITY"@,
        "DBUS_SESSION_BUS_ADDRESS"@,
        "XDG_CURRENT_DESKTOP"@,
        "XDG_SESSION_DESKTOP"@,
        "XDG_SESSION_TYPE"@,
        "DESKTOP_SESSION"@,
        "PATH"@,
        "LANG"@,
        "LC_ALL"@,
        "LC_CTYPE"@,
    ]
}

/// The session variables that a viewer inherits when they are set, in the order
/// they are looked up.
pub fn session_variables() -> (names: Vec<&'static str>)
    ensures
        strs_view(names@) == session_variable_names(),
{
    let names = vec![
        "DISPLAY",
        "WAYLAND_DISPLAY",
        "XAUTHORITY",
        "DBUS_SESSION_BUS_ADDRESS",
        "XDG_CURRENT_DESKTOP",
        "XDG_SESSION_DESKTOP",
        "XDG_SESSION_TYPE",
        "DESKTOP_SESSION",
        "PATH",
        "LANG",
        "LC_ALL",
        "LC_CTYPE",
    ];
    assert(strs_view(names@) =~= session_variable_names());
    names
}

/// The runtime directory of user `uid`.
pub open spec fn spec_runtime_dir(uid: nat) -> Seq<char> {
    "/run/user/"@ + decimal(uid)
}

/// The session bus socket of user `uid`.
pub open spec fn spec_user_bus_path(uid: nat) -> Seq<char> {
    spec_runtime_dir(uid) + "/bus"@
}

pub fn runtime_dir(uid: u32) -> (p: String)
    ensures
        p@ == spec_runtime_dir(uid as nat),
{
    let mut p = String::new();
    push_str(&mut p, "/run/user/");
    let d = decimal_string(uid as u64);
    push_str(&mut p, d.as_str());
    p
}

/// The path of user `uid`'s session bus socket, whose existence decides whether the
/// viewer gets `DBUS_SESSION_BUS_ADDRESS`.
pub fn user_bus_path(uid: u32) -> (p: String)
    ensures
        p@ == spec_user_bus_path(uid as nat),
{
    let mut p = runtime_dir(uid);
    push_str(&mut p, "/bus");
    p
}

/// The X authority file in `home`.
pub fn xauthority_path(home: &str) -> (p: String)
    ensures
        p@ == path_join(home@, ".Xauthority"@),
{
    join_path(home, ".Xauthority")
}

/// The inherited variables: each name whose value is set, in the order of the names.
pub open spec fn inherited_map(
    names: Seq<Seq<char>>,
    values: Seq<Option<Seq<char>>>,
    i: int,
) -> Map<Seq<char>, Seq<char>>
    decreases i,
{
    if i <= 0 {
        Map::empty()
    } else {
        let m = inherited_map(names, values, i - 1);
        match values[i - 1] {
            Some(v) => m.insert(names[i - 1], v),
            None => m,
        }
    }
}

pub open spec fn configured_map(m: Map<Seq<char>, Seq<char>>, configured: Seq<(Seq<char>, Seq<char>)>, i: int) -> Map<Seq<char>, Seq<char>>
    decreases i,
{
    if i <= 0 {
        m
    } else {
        configured_map(m, configured, i - 1).insert(configured[i - 1].0, configured[i - 1].1)
    }
}

/// In `configured_map`, the last configured value of a key wins over the base map and
/// over earlier entries.
proof fn lemma_configured_map_last_wins(
    m: Map<Seq<char>, Seq<char>>,
    configured: Seq<(Seq<char>, Seq<char>)>,
    n: int,
    i: int,
)
    requires
        0 <= i < n <= configured.len(),
        forall|j: int| i < j < n ==> (#[trigger] configured[j]).0 != configured[i].0,
    ensures
        configured_map(m, configured, n).contains_key(configured[i].0),
        configured_map(m, configured, n)[configured[i].0] == configured[i].1,
    decreases n,
{
    if n - 1 > i {
        lemma_configured_map_last_wins(m, configured, n - 1, i);
    }
}

/// A variable configured for a viewer reaches it with its configured value (the last
/// one, when the key is configured twice), whatever the session, the user and the
/// host provide.
pub proof fn lemma_configured_env_wins(
    user_uid: Option<nat>,
    user_home: Option<Seq<char>>,
    session: Seq<Option<Seq<char>>>,
    xdg_runtime_dir: Option<Seq<char>>,
    bus_exists: bool,
    xauthority_exists: bool,
    configured: Seq<(Seq<char>, Seq<char>)>,
    i: int,
)
    requires
        0 <= i < configured.len(),
        forall|j: int| i < j < configured.len() ==> (#[trigger] configured[j]).0 != configured[i].0,
    ensures
        spec_viewer_env(user_uid, user_home, session, xdg_runtime_dir, bus_exists, xauthority_exists, configured)
            .contains_key(configured[i].0),
        spec_viewer_env(user_uid, user_home, session, xdg_runtime_dir, bus_exists, xauthority_exists, configured)[configured[i].0]
            == configured[i].1,
{
    let m0 = inherited_map(session_variable_names(), session, 12);
    let m1 = if !m0.contains_key("XDG_RUNTIME_DIR"@) {
        match user_uid {
            Some(u) => m0.insert("XDG_RUNTIME_DIR"@, spec_runtime_dir(u)),
            None => match xdg_runtime_dir {
                Some(x) => m0.insert("XDG_RUNTIME_DIR"@, x),
                None => m0,
            },
        }
    } else {
        m0
    };
    let m2 = if !m1.contains_key("DBUS_SESSION_BUS_ADDRESS"@) {
        match user_uid {
            Some(u) => if bus_exists {
                m1.insert("DBUS_SESSION_BUS_ADDRESS"@, "unix:path="@ + spec_user_bus_path(u))
            } else {
                m1
            },
            None => m1,
        }
    } else {
        m1
    };
    let m3 = if !m2.contains_key("XAUTHORITY"@) {
        match user_home {
            Some(h) => if xauthority_exists {
                m2.insert("XAUTHORITY"@, path_join(h, ".Xauthority"@))
            } else {
                m2
            },
            None => m2,
        }
    } else {
        m2
    };
    lemma_configured_map_last_wins(m3, configured, configured.len() as int, i);
}

pub open spec fn opt_strings_view(v: Seq<Option<String>>) -> Seq<Option<Seq<char>>> {
    v.map_values(|o: Option<String>| crate::config::opt_view(o))
}

/// The variables a viewer gets, as a map: the inherited session variables; then
/// `XDG_RUNTIME_DIR` (the invoking user's runtime directory, else the launcher's own
/// value), `DBUS_SESSION_BUS_ADDRESS` (the user's bus when its socket exists) and
/// `XAUTHORITY` (the user's `~/.Xauthority` when it exists), each only when not
/// already set; then the configured variables, which win over all others.
pub open spec fn spec_viewer_env(
    user_uid: Option<nat>,
    user_home: Option<Seq<char>>,
    session: Seq<Option<Seq<char>>>,
    xdg_runtime_dir: Option<Seq<char>>,
    bus_exists: bool,
    xauthority_exists: bool,
    configured: Seq<(Seq<char>, Seq<char>)>,
) -> Map<Seq<char>, Seq<char>> {
    let m0 = inherited_map(session_variable_names(), session, 12);
    let m1 = if !m0.contains_key("XDG_RUNTIME_DIR"@) {
        match user_uid {
            Some(u) => m0.insert("XDG_RUNTIME_DIR"@, spec_runtime_dir(u)),
            None => match xdg_runtime_dir {
                Some(x) => m0.insert("XDG_RUNTIME_DIR"@, x),
                None => m0,
            },
        }
    } else {
        m0
    };
    let m2 = if !m1.contains_key("DBUS_SESSION_BUS_ADDRESS"@) {
        match user_uid {
            Some(u) => if bus_exists {
                m1.insert("DBUS_SESSION_BUS_ADDRESS"@, "unix:path="@ + spec_user_bus_path(u))
            } else {
                m1
            },
            None => m1,
        }
    } else {
        m1
    };
    let m3 = if !m2.contains_key("XAUTHORITY"@) {
        match user_home {
            Some(h) => if xauthority_exists {
                m2.insert("XAUTHORITY"@, path_join(h, ".Xauthority"@))
            } else {
                m2
            },
            None => m2,
        }
    } else {
        m2
    };
    configured_map(m3, configured, configured.len() as int)
}

fn owned(s: &str) -> (out: String)
    ensures
        out@ == s@,
{
    let mut out = String::new();
    push_str(&mut out, s);
    out
}

/// Whether the ascending list holds `key`.
fn assoc_contains(list: &Vec<(String, String)>, key: &str) -> (b: bool)
    requires
        keys_ascending(pairs_view(list@)),
    ensures
        b == assoc_map(pairs_view(list@)).contains_key(key@),
{
    let k = chars_of(key);
    let mut i: usize = 0;
    while i < list.len()
        invariant
            0 <= i <= list@.len(),
            k@ == key@,
            forall|j: int| 0 <= j < i ==> (#[trigger] pairs_view(list@)[j]).0 != key@,
        decreases list.len() - i,
    {
        let ki = chars_of(list[i].0.as_str());
        assert(pairs_view(list@)[i as int].0 == ki@);
        if crate::text::chars_eq(&ki, &k) {
            proof {
                crate::assoc::lemma_assoc_map_contains(pairs_view(list@), key@);
            }
            return true;
        }
        i = i + 1;
    }
    proof {
        crate::assoc::lemma_assoc_map_contains(pairs_view(list@), key@);
    }
    false
}

/// The variables a viewer gets, sorted by name (see `spec_viewer_env`). `session` holds
/// the launcher's values of `session_variables()`, in that order.
pub fn viewer_env(
    user: Option<&InvokingUser>,
    session: &Vec<Option<String>>,
    xdg_runtime_dir: Option<&str>,
    bus_exists: bool,
    xauthority_exists: bool,
    configured: &Vec<(String, String)>,
) -> (env: Vec<(String, String)>)
    requires
        session@.len() == 12,
    ensures
        keys_ascending(pairs_view(env@)),
        assoc_map(pairs_view(env@)) == spec_viewer_env(
            match user { Some(u) => crate::config::opt_u32_view(u.uid), None => None },
            match user { Some(u) => crate::config::opt_view(u.home), None => None },
            opt_strings_view(session@),
            match xdg_runtime_dir { Some(x) => Some(x@), None => None },
            bus_exists,
            xauthority_exists,
            pairs_view(configured@),
        ),
{
    let ghost sv = opt_strings_view(session@);
    let names = session_variables();
    let mut values: Vec<(String, String)> = Vec::new();
    assert(assoc_map(pairs_view(values@)) =~= Map::<Seq<char>, Seq<char>>::empty());
    assert(strs_view(names@).len() == 12);
    let mut i: usize = 0;
    while i < 12
        invariant
            0 <= i <= 12,
            session@.len() == 12,
            sv == opt_strings_view(session@),
            strs_view(names@) == session_variable_names(),
            names@.len() == 12,
            keys_ascending(pairs_view(values@)),
            assoc_map(pairs_view(values@)) == inherited_map(session_variable_names(), sv, i as int),
        decreases 12 - i,
    {
        match &session[i] {
            Some(v) => {
                let ghost vv = v@;
                assert(sv[i as int] == Some(vv));
                assert(strs_view(names@)[i as int] == names@[i as int]@);
                assoc_insert(&mut values, owned(names[i]), owned(v.as_str()));
            },
            None => {
                assert(sv[i as int] is None);
            },
        }
        i = i + 1;
    }
    let uid = match user {
        Some(u) => u.uid,
        None => None,
    };
    if !assoc_contains(&values, "XDG_RUNTIME_DIR") {
        match uid {
            Some(u) => {
                assoc_insert(&mut values, owned("XDG_RUNTIME_DIR"), runtime_dir(u));
            },
            None => match xdg_runtime_dir {
                Some(x) => {
                    assoc_insert(&mut values, owned("XDG_RUNTIME_DIR"), owned(x));
                },
                None => {},
            },
        }
    }
    if !assoc_contains(&values, "DBUS_SESSION_BUS_ADDRESS") {
        match uid {
            Some(u) => {
                if bus_exists {
                    let mut addr = owned("unix:path=");
                    let bus = user_bus_path(u);
                    push_str(&mut addr, bus.as_str());
                    assoc_insert(&mut values, owned("DBUS_SESSION_BUS_ADDRESS"), addr);
                }
            },
            None => {},
        }
    }
    if !assoc_contains(&values, "XAUTHORITY") {
        match user {
            Some(u) => match &u.home {
                Some(h) => {
                    if xauthority_exists {
                        assoc_insert(&mut values, owned("XAUTHORITY"), xauthority_path(h.as_str()));
                    }
                },
                None => {},
            },
            None => {},
        }
    }
    let ghost m3 = assoc_map(pairs_view(values@));
    let mut j: usize = 0;
    while j < configured.len()
        invariant
            0 <= j <= configured@.len(),
            keys_ascending(pairs_view(values@)),
            assoc_map(pairs_view(values@)) == configured_map(m3, pairs_view(configured@), j as int),
        decreases configured.len() - j,
    {
        assert(pairs_view(configured@)[j as int] == (configured@[j as int].0@, configured@[j as int].1@));
        assoc_insert(&mut values, owned(configured[j].0.as_str()), owned(configured[j].1.as_str()));
        j = j + 1;
    }
    values
}

/// What a launch depends on besides the viewer settings: the invoking user, the
/// launcher's environment and what exists on the host.
#[derive(Debug)]
pub struct LaunchContext {
    pub invoking_user: Option<InvokingUser>,
    /// The launcher's values of `session_variables()`, in that order.
    pub session: Vec<Option<String>>,
    /// The launcher's `XDG_RUNTIME_DIR`.
    pub xdg_runtime_dir: Option<String>,
    /// The invoking user's session bus socket (`user_bus_path`) exists.
    pub user_bus_exists: bool,
    /// The invoking user's `~/.Xauthority` exists.
    pub user_xauthority_exists: bool,
    pub facts: HostFacts,
}

/// `NAME=value` for each variable.
pub open spec fn env_assignments(env: Seq<(Seq<char>, Seq<char>)>) -> Seq<Seq<char>> {
    env.map_values(|p: (Seq<char>, Seq<char>)| p.0 + "="@ + p.1)
}

/// The arguments of the user switcher: switch to the user, run `env` with the
/// variables, then `setsid` (when present) and the viewer.
pub open spec fn user_launch_args(
    switcher: UserSwitcher,
    user_name: Seq<char>,
    env_program: Seq<char>,
    env: Seq<(Seq<char>, Seq<char>)>,
    setsid: bool,
    program: Seq<char>,
    args: Seq<Seq<char>>,
) -> Seq<Seq<char>> {
    (match switcher {
        UserSwitcher::Runuser => seq!["-u"@, user_name, "--"@, env_program],
        UserSwitcher::Sudo => seq!["-u"@, user_name, env_program],
    }) + env_assignments(env) + (if setsid {
        seq!["setsid"@]
    } else {
        Seq::empty()
    }) + seq![program] + args
}

pub open spec fn launch_user(run_as_invoking_user: bool, ctx: LaunchContext) -> Option<InvokingUser> {
    if run_as_invoking_user {
        ctx.invoking_user
    } else {
        None
    }
}

pub open spec fn launch_env(user: Option<InvokingUser>, ctx: LaunchContext, configured: Seq<(Seq<char>, Seq<char>)>) -> Map<Seq<char>, Seq<char>> {
    spec_viewer_env(
        match user { Some(u) => crate::config::opt_u32_view(u.uid), None => None },
        match user { Some(u) => crate::config::opt_view(u.home), None => None },
        opt_strings_view(ctx.session@),
        crate::config::opt_view(ctx.xdg_runtime_dir),
        ctx.user_bus_exists,
        ctx.user_xauthority_exists,
        configured,
    )
}

/// A launch as another user switches to that user (`-u <name>`) first and ends with the
/// viewer and its own arguments, unchanged.
pub proof fn lemma_user_launch_ends_with_viewer(
    switcher: UserSwitcher,
    user_name: Seq<char>,
    env_program: Seq<char>,
    env: Seq<(Seq<char>, Seq<char>)>,
    setsid: bool,
    program: Seq<char>,
    args: Seq<Seq<char>>,
)
    ensures
        ({
            let l = user_launch_args(switcher, user_name, env_program, env, setsid, program, args);
            &&& l.len() >= args.len() + 3
            &&& l[0] == "-u"@
            &&& l[1] == user_name
            &&& l.skip(l.len() - args.len() - 1) == seq![program] + args
        }),
{
    let l = user_launch_args(switcher, user_name, env_program, env, setsid, program, args);
    assert(l.skip(l.len() - args.len() - 1) =~= seq![program] + args);
}

fn push_owned(v: &mut Vec<String>, s: &str)
    ensures
        strings_view(final(v)@) == strings_view(old(v)@).push(s@),
{
    let ghost before = v@;
    v.push(owned(s));
    assert(strings_view(v@) =~= strings_view(before).push(s@));
}

fn push_all(v: &mut Vec<String>, more: &Vec<String>)
    ensures
        strings_view(final(v)@) == strings_view(old(v)@) + strings_view(more@),
{
    let ghost start = strings_view(v@);
    let mut i: usize = 0;
    while i < more.len()
        invariant
            0 <= i <= more@.len(),
            strings_view(v@) == start + strings_view(more@).take(i as int),
        decreases more.len() - i,
    {
        push_owned(v, more[i].as_str());
        i = i + 1;
        assert(strings_view(more@).take(i as int) =~= strings_view(more@).take(i - 1).push(more@[i - 1]@));
        assert(start + strings_view(more@).take(i as int) =~= (start + strings_view(more@).take(i - 1)).push(more@[i - 1]@));
    }
    assert(strings_view(more@).take(more@.len() as int) =~= strings_view(more@));
}

/// The launch as the invoking user, through `runuser` or `sudo` and `env`.
pub fn build_user_launch(
    program: &str,
    args: &Vec<String>,
    env_vars: Vec<(String, String)>,
    user: &InvokingUser,
    setsid: bool,
    facts: &HostFacts,
) -> (r: Result<DetachedLaunch, LaunchError>)
    ensures
        match r {
            Ok(l) => {
                let sw = if facts.runuser_exists { UserSwitcher::Runuser } else { UserSwitcher::Sudo };
                &&& facts.runuser_exists || facts.sudo_exists
                &&& l.program@ == switcher_program(sw)
                &&& strings_view(l.args@) == user_launch_args(
                    sw,
                    user.name@,
                    if facts.usr_bin_env_is_file { "/usr/bin/env"@ } else { "env"@ },
                    pairs_view(env_vars@),
                    setsid,
                    program@,
                    strings_view(args@),
                )
                &&& l.env_vars == env_vars
                &&& crate::config::opt_view(l.run_as_user) == Some(user.name@)
                &&& l.setsid == setsid
            },
            Err(LaunchError::NoUserSwitcher) => !facts.runuser_exists && !facts.sudo_exists,
            Err(_) => false,
        },
{
    let switcher = user_switcher(facts.runuser_exists, facts.sudo_exists)?;
    let env_program: &str = if facts.usr_bin_env_is_file {
        "/usr/bin/env"
    } else {
        "env"
    };
    let mut launch_args: Vec<String> = Vec::new();
    push_owned(&mut launch_args, "-u");
    push_owned(&mut launch_args, user.name.as_str());
    match switcher {
        UserSwitcher::Runuser => {
            push_owned(&mut launch_args, "--");
            push_owned(&mut launch_args, env_program);
        },
        UserSwitcher::Sudo => {
            push_owned(&mut launch_args, env_program);
        },
    }
    let ghost head = strings_view(launch_args@);
    let mut i: usize = 0;
    while i < env_vars.len()
        invariant
            0 <= i <= env_vars@.len(),
            strings_view(launch_args@) == head + env_assignments(pairs_view(env_vars@)).take(i as int),
        decreases env_vars.len() - i,
    {
        let mut a = owned(env_vars[i].0.as_str());
        push_str(&mut a, "=");
        push_str(&mut a, env_vars[i].1.as_str());
        let ghost before = strings_view(launch_args@);
        launch_args.push(a);
        assert(strings_view(launch_args@) =~= before.push(env_assignments(pairs_view(env_vars@))[i as int]));
        i = i + 1;
        assert(env_assignments(pairs_view(env_vars@)).take(i as int) =~= env_assignments(pairs_view(env_vars@)).take(i - 1).push(env_assignments(pairs_view(env_vars@))[i - 1]));
        assert(head + env_assignments(pairs_view(env_vars@)).take(i as int) =~= (head + env_assignments(pairs_view(env_vars@)).take(i - 1)).push(env_assignments(pairs_view(env_vars@))[i - 1]));
    }
    assert(env_assignments(pairs_view(env_vars@)).take(env_vars@.len() as int) =~= env_assignments(pairs_view(env_vars@)));
    if setsid {
        push_owned(&mut launch_args, "setsid");
    }
    push_owned(&mut launch_args, program);
    push_all(&mut launch_args, args);
    proof {
        let sw = if facts.runuser_exists { UserSwitcher::Runuser } else { UserSwitcher::Sudo };
        assert(switcher == sw);
        assert(strings_view(launch_args@) =~= user_launch_args(
            sw,
            user.name@,
            if facts.usr_bin_env_is_file { "/usr/bin/env"@ } else { "env"@ },
            pairs_view(env_vars@),
            setsid,
            program@,
            strings_view(args@),
        ));
    }
    Ok(DetachedLaunch {
        program: owned(switcher.program()),
        args: launch_args,
        env_vars,
        run_as_user: Some(owned(user.name.as_str())),
        setsid,
    })
}

/// How to start a viewer detached: as the invoking user when the viewer is set to run
/// as that user and there is one, else directly (through `setsid` when it exists, with
/// the viewer's variables set on the process).
pub fn build_detached_launch(
    program: &str,
    args: &Vec<String>,
    env_vars: &Vec<(String, String)>,
    run_as_invoking_user: bool,
    ctx: &LaunchContext,
) -> (r: Result<DetachedLaunch, LaunchError>)
    requires
        ctx.session@.len() == 12,
    ensures
        match r {
            Ok(l) => {
                let user = launch_user(run_as_invoking_user, *ctx);
                &&& keys_ascending(pairs_view(l.env_vars@))
                &&& assoc_map(pairs_view(l.env_vars@)) == launch_env(user, *ctx, pairs_view(env_vars@))
                &&& l.setsid == ctx.facts.setsid_exists
                &&& match user {
                    Some(u) => {
                        let sw = if ctx.facts.runuser_exists { UserSwitcher::Runuser } else { UserSwitcher::Sudo };
                        &&& ctx.facts.runuser_exists || ctx.facts.sudo_exists
                        &&& l.program@ == switcher_program(sw)
                        &&& strings_view(l.args@) == user_launch_args(
                            sw,
                            u.name@,
                            if ctx.facts.usr_bin_env_is_file { "/usr/bin/env"@ } else { "env"@ },
                            pairs_view(l.env_vars@),
                            ctx.facts.setsid_exists,
                            program@,
                            strings_view(args@),
                        )
                        &&& crate::config::opt_view(l.run_as_user) == Some(u.name@)
                    },
                    None => {
                        &&& ctx.facts.program_exists
                        &&& l.program@ == (if ctx.facts.setsid_exists { "setsid"@ } else { program@ })
                        &&& strings_view(l.args@) == (if ctx.facts.setsid_exists { seq![program@] } else { Seq::empty() }) + strings_view(args@)
                        &&& l.run_as_user is None
                    },
                }
            },
            Err(LaunchError::NoUserSwitcher) => launch_user(run_as_invoking_user, *ctx) is Some
                && !ctx.facts.runuser_exists && !ctx.facts.sudo_exists,
            Err(LaunchError::NotFound { program: p }) => launch_user(run_as_invoking_user, *ctx) is None
                && !ctx.facts.program_exists && p@ == program@,
        },
{
    let user: Option<&InvokingUser> = if run_as_invoking_user {
        match &ctx.invoking_user {
            Some(u) => Some(u),
            None => None,
        }
    } else {
        None
    };
    let xdg: Option<&str> = match &ctx.xdg_runtime_dir {
        Some(x) => Some(x.as_str()),
        None => None,
    };
    let effective_env = viewer_env(
        user,
        &ctx.session,
        xdg,
        ctx.user_bus_exists,
        ctx.user_xauthority_exists,
        env_vars,
    );
    let setsid = ctx.facts.setsid_exists;
    match user {
        Some(u) => {
            return build_user_launch(program, args, effective_env, u, setsid, &ctx.facts);
        },
        None => {},
    }
    if !ctx.facts.program_exists {
        return Err(LaunchError::NotFound { program: owned(program) });
    }
    let mut launch_args: Vec<String> = Vec::new();
    let launch_program = if setsid {
        push_owned(&mut launch_args, program);
        owned("setsid")
    } else {
        owned(program)
    };
    let ghost head = strings_view(launch_args@);
    push_all(&mut launch_args, args);
    proof {
        if setsid {
            assert(head =~= seq![program@]);
        } else {
            assert(head =~= Seq::<Seq<char>>::empty());
        }
    }
    Ok(DetachedLaunch {
        program: launch_program,
        args: launch_args,
        env_vars: effective_env,
        run_as_user: None,
        setsid,
    })
}

} // verus!
