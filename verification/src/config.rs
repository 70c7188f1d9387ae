//! Launcher settings: their defaults, the command line, and the reading of the
//! `config.toml` subset that configures the SPICE and VNC viewers.
use vstd::prelude::*;

use crate::assoc::assoc_insert;
use crate::assoc::assoc_map;
use crate::assoc::keys_ascending;
use crate::assoc::pairs_view;
use crate::text::chars_eq;
use crate::text::chars_eq_str;
use crate::text::chars_of;
use crate::text::decimal;
use crate::text::decimal_string;
use crate::text::is_whitespace;
use crate::text::line_bounds;
use crate::text::parse_unsigned;
use crate::text::parse_unsigned_chars;
use crate::text::split_bounds;
use crate::text::trim_end;
use crate::text::trim_start;
use crate::text::split_on;
use crate::text::lines;
use crate::text::push_char;
use crate::text::push_str;
use crate::text::slice_of;
use crate::text::string_of;
use crate::text::trim;
use crate::text::trim_bounds;

verus! {

// ---------------------------------------------------------------------------
// Settings
// ---------------------------------------------------------------------------

/// All launcher settings. Durations are whole seconds; paths are plain text.
#[derive(Debug)]
pub struct Config {
    pub keep_temp_files: bool,
    pub proxmox: ProxmoxConfig,
    pub viewer: ViewerConfig,
    pub vnc: VncConfig,
    pub spice: SpiceConfig,
    pub ui: UiConfig,
    pub logging: LoggingConfig,
}

#[derive(Debug)]
pub struct ProxmoxConfig {
    pub node: String,
    pub command_timeout_secs: u64,
}

#[derive(Debug)]
pub struct ViewerConfig {
    pub spice: ViewerLaunchConfig,
    pub vnc: ViewerLaunchConfig,
}

/// How one viewer program is started.
#[derive(Debug, PartialEq, Eq)]
pub struct ViewerLaunchConfig {
    pub command: String,
    pub args: Vec<String>,
    pub env: Vec<(String, String)>,
    pub run_as_invoking_user: bool,
}

#[derive(Debug)]
pub struct VncConfig {
    pub enabled: bool,
    pub profile_dir: String,
    pub delete_profile_after_secs: u64,
}

#[derive(Debug)]
pub struct SpiceConfig {
    pub enabled: bool,
    pub vv_dir: String,
    pub delete_vv_after_secs: u64,
}

#[derive(Debug)]
pub struct UiConfig {
    pub refresh_interval_secs: u64,
    pub confirm_destructive_actions: bool,
}

#[derive(Debug)]
pub struct LoggingConfig {
    pub file: String,
}

/// What the command line asks for.
#[derive(Clone, Copy, Debug, Default, PartialEq, Eq, Structural)]
pub struct CliOptions {
    pub keep_temp_files: bool,
    pub help: bool,
}

/// The abstract value of a `ViewerLaunchConfig`.
pub struct ViewerLaunchView {
    pub command: Seq<char>,
    pub args: Seq<Seq<char>>,
    pub env: Seq<(Seq<char>, Seq<char>)>,
    pub run_as_invoking_user: bool,
}

pub open spec fn strings_view(v: Seq<String>) -> Seq<Seq<char>> {
    v.map_values(|s: String| s@)
}

impl View for ViewerLaunchConfig {
    type V = ViewerLaunchView;

    open spec fn view(&self) -> ViewerLaunchView {
        ViewerLaunchView {
            command: self.command@,
            args: strings_view(self.args@),
            env: pairs_view(self.env@),
            run_as_invoking_user: self.run_as_invoking_user,
        }
    }
}

impl ViewerLaunchConfig {
    /// A viewer started as `command` with no extra arguments or variables, as the
    /// invoking user.
    pub fn new(command: &str) -> (c: Self)
        ensures
            c@.command == command@,
            c@.args.len() == 0,
            c@.env.len() == 0,
            c@.run_as_invoking_user,
    {
        let mut s = String::new();
        push_str(&mut s, command);
        let c = ViewerLaunchConfig {
            command: s,
            args: Vec::new(),
            env: Vec::new(),
            run_as_invoking_user: true,
        };
        assert(c@.args =~= Seq::<Seq<char>>::empty());
        assert(c@.env =~= Seq::<(Seq<char>, Seq<char>)>::empty());
        c
    }
}

// ---------------------------------------------------------------------------
// Paths
// ---------------------------------------------------------------------------

/// `base` with the relative `component` appended, as `PathBuf::join` does on Unix: a
/// separator is added unless `base` is empty or already ends with one.
pub open spec fn path_join(base: Seq<char>, component: Seq<char>) -> Seq<char> {
    if base.len() == 0 {
        component
    } else if base.last() == '/' {
        base + component
    } else {
        base.push('/') + component
    }
}

/// Joins a relative path component to `base`.
pub fn join_path(base: &str, component: &str) -> (p: String)
    ensures
        p@ == path_join(base@, component@),
{
    let b = chars_of(base);
    let mut p = string_of(&b, 0, b.len());
    assert(b@.subrange(0, b@.len() as int) =~= b@);
    if b.len() > 0 && b[b.len() - 1] != '/' {
        push_char(&mut p, '/');
    }
    push_str(&mut p, component);
    p
}

/// The directory for generated viewer files under the system temporary directory.
pub open spec fn spec_temp_dir(system_temp: Seq<char>) -> Seq<char> {
    path_join(system_temp, "pve-vm-launcher"@)
}

/// Where the command log goes: `$HOME/.local/state/pve-vm-launcher/app.log`, or
/// `app.log` in the temporary directory when `HOME` is not set.
pub open spec fn spec_default_log_file(home: Option<Seq<char>>, system_temp: Seq<char>) -> Seq<
    char,
> {
    match home {
        Some(h) => path_join(
            path_join(path_join(path_join(h, ".local"@), "state"@), "pve-vm-launcher"@),
            "app.log"@,
        ),
        None => path_join(spec_temp_dir(system_temp), "app.log"@),
    }
}

pub fn default_log_file(home: Option<&str>, system_temp: &str) -> (p: String)
    ensures
        p@ == spec_default_log_file(
            match home {
                Some(h) => Some(h@),
                None => None,
            },
            system_temp@,
        ),
{
    match home {
        Some(h) => {
            let a = join_path(h, ".local");
            let b = join_path(a.as_str(), "state");
            let c = join_path(b.as_str(), "pve-vm-launcher");
            join_path(c.as_str(), "app.log")
        },
        None => {
            let t = join_path(system_temp, "pve-vm-launcher");
            join_path(t.as_str(), "app.log")
        },
    }
}

/// The settings file path: under the invoking user's home when started through `sudo`,
/// else under `$XDG_CONFIG_HOME`, else under `$HOME`.
pub open spec fn spec_config_file_path(
    invoking_home: Option<Seq<char>>,
    xdg_config_home: Option<Seq<char>>,
    home: Option<Seq<char>>,
) -> Option<Seq<char>> {
    match invoking_home {
        Some(h) => Some(
            path_join(path_join(path_join(h, ".config"@), "pve-vm-launcher"@), "config.toml"@),
        ),
        None => match xdg_config_home {
            Some(x) => Some(path_join(path_join(x, "pve-vm-launcher"@), "config.toml"@)),
            None => match home {
                Some(h) => Some(
                    path_join(
                        path_join(path_join(h, ".config"@), "pve-vm-launcher"@),
                        "config.toml"@,
                    ),
                ),
                None => None,
            },
        },
    }
}

pub open spec fn opt_view(o: Option<String>) -> Option<Seq<char>> {
    match o {
        Some(s) => Some(s@),
        None => None,
    }
}

/// The settings file path, from the invoking user's home directory (if started through
/// `sudo` by a user other than root) and the `XDG_CONFIG_HOME` and `HOME` variables.
pub fn config_file_path(
    invoking_home: Option<String>,
    xdg_config_home: Option<String>,
    home: Option<String>,
) -> (p: Option<String>)
    ensures
        opt_view(p) == spec_config_file_path(
            opt_view(invoking_home),
            opt_view(xdg_config_home),
            opt_view(home),
        ),
{
    match invoking_home {
        Some(h) => {
            let a = join_path(h.as_str(), ".config");
            let b = join_path(a.as_str(), "pve-vm-launcher");
            Some(join_path(b.as_str(), "config.toml"))
        },
        None => match xdg_config_home {
            Some(x) => {
                let a = join_path(x.as_str(), "pve-vm-launcher");
                Some(join_path(a.as_str(), "config.toml"))
            },
            None => match home {
                Some(h) => {
                    let a = join_path(h.as_str(), ".config");
                    let b = join_path(a.as_str(), "pve-vm-launcher");
                    Some(join_path(b.as_str(), "config.toml"))
                },
                None => None,
            },
        },
    }
}

impl Config {
    /// The default settings, given the system temporary directory and `$HOME`.
    pub fn with_defaults(system_temp: &str, home: Option<&str>) -> (c: Config)
        ensures
            !c.keep_temp_files,
            c.proxmox.node@ == "auto"@,
            c.proxmox.command_timeout_secs == 15,
            c.viewer.spice@.command == "remote-viewer"@,
            c.viewer.spice@.args.len() == 0,
            c.viewer.spice@.env.len() == 0,
            c.viewer.spice@.run_as_invoking_user,
            c.viewer.vnc@.command == "remmina"@,
            c.viewer.vnc@.args.len() == 0,
            c.viewer.vnc@.env.len() == 0,
            c.viewer.vnc@.run_as_invoking_user,
            c.vnc.enabled,
            c.vnc.profile_dir@ == spec_temp_dir(system_temp@),
            c.vnc.delete_profile_after_secs == 30,
            c.spice.enabled,
            c.spice.vv_dir@ == spec_temp_dir(system_temp@),
            c.spice.delete_vv_after_secs == 30,
            c.ui.refresh_interval_secs == 3,
            c.ui.confirm_destructive_actions,
            c.logging.file@ == spec_default_log_file(
                match home {
                    Some(h) => Some(h@),
                    None => None,
                },
                system_temp@,
            ),
    {
        let mut node = String::new();
        push_str(&mut node, "auto");
        Config {
            keep_temp_files: false,
            proxmox: ProxmoxConfig { node, command_timeout_secs: 15 },
            viewer: ViewerConfig {
                spice: ViewerLaunchConfig::new("remote-viewer"),
                vnc: ViewerLaunchConfig::new("remmina"),
            },
            vnc: VncConfig {
                enabled: true,
                profile_dir: join_path(system_temp, "pve-vm-launcher"),
                delete_profile_after_secs: 30,
            },
            spice: SpiceConfig {
                enabled: true,
                vv_dir: join_path(system_temp, "pve-vm-launcher"),
                delete_vv_after_secs: 30,
            },
            ui: UiConfig { refresh_interval_secs: 3, confirm_destructive_actions: true },
            logging: LoggingConfig { file: default_log_file(home, system_temp) },
        }
    }

    /// The directory that holds generated viewer files.
    pub fn temp_dir(&self) -> (d: &str)
        ensures
            d@ == self.spice.vv_dir@,
    {
        self.spice.vv_dir.as_str()
    }
}

// ---------------------------------------------------------------------------
// The settings file
// ---------------------------------------------------------------------------

/// The table a settings line belongs to.
#[derive(Clone, Copy, Debug, PartialEq, Eq, Structural)]
pub enum ConfigSection {
    Root,
    Proxmox,
    Vnc,
    Spice,
    Ui,
    Logging,
    ViewerSpice,
    ViewerSpiceEnv,
    ViewerVnc,
    ViewerVncEnv,
    Other,
}

/// Why the settings file could not be read.
#[derive(Clone, Copy, Debug, PartialEq, Eq, Structural)]
pub enum ConfigErrorKind {
    UnterminatedSection,
    ExpectedAssignment,
    EmptyKey,
    ExpectedBoolean,
    ExpectedInteger,
    ExpectedQuotedString,
    ExpectedStringArray,
    UnterminatedArrayString,
    UnsupportedEscape(char),
    UnterminatedEscape,
    /// A string value made of one double quote: it opens and closes at the same
    /// character, so it has no content to read. `apply_config_file` excludes such text by
    /// its precondition; `apply_config_text` reports it with this kind.
    LoneQuote,
}

/// Where the scan for a comment stops: the index of the first `#` outside a quoted
/// string, or the length of the line. Inside a string a backslash escapes the next
/// character.
pub open spec fn comment_scan(line: Seq<char>, i: int, in_string: bool, escaped: bool) -> int
    decreases line.len() - i,
{
    if i >= line.len() {
        line.len() as int
    } else if escaped {
        comment_scan(line, i + 1, in_string, false)
    } else if line[i] == '\\' && in_string {
        comment_scan(line, i + 1, in_string, true)
    } else if line[i] == '"' {
        comment_scan(line, i + 1, !in_string, false)
    } else if line[i] == '#' && !in_string {
        i
    } else {
        comment_scan(line, i + 1, in_string, false)
    }
}

/// The line up to its comment.
pub open spec fn strip_comment(line: Seq<char>) -> Seq<char> {
    line.subrange(0, comment_scan(line, 0, false, false))
}

proof fn lemma_comment_scan_prefix(line: Seq<char>, c: int, i: int, in_string: bool, escaped: bool)
    requires
        0 <= i <= c <= line.len(),
        comment_scan(line, i, in_string, escaped) == c,
    ensures
        comment_scan(line.subrange(0, c), i, in_string, escaped) == c,
    decreases c - i,
{
    let p = line.subrange(0, c);
    if i < c {
        assert(p[i] == line[i]);
        if escaped {
            lemma_comment_scan_prefix(line, c, i + 1, in_string, false);
        } else if line[i] == '\\' && in_string {
            lemma_comment_scan_prefix(line, c, i + 1, in_string, true);
        } else if line[i] == '"' {
            lemma_comment_scan_prefix(line, c, i + 1, !in_string, false);
        } else if line[i] == '#' && !in_string {
        } else {
            lemma_comment_scan_prefix(line, c, i + 1, in_string, false);
        }
    }
}

/// Cutting off a comment leaves a prefix of the line, and cutting again changes
/// nothing.
pub proof fn lemma_strip_comment_prefix_idempotent(line: Seq<char>)
    ensures
        strip_comment(line) == line.subrange(0, strip_comment(line).len() as int),
        strip_comment(strip_comment(line)) == strip_comment(line),
{
    lemma_comment_scan_bounds(line, 0, false, false);
    let c = comment_scan(line, 0, false, false);
    lemma_comment_scan_prefix(line, c, 0, false, false);
    assert(strip_comment(line) == line.subrange(0, c));
    assert(line.subrange(0, c).subrange(0, c) =~= line.subrange(0, c));
}

pub proof fn lemma_comment_scan_bounds(line: Seq<char>, i: int, in_string: bool, escaped: bool)
    requires
        0 <= i,
    ensures
        i <= line.len() ==> i <= comment_scan(line, i, in_string, escaped) <= line.len(),
        i > line.len() ==> comment_scan(line, i, in_string, escaped) == line.len(),
    decreases line.len() - i,
{
    if i < line.len() {
        lemma_comment_scan_bounds(line, i + 1, in_string, false);
        lemma_comment_scan_bounds(line, i + 1, in_string, true);
        lemma_comment_scan_bounds(line, i + 1, !in_string, false);
    }
}

/// The section that a header line `[...]` opens.
pub open spec fn section_of(l: Seq<char>) -> Result<ConfigSection, ConfigErrorKind> {
    if !(l.len() > 0 && l.last() == ']') {
        Err(ConfigErrorKind::UnterminatedSection)
    } else {
        let name = l.subrange(1, l.len() - 1);
        if name == "proxmox"@ {
            Ok(ConfigSection::Proxmox)
        } else if name == "vnc"@ {
            Ok(ConfigSection::Vnc)
        } else if name == "spice"@ {
            Ok(ConfigSection::Spice)
        } else if name == "ui"@ {
            Ok(ConfigSection::Ui)
        } else if name == "logging"@ {
            Ok(ConfigSection::Logging)
        } else if name == "viewer.spice"@ {
            Ok(ConfigSection::ViewerSpice)
        } else if name == "viewer.spice.env"@ {
            Ok(ConfigSection::ViewerSpiceEnv)
        } else if name == "viewer.vnc"@ {
            Ok(ConfigSection::ViewerVnc)
        } else if name == "viewer.vnc.env"@ {
            Ok(ConfigSection::ViewerVncEnv)
        } else {
            Ok(ConfigSection::Other)
        }
    }
}

/// The index of the first `c` in `s` at or after `i`, or `s.len()`.
pub open spec fn index_from(s: Seq<char>, c: char, i: int) -> int
    decreases s.len() - i,
{
    if i >= s.len() {
        s.len() as int
    } else if s[i] == c {
        i
    } else {
        index_from(s, c, i + 1)
    }
}

pub proof fn lemma_index_from(s: Seq<char>, c: char, i: int)
    requires
        0 <= i <= s.len(),
    ensures
        i <= index_from(s, c, i) <= s.len(),
        forall|k: int| i <= k < index_from(s, c, i) ==> s[k] != c,
        index_from(s, c, i) < s.len() ==> s[index_from(s, c, i)] == c,
    decreases s.len() - i,
{
    if i < s.len() {
        lemma_index_from(s, c, i + 1);
    }
}

/// `key = value` split at the first `=`, both sides trimmed.
pub open spec fn split_assignment(l: Seq<char>) -> Result<(Seq<char>, Seq<char>), ConfigErrorKind> {
    let e = index_from(l, '=', 0);
    if e >= l.len() {
        Err(ConfigErrorKind::ExpectedAssignment)
    } else if trim(l.subrange(0, e)).len() == 0 {
        Err(ConfigErrorKind::EmptyKey)
    } else {
        Ok((trim(l.subrange(0, e)), trim(l.subrange(e + 1, l.len() as int))))
    }
}

pub open spec fn bool_value(v: Seq<char>) -> Result<bool, ConfigErrorKind> {
    if trim(v) == "true"@ {
        Ok(true)
    } else if trim(v) == "false"@ {
        Ok(false)
    } else {
        Err(ConfigErrorKind::ExpectedBoolean)
    }
}

/// A whole number of seconds: digits (an optional leading `+`) that fit in `u64`.
pub open spec fn integer_value(v: Seq<char>) -> Result<nat, ConfigErrorKind> {
    match crate::text::parse_unsigned(trim(v), u64::MAX as nat) {
        Ok(n) => Ok(n),
        Err(_) => Err(ConfigErrorKind::ExpectedInteger),
    }
}

/// The character that `\c` stands for inside a quoted string.
pub open spec fn escape_target(c: char) -> Option<char> {
    if c == 'n' {
        Some('\n')
    } else if c == 'r' {
        Some('\r')
    } else if c == 't' {
        Some('\t')
    } else if c == '"' {
        Some('"')
    } else if c == '\\' {
        Some('\\')
    } else {
        None
    }
}

pub open spec fn prefixed(p: Seq<char>, r: Result<Seq<char>, ConfigErrorKind>) -> Result<
    Seq<char>,
    ConfigErrorKind,
> {
    match r {
        Ok(x) => Ok(p + x),
        Err(e) => Err(e),
    }
}

/// The text of a quoted string's body with its escapes replaced.
pub open spec fn unescape(s: Seq<char>) -> Result<Seq<char>, ConfigErrorKind>
    decreases s.len(),
{
    if s.len() == 0 {
        Ok(Seq::empty())
    } else if s[0] != '\\' {
        prefixed(seq![s[0]], unescape(s.drop_first()))
    } else if s.len() == 1 {
        Err(ConfigErrorKind::UnterminatedEscape)
    } else {
        match escape_target(s[1]) {
            None => Err(ConfigErrorKind::UnsupportedEscape(s[1])),
            Some(c) => prefixed(seq![c], unescape(s.skip(2))),
        }
    }
}

/// A double-quoted string value.
pub open spec fn string_value(v: Seq<char>) -> Result<Seq<char>, ConfigErrorKind> {
    let t = trim(v);
    if !(t.len() > 0 && t[0] == '"' && t.last() == '"') {
        Err(ConfigErrorKind::ExpectedQuotedString)
    } else if t.len() == 1 {
        Err(ConfigErrorKind::LoneQuote)
    } else {
        unescape(t.subrange(1, t.len() - 1))
    }
}

/// The state of the scan over the body of a string array.
pub struct ArrayScan {
    pub values: Seq<Seq<char>>,
    pub current: Seq<char>,
    pub in_string: bool,
    pub escaped: bool,
}

pub open spec fn array_finish(st: ArrayScan) -> Result<Seq<Seq<char>>, ConfigErrorKind> {
    if st.in_string {
        Err(ConfigErrorKind::UnterminatedArrayString)
    } else {
        let cur = if st.escaped {
            st.current.push('\\')
        } else {
            st.current
        };
        if trim(cur).len() > 0 {
            match string_value(trim(cur)) {
                Ok(x) => Ok(st.values.push(x)),
                Err(e) => Err(e),
            }
        } else {
            Ok(st.values)
        }
    }
}

/// Items are split at commas outside quoted strings; each item is a string value.
pub open spec fn array_scan(inner: Seq<char>, i: int, st: ArrayScan) -> Result<
    Seq<Seq<char>>,
    ConfigErrorKind,
>
    decreases inner.len() - i,
{
    if i >= inner.len() {
        array_finish(st)
    } else {
        let c = inner[i];
        if st.escaped {
            array_scan(
                inner,
                i + 1,
                ArrayScan { current: st.current.push('\\').push(c), escaped: false, ..st },
            )
        } else if c == '\\' && st.in_string {
            array_scan(inner, i + 1, ArrayScan { escaped: true, ..st })
        } else if c == '"' {
            array_scan(
                inner,
                i + 1,
                ArrayScan { current: st.current.push(c), in_string: !st.in_string, ..st },
            )
        } else if c == ',' && !st.in_string {
            match string_value(trim(st.current)) {
                Ok(x) => array_scan(
                    inner,
                    i + 1,
                    ArrayScan { values: st.values.push(x), current: Seq::empty(), ..st },
                ),
                Err(e) => Err(e),
            }
        } else {
            array_scan(inner, i + 1, ArrayScan { current: st.current.push(c), ..st })
        }
    }
}

/// A value `[ "a", "b", ... ]`.
pub open spec fn string_array_value(v: Seq<char>) -> Result<Seq<Seq<char>>, ConfigErrorKind> {
    let t = trim(v);
    if !(t.len() > 0 && t[0] == '[' && t.last() == ']') {
        Err(ConfigErrorKind::ExpectedStringArray)
    } else {
        let inner = trim(t.subrange(1, t.len() - 1));
        if inner.len() == 0 {
            Ok(Seq::empty())
        } else {
            array_scan(
                inner,
                0,
                ArrayScan { values: Seq::empty(), current: Seq::empty(), in_string: false, escaped: false },
            )
        }
    }
}

/// A character as written inside a quoted string: backslash, double quote, line feed,
/// carriage return and tab escaped, anything else as it is.
pub open spec fn escaped_char(c: char) -> Seq<char> {
    if c == '\\' {
        seq!['\\', '\\']
    } else if c == '"' {
        seq!['\\', '"']
    } else if c == '\n' {
        seq!['\\', 'n']
    } else if c == '\r' {
        seq!['\\', 'r']
    } else if c == '\t' {
        seq!['\\', 't']
    } else {
        seq![c]
    }
}

/// The body of a quoted string that holds `s`.
pub open spec fn escape_toml(s: Seq<char>) -> Seq<char>
    decreases s.len(),
{
    if s.len() == 0 {
        Seq::empty()
    } else {
        escaped_char(s[0]) + escape_toml(s.drop_first())
    }
}

/// `s` as a quoted string value.
pub open spec fn quoted(s: Seq<char>) -> Seq<char> {
    seq!['"'] + escape_toml(s) + seq!['"']
}

/// The quoted strings of `xs`, separated by `, `.
pub open spec fn joined_items(xs: Seq<Seq<char>>) -> Seq<char>
    decreases xs.len(),
{
    if xs.len() == 0 {
        Seq::empty()
    } else if xs.len() == 1 {
        quoted(xs[0])
    } else {
        quoted(xs[0]) + seq![',', ' '] + joined_items(xs.drop_first())
    }
}

/// `xs` written as a string array value.
pub open spec fn array_text(xs: Seq<Seq<char>>) -> Seq<char> {
    seq!['['] + joined_items(xs) + seq![']']
}

proof fn lemma_unescape_escaped(s: Seq<char>)
    ensures
        unescape(escape_toml(s)) == Ok::<Seq<char>, ConfigErrorKind>(s),
    decreases s.len(),
{
    if s.len() > 0 {
        let c = s[0];
        let e = escape_toml(s);
        let ec = escaped_char(c);
        let et = escape_toml(s.drop_first());
        lemma_unescape_escaped(s.drop_first());
        assert(e == ec + et);
        if ec.len() == 1 {
            assert(e[0] == c);
            assert(e.drop_first() =~= et);
            assert(seq![c] + s.drop_first() =~= s);
        } else {
            assert(e[0] == '\\');
            assert(e[1] == ec[1]);
            assert(escape_target(ec[1]) == Some(c));
            assert(e.skip(2) =~= et);
            assert(seq![c] + s.drop_first() =~= s);
        }
    } else {
        assert(escape_toml(s) =~= Seq::<char>::empty());
        assert(s =~= Seq::<char>::empty());
    }
}

proof fn lemma_scan_body(inner: Seq<char>, i: int, st: ArrayScan, x: Seq<char>)
    requires
        0 <= i,
        i + escape_toml(x).len() <= inner.len(),
        inner.subrange(i, i + escape_toml(x).len()) == escape_toml(x),
        st.in_string,
        !st.escaped,
    ensures
        array_scan(inner, i, st) == array_scan(
            inner,
            i + escape_toml(x).len(),
            ArrayScan { current: st.current + escape_toml(x), ..st },
        ),
    decreases x.len(),
{
    let e = escape_toml(x);
    if x.len() == 0 {
        assert(st.current + e =~= st.current);
    } else {
        let c = x[0];
        let ec = escaped_char(c);
        let et = escape_toml(x.drop_first());
        assert(e == ec + et);
        let n = ec.len() as int;
        assert(inner.subrange(i + n, i + n + et.len()) =~= e.subrange(n, e.len() as int));
        assert(e.subrange(n, e.len() as int) =~= et);
        assert(inner[i] == e[0]);
        if n == 1 {
            assert(ec[0] == c);
            let st1 = ArrayScan { current: st.current.push(c), ..st };
            assert(array_scan(inner, i, st) == array_scan(inner, i + 1, st1));
            lemma_scan_body(inner, i + 1, st1, x.drop_first());
            assert(st1.current + et =~= st.current + e);
        } else {
            assert(inner[i + 1] == e[1]);
            let st1 = ArrayScan { escaped: true, ..st };
            let st2 = ArrayScan { current: st.current.push('\\').push(ec[1]), escaped: false, ..st };
            assert(array_scan(inner, i, st) == array_scan(inner, i + 1, st1));
            assert(array_scan(inner, i + 1, st1) == array_scan(inner, i + 2, st2));
            lemma_scan_body(inner, i + 2, st2, x.drop_first());
            assert(st2.current + et =~= st.current + e);
        }
    }
}

proof fn lemma_scan_quoted(inner: Seq<char>, i: int, st: ArrayScan, x: Seq<char>)
    requires
        0 <= i,
        i + quoted(x).len() <= inner.len(),
        inner.subrange(i, i + quoted(x).len()) == quoted(x),
        !st.in_string,
        !st.escaped,
    ensures
        array_scan(inner, i, st) == array_scan(
            inner,
            i + quoted(x).len(),
            ArrayScan { current: st.current + quoted(x), ..st },
        ),
{
    let q = quoted(x);
    let e = escape_toml(x);
    assert(inner[i] == q[0]);
    let st1 = ArrayScan { current: st.current.push('"'), in_string: true, ..st };
    assert(array_scan(inner, i, st) == array_scan(inner, i + 1, st1));
    assert(inner.subrange(i + 1, i + 1 + e.len()) =~= q.subrange(1, 1 + e.len() as int));
    assert(q.subrange(1, 1 + e.len() as int) =~= e);
    lemma_scan_body(inner, i + 1, st1, x);
    let j = i + 1 + e.len();
    let st2 = ArrayScan { current: st1.current + e, ..st1 };
    assert(inner[j] == q[1 + e.len() as int]);
    let st3 = ArrayScan { current: st2.current.push('"'), in_string: false, ..st2 };
    assert(array_scan(inner, j, st2) == array_scan(inner, j + 1, st3));
    assert(st3.current =~= st.current + q);
}

proof fn lemma_whitespace_facts()
    ensures
        is_whitespace(' '),
        !is_whitespace('"'),
        !is_whitespace('['),
        !is_whitespace(']'),
{
}

proof fn lemma_trim_quoted(c0: Seq<char>, x: Seq<char>)
    requires
        forall|k: int| 0 <= k < c0.len() ==> is_whitespace(#[trigger] c0[k]),
    ensures
        trim(c0 + quoted(x)) == quoted(x),
        string_value(quoted(x)) == Ok::<Seq<char>, ConfigErrorKind>(x),
{
    lemma_whitespace_facts();
    let q = quoted(x);
    let s = c0 + q;
    assert forall|k: int| 0 <= k < c0.len() implies is_whitespace(#[trigger] s[k]) by {
        assert(s[k] == c0[k]);
    }
    crate::text::lemma_trim_start_skip(s, c0.len() as int);
    assert(s.subrange(c0.len() as int, s.len() as int) =~= q);
    assert(q[0] == '"');
    assert(q.last() == '"');
    assert(trim_start(q) == q);
    assert(trim_end(q) == q);
    assert(trim(q) == q);
    assert(q.subrange(1, q.len() - 1) =~= escape_toml(x));
    lemma_unescape_escaped(x);
}

proof fn lemma_joined_ends(xs: Seq<Seq<char>>)
    requires
        xs.len() > 0,
    ensures
        joined_items(xs).len() > 0,
        joined_items(xs)[0] == '"',
        joined_items(xs).last() == '"',
    decreases xs.len(),
{
    if xs.len() > 1 {
        lemma_joined_ends(xs.drop_first());
    }
}

proof fn lemma_scan_items(inner: Seq<char>, i: int, st: ArrayScan, xs: Seq<Seq<char>>)
    requires
        0 <= i <= inner.len(),
        xs.len() > 0,
        inner.subrange(i, inner.len() as int) == joined_items(xs),
        !st.in_string,
        !st.escaped,
        forall|k: int| 0 <= k < st.current.len() ==> is_whitespace(#[trigger] st.current[k]),
    ensures
        array_scan(inner, i, st) == Ok::<Seq<Seq<char>>, ConfigErrorKind>(st.values + xs),
    decreases xs.len(),
{
    lemma_whitespace_facts();
    let x = xs[0];
    let q = quoted(x);
    let rest = inner.subrange(i, inner.len() as int);
    let tail = joined_items(xs.drop_first());
    if xs.len() == 1 {
        assert(rest == q);
    } else {
        assert(rest == q + seq![',', ' '] + tail);
    }
    assert(q.len() <= rest.len());
    assert(rest.subrange(0, q.len() as int) =~= q);
    assert(inner.subrange(i, i + q.len()) =~= rest.subrange(0, q.len() as int));
    lemma_scan_quoted(inner, i, st, x);
    let st1 = ArrayScan { current: st.current + q, ..st };
    lemma_trim_quoted(st.current, x);
    let j = i + q.len();
    if xs.len() == 1 {
        assert(j == inner.len());
        assert(array_scan(inner, j, st1) == array_finish(st1));
        assert(st.values.push(x) =~= st.values + xs);
    } else {
        assert(rest == q + seq![',', ' '] + tail);
        assert(inner[j] == rest[q.len() as int]);
        assert(inner[j + 1] == rest[q.len() as int + 1]);
        assert(inner[j] == ',');
        assert(inner[j + 1] == ' ');
        let st2 = ArrayScan { values: st.values.push(x), current: Seq::empty(), ..st1 };
        assert(array_scan(inner, j, st1) == array_scan(inner, j + 1, st2));
        let st3 = ArrayScan { current: st2.current.push(' '), ..st2 };
        assert(array_scan(inner, j + 1, st2) == array_scan(inner, j + 2, st3));
        assert(rest.subrange(q.len() as int + 2, rest.len() as int) =~= tail);
        assert(inner.subrange(j + 2, inner.len() as int) =~= rest.subrange(q.len() as int + 2, rest.len() as int));
        assert(st3.current =~= seq![' ']);
        lemma_scan_items(inner, j + 2, st3, xs.drop_first());
        assert(st.values.push(x) + xs.drop_first() =~= st.values + xs);
    }
}

/// Writing strings as a string array value and reading it back gives the same strings.
pub proof fn lemma_string_array_round_trip(xs: Seq<Seq<char>>)
    ensures
        string_array_value(array_text(xs)) == Ok::<Seq<Seq<char>>, ConfigErrorKind>(xs),
{
    lemma_whitespace_facts();
    let v = array_text(xs);
    let j = joined_items(xs);
    assert(v[0] == '[');
    assert(v.last() == ']');
    assert(trim_start(v) == v);
    assert(trim_end(v) == v);
    assert(v.subrange(1, v.len() - 1) =~= j);
    if xs.len() == 0 {
        assert(j =~= Seq::<char>::empty());
        assert(trim(j) =~= Seq::<char>::empty());
        assert(xs =~= Seq::<Seq<char>>::empty());
    } else {
        lemma_joined_ends(xs);
        assert(trim_start(j) == j);
        assert(trim_end(j) == j);
        assert(j.subrange(0, j.len() as int) =~= j);
        let st = ArrayScan { values: Seq::empty(), current: Seq::empty(), in_string: false, escaped: false };
        lemma_scan_items(j, 0, st, xs);
        assert(Seq::<Seq<char>>::empty() + xs =~= xs);
    }
}

/// A `key = value` line inside `[viewer.spice]` or `[viewer.vnc]`.
pub open spec fn viewer_key(v: ViewerLaunchView, key: Seq<char>, value: Seq<char>) -> Result<
    ViewerLaunchView,
    ConfigErrorKind,
> {
    if key == "command"@ {
        match string_value(value) {
            Ok(s) => Ok(ViewerLaunchView { command: s, ..v }),
            Err(e) => Err(e),
        }
    } else if key == "args"@ {
        match string_array_value(value) {
            Ok(a) => Ok(ViewerLaunchView { args: a, ..v }),
            Err(e) => Err(e),
        }
    } else if key == "run_as_invoking_user"@ {
        match bool_value(value) {
            Ok(b) => Ok(ViewerLaunchView { run_as_invoking_user: b, ..v }),
            Err(e) => Err(e),
        }
    } else {
        Ok(v)
    }
}

/// The settings of the `[proxmox]`, `[vnc]`, `[spice]`, `[ui]` and `[logging]` tables.
pub struct GeneralView {
    pub node: Seq<char>,
    pub command_timeout_secs: nat,
    pub vnc_enabled: bool,
    pub vnc_profile_dir: Seq<char>,
    pub spice_enabled: bool,
    pub vv_dir: Seq<char>,
    pub delete_vv_after_secs: nat,
    pub refresh_interval_secs: nat,
    pub confirm_destructive_actions: bool,
    pub log_file: Seq<char>,
}

pub open spec fn general_view(c: Config) -> GeneralView {
    GeneralView {
        node: c.proxmox.node@,
        command_timeout_secs: c.proxmox.command_timeout_secs as nat,
        vnc_enabled: c.vnc.enabled,
        vnc_profile_dir: c.vnc.profile_dir@,
        spice_enabled: c.spice.enabled,
        vv_dir: c.spice.vv_dir@,
        delete_vv_after_secs: c.spice.delete_vv_after_secs as nat,
        refresh_interval_secs: c.ui.refresh_interval_secs as nat,
        confirm_destructive_actions: c.ui.confirm_destructive_actions,
        log_file: c.logging.file@,
    }
}

pub open spec fn with_string(
    g: GeneralView,
    value: Seq<char>,
    set: spec_fn(GeneralView, Seq<char>) -> GeneralView,
) -> Result<GeneralView, ConfigErrorKind> {
    match string_value(value) {
        Ok(x) => Ok(set(g, x)),
        Err(e) => Err(e),
    }
}

pub open spec fn with_integer(g: GeneralView, value: Seq<char>, set: spec_fn(GeneralView, nat) -> GeneralView) -> Result<
    GeneralView,
    ConfigErrorKind,
> {
    match integer_value(value) {
        Ok(n) => Ok(set(g, n)),
        Err(e) => Err(e),
    }
}

pub open spec fn with_bool(g: GeneralView, value: Seq<char>, set: spec_fn(GeneralView, bool) -> GeneralView) -> Result<
    GeneralView,
    ConfigErrorKind,
> {
    match bool_value(value) {
        Ok(b) => Ok(set(g, b)),
        Err(e) => Err(e),
    }
}

/// A `key = value` line inside `[proxmox]` (`node`, `command_timeout_sec`), `[vnc]`
/// (`enabled`, `remmina_profile_dir`), `[spice]` (`enabled`, `vv_dir`,
/// `delete_vv_after_sec`), `[ui]` (`refresh_interval_sec`,
/// `confirm_destructive_actions`) or `[logging]` (`file`); other keys change nothing.
pub open spec fn general_key(g: GeneralView, section: ConfigSection, key: Seq<char>, value: Seq<char>) -> Result<
    GeneralView,
    ConfigErrorKind,
> {
    match section {
        ConfigSection::Proxmox => if key == "node"@ {
            with_string(g, value, |g: GeneralView, x: Seq<char>| GeneralView { node: x, ..g })
        } else if key == "command_timeout_sec"@ {
            with_integer(g, value, |g: GeneralView, n: nat| GeneralView { command_timeout_secs: n, ..g })
        } else {
            Ok(g)
        },
        ConfigSection::Vnc => if key == "enabled"@ {
            with_bool(g, value, |g: GeneralView, b: bool| GeneralView { vnc_enabled: b, ..g })
        } else if key == "remmina_profile_dir"@ {
            with_string(g, value, |g: GeneralView, x: Seq<char>| GeneralView { vnc_profile_dir: x, ..g })
        } else {
            Ok(g)
        },
        ConfigSection::Spice => if key == "enabled"@ {
            with_bool(g, value, |g: GeneralView, b: bool| GeneralView { spice_enabled: b, ..g })
        } else if key == "vv_dir"@ {
            with_string(g, value, |g: GeneralView, x: Seq<char>| GeneralView { vv_dir: x, ..g })
        } else if key == "delete_vv_after_sec"@ {
            with_integer(g, value, |g: GeneralView, n: nat| GeneralView { delete_vv_after_secs: n, ..g })
        } else {
            Ok(g)
        },
        ConfigSection::Ui => if key == "refresh_interval_sec"@ {
            with_integer(g, value, |g: GeneralView, n: nat| GeneralView { refresh_interval_secs: n, ..g })
        } else if key == "confirm_destructive_actions"@ {
            with_bool(g, value, |g: GeneralView, b: bool| GeneralView { confirm_destructive_actions: b, ..g })
        } else {
            Ok(g)
        },
        ConfigSection::Logging => if key == "file"@ {
            with_string(g, value, |g: GeneralView, x: Seq<char>| GeneralView { log_file: x, ..g })
        } else {
            Ok(g)
        },
        _ => Ok(g),
    }
}

/// Each settings key sets its own setting and no other: with a readable value, `node`
/// sets the node, `command_timeout_sec` the command time limit, `[vnc] enabled` and
/// `[spice] enabled` their protocol, the directories their directory,
/// `delete_vv_after_sec` the `.vv` lifetime, `refresh_interval_sec` the refresh interval,
/// `confirm_destructive_actions` the confirmation, and `file` the log file.
pub proof fn lemma_general_keys_set_their_setting(g: GeneralView, value: Seq<char>, x: Seq<char>, n: nat, b: bool)
    ensures
        string_value(value) == Ok::<Seq<char>, ConfigErrorKind>(x) ==> {
            &&& general_key(g, ConfigSection::Proxmox, "node"@, value) == Ok::<GeneralView, ConfigErrorKind>(GeneralView { node: x, ..g })
            &&& general_key(g, ConfigSection::Vnc, "remmina_profile_dir"@, value) == Ok::<GeneralView, ConfigErrorKind>(GeneralView { vnc_profile_dir: x, ..g })
            &&& general_key(g, ConfigSection::Spice, "vv_dir"@, value) == Ok::<GeneralView, ConfigErrorKind>(GeneralView { vv_dir: x, ..g })
            &&& general_key(g, ConfigSection::Logging, "file"@, value) == Ok::<GeneralView, ConfigErrorKind>(GeneralView { log_file: x, ..g })
        },
        integer_value(value) == Ok::<nat, ConfigErrorKind>(n) ==> {
            &&& general_key(g, ConfigSection::Proxmox, "command_timeout_sec"@, value) == Ok::<GeneralView, ConfigErrorKind>(GeneralView { command_timeout_secs: n, ..g })
            &&& general_key(g, ConfigSection::Spice, "delete_vv_after_sec"@, value) == Ok::<GeneralView, ConfigErrorKind>(GeneralView { delete_vv_after_secs: n, ..g })
            &&& general_key(g, ConfigSection::Ui, "refresh_interval_sec"@, value) == Ok::<GeneralView, ConfigErrorKind>(GeneralView { refresh_interval_secs: n, ..g })
        },
        bool_value(value) == Ok::<bool, ConfigErrorKind>(b) ==> {
            &&& general_key(g, ConfigSection::Vnc, "enabled"@, value) == Ok::<GeneralView, ConfigErrorKind>(GeneralView { vnc_enabled: b, ..g })
            &&& general_key(g, ConfigSection::Spice, "enabled"@, value) == Ok::<GeneralView, ConfigErrorKind>(GeneralView { spice_enabled: b, ..g })
            &&& general_key(g, ConfigSection::Ui, "confirm_destructive_actions"@, value) == Ok::<GeneralView, ConfigErrorKind>(GeneralView { confirm_destructive_actions: b, ..g })
        },
{
    reveal_strlit("node");
    reveal_strlit("command_timeout_sec");
    reveal_strlit("enabled");
    reveal_strlit("remmina_profile_dir");
    reveal_strlit("vv_dir");
    reveal_strlit("delete_vv_after_sec");
    reveal_strlit("refresh_interval_sec");
    reveal_strlit("confirm_destructive_actions");
    reveal_strlit("file");
    assert("remmina_profile_dir"@.len() != "enabled"@.len());
    assert("command_timeout_sec"@.len() != "node"@.len());
    assert("delete_vv_after_sec"@.len() != "enabled"@.len());
    assert("delete_vv_after_sec"@.len() != "vv_dir"@.len());
    assert("vv_dir"@.len() != "enabled"@.len());
    assert("confirm_destructive_actions"@.len() != "refresh_interval_sec"@.len());
    if string_value(value) == Ok::<Seq<char>, ConfigErrorKind>(x) {
        assert(general_key(g, ConfigSection::Proxmox, "node"@, value) == Ok::<GeneralView, ConfigErrorKind>(GeneralView { node: x, ..g }));
        assert(general_key(g, ConfigSection::Vnc, "remmina_profile_dir"@, value) == Ok::<GeneralView, ConfigErrorKind>(GeneralView { vnc_profile_dir: x, ..g }));
        assert(general_key(g, ConfigSection::Spice, "vv_dir"@, value) == Ok::<GeneralView, ConfigErrorKind>(GeneralView { vv_dir: x, ..g }));
        assert(general_key(g, ConfigSection::Logging, "file"@, value) == Ok::<GeneralView, ConfigErrorKind>(GeneralView { log_file: x, ..g }));
    }
    if integer_value(value) == Ok::<nat, ConfigErrorKind>(n) {
        assert(general_key(g, ConfigSection::Proxmox, "command_timeout_sec"@, value) == Ok::<GeneralView, ConfigErrorKind>(GeneralView { command_timeout_secs: n, ..g }));
        assert(general_key(g, ConfigSection::Spice, "delete_vv_after_sec"@, value) == Ok::<GeneralView, ConfigErrorKind>(GeneralView { delete_vv_after_secs: n, ..g }));
        assert(general_key(g, ConfigSection::Ui, "refresh_interval_sec"@, value) == Ok::<GeneralView, ConfigErrorKind>(GeneralView { refresh_interval_secs: n, ..g }));
    }
}

/// Each viewer key sets its own setting: `command` the program, `args` its arguments,
/// `run_as_invoking_user` who runs it; the variables are left alone.
pub proof fn lemma_viewer_keys_set_their_setting(v: ViewerLaunchView, value: Seq<char>, x: Seq<char>, xs: Seq<Seq<char>>, b: bool)
    ensures
        string_value(value) == Ok::<Seq<char>, ConfigErrorKind>(x) ==> viewer_key(v, "command"@, value) == Ok::<ViewerLaunchView, ConfigErrorKind>(ViewerLaunchView { command: x, ..v }),
        string_array_value(value) == Ok::<Seq<Seq<char>>, ConfigErrorKind>(xs) ==> viewer_key(v, "args"@, value) == Ok::<ViewerLaunchView, ConfigErrorKind>(ViewerLaunchView { args: xs, ..v }),
        bool_value(value) == Ok::<bool, ConfigErrorKind>(b) ==> viewer_key(v, "run_as_invoking_user"@, value) == Ok::<ViewerLaunchView, ConfigErrorKind>(ViewerLaunchView { run_as_invoking_user: b, ..v }),
{
    reveal_strlit("command");
    reveal_strlit("args");
    reveal_strlit("run_as_invoking_user");
    if string_array_value(value) == Ok::<Seq<Seq<char>>, ConfigErrorKind>(xs) {
        assert("args"@ != "command"@) by {
            assert("args"@.len() != "command"@.len());
        }
    }
    if bool_value(value) == Ok::<bool, ConfigErrorKind>(b) {
        assert("run_as_invoking_user"@ != "command"@) by {
            assert("run_as_invoking_user"@.len() != "command"@.len());
        }
        assert("run_as_invoking_user"@ != "args"@) by {
            assert("run_as_invoking_user"@.len() != "args"@.len());
        }
    }
}

/// The table headers: `[proxmox]`, `[vnc]`, `[spice]`, `[ui]`, `[logging]`,
/// `[viewer.spice]`, `[viewer.spice.env]`, `[viewer.vnc]` and `[viewer.vnc.env]` open
/// their own section.
pub proof fn lemma_section_names(name: Seq<char>)
    ensures
        ({
            let r = section_of(seq!['['] + name + seq![']']);
            &&& name == "proxmox"@ ==> r == Ok::<ConfigSection, ConfigErrorKind>(ConfigSection::Proxmox)
            &&& name == "vnc"@ ==> r == Ok::<ConfigSection, ConfigErrorKind>(ConfigSection::Vnc)
            &&& name == "spice"@ ==> r == Ok::<ConfigSection, ConfigErrorKind>(ConfigSection::Spice)
            &&& name == "ui"@ ==> r == Ok::<ConfigSection, ConfigErrorKind>(ConfigSection::Ui)
            &&& name == "logging"@ ==> r == Ok::<ConfigSection, ConfigErrorKind>(ConfigSection::Logging)
            &&& name == "viewer.spice"@ ==> r == Ok::<ConfigSection, ConfigErrorKind>(ConfigSection::ViewerSpice)
            &&& name == "viewer.spice.env"@ ==> r == Ok::<ConfigSection, ConfigErrorKind>(ConfigSection::ViewerSpiceEnv)
            &&& name == "viewer.vnc"@ ==> r == Ok::<ConfigSection, ConfigErrorKind>(ConfigSection::ViewerVnc)
            &&& name == "viewer.vnc.env"@ ==> r == Ok::<ConfigSection, ConfigErrorKind>(ConfigSection::ViewerVncEnv)
        }),
{
    let l = seq!['['] + name + seq![']'];
    assert(l.subrange(1, l.len() - 1) =~= name);
    reveal_strlit("proxmox");
    reveal_strlit("vnc");
    reveal_strlit("spice");
    reveal_strlit("ui");
    reveal_strlit("logging");
    reveal_strlit("viewer.spice");
    reveal_strlit("viewer.spice.env");
    reveal_strlit("viewer.vnc");
    reveal_strlit("viewer.vnc.env");
    assert("proxmox"@[0] != "logging"@[0]);
}

// ----- executable readers --------------------------------------------------

/// The end of `v[a..b]` once its comment is cut off.
fn comment_end(v: &Vec<char>, a: usize, b: usize) -> (e: usize)
    requires
        a <= b <= v@.len(),
    ensures
        a <= e <= b,
        v@.subrange(a as int, e as int) == strip_comment(v@.subrange(a as int, b as int)),
{
    let ghost line = v@.subrange(a as int, b as int);
    let mut i: usize = a;
    let mut in_string = false;
    let mut escaped = false;
    while i < b
        invariant
            a <= i <= b <= v@.len(),
            line == v@.subrange(a as int, b as int),
            comment_scan(line, 0, false, false) == comment_scan(line, i - a, in_string, escaped),
        decreases b - i,
    {
        let c = v[i];
        assert(line[i - a] == c);
        if escaped {
            escaped = false;
        } else if c == '\\' && in_string {
            escaped = true;
        } else if c == '"' {
            in_string = !in_string;
        } else if c == '#' && !in_string {
            assert(line.subrange(0, i - a) =~= v@.subrange(a as int, i as int));
            return i;
        }
        i = i + 1;
    }
    assert(line.subrange(0, line.len() as int) =~= line);
    b
}

/// The section opened by the header `v[a..b]`, which starts with `[`.
fn section_header(v: &Vec<char>, a: usize, b: usize) -> (r: Result<ConfigSection, ConfigErrorKind>)
    requires
        a < b <= v@.len(),
        v@[a as int] == '[',
    ensures
        r == section_of(v@.subrange(a as int, b as int)),
{
    let ghost l = v@.subrange(a as int, b as int);
    assert(l.last() == v@[b - 1]);
    if v[b - 1] != ']' {
        assert(section_of(l) == Err::<ConfigSection, ConfigErrorKind>(ConfigErrorKind::UnterminatedSection));
        return Err(ConfigErrorKind::UnterminatedSection);
    }
    if b - a < 2 {
        assert(l.len() == 1 && l[0] == l.last());
        return Err(ConfigErrorKind::UnterminatedSection);
    }
    let name = slice_of(v, a + 1, b - 1);
    assert(name@ =~= l.subrange(1, l.len() - 1));
    if chars_eq_str(&name, "proxmox") {
        Ok(ConfigSection::Proxmox)
    } else if chars_eq_str(&name, "vnc") {
        Ok(ConfigSection::Vnc)
    } else if chars_eq_str(&name, "spice") {
        Ok(ConfigSection::Spice)
    } else if chars_eq_str(&name, "ui") {
        Ok(ConfigSection::Ui)
    } else if chars_eq_str(&name, "logging") {
        Ok(ConfigSection::Logging)
    } else if chars_eq_str(&name, "viewer.spice") {
        Ok(ConfigSection::ViewerSpice)
    } else if chars_eq_str(&name, "viewer.spice.env") {
        Ok(ConfigSection::ViewerSpiceEnv)
    } else if chars_eq_str(&name, "viewer.vnc") {
        Ok(ConfigSection::ViewerVnc)
    } else if chars_eq_str(&name, "viewer.vnc.env") {
        Ok(ConfigSection::ViewerVncEnv)
    } else {
        Ok(ConfigSection::Other)
    }
}

/// The trimmed key and value of the assignment `v[a..b]`.
fn assignment(v: &Vec<char>, a: usize, b: usize) -> (r: Result<(Vec<char>, Vec<char>), ConfigErrorKind>)
    requires
        a <= b <= v@.len(),
    ensures
        match r {
            Ok((k, x)) => split_assignment(v@.subrange(a as int, b as int)) == Ok::<
                (Seq<char>, Seq<char>),
                ConfigErrorKind,
            >((k@, x@)),
            Err(e) => split_assignment(v@.subrange(a as int, b as int)) == Err::<
                (Seq<char>, Seq<char>),
                ConfigErrorKind,
            >(e),
        },
{
    let ghost l = v@.subrange(a as int, b as int);
    let mut i: usize = a;
    while i < b && v[i] != '='
        invariant
            a <= i <= b <= v@.len(),
            l == v@.subrange(a as int, b as int),
            index_from(l, '=', 0) == index_from(l, '=', i - a),
        decreases b - i,
    {
        assert(l[i - a] == v@[i as int]);
        i = i + 1;
    }
    proof {
        if i < b {
            assert(l[i - a] == v@[i as int]);
        }
    }
    if i == b {
        return Err(ConfigErrorKind::ExpectedAssignment);
    }
    let (ka, kb) = trim_bounds(v, a, i);
    assert(l.subrange(0, i - a) =~= v@.subrange(a as int, i as int));
    if ka == kb {
        return Err(ConfigErrorKind::EmptyKey);
    }
    let (va, vb) = trim_bounds(v, i + 1, b);
    assert(l.subrange(i - a + 1, l.len() as int) =~= v@.subrange(i + 1, b as int));
    Ok((slice_of(v, ka, kb), slice_of(v, va, vb)))
}

/// Reads a boolean value.
fn parse_bool(value: &Vec<char>) -> (r: Result<bool, ConfigErrorKind>)
    ensures
        r == bool_value(value@),
{
    let (a, b) = trim_bounds(value, 0, value.len());
    assert(value@.subrange(0, value@.len() as int) =~= value@);
    let t = slice_of(value, a, b);
    if chars_eq_str(&t, "true") {
        Ok(true)
    } else if chars_eq_str(&t, "false") {
        Ok(false)
    } else {
        Err(ConfigErrorKind::ExpectedBoolean)
    }
}

/// Replaces the escapes of a quoted string's body `v[a..b]`.
fn unescape_toml_string(v: &Vec<char>, a: usize, b: usize) -> (r: Result<String, ConfigErrorKind>)
    requires
        a <= b <= v@.len(),
    ensures
        match r {
            Ok(s) => unescape(v@.subrange(a as int, b as int)) == Ok::<Seq<char>, ConfigErrorKind>(s@),
            Err(e) => unescape(v@.subrange(a as int, b as int)) == Err::<Seq<char>, ConfigErrorKind>(e),
        },
{
    let ghost s = v@.subrange(a as int, b as int);
    let mut out = String::new();
    let mut i: usize = a;
    assert(s.skip(0) =~= s);
    while i < b
        invariant
            a <= i <= b <= v@.len(),
            s == v@.subrange(a as int, b as int),
            unescape(s) == prefixed(out@, unescape(s.skip(i - a))),
        decreases b - i,
    {
        let ghost rest = s.skip(i - a);
        assert(rest[0] == v@[i as int]);
        let c = v[i];
        if c != '\\' {
            assert(rest.drop_first() =~= s.skip(i - a + 1));
            assert(out@.push(c) =~= out@ + seq![c]);
            proof {
                match unescape(s.skip(i - a + 1)) {
                    Ok(x) => {
                        assert(out@ + (seq![c] + x) =~= out@.push(c) + x);
                    },
                    Err(_) => {},
                }
            }
            push_char(&mut out, c);
            i = i + 1;
        } else if i + 1 == b {
            assert(rest.len() == 1);
            return Err(ConfigErrorKind::UnterminatedEscape);
        } else {
            let n = v[i + 1];
            assert(rest[1] == n);
            let target: char = if n == 'n' {
                '\n'
            } else if n == 'r' {
                '\r'
            } else if n == 't' {
                '\t'
            } else if n == '"' {
                '"'
            } else if n == '\\' {
                '\\'
            } else {
                return Err(ConfigErrorKind::UnsupportedEscape(n));
            };
            assert(escape_target(n) == Some(target));
            assert(rest.skip(2) =~= s.skip(i - a + 2));
            proof {
                match unescape(s.skip(i - a + 2)) {
                    Ok(x) => {
                        assert(out@ + (seq![target] + x) =~= out@.push(target) + x);
                    },
                    Err(_) => {},
                }
            }
            push_char(&mut out, target);
            i = i + 2;
        }
    }
    assert(s.skip(b - a) =~= Seq::<char>::empty());
    assert(out@ + Seq::<char>::empty() =~= out@);
    Ok(out)
}

/// Reads a double-quoted string value `v[a..b]`.
fn parse_string(v: &Vec<char>, a: usize, b: usize) -> (r: Result<String, ConfigErrorKind>)
    requires
        a <= b <= v@.len(),
    ensures
        match r {
            Ok(s) => string_value(v@.subrange(a as int, b as int)) == Ok::<Seq<char>, ConfigErrorKind>(s@),
            Err(e) => string_value(v@.subrange(a as int, b as int)) == Err::<Seq<char>, ConfigErrorKind>(e),
        },
{
    let (ta, tb) = trim_bounds(v, a, b);
    let ghost t = v@.subrange(ta as int, tb as int);
    if !(ta < tb && v[ta] == '"' && v[tb - 1] == '"') {
        proof {
            if t.len() > 0 {
                assert(t[0] == v@[ta as int]);
                assert(t.last() == v@[tb - 1]);
            }
        }
        return Err(ConfigErrorKind::ExpectedQuotedString);
    }
    assert(t[0] == v@[ta as int] && t.last() == v@[tb - 1]);
    if tb - ta == 1 {
        return Err(ConfigErrorKind::LoneQuote);
    }
    assert(t.subrange(1, t.len() - 1) =~= v@.subrange(ta + 1, tb - 1));
    unescape_toml_string(v, ta + 1, tb - 1)
}

/// Reads a string array value `v[a..b]`.
fn read_string_array(v: &Vec<char>, a: usize, b: usize) -> (r: Result<Vec<String>, ConfigErrorKind>)
    requires
        a <= b <= v@.len(),
    ensures
        match r {
            Ok(xs) => string_array_value(v@.subrange(a as int, b as int)) == Ok::<
                Seq<Seq<char>>,
                ConfigErrorKind,
            >(strings_view(xs@)),
            Err(e) => string_array_value(v@.subrange(a as int, b as int)) == Err::<
                Seq<Seq<char>>,
                ConfigErrorKind,
            >(e),
        },
{
    let (ta, tb) = trim_bounds(v, a, b);
    let ghost t = v@.subrange(ta as int, tb as int);
    if !(ta < tb && v[ta] == '[' && v[tb - 1] == ']') {
        proof {
            if t.len() > 0 {
                assert(t[0] == v@[ta as int]);
                assert(t.last() == v@[tb - 1]);
            }
        }
        return Err(ConfigErrorKind::ExpectedStringArray);
    }
    assert(t[0] == v@[ta as int] && t.last() == v@[tb - 1]);
    assert(tb - ta >= 2);
    let (ia, ib) = trim_bounds(v, ta + 1, tb - 1);
    assert(t.subrange(1, t.len() - 1) =~= v@.subrange(ta + 1, tb - 1));
    let ghost inner = v@.subrange(ia as int, ib as int);
    let mut values: Vec<String> = Vec::new();
    if ia == ib {
        assert(strings_view(values@) =~= Seq::<Seq<char>>::empty());
        return Ok(values);
    }
    let mut current: Vec<char> = Vec::new();
    let mut in_string = false;
    let mut escaped = false;
    let mut i: usize = ia;
    assert(strings_view(values@) =~= Seq::<Seq<char>>::empty());
    assert(current@ =~= Seq::<char>::empty());
    while i < ib
        invariant
            ia <= i <= ib <= v@.len(),
            inner == v@.subrange(ia as int, ib as int),
            inner.len() > 0,
            string_array_value(v@.subrange(a as int, b as int)) == array_scan(inner, 0,
                ArrayScan { values: Seq::empty(), current: Seq::empty(), in_string: false, escaped: false }),
            array_scan(inner, 0,
                ArrayScan { values: Seq::empty(), current: Seq::empty(), in_string: false, escaped: false })
                == array_scan(inner, i - ia,
                ArrayScan { values: strings_view(values@), current: current@, in_string, escaped }),
        decreases ib - i,
    {
        let c = v[i];
        assert(inner[i - ia] == c);
        let ghost st0 = ArrayScan {
            values: strings_view(values@),
            current: current@,
            in_string,
            escaped,
        };
        if escaped {
            current.push('\\');
            current.push(c);
            escaped = false;
            assert(array_scan(inner, i - ia, st0) == array_scan(inner, i - ia + 1,
                ArrayScan { values: strings_view(values@), current: current@, in_string, escaped }));
        } else if c == '\\' && in_string {
            escaped = true;
            assert(array_scan(inner, i - ia, st0) == array_scan(inner, i - ia + 1,
                ArrayScan { values: strings_view(values@), current: current@, in_string, escaped }));
        } else if c == '"' {
            current.push(c);
            in_string = !in_string;
            assert(array_scan(inner, i - ia, st0) == array_scan(inner, i - ia + 1,
                ArrayScan { values: strings_view(values@), current: current@, in_string, escaped }));
        } else if c == ',' && !in_string {
            let (ca, cb) = trim_bounds(&current, 0, current.len());
            assert(current@.subrange(0, current@.len() as int) =~= current@);
            let item = parse_string(&current, ca, cb);
            match item {
                Ok(x) => {
                    values.push(x);
                    assert(strings_view(values@) =~= st0.values.push(x@));
                    current = Vec::new();
                    assert(current@ =~= Seq::<char>::empty());
                    assert(array_scan(inner, i - ia, st0) == array_scan(inner, i - ia + 1,
                        ArrayScan { values: strings_view(values@), current: current@, in_string, escaped }));
                },
                Err(e) => {
                    return Err(e);
                },
            }
        } else {
            current.push(c);
            assert(array_scan(inner, i - ia, st0) == array_scan(inner, i - ia + 1,
                ArrayScan { values: strings_view(values@), current: current@, in_string, escaped }));
        }
        i = i + 1;
    }
    let ghost st_end = ArrayScan { values: strings_view(values@), current: current@, in_string, escaped };
    assert(i == ib);
    assert(array_scan(inner, i - ia, st_end) == array_finish(st_end));
    assert(string_array_value(v@.subrange(a as int, b as int)) == array_finish(st_end));
    if in_string {
        return Err(ConfigErrorKind::UnterminatedArrayString);
    }
    if escaped {
        current.push('\\');
    }
    let (ca, cb) = trim_bounds(&current, 0, current.len());
    assert(current@.subrange(0, current@.len() as int) =~= current@);
    assert(current@ == (if st_end.escaped { st_end.current.push('\\') } else { st_end.current }));
    if ca < cb {
        match parse_string(&current, ca, cb) {
            Ok(x) => {
                values.push(x);
                assert(strings_view(values@) =~= st_end.values.push(x@));
                Ok(values)
            },
            Err(e) => Err(e),
        }
    } else {
        Ok(values)
    }
}

/// Reads a string array value such as `["--full-screen", "--title=a,b"]`: items are
/// split at commas outside quoted strings, and each is a quoted string with escapes.
pub fn parse_string_array(value: &str) -> (r: Result<Vec<String>, ConfigErrorKind>)
    ensures
        match r {
            Ok(xs) => string_array_value(value@) == Ok::<Seq<Seq<char>>, ConfigErrorKind>(strings_view(xs@)),
            Err(e) => string_array_value(value@) == Err::<Seq<Seq<char>>, ConfigErrorKind>(e),
        },
{
    let v = chars_of(value);
    assert(v@.subrange(0, v@.len() as int) =~= v@);
    read_string_array(&v, 0, v.len())
}

/// Applies one `key = value` line of a viewer section.
fn apply_viewer_key(viewer: &mut ViewerLaunchConfig, key: &Vec<char>, value: &Vec<char>) -> (r:
    Result<(), ConfigErrorKind>)
    ensures
        match r {
            Ok(_) => viewer_key(old(viewer)@, key@, value@) == Ok::<ViewerLaunchView, ConfigErrorKind>(final(viewer)@),
            Err(e) => viewer_key(old(viewer)@, key@, value@) == Err::<ViewerLaunchView, ConfigErrorKind>(e)
                && final(viewer)@ == old(viewer)@,
        },
{
    assert(value@.subrange(0, value@.len() as int) =~= value@);
    if chars_eq_str(key, "command") {
        let s = parse_string(value, 0, value.len())?;
        viewer.command = s;
        Ok(())
    } else if chars_eq_str(key, "args") {
        let xs = read_string_array(value, 0, value.len())?;
        viewer.args = xs;
        Ok(())
    } else if chars_eq_str(key, "run_as_invoking_user") {
        let b = parse_bool(value)?;
        viewer.run_as_invoking_user = b;
        Ok(())
    } else {
        Ok(())
    }
}

/// Reads a whole number of seconds.
fn parse_integer(value: &Vec<char>) -> (r: Result<u64, ConfigErrorKind>)
    ensures
        match r {
            Ok(n) => integer_value(value@) == Ok::<nat, ConfigErrorKind>(n as nat),
            Err(e) => integer_value(value@) == Err::<nat, ConfigErrorKind>(e),
        },
{
    let (a, b) = trim_bounds(value, 0, value.len());
    assert(value@.subrange(0, value@.len() as int) =~= value@);
    let t = slice_of(value, a, b);
    match crate::text::parse_unsigned_chars(&t, u64::MAX) {
        Ok(n) => Ok(n),
        Err(_) => Err(ConfigErrorKind::ExpectedInteger),
    }
}

/// Applies one `key = value` line of the `[proxmox]`, `[vnc]`, `[spice]`, `[ui]` or
/// `[logging]` table.
fn apply_general_key(config: &mut Config, section: ConfigSection, key: &Vec<char>, value: &Vec<char>) -> (r:
    Result<(), ConfigErrorKind>)
    ensures
        final(config).keep_temp_files == old(config).keep_temp_files,
        final(config).vnc.delete_profile_after_secs == old(config).vnc.delete_profile_after_secs,
        final(config).viewer == old(config).viewer,
        r is Err ==> general_view(*final(config)) == general_view(*old(config)),
        match r {
            Ok(_) => general_key(general_view(*old(config)), section, key@, value@) == Ok::<
                GeneralView,
                ConfigErrorKind,
            >(general_view(*final(config))),
            Err(e) => general_key(general_view(*old(config)), section, key@, value@) == Err::<
                GeneralView,
                ConfigErrorKind,
            >(e),
        },
{
    assert(value@.subrange(0, value@.len() as int) =~= value@);
    match section {
        ConfigSection::Proxmox => {
            if chars_eq_str(key, "node") {
                let x = parse_string(value, 0, value.len())?;
                config.proxmox.node = x;
            } else if chars_eq_str(key, "command_timeout_sec") {
                let n = parse_integer(value)?;
                config.proxmox.command_timeout_secs = n;
            }
        },
        ConfigSection::Vnc => {
            if chars_eq_str(key, "enabled") {
                let b = parse_bool(value)?;
                config.vnc.enabled = b;
            } else if chars_eq_str(key, "remmina_profile_dir") {
                let x = parse_string(value, 0, value.len())?;
                config.vnc.profile_dir = x;
            }
        },
        ConfigSection::Spice => {
            if chars_eq_str(key, "enabled") {
                let b = parse_bool(value)?;
                config.spice.enabled = b;
            } else if chars_eq_str(key, "vv_dir") {
                let x = parse_string(value, 0, value.len())?;
                config.spice.vv_dir = x;
            } else if chars_eq_str(key, "delete_vv_after_sec") {
                let n = parse_integer(value)?;
                config.spice.delete_vv_after_secs = n;
            }
        },
        ConfigSection::Ui => {
            if chars_eq_str(key, "refresh_interval_sec") {
                let n = parse_integer(value)?;
                config.ui.refresh_interval_secs = n;
            } else if chars_eq_str(key, "confirm_destructive_actions") {
                let b = parse_bool(value)?;
                config.ui.confirm_destructive_actions = b;
            }
        },
        ConfigSection::Logging => {
            if chars_eq_str(key, "file") {
                let x = parse_string(value, 0, value.len())?;
                config.logging.file = x;
            }
        },
        _ => {},
    }
    Ok(())
}

// ----- the whole file -------------------------------------------------------

/// Where a settings error was found: the file and the 1-based line, when known.
#[derive(Debug)]
pub struct ConfigError {
    pub location: Option<(String, usize)>,
    pub kind: ConfigErrorKind,
}

pub struct ConfigErrorView {
    pub line: Option<nat>,
    pub kind: ConfigErrorKind,
}

/// What reading the settings file has gathered so far.
pub struct FileState {
    pub section: ConfigSection,
    pub general: GeneralView,
    pub spice: ViewerLaunchView,
    pub vnc: ViewerLaunchView,
    pub spice_env: Map<Seq<char>, Seq<char>>,
    pub vnc_env: Map<Seq<char>, Seq<char>>,
}

pub open spec fn error_at(number: nat, kind: ConfigErrorKind) -> ConfigErrorView {
    ConfigErrorView { line: Some(number), kind }
}

/// One line of the settings file, numbered from 1. Blank and comment lines change
/// nothing; a header changes the section; `key = value` changes a setting of the
/// section (see `general_key` and `viewer_key`) or one of a viewer's variables, or
/// nothing in other sections (it must still have the form `key = value`).
pub open spec fn apply_line(st: FileState, raw_line: Seq<char>, number: nat) -> Result<
    FileState,
    ConfigErrorView,
> {
    let l = trim(strip_comment(raw_line));
    if l.len() == 0 {
        Ok(st)
    } else if l[0] == '[' {
        match section_of(l) {
            Ok(sec) => Ok(FileState { section: sec, ..st }),
            Err(k) => Err(error_at(number, k)),
        }
    } else {
        match split_assignment(l) {
            Err(k) => Err(error_at(number, k)),
            Ok((key, value)) => match st.section {
                ConfigSection::ViewerSpice => match viewer_key(st.spice, key, value) {
                    Ok(v) => Ok(FileState { spice: v, ..st }),
                    Err(k) => Err(error_at(number, k)),
                },
                ConfigSection::ViewerVnc => match viewer_key(st.vnc, key, value) {
                    Ok(v) => Ok(FileState { vnc: v, ..st }),
                    Err(k) => Err(error_at(number, k)),
                },
                ConfigSection::ViewerSpiceEnv => match string_value(value) {
                    Ok(x) => Ok(FileState { spice_env: st.spice_env.insert(key, x), ..st }),
                    Err(k) => Err(ConfigErrorView { line: None, kind: k }),
                },
                ConfigSection::ViewerVncEnv => match string_value(value) {
                    Ok(x) => Ok(FileState { vnc_env: st.vnc_env.insert(key, x), ..st }),
                    Err(k) => Err(ConfigErrorView { line: None, kind: k }),
                },
                _ => match general_key(st.general, st.section, key, value) {
                    Ok(g) => Ok(FileState { general: g, ..st }),
                    Err(k) => Err(error_at(number, k)),
                },
            },
        }
    }
}

/// The lines from index `i` on, stopping at the first error.
pub open spec fn apply_lines(st: FileState, ls: Seq<Seq<char>>, i: int) -> (
    FileState,
    Option<ConfigErrorView>,
)
    decreases ls.len() - i,
{
    if i >= ls.len() {
        (st, None)
    } else {
        match apply_line(st, ls[i], (i + 1) as nat) {
            Ok(next) => apply_lines(next, ls, i + 1),
            Err(e) => (st, Some(e)),
        }
    }
}

/// Reading `raw` starting from the settings of `c`.
pub open spec fn read_settings(c: Config, raw: Seq<char>) -> (
    FileState,
    Option<ConfigErrorView>,
) {
    apply_lines(
        FileState {
            section: ConfigSection::Root,
            general: general_view(c),
            spice: c.viewer.spice@,
            vnc: c.viewer.vnc@,
            spice_env: Map::empty(),
            vnc_env: Map::empty(),
        },
        lines(raw),
        0,
    )
}

/// `b` is `a` with the table settings that reading gave: the file has no key for the
/// command-line flag or for how long VNC profiles are kept.
pub open spec fn general_after(a: Config, b: Config, read: GeneralView) -> bool {
    &&& b.keep_temp_files == a.keep_temp_files
    &&& b.vnc.delete_profile_after_secs == a.vnc.delete_profile_after_secs
    &&& general_view(b) == read
}

/// The viewer `v` after reading, given the state that reading ended in and its
/// variables `env`.
pub open spec fn viewer_after(
    old_v: ViewerLaunchView,
    read: ViewerLaunchView,
    env_map: Map<Seq<char>, Seq<char>>,
    failed: bool,
    new_v: ViewerLaunchView,
) -> bool {
    &&& new_v.command == read.command
    &&& new_v.args == read.args
    &&& new_v.run_as_invoking_user == read.run_as_invoking_user
    &&& if failed {
        new_v.env == old_v.env
    } else {
        keys_ascending(new_v.env) && assoc_map(new_v.env) == env_map
    }
}

pub open spec fn error_view(e: ConfigError) -> ConfigErrorView {
    ConfigErrorView {
        line: match e.location {
            Some((_, n)) => Some(n as nat),
            None => None,
        },
        kind: e.kind,
    }
}

/// `new` is what reading `raw` into `old` gives when the whole text was read.
pub open spec fn read_into(old: Config, raw: Seq<char>, new: Config) -> bool {
    let (st, err) = read_settings(old, raw);
    &&& err is None
    &&& general_after(old, new, st.general)
    &&& viewer_after(old.viewer.spice@, st.spice, st.spice_env, false, new.viewer.spice@)
    &&& viewer_after(old.viewer.vnc@, st.vnc, st.vnc_env, false, new.viewer.vnc@)
}

/// Each setting of `a` and `b` is equal, or is still the one they started from.
pub open spec fn field_agree<T>(a: T, b: T, a0: T, b0: T) -> bool {
    a == b || (a == a0 && b == b0)
}

pub open spec fn general_agree(a: GeneralView, b: GeneralView, a0: GeneralView, b0: GeneralView) -> bool {
    &&& field_agree(a.node, b.node, a0.node, b0.node)
    &&& field_agree(a.command_timeout_secs, b.command_timeout_secs, a0.command_timeout_secs, b0.command_timeout_secs)
    &&& field_agree(a.vnc_enabled, b.vnc_enabled, a0.vnc_enabled, b0.vnc_enabled)
    &&& field_agree(a.vnc_profile_dir, b.vnc_profile_dir, a0.vnc_profile_dir, b0.vnc_profile_dir)
    &&& field_agree(a.spice_enabled, b.spice_enabled, a0.spice_enabled, b0.spice_enabled)
    &&& field_agree(a.vv_dir, b.vv_dir, a0.vv_dir, b0.vv_dir)
    &&& field_agree(a.delete_vv_after_secs, b.delete_vv_after_secs, a0.delete_vv_after_secs, b0.delete_vv_after_secs)
    &&& field_agree(a.refresh_interval_secs, b.refresh_interval_secs, a0.refresh_interval_secs, b0.refresh_interval_secs)
    &&& field_agree(
        a.confirm_destructive_actions,
        b.confirm_destructive_actions,
        a0.confirm_destructive_actions,
        b0.confirm_destructive_actions,
    )
    &&& field_agree(a.log_file, b.log_file, a0.log_file, b0.log_file)
}

pub open spec fn viewer_agree(a: ViewerLaunchView, b: ViewerLaunchView, a0: ViewerLaunchView, b0: ViewerLaunchView) -> bool {
    &&& field_agree(a.command, b.command, a0.command, b0.command)
    &&& field_agree(a.args, b.args, a0.args, b0.args)
    &&& field_agree(a.run_as_invoking_user, b.run_as_invoking_user, a0.run_as_invoking_user, b0.run_as_invoking_user)
    &&& a.env == a0.env
    &&& b.env == b0.env
}

pub open spec fn states_agree(a: FileState, b: FileState, a0: FileState, b0: FileState) -> bool {
    &&& a.section == b.section
    &&& a.spice_env == b.spice_env
    &&& a.vnc_env == b.vnc_env
    &&& general_agree(a.general, b.general, a0.general, b0.general)
    &&& viewer_agree(a.spice, b.spice, a0.spice, b0.spice)
    &&& viewer_agree(a.vnc, b.vnc, a0.vnc, b0.vnc)
}

proof fn lemma_general_key_agree(
    a: GeneralView,
    b: GeneralView,
    a0: GeneralView,
    b0: GeneralView,
    section: ConfigSection,
    key: Seq<char>,
    value: Seq<char>,
)
    requires
        general_agree(a, b, a0, b0),
    ensures
        match (general_key(a, section, key, value), general_key(b, section, key, value)) {
            (Ok(x), Ok(y)) => general_agree(x, y, a0, b0),
            (Err(e), Err(f)) => e == f,
            _ => false,
        },
{
    match section {
        ConfigSection::Proxmox => {
            if key == "node"@ {
            } else if key == "command_timeout_sec"@ {
            } else {
            }
        },
        ConfigSection::Vnc => {
            if key == "enabled"@ {
            } else if key == "remmina_profile_dir"@ {
            } else {
            }
        },
        ConfigSection::Spice => {
            if key == "enabled"@ {
            } else if key == "vv_dir"@ {
            } else if key == "delete_vv_after_sec"@ {
            } else {
            }
        },
        ConfigSection::Ui => {
            if key == "refresh_interval_sec"@ {
            } else if key == "confirm_destructive_actions"@ {
            } else {
            }
        },
        ConfigSection::Logging => {
            if key == "file"@ {
            } else {
            }
        },
        _ => {},
    }
}

proof fn lemma_viewer_key_agree(
    a: ViewerLaunchView,
    b: ViewerLaunchView,
    a0: ViewerLaunchView,
    b0: ViewerLaunchView,
    key: Seq<char>,
    value: Seq<char>,
)
    requires
        viewer_agree(a, b, a0, b0),
    ensures
        match (viewer_key(a, key, value), viewer_key(b, key, value)) {
            (Ok(x), Ok(y)) => viewer_agree(x, y, a0, b0),
            (Err(e), Err(f)) => e == f,
            _ => false,
        },
{
}

proof fn lemma_line_agree(a: FileState, b: FileState, a0: FileState, b0: FileState, l: Seq<char>, n: nat)
    requires
        states_agree(a, b, a0, b0),
    ensures
        match (apply_line(a, l, n), apply_line(b, l, n)) {
            (Ok(x), Ok(y)) => states_agree(x, y, a0, b0),
            (Err(e), Err(f)) => e == f,
            _ => false,
        },
{
    let t = trim(strip_comment(l));
    if t.len() > 0 && t[0] != '[' {
        match split_assignment(t) {
            Ok((key, value)) => {
                lemma_general_key_agree(a.general, b.general, a0.general, b0.general, a.section, key, value);
                lemma_viewer_key_agree(a.spice, b.spice, a0.spice, b0.spice, key, value);
                lemma_viewer_key_agree(a.vnc, b.vnc, a0.vnc, b0.vnc, key, value);
            },
            Err(_) => {},
        }
    }
}

proof fn lemma_lines_agree(a: FileState, b: FileState, a0: FileState, b0: FileState, ls: Seq<Seq<char>>, i: int)
    requires
        states_agree(a, b, a0, b0),
    ensures
        apply_lines(a, ls, i).1 == apply_lines(b, ls, i).1,
        states_agree(apply_lines(a, ls, i).0, apply_lines(b, ls, i).0, a0, b0),
    decreases ls.len() - i,
{
    if i < ls.len() {
        lemma_line_agree(a, b, a0, b0, ls[i], (i + 1) as nat);
        match apply_line(a, ls[i], (i + 1) as nat) {
            Ok(x) => {
                let y = apply_line(b, ls[i], (i + 1) as nat)->Ok_0;
                lemma_lines_agree(x, y, a0, b0, ls, i + 1);
            },
            Err(_) => {},
        }
    }
}

/// Reading the same settings text a second time changes nothing: when the whole text
/// was read into `c0`, giving `c1`, reading it into `c1` reads it whole too, and every
/// setting comes out as in `c1`, the variable lists included.
pub proof fn lemma_reading_twice_changes_nothing(c0: Config, c1: Config, raw: Seq<char>, c2: Config)
    requires
        read_into(c0, raw, c1),
    ensures
        read_settings(c1, raw).1 is None,
        read_into(c1, raw, c2) ==> {
            &&& general_view(c2) == general_view(c1)
            &&& c2.keep_temp_files == c1.keep_temp_files
            &&& c2.vnc.delete_profile_after_secs == c1.vnc.delete_profile_after_secs
            &&& c2.viewer.spice@ == c1.viewer.spice@
            &&& c2.viewer.vnc@ == c1.viewer.vnc@
        },
{
    let a0 = FileState {
        section: ConfigSection::Root,
        general: general_view(c0),
        spice: c0.viewer.spice@,
        vnc: c0.viewer.vnc@,
        spice_env: Map::empty(),
        vnc_env: Map::empty(),
    };
    let b0 = FileState {
        section: ConfigSection::Root,
        general: general_view(c1),
        spice: c1.viewer.spice@,
        vnc: c1.viewer.vnc@,
        spice_env: Map::empty(),
        vnc_env: Map::empty(),
    };
    lemma_lines_agree(a0, b0, a0, b0, lines(raw), 0);
    if read_into(c1, raw, c2) {
        crate::assoc::lemma_ascending_lists_equal(c2.viewer.spice@.env, c1.viewer.spice@.env);
        crate::assoc::lemma_ascending_lists_equal(c2.viewer.vnc@.env, c1.viewer.vnc@.env);
    }
}

/// Whether reading `raw` meets a string value made of one double quote before any
/// other error.
pub open spec fn meets_lone_quote(c: Config, raw: Seq<char>) -> bool {
    match read_settings(c, raw).1 {
        Some(e) => e.kind == ConfigErrorKind::LoneQuote,
        None => false,
    }
}

/// Reads the settings text `raw` (from the file `path`) into `config`.
///
/// Settings are applied line by line up to the first error, which is returned;
/// the variables of `[viewer.spice.env]` and `[viewer.vnc.env]` replace the old ones,
/// sorted by name with the last value of a repeated name, only when the whole text was
/// read. Errors found in a line carry the path and line number, except those of a
/// variable's value.
pub fn apply_config_text(config: &mut Config, raw: &str, path: &str) -> (r: Result<(), ConfigError>)
    ensures
        r is Ok ==> read_into(*old(config), raw@, *final(config)),
        ({
            let (st, err) = read_settings(*old(config), raw@);
            &&& general_after(*old(config), *final(config), st.general)
            &&& viewer_after(old(config).viewer.spice@, st.spice, st.spice_env, err is Some, final(config).viewer.spice@)
            &&& viewer_after(old(config).viewer.vnc@, st.vnc, st.vnc_env, err is Some, final(config).viewer.vnc@)
            &&& match err {
                None => r is Ok,
                Some(e) => match r {
                    Ok(_) => false,
                    Err(x) => error_view(x) == e && (x.location matches Some((p, _)) ==> p@ == path@),
                },
            }
        }),
{
    let ghost old_spice = config.viewer.spice@;
    let ghost old_vnc = config.viewer.vnc@;
    let ghost old_general = general_view(*config);
    let ghost start = FileState {
        section: ConfigSection::Root,
        general: old_general,
        spice: old_spice,
        vnc: old_vnc,
        spice_env: Map::empty(),
        vnc_env: Map::empty(),
    };
    let v = chars_of(raw);
    let ls = line_bounds(&v);
    let ghost lsv = lines(raw@);
    let mut section = ConfigSection::Root;
    let mut spice_env: Vec<(String, String)> = Vec::new();
    let mut vnc_env: Vec<(String, String)> = Vec::new();
    assert(assoc_map(pairs_view(spice_env@)) =~= Map::<Seq<char>, Seq<char>>::empty());
    assert(assoc_map(pairs_view(vnc_env@)) =~= Map::<Seq<char>, Seq<char>>::empty());
    let mut k: usize = 0;
    while k < ls.len()
        invariant
            v@ == raw@,
            lsv == lines(raw@),
            old_spice == old(config).viewer.spice@,
            old_vnc == old(config).viewer.vnc@,
            old_general == general_view(*old(config)),
            start == (FileState {
                section: ConfigSection::Root,
                general: old_general,
                spice: old_spice,
                vnc: old_vnc,
                spice_env: Map::empty(),
                vnc_env: Map::empty(),
            }),
            ls@.len() == lsv.len(),
            forall|j: int|
                0 <= j < ls@.len() ==> {
                    &&& (#[trigger] ls@[j]).0 <= ls@[j].1 <= v@.len()
                    &&& v@.subrange(ls@[j].0 as int, ls@[j].1 as int) == lsv[j]
                },
            0 <= k <= ls@.len(),
            config.keep_temp_files == old(config).keep_temp_files,
            config.vnc.delete_profile_after_secs == old(config).vnc.delete_profile_after_secs,
            config.viewer.spice@.env == old_spice.env,
            config.viewer.vnc@.env == old_vnc.env,
            keys_ascending(pairs_view(spice_env@)),
            keys_ascending(pairs_view(vnc_env@)),
            apply_lines(start, lsv, 0) == apply_lines(
                FileState {
                    section,
                    general: general_view(*config),
                    spice: config.viewer.spice@,
                    vnc: config.viewer.vnc@,
                    spice_env: assoc_map(pairs_view(spice_env@)),
                    vnc_env: assoc_map(pairs_view(vnc_env@)),
                },
                lsv,
                k as int,
            ),
        decreases ls.len() - k,
    {
        let ghost st = FileState {
            section,
            general: general_view(*config),
            spice: config.viewer.spice@,
            vnc: config.viewer.vnc@,
            spice_env: assoc_map(pairs_view(spice_env@)),
            vnc_env: assoc_map(pairs_view(vnc_env@)),
        };
        let ghost raw_line = lsv[k as int];
        let number: usize = k + 1;
        let (la, lb) = ls[k];
        let ce = comment_end(&v, la, lb);
        let (ta, tb) = trim_bounds(&v, la, ce);
        let ghost l = v@.subrange(ta as int, tb as int);
        assert(l == trim(strip_comment(raw_line)));
        assert(apply_lines(st, lsv, k as int) == match apply_line(st, raw_line, (k + 1) as nat) {
            Ok(next) => apply_lines(next, lsv, k + 1),
            Err(e) => (st, Some(e)),
        });
        if ta == tb {
            k = k + 1;
            continue;
        }
        assert(l[0] == v@[ta as int]);
        if v[ta] == '[' {
            match section_header(&v, ta, tb) {
                Ok(sec) => {
                    section = sec;
                },
                Err(kind) => {
                    assert(section_of(l) == Err::<ConfigSection, ConfigErrorKind>(kind));
                    assert(l.len() > 0 && l[0] == '[');
                    assert(apply_line(st, raw_line, (k + 1) as nat) == Err::<FileState, ConfigErrorView>(error_at((k + 1) as nat, kind)));
                    return Err(ConfigError { location: Some((string_of_str(path), number)), kind });
                },
            }
        } else {
            match assignment(&v, ta, tb) {
                Err(kind) => {
                    return Err(ConfigError { location: Some((string_of_str(path), number)), kind });
                },
                Ok((key, value)) => {
                    match section {
                        ConfigSection::ViewerSpice => {
                            match apply_viewer_key(&mut config.viewer.spice, &key, &value) {
                                Ok(_) => {},
                                Err(kind) => {
                                    return Err(ConfigError { location: Some((string_of_str(path), number)), kind });
                                },
                            }
                        },
                        ConfigSection::ViewerVnc => {
                            match apply_viewer_key(&mut config.viewer.vnc, &key, &value) {
                                Ok(_) => {},
                                Err(kind) => {
                                    return Err(ConfigError { location: Some((string_of_str(path), number)), kind });
                                },
                            }
                        },
                        ConfigSection::ViewerSpiceEnv => {
                            assert(value@.subrange(0, value@.len() as int) =~= value@);
                            match parse_string(&value, 0, value.len()) {
                                Ok(x) => {
                                    let ks = string_of(&key, 0, key.len());
                                    assert(key@.subrange(0, key@.len() as int) =~= key@);
                                    assoc_insert(&mut spice_env, ks, x);
                                },
                                Err(kind) => {
                                    return Err(ConfigError { location: None, kind });
                                },
                            }
                        },
                        ConfigSection::ViewerVncEnv => {
                            assert(value@.subrange(0, value@.len() as int) =~= value@);
                            match parse_string(&value, 0, value.len()) {
                                Ok(x) => {
                                    let ks = string_of(&key, 0, key.len());
                                    assert(key@.subrange(0, key@.len() as int) =~= key@);
                                    assoc_insert(&mut vnc_env, ks, x);
                                },
                                Err(kind) => {
                                    return Err(ConfigError { location: None, kind });
                                },
                            }
                        },
                        _ => {
                            match apply_general_key(config, section, &key, &value) {
                                Ok(_) => {},
                                Err(kind) => {
                                    return Err(ConfigError { location: Some((string_of_str(path), number)), kind });
                                },
                            }
                        },
                    }
                },
            }
        }
        k = k + 1;
    }
    config.viewer.spice.env = spice_env;
    config.viewer.vnc.env = vnc_env;
    Ok(())
}

/// Reads the settings text `raw` (from the file `path`) into `config`; see
/// `apply_config_text`, which this is on text that holds no value made of one double
/// quote before its first error.
pub fn apply_config_file(config: &mut Config, raw: &str, path: &str) -> (r: Result<(), ConfigError>)
    requires
        !meets_lone_quote(*old(config), raw@),
    ensures
        r is Ok ==> read_into(*old(config), raw@, *final(config)),
        ({
            let (st, err) = read_settings(*old(config), raw@);
            &&& general_after(*old(config), *final(config), st.general)
            &&& viewer_after(old(config).viewer.spice@, st.spice, st.spice_env, err is Some, final(config).viewer.spice@)
            &&& viewer_after(old(config).viewer.vnc@, st.vnc, st.vnc_env, err is Some, final(config).viewer.vnc@)
            &&& match err {
                None => r is Ok,
                Some(e) => match r {
                    Ok(_) => false,
                    Err(x) => error_view(x) == e && (x.location matches Some((p, _)) ==> p@ == path@),
                },
            }
        }),
{
    apply_config_text(config, raw, path)
}

fn string_of_str(s: &str) -> (out: String)
    ensures
        out@ == s@,
{
    let mut out = String::new();
    push_str(&mut out, s);
    out
}

// ----- messages --------------------------------------------------------------

pub open spec fn kind_message(k: ConfigErrorKind) -> Seq<char> {
    match k {
        ConfigErrorKind::UnterminatedSection => "unterminated section header"@,
        ConfigErrorKind::ExpectedAssignment => "expected `key = value`"@,
        ConfigErrorKind::EmptyKey => "empty key"@,
        ConfigErrorKind::ExpectedBoolean => "expected boolean"@,
        ConfigErrorKind::ExpectedInteger => "expected integer"@,
        ConfigErrorKind::ExpectedQuotedString => "expected quoted string"@,
        ConfigErrorKind::ExpectedStringArray => "expected string array"@,
        ConfigErrorKind::UnterminatedArrayString => "unterminated string in array"@,
        ConfigErrorKind::UnsupportedEscape(c) => "unsupported escape sequence `\\"@ + seq![c] + "`"@,
        ConfigErrorKind::UnterminatedEscape => "unterminated escape sequence"@,
        ConfigErrorKind::LoneQuote => "string value is a single `\"`"@,
    }
}

/// `path:line: reason`, or the reason alone when no line is known.
pub open spec fn config_error_message(e: ConfigError) -> Seq<char> {
    match e.location {
        Some((p, n)) => p@ + ":"@ + decimal(n as nat) + ": "@ + kind_message(e.kind),
        None => kind_message(e.kind),
    }
}

impl ConfigErrorKind {
    pub fn message(&self) -> (m: String)
        ensures
            m@ == kind_message(*self),
    {
        let mut m = String::new();
        match self {
            ConfigErrorKind::UnterminatedSection => push_str(&mut m, "unterminated section header"),
            ConfigErrorKind::ExpectedAssignment => push_str(&mut m, "expected `key = value`"),
            ConfigErrorKind::EmptyKey => push_str(&mut m, "empty key"),
            ConfigErrorKind::ExpectedBoolean => push_str(&mut m, "expected boolean"),
            ConfigErrorKind::ExpectedInteger => push_str(&mut m, "expected integer"),
            ConfigErrorKind::ExpectedQuotedString => push_str(&mut m, "expected quoted string"),
            ConfigErrorKind::ExpectedStringArray => push_str(&mut m, "expected string array"),
            ConfigErrorKind::UnterminatedArrayString => push_str(&mut m, "unterminated string in array"),
            ConfigErrorKind::UnsupportedEscape(c) => {
                push_str(&mut m, "unsupported escape sequence `\\");
                push_char(&mut m, *c);
                push_str(&mut m, "`");
                assert(m@ =~= "unsupported escape sequence `\\"@ + seq![*c] + "`"@);
            },
            ConfigErrorKind::UnterminatedEscape => push_str(&mut m, "unterminated escape sequence"),
            ConfigErrorKind::LoneQuote => push_str(&mut m, "string value is a single `\"`"),
        }
        assert(m@ =~= kind_message(*self));
        m
    }
}

impl ConfigError {
    /// The error as text.
    pub fn message(&self) -> (m: String)
        ensures
            m@ == config_error_message(*self),
    {
        match &self.location {
            Some((p, n)) => {
                let mut m = String::new();
                push_str(&mut m, p.as_str());
                push_str(&mut m, ":");
                let d = decimal_string(*n as u64);
                push_str(&mut m, d.as_str());
                push_str(&mut m, ": ");
                let k = self.kind.message();
                push_str(&mut m, k.as_str());
                m
            },
            None => self.kind.message(),
        }
    }
}

// ---------------------------------------------------------------------------
// The command line
// ---------------------------------------------------------------------------

/// The configuration file written on first start.
pub open spec fn default_config_text() -> Seq<char> {
    "# pve-vm-launcher configuration\n\n[proxmox]\nnode = \"auto\"\ncommand_timeout_sec = 15\n\n[viewer.spice]\ncommand = \"remote-viewer\"\nargs = []\nrun_as_invoking_user = true\n\n[viewer.spice.env]\n# GDK_BACKEND = \"x11\"\n\n[viewer.vnc]\ncommand = \"remmina\"\nargs = []\nrun_as_invoking_user = true\n\n[viewer.vnc.env]\n# GDK_BACKEND = \"x11\"\n\n[vnc]\nenabled = true\n# remmina_profile_dir = \"/tmp/pve-vm-launcher\"\n\n[spice]\nenabled = true\n# vv_dir = \"/tmp/pve-vm-launcher\"\ndelete_vv_after_sec = 30\n\n[ui]\nrefresh_interval_sec = 3\nconfirm_destructive_actions = true\n\n[logging]\n# file = \"/root/.local/state/pve-vm-launcher/app.log\"\n"@
}

/// The configuration file written on first start: the default settings, with the
/// viewers run as the invoking user; the directories and the log file, whose defaults
/// depend on the host, are left as comments.
pub fn default_config_toml() -> (t: &'static str)
    ensures
        t@ == default_config_text(),
{
    "# pve-vm-launcher configuration\n\n[proxmox]\nnode = \"auto\"\ncommand_timeout_sec = 15\n\n[viewer.spice]\ncommand = \"remote-viewer\"\nargs = []\nrun_as_invoking_user = true\n\n[viewer.spice.env]\n# GDK_BACKEND = \"x11\"\n\n[viewer.vnc]\ncommand = \"remmina\"\nargs = []\nrun_as_invoking_user = true\n\n[viewer.vnc.env]\n# GDK_BACKEND = \"x11\"\n\n[vnc]\nenabled = true\n# remmina_profile_dir = \"/tmp/pve-vm-launcher\"\n\n[spice]\nenabled = true\n# vv_dir = \"/tmp/pve-vm-launcher\"\ndelete_vv_after_sec = 30\n\n[ui]\nrefresh_interval_sec = 3\nconfirm_destructive_actions = true\n\n[logging]\n# file = \"/root/.local/state/pve-vm-launcher/app.log\"\n"
}

/// The command line's help text.
pub open spec fn usage_text() -> Seq<char> {
    "Usage: pve-vm-launcher [OPTIONS]\n\nOptions:\n      --keep-temp-files  Keep generated .vv/.remmina files and skip startup temp cleanup\n  -h, --help             Show this help\n"@
}

/// The command line's help text.
pub fn usage() -> (u: &'static str)
    ensures
        u@ == usage_text(),
{
    "Usage: pve-vm-launcher [OPTIONS]\n\nOptions:\n      --keep-temp-files  Keep generated .vv/.remmina files and skip startup temp cleanup\n  -h, --help             Show this help\n"
}

/// A command-line argument that is not an option of the launcher.
#[derive(Debug)]
pub struct CliError {
    pub option: String,
}

impl CliError {
    /// The error as text: the unknown option and the help text.
    pub fn message(&self) -> (m: String)
        ensures
            m@ == "unknown option `"@ + self.option@ + "`\n\n"@ + usage_text(),
    {
        let mut m = String::new();
        push_str(&mut m, "unknown option `");
        push_str(&mut m, self.option.as_str());
        push_str(&mut m, "`\n\n");
        push_str(&mut m, usage());
        m
    }
}

pub open spec fn is_keep_option(a: Seq<char>) -> bool {
    a == "--keep-temp-files"@
}

pub open spec fn is_help_option(a: Seq<char>) -> bool {
    a == "-h"@ || a == "--help"@
}

pub open spec fn is_known_option(a: Seq<char>) -> bool {
    is_keep_option(a) || is_help_option(a)
}

pub open spec fn args_view(args: Seq<&str>) -> Seq<Seq<char>> {
    args.map_values(|a: &str| a@)
}

impl CliOptions {
    /// Reads the command-line arguments (without the program name). Every argument
    /// must be `--keep-temp-files`, `-h` or `--help`; the first that is not is the error.
    pub fn parse(args: &[&str]) -> (r: Result<CliOptions, CliError>)
        ensures
            match r {
                Ok(o) => {
                    &&& forall|i: int| 0 <= i < args@.len() ==> is_known_option(#[trigger] args_view(args@)[i])
                    &&& o.keep_temp_files == exists|i: int| 0 <= i < args@.len() && is_keep_option(#[trigger] args_view(args@)[i])
                    &&& o.help == exists|i: int| 0 <= i < args@.len() && is_help_option(#[trigger] args_view(args@)[i])
                },
                Err(e) => exists|i: int| {
                    &&& 0 <= i < args@.len()
                    &&& !is_known_option(#[trigger] args_view(args@)[i])
                    &&& e.option@ == args_view(args@)[i]
                    &&& forall|j: int| 0 <= j < i ==> is_known_option(#[trigger] args_view(args@)[j])
                },
            },
    {
        let ghost av = args_view(args@);
        let mut options = CliOptions { keep_temp_files: false, help: false };
        let mut i: usize = 0;
        while i < args.len()
            invariant
                0 <= i <= args@.len(),
                av == args_view(args@),
                forall|j: int| 0 <= j < i ==> is_known_option(#[trigger] av[j]),
                options.keep_temp_files == exists|j: int| 0 <= j < i && is_keep_option(#[trigger] av[j]),
                options.help == exists|j: int| 0 <= j < i && is_help_option(#[trigger] av[j]),
            decreases args.len() - i,
        {
            let a = chars_of(args[i]);
            assert(a@ == av[i as int]);
            let keep = chars_eq_str(&a, "--keep-temp-files");
            let help = chars_eq_str(&a, "-h") || chars_eq_str(&a, "--help");
            if !keep && !help {
                return Err(CliError { option: string_of_str(args[i]) });
            }
            if keep {
                options.keep_temp_files = true;
            }
            if help {
                options.help = true;
            }
            i = i + 1;
            assert(options.keep_temp_files == exists|j: int| 0 <= j < i && is_keep_option(#[trigger] av[j])) by {
                if is_keep_option(av[i - 1]) {
                    assert(exists|j: int| 0 <= j < i && is_keep_option(#[trigger] av[j]));
                }
            }
            assert(options.help == exists|j: int| 0 <= j < i && is_help_option(#[trigger] av[j])) by {
                if is_help_option(av[i - 1]) {
                    assert(exists|j: int| 0 <= j < i && is_help_option(#[trigger] av[j]));
                }
            }
        }
        Ok(options)
    }
}

// ---------------------------------------------------------------------------
// The invoking user
// ---------------------------------------------------------------------------

/// The user behind `sudo`, from `SUDO_USER`: none when unset, empty or `root`.
pub open spec fn spec_invoking_user_name(sudo_user: Option<Seq<char>>) -> Option<Seq<char>> {
    match sudo_user {
        Some(u) => if u.len() == 0 || u == "root"@ {
            None
        } else {
            Some(u)
        },
        None => None,
    }
}

pub fn invoking_user_name(sudo_user: Option<&str>) -> (r: Option<String>)
    ensures
        opt_view(r) == spec_invoking_user_name(
            match sudo_user {
                Some(u) => Some(u@),
                None => None,
            },
        ),
{
    match sudo_user {
        Some(u) => {
            let v = chars_of(u);
            if v.len() == 0 || chars_eq_str(&v, "root") {
                None
            } else {
                Some(string_of_str(u))
            }
        },
        None => None,
    }
}

/// The home directory in one `/etc/passwd` line, if the line is `user`'s: the sixth
/// `:`-separated field, when present and not empty.
pub open spec fn passwd_line_home(line: Seq<char>, user: Seq<char>) -> Option<Seq<char>> {
    let f = split_on(line, ':');
    if f[0] == user && f.len() >= 6 && f[5].len() > 0 {
        Some(f[5])
    } else {
        None
    }
}

/// The home directory from the first line of `ls` (from `i` on) that gives one.
pub open spec fn passwd_lines_home(ls: Seq<Seq<char>>, user: Seq<char>, i: int) -> Option<Seq<char>>
    decreases ls.len() - i,
{
    if i >= ls.len() {
        None
    } else {
        match passwd_line_home(ls[i], user) {
            Some(h) => Some(h),
            None => passwd_lines_home(ls, user, i + 1),
        }
    }
}

/// `user`'s home directory in the text of `/etc/passwd`.
pub open spec fn spec_passwd_home(passwd: Seq<char>, user: Seq<char>) -> Option<Seq<char>> {
    passwd_lines_home(lines(passwd), user, 0)
}

/// Looks up `user_name`'s home directory in the text of `/etc/passwd`.
pub fn passwd_home(passwd: &str, user_name: &str) -> (r: Option<String>)
    ensures
        opt_view(r) == spec_passwd_home(passwd@, user_name@),
{
    let v = chars_of(passwd);
    let user = chars_of(user_name);
    let ls = line_bounds(&v);
    let ghost lsv = lines(passwd@);
    let mut k: usize = 0;
    while k < ls.len()
        invariant
            v@ == passwd@,
            user@ == user_name@,
            lsv == lines(passwd@),
            ls@.len() == lsv.len(),
            forall|j: int|
                0 <= j < ls@.len() ==> {
                    &&& (#[trigger] ls@[j]).0 <= ls@[j].1 <= v@.len()
                    &&& v@.subrange(ls@[j].0 as int, ls@[j].1 as int) == lsv[j]
                },
            0 <= k <= ls@.len(),
            spec_passwd_home(passwd@, user_name@) == passwd_lines_home(lsv, user_name@, k as int),
        decreases ls.len() - k,
    {
        let (a, b) = ls[k];
        let line = slice_of(&v, a, b);
        let fields = split_bounds(&line, ':');
        let ghost f = split_on(line@, ':');
        proof {
            crate::text::lemma_split_on_len(line@, ':');
        }
        let (fa, fb) = fields[0];
        let name = slice_of(&line, fa, fb);
        if chars_eq(&name, &user) && fields.len() >= 6 {
            let (ha, hb) = fields[5];
            if hb > ha {
                assert(passwd_line_home(lsv[k as int], user_name@) == Some(f[5]));
                return Some(string_of(&line, ha, hb));
            }
        }
        assert(passwd_line_home(lsv[k as int], user_name@) is None);
        k = k + 1;
    }
    None
}

/// The owner ids for files created for the invoking user, from `SUDO_UID` and
/// `SUDO_GID`: nothing when neither is a valid `u32`.
pub open spec fn spec_sudo_ids(uid: Option<Seq<char>>, gid: Option<Seq<char>>) -> Option<
    (Option<nat>, Option<nat>),
> {
    let u = match uid {
        Some(t) => match parse_unsigned(t, u32::MAX as nat) {
            Ok(n) => Some(n),
            Err(_) => None,
        },
        None => None,
    };
    let g = match gid {
        Some(t) => match parse_unsigned(t, u32::MAX as nat) {
            Ok(n) => Some(n),
            Err(_) => None,
        },
        None => None,
    };
    if u is None && g is None {
        None
    } else {
        Some((u, g))
    }
}

pub open spec fn opt_u32_view(o: Option<u32>) -> Option<nat> {
    match o {
        Some(n) => Some(n as nat),
        None => None,
    }
}

/// Reads an optional `u32` variable; an unset or malformed value gives nothing.
pub fn parse_u32_opt(t: Option<&str>) -> (r: Option<u32>)
    ensures
        opt_u32_view(r) == match t {
            Some(x) => match parse_unsigned(x@, u32::MAX as nat) {
                Ok(n) => Some(n),
                Err(_) => None::<nat>,
            },
            None => None,
        },
{
    match t {
        Some(x) => {
            let v = chars_of(x);
            match parse_unsigned_chars(&v, u32::MAX as u64) {
                Ok(n) => Some(n as u32),
                Err(_) => None,
            }
        },
        None => None,
    }
}

/// The owner ids to give files created for the invoking user.
pub fn sudo_ids(uid: Option<&str>, gid: Option<&str>) -> (r: Option<(Option<u32>, Option<u32>)>)
    ensures
        match r {
            Some((u, g)) => spec_sudo_ids(
                match uid { Some(x) => Some(x@), None => None },
                match gid { Some(x) => Some(x@), None => None },
            ) == Some((opt_u32_view(u), opt_u32_view(g))),
            None => spec_sudo_ids(
                match uid { Some(x) => Some(x@), None => None },
                match gid { Some(x) => Some(x@), None => None },
            ) is None,
        },
{
    let u = parse_u32_opt(uid);
    let g = parse_u32_opt(gid);
    if u.is_none() && g.is_none() {
        None
    } else {
        Some((u, g))
    }
}

} // verus!
