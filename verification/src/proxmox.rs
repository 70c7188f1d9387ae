//! The Proxmox side: the VM list that `qm list` prints, power actions, and the node name.
use vstd::prelude::*;

use crate::command::CommandInvocation;
use crate::command::CommandRunner;
use crate::command::strings_of;
use crate::config::Config;
use crate::config::opt_view;
use crate::text::IntErrorKind;
use crate::text::chars_eq;
use crate::text::chars_eq_str;
use crate::text::chars_of;
use crate::text::decimal;
use crate::text::decimal_string;
use crate::text::is_whitespace;
use crate::text::join_words;
use crate::text::line_bounds;
use crate::text::lines;
use crate::text::parse_unsigned;
use crate::text::parse_unsigned_chars;
use crate::text::push_char;
use crate::text::push_chars;
use crate::text::push_str;
use crate::text::slice_of;
use crate::text::split_bounds;
use crate::text::split_on;
use crate::text::split_words;
use crate::text::string_of;
use crate::text::trim;
use crate::text::trim_bounds;
use crate::text::words;

verus! {

/// One VM as `qm list` shows it. The boot disk size is kept as the printed column.
#[derive(Clone, Debug)]
pub struct Vm {
    pub vmid: u32,
    pub name: String,
    pub status: String,
    pub node: String,
    pub memory_mb: Option<u64>,
    pub bootdisk_gb: String,
    pub pid: Option<u32>,
}

pub struct VmView {
    pub vmid: nat,
    pub name: Seq<char>,
    pub status: Seq<char>,
    pub node: Seq<char>,
    pub memory_mb: Option<nat>,
    pub bootdisk_gb: Seq<char>,
    pub pid: Option<nat>,
}

pub open spec fn opt_nat_u64(o: Option<u64>) -> Option<nat> {
    match o {
        Some(n) => Some(n as nat),
        None => None,
    }
}

pub open spec fn opt_nat_u32(o: Option<u32>) -> Option<nat> {
    match o {
        Some(n) => Some(n as nat),
        None => None,
    }
}

impl View for Vm {
    type V = VmView;

    open spec fn view(&self) -> VmView {
        VmView {
            vmid: self.vmid as nat,
            name: self.name@,
            status: self.status@,
            node: self.node@,
            memory_mb: opt_nat_u64(self.memory_mb),
            bootdisk_gb: self.bootdisk_gb@,
            pid: opt_nat_u32(self.pid),
        }
    }
}

pub open spec fn vms_view(v: Seq<Vm>) -> Seq<VmView> {
    v.map_values(|vm: Vm| vm@)
}

/// A power action on a VM.
#[derive(Clone, Copy, Debug, PartialEq, Eq, Structural)]
pub enum PowerAction {
    Start,
    Shutdown,
    Reboot,
    Stop,
    Reset,
}

pub open spec fn spec_qm_command(a: PowerAction) -> Seq<char> {
    match a {
        PowerAction::Start => "start"@,
        PowerAction::Shutdown => "shutdown"@,
        PowerAction::Reboot => "reboot"@,
        PowerAction::Stop => "stop"@,
        PowerAction::Reset => "reset"@,
    }
}

pub open spec fn spec_power_timeout(a: PowerAction) -> nat {
    match a {
        PowerAction::Start => 30,
        PowerAction::Shutdown => 60,
        PowerAction::Reboot => 60,
        PowerAction::Stop => 30,
        PowerAction::Reset => 30,
    }
}

impl PowerAction {
    /// The `qm` subcommand of the action.
    pub fn qm_command(self) -> (c: &'static str)
        ensures
            c@ == spec_qm_command(self),
    {
        match self {
            PowerAction::Start => "start",
            PowerAction::Shutdown => "shutdown",
            PowerAction::Reboot => "reboot",
            PowerAction::Stop => "stop",
            PowerAction::Reset => "reset",
        }
    }

    /// How long the action may take, in seconds.
    pub fn timeout_secs(self) -> (t: u64)
        ensures
            t == spec_power_timeout(self),
    {
        match self {
            PowerAction::Start => 30,
            PowerAction::Shutdown => 60,
            PowerAction::Reboot => 60,
            PowerAction::Stop => 30,
            PowerAction::Reset => 30,
        }
    }

    /// The status that the VM should reach after the action.
    pub fn desired_status(self) -> (s: &'static str)
        ensures
            s@ == spec_desired_status(self),
    {
        match self {
            PowerAction::Start | PowerAction::Reboot | PowerAction::Reset => "running",
            PowerAction::Shutdown | PowerAction::Stop => "stopped",
        }
    }
}

pub open spec fn spec_desired_status(a: PowerAction) -> Seq<char> {
    match a {
        PowerAction::Start | PowerAction::Reboot | PowerAction::Reset => "running"@,
        PowerAction::Shutdown | PowerAction::Stop => "stopped"@,
    }
}

// ---------------------------------------------------------------------------
// `qm list`
// ---------------------------------------------------------------------------

/// The statuses that `qm list` prints.
pub open spec fn spec_is_vm_status(v: Seq<char>) -> bool {
    ||| v == "running"@
    ||| v == "stopped"@
    ||| v == "paused"@
    ||| v == "suspended"@
    ||| v == "prelaunch"@
    ||| v == "unknown"@
}

pub fn is_vm_status(v: &Vec<char>) -> (b: bool)
    ensures
        b == spec_is_vm_status(v@),
{
    chars_eq_str(v, "running") || chars_eq_str(v, "stopped") || chars_eq_str(v, "paused")
        || chars_eq_str(v, "suspended") || chars_eq_str(v, "prelaunch") || chars_eq_str(
        v,
        "unknown",
    )
}

/// The first column from index 1 on that is a status.
pub open spec fn status_index_from(cols: Seq<Seq<char>>, i: int) -> Option<int>
    decreases cols.len() - i,
{
    if i >= cols.len() {
        None
    } else if spec_is_vm_status(cols[i]) {
        Some(i)
    } else {
        status_index_from(cols, i + 1)
    }
}

/// Why a `qm list` row could not be read.
#[derive(Clone, Copy, Debug, PartialEq, Eq, Structural)]
pub enum QmListErrorKind {
    /// Fewer than six columns.
    UnexpectedRow,
    /// The VMID column is not a `u32`.
    InvalidVmid(IntErrorKind),
    /// No column after the VMID is a status.
    StatusNotFound,
    /// Fewer than three columns after the status.
    MissingNumericColumns,
}

/// A `qm list` row that could not be read, with the row (trimmed).
#[derive(Debug)]
pub struct QmListError {
    pub kind: QmListErrorKind,
    pub row: String,
}

pub open spec fn qm_list_error_message(e: QmListErrorView) -> Seq<char> {
    match e.kind {
        QmListErrorKind::UnexpectedRow => "unexpected `qm list` row: "@ + e.row,
        QmListErrorKind::InvalidVmid(k) => crate::text::int_error_message(k),
        QmListErrorKind::StatusNotFound => "status column not found in row: "@ + e.row,
        QmListErrorKind::MissingNumericColumns => "missing numeric columns in `qm list` row: "@ + e.row,
    }
}

impl QmListError {
    pub fn message(&self) -> (m: String)
        ensures
            m@ == qm_list_error_message(QmListErrorView { kind: self.kind, row: self.row@ }),
    {
        let mut m = String::new();
        match self.kind {
            QmListErrorKind::UnexpectedRow => {
                push_str(&mut m, "unexpected `qm list` row: ");
                push_str(&mut m, self.row.as_str());
            },
            QmListErrorKind::InvalidVmid(k) => {
                push_str(&mut m, k.message());
            },
            QmListErrorKind::StatusNotFound => {
                push_str(&mut m, "status column not found in row: ");
                push_str(&mut m, self.row.as_str());
            },
            QmListErrorKind::MissingNumericColumns => {
                push_str(&mut m, "missing numeric columns in `qm list` row: ");
                push_str(&mut m, self.row.as_str());
            },
        }
        m
    }
}

pub open spec fn optional_number(t: Seq<char>, max: nat) -> Option<nat> {
    match parse_unsigned(t, max) {
        Ok(n) => Some(n),
        Err(_) => None,
    }
}

/// One line of `qm list`: nothing for a blank line or the header (first column
/// `VMID`), else the VM or why the row is malformed. The name is every column between
/// the VMID and the first status column, joined with single spaces.
pub open spec fn qm_row(line: Seq<char>, node: Seq<char>) -> Option<Result<VmView, QmListErrorKind>> {
    let t = trim(line);
    let cols = words(t);
    if t.len() == 0 {
        None
    } else if cols.len() > 0 && cols[0] == "VMID"@ {
        None
    } else if cols.len() < 6 {
        Some(Err(QmListErrorKind::UnexpectedRow))
    } else {
        match parse_unsigned(cols[0], u32::MAX as nat) {
            Err(e) => Some(Err(QmListErrorKind::InvalidVmid(e))),
            Ok(vmid) => match status_index_from(cols, 1) {
                None => Some(Err(QmListErrorKind::StatusNotFound)),
                Some(si) => if cols.len() - si <= 3 {
                    Some(Err(QmListErrorKind::MissingNumericColumns))
                } else {
                    Some(
                        Ok(
                            VmView {
                                vmid,
                                name: join_words(cols.subrange(1, si), " "@),
                                status: cols[si],
                                node,
                                memory_mb: optional_number(cols[si + 1], u64::MAX as nat),
                                bootdisk_gb: cols[si + 2],
                                pid: optional_number(cols[si + 3], u32::MAX as nat),
                            },
                        ),
                    )
                },
            },
        }
    }
}

pub struct QmListErrorView {
    pub kind: QmListErrorKind,
    pub row: Seq<char>,
}

/// The VMs of the lines from index `i` on, or the first malformed row.
pub open spec fn qm_rows(ls: Seq<Seq<char>>, node: Seq<char>, i: int) -> Result<
    Seq<VmView>,
    QmListErrorView,
>
    decreases ls.len() - i,
{
    if i >= ls.len() {
        Ok(Seq::empty())
    } else {
        match qm_row(ls[i], node) {
            None => qm_rows(ls, node, i + 1),
            Some(Err(k)) => Err(QmListErrorView { kind: k, row: trim(ls[i]) }),
            Some(Ok(vm)) => match qm_rows(ls, node, i + 1) {
                Ok(rest) => Ok(seq![vm] + rest),
                Err(e) => Err(e),
            },
        }
    }
}

/// The VMs that the output of `qm list` shows, all on `node`.
pub open spec fn spec_parse_qm_list(output: Seq<char>, node: Seq<char>) -> Result<
    Seq<VmView>,
    QmListErrorView,
> {
    qm_rows(lines(output), node, 0)
}

pub open spec fn prepend_vms(p: Seq<VmView>, r: Result<Seq<VmView>, QmListErrorView>) -> Result<
    Seq<VmView>,
    QmListErrorView,
> {
    match r {
        Ok(x) => Ok(p + x),
        Err(e) => Err(e),
    }
}

/// Joins `cols[from..to]` with single spaces.
fn join_columns(cols: &Vec<Vec<char>>, from: usize, to: usize) -> (s: String)
    requires
        from <= to <= cols@.len(),
    ensures
        s@ == join_words(cols@.map_values(|c: Vec<char>| c@).subrange(from as int, to as int), " "@),
{
    let ghost cv = cols@.map_values(|c: Vec<char>| c@);
    let mut s = String::new();
    let mut i: usize = from;
    assert(cv.subrange(from as int, from as int) =~= Seq::<Seq<char>>::empty());
    while i < to
        invariant
            from <= i <= to <= cols@.len(),
            cv == cols@.map_values(|c: Vec<char>| c@),
            s@ == join_words(cv.subrange(from as int, i as int), " "@),
        decreases to - i,
    {
        let ghost pre = cv.subrange(from as int, i as int);
        let ghost next = cv.subrange(from as int, i + 1);
        assert(next.drop_last() =~= pre);
        assert(next.last() == cols@[i as int]@);
        if i > from {
            push_str(&mut s, " ");
        }
        push_chars(&mut s, &cols[i], 0, cols[i].len());
        assert(cols@[i as int]@.subrange(0, cols@[i as int]@.len() as int) =~= cols@[i as int]@);
        proof {
            if i > from {
                assert(s@ =~= join_words(pre, " "@) + " "@ + next.last());
            } else {
                assert(next.len() == 1);
                assert(s@ =~= next[0]);
            }
        }
        i = i + 1;
    }
    s
}

/// Reads one line (already trimmed, as `t`): see `qm_row`.
fn parse_qm_row(t: &Vec<char>, node: &str) -> (r: Option<Result<Vm, QmListErrorKind>>)
    requires
        t@ == trim(t@),
    ensures
        match r {
            None => qm_row(t@, node@) is None,
            Some(Err(k)) => qm_row(t@, node@) == Some(Err::<VmView, QmListErrorKind>(k)),
            Some(Ok(vm)) => qm_row(t@, node@) == Some(Ok::<VmView, QmListErrorKind>(vm@)),
        },
{
    if t.len() == 0 {
        return None;
    }
    let cols = split_words(t);
    let ghost cv = cols@.map_values(|c: Vec<char>| c@);
    assert(cv =~= words(t@)) by {
        assert forall|k: int| 0 <= k < cv.len() implies cv[k] == words(t@)[k] by {
            assert(cols@[k]@ == words(t@)[k]);
        }
    }
    assert(trim(t@) == t@);
    if cols.len() > 0 && chars_eq_str(&cols[0], "VMID") {
        return None;
    }
    if cols.len() < 6 {
        return Some(Err(QmListErrorKind::UnexpectedRow));
    }
    let vmid = match parse_unsigned_chars(&cols[0], u32::MAX as u64) {
        Ok(n) => n as u32,
        Err(e) => {
            return Some(Err(QmListErrorKind::InvalidVmid(e)));
        },
    };
    let mut si: usize = 1;
    while si < cols.len() && !is_vm_status(&cols[si])
        invariant
            1 <= si <= cols@.len(),
            cv == cols@.map_values(|c: Vec<char>| c@),
            status_index_from(cv, 1) == status_index_from(cv, si as int),
        decreases cols.len() - si,
    {
        si = si + 1;
    }
    if si == cols.len() {
        return Some(Err(QmListErrorKind::StatusNotFound));
    }
    assert(status_index_from(cv, si as int) == Some(si as int));
    if cols.len() - si <= 3 {
        return Some(Err(QmListErrorKind::MissingNumericColumns));
    }
    let name = join_columns(&cols, 1, si);
    let status = string_of(&cols[si], 0, cols[si].len());
    assert(cols@[si as int]@.subrange(0, cols@[si as int]@.len() as int) =~= cols@[si as int]@);
    let memory_mb = match parse_unsigned_chars(&cols[si + 1], u64::MAX) {
        Ok(n) => Some(n),
        Err(_) => None,
    };
    let bootdisk_gb = string_of(&cols[si + 2], 0, cols[si + 2].len());
    assert(cols@[si + 2]@.subrange(0, cols@[si + 2]@.len() as int) =~= cols@[si + 2]@);
    let pid = match parse_unsigned_chars(&cols[si + 3], u32::MAX as u64) {
        Ok(n) => Some(n as u32),
        Err(_) => None,
    };
    let mut node_s = String::new();
    push_str(&mut node_s, node);
    Some(Ok(Vm { vmid, name, status, node: node_s, memory_mb, bootdisk_gb, pid }))
}

/// Reads the output of `qm list`: one VM per row, each on `node`; blank lines and the
/// header are skipped; the first malformed row is the error.
pub fn parse_qm_list(output: &str, node: &str) -> (r: Result<Vec<Vm>, QmListError>)
    ensures
        match r {
            Ok(vms) => spec_parse_qm_list(output@, node@) == Ok::<Seq<VmView>, QmListErrorView>(vms_view(vms@)),
            Err(e) => spec_parse_qm_list(output@, node@) == Err::<Seq<VmView>, QmListErrorView>(
                QmListErrorView { kind: e.kind, row: e.row@ },
            ),
        },
{
    let v = chars_of(output);
    let ls = line_bounds(&v);
    let ghost lsv = lines(output@);
    let mut vms: Vec<Vm> = Vec::new();
    let mut k: usize = 0;
    assert(vms_view(vms@) =~= Seq::<VmView>::empty());
    while k < ls.len()
        invariant
            v@ == output@,
            lsv == lines(output@),
            ls@.len() == lsv.len(),
            forall|j: int|
                0 <= j < ls@.len() ==> {
                    &&& (#[trigger] ls@[j]).0 <= ls@[j].1 <= v@.len()
                    &&& v@.subrange(ls@[j].0 as int, ls@[j].1 as int) == lsv[j]
                },
            0 <= k <= ls@.len(),
            spec_parse_qm_list(output@, node@) == prepend_vms(vms_view(vms@), qm_rows(lsv, node@, k as int)),
        decreases ls.len() - k,
    {
        let (a, b) = ls[k];
        let (ta, tb) = trim_bounds(&v, a, b);
        let t = slice_of(&v, ta, tb);
        proof {
            crate::text::lemma_trim_idempotent(lsv[k as int]);
        }
        let ghost rest = qm_rows(lsv, node@, k + 1);
        match parse_qm_row(&t, node) {
            None => {},
            Some(Err(kind)) => {
                return Err(QmListError { kind, row: string_of(&v, ta, tb) });
            },
            Some(Ok(vm)) => {
                let ghost before = vms_view(vms@);
                vms.push(vm);
                proof {
                    assert(vms_view(vms@) =~= before.push(vm@));
                    match rest {
                        Ok(x) => {
                            assert(before + (seq![vm@] + x) =~= before.push(vm@) + x);
                        },
                        Err(_) => {},
                    }
                }
            },
        }
        k = k + 1;
    }
    assert(vms_view(vms@) + Seq::<VmView>::empty() =~= vms_view(vms@));
    Ok(vms)
}

// ---------------------------------------------------------------------------
// The node
// ---------------------------------------------------------------------------

/// The host name up to its first dot, after trimming; `localhost` when that is empty.
pub open spec fn spec_normalize_node_name(stdout: Seq<char>) -> Seq<char> {
    let short = split_on(trim(stdout), '.')[0];
    if short.len() == 0 {
        "localhost"@
    } else {
        short
    }
}

pub fn normalize_node_name(stdout: &str) -> (n: String)
    ensures
        n@ == spec_normalize_node_name(stdout@),
{
    let v = chars_of(stdout);
    let t = crate::text::trimmed(&v);
    let pieces = split_bounds(&t, '.');
    proof {
        crate::text::lemma_split_on_len(t@, '.');
    }
    let (a, b) = pieces[0];
    if a == b {
        let mut n = String::new();
        push_str(&mut n, "localhost");
        n
    } else {
        string_of(&t, a, b)
    }
}

/// Talks to the local Proxmox host through `qm` and `hostname`.
#[derive(Debug)]
pub struct Proxmox {
    pub runner: CommandRunner,
    pub configured_node: String,
    pub node: String,
    pub command_timeout_secs: u64,
}

impl Proxmox {
    pub fn new(runner: CommandRunner, config: &Config) -> (p: Proxmox)
        ensures
            p.runner == runner,
            p.configured_node@ == config.proxmox.node@,
            p.node@ == "unknown"@,
            p.command_timeout_secs == config.proxmox.command_timeout_secs,
    {
        let mut configured = String::new();
        push_str(&mut configured, config.proxmox.node.as_str());
        let mut node = String::new();
        push_str(&mut node, "unknown");
        Proxmox {
            runner,
            configured_node: configured,
            node,
            command_timeout_secs: config.proxmox.command_timeout_secs,
        }
    }

    /// The node the VMs are on.
    pub fn node(&self) -> (n: &str)
        ensures
            n@ == self.node@,
    {
        self.node.as_str()
    }

    pub fn runner(&self) -> (r: &CommandRunner)
        ensures
            *r == self.runner,
    {
        &self.runner
    }

    /// Whether the node name has to be asked of `hostname`: the configured node is `auto`.
    pub fn needs_hostname(&self) -> (b: bool)
        ensures
            b == (self.configured_node@ == "auto"@),
    {
        let v = chars_of(self.configured_node.as_str());
        chars_eq_str(&v, "auto")
    }

    /// The `hostname` command to ask for the node name: `hostname -s` first, plain
    /// `hostname` as the fallback; at most three seconds.
    pub fn hostname_command(&self, short: bool) -> (c: CommandInvocation)
        ensures
            c.program@ == "hostname"@,
            crate::command::invocation_args(c) == (if short {
                seq!["-s"@]
            } else {
                Seq::<Seq<char>>::empty()
            }),
            c.timeout_secs == crate::command::min_nat(self.command_timeout_secs as nat, 3),
    {
        let args: Vec<&str> = if short {
            vec!["-s"]
        } else {
            Vec::new()
        };
        let timeout = if self.command_timeout_secs < 3 {
            self.command_timeout_secs
        } else {
            3
        };
        let c = CommandInvocation { program: string_of_literal("hostname"), args: strings_of(&args), timeout_secs: timeout };
        proof {
            if short {
                assert(crate::command::invocation_args(c) =~= seq!["-s"@]);
            } else {
                assert(crate::command::invocation_args(c) =~= Seq::<Seq<char>>::empty());
            }
        }
        c
    }

    /// Sets the node: the configured node unless it is `auto`; else the normalized
    /// output of `hostname` when one of the `hostname` commands succeeded, or
    /// `localhost`.
    pub fn detect_node(&mut self, hostname_stdout: Option<&str>)
        ensures
            final(self).runner == old(self).runner,
            final(self).configured_node == old(self).configured_node,
            final(self).command_timeout_secs == old(self).command_timeout_secs,
            final(self).node@ == (if old(self).configured_node@ != "auto"@ {
                old(self).configured_node@
            } else {
                match hostname_stdout {
                    Some(out) => spec_normalize_node_name(out@),
                    None => "localhost"@,
                }
            }),
    {
        if !self.needs_hostname() {
            let mut n = String::new();
            push_str(&mut n, self.configured_node.as_str());
            self.node = n;
            return;
        }
        self.node = match hostname_stdout {
            Some(out) => normalize_node_name(out),
            None => string_of_literal("localhost"),
        };
    }

    /// The `qm list` command, with at most five seconds.
    pub fn list_command(&self) -> (c: CommandInvocation)
        ensures
            c.program@ == "qm"@,
            crate::command::invocation_args(c) == seq!["list"@],
            c.timeout_secs == crate::command::min_nat(self.command_timeout_secs as nat, 5),
    {
        let args: Vec<&str> = vec!["list"];
        let timeout = if self.command_timeout_secs < 5 {
            self.command_timeout_secs
        } else {
            5
        };
        let c = CommandInvocation { program: string_of_literal("qm"), args: strings_of(&args), timeout_secs: timeout };
        assert(crate::command::invocation_args(c) =~= seq!["list"@]);
        c
    }

    /// The VMs that the output of `qm list` shows, on this node.
    pub fn list_vms(&self, qm_list_output: &str) -> (r: Result<Vec<Vm>, QmListError>)
        ensures
            match r {
                Ok(vms) => spec_parse_qm_list(qm_list_output@, self.node@) == Ok::<Seq<VmView>, QmListErrorView>(vms_view(vms@)),
                Err(e) => spec_parse_qm_list(qm_list_output@, self.node@) == Err::<Seq<VmView>, QmListErrorView>(
                    QmListErrorView { kind: e.kind, row: e.row@ },
                ),
            },
    {
        parse_qm_list(qm_list_output, self.node.as_str())
    }

    /// The command that performs `action` on VM `vmid`: `qm <action> <vmid>`, with the
    /// action's own time limit.
    pub fn power_action(&self, vmid: u32, action: PowerAction) -> (c: CommandInvocation)
        ensures
            c.program@ == "qm"@,
            crate::command::invocation_args(c) == seq![spec_qm_command(action), decimal(vmid as nat)],
            c.timeout_secs == spec_power_timeout(action),
    {
        let id = decimal_string(vmid as u64);
        let mut args: Vec<String> = Vec::new();
        args.push(string_of_literal(action.qm_command()));
        args.push(id);
        let c = CommandInvocation { program: string_of_literal("qm"), args, timeout_secs: action.timeout_secs() };
        assert(crate::command::invocation_args(c) =~= seq![spec_qm_command(action), decimal(vmid as nat)]);
        c
    }
}

fn string_of_literal(s: &str) -> (out: String)
    ensures
        out@ == s@,
{
    let mut out = String::new();
    push_str(&mut out, s);
    out
}

/// The index of the first VM with `vmid`.
pub open spec fn first_vm_index(vms: Seq<VmView>, vmid: nat, i: int) -> Option<int>
    decreases vms.len() - i,
{
    if i >= vms.len() {
        None
    } else if vms[i].vmid == vmid {
        Some(i)
    } else {
        first_vm_index(vms, vmid, i + 1)
    }
}

pub fn find_vm_index(vms: &Vec<Vm>, vmid: u32) -> (r: Option<usize>)
    ensures
        match r {
            Some(i) => i < vms@.len() && first_vm_index(vms_view(vms@), vmid as nat, 0) == Some(i as int),
            None => first_vm_index(vms_view(vms@), vmid as nat, 0) is None,
        },
{
    let ghost vv = vms_view(vms@);
    let mut i: usize = 0;
    while i < vms.len()
        invariant
            0 <= i <= vms@.len(),
            vv == vms_view(vms@),
            first_vm_index(vv, vmid as nat, 0) == first_vm_index(vv, vmid as nat, i as int),
        decreases vms.len() - i,
    {
        assert(vv[i as int] == vms@[i as int]@);
        if vms[i].vmid == vmid {
            return Some(i);
        }
        i = i + 1;
    }
    None
}

/// What waiting for a VM to reach a status does after one look at the list.
#[derive(Clone, Copy, Debug, PartialEq, Eq, Structural)]
pub enum WaitStep {
    /// Stop waiting; the index of the VM in the list, if it is there.
    Finished(Option<usize>),
    /// Look again after a pause.
    TryAgain,
}

/// After one look at `vms`: finish when the VM has `desired_status` or the time is up,
/// else look again.
pub fn wait_step(vms: &Vec<Vm>, vmid: u32, desired_status: &str, deadline_passed: bool) -> (s: WaitStep)
    ensures
        ({
            let found = first_vm_index(vms_view(vms@), vmid as nat, 0);
            let reached = match found {
                Some(i) => vms_view(vms@)[i].status == desired_status@,
                None => false,
            };
            if reached || deadline_passed {
                s == WaitStep::Finished(match found {
                    Some(i) => Some(i as usize),
                    None => None,
                })
            } else {
                s == WaitStep::TryAgain
            }
        }),
{
    let found = find_vm_index(vms, vmid);
    let reached = match found {
        Some(i) => {
            let st = chars_of(vms[i].status.as_str());
            let want = chars_of(desired_status);
            assert(vms_view(vms@)[i as int] == vms@[i as int]@);
            chars_eq(&st, &want)
        },
        None => false,
    };
    if reached || deadline_passed {
        WaitStep::Finished(found)
    } else {
        WaitStep::TryAgain
    }
}

// ---------------------------------------------------------------------------
// Laws
// ---------------------------------------------------------------------------

/// A `qm list` row whose columns are a VMID, a one-word name, one of the statuses
/// `running`, `stopped`, `paused`, `suspended`, `prelaunch`, `unknown`, the memory, the
/// boot disk and the PID is read as that VM, with that status, on the given node; and
/// output made of that row alone is the list of that VM.
pub proof fn lemma_status_rows_are_read(
    line: Seq<char>,
    node: Seq<char>,
    id: Seq<char>,
    name: Seq<char>,
    status: Seq<char>,
    mem: Seq<char>,
    disk: Seq<char>,
    pid: Seq<char>,
    vmid: nat,
)
    requires
        words(trim(line)) == seq![id, name, status, mem, disk, pid],
        parse_unsigned(id, u32::MAX as nat) == Ok::<nat, IntErrorKind>(vmid),
        status == "running"@ || status == "stopped"@ || status == "paused"@ || status == "suspended"@
            || status == "prelaunch"@ || status == "unknown"@,
        !(name == "running"@ || name == "stopped"@ || name == "paused"@ || name == "suspended"@
            || name == "prelaunch"@ || name == "unknown"@),
    ensures
        ({
            let vm = VmView {
                vmid,
                name,
                status,
                node,
                memory_mb: optional_number(mem, u64::MAX as nat),
                bootdisk_gb: disk,
                pid: optional_number(pid, u32::MAX as nat),
            };
            &&& qm_row(line, node) == Some(Ok::<VmView, QmListErrorKind>(vm))
            &&& (lines(line) == seq![line] ==> spec_parse_qm_list(line, node) == Ok::<
                Seq<VmView>,
                QmListErrorView,
            >(seq![vm]))
        }),
{
    let t = trim(line);
    let cols = words(t);
    assert(t.len() != 0);
    if id == "VMID"@ {
        reveal_strlit("VMID");
        assert(id[0] == 'V');
        assert(crate::text::unsigned_digits(id) == id);
        assert(!crate::text::is_digit(id[0]));
        assert(parse_unsigned(id, u32::MAX as nat) is Err);
    }
    assert(!spec_is_vm_status(cols[1]));
    assert(spec_is_vm_status(cols[2]));
    assert(status_index_from(cols, 2) == Some(2int));
    assert(status_index_from(cols, 1) == Some(2int));
    assert(cols.subrange(1, 2) =~= seq![name]);
    assert(join_words(seq![name], " "@) == name);
    assert(qm_rows(seq![line], node, 1) == Ok::<Seq<VmView>, QmListErrorView>(Seq::empty()));
    let vm = VmView {
        vmid,
        name,
        status,
        node,
        memory_mb: optional_number(mem, u64::MAX as nat),
        bootdisk_gb: disk,
        pid: optional_number(pid, u32::MAX as nat),
    };
    assert(seq![vm] + Seq::<VmView>::empty() =~= seq![vm]);
}

/// The status a power action waits for is the one it leads to: `stopped` after a
/// shutdown or a stop, `running` after a start, a reboot or a reset.
pub proof fn lemma_desired_status_follows_the_action(a: PowerAction)
    ensures
        (a == PowerAction::Shutdown || a == PowerAction::Stop) <==> spec_desired_status(a) == "stopped"@,
        (a == PowerAction::Start || a == PowerAction::Reboot || a == PowerAction::Reset) <==> spec_desired_status(
            a,
        ) == "running"@,
{
    reveal_strlit("stopped");
    reveal_strlit("running");
    assert("stopped"@[0] != "running"@[0]);
}

/// Each power action runs the `qm` subcommand of its name, with 30 seconds for a start,
/// a stop or a reset and 60 for a shutdown or a reboot.
pub proof fn lemma_power_action_commands(a: PowerAction)
    ensures
        a == PowerAction::Start ==> spec_qm_command(a) == "start"@ && spec_power_timeout(a) == 30,
        a == PowerAction::Shutdown ==> spec_qm_command(a) == "shutdown"@ && spec_power_timeout(a) == 60,
        a == PowerAction::Reboot ==> spec_qm_command(a) == "reboot"@ && spec_power_timeout(a) == 60,
        a == PowerAction::Stop ==> spec_qm_command(a) == "stop"@ && spec_power_timeout(a) == 30,
        a == PowerAction::Reset ==> spec_qm_command(a) == "reset"@ && spec_power_timeout(a) == 30,
{
}

} // verus!
