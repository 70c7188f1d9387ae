//! The state of the terminal interface: the VM list and its selection, the action
//! menu, confirmations and the log, and what each key does to them. What a key asks
//! for beyond the state (a refresh, a power action, attaching a viewer) comes back as
//! an `Effect` for the caller to carry out.
use std::collections::VecDeque;
use vstd::prelude::*;

use crate::command::CommandRunner;
use crate::config::Config;
use crate::config::strings_view;
use crate::proxmox::PowerAction;
use crate::proxmox::Proxmox;
use crate::proxmox::Vm;
use crate::proxmox::VmView;
use crate::proxmox::QmListErrorView;
use crate::proxmox::first_vm_index;
use crate::proxmox::qm_list_error_message;
use crate::proxmox::spec_parse_qm_list;
use crate::proxmox::find_vm_index;
use crate::proxmox::spec_qm_command;
use crate::proxmox::vms_view;
use crate::text::decimal;
use crate::text::decimal_string;
use crate::text::push_str;
use crate::viewer::AttachError;
use crate::viewer::Protocol;
use crate::viewer::ViewerSession;
use crate::viewer::protocol_label;

verus! {

/// How many lines the log keeps; older ones are dropped.
pub const LOG_CAPACITY: usize = 200;

/// How many entries the action menu has.
pub const ACTION_COUNT: usize = 8;

/// What the user can ask for about the selected VM.
#[derive(Clone, Copy, Debug, PartialEq, Eq, Structural)]
pub enum Action {
    Attach(Protocol),
    Start,
    Shutdown,
    Reboot,
    Stop,
    Reset,
    Refresh,
}

/// The action menu, top to bottom.
pub open spec fn menu_action(i: int) -> Action {
    if i == 0 {
        Action::Attach(Protocol::Auto)
    } else if i == 1 {
        Action::Attach(Protocol::Spice)
    } else if i == 2 {
        Action::Attach(Protocol::Vnc)
    } else if i == 3 {
        Action::Start
    } else if i == 4 {
        Action::Shutdown
    } else if i == 5 {
        Action::Reboot
    } else if i == 6 {
        Action::Stop
    } else {
        Action::Reset
    }
}

/// The entry of the action menu at `index`, if there is one.
pub fn menu_action_at(index: usize) -> (a: Option<Action>)
    ensures
        a == (if index < ACTION_COUNT {
            Some(menu_action(index as int))
        } else {
            None
        }),
{
    if index == 0 {
        Some(Action::Attach(Protocol::Auto))
    } else if index == 1 {
        Some(Action::Attach(Protocol::Spice))
    } else if index == 2 {
        Some(Action::Attach(Protocol::Vnc))
    } else if index == 3 {
        Some(Action::Start)
    } else if index == 4 {
        Some(Action::Shutdown)
    } else if index == 5 {
        Some(Action::Reboot)
    } else if index == 6 {
        Some(Action::Stop)
    } else if index == 7 {
        Some(Action::Reset)
    } else {
        None
    }
}

/// The whole action menu.
pub fn menu_actions() -> (v: Vec<Action>)
    ensures
        v@.len() == ACTION_COUNT,
        forall|i: int| 0 <= i < ACTION_COUNT ==> v@[i] == menu_action(i),
{
    let mut v: Vec<Action> = Vec::new();
    let mut i: usize = 0;
    while i < ACTION_COUNT
        invariant
            0 <= i <= ACTION_COUNT,
            v@.len() == i,
            forall|j: int| 0 <= j < i ==> v@[j] == menu_action(j),
        decreases ACTION_COUNT - i,
    {
        match menu_action_at(i) {
            Some(a) => v.push(a),
            None => {},
        }
        i = i + 1;
    }
    v
}

pub open spec fn action_label(a: Action) -> Seq<char> {
    match a {
        Action::Attach(Protocol::Auto) => "Attach Auto"@,
        Action::Attach(Protocol::Spice) => "Attach SPICE"@,
        Action::Attach(Protocol::Vnc) => "Attach VNC"@,
        Action::Start => "Start"@,
        Action::Shutdown => "Shutdown"@,
        Action::Reboot => "Reboot"@,
        Action::Stop => "Stop"@,
        Action::Reset => "Reset"@,
        Action::Refresh => "Refresh"@,
    }
}

pub open spec fn action_description(a: Action) -> Seq<char> {
    match a {
        Action::Attach(Protocol::Auto) => "Try SPICE first, then VNC"@,
        Action::Attach(Protocol::Spice) => "Create .vv and open remote-viewer"@,
        Action::Attach(Protocol::Vnc) => "Start vncproxy and open Remmina"@,
        Action::Start => "qm start"@,
        Action::Shutdown => "qm shutdown"@,
        Action::Reboot => "qm reboot"@,
        Action::Stop => "qm stop"@,
        Action::Reset => "qm reset"@,
        Action::Refresh => "qm list"@,
    }
}

impl Action {
    pub fn label(self) -> (l: &'static str)
        ensures
            l@ == action_label(self),
    {
        match self {
            Action::Attach(Protocol::Auto) => "Attach Auto",
            Action::Attach(Protocol::Spice) => "Attach SPICE",
            Action::Attach(Protocol::Vnc) => "Attach VNC",
            Action::Start => "Start",
            Action::Shutdown => "Shutdown",
            Action::Reboot => "Reboot",
            Action::Stop => "Stop",
            Action::Reset => "Reset",
            Action::Refresh => "Refresh",
        }
    }

    pub fn description(self) -> (d: &'static str)
        ensures
            d@ == action_description(self),
    {
        match self {
            Action::Attach(Protocol::Auto) => "Try SPICE first, then VNC",
            Action::Attach(Protocol::Spice) => "Create .vv and open remote-viewer",
            Action::Attach(Protocol::Vnc) => "Start vncproxy and open Remmina",
            Action::Start => "qm start",
            Action::Shutdown => "qm shutdown",
            Action::Reboot => "qm reboot",
            Action::Stop => "qm stop",
            Action::Reset => "qm reset",
            Action::Refresh => "qm list",
        }
    }

    /// The `qm` power action that this action runs, if it is one.
    pub fn power_action(self) -> (p: Option<PowerAction>)
        ensures
            p == spec_power_of(self),
    {
        match self {
            Action::Start => Some(PowerAction::Start),
            Action::Shutdown => Some(PowerAction::Shutdown),
            Action::Reboot => Some(PowerAction::Reboot),
            Action::Stop => Some(PowerAction::Stop),
            Action::Reset => Some(PowerAction::Reset),
            Action::Attach(_) | Action::Refresh => None,
        }
    }
}

pub open spec fn spec_power_of(a: Action) -> Option<PowerAction> {
    match a {
        Action::Start => Some(PowerAction::Start),
        Action::Shutdown => Some(PowerAction::Shutdown),
        Action::Reboot => Some(PowerAction::Reboot),
        Action::Stop => Some(PowerAction::Stop),
        Action::Reset => Some(PowerAction::Reset),
        Action::Attach(_) | Action::Refresh => None,
    }
}

/// An action waiting for its confirmation, with the VM it is for.
#[derive(Clone, Copy, Debug, PartialEq, Eq, Structural)]
pub struct PendingAction {
    pub vmid: u32,
    pub action: Action,
}

/// What the screen shows and how keys are read.
#[derive(Debug)]
pub enum Mode {
    Browsing,
    ActionMenu,
    Confirm { pending: PendingAction, message: String },
    Logs,
    Help,
}

/// A key press, as far as the interface tells keys apart.
#[derive(Clone, Copy, Debug, PartialEq, Eq, Structural)]
pub enum Key {
    Char(char),
    Up,
    Down,
    Enter,
    Esc,
    Other,
}

/// What the caller carries out after a key: nothing, a refresh of the VM list, or an
/// action on a VM.
#[derive(Clone, Copy, Debug, PartialEq, Eq, Structural)]
pub enum Effect {
    Nothing,
    Refresh,
    Perform(PendingAction),
}

// ---------------------------------------------------------------------------
// Selection and menu movement
// ---------------------------------------------------------------------------

/// The selection after moving down a list of `len` entries (wrapping to the top).
pub open spec fn next_index(i: nat, len: nat) -> nat {
    if len == 0 {
        0
    } else {
        (i + 1) % len
    }
}

/// The selection after moving up a list of `len` entries (wrapping to the bottom).
pub open spec fn previous_index(i: nat, len: nat) -> nat {
    if len == 0 {
        0
    } else if i == 0 {
        (len - 1) as nat
    } else {
        (i - 1) as nat
    }
}

/// Moving down and then up, or up and then down, lands where it started, on any
/// entry of a list.
pub proof fn lemma_next_previous_inverse(i: nat, len: nat)
    requires
        i < len,
    ensures
        previous_index(next_index(i, len), len) == i,
        next_index(previous_index(i, len), len) == i,
        next_index(i, len) < len,
        previous_index(i, len) < len,
{
    if i + 1 < len {
        assert((i + 1) % len == i + 1) by (nonlinear_arith)
            requires
                0 <= i + 1 < len,
        ;
    } else {
        assert((i + 1) % len == 0) by (nonlinear_arith)
            requires
                i + 1 == len,
                len > 0,
        ;
    }
    if i == 0 {
        assert(((len - 1) + 1) % (len as int) == 0) by (nonlinear_arith)
            requires
                len > 0,
        ;
    } else {
        assert(((i - 1) + 1) % (len as int) == i) by (nonlinear_arith)
            requires
                0 < i < len,
        ;
    }
}

fn next_of(i: usize, len: usize) -> (r: usize)
    ensures
        r == next_index(i as nat, len as nat),
{
    if len == 0 {
        0
    } else if i >= len {
        proof {
            assert(((i + 1) as nat) % (len as nat) < len) by (nonlinear_arith)
                requires
                    len > 0,
            ;
        }
        ((i as u128 + 1) % (len as u128)) as usize
    } else {
        (i + 1) % len
    }
}

fn previous_of(i: usize, len: usize) -> (r: usize)
    ensures
        r == previous_index(i as nat, len as nat),
{
    if len == 0 {
        0
    } else if i == 0 {
        len - 1
    } else {
        i - 1
    }
}

// ---------------------------------------------------------------------------
// The log
// ---------------------------------------------------------------------------

/// A log line: the time since start as shown (`stamp`, seconds with one decimal
/// right-aligned in seven columns), then `s`, two spaces and the message.
pub open spec fn log_line(stamp: Seq<char>, message: Seq<char>) -> Seq<char> {
    stamp + "s  "@ + message
}

/// The log after `line` is added: the newest `LOG_CAPACITY` lines.
pub open spec fn appended_log(logs: Seq<Seq<char>>, line: Seq<char>) -> Seq<Seq<char>> {
    let l = logs.push(line);
    if l.len() > LOG_CAPACITY {
        l.subrange(l.len() - LOG_CAPACITY, l.len() as int)
    } else {
        l
    }
}

// ---------------------------------------------------------------------------
// Confirmation
// ---------------------------------------------------------------------------

/// Destructive power actions ask first when the configuration says so; attaching
/// asks first when the VM is not running (it will be started); the rest never ask.
pub open spec fn needs_confirmation(status: Seq<char>, action: Action, confirm_destructive: bool) -> bool {
    match action {
        Action::Shutdown | Action::Reboot | Action::Stop | Action::Reset => confirm_destructive,
        Action::Attach(_) => status != "running"@,
        Action::Start | Action::Refresh => false,
    }
}

pub open spec fn confirmation_message(vm: VmView, action: Action) -> Seq<char> {
    match action {
        Action::Attach(p) => "VM "@ + decimal(vm.vmid) + " "@ + vm.name + " is "@ + vm.status
            + ". Start it and attach via "@ + protocol_label(p) + "?"@,
        _ => "Run "@ + action_label(action) + " for VM "@ + decimal(vm.vmid) + " "@ + vm.name + "?"@,
    }
}

fn is_running_status(status: &str) -> (b: bool)
    ensures
        b == (status@ == "running"@),
{
    let v = crate::text::chars_of(status);
    crate::text::chars_eq_str(&v, "running")
}

/// Whether a VM is running.
pub fn is_running(vm: &Vm) -> (b: bool)
    ensures
        b == (vm.status@ == "running"@),
{
    is_running_status(vm.status.as_str())
}

fn confirmation_text(vm: &Vm, action: Action) -> (s: String)
    ensures
        s@ == confirmation_message(vm@, action),
{
    let mut s = String::new();
    let id = decimal_string(vm.vmid as u64);
    match action {
        Action::Attach(p) => {
            push_str(&mut s, "VM ");
            push_str(&mut s, id.as_str());
            push_str(&mut s, " ");
            push_str(&mut s, vm.name.as_str());
            push_str(&mut s, " is ");
            push_str(&mut s, vm.status.as_str());
            push_str(&mut s, ". Start it and attach via ");
            push_str(&mut s, p.label());
            push_str(&mut s, "?");
        },
        _ => {
            push_str(&mut s, "Run ");
            push_str(&mut s, action.label());
            push_str(&mut s, " for VM ");
            push_str(&mut s, id.as_str());
            push_str(&mut s, " ");
            push_str(&mut s, vm.name.as_str());
            push_str(&mut s, "?");
        },
    }
    s
}

// ---------------------------------------------------------------------------
// The application state
// ---------------------------------------------------------------------------

/// The state of the interface.
#[derive(Debug)]
pub struct App {
    pub config: Config,
    pub proxmox: Proxmox,
    pub vms: Vec<Vm>,
    /// The index of the selected VM (0 when the list is empty).
    pub selected: usize,
    pub mode: Mode,
    pub action_menu_index: usize,
    /// The newest log lines, oldest first.
    pub logs: VecDeque<String>,
    /// The last message logged.
    pub status_line: String,
    pub should_quit: bool,
    /// When the VM list was last refreshed, in milliseconds after start.
    pub last_refresh_ms: u64,
}

fn owned(s: &str) -> (out: String)
    ensures
        out@ == s@,
{
    let mut out = String::new();
    push_str(&mut out, s);
    out
}

/// The parts of the state that keys never touch.
pub open spec fn same_data(a: App, b: App) -> bool {
    &&& a.config == b.config
    &&& a.proxmox == b.proxmox
    &&& a.vms@ == b.vms@
    &&& a.last_refresh_ms == b.last_refresh_ms
}

pub open spec fn same_log(a: App, b: App) -> bool {
    a.logs@ == b.logs@ && a.status_line == b.status_line
}

pub open spec fn same_cursor(a: App, b: App) -> bool {
    &&& a.selected == b.selected
    &&& a.action_menu_index == b.action_menu_index
    &&& a.should_quit == b.should_quit
}

/// `b` is `a` with `message` logged with the time `stamp`.
pub open spec fn logged(a: App, b: App, message: Seq<char>, stamp: Seq<char>) -> bool {
    &&& strings_view(b.logs@) == appended_log(strings_view(a.logs@), log_line(stamp, message))
    &&& b.status_line@ == message
}

impl App {
    /// The selection is on a VM or at 0, the menu cursor on an entry, and the log
    /// within its capacity.
    pub open spec fn wf(self) -> bool {
        &&& (self.selected == 0 || self.selected < self.vms@.len())
        &&& self.action_menu_index < ACTION_COUNT
        &&& self.logs@.len() <= LOG_CAPACITY
    }

    /// Whether `wf` holds.
    pub fn is_consistent(&self) -> (b: bool)
        ensures
            b == self.wf(),
    {
        (self.selected == 0 || self.selected < self.vms.len()) && self.action_menu_index < ACTION_COUNT
            && self.logs.len() <= LOG_CAPACITY
    }

    /// The state at start: no VMs yet, browsing, and the status `Starting`.
    pub fn new(config: Config) -> (app: App)
        ensures
            app.wf(),
            app.config == config,
            app.proxmox.runner.log_path@ == config.logging.file@,
            app.proxmox.configured_node@ == config.proxmox.node@,
            app.proxmox.node@ == "unknown"@,
            app.proxmox.command_timeout_secs == config.proxmox.command_timeout_secs,
            app.vms@.len() == 0,
            app.selected == 0,
            app.mode is Browsing,
            app.action_menu_index == 0,
            app.logs@.len() == 0,
            app.status_line@ == "Starting"@,
            !app.should_quit,
            app.last_refresh_ms == 0,
    {
        let runner = CommandRunner::new(owned(config.logging.file.as_str()));
        let proxmox = Proxmox::new(runner, &config);
        App {
            config,
            proxmox,
            vms: Vec::new(),
            selected: 0,
            mode: Mode::Browsing,
            action_menu_index: 0,
            logs: VecDeque::new(),
            status_line: owned("Starting"),
            should_quit: false,
            last_refresh_ms: 0,
        }
    }

    /// The selected VM, if the list has one there.
    pub fn selected_vm(&self) -> (v: Option<&Vm>)
        ensures
            match v {
                Some(vm) => self.selected < self.vms@.len() && *vm == self.vms@[self.selected as int],
                None => self.selected >= self.vms@.len(),
            },
    {
        if self.selected < self.vms.len() {
            Some(&self.vms[self.selected])
        } else {
            None
        }
    }

    /// The first VM in the list with `vmid`.
    pub fn find_vm(&self, vmid: u32) -> (v: Option<&Vm>)
        ensures
            match v {
                Some(vm) => exists|i: int| first_vm_index(vms_view(self.vms@), vmid as nat, 0) == Some(i)
                    && *vm == self.vms@[i],
                None => first_vm_index(vms_view(self.vms@), vmid as nat, 0) is None,
            },
    {
        match find_vm_index(&self.vms, vmid) {
            Some(i) => Some(&self.vms[i]),
            None => None,
        }
    }

    /// Adds `message` to the log with the time since start as shown (`stamp`) and shows
    /// it in the status line.
    pub fn log(&mut self, message: &str, stamp: &str)
        ensures
            same_data(*old(self), *final(self)),
            same_cursor(*old(self), *final(self)),
            final(self).mode == old(self).mode,
            logged(*old(self), *final(self), message@, stamp@),
            old(self).logs@.len() <= LOG_CAPACITY ==> final(self).logs@.len() <= LOG_CAPACITY,
    {
        let mut line = String::new();
        push_str(&mut line, stamp);
        push_str(&mut line, "s  ");
        push_str(&mut line, message);
        let ghost full = strings_view(self.logs@).push(line@);
        let mut logs: VecDeque<String> = VecDeque::new();
        std::mem::swap(&mut logs, &mut self.logs);
        logs.push_back(line);
        assert(strings_view(logs@) =~= full);
        while logs.len() > LOG_CAPACITY
            invariant
                logs@.len() <= full.len(),
                logs@.len() >= LOG_CAPACITY || logs@.len() == full.len(),
                strings_view(logs@) == full.subrange(full.len() - logs@.len(), full.len() as int),
            decreases logs@.len(),
        {
            let ghost before = logs@;
            let _ = logs.pop_front();
            assert(strings_view(logs@) =~= strings_view(before).subrange(1, before.len() as int));
            assert(strings_view(logs@) =~= full.subrange(full.len() - logs@.len(), full.len() as int));
        }
        proof {
            if full.len() <= LOG_CAPACITY {
                assert(full.subrange(0, full.len() as int) =~= full);
            }
        }
        self.logs = logs;
        self.status_line = owned(message);
        assert(strings_view(self.logs@) == appended_log(strings_view(old(self).logs@), line@));
    }
}

// ---------------------------------------------------------------------------
// Keys
// ---------------------------------------------------------------------------

/// What a key means in a mode.
#[derive(Clone, Copy, Debug, PartialEq, Eq, Structural)]
pub enum KeyStep {
    Ignore,
    Quit,
    Previous,
    Next,
    OpenMenu,
    Execute(Action),
    ShowLogs,
    ShowHelp,
    Back,
    MenuUp,
    MenuDown,
    /// Run the menu entry at this index.
    MenuChoose(usize),
    Confirm(PendingAction),
    Cancel,
}

/// The keys of the list: `q` quits, arrows or `k`/`j` move, Enter opens the action
/// menu, letters run actions, `l` shows the log and `?` the help.
pub open spec fn browsing_step(key: Key) -> KeyStep {
    match key {
        Key::Char(c) => if c == 'q' {
            KeyStep::Quit
        } else if c == 'k' {
            KeyStep::Previous
        } else if c == 'j' {
            KeyStep::Next
        } else if c == 'r' {
            KeyStep::Execute(Action::Refresh)
        } else if c == 's' {
            KeyStep::Execute(Action::Start)
        } else if c == 'S' {
            KeyStep::Execute(Action::Shutdown)
        } else if c == 'f' {
            KeyStep::Execute(Action::Stop)
        } else if c == 'b' {
            KeyStep::Execute(Action::Reboot)
        } else if c == 'x' {
            KeyStep::Execute(Action::Reset)
        } else if c == 'a' {
            KeyStep::Execute(Action::Attach(Protocol::Auto))
        } else if c == 'p' {
            KeyStep::Execute(Action::Attach(Protocol::Spice))
        } else if c == 'v' {
            KeyStep::Execute(Action::Attach(Protocol::Vnc))
        } else if c == 'l' {
            KeyStep::ShowLogs
        } else if c == '?' {
            KeyStep::ShowHelp
        } else {
            KeyStep::Ignore
        },
        Key::Up => KeyStep::Previous,
        Key::Down => KeyStep::Next,
        Key::Enter => KeyStep::OpenMenu,
        _ => KeyStep::Ignore,
    }
}

/// The keys of the action menu: Esc or `q` closes it, arrows or `k`/`j` move the
/// cursor, Enter runs the entry under it and `1` to `8` run that entry.
pub open spec fn menu_step(key: Key, index: usize) -> KeyStep {
    match key {
        Key::Char(c) => if c == 'q' {
            KeyStep::Back
        } else if c == 'k' {
            KeyStep::MenuUp
        } else if c == 'j' {
            KeyStep::MenuDown
        } else if '1' <= c && c <= '8' {
            KeyStep::MenuChoose((c as u32 - '1' as u32) as usize)
        } else {
            KeyStep::Ignore
        },
        Key::Esc => KeyStep::Back,
        Key::Up => KeyStep::MenuUp,
        Key::Down => KeyStep::MenuDown,
        Key::Enter => KeyStep::MenuChoose(index),
        _ => KeyStep::Ignore,
    }
}

/// The keys of a confirmation: `y`, `Y` or Enter confirm; `n`, `N` or Esc cancel.
pub open spec fn confirm_step(key: Key, pending: PendingAction) -> KeyStep {
    match key {
        Key::Char(c) => if c == 'y' || c == 'Y' {
            KeyStep::Confirm(pending)
        } else if c == 'n' || c == 'N' {
            KeyStep::Cancel
        } else {
            KeyStep::Ignore
        },
        Key::Enter => KeyStep::Confirm(pending),
        Key::Esc => KeyStep::Cancel,
        _ => KeyStep::Ignore,
    }
}

/// The log and help screens close with Esc, `q`, or their own key (`l`, `?`).
pub open spec fn screen_step(key: Key, own: char) -> KeyStep {
    match key {
        Key::Char(c) => if c == 'q' || c == own {
            KeyStep::Back
        } else {
            KeyStep::Ignore
        },
        Key::Esc => KeyStep::Back,
        _ => KeyStep::Ignore,
    }
}

pub open spec fn key_step(mode: Mode, menu_index: usize, key: Key) -> KeyStep {
    match mode {
        Mode::Browsing => browsing_step(key),
        Mode::ActionMenu => menu_step(key, menu_index),
        Mode::Confirm { pending, .. } => confirm_step(key, pending),
        Mode::Logs => screen_step(key, 'l'),
        Mode::Help => screen_step(key, '?'),
    }
}

/// Running `action` from the list (the mode being `Browsing`): a refresh is handed
/// out; without a selected VM, `No VM selected` is logged; an action that needs
/// confirmation opens the confirmation; any other is handed out for the selected VM.
/// The selection, the menu cursor and the quit flag stay as they are.
pub open spec fn executed(a: App, b: App, action: Action, stamp: Seq<char>, e: Effect) -> bool {
    &&& same_data(a, b)
    &&& same_cursor(a, b)
    &&& if action == Action::Refresh {
        &&& e == Effect::Refresh
        &&& b.mode is Browsing
        &&& same_log(a, b)
    } else if a.selected >= a.vms@.len() {
        &&& e == Effect::Nothing
        &&& b.mode is Browsing
        &&& logged(a, b, "No VM selected"@, stamp)
    } else {
        let vm = a.vms@[a.selected as int]@;
        let pending = PendingAction { vmid: a.vms@[a.selected as int].vmid, action };
        &&& same_log(a, b)
        &&& if needs_confirmation(vm.status, action, a.config.ui.confirm_destructive_actions) {
            &&& e == Effect::Nothing
            &&& b.mode matches Mode::Confirm { pending: p, message: m } && p == pending && m@
                == confirmation_message(vm, action)
        } else {
            &&& e == Effect::Perform(pending)
            &&& b.mode is Browsing
        }
    }
}

/// What a key does to the state (logging with the time `stamp`) and what it hands out.
pub open spec fn key_handled(a: App, b: App, key: Key, stamp: Seq<char>, e: Effect) -> bool {
    match key_step(a.mode, a.action_menu_index, key) {
        KeyStep::Ignore => same_data(a, b) && same_cursor(a, b) && same_log(a, b) && b.mode == a.mode
            && e == Effect::Nothing,
        KeyStep::Quit => {
            &&& same_data(a, b) && same_log(a, b) && b.mode == a.mode
            &&& b.should_quit && b.selected == a.selected && b.action_menu_index == a.action_menu_index
            &&& e == Effect::Nothing
        },
        KeyStep::Previous => {
            &&& same_data(a, b) && same_log(a, b) && b.mode == a.mode
            &&& b.selected == previous_index(a.selected as nat, a.vms@.len())
            &&& b.action_menu_index == a.action_menu_index && b.should_quit == a.should_quit
            &&& e == Effect::Nothing
        },
        KeyStep::Next => {
            &&& same_data(a, b) && same_log(a, b) && b.mode == a.mode
            &&& b.selected == next_index(a.selected as nat, a.vms@.len())
            &&& b.action_menu_index == a.action_menu_index && b.should_quit == a.should_quit
            &&& e == Effect::Nothing
        },
        KeyStep::OpenMenu => {
            &&& same_data(a, b) && same_cursor(a, b) && e == Effect::Nothing
            &&& if a.selected < a.vms@.len() {
                b.mode is ActionMenu && same_log(a, b)
            } else {
                b.mode == a.mode && logged(a, b, "No VM selected"@, stamp)
            }
        },
        KeyStep::Execute(action) => executed(a, b, action, stamp, e),
        KeyStep::ShowLogs => same_data(a, b) && same_cursor(a, b) && same_log(a, b) && b.mode is Logs
            && e == Effect::Nothing,
        KeyStep::ShowHelp => same_data(a, b) && same_cursor(a, b) && same_log(a, b) && b.mode is Help
            && e == Effect::Nothing,
        KeyStep::Back => same_data(a, b) && same_cursor(a, b) && same_log(a, b) && b.mode is Browsing
            && e == Effect::Nothing,
        KeyStep::MenuUp => {
            &&& same_data(a, b) && same_log(a, b) && b.mode == a.mode
            &&& b.action_menu_index == previous_index(a.action_menu_index as nat, ACTION_COUNT as nat)
            &&& b.selected == a.selected && b.should_quit == a.should_quit
            &&& e == Effect::Nothing
        },
        KeyStep::MenuDown => {
            &&& same_data(a, b) && same_log(a, b) && b.mode == a.mode
            &&& b.action_menu_index == next_index(a.action_menu_index as nat, ACTION_COUNT as nat)
            &&& b.selected == a.selected && b.should_quit == a.should_quit
            &&& e == Effect::Nothing
        },
        KeyStep::MenuChoose(i) => executed(a, b, menu_action(i as int), stamp, e),
        KeyStep::Confirm(pending) => {
            &&& same_data(a, b) && same_cursor(a, b) && same_log(a, b) && b.mode is Browsing
            &&& e == (if pending.action == Action::Refresh {
                Effect::Refresh
            } else {
                Effect::Perform(pending)
            })
        },
        KeyStep::Cancel => same_data(a, b) && same_cursor(a, b) && b.mode is Browsing && logged(
            a,
            b,
            "Canceled"@,
            stamp,
        ) && e == Effect::Nothing,
    }
}

impl App {
    /// Handles one key press, logging with the time `stamp`; the result says what the
    /// caller must carry out.
    pub fn handle_key(&mut self, key: Key, stamp: &str) -> (e: Effect)
        requires
            !(old(self).mode is ActionMenu && key == Key::Enter && old(self).action_menu_index >= ACTION_COUNT),
        ensures
            old(self).wf() ==> final(self).wf(),
            key_handled(*old(self), *final(self), key, stamp@, e),
    {
        match self.mode {
            Mode::Browsing => self.browsing_key(key, stamp),
            Mode::ActionMenu => self.menu_key(key, stamp),
            Mode::Confirm { pending, .. } => {
                let confirm = match key {
                    Key::Char(c) => c == 'y' || c == 'Y',
                    Key::Enter => true,
                    _ => false,
                };
                let cancel = match key {
                    Key::Char(c) => c == 'n' || c == 'N',
                    Key::Esc => true,
                    _ => false,
                };
                if confirm {
                    self.mode = Mode::Browsing;
                    if pending.action == Action::Refresh {
                        Effect::Refresh
                    } else {
                        Effect::Perform(pending)
                    }
                } else if cancel {
                    self.mode = Mode::Browsing;
                    self.log("Canceled", stamp);
                    Effect::Nothing
                } else {
                    Effect::Nothing
                }
            },
            Mode::Logs => {
                let back = match key {
                    Key::Char(c) => c == 'q' || c == 'l',
                    Key::Esc => true,
                    _ => false,
                };
                if back {
                    self.mode = Mode::Browsing;
                }
                Effect::Nothing
            },
            Mode::Help => {
                let back = match key {
                    Key::Char(c) => c == 'q' || c == '?',
                    Key::Esc => true,
                    _ => false,
                };
                if back {
                    self.mode = Mode::Browsing;
                }
                Effect::Nothing
            },
        }
    }

    fn browsing_key(&mut self, key: Key, stamp: &str) -> (e: Effect)
        requires
            old(self).mode is Browsing,
        ensures
            old(self).wf() ==> final(self).wf(),
            key_handled(*old(self), *final(self), key, stamp@, e),
    {
        let n = self.vms.len();
        match key {
            Key::Up => {
                self.selected = previous_of(self.selected, n);
                Effect::Nothing
            },
            Key::Down => {
                self.selected = next_of(self.selected, n);
                Effect::Nothing
            },
            Key::Enter => {
                if self.selected < n {
                    self.mode = Mode::ActionMenu;
                } else {
                    self.log("No VM selected", stamp);
                }
                Effect::Nothing
            },
            Key::Char(c) => {
                if c == 'q' {
                    self.should_quit = true;
                    Effect::Nothing
                } else if c == 'k' {
                    self.selected = previous_of(self.selected, n);
                    Effect::Nothing
                } else if c == 'j' {
                    self.selected = next_of(self.selected, n);
                    Effect::Nothing
                } else if c == 'r' {
                    self.execute(Action::Refresh, stamp)
                } else if c == 's' {
                    self.execute(Action::Start, stamp)
                } else if c == 'S' {
                    self.execute(Action::Shutdown, stamp)
                } else if c == 'f' {
                    self.execute(Action::Stop, stamp)
                } else if c == 'b' {
                    self.execute(Action::Reboot, stamp)
                } else if c == 'x' {
                    self.execute(Action::Reset, stamp)
                } else if c == 'a' {
                    self.execute(Action::Attach(Protocol::Auto), stamp)
                } else if c == 'p' {
                    self.execute(Action::Attach(Protocol::Spice), stamp)
                } else if c == 'v' {
                    self.execute(Action::Attach(Protocol::Vnc), stamp)
                } else if c == 'l' {
                    self.mode = Mode::Logs;
                    Effect::Nothing
                } else if c == '?' {
                    self.mode = Mode::Help;
                    Effect::Nothing
                } else {
                    Effect::Nothing
                }
            },
            _ => Effect::Nothing,
        }
    }

    fn menu_key(&mut self, key: Key, stamp: &str) -> (e: Effect)
        requires
            old(self).mode is ActionMenu,
            key == Key::Enter ==> old(self).action_menu_index < ACTION_COUNT,
        ensures
            old(self).wf() ==> final(self).wf(),
            key_handled(*old(self), *final(self), key, stamp@, e),
    {
        let choice: Option<usize> = match key {
            Key::Enter => Some(self.action_menu_index),
            Key::Char(c) => if '1' <= c && c <= '8' {
                Some((c as u32 - '1' as u32) as usize)
            } else {
                None
            },
            _ => None,
        };
        match choice {
            Some(i) => {
                return self.choose_menu_action(i, stamp);
            },
            None => {},
        }
        let back = match key {
            Key::Char(c) => c == 'q',
            Key::Esc => true,
            _ => false,
        };
        let up = match key {
            Key::Char(c) => c == 'k',
            Key::Up => true,
            _ => false,
        };
        let down = match key {
            Key::Char(c) => c == 'j',
            Key::Down => true,
            _ => false,
        };
        if back {
            self.mode = Mode::Browsing;
        } else if up {
            self.action_menu_index = previous_of(self.action_menu_index, ACTION_COUNT);
        } else if down {
            self.action_menu_index = next_of(self.action_menu_index, ACTION_COUNT);
        }
        Effect::Nothing
    }

    fn choose_menu_action(&mut self, index: usize, stamp: &str) -> (e: Effect)
        requires
            index < ACTION_COUNT,
        ensures
            old(self).wf() ==> final(self).wf(),
            executed(*old(self), *final(self), menu_action(index as int), stamp@, e),
    {
        match menu_action_at(index) {
            Some(action) => {
                self.mode = Mode::Browsing;
                self.execute(action, stamp)
            },
            None => Effect::Nothing,
        }
    }

    fn execute(&mut self, action: Action, stamp: &str) -> (e: Effect)
        requires
            old(self).mode is Browsing,
        ensures
            old(self).wf() ==> final(self).wf(),
            executed(*old(self), *final(self), action, stamp@, e),
    {
        if action == Action::Refresh {
            return Effect::Refresh;
        }
        if self.selected >= self.vms.len() {
            self.log("No VM selected", stamp);
            return Effect::Nothing;
        }
        let vm = &self.vms[self.selected];
        let pending = PendingAction { vmid: vm.vmid, action };
        let confirm = match action {
            Action::Shutdown | Action::Reboot | Action::Stop | Action::Reset => self.config.ui.confirm_destructive_actions,
            Action::Attach(_) => !is_running(vm),
            Action::Start | Action::Refresh => false,
        };
        if confirm {
            let message = confirmation_text(vm, action);
            self.mode = Mode::Confirm { pending, message };
            return Effect::Nothing;
        }
        Effect::Perform(pending)
    }
}

// ---------------------------------------------------------------------------
// Refreshing
// ---------------------------------------------------------------------------

/// The selection kept on the list after a refresh to `len` VMs: the last VM when it
/// was past the end.
pub open spec fn clamp_selection(selected: nat, len: nat) -> nat {
    if selected >= len {
        if len == 0 {
            0
        } else {
            (len - 1) as nat
        }
    } else {
        selected
    }
}

pub open spec fn refreshed_message(count: nat) -> Seq<char> {
    "Refreshed "@ + decimal(count) + " VM(s)"@
}

/// Whether the list is due for a refresh: the refresh interval has passed since the
/// last one and the list (or the log) is on screen.
pub open spec fn refresh_due(a: App, now_ms: nat) -> bool {
    let elapsed: nat = if now_ms >= a.last_refresh_ms {
        (now_ms - a.last_refresh_ms) as nat
    } else {
        0
    };
    &&& elapsed >= a.config.ui.refresh_interval_secs * 1000
    &&& (a.mode is Browsing || a.mode is Logs)
}

impl App {
    /// Whether the list should be refreshed at `now_ms`.
    pub fn tick(&self, now_ms: u64) -> (due: bool)
        ensures
            due == refresh_due(*self, now_ms as nat),
    {
        let elapsed: u64 = if now_ms >= self.last_refresh_ms {
            now_ms - self.last_refresh_ms
        } else {
            0
        };
        let secs = self.config.ui.refresh_interval_secs;
        proof {
            assert(elapsed / 1000 >= secs <==> elapsed >= secs * 1000) by (nonlinear_arith);
        }
        let screen = match self.mode {
            Mode::Browsing | Mode::Logs => true,
            _ => false,
        };
        elapsed / 1000 >= secs && screen
    }

    /// Takes in the outcome of `qm list` at `now_ms` milliseconds after start (shown as
    /// `stamp`): the output, or why the command
    /// failed. The list is replaced by the VMs it shows (the selection kept within it)
    /// and the count logged; a failure, or output that cannot be read, is logged and
    /// leaves the list as it was.
    pub fn refresh(&mut self, listing: Result<&str, &str>, now_ms: u64, stamp: &str)
        ensures
            old(self).wf() ==> final(self).wf(),
            final(self).config == old(self).config,
            final(self).proxmox == old(self).proxmox,
            final(self).mode == old(self).mode,
            final(self).action_menu_index == old(self).action_menu_index,
            final(self).should_quit == old(self).should_quit,
            final(self).last_refresh_ms == now_ms,
            match listing {
                Ok(out) => match spec_parse_qm_list(out@, old(self).proxmox.node@) {
                    Ok(vms) => {
                        &&& vms_view(final(self).vms@) == vms
                        &&& final(self).selected == clamp_selection(old(self).selected as nat, vms.len())
                        &&& logged(*old(self), *final(self), refreshed_message(vms.len()), stamp@)
                    },
                    Err(err) => {
                        &&& final(self).vms@ == old(self).vms@
                        &&& final(self).selected == old(self).selected
                        &&& logged(*old(self), *final(self), "Refresh failed: "@ + qm_list_error_message(err), stamp@)
                    },
                },
                Err(why) => {
                    &&& final(self).vms@ == old(self).vms@
                    &&& final(self).selected == old(self).selected
                    &&& logged(*old(self), *final(self), "Refresh failed: "@ + why@, stamp@)
                },
            },
    {
        self.last_refresh_ms = now_ms;
        let out = match listing {
            Ok(out) => out,
            Err(why) => {
                let mut m = owned("Refresh failed: ");
                push_str(&mut m, why);
                self.log(m.as_str(), stamp);
                return;
            },
        };
        match self.proxmox.list_vms(out) {
            Ok(vms) => {
                let n = vms.len();
                self.vms = vms;
                if self.selected >= n {
                    self.selected = if n == 0 {
                        0
                    } else {
                        n - 1
                    };
                }
                proof {
                    assert(vms_view(self.vms@).len() == self.vms@.len());
                }
                let mut m = owned("Refreshed ");
                let count = decimal_string(n as u64);
                push_str(&mut m, count.as_str());
                push_str(&mut m, " VM(s)");
                self.log(m.as_str(), stamp);
            },
            Err(err) => {
                let mut m = owned("Refresh failed: ");
                let text = err.message();
                push_str(&mut m, text.as_str());
                self.log(m.as_str(), stamp);
            },
        }
    }

    /// Settles the node (from the output of `hostname` when the configuration asks
    /// for detection and a `hostname` command succeeded) and logs it.
    pub fn bootstrap(&mut self, hostname_stdout: Option<&str>, stamp: &str)
        ensures
            old(self).wf() ==> final(self).wf(),
            final(self).config == old(self).config,
            final(self).vms@ == old(self).vms@,
            final(self).mode == old(self).mode,
            same_cursor(*old(self), *final(self)),
            final(self).last_refresh_ms == old(self).last_refresh_ms,
            final(self).proxmox.runner == old(self).proxmox.runner,
            final(self).proxmox.node@ == (if old(self).proxmox.configured_node@ != "auto"@ {
                old(self).proxmox.configured_node@
            } else {
                match hostname_stdout {
                    Some(out) => crate::proxmox::spec_normalize_node_name(out@),
                    None => "localhost"@,
                }
            }),
            logged(*old(self), *final(self), "Node: "@ + final(self).proxmox.node@, stamp@),
    {
        self.proxmox.detect_node(hostname_stdout);
        let mut m = owned("Node: ");
        push_str(&mut m, self.proxmox.node());
        self.log(m.as_str(), stamp);
    }
}

// ---------------------------------------------------------------------------
// What carrying out an action logs
// ---------------------------------------------------------------------------

/// A message that carrying out an action logs.
#[derive(Debug)]
pub enum Notice {
    /// A power action is about to run.
    PowerRunning { vmid: u32, action: PowerAction },
    /// After a power action, the VM has this status.
    VmStatus { vmid: u32, status: String },
    /// After a power action, the VM is not in the list.
    MissingAfterAction { vmid: u32 },
    /// After a power action, the list could not be read.
    RefreshAfterActionFailed { error: String },
    /// An action failed.
    Failed { error: String },
    /// A stopped VM is started before a viewer attaches.
    StartingForAttach { vmid: u32 },
    /// SPICE failed and VNC is tried next.
    SpiceFallback { error: String },
    /// A viewer started.
    SessionStarted { protocol: Protocol, vmid: u32, process_id: u32, temp_files: usize },
}

pub open spec fn notice_text(n: Notice) -> Seq<char> {
    match n {
        Notice::PowerRunning { vmid, action } => "Running "@ + spec_qm_command(action) + " for VM "@
            + decimal(vmid as nat),
        Notice::VmStatus { vmid, status } => "VM "@ + decimal(vmid as nat) + " is "@ + status@,
        Notice::MissingAfterAction { vmid } => "VM "@ + decimal(vmid as nat) + " was not found after action"@,
        Notice::RefreshAfterActionFailed { error } => "Refresh after action failed: "@ + error@,
        Notice::Failed { error } => "ERROR: "@ + error@,
        Notice::StartingForAttach { vmid } => "Starting VM "@ + decimal(vmid as nat) + " before attach"@,
        Notice::SpiceFallback { error } => "SPICE failed, trying VNC: "@ + error@,
        Notice::SessionStarted { protocol, vmid, process_id, temp_files } => protocol_label(protocol)
            + " viewer started for VM "@ + decimal(vmid as nat) + " (pid "@ + decimal(process_id as nat)
            + ", temp files: "@ + decimal(temp_files as nat) + ")"@,
    }
}

impl Notice {
    pub fn text(&self) -> (t: String)
        ensures
            t@ == notice_text(*self),
    {
        let mut t = String::new();
        match self {
            Notice::PowerRunning { vmid, action } => {
                push_str(&mut t, "Running ");
                push_str(&mut t, action.qm_command());
                push_str(&mut t, " for VM ");
                let id = decimal_string(*vmid as u64);
                push_str(&mut t, id.as_str());
            },
            Notice::VmStatus { vmid, status } => {
                push_str(&mut t, "VM ");
                let id = decimal_string(*vmid as u64);
                push_str(&mut t, id.as_str());
                push_str(&mut t, " is ");
                push_str(&mut t, status.as_str());
            },
            Notice::MissingAfterAction { vmid } => {
                push_str(&mut t, "VM ");
                let id = decimal_string(*vmid as u64);
                push_str(&mut t, id.as_str());
                push_str(&mut t, " was not found after action");
            },
            Notice::RefreshAfterActionFailed { error } => {
                push_str(&mut t, "Refresh after action failed: ");
                push_str(&mut t, error.as_str());
            },
            Notice::Failed { error } => {
                push_str(&mut t, "ERROR: ");
                push_str(&mut t, error.as_str());
            },
            Notice::StartingForAttach { vmid } => {
                push_str(&mut t, "Starting VM ");
                let id = decimal_string(*vmid as u64);
                push_str(&mut t, id.as_str());
                push_str(&mut t, " before attach");
            },
            Notice::SpiceFallback { error } => {
                push_str(&mut t, "SPICE failed, trying VNC: ");
                push_str(&mut t, error.as_str());
            },
            Notice::SessionStarted { protocol, vmid, process_id, temp_files } => {
                push_str(&mut t, protocol.label());
                push_str(&mut t, " viewer started for VM ");
                let id = decimal_string(*vmid as u64);
                push_str(&mut t, id.as_str());
                push_str(&mut t, " (pid ");
                let pid = decimal_string(*process_id as u64);
                push_str(&mut t, pid.as_str());
                push_str(&mut t, ", temp files: ");
                let n = decimal_string(*temp_files as u64);
                push_str(&mut t, n.as_str());
                push_str(&mut t, ")");
            },
        }
        t
    }

    /// The notice of a started viewer session.
    pub fn session(session: &ViewerSession) -> (n: Notice)
        ensures
            n == (Notice::SessionStarted {
                protocol: session.protocol,
                vmid: session.vmid,
                process_id: session.process_id,
                temp_files: session.temp_files@.len() as usize,
            }),
    {
        Notice::SessionStarted {
            protocol: session.protocol,
            vmid: session.vmid,
            process_id: session.process_id,
            temp_files: session.temp_files.len(),
        }
    }
}

// ---------------------------------------------------------------------------
// Steps of carrying out an action
// ---------------------------------------------------------------------------

/// How attaching begins.
#[derive(Clone, Copy, Debug, PartialEq, Eq, Structural)]
pub enum AttachStart {
    /// The VM is running: attach now.
    Ready,
    /// The VM is not running: start it, wait for `running`, then attach.
    StartFirst,
}

/// How attaching to VM `vmid` begins, given the VM as the list has it: an error when
/// it is gone from the list.
pub fn attach_start(vm: Option<&Vm>, vmid: u32) -> (r: Result<AttachStart, AttachError>)
    ensures
        match vm {
            None => r matches Err(AttachError::VmGone(id)) && id == vmid,
            Some(v) => r == Ok::<AttachStart, AttachError>(
                if v.status@ == "running"@ {
                    AttachStart::Ready
                } else {
                    AttachStart::StartFirst
                },
            ),
        },
{
    match vm {
        None => Err(AttachError::VmGone(vmid)),
        Some(v) => if is_running(v) {
            Ok(AttachStart::Ready)
        } else {
            Ok(AttachStart::StartFirst)
        },
    }
}

/// After starting a VM for attaching: the VM as the wait last saw it (or as it was, if
/// the wait did not see it) must be running.
pub fn started_for_attach(before: &Vm, seen: Option<&Vm>) -> (r: Result<(), AttachError>)
    ensures
        r is Ok <==> (match seen {
            Some(v) => v.status@ == "running"@,
            None => before.status@ == "running"@,
        }),
        r matches Err(e) ==> e matches AttachError::NotRunning(id) && id == before.vmid,
{
    let vm = match seen {
        Some(v) => v,
        None => before,
    };
    if is_running(vm) {
        Ok(())
    } else {
        Err(AttachError::NotRunning(before.vmid))
    }
}

/// The protocols tried, in order: SPICE then VNC for `Auto`.
pub open spec fn attach_order(p: Protocol) -> Seq<Protocol> {
    match p {
        Protocol::Auto => seq![Protocol::Spice, Protocol::Vnc],
        _ => seq![p],
    }
}

pub fn attach_protocols(p: Protocol) -> (v: Vec<Protocol>)
    ensures
        v@ == attach_order(p),
{
    let v: Vec<Protocol> = match p {
        Protocol::Auto => vec![Protocol::Spice, Protocol::Vnc],
        _ => vec![p],
    };
    assert(v@ =~= attach_order(p));
    v
}

/// What follows when attaching with the protocol at `index` of `attach_order(requested)`
/// failed.
#[derive(Debug)]
pub enum AttachRetry {
    /// Log the notice, then try this protocol.
    TryNext(Protocol, Notice),
    /// No protocol is left: the failure stands.
    GiveUp,
}

/// After a failed attach: the next protocol of the order, with the notice that SPICE
/// failed and VNC comes next, or giving up when none is left.
pub fn after_attach_failure(requested: Protocol, index: usize, error: &str) -> (r: AttachRetry)
    requires
        index < attach_order(requested).len(),
    ensures
        if index + 1 < attach_order(requested).len() {
            r matches AttachRetry::TryNext(p, Notice::SpiceFallback { error: t }) && p == attach_order(
                requested,
            )[index + 1] && t@ == error@
        } else {
            r is GiveUp
        },
{
    match requested {
        Protocol::Auto => if index == 0 {
            AttachRetry::TryNext(Protocol::Vnc, Notice::SpiceFallback { error: owned(error) })
        } else {
            AttachRetry::GiveUp
        },
        _ => AttachRetry::GiveUp,
    }
}

/// What is logged after a power action and its wait: the VM's status, that it is gone,
/// or that the list could not be read (`error`); the list is refreshed first unless
/// it could not be read.
pub fn after_power_action(vmid: u32, seen: Result<Option<&Vm>, &str>) -> (r: (bool, Notice))
    ensures
        r.0 == seen is Ok,
        match seen {
            Ok(Some(vm)) => r.1 matches Notice::VmStatus { vmid: id, status } && id == vm.vmid && status@
                == vm.status@,
            Ok(None) => r.1 matches Notice::MissingAfterAction { vmid: id } && id == vmid,
            Err(error) => r.1 matches Notice::RefreshAfterActionFailed { error: t } && t@ == error@,
        },
{
    match seen {
        Ok(Some(vm)) => (true, Notice::VmStatus { vmid: vm.vmid, status: owned(vm.status.as_str()) }),
        Ok(None) => (true, Notice::MissingAfterAction { vmid }),
        Err(error) => (false, Notice::RefreshAfterActionFailed { error: owned(error) }),
    }
}

// ---------------------------------------------------------------------------
// Laws
// ---------------------------------------------------------------------------

/// With `confirm_destructive_actions` set, a shutdown, reboot, stop or reset is only
/// ever handed out by confirming that very action.
pub proof fn lemma_destructive_actions_are_confirmed(a: App, b: App, key: Key, stamp: Seq<char>, p: PendingAction)
    requires
        key_handled(a, b, key, stamp, Effect::Perform(p)),
        a.config.ui.confirm_destructive_actions,
        p.action is Shutdown || p.action is Reboot || p.action is Stop || p.action is Reset,
    ensures
        a.mode matches Mode::Confirm { pending, .. } && pending == p,
{
}

/// Attaching to a VM is handed out without a confirmation only when the selected VM
/// is running; otherwise it takes confirming that very attach (which starts the VM).
pub proof fn lemma_attach_to_stopped_vm_is_confirmed(a: App, b: App, key: Key, stamp: Seq<char>, p: PendingAction)
    requires
        key_handled(a, b, key, stamp, Effect::Perform(p)),
        p.action is Attach,
    ensures
        (a.mode matches Mode::Confirm { pending, .. } && pending == p) || (a.selected < a.vms@.len()
            && p.vmid == a.vms@[a.selected as int].vmid && a.vms@[a.selected as int].status@ == "running"@),
{
}

/// Every action handed out is for the selected VM, unless it comes from a confirmation,
/// which hands out the action it asked about.
pub proof fn lemma_actions_target_selected_vm(a: App, b: App, key: Key, stamp: Seq<char>, p: PendingAction)
    requires
        key_handled(a, b, key, stamp, Effect::Perform(p)),
    ensures
        (a.mode matches Mode::Confirm { pending, .. } && pending == p) || (a.selected < a.vms@.len()
            && p.vmid == a.vms@[a.selected as int].vmid && !needs_confirmation(
            a.vms@[a.selected as int]@.status,
            p.action,
            a.config.ui.confirm_destructive_actions,
        )),
{
}

/// Esc leaves any screen but the list for the list, and hands out nothing.
pub proof fn lemma_escape_returns_to_list(a: App, b: App, stamp: Seq<char>, e: Effect)
    requires
        !(a.mode is Browsing),
        key_handled(a, b, Key::Esc, stamp, e),
    ensures
        b.mode is Browsing,
        e == Effect::Nothing,
        same_data(a, b),
        same_cursor(a, b),
{
}

/// The log never grows past its capacity, always ends with the newest line, and
/// drops nothing while it has room.
pub proof fn lemma_log_keeps_newest(logs: Seq<Seq<char>>, line: Seq<char>)
    requires
        logs.len() <= LOG_CAPACITY,
    ensures
        appended_log(logs, line).len() <= LOG_CAPACITY,
        appended_log(logs, line).last() == line,
        logs.len() < LOG_CAPACITY ==> appended_log(logs, line) == logs.push(line),
        logs.len() == LOG_CAPACITY ==> appended_log(logs, line) == logs.subrange(1, LOG_CAPACITY as int).push(line),
{
    if logs.len() == LOG_CAPACITY {
        assert(logs.push(line).subrange(1, LOG_CAPACITY as int + 1) =~= logs.subrange(1, LOG_CAPACITY as int).push(line));
    }
}

/// After a refresh the selection is on a VM of the new list, or at 0 when it is empty.
pub proof fn lemma_refresh_keeps_selection_on_list(selected: nat, len: nat)
    ensures
        clamp_selection(selected, len) == 0 || clamp_selection(selected, len) < len,
        selected < len ==> clamp_selection(selected, len) == selected,
{
}

/// The action that an action key asks for is handed out for the selected VM, or held
/// for confirmation with the same VM and action.
pub open spec fn asks_or_runs(b: App, e: Effect, p: PendingAction) -> bool {
    ||| e == Effect::Perform(p) && b.mode is Browsing
    ||| e == Effect::Nothing && (b.mode matches Mode::Confirm { pending, .. } && pending == p)
}

/// The keys of the list screen: `s` starts, `S` shuts down, `f` stops, `b` reboots and
/// `x` resets the selected VM; `a`, `p` and `v` attach to it automatically, through
/// SPICE and through VNC; `r` refreshes the list and `q` quits.
pub proof fn lemma_list_key_table(a: App, b: App, c: char, stamp: Seq<char>, e: Effect)
    requires
        a.mode is Browsing,
        a.selected < a.vms@.len(),
        key_handled(a, b, Key::Char(c), stamp, e),
    ensures
        ({
            let vmid = a.vms@[a.selected as int].vmid;
            &&& c == 's' ==> asks_or_runs(b, e, PendingAction { vmid, action: Action::Start })
            &&& c == 'S' ==> asks_or_runs(b, e, PendingAction { vmid, action: Action::Shutdown })
            &&& c == 'f' ==> asks_or_runs(b, e, PendingAction { vmid, action: Action::Stop })
            &&& c == 'b' ==> asks_or_runs(b, e, PendingAction { vmid, action: Action::Reboot })
            &&& c == 'x' ==> asks_or_runs(b, e, PendingAction { vmid, action: Action::Reset })
            &&& c == 'a' ==> asks_or_runs(b, e, PendingAction { vmid, action: Action::Attach(Protocol::Auto) })
            &&& c == 'p' ==> asks_or_runs(b, e, PendingAction { vmid, action: Action::Attach(Protocol::Spice) })
            &&& c == 'v' ==> asks_or_runs(b, e, PendingAction { vmid, action: Action::Attach(Protocol::Vnc) })
            &&& c == 'r' ==> e == Effect::Refresh
            &&& c == 'q' ==> b.should_quit && e == Effect::Nothing
            &&& c == 'l' ==> b.mode is Logs
            &&& c == '?' ==> b.mode is Help
        }),
{
}

/// The arrow keys and `j`/`k` move the selection one entry down or up the list,
/// wrapping at the ends, and hand out nothing.
pub proof fn lemma_list_moves(a: App, b: App, key: Key, stamp: Seq<char>, e: Effect)
    requires
        a.mode is Browsing,
        a.selected < a.vms@.len(),
        key_handled(a, b, key, stamp, e),
    ensures
        (key == Key::Down || key == Key::Char('j')) ==> e == Effect::Nothing && (if a.selected + 1 < a.vms@.len() {
            b.selected == a.selected + 1
        } else {
            b.selected == 0
        }),
        (key == Key::Up || key == Key::Char('k')) ==> e == Effect::Nothing && (if a.selected > 0 {
            b.selected == a.selected - 1
        } else {
            b.selected == a.vms@.len() - 1
        }),
{
    let n = a.vms@.len();
    if a.selected + 1 < n {
        assert(((a.selected as nat) + 1) % n == a.selected + 1) by (nonlinear_arith)
            requires
                0 <= a.selected + 1 < n,
        ;
    } else {
        assert(((a.selected as nat) + 1) % n == 0) by (nonlinear_arith)
            requires
                a.selected + 1 == n,
                n > 0,
        ;
    }
}

/// The action menu lists, from `1` to `8`: attach automatically, attach through SPICE,
/// attach through VNC, start, shutdown, reboot, stop and reset; a digit runs its entry
/// for the selected VM (or asks first).
pub proof fn lemma_menu_digit_table(a: App, b: App, c: char, stamp: Seq<char>, e: Effect)
    requires
        a.mode is ActionMenu,
        a.selected < a.vms@.len(),
        key_handled(a, b, Key::Char(c), stamp, e),
    ensures
        ({
            let vmid = a.vms@[a.selected as int].vmid;
            &&& c == '1' ==> asks_or_runs(b, e, PendingAction { vmid, action: Action::Attach(Protocol::Auto) })
            &&& c == '2' ==> asks_or_runs(b, e, PendingAction { vmid, action: Action::Attach(Protocol::Spice) })
            &&& c == '3' ==> asks_or_runs(b, e, PendingAction { vmid, action: Action::Attach(Protocol::Vnc) })
            &&& c == '4' ==> asks_or_runs(b, e, PendingAction { vmid, action: Action::Start })
            &&& c == '5' ==> asks_or_runs(b, e, PendingAction { vmid, action: Action::Shutdown })
            &&& c == '6' ==> asks_or_runs(b, e, PendingAction { vmid, action: Action::Reboot })
            &&& c == '7' ==> asks_or_runs(b, e, PendingAction { vmid, action: Action::Stop })
            &&& c == '8' ==> asks_or_runs(b, e, PendingAction { vmid, action: Action::Reset })
        }),
{
}

/// In a confirmation, `y`, `Y` and Enter hand out the action asked about and return
/// to the list; `n`, `N` and Esc hand out nothing, log `Canceled` and return to the list.
pub proof fn lemma_confirm_keys(a: App, b: App, key: Key, stamp: Seq<char>, e: Effect, p: PendingAction)
    requires
        a.mode matches Mode::Confirm { pending, .. } && pending == p,
        p.action != Action::Refresh,
        key_handled(a, b, key, stamp, e),
    ensures
        (key == Key::Char('y') || key == Key::Char('Y') || key == Key::Enter) ==> e == Effect::Perform(p)
            && b.mode is Browsing,
        (key == Key::Char('n') || key == Key::Char('N') || key == Key::Esc) ==> e == Effect::Nothing
            && b.mode is Browsing && b.status_line@ == "Canceled"@,
{
}

/// When the old selection is past the end of a shorter, non-empty list, it moves to the
/// last VM; on an empty list it is 0; otherwise it stays.
pub proof fn lemma_refresh_clamps_to_last(selected: nat, len: nat)
    ensures
        selected >= len && len > 0 ==> clamp_selection(selected, len) == len - 1,
        len == 0 ==> clamp_selection(selected, len) == 0,
        selected < len ==> clamp_selection(selected, len) == selected,
{
}

/// Once the list is due for a refresh it stays due as time goes on, until a refresh
/// or a change of screen.
pub proof fn lemma_refresh_due_stays_due(a: App, t: nat, later: nat)
    requires
        refresh_due(a, t),
        t <= later,
    ensures
        refresh_due(a, later),
{
}

/// A refresh is never due while the action menu, a confirmation or the help is open.
pub proof fn lemma_no_refresh_over_dialogs(a: App, t: nat)
    requires
        a.mode is ActionMenu || a.mode is Confirm || a.mode is Help,
    ensures
        !refresh_due(a, t),
{
}

/// Attaching automatically tries SPICE first and VNC second; a chosen protocol is tried
/// alone.
pub proof fn lemma_attach_order(p: Protocol)
    ensures
        p == Protocol::Auto ==> attach_order(p) == seq![Protocol::Spice, Protocol::Vnc],
        p == Protocol::Spice ==> attach_order(p) == seq![Protocol::Spice],
        p == Protocol::Vnc ==> attach_order(p) == seq![Protocol::Vnc],
{
}

} // verus!
