//! The text that the screen shows for a VM: its memory, its PID, its detail lines,
//! how its status is coloured, and the title of the action menu.
use vstd::prelude::*;

use crate::proxmox::Vm;
use crate::proxmox::VmView;
use crate::text::decimal;
use crate::text::decimal_string;
use crate::text::push_str;

verus! {

/// How a status is shown.
#[derive(Clone, Copy, Debug, PartialEq, Eq, Structural)]
pub enum StatusTone {
    /// `running`
    Running,
    /// `stopped`
    Stopped,
    /// `paused` or `suspended`
    Paused,
    /// Anything else.
    Unusual,
}

pub open spec fn spec_status_tone(status: Seq<char>) -> StatusTone {
    if status == "running"@ {
        StatusTone::Running
    } else if status == "stopped"@ {
        StatusTone::Stopped
    } else if status == "paused"@ || status == "suspended"@ {
        StatusTone::Paused
    } else {
        StatusTone::Unusual
    }
}

pub fn status_tone(status: &str) -> (t: StatusTone)
    ensures
        t == spec_status_tone(status@),
{
    let v = crate::text::chars_of(status);
    if crate::text::chars_eq_str(&v, "running") {
        StatusTone::Running
    } else if crate::text::chars_eq_str(&v, "stopped") {
        StatusTone::Stopped
    } else if crate::text::chars_eq_str(&v, "paused") || crate::text::chars_eq_str(&v, "suspended") {
        StatusTone::Paused
    } else {
        StatusTone::Unusual
    }
}

/// `mb / 1024` in tenths, rounded to the nearest tenth and a tie to the even tenth.
pub open spec fn gib_tenths(mb: nat) -> nat {
    let q = (mb * 10) / 1024;
    let r = (mb * 10) % 1024;
    if r > 512 || (r == 512 && q % 2 == 1) {
        q + 1
    } else {
        q
    }
}

/// Memory in MiB as shown: `-` when unknown, `{mb}M` below 1024, else GiB with one
/// decimal and `G`.
pub open spec fn memory_text(value: Option<nat>) -> Seq<char> {
    match value {
        None => "-"@,
        Some(mb) => if mb >= 1024 {
            let t = gib_tenths(mb);
            decimal(t / 10) + "."@ + decimal(t % 10) + "G"@
        } else {
            decimal(mb) + "M"@
        },
    }
}

pub fn format_memory(value: Option<u64>) -> (s: String)
    ensures
        s@ == memory_text(match value {
            Some(mb) => Some(mb as nat),
            None => None,
        }),
{
    let mut s = String::new();
    match value {
        None => {
            push_str(&mut s, "-");
        },
        Some(mb) => {
            if mb >= 1024 {
                let scaled: u128 = mb as u128 * 10;
                let q: u128 = scaled / 1024;
                let r: u128 = scaled % 1024;
                let t: u128 = if r > 512 || (r == 512 && q % 2 == 1) {
                    q + 1
                } else {
                    q
                };
                assert(t == gib_tenths(mb as nat));
                assert(t <= u64::MAX) by (nonlinear_arith)
                    requires
                        scaled == mb * 10,
                        q == scaled / 1024,
                        t <= q + 1,
                        mb <= u64::MAX,
                ;
                let whole = decimal_string((t / 10) as u64);
                push_str(&mut s, whole.as_str());
                push_str(&mut s, ".");
                let frac = decimal_string((t % 10) as u64);
                push_str(&mut s, frac.as_str());
                push_str(&mut s, "G");
            } else {
                let m = decimal_string(mb);
                push_str(&mut s, m.as_str());
                push_str(&mut s, "M");
            }
        },
    }
    s
}

/// A PID as shown: the number, or `-`.
pub open spec fn pid_text(pid: Option<nat>) -> Seq<char> {
    match pid {
        Some(p) => decimal(p),
        None => "-"@,
    }
}

pub fn format_pid(pid: Option<u32>) -> (s: String)
    ensures
        s@ == pid_text(match pid {
            Some(p) => Some(p as nat),
            None => None,
        }),
{
    match pid {
        Some(p) => decimal_string(p as u64),
        None => {
            let mut s = String::new();
            push_str(&mut s, "-");
            s
        },
    }
}

/// The detail lines of a VM; `disk` is the boot disk size as shown.
pub open spec fn detail_lines(vm: VmView, disk: Seq<char>) -> Seq<Seq<char>> {
    seq![
        decimal(vm.vmid) + " "@ + vm.name,
        "Status: "@ + vm.status,
        "Node: "@ + vm.node,
        "Memory: "@ + memory_text(vm.memory_mb),
        "Bootdisk: "@ + disk,
        "PID: "@ + pid_text(vm.pid),
    ]
}

pub fn vm_detail_lines(vm: &Vm, disk: &str) -> (lines: Vec<String>)
    ensures
        crate::config::strings_view(lines@) == detail_lines(vm@, disk@),
{
    let mut first = decimal_string(vm.vmid as u64);
    push_str(&mut first, " ");
    push_str(&mut first, vm.name.as_str());
    let mut status = String::new();
    push_str(&mut status, "Status: ");
    push_str(&mut status, vm.status.as_str());
    let mut node = String::new();
    push_str(&mut node, "Node: ");
    push_str(&mut node, vm.node.as_str());
    let mut memory = String::new();
    push_str(&mut memory, "Memory: ");
    let m = format_memory(vm.memory_mb);
    push_str(&mut memory, m.as_str());
    let mut bootdisk = String::new();
    push_str(&mut bootdisk, "Bootdisk: ");
    push_str(&mut bootdisk, disk);
    let mut pid = String::new();
    push_str(&mut pid, "PID: ");
    let p = format_pid(vm.pid);
    push_str(&mut pid, p.as_str());
    let lines: Vec<String> = vec![first, status, node, memory, bootdisk, pid];
    assert(crate::config::strings_view(lines@) =~= detail_lines(vm@, disk@));
    lines
}

/// The title of the action menu: ` Actions for VM {vmid} {name} `, or ` Actions `
/// without a VM.
pub open spec fn menu_title(vm: Option<VmView>) -> Seq<char> {
    match vm {
        Some(v) => " Actions for VM "@ + decimal(v.vmid) + " "@ + v.name + " "@,
        None => " Actions "@,
    }
}

pub fn action_menu_title(vm: Option<&Vm>) -> (s: String)
    ensures
        s@ == menu_title(match vm {
            Some(v) => Some(v@),
            None => None,
        }),
{
    let mut s = String::new();
    match vm {
        Some(v) => {
            push_str(&mut s, " Actions for VM ");
            let id = decimal_string(v.vmid as u64);
            push_str(&mut s, id.as_str());
            push_str(&mut s, " ");
            push_str(&mut s, v.name.as_str());
            push_str(&mut s, " ");
        },
        None => {
            push_str(&mut s, " Actions ");
        },
    }
    s
}

/// Memory from 1024 MiB up is shown in GiB to the nearest tenth: the tenths shown are
/// within half a tenth of `mb / 1024`.
pub proof fn lemma_gib_tenths_nearest(mb: nat)
    ensures
        gib_tenths(mb) * 1024 <= mb * 10 + 512,
        mb * 10 <= gib_tenths(mb) * 1024 + 512,
{
    let q = (mb * 10) / 1024;
    let r = (mb * 10) % 1024;
    assert(q * 1024 + r == mb * 10) by (nonlinear_arith)
        requires
            q == (mb * 10) / 1024,
            r == (mb * 10) % 1024,
    ;
    assert(0 <= r < 1024);
}

} // verus!
