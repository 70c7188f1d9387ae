use pve_vm_launcher::command::CommandRunner;
use pve_vm_launcher::config::Config;
use pve_vm_launcher::proxmox::find_vm_index;
use pve_vm_launcher::proxmox::normalize_node_name;
use pve_vm_launcher::proxmox::parse_qm_list;
use pve_vm_launcher::proxmox::wait_step;
use pve_vm_launcher::proxmox::PowerAction;
use pve_vm_launcher::proxmox::Proxmox;
use pve_vm_launcher::proxmox::QmListErrorKind;
use pve_vm_launcher::proxmox::WaitStep;
use pve_vm_launcher::text::IntErrorKind;

#[test]
fn parses_standard_qm_list() {
    let input = r#"
      VMID NAME                 STATUS     MEM(MB)    BOOTDISK(GB) PID
       100 win11-dev            running    8192       64.00        12345
       101 ubuntu-lab           stopped    4096       32.00        0
"#;

    let vms = parse_qm_list(input, "pve01").unwrap();

    assert_eq!(vms.len(), 2);
    assert_eq!(vms[0].vmid, 100);
    assert_eq!(vms[0].name, "win11-dev");
    assert_eq!(vms[0].status, "running");
    assert_eq!(vms[0].memory_mb, Some(8192));
    assert_eq!(vms[0].bootdisk_gb.parse::<f64>().ok(), Some(64.0));
    assert_eq!(vms[0].pid, Some(12345));
    assert_eq!(vms[0].node, "pve01");
}

#[test]
fn parses_names_with_spaces_when_status_is_known() {
    let input = r#"
      VMID NAME                 STATUS     MEM(MB)    BOOTDISK(GB) PID
       200 windows 11 dev       running    8192       64.00        999
"#;

    let vms = parse_qm_list(input, "pve01").unwrap();

    assert_eq!(vms[0].name, "windows 11 dev");
    assert_eq!(vms[0].status, "running");
}

#[test]
fn unreadable_numbers_become_unknown() {
    let vms = parse_qm_list("101 lab stopped n/a 32.00 x\n", "n").unwrap();
    assert_eq!(vms[0].memory_mb, None);
    assert_eq!(vms[0].pid, None);
    assert_eq!(vms[0].bootdisk_gb, "32.00");
    let vms = parse_qm_list("102 lab stopped 4096 32.00 0", "n").unwrap();
    assert_eq!(vms[0].pid, Some(0));
}

#[test]
fn blank_lines_and_headers_are_skipped() {
    assert!(parse_qm_list("", "n").unwrap().is_empty());
    assert!(parse_qm_list("\n   \nVMID NAME STATUS MEM(MB) BOOTDISK(GB) PID\r\n", "n").unwrap().is_empty());
}

#[test]
fn reports_each_row_error() {
    let e = parse_qm_list("100 a running 1 2\n", "n").unwrap_err();
    assert_eq!(e.kind, QmListErrorKind::UnexpectedRow);
    assert_eq!(e.row, "100 a running 1 2");
    assert_eq!(e.message(), "unexpected `qm list` row: 100 a running 1 2");

    let e = parse_qm_list("abc a running 1 2 3\n", "n").unwrap_err();
    assert_eq!(e.kind, QmListErrorKind::InvalidVmid(IntErrorKind::InvalidDigit));
    assert_eq!(e.message(), "invalid digit found in string");

    let e = parse_qm_list("99999999999 a running 1 2 3\n", "n").unwrap_err();
    assert_eq!(e.kind, QmListErrorKind::InvalidVmid(IntErrorKind::PosOverflow));

    let e = parse_qm_list("100 a b c d e\n", "n").unwrap_err();
    assert_eq!(e.kind, QmListErrorKind::StatusNotFound);
    assert_eq!(e.message(), "status column not found in row: 100 a b c d e");

    let e = parse_qm_list("100 a b c d running 1\n", "n").unwrap_err();
    assert_eq!(e.kind, QmListErrorKind::MissingNumericColumns);
    assert_eq!(
        e.message(),
        "missing numeric columns in `qm list` row: 100 a b c d running 1"
    );
}

#[test]
fn first_error_stops_the_parse() {
    let e = parse_qm_list("100 ok running 1 2 3\nbad\n", "n").unwrap_err();
    assert_eq!(e.row, "bad");
}

#[test]
fn power_actions_map_to_qm() {
    let config = Config::with_defaults("/tmp", None);
    let proxmox = Proxmox::new(CommandRunner::new("/tmp/log".to_string()), &config);
    let c = proxmox.power_action(100, PowerAction::Shutdown);
    assert_eq!(c.program, "qm");
    assert_eq!(c.args, vec!["shutdown".to_string(), "100".to_string()]);
    assert_eq!(c.timeout_secs, 60);
    assert_eq!(PowerAction::Start.timeout_secs(), 30);
    assert_eq!(PowerAction::Reboot.timeout_secs(), 60);
    assert_eq!(PowerAction::Stop.qm_command(), "stop");
    assert_eq!(PowerAction::Reset.qm_command(), "reset");
    assert_eq!(PowerAction::Reset.desired_status(), "running");
    assert_eq!(PowerAction::Stop.desired_status(), "stopped");
}

#[test]
fn list_and_hostname_commands_are_capped() {
    let config = Config::with_defaults("/tmp", None);
    let proxmox = Proxmox::new(CommandRunner::new("/tmp/log".to_string()), &config);
    let list = proxmox.list_command();
    assert_eq!(list.program, "qm");
    assert_eq!(list.args, vec!["list".to_string()]);
    assert_eq!(list.timeout_secs, 5);
    let h = proxmox.hostname_command(true);
    assert_eq!(h.program, "hostname");
    assert_eq!(h.args, vec!["-s".to_string()]);
    assert_eq!(h.timeout_secs, 3);
    assert!(proxmox.hostname_command(false).args.is_empty());
}

#[test]
fn node_detection() {
    let mut config = Config::with_defaults("/tmp", None);
    let mut proxmox = Proxmox::new(CommandRunner::new("/tmp/log".to_string()), &config);
    assert_eq!(proxmox.node(), "unknown");
    assert!(proxmox.needs_hostname());
    proxmox.detect_node(Some("  pve01.example.org\n"));
    assert_eq!(proxmox.node(), "pve01");
    proxmox.detect_node(None);
    assert_eq!(proxmox.node(), "localhost");

    config.proxmox.node = "pve07".to_string();
    let mut fixed = Proxmox::new(CommandRunner::new("/tmp/log".to_string()), &config);
    assert!(!fixed.needs_hostname());
    fixed.detect_node(Some("other"));
    assert_eq!(fixed.node(), "pve07");
}

#[test]
fn node_names_are_shortened() {
    assert_eq!(normalize_node_name("pve01\n"), "pve01");
    assert_eq!(normalize_node_name("a.b.c"), "a");
    assert_eq!(normalize_node_name("   "), "localhost");
    assert_eq!(normalize_node_name(".lan"), "localhost");
}

#[test]
fn waiting_stops_when_status_is_reached_or_time_is_up() {
    let vms = parse_qm_list(
        "100 a running 1 2 3\n101 b stopped 1 2 3\n101 c running 1 2 3\n",
        "n",
    )
    .unwrap();
    assert_eq!(find_vm_index(&vms, 101), Some(1));
    assert_eq!(find_vm_index(&vms, 7), None);
    assert_eq!(wait_step(&vms, 100, "running", false), WaitStep::Finished(Some(0)));
    assert_eq!(wait_step(&vms, 101, "running", false), WaitStep::TryAgain);
    assert_eq!(wait_step(&vms, 101, "running", true), WaitStep::Finished(Some(1)));
    assert_eq!(wait_step(&vms, 7, "running", false), WaitStep::TryAgain);
    assert_eq!(wait_step(&vms, 7, "running", true), WaitStep::Finished(None));
}
