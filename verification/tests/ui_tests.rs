use pve_vm_launcher::config::Config;
use pve_vm_launcher::app::App;
use pve_vm_launcher::ui::action_menu_title;
use pve_vm_launcher::ui::format_memory;
use pve_vm_launcher::ui::format_pid;
use pve_vm_launcher::ui::status_tone;
use pve_vm_launcher::ui::vm_detail_lines;
use pve_vm_launcher::ui::StatusTone;

#[test]
fn memory_in_mebibytes_or_gibibytes() {
    assert_eq!(format_memory(None), "-");
    assert_eq!(format_memory(Some(512)), "512M");
    assert_eq!(format_memory(Some(1023)), "1023M");
    assert_eq!(format_memory(Some(1024)), "1.0G");
    assert_eq!(format_memory(Some(8192)), "8.0G");
    assert_eq!(format_memory(Some(1536)), "1.5G");
    assert_eq!(format_memory(Some(1075)), "1.0G");
    assert_eq!(format_memory(Some(1076)), "1.1G");
    assert_eq!(format_memory(Some(1280)), format!("{:.1}G", 1280.0f64 / 1024.0));
    assert_eq!(format_memory(Some(3328)), format!("{:.1}G", 3328.0f64 / 1024.0));
}

#[test]
fn memory_matches_float_formatting() {
    for mb in 1024u64..20_000 {
        assert_eq!(format_memory(Some(mb)), format!("{:.1}G", mb as f64 / 1024.0), "{mb}");
    }
}

#[test]
fn pid_or_dash() {
    assert_eq!(format_pid(Some(12345)), "12345");
    assert_eq!(format_pid(None), "-");
}

#[test]
fn status_tones() {
    assert_eq!(status_tone("running"), StatusTone::Running);
    assert_eq!(status_tone("stopped"), StatusTone::Stopped);
    assert_eq!(status_tone("paused"), StatusTone::Paused);
    assert_eq!(status_tone("suspended"), StatusTone::Paused);
    assert_eq!(status_tone("prelaunch"), StatusTone::Unusual);
}

#[test]
fn detail_lines_and_menu_title() {
    let mut app = App::new(Config::with_defaults("/tmp", None));
    app.refresh(Ok("100 win11-dev running 8192 64.00 12345\n"), 0, "    0.0");
    let vm = &app.vms[0];
    let node = app.proxmox.node().to_string();
    assert_eq!(
        vm_detail_lines(vm, "64.0G"),
        vec![
            "100 win11-dev".to_string(),
            "Status: running".to_string(),
            format!("Node: {node}"),
            "Memory: 8.0G".to_string(),
            "Bootdisk: 64.0G".to_string(),
            "PID: 12345".to_string(),
        ]
    );
    assert_eq!(action_menu_title(Some(vm)), " Actions for VM 100 win11-dev ");
    assert_eq!(action_menu_title(None), " Actions ");
}
