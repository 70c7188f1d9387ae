use pve_vm_launcher::app::after_attach_failure;
use pve_vm_launcher::app::after_power_action;
use pve_vm_launcher::app::AttachRetry;
use pve_vm_launcher::app::attach_protocols;
use pve_vm_launcher::app::attach_start;
use pve_vm_launcher::app::started_for_attach;
use pve_vm_launcher::app::AttachStart;
use pve_vm_launcher::viewer::AttachError;
use pve_vm_launcher::app::is_running;
use pve_vm_launcher::app::menu_action_at;
use pve_vm_launcher::app::menu_actions;
use pve_vm_launcher::app::Action;
use pve_vm_launcher::app::App;
use pve_vm_launcher::app::Effect;
use pve_vm_launcher::app::Key;
use pve_vm_launcher::app::Mode;
use pve_vm_launcher::app::Notice;
use pve_vm_launcher::app::PendingAction;
use pve_vm_launcher::app::ACTION_COUNT;
use pve_vm_launcher::app::LOG_CAPACITY;
use pve_vm_launcher::config::Config;
use pve_vm_launcher::proxmox::PowerAction;
use pve_vm_launcher::viewer::Protocol;
use pve_vm_launcher::viewer::ViewerSession;

const LIST: &str = "VMID NAME STATUS MEM(MB) BOOTDISK(GB) PID\n100 win11-dev running 8192 64.00 12345\n101 ubuntu-lab stopped 4096 32.00 0\n102 db stopped 2048 16.00 0\n";

fn app() -> App {
    let mut app = App::new(Config::with_defaults("/tmp", Some("/root")));
    app.refresh(Ok(LIST), 0, "    0.0");
    app
}

fn press(app: &mut App, key: Key) -> Effect {
    app.handle_key(key, "    1.0")
}

#[test]
fn starts_browsing_with_nothing_loaded() {
    let app = App::new(Config::with_defaults("/tmp", None));
    assert!(matches!(app.mode, Mode::Browsing));
    assert!(app.vms.is_empty());
    assert_eq!(app.selected, 0);
    assert_eq!(app.status_line, "Starting");
    assert!(app.logs.is_empty());
    assert!(!app.should_quit);
    assert!(app.selected_vm().is_none());
    assert!(app.is_consistent());
}

#[test]
fn refresh_loads_the_list_and_logs_the_count() {
    let app = app();
    assert_eq!(app.vms.len(), 3);
    assert_eq!(app.status_line, "Refreshed 3 VM(s)");
    assert_eq!(app.logs.back().unwrap(), "    0.0s  Refreshed 3 VM(s)");
    assert_eq!(app.selected_vm().unwrap().vmid, 100);
    assert_eq!(app.find_vm(102).unwrap().name, "db");
    assert!(app.find_vm(7).is_none());
}

#[test]
fn refresh_failures_keep_the_list() {
    let mut app = app();
    app.refresh(Err("command failed: qm list (exit Some(1))"), 2000, "    2.0");
    assert_eq!(app.vms.len(), 3);
    assert_eq!(app.status_line, "Refresh failed: command failed: qm list (exit Some(1))");
    app.refresh(Ok("100 a running 1 2\n"), 3000, "    3.0");
    assert_eq!(app.status_line, "Refresh failed: unexpected `qm list` row: 100 a running 1 2");
    assert_eq!(app.last_refresh_ms, 3000);
}

#[test]
fn refresh_keeps_selection_on_the_list() {
    let mut app = app();
    press(&mut app, Key::Up);
    assert_eq!(app.selected, 2);
    app.refresh(Ok("100 a running 1 2 3\n"), 10, "    0.0");
    assert_eq!(app.selected, 0);
    app.refresh(Ok(""), 20, "    0.0");
    assert_eq!(app.selected, 0);
    assert!(app.selected_vm().is_none());
    assert!(app.is_consistent());
}

#[test]
fn selection_wraps_both_ways() {
    let mut app = app();
    assert_eq!(press(&mut app, Key::Down), Effect::Nothing);
    assert_eq!(app.selected, 1);
    press(&mut app, Key::Char('j'));
    press(&mut app, Key::Char('j'));
    assert_eq!(app.selected, 0);
    press(&mut app, Key::Char('k'));
    assert_eq!(app.selected, 2);
    press(&mut app, Key::Down);
    press(&mut app, Key::Up);
    assert_eq!(app.selected, 2);
}

#[test]
fn quits_on_q() {
    let mut app = app();
    press(&mut app, Key::Char('q'));
    assert!(app.should_quit);
}

#[test]
fn refresh_key_asks_for_a_refresh() {
    let mut app = app();
    assert_eq!(press(&mut app, Key::Char('r')), Effect::Refresh);
}

#[test]
fn start_runs_without_confirmation() {
    let mut app = app();
    press(&mut app, Key::Down);
    assert_eq!(
        press(&mut app, Key::Char('s')),
        Effect::Perform(PendingAction { vmid: 101, action: Action::Start })
    );
    assert!(matches!(app.mode, Mode::Browsing));
}

#[test]
fn destructive_actions_ask_first() {
    let mut app = app();
    assert_eq!(press(&mut app, Key::Char('S')), Effect::Nothing);
    match &app.mode {
        Mode::Confirm { pending, message } => {
            assert_eq!(*pending, PendingAction { vmid: 100, action: Action::Shutdown });
            assert_eq!(message, "Run Shutdown for VM 100 win11-dev?");
        }
        other => panic!("unexpected mode {other:?}"),
    }
    assert_eq!(
        press(&mut app, Key::Char('y')),
        Effect::Perform(PendingAction { vmid: 100, action: Action::Shutdown })
    );
    assert!(matches!(app.mode, Mode::Browsing));
}

#[test]
fn destructive_actions_run_directly_when_confirmation_is_off() {
    let mut config = Config::with_defaults("/tmp", None);
    config.ui.confirm_destructive_actions = false;
    let mut app = App::new(config);
    app.refresh(Ok(LIST), 0, "    0.0");
    assert_eq!(
        press(&mut app, Key::Char('x')),
        Effect::Perform(PendingAction { vmid: 100, action: Action::Reset })
    );
}

#[test]
fn cancelling_logs_and_returns_to_the_list() {
    let mut app = app();
    press(&mut app, Key::Char('f'));
    assert!(matches!(app.mode, Mode::Confirm { .. }));
    assert_eq!(press(&mut app, Key::Char('z')), Effect::Nothing);
    assert!(matches!(app.mode, Mode::Confirm { .. }));
    assert_eq!(press(&mut app, Key::Esc), Effect::Nothing);
    assert!(matches!(app.mode, Mode::Browsing));
    assert_eq!(app.status_line, "Canceled");
    assert_eq!(app.logs.back().unwrap(), "    1.0s  Canceled");
}

#[test]
fn attaching_to_a_stopped_vm_asks_first() {
    let mut app = app();
    press(&mut app, Key::Down);
    press(&mut app, Key::Char('p'));
    match &app.mode {
        Mode::Confirm { message, .. } => {
            assert_eq!(message, "VM 101 ubuntu-lab is stopped. Start it and attach via SPICE?")
        }
        other => panic!("unexpected mode {other:?}"),
    }
    assert_eq!(
        press(&mut app, Key::Enter),
        Effect::Perform(PendingAction { vmid: 101, action: Action::Attach(Protocol::Spice) })
    );
}

#[test]
fn attaching_to_a_running_vm_goes_ahead() {
    let mut app = app();
    assert_eq!(
        press(&mut app, Key::Char('v')),
        Effect::Perform(PendingAction { vmid: 100, action: Action::Attach(Protocol::Vnc) })
    );
    assert_eq!(
        press(&mut app, Key::Char('a')),
        Effect::Perform(PendingAction { vmid: 100, action: Action::Attach(Protocol::Auto) })
    );
}

#[test]
fn actions_without_a_vm_log_instead() {
    let mut app = App::new(Config::with_defaults("/tmp", None));
    assert_eq!(press(&mut app, Key::Char('s')), Effect::Nothing);
    assert_eq!(app.status_line, "No VM selected");
    press(&mut app, Key::Enter);
    assert!(matches!(app.mode, Mode::Browsing));
    assert_eq!(app.logs.len(), 2);
}

#[test]
fn action_menu_moves_and_runs_entries() {
    let mut app = app();
    press(&mut app, Key::Enter);
    assert!(matches!(app.mode, Mode::ActionMenu));
    press(&mut app, Key::Up);
    assert_eq!(app.action_menu_index, ACTION_COUNT - 1);
    press(&mut app, Key::Char('j'));
    assert_eq!(app.action_menu_index, 0);
    press(&mut app, Key::Down);
    press(&mut app, Key::Down);
    press(&mut app, Key::Down);
    assert_eq!(
        press(&mut app, Key::Enter),
        Effect::Perform(PendingAction { vmid: 100, action: Action::Start })
    );
    assert!(matches!(app.mode, Mode::Browsing));

    press(&mut app, Key::Enter);
    assert_eq!(press(&mut app, Key::Char('7')), Effect::Nothing);
    assert!(matches!(app.mode, Mode::Confirm { pending: PendingAction { action: Action::Stop, .. }, .. }));
    press(&mut app, Key::Char('n'));

    press(&mut app, Key::Enter);
    press(&mut app, Key::Char('x'));
    assert!(matches!(app.mode, Mode::ActionMenu));
    press(&mut app, Key::Char('q'));
    assert!(matches!(app.mode, Mode::Browsing));
    press(&mut app, Key::Enter);
    assert_eq!(press(&mut app, Key::Esc), Effect::Nothing);
    assert!(matches!(app.mode, Mode::Browsing));
}

#[test]
fn log_and_help_screens_close() {
    let mut app = app();
    press(&mut app, Key::Char('l'));
    assert!(matches!(app.mode, Mode::Logs));
    press(&mut app, Key::Char('?'));
    assert!(matches!(app.mode, Mode::Logs));
    press(&mut app, Key::Char('l'));
    assert!(matches!(app.mode, Mode::Browsing));
    press(&mut app, Key::Char('?'));
    assert!(matches!(app.mode, Mode::Help));
    press(&mut app, Key::Esc);
    assert!(matches!(app.mode, Mode::Browsing));
    press(&mut app, Key::Other);
    assert!(matches!(app.mode, Mode::Browsing));
}

#[test]
fn log_keeps_the_newest_lines() {
    let mut app = app();
    for i in 0..250u64 {
        app.log(&format!("line {i}"), &format!("{:>7.1}", i as f64 / 10.0));
    }
    assert_eq!(app.logs.len(), LOG_CAPACITY);
    assert_eq!(app.logs.back().unwrap(), "   24.9s  line 249");
    assert_eq!(app.logs.front().unwrap(), "    5.0s  line 50");
    assert_eq!(app.status_line, "line 249");
}

#[test]
fn log_lines_carry_the_given_time() {
    let mut app = App::new(Config::with_defaults("/tmp", None));
    app.log("x", "    0.2");
    app.log("y", "123456.8");
    assert_eq!(app.logs[0], "    0.2s  x");
    assert_eq!(app.logs[1], "123456.8s  y");
}

#[test]
fn refresh_is_due_after_the_interval_on_the_list() {
    let mut app = app();
    assert!(!app.tick(2999));
    assert!(app.tick(3000));
    press(&mut app, Key::Char('?'));
    assert!(!app.tick(10_000));
    press(&mut app, Key::Esc);
    press(&mut app, Key::Char('l'));
    assert!(app.tick(10_000));
}

#[test]
fn bootstrap_logs_the_node() {
    let mut app = App::new(Config::with_defaults("/tmp", None));
    app.bootstrap(Some("pve01.lan\n"), "    0.1");
    assert_eq!(app.proxmox.node(), "pve01");
    assert_eq!(app.status_line, "Node: pve01");
}

#[test]
fn menu_lists_eight_actions() {
    let actions = menu_actions();
    assert_eq!(actions.len(), 8);
    assert_eq!(actions[0], Action::Attach(Protocol::Auto));
    assert_eq!(actions[7], Action::Reset);
    assert_eq!(menu_action_at(3), Some(Action::Start));
    assert_eq!(menu_action_at(8), None);
}

#[test]
fn action_labels_and_descriptions() {
    assert_eq!(Action::Attach(Protocol::Spice).label(), "Attach SPICE");
    assert_eq!(Action::Attach(Protocol::Spice).description(), "Create .vv and open remote-viewer");
    assert_eq!(Action::Refresh.label(), "Refresh");
    assert_eq!(Action::Refresh.description(), "qm list");
    assert_eq!(Action::Stop.power_action(), Some(PowerAction::Stop));
    assert_eq!(Action::Attach(Protocol::Auto).power_action(), None);
}

#[test]
fn notices_read_as_logged() {
    assert_eq!(
        Notice::PowerRunning { vmid: 100, action: PowerAction::Shutdown }.text(),
        "Running shutdown for VM 100"
    );
    assert_eq!(Notice::VmStatus { vmid: 100, status: "stopped".to_string() }.text(), "VM 100 is stopped");
    assert_eq!(Notice::MissingAfterAction { vmid: 9 }.text(), "VM 9 was not found after action");
    assert_eq!(
        Notice::RefreshAfterActionFailed { error: "e".to_string() }.text(),
        "Refresh after action failed: e"
    );
    assert_eq!(Notice::Failed { error: "boom".to_string() }.text(), "ERROR: boom");
    assert_eq!(Notice::StartingForAttach { vmid: 3 }.text(), "Starting VM 3 before attach");
    assert_eq!(
        Notice::SpiceFallback { error: "x".to_string() }.text(),
        "SPICE failed, trying VNC: x"
    );
    let session = ViewerSession::started(100, Protocol::Spice, 4242, "/tmp/a.vv");
    assert_eq!(
        Notice::session(&session).text(),
        "SPICE viewer started for VM 100 (pid 4242, temp files: 1)"
    );
}

#[test]
fn running_check() {
    let app = app();
    assert!(is_running(&app.vms[0]));
    assert!(!is_running(&app.vms[1]));
}

#[test]
fn attaching_starts_stopped_vms_first() {
    let app = app();
    assert_eq!(attach_start(app.find_vm(100), 100).unwrap(), AttachStart::Ready);
    assert_eq!(attach_start(app.find_vm(101), 101).unwrap(), AttachStart::StartFirst);
    let gone = attach_start(app.find_vm(7), 7).unwrap_err();
    assert!(matches!(gone, AttachError::VmGone(7)));

    let stopped = &app.vms[1];
    let running = &app.vms[0];
    assert!(started_for_attach(stopped, Some(running)).is_ok());
    let e = started_for_attach(stopped, None).unwrap_err();
    assert_eq!(e.message(), "VM 101 did not reach running state");
    assert!(started_for_attach(running, None).is_ok());
}

#[test]
fn auto_attach_tries_spice_then_vnc() {
    assert_eq!(attach_protocols(Protocol::Auto), vec![Protocol::Spice, Protocol::Vnc]);
    assert_eq!(attach_protocols(Protocol::Vnc), vec![Protocol::Vnc]);
    assert_eq!(attach_protocols(Protocol::Spice), vec![Protocol::Spice]);
}

#[test]
fn power_action_outcomes() {
    let app = app();
    let (refresh_first, notice) = after_power_action(101, Ok(Some(&app.vms[1])));
    assert!(refresh_first);
    assert_eq!(notice.text(), "VM 101 is stopped");
    let (refresh_first, notice) = after_power_action(9, Ok(None));
    assert!(refresh_first);
    assert_eq!(notice.text(), "VM 9 was not found after action");
    let (refresh_first, notice) = after_power_action(9, Err("boom"));
    assert!(!refresh_first);
    assert_eq!(notice.text(), "Refresh after action failed: boom");
}

#[test]
fn failed_spice_falls_back_to_vnc_once() {
    match after_attach_failure(Protocol::Auto, 0, "no spice") {
        AttachRetry::TryNext(p, notice) => {
            assert_eq!(p, Protocol::Vnc);
            assert_eq!(notice.text(), "SPICE failed, trying VNC: no spice");
        }
        other => panic!("unexpected {other:?}"),
    }
    assert!(matches!(after_attach_failure(Protocol::Auto, 1, "x"), AttachRetry::GiveUp));
    assert!(matches!(after_attach_failure(Protocol::Spice, 0, "x"), AttachRetry::GiveUp));
    assert!(matches!(after_attach_failure(Protocol::Vnc, 0, "x"), AttachRetry::GiveUp));
}
