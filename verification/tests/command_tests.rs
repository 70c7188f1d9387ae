use pve_vm_launcher::command::build_detached_launch;
use pve_vm_launcher::command::build_user_launch;
use pve_vm_launcher::command::command_vec;
use pve_vm_launcher::command::display_command;
use pve_vm_launcher::command::ensure_command;
use pve_vm_launcher::command::finish_run;
use pve_vm_launcher::command::invoking_user;
use pve_vm_launcher::command::poll_step;
use pve_vm_launcher::command::runtime_dir;
use pve_vm_launcher::command::sanitize_log_value;
use pve_vm_launcher::command::session_variables;
use pve_vm_launcher::command::stderr_suffix;
use pve_vm_launcher::command::user_bus_path;
use pve_vm_launcher::command::user_switcher;
use pve_vm_launcher::command::viewer_env;
use pve_vm_launcher::command::xauthority_path;
use pve_vm_launcher::command::CommandError;
use pve_vm_launcher::command::CommandResult;
use pve_vm_launcher::command::CommandRunner;
use pve_vm_launcher::command::DetachedLaunch;
use pve_vm_launcher::command::HostFacts;
use pve_vm_launcher::command::InvokingUser;
use pve_vm_launcher::command::LaunchContext;
use pve_vm_launcher::command::LaunchError;
use pve_vm_launcher::command::PollStep;
use pve_vm_launcher::command::UserSwitcher;

fn s(v: &str) -> String {
    v.to_string()
}

fn result(stderr: &str, exit: Option<i32>) -> CommandResult {
    CommandResult {
        command: vec![s("qm"), s("list")],
        exit_code: exit,
        stdout: s("out"),
        stderr: s(stderr),
        duration_ms: 12,
    }
}

#[test]
fn describes_commands() {
    let c = command_vec("qm", &vec![s("start"), s("100")]);
    assert_eq!(c, vec!["qm", "start", "100"]);
    assert_eq!(display_command(&c), "qm start 100");
    assert_eq!(display_command(&vec![]), "");
    assert_eq!(stderr_suffix("  boom \n"), ": boom");
    assert_eq!(stderr_suffix(" \n"), "");
}

#[test]
fn sanitizes_log_values() {
    assert_eq!(sanitize_log_value("a\\b\"c\nd"), "a\\\\b\\\"c\\nd");
    assert!(!sanitize_log_value("x\ny\n").contains('\n'));
}

#[test]
fn logs_finished_and_timed_out_commands() {
    let runner = CommandRunner::new(s("/tmp/app.log"));
    let line = runner.log_result(&result("  oops \"x\"\n", Some(0)), false, 1700);
    assert_eq!(
        line,
        "1700 status=done exit=Some(0) duration_ms=12 cmd=\"qm list\" stderr=\"oops \\\"x\\\"\"\n"
    );
    let line = runner.log_result(&result("", None), true, 5);
    assert_eq!(
        line,
        "5 status=timeout exit=None duration_ms=12 cmd=\"qm list\" stderr=\"\"\n"
    );
    let line = runner.log_result(&result("", Some(-2)), false, 5);
    assert!(line.contains("exit=Some(-2)"));
}

#[test]
fn logs_spawned_viewers() {
    let runner = CommandRunner::new(s("/tmp/app.log"));
    let launch = DetachedLaunch {
        program: s("runuser"),
        args: vec![s("-u"), s("ann"), s("--"), s("env"), s("DISPLAY=:0"), s("remmina")],
        env_vars: vec![(s("DISPLAY"), s(":0")), (s("PATH"), s("/bin"))],
        run_as_user: Some(s("ann")),
        setsid: true,
    };
    assert_eq!(
        runner.log_detached(&launch, 4242, 77),
        "77 status=spawned pid=4242 setsid=true run_as_user=\"ann\" env_keys=\"DISPLAY,PATH\" cmd=\"runuser -u ann -- env DISPLAY=:0 remmina\"\n"
    );
}

#[test]
fn judges_runs() {
    assert_eq!(poll_step(true, 999_999, 1), PollStep::Collect);
    assert_eq!(poll_step(false, 999, 1), PollStep::Wait);
    assert_eq!(poll_step(false, 1000, 1), PollStep::Kill);

    let ok = finish_run(result("", Some(0)), true, false, 5).unwrap();
    assert_eq!(ok.stdout, "out");

    let failed = finish_run(result(" denied ", Some(2)), false, false, 5).unwrap_err();
    assert_eq!(failed.message(), "command failed: qm list (exit Some(2)): denied");

    let timed_out = finish_run(result("", None), false, true, 5).unwrap_err();
    assert_eq!(timed_out.message(), "command timed out after 5s: qm list");

    let missing = ensure_command("qm", false).unwrap_err();
    assert!(matches!(missing, CommandError::NotFound { .. }));
    assert_eq!(missing.message(), "`qm` was not found in PATH");
    assert!(ensure_command("qm", true).is_ok());
}

#[test]
fn finds_the_invoking_user() {
    let passwd = "ann:x:1000:1000:Ann:/home/ann:/bin/bash\n";
    let user = invoking_user(Some("ann"), Some("1000"), Some(passwd)).unwrap();
    assert_eq!(user.name, "ann");
    assert_eq!(user.uid, Some(1000));
    assert_eq!(user.home.as_deref(), Some("/home/ann"));
    let user = invoking_user(Some("ann"), Some("x"), None).unwrap();
    assert_eq!(user.uid, None);
    assert_eq!(user.home, None);
    assert!(invoking_user(Some("root"), Some("0"), Some(passwd)).is_none());
    assert!(invoking_user(None, Some("0"), Some(passwd)).is_none());
}

#[test]
fn chooses_a_user_switcher() {
    assert_eq!(user_switcher(true, true).unwrap(), UserSwitcher::Runuser);
    assert_eq!(user_switcher(false, true).unwrap(), UserSwitcher::Sudo);
    let e = user_switcher(false, false).unwrap_err();
    assert!(matches!(e, LaunchError::NoUserSwitcher));
    assert_eq!(
        e.message(),
        "viewer must run as the invoking desktop user, but neither `runuser` nor `sudo` was found"
    );
    assert_eq!(UserSwitcher::Runuser.program(), "runuser");
    assert_eq!(UserSwitcher::Sudo.program(), "sudo");
}

#[test]
fn user_paths() {
    assert_eq!(runtime_dir(1000), "/run/user/1000");
    assert_eq!(user_bus_path(1000), "/run/user/1000/bus");
    assert_eq!(xauthority_path("/home/ann"), "/home/ann/.Xauthority");
    assert_eq!(session_variables().len(), 12);
    assert_eq!(session_variables()[0], "DISPLAY");
}

fn ann() -> InvokingUser {
    InvokingUser {
        name: s("ann"),
        uid: Some(1000),
        home: Some(s("/home/ann")),
    }
}

fn session_with(display: Option<&str>, path: Option<&str>) -> Vec<Option<String>> {
    let mut v = vec![None; 12];
    v[0] = display.map(s);
    v[8] = path.map(s);
    v
}

#[test]
fn viewer_env_fills_in_the_user_session() {
    let user = ann();
    let env = viewer_env(
        Some(&user),
        &session_with(Some(":0"), Some("/usr/bin")),
        Some("/run/user/0"),
        true,
        true,
        &vec![],
    );
    assert_eq!(
        env,
        vec![
            (s("DBUS_SESSION_BUS_ADDRESS"), s("unix:path=/run/user/1000/bus")),
            (s("DISPLAY"), s(":0")),
            (s("PATH"), s("/usr/bin")),
            (s("XAUTHORITY"), s("/home/ann/.Xauthority")),
            (s("XDG_RUNTIME_DIR"), s("/run/user/1000")),
        ]
    );
}

#[test]
fn configured_env_wins() {
    let env = viewer_env(
        None,
        &session_with(Some(":0"), None),
        Some("/run/user/0"),
        true,
        true,
        &vec![(s("DISPLAY"), s(":1")), (s("GDK_BACKEND"), s("x11")), (s("DISPLAY"), s(":2"))],
    );
    assert_eq!(
        env,
        vec![
            (s("DISPLAY"), s(":2")),
            (s("GDK_BACKEND"), s("x11")),
            (s("XDG_RUNTIME_DIR"), s("/run/user/0")),
        ]
    );
}

fn facts(setsid: bool, program: bool, runuser: bool, sudo: bool) -> HostFacts {
    HostFacts {
        setsid_exists: setsid,
        program_exists: program,
        runuser_exists: runuser,
        sudo_exists: sudo,
        usr_bin_env_is_file: true,
    }
}

fn context(user: Option<InvokingUser>, f: HostFacts) -> LaunchContext {
    LaunchContext {
        invoking_user: user,
        session: session_with(Some(":0"), None),
        xdg_runtime_dir: None,
        user_bus_exists: false,
        user_xauthority_exists: false,
        facts: f,
    }
}

#[test]
fn launches_as_the_invoking_user() {
    let ctx = context(Some(ann()), facts(true, false, false, true));
    let launch = build_detached_launch(
        "remote-viewer",
        &vec![s("/tmp/a.vv")],
        &vec![(s("GDK_BACKEND"), s("x11"))],
        true,
        &ctx,
    )
    .unwrap();
    assert_eq!(launch.program, "sudo");
    assert_eq!(
        launch.args,
        vec![
            "-u",
            "ann",
            "/usr/bin/env",
            "DISPLAY=:0",
            "GDK_BACKEND=x11",
            "XDG_RUNTIME_DIR=/run/user/1000",
            "setsid",
            "remote-viewer",
            "/tmp/a.vv"
        ]
    );
    assert_eq!(launch.run_as_user.as_deref(), Some("ann"));
    assert!(launch.setsid);
}

#[test]
fn launches_directly_without_a_user() {
    let ctx = context(Some(ann()), facts(true, true, true, true));
    let launch = build_detached_launch("remmina", &vec![s("-c"), s("/tmp/p.remmina")], &vec![], false, &ctx)
        .unwrap();
    assert_eq!(launch.program, "setsid");
    assert_eq!(launch.args, vec!["remmina", "-c", "/tmp/p.remmina"]);
    assert_eq!(launch.run_as_user, None);
    assert_eq!(launch.env_vars, vec![(s("DISPLAY"), s(":0"))]);

    let ctx = context(None, facts(false, true, false, false));
    let launch = build_detached_launch("remmina", &vec![], &vec![], true, &ctx).unwrap();
    assert_eq!(launch.program, "remmina");
    assert!(launch.args.is_empty());
    assert!(!launch.setsid);
}

#[test]
fn launch_errors() {
    let ctx = context(None, facts(true, false, true, true));
    let e = build_detached_launch("remmina", &vec![], &vec![], true, &ctx).unwrap_err();
    assert_eq!(e.message(), "`remmina` was not found in PATH");

    let ctx = context(Some(ann()), facts(true, true, false, false));
    let e = build_detached_launch("remmina", &vec![], &vec![], true, &ctx).unwrap_err();
    assert!(matches!(e, LaunchError::NoUserSwitcher));
}

#[test]
fn user_launch_through_runuser() {
    let launch = build_user_launch(
        "remmina",
        &vec![s("-c"), s("p")],
        vec![(s("A"), s("1"))],
        &ann(),
        false,
        &facts(false, true, true, true),
    )
    .unwrap();
    assert_eq!(launch.program, "runuser");
    assert_eq!(launch.args, vec!["-u", "ann", "--", "/usr/bin/env", "A=1", "remmina", "-c", "p"]);
    assert_eq!(launch.env_vars, vec![(s("A"), s("1"))]);
}
