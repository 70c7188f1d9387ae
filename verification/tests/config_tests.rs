use pve_vm_launcher::config::apply_config_file;
use pve_vm_launcher::config::apply_config_text;
use pve_vm_launcher::config::config_file_path;
use pve_vm_launcher::config::default_config_toml;
use pve_vm_launcher::config::default_log_file;
use pve_vm_launcher::config::invoking_user_name;
use pve_vm_launcher::config::join_path;
use pve_vm_launcher::config::parse_string_array;
use pve_vm_launcher::config::passwd_home;
use pve_vm_launcher::config::sudo_ids;
use pve_vm_launcher::config::usage;
use pve_vm_launcher::config::CliOptions;
use pve_vm_launcher::config::Config;
use pve_vm_launcher::config::ConfigErrorKind;
use pve_vm_launcher::config::ViewerLaunchConfig;

fn defaults() -> Config {
    Config::with_defaults("/tmp", Some("/root"))
}

#[test]
fn parses_keep_temp_files_option() {
    let options = CliOptions::parse(&["--keep-temp-files"]).unwrap();

    assert_eq!(
        options,
        CliOptions {
            keep_temp_files: true,
            help: false,
        }
    );
}

#[test]
fn parses_help_option() {
    let options = CliOptions::parse(&["--help"]).unwrap();

    assert!(options.help);
}

#[test]
fn rejects_unknown_option() {
    let error = CliOptions::parse(&["--wat"]).unwrap_err().message();

    assert!(error.contains("unknown option `--wat`"));
}

#[test]
fn applies_viewer_launch_config_file() {
    let raw = r#"
            [viewer.spice]
            command = "virt-viewer"
            args = ["--full-screen", "--zoom=100"]
            run_as_invoking_user = false

            [viewer.spice.env]
            GDK_BACKEND = "x11"
            SPICE_DEBUG = "1"

            [viewer.vnc]
            command = "flatpak"
            args = ["run", "org.remmina.Remmina"]

            [viewer.vnc.env]
            REMMINA_PREF = "local"
        "#;
    let mut config = defaults();

    apply_config_file(&mut config, raw, "config.toml").unwrap();

    assert_eq!(config.viewer.spice.command, "virt-viewer");
    assert!(!config.viewer.spice.run_as_invoking_user);
    assert_eq!(
        config.viewer.spice.args,
        vec!["--full-screen".to_string(), "--zoom=100".to_string()]
    );
    assert_eq!(
        config.viewer.spice.env,
        vec![
            ("GDK_BACKEND".to_string(), "x11".to_string()),
            ("SPICE_DEBUG".to_string(), "1".to_string()),
        ]
    );
    assert_eq!(config.viewer.vnc.command, "flatpak");
    assert_eq!(
        config.viewer.vnc.args,
        vec!["run".to_string(), "org.remmina.Remmina".to_string()]
    );
    assert_eq!(
        config.viewer.vnc.env,
        vec![("REMMINA_PREF".to_string(), "local".to_string())]
    );
}

#[test]
fn strips_comments_outside_strings() {
    let raw = r#"
            [viewer.spice]
            command = "remote-viewer#debug" # comment
            args = ["--title=a#b"]
        "#;
    let mut config = defaults();

    apply_config_file(&mut config, raw, "config.toml").unwrap();

    assert_eq!(config.viewer.spice.command, "remote-viewer#debug");
    assert_eq!(config.viewer.spice.args, vec!["--title=a#b".to_string()]);
}

#[test]
fn bundled_default_config_is_parseable() {
    let mut config = defaults();

    apply_config_file(&mut config, default_config_toml(), "config.example.toml").unwrap();

    assert_eq!(config.viewer.spice.command, "remote-viewer");
    assert_eq!(config.viewer.vnc.command, "remmina");
    assert!(config.viewer.spice.run_as_invoking_user);
    assert!(config.viewer.vnc.run_as_invoking_user);
    assert_eq!(config.proxmox.node, "auto");
    assert_eq!(config.proxmox.command_timeout_secs, 15);
    assert_eq!(config.spice.vv_dir, "/tmp/pve-vm-launcher");
    assert_eq!(config.logging.file, "/root/.local/state/pve-vm-launcher/app.log");
}

#[test]
fn defaults_follow_the_documented_table() {
    let config = defaults();
    assert!(!config.keep_temp_files);
    assert_eq!(config.proxmox.node, "auto");
    assert_eq!(config.proxmox.command_timeout_secs, 15);
    assert_eq!(config.viewer.spice, ViewerLaunchConfig::new("remote-viewer"));
    assert_eq!(config.viewer.vnc, ViewerLaunchConfig::new("remmina"));
    assert!(config.viewer.spice.args.is_empty());
    assert!(config.viewer.vnc.env.is_empty());
    assert!(config.vnc.enabled);
    assert!(config.spice.enabled);
    assert_eq!(config.spice.vv_dir, "/tmp/pve-vm-launcher");
    assert_eq!(config.vnc.profile_dir, "/tmp/pve-vm-launcher");
    assert_eq!(config.spice.delete_vv_after_secs, 30);
    assert_eq!(config.vnc.delete_profile_after_secs, 30);
    assert_eq!(config.ui.refresh_interval_secs, 3);
    assert!(config.ui.confirm_destructive_actions);
    assert_eq!(config.logging.file, "/root/.local/state/pve-vm-launcher/app.log");
    assert_eq!(config.temp_dir(), "/tmp/pve-vm-launcher");
}

#[test]
fn log_file_falls_back_to_temp_dir_without_home() {
    assert_eq!(default_log_file(None, "/tmp"), "/tmp/pve-vm-launcher/app.log");
    assert_eq!(
        default_log_file(Some("/home/ann"), "/tmp"),
        "/home/ann/.local/state/pve-vm-launcher/app.log"
    );
}

#[test]
fn joins_paths_with_one_separator() {
    assert_eq!(join_path("/tmp", "x"), "/tmp/x");
    assert_eq!(join_path("/tmp/", "x"), "/tmp/x");
}

#[test]
fn config_path_prefers_invoking_user_home() {
    let o = |v: &str| Some(v.to_string());
    assert_eq!(
        config_file_path(o("/home/ann"), o("/xdg"), o("/root")).as_deref(),
        Some("/home/ann/.config/pve-vm-launcher/config.toml")
    );
    assert_eq!(
        config_file_path(None, o("/xdg"), o("/root")).as_deref(),
        Some("/xdg/pve-vm-launcher/config.toml")
    );
    assert_eq!(
        config_file_path(None, None, o("/root")).as_deref(),
        Some("/root/.config/pve-vm-launcher/config.toml")
    );
    assert_eq!(config_file_path(None, None, None), None);
}

#[test]
fn later_options_accumulate_and_short_help_is_known() {
    let options = CliOptions::parse(&["-h", "--keep-temp-files"]).unwrap();
    assert!(options.help);
    assert!(options.keep_temp_files);
    let none = CliOptions::parse(&[]).unwrap();
    assert_eq!(none, CliOptions::default());
}

#[test]
fn unknown_option_message_carries_usage() {
    let error = CliOptions::parse(&["--keep-temp-files", "-x", "--also-bad"]).unwrap_err();
    assert_eq!(error.option, "-x");
    assert_eq!(error.message(), format!("unknown option `-x`\n\n{}", usage()));
    assert!(usage().starts_with("Usage: pve-vm-launcher [OPTIONS]"));
}

#[test]
fn env_tables_are_sorted_and_last_value_wins() {
    let raw = "[viewer.vnc.env]\nZED = \"1\"\nALPHA = \"2\"\nZED = \"3\"\n";
    let mut config = defaults();
    apply_config_file(&mut config, raw, "config.toml").unwrap();
    assert_eq!(
        config.viewer.vnc.env,
        vec![
            ("ALPHA".to_string(), "2".to_string()),
            ("ZED".to_string(), "3".to_string()),
        ]
    );
    assert!(config.viewer.spice.env.is_empty());
}

#[test]
fn escapes_in_strings_are_decoded() {
    let raw = "[viewer.spice]\ncommand = \"a\\tb\\\"c\\\\d\\ne\"\nargs = [\"x,y\", \"z\"]\n";
    let mut config = defaults();
    apply_config_file(&mut config, raw, "config.toml").unwrap();
    assert_eq!(config.viewer.spice.command, "a\tb\"c\\d\ne");
    assert_eq!(config.viewer.spice.args, vec!["x,y".to_string(), "z".to_string()]);
}

#[test]
fn unknown_sections_and_keys_are_ignored() {
    let raw = "[viewer]\ndefault_protocol = \"auto\"\n[ui]\nshow_advanced_actions = false\n[viewer.spice]\ncolour = \"red\"\n";
    let mut config = defaults();
    apply_config_file(&mut config, raw, "config.toml").unwrap();
    assert_eq!(config.ui.refresh_interval_secs, 3);
    assert_eq!(config.viewer.spice, ViewerLaunchConfig::new("remote-viewer"));
}

#[test]
fn applies_the_general_tables() {
    let raw = "[proxmox]\nnode = \"pve02\"\ncommand_timeout_sec = 20\nprefer_pvesh = true\n[spice]\ndelete_vv_after_sec = 10\nvv_dir = \"/run/vv\"\nenabled = false\n[vnc]\nenabled = false\nremmina_profile_dir = \"/run/rem\"\n[ui]\nconfirm_destructive_actions = false\nrefresh_interval_sec = +9\n[logging]\nfile = \"/var/log/l.log\"\n";
    let mut config = defaults();
    apply_config_file(&mut config, raw, "config.toml").unwrap();
    assert_eq!(config.proxmox.node, "pve02");
    assert_eq!(config.proxmox.command_timeout_secs, 20);
    assert_eq!(config.spice.delete_vv_after_secs, 10);
    assert_eq!(config.spice.vv_dir, "/run/vv");
    assert!(!config.spice.enabled);
    assert!(!config.vnc.enabled);
    assert_eq!(config.vnc.profile_dir, "/run/rem");
    assert_eq!(config.vnc.delete_profile_after_secs, 30);
    assert!(!config.ui.confirm_destructive_actions);
    assert_eq!(config.ui.refresh_interval_secs, 9);
    assert_eq!(config.logging.file, "/var/log/l.log");
    assert_eq!(config.temp_dir(), "/run/vv");
    assert!(!config.keep_temp_files);
}

#[test]
fn general_values_are_checked() {
    let (kind, message) = error_of("[proxmox]\ncommand_timeout_sec = soon\n");
    assert_eq!(kind, ConfigErrorKind::ExpectedInteger);
    assert_eq!(message, "c.toml:2: expected integer");
    let (kind, _) = error_of("[ui]\nrefresh_interval_sec = -1\n");
    assert_eq!(kind, ConfigErrorKind::ExpectedInteger);
    let (kind, message) = error_of("\n[vnc]\nenabled = 1\n");
    assert_eq!(kind, ConfigErrorKind::ExpectedBoolean);
    assert_eq!(message, "c.toml:3: expected boolean");
    let (kind, _) = error_of("[logging]\nfile = /tmp/x\n");
    assert_eq!(kind, ConfigErrorKind::ExpectedQuotedString);
}

#[test]
fn settings_before_an_error_stay_applied() {
    let mut config = defaults();
    let e = apply_config_text(&mut config, "[proxmox]\nnode = \"a\"\ncommand_timeout_sec = x\nnode = \"b\"\n", "c.toml");
    assert!(e.is_err());
    assert_eq!(config.proxmox.node, "a");
    assert_eq!(config.proxmox.command_timeout_secs, 15);
}

#[test]
fn reading_the_same_text_twice_changes_nothing() {
    let raw = "[proxmox]\nnode = \"pve02\"\n[viewer.vnc]\nargs = [\"-x\"]\n[viewer.vnc.env]\nB = \"2\"\nA = \"1\"\n";
    let mut once = defaults();
    apply_config_file(&mut once, raw, "c.toml").unwrap();
    let mut twice = defaults();
    apply_config_file(&mut twice, raw, "c.toml").unwrap();
    apply_config_file(&mut twice, raw, "c.toml").unwrap();
    assert_eq!(once.proxmox.node, twice.proxmox.node);
    assert_eq!(once.viewer.vnc, twice.viewer.vnc);
    assert_eq!(once.viewer.spice, twice.viewer.spice);
}

fn error_of(raw: &str) -> (ConfigErrorKind, String) {
    let mut config = defaults();
    let error = apply_config_text(&mut config, raw, "c.toml").unwrap_err();
    (error.kind, error.message())
}

#[test]
fn reports_each_config_error_with_its_line() {
    let (kind, message) = error_of("[viewer.spice\n");
    assert_eq!(kind, ConfigErrorKind::UnterminatedSection);
    assert_eq!(message, "c.toml:1: unterminated section header");

    let (kind, message) = error_of("\n[viewer.spice]\ncommand\n");
    assert_eq!(kind, ConfigErrorKind::ExpectedAssignment);
    assert_eq!(message, "c.toml:3: expected `key = value`");

    let (kind, message) = error_of(" = 1\n");
    assert_eq!(kind, ConfigErrorKind::EmptyKey);
    assert_eq!(message, "c.toml:1: empty key");

    let (kind, _) = error_of("[viewer.spice]\nrun_as_invoking_user = yes\n");
    assert_eq!(kind, ConfigErrorKind::ExpectedBoolean);

    let (kind, _) = error_of("[viewer.spice]\ncommand = bare\n");
    assert_eq!(kind, ConfigErrorKind::ExpectedQuotedString);

    let (kind, _) = error_of("[viewer.spice]\nargs = \"x\"\n");
    assert_eq!(kind, ConfigErrorKind::ExpectedStringArray);

    let (kind, _) = error_of("[viewer.spice]\nargs = [\"x]\n");
    assert_eq!(kind, ConfigErrorKind::UnterminatedArrayString);

    let (kind, _) = error_of("[viewer.spice]\ncommand = \"a\\qb\"\n");
    assert_eq!(kind, ConfigErrorKind::UnsupportedEscape('q'));
}

#[test]
fn env_value_errors_carry_no_location() {
    let (kind, message) = error_of("[viewer.spice.env]\nA = 1\n");
    assert_eq!(kind, ConfigErrorKind::ExpectedQuotedString);
    assert_eq!(message, "expected quoted string");
}

#[test]
fn lone_quote_is_reported_by_the_total_parser() {
    let (kind, _) = error_of("[viewer.spice]\ncommand = \"\n");
    assert_eq!(kind, ConfigErrorKind::LoneQuote);
}

#[test]
fn invoking_user_is_ignored_for_root_and_empty() {
    assert_eq!(invoking_user_name(Some("ann")), Some("ann".to_string()));
    assert_eq!(invoking_user_name(Some("root")), None);
    assert_eq!(invoking_user_name(Some("")), None);
    assert_eq!(invoking_user_name(None), None);
}

#[test]
fn finds_home_in_passwd() {
    let passwd = "root:x:0:0:root:/root:/bin/bash\nann:x:1000:1000:Ann:/home/ann:/bin/zsh\nbob:x:1001:1001::\n";
    assert_eq!(passwd_home(passwd, "ann"), Some("/home/ann".to_string()));
    assert_eq!(passwd_home(passwd, "bob"), None);
    assert_eq!(passwd_home(passwd, "carol"), None);
}

#[test]
fn sudo_ids_need_at_least_one_number() {
    assert_eq!(sudo_ids(Some("1000"), Some("1000")), Some((Some(1000), Some(1000))));
    assert_eq!(sudo_ids(Some("x"), Some("7")), Some((None, Some(7))));
    assert_eq!(sudo_ids(None, Some("nope")), None);
}

#[test]
fn written_string_arrays_read_back() {
    let raw = "[viewer.vnc]\nargs = [\"a\\\\b\", \"q\\\"\", \"t\\tx\", \"c, d\", \"\"]\n";
    let mut config = defaults();
    apply_config_file(&mut config, raw, "c.toml").unwrap();
    assert_eq!(
        config.viewer.vnc.args,
        vec![
            "a\\b".to_string(),
            "q\"".to_string(),
            "t\tx".to_string(),
            "c, d".to_string(),
            "".to_string()
        ]
    );
}

#[test]
fn string_arrays_parse_on_their_own() {
    assert_eq!(
        parse_string_array(r#" [ "a\\b", "q\"", "x,y" ] "#).unwrap(),
        vec!["a\\b".to_string(), "q\"".to_string(), "x,y".to_string()]
    );
    assert_eq!(parse_string_array("[]").unwrap(), Vec::<String>::new());
    assert_eq!(parse_string_array("\"a\"").unwrap_err(), ConfigErrorKind::ExpectedStringArray);
    assert_eq!(parse_string_array("[\"a]").unwrap_err(), ConfigErrorKind::UnterminatedArrayString);
    assert_eq!(parse_string_array("[a]").unwrap_err(), ConfigErrorKind::ExpectedQuotedString);
}
