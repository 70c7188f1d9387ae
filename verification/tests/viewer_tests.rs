use pve_vm_launcher::config::Config;
use pve_vm_launcher::viewer::attach_request;
use pve_vm_launcher::viewer::connection_from_document;
use pve_vm_launcher::viewer::vv_from_document;
use pve_vm_launcher::viewer::JsonDocument;
use pve_vm_launcher::viewer::JsonEntry;
use pve_vm_launcher::viewer::JsonScalar;
use pve_vm_launcher::viewer::escape_vv_value;
use pve_vm_launcher::viewer::is_generated_file_name;
use pve_vm_launcher::viewer::remmina_profile;
use pve_vm_launcher::viewer::remmina_profile_path;
use pve_vm_launcher::viewer::spice_proxy_command;
use pve_vm_launcher::viewer::spice_vv_from_pvesh_json;
use pve_vm_launcher::viewer::spice_vv_path;
use pve_vm_launcher::viewer::viewer_args;
use pve_vm_launcher::viewer::vnc_connection;
use pve_vm_launcher::viewer::vnc_proxy_command;
use pve_vm_launcher::viewer::vv_file_from_proxy_output;
use pve_vm_launcher::viewer::AttachError;
use pve_vm_launcher::viewer::Protocol;
use pve_vm_launcher::viewer::SpiceError;
use pve_vm_launcher::viewer::ViewerSession;
use pve_vm_launcher::viewer::VncError;

#[test]
fn renders_spice_proxy_json_as_virt_viewer_file() {
    let json = r#"{
            "ca": "-----BEGIN CERTIFICATE-----\nabc\n-----END CERTIFICATE-----\n",
            "delete-this-file": 1,
            "host": "pvespiceproxy:ticket:127:basic:61000::token",
            "host-subject": "OU=PVE Cluster Node,O=Proxmox Virtual Environment,CN=basic.home.lan",
            "password": "secret",
            "proxy": "http://basic.home.lan:3128",
            "release-cursor": "Ctrl+Alt+R",
            "secure-attention": "Ctrl+Alt+Ins",
            "title": "VM 127 - onicha",
            "tls-port": 61000,
            "toggle-fullscreen": "Shift+F11",
            "type": "spice"
        }"#;

    let vv = spice_vv_from_pvesh_json(json).unwrap();

    assert!(vv.starts_with("[virt-viewer]\ntype=spice\n"));
    assert!(vv.contains("host=pvespiceproxy:ticket:127:basic:61000::token\n"));
    assert!(vv.contains("tls-port=61000\n"));
    assert!(vv.contains("password=secret\n"));
    assert!(vv.contains("proxy=http://basic.home.lan:3128\n"));
    assert!(
        vv.contains("ca=-----BEGIN CERTIFICATE-----\\nabc\\n-----END CERTIFICATE-----\\n\n")
    );
}

#[test]
fn vv_file_orders_preferred_then_sorted_extra_keys() {
    let json = r#"{"zeta": true, "alpha": false, "proxy": "p", "password": "pw",
        "host": "h", "type": "spice", "nothing": null, "list": [1], "port": 5900}"#;
    let vv = spice_vv_from_pvesh_json(json).unwrap();
    assert_eq!(
        vv,
        "[virt-viewer]\ntype=spice\nhost=h\nport=5900\npassword=pw\nproxy=p\nalpha=0\nzeta=1\n"
    );
}

#[test]
fn vv_file_reads_json_after_leading_noise() {
    let out = "warning: something\n{\"type\":\"spice\",\"host\":\"h\",\"proxy\":\"p\",\"password\":\"x\"}\n";
    let vv = spice_vv_from_pvesh_json(out).unwrap();
    assert_eq!(vv, "[virt-viewer]\ntype=spice\nhost=h\npassword=x\nproxy=p\n");
}

#[test]
fn vv_file_errors() {
    assert!(matches!(spice_vv_from_pvesh_json("no json here"), Err(SpiceError::NotJson)));
    let invalid = spice_vv_from_pvesh_json("x {broken").unwrap_err();
    assert!(matches!(invalid, SpiceError::InvalidJson(_)));
    assert!(invalid
        .message()
        .starts_with("failed to parse spiceproxy JSON output: "));
    assert!(matches!(spice_vv_from_pvesh_json("[1, 2]"), Err(SpiceError::NotObject)));
    let missing = spice_vv_from_pvesh_json(r#"{"type":"spice","host":"h","proxy":1,"password":"x"}"#)
        .unwrap_err();
    match &missing {
        SpiceError::MissingField(f) => assert_eq!(f, "proxy"),
        other => panic!("unexpected {other:?}"),
    }
    assert_eq!(
        missing.message(),
        "spiceproxy JSON output did not include `proxy`"
    );
    assert!(matches!(vv_file_from_proxy_output("  \n"), Err(SpiceError::EmptyOutput)));
    assert_eq!(
        SpiceError::EmptyOutput.message(),
        "SPICE proxy returned empty output"
    );
    assert_eq!(
        vv_file_from_proxy_output(r#"{"type":"spice","host":"h","proxy":"p","password":"x"}"#).unwrap(),
        "[virt-viewer]\ntype=spice\nhost=h\npassword=x\nproxy=p\n"
    );
}

#[test]
fn vv_values_drop_carriage_returns_and_escape_newlines() {
    assert_eq!(escape_vv_value("a\r\nb\nc"), "a\\nb\\nc");
    assert_eq!(escape_vv_value("plain"), "plain");
}

#[test]
fn vnc_connection_outcomes() {
    assert_eq!(
        vnc_connection(r#"{"port": 5901, "ticket": "PVEVNC:abc", "cert": "x"}"#).unwrap(),
        (5901, "PVEVNC:abc".to_string())
    );
    let failed = vnc_connection("nope").unwrap_err();
    assert!(matches!(failed, VncError::ParseFailed(_)));
    assert!(failed.message().starts_with("failed to parse vncproxy JSON output: "));
    assert!(failed.message().len() > "failed to parse vncproxy JSON output: ".len());
    assert_eq!(vnc_connection(r#"{"ticket": "t"}"#).unwrap_err(), VncError::MissingPort);
    assert_eq!(vnc_connection(r#"{"port": -1, "ticket": "t"}"#).unwrap_err(), VncError::MissingPort);
    assert_eq!(vnc_connection(r#"{"port": "5900", "ticket": "t"}"#).unwrap_err(), VncError::MissingPort);
    assert_eq!(vnc_connection(r#"{"port": 5900}"#).unwrap_err(), VncError::MissingTicket);
    assert_eq!(
        vnc_connection(r#"{"port": 5900, "ticket": "a\nb"}"#).unwrap_err(),
        VncError::TicketNewline
    );
    assert_eq!(
        vnc_connection(r#"{"port": 5900, "ticket": "a\rb"}"#).unwrap_err(),
        VncError::TicketNewline
    );
    assert_eq!(VncError::MissingTicket.message(), "vncproxy output did not include `ticket`");
}

#[test]
fn writes_remmina_profile() {
    assert_eq!(
        remmina_profile(100, "win11-dev", 5901, "PVEVNC:abc"),
        "[remmina]\nname=Proxmox VM 100 win11-dev\nprotocol=VNC\nserver=127.0.0.1:5901\npassword=PVEVNC:abc\ndisableclipboard=0\nviewmode=1\nquality=9\ncolordepth=32\n"
    );
}

#[test]
fn recognises_generated_files_only() {
    assert!(is_generated_file_name("spice-100-1700000000000.vv"));
    assert!(is_generated_file_name("remmina-100-1.remmina"));
    assert!(!is_generated_file_name("spice-100.txt"));
    assert!(!is_generated_file_name("config.toml"));
    assert!(!is_generated_file_name("remmina-.vv"));
    assert!(!is_generated_file_name(".vv"));
}

#[test]
fn generated_paths() {
    assert_eq!(
        spice_vv_path("/tmp/pve-vm-launcher", 127, 1700000000123),
        "/tmp/pve-vm-launcher/spice-127-1700000000123.vv"
    );
    assert_eq!(
        remmina_profile_path("/tmp/pve-vm-launcher", 5, 9),
        "/tmp/pve-vm-launcher/remmina-5-9.remmina"
    );
}

#[test]
fn proxy_commands() {
    let c = spice_proxy_command("pve01", 127);
    assert_eq!(c.program, "pvesh");
    assert_eq!(
        c.args,
        vec!["create", "/nodes/pve01/qemu/127/spiceproxy", "--output-format", "json"]
    );
    assert_eq!(c.timeout_secs, 10);
    let c = vnc_proxy_command("pve01", 127);
    assert_eq!(
        c.args,
        vec!["create", "/nodes/pve01/qemu/127/vncproxy", "--websocket", "0", "--output-format", "json"]
    );
}

#[test]
fn attach_request_checks_enabled_and_viewer() {
    let mut config = Config::with_defaults("/tmp", None);
    let c = attach_request(&config, Protocol::Spice, "pve01", 1, true).unwrap();
    assert_eq!(c.args[1], "/nodes/pve01/qemu/1/spiceproxy");
    let c = attach_request(&config, Protocol::Vnc, "pve01", 1, true).unwrap();
    assert_eq!(c.args[1], "/nodes/pve01/qemu/1/vncproxy");

    let e = attach_request(&config, Protocol::Vnc, "pve01", 1, false).unwrap_err();
    assert_eq!(e.message(), "`remmina` was not found in PATH");

    config.spice.enabled = false;
    let e = attach_request(&config, Protocol::Spice, "pve01", 1, true).unwrap_err();
    assert!(matches!(e, AttachError::Disabled(Protocol::Spice)));
    assert_eq!(e.message(), "SPICE support is disabled");
    config.vnc.enabled = false;
    let e = attach_request(&config, Protocol::Vnc, "pve01", 1, false).unwrap_err();
    assert_eq!(e.message(), "VNC support is disabled");
    assert_eq!(AttachError::VmGone(7).message(), "VM 7 is no longer in the list");
    assert_eq!(AttachError::NotRunning(7).message(), "VM 7 did not reach running state");
}

#[test]
fn viewer_arguments_follow_the_configured_ones() {
    let mut config = Config::with_defaults("/tmp", None);
    config.viewer.spice.args = vec!["--full-screen".to_string()];
    assert_eq!(
        viewer_args(Protocol::Spice, &config.viewer.spice, "/tmp/x.vv"),
        vec!["--full-screen", "/tmp/x.vv"]
    );
    assert_eq!(
        viewer_args(Protocol::Vnc, &config.viewer.vnc, "/tmp/p.remmina"),
        vec!["-c", "/tmp/p.remmina"]
    );
}

#[test]
fn sessions_remember_their_file() {
    let s = ViewerSession::started(9, Protocol::Vnc, 4242, "/tmp/p.remmina");
    assert_eq!(s.vmid, 9);
    assert_eq!(s.protocol, Protocol::Vnc);
    assert_eq!(s.process_id, 4242);
    assert_eq!(s.temp_files, vec!["/tmp/p.remmina".to_string()]);
    assert_eq!(Protocol::Auto.label(), "Auto");
    assert_eq!(Protocol::Spice.label(), "SPICE");
}

fn entry(key: &str, value: JsonScalar) -> JsonEntry {
    JsonEntry { key: key.to_string(), value }
}

fn text(v: &str) -> JsonScalar {
    JsonScalar::Text(v.to_string())
}

#[test]
fn vv_from_a_given_document() {
    let doc = JsonDocument::Object(vec![
        entry("zz", JsonScalar::Bool(true)),
        entry("password", text("pw")),
        entry("type", text("spice")),
        entry("proxy", text("p")),
        entry("host", text("h")),
        entry("tls-port", JsonScalar::Number { text: "61000".to_string(), as_u64: Some(61000) }),
        entry("aa", JsonScalar::Other),
        entry("ab", text("x\ny")),
    ]);
    assert_eq!(
        vv_from_document(doc).unwrap(),
        "[virt-viewer]\ntype=spice\nhost=h\ntls-port=61000\npassword=pw\nproxy=p\nab=x\\ny\nzz=1\n"
    );
    assert!(matches!(vv_from_document(JsonDocument::NotObject), Err(SpiceError::NotObject)));
    let missing = vv_from_document(JsonDocument::Object(vec![entry("type", text("spice"))])).unwrap_err();
    assert_eq!(missing.message(), "spiceproxy JSON output did not include `host`");
}

#[test]
fn connection_from_a_given_document() {
    let doc = JsonDocument::Object(vec![
        entry("ticket", text("PVEVNC:t")),
        entry("port", JsonScalar::Number { text: "5900".to_string(), as_u64: Some(5900) }),
    ]);
    assert_eq!(connection_from_document(doc).unwrap(), (5900, "PVEVNC:t".to_string()));
    assert_eq!(connection_from_document(JsonDocument::NotObject).unwrap_err(), VncError::MissingPort);
    let negative = JsonDocument::Object(vec![
        entry("port", JsonScalar::Number { text: "-1".to_string(), as_u64: None }),
        entry("ticket", text("t")),
    ]);
    assert_eq!(connection_from_document(negative).unwrap_err(), VncError::MissingPort);
    let bad_ticket = JsonDocument::Object(vec![
        entry("port", JsonScalar::Number { text: "1".to_string(), as_u64: Some(1) }),
        entry("ticket", text("a\rb")),
    ]);
    assert_eq!(connection_from_document(bad_ticket).unwrap_err(), VncError::TicketNewline);
}
