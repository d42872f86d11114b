//! Systemd unit file and systemctl command lines.

use lm_sensors_web::service::{join_path, ServiceManager};

/// The generated unit file contains all required sections.
#[test]
fn test_unit_file() {
    let u =
        ServiceManager::unit_file("/usr/bin/lm-sensors-web", "/etc/lm-sensors-web/config.json");
    assert!(u.contains("[Unit]"));
    assert!(u.contains("[Service]"));
    assert!(u.contains("[Install]"));
    assert!(u.contains("Type=simple"));
    assert!(u.contains("Restart=on-failure"));
    assert!(u.contains("WantedBy=multi-user.target"));
    assert!(u.contains("WorkingDirectory=/usr/bin"));
}

/// The unit file contains the binary and config paths.
#[test]
fn test_unit_file_paths() {
    let u = ServiceManager::unit_file("/opt/my-bin", "/etc/my-config.json");
    assert!(u.contains("ExecStart=/opt/my-bin"));
    assert!(u.contains("CONFIG_PATH=/etc/my-config.json"));
    assert!(u.contains("WorkingDirectory=/opt"));
}

#[test]
fn unit_file_exact_text() {
    let u = ServiceManager::unit_file("/opt/app/bin", "/etc/c.json");
    let expected = "[Unit]\nDescription=LM Sensors Web API Service\nAfter=network.target\n\n[Service]\nType=simple\nWorkingDirectory=/opt/app\nExecStart=/opt/app/bin\nEnvironment=RUST_LOG=info\nEnvironment=CONFIG_PATH=/etc/c.json\nRestart=on-failure\nRestartSec=5\nStandardOutput=journal\nStandardError=journal\n\n[Install]\nWantedBy=multi-user.target\n";
    assert_eq!(u, expected);
}

#[test]
fn unit_file_root_binary_runs_from_root() {
    // "/" has no parent: the working directory falls back to "/".
    let u = ServiceManager::unit_file("/", "/c");
    assert!(u.contains("WorkingDirectory=/\n"));
    let u = ServiceManager::unit_file_in("/srv", "/srv/x", "/c");
    assert!(u.contains("WorkingDirectory=/srv\nExecStart=/srv/x\n"));
}

#[test]
fn systemctl_lines() {
    assert_eq!(ServiceManager::control("start", false), vec!["start", "lm-sensors-web"]);
    assert_eq!(ServiceManager::control("restart", true), vec!["--user", "restart", "lm-sensors-web"]);
    assert_eq!(ServiceManager::status(false), vec!["status", "lm-sensors-web"]);
}

#[test]
fn unit_paths() {
    assert_eq!(
        ServiceManager::unit_path(false, &None).unwrap(),
        "/etc/systemd/system/lm-sensors-web.service"
    );
    assert_eq!(
        ServiceManager::unit_path(true, &Some("/home/u/.config".to_string())).unwrap(),
        "/home/u/.config/systemd/user/lm-sensors-web.service"
    );
    assert_eq!(
        ServiceManager::unit_path(true, &None).unwrap_err(),
        "Cannot determine user config directory"
    );
}

#[test]
fn install_plan_parts() {
    let plan = ServiceManager::install_plan("/usr/bin/x", "/etc/x.json", true, &Some("/root/".to_string()))
        .ok()
        .unwrap();
    assert_eq!(plan.unit_path, "/root/systemd/user/lm-sensors-web.service");
    assert_eq!(plan.create_dir.as_deref(), Some("/root/systemd/user"));
    assert!(plan.contents.contains("ExecStart=/usr/bin/x"));
    assert_eq!(plan.reload, vec!["--user", "daemon-reload", "lm-sensors-web"]);
    assert!(ServiceManager::install_plan("/b", "/c", true, &None).is_err());
}

#[test]
fn path_joining() {
    assert_eq!(join_path("/a", "b"), "/a/b");
    assert_eq!(join_path("/a/", "b"), "/a/b");
    assert_eq!(join_path("", "b"), "b");
    assert_eq!(join_path("/a", "/b"), "/b");
}

#[test]
fn binary_resolution() {
    assert_eq!(ServiceManager::resolve_binary(Some("/x".into()), Some("/y".into())), "/x");
    assert_eq!(ServiceManager::resolve_binary(None, Some("/y".into())), "/y");
    assert_eq!(ServiceManager::resolve_binary(None, None), "/usr/local/bin/lm-sensors-web");
}
