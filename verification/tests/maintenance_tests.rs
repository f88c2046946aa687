use halvor::maintenance::{
    backup_dir, backup_metadata, backup_patterns, binary_paths, bind_mount_archive, bind_mount_backup_command,
    confirms, format_stamp, log_problems, needs_sudo, network_controller_failure, read_service_status,
    stamped_name, uninstall_is_remote, user_in_docker_group, volumes_to_restore, ServiceState,
};

fn s(x: &str) -> String {
    x.to_string()
}

#[test]
fn service_status_and_logs() {
    assert_eq!(read_service_status("Loaded: enabled\nActive: active (running)"), (ServiceState::Active, true));
    assert_eq!(read_service_status("Active: failed"), (ServiceState::Failed, false));
    assert_eq!(read_service_status("Active: inactive (dead)"), (ServiceState::Inactive, false));
    assert_eq!(read_service_status(""), (ServiceState::Unknown, false));
    let logs = "ok line\n  ERROR: boom  \nFailed to start\nfine\n";
    assert_eq!(log_problems(logs), vec![s("ERROR: boom"), s("Failed to start")]);
    assert!(network_controller_failure("Error initializing Network Controller"));
    assert!(!network_controller_failure("all good"));
}

#[test]
fn docker_group_membership() {
    let groups = "root:x:0:\ndocker:x:999:alice,bob\n";
    assert_eq!(user_in_docker_group(groups, "bob"), Some(true));
    assert_eq!(user_in_docker_group(groups, "carol"), Some(false));
    assert_eq!(user_in_docker_group("root:x:0:\n", "bob"), None);
}

#[test]
fn uninstall_lists() {
    let b = binary_paths("/home/me");
    assert_eq!(b.len(), 8);
    assert_eq!(b[0], "/home/me/.cargo/bin/hal");
    assert_eq!(b[7], "/usr/bin/halvor");
    assert_eq!(backup_patterns("/h")[3], "/h/.local/bin/halvor*.bak");
    assert!(needs_sudo("/usr/bin/hal"));
    assert!(!needs_sudo("/home/me/.local/bin/hal"));
    assert!(confirms(" Yes\n"));
    assert!(!confirms("n"));
    assert!(uninstall_is_remote(Some("frigg")));
    assert!(!uninstall_is_remote(Some("localhost")));
    assert!(!uninstall_is_remote(None));
}

#[test]
fn backup_names_and_commands() {
    let stamp = format_stamp(2024, 3, 7, 9, 5, 0);
    assert_eq!(stamp, "20240307_090500");
    assert_eq!(stamped_name(".env.backup_", &stamp, ""), ".env.backup_20240307_090500");
    assert_eq!(stamped_name("halvor_backup_", &stamp, ".db"), "halvor_backup_20240307_090500.db");
    assert_eq!(backup_dir("/mnt/b", &stamp), "/mnt/b/20240307_090500");
    assert_eq!(bind_mount_archive("web", "/srv/data/html"), "web_html");
    assert_eq!(
        bind_mount_backup_command(false, "/srv/x", "/mnt/b/1", "web_x"),
        "docker run --rm -v /srv/x:/data:ro -v /mnt/b/1:/backup alpine tar czf /backup/web_x.tar.gz -C /data ."
    );
    assert!(bind_mount_backup_command(true, "/a", "/b", "c").starts_with("sudo docker run"));
    assert_eq!(
        backup_metadata("frigg", "20240307_090500", "2024-03-07 09:05:00 UTC", &vec![s("v1"), s("v2")]),
        "Host: frigg\nTimestamp: 20240307_090500\nDate: 2024-03-07 09:05:00 UTC\nVolume Count: 2\nVolumes:\n  - v1\n  - v2"
    );
}

#[test]
fn volumes_from_archive_listing() {
    let listing = "/b/1/portainer_data.tar.gz\n\n/b/1/notes.txt\n/b/1/.tar.gz\n/b/1/x.tar.gz.tar.gz\n";
    assert_eq!(volumes_to_restore(listing), vec![s("portainer_data"), s("x")]);
}
