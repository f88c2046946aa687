use halvor::backup_plan::{backup_start, backup_step, BackupAction, BackupEvent, BackupState, BackupStep};

fn names(v: &[&str]) -> BackupEvent {
    BackupEvent::Names(v.iter().map(|x| x.to_string()).collect())
}

fn step(s: BackupState, e: BackupEvent) -> (BackupState, BackupAction) {
    backup_step(s, e)
}

const DIR: &str = "/mnt/b/frigg/20240101_000000";

#[test]
fn a_backup_runs_every_step_in_order() {
    let (s, a) = backup_start("frigg", "/mnt/b/frigg", Some("/mnt/b"), "20240101_000000", "2024-01-01 00:00:00 UTC");
    assert_eq!(s.dir, DIR);
    assert!(matches!(&a, BackupAction::CheckDirectory(p) if p == "/mnt/b"));
    let (s, a) = step(s, BackupEvent::Answer(true));
    assert!(matches!(&a, BackupAction::CheckDirectory(p) if p == "/mnt/b/frigg"));
    let (s, a) = step(s, BackupEvent::Answer(false));
    assert!(matches!(&a, BackupAction::CreateDirectory(p) if p == "/mnt/b/frigg"));
    let (s, a) = step(s, BackupEvent::Answer(true));
    assert!(matches!(&a, BackupAction::CreateDirectory(p) if p == DIR));
    let (s, a) = step(s, BackupEvent::Answer(true));
    assert!(matches!(a, BackupAction::StopAllContainers));
    let (s, a) = step(s, names(&["web"]));
    assert!(matches!(a, BackupAction::ListVolumes));
    let (s, a) = step(s, names(&["v1", "v2"]));
    assert!(matches!(&a, BackupAction::BackupVolume { volume, dir } if volume == "v1" && dir == DIR));
    let (s, a) = step(s, BackupEvent::Answer(false));
    assert!(matches!(&a, BackupAction::BackupVolume { volume, .. } if volume == "v2"));
    let (s, a) = step(s, BackupEvent::Answer(true));
    assert!(matches!(a, BackupAction::ListContainers));
    let (s, a) = step(s, names(&["web", "db"]));
    assert!(matches!(&a, BackupAction::ReadBindMounts(c) if c == "web"));
    let (s, a) = step(s, names(&["/srv/data", "/etc/web.conf"]));
    assert!(matches!(&a, BackupAction::CheckDirectory(p) if p == "/srv/data"));
    let (s, a) = step(s, BackupEvent::Answer(true));
    let plain = format!(
        "docker run --rm -v /srv/data:/data:ro -v {}:/backup alpine tar czf /backup/web_data.tar.gz -C /data .",
        DIR
    );
    assert!(matches!(&a, BackupAction::RunShell(c) if *c == plain));
    let (s, a) = step(s, BackupEvent::Answer(false));
    assert!(matches!(&a, BackupAction::RunShell(c) if *c == format!("sudo {}", plain)));
    let (s, a) = step(s, BackupEvent::Answer(false));
    assert!(matches!(&a, BackupAction::CheckDirectory(p) if p == "/etc/web.conf"));
    let (s, a) = step(s, BackupEvent::Answer(false));
    assert!(matches!(&a, BackupAction::ReadBindMounts(c) if c == "db"));
    let (s, a) = step(s, names(&[]));
    let expected = "Host: frigg\nTimestamp: 20240101_000000\nDate: 2024-01-01 00:00:00 UTC\nVolume Count: 2\nVolumes:\n  - v1\n  - v2";
    assert!(matches!(&a, BackupAction::WriteFile { path, contents }
        if *path == format!("{}/backup-info.txt", DIR) && contents == expected));
    let (s, a) = step(s, BackupEvent::Answer(true));
    assert!(matches!(&a, BackupAction::StartContainers(v) if v == &vec!["web".to_string()]));
    let (s, a) = step(s, BackupEvent::Answer(true));
    assert!(matches!(a, BackupAction::Finish));
    assert_eq!(s.step, BackupStep::Finished);
}

#[test]
fn a_missing_mount_stops_the_backup() {
    let (s, _) = backup_start("odin", "/mnt/b/odin", Some("/mnt/b"), "s", "d");
    let (s, a) = step(s, BackupEvent::Answer(false));
    assert!(matches!(&a, BackupAction::Fail(m) if m
        == "Error: Backup base directory /mnt/b does not exist or is not mounted\nMake sure SMB mount is set up: hal smb odin setup"));
    assert_eq!(s.step, BackupStep::Finished);
}

#[test]
fn nothing_to_save_and_nothing_to_restart() {
    let (s, a) = backup_start("h", "base", None, "t", "d");
    assert!(matches!(&a, BackupAction::CheckDirectory(p) if p == "base"));
    let (s, _) = step(s, BackupEvent::Answer(true));
    let (s, _) = step(s, BackupEvent::Answer(true));
    let (s, _) = step(s, names(&[]));
    let (s, a) = step(s, names(&[]));
    assert!(matches!(a, BackupAction::ListContainers));
    let (s, a) = step(s, names(&[]));
    assert!(matches!(&a, BackupAction::WriteFile { contents, .. } if contents == "Host: h\nTimestamp: t\nDate: d\nVolume Count: 0\nVolumes:\n"));
    let (_, a) = step(s, BackupEvent::Answer(true));
    assert!(matches!(a, BackupAction::Finish));
}

#[test]
fn a_reply_of_the_wrong_kind_ends_the_backup() {
    let (s, _) = backup_start("h", "base", None, "t", "d");
    let (s, a) = step(s, names(&["x"]));
    assert!(matches!(&a, BackupAction::Fail(m) if m == "unexpected reply"));
    assert_eq!(s.step, BackupStep::Finished);
}

use halvor::backup_plan::{restore_start, restore_step, RestoreAction, RestoreStep};

#[test]
fn a_restore_stops_restores_each_archived_volume_and_restarts() {
    let (s, a) = restore_start("frigg", "/mnt/b/frigg", Some("/mnt/b"), "20240101_000000");
    assert_eq!(s.dir, DIR);
    assert!(matches!(&a, RestoreAction::CheckDirectory(p) if p == "/mnt/b"));
    let (s, a) = restore_step(s, BackupEvent::Answer(true));
    assert!(matches!(&a, RestoreAction::CheckDirectory(p) if p == "/mnt/b/frigg"));
    let (s, a) = restore_step(s, BackupEvent::Answer(true));
    assert!(matches!(&a, RestoreAction::CheckDirectory(p) if p == DIR));
    let (s, a) = restore_step(s, BackupEvent::Answer(true));
    assert!(matches!(a, RestoreAction::StopAllContainers));
    let (s, a) = restore_step(s, names(&["web", "db"]));
    assert!(matches!(&a, RestoreAction::ListArchives(d) if d == DIR));
    let listing = [
        "/mnt/b/frigg/20240101_000000/data.tar.gz",
        "",
        "/mnt/b/frigg/20240101_000000/notes.txt",
        "/mnt/b/frigg/20240101_000000/.tar.gz",
        "/mnt/b/frigg/20240101_000000/web_www.tar.gz",
    ];
    let (s, a) = restore_step(s, names(&listing));
    assert_eq!(s.volumes, vec!["data".to_string(), "web_www".to_string()]);
    assert!(matches!(&a, RestoreAction::RestoreVolume { volume, dir } if volume == "data" && dir == DIR));
    let (s, a) = restore_step(s, BackupEvent::Answer(false));
    assert!(matches!(&a, RestoreAction::RestoreVolume { volume, .. } if volume == "web_www"));
    let (s, a) = restore_step(s, BackupEvent::Answer(true));
    assert!(matches!(&a, RestoreAction::StartContainers(v) if v == &vec!["web".to_string(), "db".to_string()]));
    let (s, a) = restore_step(s, BackupEvent::Answer(true));
    assert!(matches!(a, RestoreAction::Finish));
    assert_eq!(s.step, RestoreStep::Finished);
}

#[test]
fn a_missing_backup_lists_the_available_ones() {
    let (s, _) = restore_start("odin", "/b/odin", None, "nope");
    let (s, a) = restore_step(s, BackupEvent::Answer(false));
    assert!(matches!(&a, RestoreAction::CreateDirectory(p) if p == "/b/odin"));
    let (s, a) = restore_step(s, BackupEvent::Answer(true));
    assert!(matches!(&a, RestoreAction::CheckDirectory(p) if p == "/b/odin/nope"));
    let (s, a) = restore_step(s, BackupEvent::Answer(false));
    assert!(matches!(&a, RestoreAction::ListDirectory(p) if p == "/b/odin"));
    let (_, a) = restore_step(s, names(&["20240101_000000"]));
    match a {
        RestoreAction::Fail { notes, message } => {
            assert_eq!(notes, vec![
                "Error: Backup directory does not exist: /b/odin/nope".to_string(),
                "Available backups:".to_string(),
                "  20240101_000000".to_string(),
            ]);
            assert_eq!(message, "Backup directory does not exist: /b/odin/nope");
        }
        _ => panic!("expected a failure"),
    }
    let (s, _) = restore_start("odin", "/b/odin", None, "nope");
    let (s, _) = restore_step(s, BackupEvent::Answer(true));
    let (s, _) = restore_step(s, BackupEvent::Answer(false));
    let (_, a) = restore_step(s, names(&[]));
    assert!(matches!(&a, RestoreAction::Fail { notes, .. } if notes[2] == "  (none)"));
}
