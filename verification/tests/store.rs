use nixos_core::clock::Timestamp;
use nixos_core::command::CommandOutcome;
use nixos_core::fs_model::{FileData, FsState};
use nixos_core::errors::CoreError;
use nixos_core::store::{backup_path, default_config_path, stage_path, NixosConfig};

fn ok_outcome() -> CommandOutcome {
    CommandOutcome { succeeded: true, stdout: Vec::new(), stderr: Vec::new(), exit_code: 0 }
}

fn file(content: &[u8]) -> FileData {
    FileData { content: content.to_vec(), uid: 1000, gid: 100, mode: 0o644, mtime: 7 }
}

const VALID: &[u8] = b"{ system.stateVersion = \"24.05\"; }";
const INVALID: &[u8] = b"{ nothing = true; }";

#[test]
fn save_then_read_round_trips() {
    let mut fs = FsState::new();
    let target = default_config_path();
    fs.write_file(&target, file(b"old contents"));
    let r = NixosConfig::save(&mut fs, VALID, &target, 42, &ok_outcome(), None, 1000, 100, 0o600, 9);
    assert!(r.is_ok());
    let config = NixosConfig::read(&fs, b"/home/op").unwrap();
    assert_eq!(config.content, VALID.to_vec());
    assert_eq!(config.path, target);
    assert!(!config.is_flake);
}

#[test]
fn save_rejects_invalid_text_and_leaves_target() {
    let mut fs = FsState::new();
    let target = default_config_path();
    fs.write_file(&target, file(b"old contents"));
    let r = NixosConfig::save(&mut fs, INVALID, &target, 42, &ok_outcome(), None, 1000, 100, 0o600, 9);
    match r {
        Err(CoreError::InvalidConfiguration(errors)) => {
            assert!(!errors.is_empty());
        },
        _ => panic!("expected the invalidity gate to reject the save"),
    }
    let config = NixosConfig::read(&fs, b"/home/op").unwrap();
    assert_eq!(config.content, b"old contents".to_vec());
    assert!(!fs.contains_path(&stage_path(&target, 42)));
}

#[test]
fn interrupted_save_leaves_target_untouched() {
    let mut fs = FsState::new();
    let target = default_config_path();
    fs.write_file(&target, file(b"old contents"));
    // Stage, then simulate an interruption: no commit, only cleanup.
    let staged = NixosConfig::save_stage(&mut fs, VALID, &target, 7, 1000, 100, 0o600, 9);
    assert!(fs.contains_path(&staged));
    let during = NixosConfig::read(&fs, b"/home/op").unwrap();
    assert_eq!(during.content, b"old contents".to_vec());
    NixosConfig::save_cleanup(&mut fs, &target, 7);
    assert!(!fs.contains_path(&staged));
    let after = NixosConfig::read(&fs, b"/home/op").unwrap();
    assert_eq!(after.content, b"old contents".to_vec());
}

#[test]
fn committed_save_sets_mode_0644() {
    let mut fs = FsState::new();
    let target = default_config_path();
    let r = NixosConfig::save(&mut fs, VALID, &target, 1, &ok_outcome(), None, 1000, 100, 0o600, 9);
    assert!(r.is_ok());
    let data = fs.read_file(&target).unwrap();
    assert_eq!(data.mode, 0o644);
    assert_eq!(data.content, VALID.to_vec());
}

#[test]
fn read_prefers_flake_over_legacy() {
    let mut fs = FsState::new();
    fs.write_file(b"/etc/nixos/configuration.nix", file(b"legacy"));
    fs.write_file(b"/etc/nixos/flake.nix", file(b"flake"));
    let config = NixosConfig::read(&fs, b"/home/op").unwrap();
    assert_eq!(config.content, b"flake".to_vec());
    assert!(config.is_flake);
}

#[test]
fn read_falls_back_to_user_path() {
    let mut fs = FsState::new();
    fs.write_file(b"/home/op/.config/nixos/configuration.nix", file(b"user config"));
    let config = NixosConfig::read(&fs, b"/home/op").unwrap();
    assert_eq!(config.content, b"user config".to_vec());
    assert!(!config.is_flake);
}

#[test]
fn read_without_any_configuration_is_not_found() {
    let fs = FsState::new();
    assert!(matches!(NixosConfig::read(&fs, b"/home/op"), Err(CoreError::NotFound)));
}

#[test]
fn stage_path_is_target_with_token_suffix() {
    assert_eq!(stage_path(b"/etc/nixos/configuration.nix", 35), b"/etc/nixos/configuration.nix.tmp.35".to_vec());
}

#[test]
fn backup_names_are_fixed_width_and_sortable() {
    let earlier = Timestamp { year: 2024, month: 9, day: 30, hour: 23, minute: 59, second: 59 };
    let later = Timestamp { year: 2024, month: 10, day: 1, hour: 0, minute: 0, second: 0 };
    let a = backup_path(&earlier);
    let b = backup_path(&later);
    assert_eq!(a, b"/etc/nixos/backups/configuration_20240930_235959.nix".to_vec());
    assert_eq!(b, b"/etc/nixos/backups/configuration_20241001_000000.nix".to_vec());
    assert!(a < b);
}

#[test]
fn create_backup_snapshots_active_configuration() {
    let mut fs = FsState::new();
    fs.write_file(b"/etc/nixos/configuration.nix", file(b"live config"));
    let ts = Timestamp { year: 2024, month: 5, day: 2, hour: 3, minute: 4, second: 5 };
    let path = NixosConfig::create_backup(&mut fs, b"/home/op", &ts, 1000, 100, 11).unwrap();
    assert_eq!(path, b"/etc/nixos/backups/configuration_20240502_030405.nix".to_vec());
    let snapshot = fs.read_file(&path).unwrap();
    assert_eq!(snapshot.content, b"live config".to_vec());
}

#[test]
fn create_backup_without_configuration_fails() {
    let mut fs = FsState::new();
    let ts = Timestamp { year: 2024, month: 5, day: 2, hour: 3, minute: 4, second: 5 };
    let r = NixosConfig::create_backup(&mut fs, b"/home/op", &ts, 1000, 100, 11);
    assert!(matches!(r, Err(CoreError::BackupFailed)));
}
