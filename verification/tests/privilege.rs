use nixos_core::fs_model::{FileData, FsState};
use nixos_core::privilege::{can_write_meta, needs_elevation, parent_path};

fn file(uid: u32, gid: u32, mode: u32) -> FileData {
    FileData { content: Vec::new(), uid, gid, mode, mtime: 0 }
}

#[test]
fn owner_writable_path_needs_no_elevation() {
    let mut fs = FsState::new();
    fs.write_file(b"/etc/nixos/configuration.nix", file(1000, 100, 0o644));
    assert!(!needs_elevation(&fs, b"/etc/nixos/configuration.nix", 1000, 100));
}

#[test]
fn foreign_file_without_group_or_world_write_needs_elevation() {
    let mut fs = FsState::new();
    fs.write_file(b"/etc/nixos/configuration.nix", file(0, 0, 0o644));
    assert!(needs_elevation(&fs, b"/etc/nixos/configuration.nix", 1000, 100));
}

#[test]
fn group_write_bit_counts() {
    let d = file(0, 100, 0o664);
    assert!(can_write_meta(&d, 1000, 100));
    assert!(!can_write_meta(&d, 1000, 101));
}

#[test]
fn world_write_bit_counts() {
    let d = file(0, 0, 0o646);
    assert!(can_write_meta(&d, 1000, 100));
}

#[test]
fn missing_file_defers_to_parent_directory() {
    let mut fs = FsState::new();
    fs.write_file(b"/etc/nixos", file(1000, 100, 0o755));
    assert!(!needs_elevation(&fs, b"/etc/nixos/new.nix", 1000, 100));
    let mut locked = FsState::new();
    locked.write_file(b"/etc/nixos", file(0, 0, 0o755));
    assert!(needs_elevation(&locked, b"/etc/nixos/new.nix", 1000, 100));
}

#[test]
fn missing_file_and_parent_fails_safe() {
    let fs = FsState::new();
    assert!(needs_elevation(&fs, b"/etc/nixos/new.nix", 1000, 100));
    assert!(needs_elevation(&fs, b"relative-name", 1000, 100));
}

#[test]
fn textual_parent_of_paths() {
    assert_eq!(parent_path(b"/etc/nixos/configuration.nix"), Some(b"/etc/nixos".to_vec()));
    assert_eq!(parent_path(b"/etc"), Some(b"/".to_vec()));
    assert_eq!(parent_path(b"plain"), None);
}
