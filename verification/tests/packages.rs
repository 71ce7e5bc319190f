use nixos_core::command::CommandOutcome;
use nixos_core::errors::CoreError;
use nixos_core::packages::{name_from_attr_path, packages_from_entries, search_result,
    sort_packages, InstalledEntry, Package, PackageManager, SearchEntry};

fn entry(attr: &[u8], version: Option<&[u8]>) -> SearchEntry {
    SearchEntry {
        attr_path: attr.to_vec(),
        version: version.map(|v| v.to_vec()),
        description: None,
    }
}

fn outcome(succeeded: bool, stdout: &[u8], stderr: &[u8]) -> CommandOutcome {
    CommandOutcome {
        succeeded,
        stdout: stdout.to_vec(),
        stderr: stderr.to_vec(),
        exit_code: if succeeded { 0 } else { 1 },
    }
}

#[test]
fn attribute_paths_reduce_to_their_last_segment() {
    assert_eq!(name_from_attr_path(b"legacyPackages.x86_64-linux.ripgrep"), b"ripgrep".to_vec());
    assert_eq!(name_from_attr_path(b"plain"), b"plain".to_vec());
}

#[test]
fn search_entries_become_packages_with_installed_flags() {
    let entries = vec![
        entry(b"nixpkgs.ripgrep", Some(b"14.1.0")),
        entry(b"nixpkgs.fd", None),
    ];
    let installed = vec![b"fd".to_vec()];
    let pkgs = packages_from_entries(&entries, &installed);
    assert_eq!(pkgs.len(), 2);
    assert_eq!(pkgs[0].name, b"ripgrep".to_vec());
    assert_eq!(pkgs[0].version, b"14.1.0".to_vec());
    assert!(!pkgs[0].installed);
    assert_eq!(pkgs[1].name, b"fd".to_vec());
    assert_eq!(pkgs[1].version, b"unknown".to_vec());
    assert!(pkgs[1].installed);
    assert_eq!(pkgs[1].channel, Some(b"nixpkgs".to_vec()));
}

fn bare(name: &[u8], installed: bool) -> Package {
    Package {
        name: name.to_vec(),
        version: b"1".to_vec(),
        description: None,
        installed,
        channel: None,
    }
}

#[test]
fn sorting_puts_installed_first_then_alphabetical() {
    let v = vec![
        bare(b"zsh", false),
        bare(b"bat", false),
        bare(b"ripgrep", true),
        bare(b"fd", true),
    ];
    let sorted = sort_packages(v);
    let names: Vec<Vec<u8>> = sorted.iter().map(|p| p.name.clone()).collect();
    assert_eq!(
        names,
        vec![b"fd".to_vec(), b"ripgrep".to_vec(), b"bat".to_vec(), b"zsh".to_vec()]
    );
}

#[test]
fn truncation_happens_after_sorting() {
    let entries = vec![
        entry(b"p.zsh", None),
        entry(b"p.bat", None),
        entry(b"p.ripgrep", None),
    ];
    let installed = vec![b"ripgrep".to_vec()];
    let r = search_result(&entries, &installed, Some(2), 5);
    assert_eq!(r.total_count, 3);
    assert_eq!(r.search_time_ms, 5);
    assert_eq!(r.packages.len(), 2);
    // The installed match survives the cap even though it sorts last by name.
    assert_eq!(r.packages[0].name, b"ripgrep".to_vec());
    assert_eq!(r.packages[1].name, b"bat".to_vec());
}

#[test]
fn install_plan_addresses_the_index() {
    let plan = PackageManager::install_plan(b"ripgrep", false).unwrap();
    assert_eq!(plan.program, b"nix-env".to_vec());
    assert_eq!(plan.args, vec![b"-iA".to_vec(), b"nixpkgs.ripgrep".to_vec()]);
    let flake = PackageManager::install_plan(b"ripgrep", true).unwrap();
    assert_eq!(flake.args, vec![b"-iA".to_vec(), b"nixpkgs#ripgrep".to_vec()]);
}

#[test]
fn bad_identifiers_are_refused() {
    assert!(matches!(
        PackageManager::install_plan(b"", false),
        Err(CoreError::InvalidIdentifier)
    ));
    assert!(matches!(
        PackageManager::install_plan(b"a;b", false),
        Err(CoreError::InvalidIdentifier)
    ));
    assert!(matches!(
        PackageManager::install_plan(b"a&b", false),
        Err(CoreError::InvalidIdentifier)
    ));
    for bad in [b"a|b".as_slice(), b"a/b".as_slice(), b"a..b".as_slice(), b"a$b".as_slice()] {
        assert!(matches!(
            PackageManager::install_plan(bad, false),
            Err(CoreError::InvalidIdentifier)
        ));
    }
}

#[test]
fn removing_a_package_that_is_not_installed_fails() {
    let installed = vec![b"ripgrep".to_vec()];
    match PackageManager::remove_plan(b"zsh", &installed) {
        Err(CoreError::PackageNotInstalled(name)) => assert_eq!(name, b"zsh".to_vec()),
        _ => panic!("expected the refusal to carry the package name"),
    }
    let plan = PackageManager::remove_plan(b"ripgrep", &installed).unwrap();
    assert_eq!(plan.args, vec![b"-e".to_vec(), b"ripgrep".to_vec()]);
}

#[test]
fn install_outcome_reports_permission_denial() {
    let r = PackageManager::install_outcome(b"rg", outcome(false, b"", b"permission denied"));
    assert!(matches!(r, Err(CoreError::PermissionDenied)));
    let ok = PackageManager::install_outcome(b"rg", outcome(true, b"built", b"")).unwrap();
    assert_eq!(ok, b"Package 'rg' installed successfully\n\nbuilt".to_vec());
}

#[test]
fn names_listing_splits_nonempty_lines() {
    let names = PackageManager::package_names_from_listing(b"ripgrep\n\nfd\n");
    assert_eq!(names, vec![b"ripgrep".to_vec(), b"fd".to_vec()]);
}

#[test]
fn installed_listing_sorts_alphabetically() {
    let entries = vec![
        InstalledEntry { name: Some(b"zsh".to_vec()), version: None, description: None },
        InstalledEntry { name: None, version: Some(b"9".to_vec()), description: None },
        InstalledEntry {
            name: Some(b"bat".to_vec()),
            version: Some(b"0.24".to_vec()),
            description: Some(b"cat clone".to_vec()),
        },
    ];
    let pkgs = PackageManager::list_installed_result(entries);
    assert_eq!(pkgs.len(), 2);
    assert_eq!(pkgs[0].name, b"bat".to_vec());
    assert_eq!(pkgs[0].version, b"0.24".to_vec());
    assert_eq!(pkgs[0].channel, Some(b"user".to_vec()));
    assert!(pkgs[0].installed);
    assert_eq!(pkgs[1].name, b"zsh".to_vec());
}

#[test]
fn search_json_decodes_through_the_index_format() {
    let json = br#"{"legacyPackages.x86_64-linux.ripgrep":{"version":"14.1.0","description":"line search"}}"#;
    let entries = PackageManager::parse_search_json(json).unwrap();
    assert_eq!(entries.len(), 1);
    assert_eq!(entries[0].attr_path, b"legacyPackages.x86_64-linux.ripgrep".to_vec());
    assert_eq!(entries[0].version, Some(b"14.1.0".to_vec()));
    assert_eq!(entries[0].description, Some(b"line search".to_vec()));
    assert!(PackageManager::parse_search_json(b"not json").is_none());
    let installed: Vec<Vec<u8>> = Vec::new();
    let r = PackageManager::search_from_output(b"not json", &installed, None, 0);
    assert!(matches!(r, Err(CoreError::ParseFailed)));
    let ok = PackageManager::search_from_output(json, &installed, None, 3).unwrap();
    assert_eq!(ok.total_count, 1);
    assert_eq!(ok.packages[0].name, b"ripgrep".to_vec());
}

#[test]
fn installed_listing_from_output_is_ordered_or_parse_failed() {
    let json = br#"[{"name":"zsh"},{"name":"bat","version":"0.24"}]"#;
    let pkgs = PackageManager::list_installed_from_output(json).unwrap();
    assert_eq!(pkgs.len(), 2);
    assert_eq!(pkgs[0].name, b"bat".to_vec());
    assert_eq!(pkgs[1].name, b"zsh".to_vec());
    assert!(matches!(
        PackageManager::list_installed_from_output(b"not json"),
        Err(CoreError::ParseFailed)
    ));
}

#[test]
fn installed_json_decodes_nested_descriptions() {
    let json = br#"[{"name":"bat","version":"0.24","meta":{"description":"cat clone"}}]"#;
    let entries = PackageManager::parse_installed_json(json).unwrap();
    assert_eq!(entries.len(), 1);
    assert_eq!(entries[0].name, Some(b"bat".to_vec()));
    assert_eq!(entries[0].version, Some(b"0.24".to_vec()));
    assert_eq!(entries[0].description, Some(b"cat clone".to_vec()));
}

#[test]
fn search_plan_shape() {
    let plan = PackageManager::search_plan(b"editor");
    assert_eq!(plan.program, b"nix".to_vec());
    assert_eq!(
        plan.args,
        vec![b"search".to_vec(), b"nixpkgs".to_vec(), b"editor".to_vec(), b"--json".to_vec()]
    );
    assert!(!plan.needs_elevation);
}
