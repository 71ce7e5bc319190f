use nixos_core::command::CommandOutcome;
use nixos_core::validation::{validation_temp_path, ValidationResult};

fn ok_outcome() -> CommandOutcome {
    CommandOutcome { succeeded: true, stdout: Vec::new(), stderr: Vec::new(), exit_code: 0 }
}

fn failed_outcome(stderr: &[u8]) -> CommandOutcome {
    CommandOutcome { succeeded: false, stdout: Vec::new(), stderr: stderr.to_vec(), exit_code: 1 }
}

fn validate(text: &[u8]) -> ValidationResult {
    ValidationResult::from_outcomes(text, &ok_outcome(), None)
}

#[test]
fn minimal_state_version_text_is_valid() {
    let r = validate(b"{ system.stateVersion = \"24.05\"; }");
    assert!(r.is_valid);
    assert_eq!(r.errors.len(), 0);
    assert!(r.suggestions.len() >= 1);
}

#[test]
fn firewall_suggestion_present_without_firewall() {
    let r = validate(b"{ system.stateVersion = \"24.05\"; }");
    let expected: Vec<u8> =
        b"No firewall configuration detected - consider enabling with networking.firewall.enable"
            .to_vec();
    assert!(r.suggestions.contains(&expected));
}

#[test]
fn hardcoded_password_invalidates() {
    let r = validate(b"{ system.stateVersion = \"24.05\"; password = \"hunter2\"; }");
    assert!(!r.is_valid);
    let expected: Vec<u8> =
        b"Detected hardcoded password - use hashedPassword or passwordFile instead".to_vec();
    assert!(r.errors.contains(&expected));
}

#[test]
fn empty_hashed_password_invalidates() {
    let r = validate(b"{ system.stateVersion = \"24.05\"; hashedPassword = \"\"; }");
    assert!(!r.is_valid);
}

#[test]
fn missing_state_version_invalidates() {
    let r = validate(b"{ }");
    assert!(!r.is_valid);
    let expected: Vec<u8> =
        b"Missing system.stateVersion - this is essential for system stability".to_vec();
    assert!(r.errors.contains(&expected));
}

#[test]
fn validation_is_deterministic() {
    let text: &[u8] = b"{ system.stateVersion = \"24.05\"; boot.loader.grub.enable = true; }";
    let a = validate(text);
    let b = validate(text);
    assert_eq!(a.is_valid, b.is_valid);
    assert_eq!(a.errors, b.errors);
    assert_eq!(a.warnings, b.warnings);
    assert_eq!(a.suggestions, b.suggestions);
}

#[test]
fn is_valid_tracks_error_list() {
    for text in [
        b"{ system.stateVersion = \"24.05\"; }".as_slice(),
        b"{ }".as_slice(),
        b"{ password = \"x\"; }".as_slice(),
    ] {
        let r = validate(text);
        assert_eq!(r.is_valid, r.errors.is_empty());
    }
}

#[test]
fn syntax_failure_records_trimmed_stderr() {
    let r = ValidationResult::from_outcomes(
        b"{ system.stateVersion = \"24.05\"; }",
        &failed_outcome(b"  error: unexpected token\n"),
        None,
    );
    assert!(!r.is_valid);
    let expected: Vec<u8> = b"Syntax error: error: unexpected token".to_vec();
    assert!(r.errors.contains(&expected));
}

#[test]
fn eval_failure_is_only_a_warning() {
    let eval = failed_outcome(b"error: attribute missing\n");
    let r = ValidationResult::from_outcomes(
        b"{ system.stateVersion = \"24.05\"; }",
        &ok_outcome(),
        Some(&eval),
    );
    assert!(r.is_valid);
    let expected: Vec<u8> = b"Evaluation warning: error: attribute missing".to_vec();
    assert!(r.warnings.contains(&expected));
}

#[test]
fn eval_skipped_after_syntax_failure() {
    let eval = failed_outcome(b"error: whatever\n");
    let r = ValidationResult::from_outcomes(
        b"{ system.stateVersion = \"24.05\"; }",
        &failed_outcome(b"bad"),
        Some(&eval),
    );
    assert!(r.warnings.iter().all(|w| !w.starts_with(b"Evaluation warning:")));
}

#[test]
fn experimental_features_warn_without_invalidating() {
    let r = validate(
        b"{ system.stateVersion = \"24.05\"; nix.settings.experimental-features = [ \"nix-command\" ]; }",
    );
    assert!(r.is_valid);
    let expected: Vec<u8> =
        b"Using experimental Nix features - these may change in future releases".to_vec();
    assert!(r.warnings.contains(&expected));
}

#[test]
fn temp_paths_differ_by_token() {
    let a = validation_temp_path(1);
    let b = validation_temp_path(2);
    assert_ne!(a, b);
    assert_eq!(a, b"/tmp/nixos-validate-1.nix".to_vec());
    assert_eq!(validation_temp_path(907), b"/tmp/nixos-validate-907.nix".to_vec());
}
