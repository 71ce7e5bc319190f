use nixos_core::command::{final_argv, CommandOutcome};
use nixos_core::errors::{CoreError, FailureClass};
use nixos_core::rebuild::{classify_failure, is_buffered, parse_operation, rebuild_env,
    rebuild_operation, rebuild_outcome, rebuild_plan, requires_elevation, RebuildOperation};

fn outcome(succeeded: bool, stdout: &[u8], stderr: &[u8]) -> CommandOutcome {
    CommandOutcome {
        succeeded,
        stdout: stdout.to_vec(),
        stderr: stderr.to_vec(),
        exit_code: if succeeded { 0 } else { 1 },
    }
}

fn contains(haystack: &[u8], needle: &[u8]) -> bool {
    haystack.windows(needle.len()).any(|w| w == needle)
}

#[test]
fn operation_names_parse_and_reject() {
    assert_eq!(parse_operation(b"switch"), Some(RebuildOperation::Switch));
    assert_eq!(parse_operation(b"boot"), Some(RebuildOperation::Boot));
    assert_eq!(parse_operation(b"test"), Some(RebuildOperation::Test));
    assert_eq!(parse_operation(b"dry-build"), Some(RebuildOperation::DryBuild));
    assert_eq!(parse_operation(b"dry-run"), Some(RebuildOperation::DryRun));
    assert_eq!(parse_operation(b"build"), Some(RebuildOperation::Build));
    assert_eq!(parse_operation(b"reinstall"), None);
    assert!(matches!(rebuild_operation(b"boot"), Ok(RebuildOperation::Boot)));
    match rebuild_operation(b"reinstall") {
        Err(CoreError::InvalidOperation(name)) => assert_eq!(name, b"reinstall".to_vec()),
        _ => panic!("expected the refusal to carry the rejected name"),
    }
}

#[test]
fn only_activating_operations_need_elevation() {
    assert!(requires_elevation(RebuildOperation::Switch));
    assert!(requires_elevation(RebuildOperation::Boot));
    assert!(!requires_elevation(RebuildOperation::Test));
    assert!(!requires_elevation(RebuildOperation::DryBuild));
    assert!(!requires_elevation(RebuildOperation::DryRun));
    assert!(!requires_elevation(RebuildOperation::Build));
}

#[test]
fn only_dry_operations_are_buffered() {
    assert!(is_buffered(RebuildOperation::DryBuild));
    assert!(is_buffered(RebuildOperation::DryRun));
    assert!(!is_buffered(RebuildOperation::Switch));
    assert!(!is_buffered(RebuildOperation::Build));
}

#[test]
fn dry_build_never_invokes_the_elevation_wrapper() {
    let plan = rebuild_plan(RebuildOperation::DryBuild, None, false);
    assert!(!plan.needs_elevation);
    assert!(!plan.streaming);
    let (program, args) = final_argv(plan);
    assert_eq!(program, b"nixos-rebuild".to_vec());
    assert_eq!(args[0], b"dry-build".to_vec());
}

#[test]
fn dry_build_success_reports_dry_run_results() {
    let r = rebuild_outcome(
        RebuildOperation::DryBuild,
        outcome(true, b"these derivations will be built", b""),
    );
    let msg = r.unwrap();
    assert!(contains(&msg, b"=== Dry Run Results ==="));
    assert!(contains(&msg, b"these derivations will be built"));
}

#[test]
fn switch_plan_is_elevated_and_streams() {
    let plan = rebuild_plan(RebuildOperation::Switch, None, true);
    assert!(plan.needs_elevation);
    assert!(plan.streaming);
    let expected: Vec<Vec<u8>> = vec![
        b"switch".to_vec(),
        b"-v".to_vec(),
        b"--show-trace".to_vec(),
        b"--option".to_vec(),
        b"build-cores".to_vec(),
        b"0".to_vec(),
        b"--option".to_vec(),
        b"max-jobs".to_vec(),
        b"auto".to_vec(),
    ];
    assert_eq!(plan.args, expected);
    let (program, args) = final_argv(plan);
    assert_eq!(program, b"sudo".to_vec());
    assert_eq!(args[0], b"nixos-rebuild".to_vec());
    assert_eq!(args[1], b"switch".to_vec());
}

#[test]
fn flake_reference_is_passed_through() {
    let plan = rebuild_plan(RebuildOperation::Build, Some(b".#host"), false);
    assert_eq!(plan.args[0], b"build".to_vec());
    assert_eq!(plan.args[1], b"--flake".to_vec());
    assert_eq!(plan.args[2], b".#host".to_vec());
}

#[test]
fn rebuild_environment_disables_the_pager() {
    let env = rebuild_env();
    assert_eq!(env[0], (b"NIX_PAGER".to_vec(), b"".to_vec()));
    assert_eq!(env[1], (b"NO_COLOR".to_vec(), b"0".to_vec()));
}

#[test]
fn failure_heuristics_apply_in_order() {
    assert_eq!(
        classify_failure(b"error: permission denied while writing"),
        FailureClass::PermissionDenied
    );
    assert_eq!(
        classify_failure(b"build of '/nix/store/x.drv' failed"),
        FailureClass::BuildFailure
    );
    assert_eq!(classify_failure(b"compiler ran out of memory"), FailureClass::OutOfMemory);
    assert_eq!(classify_failure(b"something else entirely"), FailureClass::Generic);
    // Permission refusal wins even when a build also failed.
    assert_eq!(
        classify_failure(b"build of x failed: permission denied"),
        FailureClass::PermissionDenied
    );
}

#[test]
fn failed_rebuild_carries_classification_and_raw_stderr() {
    let r = rebuild_outcome(
        RebuildOperation::Switch,
        outcome(false, b"", b"error: permission denied"),
    );
    match r {
        Err(CoreError::SubprocessFailed { class, stderr }) => {
            assert_eq!(class, FailureClass::PermissionDenied);
            assert_eq!(stderr, b"error: permission denied".to_vec());
        },
        _ => panic!("expected a classified failure"),
    }
}

#[test]
fn successful_switch_reports_activation() {
    let r = rebuild_outcome(RebuildOperation::Switch, outcome(true, b"done", b""));
    let msg = r.unwrap();
    assert!(contains(&msg, b"System configuration switched! Changes are now active."));
    assert!(contains(&msg, b"=== Build Output ==="));
    assert!(contains(&msg, b"done"));
}
