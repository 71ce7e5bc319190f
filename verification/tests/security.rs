use nixos_core::api::{check_permission, get_sacred_warning, get_success_message,
    requires_confirmation, SacredPause};
use nixos_core::command::{command_result_from_outcome, is_allowed_program, nix_command_plan,
    nix_invocation_plan, CommandOutcome, NixCommand, Operation};
use nixos_core::errors::CoreError;
use nixos_core::security::{contains_dangerous_pattern, is_valid_package_name, validate_command,
    Permission};

#[test]
fn permission_descriptions_are_fixed() {
    assert_eq!(Permission::ReadConfig.description(), "Read NixOS configuration files");
    assert_eq!(Permission::RebuildSystem.description(), "Rebuild and switch NixOS system");
}

#[test]
fn elevation_requiring_permissions() {
    assert!(Permission::WriteConfig.requires_sudo());
    assert!(Permission::RebuildSystem.requires_sudo());
    assert!(Permission::ManagePackages.requires_sudo());
    assert!(Permission::ManageServices.requires_sudo());
    assert!(Permission::ModifySystemSettings.requires_sudo());
    assert!(!Permission::ReadConfig.requires_sudo());
    assert!(!Permission::ValidateConfig.requires_sudo());
    assert!(!Permission::ViewSystemInfo.requires_sudo());
}

#[test]
fn dangerous_patterns_are_detected() {
    for bad in [
        b"..".as_slice(),
        b"a$(b)".as_slice(),
        b"${HOME}".as_slice(),
        b"`ls`".as_slice(),
        b"a&&b".as_slice(),
        b"a||b".as_slice(),
        b"a;b".as_slice(),
        b"a|b".as_slice(),
        b"a>b".as_slice(),
        b"a<b".as_slice(),
    ] {
        assert!(contains_dangerous_pattern(bad));
    }
    assert!(!contains_dangerous_pattern(b"ripgrep-14.1.0"));
}

#[test]
fn package_names_are_letters_digits_and_separators() {
    assert!(is_valid_package_name(b"ripgrep"));
    assert!(is_valid_package_name(b"gcc_12.2-dev"));
    assert!(!is_valid_package_name(b"bad name"));
    assert!(!is_valid_package_name(b"bad!"));
}

fn cmd(operation: Operation, args: &[&[u8]]) -> NixCommand {
    NixCommand { operation, args: args.iter().map(|a| a.to_vec()).collect() }
}

#[test]
fn safe_commands_pass_validation() {
    assert!(validate_command(&cmd(Operation::Install, &[b"ripgrep"])).is_ok());
    assert!(validate_command(&cmd(Operation::Search, &[b"editor"])).is_ok());
}

#[test]
fn dangerous_arguments_are_rejected() {
    let r = validate_command(&cmd(Operation::Search, &[b"x; rm"]));
    assert!(matches!(r, Err(CoreError::InvalidIdentifier)));
}

#[test]
fn bad_package_names_are_rejected_for_package_operations() {
    let r = validate_command(&cmd(Operation::Install, &[b"bad name"]));
    assert!(matches!(r, Err(CoreError::InvalidIdentifier)));
}

#[test]
fn rollback_updates_need_explicit_confirmation() {
    let r = validate_command(&cmd(Operation::Update, &[b"--rollback"]));
    match r {
        Err(CoreError::InvalidOperation(arg)) => assert_eq!(arg, b"--rollback".to_vec()),
        _ => panic!("expected the rollback refusal to carry the argument"),
    }
}

#[test]
fn program_allow_list_is_enforced() {
    assert!(is_allowed_program(b"nix"));
    assert!(is_allowed_program(b"systemctl"));
    assert!(!is_allowed_program(b"bash"));
    let r = nix_invocation_plan(b"bash", Vec::new(), false);
    assert!(matches!(r, Err(CoreError::InvalidIdentifier)));
}

#[test]
fn dry_run_flag_is_appended() {
    let plan = nix_invocation_plan(b"nix", vec![b"build".to_vec()], true).unwrap();
    assert_eq!(plan.args, vec![b"build".to_vec(), b"--dry-run".to_vec()]);
}

#[test]
fn operation_plans_map_to_programs() {
    let plan = nix_command_plan(cmd(Operation::Install, &[b"ripgrep"]));
    assert_eq!(plan.program, b"nix-env".to_vec());
    assert_eq!(plan.args, vec![b"-iA".to_vec(), b"ripgrep".to_vec()]);
    let plan = nix_command_plan(cmd(Operation::Update, &[]));
    assert_eq!(plan.program, b"nixos-rebuild".to_vec());
    assert_eq!(plan.args, vec![b"switch".to_vec()]);
}

#[test]
fn command_results_carry_diagnostics_only_on_failure() {
    let ok = command_result_from_outcome(CommandOutcome {
        succeeded: true,
        stdout: b"fine".to_vec(),
        stderr: b"noise".to_vec(),
        exit_code: 0,
    });
    assert!(ok.success);
    assert_eq!(ok.output, b"fine".to_vec());
    assert!(ok.error.is_none());
    let bad = command_result_from_outcome(CommandOutcome {
        succeeded: false,
        stdout: b"partial".to_vec(),
        stderr: b"broken".to_vec(),
        exit_code: 1,
    });
    assert!(!bad.success);
    assert_eq!(bad.error, Some(b"broken".to_vec()));
}

#[test]
fn required_success_returns_stdout_or_diagnostics() {
    let ok = nixos_core::command::require_success(CommandOutcome {
        succeeded: true,
        stdout: b"listing".to_vec(),
        stderr: Vec::new(),
        exit_code: 0,
    });
    assert_eq!(ok.unwrap(), b"listing".to_vec());
    let bad = nixos_core::command::require_success(CommandOutcome {
        succeeded: false,
        stdout: Vec::new(),
        stderr: b"broken pipe".to_vec(),
        exit_code: 1,
    });
    match bad {
        Err(CoreError::SubprocessFailed { stderr, .. }) => {
            assert_eq!(stderr, b"broken pipe".to_vec());
        },
        _ => panic!("expected the diagnostics to be carried"),
    }
}

#[test]
fn disruptive_actions_need_confirmation() {
    assert!(requires_confirmation(b"shutdown", None));
    assert!(requires_confirmation(b"reboot", Some(false)));
    assert!(!requires_confirmation(b"reboot", Some(true)));
    assert!(!requires_confirmation(b"search", None));
}

#[test]
fn warnings_and_success_messages_are_fixed() {
    assert_eq!(
        get_sacred_warning(b"shutdown"),
        "This will turn off your computer. All unsaved work will be lost."
    );
    assert_eq!(get_sacred_warning(b"elsewise"), "This action requires careful consideration.");
    assert_eq!(get_success_message(b"install"), "Package installed successfully");
    assert_eq!(get_success_message(b"elsewise"), "Command completed successfully");
}

#[test]
fn permission_gate_checks_the_granted_set() {
    let granted = vec![Permission::ReadConfig, Permission::ViewSystemInfo];
    assert!(check_permission(&granted, Permission::ReadConfig));
    assert!(!check_permission(&granted, Permission::RebuildSystem));
    assert!(!check_permission(&Vec::new(), Permission::ReadConfig));
}

#[test]
fn pauses_carry_length_appropriate_messages() {
    let short = SacredPause::build(None);
    assert_eq!(short.duration_seconds, 30);
    assert_eq!(short.message, Some(b"Take a breath. You are here now.".to_vec()));
    assert_eq!(short.breathing_rhythm, Some(b"4-7-8".to_vec()));
    let long = SacredPause::build(Some(300));
    assert_eq!(long.message, Some(b"Extended pause. Honor this time.".to_vec()));
}
