use nixos_core::errors::CoreError;
use nixos_core::services::{ServiceManager, ServiceStatus};

#[test]
fn stopping_a_critical_service_is_refused_without_any_tool_run() {
    let r = ServiceManager::stop_plan(b"systemd-journald");
    assert!(matches!(r, Err(CoreError::CriticalServiceProtected)));
}

#[test]
fn disabling_a_critical_service_is_refused() {
    let r = ServiceManager::disable_plan(b"sshd");
    assert!(matches!(r, Err(CoreError::CriticalServiceProtected)));
}

#[test]
fn stopping_an_ordinary_service_is_planned_elevated() {
    let plan = ServiceManager::stop_plan(b"nginx").unwrap();
    assert_eq!(plan.program, b"systemctl".to_vec());
    assert_eq!(plan.args, vec![b"stop".to_vec(), b"nginx".to_vec()]);
    assert!(plan.needs_elevation);
}

#[test]
fn shell_metacharacters_in_names_are_refused() {
    for name in [
        b"".as_slice(),
        b"a;b".as_slice(),
        b"a&b".as_slice(),
        b"a|b".as_slice(),
        b"a$b".as_slice(),
        b"a/b".as_slice(),
        b"a..b".as_slice(),
    ] {
        assert!(matches!(
            ServiceManager::stop_plan(name),
            Err(CoreError::InvalidIdentifier)
        ));
    }
}

#[test]
fn critical_service_policy_covers_prefix_and_scope() {
    assert!(ServiceManager::is_critical_service(b"systemd-journald"));
    assert!(ServiceManager::is_critical_service(b"systemd-whatever"));
    assert!(ServiceManager::is_critical_service(b"init.scope"));
    assert!(ServiceManager::is_critical_service(b"NetworkManager"));
    assert!(!ServiceManager::is_critical_service(b"nginx"));
}

#[test]
fn active_states_map_to_statuses() {
    assert_eq!(ServiceStatus::from_state(b"active"), ServiceStatus::Active);
    assert_eq!(ServiceStatus::from_state(b"inactive"), ServiceStatus::Inactive);
    assert_eq!(ServiceStatus::from_state(b"failed"), ServiceStatus::Failed);
    assert_eq!(ServiceStatus::from_state(b"activating"), ServiceStatus::Activating);
    assert_eq!(ServiceStatus::from_state(b"deactivating"), ServiceStatus::Deactivating);
    assert_eq!(ServiceStatus::from_state(b"reloading"), ServiceStatus::Reloading);
    assert_eq!(ServiceStatus::from_state(b"plasma"), ServiceStatus::Unknown);
}

#[test]
fn starting_a_critical_service_is_refused() {
    let r = ServiceManager::start_decision(b"systemd-journald", ServiceStatus::Inactive);
    assert!(matches!(r, Err(CoreError::CriticalServiceProtected)));
    let r = ServiceManager::start_decision(b"dbus", ServiceStatus::Inactive);
    assert!(matches!(r, Err(CoreError::CriticalServiceProtected)));
}

#[test]
fn a_later_duplicate_property_overwrites_an_earlier_one() {
    let props =
        ServiceManager::parse_service_properties(b"ActiveState=inactive\nActiveState=active\n");
    let svc = ServiceManager::service_from_properties(
        b"nginx",
        &ServiceManager::parse_service_properties(
            b"LoadState=loaded\nActiveState=inactive\nActiveState=active\n",
        ),
        false,
    )
    .unwrap();
    assert_eq!(svc.active_state, b"active".to_vec());
    assert_eq!(svc.status, ServiceStatus::Active);
    assert_eq!(props.len(), 2);
}

#[test]
fn verb_outcomes_report_success_and_carry_diagnostics() {
    let ok = nixos_core::command::CommandOutcome {
        succeeded: true,
        stdout: Vec::new(),
        stderr: Vec::new(),
        exit_code: 0,
    };
    let bad = nixos_core::command::CommandOutcome {
        succeeded: false,
        stdout: Vec::new(),
        stderr: b"unit masked".to_vec(),
        exit_code: 1,
    };
    assert_eq!(
        ServiceManager::stop_outcome(b"nginx", ok).unwrap(),
        b"Service 'nginx' has been stopped".to_vec()
    );
    match ServiceManager::stop_outcome(b"nginx", bad) {
        Err(CoreError::SubprocessFailed { stderr, .. }) => {
            assert_eq!(stderr, b"unit masked".to_vec());
        },
        _ => panic!("expected the diagnostics to be carried"),
    }
    let ok2 = nixos_core::command::CommandOutcome {
        succeeded: true,
        stdout: Vec::new(),
        stderr: Vec::new(),
        exit_code: 0,
    };
    assert_eq!(
        ServiceManager::enable_outcome(b"nginx", ok2).unwrap(),
        b"Service 'nginx' will start automatically on boot".to_vec()
    );
    let ok3 = nixos_core::command::CommandOutcome {
        succeeded: true,
        stdout: Vec::new(),
        stderr: Vec::new(),
        exit_code: 0,
    };
    assert_eq!(
        ServiceManager::start_outcome(b"nginx", ok3, ServiceStatus::Active, b"active").unwrap(),
        b"Service 'nginx' is now active and running".to_vec()
    );
}

#[test]
fn start_decision_skips_an_active_unit() {
    let r = ServiceManager::start_decision(b"nginx", ServiceStatus::Active).unwrap();
    assert!(r.is_none());
    let plan = ServiceManager::start_decision(b"nginx", ServiceStatus::Inactive)
        .unwrap()
        .unwrap();
    assert_eq!(plan.args, vec![b"start".to_vec(), b"nginx".to_vec()]);
    assert!(plan.needs_elevation);
}

#[test]
fn property_dump_parses_to_pairs() {
    let out = b"ActiveState=active\nSubState=running\nDescription=Web Server\nMemoryCurrent=2048\n";
    let props = ServiceManager::parse_service_properties(out);
    assert!(props.contains(&(b"ActiveState".to_vec(), b"active".to_vec())));
    assert!(props.contains(&(b"SubState".to_vec(), b"running".to_vec())));
    // A value keeps any later equals signs.
    let with_eq = ServiceManager::parse_service_properties(b"Wants=a=b\n");
    assert!(with_eq.contains(&(b"Wants".to_vec(), b"a=b".to_vec())));
}

#[test]
fn status_assembles_from_properties() {
    let out = b"LoadState=loaded\nActiveState=active\nSubState=running\nDescription=Web Server\nMemoryCurrent=2048\n";
    let props = ServiceManager::parse_service_properties(out);
    let svc = ServiceManager::service_from_properties(b"nginx", &props, true).unwrap();
    assert_eq!(svc.name, b"nginx".to_vec());
    assert_eq!(svc.status, ServiceStatus::Active);
    assert_eq!(svc.active_state, b"active".to_vec());
    assert_eq!(svc.sub_state, b"running".to_vec());
    assert_eq!(svc.description, Some(b"Web Server".to_vec()));
    assert_eq!(svc.memory_usage, Some(2048));
    assert!(svc.enabled);
}

#[test]
fn not_found_load_state_is_an_error() {
    let props = ServiceManager::parse_service_properties(b"LoadState=not-found\n");
    let r = ServiceManager::service_from_properties(b"ghost", &props, false);
    assert!(matches!(r, Err(CoreError::ServiceNotFound)));
    let empty = ServiceManager::parse_service_properties(b"");
    let r2 = ServiceManager::service_from_properties(b"ghost", &empty, false);
    assert!(matches!(r2, Err(CoreError::ServiceNotFound)));
}

#[test]
fn unit_listing_keeps_only_loaded_units() {
    let out = b"nginx.service loaded active running Web Server\n\
ghost.service not-found inactive dead Ghost Unit\n\
sshd.service loaded inactive dead OpenSSH Daemon\n";
    let services = ServiceManager::parse_service_list(out);
    assert_eq!(services.len(), 2);
    assert_eq!(services[0].name, b"nginx".to_vec());
    assert_eq!(services[0].status, ServiceStatus::Active);
    assert_eq!(services[0].description, Some(b"Web Server".to_vec()));
    assert_eq!(services[1].name, b"sshd".to_vec());
    assert_eq!(services[1].status, ServiceStatus::Inactive);
    assert_eq!(services[1].sub_state, b"dead".to_vec());
}

#[test]
fn enabled_output_is_trimmed_and_matched() {
    assert!(ServiceManager::enabled_from_output(b"enabled\n"));
    assert!(ServiceManager::enabled_from_output(b"static\n"));
    assert!(!ServiceManager::enabled_from_output(b"disabled\n"));
}

#[test]
fn list_units_plan_shape() {
    let plan = ServiceManager::list_units_plan();
    assert_eq!(plan.program, b"systemctl".to_vec());
    assert_eq!(plan.args[0], b"list-units".to_vec());
    assert!(!plan.needs_elevation);
}

#[test]
fn start_reports_describe_the_outcome() {
    assert_eq!(
        ServiceManager::report_started(b"nginx", ServiceStatus::Active, b"active"),
        b"Service 'nginx' is now active and running".to_vec()
    );
    assert_eq!(
        ServiceManager::report_started(b"nginx", ServiceStatus::Activating, b"activating"),
        b"Service 'nginx' start command issued, current state: activating".to_vec()
    );
    assert_eq!(
        ServiceManager::report_already_active(b"nginx"),
        b"Service 'nginx' is already active".to_vec()
    );
    assert_eq!(
        ServiceManager::report_stopped(b"nginx"),
        b"Service 'nginx' has been stopped".to_vec()
    );
}
