//! The service manager: identifier sanitization, the critical-unit policy,
//! plans for the unit-manager tool, and verified parsing of its list and
//! property output.

use vstd::prelude::*;
use vstd::string::StringSliceAdditionalSpecFns;
use vstd::string::StrSliceExecFns;
use crate::command::CommandPlan;
use crate::errors::CoreError;
use crate::text::{all_digits, bytes_eq, dec_value, fields_seq, is_match_at, join_seq,
    split_once_seq, split_seq, strip_suffix_rec, views_of};

verus! {

/// A unit's state, derived from its reported active state by a fixed mapping;
/// unmapped states are `Unknown`.
#[derive(Clone, Copy, Debug, PartialEq, Eq, Structural)]
pub enum ServiceStatus {
    Active,
    Inactive,
    Failed,
    Activating,
    Deactivating,
    Reloading,
    Unknown,
}

/// The fixed mapping from a reported active state to a status.
pub open spec fn status_of(s: Seq<u8>) -> ServiceStatus {
    if s == "active".spec_bytes() {
        ServiceStatus::Active
    } else if s == "inactive".spec_bytes() {
        ServiceStatus::Inactive
    } else if s == "failed".spec_bytes() {
        ServiceStatus::Failed
    } else if s == "activating".spec_bytes() {
        ServiceStatus::Activating
    } else if s == "deactivating".spec_bytes() {
        ServiceStatus::Deactivating
    } else if s == "reloading".spec_bytes() {
        ServiceStatus::Reloading
    } else {
        ServiceStatus::Unknown
    }
}

impl ServiceStatus {
    /// The status a reported active state maps to.
    pub fn from_state(s: &[u8]) -> (r: ServiceStatus)
        ensures
            r == status_of(s@),
    {
        if bytes_eq(s, ("active").as_bytes_vec().as_slice()) {
            ServiceStatus::Active
        } else if bytes_eq(s, ("inactive").as_bytes_vec().as_slice()) {
            ServiceStatus::Inactive
        } else if bytes_eq(s, ("failed").as_bytes_vec().as_slice()) {
            ServiceStatus::Failed
        } else if bytes_eq(s, ("activating").as_bytes_vec().as_slice()) {
            ServiceStatus::Activating
        } else if bytes_eq(s, ("deactivating").as_bytes_vec().as_slice()) {
            ServiceStatus::Deactivating
        } else if bytes_eq(s, ("reloading").as_bytes_vec().as_slice()) {
            ServiceStatus::Reloading
        } else {
            ServiceStatus::Unknown
        }
    }
}

/// One unit as the caller sees it.
pub struct Service {
    pub name: Vec<u8>,
    pub status: ServiceStatus,
    pub enabled: bool,
    pub description: Option<Vec<u8>>,
    pub active_state: Vec<u8>,
    pub sub_state: Vec<u8>,
    pub memory_usage: Option<u64>,
}

/// The mathematical value of a unit record.
pub ghost struct ServiceView {
    pub name: Seq<u8>,
    pub status: ServiceStatus,
    pub enabled: bool,
    pub description: Option<Seq<u8>>,
    pub active_state: Seq<u8>,
    pub sub_state: Seq<u8>,
    pub memory_usage: Option<u64>,
}

impl View for Service {
    type V = ServiceView;

    open spec fn view(&self) -> ServiceView {
        ServiceView {
            name: self.name@,
            status: self.status,
            enabled: self.enabled,
            description: match self.description {
                Some(ref d) => Some(d@),
                None => None,
            },
            active_state: self.active_state@,
            sub_state: self.sub_state@,
            memory_usage: self.memory_usage,
        }
    }
}

/// A unit name is acceptable when it passes the shared identifier gate.
pub open spec fn valid_service_name(n: Seq<u8>) -> bool {
    crate::security::valid_identifier(n)
}

/// A unit is critical when it is on the fixed list, is itself a low-level
/// system component, or is the top-level scope.
pub open spec fn critical_service(n: Seq<u8>) -> bool {
    ||| n == "systemd-journald".spec_bytes()
    ||| n == "systemd-logind".spec_bytes()
    ||| n == "dbus".spec_bytes()
    ||| n == "systemd-networkd".spec_bytes()
    ||| n == "NetworkManager".spec_bytes()
    ||| n == "sshd".spec_bytes()
    ||| n == "systemd-resolved".spec_bytes()
    ||| is_match_at(n, "systemd-".spec_bytes(), 0)
    ||| n == "init.scope".spec_bytes()
}

/// The unit manager.
pub struct ServiceManager;

impl ServiceManager {
    /// Whether a unit name may reach the tool at all.
    pub fn is_valid_service_name(name: &[u8]) -> (r: bool)
        ensures
            r == valid_service_name(name@),
    {
        crate::security::is_valid_identifier(name)
    }

    /// Whether stopping or disabling the unit is refused by policy.
    pub fn is_critical_service(name: &[u8]) -> (r: bool)
        ensures
            r == critical_service(name@),
    {
        bytes_eq(name, ("systemd-journald").as_bytes_vec().as_slice()) || bytes_eq(
            name,
            ("systemd-logind").as_bytes_vec().as_slice(),
        ) || bytes_eq(name, ("dbus").as_bytes_vec().as_slice()) || bytes_eq(
            name,
            ("systemd-networkd").as_bytes_vec().as_slice(),
        ) || bytes_eq(name, ("NetworkManager").as_bytes_vec().as_slice()) || bytes_eq(
            name,
            ("sshd").as_bytes_vec().as_slice(),
        ) || bytes_eq(name, ("systemd-resolved").as_bytes_vec().as_slice())
            || crate::text::starts_with(name, ("systemd-").as_bytes_vec().as_slice()) || bytes_eq(
            name,
            ("init.scope").as_bytes_vec().as_slice(),
        )
    }

    /// The plan that lists all loaded units.
    pub fn list_units_plan() -> (r: CommandPlan)
        ensures
            r.program@ == "systemctl".spec_bytes(),
            views_of(r.args@) == seq![
                "list-units".spec_bytes(),
                "--type=service".spec_bytes(),
                "--all".spec_bytes(),
                "--no-pager".spec_bytes(),
                "--no-legend".spec_bytes(),
            ],
            !r.needs_elevation,
            !r.streaming,
    {
        let mut args: Vec<Vec<u8>> = Vec::new();
        args.push(("list-units").as_bytes_vec());
        args.push(("--type=service").as_bytes_vec());
        args.push(("--all").as_bytes_vec());
        args.push(("--no-pager").as_bytes_vec());
        args.push(("--no-legend").as_bytes_vec());
        proof {
            assert(views_of(args@) =~= seq![
                "list-units".spec_bytes(),
                "--type=service".spec_bytes(),
                "--all".spec_bytes(),
                "--no-pager".spec_bytes(),
                "--no-legend".spec_bytes(),
            ]);
        }
        CommandPlan {
            program: ("systemctl").as_bytes_vec(),
            args,
            needs_elevation: false,
            streaming: false,
        }
    }

    /// The plan that dumps a unit's properties; an invalid name is refused
    /// before any tool runs.
    pub fn show_plan(name: &[u8]) -> (r: Result<CommandPlan, CoreError>)
        ensures
            match r {
                Ok(plan) => {
                    &&& valid_service_name(name@)
                    &&& plan.program@ == "systemctl".spec_bytes()
                    &&& views_of(plan.args@) == seq![
                        "show".spec_bytes(),
                        name@,
                        "--no-pager".spec_bytes(),
                    ]
                    &&& !plan.needs_elevation
                    &&& !plan.streaming
                },
                Err(e) => !valid_service_name(name@) && e is InvalidIdentifier,
            },
    {
        if !Self::is_valid_service_name(name) {
            return Err(CoreError::InvalidIdentifier);
        }
        let mut args: Vec<Vec<u8>> = Vec::new();
        args.push(("show").as_bytes_vec());
        args.push(vstd::slice::slice_to_vec(name));
        args.push(("--no-pager").as_bytes_vec());
        proof {
            assert(views_of(args@) =~= seq![
                "show".spec_bytes(),
                name@,
                "--no-pager".spec_bytes(),
            ]);
        }
        Ok(
            CommandPlan {
                program: ("systemctl").as_bytes_vec(),
                args,
                needs_elevation: false,
                streaming: false,
            },
        )
    }

    /// The plan that asks whether a unit is enabled.
    pub fn is_enabled_plan(name: &[u8]) -> (r: Result<CommandPlan, CoreError>)
        ensures
            match r {
                Ok(plan) => {
                    &&& valid_service_name(name@)
                    &&& plan.program@ == "systemctl".spec_bytes()
                    &&& views_of(plan.args@) == seq!["is-enabled".spec_bytes(), name@]
                    &&& !plan.needs_elevation
                    &&& !plan.streaming
                },
                Err(e) => !valid_service_name(name@) && e is InvalidIdentifier,
            },
    {
        if !Self::is_valid_service_name(name) {
            return Err(CoreError::InvalidIdentifier);
        }
        let mut args: Vec<Vec<u8>> = Vec::new();
        args.push(("is-enabled").as_bytes_vec());
        args.push(vstd::slice::slice_to_vec(name));
        proof {
            assert(views_of(args@) =~= seq!["is-enabled".spec_bytes(), name@]);
        }
        Ok(
            CommandPlan {
                program: ("systemctl").as_bytes_vec(),
                args,
                needs_elevation: false,
                streaming: false,
            },
        )
    }

    /// A unit is enabled when the tool reports it enabled or static.
    pub fn enabled_from_output(stdout: &[u8]) -> (r: bool)
        ensures
            r == (crate::text::trimmed(stdout@) == "enabled".spec_bytes() || crate::text::trimmed(
                stdout@,
            ) == "static".spec_bytes()),
    {
        let t = crate::text::trim_bytes(stdout);
        bytes_eq(t.as_slice(), ("enabled").as_bytes_vec().as_slice()) || bytes_eq(
            t.as_slice(),
            ("static").as_bytes_vec().as_slice(),
        )
    }

    /// The elevated plan of one unit-manager verb on one unit.
    fn unit_verb_plan(verb: Vec<u8>, name: &[u8]) -> (r: CommandPlan)
        ensures
            r.program@ == "systemctl".spec_bytes(),
            views_of(r.args@) == seq![verb@, name@],
            r.needs_elevation,
            !r.streaming,
    {
        let mut args: Vec<Vec<u8>> = Vec::new();
        let ghost v = verb@;
        args.push(verb);
        args.push(vstd::slice::slice_to_vec(name));
        proof {
            assert(views_of(args@) =~= seq![v, name@]);
        }
        CommandPlan {
            program: ("systemctl").as_bytes_vec(),
            args,
            needs_elevation: true,
            streaming: false,
        }
    }

    /// The decision of a start request: an invalid name is refused, a
    /// critical unit is protected by policy, an already-active unit needs no
    /// tool run, anything else starts through the elevated tool. Neither
    /// refusal reaches a tool.
    pub fn start_decision(name: &[u8], current: ServiceStatus) -> (r: Result<
        Option<CommandPlan>,
        CoreError,
    >)
        ensures
            match r {
                Ok(plan) => {
                    &&& valid_service_name(name@)
                    &&& !critical_service(name@)
                    &&& match plan {
                        Some(p) => {
                            &&& current != ServiceStatus::Active
                            &&& p.program@ == "systemctl".spec_bytes()
                            &&& views_of(p.args@) == seq!["start".spec_bytes(), name@]
                            &&& p.needs_elevation
                        },
                        None => current == ServiceStatus::Active,
                    }
                },
                Err(e) => if !valid_service_name(name@) {
                    e is InvalidIdentifier
                } else {
                    critical_service(name@) && e is CriticalServiceProtected
                },
            },
    {
        if !Self::is_valid_service_name(name) {
            return Err(CoreError::InvalidIdentifier);
        }
        if Self::is_critical_service(name) {
            return Err(CoreError::CriticalServiceProtected);
        }
        if current == ServiceStatus::Active {
            return Ok(None);
        }
        Ok(Some(Self::unit_verb_plan(("start").as_bytes_vec(), name)))
    }

    /// The plan of a stop request: an invalid name is refused, a critical
    /// unit is protected by policy, anything else stops through the elevated
    /// tool. Neither refusal reaches a tool.
    pub fn stop_plan(name: &[u8]) -> (r: Result<CommandPlan, CoreError>)
        ensures
            match r {
                Ok(p) => {
                    &&& valid_service_name(name@)
                    &&& !critical_service(name@)
                    &&& p.program@ == "systemctl".spec_bytes()
                    &&& views_of(p.args@) == seq!["stop".spec_bytes(), name@]
                    &&& p.needs_elevation
                },
                Err(e) => if !valid_service_name(name@) {
                    e is InvalidIdentifier
                } else {
                    critical_service(name@) && e is CriticalServiceProtected
                },
            },
    {
        if !Self::is_valid_service_name(name) {
            return Err(CoreError::InvalidIdentifier);
        }
        if Self::is_critical_service(name) {
            return Err(CoreError::CriticalServiceProtected);
        }
        Ok(Self::unit_verb_plan(("stop").as_bytes_vec(), name))
    }

    /// The plan of an enable request: an invalid name is refused.
    pub fn enable_plan(name: &[u8]) -> (r: Result<CommandPlan, CoreError>)
        ensures
            match r {
                Ok(p) => {
                    &&& valid_service_name(name@)
                    &&& p.program@ == "systemctl".spec_bytes()
                    &&& views_of(p.args@) == seq!["enable".spec_bytes(), name@]
                    &&& p.needs_elevation
                },
                Err(e) => !valid_service_name(name@) && e is InvalidIdentifier,
            },
    {
        if !Self::is_valid_service_name(name) {
            return Err(CoreError::InvalidIdentifier);
        }
        Ok(Self::unit_verb_plan(("enable").as_bytes_vec(), name))
    }

    /// The plan of a disable request: an invalid name is refused and a
    /// critical unit is protected by policy.
    pub fn disable_plan(name: &[u8]) -> (r: Result<CommandPlan, CoreError>)
        ensures
            match r {
                Ok(p) => {
                    &&& valid_service_name(name@)
                    &&& !critical_service(name@)
                    &&& p.program@ == "systemctl".spec_bytes()
                    &&& views_of(p.args@) == seq!["disable".spec_bytes(), name@]
                    &&& p.needs_elevation
                },
                Err(e) => if !valid_service_name(name@) {
                    e is InvalidIdentifier
                } else {
                    critical_service(name@) && e is CriticalServiceProtected
                },
            },
    {
        if !Self::is_valid_service_name(name) {
            return Err(CoreError::InvalidIdentifier);
        }
        if Self::is_critical_service(name) {
            return Err(CoreError::CriticalServiceProtected);
        }
        Ok(Self::unit_verb_plan(("disable").as_bytes_vec(), name))
    }

    /// The report of a finished start: its failure with the raw diagnostics
    /// on nonzero exit; otherwise confirmation when the re-queried status is
    /// active, else the state the unit was left in.
    pub fn start_outcome(
        name: &[u8],
        outcome: crate::command::CommandOutcome,
        new_status: ServiceStatus,
        new_active_state: &[u8],
    ) -> (r: Result<Vec<u8>, CoreError>)
        ensures
            match r {
                Ok(msg) => outcome.succeeded && msg@ == if new_status is Active {
                    started_report(name@)
                } else {
                    start_issued_report(name@, new_active_state@)
                },
                Err(e) => {
                    &&& !outcome.succeeded
                    &&& match e {
                        CoreError::SubprocessFailed { class, stderr } => {
                            &&& class is Generic
                            &&& stderr@ == outcome.stderr@
                        },
                        _ => false,
                    }
                },
            },
    {
        if !outcome.succeeded {
            return Err(
                CoreError::SubprocessFailed {
                    class: crate::errors::FailureClass::Generic,
                    stderr: outcome.stderr,
                },
            );
        }
        Ok(Self::report_started(name, new_status, new_active_state))
    }

    /// The report of a finished stop: confirmation on success, else the raw
    /// diagnostics.
    pub fn stop_outcome(name: &[u8], outcome: crate::command::CommandOutcome) -> (r: Result<
        Vec<u8>,
        CoreError,
    >)
        ensures
            match r {
                Ok(msg) => outcome.succeeded && msg@ == stopped_report(name@),
                Err(e) => {
                    &&& !outcome.succeeded
                    &&& match e {
                        CoreError::SubprocessFailed { class, stderr } => {
                            &&& class is Generic
                            &&& stderr@ == outcome.stderr@
                        },
                        _ => false,
                    }
                },
            },
    {
        if !outcome.succeeded {
            return Err(
                CoreError::SubprocessFailed {
                    class: crate::errors::FailureClass::Generic,
                    stderr: outcome.stderr,
                },
            );
        }
        Ok(Self::report_stopped(name))
    }

    /// The report of a finished enable: confirmation on success, else the raw
    /// diagnostics.
    pub fn enable_outcome(name: &[u8], outcome: crate::command::CommandOutcome) -> (r: Result<
        Vec<u8>,
        CoreError,
    >)
        ensures
            match r {
                Ok(msg) => outcome.succeeded && msg@ == enabled_report(name@),
                Err(e) => {
                    &&& !outcome.succeeded
                    &&& match e {
                        CoreError::SubprocessFailed { class, stderr } => {
                            &&& class is Generic
                            &&& stderr@ == outcome.stderr@
                        },
                        _ => false,
                    }
                },
            },
    {
        if !outcome.succeeded {
            return Err(
                CoreError::SubprocessFailed {
                    class: crate::errors::FailureClass::Generic,
                    stderr: outcome.stderr,
                },
            );
        }
        Ok(Self::report_enabled(name))
    }

    /// The report of a finished disable: confirmation on success, else the
    /// raw diagnostics.
    pub fn disable_outcome(name: &[u8], outcome: crate::command::CommandOutcome) -> (r: Result<
        Vec<u8>,
        CoreError,
    >)
        ensures
            match r {
                Ok(msg) => outcome.succeeded && msg@ == disabled_report(name@),
                Err(e) => {
                    &&& !outcome.succeeded
                    &&& match e {
                        CoreError::SubprocessFailed { class, stderr } => {
                            &&& class is Generic
                            &&& stderr@ == outcome.stderr@
                        },
                        _ => false,
                    }
                },
            },
    {
        if !outcome.succeeded {
            return Err(
                CoreError::SubprocessFailed {
                    class: crate::errors::FailureClass::Generic,
                    stderr: outcome.stderr,
                },
            );
        }
        Ok(Self::report_disabled(name))
    }
}

/// The report after a start request found the unit already running.
pub open spec fn already_active_report(name: Seq<u8>) -> Seq<u8> {
    "Service '".spec_bytes() + name + "' is already active".spec_bytes()
}

/// The report after a started unit was verified active.
pub open spec fn started_report(name: Seq<u8>) -> Seq<u8> {
    "Service '".spec_bytes() + name + "' is now active and running".spec_bytes()
}

/// The report after a start was issued but the unit is not yet active.
pub open spec fn start_issued_report(name: Seq<u8>, state: Seq<u8>) -> Seq<u8> {
    "Service '".spec_bytes() + name + "' start command issued, current state: ".spec_bytes()
        + state
}

/// The report after a unit was stopped.
pub open spec fn stopped_report(name: Seq<u8>) -> Seq<u8> {
    "Service '".spec_bytes() + name + "' has been stopped".spec_bytes()
}

/// The report after a unit was enabled.
pub open spec fn enabled_report(name: Seq<u8>) -> Seq<u8> {
    "Service '".spec_bytes() + name + "' will start automatically on boot".spec_bytes()
}

/// The report after a unit was disabled.
pub open spec fn disabled_report(name: Seq<u8>) -> Seq<u8> {
    "Service '".spec_bytes() + name + "' will not start automatically on boot".spec_bytes()
}

/// A fixed phrase around a quoted unit name.
fn service_phrase(name: &[u8], suffix: &str) -> (r: Vec<u8>)
    ensures
        r@ == "Service '".spec_bytes() + name@ + suffix.spec_bytes(),
{
    let mut r = ("Service '").as_bytes_vec();
    r.extend_from_slice(name);
    r.extend_from_slice(suffix.as_bytes_vec().as_slice());
    proof {
        assert(r@ =~= "Service '".spec_bytes() + name@ + suffix.spec_bytes());
    }
    r
}

impl ServiceManager {
    /// The report of a start request that needed no tool run.
    pub fn report_already_active(name: &[u8]) -> (r: Vec<u8>)
        ensures
            r@ == already_active_report(name@),
    {
        service_phrase(name, "' is already active")
    }

    /// The report of a finished start: confirmation when the unit is now
    /// active, else the state it was left in.
    pub fn report_started(name: &[u8], new_status: ServiceStatus, active_state: &[u8]) -> (r: Vec<
        u8,
    >)
        ensures
            r@ == if new_status is Active {
                started_report(name@)
            } else {
                start_issued_report(name@, active_state@)
            },
    {
        if new_status == ServiceStatus::Active {
            service_phrase(name, "' is now active and running")
        } else {
            let mut r = service_phrase(name, "' start command issued, current state: ");
            r.extend_from_slice(active_state);
            proof {
                assert(r@ =~= start_issued_report(name@, active_state@));
            }
            r
        }
    }

    /// The report of a finished stop.
    pub fn report_stopped(name: &[u8]) -> (r: Vec<u8>)
        ensures
            r@ == stopped_report(name@),
    {
        service_phrase(name, "' has been stopped")
    }

    /// The report of a finished enable.
    pub fn report_enabled(name: &[u8]) -> (r: Vec<u8>)
        ensures
            r@ == enabled_report(name@),
    {
        service_phrase(name, "' will start automatically on boot")
    }

    /// The report of a finished disable.
    pub fn report_disabled(name: &[u8]) -> (r: Vec<u8>)
        ensures
            r@ == disabled_report(name@),
    {
        service_phrase(name, "' will not start automatically on boot")
    }
}

/// The views of a key-value list.
pub open spec fn pair_views(v: Seq<(Vec<u8>, Vec<u8>)>) -> Seq<(Seq<u8>, Seq<u8>)> {
    v.map_values(|p: (Vec<u8>, Vec<u8>)| (p.0@, p.1@))
}

/// The value of the last entry with the given key, if any: a later line of
/// the dump overwrites an earlier one with the same key.
pub open spec fn lookup_prop(props: Seq<(Seq<u8>, Seq<u8>)>, key: Seq<u8>) -> Option<Seq<u8>>
    decreases props.len(),
{
    if props.len() == 0 {
        None
    } else if props.last().0 == key {
        Some(props.last().1)
    } else {
        lookup_prop(props.drop_last(), key)
    }
}

proof fn lemma_lookup_skip_back(props: Seq<(Seq<u8>, Seq<u8>)>, key: Seq<u8>, i: int)
    requires
        0 <= i <= props.len(),
        forall|k: int| i <= k < props.len() ==> (#[trigger] props[k]).0 != key,
    ensures
        lookup_prop(props, key) == lookup_prop(props.take(i), key),
    decreases props.len() - i,
{
    if i < props.len() {
        assert(props.last().0 != key);
        assert(forall|k: int|
            i <= k < props.drop_last().len() ==> (#[trigger] props.drop_last()[k]).0
                == props[k].0);
        lemma_lookup_skip_back(props.drop_last(), key, i);
        assert(props.drop_last().take(i) =~= props.take(i));
    } else {
        assert(props.take(props.len() as int) =~= props);
    }
}

/// Look a key up in a parsed property list; the last entry with the key wins.
pub fn prop_get(props: &Vec<(Vec<u8>, Vec<u8>)>, key: &[u8]) -> (r: Option<Vec<u8>>)
    ensures
        match r {
            Some(v) => lookup_prop(pair_views(props@), key@) == Some(v@),
            None => lookup_prop(pair_views(props@), key@) is None,
        },
{
    let n = props.len();
    let mut i: usize = n;
    while i > 0
        invariant
            0 <= i <= n,
            props@.len() == n,
            forall|k: int| i <= k < n ==> (#[trigger] pair_views(props@)[k]).0 != key@,
        decreases i,
    {
        if bytes_eq(props[i - 1].0.as_slice(), key) {
            proof {
                lemma_lookup_skip_back(pair_views(props@), key@, i as int);
                let pre = pair_views(props@).take(i as int);
                assert(pre.last() == pair_views(props@)[i - 1]);
            }
            let v = props[i - 1].1.as_slice();
            return Some(vstd::slice::slice_to_vec(v));
        }
        i = i - 1;
    }
    proof {
        lemma_lookup_skip_back(pair_views(props@), key@, 0);
        assert(pair_views(props@).take(0) =~= Seq::<(Seq<u8>, Seq<u8>)>::empty());
    }
    None
}

/// The key-value pairs of a property-dump line list: each line split at its
/// first equals sign; lines without one carry no pair.
pub open spec fn props_of_lines(lines: Seq<Seq<u8>>) -> Seq<(Seq<u8>, Seq<u8>)>
    decreases lines.len(),
{
    if lines.len() == 0 {
        Seq::empty()
    } else {
        props_of_lines(lines.drop_last()) + (match split_once_seq(lines.last(), 61) {
            Some(kv) => seq![kv],
            None => Seq::empty(),
        })
    }
}

/// The key-value pairs of a property dump.
pub open spec fn properties_model(out: Seq<u8>) -> Seq<(Seq<u8>, Seq<u8>)> {
    props_of_lines(split_seq(out, 10))
}

/// One unit record read off a list-units line: at least four fields, of
/// which the second must report the unit loaded; the first field names the
/// unit, the third and fourth its states, and the rest describe it.
pub open spec fn service_line_model(line: Seq<u8>) -> Option<ServiceView> {
    let toks = fields_seq(line, 32);
    if toks.len() >= 4 && toks[1] == "loaded".spec_bytes() {
        Some(
            ServiceView {
                name: strip_suffix_rec(toks[0], ".service".spec_bytes()),
                status: status_of(toks[2]),
                enabled: false,
                description: Some(join_seq(toks.subrange(4, toks.len() as int), 32)),
                active_state: toks[2],
                sub_state: toks[3],
                memory_usage: None,
            },
        )
    } else {
        None
    }
}

/// The unit records of a list-units dump, retaining only loaded units.
pub open spec fn services_of(lines: Seq<Seq<u8>>) -> Seq<ServiceView>
    decreases lines.len(),
{
    if lines.len() == 0 {
        Seq::empty()
    } else {
        services_of(lines.drop_last()) + (match service_line_model(lines.last()) {
            Some(s) => seq![s],
            None => Seq::empty(),
        })
    }
}

/// The unit records of a list-units dump.
pub open spec fn service_list_model(out: Seq<u8>) -> Seq<ServiceView> {
    services_of(split_seq(out, 10))
}

/// The views of a unit-record list.
pub open spec fn service_views(v: Seq<Service>) -> Seq<ServiceView> {
    v.map_values(|s: Service| s@)
}

impl ServiceManager {
    /// Parse a property dump into its key-value pairs.
    pub fn parse_service_properties(out: &[u8]) -> (r: Vec<(Vec<u8>, Vec<u8>)>)
        ensures
            pair_views(r@) == properties_model(out@),
    {
        let lines = crate::text::split_bytes(out, 10);
        let mut r: Vec<(Vec<u8>, Vec<u8>)> = Vec::new();
        let mut i: usize = 0;
        proof {
            assert(pair_views(r@) =~= Seq::<(Seq<u8>, Seq<u8>)>::empty());
            assert(views_of(lines@).take(0) =~= Seq::<Seq<u8>>::empty());
        }
        while i < lines.len()
            invariant
                0 <= i <= lines@.len(),
                pair_views(r@) == props_of_lines(views_of(lines@).take(i as int)),
            decreases lines@.len() - i,
        {
            let ghost r0 = r@;
            let ghost pre = views_of(lines@).take(i as int);
            let ghost post = views_of(lines@).take(i + 1 as int);
            proof {
                assert(post.drop_last() =~= pre);
                assert(post.last() == lines@[i as int]@);
            }
            if let Some((k, v)) = crate::text::split_once(lines[i].as_slice(), 61) {
                r.push((k, v));
                proof {
                    assert(pair_views(r@) =~= pair_views(r0).push(
                        (r@.last().0@, r@.last().1@),
                    ));
                }
            }
            i = i + 1;
        }
        proof {
            assert(views_of(lines@).take(lines@.len() as int) =~= views_of(lines@));
        }
        r
    }

    /// Parse one list-units line into a unit record, if it reports a loaded
    /// unit.
    pub fn parse_service_line(line: &[u8]) -> (r: Option<Service>)
        ensures
            match r {
                Some(s) => service_line_model(line@) == Some(s@),
                None => service_line_model(line@) is None,
            },
    {
        let toks = crate::text::split_fields(line, 32);
        if toks.len() < 4 {
            return None;
        }
        if !bytes_eq(toks[1].as_slice(), ("loaded").as_bytes_vec().as_slice()) {
            return None;
        }
        let name = crate::text::strip_suffix_bytes(
            toks[0].as_slice(),
            (".service").as_bytes_vec().as_slice(),
        );
        let status = ServiceStatus::from_state(toks[2].as_slice());
        let description = crate::text::join_from(&toks, 4, 32);
        let active_state = vstd::slice::slice_to_vec(toks[2].as_slice());
        let sub_state = vstd::slice::slice_to_vec(toks[3].as_slice());
        let s = Service {
            name,
            status,
            enabled: false,
            description: Some(description),
            active_state,
            sub_state,
            memory_usage: None,
        };
        proof {
            assert(views_of(toks@)[1] == toks@[1]@);
            assert(views_of(toks@)[0] == toks@[0]@);
            assert(views_of(toks@)[2] == toks@[2]@);
            assert(views_of(toks@)[3] == toks@[3]@);
        }
        Some(s)
    }

    /// Parse a list-units dump into unit records, keeping only loaded units.
    pub fn parse_service_list(out: &[u8]) -> (r: Vec<Service>)
        ensures
            service_views(r@) == service_list_model(out@),
    {
        let lines = crate::text::split_bytes(out, 10);
        let mut r: Vec<Service> = Vec::new();
        let mut i: usize = 0;
        proof {
            assert(service_views(r@) =~= Seq::<ServiceView>::empty());
            assert(views_of(lines@).take(0) =~= Seq::<Seq<u8>>::empty());
        }
        while i < lines.len()
            invariant
                0 <= i <= lines@.len(),
                service_views(r@) == services_of(views_of(lines@).take(i as int)),
            decreases lines@.len() - i,
        {
            let ghost r0 = r@;
            let ghost pre = views_of(lines@).take(i as int);
            let ghost post = views_of(lines@).take(i + 1 as int);
            proof {
                assert(post.drop_last() =~= pre);
                assert(post.last() == lines@[i as int]@);
            }
            if let Some(s) = Self::parse_service_line(lines[i].as_slice()) {
                r.push(s);
                proof {
                    assert(service_views(r@) =~= service_views(r0).push(r@.last()@));
                }
            }
            i = i + 1;
        }
        proof {
            assert(views_of(lines@).take(lines@.len() as int) =~= views_of(lines@));
        }
        r
    }
}

/// A property value, or the given default when the key is absent.
pub open spec fn prop_or(
    props: Seq<(Seq<u8>, Seq<u8>)>,
    key: Seq<u8>,
    dflt: Seq<u8>,
) -> Seq<u8> {
    match lookup_prop(props, key) {
        Some(v) => v,
        None => dflt,
    }
}

/// The reported memory use of a unit: its MemoryCurrent property when that is
/// a plain number.
pub open spec fn memory_usage_model(props: Seq<(Seq<u8>, Seq<u8>)>) -> Option<u64> {
    match lookup_prop(props, "MemoryCurrent".spec_bytes()) {
        None => None,
        Some(m) => if m.len() > 0 && all_digits(m) && dec_value(m) <= u64::MAX {
            Some(dec_value(m) as u64)
        } else {
            None
        },
    }
}

impl ServiceManager {
    /// Assemble a unit's status record from its parsed property dump and its
    /// enablement. A unit whose load state reports not-found does not exist.
    pub fn service_from_properties(
        name: &[u8],
        props: &Vec<(Vec<u8>, Vec<u8>)>,
        enabled: bool,
    ) -> (r: Result<Service, CoreError>)
        ensures
            match r {
                Ok(s) => {
                    &&& prop_or(pair_views(props@), "LoadState".spec_bytes(), "not-found".spec_bytes())
                        != "not-found".spec_bytes()
                    &&& s@.name == name@
                    &&& s@.active_state == prop_or(
                        pair_views(props@),
                        "ActiveState".spec_bytes(),
                        "unknown".spec_bytes(),
                    )
                    &&& s@.sub_state == prop_or(
                        pair_views(props@),
                        "SubState".spec_bytes(),
                        "unknown".spec_bytes(),
                    )
                    &&& s@.description == lookup_prop(
                        pair_views(props@),
                        "Description".spec_bytes(),
                    )
                    &&& s@.status == status_of(s@.active_state)
                    &&& s@.enabled == enabled
                    &&& s@.memory_usage == memory_usage_model(pair_views(props@))
                },
                Err(e) => {
                    &&& e is ServiceNotFound
                    &&& prop_or(pair_views(props@), "LoadState".spec_bytes(), "not-found".spec_bytes())
                        == "not-found".spec_bytes()
                },
            },
    {
        let load_state = match prop_get(props, ("LoadState").as_bytes_vec().as_slice()) {
            Some(v) => v,
            None => ("not-found").as_bytes_vec(),
        };
        if bytes_eq(load_state.as_slice(), ("not-found").as_bytes_vec().as_slice()) {
            return Err(CoreError::ServiceNotFound);
        }
        let active_state = match prop_get(props, ("ActiveState").as_bytes_vec().as_slice()) {
            Some(v) => v,
            None => ("unknown").as_bytes_vec(),
        };
        let sub_state = match prop_get(props, ("SubState").as_bytes_vec().as_slice()) {
            Some(v) => v,
            None => ("unknown").as_bytes_vec(),
        };
        let description = prop_get(props, ("Description").as_bytes_vec().as_slice());
        let memory_usage = match prop_get(props, ("MemoryCurrent").as_bytes_vec().as_slice()) {
            Some(m) => crate::text::parse_u64(m.as_slice()),
            None => None,
        };
        let status = ServiceStatus::from_state(active_state.as_slice());
        Ok(
            Service {
                name: vstd::slice::slice_to_vec(name),
                status,
                enabled,
                description,
                active_state,
                sub_state,
                memory_usage,
            },
        )
    }
}

} // verus!
