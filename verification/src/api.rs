//! Caller-facing request and response shapes, the session helpers of the
//! confirmation gate for disruptive actions, and the intent vocabulary of the
//! embedding application.

use vstd::prelude::*;
use vstd::string::StringSliceAdditionalSpecFns;
use crate::security::Permission;
use crate::text::bytes_eq;

verus! {

/// An authentication request from the embedding application.
pub struct AuthRequest {
    pub username: Vec<u8>,
    pub password: Vec<u8>,
}

/// The answer to an authentication request: the granted capabilities.
pub struct AuthResponse {
    pub success: bool,
    pub token: Option<Vec<u8>>,
    pub permissions: Vec<Permission>,
}

/// The active configuration as handed to a caller.
pub struct ConfigResponse {
    pub content: Vec<u8>,
    pub path: Vec<u8>,
    pub last_modified: Vec<u8>,
    pub is_flake: bool,
}

/// A request to save new configuration text.
pub struct SaveConfigRequest {
    pub content: Vec<u8>,
    pub path: Option<Vec<u8>>,
    pub create_backup: bool,
}

/// A request to rebuild the system.
pub struct RebuildRequest {
    pub operation: Vec<u8>,
    pub flake: Option<Vec<u8>>,
    pub show_trace: bool,
}

/// Host facts as handed to a caller.
pub struct SystemInfo {
    pub hostname: Vec<u8>,
    pub kernel_version: Vec<u8>,
    pub os_version: Vec<u8>,
    pub uptime: u64,
    pub cpu_count: usize,
    pub cpu_brand: Vec<u8>,
}

/// The display preference of the embedding application.
#[derive(Clone, Copy, Debug, PartialEq, Eq, Structural)]
pub enum ThemeMode {
    Light,
    Dark,
    Auto,
}

/// Which notifications the embedding application shows.
pub struct NotificationSettings {
    pub enabled: bool,
    pub sacred_pauses: bool,
    pub rebuild_status: bool,
    pub coherence_updates: bool,
}

/// A short break the embedding application offers the operator.
pub struct SacredPause {
    pub duration_seconds: i64,
    pub message: Option<Vec<u8>>,
    pub breathing_rhythm: Option<Vec<u8>>,
}

/// The message shown for a pause of the given length.
pub open spec fn pause_message(duration: i64) -> Seq<u8> {
    if 0 <= duration <= 30 {
        "Take a breath. You are here now.".spec_bytes()
    } else if 31 <= duration <= 60 {
        "Rest in this moment. Let clarity emerge.".spec_bytes()
    } else if 61 <= duration <= 180 {
        "Deep pause. Integration in progress.".spec_bytes()
    } else {
        "Extended pause. Honor this time.".spec_bytes()
    }
}

impl SacredPause {
    /// A pause of the requested length, defaulting to thirty seconds, with
    /// the message for that length and the fixed breathing rhythm.
    pub fn build(duration_seconds: Option<i64>) -> (r: SacredPause)
        ensures
            r.duration_seconds == match duration_seconds {
                Some(d) => d,
                None => 30int as i64,
            },
            match r.message {
                Some(m) => m@ == pause_message(r.duration_seconds),
                None => false,
            },
            match r.breathing_rhythm {
                Some(b) => b@ == "4-7-8".spec_bytes(),
                None => false,
            },
    {
        let duration: i64 = match duration_seconds {
            Some(d) => d,
            None => 30,
        };
        let message: Vec<u8> = if 0 <= duration && duration <= 30 {
            vstd::string::StrSliceExecFns::as_bytes_vec("Take a breath. You are here now.")
        } else if 31 <= duration && duration <= 60 {
            vstd::string::StrSliceExecFns::as_bytes_vec(
                "Rest in this moment. Let clarity emerge.",
            )
        } else if 61 <= duration && duration <= 180 {
            vstd::string::StrSliceExecFns::as_bytes_vec("Deep pause. Integration in progress.")
        } else {
            vstd::string::StrSliceExecFns::as_bytes_vec("Extended pause. Honor this time.")
        };
        SacredPause {
            duration_seconds: duration,
            message: Some(message),
            breathing_rhythm: Some(
                vstd::string::StrSliceExecFns::as_bytes_vec("4-7-8"),
            ),
        }
    }
}

/// An action is disruptive when it shuts down or restarts the machine,
/// deletes old system generations, or changes the system configuration.
pub open spec fn dangerous_action(action: Seq<u8>) -> bool {
    ||| action == "shutdown".spec_bytes()
    ||| action == "reboot".spec_bytes()
    ||| action == "garbage-collect".spec_bytes()
    ||| action == "rebuild".spec_bytes()
}

/// A disruptive action proceeds only with explicit prior confirmation; all
/// other actions never need one.
pub fn requires_confirmation(action: &[u8], confirmed: Option<bool>) -> (r: bool)
    ensures
        r == (dangerous_action(action@) && confirmed != Some(true)),
{
    let is_dangerous = bytes_eq(
        action,
        vstd::string::StrSliceExecFns::as_bytes_vec("shutdown").as_slice(),
    ) || bytes_eq(action, vstd::string::StrSliceExecFns::as_bytes_vec("reboot").as_slice())
        || bytes_eq(
        action,
        vstd::string::StrSliceExecFns::as_bytes_vec("garbage-collect").as_slice(),
    ) || bytes_eq(action, vstd::string::StrSliceExecFns::as_bytes_vec("rebuild").as_slice());
    is_dangerous && confirmed != Some(true)
}

/// The warning shown before a disruptive action is confirmed.
pub fn get_sacred_warning(action: &[u8]) -> (r: &'static str)
    ensures
        r@ == if action@ == "shutdown".spec_bytes() {
            "This will turn off your computer. All unsaved work will be lost."@
        } else if action@ == "reboot".spec_bytes() {
            "This will restart your computer. All applications will close."@
        } else if action@ == "garbage-collect".spec_bytes() {
            "This will delete old system generations permanently."@
        } else if action@ == "rebuild".spec_bytes() {
            "This will change your system configuration."@
        } else {
            "This action requires careful consideration."@
        },
{
    if bytes_eq(action, vstd::string::StrSliceExecFns::as_bytes_vec("shutdown").as_slice()) {
        "This will turn off your computer. All unsaved work will be lost."
    } else if bytes_eq(action, vstd::string::StrSliceExecFns::as_bytes_vec("reboot").as_slice()) {
        "This will restart your computer. All applications will close."
    } else if bytes_eq(
        action,
        vstd::string::StrSliceExecFns::as_bytes_vec("garbage-collect").as_slice(),
    ) {
        "This will delete old system generations permanently."
    } else if bytes_eq(action, vstd::string::StrSliceExecFns::as_bytes_vec("rebuild").as_slice()) {
        "This will change your system configuration."
    } else {
        "This action requires careful consideration."
    }
}

/// The confirmation shown after an action completes.
pub fn get_success_message(action: &[u8]) -> (r: &'static str)
    ensures
        r@ == if action@ == "install".spec_bytes() {
            "Package installed successfully"@
        } else if action@ == "remove".spec_bytes() {
            "Package removed successfully"@
        } else if action@ == "update".spec_bytes() {
            "System updated successfully"@
        } else if action@ == "search".spec_bytes() {
            "Search completed"@
        } else if action@ == "info".spec_bytes() {
            "Information retrieved"@
        } else {
            "Command completed successfully"@
        },
{
    if bytes_eq(action, vstd::string::StrSliceExecFns::as_bytes_vec("install").as_slice()) {
        "Package installed successfully"
    } else if bytes_eq(action, vstd::string::StrSliceExecFns::as_bytes_vec("remove").as_slice()) {
        "Package removed successfully"
    } else if bytes_eq(action, vstd::string::StrSliceExecFns::as_bytes_vec("update").as_slice()) {
        "System updated successfully"
    } else if bytes_eq(action, vstd::string::StrSliceExecFns::as_bytes_vec("search").as_slice()) {
        "Search completed"
    } else if bytes_eq(action, vstd::string::StrSliceExecFns::as_bytes_vec("info").as_slice()) {
        "Information retrieved"
    } else {
        "Command completed successfully"
    }
}

/// The capability gate: an operation proceeds only when the session's
/// granted capabilities, handed in explicitly by the embedding application,
/// include the required one. No ambient session state exists in this crate.
pub fn check_permission(granted: &Vec<Permission>, required: Permission) -> (r: bool)
    ensures
        r == granted@.contains(required),
{
    let n = granted.len();
    let mut i: usize = 0;
    while i < n
        invariant
            0 <= i <= n,
            granted@.len() == n,
            forall|k: int| 0 <= k < i ==> granted@[k] != required,
        decreases n - i,
    {
        if granted[i] == required {
            return true;
        }
        i = i + 1;
    }
    false
}

/// An operator intent the embedding application may hand in.
pub enum Action {
    InstallPackage { package: Vec<u8> },
    RemovePackage { package: Vec<u8> },
    UpdateSystem,
    SearchPackages { query: Vec<u8> },
    GetHelp { topic: Option<Vec<u8>> },
    Unknown,
}

/// The intent engine of the embedding application; intent recognition itself
/// is outside this crate's scope.
pub struct NLPEngine;

impl NLPEngine {
    /// A fresh intent engine.
    pub fn new() -> (r: NLPEngine) {
        NLPEngine
    }
}

} // verus!
