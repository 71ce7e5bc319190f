//! The rebuild step: the fixed operation set, the plan handed to the
//! system-rebuild tool, the ordered failure heuristics over its diagnostics,
//! and the report returned to the caller.

use vstd::prelude::*;
use vstd::string::StringSliceAdditionalSpecFns;
use vstd::string::StrSliceExecFns;
use crate::command::{CommandOutcome, CommandPlan};
use crate::errors::{CoreError, FailureClass};
use crate::text::{bytes_eq, contains_seq, contains_subslice, views_of};

verus! {

/// The fixed set of rebuild operations. Switch and Boot require elevation;
/// DryBuild and DryRun run buffered, the rest stream their output.
#[derive(Clone, Copy, Debug, PartialEq, Eq, Structural)]
pub enum RebuildOperation {
    Switch,
    Boot,
    Test,
    DryBuild,
    DryRun,
    Build,
}

/// The name under which each operation is requested and passed to the tool.
pub open spec fn op_name(op: RebuildOperation) -> Seq<u8> {
    match op {
        RebuildOperation::Switch => "switch".spec_bytes(),
        RebuildOperation::Boot => "boot".spec_bytes(),
        RebuildOperation::Test => "test".spec_bytes(),
        RebuildOperation::DryBuild => "dry-build".spec_bytes(),
        RebuildOperation::DryRun => "dry-run".spec_bytes(),
        RebuildOperation::Build => "build".spec_bytes(),
    }
}

/// Only activating operations require elevation.
pub open spec fn op_requires_elevation(op: RebuildOperation) -> bool {
    op is Switch || op is Boot
}

/// Dry operations run buffered: all output is collected, then returned. The
/// others stream progress to the caller while it is produced.
pub open spec fn op_is_buffered(op: RebuildOperation) -> bool {
    op is DryBuild || op is DryRun
}

/// The operation a requested name denotes, if it is in the fixed set.
pub open spec fn operation_named(s: Seq<u8>) -> Option<RebuildOperation> {
    if s == "switch".spec_bytes() {
        Some(RebuildOperation::Switch)
    } else if s == "boot".spec_bytes() {
        Some(RebuildOperation::Boot)
    } else if s == "test".spec_bytes() {
        Some(RebuildOperation::Test)
    } else if s == "dry-build".spec_bytes() {
        Some(RebuildOperation::DryBuild)
    } else if s == "dry-run".spec_bytes() {
        Some(RebuildOperation::DryRun)
    } else if s == "build".spec_bytes() {
        Some(RebuildOperation::Build)
    } else {
        None
    }
}

/// The operation requested by name; names outside the fixed set are rejected
/// before any tool runs.
pub fn parse_operation(s: &[u8]) -> (r: Option<RebuildOperation>)
    ensures
        r == operation_named(s@),
{
    if bytes_eq(s, ("switch").as_bytes_vec().as_slice()) {
        Some(RebuildOperation::Switch)
    } else if bytes_eq(s, ("boot").as_bytes_vec().as_slice()) {
        Some(RebuildOperation::Boot)
    } else if bytes_eq(s, ("test").as_bytes_vec().as_slice()) {
        Some(RebuildOperation::Test)
    } else if bytes_eq(s, ("dry-build").as_bytes_vec().as_slice()) {
        Some(RebuildOperation::DryBuild)
    } else if bytes_eq(s, ("dry-run").as_bytes_vec().as_slice()) {
        Some(RebuildOperation::DryRun)
    } else if bytes_eq(s, ("build").as_bytes_vec().as_slice()) {
        Some(RebuildOperation::Build)
    } else {
        None
    }
}

/// The operation requested by name: a name outside the fixed set fails with
/// `InvalidOperation` carrying the rejected name, before any plan exists.
pub fn rebuild_operation(s: &[u8]) -> (r: Result<RebuildOperation, CoreError>)
    ensures
        match r {
            Ok(op) => operation_named(s@) == Some(op),
            Err(e) => operation_named(s@) is None && match e {
                CoreError::InvalidOperation(name) => name@ == s@,
                _ => false,
            },
        },
{
    match parse_operation(s) {
        Some(op) => Ok(op),
        None => Err(CoreError::InvalidOperation(vstd::slice::slice_to_vec(s))),
    }
}

/// Whether the operation must run through the elevation helper.
pub fn requires_elevation(op: RebuildOperation) -> (r: bool)
    ensures
        r == op_requires_elevation(op),
{
    match op {
        RebuildOperation::Switch => true,
        RebuildOperation::Boot => true,
        _ => false,
    }
}

/// Whether the operation runs buffered rather than streaming.
pub fn is_buffered(op: RebuildOperation) -> (r: bool)
    ensures
        r == op_is_buffered(op),
{
    match op {
        RebuildOperation::DryBuild => true,
        RebuildOperation::DryRun => true,
        _ => false,
    }
}

/// The operation's name as passed to the tool.
pub fn op_name_bytes(op: RebuildOperation) -> (r: Vec<u8>)
    ensures
        r@ == op_name(op),
{
    match op {
        RebuildOperation::Switch => ("switch").as_bytes_vec(),
        RebuildOperation::Boot => ("boot").as_bytes_vec(),
        RebuildOperation::Test => ("test").as_bytes_vec(),
        RebuildOperation::DryBuild => ("dry-build").as_bytes_vec(),
        RebuildOperation::DryRun => ("dry-run").as_bytes_vec(),
        RebuildOperation::Build => ("build").as_bytes_vec(),
    }
}

/// The argument vector of a rebuild: the operation, the optional flake
/// reference, verbosity, the optional trace flag, and fixed parallel-build
/// options.
pub open spec fn rebuild_args_model(
    op: RebuildOperation,
    flake: Option<Seq<u8>>,
    show_trace: bool,
) -> Seq<Seq<u8>> {
    seq![op_name(op)] + (match flake {
        Some(f) => seq!["--flake".spec_bytes(), f],
        None => Seq::empty(),
    }) + seq!["-v".spec_bytes()] + (if show_trace {
        seq!["--show-trace".spec_bytes()]
    } else {
        Seq::<Seq<u8>>::empty()
    }) + seq![
        "--option".spec_bytes(),
        "build-cores".spec_bytes(),
        "0".spec_bytes(),
        "--option".spec_bytes(),
        "max-jobs".spec_bytes(),
        "auto".spec_bytes(),
    ]
}

/// The plan of one rebuild: the system-rebuild tool with the fixed argument
/// shape, elevated exactly for activating operations, streaming exactly for
/// non-dry operations.
pub fn rebuild_plan(op: RebuildOperation, flake: Option<&[u8]>, show_trace: bool) -> (r:
    CommandPlan)
    ensures
        r.program@ == "nixos-rebuild".spec_bytes(),
        views_of(r.args@) == rebuild_args_model(
            op,
            match flake {
                Some(f) => Some(f@),
                None => None,
            },
            show_trace,
        ),
        r.needs_elevation == op_requires_elevation(op),
        r.streaming == !op_is_buffered(op),
{
    let mut args: Vec<Vec<u8>> = Vec::new();
    args.push(op_name_bytes(op));
    if let Some(f) = flake {
        args.push(("--flake").as_bytes_vec());
        args.push(vstd::slice::slice_to_vec(f));
    }
    args.push(("-v").as_bytes_vec());
    if show_trace {
        args.push(("--show-trace").as_bytes_vec());
    }
    args.push(("--option").as_bytes_vec());
    args.push(("build-cores").as_bytes_vec());
    args.push(("0").as_bytes_vec());
    args.push(("--option").as_bytes_vec());
    args.push(("max-jobs").as_bytes_vec());
    args.push(("auto").as_bytes_vec());
    proof {
        assert(views_of(args@) =~= rebuild_args_model(
            op,
            match flake {
                Some(f) => Some(f@),
                None => None,
            },
            show_trace,
        ));
    }
    CommandPlan {
        program: ("nixos-rebuild").as_bytes_vec(),
        args,
        needs_elevation: requires_elevation(op),
        streaming: !is_buffered(op),
    }
}

/// The environment overrides of a rebuild: the pager is disabled and color
/// output is kept.
pub fn rebuild_env() -> (r: Vec<(Vec<u8>, Vec<u8>)>)
    ensures
        r@.len() == 2,
        r@[0].0@ == "NIX_PAGER".spec_bytes() && r@[0].1@ == "".spec_bytes(),
        r@[1].0@ == "NO_COLOR".spec_bytes() && r@[1].1@ == "0".spec_bytes(),
{
    let mut r: Vec<(Vec<u8>, Vec<u8>)> = Vec::new();
    r.push((("NIX_PAGER").as_bytes_vec(), ("").as_bytes_vec()));
    r.push((("NO_COLOR").as_bytes_vec(), ("0").as_bytes_vec()));
    r
}

/// The ordered failure heuristics over the tool's diagnostics: permission
/// refusal first, then a failed build step, then memory exhaustion, else
/// generic. Brittle by nature — the tool's output is unstructured — so the
/// rules live in this one place.
pub open spec fn classify_model(stderr: Seq<u8>) -> FailureClass {
    if contains_seq(stderr, "permission denied".spec_bytes()) {
        FailureClass::PermissionDenied
    } else if contains_seq(stderr, "build of".spec_bytes()) && contains_seq(
        stderr,
        "failed".spec_bytes(),
    ) {
        FailureClass::BuildFailure
    } else if contains_seq(stderr, "out of memory".spec_bytes()) {
        FailureClass::OutOfMemory
    } else {
        FailureClass::Generic
    }
}

/// Classify a failed rebuild from its diagnostics.
pub fn classify_failure(stderr: &[u8]) -> (r: FailureClass)
    ensures
        r == classify_model(stderr@),
{
    if contains_subslice(stderr, ("permission denied").as_bytes_vec().as_slice()) {
        FailureClass::PermissionDenied
    } else if contains_subslice(stderr, ("build of").as_bytes_vec().as_slice())
        && contains_subslice(stderr, ("failed").as_bytes_vec().as_slice()) {
        FailureClass::BuildFailure
    } else if contains_subslice(stderr, ("out of memory").as_bytes_vec().as_slice()) {
        FailureClass::OutOfMemory
    } else {
        FailureClass::Generic
    }
}

/// The short operator-facing diagnostic of each failure class.
pub fn class_note(class: FailureClass) -> (r: &'static str)
    ensures
        r@ == match class {
            FailureClass::PermissionDenied => (
            "Permission denied. This operation requires root privileges."@
            ),
            FailureClass::BuildFailure => "Build failed. Check the error output for details."@,
            FailureClass::OutOfMemory => (
            "Build ran out of memory. Try closing other applications."@
            ),
            FailureClass::Generic => "Build failed. See error output below."@,
        },
{
    match class {
        FailureClass::PermissionDenied => "Permission denied. This operation requires root privileges.",
        FailureClass::BuildFailure => "Build failed. Check the error output for details.",
        FailureClass::OutOfMemory => "Build ran out of memory. Try closing other applications.",
        FailureClass::Generic => "Build failed. See error output below.",
    }
}

/// The confirmation line of each successful operation.
pub open spec fn success_note(op: RebuildOperation) -> Seq<u8> {
    match op {
        RebuildOperation::Switch => (
        "System configuration switched! Changes are now active.".spec_bytes()
        ),
        RebuildOperation::Boot => (
        "Boot configuration updated. Changes will apply on next reboot.".spec_bytes()
        ),
        RebuildOperation::Test => (
        "Test configuration activated. This is temporary.".spec_bytes()
        ),
        RebuildOperation::Build => (
        "Configuration built successfully. No activation performed.".spec_bytes()
        ),
        _ => "Operation completed successfully.".spec_bytes(),
    }
}

/// The report of a successful dry operation: a fixed marker, then the full
/// collected output.
pub open spec fn dry_run_report(stdout: Seq<u8>, stderr: Seq<u8>) -> Seq<u8> {
    "=== Dry Run Results ===\n".spec_bytes() + stdout + "\n".spec_bytes() + stderr
}

/// The report of a successful activating or build operation: the operation's
/// confirmation, then the full collected output.
pub open spec fn build_report(op: RebuildOperation, stdout: Seq<u8>, stderr: Seq<u8>) -> Seq<u8> {
    success_note(op) + "\n\n=== Build Output ===\n".spec_bytes() + stdout + "\n".spec_bytes()
        + stderr
}

/// The caller-facing result of a finished rebuild: on success the
/// operation-specific report with the full output; on failure the classified
/// diagnosis together with the raw diagnostics, so the operator keeps the
/// ground truth.
pub fn rebuild_outcome(op: RebuildOperation, outcome: CommandOutcome) -> (r: Result<
    Vec<u8>,
    CoreError,
>)
    ensures
        match r {
            Ok(msg) => {
                &&& outcome.succeeded
                &&& msg@ == if op_is_buffered(op) {
                    dry_run_report(outcome.stdout@, outcome.stderr@)
                } else {
                    build_report(op, outcome.stdout@, outcome.stderr@)
                }
            },
            Err(e) => {
                &&& !outcome.succeeded
                &&& match e {
                    CoreError::SubprocessFailed { class, stderr } => {
                        &&& class == classify_model(outcome.stderr@)
                        &&& stderr@ == outcome.stderr@
                    },
                    _ => false,
                }
            },
        },
{
    if !outcome.succeeded {
        let class = classify_failure(outcome.stderr.as_slice());
        return Err(CoreError::SubprocessFailed { class, stderr: outcome.stderr });
    }
    if is_buffered(op) {
        let mut msg = ("=== Dry Run Results ===\n").as_bytes_vec();
        msg.extend_from_slice(outcome.stdout.as_slice());
        msg.extend_from_slice(("\n").as_bytes_vec().as_slice());
        msg.extend_from_slice(outcome.stderr.as_slice());
        proof {
            assert(msg@ =~= dry_run_report(outcome.stdout@, outcome.stderr@));
        }
        Ok(msg)
    } else {
        let mut msg: Vec<u8> = match op {
            RebuildOperation::Switch => (
            "System configuration switched! Changes are now active."
            ).as_bytes_vec(),
            RebuildOperation::Boot => (
            "Boot configuration updated. Changes will apply on next reboot."
            ).as_bytes_vec(),
            RebuildOperation::Test => (
            "Test configuration activated. This is temporary."
            ).as_bytes_vec(),
            RebuildOperation::Build => (
            "Configuration built successfully. No activation performed."
            ).as_bytes_vec(),
            _ => ("Operation completed successfully.").as_bytes_vec(),
        };
        msg.extend_from_slice(("\n\n=== Build Output ===\n").as_bytes_vec().as_slice());
        msg.extend_from_slice(outcome.stdout.as_slice());
        msg.extend_from_slice(("\n").as_bytes_vec().as_slice());
        msg.extend_from_slice(outcome.stderr.as_slice());
        proof {
            assert(msg@ =~= build_report(op, outcome.stdout@, outcome.stderr@));
        }
        Ok(msg)
    }
}

} // verus!
