//! The command layer: plans for the fixed set of external tools, the shape
//! of a finished invocation, and the final program/argument vector actually
//! spawned. Arguments are always a discrete vector, never a shell line, and
//! elevation is expressed only by wrapping through the privilege helper.

use vstd::prelude::*;
use vstd::string::StringSliceAdditionalSpecFns;
use vstd::string::StrSliceExecFns;
use crate::text::views_of;
use crate::errors::CoreError;

verus! {

/// One planned tool invocation: program, argument vector, whether it must run
/// through the privilege-elevation helper, and whether its output is streamed
/// to the caller as it is produced rather than only returned at completion.
pub struct CommandPlan {
    pub program: Vec<u8>,
    pub args: Vec<Vec<u8>>,
    pub needs_elevation: bool,
    pub streaming: bool,
}

/// The result of one finished tool invocation.
pub struct CommandOutcome {
    pub succeeded: bool,
    pub stdout: Vec<u8>,
    pub stderr: Vec<u8>,
    pub exit_code: i32,
}

/// The privilege-elevation helper's program name.
pub open spec fn sudo_name() -> Seq<u8> {
    "sudo".spec_bytes()
}

/// The program and argument vector to spawn for a plan: a plan that needs
/// elevation runs the helper with the real program as its first argument;
/// any other plan runs the program directly.
pub fn final_argv(plan: CommandPlan) -> (r: (Vec<u8>, Vec<Vec<u8>>))
    ensures
        plan.needs_elevation ==> r.0@ == sudo_name() && views_of(r.1@) == seq![
            plan.program@,
        ] + views_of(plan.args@),
        !plan.needs_elevation ==> r.0@ == plan.program@ && views_of(r.1@) == views_of(
            plan.args@,
        ),
{
    if plan.needs_elevation {
        let mut args = plan.args;
        let ghost args0 = args@;
        args.insert(0, plan.program);
        proof {
            assert(views_of(args@) =~= seq![plan.program@] + views_of(args0));
        }
        (("sudo").as_bytes_vec(), args)
    } else {
        (plan.program, plan.args)
    }
}

/// The fixed allow-list of programs a caller-assembled invocation may name.
pub open spec fn is_allowed_program_seq(p: Seq<u8>) -> bool {
    ||| p == "nix".spec_bytes()
    ||| p == "nix-env".spec_bytes()
    ||| p == "nixos-rebuild".spec_bytes()
    ||| p == "nix-channel".spec_bytes()
    ||| p == "nix-collect-garbage".spec_bytes()
    ||| p == "nix-store".spec_bytes()
    ||| p == "systemctl".spec_bytes()
    ||| p == "journalctl".spec_bytes()
    ||| p == "nixos-version".spec_bytes()
}

/// Whether `p` names a tool on the fixed allow-list.
pub fn is_allowed_program(p: &[u8]) -> (r: bool)
    ensures
        r == is_allowed_program_seq(p@),
{
    crate::text::bytes_eq(p, ("nix").as_bytes_vec().as_slice())
        || crate::text::bytes_eq(p, ("nix-env").as_bytes_vec().as_slice())
        || crate::text::bytes_eq(p, ("nixos-rebuild").as_bytes_vec().as_slice())
        || crate::text::bytes_eq(p, ("nix-channel").as_bytes_vec().as_slice())
        || crate::text::bytes_eq(p, ("nix-collect-garbage").as_bytes_vec().as_slice())
        || crate::text::bytes_eq(p, ("nix-store").as_bytes_vec().as_slice())
        || crate::text::bytes_eq(p, ("systemctl").as_bytes_vec().as_slice())
        || crate::text::bytes_eq(p, ("journalctl").as_bytes_vec().as_slice())
        || crate::text::bytes_eq(p, ("nixos-version").as_bytes_vec().as_slice())
}

/// A caller-assembled invocation of one of the allow-listed tools.
pub struct NixCommand {
    pub operation: Operation,
    pub args: Vec<Vec<u8>>,
}

/// The package operations a caller may request by name.
#[derive(Clone, Copy, Debug, PartialEq, Eq, Structural)]
pub enum Operation {
    Install,
    Remove,
    Update,
    Search,
    Info,
}

/// The program each operation runs.
pub open spec fn operation_program(op: Operation) -> Seq<u8> {
    match op {
        Operation::Install => "nix-env".spec_bytes(),
        Operation::Remove => "nix-env".spec_bytes(),
        Operation::Update => "nixos-rebuild".spec_bytes(),
        Operation::Search => "nix".spec_bytes(),
        Operation::Info => "nix-env".spec_bytes(),
    }
}

/// The fixed first argument of each operation.
pub open spec fn operation_flag(op: Operation) -> Seq<u8> {
    match op {
        Operation::Install => "-iA".spec_bytes(),
        Operation::Remove => "-e".spec_bytes(),
        Operation::Update => "switch".spec_bytes(),
        Operation::Search => "search".spec_bytes(),
        Operation::Info => "-qa".spec_bytes(),
    }
}

/// The plan for a caller-assembled package operation: the operation's
/// program, its fixed flag, then the caller's arguments, unelevated and
/// buffered.
pub fn nix_command_plan(cmd: NixCommand) -> (r: CommandPlan)
    ensures
        r.program@ == operation_program(cmd.operation),
        views_of(r.args@) == seq![operation_flag(cmd.operation)] + views_of(cmd.args@),
        !r.needs_elevation,
        !r.streaming,
{
    let program = match cmd.operation {
        Operation::Install => ("nix-env").as_bytes_vec(),
        Operation::Remove => ("nix-env").as_bytes_vec(),
        Operation::Update => ("nixos-rebuild").as_bytes_vec(),
        Operation::Search => ("nix").as_bytes_vec(),
        Operation::Info => ("nix-env").as_bytes_vec(),
    };
    let flag = match cmd.operation {
        Operation::Install => ("-iA").as_bytes_vec(),
        Operation::Remove => ("-e").as_bytes_vec(),
        Operation::Update => ("switch").as_bytes_vec(),
        Operation::Search => ("search").as_bytes_vec(),
        Operation::Info => ("-qa").as_bytes_vec(),
    };
    let mut args = cmd.args;
    let ghost args0 = args@;
    args.insert(0, flag);
    proof {
        assert(views_of(args@) =~= seq![operation_flag(cmd.operation)] + views_of(args0));
    }
    CommandPlan { program, args, needs_elevation: false, streaming: false }
}

/// The caller-facing result of one finished invocation.
pub struct CommandResult {
    pub success: bool,
    pub output: Vec<u8>,
    pub error: Option<Vec<u8>>,
}

/// The caller-facing result of an outcome: its standard output, and its
/// diagnostics exactly when it failed.
pub fn command_result_from_outcome(outcome: CommandOutcome) -> (r: CommandResult)
    ensures
        r.success == outcome.succeeded,
        r.output@ == outcome.stdout@,
        outcome.succeeded ==> r.error is None,
        !outcome.succeeded ==> r.error == Some(outcome.stderr),
{
    if outcome.succeeded {
        CommandResult { success: true, output: outcome.stdout, error: None }
    } else {
        CommandResult { success: false, output: outcome.stdout, error: Some(outcome.stderr) }
    }
}

/// A caller-assembled invocation is refused before any tool runs unless its
/// program is allow-listed; `--dry-run` is appended on request.
pub fn nix_invocation_plan(program: &[u8], args: Vec<Vec<u8>>, dry_run: bool) -> (r: Result<
    CommandPlan,
    CoreError,
>)
    ensures
        match r {
            Ok(plan) => {
                &&& is_allowed_program_seq(program@)
                &&& plan.program@ == program@
                &&& views_of(plan.args@) == if dry_run {
                    views_of(args@).push("--dry-run".spec_bytes())
                } else {
                    views_of(args@)
                }
                &&& !plan.needs_elevation
                &&& !plan.streaming
            },
            Err(e) => !is_allowed_program_seq(program@) && e is InvalidIdentifier,
        },
{
    if !is_allowed_program(program) {
        return Err(CoreError::InvalidIdentifier);
    }
    let mut args = args;
    let ghost args0 = args@;
    if dry_run {
        args.push(("--dry-run").as_bytes_vec());
        proof {
            assert(views_of(args@) =~= views_of(args0).push("--dry-run".spec_bytes()));
        }
    }
    Ok(CommandPlan {
        program: vstd::slice::slice_to_vec(program),
        args,
        needs_elevation: false,
        streaming: false,
    })
}

/// The collected output of a tool run that must succeed: its standard output
/// on exit zero, else its raw diagnostics.
pub fn require_success(outcome: CommandOutcome) -> (r: Result<Vec<u8>, CoreError>)
    ensures
        match r {
            Ok(out) => outcome.succeeded && out@ == outcome.stdout@,
            Err(e) => {
                &&& !outcome.succeeded
                &&& match e {
                    CoreError::SubprocessFailed { class, stderr } => {
                        &&& class is Generic
                        &&& stderr@ == outcome.stderr@
                    },
                    _ => false,
                }
            },
        },
{
    if outcome.succeeded {
        Ok(outcome.stdout)
    } else {
        Err(
            CoreError::SubprocessFailed {
                class: crate::errors::FailureClass::Generic,
                stderr: outcome.stderr,
            },
        )
    }
}

/// Host facts gathered from the version and kernel tools.
pub struct SystemInfo {
    pub nixos_version: Vec<u8>,
    pub kernel_version: Vec<u8>,
    pub architecture: Vec<u8>,
    pub total_packages: usize,
}

/// The plan that reports the distribution version.
pub fn version_plan() -> (r: CommandPlan)
    ensures
        r.program@ == "nixos-version".spec_bytes(),
        views_of(r.args@) == Seq::<Seq<u8>>::empty(),
        !r.needs_elevation,
        !r.streaming,
{
    let args: Vec<Vec<u8>> = Vec::new();
    proof {
        assert(views_of(args@) =~= Seq::<Seq<u8>>::empty());
    }
    CommandPlan {
        program: ("nixos-version").as_bytes_vec(),
        args,
        needs_elevation: false,
        streaming: false,
    }
}

/// The plan that reports one kernel fact: the release for `-r`, the machine
/// architecture for `-m`.
pub fn uname_plan(flag: &[u8]) -> (r: CommandPlan)
    ensures
        r.program@ == "uname".spec_bytes(),
        views_of(r.args@) == seq![flag@],
        !r.needs_elevation,
        !r.streaming,
{
    let mut args: Vec<Vec<u8>> = Vec::new();
    args.push(vstd::slice::slice_to_vec(flag));
    proof {
        assert(views_of(args@) =~= seq![flag@]);
    }
    CommandPlan { program: ("uname").as_bytes_vec(), args, needs_elevation: false, streaming: false }
}

/// Host facts from the tools' outputs, each trimmed; a tool that failed
/// reports Unknown.
pub fn system_info_from_outputs(
    version: &CommandOutcome,
    kernel: &CommandOutcome,
    arch: &CommandOutcome,
) -> (r: SystemInfo)
    ensures
        r.nixos_version@ == if version.succeeded {
            crate::text::trimmed(version.stdout@)
        } else {
            "Unknown".spec_bytes()
        },
        r.kernel_version@ == if kernel.succeeded {
            crate::text::trimmed(kernel.stdout@)
        } else {
            "Unknown".spec_bytes()
        },
        r.architecture@ == if arch.succeeded {
            crate::text::trimmed(arch.stdout@)
        } else {
            "Unknown".spec_bytes()
        },
        r.total_packages == 0,
{
    let nixos_version = if version.succeeded {
        crate::text::trim_bytes(version.stdout.as_slice())
    } else {
        ("Unknown").as_bytes_vec()
    };
    let kernel_version = if kernel.succeeded {
        crate::text::trim_bytes(kernel.stdout.as_slice())
    } else {
        ("Unknown").as_bytes_vec()
    };
    let architecture = if arch.succeeded {
        crate::text::trim_bytes(arch.stdout.as_slice())
    } else {
        ("Unknown").as_bytes_vec()
    };
    SystemInfo { nixos_version, kernel_version, architecture, total_packages: 0 }
}

} // verus!
