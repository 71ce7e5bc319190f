//! The permission vocabulary of caller-facing operations, and the static
//! sanitization every caller-assembled invocation passes before any tool
//! runs.

use vstd::prelude::*;
use vstd::string::StringSliceAdditionalSpecFns;
use vstd::string::StrSliceExecFns;
use crate::command::{NixCommand, Operation};
use crate::errors::CoreError;
use crate::text::{contains_seq, contains_subslice, views_of};

verus! {

/// The capabilities a caller may hold. The binding of a capability to a
/// caller identity is supplied by the embedding application; this crate only
/// fixes the vocabulary and which capabilities require elevation.
#[derive(Clone, Copy, Debug, PartialEq, Eq, Structural)]
pub enum Permission {
    ReadConfig,
    WriteConfig,
    ValidateConfig,
    RebuildSystem,
    ManagePackages,
    ManageServices,
    ViewSystemInfo,
    ModifySystemSettings,
}

impl Permission {
    /// A fixed description of the capability.
    pub fn description(&self) -> (r: &'static str)
        ensures
            r@ == match self {
                Permission::ReadConfig => "Read NixOS configuration files"@,
                Permission::WriteConfig => "Modify NixOS configuration files"@,
                Permission::ValidateConfig => "Validate configuration syntax"@,
                Permission::RebuildSystem => "Rebuild and switch NixOS system"@,
                Permission::ManagePackages => "Install, update, or remove packages"@,
                Permission::ManageServices => "Start, stop, or configure services"@,
                Permission::ViewSystemInfo => "View system information and statistics"@,
                Permission::ModifySystemSettings => "Modify critical system settings"@,
            },
    {
        match self {
            Permission::ReadConfig => "Read NixOS configuration files",
            Permission::WriteConfig => "Modify NixOS configuration files",
            Permission::ValidateConfig => "Validate configuration syntax",
            Permission::RebuildSystem => "Rebuild and switch NixOS system",
            Permission::ManagePackages => "Install, update, or remove packages",
            Permission::ManageServices => "Start, stop, or configure services",
            Permission::ViewSystemInfo => "View system information and statistics",
            Permission::ModifySystemSettings => "Modify critical system settings",
        }
    }

    /// Whether exercising the capability requires elevation.
    pub fn requires_sudo(&self) -> (r: bool)
        ensures
            r == (self is WriteConfig || self is RebuildSystem || self is ManagePackages
                || self is ManageServices || self is ModifySystemSettings),
    {
        match self {
            Permission::WriteConfig => true,
            Permission::RebuildSystem => true,
            Permission::ManagePackages => true,
            Permission::ManageServices => true,
            Permission::ModifySystemSettings => true,
            _ => false,
        }
    }
}

/// An argument carries a shell metacharacter, a substitution, a redirection
/// or a path-traversal sequence.
pub open spec fn dangerous_pattern(s: Seq<u8>) -> bool {
    ||| contains_seq(s, "..".spec_bytes())
    ||| contains_seq(s, "$(".spec_bytes())
    ||| contains_seq(s, "${".spec_bytes())
    ||| contains_seq(s, "`".spec_bytes())
    ||| contains_seq(s, "&&".spec_bytes())
    ||| contains_seq(s, "||".spec_bytes())
    ||| contains_seq(s, ";".spec_bytes())
    ||| contains_seq(s, "|".spec_bytes())
    ||| contains_seq(s, ">".spec_bytes())
    ||| contains_seq(s, "<".spec_bytes())
}

/// Whether an argument carries a pattern that must never reach a shell-
/// adjacent tool.
pub fn contains_dangerous_pattern(s: &[u8]) -> (r: bool)
    ensures
        r == dangerous_pattern(s@),
{
    contains_subslice(s, ("..").as_bytes_vec().as_slice()) || contains_subslice(
        s,
        ("$(").as_bytes_vec().as_slice(),
    ) || contains_subslice(s, ("${").as_bytes_vec().as_slice()) || contains_subslice(
        s,
        ("`").as_bytes_vec().as_slice(),
    ) || contains_subslice(s, ("&&").as_bytes_vec().as_slice()) || contains_subslice(
        s,
        ("||").as_bytes_vec().as_slice(),
    ) || contains_subslice(s, (";").as_bytes_vec().as_slice()) || contains_subslice(
        s,
        ("|").as_bytes_vec().as_slice(),
    ) || contains_subslice(s, (">").as_bytes_vec().as_slice()) || contains_subslice(
        s,
        ("<").as_bytes_vec().as_slice(),
    )
}

/// A byte a package name may hold: ASCII letters and digits, hyphen, dot and
/// underscore.
pub open spec fn package_name_byte(b: u8) -> bool {
    ||| 48 <= b <= 57
    ||| 65 <= b <= 90
    ||| 97 <= b <= 122
    ||| b == 45
    ||| b == 46
    ||| b == 95
}

/// Every byte of a package name is acceptable.
pub open spec fn valid_package_name(s: Seq<u8>) -> bool {
    forall|i: int| 0 <= i < s.len() ==> package_name_byte(#[trigger] s[i])
}

/// Whether a package name holds only acceptable bytes.
pub fn is_valid_package_name(name: &[u8]) -> (r: bool)
    ensures
        r == valid_package_name(name@),
{
    let n = name.len();
    let mut i: usize = 0;
    while i < n
        invariant
            0 <= i <= n,
            name@.len() == n,
            forall|k: int| 0 <= k < i ==> package_name_byte(#[trigger] name@[k]),
        decreases n - i,
    {
        let b = name[i];
        if !((48 <= b && b <= 57) || (65 <= b && b <= 90) || (97 <= b && b <= 122) || b == 45
            || b == 46 || b == 95) {
            return false;
        }
        i = i + 1;
    }
    true
}

/// The shared identifier gate of the package and service managers: an
/// identifier is acceptable when it is nonempty and free of path traversal
/// and shell metacharacters. Such a name never reaches a tool.
pub open spec fn valid_identifier(n: Seq<u8>) -> bool {
    &&& n.len() != 0
    &&& !contains_seq(n, "..".spec_bytes())
    &&& !contains_seq(n, "/".spec_bytes())
    &&& !contains_seq(n, ";".spec_bytes())
    &&& !contains_seq(n, "&".spec_bytes())
    &&& !contains_seq(n, "|".spec_bytes())
    &&& !contains_seq(n, "$".spec_bytes())
}

/// Whether an identifier may reach a tool at all.
pub fn is_valid_identifier(name: &[u8]) -> (r: bool)
    ensures
        r == valid_identifier(name@),
{
    name.len() != 0 && !contains_subslice(name, ("..").as_bytes_vec().as_slice())
        && !contains_subslice(name, ("/").as_bytes_vec().as_slice()) && !contains_subslice(
        name,
        (";").as_bytes_vec().as_slice(),
    ) && !contains_subslice(name, ("&").as_bytes_vec().as_slice()) && !contains_subslice(
        name,
        ("|").as_bytes_vec().as_slice(),
    ) && !contains_subslice(name, ("$").as_bytes_vec().as_slice())
}

/// Some argument carries a dangerous pattern.
pub open spec fn any_dangerous(args: Seq<Seq<u8>>) -> bool {
    exists|i: int| 0 <= i < args.len() && dangerous_pattern(#[trigger] args[i])
}

/// Every argument is an acceptable package name.
pub open spec fn all_valid_names(args: Seq<Seq<u8>>) -> bool {
    forall|i: int| 0 <= i < args.len() ==> valid_package_name(#[trigger] args[i])
}

/// Some argument asks for a rollback.
pub open spec fn any_rollback(args: Seq<Seq<u8>>) -> bool {
    exists|i: int|
        0 <= i < args.len() && contains_seq(#[trigger] args[i], "--rollback".spec_bytes())
}

/// A caller-assembled invocation is safe to execute: no argument carries a
/// dangerous pattern, package operations name only acceptable packages, and
/// an update never rolls back without explicit confirmation elsewhere.
pub open spec fn command_safe(op: Operation, args: Seq<Seq<u8>>) -> bool {
    &&& !any_dangerous(args)
    &&& (op is Install || op is Remove) ==> all_valid_names(args)
    &&& op is Update ==> !any_rollback(args)
}

/// Statically validate a caller-assembled invocation before any tool runs.
pub fn validate_command(command: &NixCommand) -> (r: Result<(), CoreError>)
    ensures
        match r {
            Ok(()) => command_safe(command.operation, views_of(command.args@)),
            Err(e) => {
                &&& !command_safe(command.operation, views_of(command.args@))
                &&& if any_dangerous(views_of(command.args@)) {
                    e is InvalidIdentifier
                } else if (command.operation is Install || command.operation is Remove)
                    && !all_valid_names(views_of(command.args@)) {
                    e is InvalidIdentifier
                } else {
                    match e {
                        CoreError::InvalidOperation(arg) => {
                            &&& contains_seq(arg@, "--rollback".spec_bytes())
                            &&& views_of(command.args@).contains(arg@)
                        },
                        _ => false,
                    }
                }
            },
        },
{
    let ghost argvs = views_of(command.args@);
    let n = command.args.len();
    let mut i: usize = 0;
    while i < n
        invariant
            0 <= i <= n,
            command.args@.len() == n,
            argvs == views_of(command.args@),
            forall|k: int| 0 <= k < i ==> !dangerous_pattern(#[trigger] argvs[k]),
        decreases n - i,
    {
        if contains_dangerous_pattern(command.args[i].as_slice()) {
            proof {
                assert(dangerous_pattern(argvs[i as int]));
            }
            return Err(CoreError::InvalidIdentifier);
        }
        i = i + 1;
    }
    match command.operation {
        Operation::Install | Operation::Remove => {
            let mut j: usize = 0;
            while j < n
                invariant
                    0 <= j <= n,
                    command.args@.len() == n,
                    argvs == views_of(command.args@),
                    command.operation is Install || command.operation is Remove,
                    forall|k: int| 0 <= k < n ==> !dangerous_pattern(#[trigger] argvs[k]),
                    forall|k: int| 0 <= k < j ==> valid_package_name(#[trigger] argvs[k]),
                decreases n - j,
            {
                if !is_valid_package_name(command.args[j].as_slice()) {
                    proof {
                        assert(!valid_package_name(argvs[j as int]));
                        assert(!all_valid_names(argvs));
                        assert(!any_dangerous(argvs));
                    }
                    return Err(CoreError::InvalidIdentifier);
                }
                j = j + 1;
            }
        },
        Operation::Update => {
            let mut j: usize = 0;
            while j < n
                invariant
                    0 <= j <= n,
                    command.args@.len() == n,
                    argvs == views_of(command.args@),
                    command.operation is Update,
                    forall|k: int| 0 <= k < n ==> !dangerous_pattern(#[trigger] argvs[k]),
                    forall|k: int|
                        0 <= k < j ==> !contains_seq(
                            #[trigger] argvs[k],
                            "--rollback".spec_bytes(),
                        ),
                decreases n - j,
            {
                if contains_subslice(
                    command.args[j].as_slice(),
                    ("--rollback").as_bytes_vec().as_slice(),
                ) {
                    proof {
                        assert(contains_seq(argvs[j as int], "--rollback".spec_bytes()));
                        assert(any_rollback(argvs));
                        assert(!any_dangerous(argvs));
                        assert(views_of(command.args@).contains(argvs[j as int]));
                    }
                    return Err(
                        CoreError::InvalidOperation(
                            vstd::slice::slice_to_vec(command.args[j].as_slice()),
                        ),
                    );
                }
                j = j + 1;
            }
        },
        _ => {},
    }
    Ok(())
}

} // verus!
