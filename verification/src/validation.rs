//! The validation pipeline over configuration text: a syntax stage and an
//! evaluation stage run through the external evaluator, then fixed
//! pattern-based domain rules. The two tool outcomes enter as arguments; the
//! assembly of the result from them and from the text is verified.

use vstd::prelude::*;
use vstd::string::StringSliceAdditionalSpecFns;
use vstd::string::StrSliceExecFns;
use crate::command::{CommandOutcome, CommandPlan};
use crate::text::{contains_seq, contains_subslice, dec_digits, trimmed, views_of};

verus! {

/// The outcome of one validation run. `is_valid` holds exactly when the
/// error list is empty; warnings and suggestions never invalidate.
pub struct ValidationResult {
    pub is_valid: bool,
    pub errors: Vec<Vec<u8>>,
    pub warnings: Vec<Vec<u8>>,
    pub suggestions: Vec<Vec<u8>>,
}

/// The required top-level state-version marker.
pub open spec fn state_version_marker() -> Seq<u8> {
    "system.stateVersion".spec_bytes()
}

/// The text carries the required state-version marker.
pub open spec fn has_state_version(t: Seq<u8>) -> bool {
    contains_seq(t, state_version_marker())
}

/// The text carries an inline plaintext credential assignment.
pub open spec fn has_hardcoded_password(t: Seq<u8>) -> bool {
    ||| contains_seq(t, "password = \"".spec_bytes())
    ||| contains_seq(t, "hashedPassword = \"\"".spec_bytes())
}

/// The text declares imports or is flake-based.
pub open spec fn has_imports(t: Seq<u8>) -> bool {
    contains_seq(t, "imports".spec_bytes()) || contains_seq(t, "flake".spec_bytes())
}

/// The text configures boot without an early boot message hook.
pub open spec fn wants_boot_hook(t: Seq<u8>) -> bool {
    contains_seq(t, "boot.".spec_bytes()) && !contains_seq(
        t,
        "boot.initrd.preDeviceCommands".spec_bytes(),
    )
}

/// The text enables the insecure remote-shell service.
pub open spec fn enables_telnet(t: Seq<u8>) -> bool {
    contains_seq(t, "services.telnet.enable = true".spec_bytes())
}

/// The text configures the firewall.
pub open spec fn has_firewall(t: Seq<u8>) -> bool {
    contains_seq(t, "networking.firewall".spec_bytes())
}

/// The text enables the display server without the newer protocol.
pub open spec fn wants_wayland(t: Seq<u8>) -> bool {
    contains_seq(t, "services.xserver.enable = true".spec_bytes()) && !contains_seq(
        t,
        "wayland".spec_bytes(),
    )
}

/// The text configures automatic upgrades.
pub open spec fn has_auto_upgrade(t: Seq<u8>) -> bool {
    contains_seq(t, "system.autoUpgrade".spec_bytes())
}

/// The text configures documentation.
pub open spec fn has_documentation(t: Seq<u8>) -> bool {
    contains_seq(t, "documentation.".spec_bytes())
}

/// The text opts into experimental evaluator features.
pub open spec fn uses_experimental_features(t: Seq<u8>) -> bool {
    contains_seq(t, "nix.settings.experimental-features".spec_bytes())
}

pub open spec fn missing_state_version_msg() -> Seq<u8> {
    "Missing system.stateVersion - this is essential for system stability".spec_bytes()
}

pub open spec fn hardcoded_password_msg() -> Seq<u8> {
    "Detected hardcoded password - use hashedPassword or passwordFile instead".spec_bytes()
}

pub open spec fn no_imports_msg() -> Seq<u8> {
    "No imports detected - consider modularizing your configuration".spec_bytes()
}

pub open spec fn boot_hook_msg() -> Seq<u8> {
    "Consider adding an early boot message with boot.initrd.preDeviceCommands".spec_bytes()
}

pub open spec fn telnet_msg() -> Seq<u8> {
    "Telnet is insecure - consider using SSH instead".spec_bytes()
}

pub open spec fn firewall_msg() -> Seq<u8> {
    "No firewall configuration detected - consider enabling with networking.firewall.enable".spec_bytes()
}

pub open spec fn wayland_msg() -> Seq<u8> {
    "Consider Wayland for better security and performance: services.xserver.displayManager.gdm.wayland = true".spec_bytes()
}

pub open spec fn auto_upgrade_msg() -> Seq<u8> {
    "Consider enabling automatic security updates with system.autoUpgrade".spec_bytes()
}

pub open spec fn documentation_msg() -> Seq<u8> {
    "Enable documentation with documentation.enable = true for better system understanding".spec_bytes()
}

pub open spec fn experimental_msg() -> Seq<u8> {
    "Using experimental Nix features - these may change in future releases".spec_bytes()
}

/// The syntax-stage error message: a fixed prefix, then the tool's trimmed
/// diagnostics.
pub open spec fn syntax_error_msg(stderr: Seq<u8>) -> Seq<u8> {
    "Syntax error: ".spec_bytes() + trimmed(stderr)
}

/// The evaluation-stage warning message: a fixed prefix, then the tool's
/// trimmed diagnostics.
pub open spec fn eval_warning_msg(stderr: Seq<u8>) -> Seq<u8> {
    "Evaluation warning: ".spec_bytes() + trimmed(stderr)
}

/// The full error list of a validation run: the syntax error when the parse
/// stage failed, then the pattern-rule errors in their fixed order.
pub open spec fn errors_model(t: Seq<u8>, syntax_err: Option<Seq<u8>>) -> Seq<Seq<u8>> {
    (match syntax_err {
        Some(e) => seq![syntax_error_msg(e)],
        None => Seq::empty(),
    }) + (if has_state_version(t) {
        Seq::<Seq<u8>>::empty()
    } else {
        seq![missing_state_version_msg()]
    }) + (if has_hardcoded_password(t) {
        seq![hardcoded_password_msg()]
    } else {
        Seq::<Seq<u8>>::empty()
    })
}

/// The full warning list of a validation run: the evaluation warning when the
/// evaluation stage failed, then the pattern-rule warnings in their fixed
/// order. Evaluation failure never invalidates.
pub open spec fn warnings_model(t: Seq<u8>, eval_warn: Option<Seq<u8>>) -> Seq<Seq<u8>> {
    (match eval_warn {
        Some(e) => seq![eval_warning_msg(e)],
        None => Seq::empty(),
    }) + (if has_imports(t) {
        Seq::<Seq<u8>>::empty()
    } else {
        seq![no_imports_msg()]
    }) + (if enables_telnet(t) {
        seq![telnet_msg()]
    } else {
        Seq::<Seq<u8>>::empty()
    }) + (if uses_experimental_features(t) {
        seq![experimental_msg()]
    } else {
        Seq::<Seq<u8>>::empty()
    })
}

/// The full suggestion list of a validation run, in its fixed order.
pub open spec fn suggestions_model(t: Seq<u8>) -> Seq<Seq<u8>> {
    (if wants_boot_hook(t) {
        seq![boot_hook_msg()]
    } else {
        Seq::<Seq<u8>>::empty()
    }) + (if has_firewall(t) {
        Seq::<Seq<u8>>::empty()
    } else {
        seq![firewall_msg()]
    }) + (if wants_wayland(t) {
        seq![wayland_msg()]
    } else {
        Seq::<Seq<u8>>::empty()
    }) + (if has_auto_upgrade(t) {
        Seq::<Seq<u8>>::empty()
    } else {
        seq![auto_upgrade_msg()]
    }) + (if has_documentation(t) {
        Seq::<Seq<u8>>::empty()
    } else {
        seq![documentation_msg()]
    })
}

/// The text passes validation: the parse stage succeeded and no pattern rule
/// raised an error.
pub open spec fn is_valid_model(t: Seq<u8>, syntax_ok: bool) -> bool {
    syntax_ok && has_state_version(t) && !has_hardcoded_password(t)
}

/// The evaluation diagnostics a run records: only when the parse stage
/// succeeded, the evaluation ran and failed, and its diagnostics carry an
/// error marker.
pub open spec fn eval_warn_model(
    syntax_ok: bool,
    eval: Option<CommandOutcome>,
) -> Option<Seq<u8>> {
    if syntax_ok {
        match eval {
            Some(o) => if !o.succeeded && contains_seq(o.stderr@, "error:".spec_bytes()) {
                Some(o.stderr@)
            } else {
                None
            },
            None => None,
        }
    } else {
        None
    }
}

impl ValidationResult {
    /// The result's lists as mathematical sequences.
    pub open spec fn errors_seq(&self) -> Seq<Seq<u8>> {
        views_of(self.errors@)
    }

    pub open spec fn warnings_seq(&self) -> Seq<Seq<u8>> {
        views_of(self.warnings@)
    }

    pub open spec fn suggestions_seq(&self) -> Seq<Seq<u8>> {
        views_of(self.suggestions@)
    }

    /// Append the structural-rule findings: the required state-version
    /// marker (an error that invalidates), missing imports (a warning) and a
    /// missing early-boot hook (a suggestion).
    pub fn check_sacred_patterns(&mut self, content: &[u8])
        ensures
            final(self).errors_seq() == old(self).errors_seq() + (if has_state_version(
                content@,
            ) {
                Seq::<Seq<u8>>::empty()
            } else {
                seq![missing_state_version_msg()]
            }),
            final(self).warnings_seq() == old(self).warnings_seq() + (if has_imports(content@) {
                Seq::<Seq<u8>>::empty()
            } else {
                seq![no_imports_msg()]
            }),
            final(self).suggestions_seq() == old(self).suggestions_seq() + (if wants_boot_hook(
                content@,
            ) {
                seq![boot_hook_msg()]
            } else {
                Seq::<Seq<u8>>::empty()
            }),
            final(self).is_valid == (old(self).is_valid && has_state_version(content@)),
    {
        let ghost e0 = self.errors_seq();
        let ghost w0 = self.warnings_seq();
        let ghost g0 = self.suggestions_seq();
        if !contains_subslice(content, ("system.stateVersion").as_bytes_vec().as_slice()) {
            self.errors.push(
                ("Missing system.stateVersion - this is essential for system stability").as_bytes_vec(),
            );
            self.is_valid = false;
            proof {
                assert(self.errors_seq() =~= e0.push(missing_state_version_msg()));
            }
        }
        if !(contains_subslice(content, ("imports").as_bytes_vec().as_slice())
            || contains_subslice(content, ("flake").as_bytes_vec().as_slice())) {
            self.warnings.push(
                ("No imports detected - consider modularizing your configuration").as_bytes_vec(),
            );
            proof {
                assert(self.warnings_seq() =~= w0.push(no_imports_msg()));
            }
        }
        if contains_subslice(content, ("boot.").as_bytes_vec().as_slice()) && !contains_subslice(
            content,
            ("boot.initrd.preDeviceCommands").as_bytes_vec().as_slice(),
        ) {
            self.suggestions.push(
                ("Consider adding an early boot message with boot.initrd.preDeviceCommands").as_bytes_vec(),
            );
            proof {
                assert(self.suggestions_seq() =~= g0.push(boot_hook_msg()));
            }
        }
        proof {
            if has_state_version(content@) {
                assert(final(self).errors_seq() =~= e0 + Seq::<Seq<u8>>::empty());
            } else {
                assert(final(self).errors_seq() =~= e0 + seq![missing_state_version_msg()]);
            }
            if has_imports(content@) {
                assert(final(self).warnings_seq() =~= w0 + Seq::<Seq<u8>>::empty());
            } else {
                assert(final(self).warnings_seq() =~= w0 + seq![no_imports_msg()]);
            }
            if wants_boot_hook(content@) {
                assert(final(self).suggestions_seq() =~= g0 + seq![boot_hook_msg()]);
            } else {
                assert(final(self).suggestions_seq() =~= g0 + Seq::<Seq<u8>>::empty());
            }
        }
    }

    /// Append the security-rule findings: an inline credential (an error that
    /// invalidates), an insecure remote shell (a warning) and a missing
    /// firewall (a suggestion).
    pub fn check_security_patterns(&mut self, content: &[u8])
        ensures
            final(self).errors_seq() == old(self).errors_seq() + (if has_hardcoded_password(
                content@,
            ) {
                seq![hardcoded_password_msg()]
            } else {
                Seq::<Seq<u8>>::empty()
            }),
            final(self).warnings_seq() == old(self).warnings_seq() + (if enables_telnet(
                content@,
            ) {
                seq![telnet_msg()]
            } else {
                Seq::<Seq<u8>>::empty()
            }),
            final(self).suggestions_seq() == old(self).suggestions_seq() + (if has_firewall(
                content@,
            ) {
                Seq::<Seq<u8>>::empty()
            } else {
                seq![firewall_msg()]
            }),
            final(self).is_valid == (old(self).is_valid && !has_hardcoded_password(content@)),
    {
        let ghost e0 = self.errors_seq();
        let ghost w0 = self.warnings_seq();
        let ghost g0 = self.suggestions_seq();
        if contains_subslice(content, ("password = \"").as_bytes_vec().as_slice())
            || contains_subslice(content, ("hashedPassword = \"\"").as_bytes_vec().as_slice()) {
            self.errors.push(
                ("Detected hardcoded password - use hashedPassword or passwordFile instead").as_bytes_vec(),
            );
            self.is_valid = false;
            proof {
                assert(self.errors_seq() =~= e0.push(hardcoded_password_msg()));
            }
        }
        if contains_subslice(content, ("services.telnet.enable = true").as_bytes_vec().as_slice()) {
            self.warnings.push(("Telnet is insecure - consider using SSH instead").as_bytes_vec());
            proof {
                assert(self.warnings_seq() =~= w0.push(telnet_msg()));
            }
        }
        if !contains_subslice(content, ("networking.firewall").as_bytes_vec().as_slice()) {
            self.suggestions.push(
                ("No firewall configuration detected - consider enabling with networking.firewall.enable").as_bytes_vec(),
            );
            proof {
                assert(self.suggestions_seq() =~= g0.push(firewall_msg()));
            }
        }
        proof {
            if has_hardcoded_password(content@) {
                assert(final(self).errors_seq() =~= e0 + seq![hardcoded_password_msg()]);
            } else {
                assert(final(self).errors_seq() =~= e0 + Seq::<Seq<u8>>::empty());
            }
            if enables_telnet(content@) {
                assert(final(self).warnings_seq() =~= w0 + seq![telnet_msg()]);
            } else {
                assert(final(self).warnings_seq() =~= w0 + Seq::<Seq<u8>>::empty());
            }
            if has_firewall(content@) {
                assert(final(self).suggestions_seq() =~= g0 + Seq::<Seq<u8>>::empty());
            } else {
                assert(final(self).suggestions_seq() =~= g0 + seq![firewall_msg()]);
            }
        }
    }

    /// Append the best-practice findings: display-protocol, auto-upgrade and
    /// documentation suggestions, and an experimental-features warning.
    pub fn check_best_practices(&mut self, content: &[u8])
        ensures
            final(self).errors_seq() == old(self).errors_seq(),
            final(self).warnings_seq() == old(self).warnings_seq() + (
            if uses_experimental_features(content@) {
                seq![experimental_msg()]
            } else {
                Seq::<Seq<u8>>::empty()
            }),
            final(self).suggestions_seq() == old(self).suggestions_seq() + (if wants_wayland(
                content@,
            ) {
                seq![wayland_msg()]
            } else {
                Seq::<Seq<u8>>::empty()
            }) + (if has_auto_upgrade(content@) {
                Seq::<Seq<u8>>::empty()
            } else {
                seq![auto_upgrade_msg()]
            }) + (if has_documentation(content@) {
                Seq::<Seq<u8>>::empty()
            } else {
                seq![documentation_msg()]
            }),
            final(self).is_valid == old(self).is_valid,
    {
        let ghost w0 = self.warnings_seq();
        let ghost g0 = self.suggestions_seq();
        if contains_subslice(
            content,
            ("services.xserver.enable = true").as_bytes_vec().as_slice(),
        ) && !contains_subslice(content, ("wayland").as_bytes_vec().as_slice()) {
            self.suggestions.push(
                ("Consider Wayland for better security and performance: services.xserver.displayManager.gdm.wayland = true").as_bytes_vec(),
            );
            proof {
                assert(self.suggestions_seq() =~= g0.push(wayland_msg()));
            }
        }
        let ghost g1 = self.suggestions_seq();
        if !contains_subslice(content, ("system.autoUpgrade").as_bytes_vec().as_slice()) {
            self.suggestions.push(
                ("Consider enabling automatic security updates with system.autoUpgrade").as_bytes_vec(),
            );
            proof {
                assert(self.suggestions_seq() =~= g1.push(auto_upgrade_msg()));
            }
        }
        let ghost g2 = self.suggestions_seq();
        if !contains_subslice(content, ("documentation.").as_bytes_vec().as_slice()) {
            self.suggestions.push(
                ("Enable documentation with documentation.enable = true for better system understanding").as_bytes_vec(),
            );
            proof {
                assert(self.suggestions_seq() =~= g2.push(documentation_msg()));
            }
        }
        if contains_subslice(
            content,
            ("nix.settings.experimental-features").as_bytes_vec().as_slice(),
        ) {
            self.warnings.push(
                ("Using experimental Nix features - these may change in future releases").as_bytes_vec(),
            );
            proof {
                assert(self.warnings_seq() =~= w0.push(experimental_msg()));
            }
        }
        proof {
            if uses_experimental_features(content@) {
                assert(final(self).warnings_seq() =~= w0 + seq![experimental_msg()]);
            } else {
                assert(final(self).warnings_seq() =~= w0 + Seq::<Seq<u8>>::empty());
            }
            assert(final(self).suggestions_seq() =~= g0 + (if wants_wayland(content@) {
                seq![wayland_msg()]
            } else {
                Seq::<Seq<u8>>::empty()
            }) + (if has_auto_upgrade(content@) {
                Seq::<Seq<u8>>::empty()
            } else {
                seq![auto_upgrade_msg()]
            }) + (if has_documentation(content@) {
                Seq::<Seq<u8>>::empty()
            } else {
                seq![documentation_msg()]
            }));
        }
    }

    /// The result of validating `content`, given the parse stage's outcome
    /// and, when it ran, the evaluation stage's.
    pub fn from_outcomes(
        content: &[u8],
        syntax: &CommandOutcome,
        eval: Option<&CommandOutcome>,
    ) -> (r: ValidationResult)
        ensures
            r.is_valid == is_valid_model(content@, syntax.succeeded),
            r.is_valid == (r.errors_seq().len() == 0),
            r.errors_seq() == errors_model(
                content@,
                if syntax.succeeded {
                    None
                } else {
                    Some(syntax.stderr@)
                },
            ),
            r.warnings_seq() == warnings_model(
                content@,
                eval_warn_model(
                    syntax.succeeded,
                    match eval {
                        Some(o) => Some(*o),
                        None => None,
                    },
                ),
            ),
            r.suggestions_seq() == suggestions_model(content@),
    {
        let mut r = ValidationResult {
            is_valid: true,
            errors: Vec::new(),
            warnings: Vec::new(),
            suggestions: Vec::new(),
        };
        proof {
            assert(r.errors_seq() =~= Seq::<Seq<u8>>::empty());
            assert(r.warnings_seq() =~= Seq::<Seq<u8>>::empty());
            assert(r.suggestions_seq() =~= Seq::<Seq<u8>>::empty());
        }
        // Syntax stage: a parse failure invalidates and records the trimmed
        // diagnostics.
        if !syntax.succeeded {
            let mut msg = ("Syntax error: ").as_bytes_vec();
            let tail = crate::text::trim_bytes(syntax.stderr.as_slice());
            msg.extend_from_slice(tail.as_slice());
            assert(msg@ == syntax_error_msg(syntax.stderr@));
            let ghost e0 = r.errors_seq();
            r.errors.push(msg);
            r.is_valid = false;
            proof {
                assert(r.errors_seq() =~= e0.push(syntax_error_msg(syntax.stderr@)));
            }
        }
        // Evaluation stage, skipped when parsing failed: a failure is a
        // warning, never an error, since strict evaluation may legitimately
        // fail for environment-dependent expressions.
        if syntax.succeeded {
            if let Some(o) = eval {
                if !o.succeeded && contains_subslice(
                    o.stderr.as_slice(),
                    ("error:").as_bytes_vec().as_slice(),
                ) {
                    let mut msg = ("Evaluation warning: ").as_bytes_vec();
                    let tail = crate::text::trim_bytes(o.stderr.as_slice());
                    msg.extend_from_slice(tail.as_slice());
                    assert(msg@ == eval_warning_msg(o.stderr@));
                    let ghost w0 = r.warnings_seq();
                    r.warnings.push(msg);
                    proof {
                        assert(r.warnings_seq() =~= w0.push(eval_warning_msg(o.stderr@)));
                    }
                }
            }
        }
        r.check_sacred_patterns(content);
        r.check_security_patterns(content);
        r.check_best_practices(content);
        proof {
            assert(r.errors_seq() =~= errors_model(
                content@,
                if syntax.succeeded {
                    None
                } else {
                    Some(syntax.stderr@)
                },
            ));
            assert(r.warnings_seq() =~= warnings_model(
                content@,
                eval_warn_model(
                    syntax.succeeded,
                    match eval {
                        Some(o) => Some(*o),
                        None => None,
                    },
                ),
            ));
            assert(r.suggestions_seq() =~= suggestions_model(content@));
        }
        r
    }
}

/// The uniquely named temporary file a validation run stages its candidate
/// text in.
pub open spec fn temp_path_model(token: u64) -> Seq<u8> {
    "/tmp/nixos-validate-".spec_bytes() + dec_digits(token as nat) + ".nix".spec_bytes()
}

/// The temporary staging path of a validation run with uniqueness token
/// `token`. No two concurrent validations share a token.
pub fn validation_temp_path(token: u64) -> (r: Vec<u8>)
    ensures
        r@ == temp_path_model(token),
{
    let mut r = ("/tmp/nixos-validate-").as_bytes_vec();
    let digits = crate::text::u64_to_dec(token);
    r.extend_from_slice(digits.as_slice());
    r.extend_from_slice((".nix").as_bytes_vec().as_slice());
    proof {
        assert(r@ =~= temp_path_model(token));
    }
    r
}

/// The parse-only syntax check over the staged candidate text.
pub fn syntax_check_plan(temp_path: &[u8]) -> (r: CommandPlan)
    ensures
        r.program@ == "nix-instantiate".spec_bytes(),
        views_of(r.args@) == seq!["--parse".spec_bytes(), temp_path@],
        !r.needs_elevation,
        !r.streaming,
{
    let mut args: Vec<Vec<u8>> = Vec::new();
    args.push(("--parse").as_bytes_vec());
    args.push(vstd::slice::slice_to_vec(temp_path));
    proof {
        assert(views_of(args@) =~= seq!["--parse".spec_bytes(), temp_path@]);
    }
    CommandPlan {
        program: ("nix-instantiate").as_bytes_vec(),
        args,
        needs_elevation: false,
        streaming: false,
    }
}

/// The strict evaluation of the required top-level attribute of the staged
/// candidate text.
pub fn eval_check_plan(temp_path: &[u8]) -> (r: CommandPlan)
    ensures
        r.program@ == "nix-instantiate".spec_bytes(),
        views_of(r.args@) == seq![
            "--eval".spec_bytes(),
            "--strict".spec_bytes(),
            "--json".spec_bytes(),
            temp_path@,
            "-A".spec_bytes(),
            "system".spec_bytes(),
        ],
        !r.needs_elevation,
        !r.streaming,
{
    let mut args: Vec<Vec<u8>> = Vec::new();
    args.push(("--eval").as_bytes_vec());
    args.push(("--strict").as_bytes_vec());
    args.push(("--json").as_bytes_vec());
    args.push(vstd::slice::slice_to_vec(temp_path));
    args.push(("-A").as_bytes_vec());
    args.push(("system").as_bytes_vec());
    proof {
        assert(views_of(args@) =~= seq![
            "--eval".spec_bytes(),
            "--strict".spec_bytes(),
            "--json".spec_bytes(),
            temp_path@,
            "-A".spec_bytes(),
            "system".spec_bytes(),
        ]);
    }
    CommandPlan {
        program: ("nix-instantiate").as_bytes_vec(),
        args,
        needs_elevation: false,
        streaming: false,
    }
}

} // verus!
