//! The configuration store: locating and reading the active configuration,
//! the atomic validated save with its two-phase staged commit, and
//! timestamp-named backups. All steps are verified against the filesystem
//! model; the unverified shell replays them against the real filesystem.

use vstd::prelude::*;
use vstd::string::StringSliceAdditionalSpecFns;
use vstd::string::StrSliceExecFns;
use crate::clock::Timestamp;
use crate::command::CommandOutcome;
use crate::errors::CoreError;
use crate::fs_model::{FileData, FileView, FsState};
use crate::text::{dec_digits, views_of};
use crate::validation::{errors_model, eval_warn_model, is_valid_model, suggestions_model,
    warnings_model, ValidationResult};

verus! {

/// The active configuration: its text, where it was found, its modification
/// time, and whether it is flake-based. A transient value: edits produce a
/// new save request, never a mutation.
pub struct NixosConfig {
    pub content: Vec<u8>,
    pub path: Vec<u8>,
    pub last_modified: i64,
    pub is_flake: bool,
}

/// The flake-style configuration path, searched first.
pub open spec fn flake_path() -> Seq<u8> {
    "/etc/nixos/flake.nix".spec_bytes()
}

/// The legacy single-file configuration path.
pub open spec fn legacy_path() -> Seq<u8> {
    "/etc/nixos/configuration.nix".spec_bytes()
}

/// The per-user configuration path under the caller's home directory.
pub open spec fn user_path(home: Seq<u8>) -> Seq<u8> {
    home + "/.config/nixos/configuration.nix".spec_bytes()
}

/// The default target of a save without an explicit path.
pub fn default_config_path() -> (r: Vec<u8>)
    ensures
        r@ == legacy_path(),
{
    ("/etc/nixos/configuration.nix").as_bytes_vec()
}

/// A file mode under which no read bit at all is set; such a configuration
/// is reported to the operator but still read.
pub fn is_unreadable_mode(mode: u32) -> (r: bool)
    ensures
        r == (mode & 0o444 == 0),
{
    mode & 0o444 == 0
}

/// The staging path of a save: the target with a suffix made unique by the
/// token, so that no two saves share a stage file.
pub open spec fn stage_path_model(target: Seq<u8>, token: u64) -> Seq<u8> {
    target + ".tmp.".spec_bytes() + dec_digits(token as nat)
}

/// The metadata of a committed save: the caller's identity, mode 0644, and
/// the commit time.
pub open spec fn saved_file_view(content: Seq<u8>, uid: u32, gid: u32, mtime: i64) -> FileView {
    FileView { content, uid, gid, mode: 0o644, mtime }
}

proof fn lemma_dec_digits_len(n: nat)
    ensures
        dec_digits(n).len() >= 1,
{
    if n < 10 {
    } else {
    }
}

/// A stage path is never its own target.
pub proof fn lemma_stage_path_differs(target: Seq<u8>, token: u64)
    ensures
        stage_path_model(target, token) != target,
{
    lemma_dec_digits_len(token as nat);
    assert(stage_path_model(target, token).len() > target.len());
}

/// The staging path of a save of `target` with uniqueness token `token`.
pub fn stage_path(target: &[u8], token: u64) -> (r: Vec<u8>)
    ensures
        r@ == stage_path_model(target@, token),
{
    let mut r = vstd::slice::slice_to_vec(target);
    r.extend_from_slice((".tmp.").as_bytes_vec().as_slice());
    let digits = crate::text::u64_to_dec(token);
    r.extend_from_slice(digits.as_slice());
    proof {
        assert(r@ =~= stage_path_model(target@, token));
    }
    r
}

impl NixosConfig {
    /// Read the active configuration: the first existing path among the
    /// flake-style path, the legacy path and the per-user path, in that
    /// order; `NotFound` when none exists.
    pub fn read(fs: &FsState, home: &[u8]) -> (r: Result<NixosConfig, CoreError>)
        requires
            fs.wf(),
        ensures
            match r {
                Ok(c) => {
                    &&& if fs@.contains_key(flake_path()) {
                        &&& c.path@ == flake_path()
                        &&& c.is_flake
                        &&& c.content@ == fs@[flake_path()].content
                        &&& c.last_modified == fs@[flake_path()].mtime
                    } else if fs@.contains_key(legacy_path()) {
                        &&& c.path@ == legacy_path()
                        &&& !c.is_flake
                        &&& c.content@ == fs@[legacy_path()].content
                        &&& c.last_modified == fs@[legacy_path()].mtime
                    } else {
                        &&& fs@.contains_key(user_path(home@))
                        &&& c.path@ == user_path(home@)
                        &&& !c.is_flake
                        &&& c.content@ == fs@[user_path(home@)].content
                        &&& c.last_modified == fs@[user_path(home@)].mtime
                    }
                },
                Err(e) => {
                    &&& e is NotFound
                    &&& !fs@.contains_key(flake_path())
                    &&& !fs@.contains_key(legacy_path())
                    &&& !fs@.contains_key(user_path(home@))
                },
            },
    {
        let flake = ("/etc/nixos/flake.nix").as_bytes_vec();
        if let Some(d) = fs.read_file(flake.as_slice()) {
            return Ok(NixosConfig {
                content: vstd::slice::slice_to_vec(d.content.as_slice()),
                path: flake,
                last_modified: d.mtime,
                is_flake: true,
            });
        }
        let legacy = ("/etc/nixos/configuration.nix").as_bytes_vec();
        if let Some(d) = fs.read_file(legacy.as_slice()) {
            return Ok(NixosConfig {
                content: vstd::slice::slice_to_vec(d.content.as_slice()),
                path: legacy,
                last_modified: d.mtime,
                is_flake: false,
            });
        }
        let user = crate::text::concat_bytes(
            home,
            ("/.config/nixos/configuration.nix").as_bytes_vec().as_slice(),
        );
        if let Some(d) = fs.read_file(user.as_slice()) {
            return Ok(NixosConfig {
                content: vstd::slice::slice_to_vec(d.content.as_slice()),
                path: user,
                last_modified: d.mtime,
                is_flake: false,
            });
        }
        Err(CoreError::NotFound)
    }

    /// Validate configuration text, given the parse stage's outcome and, when
    /// it ran, the evaluation stage's.
    pub fn validate(
        content: &[u8],
        syntax: &CommandOutcome,
        eval: Option<&CommandOutcome>,
    ) -> (r: ValidationResult)
        ensures
            r.is_valid == is_valid_model(content@, syntax.succeeded),
            r.is_valid == (r.errors_seq().len() == 0),
            r.errors_seq() == errors_model(
                content@,
                if syntax.succeeded {
                    None
                } else {
                    Some(syntax.stderr@)
                },
            ),
            r.warnings_seq() == warnings_model(
                content@,
                eval_warn_model(
                    syntax.succeeded,
                    match eval {
                        Some(o) => Some(*o),
                        None => None,
                    },
                ),
            ),
            r.suggestions_seq() == suggestions_model(content@),
    {
        ValidationResult::from_outcomes(content, syntax, eval)
    }

    /// Stage a save: write the candidate text to the uniquely suffixed
    /// staging path. The target itself is never touched by staging.
    pub fn save_stage(
        fs: &mut FsState,
        content: &[u8],
        target: &[u8],
        token: u64,
        uid: u32,
        gid: u32,
        staged_mode: u32,
        mtime: i64,
    ) -> (stage: Vec<u8>)
        requires
            old(fs).wf(),
        ensures
            final(fs).wf(),
            stage@ == stage_path_model(target@, token),
            final(fs)@ == old(fs)@.insert(
                stage@,
                FileView { content: content@, uid, gid, mode: staged_mode, mtime },
            ),
            final(fs)@.contains_key(target@) == old(fs)@.contains_key(target@),
            final(fs)@.contains_key(target@) ==> final(fs)@[target@] == old(fs)@[target@],
    {
        let stage = stage_path(target, token);
        fs.write_file(
            stage.as_slice(),
            FileData {
                content: vstd::slice::slice_to_vec(content),
                uid,
                gid,
                mode: staged_mode,
                mtime,
            },
        );
        proof {
            lemma_stage_path_differs(target@, token);
        }
        stage
    }

    /// Commit a staged save: set mode 0644 on the stage file, then move it
    /// over the target in one step.
    pub fn save_commit(fs: &mut FsState, target: &[u8], token: u64)
        requires
            old(fs).wf(),
            old(fs)@.contains_key(stage_path_model(target@, token)),
        ensures
            final(fs).wf(),
            final(fs)@ == old(fs)@.remove(stage_path_model(target@, token)).insert(
                target@,
                FileView { mode: 0o644, ..old(fs)@[stage_path_model(target@, token)] },
            ),
    {
        let stage = stage_path(target, token);
        let ghost m0 = fs@;
        let ghost v644 = FileView { mode: 0o644, ..fs@[stage@] };
        let done = fs.set_mode(stage.as_slice(), 0o644);
        let ghost m1 = fs@;
        let moved = fs.rename_file(stage.as_slice(), target);
        proof {
            assert(m1 == m0.insert(stage@, v644));
            assert(m1[stage@] == v644);
            assert(fs@ == m1.remove(stage@).insert(target@, v644));
            assert(m1.remove(stage@) =~= m0.remove(stage@));
        }
    }

    /// Abandon a staged save: delete the stage file. The target is never
    /// touched, so an interrupted save leaves it exactly as it was.
    pub fn save_cleanup(fs: &mut FsState, target: &[u8], token: u64)
        requires
            old(fs).wf(),
        ensures
            final(fs).wf(),
            final(fs)@ == old(fs)@.remove(stage_path_model(target@, token)),
            final(fs)@.contains_key(target@) == old(fs)@.contains_key(target@),
            final(fs)@.contains_key(target@) ==> final(fs)@[target@] == old(fs)@[target@],
    {
        let stage = stage_path(target, token);
        fs.remove_file(stage.as_slice());
        proof {
            lemma_stage_path_differs(target@, token);
        }
    }

    /// The atomic validated save. Validation runs first: an invalid candidate
    /// is rejected with its error list and the filesystem is left exactly as
    /// it was. A valid candidate is staged under a unique suffix, given mode
    /// 0644, and moved over the target in one step: the target is either
    /// unchanged or fully replaced by the validated text, never partially
    /// written, and no stage file outlives the save.
    pub fn save(
        fs: &mut FsState,
        content: &[u8],
        target: &[u8],
        token: u64,
        syntax: &CommandOutcome,
        eval: Option<&CommandOutcome>,
        uid: u32,
        gid: u32,
        staged_mode: u32,
        mtime: i64,
    ) -> (r: Result<(), CoreError>)
        requires
            old(fs).wf(),
            !old(fs)@.contains_key(stage_path_model(target@, token)),
        ensures
            final(fs).wf(),
            match r {
                Ok(()) => {
                    &&& is_valid_model(content@, syntax.succeeded)
                    &&& final(fs)@ == old(fs)@.insert(
                        target@,
                        saved_file_view(content@, uid, gid, mtime),
                    )
                },
                Err(e) => {
                    &&& !is_valid_model(content@, syntax.succeeded)
                    &&& final(fs)@ == old(fs)@
                    &&& match e {
                        CoreError::InvalidConfiguration(errs) => views_of(errs@) == errors_model(
                            content@,
                            if syntax.succeeded {
                                None
                            } else {
                                Some(syntax.stderr@)
                            },
                        ),
                        _ => false,
                    }
                },
            },
    {
        let vr = ValidationResult::from_outcomes(content, syntax, eval);
        if !vr.is_valid {
            return Err(CoreError::InvalidConfiguration(vr.errors));
        }
        let ghost m0 = fs@;
        let stage = Self::save_stage(fs, content, target, token, uid, gid, staged_mode, mtime);
        Self::save_commit(fs, target, token);
        proof {
            let sp = stage_path_model(target@, token);
            let staged = FileView { content: content@, uid, gid, mode: staged_mode, mtime };
            assert(m0.insert(sp, staged).remove(sp) =~= m0);
            assert(FileView { mode: 0o644, ..staged } == saved_file_view(
                content@,
                uid,
                gid,
                mtime,
            ));
        }
        Ok(())
    }

    /// The timestamp-named backup of the active configuration: created in the
    /// fixed backup directory, named so that lexicographic order of names is
    /// chronological order of timestamps. Fails with `BackupFailed`, changing
    /// nothing, when no configuration exists to back up.
    pub fn create_backup(
        fs: &mut FsState,
        home: &[u8],
        ts: &Timestamp,
        uid: u32,
        gid: u32,
        mtime: i64,
    ) -> (r: Result<Vec<u8>, CoreError>)
        requires
            old(fs).wf(),
        ensures
            final(fs).wf(),
            match r {
                Ok(path) => {
                    &&& path@ == backup_path_model(*ts)
                    &&& final(fs)@ == old(fs)@.insert(
                        path@,
                        FileView {
                            content: active_content(old(fs)@, home@),
                            uid,
                            gid,
                            mode: 0o644,
                            mtime,
                        },
                    )
                    &&& has_active_config(old(fs)@, home@)
                },
                Err(e) => {
                    &&& e is BackupFailed
                    &&& final(fs)@ == old(fs)@
                    &&& !has_active_config(old(fs)@, home@)
                },
            },
    {
        let config = match Self::read(fs, home) {
            Ok(c) => c,
            Err(_) => {
                return Err(CoreError::BackupFailed);
            },
        };
        let path = backup_path(ts);
        fs.write_file(
            path.as_slice(),
            FileData { content: config.content, uid, gid, mode: 0o644, mtime },
        );
        Ok(path)
    }
}

/// Some configuration exists at one of the searched paths.
pub open spec fn has_active_config(m: Map<Seq<u8>, FileView>, home: Seq<u8>) -> bool {
    ||| m.contains_key(flake_path())
    ||| m.contains_key(legacy_path())
    ||| m.contains_key(user_path(home))
}

/// The text of the active configuration: the content at the first searched
/// path that exists.
pub open spec fn active_content(m: Map<Seq<u8>, FileView>, home: Seq<u8>) -> Seq<u8> {
    if m.contains_key(flake_path()) {
        m[flake_path()].content
    } else if m.contains_key(legacy_path()) {
        m[legacy_path()].content
    } else {
        m[user_path(home)].content
    }
}

/// A number in decimal, zero-padded to at least two digits.
pub open spec fn pad2(n: nat) -> Seq<u8> {
    if n < 10 {
        seq![48u8] + dec_digits(n)
    } else {
        dec_digits(n)
    }
}

/// A number in decimal, zero-padded to at least four digits.
pub open spec fn pad4(n: nat) -> Seq<u8> {
    if n < 10 {
        seq![48u8, 48u8, 48u8] + dec_digits(n)
    } else if n < 100 {
        seq![48u8, 48u8] + dec_digits(n)
    } else if n < 1000 {
        seq![48u8] + dec_digits(n)
    } else {
        dec_digits(n)
    }
}

/// Format `n` in decimal with at least two digits.
fn pad2_bytes(n: u32) -> (r: Vec<u8>)
    ensures
        r@ == pad2(n as nat),
{
    let mut r: Vec<u8> = Vec::new();
    if n < 10 {
        r.push(48);
    }
    let digits = crate::text::u64_to_dec(n as u64);
    r.extend_from_slice(digits.as_slice());
    proof {
        assert(r@ =~= pad2(n as nat));
    }
    r
}

/// Format `n` in decimal with at least four digits.
fn pad4_bytes(n: u32) -> (r: Vec<u8>)
    ensures
        r@ == pad4(n as nat),
{
    let mut r: Vec<u8> = Vec::new();
    if n < 10 {
        r.push(48);
        r.push(48);
        r.push(48);
    } else if n < 100 {
        r.push(48);
        r.push(48);
    } else if n < 1000 {
        r.push(48);
    }
    let digits = crate::text::u64_to_dec(n as u64);
    r.extend_from_slice(digits.as_slice());
    proof {
        assert(r@ =~= pad4(n as nat));
    }
    r
}

/// The backup file path for a snapshot taken at `ts`: a fixed directory and
/// prefix, then the timestamp fields in most-significant-first order with
/// fixed widths, so that names sort chronologically.
pub open spec fn backup_path_model(ts: Timestamp) -> Seq<u8> {
    "/etc/nixos/backups/configuration_".spec_bytes() + pad4(ts.year as nat) + pad2(
        ts.month as nat,
    ) + pad2(ts.day as nat) + "_".spec_bytes() + pad2(ts.hour as nat) + pad2(ts.minute as nat)
        + pad2(ts.second as nat) + ".nix".spec_bytes()
}

/// The backup directory that the shell must ensure exists before a snapshot
/// is written.
pub fn backup_dir() -> (r: Vec<u8>)
    ensures
        r@ == "/etc/nixos/backups".spec_bytes(),
{
    ("/etc/nixos/backups").as_bytes_vec()
}

/// The backup file path for a snapshot taken now, from the system clock.
pub fn backup_path_now() -> (r: Vec<u8>)
    ensures
        exists|ts: Timestamp| ts.wf() && r@ == #[trigger] backup_path_model(ts),
{
    let ts = crate::clock::now_utc();
    let r = backup_path(&ts);
    proof {
        assert(ts.wf() && r@ == backup_path_model(ts));
    }
    r
}

/// A staging path for a save of `target`, suffixed with a fresh clock-based
/// uniqueness token.
pub fn fresh_stage_path(target: &[u8]) -> (r: Vec<u8>)
    ensures
        exists|token: u64| r@ == #[trigger] stage_path_model(target@, token),
        r@ != target@,
{
    let token = crate::clock::unique_token();
    let r = stage_path(target, token);
    proof {
        lemma_stage_path_differs(target@, token);
        assert(r@ == stage_path_model(target@, token));
    }
    r
}

/// The backup file path for a snapshot taken at `ts`.
pub fn backup_path(ts: &Timestamp) -> (r: Vec<u8>)
    ensures
        r@ == backup_path_model(*ts),
{
    let mut r = ("/etc/nixos/backups/configuration_").as_bytes_vec();
    let year = pad4_bytes(ts.year);
    r.extend_from_slice(year.as_slice());
    let month = pad2_bytes(ts.month);
    r.extend_from_slice(month.as_slice());
    let day = pad2_bytes(ts.day);
    r.extend_from_slice(day.as_slice());
    r.extend_from_slice(("_").as_bytes_vec().as_slice());
    let hour = pad2_bytes(ts.hour);
    r.extend_from_slice(hour.as_slice());
    let minute = pad2_bytes(ts.minute);
    r.extend_from_slice(minute.as_slice());
    let second = pad2_bytes(ts.second);
    r.extend_from_slice(second.as_slice());
    r.extend_from_slice((".nix").as_bytes_vec().as_slice());
    proof {
        assert(r@ =~= backup_path_model(*ts));
    }
    r
}

} // verus!
