//! The privilege-elevation resolver: whether an operation on a path must run
//! through the elevation helper, decided from ownership and permission bits.
//! This is the only source of the elevation flag for filesystem writes.

use vstd::prelude::*;
use crate::fs_model::{FileData, FileView, FsState};

verus! {

/// The caller may write the file directly: it owns it and the owner-write bit
/// is set, or it is in the file's group and the group-write bit is set, or
/// the file is world-writable.
pub open spec fn writable_by(f: FileView, uid: u32, gid: u32) -> bool {
    ||| f.uid == uid && f.mode & 0o200 != 0
    ||| f.gid == gid && f.mode & 0o020 != 0
    ||| f.mode & 0o002 != 0
}

/// Whether the caller may write a file with this metadata directly.
pub fn can_write_meta(d: &FileData, uid: u32, gid: u32) -> (r: bool)
    ensures
        r == writable_by(d@, uid, gid),
{
    (d.uid == uid && d.mode & 0o200 != 0) || (d.gid == gid && d.mode & 0o020 != 0) || (d.mode
        & 0o002 != 0)
}

/// The textual parent of a path: the bytes before the last separator, the
/// root when the last separator is the first byte, and nothing for a path
/// without a separator.
pub open spec fn parent_seq(p: Seq<u8>) -> Option<Seq<u8>> {
    match crate::text::last_index_of(p, 47) {
        None => None,
        Some(j) => if j == 0 {
            Some(p.subrange(0, 1))
        } else {
            Some(p.subrange(0, j))
        },
    }
}

/// The textual parent of a path.
pub fn parent_path(p: &[u8]) -> (r: Option<Vec<u8>>)
    ensures
        match r {
            None => parent_seq(p@) is None,
            Some(v) => parent_seq(p@) == Some(v@),
        },
{
    let n = p.len();
    let mut j: usize = n;
    while j > 0
        invariant
            0 <= j <= n,
            p@.len() == n,
            forall|k: int| j <= k < n ==> p@[k] != 47,
        decreases j,
    {
        if p[j - 1] == 47 {
            proof {
                crate::text::lemma_last_index_at(p@, 47, j - 1);
            }
            if j - 1 == 0 {
                return Some(crate::text::sub_vec(p, 0, 1));
            }
            return Some(crate::text::sub_vec(p, 0, j - 1));
        }
        j = j - 1;
    }
    proof {
        crate::text::lemma_last_index_none(p@, 47);
    }
    None
}

/// Elevation is needed for a write to `path` unless the path exists and is
/// directly writable, or the path does not exist but its parent does and the
/// parent is directly writable. A path whose parent cannot be resolved fails
/// safe toward requiring elevation.
pub open spec fn elevation_needed(
    m: Map<Seq<u8>, FileView>,
    path: Seq<u8>,
    uid: u32,
    gid: u32,
) -> bool {
    if m.contains_key(path) {
        !writable_by(m[path], uid, gid)
    } else {
        match parent_seq(path) {
            None => true,
            Some(pp) => !(m.contains_key(pp) && writable_by(m[pp], uid, gid)),
        }
    }
}

/// Whether a write to `path` must run through the elevation helper.
pub fn needs_elevation(fs: &FsState, path: &[u8], uid: u32, gid: u32) -> (r: bool)
    requires
        fs.wf(),
    ensures
        r == elevation_needed(fs@, path@, uid, gid),
{
    match fs.read_file(path) {
        Some(d) => !can_write_meta(d, uid, gid),
        None => {
            match parent_path(path) {
                None => true,
                Some(pp) => {
                    match fs.read_file(pp.as_slice()) {
                        Some(d) => !can_write_meta(d, uid, gid),
                        None => true,
                    }
                },
            }
        },
    }
}

} // verus!
