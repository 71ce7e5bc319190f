//! A model of the slice of the filesystem this crate manages: a finite map
//! from paths to file contents and metadata, implemented as an association
//! list. The save, read and backup logic is verified against this model; the
//! unverified shell replays the same steps against the real filesystem.

use vstd::prelude::*;

verus! {

/// A file's content and the metadata the crate reads: owner, group,
/// permission bits and modification time.
pub struct FileData {
    pub content: Vec<u8>,
    pub uid: u32,
    pub gid: u32,
    pub mode: u32,
    pub mtime: i64,
}

/// The mathematical value of a file.
pub ghost struct FileView {
    pub content: Seq<u8>,
    pub uid: u32,
    pub gid: u32,
    pub mode: u32,
    pub mtime: i64,
}

impl View for FileData {
    type V = FileView;

    open spec fn view(&self) -> FileView {
        FileView {
            content: self.content@,
            uid: self.uid,
            gid: self.gid,
            mode: self.mode,
            mtime: self.mtime,
        }
    }
}

/// The map described by an association list, later entries shadowing earlier
/// ones.
spec fn as_map_of(entries: Seq<(Vec<u8>, FileData)>) -> Map<Seq<u8>, FileView>
    decreases entries.len(),
{
    if entries.len() == 0 {
        Map::empty()
    } else {
        as_map_of(entries.drop_last()).insert(entries.last().0@, entries.last().1@)
    }
}

proof fn lemma_as_map_contains(entries: Seq<(Vec<u8>, FileData)>, k: Seq<u8>)
    ensures
        as_map_of(entries).contains_key(k) <==> exists|i: int|
            0 <= i < entries.len() && #[trigger] entries[i].0@ == k,
    decreases entries.len(),
{
    if entries.len() > 0 {
        lemma_as_map_contains(entries.drop_last(), k);
        if entries.last().0@ == k {
            assert(entries[entries.len() - 1].0@ == k);
        } else if as_map_of(entries.drop_last()).contains_key(k) {
            let i = choose|i: int|
                0 <= i < entries.drop_last().len()
                    && #[trigger] entries.drop_last()[i].0@ == k;
            assert(entries[i].0@ == k);
        } else if exists|i: int|
            0 <= i < entries.len() && #[trigger] entries[i].0@ == k {
            let i = choose|i: int|
                0 <= i < entries.len() && #[trigger] entries[i].0@ == k;
            assert(i < entries.len() - 1);
            assert(entries.drop_last()[i].0@ == k);
        }
    }
}

proof fn lemma_as_map_index(entries: Seq<(Vec<u8>, FileData)>, i: int)
    requires
        0 <= i < entries.len(),
        forall|j: int| i < j < entries.len() ==> #[trigger] entries[j].0@ != entries[i].0@,
    ensures
        as_map_of(entries).contains_key(entries[i].0@),
        as_map_of(entries)[entries[i].0@] == entries[i].1@,
    decreases entries.len(),
{
    if i == entries.len() - 1 {
    } else {
        assert(forall|j: int|
            i < j < entries.drop_last().len()
                ==> #[trigger] entries.drop_last()[j].0@ != entries.drop_last()[i].0@);
        lemma_as_map_index(entries.drop_last(), i);
        assert(entries.last().0@ != entries[i].0@);
    }
}

/// Removing the entry at `i` from a distinct-keyed list removes exactly its
/// key from the described map; the remaining keys stay distinct and none of
/// them is the removed key.
proof fn lemma_remove_entry(e0: Seq<(Vec<u8>, FileData)>, i: int)
    requires
        0 <= i < e0.len(),
        forall|a: int, b: int|
            0 <= a < b < e0.len() ==> #[trigger] e0[a].0@ != #[trigger] e0[b].0@,
    ensures
        forall|a: int, b: int|
            0 <= a < b < e0.remove(i).len() ==> #[trigger] e0.remove(i)[a].0@
                != #[trigger] e0.remove(i)[b].0@,
        forall|a: int|
            0 <= a < e0.remove(i).len() ==> #[trigger] e0.remove(i)[a].0@ != e0[i].0@,
        as_map_of(e0.remove(i)) == as_map_of(e0).remove(e0[i].0@),
{
    let e1 = e0.remove(i);
    let key = e0[i].0@;
    assert forall|a: int, b: int| 0 <= a < b < e1.len()
        implies #[trigger] e1[a].0@ != #[trigger] e1[b].0@ by {
        if a < i && b < i {
            assert(e1[a] == e0[a] && e1[b] == e0[b]);
        } else if a < i {
            assert(e1[a] == e0[a] && e1[b] == e0[b + 1]);
        } else {
            assert(e1[a] == e0[a + 1] && e1[b] == e0[b + 1]);
        }
    }
    assert forall|a: int| 0 <= a < e1.len() implies #[trigger] e1[a].0@ != key by {
        if a < i {
            assert(e1[a] == e0[a]);
        } else {
            assert(e1[a] == e0[a + 1]);
        }
    }
    assert forall|k: Seq<u8>|
        as_map_of(e1).contains_key(k) <==> (as_map_of(e0).contains_key(k) && k != key) by {
        lemma_as_map_contains(e0, k);
        lemma_as_map_contains(e1, k);
        if k != key && as_map_of(e0).contains_key(k) {
            let a = choose|a: int| 0 <= a < e0.len() && #[trigger] e0[a].0@ == k;
            if a < i {
                assert(e1[a].0@ == k);
            } else {
                assert(a > i);
                assert(e1[a - 1].0@ == k);
            }
        }
        if as_map_of(e1).contains_key(k) {
            let a = choose|a: int| 0 <= a < e1.len() && #[trigger] e1[a].0@ == k;
            if a < i {
                assert(e0[a].0@ == k);
            } else {
                assert(e0[a + 1].0@ == k);
            }
        }
    }
    assert forall|k: Seq<u8>|
        as_map_of(e1).contains_key(k) implies as_map_of(e1)[k] == as_map_of(e0)[k] by {
        lemma_as_map_contains(e1, k);
        let a = choose|a: int| 0 <= a < e1.len() && #[trigger] e1[a].0@ == k;
        lemma_as_map_index(e1, a);
        if a < i {
            lemma_as_map_index(e0, a);
        } else {
            lemma_as_map_index(e0, a + 1);
        }
    }
    assert(as_map_of(e1) =~= as_map_of(e0).remove(key));
}

/// The filesystem model: a finite path-to-file map.
pub struct FsState {
    entries: Vec<(Vec<u8>, FileData)>,
}

impl View for FsState {
    type V = Map<Seq<u8>, FileView>;

    closed spec fn view(&self) -> Map<Seq<u8>, FileView> {
        as_map_of(self.entries@)
    }
}

impl FsState {
    /// Paths are distinct: the list is a map.
    pub closed spec fn wf(&self) -> bool {
        forall|i: int, j: int|
            0 <= i < j < self.entries@.len()
                ==> #[trigger] self.entries@[i].0@ != #[trigger] self.entries@[j].0@
    }

    /// The empty filesystem.
    pub fn new() -> (r: Self)
        ensures
            r.wf(),
            r@ == Map::<Seq<u8>, FileView>::empty(),
    {
        FsState { entries: Vec::new() }
    }

    /// The index of the entry for `path`, if there is one.
    fn find(&self, path: &[u8]) -> (r: Option<usize>)
        ensures
            match r {
                Some(i) => i < self.entries@.len() && self.entries@[i as int].0@ == path@,
                None => forall|i: int|
                    0 <= i < self.entries@.len() ==> #[trigger] self.entries@[i].0@ != path@,
            },
    {
        let mut i: usize = 0;
        while i < self.entries.len()
            invariant
                0 <= i <= self.entries@.len(),
                forall|k: int| 0 <= k < i ==> #[trigger] self.entries@[k].0@ != path@,
            decreases self.entries@.len() - i,
        {
            if crate::text::bytes_eq(self.entries[i].0.as_slice(), path) {
                return Some(i);
            }
            i = i + 1;
        }
        None
    }

    /// Whether a file exists at `path`.
    pub fn contains_path(&self, path: &[u8]) -> (r: bool)
        ensures
            r == self@.contains_key(path@),
    {
        proof {
            lemma_as_map_contains(self.entries@, path@);
        }
        self.find(path).is_some()
    }

    /// The file at `path`, if it exists.
    pub fn read_file(&self, path: &[u8]) -> (r: Option<&FileData>)
        requires
            self.wf(),
        ensures
            match r {
                Some(d) => self@.contains_key(path@) && d@ == self@[path@],
                None => !self@.contains_key(path@),
            },
    {
        proof {
            lemma_as_map_contains(self.entries@, path@);
        }
        match self.find(path) {
            Some(i) => {
                proof {
                    lemma_as_map_index(self.entries@, i as int);
                }
                Some(&self.entries[i].1)
            },
            None => None,
        }
    }

    /// Create or replace the file at `path`.
    pub fn write_file(&mut self, path: &[u8], data: FileData)
        requires
            old(self).wf(),
        ensures
            final(self).wf(),
            final(self)@ == old(self)@.insert(path@, data@),
    {
        let ghost e0 = self.entries@;
        match self.find(path) {
            Some(i) => {
                let _ = self.entries.remove(i);
                proof {
                    lemma_remove_entry(e0, i as int);
                    assert(self.entries@ == e0.remove(i as int));
                }
                self.push_fresh(path, data);
                proof {
                    assert(as_map_of(e0).remove(path@).insert(path@, data@) =~= as_map_of(
                        e0,
                    ).insert(path@, data@));
                }
            },
            None => {
                self.push_fresh(path, data);
            },
        }
    }

    /// Append an entry for a path that has no entry yet.
    fn push_fresh(&mut self, path: &[u8], data: FileData)
        requires
            old(self).wf(),
            forall|i: int|
                0 <= i < old(self).entries@.len()
                    ==> #[trigger] old(self).entries@[i].0@ != path@,
        ensures
            final(self).wf(),
            final(self)@ == old(self)@.insert(path@, data@),
    {
        let key = vstd::slice::slice_to_vec(path);
        self.entries.push((key, data));
        proof {
            assert(self.entries@.drop_last() =~= old(self).entries@);
        }
    }

    /// Delete the file at `path`; a missing file is left missing.
    pub fn remove_file(&mut self, path: &[u8])
        requires
            old(self).wf(),
        ensures
            final(self).wf(),
            final(self)@ == old(self)@.remove(path@),
    {
        let ghost e0 = self.entries@;
        match self.find(path) {
            Some(i) => {
                let _ = self.entries.remove(i);
                proof {
                    lemma_remove_entry(e0, i as int);
                    assert(self.entries@ == e0.remove(i as int));
                }
            },
            None => {
                proof {
                    lemma_as_map_contains(e0, path@);
                    assert(as_map_of(e0) =~= as_map_of(e0).remove(path@));
                }
            },
        }
    }

    /// Move the file at `from` to `to`, replacing any file there. Returns
    /// false, changing nothing, when `from` does not exist.
    pub fn rename_file(&mut self, from: &[u8], to: &[u8]) -> (moved: bool)
        requires
            old(self).wf(),
        ensures
            final(self).wf(),
            moved == old(self)@.contains_key(from@),
            moved ==> final(self)@ == old(self)@.remove(from@).insert(
                to@,
                old(self)@[from@],
            ),
            !moved ==> final(self)@ == old(self)@,
    {
        proof {
            lemma_as_map_contains(self.entries@, from@);
        }
        if self.read_file(from).is_none() {
            return false;
        }
        self.remove_with_value(from, to)
    }

    /// Remove the entry at `from` and re-insert its data at `to`.
    fn remove_with_value(&mut self, from: &[u8], to: &[u8]) -> (moved: bool)
        requires
            old(self).wf(),
            old(self)@.contains_key(from@),
        ensures
            final(self).wf(),
            moved,
            final(self)@ == old(self)@.remove(from@).insert(to@, old(self)@[from@]),
    {
        let ghost e0 = self.entries@;
        let i = match self.find(from) {
            Some(i) => i,
            None => {
                proof {
                    lemma_as_map_contains(e0, from@);
                }
                unreached()
            },
        };
        proof {
            lemma_as_map_index(e0, i as int);
        }
        let (_, data) = self.entries.remove(i);
        let ghost m_removed = old(self)@.remove(from@);
        proof {
            lemma_remove_entry(e0, i as int);
            assert(self.entries@ == e0.remove(i as int));
            assert(as_map_of(self.entries@) == m_removed);
        }
        self.write_file(to, data);
        true
    }

    /// Set the permission bits of the file at `path`. Returns false, changing
    /// nothing, when the file does not exist.
    pub fn set_mode(&mut self, path: &[u8], mode: u32) -> (done: bool)
        requires
            old(self).wf(),
        ensures
            final(self).wf(),
            done == old(self)@.contains_key(path@),
            done ==> final(self)@ == old(self)@.insert(
                path@,
                FileView { mode, ..old(self)@[path@] },
            ),
            !done ==> final(self)@ == old(self)@,
    {
        proof {
            lemma_as_map_contains(self.entries@, path@);
        }
        let i = match self.find(path) {
            Some(i) => i,
            None => {
                return false;
            },
        };
        proof {
            lemma_as_map_index(self.entries@, i as int);
        }
        let ghost m0 = self@;
        let ghost e0 = self.entries@;
        let (_, data) = self.entries.remove(i);
        let new_data = FileData {
            content: data.content,
            uid: data.uid,
            gid: data.gid,
            mode,
            mtime: data.mtime,
        };
        proof {
            lemma_remove_entry(e0, i as int);
            assert(self.entries@ == e0.remove(i as int));
            assert(as_map_of(self.entries@) == m0.remove(path@));
        }
        self.write_file(path, new_data);
        proof {
            assert(self@ =~= m0.insert(path@, FileView { mode, ..m0[path@] }));
        }
        true
    }
}

} // verus!
