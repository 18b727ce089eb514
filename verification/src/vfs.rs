//! The virtual file system: one store of sources, extension hooks and
//! required flags, keyed by the normal form of a path.

use vstd::prelude::*;

use crate::path::{copy_range, bytes_eq, is_nul_free, normalize, normalized, nul_free};

verus! {

/// A native extension bound to a path: a token that the embedding hands out
/// and the execution engine knows how to install.
#[derive(Clone, Copy, Debug, PartialEq, Eq, Structural)]
pub struct ExtensionHook {
    pub id: u64,
}

/// Why the file system turned a request down.
#[derive(Clone, Copy, Debug, PartialEq, Eq, Structural)]
pub enum VfsError {
    /// No entry stands at the path.
    NotFound,
    /// The path holds a NUL byte, so it names no entry.
    InvalidPath,
}

/// What the file system holds for one path. An entry that only a hook made
/// has empty content.
pub struct FileEntry {
    pub content: Seq<u8>,
    pub extension_hook: Option<ExtensionHook>,
    pub required: bool,
}

/// The key under which the file system looks `path` up: its normal form. A
/// path with a NUL byte has none.
pub open spec fn key(path: Seq<u8>) -> Option<Seq<u8>> {
    if nul_free(path) {
        Some(normalized(path))
    } else {
        None
    }
}

/// The entry of `files` at `path`, where there is one.
pub open spec fn entry_at(files: Map<Seq<u8>, FileEntry>, path: Seq<u8>) -> Option<FileEntry> {
    match key(path) {
        Some(k) => if files.contains_key(k) {
            Some(files[k])
        } else {
            None
        },
        None => None,
    }
}

/// `files` after `content` was written at the key `k`: an entry that was
/// there keeps its hook and its required flag, a new one starts without a
/// hook and unrequired.
pub open spec fn written(files: Map<Seq<u8>, FileEntry>, k: Seq<u8>, content: Seq<u8>) -> Map<
    Seq<u8>,
    FileEntry,
> {
    if files.contains_key(k) {
        files.insert(k, FileEntry { content, ..files[k] })
    } else {
        files.insert(k, FileEntry { content, extension_hook: None, required: false })
    }
}

/// `files` after `hook` was bound at the key `k`: an entry that was there
/// keeps its content and its required flag, a new one starts empty and
/// unrequired.
pub open spec fn hooked(files: Map<Seq<u8>, FileEntry>, k: Seq<u8>, hook: ExtensionHook) -> Map<
    Seq<u8>,
    FileEntry,
> {
    if files.contains_key(k) {
        files.insert(k, FileEntry { extension_hook: Some(hook), ..files[k] })
    } else {
        files.insert(
            k,
            FileEntry { content: Seq::empty(), extension_hook: Some(hook), required: false },
        )
    }
}

/// `files` after the entry at the key `k` was marked as required.
pub open spec fn marked(files: Map<Seq<u8>, FileEntry>, k: Seq<u8>) -> Map<Seq<u8>, FileEntry> {
    files.insert(k, FileEntry { required: true, ..files[k] })
}

struct Entry {
    path: Vec<u8>,
    content: Vec<u8>,
    extension_hook: Option<ExtensionHook>,
    required: bool,
}

impl Entry {
    spec fn model(self) -> FileEntry {
        FileEntry {
            content: self.content@,
            extension_hook: self.extension_hook,
            required: self.required,
        }
    }
}

spec fn distinct(entries: Seq<Entry>) -> bool {
    forall|i: int, j: int|
        0 <= i < j < entries.len() ==> (#[trigger] entries[i]).path@ != (#[trigger] entries[j]).path@
}

spec fn holds(entries: Seq<Entry>, k: Seq<u8>) -> bool {
    exists|i: int| 0 <= i < entries.len() && (#[trigger] entries[i]).path@ == k
}

spec fn slot(entries: Seq<Entry>, k: Seq<u8>) -> int {
    choose|i: int| 0 <= i < entries.len() && (#[trigger] entries[i]).path@ == k
}

spec fn model_of(entries: Seq<Entry>) -> Map<Seq<u8>, FileEntry> {
    Map::new(|k: Seq<u8>| holds(entries, k), |k: Seq<u8>| entries[slot(entries, k)].model())
}

proof fn lemma_slot(entries: Seq<Entry>, i: int)
    requires
        distinct(entries),
        0 <= i < entries.len(),
    ensures
        holds(entries, entries[i].path@),
        slot(entries, entries[i].path@) == i,
        model_of(entries).contains_key(entries[i].path@),
        model_of(entries)[entries[i].path@] == entries[i].model(),
{
    let k = entries[i].path@;
    let found = slot(entries, k);
    assert(0 <= found < entries.len() && entries[found].path@ == k);
    if found < i {
        assert(entries[found].path@ != entries[i].path@);
    } else if found > i {
        assert(entries[i].path@ != entries[found].path@);
    }
}

proof fn lemma_push(entries: Seq<Entry>, entry: Entry)
    requires
        distinct(entries),
        !holds(entries, entry.path@),
    ensures
        distinct(entries.push(entry)),
        model_of(entries.push(entry)) == model_of(entries).insert(entry.path@, entry.model()),
{
    let after = entries.push(entry);
    assert forall|i: int, j: int| 0 <= i < j < after.len() implies (#[trigger] after[i]).path@ != (
    #[trigger] after[j]).path@ by {
        if j == entries.len() {
            assert(after[i] == entries[i]);
            if after[i].path@ == entry.path@ {
                assert(holds(entries, entry.path@));
            }
        } else {
            assert(after[i] == entries[i] && after[j] == entries[j]);
        }
    }
    let expected = model_of(entries).insert(entry.path@, entry.model());
    assert forall|k: Seq<u8>| model_of(after).contains_key(k) == expected.contains_key(k) by {
        if holds(after, k) {
            let i = slot(after, k);
            if i < entries.len() {
                assert(after[i] == entries[i]);
                assert(holds(entries, k));
            }
        }
        if holds(entries, k) {
            let i = slot(entries, k);
            assert(after[i] == entries[i]);
            assert(holds(after, k));
        }
        if k == entry.path@ {
            assert(after[entries.len() as int] == entry);
            assert(holds(after, k));
        }
    }
    assert forall|k: Seq<u8>| model_of(after).contains_key(k) implies model_of(after)[k]
        == expected[k] by {
        let i = slot(after, k);
        lemma_slot(after, i);
        if i < entries.len() {
            assert(after[i] == entries[i]);
            lemma_slot(entries, i);
        }
    }
    assert(model_of(after) =~= expected);
}

proof fn lemma_update(entries: Seq<Entry>, at: int, entry: Entry)
    requires
        distinct(entries),
        0 <= at < entries.len(),
        entries[at].path@ == entry.path@,
    ensures
        distinct(entries.update(at, entry)),
        model_of(entries.update(at, entry)) == model_of(entries).insert(
            entry.path@,
            entry.model(),
        ),
{
    let after = entries.update(at, entry);
    assert forall|i: int, j: int| 0 <= i < j < after.len() implies (#[trigger] after[i]).path@ != (
    #[trigger] after[j]).path@ by {
        assert(after[i].path@ == entries[i].path@);
        assert(after[j].path@ == entries[j].path@);
    }
    let expected = model_of(entries).insert(entry.path@, entry.model());
    assert forall|k: Seq<u8>| model_of(after).contains_key(k) == expected.contains_key(k) by {
        if holds(after, k) {
            let i = slot(after, k);
            assert(after[i].path@ == entries[i].path@);
            assert(holds(entries, k));
        }
        if holds(entries, k) {
            let i = slot(entries, k);
            assert(after[i].path@ == entries[i].path@);
            assert(holds(after, k));
        }
        lemma_slot(entries, at);
    }
    assert forall|k: Seq<u8>| model_of(after).contains_key(k) implies model_of(after)[k]
        == expected[k] by {
        let i = slot(after, k);
        lemma_slot(after, i);
        if i != at {
            assert(after[i] == entries[i]);
            lemma_slot(entries, i);
            lemma_slot(entries, at);
        }
    }
    assert(model_of(after) =~= expected);
}

/// The store of sources and extension hooks of one interpreter.
pub struct Vfs {
    entries: Vec<Entry>,
}

impl Vfs {
    #[verifier::type_invariant]
    spec fn well_formed(self) -> bool {
        distinct(self.entries@)
    }

    /// The entries of the file system, each under its key.
    pub closed spec fn view(&self) -> Map<Seq<u8>, FileEntry> {
        model_of(self.entries@)
    }

    /// An empty file system.
    pub fn new() -> (vfs: Self)
        ensures
            vfs@ == Map::<Seq<u8>, FileEntry>::empty(),
    {
        let vfs = Vfs { entries: Vec::new() };
        assert(vfs@ =~= Map::<Seq<u8>, FileEntry>::empty());
        vfs
    }

    /// The index of the entry under `k`, where there is one.
    fn find(&self, k: &[u8]) -> (found: Option<usize>)
        ensures
            match found {
                Some(at) => at < self.entries@.len() && self.entries@[at as int].path@ == k@
                    && self@.contains_key(k@) && self@[k@] == self.entries@[at as int].model(),
                None => !holds(self.entries@, k@) && !self@.contains_key(k@),
            },
    {
        proof {
            use_type_invariant(self);
        }
        let mut at: usize = 0;
        while at < self.entries.len()
            invariant
                at <= self.entries@.len(),
                distinct(self.entries@),
                forall|i: int| 0 <= i < at ==> (#[trigger] self.entries@[i]).path@ != k@,
            decreases self.entries@.len() - at,
        {
            if bytes_eq(self.entries[at].path.as_slice(), k) {
                proof {
                    lemma_slot(self.entries@, at as int);
                }
                return Some(at);
            }
            at += 1;
        }
        None
    }

    /// The index of the entry at `path`, where there is one.
    fn lookup(&self, path: &[u8]) -> (found: Option<usize>)
        ensures
            match found {
                Some(at) => at < self.entries@.len() && key(path@) == Some(
                    self.entries@[at as int].path@,
                ) && entry_at(self@, path@) == Some(self.entries@[at as int].model()),
                None => entry_at(self@, path@) is None,
            },
    {
        if !is_nul_free(path) {
            return None;
        }
        let k = normalize(path);
        self.find(k.as_slice())
    }

    /// Puts `entry` in the place of the entry at `at`, or behind the others
    /// where `at` is `None`.
    fn store(&mut self, at: Option<usize>, entry: Entry)
        requires
            match at {
                Some(i) => i < old(self).entries@.len() && old(self).entries@[i as int].path@
                    == entry.path@,
                None => !holds(old(self).entries@, entry.path@),
            },
        ensures
            final(self)@ == old(self)@.insert(entry.path@, entry.model()),
    {
        proof {
            use_type_invariant(&*self);
        }
        let ghost before = self.entries@;
        let mut entries: Vec<Entry> = Vec::new();
        assert(distinct(entries@));
        core::mem::swap(&mut self.entries, &mut entries);
        match at {
            Some(i) => {
                proof {
                    lemma_update(before, i as int, entry);
                }
                entries.set(i, entry);
            },
            None => {
                proof {
                    lemma_push(before, entry);
                }
                entries.push(entry);
            },
        }
        core::mem::swap(&mut self.entries, &mut entries);
    }

    /// Writes `content` at `path`. An entry that is there keeps its hook and
    /// its required flag; a new entry starts unrequired. Only a path with a
    /// NUL byte is turned down.
    pub fn write_file(&mut self, path: &[u8], content: Vec<u8>) -> (result: Result<(), VfsError>)
        ensures
            match result {
                Ok(()) => key(path@) matches Some(k) && final(self)@ == written(
                    old(self)@,
                    k,
                    content@,
                ),
                Err(error) => error == VfsError::InvalidPath && key(path@) is None && final(self)@
                    == old(self)@,
            },
    {
        if !is_nul_free(path) {
            return Err(VfsError::InvalidPath);
        }
        let k = normalize(path);
        let at = self.find(k.as_slice());
        let entry = match at {
            Some(i) => Entry {
                path: k,
                content,
                extension_hook: self.entries[i].extension_hook,
                required: self.entries[i].required,
            },
            None => Entry { path: k, content, extension_hook: None, required: false },
        };
        self.store(at, entry);
        Ok(())
    }

    /// The content of the entry at `path`, looked up at exactly that path:
    /// no extension is tried in its place.
    pub fn read_file(&self, path: &[u8]) -> (result: Result<&[u8], VfsError>)
        ensures
            match result {
                Ok(content) => entry_at(self@, path@) matches Some(entry) && content@
                    == entry.content,
                Err(error) => error == VfsError::NotFound && entry_at(self@, path@) is None,
            },
    {
        match self.lookup(path) {
            Some(at) => Ok(self.entries[at].content.as_slice()),
            None => Err(VfsError::NotFound),
        }
    }

    /// Binds `hook` at `path`, in the place of a hook that is bound there.
    /// Only a path with a NUL byte is turned down.
    pub fn register_extension(&mut self, path: &[u8], hook: ExtensionHook) -> (result: Result<
        (),
        VfsError,
    >)
        ensures
            match result {
                Ok(()) => key(path@) matches Some(k) && final(self)@ == hooked(old(self)@, k, hook),
                Err(error) => error == VfsError::InvalidPath && key(path@) is None && final(self)@
                    == old(self)@,
            },
    {
        if !is_nul_free(path) {
            return Err(VfsError::InvalidPath);
        }
        let k = normalize(path);
        let at = self.find(k.as_slice());
        let entry = match at {
            Some(i) => {
                let content = copy_range(
                    self.entries[i].content.as_slice(),
                    0,
                    self.entries[i].content.len(),
                );
                assert(content@ =~= self.entries@[i as int].content@);
                Entry {
                    path: k,
                    content,
                    extension_hook: Some(hook),
                    required: self.entries[i].required,
                }
            },
            None => Entry {
                path: k,
                content: Vec::new(),
                extension_hook: Some(hook),
                required: false,
            },
        };
        self.store(at, entry);
        Ok(())
    }

    /// The key of the entry at `path`, where there is one.
    pub fn resolve_file(&self, path: &[u8]) -> (resolved: Option<Vec<u8>>)
        ensures
            match resolved {
                Some(k) => entry_at(self@, path@) is Some && key(path@) == Some(k@),
                None => entry_at(self@, path@) is None,
            },
    {
        match self.lookup(path) {
            Some(at) => {
                let k = copy_range(
                    self.entries[at].path.as_slice(),
                    0,
                    self.entries[at].path.len(),
                );
                assert(k@ =~= self.entries@[at as int].path@);
                Some(k)
            },
            None => None,
        }
    }

    /// Whether an entry stands at `path`.
    pub fn is_file(&self, path: &[u8]) -> (found: bool)
        ensures
            found == (entry_at(self@, path@) is Some),
    {
        self.lookup(path).is_some()
    }

    /// The hook that is bound at `path`, where there is one.
    pub fn get_extension(&self, path: &[u8]) -> (hook: Option<ExtensionHook>)
        ensures
            hook == match entry_at(self@, path@) {
                Some(entry) => entry.extension_hook,
                None => None,
            },
    {
        match self.lookup(path) {
            Some(at) => self.entries[at].extension_hook,
            None => None,
        }
    }

    /// Whether the entry at `path` was required; `None` where no entry
    /// stands there.
    pub fn is_required(&self, path: &[u8]) -> (required: Option<bool>)
        ensures
            required == match entry_at(self@, path@) {
                Some(entry) => Some(entry.required),
                None => None,
            },
    {
        match self.lookup(path) {
            Some(at) => Some(self.entries[at].required),
            None => None,
        }
    }

    /// Marks the entry at `path` as required.
    pub fn mark_required(&mut self, path: &[u8]) -> (result: Result<(), VfsError>)
        ensures
            match result {
                Ok(()) => key(path@) matches Some(k) && old(self)@.contains_key(k) && final(self)@
                    == marked(old(self)@, k),
                Err(error) => error == VfsError::NotFound && entry_at(old(self)@, path@) is None
                    && final(self)@ == old(self)@,
            },
    {
        match self.lookup(path) {
            Some(at) => {
                let k = copy_range(
                    self.entries[at].path.as_slice(),
                    0,
                    self.entries[at].path.len(),
                );
                let content = copy_range(
                    self.entries[at].content.as_slice(),
                    0,
                    self.entries[at].content.len(),
                );
                assert(k@ =~= self.entries@[at as int].path@);
                assert(content@ =~= self.entries@[at as int].content@);
                let entry = Entry {
                    path: k,
                    content,
                    extension_hook: self.entries[at].extension_hook,
                    required: true,
                };
                self.store(Some(at), entry);
                Ok(())
            },
            None => Err(VfsError::NotFound),
        }
    }
}

} // verus!
