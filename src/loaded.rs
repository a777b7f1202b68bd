//! The host's table of loaded resources, held as plain values: path entries,
//! loaded entries and loaded directories, each array sized by a stored count.

use vstd::prelude::*;

verus! {

/// A resource path's slot: the index of its loaded entry, valid only while the
/// path is marked loaded.
#[derive(Clone, Copy, Debug, PartialEq, Eq, Structural)]
pub struct PathEntry {
    pub loaded_index: u32,
    pub is_loaded: u32,
}

impl PathEntry {
    /// Whether the path is currently loaded, so that its index designates a loaded entry.
    pub fn is_loaded(&self) -> (r: bool)
        ensures
            r == (self.is_loaded != 0),
    {
        self.is_loaded != 0
    }
}

/// The lifecycle tag of one loaded resource. The host drives it; `Unk` is a
/// transitional value passed through unchanged.
#[derive(Clone, Copy, Debug, PartialEq, Eq, Structural)]
pub enum LoadedFileState {
    Unloaded,
    Unused,
    Unk,
    Loaded,
}

/// The byte that stands for each state in the host's memory.
pub open spec fn state_code(s: LoadedFileState) -> u8 {
    match s {
        LoadedFileState::Unloaded => 0,
        LoadedFileState::Unused => 1,
        LoadedFileState::Unk => 2,
        LoadedFileState::Loaded => 3,
    }
}

impl LoadedFileState {
    /// The state that a stored byte stands for; `None` for a byte that no state has.
    pub fn from_raw(v: u8) -> (r: Option<LoadedFileState>)
        ensures
            match r {
                Some(s) => state_code(s) == v,
                None => v > 3,
            },
    {
        match v {
            0 => Some(LoadedFileState::Unloaded),
            1 => Some(LoadedFileState::Unused),
            2 => Some(LoadedFileState::Unk),
            3 => Some(LoadedFileState::Loaded),
            _ => None,
        }
    }

    /// The byte stored for this state.
    pub fn to_raw(&self) -> (r: u8)
        ensures
            r == state_code(*self),
    {
        match self {
            LoadedFileState::Unloaded => 0,
            LoadedFileState::Unused => 1,
            LoadedFileState::Unk => 2,
            LoadedFileState::Loaded => 3,
        }
    }
}

/// One loaded resource: its buffer's address (0 for none), its reference count,
/// its state and the host's flags.
#[derive(Clone, Copy, Debug, PartialEq, Eq, Structural)]
pub struct LoadedEntry {
    pub file_data: usize,
    pub ref_count: u32,
    pub is_used: bool,
    pub state: LoadedFileState,
    pub flags2: bool,
    pub flags: u8,
    pub version: u32,
    pub unk: u8,
}

/// A node of the tree of loaded directories. Child directories and the
/// redirection target are addresses of other nodes (0 for none), kept as data.
#[derive(Clone, Debug)]
pub struct LoadedDirectory {
    pub load_data_index: u32,
    pub dir_count: u32,
    pub unk_x8: u64,
    pub child_files_indexes: Vec<u32>,
    pub child_directories: Vec<usize>,
    pub redirection_dir: usize,
}

/// Where a path entry's index leads in a loaded-entries array of `loaded_len`
/// entries: nowhere unless the path is loaded and the index is in bounds.
pub open spec fn slot_of(path: PathEntry, loaded_len: int) -> Option<int> {
    if path.is_loaded != 0 && path.loaded_index < loaded_len {
        Some(path.loaded_index as int)
    } else {
        None
    }
}

/// The position in the loaded-entries array that a path entry designates; `None`
/// for a path that is not loaded or whose index is stale.
pub fn loaded_slot(path: &PathEntry, loaded_len: usize) -> (r: Option<usize>)
    ensures
        match r {
            Some(i) => slot_of(*path, loaded_len as int) == Some(i as int),
            None => slot_of(*path, loaded_len as int) is None,
        },
{
    if path.is_loaded() && (path.loaded_index as usize) < loaded_len {
        Some(path.loaded_index as usize)
    } else {
        None
    }
}

/// The loaded entry that a path entry designates, looked up in a view of the
/// loaded-entries array.
pub fn entry_for<'a>(loaded: &'a [LoadedEntry], path: &PathEntry) -> (r: Option<&'a LoadedEntry>)
    ensures
        match slot_of(*path, loaded@.len() as int) {
            Some(i) => r == Some(&loaded@[i]),
            None => r is None,
        },
        path.is_loaded == 0 ==> r is None,
{
    match loaded_slot(path, loaded.len()) {
        Some(i) => Some(&loaded[i]),
        None => None,
    }
}

/// The table of loaded resources. Each array is held with the count the host
/// stores for it, and the two always agree.
pub struct LoadedTables {
    paths: Vec<PathEntry>,
    loaded: Vec<LoadedEntry>,
    loaded_directories: Vec<LoadedDirectory>,
    paths_len: u32,
    loaded_len: u32,
    loaded_directories_len: u32,
    version: u32,
}

impl LoadedTables {
    /// Each stored count equals the length of its array.
    pub open spec fn wf(&self) -> bool {
        &&& self.paths_view().len() == self.paths_count()
        &&& self.loaded_view().len() == self.loaded_count()
        &&& self.directories_view().len() == self.directories_count()
    }

    /// The path entries.
    pub closed spec fn paths_view(&self) -> Seq<PathEntry> {
        self.paths@
    }

    /// The loaded entries.
    pub closed spec fn loaded_view(&self) -> Seq<LoadedEntry> {
        self.loaded@
    }

    /// The loaded directories.
    pub closed spec fn directories_view(&self) -> Seq<LoadedDirectory> {
        self.loaded_directories@
    }

    /// The stored count of path entries.
    pub closed spec fn paths_count(&self) -> nat {
        self.paths_len as nat
    }

    /// The stored count of loaded entries.
    pub closed spec fn loaded_count(&self) -> nat {
        self.loaded_len as nat
    }

    /// The stored count of loaded directories.
    pub closed spec fn directories_count(&self) -> nat {
        self.loaded_directories_len as nat
    }

    /// The version number carried in the table.
    pub closed spec fn version_spec(&self) -> u32 {
        self.version
    }

    /// A table over the given arrays, with the counts taken from their lengths.
    pub fn new(
        paths: Vec<PathEntry>,
        loaded: Vec<LoadedEntry>,
        loaded_directories: Vec<LoadedDirectory>,
        version: u32,
    ) -> (r: Self)
        requires
            paths@.len() <= u32::MAX,
            loaded@.len() <= u32::MAX,
            loaded_directories@.len() <= u32::MAX,
        ensures
            r.wf(),
            r.paths_view() == paths@,
            r.loaded_view() == loaded@,
            r.directories_view() == loaded_directories@,
            r.version_spec() == version,
    {
        let paths_len = paths.len() as u32;
        let loaded_len = loaded.len() as u32;
        let loaded_directories_len = loaded_directories.len() as u32;
        LoadedTables {
            paths,
            loaded,
            loaded_directories,
            paths_len,
            loaded_len,
            loaded_directories_len,
            version,
        }
    }

    /// The stored count of path entries.
    pub fn paths_len(&self) -> (r: u32)
        ensures
            r == self.paths_count(),
    {
        self.paths_len
    }

    /// The stored count of loaded entries.
    pub fn loaded_len(&self) -> (r: u32)
        ensures
            r == self.loaded_count(),
    {
        self.loaded_len
    }

    /// The stored count of loaded directories.
    pub fn loaded_directories_len(&self) -> (r: u32)
        ensures
            r == self.directories_count(),
    {
        self.loaded_directories_len
    }

    /// The version number carried in the table.
    pub fn version(&self) -> (r: u32)
        ensures
            r == self.version_spec(),
    {
        self.version
    }

    /// The path entries, as many as the stored count says.
    pub fn paths(&self) -> (r: &[PathEntry])
        requires
            self.wf(),
        ensures
            r@ == self.paths_view(),
            r@.len() == self.paths_count(),
    {
        self.paths.as_slice()
    }

    /// The path entries for writing, as many as the stored count says. What is
    /// written through the view is what the table holds afterwards.
    pub fn paths_mut(&mut self) -> (r: &mut [PathEntry])
        requires
            old(self).wf(),
        ensures
            r@ == old(self).paths_view(),
            r@.len() == old(self).paths_count(),
            final(self).paths_view() == final(r)@,
            final(self).loaded_view() == old(self).loaded_view(),
            final(self).directories_view() == old(self).directories_view(),
            final(self).paths_count() == old(self).paths_count(),
            final(self).loaded_count() == old(self).loaded_count(),
            final(self).directories_count() == old(self).directories_count(),
            final(self).version_spec() == old(self).version_spec(),
    {
        self.paths.as_mut_slice()
    }

    /// The loaded entries, as many as the stored count says.
    pub fn loaded(&self) -> (r: &[LoadedEntry])
        requires
            self.wf(),
        ensures
            r@ == self.loaded_view(),
            r@.len() == self.loaded_count(),
    {
        self.loaded.as_slice()
    }

    /// The loaded entries for writing, as many as the stored count says.
    pub fn loaded_mut(&mut self) -> (r: &mut [LoadedEntry])
        requires
            old(self).wf(),
        ensures
            r@ == old(self).loaded_view(),
            r@.len() == old(self).loaded_count(),
            final(self).loaded_view() == final(r)@,
            final(self).paths_view() == old(self).paths_view(),
            final(self).directories_view() == old(self).directories_view(),
            final(self).paths_count() == old(self).paths_count(),
            final(self).loaded_count() == old(self).loaded_count(),
            final(self).directories_count() == old(self).directories_count(),
            final(self).version_spec() == old(self).version_spec(),
    {
        self.loaded.as_mut_slice()
    }

    /// The loaded directories, as many as the stored count says.
    pub fn loaded_directories(&self) -> (r: &[LoadedDirectory])
        requires
            self.wf(),
        ensures
            r@ == self.directories_view(),
            r@.len() == self.directories_count(),
    {
        self.loaded_directories.as_slice()
    }

    /// The loaded directories for writing, as many as the stored count says.
    pub fn loaded_directories_mut(&mut self) -> (r: &mut [LoadedDirectory])
        requires
            old(self).wf(),
        ensures
            r@ == old(self).directories_view(),
            r@.len() == old(self).directories_count(),
            final(self).directories_view() == final(r)@,
            final(self).paths_view() == old(self).paths_view(),
            final(self).loaded_view() == old(self).loaded_view(),
            final(self).paths_count() == old(self).paths_count(),
            final(self).loaded_count() == old(self).loaded_count(),
            final(self).directories_count() == old(self).directories_count(),
            final(self).version_spec() == old(self).version_spec(),
    {
        self.loaded_directories.as_mut_slice()
    }

    /// The loaded entry that a path entry designates; `None` for a path that is
    /// not loaded or whose index lies past the stored count.
    pub fn entry(&self, path: &PathEntry) -> (r: Option<&LoadedEntry>)
        requires
            self.wf(),
        ensures
            match slot_of(*path, self.loaded_count() as int) {
                Some(i) => r == Some(&self.loaded_view()[i]),
                None => r is None,
            },
            path.is_loaded == 0 ==> r is None,
    {
        entry_for(self.loaded(), path)
    }

    /// The loaded entry that a path entry designates, for writing; `None`, and the
    /// table untouched, for a path that is not loaded or whose index is stale.
    pub fn entry_mut(&mut self, path: &PathEntry) -> (r: Option<&mut LoadedEntry>)
        requires
            old(self).wf(),
        ensures
            match slot_of(*path, old(self).loaded_count() as int) {
                Some(i) => r matches Some(e) && *e == old(self).loaded_view()[i]
                    && final(self).loaded_view() == old(self).loaded_view().update(i, *final(e)),
                None => r is None && final(self).loaded_view() == old(self).loaded_view(),
            },
            path.is_loaded == 0 ==> r is None,
            final(self).wf(),
            final(self).paths_view() == old(self).paths_view(),
            final(self).directories_view() == old(self).directories_view(),
            final(self).version_spec() == old(self).version_spec(),
    {
        match loaded_slot(path, self.loaded.len()) {
            Some(i) => Some(&mut self.loaded[i]),
            None => None,
        }
    }
}

} // verus!
