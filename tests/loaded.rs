use unsharing::loaded::{
    entry_for, loaded_slot, LoadedDirectory, LoadedEntry, LoadedFileState, LoadedTables, PathEntry,
};

fn entry(file_data: usize, state: LoadedFileState) -> LoadedEntry {
    LoadedEntry {
        file_data,
        ref_count: 1,
        is_used: true,
        state,
        flags2: false,
        flags: 0,
        version: 0,
        unk: 0,
    }
}

fn directory(index: u32) -> LoadedDirectory {
    LoadedDirectory {
        load_data_index: index,
        dir_count: 0,
        unk_x8: 0,
        child_files_indexes: vec![1, 2],
        child_directories: vec![],
        redirection_dir: 0,
    }
}

fn sample() -> LoadedTables {
    let paths = vec![
        PathEntry { loaded_index: 1, is_loaded: 1 },
        PathEntry { loaded_index: 0, is_loaded: 0 },
        PathEntry { loaded_index: 9, is_loaded: 1 },
    ];
    let loaded = vec![
        entry(0x100, LoadedFileState::Loaded),
        entry(0x200, LoadedFileState::Unused),
    ];
    LoadedTables::new(paths, loaded, vec![directory(4)], 7)
}

#[test]
fn is_loaded_reads_flag() {
    assert!(PathEntry { loaded_index: 0, is_loaded: 1 }.is_loaded());
    assert!(PathEntry { loaded_index: 0, is_loaded: 0x100 }.is_loaded());
    assert!(!PathEntry { loaded_index: 3, is_loaded: 0 }.is_loaded());
}

#[test]
fn state_codes_round_trip() {
    for v in 0u8..=3 {
        assert_eq!(LoadedFileState::from_raw(v).unwrap().to_raw(), v);
    }
    assert_eq!(LoadedFileState::from_raw(3), Some(LoadedFileState::Loaded));
    assert_eq!(LoadedFileState::from_raw(2), Some(LoadedFileState::Unk));
    assert_eq!(LoadedFileState::from_raw(4), None);
    assert_eq!(LoadedFileState::from_raw(255), None);
}

#[test]
fn views_match_stored_counts() {
    let t = sample();
    assert_eq!(t.paths().len(), t.paths_len() as usize);
    assert_eq!(t.loaded().len(), t.loaded_len() as usize);
    assert_eq!(t.loaded_directories().len(), t.loaded_directories_len() as usize);
    assert_eq!(t.paths_len(), 3);
    assert_eq!(t.loaded_len(), 2);
    assert_eq!(t.loaded_directories_len(), 1);
    assert_eq!(t.version(), 7);
    assert_eq!(t.loaded_directories()[0].load_data_index, 4);
}

#[test]
fn mutable_views_write_through() {
    let mut t = sample();
    t.paths_mut()[1].is_loaded = 1;
    assert!(t.paths()[1].is_loaded());
    t.loaded_mut()[0].state = LoadedFileState::Unloaded;
    assert_eq!(t.loaded()[0].state, LoadedFileState::Unloaded);
    t.loaded_directories_mut()[0].redirection_dir = 0x900;
    assert_eq!(t.loaded_directories()[0].redirection_dir, 0x900);
    assert_eq!(t.paths_len(), 3);
}

#[test]
fn unloaded_path_is_refused() {
    let t = sample();
    let p = t.paths()[1];
    assert!(!p.is_loaded());
    assert!(t.entry(&p).is_none());
    assert!(entry_for(t.loaded(), &p).is_none());
    assert_eq!(loaded_slot(&p, 2), None);
}

#[test]
fn loaded_path_indexes_its_entry() {
    let t = sample();
    let p = t.paths()[0];
    assert!(p.is_loaded());
    assert_eq!(t.entry(&p).unwrap().file_data, 0x200);
    assert_eq!(loaded_slot(&p, 2), Some(1));
}

#[test]
fn stale_index_is_refused() {
    let t = sample();
    let p = t.paths()[2];
    assert!(p.is_loaded());
    assert!(t.entry(&p).is_none());
    assert_eq!(loaded_slot(&p, 9), None);
    assert_eq!(loaded_slot(&p, 10), Some(9));
}

#[test]
fn entry_mut_updates_designated_entry() {
    let mut t = sample();
    let p = t.paths()[0];
    t.entry_mut(&p).unwrap().ref_count = 5;
    assert_eq!(t.loaded()[1].ref_count, 5);
    assert_eq!(t.loaded()[0].ref_count, 1);
    let q = t.paths()[1];
    assert!(t.entry_mut(&q).is_none());
}
