use absurder_sql::collections::sorted_ids;
use absurder_sql::indexeddb::{indexeddb_write, missing_stores};
use absurder_sql::storage::{
    commit_version, BlockChecksum, BlockStorage, ChecksumAlgorithm, ChecksumManager, GlobalStorage,
};
use absurder_sql::sync_operations::{
    finish_sync, has_callback, sync_blocks, sync_implementation_impl, sync_started, SyncEvent,
    SyncNext, SyncTarget,
};
use std::collections::{HashMap, HashSet};

fn storage(name: &str, dirty: &[(u64, &[u8])], checksums: &[(u64, u64)]) -> BlockStorage {
    BlockStorage {
        db_name: name.to_string(),
        block_size: 4096,
        dirty_blocks: dirty.iter().map(|(id, data)| (*id, data.to_vec())).collect(),
        allocated_blocks: HashSet::new(),
        checksum_manager: ChecksumManager {
            default_algorithm: ChecksumAlgorithm::FastHash,
            checksums: checksums
                .iter()
                .map(|(id, checksum)| {
                    (*id, BlockChecksum { checksum: *checksum, algo: ChecksumAlgorithm::CRC32 })
                })
                .collect(),
        },
        sync_count: 7,
        last_sync_duration_ms: 3,
    }
}

fn stored(globals: &GlobalStorage, name: &str) -> HashMap<u64, Vec<u8>> {
    globals.stored_blocks(name).into_iter().collect()
}

#[test]
fn memory_sync_stores_blocks_and_counts() {
    let mut globals = GlobalStorage::new();
    let mut s = storage("a.db", &[(1, b"one"), (2, b"two")], &[(1, 11)]);
    let outcome =
        sync_implementation_impl(&mut s, &mut globals, SyncTarget::Memory, 99, 0).unwrap();
    assert_eq!(
        outcome.events,
        vec![
            SyncEvent::Started { blocks: 2, bytes: 8192 },
            SyncEvent::Succeeded { duration_ms: 1, blocks: 2 },
        ]
    );
    assert!(matches!(outcome.next, SyncNext::EvictCache));
    assert!(s.dirty_blocks.is_empty());
    assert_eq!(s.sync_count, 8);
    assert_eq!(s.last_sync_duration_ms, 1);
    assert_eq!(globals.commit_marker("a.db"), 1);
    assert_eq!(globals.commit_marker("b.db"), 0);
    assert_eq!(
        stored(&globals, "a.db"),
        HashMap::from([(1, b"one".to_vec()), (2, b"two".to_vec())])
    );
    let metadata = globals.metadata.get("a.db").unwrap();
    assert_eq!(metadata.len(), 1);
    assert_eq!(metadata[&1].checksum, 11);
    assert_eq!(metadata[&1].last_modified_ms, 99);
    assert_eq!(metadata[&1].version, 1);
    assert_eq!(metadata[&1].algo, ChecksumAlgorithm::CRC32);
    assert_eq!(globals.stored_checksums("a.db"), vec![(1, 11)]);
}

#[test]
fn memory_sync_is_finished_once_its_duration_is_known() {
    let mut globals = GlobalStorage::new();
    let mut s = storage("a.db", &[(1, b"one")], &[(1, 11)]);
    let outcome = sync_blocks(&mut s, &mut globals, SyncTarget::Memory, 99);
    assert_eq!(outcome.events, vec![SyncEvent::Started { blocks: 1, bytes: 4096 }]);
    assert!(matches!(outcome.next, SyncNext::Finish));
    assert_eq!(s.dirty_blocks.len(), 1);
    assert_eq!(globals.commit_marker("a.db"), 1);
    assert_eq!(
        finish_sync(&mut s, 12),
        SyncEvent::Succeeded { duration_ms: 12, blocks: 1 }
    );
    assert!(s.dirty_blocks.is_empty());
    assert_eq!((s.sync_count, s.last_sync_duration_ms), (8, 12));
    let outcome = sync_blocks(&mut s, &mut globals, SyncTarget::Discard, 99);
    assert!(matches!(outcome.next, SyncNext::Done));
    assert_eq!((s.sync_count, s.last_sync_duration_ms), (9, 12));
}

#[test]
fn the_browser_has_no_callback_for_the_start_of_a_sync() {
    let started = SyncEvent::Started { blocks: 1, bytes: 4096 };
    let succeeded = SyncEvent::Succeeded { duration_ms: 1, blocks: 1 };
    assert!(!has_callback(SyncTarget::Browser, started));
    assert!(has_callback(SyncTarget::Browser, succeeded));
    assert!(has_callback(SyncTarget::Memory, started));
    assert!(has_callback(SyncTarget::FileSystem, succeeded));
}

#[test]
fn versions_stay_below_the_commit_marker() {
    let mut globals = GlobalStorage::new();
    for (target, id) in [(SyncTarget::Memory, 1), (SyncTarget::Browser, 2), (SyncTarget::Memory, 1)]
    {
        let mut s = storage("a.db", &[(id, b"x")], &[(id, 5)]);
        sync_implementation_impl(&mut s, &mut globals, target, 1, 0).unwrap();
        let marker = globals.commit_marker("a.db");
        for metadata in globals.metadata.get("a.db").unwrap().values() {
            assert!(metadata.version as u64 <= marker);
        }
    }
    assert_eq!(globals.commit_marker("a.db"), 3);
}

#[test]
fn browser_sync_never_overwrites_committed_data() {
    let mut globals = GlobalStorage::new();
    let mut s = storage("a.db", &[(1, b"old"), (2, b"old")], &[(1, 11)]);
    sync_implementation_impl(&mut s, &mut globals, SyncTarget::Browser, 1, 0).unwrap();
    let mut s = storage("a.db", &[(1, b"new"), (2, b"new"), (3, b"new")], &[(1, 12)]);
    let outcome =
        sync_implementation_impl(&mut s, &mut globals, SyncTarget::Browser, 2, 50).unwrap();
    assert_eq!(
        stored(&globals, "a.db"),
        HashMap::from([(1, b"old".to_vec()), (2, b"new".to_vec()), (3, b"new".to_vec())])
    );
    assert_eq!(globals.metadata.get("a.db").unwrap()[&1].version, 2);
    assert_eq!(
        outcome.events,
        vec![
            SyncEvent::Started { blocks: 3, bytes: 12288 },
            SyncEvent::Succeeded { duration_ms: 1, blocks: 3 },
        ]
    );
    assert_eq!(s.sync_count, 7);
    assert_eq!(s.last_sync_duration_ms, 3);
    match outcome.next {
        SyncNext::PersistToIndexedDb { blocks, commit_marker } => {
            assert_eq!(commit_marker, 2);
            let blocks: HashMap<u64, Vec<u8>> = blocks.into_iter().collect();
            assert_eq!(blocks[&1], b"new".to_vec());
            assert_eq!(blocks.len(), 3);
        }
        other => panic!("{:?}", other),
    }
}

#[test]
fn memory_sync_overwrites() {
    let mut globals = GlobalStorage::new();
    let mut s = storage("a.db", &[(1, b"old")], &[(1, 11)]);
    sync_implementation_impl(&mut s, &mut globals, SyncTarget::Memory, 1, 0).unwrap();
    let mut s = storage("a.db", &[(1, b"new")], &[(1, 12)]);
    sync_implementation_impl(&mut s, &mut globals, SyncTarget::Memory, 2, 0).unwrap();
    assert_eq!(stored(&globals, "a.db")[&1], b"new".to_vec());
}

#[test]
fn discarding_sync_only_cleans() {
    let mut globals = GlobalStorage::new();
    let mut s = storage("a.db", &[(1, b"one")], &[]);
    let outcome =
        sync_implementation_impl(&mut s, &mut globals, SyncTarget::Discard, 1, 5).unwrap();
    assert_eq!(outcome.events, vec![SyncEvent::Started { blocks: 1, bytes: 4096 }]);
    assert!(matches!(outcome.next, SyncNext::Done));
    assert!(s.dirty_blocks.is_empty());
    assert_eq!(s.sync_count, 8);
    assert_eq!(s.last_sync_duration_ms, 3);
    assert_eq!(globals.commit_marker("a.db"), 0);
    assert!(globals.stored_blocks("a.db").is_empty());
}

#[test]
fn file_sync_keeps_blocks_dirty_at_first() {
    let mut globals = GlobalStorage::new();
    let mut s = storage("a.db", &[(1, b"one")], &[]);
    let outcome =
        sync_implementation_impl(&mut s, &mut globals, SyncTarget::FileSystem, 1, 5).unwrap();
    assert!(matches!(outcome.next, SyncNext::PersistToFileSystem));
    assert_eq!(s.dirty_blocks.len(), 1);
    assert_eq!(s.sync_count, 7);
}

#[test]
fn clean_sync_only_counts() {
    let mut globals = GlobalStorage::new();
    let mut s = storage("a.db", &[], &[]);
    sync_implementation_impl(&mut s, &mut globals, SyncTarget::Browser, 1, 0).unwrap();
    assert_eq!(globals.commit_marker("a.db"), 1);
    assert!(globals.stored_blocks("a.db").is_empty());
    assert_eq!(globals.advance_marker("a.db"), 2);
}

#[test]
fn databases_are_separate_and_can_be_deleted() {
    let mut globals = GlobalStorage::new();
    let mut a = storage("a.db", &[(1, b"a")], &[(1, 1)]);
    let mut b = storage("b.db", &[(1, b"b")], &[(1, 2)]);
    sync_implementation_impl(&mut a, &mut globals, SyncTarget::Memory, 1, 0).unwrap();
    sync_implementation_impl(&mut b, &mut globals, SyncTarget::Memory, 1, 0).unwrap();
    globals.delete("a.db");
    assert!(globals.stored_blocks("a.db").is_empty());
    assert!(globals.stored_checksums("a.db").is_empty());
    assert_eq!(globals.commit_marker("a.db"), 0);
    assert_eq!(stored(&globals, "b.db")[&1], b"b".to_vec());
    assert_eq!(globals.commit_marker("b.db"), 1);
}

#[test]
fn reports_of_syncs() {
    let mut s = storage("a.db", &[(1, b"a")], &[]);
    s.sync_count = u64::MAX;
    assert_eq!(sync_started(&s), SyncEvent::Started { blocks: 1, bytes: 4096 });
    assert_eq!(finish_sync(&mut s, 17), SyncEvent::Succeeded { duration_ms: 17, blocks: 1 });
    assert_eq!(s.sync_count, 0);
    assert_eq!(s.last_sync_duration_ms, 17);
}

#[test]
fn versions_are_the_low_bits() {
    assert_eq!(commit_version(1), 1);
    assert_eq!(commit_version(u32::MAX as u64), u32::MAX);
    assert_eq!(commit_version(u32::MAX as u64 + 1), 0);
}

#[test]
fn ids_are_sorted() {
    assert_eq!(sorted_ids(&HashSet::from([5, 1, u64::MAX, 0])), vec![0, 1, 5, u64::MAX]);
}

#[test]
fn stores_of_indexeddb() {
    let names = |list: &[&str]| list.iter().map(|n| n.to_string()).collect::<Vec<String>>();
    assert_eq!(missing_stores(&names(&[])), names(&["blocks", "metadata"]));
    assert_eq!(missing_stores(&names(&["metadata"])), names(&["blocks"]));
    assert_eq!(missing_stores(&names(&["blocks", "x", "metadata"])), names(&[]));
}

#[test]
fn keys_in_indexeddb() {
    let write = indexeddb_write("a.db", &vec![(3, vec![1, 2]), (10, vec![])], 4);
    assert_eq!(
        write.blocks,
        vec![("a.db_3".to_string(), vec![1, 2]), ("a.db_10".to_string(), vec![])]
    );
    assert_eq!(write.marker_key, "a.db_commit_marker");
    assert_eq!(write.commit_marker, 4);
}
