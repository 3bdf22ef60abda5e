use absurder_sql::fs_persist::{
    allocations_text, block_file_id, block_file_name, fs_persist_sync, mirror_base, prepare_steps,
    FsPlan, FsStep,
};
use absurder_sql::json::print;
use absurder_sql::metadata::{
    algo_name, collect_ids, collect_records, load, new_document, normalize, persist_document,
};
use absurder_sql::storage::{BlockChecksum, BlockStorage, ChecksumAlgorithm, ChecksumManager};
use absurder_sql::sync_operations::SyncEvent;
use std::collections::{HashMap, HashSet};

fn storage(dirty: &[(u64, &[u8])], checksums: &[(u64, u64)], allocated: &[u64]) -> BlockStorage {
    BlockStorage {
        db_name: "a.db".to_string(),
        block_size: 4096,
        dirty_blocks: dirty.iter().map(|(id, data)| (*id, data.to_vec())).collect(),
        allocated_blocks: allocated.iter().cloned().collect(),
        checksum_manager: ChecksumManager {
            default_algorithm: ChecksumAlgorithm::CRC32,
            checksums: checksums
                .iter()
                .map(|(id, checksum)| {
                    (*id, BlockChecksum { checksum: *checksum, algo: ChecksumAlgorithm::FastHash })
                })
                .collect(),
        },
        sync_count: 0,
        last_sync_duration_ms: 0,
    }
}

fn value(text: &str) -> serde_json::Value {
    serde_json::from_str(text).unwrap()
}

struct Directory {
    files: HashMap<String, String>,
    blocks: HashMap<String, Vec<u8>>,
}

fn carry_out(directory: &mut Directory, plan: &FsPlan, steps: Vec<FsStep>) {
    for step in steps {
        match step {
            FsStep::EnsureDirectory => {}
            FsStep::CreateIfMissing { file, text } => {
                directory.files.entry(file).or_insert(text);
            }
            FsStep::WriteBlock { file, data } => {
                directory.blocks.insert(file, data);
            }
            FsStep::WriteFile { file, text, durable } => {
                assert_eq!(durable, file == "metadata.json.pending");
                directory.files.insert(file, text);
            }
            FsStep::Rename { from, to } => {
                let text = directory.files.remove(&from).unwrap();
                directory.files.insert(to, text);
            }
            FsStep::Sweep => directory.blocks.retain(|name, _| !plan.is_stray(name)),
        }
    }
}

#[test]
fn block_files_and_their_ids() {
    assert_eq!(block_file_name(0), "block_0.bin");
    assert_eq!(block_file_name(u64::MAX), "block_18446744073709551615.bin");
    assert_eq!(block_file_id("block_17.bin"), Some(17));
    assert_eq!(block_file_id("block_+17.bin"), Some(17));
    assert_eq!(block_file_id("block_.bin"), None);
    assert_eq!(block_file_id("block_x.bin"), None);
    assert_eq!(block_file_id("block_17"), None);
    assert_eq!(block_file_id("17.bin"), None);
    assert_eq!(block_file_id("block_17.bin.bin"), None);
    assert_eq!(block_file_id("block_18446744073709551616.bin"), None);
}

#[test]
fn preparing_makes_an_empty_document() {
    let steps = prepare_steps();
    assert_eq!(steps.len(), 2);
    assert!(matches!(steps[0], FsStep::EnsureDirectory));
    match &steps[1] {
        FsStep::CreateIfMissing { file, text } => {
            assert_eq!(file, "metadata.json");
            assert_eq!(text, "{\"entries\":[]}");
            assert_eq!(load(Some(text)), new_document());
        }
        other => panic!("{:?}", other),
    }
}

#[test]
fn documents_that_cannot_be_read_are_empty() {
    let empty = value("{\"entries\":[]}");
    assert_eq!(new_document(), empty);
    assert_eq!(load(None), empty);
    assert_eq!(load(Some("")), empty);
    assert_eq!(load(Some("[1]")), empty);
    assert_eq!(load(Some("{\"x\":1}")), value("{\"x\":1}"));
}

#[test]
fn printed_documents_read_back() {
    let document = value("{\"entries\":[[1,{\"algo\":\"\\u0007é\",\"n\":null}]],\"z\":true}");
    let text = print(&document);
    assert_eq!(text, "{\"entries\":[[1,{\"algo\":\"\\u0007é\",\"n\":null}]],\"z\":true}");
    assert_eq!(load(Some(&text)), document);
}

#[test]
fn negative_integers_read_back() {
    let document = value("{\"entries\":[[1,{\"n\":-7,\"m\":-9223372036854775808}]],\"z\":-1}");
    let text = print(&document);
    assert_eq!(text, "{\"entries\":[[1,{\"m\":-9223372036854775808,\"n\":-7}]],\"z\":-1}");
    assert_eq!(load(Some(&text)), document);
    assert!(collect_ids(&value("{\"entries\":[[-1,{}],[2,{}]]}")).contains(&2));
    assert!(!collect_records(&value("{\"entries\":[[-1,{}],[2,{}]]}")).contains_key(&1));
}

#[test]
fn normalizing_mends_algorithms_only() {
    let document = value(
        "{\"entries\":[[1,{\"algo\":\"FastHash\"}],[2,{\"algo\":\"MD5\",\"x\":1}],[3,{}],[4],
          [5,{\"algo\":7}],\"y\",[6,7],[8,{},9]],\"other\":-1.5}",
    );
    let normal = normalize(document, ChecksumAlgorithm::CRC32);
    assert_eq!(
        normal,
        value(
            "{\"entries\":[[1,{\"algo\":\"FastHash\"}],[2,{\"algo\":\"CRC32\",\"x\":1}],
              [3,{\"algo\":\"CRC32\"}],[4],[5,{\"algo\":\"CRC32\"}],\"y\",[6,7],[8,{},9]],
              \"other\":-1.5}"
        )
    );
    assert_eq!(normalize(normal.clone(), ChecksumAlgorithm::FastHash), normal);
    assert_eq!(collect_ids(&normal), HashSet::from([1, 2, 3, 4, 5, 6, 8]));
    let strange = value("{\"entries\":{\"a\":1}}");
    assert_eq!(normalize(strange.clone(), ChecksumAlgorithm::CRC32), strange);
    assert_eq!(collect_ids(&strange), HashSet::new());
}

#[test]
fn records_of_a_document() {
    let records = collect_records(&value(
        "{\"entries\":[[1,{\"v\":1}],[-1,{}],[1,{\"v\":2}],[2,3],[3,{},4],[1.5,{}]]}",
    ));
    assert_eq!(records.len(), 1);
    assert_eq!(records[&1]["v"], serde_json::Value::from(2u64));
}

#[test]
fn names_of_algorithms() {
    assert_eq!(algo_name(ChecksumAlgorithm::CRC32), "CRC32");
    assert_eq!(algo_name(ChecksumAlgorithm::FastHash), "FastHash");
}

#[test]
fn persisting_writes_records_and_keeps_others() {
    let document = value(
        "{\"entries\":[[1,{\"version\":4,\"algo\":\"CRC32\"}],[2,{\"version\":9,\"algo\":\"?\"}],
          [3,{\"version\":18446744073709551615}]]}",
    );
    let dirty = HashMap::from([(1u64, vec![1u8]), (3, vec![3]), (5, vec![5]), (6, vec![6])]);
    let known = |checksum| BlockChecksum { checksum, algo: ChecksumAlgorithm::FastHash };
    let checksums = HashMap::from([(1u64, known(10)), (3, known(30)), (5, known(50))]);
    let (ids, written) =
        persist_document(&document, &dirty, &checksums, 77, ChecksumAlgorithm::CRC32);
    assert_eq!(ids.iter().cloned().collect::<HashSet<u64>>(), HashSet::from([1, 2, 3, 5]));
    assert_eq!(ids.len(), 4);
    let records = collect_records(&written);
    let record = |checksum: u64, version: u64| {
        value(&format!(
            "{{\"checksum\":{},\"last_modified_ms\":77,\"version\":{},\"algo\":\"FastHash\"}}",
            checksum, version
        ))
    };
    assert_eq!(serde_json::Value::Object(records[&1].clone()), record(10, 5));
    assert_eq!(serde_json::Value::Object(records[&3].clone()), record(30, u64::MAX));
    assert_eq!(serde_json::Value::Object(records[&5].clone()), record(50, 1));
    assert_eq!(
        serde_json::Value::Object(records[&2].clone()),
        value("{\"version\":9,\"algo\":\"CRC32\"}")
    );
}

#[test]
fn allocations_are_listed_in_order() {
    assert_eq!(allocations_text(&HashSet::from([9, 1, 4])), "{\"allocated\":[1,4,9]}");
    assert_eq!(allocations_text(&HashSet::new()), "{\"allocated\":[]}");
}

#[test]
fn where_syncs_are_mirrored() {
    assert_eq!(mirror_base(Some("/tmp/x"), true, 5), "/tmp/x");
    assert_eq!(mirror_base(None, true, 5), ".absurdersql_fs/run_5");
    assert_eq!(mirror_base(None, false, 5), ".absurdersql_fs");
}

#[test]
fn sync_of_dirty_blocks_to_files() {
    let mut s = storage(&[(1, b"one"), (2, b"two")], &[(1, 11)], &[2, 1]);
    let sync =
        fs_persist_sync(&mut s, Some("{\"entries\":[[7,{\"algo\":\"x\"}]]}"), 5, 0, true).unwrap();
    assert_eq!(
        sync.events,
        vec![
            SyncEvent::Started { blocks: 2, bytes: 8192 },
            SyncEvent::Succeeded { duration_ms: 1, blocks: 2 },
        ]
    );
    assert!(sync.evict);
    assert!(sync.plan.mirrored);
    assert!(s.dirty_blocks.is_empty());
    assert_eq!(s.sync_count, 1);
    assert_eq!(s.last_sync_duration_ms, 1);
    assert_eq!(sync.plan.valid_ids, HashSet::from([1, 7]));
    assert_eq!(sync.plan.allocations, "{\"allocated\":[1,2]}");
    for mirror in [false, true] {
        let mut directory = Directory {
            files: HashMap::from([("metadata.json".to_string(), "old".to_string())]),
            blocks: HashMap::from([
                ("block_7.bin".to_string(), vec![7]),
                ("block_8.bin".to_string(), vec![8]),
                ("note.txt".to_string(), vec![0]),
            ]),
        };
        let steps = sync.plan.steps(mirror);
        assert!(matches!(steps[0], FsStep::EnsureDirectory));
        carry_out(&mut directory, &sync.plan, steps);
        assert_eq!(
            directory.blocks,
            HashMap::from([
                ("block_1.bin".to_string(), b"one".to_vec()),
                ("block_7.bin".to_string(), vec![7]),
                ("note.txt".to_string(), vec![0]),
            ])
        );
        assert_eq!(directory.files.len(), 2);
        assert_eq!(directory.files["allocations.json"], "{\"allocated\":[1,2]}");
        let records = collect_records(&load(Some(&directory.files["metadata.json"])));
        assert_eq!(records.len(), 2);
        assert_eq!(records[&1]["version"], serde_json::Value::from(1u64));
        assert_eq!(records[&7]["algo"], serde_json::Value::from("CRC32"));
    }
}

#[test]
fn each_sync_to_files_raises_the_version() {
    let mut text: Option<String> = None;
    for version in 1..4u64 {
        let mut s = storage(&[(1, b"x")], &[(1, 11)], &[1]);
        let sync = fs_persist_sync(&mut s, text.as_deref(), 5, 9, false).unwrap();
        let records = collect_records(&load(Some(&sync.plan.metadata)));
        assert_eq!(records[&1]["version"], serde_json::Value::from(version));
        text = Some(sync.plan.metadata);
    }
}

#[test]
fn sync_to_files_without_dirty_blocks_cleans_up() {
    let mut s = storage(&[], &[(1, 11)], &[3]);
    let sync =
        fs_persist_sync(&mut s, Some("{\"entries\":[[7,{\"algo\":\"x\"}]],\"k\":1}"), 5, 0, false)
            .unwrap();
    assert_eq!(sync.events, vec![SyncEvent::Started { blocks: 0, bytes: 0 }]);
    assert!(!sync.evict);
    assert!(!sync.plan.mirrored);
    assert_eq!(s.sync_count, 0);
    assert_eq!(sync.plan.metadata, "{\"entries\":[[7,{\"algo\":\"CRC32\"}]],\"k\":1}");
    assert_eq!(sync.plan.valid_ids, HashSet::from([7]));
    let steps = sync.plan.steps(false);
    assert_eq!(steps.len(), 4);
    assert!(matches!(steps[3], FsStep::Sweep));
    assert_eq!(sync.plan.steps(true).len(), 5);
}

#[test]
fn metadata_is_replaced_as_a_whole() {
    let mut s = storage(&[(1, b"x")], &[(1, 11)], &[]);
    let sync = fs_persist_sync(&mut s, None, 5, 0, false).unwrap();
    let count = sync.plan.steps(false).len();
    for n in 0..=count {
        let mut directory = Directory {
            files: HashMap::from([("metadata.json".to_string(), "old".to_string())]),
            blocks: HashMap::new(),
        };
        let mut steps = sync.plan.steps(false);
        steps.truncate(n);
        carry_out(&mut directory, &sync.plan, steps);
        let text = &directory.files["metadata.json"];
        assert!(text == "old" || *text == sync.plan.metadata);
    }
}
