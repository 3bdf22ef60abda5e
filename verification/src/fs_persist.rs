//! Persisting the dirty blocks of a database to files.
//!
//! A database has a directory with the block files in `blocks/`, the metadata
//! document `metadata.json` and the list of allocated blocks
//! `allocations.json`. This module decides what is written and removed; the
//! caller carries the steps out.

use crate::collections::{ascending, block_list, copy_bytes, lists_blocks, set_of, sorted_ids};
use crate::json::{
    all_held, array_value, held, new_map, no_fields, number_value, object_value, parsed, print,
    printed, put, simple, Json,
};
use crate::metadata::{
    collect_ids, document_of, entries_of, fresh_record, ids_of, law_other_records_stay,
    law_records_read_back, law_records_tell_the_checksum, load, loaded, next_version, normalize,
    normalized, persist_document, persisted, records_of, Record,
};
use crate::numbers::{decimal, law_decimal_reads_back, parse_u64, parsed_u64, to_decimal};
use crate::storage::BlockStorage;
use crate::sync_operations::{
    countable, finish_sync, finished, reported_ms, start_event, sync_started, SyncEvent,
};
use crate::text::{chars_of, concat, concat3, ends_with, starts_with, string_of};
use crate::types::DatabaseError;
use std::collections::HashSet;
use vstd::prelude::*;

verus! {

broadcast use vstd::std_specs::hash::group_hash_axioms;

/// The file that holds a block.
pub open spec fn block_file(id: u64) -> Seq<char> {
    "block_"@ + decimal(id as nat) + ".bin"@
}

/// The block id in the name of a block file.
pub open spec fn block_of_file(name: Seq<char>) -> Option<u64> {
    let rest = name.skip("block_"@.len() as int);
    if "block_"@.is_prefix_of(name) && ".bin"@.is_suffix_of(rest) {
        parsed_u64(rest.take(rest.len() - ".bin"@.len()))
    } else {
        None
    }
}

/// Whether a file is that of a block without a metadata entry.
pub open spec fn stray(name: Seq<char>, valid_ids: Set<u64>) -> bool {
    match block_of_file(name) {
        Some(id) => !valid_ids.contains(id),
        None => false,
    }
}

/// The file that holds a block.
pub fn block_file_name(id: u64) -> (name: String)
    ensures
        name@ == block_file(id),
{
    let numeral: String = to_decimal(id);
    concat3("block_", numeral.as_str(), ".bin")
}

/// The block id in the name of a block file.
pub fn block_file_id(name: &str) -> (id: Option<u64>)
    ensures
        id == block_of_file(name@),
{
    if !starts_with(name, "block_") {
        return None;
    }
    proof {
        reveal_strlit("block_");
        reveal_strlit(".bin");
    }
    let chars: Vec<char> = chars_of(name);
    let rest: String = string_of(&chars, 6, chars.len());
    assert(rest@ =~= name@.skip(6));
    if !ends_with(rest.as_str(), ".bin") {
        return None;
    }
    let numeral: String = string_of(&chars, 6, chars.len() - 4);
    assert(numeral@ =~= rest@.take(rest@.len() - 4));
    parse_u64(numeral.as_str())
}

/// One step of a sync to files, as the model of a directory sees it.
#[verifier::ext_equal]
pub enum Step {
    EnsureDirectory,
    CreateIfMissing { file: Seq<char>, text: Seq<char> },
    WriteBlock { file: Seq<char>, data: Seq<u8> },
    WriteFile { file: Seq<char>, text: Seq<char>, durable: bool },
    Rename { from: Seq<char>, to: Seq<char> },
    Sweep,
}

/// One step of a sync to files. A step that fails is passed over.
#[derive(Debug)]
pub enum FsStep {
    /// Create `blocks/` and the directories above it.
    EnsureDirectory,
    /// Write `file`, unless it exists.
    CreateIfMissing { file: String, text: String },
    /// Write the block file `file` in `blocks/`.
    WriteBlock { file: String, data: Vec<u8> },
    /// Write `file`; where `durable`, wait until it has reached the disk.
    WriteFile { file: String, text: String, durable: bool },
    /// Give the file `from` the name `to`, in place of the file of that name.
    Rename { from: String, to: String },
    /// Remove the files in `blocks/` that are stray.
    Sweep,
}

impl FsStep {
    pub open spec fn view(&self) -> Step {
        match self {
            FsStep::EnsureDirectory => Step::EnsureDirectory,
            FsStep::CreateIfMissing { file, text } => Step::CreateIfMissing {
                file: file@,
                text: text@,
            },
            FsStep::WriteBlock { file, data } => Step::WriteBlock { file: file@, data: data@ },
            FsStep::WriteFile { file, text, durable } => Step::WriteFile {
                file: file@,
                text: text@,
                durable: *durable,
            },
            FsStep::Rename { from, to } => Step::Rename { from: from@, to: to@ },
            FsStep::Sweep => Step::Sweep,
        }
    }
}

/// What each of several steps does.
pub open spec fn all_steps(steps: Seq<FsStep>) -> Seq<Step> {
    Seq::new(steps.len(), |i: int| steps[i]@)
}

/// What a sync to files writes.
#[derive(Debug)]
pub struct FsPlan {
    /// The dirty blocks.
    pub blocks: Vec<(u64, Vec<u8>)>,
    /// The text of the metadata document.
    pub metadata: String,
    /// The text of the list of allocated blocks.
    pub allocations: String,
    /// The blocks with a metadata entry.
    pub valid_ids: HashSet<u64>,
    /// Whether all of it is also written below the mirror directory.
    pub mirrored: bool,
}

/// The steps that write the dirty blocks.
pub open spec fn block_steps(blocks: Seq<(u64, Vec<u8>)>) -> Seq<Step> {
    Seq::new(
        blocks.len(),
        |i: int| Step::WriteBlock { file: block_file(blocks[i].0), data: blocks[i].1@ },
    )
}

/// The steps after the blocks are written. The metadata document is written
/// under another name first, and takes its place by renaming.
pub open spec fn closing_steps(metadata: Seq<char>, allocations: Seq<char>) -> Seq<Step> {
    seq![
        Step::WriteFile { file: "metadata.json.pending"@, text: metadata, durable: true },
        Step::Rename { from: "metadata.json.pending"@, to: "metadata.json"@ },
        Step::WriteFile { file: "allocations.json"@, text: allocations, durable: false },
        Step::Sweep,
    ]
}

/// The steps that carry a plan out, below the base directory of the database
/// or below the mirror directory.
pub open spec fn plan_steps(plan: &FsPlan, mirror: bool) -> Seq<Step> {
    let ensure = if mirror || plan.blocks@.len() > 0 {
        seq![Step::EnsureDirectory]
    } else {
        Seq::empty()
    };
    ensure + block_steps(plan.blocks@) + closing_steps(plan.metadata@, plan.allocations@)
}

/// The steps that come before a sync: its directory and a metadata document
/// exist, even if there is nothing to write.
pub fn prepare_steps() -> (steps: Vec<FsStep>)
    ensures
        all_steps(steps@) == seq![
            Step::EnsureDirectory,
            Step::CreateIfMissing { file: "metadata.json"@, text: "{\"entries\":[]}"@ },
        ],
{
    let mut steps: Vec<FsStep> = Vec::new();
    steps.push(FsStep::EnsureDirectory);
    steps.push(
        FsStep::CreateIfMissing {
            file: "metadata.json".to_owned(),
            text: "{\"entries\":[]}".to_owned(),
        },
    );
    assert(all_steps(steps@) =~= seq![
        Step::EnsureDirectory,
        Step::CreateIfMissing { file: "metadata.json"@, text: "{\"entries\":[]}"@ },
    ]);
    steps
}

impl FsPlan {
    /// The steps that carry the plan out, below the base directory of the
    /// database or below the mirror directory. Only the metadata document is
    /// written durably.
    pub fn steps(&self, mirror: bool) -> (steps: Vec<FsStep>)
        ensures
            all_steps(steps@) == plan_steps(self, mirror),
    {
        let mut steps: Vec<FsStep> = Vec::new();
        let ghost ensure = if mirror || self.blocks@.len() > 0 {
            seq![Step::EnsureDirectory]
        } else {
            Seq::empty()
        };
        if mirror || self.blocks.len() > 0 {
            steps.push(FsStep::EnsureDirectory);
        }
        assert(all_steps(steps@) =~= ensure + block_steps(self.blocks@).take(0));
        let mut i: usize = 0;
        while i < self.blocks.len()
            invariant
                i <= self.blocks@.len(),
                all_steps(steps@) == ensure + block_steps(self.blocks@).take(i as int),
            decreases self.blocks@.len() - i,
        {
            let ghost before = steps@;
            steps.push(
                FsStep::WriteBlock {
                    file: block_file_name(self.blocks[i].0),
                    data: copy_bytes(&self.blocks[i].1),
                },
            );
            assert(all_steps(steps@) =~= all_steps(before).push(steps@.last()@));
            assert(block_steps(self.blocks@).take(i as int + 1) =~= block_steps(
                self.blocks@,
            ).take(i as int).push(steps@.last()@));
            assert(all_steps(steps@) =~= ensure + block_steps(self.blocks@).take(i as int + 1));
            i += 1;
        }
        assert(block_steps(self.blocks@).take(self.blocks@.len() as int) =~= block_steps(
            self.blocks@,
        ));
        let ghost opening = steps@;
        steps.push(
            FsStep::WriteFile {
                file: "metadata.json.pending".to_owned(),
                text: self.metadata.clone(),
                durable: true,
            },
        );
        steps.push(
            FsStep::Rename {
                from: "metadata.json.pending".to_owned(),
                to: "metadata.json".to_owned(),
            },
        );
        steps.push(
            FsStep::WriteFile {
                file: "allocations.json".to_owned(),
                text: self.allocations.clone(),
                durable: false,
            },
        );
        steps.push(FsStep::Sweep);
        assert(all_steps(steps@) =~= all_steps(opening) + closing_steps(
            self.metadata@,
            self.allocations@,
        ));
        assert(all_steps(steps@) =~= plan_steps(self, mirror));
        steps
    }

    /// Whether the sweep removes the file `name` from `blocks/`.
    pub fn is_stray(&self, name: &str) -> (r: bool)
        ensures
            r == stray(name@, self.valid_ids@),
    {
        match block_file_id(name) {
            Some(id) => !self.valid_ids.contains(&id),
            None => false,
        }
    }
}

/// The list of allocated blocks as a document.
pub open spec fn allocation_document(ids: Seq<u64>) -> Json {
    Json::Object(
        no_fields().insert(
            "allocated"@,
            Json::Array(Seq::new(ids.len(), |i: int| Json::Unsigned(ids[i]))),
        ),
    )
}

/// Whether `text` is the list of the allocated blocks, in ascending order, and
/// can be read back.
pub open spec fn lists_allocations(text: Seq<char>, allocated: Set<u64>) -> bool {
    exists|ids: Seq<u64>|
        {
            &&& ascending(ids)
            &&& ids.to_set() == allocated
            &&& text == printed(#[trigger] allocation_document(ids))
            &&& parsed(text) == Some(allocation_document(ids))
        }
}

/// The text of the list of allocated blocks.
pub fn allocations_text(allocated: &HashSet<u64>) -> (text: String)
    ensures
        lists_allocations(text@, allocated@),
{
    let ids: Vec<u64> = sorted_ids(allocated);
    let mut items: Vec<serde_json::Value> = Vec::new();
    let mut i: usize = 0;
    while i < ids.len()
        invariant
            i <= ids@.len(),
            items@.len() == i,
            forall|j: int| 0 <= j < i ==> held(#[trigger] items@[j]) == Json::Unsigned(ids@[j]),
        decreases ids@.len() - i,
    {
        items.push(number_value(ids[i]));
        i += 1;
    }
    assert(all_held(items@) =~= Seq::new(ids@.len(), |i: int| Json::Unsigned(ids@[i])));
    let mut map = new_map();
    put(&mut map, "allocated".to_owned(), array_value(items));
    let document: serde_json::Value = object_value(map);
    assert(held(document) == allocation_document(ids@));
    proof {
        reveal_with_fuel(simple, 3);
        assert(simple(held(document), 127));
    }
    print(&document)
}

/// The directory below which a sync to files is mirrored: what the environment
/// names, or a directory of its own for every run of a debug build, or a fixed
/// one.
pub open spec fn mirror_directory(
    configured: Option<Seq<char>>,
    debug: bool,
    process_id: u32,
) -> Seq<char> {
    match configured {
        Some(directory) => directory,
        None => if debug {
            ".absurdersql_fs/run_"@ + decimal(process_id as nat)
        } else {
            ".absurdersql_fs"@
        },
    }
}

/// The directory below which a sync to files is mirrored. `configured` is the
/// environment variable `ABSURDERSQL_FS_BASE`.
pub fn mirror_base(configured: Option<&str>, debug: bool, process_id: u32) -> (directory: String)
    ensures
        directory@ == mirror_directory(
            match configured {
                Some(directory) => Some(directory@),
                None => None,
            },
            debug,
            process_id,
        ),
{
    match configured {
        Some(directory) => directory.to_owned(),
        None => if debug {
            let numeral: String = to_decimal(process_id as u64);
            concat(".absurdersql_fs/run_", numeral.as_str())
        } else {
            ".absurdersql_fs".to_owned()
        },
    }
}

/// The metadata records that a sync of `storage` finds in the metadata text.
pub open spec fn stored_records(text: Option<Seq<char>>) -> Map<u64, Record> {
    records_of(entries_of(loaded(text)))
}

/// The metadata records that a sync of dirty blocks leaves behind.
pub open spec fn synced_records(
    storage: &BlockStorage,
    text: Option<Seq<char>>,
    now_ms: u64,
) -> Map<u64, Record> {
    persisted(
        stored_records(text),
        storage.dirty(),
        storage.checksums(),
        now_ms,
        storage.checksum_manager.default_algorithm,
    )
}

/// Whether every record is simple enough to be read back off the text of the
/// metadata document.
pub open spec fn readable(records: Map<u64, Record>) -> bool {
    forall|id: u64| #[trigger] records.contains_key(id) ==> simple(Json::Object(records[id]), 124)
}

/// Whether `text` is the metadata document with the given records, in some
/// order of its entries.
pub open spec fn holds_records(text: Seq<char>, records: Map<u64, Record>) -> bool {
    exists|ids: Seq<u64>|
        ids.no_duplicates() && ids.to_set() == records.dom() && text == printed(
            #[trigger] document_of(ids, records),
        )
}

/// What a sync to files reports and leaves to do.
#[derive(Debug)]
pub struct FsSync {
    pub events: Vec<SyncEvent>,
    pub plan: FsPlan,
    /// Whether the block cache is to be brought back within its capacity.
    pub evict: bool,
}

/// A plan for a storage without dirty blocks: nothing but the metadata, with
/// each record normalized, and the list of allocated blocks.
fn cleanup_plan(storage: &BlockStorage, metadata: Option<&str>, mirrored: bool) -> (plan: FsPlan)
    ensures
        ({
            let text = match metadata {
                Some(text) => Some(text@),
                None => None,
            };
            let document = normalized(loaded(text), storage.checksum_manager.default_algorithm);
            &&& plan.blocks@.len() == 0
            &&& plan.metadata@ == printed(document)
            &&& simple(document, 127) ==> loaded(Some(plan.metadata@)) == document
            &&& lists_allocations(plan.allocations@, storage.allocated_blocks@)
            &&& plan.valid_ids@ == ids_of(entries_of(document))
            &&& plan.mirrored == mirrored
        }),
{
    let document: serde_json::Value = normalize(
        load(metadata),
        storage.checksum_manager.default_algorithm,
    );
    FsPlan {
        blocks: Vec::new(),
        metadata: print(&document),
        allocations: allocations_text(&storage.allocated_blocks),
        valid_ids: collect_ids(&document),
        mirrored,
    }
}

/// A document whose records are simple is simple.
proof fn lemma_document_is_simple(ids: Seq<u64>, records: Map<u64, Record>)
    requires
        ids.to_set() == records.dom(),
        readable(records),
    ensures
        simple(document_of(ids, records), 127),
{
    let entries = entries_of(document_of(ids, records));
    assert forall|i: int| 0 <= i < entries.len() implies simple(#[trigger] entries[i], 125) by {
        assert(ids.contains(ids[i]));
        assert(ids.to_set().contains(ids[i]));
        assert(records.contains_key(ids[i]));
        let pair = seq![Json::Unsigned(ids[i]), Json::Object(records[ids[i]])];
        assert(entries[i] == Json::Array(pair));
        assert(simple(pair[0], 124));
        assert(simple(pair[1], 124));
        assert(forall|j: int| 0 <= j < pair.len() ==> simple(#[trigger] pair[j], 124));
    }
    assert(simple(Json::Array(entries), 126));
}

/// A plan for a storage with dirty blocks: the blocks, the metadata with a new
/// record for each, and the list of allocated blocks.
fn persist_plan(
    storage: &BlockStorage,
    metadata: Option<&str>,
    now_ms: u64,
    mirrored: bool,
) -> (plan: FsPlan)
    ensures
        ({
            let text = match metadata {
                Some(text) => Some(text@),
                None => None,
            };
            let records = synced_records(storage, text, now_ms);
            &&& lists_blocks(plan.blocks@, storage.dirty())
            &&& plan.blocks@.len() == storage.dirty_blocks@.dom().len()
            &&& holds_records(plan.metadata@, records)
            &&& readable(records) ==> stored_records(Some(plan.metadata@)) == records
            &&& lists_allocations(plan.allocations@, storage.allocated_blocks@)
            &&& plan.valid_ids@ == records.dom()
            &&& plan.mirrored == mirrored
        }),
{
    let ghost text = match metadata {
        Some(text) => Some(text@),
        None => None,
    };
    let ghost records = synced_records(storage, text, now_ms);
    let (ids, document) = persist_document(
        &load(metadata),
        &storage.dirty_blocks,
        &storage.checksum_manager.checksums,
        now_ms,
        storage.checksum_manager.default_algorithm,
    );
    let metadata: String = print(&document);
    proof {
        assert(metadata@ == printed(document_of(ids@, records)));
        if readable(records) {
            lemma_document_is_simple(ids@, records);
            law_records_read_back(ids@, records);
        }
    }
    let valid_ids: HashSet<u64> = set_of(&ids);
    FsPlan {
        blocks: block_list(&storage.dirty_blocks),
        metadata,
        allocations: allocations_text(&storage.allocated_blocks),
        valid_ids,
        mirrored,
    }
}

/// Syncs the dirty blocks of `storage` to files. `metadata` is the text of the
/// metadata document, if it can be read, `now_ms` the time that new metadata
/// carries, `elapsed_ms` how long the sync has taken, and `mirrored` whether
/// the mirror directory is another than the base directory.
pub fn fs_persist_sync(
    storage: &mut BlockStorage,
    metadata: Option<&str>,
    now_ms: u64,
    elapsed_ms: u64,
    mirrored: bool,
) -> (r: Result<FsSync, DatabaseError>)
    requires
        countable(old(storage)),
    ensures
        r is Ok,
        r->Ok_0.plan.mirrored == mirrored,
        lists_blocks(r->Ok_0.plan.blocks@, old(storage).dirty()),
        lists_allocations(r->Ok_0.plan.allocations@, old(storage).allocated_blocks@),
        r->Ok_0.evict == (old(storage).dirty_blocks@.dom().len() > 0),
        old(storage).dirty_blocks@.dom().len() == 0 ==> {
            let text = match metadata {
                Some(text) => Some(text@),
                None => None,
            };
            let document = normalized(
                loaded(text),
                old(storage).checksum_manager.default_algorithm,
            );
            &&& *final(storage) == *old(storage)
            &&& r->Ok_0.events@ == seq![start_event(old(storage))]
            &&& r->Ok_0.plan.metadata@ == printed(document)
            &&& simple(document, 127) ==> loaded(Some(r->Ok_0.plan.metadata@)) == document
            &&& r->Ok_0.plan.valid_ids@ == ids_of(entries_of(document))
        },
        old(storage).dirty_blocks@.dom().len() > 0 ==> {
            let text = match metadata {
                Some(text) => Some(text@),
                None => None,
            };
            let records = synced_records(old(storage), text, now_ms);
            &&& finished(old(storage), final(storage), elapsed_ms)
            &&& r->Ok_0.events@ == seq![
                start_event(old(storage)),
                SyncEvent::Succeeded {
                    duration_ms: reported_ms(elapsed_ms),
                    blocks: old(storage).dirty_blocks@.dom().len() as usize,
                },
            ]
            &&& holds_records(r->Ok_0.plan.metadata@, records)
            &&& readable(records) ==> stored_records(Some(r->Ok_0.plan.metadata@)) == records
            &&& r->Ok_0.plan.valid_ids@ == records.dom()
        },
{
    let mut events: Vec<SyncEvent> = Vec::new();
    events.push(sync_started(storage));
    if storage.dirty_blocks.len() == 0 {
        let plan: FsPlan = cleanup_plan(storage, metadata, mirrored);
        assert(storage.dirty_blocks@.dom() =~= Set::<u64>::empty());
        return Ok(FsSync { events, plan, evict: false });
    }
    let plan: FsPlan = persist_plan(storage, metadata, now_ms, mirrored);
    events.push(finish_sync(storage, elapsed_ms));
    Ok(FsSync { events, plan, evict: true })
}

/// The files of a database directory.
#[verifier::ext_equal]
pub struct Directory {
    pub files: Map<Seq<char>, Seq<char>>,
    pub blocks: Map<Seq<char>, Seq<u8>>,
}

/// A directory after one step that succeeds.
pub open spec fn after_step(directory: Directory, step: Step, valid_ids: Set<u64>) -> Directory {
    match step {
        Step::EnsureDirectory => directory,
        Step::CreateIfMissing { file, text } => if directory.files.contains_key(file) {
            directory
        } else {
            Directory { files: directory.files.insert(file, text), ..directory }
        },
        Step::WriteBlock { file, data } => Directory {
            blocks: directory.blocks.insert(file, data),
            ..directory
        },
        Step::WriteFile { file, text, .. } => Directory {
            files: directory.files.insert(file, text),
            ..directory
        },
        Step::Rename { from, to } => if directory.files.contains_key(from) {
            Directory {
                files: directory.files.remove(from).insert(to, directory.files[from]),
                ..directory
            }
        } else {
            directory
        },
        Step::Sweep => Directory {
            blocks: Map::new(
                |name: Seq<char>| directory.blocks.contains_key(name) && !stray(name, valid_ids),
                |name: Seq<char>| directory.blocks[name],
            ),
            ..directory
        },
    }
}

/// A directory after several steps that all succeed.
pub open spec fn after_steps(
    directory: Directory,
    steps: Seq<Step>,
    valid_ids: Set<u64>,
) -> Directory
    decreases steps.len(),
{
    if steps.len() == 0 {
        directory
    } else {
        after_step(
            after_steps(directory, steps.drop_last(), valid_ids),
            steps.last(),
            valid_ids,
        )
    }
}

/// The name of a block file tells its block.
pub proof fn law_block_file_names_its_block(id: u64)
    ensures
        block_of_file(block_file(id)) == Some(id),
{
    reveal_strlit("block_");
    reveal_strlit(".bin");
    law_decimal_reads_back(id);
    let name = block_file(id);
    let rest = name.skip(6);
    let numeral = decimal(id as nat);
    assert(name.take(6) =~= "block_"@);
    assert("block_"@.is_prefix_of(name));
    assert(rest =~= numeral + ".bin"@);
    assert(rest.skip(rest.len() - 4) =~= ".bin"@);
    assert(".bin"@.is_suffix_of(rest));
    assert(rest.take(rest.len() - 4) =~= numeral);
}

/// Writing blocks changes no other file, and leaves each block's bytes in its
/// file.
proof fn lemma_blocks_written(
    directory: Directory,
    blocks: Seq<(u64, Vec<u8>)>,
    valid_ids: Set<u64>,
    n: int,
)
    requires
        0 <= n <= blocks.len(),
        forall|i: int, j: int|
            0 <= i < blocks.len() && 0 <= j < blocks.len() && i != j ==> (#[trigger] blocks[i]).0
                != (#[trigger] blocks[j]).0,
    ensures
        ({
            let after = after_steps(directory, block_steps(blocks).take(n), valid_ids);
            &&& after.files == directory.files
            &&& forall|i: int|
                0 <= i < n ==> {
                    &&& after.blocks.contains_key(block_file((#[trigger] blocks[i]).0))
                    &&& after.blocks[block_file(blocks[i].0)] == blocks[i].1@
                }
            &&& forall|name: Seq<char>|
                #![trigger after.blocks.contains_key(name)]
                #![trigger after.blocks[name]]
                (forall|i: int| 0 <= i < n ==> block_file((#[trigger] blocks[i]).0) != name) ==> {
                    &&& after.blocks.contains_key(name) == directory.blocks.contains_key(name)
                    &&& after.blocks[name] == directory.blocks[name]
                }
        }),
    decreases n,
{
    if n > 0 {
        lemma_blocks_written(directory, blocks, valid_ids, n - 1);
        assert(block_steps(blocks).take(n).drop_last() =~= block_steps(blocks).take(n - 1));
        let last = blocks[n - 1];
        assert(block_steps(blocks).take(n).last() == Step::WriteBlock {
            file: block_file(last.0),
            data: last.1@,
        });
        assert forall|i: int| 0 <= i < n - 1 implies block_file((#[trigger] blocks[i]).0)
            != block_file(last.0) by {
            law_block_file_names_its_block(blocks[i].0);
            law_block_file_names_its_block(last.0);
        }
    } else {
        assert(block_steps(blocks).take(0) =~= Seq::<Step>::empty());
    }
}

/// The steps of a plan up to its metadata leave the files as they are.
proof fn lemma_opening_steps(directory: Directory, plan: &FsPlan, mirror: bool, n: int)
    requires
        forall|i: int, j: int|
            0 <= i < plan.blocks@.len() && 0 <= j < plan.blocks@.len() && i != j ==> (
            #[trigger] plan.blocks@[i]).0 != (#[trigger] plan.blocks@[j]).0,
        0 <= n <= plan_steps(plan, mirror).len() - 4,
    ensures
        after_steps(directory, plan_steps(plan, mirror).take(n), plan.valid_ids@).files
            == directory.files,
        n == plan_steps(plan, mirror).len() - 4 ==> after_steps(
            directory,
            plan_steps(plan, mirror).take(n),
            plan.valid_ids@,
        ) == after_steps(directory, block_steps(plan.blocks@), plan.valid_ids@),
    decreases n,
{
    let steps = plan_steps(plan, mirror);
    let blocks = block_steps(plan.blocks@);
    let valid_ids = plan.valid_ids@;
    if n == 0 {
        assert(steps.take(0) =~= Seq::<Step>::empty());
        if steps.len() == 4 {
            assert(blocks =~= Seq::<Step>::empty());
        }
    } else if n == 1 {
        assert(steps.take(1).drop_last() =~= Seq::<Step>::empty());
        assert(steps.take(1).last() == Step::EnsureDirectory);
        assert(after_steps(directory, steps.take(1).drop_last(), valid_ids) == directory);
        if steps.len() == 5 {
            assert(blocks =~= Seq::<Step>::empty());
        }
    } else {
        lemma_shifted_steps(directory, plan, mirror, n);
        lemma_blocks_written(directory, plan.blocks@, valid_ids, n - 1);
        if n == steps.len() - 4 {
            assert(blocks.take(n - 1) =~= blocks);
        }
    }
}

/// Creating the directory first makes no difference to writing blocks.
proof fn lemma_shifted_steps(directory: Directory, plan: &FsPlan, mirror: bool, n: int)
    requires
        1 <= n <= plan_steps(plan, mirror).len() - 4,
    ensures
        after_steps(directory, plan_steps(plan, mirror).take(n), plan.valid_ids@) == after_steps(
            directory,
            block_steps(plan.blocks@).take(n - 1),
            plan.valid_ids@,
        ),
    decreases n,
{
    let steps = plan_steps(plan, mirror);
    let blocks = block_steps(plan.blocks@);
    if n == 1 {
        assert(steps.take(1).drop_last() =~= Seq::<Step>::empty());
        assert(steps.take(1).last() == Step::EnsureDirectory);
        assert(after_steps(directory, steps.take(1).drop_last(), plan.valid_ids@) == directory);
        assert(blocks.take(0) =~= Seq::<Step>::empty());
    } else {
        lemma_shifted_steps(directory, plan, mirror, n - 1);
        assert(steps.take(n).drop_last() =~= steps.take(n - 1));
        assert(blocks.take(n - 1).drop_last() =~= blocks.take(n - 2));
        assert(steps.take(n).last() == blocks.take(n - 1).last());
    }
}

/// The state after one more step, from the state before it.
proof fn lemma_one_more_step(
    directory: Directory,
    steps: Seq<Step>,
    valid_ids: Set<u64>,
    n: int,
)
    requires
        0 <= n < steps.len(),
    ensures
        after_steps(directory, steps.take(n + 1), valid_ids) == after_step(
            after_steps(directory, steps.take(n), valid_ids),
            steps[n],
            valid_ids,
        ),
{
    assert(steps.take(n + 1).drop_last() =~= steps.take(n));
    assert(steps.take(n + 1).last() == steps[n]);
}

/// The state after each of the closing steps, from the state before them.
#[verifier::spinoff_prover]
proof fn lemma_closing_steps(directory: Directory, plan: &FsPlan, mirror: bool)
    ensures
        ({
            let steps = plan_steps(plan, mirror);
            let n = steps.len() - 4;
            let valid = plan.valid_ids@;
            let s0 = after_steps(directory, steps.take(n), valid);
            let s1 = after_step(s0, steps[n], valid);
            let s2 = after_step(s1, steps[n + 1], valid);
            let s3 = after_step(s2, steps[n + 2], valid);
            let s4 = after_step(s3, steps[n + 3], valid);
            &&& after_steps(directory, steps.take(n + 1), valid) == s1
            &&& after_steps(directory, steps.take(n + 2), valid) == s2
            &&& after_steps(directory, steps.take(n + 3), valid) == s3
            &&& after_steps(directory, steps, valid) == s4
            &&& steps.take(n + 4) == steps
            &&& steps[n] == closing_steps(plan.metadata@, plan.allocations@)[0]
            &&& steps[n + 1] == closing_steps(plan.metadata@, plan.allocations@)[1]
            &&& steps[n + 2] == closing_steps(plan.metadata@, plan.allocations@)[2]
            &&& steps[n + 3] == closing_steps(plan.metadata@, plan.allocations@)[3]
        }),
{
    let steps = plan_steps(plan, mirror);
    let n = steps.len() - 4;
    let valid = plan.valid_ids@;
    let closing = closing_steps(plan.metadata@, plan.allocations@);
    assert(closing.len() == 4);
    assert(0 <= n);
    assert(steps.skip(n) =~= closing);
    assert(steps.skip(n)[0] == steps[n]);
    assert(steps.skip(n)[1] == steps[n + 1]);
    assert(steps.skip(n)[2] == steps[n + 2]);
    assert(steps.skip(n)[3] == steps[n + 3]);
    lemma_one_more_step(directory, steps, valid, n);
    lemma_one_more_step(directory, steps, valid, n + 1);
    lemma_one_more_step(directory, steps, valid, n + 2);
    lemma_one_more_step(directory, steps, valid, n + 3);
    assert(steps.take(n + 4) =~= steps);
}

/// The metadata document is replaced as a whole: wherever a sync to files is
/// cut off between two steps, `metadata.json` is the old document or the
/// complete new one.
#[verifier::spinoff_prover]
pub proof fn law_metadata_is_replaced_whole(
    directory: Directory,
    plan: &FsPlan,
    mirror: bool,
    dirty: Map<u64, Seq<u8>>,
    n: int,
)
    requires
        lists_blocks(plan.blocks@, dirty),
        0 <= n <= plan_steps(plan, mirror).len(),
    ensures
        ({
            let before = directory.files;
            let after = after_steps(
                directory,
                plan_steps(plan, mirror).take(n),
                plan.valid_ids@,
            ).files;
            ||| after.contains_key("metadata.json"@) && after["metadata.json"@] == plan.metadata@
            ||| {
                &&& after.contains_key("metadata.json"@) == before.contains_key("metadata.json"@)
                &&& after["metadata.json"@] == before["metadata.json"@]
            }
        }),
{
    reveal_strlit("metadata.json");
    reveal_strlit("metadata.json.pending");
    reveal_strlit("allocations.json");
    assert("metadata.json"@.len() == 13);
    assert("metadata.json.pending"@.len() == 21);
    assert("allocations.json"@.len() == 16);
    let steps = plan_steps(plan, mirror);
    let m = steps.len() - 4;
    lemma_closing_steps(directory, plan, mirror);
    lemma_opening_steps(directory, plan, mirror, m);
    if n <= m {
        lemma_opening_steps(directory, plan, mirror, n);
    } else {
        assert(n == m + 1 || n == m + 2 || n == m + 3 || n == m + 4);
    }
}

/// After a sync to files the metadata document and the list of allocated
/// blocks are those of the plan, every written block with a metadata entry has
/// its bytes in its file, no file of a block without an entry is left, and
/// every other file in `blocks/` is as it was.
pub proof fn law_sync_to_files(
    directory: Directory,
    plan: &FsPlan,
    mirror: bool,
    dirty: Map<u64, Seq<u8>>,
)
    requires
        lists_blocks(plan.blocks@, dirty),
    ensures
        ({
            let after = after_steps(directory, plan_steps(plan, mirror), plan.valid_ids@);
            &&& after.files.contains_key("metadata.json"@)
            &&& after.files["metadata.json"@] == plan.metadata@
            &&& !after.files.contains_key("metadata.json.pending"@)
            &&& after.files.contains_key("allocations.json"@)
            &&& after.files["allocations.json"@] == plan.allocations@
            &&& forall|id: u64| #[trigger]
                dirty.contains_key(id) && plan.valid_ids@.contains(id) ==> {
                    &&& after.blocks.contains_key(block_file(id))
                    &&& after.blocks[block_file(id)] == dirty[id]
                }
            &&& forall|name: Seq<char>| #[trigger]
                after.blocks.contains_key(name) ==> !stray(name, plan.valid_ids@)
            &&& forall|name: Seq<char>|
                (forall|id: u64| dirty.contains_key(id) ==> #[trigger] block_file(id) != name)
                    && !stray(name, plan.valid_ids@) ==> {
                    &&& #[trigger] after.blocks.contains_key(name)
                        == directory.blocks.contains_key(name)
                    &&& after.blocks.contains_key(name) ==> after.blocks[name]
                        == directory.blocks[name]
                }
        }),
{
    reveal_strlit("metadata.json");
    reveal_strlit("metadata.json.pending");
    reveal_strlit("allocations.json");
    assert("metadata.json"@.len() == 13);
    assert("metadata.json.pending"@.len() == 21);
    assert("allocations.json"@.len() == 16);
    let steps = plan_steps(plan, mirror);
    let m = steps.len() - 4;
    let count = plan.blocks@.len() as int;
    lemma_closing_steps(directory, plan, mirror);
    lemma_opening_steps(directory, plan, mirror, m);
    lemma_blocks_written(directory, plan.blocks@, plan.valid_ids@, count);
    assert(block_steps(plan.blocks@).take(count) =~= block_steps(plan.blocks@));
    let after = after_steps(directory, steps, plan.valid_ids@);
    let written = after_steps(directory, block_steps(plan.blocks@), plan.valid_ids@);
    assert forall|id: u64| #[trigger]
        dirty.contains_key(id) && plan.valid_ids@.contains(id) implies after.blocks.contains_key(
        block_file(id),
    ) && after.blocks[block_file(id)] == dirty[id] by {
        let i = choose|i: int| 0 <= i < plan.blocks@.len() && (#[trigger] plan.blocks@[i]).0 == id;
        assert(plan.blocks@[i].0 == id);
        law_block_file_names_its_block(id);
    }
    assert forall|name: Seq<char>|
        (forall|id: u64| dirty.contains_key(id) ==> #[trigger] block_file(id) != name) && !stray(
            name,
            plan.valid_ids@,
        ) implies {
        &&& #[trigger] after.blocks.contains_key(name) == directory.blocks.contains_key(name)
        &&& after.blocks.contains_key(name) ==> after.blocks[name] == directory.blocks[name]
    } by {
        assert forall|i: int| 0 <= i < count implies block_file((#[trigger] plan.blocks@[i]).0)
            != name by {
            assert(dirty.contains_key(plan.blocks@[i].0));
        }
        assert(written.blocks.contains_key(name) == directory.blocks.contains_key(name));
    }
}

/// The fields of a simple object are simple.
proof fn lemma_field_is_simple(document: Json, field: Seq<char>, depth: nat)
    requires
        simple(document, depth),
        document is Object,
        document->Object_0.contains_key(field),
    ensures
        depth > 0,
        simple(document->Object_0[field], (depth - 1) as nat),
{
}

/// A sync to files keeps the metadata readable: where every record found can be
/// read back, so can every record that the sync leaves behind.
pub proof fn law_metadata_stays_readable(
    storage: &BlockStorage,
    metadata: Option<Seq<char>>,
    now_ms: u64,
)
    requires
        readable(stored_records(metadata)),
    ensures
        readable(synced_records(storage, metadata, now_ms)),
{
    let stored = stored_records(metadata);
    let synced = synced_records(storage, metadata, now_ms);
    assert forall|id: u64| #[trigger] synced.contains_key(id) implies simple(
        Json::Object(synced[id]),
        124,
    ) by {
        assert forall|k: Seq<char>| #[trigger] synced[id].contains_key(k) implies simple(
            synced[id][k],
            123,
        ) by {
            if !(storage.dirty().contains_key(id) && storage.checksums().contains_key(id)) {
                assert(stored.contains_key(id));
                if stored[id].contains_key(k) {
                    lemma_field_is_simple(Json::Object(stored[id]), k, 124);
                }
            } else {
                let version = next_version(stored, id);
                let fresh = fresh_record(storage.checksums()[id], now_ms, version);
                assert(synced[id] == fresh);
                assert(fresh[k] is Unsigned || fresh[k] is Text);
            }
        }
    }
}

/// What was dirty is on disk after a sync: the file of every dirty block with a
/// known checksum holds its bytes, and its record is in the metadata. A block
/// without a checksum is left out: it has no record, so its file is swept.
pub proof fn law_dirty_blocks_reach_their_files(
    storage: &BlockStorage,
    metadata: Option<Seq<char>>,
    now_ms: u64,
    plan: &FsPlan,
    directory: Directory,
    mirror: bool,
    id: u64,
)
    requires
        lists_blocks(plan.blocks@, storage.dirty()),
        plan.valid_ids@ == synced_records(storage, metadata, now_ms).dom(),
        storage.dirty().contains_key(id),
        storage.checksums().contains_key(id),
    ensures
        ({
            let after = after_steps(directory, plan_steps(plan, mirror), plan.valid_ids@);
            &&& after.blocks.contains_key(block_file(id))
            &&& after.blocks[block_file(id)] == storage.dirty()[id]
            &&& synced_records(storage, metadata, now_ms).contains_key(id)
        }),
{
    law_sync_to_files(directory, plan, mirror, storage.dirty());
    assert(storage.dirty().contains_key(id) && plan.valid_ids@.contains(id));
}

/// What a sync to files leaves behind of a written block: a record with the
/// checksum that is known of it, all of it, with the algorithm of that checksum
/// and the time of the sync. A text from which the records can be read gives
/// exactly these.
pub proof fn law_synced_record_tells_the_checksum(
    storage: &BlockStorage,
    before: Option<Seq<char>>,
    after: Seq<char>,
    now_ms: u64,
    id: u64,
)
    requires
        storage.dirty_blocks@.contains_key(id),
        storage.checksum_manager.checksums@.contains_key(id),
        stored_records(Some(after)) == synced_records(storage, before, now_ms),
    ensures
        ({
            let known = storage.checksum_manager.checksums@[id];
            let records = stored_records(Some(after));
            &&& records.contains_key(id)
            &&& records[id]["checksum"@] == Json::Unsigned(known.checksum)
            &&& records[id]["last_modified_ms"@] == Json::Unsigned(now_ms)
            &&& known.algo is FastHash ==> records[id]["algo"@] == Json::Text("FastHash"@)
            &&& known.algo is CRC32 ==> records[id]["algo"@] == Json::Text("CRC32"@)
            &&& stored_records(before).contains_key(id) && stored_records(
                before,
            )[id].contains_key("version"@) ==> (stored_records(before)[id]["version"@] matches
                Json::Unsigned(version) ==> version < u64::MAX ==> records[id]["version"@]
                == Json::Unsigned((version + 1) as u64))
            &&& !stored_records(before).contains_key(id) ==> records[id]["version"@]
                == Json::Unsigned(1)
        }),
{
    assert(storage.dirty().contains_key(id));
    law_records_tell_the_checksum(
        stored_records(before),
        storage.dirty(),
        storage.checksums(),
        now_ms,
        storage.checksum_manager.default_algorithm,
        id,
    );
}

/// A block that is not dirty keeps its record through a sync to files, if the
/// record names an algorithm that exists, and gets none if it had none.
pub proof fn law_synced_records_of_other_blocks(
    storage: &BlockStorage,
    text: Option<Seq<char>>,
    now_ms: u64,
    id: u64,
)
    requires
        !storage.dirty_blocks@.contains_key(id),
    ensures
        ({
            let before = stored_records(text);
            let after = synced_records(storage, text, now_ms);
            &&& after.contains_key(id) == before.contains_key(id)
            &&& before.contains_key(id) && before[id].contains_key("algo"@) && (before[id]["algo"@]
                == Json::Text("FastHash"@) || before[id]["algo"@] == Json::Text("CRC32"@))
                ==> after[id] == before[id]
            &&& before.contains_key(id) && !before[id].contains_key("algo"@) ==> after[id]
                == before[id].insert(
                "algo"@,
                if storage.checksum_manager.default_algorithm is FastHash {
                    Json::Text("FastHash"@)
                } else {
                    Json::Text("CRC32"@)
                },
            )
        }),
{
    assert(!storage.dirty().contains_key(id));
    law_other_records_stay(
        stored_records(text),
        storage.dirty(),
        storage.checksums(),
        now_ms,
        storage.checksum_manager.default_algorithm,
        id,
    );
}

/// The name of a block file is made of the block id between `block_` and `.bin`.
/// A file is swept exactly if it has the name of a block without an entry: the
/// files of blocks with an entry stay, and so does every file whose name begins
/// or ends otherwise.
pub proof fn law_only_files_of_blocks_are_swept(id: u64, name: Seq<char>, valid_ids: Set<u64>)
    ensures
        block_file(id) == "block_"@ + decimal(id as nat) + ".bin"@,
        stray(block_file(id), valid_ids) == !valid_ids.contains(id),
        !"block_"@.is_prefix_of(name) || !".bin"@.is_suffix_of(name) ==> !stray(name, valid_ids),
{
    law_block_file_names_its_block(id);
    reveal_strlit("block_");
    reveal_strlit(".bin");
    let rest = name.skip(6);
    if "block_"@.is_prefix_of(name) && ".bin"@.is_suffix_of(rest) {
        assert(name.skip(name.len() - 4) =~= rest.skip(rest.len() - 4));
    }
}

/// The metadata document is safe on disk before it takes its place: in the steps
/// of a sync it is written durably under its other name, the next step renames
/// it, and all blocks are written before. Nothing else is written durably.
pub proof fn law_metadata_is_durable_before_it_counts(plan: &FsPlan, mirror: bool, i: int)
    requires
        0 <= i < plan_steps(plan, mirror).len(),
    ensures
        ({
            let steps = plan_steps(plan, mirror);
            &&& steps[i] is Rename ==> {
                &&& steps[i] == (Step::Rename {
                    from: "metadata.json.pending"@,
                    to: "metadata.json"@,
                })
                &&& i > 0
                &&& steps[i - 1] == (Step::WriteFile {
                    file: "metadata.json.pending"@,
                    text: plan.metadata@,
                    durable: true,
                })
                &&& forall|j: int| i < j < steps.len() ==> !((#[trigger] steps[j]) is WriteBlock)
            }
            &&& (steps[i] matches Step::WriteFile { file, durable, .. } ==> durable == (file
                == "metadata.json.pending"@))
        }),
{
    reveal_strlit("metadata.json.pending");
    reveal_strlit("allocations.json");
    assert("metadata.json.pending"@.len() == 21);
    assert("allocations.json"@.len() == 16);
}

/// The list of allocated blocks can be read back: it is an object with the field
/// `allocated` alone, and that lists every allocated block once, in ascending
/// order, and no other.
pub proof fn law_allocations_read_back(text: Seq<char>, allocated: Set<u64>, id: u64)
    requires
        lists_allocations(text, allocated),
    ensures
        ({
            let document = parsed(text)->0;
            let list = document->Object_0["allocated"@]->Array_0;
            &&& parsed(text) is Some
            &&& document is Object
            &&& document->Object_0.dom() == set!["allocated"@]
            &&& document->Object_0["allocated"@] is Array
            &&& forall|i: int| 0 <= i < list.len() ==> (#[trigger] list[i]) is Unsigned
            &&& forall|i: int, j: int|
                0 <= i < j < list.len() ==> (#[trigger] list[i])->Unsigned_0 < (
                #[trigger] list[j])->Unsigned_0
            &&& allocated.contains(id) <==> list.contains(Json::Unsigned(id))
        }),
{
    let ids = choose|ids: Seq<u64>|
        {
            &&& ascending(ids)
            &&& ids.to_set() == allocated
            &&& text == printed(#[trigger] allocation_document(ids))
            &&& parsed(text) == Some(allocation_document(ids))
        };
    let document = parsed(text)->0;
    let list = document->Object_0["allocated"@]->Array_0;
    assert(document->Object_0.dom() =~= set!["allocated"@]);
    if allocated.contains(id) {
        assert(ids.to_set().contains(id));
        let i = choose|i: int| 0 <= i < ids.len() && ids[i] == id;
        assert(list[i] == Json::Unsigned(id));
    }
    if list.contains(Json::Unsigned(id)) {
        let i = choose|i: int| 0 <= i < list.len() && list[i] == Json::Unsigned(id);
        assert(ids[i] == id);
        assert(ids.to_set().contains(id));
    }
}

/// The mirror directory is the one that is configured. Otherwise every process of
/// a debug build has one of its own, and all others share one.
pub proof fn law_mirror_directories(configured: Seq<char>, debug: bool, a: u32, b: u32)
    ensures
        mirror_directory(Some(configured), debug, a) == configured,
        mirror_directory(None, false, a) == ".absurdersql_fs"@,
        mirror_directory(None, true, a) == ".absurdersql_fs/run_"@ + decimal(a as nat),
        mirror_directory(None, true, a) == mirror_directory(None, true, b) ==> a == b,
{
    let prefix = ".absurdersql_fs/run_"@;
    if mirror_directory(None, true, a) == mirror_directory(None, true, b) {
        assert(decimal(a as nat) =~= (prefix + decimal(a as nat)).skip(prefix.len() as int));
        assert(decimal(b as nat) =~= (prefix + decimal(b as nat)).skip(prefix.len() as int));
        law_decimal_reads_back(a as u64);
        law_decimal_reads_back(b as u64);
    }
}

/// A step is seen as what it does, with the names and the data it is given.
pub proof fn law_steps_are_seen_as_they_are(step: FsStep)
    ensures
        match step {
            FsStep::EnsureDirectory => step@ is EnsureDirectory,
            FsStep::CreateIfMissing { file, text } => step@ == (Step::CreateIfMissing {
                file: file@,
                text: text@,
            }),
            FsStep::WriteBlock { file, data } => step@ == (Step::WriteBlock {
                file: file@,
                data: data@,
            }),
            FsStep::WriteFile { file, text, durable } => step@ == (Step::WriteFile {
                file: file@,
                text: text@,
                durable,
            }),
            FsStep::Rename { from, to } => step@ == (Step::Rename { from: from@, to: to@ }),
            FsStep::Sweep => step@ is Sweep,
        },
{
}

/// The id in the name of a block file is the number between `block_` and `.bin`,
/// if it is one.
pub proof fn law_ids_in_names_of_files(middle: Seq<char>, valid_ids: Set<u64>)
    ensures
        ({
            let name = "block_"@ + middle + ".bin"@;
            &&& block_of_file(name) == parsed_u64(middle)
            &&& stray(name, valid_ids) <==> parsed_u64(middle) is Some && !valid_ids.contains(
                parsed_u64(middle)->0,
            )
        }),
{
    reveal_strlit("block_");
    reveal_strlit(".bin");
    let name = "block_"@ + middle + ".bin"@;
    let rest = name.skip(6);
    assert(name.take(6) =~= "block_"@);
    assert(rest =~= middle + ".bin"@);
    assert(rest.skip(rest.len() - 4) =~= ".bin"@);
    assert(rest.take(rest.len() - 4) =~= middle);
}

/// The directory exists before anything is written into it: wherever a block is
/// written, or a mirror, the first step is to ensure the directory.
pub proof fn law_directories_come_first(plan: &FsPlan, mirror: bool, i: int)
    requires
        mirror || plan.blocks@.len() > 0,
        0 <= i < plan_steps(plan, mirror).len(),
    ensures
        plan_steps(plan, mirror)[0] is EnsureDirectory,
        plan_steps(plan, mirror)[i] is WriteBlock ==> i > 0,
        plan_steps(plan, mirror).last() is Sweep,
{
}

/// The steps of a sync write every listed block, in order, into its own file.
pub proof fn law_each_block_is_written(plan: &FsPlan, mirror: bool, i: int)
    requires
        0 <= i < plan.blocks@.len(),
    ensures
        plan_steps(plan, mirror)[i + 1] == (Step::WriteBlock {
            file: "block_"@ + decimal(plan.blocks@[i].0 as nat) + ".bin"@,
            data: plan.blocks@[i].1@,
        }),
        plan_steps(plan, mirror).len() == plan.blocks@.len() + 5,
{
}

} // verus!
