//! Persisting the dirty blocks of a database.

use crate::collections::{block_list, lists_blocks};
use crate::storage::{
    committed_view, version_of, BlockChecksum, BlockStorage, GlobalStorage, GlobalView,
};
use crate::types::DatabaseError;
use vstd::prelude::*;

verus! {

broadcast use vstd::std_specs::hash::group_hash_axioms;

/// Where a sync puts dirty blocks.
#[derive(Clone, Copy, Debug, PartialEq, Eq, Structural)]
pub enum SyncTarget {
    /// Nowhere: they only stop being dirty.
    Discard,
    /// Into files.
    FileSystem,
    /// Into the process-wide memory.
    Memory,
    /// Into the process-wide memory, and from there into IndexedDB.
    Browser,
}

/// What observers of syncs are told.
#[derive(Clone, Copy, Debug, PartialEq, Eq, Structural)]
pub enum SyncEvent {
    Started { blocks: usize, bytes: usize },
    Succeeded { duration_ms: u64, blocks: usize },
}

/// What is left to do once the memory is up to date.
#[derive(Debug)]
pub enum SyncNext {
    /// Nothing.
    Done,
    /// Mark every block clean by [`finish_sync`], and bring the block cache back
    /// within its capacity.
    Finish,
    /// Bring the block cache back within its capacity.
    EvictCache,
    /// Persist to files; the dirty blocks are still dirty.
    PersistToFileSystem,
    /// Write the blocks and the commit marker to IndexedDB in the background,
    /// and bring the block cache back within its capacity.
    PersistToIndexedDb { blocks: Vec<(u64, Vec<u8>)>, commit_marker: u64 },
}

/// What a sync reports and leaves to do.
#[derive(Debug)]
pub struct SyncOutcome {
    pub events: Vec<SyncEvent>,
    pub next: SyncNext,
}

/// A duration as it is reported: at least one millisecond.
pub open spec fn reported_ms(elapsed_ms: u64) -> u64 {
    if elapsed_ms == 0 {
        1
    } else {
        elapsed_ms
    }
}

/// The number of syncs after one more; the counter wraps around.
pub open spec fn one_more(count: u64) -> u64 {
    if count == u64::MAX {
        0
    } else {
        (count + 1) as u64
    }
}

/// Counts a sync.
fn count_up(count: u64) -> (r: u64)
    ensures
        r == one_more(count),
{
    if count == u64::MAX {
        0
    } else {
        count + 1
    }
}

/// What observers are told when a sync of `storage` starts.
pub open spec fn start_event(storage: &BlockStorage) -> SyncEvent {
    let blocks = storage.dirty_blocks@.dom().len();
    SyncEvent::Started { blocks: blocks as usize, bytes: (blocks * storage.block_size) as usize }
}

/// The size of all dirty blocks together can be counted.
pub open spec fn countable(storage: &BlockStorage) -> bool {
    storage.dirty_blocks@.dom().len() * storage.block_size <= usize::MAX
}

/// What observers are told when a sync of `storage` starts.
pub fn sync_started(storage: &BlockStorage) -> (event: SyncEvent)
    requires
        countable(storage),
    ensures
        event == start_event(storage),
{
    let blocks: usize = storage.dirty_blocks.len();
    assert(blocks == storage.dirty_blocks@.dom().len());
    SyncEvent::Started { blocks, bytes: blocks * storage.block_size }
}

/// The storage after its dirty blocks have been persisted in `elapsed_ms`.
pub open spec fn finished(before: &BlockStorage, after: &BlockStorage, elapsed_ms: u64) -> bool {
    &&& after.same_setup(before)
    &&& after.dirty_blocks@ == Map::<u64, Vec<u8>>::empty()
    &&& after.sync_count == one_more(before.sync_count)
    &&& after.last_sync_duration_ms == reported_ms(elapsed_ms)
}

/// Marks every block clean, and records how long that took.
pub fn finish_sync(storage: &mut BlockStorage, elapsed_ms: u64) -> (event: SyncEvent)
    ensures
        finished(old(storage), final(storage), elapsed_ms),
        event == (SyncEvent::Succeeded {
            duration_ms: reported_ms(elapsed_ms),
            blocks: old(storage).dirty_blocks@.dom().len() as usize,
        }),
{
    let blocks: usize = storage.dirty_blocks.len();
    assert(blocks == storage.dirty_blocks@.dom().len());
    storage.dirty_blocks.clear();
    storage.sync_count = count_up(storage.sync_count);
    let duration_ms: u64 = if elapsed_ms == 0 {
        1
    } else {
        elapsed_ms
    };
    storage.last_sync_duration_ms = duration_ms;
    SyncEvent::Succeeded { duration_ms, blocks }
}

/// Whether the callback that is set for an event is called, besides recording
/// the event: the browser has none for the start of a sync.
pub fn has_callback(target: SyncTarget, event: SyncEvent) -> (r: bool)
    ensures
        r == !(target is Browser && event is Started),
{
    match (target, event) {
        (SyncTarget::Browser, SyncEvent::Started { .. }) => false,
        _ => true,
    }
}

/// Syncs the dirty blocks of `storage` to `target`, as far as it can be done
/// before it is known how long that took. `now_ms` is the time that new metadata
/// carries.
pub fn sync_blocks(
    storage: &mut BlockStorage,
    globals: &mut GlobalStorage,
    target: SyncTarget,
    now_ms: u64,
) -> (r: SyncOutcome)
    requires
        countable(old(storage)),
        old(globals).wf(),
        target is Memory || target is Browser ==> old(globals)@.marker_of(old(storage).db_name@)
            < u64::MAX,
    ensures
        final(globals).wf(),
        final(globals)@ == synced_view(old(storage), old(globals)@, target, now_ms),
        target is FileSystem || target is Memory ==> *final(storage) == *old(storage),
        target is Discard || target is Browser ==> cleared(old(storage), final(storage), target),
        r.events@ == if target is Browser {
            seq![
                start_event(old(storage)),
                SyncEvent::Succeeded {
                    duration_ms: 1,
                    blocks: old(storage).dirty_blocks@.dom().len() as usize,
                },
            ]
        } else {
            seq![start_event(old(storage))]
        },
        match target {
            SyncTarget::Discard => r.next is Done,
            SyncTarget::FileSystem => r.next is PersistToFileSystem,
            SyncTarget::Memory => r.next is Finish,
            SyncTarget::Browser => persists(old(storage), final(globals)@, r.next),
        },
{
    let mut events: Vec<SyncEvent> = Vec::new();
    let blocks: usize = storage.dirty_blocks.len();
    assert(blocks == storage.dirty_blocks@.dom().len());
    events.push(sync_started(storage));
    match target {
        SyncTarget::Discard => {
            storage.dirty_blocks.clear();
            storage.sync_count = count_up(storage.sync_count);
            SyncOutcome { events, next: SyncNext::Done }
        },
        SyncTarget::FileSystem => SyncOutcome { events, next: SyncNext::PersistToFileSystem },
        SyncTarget::Memory => {
            let _ = globals.commit(
                storage.db_name.as_str(),
                &storage.dirty_blocks,
                &storage.checksum_manager.checksums,
                now_ms,
                false,
            );
            SyncOutcome { events, next: SyncNext::Finish }
        },
        SyncTarget::Browser => {
            let list: Vec<(u64, Vec<u8>)> = block_list(&storage.dirty_blocks);
            let commit_marker: u64 = globals.commit(
                storage.db_name.as_str(),
                &storage.dirty_blocks,
                &storage.checksum_manager.checksums,
                now_ms,
                true,
            );
            storage.dirty_blocks.clear();
            events.push(SyncEvent::Succeeded { duration_ms: 1, blocks });
            SyncOutcome {
                events,
                next: SyncNext::PersistToIndexedDb { blocks: list, commit_marker },
            }
        },
    }
}

/// The shared memory after a sync of `storage` to `target`.
pub open spec fn synced_view(
    storage: &BlockStorage,
    view: GlobalView,
    target: SyncTarget,
    now_ms: u64,
) -> GlobalView {
    match target {
        SyncTarget::Discard => view,
        SyncTarget::FileSystem => view,
        SyncTarget::Memory => committed_view(
            view,
            storage.db_name@,
            storage.dirty(),
            storage.checksums(),
            now_ms,
            false,
        ),
        SyncTarget::Browser => committed_view(
            view,
            storage.db_name@,
            storage.dirty(),
            storage.checksums(),
            now_ms,
            true,
        ),
    }
}

/// The storage after a sync that records no duration. Without a target the sync
/// is counted.
pub open spec fn cleared(before: &BlockStorage, after: &BlockStorage, target: SyncTarget) -> bool {
    &&& after.same_setup(before)
    &&& after.dirty_blocks@ == Map::<u64, Vec<u8>>::empty()
    &&& after.last_sync_duration_ms == before.last_sync_duration_ms
    &&& after.sync_count == if target is Discard {
        one_more(before.sync_count)
    } else {
        before.sync_count
    }
}

/// Whether what is left to do is to write the dirty blocks of `storage` and its
/// commit marker to IndexedDB.
pub open spec fn persists(storage: &BlockStorage, view: GlobalView, next: SyncNext) -> bool {
    next matches SyncNext::PersistToIndexedDb { blocks, commit_marker } && lists_blocks(
        blocks@,
        storage.dirty(),
    ) && commit_marker == view.marker_of(storage.db_name@)
}

/// Syncs the dirty blocks of `storage` to `target`. `now_ms` is the time that
/// new metadata carries, and `elapsed_ms` how long the sync has taken.
pub fn sync_implementation_impl(
    storage: &mut BlockStorage,
    globals: &mut GlobalStorage,
    target: SyncTarget,
    now_ms: u64,
    elapsed_ms: u64,
) -> (r: Result<SyncOutcome, DatabaseError>)
    requires
        countable(old(storage)),
        old(globals).wf(),
        target is Memory || target is Browser ==> old(globals)@.marker_of(old(storage).db_name@)
            < u64::MAX,
    ensures
        r is Ok,
        final(globals).wf(),
        final(globals)@ == synced_view(old(storage), old(globals)@, target, now_ms),
        target is FileSystem ==> *final(storage) == *old(storage),
        target is Memory ==> finished(old(storage), final(storage), elapsed_ms),
        target is Discard || target is Browser ==> cleared(old(storage), final(storage), target),
        r->Ok_0.events@ == match target {
            SyncTarget::Discard => seq![start_event(old(storage))],
            SyncTarget::FileSystem => seq![start_event(old(storage))],
            SyncTarget::Memory => seq![
                start_event(old(storage)),
                SyncEvent::Succeeded {
                    duration_ms: reported_ms(elapsed_ms),
                    blocks: old(storage).dirty_blocks@.dom().len() as usize,
                },
            ],
            SyncTarget::Browser => seq![
                start_event(old(storage)),
                SyncEvent::Succeeded {
                    duration_ms: 1,
                    blocks: old(storage).dirty_blocks@.dom().len() as usize,
                },
            ],
        },
        match target {
            SyncTarget::Discard => r->Ok_0.next is Done,
            SyncTarget::FileSystem => r->Ok_0.next is PersistToFileSystem,
            SyncTarget::Memory => r->Ok_0.next is EvictCache,
            SyncTarget::Browser => persists(old(storage), final(globals)@, r->Ok_0.next),
        },
{
    let outcome: SyncOutcome = sync_blocks(storage, globals, target, now_ms);
    match outcome.next {
        SyncNext::Finish => {
            let mut events: Vec<SyncEvent> = outcome.events;
            events.push(finish_sync(storage, elapsed_ms));
            Ok(SyncOutcome { events, next: SyncNext::EvictCache })
        },
        _ => Ok(outcome),
    }
}

/// Committed data is never overwritten: where a block is stored under a
/// committed version, a guarded commit leaves its bytes as they are.
pub proof fn law_committed_data_is_immutable(
    view: GlobalView,
    name: Seq<char>,
    dirty: Map<u64, Seq<u8>>,
    checksums: Map<u64, BlockChecksum>,
    now_ms: u64,
    id: u64,
)
    requires
        view.blocks_of(name).contains_key(id),
        view.committed(name, id),
    ensures
        ({
            let after = committed_view(view, name, dirty, checksums, now_ms, true);
            after.blocks_of(name).contains_key(id) && after.blocks_of(name)[id]
                == view.blocks_of(name)[id]
        }),
{
}

/// What was dirty can be read back: after a commit, a dirty block is stored
/// with its dirty bytes, unless a guarded commit found other committed data.
pub proof fn law_dirty_blocks_are_stored(
    view: GlobalView,
    name: Seq<char>,
    dirty: Map<u64, Seq<u8>>,
    checksums: Map<u64, BlockChecksum>,
    now_ms: u64,
    guarded: bool,
    id: u64,
)
    requires
        dirty.contains_key(id),
    ensures
        ({
            let after = committed_view(view, name, dirty, checksums, now_ms, guarded);
            &&& after.blocks_of(name).contains_key(id)
            &&& !guarded || !view.blocks_of(name).contains_key(id) || !view.committed(name, id)
                ==> after.blocks_of(name)[id] == dirty[id]
        }),
{
}

/// A commit loses no block and no metadata, and leaves what is not dirty as it
/// was.
pub proof fn law_commit_loses_nothing(
    view: GlobalView,
    name: Seq<char>,
    dirty: Map<u64, Seq<u8>>,
    checksums: Map<u64, BlockChecksum>,
    now_ms: u64,
    guarded: bool,
)
    ensures
        ({
            let after = committed_view(view, name, dirty, checksums, now_ms, guarded);
            &&& view.blocks_of(name).dom().subset_of(after.blocks_of(name).dom())
            &&& view.metadata_of(name).dom().subset_of(after.metadata_of(name).dom())
            &&& forall|id: u64|
                #![trigger after.blocks_of(name)[id]]
                view.blocks_of(name).contains_key(id) && !dirty.contains_key(id)
                    ==> after.blocks_of(name)[id] == view.blocks_of(name)[id]
            &&& forall|id: u64|
                #![trigger after.metadata_of(name)[id]]
                view.metadata_of(name).contains_key(id) && !dirty.contains_key(id)
                    ==> after.metadata_of(name)[id] == view.metadata_of(name)[id]
        }),
{
}

/// A commit of one database leaves every other database as it was.
pub proof fn law_databases_are_separate(
    view: GlobalView,
    name: Seq<char>,
    other: Seq<char>,
    dirty: Map<u64, Seq<u8>>,
    checksums: Map<u64, BlockChecksum>,
    now_ms: u64,
    guarded: bool,
)
    requires
        name != other,
    ensures
        ({
            let after = committed_view(view, name, dirty, checksums, now_ms, guarded);
            &&& after.blocks_of(other) == view.blocks_of(other)
            &&& after.metadata_of(other) == view.metadata_of(other)
            &&& after.marker_of(other) == view.marker_of(other)
        }),
{
}

/// All metadata written by one commit carries the version of that commit, the
/// commit marker is one higher than before, and what the marker named before
/// the commit is a different version.
pub proof fn law_one_version_per_commit(
    view: GlobalView,
    name: Seq<char>,
    dirty: Map<u64, Seq<u8>>,
    checksums: Map<u64, BlockChecksum>,
    now_ms: u64,
    guarded: bool,
)
    requires
        view.marker_of(name) < u64::MAX,
    ensures
        ({
            let after = committed_view(view, name, dirty, checksums, now_ms, guarded);
            &&& after.marker_of(name) == view.marker_of(name) + 1
            &&& version_of(after.marker_of(name)) != version_of(view.marker_of(name))
            &&& forall|id: u64|
                dirty.contains_key(id) && checksums.contains_key(id) ==> {
                    &&& #[trigger] after.metadata_of(name).contains_key(id)
                    &&& after.metadata_of(name)[id].version == version_of(after.marker_of(name))
                }
        }),
{
}

/// A commit makes the blocks it stores committed, so that no later guarded
/// commit changes them. Commit numbers whose version is zero are left out:
/// such a commit marks nothing as committed.
pub proof fn law_first_commit_wins(
    view: GlobalView,
    name: Seq<char>,
    first: Map<u64, Seq<u8>>,
    second: Map<u64, Seq<u8>>,
    checksums: Map<u64, BlockChecksum>,
    first_ms: u64,
    second_ms: u64,
    id: u64,
)
    requires
        view.marker_of(name) < u64::MAX,
        version_of((view.marker_of(name) + 1) as u64) != 0,
        first.contains_key(id),
        checksums.contains_key(id),
    ensures
        ({
            let once = committed_view(view, name, first, checksums, first_ms, true);
            let twice = committed_view(once, name, second, checksums, second_ms, true);
            &&& once.committed(name, id)
            &&& twice.blocks_of(name)[id] == once.blocks_of(name)[id]
        }),
{
    let once = committed_view(view, name, first, checksums, first_ms, true);
    law_committed_data_is_immutable(once, name, second, checksums, second_ms, id);
}

/// A commit of the dirty blocks of a database.
#[verifier::ext_equal]
pub struct Commit {
    pub name: Seq<char>,
    pub dirty: Map<u64, Seq<u8>>,
    pub checksums: Map<u64, BlockChecksum>,
    pub now_ms: u64,
    pub guarded: bool,
}

/// The shared memory after several commits, of whichever databases.
pub open spec fn after_commits(view: GlobalView, commits: Seq<Commit>) -> GlobalView
    decreases commits.len(),
{
    if commits.len() == 0 {
        view
    } else {
        let last = commits.last();
        committed_view(
            after_commits(view, commits.drop_last()),
            last.name,
            last.dirty,
            last.checksums,
            last.now_ms,
            last.guarded,
        )
    }
}

/// Whether no metadata of a database carries a version above its commit marker.
pub open spec fn versions_bounded(view: GlobalView, name: Seq<char>) -> bool {
    forall|id: u64| #[trigger]
        view.metadata_of(name).contains_key(id) ==> view.metadata_of(name)[id].version
            <= view.marker_of(name)
}

/// No block carries a version that is not committed yet: whatever commits of
/// whichever databases follow each other, no metadata of a database has a
/// version above its commit marker, if none had at first. The commit markers
/// are counted as far as they go.
pub proof fn law_versions_stay_below_the_marker(
    view: GlobalView,
    commits: Seq<Commit>,
    name: Seq<char>,
)
    requires
        versions_bounded(view, name),
        view.marker_of(name) + commits.len() <= u64::MAX,
    ensures
        versions_bounded(after_commits(view, commits), name),
        view.marker_of(name) <= after_commits(view, commits).marker_of(name)
            <= view.marker_of(name) + commits.len(),
    decreases commits.len(),
{
    if commits.len() > 0 {
        law_versions_stay_below_the_marker(view, commits.drop_last(), name);
    }
}

/// A commit without dirty blocks changes no block and no metadata; it only
/// advances the commit marker.
pub proof fn law_clean_commit_only_counts(
    view: GlobalView,
    name: Seq<char>,
    checksums: Map<u64, BlockChecksum>,
    now_ms: u64,
    guarded: bool,
)
    requires
        view.marker_of(name) < u64::MAX,
    ensures
        ({
            let after = committed_view(view, name, Map::empty(), checksums, now_ms, guarded);
            &&& after.blocks_of(name) == view.blocks_of(name)
            &&& after.metadata_of(name) == view.metadata_of(name)
            &&& after.marker_of(name) == view.marker_of(name) + 1
        }),
{
    let dirty = Map::<u64, Seq<u8>>::empty();
    let after = committed_view(view, name, dirty, checksums, now_ms, guarded);
    assert(after.blocks_of(name) =~= view.blocks_of(name));
    assert(after.metadata_of(name) =~= view.metadata_of(name));
}

/// A commit records of every block that it writes what is known of it: the
/// checksum and the algorithm with which that was computed, the time of the
/// commit, and its number. Of all other blocks the metadata stays.
pub proof fn law_metadata_tells_the_checksum(
    view: GlobalView,
    name: Seq<char>,
    dirty: Map<u64, Seq<u8>>,
    checksums: Map<u64, BlockChecksum>,
    now_ms: u64,
    guarded: bool,
    id: u64,
)
    requires
        view.metadata.contains_key(name),
        view.commit_markers.contains_key(name),
        view.commit_markers[name] < u64::MAX,
    ensures
        ({
            let after = committed_view(view, name, dirty, checksums, now_ms, guarded);
            let before = view.metadata[name];
            let metadata = after.metadata[name];
            let commit = view.commit_markers[name] + 1;
            &&& after.metadata.contains_key(name)
            &&& after.commit_markers.contains_key(name)
            &&& after.commit_markers[name] == commit
            &&& dirty.contains_key(id) && checksums.contains_key(id) ==> {
                &&& metadata.contains_key(id)
                &&& metadata[id].checksum == checksums[id].checksum
                &&& metadata[id].algo == checksums[id].algo
                &&& metadata[id].last_modified_ms == now_ms
                &&& metadata[id].version == commit % 0x1_0000_0000
            }
            &&& !dirty.contains_key(id) || !checksums.contains_key(id) ==> {
                &&& metadata.contains_key(id) == before.contains_key(id)
                &&& before.contains_key(id) ==> metadata[id] == before[id]
            }
        }),
{
}

/// The first commit of a database that nothing is known of has the number one,
/// and stores exactly the dirty blocks.
pub proof fn law_first_commit_stores_what_is_dirty(
    view: GlobalView,
    name: Seq<char>,
    dirty: Map<u64, Seq<u8>>,
    checksums: Map<u64, BlockChecksum>,
    now_ms: u64,
    guarded: bool,
    id: u64,
)
    requires
        !view.blocks.contains_key(name),
        !view.metadata.contains_key(name),
        !view.commit_markers.contains_key(name),
    ensures
        ({
            let after = committed_view(view, name, dirty, checksums, now_ms, guarded);
            &&& after.commit_markers[name] == 1
            &&& after.blocks[name] == dirty
            &&& after.metadata[name].dom() == dirty.dom().intersect(checksums.dom())
            &&& after.metadata[name].contains_key(id) ==> after.metadata[name][id].version == 1
        }),
{
    let after = committed_view(view, name, dirty, checksums, now_ms, guarded);
    assert(after.blocks[name] =~= dirty);
    assert(after.metadata[name].dom() =~= dirty.dom().intersect(checksums.dom()));
}

/// Which bytes are stored for a block after a commit. A dirty block has its dirty
/// bytes; only in a guarded commit a block whose metadata has a version above
/// zero keeps the bytes that are stored. All other blocks have the bytes they
/// had.
pub proof fn law_bytes_after_a_commit(
    view: GlobalView,
    name: Seq<char>,
    dirty: Map<u64, Seq<u8>>,
    checksums: Map<u64, BlockChecksum>,
    now_ms: u64,
    guarded: bool,
    id: u64,
)
    requires
        view.blocks.contains_key(name),
        view.metadata.contains_key(name),
    ensures
        ({
            let after = committed_view(view, name, dirty, checksums, now_ms, guarded);
            let stored = view.blocks[name];
            let metadata = view.metadata[name];
            let kept = stored.contains_key(id) && metadata.contains_key(id)
                && metadata[id].version > 0;
            &&& after.blocks.contains_key(name)
            &&& after.blocks[name].contains_key(id) == (stored.contains_key(id)
                || dirty.contains_key(id))
            &&& dirty.contains_key(id) && (!guarded || !kept) ==> after.blocks[name][id]
                == dirty[id]
            &&& stored.contains_key(id) && (!dirty.contains_key(id) || (guarded && kept))
                ==> after.blocks[name][id] == stored[id]
        }),
{
}

/// A sync into memory overwrites, one for the browser does not overwrite what is
/// committed, and the others leave the shared memory alone.
pub proof fn law_targets_of_a_sync(
    storage: &BlockStorage,
    view: GlobalView,
    now_ms: u64,
    id: u64,
)
    requires
        view.blocks.contains_key(storage.db_name@),
        view.metadata.contains_key(storage.db_name@),
        view.commit_markers.contains_key(storage.db_name@),
        view.commit_markers[storage.db_name@] < u64::MAX,
        storage.dirty_blocks@.contains_key(id),
    ensures
        ({
            let name = storage.db_name@;
            let stored = view.blocks[name];
            let metadata = view.metadata[name];
            let known = storage.checksum_manager.checksums@;
            let memory = synced_view(storage, view, SyncTarget::Memory, now_ms);
            let browser = synced_view(storage, view, SyncTarget::Browser, now_ms);
            let dirty = storage.dirty_blocks@[id]@;
            &&& synced_view(storage, view, SyncTarget::Discard, now_ms) == view
            &&& synced_view(storage, view, SyncTarget::FileSystem, now_ms) == view
            &&& memory.blocks[name].contains_key(id)
            &&& memory.blocks[name][id] == dirty
            &&& browser.blocks[name].contains_key(id)
            &&& browser.blocks[name][id] == if stored.contains_key(id) && metadata.contains_key(id)
                && metadata[id].version > 0 {
                stored[id]
            } else {
                dirty
            }
            &&& memory.metadata == browser.metadata
            &&& memory.commit_markers == browser.commit_markers
            &&& memory.commit_markers[name] == view.commit_markers[name] + 1
            &&& known.contains_key(id) ==> {
                &&& memory.metadata[name].contains_key(id)
                &&& memory.metadata[name][id].checksum == known[id].checksum
                &&& memory.metadata[name][id].algo == known[id].algo
                &&& memory.metadata[name][id].last_modified_ms == now_ms
            }
        }),
{
}

/// What is reported of a sync: the number of dirty blocks, their size together,
/// and a duration that is the measured one, unless no time was measured at all.
pub proof fn law_reports_of_a_sync(storage: &BlockStorage, elapsed_ms: u64)
    requires
        storage.dirty_blocks@.dom().len() <= usize::MAX,
        storage.dirty_blocks@.dom().len() * storage.block_size <= usize::MAX,
    ensures
        start_event(storage) matches SyncEvent::Started { blocks, bytes } && blocks
            == storage.dirty_blocks@.dom().len() && bytes == blocks * storage.block_size,
        reported_ms(elapsed_ms) >= 1,
        elapsed_ms >= 1 ==> reported_ms(elapsed_ms) == elapsed_ms,
        elapsed_ms == 0 ==> reported_ms(elapsed_ms) == 1,
{
}

/// After a sync no block is dirty, everything else that belongs to the storage is
/// as it was, and the sync is counted where the storage counts it.
pub proof fn law_storage_after_a_sync(
    before: &BlockStorage,
    after: &BlockStorage,
    elapsed_ms: u64,
    target: SyncTarget,
)
    requires
        finished(before, after, elapsed_ms) || cleared(before, after, target),
    ensures
        forall|id: u64| !(#[trigger] after.dirty_blocks@.contains_key(id)),
        after.db_name == before.db_name,
        after.block_size == before.block_size,
        after.allocated_blocks == before.allocated_blocks,
        after.checksum_manager == before.checksum_manager,
        finished(before, after, elapsed_ms) && before.sync_count < u64::MAX ==> after.sync_count
            == before.sync_count + 1,
        finished(before, after, elapsed_ms) && elapsed_ms > 0 ==> after.last_sync_duration_ms
            == elapsed_ms,
        cleared(before, after, SyncTarget::Discard) && before.sync_count < u64::MAX
            ==> after.sync_count == before.sync_count + 1,
        cleared(before, after, SyncTarget::Browser) ==> after.sync_count == before.sync_count,
        cleared(before, after, target) ==> after.last_sync_duration_ms
            == before.last_sync_duration_ms,
{
}

/// What goes to IndexedDB are the dirty blocks with their bytes, each once and
/// none besides, and the marker of the commit.
pub proof fn law_blocks_for_indexeddb(
    storage: &BlockStorage,
    view: GlobalView,
    next: SyncNext,
    id: u64,
)
    requires
        persists(storage, view, next),
        view.commit_markers.contains_key(storage.db_name@),
    ensures
        match next {
            SyncNext::PersistToIndexedDb { blocks, commit_marker } => {
                &&& commit_marker == view.commit_markers[storage.db_name@]
                &&& storage.dirty_blocks@.contains_key(id) <==> exists|i: int|
                    0 <= i < blocks@.len() && (#[trigger] blocks@[i]).0 == id
                &&& forall|i: int|
                    0 <= i < blocks@.len() ==> storage.dirty_blocks@[(#[trigger] blocks@[i]).0]@
                        == blocks@[i].1@
                &&& forall|i: int, j: int|
                    0 <= i < j < blocks@.len() ==> (#[trigger] blocks@[i]).0 != (
                    #[trigger] blocks@[j]).0
            },
            _ => false,
        },
{
    let dirty = storage.dirty();
    assert(forall|k: u64|
        #[trigger] dirty.contains_key(k) == storage.dirty_blocks@.contains_key(k));
    assert(forall|k: u64|
        dirty.contains_key(k) ==> #[trigger] dirty[k] == storage.dirty_blocks@[k]@);
    match next {
        SyncNext::PersistToIndexedDb { blocks, .. } => {
            assert(lists_blocks(blocks@, dirty));
            assert(dirty.contains_key(id) == storage.dirty_blocks@.contains_key(id));
        },
        _ => {},
    }
}

} // verus!
