//! Block storage of one database, and the memory that all databases of the
//! process share: their blocks, the metadata of each block, and how many
//! commits each database has seen.

use crate::collections::{block_list, bytes_of, key_list, lists_blocks, same_bytes, NameMap};
use std::collections::{HashMap, HashSet};
use vstd::prelude::*;

verus! {

broadcast use vstd::std_specs::hash::group_hash_axioms;

/// How the checksum of a block is computed.
#[derive(Clone, Copy, Debug, PartialEq, Eq, Structural)]
pub enum ChecksumAlgorithm {
    FastHash,
    CRC32,
}

/// What is kept about a stored block.
#[derive(Clone, Copy, Debug, PartialEq, Eq, Structural)]
pub struct BlockMetadataPersist {
    pub checksum: u64,
    pub last_modified_ms: u64,
    pub version: u32,
    pub algo: ChecksumAlgorithm,
}

/// The checksum of a block, and how it was computed.
#[derive(Clone, Copy, Debug, PartialEq, Eq, Structural)]
pub struct BlockChecksum {
    pub checksum: u64,
    pub algo: ChecksumAlgorithm,
}

/// The checksums of the blocks of one database.
pub struct ChecksumManager {
    pub default_algorithm: ChecksumAlgorithm,
    pub checksums: HashMap<u64, BlockChecksum>,
}

/// The blocks of one database that are not persisted yet, with what is needed
/// to persist them.
pub struct BlockStorage {
    pub db_name: String,
    pub block_size: usize,
    pub dirty_blocks: HashMap<u64, Vec<u8>>,
    pub allocated_blocks: HashSet<u64>,
    pub checksum_manager: ChecksumManager,
    pub sync_count: u64,
    pub last_sync_duration_ms: u64,
}

impl BlockStorage {
    /// The bytes of each dirty block.
    pub open spec fn dirty(&self) -> Map<u64, Seq<u8>> {
        bytes_of(self.dirty_blocks@)
    }

    /// The known checksums.
    pub open spec fn checksums(&self) -> Map<u64, BlockChecksum> {
        self.checksum_manager.checksums@
    }

    /// Everything but the dirty blocks and the sync counters is as in `other`.
    pub open spec fn same_setup(&self, other: &BlockStorage) -> bool {
        &&& self.db_name == other.db_name
        &&& self.block_size == other.block_size
        &&& self.allocated_blocks == other.allocated_blocks
        &&& self.checksum_manager == other.checksum_manager
    }
}

/// What the process-wide memory holds.
#[verifier::ext_equal]
pub struct GlobalView {
    pub blocks: Map<Seq<char>, Map<u64, Seq<u8>>>,
    pub metadata: Map<Seq<char>, Map<u64, BlockMetadataPersist>>,
    pub commit_markers: Map<Seq<char>, u64>,
}

impl GlobalView {
    /// The stored blocks of a database.
    pub open spec fn blocks_of(self, name: Seq<char>) -> Map<u64, Seq<u8>> {
        if self.blocks.contains_key(name) {
            self.blocks[name]
        } else {
            Map::empty()
        }
    }

    /// The metadata of a database's blocks.
    pub open spec fn metadata_of(self, name: Seq<char>) -> Map<u64, BlockMetadataPersist> {
        if self.metadata.contains_key(name) {
            self.metadata[name]
        } else {
            Map::empty()
        }
    }

    /// The number of commits of a database.
    pub open spec fn marker_of(self, name: Seq<char>) -> u64 {
        if self.commit_markers.contains_key(name) {
            self.commit_markers[name]
        } else {
            0
        }
    }

    /// Whether the metadata of a block says that it has been committed.
    pub open spec fn committed(self, name: Seq<char>, id: u64) -> bool {
        self.metadata_of(name).contains_key(id) && self.metadata_of(name)[id].version > 0
    }
}

/// The memory that all databases of the process share.
pub struct GlobalStorage {
    pub blocks: NameMap<HashMap<u64, Vec<u8>>>,
    pub metadata: NameMap<HashMap<u64, BlockMetadataPersist>>,
    pub commit_markers: NameMap<u64>,
}

/// Whether dirty data may not replace what is stored for block `id`: other
/// bytes are stored for it, and its metadata has a committed version.
pub open spec fn preserved(
    blocks: Map<u64, Seq<u8>>,
    metadata: Map<u64, BlockMetadataPersist>,
    id: u64,
    data: Seq<u8>,
) -> bool {
    &&& blocks.contains_key(id)
    &&& blocks[id] != data
    &&& metadata.contains_key(id)
    &&& metadata[id].version > 0
}

/// The stored blocks once the dirty ones are merged in. With `guarded`,
/// committed data stays.
pub open spec fn merged_blocks(
    blocks: Map<u64, Seq<u8>>,
    metadata: Map<u64, BlockMetadataPersist>,
    dirty: Map<u64, Seq<u8>>,
    guarded: bool,
) -> Map<u64, Seq<u8>> {
    Map::new(
        |id: u64| blocks.contains_key(id) || dirty.contains_key(id),
        |id: u64|
            if dirty.contains_key(id) && !(guarded && preserved(blocks, metadata, id, dirty[id])) {
                dirty[id]
            } else {
                blocks[id]
            },
    )
}

/// The metadata once a commit of the dirty blocks is recorded: every dirty
/// block with a known checksum gets the commit's version and time.
pub open spec fn merged_metadata(
    metadata: Map<u64, BlockMetadataPersist>,
    dirty: Map<u64, Seq<u8>>,
    checksums: Map<u64, BlockChecksum>,
    version: u32,
    now_ms: u64,
) -> Map<u64, BlockMetadataPersist> {
    Map::new(
        |id: u64|
            metadata.contains_key(id) || (dirty.contains_key(id) && checksums.contains_key(id)),
        |id: u64|
            if dirty.contains_key(id) && checksums.contains_key(id) {
                BlockMetadataPersist {
                    checksum: checksums[id].checksum,
                    last_modified_ms: now_ms,
                    version,
                    algo: checksums[id].algo,
                }
            } else {
                metadata[id]
            },
    )
}

/// Whether `id` is among the first `n` blocks of `list`.
pub open spec fn listed(list: Seq<(u64, Vec<u8>)>, n: int, id: u64) -> bool {
    exists|j: int| 0 <= j < n && (#[trigger] list[j]).0 == id
}

pub proof fn lemma_listed_step(list: Seq<(u64, Vec<u8>)>, n: int, id: u64)
    requires
        0 <= n < list.len(),
    ensures
        listed(list, n + 1, id) <==> listed(list, n, id) || list[n].0 == id,
{
    if listed(list, n, id) {
        let j = choose|j: int| 0 <= j < n && (#[trigger] list[j]).0 == id;
        assert(list[j].0 == id);
    }
}

/// Merges listed dirty blocks into the stored ones.
fn merge_blocks(
    stored: HashMap<u64, Vec<u8>>,
    metadata: &HashMap<u64, BlockMetadataPersist>,
    list: &Vec<(u64, Vec<u8>)>,
    guarded: bool,
    Ghost(dirty): Ghost<Map<u64, Seq<u8>>>,
) -> (r: HashMap<u64, Vec<u8>>)
    requires
        lists_blocks(list@, dirty),
    ensures
        bytes_of(r@) == merged_blocks(bytes_of(stored@), metadata@, dirty, guarded),
{
    let ghost before = bytes_of(stored@);
    let mut r = stored;
    let mut i: usize = 0;
    while i < list.len()
        invariant
            i <= list@.len(),
            lists_blocks(list@, dirty),
            forall|id: u64| #[trigger]
                r@.contains_key(id) <==> before.contains_key(id) || listed(list@, i as int, id),
            forall|id: u64|
                r@.contains_key(id) ==> (#[trigger] r@[id])@ == (if listed(list@, i as int, id)
                    && !(guarded && preserved(before, metadata@, id, dirty[id])) {
                    dirty[id]
                } else {
                    before[id]
                }),
        decreases list@.len() - i,
    {
        let id: u64 = list[i].0;
        let data: &Vec<u8> = &list[i].1;
        proof {
            assert(!listed(list@, i as int, id));
            assert forall|k: u64|
                #![trigger listed(list@, i + 1, k)]
                listed(list@, i + 1, k) <==> listed(list@, i as int, k) || k == id by {
                lemma_listed_step(list@, i as int, k);
            }
        }
        let replace: bool = if guarded {
            match r.get(&id) {
                Some(existing) => {
                    assert(existing@ == before[id]);
                    if same_bytes(existing, data) {
                        true
                    } else {
                        match metadata.get(&id) {
                            Some(meta) => meta.version == 0,
                            None => true,
                        }
                    }
                },
                None => true,
            }
        } else {
            true
        };
        assert(replace == !(guarded && preserved(before, metadata@, id, dirty[id])));
        if replace {
            r.insert(id, crate::collections::copy_bytes(data));
        }
        i += 1;
    }
    proof {
        assert forall|id: u64| listed(list@, list@.len() as int, id) <==> dirty.contains_key(id) by {
            if dirty.contains_key(id) {
                let j = choose|j: int| 0 <= j < list@.len() && (#[trigger] list@[j]).0 == id;
                assert(list@[j].0 == id);
            }
        }
        assert(bytes_of(r@) =~= merged_blocks(before, metadata@, dirty, guarded));
    }
    r
}

/// Records a commit of the listed dirty blocks in the metadata.
fn merge_metadata(
    stored: HashMap<u64, BlockMetadataPersist>,
    list: &Vec<(u64, Vec<u8>)>,
    checksums: &HashMap<u64, BlockChecksum>,
    version: u32,
    now_ms: u64,
    Ghost(dirty): Ghost<Map<u64, Seq<u8>>>,
) -> (r: HashMap<u64, BlockMetadataPersist>)
    requires
        lists_blocks(list@, dirty),
    ensures
        r@ == merged_metadata(stored@, dirty, checksums@, version, now_ms),
{
    let ghost before = stored@;
    let ghost whole = merged_metadata(before, dirty, checksums@, version, now_ms);
    let mut r = stored;
    let mut i: usize = 0;
    while i < list.len()
        invariant
            i <= list@.len(),
            lists_blocks(list@, dirty),
            whole == merged_metadata(before, dirty, checksums@, version, now_ms),
            forall|id: u64| #[trigger]
                r@.contains_key(id) <==> before.contains_key(id) || (listed(list@, i as int, id)
                    && checksums@.contains_key(id)),
            forall|id: u64|
                r@.contains_key(id) ==> #[trigger] r@[id] == (if listed(list@, i as int, id) {
                    whole[id]
                } else {
                    before[id]
                }),
        decreases list@.len() - i,
    {
        let id: u64 = list[i].0;
        proof {
            assert forall|k: u64|
                #![trigger listed(list@, i + 1, k)]
                listed(list@, i + 1, k) <==> listed(list@, i as int, k) || k == id by {
                lemma_listed_step(list@, i as int, k);
            }
            assert(dirty.contains_key(id));
        }
        match checksums.get(&id) {
            Some(known) => {
                r.insert(
                    id,
                    BlockMetadataPersist {
                        checksum: known.checksum,
                        last_modified_ms: now_ms,
                        version,
                        algo: known.algo,
                    },
                );
            },
            None => {},
        }
        i += 1;
    }
    proof {
        assert forall|id: u64| listed(list@, list@.len() as int, id) <==> dirty.contains_key(id) by {
            if dirty.contains_key(id) {
                let j = choose|j: int| 0 <= j < list@.len() && (#[trigger] list@[j]).0 == id;
                assert(list@[j].0 == id);
            }
        }
        assert(r@ =~= whole);
    }
    r
}

/// Whether `list` holds the checksum of every block with metadata once, in some
/// order.
pub open spec fn lists_checksums(
    list: Seq<(u64, u64)>,
    metadata: Map<u64, BlockMetadataPersist>,
) -> bool {
    &&& forall|i: int, j: int|
        0 <= i < list.len() && 0 <= j < list.len() && i != j ==> (#[trigger] list[i]).0 != (
        #[trigger] list[j]).0
    &&& forall|i: int|
        0 <= i < list.len() ==> metadata.contains_key((#[trigger] list[i]).0)
            && metadata[list[i].0].checksum == list[i].1
    &&& forall|id: u64| #[trigger]
        metadata.contains_key(id) ==> exists|i: int|
            0 <= i < list.len() && (#[trigger] list[i]).0 == id
}

/// The low 32 bits of a commit number: the version its metadata carries.
pub open spec fn version_of(commit: u64) -> u32 {
    (commit % 0x1_0000_0000) as u32
}

/// The version that the metadata of a commit carries.
pub fn commit_version(commit: u64) -> (version: u32)
    ensures
        version == version_of(commit),
{
    (commit % 0x1_0000_0000) as u32
}

/// The shared memory after one database has committed its dirty blocks.
pub open spec fn committed_view(
    view: GlobalView,
    name: Seq<char>,
    dirty: Map<u64, Seq<u8>>,
    checksums: Map<u64, BlockChecksum>,
    now_ms: u64,
    guarded: bool,
) -> GlobalView {
    let commit = (view.marker_of(name) + 1) as u64;
    GlobalView {
        blocks: view.blocks.insert(
            name,
            merged_blocks(view.blocks_of(name), view.metadata_of(name), dirty, guarded),
        ),
        metadata: view.metadata.insert(
            name,
            merged_metadata(
                view.metadata_of(name),
                dirty,
                checksums,
                version_of(commit),
                now_ms,
            ),
        ),
        commit_markers: view.commit_markers.insert(name, commit),
    }
}

impl GlobalStorage {
    /// Each of the three maps is well formed.
    pub open spec fn wf(&self) -> bool {
        self.blocks.wf() && self.metadata.wf() && self.commit_markers.wf()
    }

    /// What the memory holds.
    pub open spec fn view(&self) -> GlobalView {
        GlobalView {
            blocks: self.blocks@.map_values(|m: HashMap<u64, Vec<u8>>| bytes_of(m@)),
            metadata: self.metadata@.map_values(|m: HashMap<u64, BlockMetadataPersist>| m@),
            commit_markers: self.commit_markers@,
        }
    }

    /// Nothing stored for any database.
    pub fn new() -> (r: GlobalStorage)
        ensures
            r.wf(),
            r@ == (GlobalView {
                blocks: Map::empty(),
                metadata: Map::empty(),
                commit_markers: Map::empty(),
            }),
    {
        let r = GlobalStorage {
            blocks: NameMap::new(),
            metadata: NameMap::new(),
            commit_markers: NameMap::new(),
        };
        assert(r@.blocks =~= Map::empty());
        assert(r@.metadata =~= Map::empty());
        r
    }

    /// The number of commits of a database.
    pub fn commit_marker(&self, name: &str) -> (marker: u64)
        requires
            self.wf(),
        ensures
            marker == self@.marker_of(name@),
    {
        match self.commit_markers.get(name) {
            Some(marker) => *marker,
            None => 0,
        }
    }

    /// Counts a commit of a database without storing anything. Returns the new
    /// marker.
    pub fn advance_marker(&mut self, name: &str) -> (marker: u64)
        requires
            old(self).wf(),
            old(self)@.marker_of(name@) < u64::MAX,
        ensures
            final(self).wf(),
            final(self)@ == (GlobalView {
                commit_markers: old(self)@.commit_markers.insert(name@, marker),
                ..old(self)@
            }),
            marker == old(self)@.marker_of(name@) + 1,
    {
        let ghost before = self@;
        let marker: u64 = self.commit_marker(name) + 1;
        self.commit_markers.set(name, marker);
        assert(self@.blocks =~= before.blocks);
        assert(self@.metadata =~= before.metadata);
        marker
    }

    /// The stored blocks of a database, in some order.
    pub fn stored_blocks(&self, name: &str) -> (list: Vec<(u64, Vec<u8>)>)
        requires
            self.wf(),
        ensures
            lists_blocks(list@, self@.blocks_of(name@)),
            list@.len() == self@.blocks_of(name@).dom().len(),
    {
        match self.blocks.get(name) {
            Some(blocks) => {
                assert(bytes_of(blocks@).dom() =~= blocks@.dom());
                block_list(blocks)
            },
            None => Vec::new(),
        }
    }

    /// The checksum in the metadata of each block of a database, in some order.
    pub fn stored_checksums(&self, name: &str) -> (list: Vec<(u64, u64)>)
        requires
            self.wf(),
        ensures
            lists_checksums(list@, self@.metadata_of(name@)),
    {
        let mut list: Vec<(u64, u64)> = Vec::new();
        match self.metadata.get(name) {
            None => {},
            Some(metadata) => {
                let ids: Vec<u64> = key_list(metadata);
                let mut i: usize = 0;
                while i < ids.len()
                    invariant
                        i <= ids@.len(),
                        ids@.to_set() == metadata@.dom(),
                        list@.len() == i,
                        forall|j: int|
                            0 <= j < i ==> (#[trigger] list@[j]).0 == ids@[j] && list@[j].1
                                == metadata@[ids@[j]].checksum,
                    decreases ids@.len() - i,
                {
                    let id: u64 = ids[i];
                    assert(ids@.contains(id));
                    assert(ids@.to_set().contains(id));
                    match metadata.get(&id) {
                        Some(entry) => {
                            list.push((id, entry.checksum));
                        },
                        None => {},
                    }
                    i += 1;
                }
                proof {
                    assert forall|id: u64| #[trigger] metadata@.contains_key(id) implies exists|
                        j: int,
                    |
                        0 <= j < list@.len() && (#[trigger] list@[j]).0 == id by {
                        assert(ids@.to_set().contains(id));
                        assert(ids@.contains(id));
                        let j = choose|j: int| 0 <= j < ids@.len() && ids@[j] == id;
                        assert(list@[j].0 == id);
                    }
                    assert forall|j: int| 0 <= j < list@.len() implies metadata@.contains_key(
                        (#[trigger] list@[j]).0,
                    ) by {
                        assert(ids@.contains(ids@[j]));
                        assert(ids@.to_set().contains(ids@[j]));
                    }
                }
            },
        }
        list
    }

    /// Commits dirty blocks of a database: stores them with their metadata, and
    /// then advances the database's commit marker. With `guarded`, data that is
    /// committed already stays as it is. Returns the new marker.
    pub fn commit(
        &mut self,
        name: &str,
        dirty: &HashMap<u64, Vec<u8>>,
        checksums: &HashMap<u64, BlockChecksum>,
        now_ms: u64,
        guarded: bool,
    ) -> (marker: u64)
        requires
            old(self).wf(),
            old(self)@.marker_of(name@) < u64::MAX,
        ensures
            final(self).wf(),
            final(self)@ == committed_view(
                old(self)@,
                name@,
                bytes_of(dirty@),
                checksums@,
                now_ms,
                guarded,
            ),
            marker == old(self)@.marker_of(name@) + 1,
    {
        let ghost before = self@;
        let marker: u64 = self.commit_marker(name) + 1;
        let list: Vec<(u64, Vec<u8>)> = block_list(dirty);
        let stored: HashMap<u64, Vec<u8>> = match self.blocks.remove(name) {
            Some(stored) => stored,
            None => HashMap::new(),
        };
        assert(bytes_of(stored@) =~= before.blocks_of(name@));
        let metadata: HashMap<u64, BlockMetadataPersist> = match self.metadata.remove(name) {
            Some(metadata) => metadata,
            None => HashMap::new(),
        };
        assert(metadata@ =~= before.metadata_of(name@));
        let merged: HashMap<u64, Vec<u8>> = merge_blocks(
            stored,
            &metadata,
            &list,
            guarded,
            Ghost(bytes_of(dirty@)),
        );
        let recorded: HashMap<u64, BlockMetadataPersist> = merge_metadata(
            metadata,
            &list,
            checksums,
            commit_version(marker),
            now_ms,
            Ghost(bytes_of(dirty@)),
        );
        self.blocks.set(name, merged);
        self.metadata.set(name, recorded);
        self.commit_markers.set(name, marker);
        proof {
            let after = committed_view(before, name@, bytes_of(dirty@), checksums@, now_ms, guarded);
            assert(self@.blocks =~= after.blocks);
            assert(self@.metadata =~= after.metadata);
            assert(self@.commit_markers =~= after.commit_markers);
        }
        marker
    }

    /// Forgets everything stored for a database.
    pub fn delete(&mut self, name: &str)
        requires
            old(self).wf(),
        ensures
            final(self).wf(),
            final(self)@ == (GlobalView {
                blocks: old(self)@.blocks.remove(name@),
                metadata: old(self)@.metadata.remove(name@),
                commit_markers: old(self)@.commit_markers.remove(name@),
            }),
    {
        let ghost before = self@;
        let _ = self.blocks.remove(name);
        let _ = self.metadata.remove(name);
        let _ = self.commit_markers.remove(name);
        assert(self@.blocks =~= before.blocks.remove(name@));
        assert(self@.metadata =~= before.metadata.remove(name@));
    }
}

/// What is seen of the shared memory is what it holds: the bytes of every block,
/// the metadata of every block, and every commit marker.
pub proof fn law_memory_is_seen_as_it_is(globals: &GlobalStorage, name: Seq<char>, id: u64)
    ensures
        globals@.commit_markers == globals.commit_markers@,
        globals@.blocks.dom() == globals.blocks@.dom(),
        globals@.metadata.dom() == globals.metadata@.dom(),
        globals.blocks@.contains_key(name) ==> {
            &&& globals@.blocks_of(name).dom() == globals.blocks@[name]@.dom()
            &&& globals.blocks@[name]@.contains_key(id) ==> globals@.blocks_of(name)[id]
                == globals.blocks@[name]@[id]@
        },
        globals.metadata@.contains_key(name) ==> globals@.metadata_of(name)
            == globals.metadata@[name]@,
        globals.commit_markers@.contains_key(name) ==> globals@.marker_of(name)
            == globals.commit_markers@[name],
        !globals.commit_markers@.contains_key(name) ==> globals@.marker_of(name) == 0,
{
    assert(globals@.blocks.dom() =~= globals.blocks@.dom());
    assert(globals@.metadata.dom() =~= globals.metadata@.dom());
    if globals.blocks@.contains_key(name) {
        assert(globals@.blocks_of(name).dom() =~= globals.blocks@[name]@.dom());
    }
}

/// The version of a commit is its number, as far as thirty-two bits go: the
/// version of the next commit is one more, or zero after the greatest.
pub proof fn law_versions_count_commits(commit: u64)
    ensures
        commit < 0x1_0000_0000 ==> version_of(commit) == commit,
        commit < u64::MAX ==> version_of((commit + 1) as u64) == if version_of(commit) == u32::MAX {
            0
        } else {
            version_of(commit) + 1
        },
{
}

/// A list of checksums has the checksum of every block with metadata, once, and
/// no other.
pub proof fn law_listed_checksums(
    list: Seq<(u64, u64)>,
    metadata: Map<u64, BlockMetadataPersist>,
    id: u64,
)
    requires
        lists_checksums(list, metadata),
    ensures
        metadata.contains_key(id) ==> list.contains((id, metadata[id].checksum)),
        forall|i: int|
            0 <= i < list.len() ==> metadata.contains_key((#[trigger] list[i]).0) && list[i].1
                == metadata[list[i].0].checksum,
        forall|i: int, j: int|
            0 <= i < j < list.len() ==> (#[trigger] list[i]).0 != (#[trigger] list[j]).0,
{
    if metadata.contains_key(id) {
        let i = choose|i: int| 0 <= i < list.len() && (#[trigger] list[i]).0 == id;
        assert(list[i] == (id, metadata[id].checksum));
    }
}

/// Of a database that nothing is stored of there are no blocks, no metadata and
/// no commits; of any other there is what is stored.
pub proof fn law_what_is_known_of_a_database(view: GlobalView, name: Seq<char>)
    ensures
        view.blocks.contains_key(name) ==> view.blocks_of(name) == view.blocks[name],
        !view.blocks.contains_key(name) ==> view.blocks_of(name).dom() == Set::<u64>::empty(),
        view.metadata.contains_key(name) ==> view.metadata_of(name) == view.metadata[name],
        !view.metadata.contains_key(name) ==> view.metadata_of(name).dom() == Set::<u64>::empty(),
        view.commit_markers.contains_key(name) ==> view.marker_of(name)
            == view.commit_markers[name],
        !view.commit_markers.contains_key(name) ==> view.marker_of(name) == 0,
{
}

} // verus!
