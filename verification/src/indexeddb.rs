//! What is written to IndexedDB.
//!
//! All databases share the IndexedDB database `block_storage`, with a store for
//! blocks and one for metadata.

use crate::collections::{copy_bytes, lists_blocks};
use crate::db_list::has_name;
use crate::names::{block_key, commit_marker_key, key_of_block, law_block_keys_are_unique};
use crate::types::all_texts;
use vstd::prelude::*;

verus! {

/// The version of the IndexedDB database.
pub const INDEXEDDB_VERSION: u32 = 2;

/// The stores that are to be created where these exist.
pub open spec fn stores_to_create(existing: Seq<Seq<char>>) -> Seq<Seq<char>> {
    (if existing.contains("blocks"@) {
        Seq::empty()
    } else {
        seq!["blocks"@]
    }) + if existing.contains("metadata"@) {
        Seq::empty()
    } else {
        seq!["metadata"@]
    }
}

/// The stores that are to be created where these exist.
pub fn missing_stores(existing: &Vec<String>) -> (missing: Vec<String>)
    ensures
        all_texts(missing@) == stores_to_create(all_texts(existing@)),
{
    let mut missing: Vec<String> = Vec::new();
    if !has_name(existing, "blocks") {
        missing.push("blocks".to_owned());
    }
    if !has_name(existing, "metadata") {
        missing.push("metadata".to_owned());
    }
    assert(all_texts(missing@) =~= stores_to_create(all_texts(existing@)));
    missing
}

/// What one transaction writes.
#[derive(Debug)]
pub struct IndexedDbWrite {
    /// The blocks, each with its key.
    pub blocks: Vec<(String, Vec<u8>)>,
    /// The key of the commit marker.
    pub marker_key: String,
    pub commit_marker: u64,
}

/// What is written for some blocks of a database and its commit marker.
pub fn indexeddb_write(name: &str, blocks: &Vec<(u64, Vec<u8>)>, commit_marker: u64) -> (write:
    IndexedDbWrite)
    ensures
        write.blocks@.len() == blocks@.len(),
        forall|i: int|
            0 <= i < blocks@.len() ==> (#[trigger] write.blocks@[i]).0@ == key_of_block(
                name@,
                blocks@[i].0,
            ) && write.blocks@[i].1@ == blocks@[i].1@,
        write.marker_key@ == name@ + "_commit_marker"@,
        write.commit_marker == commit_marker,
{
    let mut keyed: Vec<(String, Vec<u8>)> = Vec::new();
    let mut i: usize = 0;
    while i < blocks.len()
        invariant
            i <= blocks@.len(),
            keyed@.len() == i,
            forall|j: int|
                0 <= j < i ==> (#[trigger] keyed@[j]).0@ == key_of_block(name@, blocks@[j].0)
                    && keyed@[j].1@ == blocks@[j].1@,
        decreases blocks@.len() - i,
    {
        keyed.push((block_key(name, blocks[i].0), copy_bytes(&blocks[i].1)));
        i += 1;
    }
    IndexedDbWrite { blocks: keyed, marker_key: commit_marker_key(name), commit_marker }
}

/// A store after keyed blocks have been put into it, one after the other.
pub open spec fn put_all(
    store: Map<Seq<char>, Seq<u8>>,
    name: Seq<char>,
    blocks: Seq<(u64, Vec<u8>)>,
) -> Map<Seq<char>, Seq<u8>>
    decreases blocks.len(),
{
    if blocks.len() == 0 {
        store
    } else {
        put_all(store, name, blocks.drop_last()).insert(
            key_of_block(name, blocks.last().0),
            blocks.last().1@,
        )
    }
}

/// Every block that is written can be read back under its key, and no block of
/// another database is touched.
pub proof fn law_written_blocks_read_back(
    store: Map<Seq<char>, Seq<u8>>,
    name: Seq<char>,
    list: Seq<(u64, Vec<u8>)>,
    blocks: Map<u64, Seq<u8>>,
    id: u64,
    other: Seq<char>,
)
    requires
        lists_blocks(list, blocks),
        blocks.contains_key(id),
        name != other,
    ensures
        put_all(store, name, list).contains_key(key_of_block(name, id)),
        put_all(store, name, list)[key_of_block(name, id)] == blocks[id],
        put_all(store, name, list).contains_key(key_of_block(other, id)) == store.contains_key(
            key_of_block(other, id),
        ),
        put_all(store, name, list)[key_of_block(other, id)] == store[key_of_block(other, id)],
{
    let at = choose|i: int| 0 <= i < list.len() && (#[trigger] list[i]).0 == id;
    lemma_put(store, name, list, at);
    lemma_not_put(store, name, list, key_of_block(other, id));
    assert forall|i: int| 0 <= i < list.len() implies key_of_block(name, (#[trigger] list[i]).0)
        != key_of_block(other, id) by {
        if key_of_block(name, list[i].0) == key_of_block(other, id) {
            law_block_keys_are_unique(name, list[i].0, other, id);
        }
    }
}

proof fn lemma_put(
    store: Map<Seq<char>, Seq<u8>>,
    name: Seq<char>,
    list: Seq<(u64, Vec<u8>)>,
    at: int,
)
    requires
        0 <= at < list.len(),
        forall|i: int, j: int|
            0 <= i < list.len() && 0 <= j < list.len() && i != j ==> (#[trigger] list[i]).0 != (
            #[trigger] list[j]).0,
    ensures
        put_all(store, name, list).contains_key(key_of_block(name, list[at].0)),
        put_all(store, name, list)[key_of_block(name, list[at].0)] == list[at].1@,
    decreases list.len(),
{
    if at < list.len() - 1 {
        let last = list.last();
        assert(list[list.len() - 1].0 != list[at].0);
        lemma_put(store, name, list.drop_last(), at);
        if key_of_block(name, last.0) == key_of_block(name, list[at].0) {
            law_block_keys_are_unique(name, last.0, name, list[at].0);
        }
    }
}

proof fn lemma_not_put(
    store: Map<Seq<char>, Seq<u8>>,
    name: Seq<char>,
    list: Seq<(u64, Vec<u8>)>,
    key: Seq<char>,
)
    ensures
        (forall|i: int| 0 <= i < list.len() ==> key_of_block(name, (#[trigger] list[i]).0) != key)
            ==> put_all(store, name, list).contains_key(key) == store.contains_key(key)
            && put_all(store, name, list)[key] == store[key],
    decreases list.len(),
{
    if list.len() > 0 && forall|i: int|
        0 <= i < list.len() ==> key_of_block(name, (#[trigger] list[i]).0) != key {
        let fewer = list.drop_last();
        assert forall|i: int| 0 <= i < fewer.len() implies key_of_block(
            name,
            (#[trigger] fewer[i]).0,
        ) != key by {
            assert(fewer[i] == list[i]);
        }
        lemma_not_put(store, name, fewer, key);
        assert(key_of_block(name, list[list.len() - 1].0) != key);
    }
}

/// Both stores exist once the missing ones are created; none is created that
/// exists already, none twice, and no other.
pub proof fn law_missing_stores_are_created(existing: Seq<Seq<char>>, store: Seq<char>)
    ensures
        ({
            let created = stores_to_create(existing);
            &&& created.no_duplicates()
            &&& created.contains(store) <==> !existing.contains(store) && (store == "blocks"@
                || store == "metadata"@)
        }),
{
    reveal_strlit("blocks");
    reveal_strlit("metadata");
    assert("blocks"@.len() != "metadata"@.len());
    let created = stores_to_create(existing);
    if !existing.contains("blocks"@) {
        assert(created[0] == "blocks"@);
        if !existing.contains("metadata"@) {
            assert(created[1] == "metadata"@);
        }
    } else if !existing.contains("metadata"@) {
        assert(created[0] == "metadata"@);
    }
}

/// A version of the IndexedDB database with both stores is asked for.
pub proof fn law_version_of_the_stores()
    ensures
        INDEXEDDB_VERSION == 2,
        stores_to_create(Seq::empty()) == seq!["blocks"@, "metadata"@],
{
    assert(!Seq::<Seq<char>>::empty().contains("blocks"@));
    assert(!Seq::<Seq<char>>::empty().contains("metadata"@));
    assert(stores_to_create(Seq::empty()) =~= seq!["blocks"@, "metadata"@]);
}

} // verus!
