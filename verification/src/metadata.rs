//! The metadata document of a database that is persisted to files: an object
//! whose `entries` are pairs of a block id and a record about that block.

use crate::collections::{block_list, bytes_of, key_list, lemma_push_to_set, lists_blocks};
use crate::json::{
    all_held, array_value, as_u64, copy_map, copy_value, fields, get, held, new_map, no_fields,
    number_value, object_value, open, parse, parsed, put, text_value, Json, Parts,
};
use crate::storage::{lemma_listed_step, listed, BlockChecksum, ChecksumAlgorithm};
use crate::text::same;
use std::collections::{HashMap, HashSet};
use vstd::prelude::*;

verus! {

broadcast use vstd::std_specs::hash::group_hash_axioms;

/// The fields of a block's record.
pub type Record = Map<Seq<char>, Json>;

/// How a record names a checksum algorithm.
pub open spec fn algo_text(algo: ChecksumAlgorithm) -> Seq<char> {
    match algo {
        ChecksumAlgorithm::CRC32 => "CRC32"@,
        ChecksumAlgorithm::FastHash => "FastHash"@,
    }
}

/// How a record names a checksum algorithm.
pub fn algo_name(algo: ChecksumAlgorithm) -> (name: &'static str)
    ensures
        name@ == algo_text(algo),
{
    match algo {
        ChecksumAlgorithm::CRC32 => "CRC32",
        ChecksumAlgorithm::FastHash => "FastHash",
    }
}

/// Whether a record names a checksum algorithm that exists.
pub open spec fn valid_algo(record: Record) -> bool {
    record.contains_key("algo"@) && (record["algo"@] == Json::Text("FastHash"@) || record["algo"@]
        == Json::Text("CRC32"@))
}

/// A record that names `default` where it names no existing algorithm.
pub open spec fn normalized_record(record: Record, default: ChecksumAlgorithm) -> Record {
    if valid_algo(record) {
        record
    } else {
        record.insert("algo"@, Json::Text(algo_text(default)))
    }
}

/// An entry with its record normalized. What is no pair with a record in its
/// second place stays as it is.
pub open spec fn normalized_entry(entry: Json, default: ChecksumAlgorithm) -> Json {
    match entry {
        Json::Array(pair) => if pair.len() == 2 {
            match pair[1] {
                Json::Object(record) => Json::Array(
                    seq![pair[0], Json::Object(normalized_record(record, default))],
                ),
                _ => entry,
            }
        } else {
            entry
        },
        _ => entry,
    }
}

/// The document without entries.
pub open spec fn empty_document() -> Json {
    Json::Object(no_fields().insert("entries"@, Json::Array(Seq::empty())))
}

/// The entries of a document.
pub open spec fn entries_of(document: Json) -> Seq<Json> {
    match document {
        Json::Object(map) => if map.contains_key("entries"@) {
            match map["entries"@] {
                Json::Array(entries) => entries,
                _ => Seq::empty(),
            }
        } else {
            Seq::empty()
        },
        _ => Seq::empty(),
    }
}

/// The document that a text holds; where there is no text, or the text holds
/// no object, the document without entries.
pub open spec fn loaded(text: Option<Seq<char>>) -> Json {
    match text {
        None => empty_document(),
        Some(text) => match parsed(text) {
            Some(Json::Object(map)) => Json::Object(map),
            _ => empty_document(),
        },
    }
}

/// A document with every entry normalized, and all else as it is.
pub open spec fn normalized(document: Json, default: ChecksumAlgorithm) -> Json {
    match document {
        Json::Object(map) => if map.contains_key("entries"@) && map["entries"@] is Array {
            let entries = map["entries"@]->Array_0;
            Json::Object(
                map.insert(
                    "entries"@,
                    Json::Array(
                        Seq::new(entries.len(), |i: int| normalized_entry(entries[i], default)),
                    ),
                ),
            )
        } else {
            document
        },
        _ => document,
    }
}

/// The block id of an entry: what stands first in it, where that is one.
pub open spec fn id_of(entry: Json) -> Option<u64> {
    match entry {
        Json::Array(items) => if items.len() > 0 {
            match items[0] {
                Json::Unsigned(id) => Some(id),
                _ => None,
            }
        } else {
            None
        },
        _ => None,
    }
}

/// The block id and the record of an entry that is a pair of these.
pub open spec fn record_of(entry: Json) -> Option<(u64, Record)> {
    match entry {
        Json::Array(pair) => if pair.len() == 2 {
            match (pair[0], pair[1]) {
                (Json::Unsigned(id), Json::Object(record)) => Some((id, record)),
                _ => None,
            }
        } else {
            None
        },
        _ => None,
    }
}

/// The records of some entries by block id; of two with one id, the later.
pub open spec fn records_of(entries: Seq<Json>) -> Map<u64, Record>
    decreases entries.len(),
{
    if entries.len() == 0 {
        Map::empty()
    } else {
        let rest = records_of(entries.drop_last());
        match record_of(entries.last()) {
            Some((id, record)) => rest.insert(id, record),
            None => rest,
        }
    }
}

/// The block ids that occur in some entries.
pub open spec fn ids_of(entries: Seq<Json>) -> Set<u64> {
    Set::new(
        |id: u64|
            exists|i: int| 0 <= i < entries.len() && id_of(#[trigger] entries[i]) == Some(id),
    )
}

/// The version that a block's next record carries: one more than the version
/// in its present record, and 1 where there is none.
pub open spec fn next_version(records: Map<u64, Record>, id: u64) -> u64 {
    if records.contains_key(id) && records[id].contains_key("version"@) {
        match records[id]["version"@] {
            Json::Unsigned(version) => if version == u64::MAX {
                version
            } else {
                (version + 1) as u64
            },
            _ => 1,
        }
    } else {
        1
    }
}

/// The record of a block that has just been written.
pub open spec fn fresh_record(known: BlockChecksum, now_ms: u64, version: u64) -> Record {
    no_fields().insert("checksum"@, Json::Unsigned(known.checksum)).insert(
        "last_modified_ms"@,
        Json::Unsigned(now_ms),
    ).insert("version"@, Json::Unsigned(version)).insert("algo"@, Json::Text(algo_text(known.algo)))
}

/// The records once the dirty blocks have been written: those with a known
/// checksum have a fresh record, all others keep theirs, normalized.
pub open spec fn persisted(
    records: Map<u64, Record>,
    dirty: Map<u64, Seq<u8>>,
    checksums: Map<u64, BlockChecksum>,
    now_ms: u64,
    default: ChecksumAlgorithm,
) -> Map<u64, Record> {
    Map::new(
        |id: u64|
            records.contains_key(id) || (dirty.contains_key(id) && checksums.contains_key(id)),
        |id: u64|
            if dirty.contains_key(id) && checksums.contains_key(id) {
                fresh_record(checksums[id], now_ms, next_version(records, id))
            } else {
                normalized_record(records[id], default)
            },
    )
}

/// The document with these records, in the order of `ids`.
pub open spec fn document_of(ids: Seq<u64>, records: Map<u64, Record>) -> Json {
    Json::Object(
        no_fields().insert(
            "entries"@,
            Json::Array(
                Seq::new(
                    ids.len(),
                    |i: int|
                        Json::Array(seq![Json::Unsigned(ids[i]), Json::Object(records[ids[i]])]),
                ),
            ),
        ),
    )
}

/// The fields of each record of a map of records.
pub open spec fn all_fields(
    records: Map<u64, serde_json::Map<String, serde_json::Value>>,
) -> Map<u64, Record> {
    records.map_values(|record: serde_json::Map<String, serde_json::Value>| fields(record))
}

/// The document without entries.
pub fn new_document() -> (document: serde_json::Value)
    ensures
        held(document) == empty_document(),
{
    let mut map = new_map();
    let items: Vec<serde_json::Value> = Vec::new();
    assert(all_held(items@) =~= Seq::<Json>::empty());
    put(&mut map, "entries".to_owned(), array_value(items));
    object_value(map)
}

/// Reads the document off the text of a metadata file, if there is one.
pub fn load(text: Option<&str>) -> (document: serde_json::Value)
    ensures
        held(document) == loaded(match text {
            Some(text) => Some(text@),
            None => None,
        }),
{
    match text {
        None => new_document(),
        Some(text) => match parse(text) {
            Err(_) => new_document(),
            Ok(value) => {
                let is_object: bool = match open(&value) {
                    Parts::Object(_) => true,
                    _ => false,
                };
                if is_object {
                    value
                } else {
                    new_document()
                }
            },
        },
    }
}

/// The text that a value is, if it is one.
fn as_text<'a>(value: &'a serde_json::Value) -> (r: Option<&'a String>)
    ensures
        match r {
            Some(text) => held(*value) == Json::Text(text@),
            None => !(held(*value) is Text),
        },
{
    match open(value) {
        Parts::Text(text) => Some(text),
        _ => None,
    }
}

/// The unsigned integer that a value is, if it is one.
fn as_unsigned(value: &serde_json::Value) -> (r: Option<u64>)
    ensures
        match r {
            Some(n) => held(*value) == Json::Unsigned(n),
            None => !(held(*value) is Unsigned),
        },
{
    match open(value) {
        Parts::Number(number) => as_u64(number),
        _ => None,
    }
}

/// The items of the array that a value is, if it is one.
fn as_array<'a>(value: &'a serde_json::Value) -> (r: Option<&'a Vec<serde_json::Value>>)
    ensures
        match r {
            Some(items) => held(*value) == Json::Array(all_held(items@)),
            None => !(held(*value) is Array),
        },
{
    match open(value) {
        Parts::Array(items) => Some(items),
        _ => None,
    }
}

/// The fields of the object that a value is, if it is one.
fn as_object<'a>(value: &'a serde_json::Value) -> (r: Option<
    &'a serde_json::Map<String, serde_json::Value>,
>)
    ensures
        match r {
            Some(map) => held(*value) == Json::Object(fields(*map)),
            None => !(held(*value) is Object),
        },
{
    match open(value) {
        Parts::Object(map) => Some(map),
        _ => None,
    }
}

/// Whether a record names a checksum algorithm that exists.
fn has_valid_algo(record: &serde_json::Map<String, serde_json::Value>) -> (r: bool)
    ensures
        r == valid_algo(fields(*record)),
{
    match get(record, "algo") {
        None => false,
        Some(value) => match as_text(value) {
            None => false,
            Some(name) => same(name.as_str(), "FastHash") || same(name.as_str(), "CRC32"),
        },
    }
}

/// A record that names `default` where it names no existing algorithm.
fn normalize_record(
    record: serde_json::Map<String, serde_json::Value>,
    default: ChecksumAlgorithm,
) -> (r: serde_json::Map<String, serde_json::Value>)
    ensures
        fields(r) == normalized_record(fields(record), default),
{
    let mut r = record;
    if !has_valid_algo(&r) {
        put(&mut r, "algo".to_owned(), text_value(algo_name(default).to_owned()));
    }
    r
}

/// An entry with its record normalized.
fn normalize_entry(entry: &serde_json::Value, default: ChecksumAlgorithm) -> (r: serde_json::Value)
    ensures
        held(r) == normalized_entry(held(*entry), default),
{
    match as_array(entry) {
        None => copy_value(entry),
        Some(pair) => {
            if pair.len() != 2 {
                return copy_value(entry);
            }
            assert(all_held(pair@)[1] == held(pair@[1]));
            match as_object(&pair[1]) {
                None => copy_value(entry),
                Some(record) => {
                    let record = normalize_record(copy_map(record), default);
                    let mut items: Vec<serde_json::Value> = Vec::new();
                    items.push(copy_value(&pair[0]));
                    items.push(object_value(record));
                    proof {
                        let old_pair = all_held(pair@);
                        assert(all_held(items@) =~= seq![
                            old_pair[0],
                            Json::Object(
                                normalized_record(old_pair[1]->Object_0, default),
                            ),
                        ]);
                    }
                    array_value(items)
                },
            }
        },
    }
}

/// A document with every entry normalized, and all else as it is.
pub fn normalize(document: serde_json::Value, default: ChecksumAlgorithm) -> (r: serde_json::Value)
    ensures
        held(r) == normalized(held(document), default),
{
    let normal: Option<serde_json::Value> = match as_object(&document) {
        None => None,
        Some(map) => match get(map, "entries") {
            None => None,
            Some(value) => match as_array(value) {
                None => None,
                Some(entries) => {
                    let mut items: Vec<serde_json::Value> = Vec::new();
                    let mut i: usize = 0;
                    while i < entries.len()
                        invariant
                            i <= entries@.len(),
                            items@.len() == i,
                            forall|j: int|
                                0 <= j < i ==> held(#[trigger] items@[j]) == normalized_entry(
                                    held(entries@[j]),
                                    default,
                                ),
                        decreases entries@.len() - i,
                    {
                        items.push(normalize_entry(&entries[i], default));
                        i += 1;
                    }
                    proof {
                        let before = all_held(entries@);
                        assert(all_held(items@) =~= Seq::new(
                            before.len(),
                            |i: int| normalized_entry(before[i], default),
                        ));
                    }
                    let mut map = copy_map(map);
                    put(&mut map, "entries".to_owned(), array_value(items));
                    Some(object_value(map))
                },
            },
        },
    };
    match normal {
        Some(value) => value,
        None => document,
    }
}

/// The entries of a document as values, where it has any.
fn entry_values<'a>(document: &'a serde_json::Value) -> (r: Option<&'a Vec<serde_json::Value>>)
    ensures
        match r {
            Some(entries) => all_held(entries@) == entries_of(held(*document)),
            None => entries_of(held(*document)) == Seq::<Json>::empty(),
        },
{
    match as_object(document) {
        None => None,
        Some(map) => match get(map, "entries") {
            None => None,
            Some(value) => as_array(value),
        },
    }
}

/// The block id and the record of an entry that is a pair of these.
fn entry_record<'a>(entry: &'a serde_json::Value) -> (r: Option<
    (u64, &'a serde_json::Map<String, serde_json::Value>),
>)
    ensures
        match r {
            Some((id, record)) => record_of(held(*entry)) == Some((id, fields(*record))),
            None => record_of(held(*entry)) is None,
        },
{
    match as_array(entry) {
        None => None,
        Some(pair) => {
            if pair.len() != 2 {
                return None;
            }
            assert(all_held(pair@)[0] == held(pair@[0]));
            assert(all_held(pair@)[1] == held(pair@[1]));
            match (as_unsigned(&pair[0]), as_object(&pair[1])) {
                (Some(id), Some(record)) => Some((id, record)),
                _ => None,
            }
        },
    }
}

/// The records of a document by block id.
pub fn collect_records(document: &serde_json::Value) -> (records: HashMap<
    u64,
    serde_json::Map<String, serde_json::Value>,
>)
    ensures
        all_fields(records@) == records_of(entries_of(held(*document))),
{
    let mut records: HashMap<u64, serde_json::Map<String, serde_json::Value>> = HashMap::new();
    assert(all_fields(records@) =~= Map::<u64, Record>::empty());
    match entry_values(document) {
        None => {},
        Some(entries) => {
            let ghost all = all_held(entries@);
            let mut i: usize = 0;
            assert(all.take(0) =~= Seq::<Json>::empty());
            while i < entries.len()
                invariant
                    i <= entries@.len(),
                    all == all_held(entries@),
                    all_fields(records@) == records_of(all.take(i as int)),
                decreases entries@.len() - i,
            {
                let ghost seen = all.take(i as int + 1);
                assert(seen.drop_last() =~= all.take(i as int));
                assert(seen.last() == held(entries@[i as int]));
                match entry_record(&entries[i]) {
                    None => {},
                    Some((id, record)) => {
                        let ghost before = records@;
                        let copy = copy_map(record);
                        records.insert(id, copy);
                        assert(all_fields(records@) =~= all_fields(before).insert(
                            id,
                            fields(*record),
                        ));
                    },
                }
                i += 1;
            }
            assert(all.take(all.len() as int) =~= all);
        },
    }
    records
}

/// The block id of an entry.
fn entry_id(entry: &serde_json::Value) -> (r: Option<u64>)
    ensures
        r == id_of(held(*entry)),
{
    match as_array(entry) {
        None => None,
        Some(items) => {
            if items.len() == 0 {
                return None;
            }
            assert(all_held(items@)[0] == held(items@[0]));
            as_unsigned(&items[0])
        },
    }
}

/// The block ids that occur in the entries of a document.
pub fn collect_ids(document: &serde_json::Value) -> (ids: HashSet<u64>)
    ensures
        ids@ == ids_of(entries_of(held(*document))),
{
    let mut ids: HashSet<u64> = HashSet::new();
    match entry_values(document) {
        None => {
            assert(ids@ =~= ids_of(Seq::<Json>::empty()));
        },
        Some(entries) => {
            let ghost all = all_held(entries@);
            let mut i: usize = 0;
            assert(ids@ =~= ids_of(all.take(0)));
            while i < entries.len()
                invariant
                    i <= entries@.len(),
                    all == all_held(entries@),
                    ids@ == ids_of(all.take(i as int)),
                decreases entries@.len() - i,
            {
                let found: Option<u64> = entry_id(&entries[i]);
                match found {
                    None => {},
                    Some(id) => {
                        ids.insert(id);
                    },
                }
                proof {
                    let fewer = all.take(i as int);
                    let more = all.take(i as int + 1);
                    assert forall|id: u64| #[trigger]
                        ids@.contains(id) == ids_of(more).contains(id) by {
                        if ids_of(fewer).contains(id) {
                            let j = choose|j: int|
                                0 <= j < fewer.len() && id_of(#[trigger] fewer[j]) == Some(id);
                            assert(id_of(more[j]) == Some(id));
                        }
                        if ids_of(more).contains(id) {
                            let j = choose|j: int|
                                0 <= j < more.len() && id_of(#[trigger] more[j]) == Some(id);
                            if j < i {
                                assert(id_of(fewer[j]) == Some(id));
                            }
                        }
                        assert(more[i as int] == held(entries@[i as int]));
                    }
                    assert(ids@ =~= ids_of(more));
                }
                i += 1;
            }
            assert(all.take(all.len() as int) =~= all);
        },
    }
    ids
}

/// The version that a block's next record carries.
fn version_after(
    records: &HashMap<u64, serde_json::Map<String, serde_json::Value>>,
    id: u64,
) -> (version: u64)
    ensures
        version == next_version(all_fields(records@), id),
{
    match records.get(&id) {
        None => 1,
        Some(record) => match get(record, "version") {
            None => 1,
            Some(value) => match as_unsigned(value) {
                None => 1,
                Some(version) => if version == u64::MAX {
                    version
                } else {
                    version + 1
                },
            },
        },
    }
}

/// The record of a block that has just been written.
fn new_record(known: &BlockChecksum, now_ms: u64, version: u64) -> (record: serde_json::Map<
    String,
    serde_json::Value,
>)
    ensures
        fields(record) == fresh_record(*known, now_ms, version),
{
    let mut record = new_map();
    put(&mut record, "checksum".to_owned(), number_value(known.checksum));
    put(&mut record, "last_modified_ms".to_owned(), number_value(now_ms));
    put(&mut record, "version".to_owned(), number_value(version));
    put(&mut record, "algo".to_owned(), text_value(algo_name(known.algo).to_owned()));
    record
}

/// Gives every listed block with a known checksum a fresh record.
fn refresh_records(
    records: HashMap<u64, serde_json::Map<String, serde_json::Value>>,
    list: &Vec<(u64, Vec<u8>)>,
    checksums: &HashMap<u64, BlockChecksum>,
    now_ms: u64,
    Ghost(dirty): Ghost<Map<u64, Seq<u8>>>,
) -> (r: HashMap<u64, serde_json::Map<String, serde_json::Value>>)
    requires
        lists_blocks(list@, dirty),
    ensures
        r@.dom() == records@.dom().union(dirty.dom().intersect(checksums@.dom())),
        forall|id: u64| #[trigger]
            r@.contains_key(id) ==> fields(r@[id]) == if dirty.contains_key(id)
                && checksums@.contains_key(id) {
                fresh_record(checksums@[id], now_ms, next_version(all_fields(records@), id))
            } else {
                fields(records@[id])
            },
{
    let ghost old_records = records@;
    let ghost before = all_fields(records@);
    let mut r = records;
    let mut i: usize = 0;
    while i < list.len()
        invariant
            i <= list@.len(),
            lists_blocks(list@, dirty),
            before == all_fields(old_records),
            forall|id: u64| #[trigger]
                r@.contains_key(id) <==> old_records.contains_key(id) || (listed(
                    list@,
                    i as int,
                    id,
                ) && checksums@.contains_key(id)),
            forall|id: u64|
                r@.contains_key(id) ==> fields(#[trigger] r@[id]) == if listed(
                    list@,
                    i as int,
                    id,
                ) && checksums@.contains_key(id) {
                    fresh_record(checksums@[id], now_ms, next_version(before, id))
                } else {
                    fields(old_records[id])
                },
        decreases list@.len() - i,
    {
        let id: u64 = list[i].0;
        proof {
            assert(!listed(list@, i as int, id));
            assert forall|k: u64|
                #![trigger listed(list@, i + 1, k)]
                listed(list@, i + 1, k) <==> listed(list@, i as int, k) || k == id by {
                lemma_listed_step(list@, i as int, k);
            }
        }
        match checksums.get(&id) {
            None => {},
            Some(known) => {
                let version: u64 = version_after(&r, id);
                assert(version == next_version(before, id));
                r.insert(id, new_record(known, now_ms, version));
            },
        }
        i += 1;
    }
    proof {
        assert forall|id: u64| listed(list@, list@.len() as int, id) <==> dirty.contains_key(id) by {
            if dirty.contains_key(id) {
                let j = choose|j: int| 0 <= j < list@.len() && (#[trigger] list@[j]).0 == id;
                assert(list@[j].0 == id);
            }
        }
        assert(r@.dom() =~= old_records.dom().union(dirty.dom().intersect(checksums@.dom())));
    }
    r
}

/// The document with the records of `document` brought up to date: the listed
/// dirty blocks have been written, and every record is normalized. With it come
/// the ids that have an entry, in the order of the entries.
pub fn persist_document(
    document: &serde_json::Value,
    dirty: &HashMap<u64, Vec<u8>>,
    checksums: &HashMap<u64, BlockChecksum>,
    now_ms: u64,
    default: ChecksumAlgorithm,
) -> (r: (Vec<u64>, serde_json::Value))
    ensures
        r.0@.no_duplicates(),
        r.0@.to_set() == persisted(
            records_of(entries_of(held(*document))),
            bytes_of(dirty@),
            checksums@,
            now_ms,
            default,
        ).dom(),
        held(r.1) == document_of(
            r.0@,
            persisted(
                records_of(entries_of(held(*document))),
                bytes_of(dirty@),
                checksums@,
                now_ms,
                default,
            ),
        ),
{
    let ghost stored = records_of(entries_of(held(*document)));
    let ghost whole = persisted(stored, bytes_of(dirty@), checksums@, now_ms, default);
    let list: Vec<(u64, Vec<u8>)> = block_list(dirty);
    let records: HashMap<u64, serde_json::Map<String, serde_json::Value>> = collect_records(
        document,
    );
    assert(records@.dom() =~= stored.dom()) by {
        assert(all_fields(records@).dom() =~= records@.dom());
    }
    let ghost first = records@;
    let records: HashMap<u64, serde_json::Map<String, serde_json::Value>> = refresh_records(
        records,
        &list,
        checksums,
        now_ms,
        Ghost(bytes_of(dirty@)),
    );
    assert(records@.dom() =~= whole.dom());
    let ids: Vec<u64> = key_list(&records);
    let mut entries: Vec<serde_json::Value> = Vec::new();
    let ghost expected = document_of(ids@, whole)->Object_0["entries"@]->Array_0;
    let mut i: usize = 0;
    while i < ids.len()
        invariant
            i <= ids@.len(),
            ids@.to_set() == records@.dom(),
            expected.len() == ids@.len(),
            forall|j: int|
                0 <= j < ids@.len() ==> #[trigger] expected[j] == Json::Array(
                    seq![Json::Unsigned(ids@[j]), Json::Object(whole[ids@[j]])],
                ),
            entries@.len() == i,
            forall|j: int| 0 <= j < i ==> held(#[trigger] entries@[j]) == expected[j],
            forall|id: u64| #[trigger]
                records@.contains_key(id) ==> whole[id] == normalized_record(
                    fields(records@[id]),
                    default,
                ),
        decreases ids@.len() - i,
    {
        let id: u64 = ids[i];
        assert(ids@.to_set().contains(id));
        assert(records@.contains_key(id));
        match records.get(&id) {
            None => {},
            Some(record) => {
                let mut pair: Vec<serde_json::Value> = Vec::new();
                pair.push(number_value(id));
                pair.push(object_value(normalize_record(copy_map(record), default)));
                assert(all_held(pair@) =~= seq![Json::Unsigned(id), Json::Object(whole[id])]);
                entries.push(array_value(pair));
            },
        }
        i += 1;
    }
    assert(all_held(entries@) =~= expected);
    let mut map = new_map();
    put(&mut map, "entries".to_owned(), array_value(entries));
    (ids, object_value(map))
}

/// The entries of a document for the first `n` ids.
proof fn lemma_records_of_prefix(ids: Seq<u64>, records: Map<u64, Record>, n: int)
    requires
        ids.no_duplicates(),
        ids.to_set() == records.dom(),
        0 <= n <= ids.len(),
    ensures
        records_of(entries_of(document_of(ids, records)).take(n)) == records.restrict(
            ids.take(n).to_set(),
        ),
    decreases n,
{
    let entries = entries_of(document_of(ids, records));
    if n == 0 {
        assert(entries.take(0) =~= Seq::<Json>::empty());
        assert(records.restrict(ids.take(0).to_set()) =~= Map::<u64, Record>::empty());
    } else {
        lemma_records_of_prefix(ids, records, n - 1);
        let id = ids[n - 1];
        let shorter = ids.take(n - 1);
        assert(entries.take(n).drop_last() =~= entries.take(n - 1));
        assert(record_of(entries.take(n).last()) == Some((id, records[id])));
        assert(ids.take(n) =~= shorter.push(id));
        lemma_push_to_set(shorter, id);
        assert(ids.contains(id));
        assert(ids.to_set().contains(id));
        assert(records.restrict(ids.take(n).to_set()) =~= records.restrict(
            ids.take(n - 1).to_set(),
        ).insert(id, records[id]));
    }
}

/// What is written to the metadata document can be read back: whatever the
/// order of its entries, the document gives back exactly the records it was
/// made of.
pub proof fn law_records_read_back(ids: Seq<u64>, records: Map<u64, Record>)
    requires
        ids.no_duplicates(),
        ids.to_set() == records.dom(),
    ensures
        records_of(entries_of(document_of(ids, records))) == records,
{
    let entries = entries_of(document_of(ids, records));
    let n = ids.len() as int;
    lemma_records_of_prefix(ids, records, n);
    assert(entries.take(n) =~= entries);
    assert(ids.take(n) =~= ids);
    assert(records.restrict(ids.to_set()) =~= records);
}

/// Normalizing a document twice is the same as normalizing it once.
pub proof fn law_normalizing_twice_changes_nothing(
    document: Json,
    first: ChecksumAlgorithm,
    second: ChecksumAlgorithm,
)
    ensures
        normalized(normalized(document, first), second) == normalized(document, first),
{
    match document {
        Json::Object(map) => {
            if map.contains_key("entries"@) && map["entries"@] is Array {
                let entries = map["entries"@]->Array_0;
                let once = Seq::new(entries.len(), |i: int| normalized_entry(entries[i], first));
                let twice = Seq::new(once.len(), |i: int| normalized_entry(once[i], second));
                assert forall|i: int| 0 <= i < once.len() implies twice[i] == once[i] by {
                    lemma_normalized_entry_is_normal(entries[i], first, second);
                }
                assert(twice =~= once);
                assert(map.insert("entries"@, Json::Array(once)).insert(
                    "entries"@,
                    Json::Array(twice),
                ) =~= map.insert("entries"@, Json::Array(once)));
            }
        },
        _ => {},
    }
}

proof fn lemma_normalized_entry_is_normal(
    entry: Json,
    first: ChecksumAlgorithm,
    second: ChecksumAlgorithm,
)
    ensures
        normalized_entry(normalized_entry(entry, first), second) == normalized_entry(entry, first),
{
    match entry {
        Json::Array(pair) => {
            if pair.len() == 2 && pair[1] is Object {
                let record = normalized_record(pair[1]->Object_0, first);
                let kept = seq![pair[0], Json::Object(record)];
                assert(normalized_record(record, second) == record);
                assert(seq![kept[0], Json::Object(normalized_record(record, second))] =~= kept);
            }
        },
        _ => {},
    }
}

/// Normalizing drops no entry, changes no block id, and leaves every record
/// with an existing algorithm.
pub proof fn law_normalizing_keeps_entries(document: Json, default: ChecksumAlgorithm)
    ensures
        entries_of(normalized(document, default)).len() == entries_of(document).len(),
        forall|i: int|
            0 <= i < entries_of(document).len() ==> {
                &&& id_of(#[trigger] entries_of(normalized(document, default))[i]) == id_of(
                    entries_of(document)[i],
                )
                &&& match record_of(entries_of(document)[i]) {
                    Some((id, record)) => {
                        &&& record_of(entries_of(normalized(document, default))[i]) == Some(
                            (id, normalized_record(record, default)),
                        )
                        &&& valid_algo(normalized_record(record, default))
                    },
                    None => record_of(entries_of(normalized(document, default))[i]) is None,
                }
            },
{
}

/// Persisting never prunes: every block with a record keeps one, and a record
/// of a block that was not written keeps all of its fields, but for an
/// algorithm that does not exist.
pub proof fn law_persisting_never_prunes(
    records: Map<u64, Record>,
    dirty: Map<u64, Seq<u8>>,
    checksums: Map<u64, BlockChecksum>,
    now_ms: u64,
    default: ChecksumAlgorithm,
)
    ensures
        ({
            let after = persisted(records, dirty, checksums, now_ms, default);
            &&& records.dom().subset_of(after.dom())
            &&& forall|id: u64|
                #![trigger after[id]]
                records.contains_key(id) && !dirty.contains_key(id) ==> {
                    &&& after[id].remove("algo"@) == records[id].remove("algo"@)
                    &&& valid_algo(records[id]) ==> after[id] == records[id]
                }
        }),
{
    let after = persisted(records, dirty, checksums, now_ms, default);
    assert forall|id: u64| records.contains_key(id) && !dirty.contains_key(id) implies (
    #[trigger] after[id]).remove("algo"@) == records[id].remove("algo"@) by {
        assert(after[id].remove("algo"@) =~= records[id].remove("algo"@));
    }
}

/// Every record that is persisted names an existing algorithm.
pub proof fn law_persisted_algorithms_exist(
    records: Map<u64, Record>,
    dirty: Map<u64, Seq<u8>>,
    checksums: Map<u64, BlockChecksum>,
    now_ms: u64,
    default: ChecksumAlgorithm,
    id: u64,
)
    requires
        persisted(records, dirty, checksums, now_ms, default).contains_key(id),
    ensures
        valid_algo(persisted(records, dirty, checksums, now_ms, default)[id]),
{
}

/// Each time a block is written its version grows by one, as long as it can.
pub proof fn law_versions_grow(
    records: Map<u64, Record>,
    dirty: Map<u64, Seq<u8>>,
    checksums: Map<u64, BlockChecksum>,
    now_ms: u64,
    default: ChecksumAlgorithm,
    id: u64,
)
    requires
        dirty.contains_key(id),
        checksums.contains_key(id),
    ensures
        ({
            let after = persisted(records, dirty, checksums, now_ms, default);
            &&& after.contains_key(id)
            &&& after[id]["version"@] == Json::Unsigned(next_version(records, id))
            &&& next_version(records, id) < u64::MAX ==> next_version(after, id) == next_version(
                records,
                id,
            ) + 1
        }),
{
    reveal_strlit("version");
    reveal_strlit("algo");
    assert("version"@.len() != "algo"@.len());
}

/// The record of a block that is written tells what is known of the block: its
/// checksum, all of it, the algorithm with which that was computed, and the
/// time. Its version is one more than that of the record before, or one. There
/// is nothing else in it.
pub proof fn law_records_tell_the_checksum(
    records: Map<u64, Record>,
    dirty: Map<u64, Seq<u8>>,
    checksums: Map<u64, BlockChecksum>,
    now_ms: u64,
    default: ChecksumAlgorithm,
    id: u64,
)
    requires
        dirty.contains_key(id),
        checksums.contains_key(id),
    ensures
        ({
            let after = persisted(records, dirty, checksums, now_ms, default);
            let record = after[id];
            let known = records.contains_key(id) && records[id].contains_key("version"@);
            &&& after.contains_key(id)
            &&& record.dom() == set!["checksum"@, "last_modified_ms"@, "version"@, "algo"@]
            &&& record["checksum"@] == Json::Unsigned(checksums[id].checksum)
            &&& record["last_modified_ms"@] == Json::Unsigned(now_ms)
            &&& checksums[id].algo is FastHash ==> record["algo"@] == Json::Text("FastHash"@)
            &&& checksums[id].algo is CRC32 ==> record["algo"@] == Json::Text("CRC32"@)
            &&& !known ==> record["version"@] == Json::Unsigned(1)
            &&& known ==> match records[id]["version"@] {
                Json::Unsigned(before) => record["version"@] == Json::Unsigned(
                    if before < u64::MAX {
                        (before + 1) as u64
                    } else {
                        u64::MAX
                    },
                ),
                _ => record["version"@] == Json::Unsigned(1),
            }
        }),
{
    reveal_strlit("checksum");
    reveal_strlit("last_modified_ms");
    reveal_strlit("version");
    reveal_strlit("algo");
    assert("checksum"@.len() == 8);
    assert("last_modified_ms"@.len() == 16);
    assert("version"@.len() == 7);
    assert("algo"@.len() == 4);
    let record = persisted(records, dirty, checksums, now_ms, default)[id];
    assert(record.dom() =~= set!["checksum"@, "last_modified_ms"@, "version"@, "algo"@]);
}

/// A block that is not written, or of which no checksum is known, has a record
/// exactly if it had one, with the same fields. Only an algorithm that does not
/// exist gives way to the default one.
pub proof fn law_other_records_stay(
    records: Map<u64, Record>,
    dirty: Map<u64, Seq<u8>>,
    checksums: Map<u64, BlockChecksum>,
    now_ms: u64,
    default: ChecksumAlgorithm,
    id: u64,
)
    requires
        !dirty.contains_key(id) || !checksums.contains_key(id),
    ensures
        ({
            let after = persisted(records, dirty, checksums, now_ms, default);
            let named = records[id].contains_key("algo"@) && (records[id]["algo"@] == Json::Text(
                "FastHash"@,
            ) || records[id]["algo"@] == Json::Text("CRC32"@));
            &&& after.contains_key(id) == records.contains_key(id)
            &&& records.contains_key(id) && named ==> after[id] == records[id]
            &&& records.contains_key(id) && !named && default is FastHash ==> after[id]
                == records[id].insert("algo"@, Json::Text("FastHash"@))
            &&& records.contains_key(id) && !named && default is CRC32 ==> after[id]
                == records[id].insert("algo"@, Json::Text("CRC32"@))
        }),
{
}

/// Normalizing changes nothing but algorithms that do not exist: all other
/// fields of the document, all entries that are no pair of something and a
/// record, and all other fields of the records are as they were.
pub proof fn law_normalizing_changes_algorithms_only(
    map: Map<Seq<char>, Json>,
    entries: Seq<Json>,
    default: ChecksumAlgorithm,
    i: int,
)
    requires
        map.contains_key("entries"@),
        map["entries"@] == Json::Array(entries),
        0 <= i < entries.len(),
    ensures
        ({
            let after = normalized(Json::Object(map), default)->Object_0;
            let mended = after["entries"@]->Array_0;
            &&& normalized(Json::Object(map), default) is Object
            &&& after.dom() == map.dom()
            &&& forall|key: Seq<char>|
                key != "entries"@ && map.contains_key(key) ==> #[trigger] after[key] == map[key]
            &&& after["entries"@] is Array
            &&& mended.len() == entries.len()
            &&& match entries[i] {
                Json::Array(pair) => if pair.len() == 2 && pair[1] is Object {
                    let before = pair[1]->Object_0;
                    let mended_pair = mended[i]->Array_0;
                    let record = mended_pair[1]->Object_0;
                    &&& mended[i] is Array
                    &&& mended_pair.len() == 2
                    &&& mended_pair[0] == pair[0]
                    &&& mended_pair[1] is Object
                    &&& record.remove("algo"@) == before.remove("algo"@)
                    &&& record.contains_key("algo"@)
                    &&& record["algo"@] == if before.contains_key("algo"@) && (before["algo"@]
                        == Json::Text("FastHash"@) || before["algo"@] == Json::Text("CRC32"@)) {
                        before["algo"@]
                    } else if default is FastHash {
                        Json::Text("FastHash"@)
                    } else {
                        Json::Text("CRC32"@)
                    }
                } else {
                    mended[i] == entries[i]
                },
                _ => mended[i] == entries[i],
            }
        }),
{
    let after = normalized(Json::Object(map), default)->Object_0;
    assert(after.dom() =~= map.dom());
    match entries[i] {
        Json::Array(pair) => {
            if pair.len() == 2 && pair[1] is Object {
                let before = pair[1]->Object_0;
                let record = normalized_record(before, default);
                assert(record.remove("algo"@) =~= before.remove("algo"@));
            }
        },
        _ => {},
    }
}

/// A metadata text that holds an object stands for that object; every other text,
/// and none at all, stands for a document with an empty list of entries and
/// nothing besides.
pub proof fn law_unreadable_metadata_is_empty(text: Option<Seq<char>>)
    ensures
        ({
            let readable = text is Some && parsed(text->0) is Some && parsed(text->0)->0 is Object;
            &&& readable ==> loaded(text) == parsed(text->0)->0
            &&& !readable ==> {
                &&& loaded(text) is Object
                &&& loaded(text)->Object_0.dom() == set!["entries"@]
                &&& loaded(text)->Object_0["entries"@] == Json::Array(Seq::empty())
                &&& entries_of(loaded(text)).len() == 0
            }
        }),
{
    assert(empty_document()->Object_0.dom() =~= set!["entries"@]);
}

/// The records of a document are those of its entries: an entry that is a pair
/// of a block id and a record replaces an earlier one of the same block, and
/// every other entry tells no record.
pub proof fn law_later_entries_win(entries: Seq<Json>, entry: Json, id: u64)
    ensures
        ({
            let before = records_of(entries);
            let after = records_of(entries.push(entry));
            let told = entry is Array && entry->Array_0.len() == 2 && entry->Array_0[0]
                == Json::Unsigned(id) && entry->Array_0[1] is Object;
            &&& told ==> after.contains_key(id) && after[id] == entry->Array_0[1]->Object_0
            &&& !told ==> after.contains_key(id) == before.contains_key(id) && (before.contains_key(
                id,
            ) ==> after[id] == before[id])
        }),
        records_of(Seq::empty()) == Map::<u64, Record>::empty(),
{
    assert(entries.push(entry).drop_last() =~= entries);
}

/// A block id occurs in a document exactly if some entry begins with it.
pub proof fn law_ids_stand_first(entries: Seq<Json>, id: u64)
    ensures
        ids_of(entries).contains(id) <==> exists|i: int|
            0 <= i < entries.len() && (#[trigger] entries[i]) is Array && entries[i]->Array_0.len()
                > 0 && entries[i]->Array_0[0] == Json::Unsigned(id),
{
    if ids_of(entries).contains(id) {
        let i = choose|i: int|
            0 <= i < entries.len() && id_of(#[trigger] entries[i]) == Some(id);
        assert(entries[i] is Array);
    }
    if exists|i: int|
        0 <= i < entries.len() && (#[trigger] entries[i]) is Array && entries[i]->Array_0.len() > 0
            && entries[i]->Array_0[0] == Json::Unsigned(id) {
        let i = choose|i: int|
            0 <= i < entries.len() && (#[trigger] entries[i]) is Array && entries[i]->Array_0.len()
                > 0 && entries[i]->Array_0[0] == Json::Unsigned(id);
        assert(id_of(entries[i]) == Some(id));
    }
}

/// A document has one entry for each listed block, in the order of the list: a
/// pair of the block id and the record.
pub proof fn law_entries_of_a_document(ids: Seq<u64>, records: Map<u64, Record>, i: int)
    requires
        0 <= i < ids.len(),
    ensures
        ({
            let entries = entries_of(document_of(ids, records));
            &&& entries.len() == ids.len()
            &&& entries[i] is Array
            &&& entries[i]->Array_0 == seq![Json::Unsigned(ids[i]), Json::Object(records[ids[i]])]
        }),
        document_of(ids, records)->Object_0.dom() == set!["entries"@],
{
    assert(document_of(ids, records)->Object_0.dom() =~= set!["entries"@]);
}

} // verus!
