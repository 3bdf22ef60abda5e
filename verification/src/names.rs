//! The names under which a database is known to SQLite, to the connection pool
//! and to the browser's storage.

use crate::numbers::{decimal, is_digit, law_decimal_reads_back, lemma_decimal_digits, to_decimal};
use crate::text::{concat, concat3, ends_with, trim_end_matches, without_trailing};
use vstd::prelude::*;

verus! {

/// The name of a database, with the extension `.db`.
pub open spec fn normalized_name(name: Seq<char>) -> Seq<char> {
    if ".db"@.is_suffix_of(name) {
        name
    } else {
        name + ".db"@
    }
}

/// The name of a database without any extension `.db` at its end.
pub open spec fn bare_name(name: Seq<char>) -> Seq<char> {
    without_trailing(name, ".db"@)
}

/// The key of a block in IndexedDB.
pub open spec fn key_of_block(name: Seq<char>, id: u64) -> Seq<char> {
    name + "_"@ + decimal(id as nat)
}

/// The name of a database, with the extension `.db`.
pub fn normalize_db_name(name: &str) -> (normalized: String)
    ensures
        normalized@ == normalized_name(name@),
{
    if ends_with(name, ".db") {
        name.to_owned()
    } else {
        concat(name, ".db")
    }
}

/// The name under which the connections of a database are pooled.
pub fn pool_key(name: &str) -> (key: String)
    ensures
        key@ == bare_name(name@),
{
    trim_end_matches(name, ".db")
}

/// The name of the virtual file system of a database.
pub fn vfs_name(name: &str) -> (vfs: String)
    ensures
        vfs@ == "vfs_"@ + bare_name(name@),
{
    let bare: String = trim_end_matches(name, ".db");
    concat("vfs_", bare.as_str())
}

/// The name of the IndexedDB database that is deleted with a database.
pub fn indexeddb_name(name: &str) -> (idb: String)
    ensures
        idb@ == "absurder_"@ + name@,
{
    concat("absurder_", name)
}

/// The key of a block in IndexedDB.
pub fn block_key(name: &str, id: u64) -> (key: String)
    ensures
        key@ == key_of_block(name@, id),
{
    let numeral: String = to_decimal(id);
    concat3(name, "_", numeral.as_str())
}

/// The key of the commit marker of a database in IndexedDB.
pub fn commit_marker_key(name: &str) -> (key: String)
    ensures
        key@ == name@ + "_commit_marker"@,
{
    concat(name, "_commit_marker")
}

/// The lock that serializes the lock test of a database.
pub fn test_lock_name(name: &str) -> (lock: String)
    ensures
        lock@ == name@ + ".lock_test"@,
{
    concat(name, ".lock_test")
}

/// A normalized name has the extension, and normalizing it again changes
/// nothing.
pub proof fn law_normalizing_once_is_enough(name: Seq<char>)
    ensures
        ".db"@.is_suffix_of(normalized_name(name)),
        normalized_name(normalized_name(name)) == normalized_name(name),
{
    let longer = name + ".db"@;
    assert(longer.skip(longer.len() - ".db"@.len()) =~= ".db"@);
}

/// With or without the extension, a name stands for the same pooled
/// connections and the same virtual file system.
pub proof fn law_extension_does_not_matter(name: Seq<char>)
    ensures
        bare_name(normalized_name(name)) == bare_name(name),
{
    reveal_strlit(".db");
    let longer = name + ".db"@;
    assert(longer.skip(longer.len() - ".db"@.len()) =~= ".db"@);
    assert(longer.take(longer.len() - ".db"@.len()) =~= name);
    assert(".db"@.is_suffix_of(longer));
}

/// Two blocks share a key in IndexedDB only if they are the same block of the
/// same database.
pub proof fn law_block_keys_are_unique(a: Seq<char>, a_id: u64, b: Seq<char>, b_id: u64)
    requires
        key_of_block(a, a_id) == key_of_block(b, b_id),
    ensures
        a == b,
        a_id == b_id,
{
    reveal_strlit("_");
    let a_digits = decimal(a_id as nat);
    let b_digits = decimal(b_id as nat);
    lemma_decimal_digits(a_id as nat);
    lemma_decimal_digits(b_id as nat);
    let key = key_of_block(a, a_id);
    assert(key.len() == a.len() + 1 + a_digits.len());
    assert(key.len() == b.len() + 1 + b_digits.len());
    assert(key[a.len() as int] == '_');
    assert(key[b.len() as int] == key_of_block(b, b_id)[b.len() as int]);
    assert(key[b.len() as int] == '_');
    assert(!is_digit('_'));
    if a.len() < b.len() {
        assert(key[b.len() as int] == a_digits[b.len() - a.len() - 1]);
        assert(is_digit(a_digits[b.len() - a.len() - 1]));
    }
    if b.len() < a.len() {
        assert(key_of_block(b, b_id)[a.len() as int] == b_digits[a.len() - b.len() - 1]);
        assert(is_digit(b_digits[a.len() - b.len() - 1]));
    }
    assert(a =~= key.take(a.len() as int));
    assert(b =~= key_of_block(b, b_id).take(b.len() as int));
    assert(a_digits =~= key.skip(a.len() as int + 1));
    assert(b_digits =~= key_of_block(b, b_id).skip(b.len() as int + 1));
    law_decimal_reads_back(a_id);
    law_decimal_reads_back(b_id);
}

/// A name that ends in `.db` stays as it is, and every other name gets that
/// ending and nothing else. Names that differ otherwise stay different.
pub proof fn law_normalized_names(a: Seq<char>, b: Seq<char>)
    ensures
        ".db"@.is_suffix_of(a) ==> normalized_name(a) == a,
        !".db"@.is_suffix_of(a) ==> normalized_name(a) == a + ".db"@,
        normalized_name(a) == normalized_name(b) && ".db"@.is_suffix_of(a) == ".db"@.is_suffix_of(
            b,
        ) ==> a == b,
{
    if normalized_name(a) == normalized_name(b) && !".db"@.is_suffix_of(a)
        && !".db"@.is_suffix_of(b) {
        assert((a + ".db"@).take(a.len() as int) =~= a);
        assert((b + ".db"@).take(b.len() as int) =~= b);
    }
}

/// A bare name has no `.db` at its end, and is the name itself where that has
/// none; one `.db` more or less at the end of a name does not change it.
pub proof fn law_bare_names(name: Seq<char>)
    ensures
        !".db"@.is_suffix_of(bare_name(name)),
        !".db"@.is_suffix_of(name) ==> bare_name(name) == name,
        bare_name(name + ".db"@) == bare_name(name),
{
    reveal_strlit(".db");
    crate::text::law_endings_are_removed(name, ".db"@);
}

/// The key of a block is the name of its database and its id, with a `_` between
/// them, and the id can be read off it.
pub proof fn law_block_keys_tell_the_block(name: Seq<char>, id: u64)
    ensures
        ({
            let key = key_of_block(name, id);
            let n = name.len() as int;
            &&& key.take(n) == name
            &&& key[n] == '_'
            &&& crate::numbers::parsed_u64(key.skip(n + 1)) == Some(id)
            &&& key.skip(n + 1) == decimal(id as nat)
        }),
{
    reveal_strlit("_");
    let key = key_of_block(name, id);
    let n = name.len() as int;
    assert(key.take(n) =~= name);
    assert(key.skip(n + 1) =~= decimal(id as nat));
    law_decimal_reads_back(id);
}

} // verus!
