//! The collections that hold blocks: maps keyed by block id, sets of block
//! ids, and maps keyed by database name.

use crate::text::same;
use std::collections::{HashMap, HashSet};
use vstd::prelude::*;
use vstd::std_specs::iter::*;

verus! {

broadcast use vstd::std_specs::hash::group_hash_axioms;

/// The bytes of each block in a map of blocks.
pub open spec fn bytes_of(blocks: Map<u64, Vec<u8>>) -> Map<u64, Seq<u8>> {
    blocks.map_values(|data: Vec<u8>| data@)
}

/// Whether `list` holds every block of `blocks` once, in some order.
pub open spec fn lists_blocks(list: Seq<(u64, Vec<u8>)>, blocks: Map<u64, Seq<u8>>) -> bool {
    &&& forall|i: int, j: int|
        0 <= i < list.len() && 0 <= j < list.len() && i != j ==> (#[trigger] list[i]).0 != (
        #[trigger] list[j]).0
    &&& forall|i: int|
        0 <= i < list.len() ==> blocks.contains_key((#[trigger] list[i]).0) && blocks[list[i].0]
            == list[i].1@
    &&& forall|id: u64| #[trigger]
        blocks.contains_key(id) ==> exists|i: int|
            0 <= i < list.len() && (#[trigger] list[i]).0 == id
}

/// A copy of some bytes.
pub fn copy_bytes(data: &Vec<u8>) -> (copy: Vec<u8>)
    ensures
        copy@ == data@,
{
    let copy: Vec<u8> = data.clone();
    assert(copy@ =~= data@);
    copy
}

/// Whether two byte vectors hold the same bytes.
pub fn same_bytes(a: &Vec<u8>, b: &Vec<u8>) -> (r: bool)
    ensures
        r == (a@ == b@),
{
    if a.len() != b.len() {
        return false;
    }
    let mut i: usize = 0;
    while i < a.len()
        invariant
            i <= a@.len(),
            a@.len() == b@.len(),
            forall|j: int| 0 <= j < i ==> a@[j] == b@[j],
        decreases a@.len() - i,
    {
        if a[i] != b[i] {
            return false;
        }
        i += 1;
    }
    assert(a@ =~= b@);
    true
}

/// The blocks of a map, each with a copy of its bytes, in some order.
pub fn block_list(blocks: &HashMap<u64, Vec<u8>>) -> (list: Vec<(u64, Vec<u8>)>)
    ensures
        lists_blocks(list@, bytes_of(blocks@)),
        list@.len() == blocks@.dom().len(),
{
    let mut list: Vec<(u64, Vec<u8>)> = Vec::new();
    let iter = blocks.iter();
    let ghost pairs = IteratorSpec::remaining(&iter);
    assert(pairs.no_duplicates());
    for entry in it: iter
        invariant
            it.seq() == pairs,
            pairs.no_duplicates(),
            pairs == IteratorSpec::remaining(&vstd::std_specs::hash::spec_hash_map_iter(blocks)),
            list@.len() == it.index(),
            forall|i: int|
                0 <= i < list@.len() ==> (#[trigger] list@[i]).0 == *pairs[i].0 && list@[i].1@
                    == pairs[i].1@,
    {
        list.push((*entry.0, copy_bytes(entry.1)));
    }
    proof {
        assert forall|i: int|
            0 <= i < list@.len() implies bytes_of(blocks@).contains_key((#[trigger] list@[i]).0)
            && bytes_of(blocks@)[list@[i].0] == list@[i].1@ by {
            assert(blocks@.contains_key(*pairs[i].0));
            assert(blocks@[*pairs[i].0] == *pairs[i].1);
        }
        assert forall|i: int, j: int|
            0 <= i < list@.len() && 0 <= j < list@.len() && i != j implies (#[trigger] list@[i]).0
            != (#[trigger] list@[j]).0 by {
            assert(blocks@[*pairs[i].0] == *pairs[i].1);
            assert(blocks@[*pairs[j].0] == *pairs[j].1);
            assert(pairs[i] != pairs[j]);
        }
        assert forall|id: u64| #[trigger] bytes_of(blocks@).contains_key(id) implies exists|i: int|
            0 <= i < list@.len() && (#[trigger] list@[i]).0 == id by {
            assert(blocks@.contains_key(id));
            assert(pairs.contains((&id, &blocks@[id])));
            let i = choose|i: int| 0 <= i < pairs.len() && pairs[i] == (&id, &blocks@[id]);
            assert(list@[i].0 == id);
        }
    }
    list
}

/// The ids of a map, each once, in some order.
pub fn key_list<V>(map: &HashMap<u64, V>) -> (ids: Vec<u64>)
    ensures
        ids@.no_duplicates(),
        ids@.to_set() == map@.dom(),
{
    let mut ids: Vec<u64> = Vec::new();
    let iter = map.keys();
    let ghost found = IteratorSpec::remaining(&iter);
    assert(found.unref().to_set() == map@.dom());
    for id in it: iter
        invariant
            it.seq() == found,
            ids@ == found.unref().take(it.index() as int),
    {
        ids.push(*id);
        assert(ids@ =~= found.unref().take(it.index() as int + 1));
    }
    assert(ids@ =~= found.unref());
    ids
}

/// The ids of a list as a set.
pub fn set_of(ids: &Vec<u64>) -> (set: HashSet<u64>)
    ensures
        set@ == ids@.to_set(),
{
    let mut set: HashSet<u64> = HashSet::new();
    let mut i: usize = 0;
    assert(set@ =~= ids@.take(0).to_set());
    while i < ids.len()
        invariant
            i <= ids@.len(),
            set@ == ids@.take(i as int).to_set(),
        decreases ids@.len() - i,
    {
        set.insert(ids[i]);
        proof {
            lemma_push_to_set(ids@.take(i as int), ids@[i as int]);
            assert(ids@.take(i as int + 1) =~= ids@.take(i as int).push(ids@[i as int]));
        }
        i += 1;
    }
    assert(ids@.take(ids@.len() as int) =~= ids@);
    set
}

/// Whether `ids` ascends strictly.
pub open spec fn ascending(ids: Seq<u64>) -> bool {
    forall|i: int, j: int| 0 <= i < j < ids.len() ==> ids[i] < ids[j]
}

/// Puts `id` into its place among ascending ids.
fn insert_id(ids: &mut Vec<u64>, id: u64)
    requires
        ascending(old(ids)@),
        !old(ids)@.contains(id),
    ensures
        ascending(final(ids)@),
        final(ids)@.to_set() == old(ids)@.to_set().insert(id),
        final(ids)@.len() == old(ids)@.len() + 1,
{
    let mut at: usize = 0;
    while at < ids.len() && ids[at] < id
        invariant
            at <= ids@.len(),
            ids@ == old(ids)@,
            forall|j: int| 0 <= j < at ==> ids@[j] < id,
        decreases ids@.len() - at,
    {
        at += 1;
    }
    let ghost before = ids@;
    if at < ids.len() {
        assert(before.contains(ids@[at as int]));
    }
    ids.insert(at, id);
    proof {
        let after = ids@;
        assert(after =~= before.insert(at as int, id));
        assert forall|i: int, j: int| 0 <= i < j < after.len() implies after[i] < after[j] by {
            assert(at < before.len() ==> id < before[at as int]);
            if j > at {
                assert(before[at as int] <= before[j - 1]);
            }
        }
        assert(after.to_set() =~= before.to_set().insert(id)) by {
            assert forall|x: u64| after.contains(x) <==> (before.contains(x) || x == id) by {
                if before.contains(x) {
                    let i = choose|i: int| 0 <= i < before.len() && before[i] == x;
                    assert(after[if i < at { i } else { i + 1 }] == x);
                }
                if after.contains(x) {
                    let i = choose|i: int| 0 <= i < after.len() && after[i] == x;
                    if i < at {
                        assert(before[i] == x);
                    } else if i > at {
                        assert(before[i - 1] == x);
                    }
                }
                assert(after[at as int] == id);
            }
        }
    }
}

/// Appending an id adds it to the ids that a sequence holds.
pub proof fn lemma_push_to_set(ids: Seq<u64>, id: u64)
    ensures
        ids.push(id).to_set() == ids.to_set().insert(id),
{
    let longer = ids.push(id);
    assert forall|x: u64| #[trigger]
        longer.to_set().contains(x) <==> ids.to_set().insert(id).contains(x) by {
        if ids.contains(x) {
            let i = choose|i: int| 0 <= i < ids.len() && ids[i] == x;
            assert(longer[i] == x);
        }
        if longer.contains(x) {
            let i = choose|i: int| 0 <= i < longer.len() && longer[i] == x;
            if i < ids.len() {
                assert(ids[i] == x);
            }
        }
        assert(longer[ids.len() as int] == id);
    }
    assert(longer.to_set() =~= ids.to_set().insert(id));
}

/// The ids of a set, in ascending order.
pub fn sorted_ids(set: &HashSet<u64>) -> (ids: Vec<u64>)
    ensures
        ascending(ids@),
        ids@.to_set() == set@,
{
    let mut ids: Vec<u64> = Vec::new();
    let iter = set.iter();
    let ghost found = IteratorSpec::remaining(&iter);
    assert(found.unref().to_set() == set@);
    assert(found.no_duplicates());
    assert(ids@.to_set() =~= found.unref().take(0).to_set());
    for id in it: iter
        invariant
            it.seq() == found,
            found.no_duplicates(),
            ascending(ids@),
            ids@.to_set() == found.unref().take(it.index() as int).to_set(),
    {
        proof {
            let n = it.index() as int;
            let seen = found.unref().take(n);
            assert(!ids@.contains(*id)) by {
                if ids@.contains(*id) {
                    assert(ids@.to_set().contains(*id));
                    assert(seen.contains(*id));
                    let i = choose|i: int| 0 <= i < seen.len() && seen[i] == *id;
                    assert(found[i] == found[n]);
                }
            }
            assert(found.unref().take(n + 1) =~= seen.push(*id));
            lemma_push_to_set(seen, *id);
        }
        insert_id(&mut ids, *id);
    }
    assert(found.unref().take(found.len() as int) =~= found.unref());
    ids
}

/// Values kept under database names.
pub struct NameMap<V> {
    entries: Vec<(String, V)>,
}

impl<V> NameMap<V> {
    /// No name occurs twice.
    pub closed spec fn wf(&self) -> bool {
        forall|i: int, j: int|
            0 <= i < self.entries@.len() && 0 <= j < self.entries@.len() && i != j ==> (
            #[trigger] self.entries@[i]).0@ != (#[trigger] self.entries@[j]).0@
    }

    spec fn at(&self, name: Seq<char>, i: int) -> bool {
        0 <= i < self.entries@.len() && self.entries@[i].0@ == name
    }

    /// The value under each name.
    pub closed spec fn view(&self) -> Map<Seq<char>, V> {
        Map::new(
            |name: Seq<char>| exists|i: int| self.at(name, i),
            |name: Seq<char>| self.entries@[choose|i: int| self.at(name, i)].1,
        )
    }

    proof fn lemma_entry(&self, i: int)
        requires
            self.wf(),
            0 <= i < self.entries@.len(),
        ensures
            self@.contains_key(self.entries@[i].0@),
            self@[self.entries@[i].0@] == self.entries@[i].1,
    {
        assert(self.at(self.entries@[i].0@, i));
    }

    /// No names.
    pub fn new() -> (r: Self)
        ensures
            r.wf(),
            r@ == Map::<Seq<char>, V>::empty(),
    {
        let r = NameMap { entries: Vec::new() };
        assert forall|name: Seq<char>| !(#[trigger] r@.contains_key(name)) by {
            assert(forall|i: int| !r.at(name, i));
        }
        assert(r@ =~= Map::<Seq<char>, V>::empty());
        r
    }

    fn position(&self, name: &str) -> (r: Option<usize>)
        ensures
            match r {
                Some(i) => self.at(name@, i as int),
                None => forall|i: int| !self.at(name@, i),
            },
    {
        let mut i: usize = 0;
        while i < self.entries.len()
            invariant
                i <= self.entries@.len(),
                forall|j: int| 0 <= j < i ==> !self.at(name@, j),
            decreases self.entries@.len() - i,
        {
            if same(self.entries[i].0.as_str(), name) {
                return Some(i);
            }
            i += 1;
        }
        None
    }

    /// The value under `name`.
    pub fn get(&self, name: &str) -> (r: Option<&V>)
        requires
            self.wf(),
        ensures
            r is Some <==> self@.contains_key(name@),
            r matches Some(v) ==> *v == self@[name@],
    {
        match self.position(name) {
            Some(i) => {
                proof {
                    self.lemma_entry(i as int);
                }
                Some(&self.entries[i].1)
            },
            None => None,
        }
    }

    /// Puts `value` under `name`, in place of what stood there before.
    pub fn set(&mut self, name: &str, value: V)
        requires
            old(self).wf(),
        ensures
            final(self).wf(),
            final(self)@ == old(self)@.insert(name@, value),
    {
        let ghost before = *self;
        match self.position(name) {
            Some(i) => {
                self.entries.set(i, (name.to_owned(), value));
                proof {
                    assert(self.entries@ =~= before.entries@.update(i as int, self.entries@[i as int]));
                    assert forall|n: Seq<char>| #[trigger] self@.contains_key(n) == before@.insert(
                        name@,
                        value,
                    ).contains_key(n) by {
                        assert(self.at(name@, i as int));
                        if self@.contains_key(n) {
                            let j = choose|j: int| self.at(n, j);
                            assert(before.at(n, j));
                        }
                        if before@.contains_key(n) {
                            let j = choose|j: int| before.at(n, j);
                            assert(self.at(n, j));
                        }
                    }
                }
            },
            None => {
                self.entries.push((name.to_owned(), value));
                proof {
                    let k = before.entries@.len() as int;
                    assert forall|i: int| 0 <= i < k implies (#[trigger] before.entries@[i]).0@
                        != name@ by {
                        assert(!before.at(name@, i));
                    }
                    assert forall|n: Seq<char>| #[trigger] self@.contains_key(n) == before@.insert(
                        name@,
                        value,
                    ).contains_key(n) by {
                        assert(self.at(name@, k));
                        if self@.contains_key(n) {
                            let j = choose|j: int| self.at(n, j);
                            if j < k {
                                assert(before.at(n, j));
                            }
                        }
                        if before@.contains_key(n) {
                            let j = choose|j: int| before.at(n, j);
                            assert(self.at(n, j));
                        }
                    }
                }
            },
        }
        proof {
            assert forall|n: Seq<char>| #[trigger] self@.contains_key(n) implies self@[n]
                == before@.insert(name@, value)[n] by {
                let j = choose|j: int| self.at(n, j);
                self.lemma_entry(j);
                if n != name@ {
                    before.lemma_entry(j);
                }
            }
            assert(self@ =~= before@.insert(name@, value));
        }
    }

    /// Removes the value under `name`.
    pub fn remove(&mut self, name: &str) -> (r: Option<V>)
        requires
            old(self).wf(),
        ensures
            final(self).wf(),
            final(self)@ == old(self)@.remove(name@),
            r is Some <==> old(self)@.contains_key(name@),
            r matches Some(v) ==> v == old(self)@[name@],
    {
        let ghost before = *self;
        match self.position(name) {
            Some(i) => {
                let entry: (String, V) = self.entries.remove(i);
                proof {
                    before.lemma_entry(i as int);
                    assert(self.entries@ =~= before.entries@.remove(i as int));
                    assert forall|a: int, b: int|
                        0 <= a < self.entries@.len() && 0 <= b < self.entries@.len() && a
                            != b implies (#[trigger] self.entries@[a]).0@ != (
                    #[trigger] self.entries@[b]).0@ by {
                        let a2 = if a < i {
                            a
                        } else {
                            a + 1
                        };
                        let b2 = if b < i {
                            b
                        } else {
                            b + 1
                        };
                        assert(before.entries@[a2].0@ != before.entries@[b2].0@);
                    }
                    assert forall|n: Seq<char>| #[trigger] self@.contains_key(n) == before@.remove(
                        name@,
                    ).contains_key(n) by {
                        if self@.contains_key(n) {
                            let j = choose|j: int| self.at(n, j);
                            let j2 = if j < i {
                                j
                            } else {
                                j + 1
                            };
                            assert(before.at(n, j2));
                            assert(before.entries@[j2].0@ != before.entries@[i as int].0@);
                        }
                        if before@.remove(name@).contains_key(n) {
                            let j = choose|j: int| before.at(n, j);
                            let j2 = if j < i {
                                j
                            } else {
                                j - 1
                            };
                            assert(self.at(n, j2));
                        }
                    }
                    assert forall|n: Seq<char>| #[trigger] self@.contains_key(n) implies self@[n]
                        == before@.remove(name@)[n] by {
                        let j = choose|j: int| self.at(n, j);
                        self.lemma_entry(j);
                        let j2 = if j < i {
                            j
                        } else {
                            j + 1
                        };
                        before.lemma_entry(j2);
                    }
                    assert(self@ =~= before@.remove(name@));
                }
                Some(entry.1)
            },
            None => {
                assert(self@ =~= before@.remove(name@));
                None
            },
        }
    }

    /// Every name, once, in some order.
    pub fn names(&self) -> (r: Vec<String>)
        requires
            self.wf(),
        ensures
            forall|i: int, j: int|
                0 <= i < r@.len() && 0 <= j < r@.len() && i != j ==> (#[trigger] r@[i])@ != (
                #[trigger] r@[j])@,
            forall|i: int| 0 <= i < r@.len() ==> self@.contains_key((#[trigger] r@[i])@),
            forall|n: Seq<char>| #[trigger]
                self@.contains_key(n) ==> exists|i: int|
                    0 <= i < r@.len() && (#[trigger] r@[i])@ == n,
    {
        let mut r: Vec<String> = Vec::new();
        let mut i: usize = 0;
        while i < self.entries.len()
            invariant
                self.wf(),
                i <= self.entries@.len(),
                r@.len() == i,
                forall|j: int| 0 <= j < i ==> (#[trigger] r@[j])@ == self.entries@[j].0@,
            decreases self.entries@.len() - i,
        {
            r.push(self.entries[i].0.clone());
            i += 1;
        }
        proof {
            assert forall|j: int| 0 <= j < r@.len() implies self@.contains_key((#[trigger] r@[j])@) by {
                self.lemma_entry(j);
            }
            assert forall|n: Seq<char>| #[trigger] self@.contains_key(n) implies exists|j: int|
                0 <= j < r@.len() && (#[trigger] r@[j])@ == n by {
                let j = choose|j: int| self.at(n, j);
                assert(r@[j]@ == n);
            }
        }
        r
    }
}

/// A list of blocks has every block with its bytes, once, and no other; and
/// ascending ids are in order, none twice.
pub proof fn law_listed_blocks(
    list: Seq<(u64, Vec<u8>)>,
    blocks: Map<u64, Vec<u8>>,
    ids: Seq<u64>,
    id: u64,
)
    requires
        lists_blocks(list, bytes_of(blocks)),
    ensures
        blocks.contains_key(id) <==> exists|i: int|
            0 <= i < list.len() && (#[trigger] list[i]).0 == id,
        forall|i: int|
            0 <= i < list.len() ==> (#[trigger] list[i]).1@ == blocks[list[i].0]@,
        forall|i: int, j: int|
            0 <= i < j < list.len() ==> (#[trigger] list[i]).0 != (#[trigger] list[j]).0,
        ascending(ids) <==> forall|i: int, j: int| 0 <= i < j < ids.len() ==> ids[i] < ids[j],
{
    assert(bytes_of(blocks).contains_key(id) == blocks.contains_key(id));
}

} // verus!
