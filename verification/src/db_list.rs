//! The list of known databases: what is kept of it in the browser's local
//! storage, and what is shown to callers.

use crate::text::{chars_of, same};
use crate::types::all_texts;
use vstd::prelude::*;

verus! {

/// Whether `a` comes before `b`, or is the same text: by the first character in
/// which they differ, and a prefix before what it is a prefix of.
pub open spec fn in_order(a: Seq<char>, b: Seq<char>) -> bool
    decreases a.len(),
{
    if a.len() == 0 {
        true
    } else if b.len() == 0 {
        false
    } else if a[0] == b[0] {
        in_order(a.skip(1), b.skip(1))
    } else {
        a[0] < b[0]
    }
}

/// Whether texts are in ascending order.
pub open spec fn sorted(texts: Seq<Seq<char>>) -> bool {
    forall|i: int, j: int|
        0 <= i < j < texts.len() ==> in_order(#[trigger] texts[i], #[trigger] texts[j])
}

proof fn lemma_order_is_total(a: Seq<char>, b: Seq<char>)
    ensures
        in_order(a, b) || in_order(b, a),
    decreases a.len(),
{
    if a.len() > 0 && b.len() > 0 && a[0] == b[0] {
        lemma_order_is_total(a.skip(1), b.skip(1));
    }
}

proof fn lemma_order_is_transitive(a: Seq<char>, b: Seq<char>, c: Seq<char>)
    requires
        in_order(a, b),
        in_order(b, c),
    ensures
        in_order(a, c),
    decreases a.len(),
{
    if a.len() > 0 && b.len() > 0 && c.len() > 0 && a[0] == b[0] && b[0] == c[0] {
        lemma_order_is_transitive(a.skip(1), b.skip(1), c.skip(1));
    }
}

proof fn lemma_order_is_antisymmetric(a: Seq<char>, b: Seq<char>)
    requires
        in_order(a, b),
        in_order(b, a),
    ensures
        a == b,
    decreases a.len(),
{
    if a.len() > 0 && b.len() > 0 {
        lemma_order_is_antisymmetric(a.skip(1), b.skip(1));
        assert(a =~= seq![a[0]] + a.skip(1));
        assert(b =~= seq![b[0]] + b.skip(1));
    } else {
        assert(a =~= b);
    }
}

/// Whether `a` comes before `b`, or is the same text.
fn is_in_order(a: &str, b: &str) -> (r: bool)
    ensures
        r == in_order(a@, b@),
{
    let left: Vec<char> = chars_of(a);
    let right: Vec<char> = chars_of(b);
    let mut i: usize = 0;
    assert(left@.skip(0) =~= left@);
    assert(right@.skip(0) =~= right@);
    while i < left.len() && i < right.len()
        invariant
            i <= left@.len(),
            i <= right@.len(),
            left@ == a@,
            right@ == b@,
            in_order(left@.skip(i as int), right@.skip(i as int)) == in_order(a@, b@),
        decreases left@.len() - i,
    {
        assert(left@.skip(i as int)[0] == left@[i as int]);
        assert(right@.skip(i as int)[0] == right@[i as int]);
        let l: char = left[i];
        let r: char = right[i];
        if l != r {
            return l < r;
        }
        assert(left@.skip(i as int).skip(1) =~= left@.skip(i as int + 1));
        assert(right@.skip(i as int).skip(1) =~= right@.skip(i as int + 1));
        i += 1;
    }
    i == left.len()
}

/// Whether a name is in a list.
pub fn has_name(list: &Vec<String>, name: &str) -> (r: bool)
    ensures
        r == all_texts(list@).contains(name@),
{
    let mut i: usize = 0;
    while i < list.len()
        invariant
            i <= list@.len(),
            forall|j: int| 0 <= j < i ==> all_texts(list@)[j] != name@,
        decreases list@.len() - i,
    {
        if same(list[i].as_str(), name) {
            assert(all_texts(list@)[i as int] == name@);
            return true;
        }
        i += 1;
    }
    false
}

/// Puts a name into its place in a sorted list.
fn insert_name(list: &mut Vec<String>, name: &str)
    requires
        sorted(all_texts(old(list)@)),
    ensures
        sorted(all_texts(final(list)@)),
        exists|at: int|
            0 <= at <= old(list)@.len() && all_texts(final(list)@) == #[trigger] all_texts(
                old(list)@,
            ).insert(at, name@),
{
    let ghost before = all_texts(list@);
    let mut at: usize = 0;
    while at < list.len() && is_in_order(list[at].as_str(), name)
        invariant
            at <= list@.len(),
            list@ == old(list)@,
            before == all_texts(list@),
            forall|j: int| 0 <= j < at ==> in_order(#[trigger] before[j], name@),
        decreases list@.len() - at,
    {
        assert(before[at as int] == list@[at as int]@);
        at += 1;
    }
    proof {
        if at < list@.len() {
            assert(before[at as int] == list@[at as int]@);
            lemma_order_is_total(before[at as int], name@);
        }
    }
    list.insert(at, name.to_owned());
    proof {
        let after = all_texts(list@);
        assert(after =~= before.insert(at as int, name@));
        assert forall|i: int, j: int| 0 <= i < j < after.len() implies in_order(
            #[trigger] after[i],
            #[trigger] after[j],
        ) by {
            if i == at {
                assert(after[j] == before[j - 1]);
                if j - 1 > at {
                    assert(in_order(before[at as int], before[j - 1]));
                    lemma_order_is_transitive(name@, before[at as int], before[j - 1]);
                }
            } else if j == at {
                assert(after[i] == before[i]);
            } else {
                let i2 = if i < at { i } else { i - 1 };
                let j2 = if j < at { j } else { j - 1 };
                assert(in_order(before[i2], before[j2]));
            }
        }
    }
}

proof fn lemma_insert_is_push(texts: Seq<Seq<char>>, at: int, text: Seq<char>)
    requires
        0 <= at <= texts.len(),
    ensures
        texts.insert(at, text).to_multiset() == texts.push(text).to_multiset(),
{
    broadcast use vstd::seq_lib::group_to_multiset_ensures;

    let longer = texts.insert(at, text);
    assert(longer.remove(at) =~= texts);
    assert(longer[at] == text);
    assert(longer.contains(text));
    assert(longer.to_multiset().count(text) > 0);
    assert(longer.to_multiset() =~= longer.to_multiset().remove(text).insert(text));
}

/// The same names in ascending order.
pub fn sort_names(list: &Vec<String>) -> (r: Vec<String>)
    ensures
        sorted(all_texts(r@)),
        all_texts(r@).to_multiset() == all_texts(list@).to_multiset(),
{
    let mut r: Vec<String> = Vec::new();
    let ghost all = all_texts(list@);
    let mut i: usize = 0;
    assert(all_texts(r@) =~= all.take(0));
    while i < list.len()
        invariant
            i <= list@.len(),
            all == all_texts(list@),
            sorted(all_texts(r@)),
            all_texts(r@).to_multiset() == all.take(i as int).to_multiset(),
        decreases list@.len() - i,
    {
        let ghost before = all_texts(r@);
        let ghost name = list@[i as int]@;
        insert_name(&mut r, list[i].as_str());
        proof {
            broadcast use vstd::seq_lib::group_to_multiset_ensures;

            let at = choose|at: int|
                0 <= at <= before.len() && all_texts(r@) == #[trigger] before.insert(at, name);
            lemma_insert_is_push(before, at, name);
            assert(all.take(i as int + 1) =~= all.take(i as int).push(name));
        }
        i += 1;
    }
    assert(all.take(all.len() as int) =~= all);
    r
}

/// The names that `serde_json::from_str` reads off a text.
pub uninterp spec fn parsed_names(text: Seq<char>) -> Option<Seq<Seq<char>>>;

/// The text that `serde_json::to_string` prints for a list of names.
pub uninterp spec fn printed_names(names: Seq<Seq<char>>) -> Seq<char>;

/// `serde_json::from_str::<Vec<String>>`: the names that `text` holds, or an
/// error where `text` is not a JSON array of strings.
#[verifier::external_body]
pub(crate) fn parse_names(text: &str) -> (r: Result<Vec<String>, serde_json::Error>)
    ensures
        r is Ok <==> parsed_names(text@) is Some,
        r matches Ok(names) ==> parsed_names(text@) == Some(all_texts(names@)),
{
    serde_json::from_str::<Vec<String>>(text)
}

/// `serde_json::to_string` on a list of strings, which it always prints: the
/// text depends on the names alone, and `serde_json::from_str` reads the same
/// names back off it.
#[verifier::external_body]
pub(crate) fn print_names(names: &Vec<String>) -> (r: Result<String, serde_json::Error>)
    ensures
        r is Ok,
        r matches Ok(text) ==> text@ == printed_names(all_texts(names@)),
        r matches Ok(text) ==> parsed_names(text@) == Some(all_texts(names@)),
{
    serde_json::to_string(names)
}

/// The names in the stored list. Where there is no list, or it cannot be read,
/// there are none.
pub open spec fn stored_names(stored: Option<Seq<char>>) -> Seq<Seq<char>> {
    match stored {
        Some(text) => match parsed_names(text) {
            Some(names) => names,
            None => Seq::empty(),
        },
        None => Seq::empty(),
    }
}

/// The characters of a text that may be missing.
pub open spec fn chars_in(text: Option<&str>) -> Option<Seq<char>> {
    match text {
        Some(text) => Some(text@),
        None => None,
    }
}

/// The names in the stored list.
pub fn get_persistent_database_list(stored: Option<&str>) -> (names: Vec<String>)
    ensures
        all_texts(names@) == stored_names(chars_in(stored)),
{
    let names: Vec<String> = match stored {
        Some(text) => match parse_names(text) {
            Ok(names) => names,
            Err(_) => Vec::new(),
        },
        None => Vec::new(),
    };
    assert(all_texts(names@) =~= stored_names(chars_in(stored)));
    names
}

/// The list with a name added, in ascending order, unless the name is in it.
pub fn add_name(list: Vec<String>, name: &str) -> (r: Option<Vec<String>>)
    ensures
        r is None <==> all_texts(list@).contains(name@),
        r matches Some(longer) ==> sorted(all_texts(longer@)) && all_texts(longer@).to_multiset()
            == all_texts(list@).push(name@).to_multiset(),
{
    if has_name(&list, name) {
        return None;
    }
    let ghost before = all_texts(list@);
    let mut longer: Vec<String> = list;
    longer.push(name.to_owned());
    assert(all_texts(longer@) =~= before.push(name@));
    Some(sort_names(&longer))
}

/// The list without a name.
pub fn remove_name(list: &Vec<String>, name: &str) -> (r: Vec<String>)
    ensures
        all_texts(r@) == all_texts(list@).filter(|other: Seq<char>| other != name@),
{
    let mut r: Vec<String> = Vec::new();
    let ghost all = all_texts(list@);
    let ghost keep = |other: Seq<char>| other != name@;
    let mut i: usize = 0;
    assert(all_texts(r@) =~= all.take(0).filter(keep)) by {
        reveal(Seq::filter);
    }
    while i < list.len()
        invariant
            i <= list@.len(),
            all == all_texts(list@),
            keep == (|other: Seq<char>| other != name@),
            all_texts(r@) == all.take(i as int).filter(keep),
        decreases list@.len() - i,
    {
        let ghost before = all_texts(r@);
        proof {
            assert(all.take(i as int + 1).drop_last() =~= all.take(i as int));
            assert(all.take(i as int + 1).last() == list@[i as int]@);
            reveal(Seq::filter);
        }
        if !same(list[i].as_str(), name) {
            r.push(list[i].clone());
            assert(all_texts(r@) =~= before.push(list@[i as int]@));
        }
        i += 1;
    }
    assert(all.take(all.len() as int) =~= all);
    r
}

/// Adds a name to the stored list: gives the text to store, unless the name is
/// in the list already.
pub fn add_database_to_persistent_list(stored: Option<&str>, name: &str) -> (r: Option<String>)
    ensures
        r is None <==> stored_names(chars_in(stored)).contains(name@),
        r matches Some(text) ==> {
            let names = stored_names(Some(text@));
            &&& text@ == printed_names(names)
            &&& sorted(names)
            &&& names.to_multiset() == stored_names(chars_in(stored)).push(name@).to_multiset()
        },
{
    let list: Vec<String> = get_persistent_database_list(stored);
    match add_name(list, name) {
        None => None,
        Some(longer) => match print_names(&longer) {
            Ok(text) => Some(text),
            Err(_) => None,
        },
    }
}

/// Removes a name from the stored list: gives the text to store, unless there
/// is no list.
pub fn remove_database_from_persistent_list(stored: Option<&str>, name: &str) -> (r: Option<
    String,
>)
    ensures
        r is None <==> stored is None,
        r matches Some(text) ==> {
            let names = stored_names(Some(text@));
            &&& text@ == printed_names(names)
            &&& names == stored_names(chars_in(stored)).filter(|other: Seq<char>| other != name@)
        },
{
    match stored {
        None => None,
        Some(_) => {
            let list: Vec<String> = get_persistent_database_list(stored);
            let shorter: Vec<String> = remove_name(&list, name);
            match print_names(&shorter) {
                Ok(text) => Some(text),
                Err(_) => None,
            }
        },
    }
}

/// Adds the names of one list to a sorted list that holds no name twice.
fn merge_names(merged: Vec<String>, names: &Vec<String>) -> (r: Vec<String>)
    requires
        sorted(all_texts(merged@)),
        all_texts(merged@).no_duplicates(),
    ensures
        sorted(all_texts(r@)),
        all_texts(r@).no_duplicates(),
        forall|name: Seq<char>| #[trigger]
            all_texts(r@).contains(name) <==> all_texts(merged@).contains(name) || all_texts(
                names@,
            ).contains(name),
{
    let ghost first = all_texts(merged@);
    let ghost all = all_texts(names@);
    let mut r: Vec<String> = merged;
    let mut i: usize = 0;
    while i < names.len()
        invariant
            i <= names@.len(),
            all == all_texts(names@),
            sorted(all_texts(r@)),
            all_texts(r@).no_duplicates(),
            forall|name: Seq<char>| #[trigger]
                all_texts(r@).contains(name) <==> first.contains(name) || all.take(
                    i as int,
                ).contains(name),
        decreases names@.len() - i,
    {
        let ghost before = all_texts(r@);
        let ghost new = names@[i as int]@;
        let known: bool = has_name(&r, names[i].as_str());
        if !known {
            insert_name(&mut r, names[i].as_str());
        }
        proof {
            let seen = all.take(i as int);
            let more = all.take(i as int + 1);
            assert(more =~= seen.push(new));
            if !known {
                let at = choose|at: int|
                    0 <= at <= before.len() && all_texts(r@) == #[trigger] before.insert(at, new);
                lemma_inserted(before, at, new);
            }
            assert forall|name: Seq<char>| #[trigger]
                all_texts(r@).contains(name) <==> first.contains(name) || more.contains(name) by {
                lemma_pushed(seen, new, name);
            }
        }
        i += 1;
    }
    proof {
        assert(all.take(all.len() as int) =~= all);
        assert(all.take(0) =~= Seq::<Seq<char>>::empty());
    }
    r
}

proof fn lemma_inserted(texts: Seq<Seq<char>>, at: int, text: Seq<char>)
    requires
        0 <= at <= texts.len(),
        texts.no_duplicates(),
        !texts.contains(text),
    ensures
        texts.insert(at, text).no_duplicates(),
        forall|other: Seq<char>| #[trigger]
            texts.insert(at, text).contains(other) <==> texts.contains(other) || other == text,
{
    let longer = texts.insert(at, text);
    assert forall|other: Seq<char>| #[trigger]
        longer.contains(other) <==> texts.contains(other) || other == text by {
        if texts.contains(other) {
            let i = choose|i: int| 0 <= i < texts.len() && texts[i] == other;
            assert(longer[if i < at { i } else { i + 1 }] == other);
        }
        if longer.contains(other) && other != text {
            let i = choose|i: int| 0 <= i < longer.len() && longer[i] == other;
            assert(texts[if i < at { i } else { i - 1 }] == other);
        }
        assert(longer[at] == text);
    }
    assert forall|i: int, j: int|
        0 <= i < longer.len() && 0 <= j < longer.len() && i != j implies longer[i] != longer[j] by {
        if i == at {
            assert(longer[j] == texts[if j < at { j } else { j - 1 }]);
        } else if j == at {
            assert(longer[i] == texts[if i < at { i } else { i - 1 }]);
        } else {
            assert(texts[if i < at { i } else { i - 1 }] != texts[if j < at { j } else { j - 1 }]);
        }
    }
}

proof fn lemma_pushed(texts: Seq<Seq<char>>, text: Seq<char>, other: Seq<char>)
    ensures
        texts.push(text).contains(other) <==> texts.contains(other) || other == text,
{
    let longer = texts.push(text);
    if texts.contains(other) {
        let i = choose|i: int| 0 <= i < texts.len() && texts[i] == other;
        assert(longer[i] == other);
    }
    if longer.contains(other) && other != text {
        let i = choose|i: int| 0 <= i < longer.len() && longer[i] == other;
        assert(texts[i] == other);
    }
    assert(longer[texts.len() as int] == text);
}

/// All known databases: those in the stored list, those that are open, and
/// those with blocks in memory. Each name comes once, in ascending order.
pub fn merge_database_names(
    persistent: &Vec<String>,
    open: &Vec<String>,
    stored: &Vec<String>,
) -> (r: Vec<String>)
    ensures
        sorted(all_texts(r@)),
        all_texts(r@).no_duplicates(),
        forall|name: Seq<char>| #[trigger]
            all_texts(r@).contains(name) <==> all_texts(persistent@).contains(name) || all_texts(
                open@,
            ).contains(name) || all_texts(stored@).contains(name),
{
    let none: Vec<String> = Vec::new();
    let r: Vec<String> = merge_names(none, persistent);
    let r: Vec<String> = merge_names(r, open);
    merge_names(r, stored)
}

/// Names have one ascending order: two sorted lists with the same names, each
/// as often, are the same list.
pub proof fn law_order_of_names_is_unique(a: Seq<Seq<char>>, b: Seq<Seq<char>>)
    requires
        sorted(a),
        sorted(b),
        a.to_multiset() == b.to_multiset(),
    ensures
        a == b,
    decreases a.len(),
{
    broadcast use vstd::seq_lib::group_to_multiset_ensures;

    assert(a.len() == a.to_multiset().len());
    assert(b.len() == b.to_multiset().len());
    if a.len() == 0 {
        assert(a =~= b);
    } else {
        let x = a.last();
        let y = b.last();
        lemma_last_is_greatest(a, y, b);
        lemma_last_is_greatest(b, x, a);
        lemma_order_is_antisymmetric(x, y);
        let n = a.len() - 1;
        assert(a.remove(n) =~= a.drop_last());
        assert(b.remove(n) =~= b.drop_last());
        assert(a.drop_last().to_multiset() =~= b.drop_last().to_multiset());
        law_order_of_names_is_unique(a.drop_last(), b.drop_last());
        assert(a =~= a.drop_last().push(x));
        assert(b =~= b.drop_last().push(y));
    }
}

/// The last name of another list with the same names is no greater than the
/// last of a sorted one.
proof fn lemma_last_is_greatest(a: Seq<Seq<char>>, name: Seq<char>, b: Seq<Seq<char>>)
    requires
        sorted(a),
        a.to_multiset() == b.to_multiset(),
        b.len() > 0,
        name == b.last(),
    ensures
        a.len() > 0,
        in_order(name, a.last()),
{
    broadcast use vstd::seq_lib::group_to_multiset_ensures;

    assert(b.contains(name));
    assert(b.to_multiset().count(name) > 0);
    assert(a.contains(name));
    let i = choose|i: int| 0 <= i < a.len() && a[i] == name;
    if i < a.len() - 1 {
        assert(in_order(a[i], a[a.len() - 1]));
    } else {
        lemma_order_is_total(name, name);
    }
}

proof fn lemma_filtered_count(
    names: Seq<Seq<char>>,
    keep: spec_fn(Seq<char>) -> bool,
    name: Seq<char>,
)
    ensures
        names.filter(keep).to_multiset().count(name) == if keep(name) {
            names.to_multiset().count(name)
        } else {
            0
        },
    decreases names.len(),
{
    broadcast use vstd::seq_lib::group_to_multiset_ensures;

    reveal(Seq::filter);
    if names.len() > 0 {
        lemma_filtered_count(names.drop_last(), keep, name);
        assert(names =~= names.drop_last().push(names.last()));
    }
}

proof fn lemma_filtered_is_sorted(names: Seq<Seq<char>>, keep: spec_fn(Seq<char>) -> bool)
    requires
        sorted(names),
    ensures
        sorted(names.filter(keep)),
        forall|i: int|
            0 <= i < names.filter(keep).len() ==> names.contains(
                #[trigger] names.filter(keep)[i],
            ) && keep(names.filter(keep)[i]),
    decreases names.len(),
{
    reveal(Seq::filter);
    if names.len() > 0 {
        let fewer = names.drop_last();
        lemma_filtered_is_sorted(fewer, keep);
        let kept = names.filter(keep);
        assert forall|i: int| 0 <= i < kept.len() implies names.contains(#[trigger] kept[i])
            && keep(kept[i]) by {
            if i < fewer.filter(keep).len() {
                assert(kept[i] == fewer.filter(keep)[i]);
                let j = choose|j: int| 0 <= j < fewer.len() && fewer[j] == kept[i];
                assert(names[j] == kept[i]);
            } else {
                assert(names[names.len() - 1] == kept[i]);
            }
        }
        assert forall|i: int, j: int| 0 <= i < j < kept.len() implies in_order(
            #[trigger] kept[i],
            #[trigger] kept[j],
        ) by {
            assert(kept[i] == fewer.filter(keep)[i]);
            if j < fewer.filter(keep).len() {
                assert(kept[j] == fewer.filter(keep)[j]);
            } else {
                let k = choose|k: int| 0 <= k < fewer.len() && fewer[k] == kept[i];
                assert(names[k] == kept[i]);
                assert(names[names.len() - 1] == kept[j]);
            }
        }
    }
}

/// A removed name is gone, and every other name stays, as often as it was
/// there.
pub proof fn law_removed_name_is_gone(names: Seq<Seq<char>>, name: Seq<char>)
    ensures
        ({
            let left = names.filter(|other: Seq<char>| other != name);
            &&& !left.contains(name)
            &&& forall|other: Seq<char>|
                other != name ==> #[trigger] left.to_multiset().count(other)
                    == names.to_multiset().count(other)
        }),
{
    broadcast use vstd::seq_lib::group_to_multiset_ensures;

    let keep = |other: Seq<char>| other != name;
    let left = names.filter(keep);
    lemma_filtered_count(names, keep, name);
    assert(left.to_multiset().count(name) == 0);
    assert forall|other: Seq<char>| other != name implies #[trigger] left.to_multiset().count(other)
        == names.to_multiset().count(other) by {
        lemma_filtered_count(names, keep, other);
    }
}

/// Removing a name that was added gives back the list as it was before, if that
/// was in order.
pub proof fn law_removing_undoes_adding(
    names: Seq<Seq<char>>,
    longer: Seq<Seq<char>>,
    name: Seq<char>,
)
    requires
        sorted(names),
        !names.contains(name),
        sorted(longer),
        longer.to_multiset() == names.push(name).to_multiset(),
    ensures
        longer.contains(name),
        longer.filter(|other: Seq<char>| other != name) == names,
{
    broadcast use vstd::seq_lib::group_to_multiset_ensures;

    let keep = |other: Seq<char>| other != name;
    let left = longer.filter(keep);
    assert(names.push(name).to_multiset() =~= names.to_multiset().insert(name));
    assert(longer.to_multiset().count(name) > 0);
    assert forall|other: Seq<char>| left.to_multiset().count(other) == #[trigger] names
        .to_multiset()
        .count(other) by {
        lemma_filtered_count(longer, keep, other);
        if other == name {
            assert(names.to_multiset().count(name) == 0);
        }
    }
    assert(left.to_multiset() =~= names.to_multiset());
    lemma_filtered_is_sorted(longer, keep);
    law_order_of_names_is_unique(left, names);
}

/// How names are ordered: what two names have in common at their start does not
/// matter, the first character in which they differ decides, and a name comes
/// before every name that it is the start of.
pub proof fn law_order_of_names(common: Seq<char>, a: Seq<char>, b: Seq<char>)
    ensures
        in_order(common + a, common + b) == in_order(a, b),
        in_order(common, common + b),
        b.len() > 0 ==> !in_order(common + b, common),
        a.len() > 0 && b.len() > 0 && a[0] < b[0] ==> in_order(common + a, common + b),
        a.len() > 0 && b.len() > 0 && a[0] > b[0] ==> !in_order(common + a, common + b),
    decreases common.len(),
{
    let none = Seq::<char>::empty();
    if common.len() == 0 {
        assert(common + a =~= a);
        assert(common + b =~= b);
        assert(common =~= none);
    } else {
        law_order_of_names(common.skip(1), a, b);
        assert((common + a).skip(1) =~= common.skip(1) + a);
        assert((common + b).skip(1) =~= common.skip(1) + b);
    }
}

/// The stored list holds the names that can be read off it, in their order, and
/// none where there is no list or nothing can be read.
pub proof fn law_stored_names(text: Seq<char>, present: Option<&str>)
    ensures
        parsed_names(text) is Some ==> stored_names(Some(text)) == parsed_names(text)->0,
        parsed_names(text) is None ==> stored_names(Some(text)).len() == 0,
        stored_names(None).len() == 0,
        chars_in(present) is Some <==> present is Some,
        present is Some ==> chars_in(present)->0 == present->0@,
{
}

} // verus!
