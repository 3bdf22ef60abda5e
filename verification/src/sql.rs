//! What kind of statement a text is, told by its keywords.

use crate::text::{starts_with, trim, trimmed};
use crate::verbs::{changes_rows, main_verb, statement_in, statement_verb, word_of, writes};
use vstd::prelude::*;

verus! {

/// What `str::to_uppercase` gives for a text.
pub uninterp spec fn uppercase(s: Seq<char>) -> Seq<char>;

/// Whether all characters of a text are ASCII.
pub open spec fn ascii(s: Seq<char>) -> bool {
    forall|i: int| 0 <= i < s.len() ==> (#[trigger] s[i]) as u32 <= 127
}

/// The upper case of an ASCII character.
pub open spec fn ascii_upper(c: char) -> char {
    if 'a' <= c <= 'z' {
        (c as u32 - 32) as char
    } else {
        c
    }
}

/// `str::to_uppercase`: the text in upper case. Where all of the text is ASCII,
/// the letters `a` to `z` become `A` to `Z` and nothing else changes; of other
/// characters only that the result depends on the text alone.
#[verifier::external_body]
pub(crate) fn to_uppercase(s: &str) -> (out: String)
    ensures
        out@ == uppercase(s@),
        ascii(s@) ==> out@ == s@.map_values(|c: char| ascii_upper(c)),
{
    s.to_uppercase()
}

/// Whether a text in upper case begins as a statement that returns rows.
pub open spec fn upper_is_select(upper: Seq<char>) -> bool {
    "SELECT"@.is_prefix_of(upper)
}

/// Whether a text in upper case begins as a statement that inserts rows.
pub open spec fn upper_is_insert(upper: Seq<char>) -> bool {
    "INSERT"@.is_prefix_of(upper)
}

/// Whether a text in upper case is a statement that writes, that is, one that
/// changes rows. A statement that changes the schema or a setting is not one:
/// every instance may set up its tables.
pub open spec fn upper_is_write(upper: Seq<char>) -> bool {
    writes(main_verb(upper))
}

/// The text by which a statement is classified: in upper case and without the
/// whitespace around it.
pub open spec fn leading(sql: Seq<char>) -> Seq<char> {
    uppercase(trimmed(sql))
}

/// Whether a text in upper case begins as a statement that returns rows.
pub fn is_select(upper: &str) -> (r: bool)
    ensures
        r == upper_is_select(upper@),
{
    starts_with(upper, "SELECT")
}

/// Whether a text in upper case begins as a statement that inserts rows.
pub fn is_insert(upper: &str) -> (r: bool)
    ensures
        r == upper_is_insert(upper@),
{
    starts_with(upper, "INSERT")
}

/// Whether a text in upper case is a statement that writes.
pub fn is_write(upper: &str) -> (r: bool)
    ensures
        r == upper_is_write(upper@),
{
    changes_rows(statement_verb(upper))
}

/// The text by which a statement is classified.
pub fn leading_text(sql: &str) -> (upper: String)
    ensures
        upper@ == leading(sql@),
        ascii(sql@) ==> upper@ == trimmed(sql@).map_values(|c: char| ascii_upper(c)),
{
    let text: String = trim(sql);
    proof {
        lemma_trimmed_is_part(sql@);
    }
    to_uppercase(text.as_str())
}

/// Trimming keeps a contiguous part of a text.
proof fn lemma_trimmed_is_part(s: Seq<char>)
    ensures
        ascii(s) ==> ascii(trimmed(s)),
{
    lemma_trimmed_start_is_part(s);
    lemma_trimmed_end_is_part(crate::text::trimmed_start(s));
}

proof fn lemma_trimmed_start_is_part(s: Seq<char>)
    ensures
        ascii(s) ==> ascii(crate::text::trimmed_start(s)),
    decreases s.len(),
{
    if s.len() > 0 && crate::text::whitespace(s[0]) {
        lemma_trimmed_start_is_part(s.skip(1));
    }
}

proof fn lemma_trimmed_end_is_part(s: Seq<char>)
    ensures
        ascii(s) ==> ascii(crate::text::trimmed_end(s)),
    decreases s.len(),
{
    if s.len() > 0 && crate::text::whitespace(s.last()) {
        lemma_trimmed_end_is_part(s.drop_last());
    }
}

/// A text that begins as a statement that returns rows is not one that writes.
pub proof fn law_select_never_writes(upper: Seq<char>)
    requires
        upper_is_select(upper),
    ensures
        !upper_is_write(upper),
{
    reveal_strlit("SELECT");
    reveal_strlit("WITH");
    assert(upper[0] == "SELECT"@[0]);
    assert(statement_in(upper) == upper);
    assert(word_of(upper)[0] == 'S');
    assert(word_of(upper) != "WITH"@);
}

/// Every text that begins as a statement that inserts rows is one that writes.
pub proof fn law_insert_writes(upper: Seq<char>)
    requires
        upper_is_insert(upper),
    ensures
        upper_is_write(upper),
{
    reveal_strlit("SELECT");
    reveal_strlit("VALUES");
    reveal_strlit("INSERT");
    reveal_strlit("WITH");
    assert(upper[0] == "INSERT"@[0]);
    assert("SELECT"@.is_prefix_of(upper) ==> upper[0] == "SELECT"@[0]);
    assert("VALUES"@.is_prefix_of(upper) ==> upper[0] == "VALUES"@[0]);
    assert(statement_in(upper) == upper);
    assert(word_of(upper)[0] == 'I');
    assert(word_of(upper) != "WITH"@);
}

/// What a statement is does not depend on the whitespace around it.
pub proof fn law_whitespace_does_not_matter(sql: Seq<char>, c: char)
    requires
        crate::text::whitespace(c),
    ensures
        leading(seq![c] + sql) == leading(sql),
        leading(sql.push(c)) == leading(sql),
{
    crate::text::law_trimming(sql, c);
}

/// What a statement is does not depend on the case of its letters: the letters
/// `a` to `z` count as `A` to `Z`, and every other ASCII character as itself.
pub proof fn law_case_does_not_matter(c: char)
    requires
        c as u32 <= 127,
    ensures
        'a' <= c <= 'z' ==> 'A' <= ascii_upper(c) <= 'Z' && ascii_upper(c) as u32 - 'A' as u32
            == c as u32 - 'a' as u32,
        !('a' <= c <= 'z') ==> ascii_upper(c) == c,
        ascii_upper(ascii_upper(c)) == ascii_upper(c),
{
}

/// A text begins as a statement that returns rows exactly if it begins with
/// `SELECT`, and as one that inserts rows exactly if it begins with `INSERT`.
pub proof fn law_selects_and_inserts(upper: Seq<char>)
    ensures
        upper_is_select(upper) <==> "SELECT"@.is_prefix_of(upper),
        upper_is_insert(upper) <==> "INSERT"@.is_prefix_of(upper),
{
}

/// Every text that begins with `INSERT`, `UPDATE`, `DELETE` or `REPLACE` is one
/// that writes. A text that begins with a letter other than those of comments
/// and blanks, and not with the word `WITH`, is one that writes only if it begins
/// with one of these.
pub proof fn law_writes_begin_with_a_verb(upper: Seq<char>)
    ensures
        "INSERT"@.is_prefix_of(upper) || "UPDATE"@.is_prefix_of(upper) || "DELETE"@.is_prefix_of(
            upper,
        ) || "REPLACE"@.is_prefix_of(upper) ==> upper_is_write(upper),
        upper.len() > 0 && !crate::text::whitespace(upper[0]) && upper[0] != ';' && upper[0] != '-'
            && upper[0] != '/' && !"WITH"@.is_prefix_of(upper) && upper_is_write(upper)
            ==> "INSERT"@.is_prefix_of(upper) || "UPDATE"@.is_prefix_of(upper)
            || "DELETE"@.is_prefix_of(upper) || "REPLACE"@.is_prefix_of(upper),
        upper.len() == 0 ==> !upper_is_write(upper),
{
    crate::verbs::law_verb_of_a_plain_statement(upper);
}

/// A statement is told by its text in upper case, all of it but the whitespace
/// around it, and it writes exactly if its verb inserts, updates, deletes or
/// replaces.
pub proof fn law_statements_are_told_by_all_of_their_text(sql: Seq<char>, upper: Seq<char>)
    ensures
        leading(sql) == uppercase(trimmed(sql)),
        upper_is_write(upper) <==> main_verb(upper) == Some(crate::verbs::Verb::Insert)
            || main_verb(upper) == Some(crate::verbs::Verb::Update) || main_verb(upper) == Some(
            crate::verbs::Verb::Delete,
        ) || main_verb(upper) == Some(crate::verbs::Verb::Replace),
        ascii(sql) <==> forall|i: int| 0 <= i < sql.len() ==> (#[trigger] sql[i]) as u32 <= 127,
{
}

} // verus!
