//! The verb of a statement: the keyword that says what it does.
//!
//! All of it is about texts in upper case. A statement may begin with
//! whitespace, semicolons and comments, and with common table expressions
//! behind the keyword `WITH`; its verb comes after these.

use crate::text::{chars_of, is_whitespace, same, starts_with, string_of, whitespace};
use vstd::prelude::*;

verus! {

/// What a statement does.
#[derive(Clone, Copy, Debug, PartialEq, Eq, Structural)]
pub enum Verb {
    Select,
    Values,
    Insert,
    Update,
    Delete,
    Replace,
}

/// The verb that a word is.
pub open spec fn verb_of(word: Seq<char>) -> Option<Verb> {
    if word == "SELECT"@ {
        Some(Verb::Select)
    } else if word == "VALUES"@ {
        Some(Verb::Values)
    } else if word == "INSERT"@ {
        Some(Verb::Insert)
    } else if word == "UPDATE"@ {
        Some(Verb::Update)
    } else if word == "DELETE"@ {
        Some(Verb::Delete)
    } else if word == "REPLACE"@ {
        Some(Verb::Replace)
    } else {
        None
    }
}

/// The verb with which a text begins.
pub open spec fn verb_at_start(text: Seq<char>) -> Option<Verb> {
    if "SELECT"@.is_prefix_of(text) {
        Some(Verb::Select)
    } else if "VALUES"@.is_prefix_of(text) {
        Some(Verb::Values)
    } else if "INSERT"@.is_prefix_of(text) {
        Some(Verb::Insert)
    } else if "UPDATE"@.is_prefix_of(text) {
        Some(Verb::Update)
    } else if "DELETE"@.is_prefix_of(text) {
        Some(Verb::Delete)
    } else if "REPLACE"@.is_prefix_of(text) {
        Some(Verb::Replace)
    } else {
        None
    }
}

/// Whether a statement with this verb changes rows.
pub open spec fn writes(verb: Option<Verb>) -> bool {
    match verb {
        Some(Verb::Insert) => true,
        Some(Verb::Update) => true,
        Some(Verb::Delete) => true,
        Some(Verb::Replace) => true,
        _ => false,
    }
}

/// Whether a character can stand in a word.
pub open spec fn in_word(c: char) -> bool {
    'A' <= c <= 'Z' || 'a' <= c <= 'z' || '0' <= c <= '9' || c == '_' || c == '$' || c as u32 > 127
}

/// The word with which a text begins; it may be empty.
pub open spec fn word_of(text: Seq<char>) -> Seq<char>
    decreases text.len(),
{
    if text.len() > 0 && in_word(text[0]) {
        seq![text[0]] + word_of(text.skip(1))
    } else {
        Seq::empty()
    }
}

/// What follows a character for the first time in a text; nothing where it does
/// not occur.
pub open spec fn past(text: Seq<char>, c: char) -> Seq<char>
    decreases text.len(),
{
    if text.len() == 0 {
        text
    } else if text[0] == c {
        text.skip(1)
    } else {
        past(text.skip(1), c)
    }
}

/// What follows the end of a comment `*/` for the first time in a text; nothing
/// where it does not occur.
pub open spec fn past_comment(text: Seq<char>) -> Seq<char>
    decreases text.len(),
{
    if text.len() == 0 {
        text
    } else if text.len() > 1 && text[0] == '*' && text[1] == '/' {
        text.skip(2)
    } else {
        past_comment(text.skip(1))
    }
}

/// Whether a text begins with a comment to the end of the line.
pub open spec fn line_comment(text: Seq<char>) -> bool {
    text.len() > 1 && text[0] == '-' && text[1] == '-'
}

/// Whether a text begins with a comment between `/*` and `*/`.
pub open spec fn block_comment(text: Seq<char>) -> bool {
    text.len() > 1 && text[0] == '/' && text[1] == '*'
}

/// The quote that ends what begins with this character.
pub open spec fn closing_quote(c: char) -> Option<char> {
    if c == '\'' || c == '"' || c == '`' {
        Some(c)
    } else if c == '[' {
        Some(']')
    } else {
        None
    }
}

/// Skipping past a character leaves no more than there was.
pub proof fn lemma_past_is_shorter(text: Seq<char>, c: char)
    ensures
        past(text, c).len() <= text.len(),
    decreases text.len(),
{
    if text.len() > 0 && text[0] != c {
        lemma_past_is_shorter(text.skip(1), c);
    }
}

/// Skipping past a comment leaves no more than there was.
pub proof fn lemma_past_comment_is_shorter(text: Seq<char>)
    ensures
        past_comment(text).len() <= text.len(),
    decreases text.len(),
{
    if text.len() > 0 && !(text.len() > 1 && text[0] == '*' && text[1] == '/') {
        lemma_past_comment_is_shorter(text.skip(1));
    }
}

/// A word is a part of the text that begins with it.
pub proof fn lemma_word_is_part(text: Seq<char>)
    ensures
        word_of(text).len() <= text.len(),
        text.len() > 0 && in_word(text[0]) ==> word_of(text).len() > 0,
    decreases text.len(),
{
    if text.len() > 0 && in_word(text[0]) {
        lemma_word_is_part(text.skip(1));
    }
}

/// A text without the whitespace, semicolons and comments before its first
/// statement.
pub open spec fn statement_in(text: Seq<char>) -> Seq<char>
    decreases text.len(),
{
    if line_comment(text) {
        proof {
            lemma_past_is_shorter(text.skip(2), '\n');
        }
        statement_in(past(text.skip(2), '\n'))
    } else if block_comment(text) {
        proof {
            lemma_past_comment_is_shorter(text.skip(2));
        }
        statement_in(past_comment(text.skip(2)))
    } else if text.len() > 0 && (whitespace(text[0]) || text[0] == ';') {
        statement_in(text.skip(1))
    } else {
        text
    }
}

/// Whether a word stands for its verb where `rest` follows it. `REPLACE` can also
/// be the name of a table; it is the verb where `INTO` comes next.
pub open spec fn is_verb(word: Seq<char>, rest: Seq<char>) -> bool {
    &&& verb_of(word) is Some
    &&& verb_of(word) == Some(Verb::Replace) ==> word_of(statement_in(rest)) == "INTO"@
}

/// The first verb in a text that stands in no parentheses, where this many are
/// open before it, and in no quotes and no comment.
pub open spec fn first_verb(text: Seq<char>, depth: nat) -> Option<Verb>
    decreases text.len(),
{
    if text.len() == 0 {
        None
    } else if line_comment(text) {
        proof {
            lemma_past_is_shorter(text.skip(2), '\n');
        }
        first_verb(past(text.skip(2), '\n'), depth)
    } else if block_comment(text) {
        proof {
            lemma_past_comment_is_shorter(text.skip(2));
        }
        first_verb(past_comment(text.skip(2)), depth)
    } else if closing_quote(text[0]) is Some {
        proof {
            lemma_past_is_shorter(text.skip(1), closing_quote(text[0])->0);
        }
        first_verb(past(text.skip(1), closing_quote(text[0])->0), depth)
    } else if text[0] == '(' {
        first_verb(text.skip(1), depth + 1)
    } else if text[0] == ')' {
        first_verb(
            text.skip(1),
            if depth > 0 {
                (depth - 1) as nat
            } else {
                0
            },
        )
    } else if in_word(text[0]) {
        proof {
            lemma_word_is_part(text);
        }
        let word = word_of(text);
        if depth == 0 && is_verb(word, text.skip(word.len() as int)) {
            verb_of(word)
        } else {
            first_verb(text.skip(word.len() as int), depth)
        }
    } else {
        first_verb(text.skip(1), depth)
    }
}

/// The verb of the first statement in a text.
pub open spec fn main_verb(text: Seq<char>) -> Option<Verb> {
    let statement = statement_in(text);
    if word_of(statement) == "WITH"@ {
        first_verb(statement.skip(4), 0)
    } else {
        verb_at_start(statement)
    }
}

/// Whether a character can stand in a word.
fn is_in_word(c: char) -> (r: bool)
    ensures
        r == in_word(c),
{
    ('A' <= c && c <= 'Z') || ('a' <= c && c <= 'z') || ('0' <= c && c <= '9') || c == '_' || c
        == '$' || c as u32 > 127
}

/// The verb that a word is.
fn verb(word: &str) -> (r: Option<Verb>)
    ensures
        r == verb_of(word@),
{
    if same(word, "SELECT") {
        Some(Verb::Select)
    } else if same(word, "VALUES") {
        Some(Verb::Values)
    } else if same(word, "INSERT") {
        Some(Verb::Insert)
    } else if same(word, "UPDATE") {
        Some(Verb::Update)
    } else if same(word, "DELETE") {
        Some(Verb::Delete)
    } else if same(word, "REPLACE") {
        Some(Verb::Replace)
    } else {
        None
    }
}

/// The verb with which a text begins.
fn starting_verb(text: &str) -> (r: Option<Verb>)
    ensures
        r == verb_at_start(text@),
{
    if starts_with(text, "SELECT") {
        Some(Verb::Select)
    } else if starts_with(text, "VALUES") {
        Some(Verb::Values)
    } else if starts_with(text, "INSERT") {
        Some(Verb::Insert)
    } else if starts_with(text, "UPDATE") {
        Some(Verb::Update)
    } else if starts_with(text, "DELETE") {
        Some(Verb::Delete)
    } else if starts_with(text, "REPLACE") {
        Some(Verb::Replace)
    } else {
        None
    }
}

/// Whether a statement with this verb changes rows.
pub fn changes_rows(verb: Option<Verb>) -> (r: bool)
    ensures
        r == writes(verb),
{
    match verb {
        Some(Verb::Insert) => true,
        Some(Verb::Update) => true,
        Some(Verb::Delete) => true,
        Some(Verb::Replace) => true,
        _ => false,
    }
}

/// Where the word ends that begins at `from`.
fn word_end(chars: &Vec<char>, from: usize) -> (to: usize)
    requires
        from <= chars@.len(),
    ensures
        from <= to <= chars@.len(),
        chars@.subrange(from as int, to as int) == word_of(chars@.skip(from as int)),
{
    let mut to: usize = from;
    let ghost whole = word_of(chars@.skip(from as int));
    assert(chars@.subrange(from as int, to as int) + whole =~= whole);
    while to < chars.len() && is_in_word(chars[to])
        invariant
            from <= to <= chars@.len(),
            chars@.subrange(from as int, to as int) + word_of(chars@.skip(to as int)) == whole,
        decreases chars@.len() - to,
    {
        proof {
            let tail = chars@.skip(to as int);
            assert(tail.skip(1) =~= chars@.skip(to as int + 1));
            assert(chars@.subrange(from as int, to as int) + word_of(tail) =~= chars@.subrange(
                from as int,
                to as int + 1,
            ) + word_of(tail.skip(1)));
        }
        to += 1;
    }
    assert(word_of(chars@.skip(to as int)) =~= Seq::<char>::empty());
    assert(chars@.subrange(from as int, to as int) =~= whole);
    to
}

/// Where the text goes on past the first `c` that stands at or after `from`.
fn past_char(chars: &Vec<char>, from: usize, c: char) -> (to: usize)
    requires
        from <= chars@.len(),
    ensures
        from <= to <= chars@.len(),
        chars@.skip(to as int) == past(chars@.skip(from as int), c),
{
    let mut to: usize = from;
    while to < chars.len()
        invariant
            from <= to <= chars@.len(),
            past(chars@.skip(to as int), c) == past(chars@.skip(from as int), c),
        decreases chars@.len() - to,
    {
        assert(chars@.skip(to as int).skip(1) =~= chars@.skip(to as int + 1));
        if chars[to] == c {
            return to + 1;
        }
        to += 1;
    }
    to
}

/// Where the text goes on past the first `*/` that stands at or after `from`.
fn past_block(chars: &Vec<char>, from: usize) -> (to: usize)
    requires
        from <= chars@.len(),
    ensures
        from <= to <= chars@.len(),
        chars@.skip(to as int) == past_comment(chars@.skip(from as int)),
{
    let mut to: usize = from;
    while to < chars.len()
        invariant
            from <= to <= chars@.len(),
            past_comment(chars@.skip(to as int)) == past_comment(chars@.skip(from as int)),
        decreases chars@.len() - to,
    {
        assert(chars@.skip(to as int).skip(1) =~= chars@.skip(to as int + 1));
        if chars[to] == '*' && chars.len() - to > 1 && chars[to + 1] == '/' {
            assert(chars@.skip(to as int).skip(2) =~= chars@.skip(to as int + 2));
            return to + 2;
        }
        to += 1;
    }
    to
}

/// Where the text goes on past the comment at `from`, if there is one.
fn past_any_comment(chars: &Vec<char>, from: usize) -> (to: Option<usize>)
    requires
        from <= chars@.len(),
    ensures
        to is Some <==> line_comment(chars@.skip(from as int)) || block_comment(
            chars@.skip(from as int),
        ),
        to matches Some(n) ==> from + 2 <= n <= chars@.len(),
        to matches Some(n) ==> chars@.skip(n as int) == if line_comment(chars@.skip(from as int)) {
            past(chars@.skip(from as int).skip(2), '\n')
        } else {
            past_comment(chars@.skip(from as int).skip(2))
        },
{
    if chars.len() - from < 2 {
        return None;
    }
    assert(chars@.skip(from as int).skip(2) =~= chars@.skip(from as int + 2));
    if chars[from] == '-' && chars[from + 1] == '-' {
        Some(past_char(chars, from + 2, '\n'))
    } else if chars[from] == '/' && chars[from + 1] == '*' {
        Some(past_block(chars, from + 2))
    } else {
        None
    }
}

/// Where the first statement at or after `start` begins.
fn statement_start(chars: &Vec<char>, start: usize) -> (from: usize)
    requires
        start <= chars@.len(),
    ensures
        start <= from <= chars@.len(),
        chars@.skip(from as int) == statement_in(chars@.skip(start as int)),
{
    let mut from: usize = start;
    loop
        invariant
            start <= from <= chars@.len(),
            statement_in(chars@.skip(from as int)) == statement_in(chars@.skip(start as int)),
        decreases chars@.len() - from,
    {
        match past_any_comment(chars, from) {
            Some(to) => {
                from = to;
            },
            None => {
                if from < chars.len() && (is_whitespace(chars[from]) || chars[from] == ';') {
                    assert(chars@.skip(from as int).skip(1) =~= chars@.skip(from as int + 1));
                    from += 1;
                } else {
                    return from;
                }
            },
        }
    }
}

/// The verb that `word` stands for, where the text goes on at `to` behind it.
fn verb_before(chars: &Vec<char>, word: &str, to: usize) -> (r: Option<Verb>)
    requires
        to <= chars@.len(),
    ensures
        r == if is_verb(word@, chars@.skip(to as int)) {
            verb_of(word@)
        } else {
            None
        },
{
    match verb(word) {
        Some(Verb::Replace) => {
            let from: usize = statement_start(chars, to);
            let end: usize = word_end(chars, from);
            let next: String = string_of(chars, from, end);
            if same(next.as_str(), "INTO") {
                Some(Verb::Replace)
            } else {
                None
            }
        },
        other => other,
    }
}

/// The quote that ends what begins with this character.
fn quote_end(c: char) -> (r: Option<char>)
    ensures
        r == closing_quote(c),
{
    if c == '\'' || c == '"' || c == '`' {
        Some(c)
    } else if c == '[' {
        Some(']')
    } else {
        None
    }
}

/// The first verb at or after `start` that stands in no parentheses, no quotes
/// and no comment.
fn find_verb(chars: &Vec<char>, start: usize) -> (r: Option<Verb>)
    requires
        start <= chars@.len(),
    ensures
        r == first_verb(chars@.skip(start as int), 0),
{
    let mut from: usize = start;
    let mut depth: usize = 0;
    while from < chars.len()
        invariant
            start <= from <= chars@.len(),
            depth <= from,
            first_verb(chars@.skip(from as int), depth as nat) == first_verb(
                chars@.skip(start as int),
                0,
            ),
        decreases chars@.len() - from,
    {
        assert(chars@.skip(from as int).skip(1) =~= chars@.skip(from as int + 1));
        if let Some(to) = past_any_comment(chars, from) {
            from = to;
        } else if let Some(quote) = quote_end(chars[from]) {
            from = past_char(chars, from + 1, quote);
        } else if chars[from] == '(' {
            depth += 1;
            from += 1;
        } else if chars[from] == ')' {
            if depth > 0 {
                depth -= 1;
            }
            from += 1;
        } else if is_in_word(chars[from]) {
            let to: usize = word_end(chars, from);
            let word: String = string_of(chars, from, to);
            proof {
                lemma_word_is_part(chars@.skip(from as int));
                assert(chars@.skip(from as int).skip(word@.len() as int) =~= chars@.skip(
                    to as int,
                ));
            }
            let found: Option<Verb> = verb_before(chars, word.as_str(), to);
            if depth == 0 && found.is_some() {
                return found;
            }
            from = to;
        } else {
            from += 1;
        }
    }
    None
}

/// The verb of the first statement in a text.
pub fn statement_verb(text: &str) -> (r: Option<Verb>)
    ensures
        r == main_verb(text@),
{
    let chars: Vec<char> = chars_of(text);
    assert(chars@.skip(0) =~= chars@);
    let from: usize = statement_start(&chars, 0);
    let to: usize = word_end(&chars, from);
    let word: String = string_of(&chars, from, to);
    let statement: String = string_of(&chars, from, chars.len());
    assert(statement@ =~= statement_in(text@));
    if same(word.as_str(), "WITH") {
        proof {
            reveal_strlit("WITH");
            assert(word@.len() == 4);
            assert(statement@.skip(4) =~= chars@.skip(to as int));
        }
        find_verb(&chars, to)
    } else {
        starting_verb(statement.as_str())
    }
}

proof fn lemma_past_first(text: Seq<char>, c: char, rest: Seq<char>)
    requires
        !text.contains(c),
    ensures
        past(text + seq![c] + rest, c) == rest,
    decreases text.len(),
{
    let whole = text + seq![c] + rest;
    if text.len() == 0 {
        assert(whole.skip(1) =~= rest);
    } else {
        assert(text.contains(text[0]));
        assert forall|d: char| text.skip(1).contains(d) implies text.contains(d) by {
            let i = choose|i: int| 0 <= i < text.skip(1).len() && text.skip(1)[i] == d;
            assert(text[i + 1] == d);
        }
        lemma_past_first(text.skip(1), c, rest);
        assert(whole.skip(1) =~= text.skip(1) + seq![c] + rest);
    }
}

/// A comment before a statement does not change what the statement does: the
/// verb of a text is that of the text with one more comment line before it.
pub proof fn law_comments_do_not_matter(comment: Seq<char>, rest: Seq<char>)
    requires
        !comment.contains('\n'),
    ensures
        main_verb("--"@ + comment + seq!['\n'] + rest) == main_verb(rest),
{
    reveal_strlit("--");
    let text = "--"@ + comment + seq!['\n'] + rest;
    assert(line_comment(text));
    assert(text.skip(2) =~= comment + seq!['\n'] + rest);
    lemma_past_first(comment, '\n', rest);
    assert(statement_in(text) == statement_in(rest));
}

/// Common table expressions do not change what a statement does: behind `WITH`
/// the verb is the one of what follows them. `tables` stands for what is
/// between: it is in parentheses as a whole, and has no parentheses, quotes and
/// comments of its own.
pub proof fn law_common_tables_do_not_matter(tables: Seq<char>, rest: Seq<char>)
    requires
        forall|i: int| 0 <= i < tables.len() ==> plain(#[trigger] tables[i]),
    ensures
        main_verb("WITH("@ + tables + seq![')'] + rest) == first_verb(rest, 0),
{
    reveal_strlit("WITH(");
    reveal_strlit("WITH");
    let text = "WITH("@ + tables + seq![')'] + rest;
    assert(statement_in(text) == text);
    reveal_with_fuel(word_of, 6);
    assert(word_of(text) =~= "WITH"@);
    let inner = tables + seq![')'] + rest;
    assert(text.skip(4).skip(1) =~= inner);
    lemma_nothing_in_parentheses(tables, rest);
}

/// A character that opens and closes nothing and begins no comment.
pub open spec fn plain(c: char) -> bool {
    c != '(' && c != ')' && c != '-' && c != '/' && closing_quote(c) is None
}

proof fn lemma_nothing_in_parentheses(text: Seq<char>, rest: Seq<char>)
    requires
        forall|i: int| 0 <= i < text.len() ==> plain(#[trigger] text[i]),
    ensures
        first_verb(text + seq![')'] + rest, 1) == first_verb(rest, 0),
    decreases text.len(),
{
    let whole = text + seq![')'] + rest;
    if text.len() == 0 {
        assert(whole.skip(1) =~= rest);
    } else if in_word(text[0]) {
        lemma_word_is_part(text);
        lemma_word_ends(text, rest);
        let n = word_of(text).len() as int;
        assert(whole.skip(n) =~= text.skip(n) + seq![')'] + rest);
        lemma_nothing_in_parentheses(text.skip(n), rest);
    } else {
        assert(whole.skip(1) =~= text.skip(1) + seq![')'] + rest);
        lemma_nothing_in_parentheses(text.skip(1), rest);
    }
}

proof fn lemma_word_ends(text: Seq<char>, rest: Seq<char>)
    ensures
        word_of(text + seq![')'] + rest) == word_of(text),
    decreases text.len(),
{
    let whole = text + seq![')'] + rest;
    if text.len() > 0 && in_word(text[0]) {
        assert(whole.skip(1) =~= text.skip(1) + seq![')'] + rest);
        lemma_word_ends(text.skip(1), rest);
    }
}

/// The verb of a statement that has nothing before it is the one with which it
/// begins. A statement that begins with no verb, and not with `WITH`, has none.
pub proof fn law_verb_of_a_plain_statement(text: Seq<char>)
    ensures
        "SELECT"@.is_prefix_of(text) <==> main_verb(text) == Some(Verb::Select) && !blank_or_with(
            text,
        ),
        "VALUES"@.is_prefix_of(text) <==> main_verb(text) == Some(Verb::Values) && !blank_or_with(
            text,
        ),
        "INSERT"@.is_prefix_of(text) <==> main_verb(text) == Some(Verb::Insert) && !blank_or_with(
            text,
        ),
        "UPDATE"@.is_prefix_of(text) <==> main_verb(text) == Some(Verb::Update) && !blank_or_with(
            text,
        ),
        "DELETE"@.is_prefix_of(text) <==> main_verb(text) == Some(Verb::Delete) && !blank_or_with(
            text,
        ),
        "REPLACE"@.is_prefix_of(text) <==> main_verb(text) == Some(Verb::Replace)
            && !blank_or_with(text),
        text.len() == 0 ==> main_verb(text) is None,
        writes(Some(Verb::Insert)),
        writes(Some(Verb::Update)),
        writes(Some(Verb::Delete)),
        writes(Some(Verb::Replace)),
        !writes(Some(Verb::Select)),
        !writes(Some(Verb::Values)),
        !writes(None),
{
    reveal_strlit("SELECT");
    reveal_strlit("VALUES");
    reveal_strlit("INSERT");
    reveal_strlit("UPDATE");
    reveal_strlit("DELETE");
    reveal_strlit("REPLACE");
    reveal_strlit("WITH");
    assert("SELECT"@.is_prefix_of(text) ==> text[0] == "SELECT"@[0]);
    assert("VALUES"@.is_prefix_of(text) ==> text[0] == "VALUES"@[0]);
    assert("INSERT"@.is_prefix_of(text) ==> text[0] == "INSERT"@[0]);
    assert("UPDATE"@.is_prefix_of(text) ==> text[0] == "UPDATE"@[0]);
    assert("DELETE"@.is_prefix_of(text) ==> text[0] == "DELETE"@[0]);
    assert("REPLACE"@.is_prefix_of(text) ==> text[0] == "REPLACE"@[0]);
    assert("WITH"@.is_prefix_of(text) ==> text[0] == "WITH"@[0]);
    if !blank_or_with(text) {
        assert(statement_in(text) == text);
        lemma_word_is_prefix(text);
        assert(word_of(text) != "WITH"@);
    }
    if text.len() == 0 {
        assert(word_of(text).len() == 0);
        assert(!"SELECT"@.is_prefix_of(text) && !"VALUES"@.is_prefix_of(text)
            && !"INSERT"@.is_prefix_of(text) && !"UPDATE"@.is_prefix_of(text)
            && !"DELETE"@.is_prefix_of(text) && !"REPLACE"@.is_prefix_of(text));
    }
}

/// Whether a text begins with a blank, a character that can begin a comment, or
/// with `WITH`.
pub open spec fn blank_or_with(text: Seq<char>) -> bool {
    text.len() > 0 && (whitespace(text[0]) || text[0] == ';' || text[0] == '-' || text[0] == '/'
        || "WITH"@.is_prefix_of(text))
}

proof fn lemma_word_is_prefix(text: Seq<char>)
    ensures
        word_of(text).is_prefix_of(text),
        word_of(text).len() < text.len() ==> !in_word(text[word_of(text).len() as int]),
    decreases text.len(),
{
    if text.len() > 0 && in_word(text[0]) {
        let rest = text.skip(1);
        lemma_word_is_prefix(rest);
        let n = word_of(rest).len() as int;
        assert(rest.take(n) =~= word_of(rest));
        assert(text.take(n + 1) =~= word_of(text));
    } else {
        assert(text.take(0) =~= word_of(text));
    }
}

/// Blanks and empty statements before a statement do not change its verb.
pub proof fn law_blanks_do_not_matter(c: char, rest: Seq<char>)
    requires
        whitespace(c) || c == ';',
    ensures
        main_verb(seq![c] + rest) == main_verb(rest),
{
    let text = seq![c] + rest;
    assert(text.skip(1) =~= rest);
    assert(statement_in(text) == statement_in(rest));
}

/// A comment between `/*` and `*/` before a statement does not change its verb.
pub proof fn law_block_comments_do_not_matter(comment: Seq<char>, rest: Seq<char>)
    requires
        forall|i: int|
            0 <= i < comment.len() - 1 ==> !((#[trigger] comment[i]) == '*' && comment[i + 1]
                == '/'),
    ensures
        main_verb("/*"@ + comment + "*/"@ + rest) == main_verb(rest),
{
    reveal_strlit("/*");
    let text = "/*"@ + comment + "*/"@ + rest;
    assert(block_comment(text));
    assert(text.skip(2) =~= comment + "*/"@ + rest);
    lemma_past_first_comment(comment, rest);
    assert(statement_in(text) == statement_in(rest));
}

proof fn lemma_past_first_comment(comment: Seq<char>, rest: Seq<char>)
    requires
        forall|i: int|
            0 <= i < comment.len() - 1 ==> !((#[trigger] comment[i]) == '*' && comment[i + 1]
                == '/'),
    ensures
        past_comment(comment + "*/"@ + rest) == rest,
    decreases comment.len(),
{
    reveal_strlit("*/");
    let whole = comment + "*/"@ + rest;
    if comment.len() == 0 {
        assert(whole.skip(2) =~= rest);
    } else {
        let shorter = comment.skip(1);
        assert forall|i: int| 0 <= i < shorter.len() - 1 implies !((#[trigger] shorter[i]) == '*'
            && shorter[i + 1] == '/') by {
            assert(comment[i + 1] == shorter[i]);
        }
        lemma_past_first_comment(shorter, rest);
        assert(whole.skip(1) =~= shorter + "*/"@ + rest);
        if comment.len() > 1 {
            assert(whole[1] == comment[1]);
        } else {
            assert(whole[1] == '*');
        }
        assert(!(whole[0] == '*' && whole[1] == '/')) by {
            assert(whole[0] == comment[0]);
        }
    }
}

/// A comment that does not end hides all that follows.
pub proof fn law_unfinished_comments_hide_the_rest(comment: Seq<char>)
    requires
        !comment.contains('\n'),
    ensures
        main_verb("--"@ + comment) is None,
{
    reveal_strlit("--");
    let text = "--"@ + comment;
    assert(line_comment(text));
    assert(text.skip(2) =~= comment);
    lemma_never_past(comment, '\n');
    let none = Seq::<char>::empty();
    assert(past(text.skip(2), '\n') =~= none);
    assert(statement_in(none) == none);
    assert(statement_in(text) == none);
    law_verb_of_a_plain_statement(none);
}

proof fn lemma_never_past(text: Seq<char>, c: char)
    requires
        !text.contains(c),
    ensures
        past(text, c).len() == 0,
    decreases text.len(),
{
    if text.len() > 0 {
        assert(text.contains(text[0]));
        assert forall|d: char| text.skip(1).contains(d) implies text.contains(d) by {
            let i = choose|i: int| 0 <= i < text.skip(1).len() && text.skip(1)[i] == d;
            assert(text[i + 1] == d);
        }
        lemma_never_past(text.skip(1), c);
    }
}

/// Behind the word `WITH` the verb is the first that stands alone.
pub proof fn law_verb_behind_with(rest: Seq<char>)
    ensures
        rest.len() == 0 || !in_word(rest[0]) ==> main_verb("WITH"@ + rest) == first_verb(rest, 0),
        rest.len() > 0 && in_word(rest[0]) ==> main_verb("WITH"@ + rest) is None,
{
    reveal_strlit("WITH");
    reveal_strlit("SELECT");
    reveal_strlit("VALUES");
    reveal_strlit("INSERT");
    reveal_strlit("UPDATE");
    reveal_strlit("DELETE");
    reveal_strlit("REPLACE");
    let text = "WITH"@ + rest;
    assert(statement_in(text) == text);
    assert(text.skip(4) =~= rest);
    lemma_word_in_front("WITH"@, rest);
    if rest.len() == 0 || !in_word(rest[0]) {
        assert(word_of(text) =~= "WITH"@);
    } else {
        assert(word_of(rest).len() > 0);
        assert(word_of(text).len() > 4);
    }
    assert("SELECT"@.is_prefix_of(text) ==> text[0] == "SELECT"@[0]);
    assert("VALUES"@.is_prefix_of(text) ==> text[0] == "VALUES"@[0]);
    assert("INSERT"@.is_prefix_of(text) ==> text[0] == "INSERT"@[0]);
    assert("UPDATE"@.is_prefix_of(text) ==> text[0] == "UPDATE"@[0]);
    assert("DELETE"@.is_prefix_of(text) ==> text[0] == "DELETE"@[0]);
    assert("REPLACE"@.is_prefix_of(text) ==> text[0] == "REPLACE"@[0]);
}

proof fn lemma_word_in_front(word: Seq<char>, rest: Seq<char>)
    requires
        forall|i: int| 0 <= i < word.len() ==> in_word(#[trigger] word[i]),
    ensures
        word_of(word + rest) == word + word_of(rest),
    decreases word.len(),
{
    if word.len() == 0 {
        assert(word + rest =~= rest);
        assert(word + word_of(rest) =~= word_of(rest));
    } else {
        lemma_word_in_front(word.skip(1), rest);
        assert((word + rest).skip(1) =~= word.skip(1) + rest);
        assert(seq![word[0]] + (word.skip(1) + word_of(rest)) =~= word + word_of(rest));
    }
}

/// Of the words behind `WITH`, the first that is a verb and stands in no
/// parentheses counts. Any other word is passed over, and so is a verb within
/// parentheses. `REPLACE` is a verb where `INTO` follows it.
pub proof fn law_words_behind_with(word: Seq<char>, rest: Seq<char>, depth: nat)
    requires
        word.len() > 0,
        forall|i: int| 0 <= i < word.len() ==> in_word(#[trigger] word[i]),
        rest.len() == 0 || !in_word(rest[0]),
    ensures
        depth == 0 && word == "SELECT"@ ==> first_verb(word + rest, depth) == Some(Verb::Select),
        depth == 0 && word == "VALUES"@ ==> first_verb(word + rest, depth) == Some(Verb::Values),
        depth == 0 && word == "INSERT"@ ==> first_verb(word + rest, depth) == Some(Verb::Insert),
        depth == 0 && word == "UPDATE"@ ==> first_verb(word + rest, depth) == Some(Verb::Update),
        depth == 0 && word == "DELETE"@ ==> first_verb(word + rest, depth) == Some(Verb::Delete),
        depth == 0 && word == "REPLACE"@ && word_of(statement_in(rest)) == "INTO"@ ==> first_verb(
            word + rest,
            depth,
        ) == Some(Verb::Replace),
        word == "REPLACE"@ && word_of(statement_in(rest)) != "INTO"@ ==> first_verb(
            word + rest,
            depth,
        ) == first_verb(rest, depth),
        depth > 0 || (word != "SELECT"@ && word != "VALUES"@ && word != "INSERT"@ && word
            != "UPDATE"@ && word != "DELETE"@ && word != "REPLACE"@) ==> first_verb(
            word + rest,
            depth,
        ) == first_verb(rest, depth),
{
    reveal_strlit("SELECT");
    reveal_strlit("VALUES");
    reveal_strlit("INSERT");
    reveal_strlit("UPDATE");
    reveal_strlit("DELETE");
    reveal_strlit("REPLACE");
    assert("SELECT"@[0] == 'S');
    assert("VALUES"@[0] == 'V');
    assert("INSERT"@[0] == 'I');
    assert("UPDATE"@[0] == 'U');
    assert("DELETE"@[0] == 'D');
    assert("REPLACE"@[0] == 'R');
    let text = word + rest;
    lemma_word_in_front(word, rest);
    assert(word_of(rest) =~= Seq::<char>::empty());
    assert(word_of(text) =~= word);
    assert(text.skip(word.len() as int) =~= rest);
    assert(text[0] == word[0]);
    assert(in_word(text[0]));
}

/// Behind `WITH`, quotes and comments are passed over, whatever stands in them;
/// blanks and marks are passed over; and parentheses are counted.
pub proof fn law_quotes_behind_with(inner: Seq<char>, rest: Seq<char>, depth: nat, c: char)
    ensures
        !inner.contains('\'') ==> first_verb(seq!['\''] + (inner + seq!['\''] + rest), depth)
            == first_verb(rest, depth),
        !inner.contains('"') ==> first_verb(seq!['"'] + (inner + seq!['"'] + rest), depth)
            == first_verb(rest, depth),
        !inner.contains('`') ==> first_verb(seq!['`'] + (inner + seq!['`'] + rest), depth)
            == first_verb(rest, depth),
        !inner.contains(']') ==> first_verb(seq!['['] + (inner + seq![']'] + rest), depth)
            == first_verb(rest, depth),
        !inner.contains('\n') ==> first_verb("--"@ + (inner + seq!['\n'] + rest), depth)
            == first_verb(rest, depth),
        first_verb(seq!['('] + rest, depth) == first_verb(rest, depth + 1),
        first_verb(seq![')'] + rest, depth + 1) == first_verb(rest, depth),
        first_verb(seq![')'] + rest, 0) == first_verb(rest, 0),
        !in_word(c) && c != '\'' && c != '"' && c != '`' && c != '[' && c != '(' && c != ')' && c
            != '-' && c != '/' ==> first_verb(seq![c] + rest, depth) == first_verb(rest, depth),
        first_verb(Seq::empty(), depth) is None,
{
    reveal_strlit("--");
    lemma_quoted(inner, rest, depth, '\'', '\'');
    lemma_quoted(inner, rest, depth, '"', '"');
    lemma_quoted(inner, rest, depth, '`', '`');
    lemma_quoted(inner, rest, depth, '[', ']');
    if !inner.contains('\n') {
        let text = "--"@ + (inner + seq!['\n'] + rest);
        assert(line_comment(text));
        assert(text.skip(2) =~= inner + seq!['\n'] + rest);
        lemma_past_first(inner, '\n', rest);
    }
    assert((seq!['('] + rest).skip(1) =~= rest);
    assert((seq![')'] + rest).skip(1) =~= rest);
    assert((seq![c] + rest).skip(1) =~= rest);
}

proof fn lemma_quoted(inner: Seq<char>, rest: Seq<char>, depth: nat, first: char, last: char)
    requires
        closing_quote(first) == Some(last),
        first != '-',
        first != '/',
    ensures
        !inner.contains(last) ==> first_verb(seq![first] + (inner + seq![last] + rest), depth)
            == first_verb(rest, depth),
{
    if !inner.contains(last) {
        let text = seq![first] + (inner + seq![last] + rest);
        assert(text.skip(1) =~= inner + seq![last] + rest);
        lemma_past_first(inner, last, rest);
    }
}

/// A word is made of letters, digits, the underscore, the dollar sign and
/// characters that are not ASCII.
pub proof fn law_characters_of_words(c: char)
    ensures
        'A' <= c <= 'Z' || 'a' <= c <= 'z' || '0' <= c <= '9' || c == '_' || c == '$' ==> in_word(
            c,
        ),
        c as u32 >= 128 ==> in_word(c),
        (c as u32) < 48 && c != '$' ==> !in_word(c),
        58 <= c as u32 <= 64 ==> !in_word(c),
        91 <= c as u32 <= 96 && c != '_' ==> !in_word(c),
        123 <= c as u32 <= 127 ==> !in_word(c),
{
}

/// Behind `WITH` too, comments between `/*` and `*/` are passed over; a mark that
/// begins no comment is passed over alone; and a quote or a comment that does not
/// end hides all that follows.
pub proof fn law_comments_behind_with(
    inner: Seq<char>,
    rest: Seq<char>,
    depth: nat,
    first: char,
    last: char,
)
    ensures
        (forall|i: int|
            0 <= i < inner.len() - 1 ==> !((#[trigger] inner[i]) == '*' && inner[i + 1] == '/'))
            ==> first_verb("/*"@ + (inner + "*/"@ + rest), depth) == first_verb(rest, depth),
        rest.len() == 0 || rest[0] != '-' ==> first_verb(seq!['-'] + rest, depth) == first_verb(
            rest,
            depth,
        ),
        rest.len() == 0 || rest[0] != '*' ==> first_verb(seq!['/'] + rest, depth) == first_verb(
            rest,
            depth,
        ),
        !inner.contains(last) && (first == '\'' || first == '"' || first == '`') && last == first
            ==> first_verb(seq![first] + inner, depth) is None,
        !inner.contains(']') ==> first_verb(seq!['['] + inner, depth) is None,
        !inner.contains('\n') ==> first_verb("--"@ + inner, depth) is None,
        (forall|i: int|
            0 <= i < inner.len() - 1 ==> !((#[trigger] inner[i]) == '*' && inner[i + 1] == '/'))
            ==> first_verb("/*"@ + inner, depth) is None && main_verb("/*"@ + inner) is None,
{
    reveal_strlit("/*");
    reveal_strlit("--");
    let open_ended = forall|i: int|
        0 <= i < inner.len() - 1 ==> !((#[trigger] inner[i]) == '*' && inner[i + 1] == '/');
    let none = Seq::<char>::empty();
    assert(first_verb(none, depth) is None);
    if open_ended {
        let text = "/*"@ + (inner + "*/"@ + rest);
        assert(block_comment(text));
        assert(text.skip(2) =~= inner + "*/"@ + rest);
        lemma_past_first_comment(inner, rest);
        let unfinished = "/*"@ + inner;
        assert(block_comment(unfinished));
        assert(unfinished.skip(2) =~= inner);
        lemma_never_past_comment(inner);
        assert(past_comment(unfinished.skip(2)) =~= none);
        assert(statement_in(none) == none);
        assert(statement_in(unfinished) == none);
        law_verb_of_a_plain_statement(none);
    }
    assert((seq!['-'] + rest).skip(1) =~= rest);
    assert((seq!['/'] + rest).skip(1) =~= rest);
    if !inner.contains(last) && closing_quote(first) == Some(last) {
        let text = seq![first] + inner;
        assert(text.skip(1) =~= inner);
        lemma_never_past(inner, last);
        assert(past(text.skip(1), last) =~= none);
    }
    if !inner.contains(']') {
        let text = seq!['['] + inner;
        assert(text.skip(1) =~= inner);
        lemma_never_past(inner, ']');
        assert(past(text.skip(1), ']') =~= none);
    }
    if !inner.contains('\n') {
        let text = "--"@ + inner;
        assert(line_comment(text));
        assert(text.skip(2) =~= inner);
        lemma_never_past(inner, '\n');
        assert(past(text.skip(2), '\n') =~= none);
    }
}

proof fn lemma_never_past_comment(text: Seq<char>)
    requires
        forall|i: int|
            0 <= i < text.len() - 1 ==> !((#[trigger] text[i]) == '*' && text[i + 1] == '/'),
    ensures
        past_comment(text).len() == 0,
    decreases text.len(),
{
    if text.len() > 0 {
        let shorter = text.skip(1);
        assert forall|i: int| 0 <= i < shorter.len() - 1 implies !((#[trigger] shorter[i]) == '*'
            && shorter[i + 1] == '/') by {
            assert(text[i + 1] == shorter[i]);
        }
        lemma_never_past_comment(shorter);
    }
}

} // verus!
