//! Strings as sequences of characters: the handful of operations the rest of
//! the library needs, each with an exact contract over `Seq<char>`.

use vstd::prelude::*;

verus! {

broadcast use vstd::string::group_string_axioms;

/// `String::push`: appends one character at the end of the string.
pub assume_specification[ String::push ](s: &mut String, ch: char)
    ensures
        final(s)@ == old(s)@.push(ch),
;

/// The characters of `s`, in order.
pub fn chars_of(s: &str) -> (out: Vec<char>)
    ensures
        out@ == s@,
{
    let mut out: Vec<char> = Vec::new();
    for c in it: s.chars()
        invariant
            it.seq() == s@,
            out@ == s@.take(it.index() as int),
    {
        proof {
            assert(s@.take(it.index() as int + 1) =~= s@.take(it.index() as int).push(c));
        }
        out.push(c);
    }
    assert(s@.take(s@.len() as int) =~= s@);
    out
}

/// The characters `chars[from..to]` as a string.
pub fn string_of(chars: &Vec<char>, from: usize, to: usize) -> (out: String)
    requires
        from <= to <= chars@.len(),
    ensures
        out@ == chars@.subrange(from as int, to as int),
{
    let mut out = String::new();
    let mut i: usize = from;
    while i < to
        invariant
            from <= i <= to <= chars@.len(),
            out@ == chars@.subrange(from as int, i as int),
        decreases to - i,
    {
        out.push(chars[i]);
        i += 1;
        assert(chars@.subrange(from as int, i as int) =~= chars@.subrange(
            from as int,
            i - 1,
        ).push(chars@[i - 1]));
    }
    out
}

/// The concatenation of two strings.
pub fn concat(a: &str, b: &str) -> (out: String)
    ensures
        out@ == a@ + b@,
{
    let mut out = a.to_owned();
    out.append(b);
    out
}

/// The concatenation of three strings.
pub fn concat3(a: &str, b: &str, c: &str) -> (out: String)
    ensures
        out@ == a@ + b@ + c@,
{
    let mut out = a.to_owned();
    out.append(b);
    out.append(c);
    out
}

/// Whether two strings have the same characters.
pub fn same(a: &str, b: &str) -> (r: bool)
    ensures
        r == (a@ == b@),
{
    let left: Vec<char> = chars_of(a);
    let right: Vec<char> = chars_of(b);
    if left.len() != right.len() {
        return false;
    }
    let mut i: usize = 0;
    while i < left.len()
        invariant
            i <= left@.len(),
            left@.len() == right@.len(),
            left@ == a@,
            right@ == b@,
            forall|j: int| 0 <= j < i ==> left@[j] == right@[j],
        decreases left@.len() - i,
    {
        if left[i] != right[i] {
            return false;
        }
        i += 1;
    }
    assert(a@ =~= b@);
    true
}

/// Whether `s` begins with `prefix`.
pub fn starts_with(s: &str, prefix: &str) -> (r: bool)
    ensures
        r == prefix@.is_prefix_of(s@),
{
    let whole: Vec<char> = chars_of(s);
    let part: Vec<char> = chars_of(prefix);
    if part.len() > whole.len() {
        return false;
    }
    let mut i: usize = 0;
    while i < part.len()
        invariant
            i <= part@.len() <= whole@.len(),
            whole@ == s@,
            part@ == prefix@,
            forall|j: int| 0 <= j < i ==> part@[j] == whole@[j],
        decreases part@.len() - i,
    {
        if part[i] != whole[i] {
            assert(s@.subrange(0, prefix@.len() as int)[i as int] == s@[i as int]);
            return false;
        }
        i += 1;
    }
    assert(s@.subrange(0, prefix@.len() as int) =~= prefix@);
    true
}

/// Whether the first `end` of `whole`'s characters end in `part`.
fn ends_in(whole: &Vec<char>, end: usize, part: &Vec<char>) -> (r: bool)
    requires
        end <= whole@.len(),
    ensures
        r == part@.is_suffix_of(whole@.take(end as int)),
{
    let ghost head = whole@.take(end as int);
    if part.len() > end {
        return false;
    }
    let base: usize = end - part.len();
    let mut i: usize = 0;
    while i < part.len()
        invariant
            i <= part@.len(),
            base + part@.len() == end <= whole@.len(),
            head == whole@.take(end as int),
            forall|j: int| 0 <= j < i ==> part@[j] == whole@[base + j],
        decreases part@.len() - i,
    {
        if part[i] != whole[base + i] {
            assert(head.subrange(head.len() - part@.len(), head.len() as int)[i as int]
                == whole@[base + i]);
            return false;
        }
        i += 1;
    }
    assert(head.subrange(head.len() - part@.len(), head.len() as int) =~= part@);
    true
}

/// Whether `s` ends in `suffix`.
pub fn ends_with(s: &str, suffix: &str) -> (r: bool)
    ensures
        r == suffix@.is_suffix_of(s@),
{
    let whole: Vec<char> = chars_of(s);
    let part: Vec<char> = chars_of(suffix);
    assert(whole@.take(whole@.len() as int) =~= whole@);
    ends_in(&whole, whole.len(), &part)
}

/// `s` without any repetition of `suffix` at its end.
pub open spec fn without_trailing(s: Seq<char>, suffix: Seq<char>) -> Seq<char>
    decreases s.len(),
{
    if suffix.len() > 0 && suffix.is_suffix_of(s) {
        without_trailing(s.take(s.len() - suffix.len()), suffix)
    } else {
        s
    }
}

/// Removes every repetition of `suffix` from the end of `s`.
pub fn trim_end_matches(s: &str, suffix: &str) -> (out: String)
    ensures
        out@ == without_trailing(s@, suffix@),
{
    let whole: Vec<char> = chars_of(s);
    let part: Vec<char> = chars_of(suffix);
    let mut end: usize = whole.len();
    assert(whole@.take(end as int) =~= s@);
    while part.len() > 0 && ends_in(&whole, end, &part)
        invariant
            end <= whole@.len(),
            part@ == suffix@,
            without_trailing(whole@.take(end as int), suffix@) == without_trailing(s@, suffix@),
        decreases end,
    {
        proof {
            let head = whole@.take(end as int);
            assert(head.take(head.len() - part@.len()) =~= whole@.take(end - part@.len()));
        }
        end -= part.len();
    }
    assert(whole@.subrange(0, end as int) =~= whole@.take(end as int));
    string_of(&whole, 0, end)
}

/// The characters with the Unicode property White_Space.
pub open spec fn whitespace(c: char) -> bool {
    let n = c as u32;
    ||| 0x09 <= n <= 0x0d
    ||| n == 0x20
    ||| n == 0x85
    ||| n == 0xa0
    ||| n == 0x1680
    ||| 0x2000 <= n <= 0x200a
    ||| n == 0x2028
    ||| n == 0x2029
    ||| n == 0x202f
    ||| n == 0x205f
    ||| n == 0x3000
}

/// Whether `c` is whitespace.
pub fn is_whitespace(c: char) -> (r: bool)
    ensures
        r == whitespace(c),
{
    let n: u32 = c as u32;
    (0x09 <= n && n <= 0x0d) || n == 0x20 || n == 0x85 || n == 0xa0 || n == 0x1680 || (0x2000 <= n
        && n <= 0x200a) || n == 0x2028 || n == 0x2029 || n == 0x202f || n == 0x205f || n == 0x3000
}

/// `s` without the whitespace at its start.
pub open spec fn trimmed_start(s: Seq<char>) -> Seq<char>
    decreases s.len(),
{
    if s.len() > 0 && whitespace(s[0]) {
        trimmed_start(s.skip(1))
    } else {
        s
    }
}

/// `s` without the whitespace at its end.
pub open spec fn trimmed_end(s: Seq<char>) -> Seq<char>
    decreases s.len(),
{
    if s.len() > 0 && whitespace(s.last()) {
        trimmed_end(s.drop_last())
    } else {
        s
    }
}

/// `s` without the whitespace at either end.
pub open spec fn trimmed(s: Seq<char>) -> Seq<char> {
    trimmed_end(trimmed_start(s))
}

/// Removes the whitespace at both ends of `s`.
pub fn trim(s: &str) -> (out: String)
    ensures
        out@ == trimmed(s@),
{
    let whole: Vec<char> = chars_of(s);
    let mut from: usize = 0;
    assert(whole@.skip(0) =~= s@);
    while from < whole.len() && is_whitespace(whole[from])
        invariant
            from <= whole@.len(),
            trimmed_start(whole@.skip(from as int)) == trimmed_start(s@),
        decreases whole@.len() - from,
    {
        assert(whole@.skip(from as int).skip(1) =~= whole@.skip(from + 1));
        from += 1;
    }
    let ghost rest = whole@.skip(from as int);
    let mut to: usize = whole.len();
    assert(whole@.subrange(from as int, to as int) =~= rest);
    while to > from && is_whitespace(whole[to - 1])
        invariant
            from <= to <= whole@.len(),
            trimmed_end(whole@.subrange(from as int, to as int)) == trimmed_end(rest),
        decreases to,
    {
        assert(whole@.subrange(from as int, to as int).drop_last() =~= whole@.subrange(
            from as int,
            to - 1,
        ));
        to -= 1;
    }
    string_of(&whole, from, to)
}

/// The whitespace among the ASCII characters are the tabulator, the line feed,
/// the vertical tabulator, the form feed, the carriage return and the space.
/// Besides these there are the next line, the no-break space, the Ogham space,
/// the spaces of general punctuation, the line and the paragraph separator, the
/// mathematical and the ideographic space. No letter, digit or mark is one.
pub proof fn law_whitespace(c: char)
    ensures
        c as u32 <= 0x7f ==> (whitespace(c) <==> c == ' ' || c == '\t' || c == '\n' || c == '\r' || c
            as u32 == 0x0b || c as u32 == 0x0c),
        0x80 <= c as u32 <= 0xff ==> (whitespace(c) <==> c as u32 == 0x85 || c as u32 == 0xa0),
        0x100 <= c as u32 <= 0x1fff ==> (whitespace(c) <==> c as u32 == 0x1680),
        0x2000 <= c as u32 <= 0x206f ==> (whitespace(c) <==> c as u32 <= 0x200a || c as u32
            == 0x2028 || c as u32 == 0x2029 || c as u32 == 0x202f || c as u32 == 0x205f),
        0x2070 <= c as u32 ==> (whitespace(c) <==> c as u32 == 0x3000),
{
}

/// Whitespace around a text does not matter to what is left of it, and what does
/// not begin and end with whitespace stays as it is.
pub proof fn law_trimming(s: Seq<char>, c: char)
    ensures
        whitespace(c) ==> trimmed(seq![c] + s) == trimmed(s),
        whitespace(c) ==> trimmed(s.push(c)) == trimmed(s),
        s.len() > 0 && !whitespace(s[0]) && !whitespace(s.last()) ==> trimmed(s) == s,
        trimmed(s).len() > 0 ==> !whitespace(trimmed(s)[0]) && !whitespace(trimmed(s).last()),
        trimmed(Seq::empty()) == Seq::<char>::empty(),
{
    if whitespace(c) {
        assert((seq![c] + s).skip(1) =~= s);
        lemma_trimmed_start_pushed(s, c);
        let rest = trimmed_start(s);
        assert(rest.push(c).drop_last() =~= rest);
    }
    lemma_trimmed_start_begins(s);
    lemma_trimmed_end_ends(trimmed_start(s));
}

proof fn lemma_trimmed_start_pushed(s: Seq<char>, c: char)
    requires
        whitespace(c),
    ensures
        trimmed_start(s).len() > 0 ==> trimmed_start(s.push(c)) == trimmed_start(s).push(c),
        trimmed_start(s).len() == 0 ==> trimmed_start(s.push(c)).len() == 0,
    decreases s.len(),
{
    if s.len() == 0 {
        assert(s.push(c).skip(1).len() == 0);
        assert(trimmed_start(s.push(c).skip(1)).len() == 0);
    } else {
        assert(s.push(c).skip(1) =~= s.skip(1).push(c));
        if whitespace(s[0]) {
            lemma_trimmed_start_pushed(s.skip(1), c);
        }
    }
}

proof fn lemma_trimmed_start_begins(s: Seq<char>)
    ensures
        trimmed_start(s).len() > 0 ==> !whitespace(trimmed_start(s)[0]),
    decreases s.len(),
{
    if s.len() > 0 && whitespace(s[0]) {
        lemma_trimmed_start_begins(s.skip(1));
    }
}

proof fn lemma_trimmed_end_ends(s: Seq<char>)
    ensures
        trimmed_end(s).len() > 0 ==> !whitespace(trimmed_end(s).last()) && s.len() > 0
            && trimmed_end(s)[0] == s[0],
    decreases s.len(),
{
    if s.len() > 0 && whitespace(s.last()) {
        lemma_trimmed_end_ends(s.drop_last());
    }
}

/// Removing an ending removes it as often as it occurs, and nothing else: an
/// ending that is appended is removed again, and a text that does not end in it
/// stays as it is.
pub proof fn law_endings_are_removed(s: Seq<char>, suffix: Seq<char>)
    requires
        suffix.len() > 0,
    ensures
        without_trailing(s + suffix, suffix) == without_trailing(s, suffix),
        !suffix.is_suffix_of(s) ==> without_trailing(s, suffix) == s,
        !suffix.is_suffix_of(without_trailing(s, suffix)),
    decreases s.len(),
{
    let longer = s + suffix;
    assert(longer.skip(longer.len() - suffix.len()) =~= suffix);
    assert(longer.take(longer.len() - suffix.len()) =~= s);
    if suffix.is_suffix_of(s) {
        law_endings_are_removed(s.take(s.len() - suffix.len()), suffix);
    }
}

} // verus!
