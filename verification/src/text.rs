//! Text as sequences of characters: conversion from and to strings, search for
//! a character or a phrase, and the splitting of text into lines and words.

use vstd::prelude::*;

verus! {

/// The characters of `s`, in order.
pub(crate) fn chars_of(s: &str) -> (chars: Vec<char>)
    ensures
        chars@ == s@,
{
    let mut chars: Vec<char> = Vec::new();
    for c in it: s.chars()
        invariant
            chars@ == it.seq().take(it.index() as int),
            it.seq() == s@,
    {
        chars.push(c);
    }
    chars
}

/// Appends one character to a string, by `String::push`, which puts the
/// character at the end and leaves the rest as it was.
#[verifier::external_body]
pub(crate) fn push_char(s: &mut String, c: char)
    ensures
        final(s)@ == old(s)@.push(c),
{
    s.push(c)
}

/// The string made of the characters `chars[from..to]`.
pub(crate) fn string_of(chars: &Vec<char>, from: usize, to: usize) -> (s: String)
    requires
        from <= to <= chars.len(),
    ensures
        s@ == chars@.subrange(from as int, to as int),
{
    let mut s = String::new();
    let mut i: usize = from;
    while i < to
        invariant
            from <= i <= to <= chars.len(),
            s@ == chars@.subrange(from as int, i as int),
        decreases to - i,
    {
        push_char(&mut s, chars[i]);
        i += 1;
    }
    s
}

/// Position of the first `c` in `s` at or after `from`; `s.len()` if there is none.
pub open spec fn find_char(s: Seq<char>, c: char, from: int) -> int
    decreases s.len() - from,
{
    if from >= s.len() {
        s.len() as int
    } else if s[from] == c {
        from
    } else {
        find_char(s, c, from + 1)
    }
}

/// `find_char` answers within `from ..= s.len()`, nothing before its answer is
/// `c`, and its answer, if inside `s`, is a `c`.
pub proof fn lemma_find_char(s: Seq<char>, c: char, from: int)
    requires
        0 <= from <= s.len(),
    ensures
        from <= find_char(s, c, from) <= s.len(),
        forall|k: int| from <= k < find_char(s, c, from) ==> s[k] != c,
        find_char(s, c, from) < s.len() ==> s[find_char(s, c, from)] == c,
    decreases s.len() - from,
{
    if from < s.len() && s[from] != c {
        lemma_find_char(s, c, from + 1);
    }
}

/// The first `c` at or after `from` stands at `at` if no `c` stands before
/// `at` and `at` holds a `c` or is the end of `s`.
pub proof fn lemma_find_char_at(s: Seq<char>, c: char, from: int, at: int)
    requires
        0 <= from <= at <= s.len(),
        forall|k: int| from <= k < at ==> s[k] != c,
        at < s.len() ==> s[at] == c,
    ensures
        find_char(s, c, from) == at,
    decreases at - from,
{
    if from < at {
        lemma_find_char_at(s, c, from + 1, at);
    }
}

/// Finds the first `c` in `chars` at or after `from`.
pub(crate) fn find(chars: &Vec<char>, c: char, from: usize) -> (at: usize)
    requires
        from <= chars.len(),
    ensures
        at == find_char(chars@, c, from as int),
        from <= at <= chars.len(),
{
    let mut at: usize = from;
    while at < chars.len() && chars[at] != c
        invariant
            from <= at <= chars.len(),
            find_char(chars@, c, from as int) == find_char(chars@, c, at as int),
        decreases chars.len() - at,
    {
        at += 1;
    }
    proof {
        lemma_find_char(chars@, c, from as int);
    }
    at
}

/// Whether `needle` stands in `hay` at position `at`.
pub open spec fn phrase_at(hay: Seq<char>, needle: Seq<char>, at: int) -> bool {
    &&& 0 <= at
    &&& at + needle.len() <= hay.len()
    &&& hay.subrange(at, at + needle.len()) == needle
}

/// Whether `needle` stands somewhere in `hay`.
pub open spec fn has_phrase(hay: Seq<char>, needle: Seq<char>) -> bool {
    exists|at: int| phrase_at(hay, needle, at)
}

/// Tests whether `needle` stands in `hay` at position `at`.
fn starts_at(hay: &Vec<char>, needle: &Vec<char>, at: usize) -> (found: bool)
    requires
        at + needle.len() <= hay.len(),
    ensures
        found == phrase_at(hay@, needle@, at as int),
{
    let mut i: usize = 0;
    while i < needle.len()
        invariant
            i <= needle.len(),
            at + needle.len() <= hay.len(),
            forall|k: int| 0 <= k < i ==> hay@[at + k] == needle@[k],
        decreases needle.len() - i,
    {
        if hay[at + i] != needle[i] {
            assert(hay@.subrange(at as int, at + needle.len())[i as int] != needle@[i as int]);
            return false;
        }
        i += 1;
    }
    assert(hay@.subrange(at as int, at + needle.len()) =~= needle@);
    true
}

/// Tests whether `needle` stands somewhere in `hay`.
fn contains_chars(hay: &Vec<char>, needle: &Vec<char>) -> (found: bool)
    ensures
        found == has_phrase(hay@, needle@),
{
    if needle.len() > hay.len() {
        return false;
    }
    if needle.len() == 0 {
        assert(hay@.subrange(0, 0) =~= needle@);
        assert(phrase_at(hay@, needle@, 0));
        return true;
    }
    let last: usize = hay.len() - needle.len();
    let mut at: usize = 0;
    while at <= last
        invariant
            at <= last + 1,
            last == hay.len() - needle.len(),
            0 < needle.len() <= hay.len(),
            forall|k: int| 0 <= k < at ==> !phrase_at(hay@, needle@, k),
        decreases last + 1 - at,
    {
        if starts_at(hay, needle, at) {
            return true;
        }
        at += 1;
    }
    false
}

/// Tests whether the string `needle` stands somewhere in the string `hay`.
pub fn contains(hay: &str, needle: &str) -> (found: bool)
    ensures
        found == has_phrase(hay@, needle@),
{
    let hay_chars = chars_of(hay);
    let needle_chars = chars_of(needle);
    contains_chars(&hay_chars, &needle_chars)
}

/// `s` without one carriage return at its end, if it ends in one.
pub open spec fn without_return(s: Seq<char>) -> Seq<char> {
    if s.len() > 0 && s.last() == '\r' {
        s.drop_last()
    } else {
        s
    }
}

/// The lines of `s` from position `from` on. A line ends at a line feed, or
/// at a carriage return directly before one; neither belongs to the line.
/// What follows the last line feed is a line too, unless it is empty, and
/// keeps a carriage return at its end.
pub open spec fn lines_from(s: Seq<char>, from: int) -> Seq<Seq<char>>
    decreases s.len() - from,
{
    if 0 <= from < s.len() {
        let end = find_char(s, '\n', from);
        if end < s.len() {
            proof {
                lemma_find_char(s, '\n', from);
            }
            seq![without_return(s.subrange(from, end))] + lines_from(s, end + 1)
        } else {
            seq![s.subrange(from, s.len() as int)]
        }
    } else {
        Seq::empty()
    }
}

/// The lines of `s`.
pub open spec fn lines_of(s: Seq<char>) -> Seq<Seq<char>> {
    lines_from(s, 0)
}

/// Splits `text` into its lines.
pub fn lines(text: &str) -> (out: Vec<String>)
    ensures
        out.deep_view() == lines_of(text@),
{
    let chars = chars_of(text);
    let mut out: Vec<String> = Vec::new();
    let mut from: usize = 0;
    while from < chars.len()
        invariant
            from <= chars.len(),
            out.deep_view() + lines_from(chars@, from as int) == lines_of(chars@),
        decreases chars.len() - from,
    {
        let end = find(&chars, '\n', from);
        if end < chars.len() {
            let stop = if end > from && chars[end - 1] == '\r' {
                end - 1
            } else {
                end
            };
            let line = string_of(&chars, from, stop);
            assert(line@ == without_return(chars@.subrange(from as int, end as int)));
            out.push(line);
            from = end + 1;
        } else {
            let line = string_of(&chars, from, chars.len());
            out.push(line);
            from = chars.len();
        }
    }
    out
}

/// The blanks of ASCII: space, tab, line feed, form feed and carriage return.
pub open spec fn is_blank(c: char) -> bool {
    c == ' ' || c == '\t' || c == '\n' || c == '\u{c}' || c == '\r'
}

/// Tests whether `c` is a blank of ASCII.
pub fn blank(c: char) -> (b: bool)
    ensures
        b == is_blank(c),
{
    c == ' ' || c == '\t' || c == '\n' || c == '\u{c}' || c == '\r'
}

/// Position of the first character of `s` at or after `from` that is no
/// blank; `s.len()` if there is none.
pub open spec fn word_start(s: Seq<char>, from: int) -> int
    decreases s.len() - from,
{
    if from >= s.len() {
        s.len() as int
    } else if !is_blank(s[from]) {
        from
    } else {
        word_start(s, from + 1)
    }
}

/// Position of the first blank of `s` at or after `from`; `s.len()` if there
/// is none.
pub open spec fn word_end(s: Seq<char>, from: int) -> int
    decreases s.len() - from,
{
    if from >= s.len() {
        s.len() as int
    } else if is_blank(s[from]) {
        from
    } else {
        word_end(s, from + 1)
    }
}

/// `word_start` answers within `from ..= s.len()`, and its answer, if inside
/// `s`, is no blank.
pub proof fn lemma_word_start(s: Seq<char>, from: int)
    requires
        0 <= from <= s.len(),
    ensures
        from <= word_start(s, from) <= s.len(),
        word_start(s, from) < s.len() ==> !is_blank(s[word_start(s, from)]),
        forall|k: int| from <= k < word_start(s, from) ==> is_blank(s[k]),
    decreases s.len() - from,
{
    if from < s.len() && is_blank(s[from]) {
        lemma_word_start(s, from + 1);
    }
}

/// `word_end` answers within `from ..= s.len()`, beyond `from` where `from`
/// holds no blank, and nothing before its answer is a blank.
pub proof fn lemma_word_end(s: Seq<char>, from: int)
    requires
        0 <= from <= s.len(),
    ensures
        from <= word_end(s, from) <= s.len(),
        from < s.len() && !is_blank(s[from]) ==> from < word_end(s, from),
        word_end(s, from) < s.len() ==> is_blank(s[word_end(s, from)]),
        forall|k: int| from <= k < word_end(s, from) ==> !is_blank(s[k]),
    decreases s.len() - from,
{
    if from < s.len() && !is_blank(s[from]) {
        lemma_word_end(s, from + 1);
    }
}

/// The words of `s` from position `from` on: the longest runs of characters
/// that hold no blank, in order.
pub open spec fn words_from(s: Seq<char>, from: int) -> Seq<Seq<char>>
    decreases s.len() - from,
{
    let start = word_start(s, from);
    if 0 <= from && start < s.len() {
        let end = word_end(s, start);
        proof {
            lemma_word_start(s, from);
            lemma_word_end(s, start);
        }
        seq![s.subrange(start, end)] + words_from(s, end)
    } else {
        Seq::empty()
    }
}

/// The words of `s`.
pub open spec fn words_of(s: Seq<char>) -> Seq<Seq<char>> {
    words_from(s, 0)
}

/// Splits `line` into its words.
pub fn words(line: &str) -> (out: Vec<String>)
    ensures
        out.deep_view() == words_of(line@),
{
    let chars = chars_of(line);
    let mut out: Vec<String> = Vec::new();
    let mut from: usize = 0;
    loop
        invariant
            from <= chars.len(),
            out.deep_view() + words_from(chars@, from as int) == words_of(chars@),
        ensures
            out.deep_view() == words_of(chars@),
        decreases chars.len() - from,
    {
        let mut start: usize = from;
        while start < chars.len() && blank(chars[start])
            invariant
                from <= start <= chars.len(),
                word_start(chars@, from as int) == word_start(chars@, start as int),
            decreases chars.len() - start,
        {
            start += 1;
        }
        if start >= chars.len() {
            break;
        }
        let mut end: usize = start;
        while end < chars.len() && !blank(chars[end])
            invariant
                start <= end <= chars.len(),
                word_end(chars@, start as int) == word_end(chars@, end as int),
            decreases chars.len() - end,
        {
            end += 1;
        }
        proof {
            lemma_word_end(chars@, start as int);
        }
        let word = string_of(&chars, start, end);
        out.push(word);
        from = end;
    }
    out
}

/// The white space of Unicode: the characters that have its property
/// `White_Space`.
pub open spec fn is_space(c: char) -> bool {
    let n = c as u32;
    ||| 0x09 <= n <= 0x0d
    ||| n == 0x20
    ||| n == 0x85
    ||| n == 0xa0
    ||| n == 0x1680
    ||| 0x2000 <= n <= 0x200a
    ||| n == 0x2028
    ||| n == 0x2029
    ||| n == 0x202f
    ||| n == 0x205f
    ||| n == 0x3000
}

/// Tests whether `c` is white space.
pub fn space(c: char) -> (b: bool)
    ensures
        b == is_space(c),
{
    let n: u32 = c as u32;
    (0x09 <= n && n <= 0x0d) || n == 0x20 || n == 0x85 || n == 0xa0 || n == 0x1680 || (0x2000 <= n
        && n <= 0x200a) || n == 0x2028 || n == 0x2029 || n == 0x202f || n == 0x205f || n == 0x3000
}

/// `s` without the white space at its end.
pub open spec fn trimmed(s: Seq<char>) -> Seq<char>
    decreases s.len(),
{
    if s.len() > 0 && is_space(s.last()) {
        trimmed(s.drop_last())
    } else {
        s
    }
}

/// Removes the white space at the end of `line`.
pub fn trim_end(line: &str) -> (out: String)
    ensures
        out@ == trimmed(line@),
{
    let chars = chars_of(line);
    let mut end: usize = chars.len();
    assert(chars@.take(end as int) =~= chars@);
    while end > 0 && space(chars[end - 1])
        invariant
            end <= chars.len(),
            trimmed(chars@) == trimmed(chars@.take(end as int)),
        decreases end,
    {
        assert(chars@.take(end as int).drop_last() =~= chars@.take(end - 1));
        end -= 1;
    }
    string_of(&chars, 0, end)
}

} // verus!
