//! IPv4 addresses in dotted decimal notation.

use crate::decimal::{
    digits_of, is_digit, is_plain_number, lemma_digits_spell_their_number,
    lemma_small_numbers_are_short, lemma_spelling_is_unique, number,
};
use crate::text::{chars_of, find, find_char, lemma_find_char, lemma_find_char_at};
use vstd::prelude::*;

verus! {

/// An IPv4 address `a.b.c.d`.
#[derive(Clone, Copy, Debug, PartialEq, Eq, Structural)]
pub struct Ipv4 {
    pub a: u8,
    pub b: u8,
    pub c: u8,
    pub d: u8,
}

impl Ipv4 {
    /// Whether the address lies in one of the ranges set aside for private
    /// networks: `10.0.0.0/8`, `172.16.0.0/12`, `192.168.0.0/16`.
    pub open spec fn private(self) -> bool {
        ||| self.a == 10
        ||| self.a == 172 && 16 <= self.b <= 31
        ||| self.a == 192 && self.b == 168
    }

    /// The address in dotted decimal notation: its four octets in base
    /// ten, with a dot between each two.
    pub open spec fn text(self) -> Seq<char> {
        digits_of(self.a as nat) + seq!['.'] + digits_of(self.b as nat) + seq!['.'] + digits_of(
            self.c as nat,
        ) + seq!['.'] + digits_of(self.d as nat)
    }

    /// Tests whether the address lies in a private range.
    pub fn is_private(&self) -> (private: bool)
        ensures
            private == self.private(),
    {
        self.a == 10 || (self.a == 172 && 16 <= self.b && self.b <= 31) || (self.a == 192 && self.b
            == 168)
    }
}

/// The octet that `s` spells: `s` is one to three digits, starts with no
/// zero unless it is the single digit `0`, and spells at most 255.
pub open spec fn octet(s: Seq<char>) -> Option<u8> {
    if is_plain_number(s) && s.len() <= 3 && number(s) <= 255 {
        Some(number(s) as u8)
    } else {
        None
    }
}

/// The address that `s` spells: four octets with a dot between each two,
/// and nothing else.
pub open spec fn address(s: Seq<char>) -> Option<Ipv4> {
    let dot1 = find_char(s, '.', 0);
    let dot2 = find_char(s, '.', dot1 + 1);
    let dot3 = find_char(s, '.', dot2 + 1);
    if dot3 < s.len() {
        match (
            octet(s.subrange(0, dot1)),
            octet(s.subrange(dot1 + 1, dot2)),
            octet(s.subrange(dot2 + 1, dot3)),
            octet(s.subrange(dot3 + 1, s.len() as int)),
        ) {
            (Some(a), Some(b), Some(c), Some(d)) => Some(Ipv4 { a, b, c, d }),
            _ => None,
        }
    } else {
        None
    }
}

/// Reads the octet that `chars[from..to]` spells.
fn parse_octet(chars: &Vec<char>, from: usize, to: usize) -> (out: Option<u8>)
    requires
        from <= to <= chars.len(),
    ensures
        out == octet(chars@.subrange(from as int, to as int)),
{
    let ghost s = chars@.subrange(from as int, to as int);
    if to - from < 1 || to - from > 3 {
        return None;
    }
    if to - from > 1 && chars[from] == '0' {
        assert(s[0] == '0');
        return None;
    }
    let mut value: u32 = 0;
    let mut i: usize = from;
    while i < to
        invariant
            from <= i <= to <= chars.len(),
            to - from <= 3,
            s == chars@.subrange(from as int, to as int),
            forall|k: int| 0 <= k < i - from ==> is_digit(s[k]),
            value == number(s.take(i - from)),
            i - from == 0 ==> value == 0,
            i - from == 1 ==> value <= 9,
            i - from == 2 ==> value <= 99,
            i - from == 3 ==> value <= 999,
        decreases to - i,
    {
        let c = chars[i];
        if c < '0' || c > '9' {
            assert(!is_digit(s[i - from]));
            return None;
        }
        assert(s.take(i - from + 1).drop_last() =~= s.take(i - from));
        value = 10 * value + (c as u32 - '0' as u32);
        i += 1;
    }
    assert(s.take(to - from) =~= s);
    if value > 255 {
        None
    } else {
        Some(value as u8)
    }
}

/// Reads `token` as an IPv4 address in dotted decimal notation.
pub fn parse(token: &str) -> (out: Option<Ipv4>)
    ensures
        out == address(token@),
{
    let chars = chars_of(token);
    let len = chars.len();
    let dot1 = find(&chars, '.', 0);
    if dot1 >= len {
        return None;
    }
    let dot2 = find(&chars, '.', dot1 + 1);
    if dot2 >= len {
        return None;
    }
    let dot3 = find(&chars, '.', dot2 + 1);
    if dot3 >= len {
        return None;
    }
    let a = parse_octet(&chars, 0, dot1);
    let b = parse_octet(&chars, dot1 + 1, dot2);
    let c = parse_octet(&chars, dot2 + 1, dot3);
    let d = parse_octet(&chars, dot3 + 1, len);
    match (a, b, c, d) {
        (Some(a), Some(b), Some(c), Some(d)) => Some(Ipv4 { a, b, c, d }),
        _ => None,
    }
}

/// An octet has one spelling only: what spells it are its digits.
pub proof fn lemma_octet_spelling(s: Seq<char>)
    requires
        octet(s) is Some,
    ensures
        s == digits_of(octet(s)->0 as nat),
{
    lemma_spelling_is_unique(s);
}

/// An address has one spelling only: what spells it is its text in dotted
/// decimal notation. So a word is among known spellings exactly if the text
/// of its address is.
pub proof fn lemma_address_spelling(s: Seq<char>)
    requires
        address(s) is Some,
    ensures
        s == (address(s)->0).text(),
{
    let dot1 = find_char(s, '.', 0);
    lemma_find_char(s, '.', 0);
    let dot2 = find_char(s, '.', dot1 + 1);
    if dot1 < s.len() {
        lemma_find_char(s, '.', dot1 + 1);
    }
    let dot3 = find_char(s, '.', dot2 + 1);
    if dot2 < s.len() {
        lemma_find_char(s, '.', dot2 + 1);
    }
    let a = s.subrange(0, dot1);
    let b = s.subrange(dot1 + 1, dot2);
    let c = s.subrange(dot2 + 1, dot3);
    let d = s.subrange(dot3 + 1, s.len() as int);
    lemma_octet_spelling(a);
    lemma_octet_spelling(b);
    lemma_octet_spelling(c);
    lemma_octet_spelling(d);
    assert(s =~= a + seq!['.'] + b + seq!['.'] + c + seq!['.'] + d);
}

/// The digits of an octet spell that octet.
pub proof fn lemma_octet_of_digits(v: u8)
    ensures
        octet(digits_of(v as nat)) == Some(v),
{
    lemma_digits_spell_their_number(v as nat);
    lemma_small_numbers_are_short(v as nat);
}

/// The text of an address spells that address.
pub proof fn lemma_text_spells_address(ip: Ipv4)
    ensures
        address(ip.text()) == Some(ip),
{
    let a = digits_of(ip.a as nat);
    let b = digits_of(ip.b as nat);
    let c = digits_of(ip.c as nat);
    let d = digits_of(ip.d as nat);
    let s = ip.text();
    lemma_octet_of_digits(ip.a);
    lemma_octet_of_digits(ip.b);
    lemma_octet_of_digits(ip.c);
    lemma_octet_of_digits(ip.d);
    let dot1 = a.len() as int;
    let dot2 = dot1 + 1 + b.len();
    let dot3 = dot2 + 1 + c.len();
    assert forall|k: int| 0 <= k < dot1 implies s[k] != '.' by {
        assert(s[k] == a[k] && is_digit(a[k]));
    }
    assert forall|k: int| dot1 + 1 <= k < dot2 implies s[k] != '.' by {
        assert(s[k] == b[k - dot1 - 1] && is_digit(b[k - dot1 - 1]));
    }
    assert forall|k: int| dot2 + 1 <= k < dot3 implies s[k] != '.' by {
        assert(s[k] == c[k - dot2 - 1] && is_digit(c[k - dot2 - 1]));
    }
    lemma_find_char_at(s, '.', 0, dot1);
    lemma_find_char_at(s, '.', dot1 + 1, dot2);
    lemma_find_char_at(s, '.', dot2 + 1, dot3);
    assert(s.subrange(0, dot1) =~= a);
    assert(s.subrange(dot1 + 1, dot2) =~= b);
    assert(s.subrange(dot2 + 1, dot3) =~= c);
    assert(s.subrange(dot3 + 1, s.len() as int) =~= d);
}

/// A word spells an address exactly if it is the text of that address.
pub proof fn lemma_address_is_read_from_its_text(s: Seq<char>, ip: Ipv4)
    ensures
        address(s) == Some(ip) <==> s == ip.text(),
{
    if address(s) == Some(ip) {
        lemma_address_spelling(s);
    }
    if s == ip.text() {
        lemma_text_spells_address(ip);
    }
}

/// Two words that spell the same address are the same word.
pub proof fn lemma_same_address_same_word(s: Seq<char>, t: Seq<char>)
    requires
        address(s) is Some,
        address(s) == address(t),
    ensures
        s == t,
{
    lemma_address_spelling(s);
    lemma_address_spelling(t);
}

} // verus!
