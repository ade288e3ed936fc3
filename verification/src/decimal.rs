//! Numbers in base ten: what digits spell, and how a number is spelled.

use crate::text::push_char;
use vstd::prelude::*;

verus! {

/// Whether `c` is a decimal digit.
pub open spec fn is_digit(c: char) -> bool {
    '0' <= c <= '9'
}

/// The number that the digit `c` stands for.
pub open spec fn digit_value(c: char) -> nat {
    (c as u32 - '0' as u32) as nat
}

/// The digit that stands for `d`, a number below ten.
pub open spec fn digit_char(d: nat) -> char {
    ('0' as u32 + d) as char
}

/// The number that the digits `s` spell.
pub open spec fn number(s: Seq<char>) -> nat
    decreases s.len(),
{
    if s.len() == 0 {
        0
    } else {
        10 * number(s.drop_last()) + digit_value(s.last())
    }
}

/// The digits that spell `n`, without zeros ahead.
pub open spec fn digits_of(n: nat) -> Seq<char>
    decreases n,
{
    if n < 10 {
        seq![digit_char(n)]
    } else {
        digits_of(n / 10).push(digit_char(n % 10))
    }
}

/// The spelling of `n`: its digits, with a minus sign ahead if it is
/// negative.
pub open spec fn decimal(n: int) -> Seq<char> {
    if n < 0 {
        seq!['-'] + digits_of((-n) as nat)
    } else {
        digits_of(n as nat)
    }
}

/// Whether `s` is made of digits alone, at least one, and starts with no
/// zero unless it is the single digit `0`.
pub open spec fn is_plain_number(s: Seq<char>) -> bool {
    &&& s.len() >= 1
    &&& forall|i: int| 0 <= i < s.len() ==> is_digit(s[i])
    &&& s.len() > 1 ==> s[0] != '0'
}

/// A number has one spelling only: digits without zeros ahead are the
/// digits of the number that they spell.
pub proof fn lemma_spelling_is_unique(s: Seq<char>)
    requires
        is_plain_number(s),
    ensures
        digits_of(number(s)) == s,
        s[0] != '0' ==> number(s) >= 1,
    decreases s.len(),
{
    let rest = s.drop_last();
    let last = s.last();
    assert(is_digit(last));
    assert(digit_char(digit_value(last)) == last);
    if rest.len() == 0 {
        assert(number(rest) == 0);
        assert(digits_of(number(s)) =~= s);
    } else {
        assert(rest[0] == s[0]);
        lemma_spelling_is_unique(rest);
        let n = number(s);
        assert(n == 10 * number(rest) + digit_value(last));
        assert(n / 10 == number(rest) && n % 10 == digit_value(last));
        assert(digits_of(n) =~= s);
    }
}

/// The digits of a number spell that number, and they are a plain number.
pub proof fn lemma_digits_spell_their_number(n: nat)
    ensures
        is_plain_number(digits_of(n)),
        number(digits_of(n)) == n,
    decreases n,
{
    if n < 10 {
        let s = digits_of(n);
        assert(s.drop_last() =~= Seq::<char>::empty());
        assert(number(s.drop_last()) == 0);
        assert(digit_value(digit_char(n)) == n);
    } else {
        lemma_digits_spell_their_number(n / 10);
        let rest = digits_of(n / 10);
        let s = digits_of(n);
        assert(s.drop_last() =~= rest);
        assert(digit_value(digit_char(n % 10)) == n % 10);
        assert(s[0] == rest[0]);
        if rest.len() == 1 {
            assert(n / 10 >= 1);
            assert(rest.drop_last() =~= Seq::<char>::empty());
            assert(number(rest.drop_last()) == 0);
            assert(digit_value(rest[0]) >= 1);
        }
        assert forall|i: int| 0 <= i < s.len() implies is_digit(s[i]) by {
            if i < rest.len() {
                assert(s[i] == rest[i]);
            }
        }
    }
}

/// A number below a thousand has at most three digits.
pub proof fn lemma_small_numbers_are_short(n: nat)
    requires
        n < 1000,
    ensures
        digits_of(n).len() <= 3,
{
    reveal_with_fuel(digits_of, 3);
}

/// Appends the digits of `n` to `s`.
fn push_digits(s: &mut String, n: u64)
    ensures
        final(s)@ == old(s)@ + digits_of(n as nat),
    decreases n,
{
    if n >= 10 {
        push_digits(s, n / 10);
    }
    let digit: u8 = (n % 10) as u8;
    push_char(s, (48u8 + digit) as char);
}

/// Spells `n` in base ten.
pub fn decimal_string(n: i64) -> (s: String)
    ensures
        s@ == decimal(n as int),
{
    let mut s = String::new();
    if n < 0 {
        push_char(&mut s, '-');
        let size: u64 = (-(n + 1)) as u64 + 1;
        push_digits(&mut s, size);
    } else {
        push_digits(&mut s, n as u64);
    }
    s
}

} // verus!
