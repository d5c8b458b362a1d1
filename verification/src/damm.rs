//! Check digits by the Damm algorithm. A motion is announced with its number
//! and one check digit behind it, so that a mistyped number is noticed before
//! a vote is cast.

use vstd::prelude::*;

use crate::text::{chars_of, push_digit};
#[allow(unused_imports)]
use crate::text::{all_digits, digit_char, digit_value, is_digit};

verus! {

/// A row of the operation table, one hexadecimal digit for each column, with
/// column 0 at the right. The rows read, from column 0 on:
/// `0317598642`, `7092154863`, `4206871359`, `1750983426`, `6123045978`,
/// `3674209581`, `5869720134`, `8945362017`, `9438617205`, `2581436790`.
pub open spec fn table_row(interim: u8) -> u64 {
    if interim == 0 {
        0x2468957130
    } else if interim == 1 {
        0x3684512907
    } else if interim == 2 {
        0x9531786024
    } else if interim == 3 {
        0x6243890571
    } else if interim == 4 {
        0x8795403216
    } else if interim == 5 {
        0x1859024763
    } else if interim == 6 {
        0x4310279685
    } else if interim == 7 {
        0x7102635498
    } else if interim == 8 {
        0x5027168349
    } else {
        0x0976341852
    }
}

/// The interim digit after `digit` is taken in.
pub open spec fn next_interim(interim: u8, digit: u8) -> u8 {
    ((table_row(interim) >> ((4 * digit) as u64)) & 0xf) as u8
}

/// The interim digit after all digits of `s`, starting from `start`.
pub open spec fn interim_from(start: u8, s: Seq<char>) -> u8
    decreases s.len(),
{
    if s.len() == 0 {
        start
    } else {
        next_interim(interim_from(start, s.drop_last()), digit_value(s.last()) as u8)
    }
}

/// The check digit of a text of digits.
pub open spec fn check_digit(s: Seq<char>) -> u8 {
    interim_from(0, s)
}

/// Whether `s` is a text of digits that ends in its check digit.
pub open spec fn is_checked(s: Seq<char>) -> bool {
    s.len() > 0 && all_digits(s) && check_digit(s) == 0
}

/// The numbers that the digits of `s` stand for.
pub open spec fn digit_values(s: Seq<char>) -> Seq<u8> {
    s.map_values(|c: char| digit_value(c) as u8)
}

proof fn lemma_interim_is_digit(interim: u8, digit: u8)
    by (bit_vector)
    requires
        interim < 10,
        digit < 10,
    ensures
        next_interim(interim, digit) < 10,
{
}

proof fn lemma_own_digit_gives_zero(interim: u8, digit: u8)
    by (bit_vector)
    requires
        interim < 10,
        digit < 10,
    ensures
        next_interim(interim, digit) == 0 <==> digit == interim,
{
}

proof fn lemma_digit_is_noticed(interim: u8, d: u8, e: u8)
    by (bit_vector)
    requires
        interim < 10,
        d < 10,
        e < 10,
        next_interim(interim, d) == next_interim(interim, e),
    ensures
        d == e,
{
}

proof fn lemma_interim_is_kept_apart(a: u8, b: u8, digit: u8)
    by (bit_vector)
    requires
        a < 10,
        b < 10,
        digit < 10,
        next_interim(a, digit) == next_interim(b, digit),
    ensures
        a == b,
{
}

proof fn lemma_swap_is_noticed(interim: u8, d: u8, e: u8)
    by (bit_vector)
    requires
        interim < 10,
        d < 10,
        e < 10,
        next_interim(next_interim(interim, d), e) == next_interim(next_interim(interim, e), d),
    ensures
        d == e,
{
}

/// From a digit, digits lead to a digit.
proof fn lemma_interim_range(start: u8, s: Seq<char>)
    requires
        start < 10,
        all_digits(s),
    ensures
        interim_from(start, s) < 10,
    decreases s.len(),
{
    if s.len() > 0 {
        lemma_all_digits_parts(s, s.len() - 1);
        assert(s.take(s.len() - 1) =~= s.drop_last());
        lemma_interim_range(start, s.drop_last());
        assert(is_digit(s[s.len() - 1]));
        lemma_interim_is_digit(
            interim_from(start, s.drop_last()),
            digit_value(s.last()) as u8,
        );
    }
}

/// Both parts of a text of digits are texts of digits.
proof fn lemma_all_digits_parts(s: Seq<char>, k: int)
    requires
        all_digits(s),
        0 <= k <= s.len(),
    ensures
        all_digits(s.take(k)),
        all_digits(s.skip(k)),
{
    assert forall|i: int| 0 <= i < s.take(k).len() implies is_digit(#[trigger] s.take(k)[i]) by {
        assert(is_digit(s[i]));
    }
    assert forall|i: int| 0 <= i < s.skip(k).len() implies is_digit(#[trigger] s.skip(k)[i]) by {
        assert(is_digit(s[i + k]));
    }
}

/// A text is taken in part by part.
proof fn lemma_interim_concat(start: u8, a: Seq<char>, b: Seq<char>)
    ensures
        interim_from(start, a + b) == interim_from(interim_from(start, a), b),
    decreases b.len(),
{
    if b.len() == 0 {
        assert(a + b =~= a);
    } else {
        assert((a + b).drop_last() =~= a + b.drop_last());
        lemma_interim_concat(start, a, b.drop_last());
    }
}

/// Different interim digits stay different while the same digits follow.
proof fn lemma_interim_injective(x: u8, y: u8, s: Seq<char>)
    requires
        x < 10,
        y < 10,
        all_digits(s),
        interim_from(x, s) == interim_from(y, s),
    ensures
        x == y,
    decreases s.len(),
{
    if s.len() > 0 {
        lemma_all_digits_parts(s, s.len() - 1);
        assert(s.take(s.len() - 1) =~= s.drop_last());
        lemma_interim_range(x, s.drop_last());
        lemma_interim_range(y, s.drop_last());
        assert(is_digit(s[s.len() - 1]));
        lemma_interim_is_kept_apart(
            interim_from(x, s.drop_last()),
            interim_from(y, s.drop_last()),
            digit_value(s.last()) as u8,
        );
        lemma_interim_injective(x, y, s.drop_last());
    }
}

/// The check digit of a text of digits is a digit.
pub proof fn law_check_digit_is_digit(s: Seq<char>)
    requires
        all_digits(s),
    ensures
        check_digit(s) < 10,
{
    lemma_interim_range(0, s);
}

/// A text with its check digit behind it is accepted, and with any other digit
/// behind it is not.
pub proof fn law_only_check_digit_is_accepted(s: Seq<char>, d: u8)
    requires
        all_digits(s),
        d < 10,
    ensures
        is_checked(s.push(digit_char(d as int))) <==> d == check_digit(s),
{
    let t = s.push(digit_char(d as int));
    assert(t.drop_last() =~= s);
    assert(t.last() == digit_char(d as int));
    assert(all_digits(t)) by {
        assert forall|i: int| 0 <= i < t.len() implies is_digit(#[trigger] t[i]) by {
            if i < s.len() {
                assert(is_digit(s[i]));
            }
        }
    }
    lemma_interim_range(0, s);
    lemma_own_digit_gives_zero(check_digit(s), d);
}

/// A checked text in which one digit is changed is no longer accepted.
pub proof fn law_changed_digit_is_noticed(s: Seq<char>, i: int, c: char)
    requires
        is_checked(s),
        0 <= i < s.len(),
        is_digit(c),
        c != s[i],
    ensures
        !is_checked(s.update(i, c)),
{
    let t = s.update(i, c);
    let before = s.take(i);
    let after = s.skip(i + 1);
    assert(s =~= before + seq![s[i]] + after);
    assert(t =~= before + seq![c] + after);
    lemma_all_digits_parts(s, i);
    lemma_all_digits_parts(s, i + 1);
    assert(is_digit(s[i]));
    let x = interim_from(0, before);
    lemma_interim_range(0, before);
    let d = digit_value(s[i]) as u8;
    let e = digit_value(c) as u8;
    lemma_one_digit(x, s[i]);
    lemma_one_digit(x, c);
    lemma_interim_concat(0, before, seq![s[i]]);
    lemma_interim_concat(0, before, seq![c]);
    lemma_interim_concat(0, before + seq![s[i]], after);
    lemma_interim_concat(0, before + seq![c], after);
    lemma_interim_is_digit(x, d);
    lemma_interim_is_digit(x, e);
    if interim_from(0, t) == 0 {
        lemma_interim_injective(next_interim(x, d), next_interim(x, e), after);
        lemma_digit_is_noticed(x, d, e);
    }
}

proof fn lemma_one_digit(x: u8, c: char)
    ensures
        interim_from(x, seq![c]) == next_interim(x, digit_value(c) as u8),
{
    reveal_with_fuel(interim_from, 2);
    assert(seq![c].drop_last() =~= Seq::<char>::empty());
}

/// A checked text in which two different neighbouring digits are exchanged is
/// no longer accepted.
pub proof fn law_swapped_digits_are_noticed(s: Seq<char>, i: int)
    requires
        is_checked(s),
        0 <= i,
        i + 1 < s.len(),
        s[i] != s[i + 1],
    ensures
        !is_checked(s.update(i, s[i + 1]).update(i + 1, s[i])),
{
    let t = s.update(i, s[i + 1]).update(i + 1, s[i]);
    let before = s.take(i);
    let after = s.skip(i + 2);
    let a = s[i];
    let b = s[i + 1];
    assert(s =~= before + seq![a] + seq![b] + after);
    assert(t =~= before + seq![b] + seq![a] + after);
    lemma_all_digits_parts(s, i);
    lemma_all_digits_parts(s, i + 2);
    assert(is_digit(s[i]));
    assert(is_digit(s[i + 1]));
    let x = interim_from(0, before);
    lemma_interim_range(0, before);
    let d = digit_value(a) as u8;
    let e = digit_value(b) as u8;
    lemma_one_digit(x, a);
    lemma_one_digit(x, b);
    lemma_interim_is_digit(x, d);
    lemma_interim_is_digit(x, e);
    lemma_one_digit(next_interim(x, d), b);
    lemma_one_digit(next_interim(x, e), a);
    lemma_interim_is_digit(next_interim(x, d), e);
    lemma_interim_is_digit(next_interim(x, e), d);
    lemma_interim_concat(0, before, seq![a]);
    lemma_interim_concat(0, before, seq![b]);
    lemma_interim_concat(0, before + seq![a], seq![b]);
    lemma_interim_concat(0, before + seq![b], seq![a]);
    lemma_interim_concat(0, before + seq![a] + seq![b], after);
    lemma_interim_concat(0, before + seq![b] + seq![a], after);
    if interim_from(0, t) == 0 {
        lemma_interim_injective(
            next_interim(next_interim(x, d), e),
            next_interim(next_interim(x, e), d),
            after,
        );
        lemma_swap_is_noticed(x, d, e);
    }
}

/// The row of the operation table for an interim digit.
fn row(interim: u8) -> (r: u64)
    ensures
        r == table_row(interim),
{
    match interim {
        0 => 0x2468957130,
        1 => 0x3684512907,
        2 => 0x9531786024,
        3 => 0x6243890571,
        4 => 0x8795403216,
        5 => 0x1859024763,
        6 => 0x4310279685,
        7 => 0x7102635498,
        8 => 0x5027168349,
        _ => 0x0976341852,
    }
}

/// The interim digit after `digit` is taken in.
fn advance(interim: u8, digit: u8) -> (r: u8)
    requires
        interim < 10,
        digit < 10,
    ensures
        r == next_interim(interim, digit),
        r < 10,
{
    let shift: u64 = (4 * digit) as u64;
    let r: u8 = ((row(interim) >> shift) & 0xf) as u8;
    proof {
        lemma_interim_is_digit(interim, digit);
    }
    r
}

/// Appends its check digit to a text of digits.
pub fn add_to_str(s: String) -> (r: String)
    requires
        all_digits(s@),
    ensures
        r@ == s@.push(digit_char(check_digit(s@) as int)),
        is_checked(r@),
{
    let chars = chars_of(s.as_str());
    let mut interim: u8 = 0;
    let mut i: usize = 0;
    assert(s@.take(0) =~= Seq::<char>::empty());
    while i < chars.len()
        invariant
            i <= chars.len(),
            chars@ == s@,
            all_digits(s@),
            interim < 10,
            interim == interim_from(0, s@.take(i as int)),
        decreases chars.len() - i,
    {
        assert(is_digit(s@[i as int]));
        assert(s@.take(i + 1).drop_last() =~= s@.take(i as int));
        interim = advance(interim, (chars[i] as u32 - 48) as u8);
        i = i + 1;
    }
    assert(s@.take(i as int) =~= s@);
    proof {
        law_only_check_digit_is_accepted(s@, interim);
    }
    let mut out = s;
    push_digit(&mut out, interim as u64);
    out
}

/// The digits of `s` without its check digit, or `None` where `s` is not a text
/// of digits that ends in its check digit.
pub fn validate(s: &str) -> (r: Option<Vec<u8>>)
    ensures
        r is Some <==> is_checked(s@),
        r matches Some(digits) ==> digits@ == digit_values(s@.drop_last()),
{
    let chars = chars_of(s);
    if chars.len() == 0 {
        return None;
    }
    let mut digits: Vec<u8> = Vec::new();
    let mut interim: u8 = 0;
    let mut i: usize = 0;
    assert(s@.take(0) =~= Seq::<char>::empty());
    while i < chars.len()
        invariant
            i <= chars.len(),
            chars@ == s@,
            forall|j: int| 0 <= j < i ==> is_digit(#[trigger] s@[j]),
            interim < 10,
            interim == interim_from(0, s@.take(i as int)),
            digits@ == digit_values(s@.take(i as int)),
        decreases chars.len() - i,
    {
        let c = chars[i];
        if !('0' <= c && c <= '9') {
            assert(!is_digit(s@[i as int]));
            return None;
        }
        assert(s@.take(i + 1).drop_last() =~= s@.take(i as int));
        let digit: u8 = (c as u32 - 48) as u8;
        interim = advance(interim, digit);
        digits.push(digit);
        assert(digits@ =~= digit_values(s@.take(i + 1)));
        i = i + 1;
    }
    assert(s@.take(i as int) =~= s@);
    if interim != 0 {
        return None;
    }
    digits.pop();
    assert(digits@ =~= digit_values(s@.drop_last()));
    Some(digits)
}

/// The number that a list of digits stands for.
pub open spec fn number_of(digits: Seq<u8>) -> int
    decreases digits.len(),
{
    if digits.len() == 0 {
        0
    } else {
        10 * number_of(digits.drop_last()) + digits.last()
    }
}

proof fn lemma_number_grows(digits: Seq<u8>, k: int)
    requires
        0 <= k <= digits.len(),
    ensures
        0 <= number_of(digits.take(k)) <= number_of(digits),
    decreases digits.len(), digits.len() - k,
{
    if k == digits.len() {
        assert(digits.take(k) =~= digits);
        if k > 0 {
            lemma_number_grows(digits.drop_last(), k - 1);
        }
    } else {
        lemma_number_grows(digits.drop_last(), k);
        assert(digits.drop_last().take(k) =~= digits.take(k));
    }
}

/// The number that a list of digits stands for, or `None` where it is too large
/// for a 64-bit signed integer.
pub fn number_from_digits(digits: &Vec<u8>) -> (r: Option<i64>)
    ensures
        r == if number_of(digits@) <= i64::MAX {
            Some(number_of(digits@) as i64)
        } else {
            None
        },
{
    let mut value: i64 = 0;
    let mut i: usize = 0;
    assert(digits@.take(0) =~= Seq::<u8>::empty());
    while i < digits.len()
        invariant
            i <= digits.len(),
            0 <= value,
            value == number_of(digits@.take(i as int)),
        decreases digits.len() - i,
    {
        proof {
            assert(digits@.take(i + 1).drop_last() =~= digits@.take(i as int));
            lemma_number_grows(digits@, i + 1);
        }
        let next: i128 = 10 * (value as i128) + digits[i] as i128;
        if next > 9223372036854775807 {
            return None;
        }
        value = next as i64;
        i = i + 1;
    }
    assert(digits@.take(i as int) =~= digits@);
    Some(value)
}

proof fn lemma_number_of_text(s: Seq<char>)
    requires
        all_digits(s),
    ensures
        number_of(digit_values(s)) == crate::text::digits_value(s),
    decreases s.len(),
{
    if s.len() > 0 {
        lemma_all_digits_parts(s, s.len() - 1);
        assert(s.take(s.len() - 1) =~= s.drop_last());
        assert(is_digit(s[s.len() - 1]));
        assert(digit_values(s).drop_last() =~= digit_values(s.drop_last()));
        lemma_number_of_text(s.drop_last());
    }
}

/// The text under which the number `n` is announced: its numeral with the check
/// digit behind it.
pub open spec fn checked_numeral(n: nat) -> Seq<char> {
    crate::text::decimal_nat(n).push(digit_char(check_digit(crate::text::decimal_nat(n)) as int))
}

/// The announced text of a number is accepted, and the digits that are read out
/// of it stand for that number.
pub proof fn law_announced_number_reads_back(n: nat)
    ensures
        is_checked(checked_numeral(n)),
        number_of(digit_values(checked_numeral(n).drop_last())) == n,
{
    let s = crate::text::decimal_nat(n);
    crate::text::law_decimal_reads_back(n);
    law_check_digit_is_digit(s);
    law_only_check_digit_is_accepted(s, check_digit(s));
    assert(checked_numeral(n).drop_last() =~= s);
    lemma_number_of_text(s);
}

/// The text under which motion `id` is announced.
pub fn announced_id(id: i64) -> (r: String)
    requires
        id >= 0,
    ensures
        r@ == checked_numeral(id as nat),
{
    proof {
        crate::text::law_decimal_reads_back(id as nat);
    }
    add_to_str(crate::text::i64_text(id))
}

proof fn lemma_table_entries()
    by (bit_vector)
    ensures
        next_interim(0, 0) == 0 && next_interim(0, 1) == 3 && next_interim(0, 2) == 1 && next_interim(0, 3) == 7 && next_interim(0, 4) == 5 && next_interim(0, 5) == 9 && next_interim(0, 6) == 8 && next_interim(0, 7) == 6 && next_interim(0, 8) == 4 && next_interim(0, 9) == 2,
        next_interim(1, 0) == 7 && next_interim(1, 1) == 0 && next_interim(1, 2) == 9 && next_interim(1, 3) == 2 && next_interim(1, 4) == 1 && next_interim(1, 5) == 5 && next_interim(1, 6) == 4 && next_interim(1, 7) == 8 && next_interim(1, 8) == 6 && next_interim(1, 9) == 3,
        next_interim(2, 0) == 4 && next_interim(2, 1) == 2 && next_interim(2, 2) == 0 && next_interim(2, 3) == 6 && next_interim(2, 4) == 8 && next_interim(2, 5) == 7 && next_interim(2, 6) == 1 && next_interim(2, 7) == 3 && next_interim(2, 8) == 5 && next_interim(2, 9) == 9,
        next_interim(3, 0) == 1 && next_interim(3, 1) == 7 && next_interim(3, 2) == 5 && next_interim(3, 3) == 0 && next_interim(3, 4) == 9 && next_interim(3, 5) == 8 && next_interim(3, 6) == 3 && next_interim(3, 7) == 4 && next_interim(3, 8) == 2 && next_interim(3, 9) == 6,
        next_interim(4, 0) == 6 && next_interim(4, 1) == 1 && next_interim(4, 2) == 2 && next_interim(4, 3) == 3 && next_interim(4, 4) == 0 && next_interim(4, 5) == 4 && next_interim(4, 6) == 5 && next_interim(4, 7) == 9 && next_interim(4, 8) == 7 && next_interim(4, 9) == 8,
        next_interim(5, 0) == 3 && next_interim(5, 1) == 6 && next_interim(5, 2) == 7 && next_interim(5, 3) == 4 && next_interim(5, 4) == 2 && next_interim(5, 5) == 0 && next_interim(5, 6) == 9 && next_interim(5, 7) == 5 && next_interim(5, 8) == 8 && next_interim(5, 9) == 1,
        next_interim(6, 0) == 5 && next_interim(6, 1) == 8 && next_interim(6, 2) == 6 && next_interim(6, 3) == 9 && next_interim(6, 4) == 7 && next_interim(6, 5) == 2 && next_interim(6, 6) == 0 && next_interim(6, 7) == 1 && next_interim(6, 8) == 3 && next_interim(6, 9) == 4,
        next_interim(7, 0) == 8 && next_interim(7, 1) == 9 && next_interim(7, 2) == 4 && next_interim(7, 3) == 5 && next_interim(7, 4) == 3 && next_interim(7, 5) == 6 && next_interim(7, 6) == 2 && next_interim(7, 7) == 0 && next_interim(7, 8) == 1 && next_interim(7, 9) == 7,
        next_interim(8, 0) == 9 && next_interim(8, 1) == 4 && next_interim(8, 2) == 3 && next_interim(8, 3) == 8 && next_interim(8, 4) == 6 && next_interim(8, 5) == 1 && next_interim(8, 6) == 7 && next_interim(8, 7) == 2 && next_interim(8, 8) == 0 && next_interim(8, 9) == 5,
        next_interim(9, 0) == 2 && next_interim(9, 1) == 5 && next_interim(9, 2) == 8 && next_interim(9, 3) == 1 && next_interim(9, 4) == 4 && next_interim(9, 5) == 3 && next_interim(9, 6) == 6 && next_interim(9, 7) == 7 && next_interim(9, 8) == 9 && next_interim(9, 9) == 0,
{
}

/// The operation table, row by row.
pub proof fn law_operation_table(interim: u8, digit: u8)
    requires
        interim < 10,
        digit < 10,
    ensures
        interim == 0 ==> next_interim(interim, digit) == seq![0u8, 3, 1, 7, 5, 9, 8, 6, 4, 2][digit as int],
        interim == 1 ==> next_interim(interim, digit) == seq![7u8, 0, 9, 2, 1, 5, 4, 8, 6, 3][digit as int],
        interim == 2 ==> next_interim(interim, digit) == seq![4u8, 2, 0, 6, 8, 7, 1, 3, 5, 9][digit as int],
        interim == 3 ==> next_interim(interim, digit) == seq![1u8, 7, 5, 0, 9, 8, 3, 4, 2, 6][digit as int],
        interim == 4 ==> next_interim(interim, digit) == seq![6u8, 1, 2, 3, 0, 4, 5, 9, 7, 8][digit as int],
        interim == 5 ==> next_interim(interim, digit) == seq![3u8, 6, 7, 4, 2, 0, 9, 5, 8, 1][digit as int],
        interim == 6 ==> next_interim(interim, digit) == seq![5u8, 8, 6, 9, 7, 2, 0, 1, 3, 4][digit as int],
        interim == 7 ==> next_interim(interim, digit) == seq![8u8, 9, 4, 5, 3, 6, 2, 0, 1, 7][digit as int],
        interim == 8 ==> next_interim(interim, digit) == seq![9u8, 4, 3, 8, 6, 1, 7, 2, 0, 5][digit as int],
        interim == 9 ==> next_interim(interim, digit) == seq![2u8, 5, 8, 1, 4, 3, 6, 7, 9, 0][digit as int],
{
    lemma_table_entries();
    if digit == 0 {
        assert((interim == 0 ==> next_interim(interim, digit) == 0) && (interim == 1 ==> next_interim(interim, digit) == 7) && (interim == 2 ==> next_interim(interim, digit) == 4) && (interim == 3 ==> next_interim(interim, digit) == 1) && (interim == 4 ==> next_interim(interim, digit) == 6) && (interim == 5 ==> next_interim(interim, digit) == 3) && (interim == 6 ==> next_interim(interim, digit) == 5) && (interim == 7 ==> next_interim(interim, digit) == 8) && (interim == 8 ==> next_interim(interim, digit) == 9) && (interim == 9 ==> next_interim(interim, digit) == 2));
    }
    if digit == 1 {
        assert((interim == 0 ==> next_interim(interim, digit) == 3) && (interim == 1 ==> next_interim(interim, digit) == 0) && (interim == 2 ==> next_interim(interim, digit) == 2) && (interim == 3 ==> next_interim(interim, digit) == 7) && (interim == 4 ==> next_interim(interim, digit) == 1) && (interim == 5 ==> next_interim(interim, digit) == 6) && (interim == 6 ==> next_interim(interim, digit) == 8) && (interim == 7 ==> next_interim(interim, digit) == 9) && (interim == 8 ==> next_interim(interim, digit) == 4) && (interim == 9 ==> next_interim(interim, digit) == 5));
    }
    if digit == 2 {
        assert((interim == 0 ==> next_interim(interim, digit) == 1) && (interim == 1 ==> next_interim(interim, digit) == 9) && (interim == 2 ==> next_interim(interim, digit) == 0) && (interim == 3 ==> next_interim(interim, digit) == 5) && (interim == 4 ==> next_interim(interim, digit) == 2) && (interim == 5 ==> next_interim(interim, digit) == 7) && (interim == 6 ==> next_interim(interim, digit) == 6) && (interim == 7 ==> next_interim(interim, digit) == 4) && (interim == 8 ==> next_interim(interim, digit) == 3) && (interim == 9 ==> next_interim(interim, digit) == 8));
    }
    if digit == 3 {
        assert((interim == 0 ==> next_interim(interim, digit) == 7) && (interim == 1 ==> next_interim(interim, digit) == 2) && (interim == 2 ==> next_interim(interim, digit) == 6) && (interim == 3 ==> next_interim(interim, digit) == 0) && (interim == 4 ==> next_interim(interim, digit) == 3) && (interim == 5 ==> next_interim(interim, digit) == 4) && (interim == 6 ==> next_interim(interim, digit) == 9) && (interim == 7 ==> next_interim(interim, digit) == 5) && (interim == 8 ==> next_interim(interim, digit) == 8) && (interim == 9 ==> next_interim(interim, digit) == 1));
    }
    if digit == 4 {
        assert((interim == 0 ==> next_interim(interim, digit) == 5) && (interim == 1 ==> next_interim(interim, digit) == 1) && (interim == 2 ==> next_interim(interim, digit) == 8) && (interim == 3 ==> next_interim(interim, digit) == 9) && (interim == 4 ==> next_interim(interim, digit) == 0) && (interim == 5 ==> next_interim(interim, digit) == 2) && (interim == 6 ==> next_interim(interim, digit) == 7) && (interim == 7 ==> next_interim(interim, digit) == 3) && (interim == 8 ==> next_interim(interim, digit) == 6) && (interim == 9 ==> next_interim(interim, digit) == 4));
    }
    if digit == 5 {
        assert((interim == 0 ==> next_interim(interim, digit) == 9) && (interim == 1 ==> next_interim(interim, digit) == 5) && (interim == 2 ==> next_interim(interim, digit) == 7) && (interim == 3 ==> next_interim(interim, digit) == 8) && (interim == 4 ==> next_interim(interim, digit) == 4) && (interim == 5 ==> next_interim(interim, digit) == 0) && (interim == 6 ==> next_interim(interim, digit) == 2) && (interim == 7 ==> next_interim(interim, digit) == 6) && (interim == 8 ==> next_interim(interim, digit) == 1) && (interim == 9 ==> next_interim(interim, digit) == 3));
    }
    if digit == 6 {
        assert((interim == 0 ==> next_interim(interim, digit) == 8) && (interim == 1 ==> next_interim(interim, digit) == 4) && (interim == 2 ==> next_interim(interim, digit) == 1) && (interim == 3 ==> next_interim(interim, digit) == 3) && (interim == 4 ==> next_interim(interim, digit) == 5) && (interim == 5 ==> next_interim(interim, digit) == 9) && (interim == 6 ==> next_interim(interim, digit) == 0) && (interim == 7 ==> next_interim(interim, digit) == 2) && (interim == 8 ==> next_interim(interim, digit) == 7) && (interim == 9 ==> next_interim(interim, digit) == 6));
    }
    if digit == 7 {
        assert((interim == 0 ==> next_interim(interim, digit) == 6) && (interim == 1 ==> next_interim(interim, digit) == 8) && (interim == 2 ==> next_interim(interim, digit) == 3) && (interim == 3 ==> next_interim(interim, digit) == 4) && (interim == 4 ==> next_interim(interim, digit) == 9) && (interim == 5 ==> next_interim(interim, digit) == 5) && (interim == 6 ==> next_interim(interim, digit) == 1) && (interim == 7 ==> next_interim(interim, digit) == 0) && (interim == 8 ==> next_interim(interim, digit) == 2) && (interim == 9 ==> next_interim(interim, digit) == 7));
    }
    if digit == 8 {
        assert((interim == 0 ==> next_interim(interim, digit) == 4) && (interim == 1 ==> next_interim(interim, digit) == 6) && (interim == 2 ==> next_interim(interim, digit) == 5) && (interim == 3 ==> next_interim(interim, digit) == 2) && (interim == 4 ==> next_interim(interim, digit) == 7) && (interim == 5 ==> next_interim(interim, digit) == 8) && (interim == 6 ==> next_interim(interim, digit) == 3) && (interim == 7 ==> next_interim(interim, digit) == 1) && (interim == 8 ==> next_interim(interim, digit) == 0) && (interim == 9 ==> next_interim(interim, digit) == 9));
    }
    if digit == 9 {
        assert((interim == 0 ==> next_interim(interim, digit) == 2) && (interim == 1 ==> next_interim(interim, digit) == 3) && (interim == 2 ==> next_interim(interim, digit) == 9) && (interim == 3 ==> next_interim(interim, digit) == 6) && (interim == 4 ==> next_interim(interim, digit) == 8) && (interim == 5 ==> next_interim(interim, digit) == 1) && (interim == 6 ==> next_interim(interim, digit) == 4) && (interim == 7 ==> next_interim(interim, digit) == 7) && (interim == 8 ==> next_interim(interim, digit) == 5) && (interim == 9 ==> next_interim(interim, digit) == 0));
    }
}

/// The check digit is found digit by digit: each digit that is appended takes
/// one step in the table, from the check digit of what stands before it.
pub proof fn law_check_digit_takes_every_digit(s: Seq<char>, c: char)
    ensures
        check_digit(Seq::<char>::empty()) == 0,
        check_digit(s.push(c)) == next_interim(check_digit(s), digit_value(c) as u8),
{
    assert(s.push(c).drop_last() =~= s);
}

/// What is accepted is not empty and holds nothing but digits, and the digits
/// that are read are those of the text, in order.
pub proof fn law_accepted_texts_are_digits(s: Seq<char>, i: int)
    ensures
        is_checked(s) ==> s.len() > 0,
        is_checked(s) && 0 <= i < s.len() ==> '0' <= s[i] && s[i] <= '9',
        digit_values(s).len() == s.len(),
        0 <= i < s.len() && is_digit(s[i]) ==> digit_values(s)[i] == s[i] as int - 48,
{
}

/// The number that digits stand for is that of the text of these digits, of
/// any length; a digit that is appended counts once, and what stands before it
/// ten times.
pub proof fn law_number_of_digits(s: Seq<char>, digits: Seq<u8>, d: u8)
    ensures
        all_digits(s) ==> number_of(digit_values(s)) == crate::text::digits_value(s),
        number_of(Seq::<u8>::empty()) == 0,
        number_of(digits.push(d)) == 10 * number_of(digits) + d,
{
    assert(digits.push(d).drop_last() =~= digits);
    if all_digits(s) {
        lemma_number_of_text(s);
    }
}

/// The announced text of a number is its numeral and one digit more.
pub proof fn law_announced_number_shape(n: nat)
    ensures
        checked_numeral(n).drop_last() == crate::text::decimal(n as int),
        is_digit(checked_numeral(n).last()),
        digit_value(checked_numeral(n).last()) == check_digit(crate::text::decimal(n as int)),
{
    crate::text::law_decimal_reads_back(n);
    law_check_digit_is_digit(crate::text::decimal_nat(n));
    assert(checked_numeral(n).drop_last() =~= crate::text::decimal(n as int));
}

} // verus!
