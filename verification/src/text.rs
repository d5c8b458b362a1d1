//! Text: decimal numerals, equality of strings and the comparison of names
//! that ignores the case of ASCII letters.

use vstd::prelude::*;

verus! {

/// The character of the digit `d`, for `0 <= d <= 9`.
pub open spec fn digit_char(d: int) -> char {
    (48 + d) as char
}

/// Whether `c` is one of `0` to `9`.
pub open spec fn is_digit(c: char) -> bool {
    '0' <= c && c <= '9'
}

/// The number that the digit `c` stands for.
pub open spec fn digit_value(c: char) -> int {
    c as int - 48
}

/// Whether every character of `s` is a digit; true of the empty text.
pub open spec fn all_digits(s: Seq<char>) -> bool {
    forall|i: int| 0 <= i < s.len() ==> is_digit(#[trigger] s[i])
}

/// The number that a text of digits stands for; 0 for the empty text.
pub open spec fn digits_value(s: Seq<char>) -> int
    decreases s.len(),
{
    if s.len() == 0 {
        0
    } else {
        10 * digits_value(s.drop_last()) + digit_value(s.last())
    }
}

/// The decimal numeral of a natural number, without leading zeros.
pub open spec fn decimal_nat(n: nat) -> Seq<char>
    decreases n,
{
    if n < 10 {
        seq![digit_char(n as int)]
    } else {
        decimal_nat(n / 10).push(digit_char((n % 10) as int))
    }
}

/// The decimal numeral of an integer, with a leading `-` where it is negative.
pub open spec fn decimal(n: int) -> Seq<char> {
    if n < 0 {
        seq!['-'] + decimal_nat((-n) as nat)
    } else {
        decimal_nat(n as nat)
    }
}

/// Reading a numeral back gives the number that it was made from.
pub proof fn law_decimal_reads_back(n: nat)
    ensures
        decimal_nat(n).len() > 0,
        all_digits(decimal_nat(n)),
        digits_value(decimal_nat(n)) == n,
    decreases n,
{
    reveal_with_fuel(digits_value, 2);
    if n >= 10 {
        law_decimal_reads_back(n / 10);
        assert(decimal_nat(n).drop_last() =~= decimal_nat(n / 10));
    } else {
        assert(decimal_nat(n).drop_last() =~= Seq::<char>::empty());
    }
}

/// The value of a text of digits is not negative.
pub proof fn lemma_digits_value_nonnegative(s: Seq<char>)
    requires
        all_digits(s),
    ensures
        0 <= digits_value(s),
    decreases s.len(),
{
    if s.len() > 0 {
        assert(is_digit(s[s.len() - 1]));
        assert forall|i: int| 0 <= i < s.drop_last().len() implies is_digit(
            #[trigger] s.drop_last()[i],
        ) by {
            assert(is_digit(s[i]));
        }
        lemma_digits_value_nonnegative(s.drop_last());
    }
}

/// The one-character text of a digit.
fn digit_text(d: u64) -> (r: &'static str)
    requires
        d < 10,
    ensures
        r@ == seq![digit_char(d as int)],
{
    proof {
        reveal_strlit("0");
        reveal_strlit("1");
        reveal_strlit("2");
        reveal_strlit("3");
        reveal_strlit("4");
        reveal_strlit("5");
        reveal_strlit("6");
        reveal_strlit("7");
        reveal_strlit("8");
        reveal_strlit("9");
    }
    match d {
        0 => "0",
        1 => "1",
        2 => "2",
        3 => "3",
        4 => "4",
        5 => "5",
        6 => "6",
        7 => "7",
        8 => "8",
        _ => "9",
    }
}

/// Appends the digit `d` to `out`.
pub fn push_digit(out: &mut String, d: u64)
    requires
        d < 10,
    ensures
        final(out)@ == old(out)@.push(digit_char(d as int)),
{
    out.append(digit_text(d));
    assert(out@ =~= old(out)@.push(digit_char(d as int)));
}

/// Appends the decimal numeral of `n` to `out`.
pub fn push_u64(out: &mut String, n: u64)
    ensures
        final(out)@ == old(out)@ + decimal(n as int),
    decreases n,
{
    if n >= 10 {
        push_u64(out, n / 10);
    }
    push_digit(out, n % 10);
    assert(out@ =~= old(out)@ + decimal(n as int));
}

/// Appends the decimal numeral of `n` to `out`.
pub fn push_i64(out: &mut String, n: i64)
    ensures
        final(out)@ == old(out)@ + decimal(n as int),
{
    if n < 0 {
        proof {
            reveal_strlit("-");
        }
        out.append("-");
        let magnitude: i128 = -(n as i128);
        push_u64(out, magnitude as u64);
        assert(out@ =~= old(out)@ + decimal(n as int));
    } else {
        push_u64(out, n as u64);
    }
}

/// The decimal numeral of `n`.
pub fn u64_text(n: u64) -> (r: String)
    ensures
        r@ == decimal(n as int),
{
    let mut out = String::new();
    push_u64(&mut out, n);
    assert(out@ =~= decimal(n as int));
    out
}

/// The decimal numeral of `n`.
pub fn i64_text(n: i64) -> (r: String)
    ensures
        r@ == decimal(n as int),
{
    let mut out = String::new();
    push_i64(&mut out, n);
    assert(out@ =~= decimal(n as int));
    out
}

/// The characters of `s`, in order.
pub fn chars_of(s: &str) -> (r: Vec<char>)
    ensures
        r@ == s@,
{
    let mut out: Vec<char> = Vec::new();
    for c in it: s.chars()
        invariant
            it.seq() == s@,
            out@ == s@.take(it.index() as int),
    {
        out.push(c);
        assert(s@.take(it.index() as int + 1) =~= s@.take(it.index() as int).push(c));
    }
    assert(out@ =~= s@);
    out
}

/// Whether two texts are equal.
pub fn same_text(a: &str, b: &str) -> (r: bool)
    ensures
        r == (a@ == b@),
{
    a.to_owned() == b.to_owned()
}

/// `c`, with an ASCII small letter replaced by its capital.
pub open spec fn ascii_upper(c: char) -> char {
    if 'a' <= c && c <= 'z' {
        (c as int - 32) as char
    } else {
        c
    }
}

/// `s`, with every ASCII small letter replaced by its capital.
pub open spec fn ascii_upper_text(s: Seq<char>) -> Seq<char> {
    s.map_values(|c: char| ascii_upper(c))
}

/// `c`, with an ASCII small letter replaced by its capital, as a code point.
fn upper_code(c: char) -> (r: u32)
    ensures
        r == ascii_upper(c) as u32,
{
    if 'a' <= c && c <= 'z' {
        c as u32 - 32
    } else {
        c as u32
    }
}

/// Whether two texts are equal once their ASCII letters are capitals.
pub fn same_ignoring_case(a: &str, b: &str) -> (r: bool)
    ensures
        r == (ascii_upper_text(a@) == ascii_upper_text(b@)),
{
    let left = chars_of(a);
    let right = chars_of(b);
    if left.len() != right.len() {
        assert(ascii_upper_text(a@).len() != ascii_upper_text(b@).len());
        return false;
    }
    let mut i: usize = 0;
    while i < left.len()
        invariant
            i <= left.len(),
            left@ == a@,
            right@ == b@,
            left.len() == right.len(),
            forall|j: int|
                0 <= j < i ==> ascii_upper(#[trigger] a@[j]) == ascii_upper(#[trigger] b@[j]),
        decreases left.len() - i,
    {
        if upper_code(left[i]) != upper_code(right[i]) {
            assert(ascii_upper_text(a@)[i as int] != ascii_upper_text(b@)[i as int]);
            return false;
        }
        i = i + 1;
    }
    assert(ascii_upper_text(a@) =~= ascii_upper_text(b@));
    true
}

/// The digits are the ten characters `0` to `9`, in the order of their values.
pub proof fn law_digit_characters(c: char, d: int)
    ensures
        is_digit(c) <==> (c == '0' || c == '1' || c == '2' || c == '3' || c == '4' || c == '5' || c
            == '6' || c == '7' || c == '8' || c == '9'),
        digit_char(0) == '0',
        digit_char(1) == '1',
        digit_char(9) == '9',
        0 <= d <= 9 ==> is_digit(digit_char(d)) && digit_value(digit_char(d)) == d,
        is_digit(c) ==> 0 <= digit_value(c) <= 9 && digit_char(digit_value(c)) == c,
        digit_value('0') == 0,
        digit_value('1') == 1,
{
}

/// Every digit counts, by its place: a digit that is appended adds its value
/// to ten times the number before it, and a digit that is put in front counts
/// as often as its place says.
pub proof fn law_digits_count_by_place(a: Seq<char>, b: Seq<char>, c: char)
    ensures
        digits_value(Seq::<char>::empty()) == 0,
        digits_value(seq![c]) == digit_value(c),
        digits_value(a.push(c)) == 10 * digits_value(a) + digit_value(c),
        digits_value(a + b) == digits_value(a) * vstd::arithmetic::power::pow(10, b.len())
            + digits_value(b),
    decreases b.len(),
{
    reveal_with_fuel(digits_value, 2);
    assert(seq![c].drop_last() =~= Seq::<char>::empty());
    assert(a.push(c).drop_last() =~= a);
    reveal(vstd::arithmetic::power::pow);
    if b.len() == 0 {
        assert(a + b =~= a);
    } else {
        let init = b.drop_last();
        law_digits_count_by_place(a, init, c);
        assert((a + b).drop_last() =~= a + init);
        let p = vstd::arithmetic::power::pow(10, init.len());
        assert(vstd::arithmetic::power::pow(10, b.len()) == 10 * p);
        assert(10 * (digits_value(a) * p + digits_value(init)) == digits_value(a) * (10 * p) + 10
            * digits_value(init)) by (nonlinear_arith);
    }
}

/// A numeral has no leading zero, but for the numeral `0` itself, and a sign
/// exactly where the number is negative.
pub proof fn law_numerals_are_plain(n: int)
    ensures
        n < 0 <==> decimal(n)[0] == '-',
        n < 0 ==> decimal(n).skip(1) == decimal(-n),
        n == 0 ==> decimal(n) == seq!['0'],
        n > 0 ==> decimal(n)[0] != '0',
        n >= 0 ==> all_digits(decimal(n)) && digits_value(decimal(n)) == n,
    decreases (if n < 0 {
        -n + 1
    } else {
        n
    }),
{
    if n < 0 {
        assert(decimal(n).skip(1) =~= decimal(-n));
    } else {
        law_decimal_reads_back(n as nat);
        assert(is_digit(decimal(n)[0]));
        if n >= 10 {
            law_numerals_are_plain(n / 10);
            law_decimal_reads_back((n / 10) as nat);
            assert(decimal(n)[0] == decimal(n / 10)[0]);
        }
    }
}

/// Different numbers have different numerals.
pub proof fn law_numerals_are_different(m: int, n: int)
    ensures
        decimal(m) == decimal(n) ==> m == n,
{
    law_numerals_are_plain(m);
    law_numerals_are_plain(n);
    law_numerals_are_plain(-m);
    law_numerals_are_plain(-n);
}

/// Two texts are the same but for case exactly if they have the same length
/// and at each place the same character, or the small and the capital form of
/// one ASCII letter.
pub proof fn law_same_but_for_case(a: Seq<char>, b: Seq<char>)
    ensures
        ascii_upper_text(a) == ascii_upper_text(b) <==> a.len() == b.len() && forall|i: int|
            0 <= i < a.len() ==> {
                let x = #[trigger] a[i];
                let y = b[i];
                x == y || ('a' <= x && x <= 'z' && y as int == x as int - 32) || ('a' <= y && y
                    <= 'z' && x as int == y as int - 32)
            },
{
    let u = ascii_upper_text(a);
    let v = ascii_upper_text(b);
    if u == v {
        assert(u.len() == v.len());
        assert forall|i: int| 0 <= i < a.len() implies {
            let x = #[trigger] a[i];
            let y = b[i];
            x == y || ('a' <= x && x <= 'z' && y as int == x as int - 32) || ('a' <= y && y <= 'z'
                && x as int == y as int - 32)
        } by {
            assert(u[i] == v[i]);
            assert(u[i] == ascii_upper(a[i]));
            assert(v[i] == ascii_upper(b[i]));
        }
    }
    if a.len() == b.len() && forall|i: int|
        0 <= i < a.len() ==> {
            let x = #[trigger] a[i];
            let y = b[i];
            x == y || ('a' <= x && x <= 'z' && y as int == x as int - 32) || ('a' <= y && y <= 'z'
                && x as int == y as int - 32)
        } {
        assert forall|i: int| 0 <= i < u.len() implies u[i] == v[i] by {
            let x = a[i];
            let y = b[i];
            assert(ascii_upper(x) == ascii_upper(y));
        }
        assert(u =~= v);
    }
}

/// A text with another behind it: where each of them stands.
pub proof fn lemma_appended(a: Seq<char>, b: Seq<char>)
    ensures
        (a + b).len() == a.len() + b.len(),
        (a + b).take(a.len() as int) == a,
        (a + b).skip(a.len() as int) == b,
        (a + b).subrange(a.len() as int, (a + b).len() as int) == b,
{
    assert((a + b).take(a.len() as int) =~= a);
    assert((a + b).skip(a.len() as int) =~= b);
    assert((a + b).subrange(a.len() as int, (a + b).len() as int) =~= b);
}

/// Two texts behind a third stand there together.
pub proof fn lemma_appended_two(a: Seq<char>, b: Seq<char>, c: Seq<char>)
    ensures
        (a + b + c).subrange(a.len() as int, (a + b + c).len() as int) == b + c,
{
    assert((a + b + c).subrange(a.len() as int, (a + b + c).len() as int) =~= b + c);
}

/// The start of a start of a text is a start of the text.
pub proof fn lemma_start_of_start(a: Seq<char>, b: Seq<char>, whole: Seq<char>)
    requires
        a.len() <= b.len() <= whole.len(),
        b.take(a.len() as int) == a,
        whole.take(b.len() as int) == b,
    ensures
        whole.take(a.len() as int) == a,
{
    assert(whole.take(a.len() as int) =~= whole.take(b.len() as int).take(a.len() as int));
}

/// What is cut out of the start of a text is cut out of the text.
pub proof fn lemma_cut_of_start(start: Seq<char>, whole: Seq<char>, from: int, to: int)
    requires
        start.len() <= whole.len(),
        whole.take(start.len() as int) == start,
        0 <= from <= to <= start.len(),
    ensures
        whole.subrange(from, to) == start.subrange(from, to),
{
    assert(whole.subrange(from, to) =~= whole.take(start.len() as int).subrange(from, to));
}

/// A text holds nothing but digits exactly if each of its characters, wherever
/// it stands, is one of `0` to `9`.
pub proof fn law_all_digits(a: Seq<char>, b: Seq<char>, c: char)
    ensures
        all_digits(a) <==> forall|i: int|
            0 <= i < a.len() ==> '0' <= #[trigger] a[i] && a[i] <= '9',
        all_digits(a.push(c)) <==> all_digits(a) && '0' <= c && c <= '9',
        all_digits(a + b) <==> all_digits(a) && all_digits(b),
{
    if all_digits(a.push(c)) {
        assert forall|i: int| 0 <= i < a.len() implies is_digit(#[trigger] a[i]) by {
            assert(is_digit(a.push(c)[i]));
        }
        assert(is_digit(a.push(c)[a.len() as int]));
    }
    if all_digits(a + b) {
        assert forall|i: int| 0 <= i < a.len() implies is_digit(#[trigger] a[i]) by {
            assert(is_digit((a + b)[i]));
        }
        assert forall|i: int| 0 <= i < b.len() implies is_digit(#[trigger] b[i]) by {
            assert(is_digit((a + b)[a.len() + i]));
        }
    }
}

} // verus!
