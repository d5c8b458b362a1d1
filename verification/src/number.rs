//! Reading integers from text: an optional sign, then one digit or more, and
//! nothing else. What goes wrong is named by the first character that cannot
//! be taken.

use vstd::prelude::*;

use crate::text::chars_of;
#[allow(unused_imports)]
use crate::text::{all_digits, digit_value, digits_value, is_digit};

verus! {

/// Why a text is not an integer of the wanted type.
#[derive(Clone, Copy, Debug, PartialEq, Eq, Structural)]
pub enum IntError {
    /// The text is empty.
    Empty,
    /// A character is not a digit, or a sign stands alone.
    InvalidDigit,
    /// The number is too large for the type.
    PosOverflow,
    /// The number is too small for the type.
    NegOverflow,
}

impl IntError {
    /// The sentence that describes the error.
    pub open spec fn sentence(self) -> Seq<char> {
        match self {
            IntError::Empty => "cannot parse integer from empty string"@,
            IntError::InvalidDigit => "invalid digit found in string"@,
            IntError::PosOverflow => "number too large to fit in target type"@,
            IntError::NegOverflow => "number too small to fit in target type"@,
        }
    }

    /// The error as it is shown to developers.
    pub open spec fn debug_view(self) -> Seq<char> {
        match self {
            IntError::Empty => "ParseIntError { kind: Empty }"@,
            IntError::InvalidDigit => "ParseIntError { kind: InvalidDigit }"@,
            IntError::PosOverflow => "ParseIntError { kind: PosOverflow }"@,
            IntError::NegOverflow => "ParseIntError { kind: NegOverflow }"@,
        }
    }

    /// The sentence that describes the error.
    pub fn message(&self) -> (r: &'static str)
        ensures
            r@ == self.sentence(),
            *self is Empty ==> r@ == "cannot parse integer from empty string"@,
            *self is InvalidDigit ==> r@ == "invalid digit found in string"@,
            *self is PosOverflow ==> r@ == "number too large to fit in target type"@,
            *self is NegOverflow ==> r@ == "number too small to fit in target type"@,
    {
        match *self {
            IntError::Empty => "cannot parse integer from empty string",
            IntError::InvalidDigit => "invalid digit found in string",
            IntError::PosOverflow => "number too large to fit in target type",
            IntError::NegOverflow => "number too small to fit in target type",
        }
    }

    /// The error as it is shown to developers.
    pub fn debug_text(&self) -> (r: &'static str)
        ensures
            r@ == self.debug_view(),
            *self is Empty ==> r@ == "ParseIntError { kind: Empty }"@,
            *self is InvalidDigit ==> r@ == "ParseIntError { kind: InvalidDigit }"@,
            *self is PosOverflow ==> r@ == "ParseIntError { kind: PosOverflow }"@,
            *self is NegOverflow ==> r@ == "ParseIntError { kind: NegOverflow }"@,
    {
        match *self {
            IntError::Empty => "ParseIntError { kind: Empty }",
            IntError::InvalidDigit => "ParseIntError { kind: InvalidDigit }",
            IntError::PosOverflow => "ParseIntError { kind: PosOverflow }",
            IntError::NegOverflow => "ParseIntError { kind: NegOverflow }",
        }
    }
}

/// Reads digits from left to right. The first character that is no digit, or
/// that takes the number above `max`, decides the error.
pub open spec fn read_digits(s: Seq<char>, max: int, over: IntError) -> Result<int, IntError>
    decreases s.len(),
{
    if s.len() == 0 {
        Ok(0)
    } else {
        match read_digits(s.drop_last(), max, over) {
            Err(e) => Err(e),
            Ok(v) => if !is_digit(s.last()) {
                Err(IntError::InvalidDigit)
            } else if 10 * v + digit_value(s.last()) > max {
                Err(over)
            } else {
                Ok(10 * v + digit_value(s.last()))
            },
        }
    }
}

/// Whether `s` is a sign and nothing else.
pub open spec fn lone_sign(s: Seq<char>) -> bool {
    s.len() == 1 && (s[0] == '+' || s[0] == '-')
}

/// The number that `s` denotes as an unsigned integer up to `max`. A leading
/// `+` is allowed.
pub open spec fn read_unsigned(s: Seq<char>, max: int) -> Result<int, IntError> {
    if s.len() == 0 {
        Err(IntError::Empty)
    } else if lone_sign(s) {
        Err(IntError::InvalidDigit)
    } else if s[0] == '+' {
        read_digits(s.skip(1), max, IntError::PosOverflow)
    } else {
        read_digits(s, max, IntError::PosOverflow)
    }
}

/// The number that `s` denotes as a 64-bit signed integer. A leading `+` or
/// `-` is allowed.
pub open spec fn read_signed(s: Seq<char>) -> Result<int, IntError> {
    if s.len() == 0 {
        Err(IntError::Empty)
    } else if lone_sign(s) {
        Err(IntError::InvalidDigit)
    } else if s[0] == '-' {
        match read_digits(s.skip(1), i64::MAX + 1, IntError::NegOverflow) {
            Ok(v) => Ok(-v),
            Err(e) => Err(e),
        }
    } else if s[0] == '+' {
        read_digits(s.skip(1), i64::MAX as int, IntError::PosOverflow)
    } else {
        read_digits(s, i64::MAX as int, IntError::PosOverflow)
    }
}

/// A text of digits is read as its value where that fits, and refused as too
/// large where it does not; any other text is refused.
pub proof fn law_read_digits(s: Seq<char>, max: int, over: IntError)
    requires
        0 <= max,
    ensures
        read_digits(s, max, over) is Ok <==> all_digits(s) && digits_value(s) <= max,
        read_digits(s, max, over) is Ok ==> read_digits(s, max, over) == Ok::<int, IntError>(
            digits_value(s),
        ) && 0 <= digits_value(s),
        all_digits(s) && digits_value(s) > max ==> read_digits(s, max, over) == Err::<
            int,
            IntError,
        >(over),
        read_digits(s, max, over) is Err ==> read_digits(s, max, over)->Err_0 == over
            || read_digits(s, max, over)->Err_0 == IntError::InvalidDigit,
    decreases s.len(),
{
    if s.len() > 0 {
        let init = s.drop_last();
        law_read_digits(init, max, over);
        if all_digits(s) {
            assert forall|i: int| 0 <= i < init.len() implies is_digit(#[trigger] init[i]) by {
                assert(is_digit(s[i]));
            }
            assert(is_digit(s[s.len() - 1]));
            crate::text::lemma_digits_value_nonnegative(init);
        } else if all_digits(init) {
            assert(!is_digit(s.last())) by {
                if is_digit(s.last()) {
                    assert forall|i: int| 0 <= i < s.len() implies is_digit(#[trigger] s[i]) by {
                        if i < s.len() - 1 {
                            assert(is_digit(init[i]));
                        }
                    }
                }
            }
        }
    }
}

/// An error stays once a longer text is read.
proof fn lemma_error_stays(s: Seq<char>, k: int, max: int, over: IntError)
    requires
        0 <= k <= s.len(),
        read_digits(s.take(k), max, over) is Err,
    ensures
        read_digits(s, max, over) == read_digits(s.take(k), max, over),
    decreases s.len() - k,
{
    if k < s.len() {
        assert(s.take(k + 1).drop_last() =~= s.take(k));
        lemma_error_stays(s, k + 1, max, over);
    } else {
        assert(s.take(k) =~= s);
    }
}

/// Reads the digits of `chars` from position `from` on.
fn scan(chars: &Vec<char>, from: usize, max: u64, over: IntError) -> (r: Result<u64, IntError>)
    requires
        from <= chars.len(),
    ensures
        read_digits(chars@.skip(from as int), max as int, over) == match r {
            Ok(v) => Ok::<int, IntError>(v as int),
            Err(e) => Err::<int, IntError>(e),
        },
{
    let ghost tail = chars@.skip(from as int);
    let mut value: u64 = 0;
    let mut i: usize = from;
    assert(tail.take(0) =~= Seq::<char>::empty());
    while i < chars.len()
        invariant
            from <= i <= chars.len(),
            tail == chars@.skip(from as int),
            value <= max,
            read_digits(tail.take(i - from), max as int, over) == Ok::<int, IntError>(value as int),
        decreases chars.len() - i,
    {
        let c = chars[i];
        proof {
            assert(tail.take(i - from + 1).drop_last() =~= tail.take(i - from));
            assert(tail.take(i - from + 1).last() == c);
        }
        if !('0' <= c && c <= '9') {
            proof {
                lemma_error_stays(tail, i - from + 1, max as int, over);
            }
            return Err(IntError::InvalidDigit);
        }
        let next: u128 = 10 * (value as u128) + (c as u32 - 48) as u128;
        if next > max as u128 {
            proof {
                lemma_error_stays(tail, i - from + 1, max as int, over);
            }
            return Err(over);
        }
        value = next as u64;
        i = i + 1;
    }
    assert(tail.take(i - from) =~= tail);
    Ok(value)
}

/// Reads an unsigned integer up to `max`.
fn parse_unsigned(s: &str, max: u64) -> (r: Result<u64, IntError>)
    ensures
        read_unsigned(s@, max as int) == match r {
            Ok(v) => Ok::<int, IntError>(v as int),
            Err(e) => Err::<int, IntError>(e),
        },
        r matches Ok(v) ==> v <= max,
{
    let chars = chars_of(s);
    if chars.len() == 0 {
        return Err(IntError::Empty);
    }
    if chars.len() == 1 && (chars[0] == '+' || chars[0] == '-') {
        return Err(IntError::InvalidDigit);
    }
    proof {
        assert(s@.skip(0) =~= s@);
        law_read_digits(s@, max as int, IntError::PosOverflow);
        law_read_digits(s@.skip(1), max as int, IntError::PosOverflow);
    }
    if chars[0] == '+' {
        scan(&chars, 1, max, IntError::PosOverflow)
    } else {
        scan(&chars, 0, max, IntError::PosOverflow)
    }
}

/// Reads a 64-bit unsigned integer.
pub fn parse_u64(s: &str) -> (r: Result<u64, IntError>)
    ensures
        read_unsigned(s@, u64::MAX as int) == match r {
            Ok(v) => Ok::<int, IntError>(v as int),
            Err(e) => Err::<int, IntError>(e),
        },
{
    parse_unsigned(s, u64::MAX)
}

/// Reads a 32-bit unsigned integer.
pub fn parse_u32(s: &str) -> (r: Result<u32, IntError>)
    ensures
        read_unsigned(s@, u32::MAX as int) == match r {
            Ok(v) => Ok::<int, IntError>(v as int),
            Err(e) => Err::<int, IntError>(e),
        },
{
    match parse_unsigned(s, 4294967295) {
        Ok(v) => Ok(v as u32),
        Err(e) => Err(e),
    }
}

/// Reads a 16-bit unsigned integer.
pub fn parse_u16(s: &str) -> (r: Result<u16, IntError>)
    ensures
        read_unsigned(s@, u16::MAX as int) == match r {
            Ok(v) => Ok::<int, IntError>(v as int),
            Err(e) => Err::<int, IntError>(e),
        },
{
    match parse_unsigned(s, 65535) {
        Ok(v) => Ok(v as u16),
        Err(e) => Err(e),
    }
}

/// Reads a 64-bit signed integer.
pub fn parse_i64(s: &str) -> (r: Result<i64, IntError>)
    ensures
        read_signed(s@) == match r {
            Ok(v) => Ok::<int, IntError>(v as int),
            Err(e) => Err::<int, IntError>(e),
        },
{
    let chars = chars_of(s);
    if chars.len() == 0 {
        return Err(IntError::Empty);
    }
    if chars.len() == 1 && (chars[0] == '+' || chars[0] == '-') {
        return Err(IntError::InvalidDigit);
    }
    proof {
        assert(s@.skip(0) =~= s@);
        law_read_digits(s@, i64::MAX as int, IntError::PosOverflow);
        law_read_digits(s@.skip(1), i64::MAX as int, IntError::PosOverflow);
        law_read_digits(s@.skip(1), i64::MAX + 1, IntError::NegOverflow);
    }
    if chars[0] == '-' {
        match scan(&chars, 1, 9223372036854775808, IntError::NegOverflow) {
            Ok(v) => Ok((-(v as i128)) as i64),
            Err(e) => Err(e),
        }
    } else {
        let from: usize = if chars[0] == '+' {
            1
        } else {
            0
        };
        match scan(&chars, from, 9223372036854775807, IntError::PosOverflow) {
            Ok(v) => Ok(v as i64),
            Err(e) => Err(e),
        }
    }
}

/// Why digits are refused: the first character that cannot be taken decides.
/// Either it is no digit, or it takes the number over the maximum.
pub proof fn law_first_bad_character_decides(s: Seq<char>, max: int, over: IntError)
    requires
        0 <= max,
    ensures
        read_digits(s, max, over) matches Err(e) ==> exists|k: int|
            0 <= k < s.len() && all_digits(s.take(k)) && digits_value(#[trigger] s.take(k)) <= max
                && (if is_digit(s[k]) {
                e == over && 10 * digits_value(s.take(k)) + digit_value(s[k]) > max
            } else {
                e == IntError::InvalidDigit
            }),
    decreases s.len(),
{
    if s.len() > 0 {
        let init = s.drop_last();
        law_first_bad_character_decides(init, max, over);
        law_read_digits(init, max, over);
        if read_digits(s, max, over) is Err {
            if read_digits(init, max, over) is Err {
                let e = read_digits(init, max, over)->Err_0;
                let k = choose|k: int|
                    0 <= k < init.len() && all_digits(init.take(k)) && digits_value(
                        #[trigger] init.take(k),
                    ) <= max && (if is_digit(init[k]) {
                        e == over && 10 * digits_value(init.take(k)) + digit_value(init[k]) > max
                    } else {
                        e == IntError::InvalidDigit
                    });
                assert(init.take(k) =~= s.take(k));
                assert(init[k] == s[k]);
            } else {
                let k = s.len() - 1;
                assert(s.take(k) =~= init);
            }
        }
    }
}

/// An unsigned integer is one digit or more, with or without a `+` in front.
/// It is read as its value where that is at most `max`; a larger one is
/// refused as too large, and nothing else is an unsigned integer.
pub proof fn law_unsigned_integers(s: Seq<char>, max: int)
    requires
        0 <= max,
    ensures
        s.len() > 0 && all_digits(s) && digits_value(s) <= max ==> read_unsigned(s, max) == Ok::<
            int,
            IntError,
        >(digits_value(s)) && read_unsigned(seq!['+'] + s, max) == Ok::<int, IntError>(
            digits_value(s),
        ),
        s.len() > 0 && all_digits(s) && digits_value(s) > max ==> read_unsigned(s, max) == Err::<
            int,
            IntError,
        >(IntError::PosOverflow) && read_unsigned(seq!['+'] + s, max) == Err::<int, IntError>(
            IntError::PosOverflow,
        ),
        read_unsigned(s, max) is Ok ==> (s.len() > 0 && all_digits(s)) || (s.len() > 1 && s[0]
            == '+' && all_digits(s.skip(1))),
        read_unsigned(s, max) == Err::<int, IntError>(IntError::Empty) <==> s.len() == 0,
        !(read_unsigned(s, max) matches Err(IntError::NegOverflow)),
{
    let plus = seq!['+'] + s;
    assert(plus.skip(1) =~= s);
    assert(plus[0] == '+');
    law_read_digits(s, max, IntError::PosOverflow);
    law_read_digits(s.skip(1), max, IntError::PosOverflow);
    if s.len() > 0 && all_digits(s) {
        assert(is_digit(s[0]));
    }
}

/// A signed integer is one digit or more, with or without a sign in front; a
/// `-` makes it negative. What does not fit 64 bits is refused as too large or
/// as too small, and nothing else is a signed integer.
pub proof fn law_signed_integers(s: Seq<char>)
    ensures
        s.len() > 0 && all_digits(s) && digits_value(s) <= 0x7fff_ffff_ffff_ffff ==> read_signed(s)
            == Ok::<int, IntError>(digits_value(s)) && read_signed(seq!['+'] + s) == Ok::<
            int,
            IntError,
        >(digits_value(s)),
        s.len() > 0 && all_digits(s) && digits_value(s) > 0x7fff_ffff_ffff_ffff ==> read_signed(s)
            == Err::<int, IntError>(IntError::PosOverflow) && read_signed(seq!['+'] + s) == Err::<
            int,
            IntError,
        >(IntError::PosOverflow),
        s.len() > 0 && all_digits(s) && digits_value(s) <= 0x8000_0000_0000_0000 ==> read_signed(
            seq!['-'] + s,
        ) == Ok::<int, IntError>(-digits_value(s)),
        s.len() > 0 && all_digits(s) && digits_value(s) > 0x8000_0000_0000_0000 ==> read_signed(
            seq!['-'] + s,
        ) == Err::<int, IntError>(IntError::NegOverflow),
        read_signed(s) is Ok ==> (s.len() > 0 && all_digits(s)) || (s.len() > 1 && (s[0] == '+'
            || s[0] == '-') && all_digits(s.skip(1))),
        read_signed(s) == Err::<int, IntError>(IntError::Empty) <==> s.len() == 0,
{
    let plus = seq!['+'] + s;
    let minus = seq!['-'] + s;
    assert(plus.skip(1) =~= s);
    assert(minus.skip(1) =~= s);
    assert(plus[0] == '+');
    assert(minus[0] == '-');
    law_read_digits(s, i64::MAX as int, IntError::PosOverflow);
    law_read_digits(s, i64::MAX + 1, IntError::NegOverflow);
    law_read_digits(s.skip(1), i64::MAX as int, IntError::PosOverflow);
    law_read_digits(s.skip(1), i64::MAX + 1, IntError::NegOverflow);
    if s.len() > 0 && all_digits(s) {
        assert(is_digit(s[0]));
    }
}

/// The numeral of a number is read as that number.
pub proof fn law_numerals_are_read(n: int, max: int)
    requires
        0 <= max,
    ensures
        0 <= n <= max ==> read_unsigned(crate::text::decimal(n), max) == Ok::<int, IntError>(n),
        -0x8000_0000_0000_0000 <= n <= 0x7fff_ffff_ffff_ffff ==> read_signed(
            crate::text::decimal(n),
        ) == Ok::<int, IntError>(n),
{
    if n >= 0 {
        crate::text::law_decimal_reads_back(n as nat);
        law_unsigned_integers(crate::text::decimal(n), max);
        law_signed_integers(crate::text::decimal(n));
    } else {
        let s = crate::text::decimal(-n);
        crate::text::law_decimal_reads_back((-n) as nat);
        law_signed_integers(s);
        assert(crate::text::decimal(n) =~= seq!['-'] + s);
    }
}

} // verus!
