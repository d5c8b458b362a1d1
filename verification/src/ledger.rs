//! The ledger: transfers of property between users, and the balances that they
//! leave.

use vstd::prelude::*;

use crate::ids::to_stored;
#[allow(unused_imports)]
use crate::ids::stored;
use crate::item::ItemType;
#[allow(unused_imports)]
use crate::item::named_type;
use crate::number::{parse_i64, IntError};
#[allow(unused_imports)]
use crate::number::read_signed;
use crate::tally::sum_i64;
#[allow(unused_imports)]
use crate::tally::fits_i64;

verus! {

/// One row of the ledger, but for the time. A side that is absent is not a
/// user: property comes from nowhere or goes nowhere.
#[derive(Clone, Copy, Debug, PartialEq, Eq)]
pub struct Transfer {
    pub ty: ItemType,
    pub quantity: i64,
    pub from_user: Option<i64>,
    /// The balance of `from_user` after the transfer.
    pub from_balance: Option<i64>,
    pub to_user: Option<i64>,
    /// The balance of `to_user` after the transfer.
    pub to_balance: Option<i64>,
    /// Whether generators produced the property.
    pub from_gen: bool,
    /// The message with the command, where there was one.
    pub message_id: Option<i64>,
    /// The motion that the property was spent on, and the votes it bought.
    pub to_motion: Option<i64>,
    pub to_votes: Option<i64>,
}

/// The balance of a user of whom the database knows no transfer is 0.
pub open spec fn known_balance(balance: Option<i64>) -> i64 {
    match balance {
        Some(b) => b,
        None => 0,
    }
}

/// The balance, which is 0 for a user of whom the database knows no transfer.
pub fn balance_or_zero(balance: Option<i64>) -> (r: i64)
    ensures
        r == known_balance(balance),
{
    match balance {
        Some(b) => b,
        None => 0,
    }
}

/// Why property is not fabricated.
#[derive(Clone, Copy, Debug, PartialEq, Eq)]
pub enum FabricateError {
    UnrecognizedType,
    BadCount(IntError),
    NotPositive,
}

impl FabricateError {
    /// The words that answer the command.
    pub open spec fn words(self) -> Seq<char> {
        match self {
            FabricateError::UnrecognizedType => "Unrecognized type"@,
            FabricateError::BadCount(e) => "ArgError(\""@ + e.sentence() + "\")"@,
            FabricateError::NotPositive => "fuck"@,
        }
    }

    /// The words that answer the command.
    pub fn message(&self) -> (r: String)
        ensures
            r@ == self.words(),
            *self is UnrecognizedType ==> r@ == "Unrecognized type"@,
            *self is NotPositive ==> r@ == "fuck"@,
    {
        match *self {
            FabricateError::UnrecognizedType => "Unrecognized type".to_owned(),
            FabricateError::BadCount(e) => {
                let mut out = "ArgError(\"".to_owned();
                out.append(e.message());
                out.append("\")");
                out
            },
            FabricateError::NotPositive => "fuck".to_owned(),
        }
    }
}

/// What the two words of a command to fabricate ask for: so many, more than
/// none, of which kind.
pub open spec fn fabricate_asks(ty_word: Seq<char>, count_word: Seq<char>) -> Result<
    (ItemType, i64),
    FabricateError,
> {
    match named_type(ty_word) {
        None => Err(FabricateError::UnrecognizedType),
        Some(ty) => match read_signed(count_word) {
            Err(e) => Err(FabricateError::BadCount(e)),
            Ok(n) => if n <= 0 {
                Err(FabricateError::NotPositive)
            } else {
                Ok((ty, n as i64))
            },
        },
    }
}

/// Reads the two words of a command to fabricate property.
pub fn parse_fabricate(ty_word: &str, count_word: &str) -> (r: Result<
    (ItemType, i64),
    FabricateError,
>)
    ensures
        r == fabricate_asks(ty_word@, count_word@),
{
    match ItemType::from_name(ty_word) {
        None => Err(FabricateError::UnrecognizedType),
        Some(ty) => match parse_i64(count_word) {
            Err(e) => Err(FabricateError::BadCount(e)),
            Ok(n) => if n <= 0 {
                Err(FabricateError::NotPositive)
            } else {
                Ok((ty, n))
            },
        },
    }
}

/// The transfer that fabricates property for the author of the command, whose
/// balance was `previous`; `None` where the new balance does not fit 64 bits.
pub fn plan_fabricate(
    author: u64,
    ty: ItemType,
    previous: Option<i64>,
    how_many: i64,
    message: u64,
) -> (r: Option<Transfer>)
    ensures
        r == if fits_i64(known_balance(previous) + how_many) {
            Some(
                Transfer {
                    ty,
                    quantity: how_many,
                    from_user: None,
                    from_balance: None,
                    to_user: Some(stored(author) as i64),
                    to_balance: Some((known_balance(previous) + how_many) as i64),
                    from_gen: false,
                    message_id: Some(stored(message) as i64),
                    to_motion: None,
                    to_votes: None,
                },
            )
        } else {
            None
        },
{
    match sum_i64(balance_or_zero(previous), how_many) {
        None => None,
        Some(to_balance) => Some(
            Transfer {
                ty,
                quantity: how_many,
                from_user: None,
                from_balance: None,
                to_user: Some(to_stored(author)),
                to_balance: Some(to_balance),
                from_gen: false,
                message_id: Some(to_stored(message)),
                to_motion: None,
                to_votes: None,
            },
        ),
    }
}

/// The transfer that pays a user the capital that the user's generators
/// produce, one for each; `None` where the new balance does not fit 64 bits.
pub fn plan_payout(user: i64, generators: Option<i64>, capital: Option<i64>) -> (r: Option<
    Transfer,
>)
    ensures
        r == if fits_i64(known_balance(capital) + known_balance(generators)) {
            Some(
                Transfer {
                    ty: ItemType::PoliticalCapital,
                    quantity: known_balance(generators),
                    from_user: None,
                    from_balance: None,
                    to_user: Some(user),
                    to_balance: Some((known_balance(capital) + known_balance(generators)) as i64),
                    from_gen: true,
                    message_id: None,
                    to_motion: None,
                    to_votes: None,
                },
            )
        } else {
            None
        },
{
    let produced = balance_or_zero(generators);
    match sum_i64(balance_or_zero(capital), produced) {
        None => None,
        Some(to_balance) => Some(
            Transfer {
                ty: ItemType::PoliticalCapital,
                quantity: produced,
                from_user: None,
                from_balance: None,
                to_user: Some(user),
                to_balance: Some(to_balance),
                from_gen: true,
                message_id: None,
                to_motion: None,
                to_votes: None,
            },
        ),
    }
}

/// A balance that is known is that balance, and one that is not known is 0.
pub proof fn law_known_balance(b: i64)
    ensures
        known_balance(Some(b)) == b,
        known_balance(None) == 0,
{
}

/// A command to fabricate is granted exactly if its first word names a kind and
/// its second is an integer above 0, and then asks for that many of that kind.
pub proof fn law_fabrication_asks_what_is_written(
    ty_word: Seq<char>,
    count_word: Seq<char>,
    ty: ItemType,
    n: i64,
)
    ensures
        fabricate_asks(ty_word, count_word) == Ok::<(ItemType, i64), FabricateError>((ty, n)) <==> (
        named_type(ty_word) == Some(ty) && read_signed(count_word) == Ok::<int, IntError>(n as int)
            && n > 0),
        n > 0 && named_type(ty_word) == Some(ty) ==> fabricate_asks(
            ty_word,
            crate::text::decimal(n as int),
        ) == Ok::<(ItemType, i64), FabricateError>((ty, n)),
{
    crate::number::law_numerals_are_read(n as int, 0);
    lemma_signed_range(count_word);
}

/// What is read as a signed integer fits 64 bits.
proof fn lemma_signed_range(s: Seq<char>)
    ensures
        read_signed(s) matches Ok(v) ==> i64::MIN <= v <= i64::MAX,
{
    crate::number::law_read_digits(s, i64::MAX as int, IntError::PosOverflow);
    crate::number::law_read_digits(s.skip(1), i64::MAX as int, IntError::PosOverflow);
    crate::number::law_read_digits(s.skip(1), i64::MAX + 1, IntError::NegOverflow);
}

/// Why a command to fabricate is refused: the kind is looked at first, then
/// whether the count is an integer, then whether it is above 0.
pub proof fn law_fabrication_refusals(ty_word: Seq<char>, count_word: Seq<char>, e: IntError)
    ensures
        fabricate_asks(ty_word, count_word) == Err::<(ItemType, i64), FabricateError>(
            FabricateError::UnrecognizedType,
        ) <==> named_type(ty_word) is None,
        fabricate_asks(ty_word, count_word) == Err::<(ItemType, i64), FabricateError>(
            FabricateError::BadCount(e),
        ) <==> named_type(ty_word) is Some && read_signed(count_word) == Err::<int, IntError>(e),
        fabricate_asks(ty_word, count_word) == Err::<(ItemType, i64), FabricateError>(
            FabricateError::NotPositive,
        ) <==> (named_type(ty_word) is Some && read_signed(count_word) is Ok && read_signed(
            count_word,
        )->Ok_0 <= 0),
{
}

/// The answer to a count that is no integer quotes why it is none.
pub proof fn law_bad_count_is_quoted(e: IntError)
    ensures
        FabricateError::BadCount(e).words().len() == 12 + e.sentence().len(),
        FabricateError::BadCount(e).words().subrange(10, 10int + e.sentence().len()) == e.sentence(),
        FabricateError::BadCount(e).words().take(10) == "ArgError(\""@,
        FabricateError::BadCount(e).words().skip(10int + e.sentence().len()) == "\")"@,
{
    reveal_strlit("ArgError(\"");
    reveal_strlit("\")");
    let w = FabricateError::BadCount(e).words();
    assert(w.subrange(10, 10int + e.sentence().len()) =~= e.sentence());
    assert(w.take(10) =~= "ArgError(\""@);
    assert(w.skip(10int + e.sentence().len()) =~= "\")"@);
}

} // verus!
