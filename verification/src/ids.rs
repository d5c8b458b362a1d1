//! Identifiers. The chat service counts users and messages with 64 bits without
//! a sign; the database keeps the same bits as a signed integer.

use vstd::prelude::*;

use crate::text::u64_text;
#[allow(unused_imports)]
use crate::text::decimal;
use serenity::model::misc::Mentionable;

verus! {

/// The signed integer under which the database keeps an identifier.
pub open spec fn stored(id: u64) -> int {
    if id <= i64::MAX {
        id as int
    } else {
        id - 0x1_0000_0000_0000_0000
    }
}

/// The identifier that the database keeps as `n`.
pub open spec fn restored(n: i64) -> int {
    if n >= 0 {
        n as int
    } else {
        n + 0x1_0000_0000_0000_0000
    }
}

/// The signed integer under which the database keeps `id`.
pub fn to_stored(id: u64) -> (r: i64)
    ensures
        r == stored(id),
{
    assert(id > 0x7fff_ffff_ffff_ffff ==> (id as i64) == id - 0x1_0000_0000_0000_0000)
        by (bit_vector);
    id as i64
}

/// The identifier that the database keeps as `n`.
pub fn from_stored(n: i64) -> (r: u64)
    ensures
        r == restored(n),
{
    assert(n < 0 ==> (n as u64) == n + 0x1_0000_0000_0000_0000) by (bit_vector);
    n as u64
}

/// Storing an identifier loses nothing: what is read back is what was stored.
pub proof fn law_identifiers_survive_storage(id: u64, n: i64)
    ensures
        restored(stored(id) as i64) == id,
        stored(restored(n) as u64) == n,
{
}

/// The text that mentions a user in a message.
pub open spec fn mention_of(user: u64) -> Seq<char> {
    "<@"@ + decimal(user as int) + ">"@
}

/// Calls `serenity::model::id::UserId::mention`, of its trait `Mentionable`.
/// The contract claims that the call writes the user's number between `<@` and
/// `>`.
#[verifier::external_body]
pub(crate) fn mention(user: u64) -> (r: String)
    ensures
        r@ == mention_of(user),
{
    serenity::model::id::UserId(user).mention()
}

/// The number of the user that the database keeps as `n`, as text.
pub fn stored_user_text(n: i64) -> (r: String)
    ensures
        r@ == decimal(restored(n)),
{
    u64_text(from_stored(n))
}

/// An identifier and its stored form differ by a multiple of two to the power
/// of 64, and each lies in the range of its type.
pub proof fn law_storage_keeps_the_bits(id: u64, n: i64)
    ensures
        -0x8000_0000_0000_0000 <= stored(id) <= 0x7fff_ffff_ffff_ffff,
        stored(id) == id || stored(id) == id - 0x1_0000_0000_0000_0000,
        0 <= restored(n) <= 0xffff_ffff_ffff_ffff,
        restored(n) == n || restored(n) == n + 0x1_0000_0000_0000_0000,
{
}

/// A mention is the user's number in digits between `<@` and `>`.
pub proof fn law_mention_holds_the_number(user: u64)
    ensures
        mention_of(user).len() > 3,
        mention_of(user)[0] == '<',
        mention_of(user)[1] == '@',
        mention_of(user).last() == '>',
        mention_of(user).subrange(2, mention_of(user).len() - 1) == decimal(user as int),
        crate::text::digits_value(mention_of(user).subrange(2, mention_of(user).len() - 1)) == user,
{
    reveal_strlit("<@");
    reveal_strlit(">");
    crate::text::law_decimal_reads_back(user as nat);
    assert(mention_of(user).subrange(2, mention_of(user).len() - 1) =~= decimal(user as int));
}

/// Different users are mentioned differently.
pub proof fn law_mentions_are_different(a: u64, b: u64)
    ensures
        mention_of(a) == mention_of(b) ==> a == b,
{
    law_mention_holds_the_number(a);
    law_mention_holds_the_number(b);
}

} // verus!
