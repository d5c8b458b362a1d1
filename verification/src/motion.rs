//! Calling a motion: what it costs, and what is recorded of it.

use vstd::prelude::*;

use crate::ids::to_stored;
#[allow(unused_imports)]
use crate::ids::stored;
use crate::item::ItemType;
use crate::ledger::Transfer;
use crate::tally::MotionVote;
#[allow(unused_imports)]
use crate::tally::total;

verus! {

/// The capital that the first vote of a user costs, and with it the calling of
/// a motion.
pub const VOTE_BASE_COST: u16 = 40;

/// The row of a motion, but for its text and the time.
#[derive(Clone, Copy, Debug, PartialEq, Eq, Structural)]
pub struct MotionRow {
    pub id: i64,
    /// The message with the command.
    pub command_message_id: i64,
    /// The message that shows the motion.
    pub bot_message_id: i64,
    pub is_super: bool,
}

/// What is recorded when a motion is called.
#[derive(Clone, Copy, Debug, PartialEq, Eq)]
pub struct MotionRecords {
    pub motion: MotionRow,
    /// The author's vote for the motion.
    pub vote: MotionVote,
    /// The capital that the author spends.
    pub fee: Transfer,
}

/// Whether a user with this balance may call a motion; if not, the words that
/// answer the command.
pub fn check_capital(balance: i64) -> (r: Result<(), &'static str>)
    ensures
        r is Ok <==> balance >= VOTE_BASE_COST,
        r is Ok <==> balance >= 40,
        r matches Err(words) ==> words@ == "You don't have enough capital."@,
{
    if balance < VOTE_BASE_COST as i64 {
        Err("You don't have enough capital.")
    } else {
        Ok(())
    }
}

/// What is recorded when `author`, whose capital is `balance`, calls motion
/// `id`: the motion, one vote of the author for it, and the fee. The fee is
/// recorded with the balance before it.
pub fn motion_records(
    author: u64,
    message: u64,
    bot_message: u64,
    id: i64,
    is_super: bool,
    balance: i64,
) -> (r: MotionRecords)
    requires
        balance >= VOTE_BASE_COST,
    ensures
        r.motion == (MotionRow {
            id,
            command_message_id: stored(message) as i64,
            bot_message_id: stored(bot_message) as i64,
            is_super,
        }),
        r.vote == (MotionVote { user: stored(author) as i64, amount: 1, direction: true }),
        r.fee == (Transfer {
            ty: ItemType::PoliticalCapital,
            quantity: VOTE_BASE_COST as i64,
            from_user: Some(stored(author) as i64),
            from_balance: Some(balance),
            to_user: None,
            to_balance: None,
            from_gen: false,
            message_id: Some(stored(message) as i64),
            to_motion: None,
            to_votes: None,
        }),
        r.fee.quantity == 40,
{
    let user = to_stored(author);
    MotionRecords {
        motion: MotionRow {
            id,
            command_message_id: to_stored(message),
            bot_message_id: to_stored(bot_message),
            is_super,
        },
        vote: MotionVote { user, amount: 1, direction: true },
        fee: Transfer {
            ty: ItemType::PoliticalCapital,
            quantity: VOTE_BASE_COST as i64,
            from_user: Some(user),
            from_balance: Some(balance),
            to_user: None,
            to_balance: None,
            from_gen: false,
            message_id: Some(to_stored(message)),
            to_motion: None,
            to_votes: None,
        },
    }
}

/// A motion starts with the one vote of its author for it, and so it passes if
/// nobody else votes.
pub proof fn law_new_motion_leads(vote: MotionVote, is_super: bool)
    requires
        vote.amount == 1,
        vote.direction,
    ensures
        total(seq![vote], true) == 1,
        total(seq![vote], false) == 0,
        crate::tally::wins(total(seq![vote], true), total(seq![vote], false), is_super),
{
    reveal_with_fuel(total, 2);
    assert(seq![vote].drop_last() =~= Seq::<MotionVote>::empty());
}

} // verus!
