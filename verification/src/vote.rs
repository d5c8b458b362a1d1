//! Casting votes on a motion. The session asks for one piece of information
//! after another, and from the answers decides whether the vote is refused, what
//! it costs, what is recorded, and whether it turns the result.
//!
//! All of a session runs in one transaction: a refusal undoes what was recorded
//! before it.

use vstd::prelude::*;

use crate::item::ItemType;
use crate::ledger::{balance_or_zero, Transfer};
#[allow(unused_imports)]
use crate::ledger::known_balance;
use crate::tally::{is_win, sum_i64, MotionVote};
#[allow(unused_imports)]
use crate::tally::{fits_i64, total, wins};
use crate::text::push_i64;
#[allow(unused_imports)]
use crate::text::{
    decimal, lemma_appended, lemma_appended_two, lemma_cut_of_start, lemma_start_of_start,
};

verus! {

/// A request to vote on a motion, which is named by its number or by the
/// message that shows it.
#[derive(Clone, Copy, Debug, PartialEq, Eq)]
pub struct VoteRequest {
    /// `Some(true)` for the motion, `Some(false)` against it.
    pub direction: Option<bool>,
    /// How many votes to cast.
    pub count: i64,
    pub user_id: i64,
    pub motion_id: Option<i64>,
    /// The message that shows the motion.
    pub message_id: Option<i64>,
    /// The message with the command, where there was one.
    pub command_message_id: Option<i64>,
}

/// A motion that was found.
#[derive(Clone, Copy, Debug, PartialEq, Eq)]
pub struct FoundMotion {
    pub id: i64,
    /// Whether the end of the vote has not been announced.
    pub open: bool,
    pub is_super: bool,
    /// The message that shows the motion.
    pub message_id: i64,
}

/// The votes that a user has on a motion.
#[derive(Clone, Copy, Debug, PartialEq, Eq)]
pub struct RecordedVote {
    pub direction: bool,
    pub amount: i64,
}

/// What the session waits for.
#[derive(Clone, Copy, Debug, PartialEq, Eq)]
pub enum VoteStage {
    FindingMotion,
    FindingVote { motion: FoundMotion },
    ReadingVote { motion: FoundMotion },
    Pricing { motion: FoundMotion, recorded: RecordedVote },
    ReadingBalance { motion: FoundMotion, recorded: RecordedVote, cost: i64 },
    ReadingTotals { motion: FoundMotion, recorded: RecordedVote, cost: i64 },
    Finished,
}

/// An answer to what the session asked for.
#[derive(Debug)]
pub enum VoteEvent {
    Motion(Option<FoundMotion>),
    Vote(Option<RecordedVote>),
    /// The cost of each vote that was to be priced, in order.
    Costs(Vec<i64>),
    Balance(Option<i64>),
    /// The votes for and against the motion, without those that are being cast.
    Totals { yes: i64, no: i64 },
}

/// Why a vote is refused.
#[derive(Clone, Copy, Debug, PartialEq, Eq, Structural)]
pub enum VoteFailure {
    MotionNotFound,
    MotionExpired,
    CannotChange,
    DirectionMissing,
    NotEnoughCapital,
}

/// What is recorded and answered when a vote is cast.
#[derive(Clone, Copy, Debug, PartialEq, Eq)]
pub struct CastVote {
    pub motion_id: i64,
    pub user_id: i64,
    /// The votes that the user has on the motion from now on.
    pub amount: i64,
    /// Whether the votes turn the result of the motion.
    pub result_changed: bool,
    /// The message that shows the motion.
    pub message_id: i64,
    pub count: i64,
    /// The ordinal of the first vote that was cast.
    pub first: i64,
    /// The ordinal behind the last vote that was cast.
    pub end: i64,
    pub cost: i64,
}

/// What the session asks to be done.
#[derive(Clone, Copy, Debug, PartialEq, Eq)]
pub enum VoteAction {
    /// Find the motion with this number, or else shown in this message.
    FindMotion { id: i64, message_id: i64 },
    /// Lock the votes on the motion and find those of the user.
    FindVote { motion: i64, user: i64 },
    /// Record that the user has no votes in this direction yet, unless there
    /// is a record, and read the record.
    InsertVote { motion: i64, user: i64, direction: bool },
    /// Price the votes from `first` up to `end`, without `end`.
    Price { first: i64, end: i64 },
    /// Read the user's capital.
    ReadBalance { user: i64 },
    /// Record the payment and read the totals of the motion.
    Pay(Transfer),
    /// Record the votes, update the message that shows the motion, and answer.
    Finish(CastVote),
    /// Undo everything and answer.
    Fail(VoteFailure),
}

impl VoteFailure {
    /// The words that answer the request.
    pub open spec fn words(self) -> Seq<char> {
        match self {
            VoteFailure::MotionNotFound => "Motion not found."@,
            VoteFailure::MotionExpired => "Motion has expired."@,
            VoteFailure::CannotChange => "You cannot change your vote."@,
            VoteFailure::DirectionMissing => "You must specify how you want to vote!"@,
            VoteFailure::NotEnoughCapital => "Not enough capital."@,
        }
    }

    /// The words that answer the request.
    pub fn message(&self) -> (r: &'static str)
        ensures
            r@ == self.words(),
            *self is MotionNotFound ==> r@ == "Motion not found."@,
            *self is MotionExpired ==> r@ == "Motion has expired."@,
            *self is CannotChange ==> r@ == "You cannot change your vote."@,
            *self is DirectionMissing ==> r@ == "You must specify how you want to vote!"@,
            *self is NotEnoughCapital ==> r@ == "Not enough capital."@,
    {
        match *self {
            VoteFailure::MotionNotFound => "Motion not found.",
            VoteFailure::MotionExpired => "Motion has expired.",
            VoteFailure::CannotChange => "You cannot change your vote.",
            VoteFailure::DirectionMissing => "You must specify how you want to vote!",
            VoteFailure::NotEnoughCapital => "Not enough capital.",
        }
    }
}

/// The suffix of the ordinal of `n`.
pub open spec fn ordinal_suffix(n: int) -> Seq<char> {
    let m = if n < 0 {
        -n
    } else {
        n
    };
    if m % 10 == 1 && m % 100 != 11 {
        "st"@
    } else if m % 10 == 2 && m % 100 != 12 {
        "nd"@
    } else if m % 10 == 3 && m % 100 != 13 {
        "rd"@
    } else {
        "th"@
    }
}

/// Calls the formatting of `ordinal::Ordinal`. The contract claims that it
/// writes the numeral and the English suffix that goes with its last digits.
#[verifier::external_body]
fn ordinal_text(n: i64) -> (r: String)
    ensures
        r@ == decimal(n as int) + ordinal_suffix(n as int),
{
    format!("{}", ordinal::Ordinal(n))
}

impl CastVote {
    /// The words that answer the request.
    pub open spec fn words(self) -> Seq<char> {
        "Voted on motion #"@ + decimal(self.motion_id as int) + " "@ + decimal(self.count as int)
            + " times, "@ + decimal(self.first as int) + ordinal_suffix(self.first as int) + " to "@
            + decimal(self.end as int) + ordinal_suffix(self.end as int) + ", costing "@ + decimal(
            self.cost as int,
        ) + " capital"@
    }

    /// The words that answer the request.
    pub fn reply(&self) -> (r: String)
        ensures
            r@ == self.words(),
    {
        let mut out = "Voted on motion #".to_owned();
        push_i64(&mut out, self.motion_id);
        out.append(" ");
        push_i64(&mut out, self.count);
        out.append(" times, ");
        out.append(ordinal_text(self.first).as_str());
        out.append(" to ");
        out.append(ordinal_text(self.end).as_str());
        out.append(", costing ");
        push_i64(&mut out, self.cost);
        out.append(" capital");
        assert(out@ =~= self.words());
        out
    }
}

/// The sum of the costs.
pub open spec fn cost_of(costs: Seq<i64>) -> int
    decreases costs.len(),
{
    if costs.len() == 0 {
        0
    } else {
        cost_of(costs.drop_last()) + costs.last()
    }
}

/// Whether the sum stays within 64 bits while the costs are added in order.
pub open spec fn summable(costs: Seq<i64>) -> bool {
    forall|k: int| 0 <= k <= costs.len() ==> fits_i64(cost_of(#[trigger] costs.take(k)))
}

/// How many votes are priced for a request of `count`.
pub open spec fn priced(count: i64) -> int {
    if count > 0 {
        count as int
    } else {
        0
    }
}

/// The answer with which a session ends in a refusal.
pub open spec fn refused(failure: VoteFailure) -> Option<(VoteStage, VoteAction)> {
    Some((VoteStage::Finished, VoteAction::Fail(failure)))
}

/// A session continues with the pricing, as long as the ordinals fit 64 bits.
pub open spec fn to_price(
    request: VoteRequest,
    motion: FoundMotion,
    recorded: RecordedVote,
) -> Option<(VoteStage, VoteAction)> {
    if fits_i64(recorded.amount + 1) && fits_i64(recorded.amount + request.count) && fits_i64(
        recorded.amount + request.count + 1,
    ) {
        Some(
            (
                VoteStage::Pricing { motion, recorded },
                VoteAction::Price {
                    first: (recorded.amount + 1) as i64,
                    end: (recorded.amount + request.count + 1) as i64,
                },
            ),
        )
    } else {
        None
    }
}

/// The step once the motion was looked for.
pub open spec fn on_motion(request: VoteRequest, found: Option<FoundMotion>) -> Option<
    (VoteStage, VoteAction),
> {
    match found {
        None => refused(VoteFailure::MotionNotFound),
        Some(motion) => if !motion.open {
            refused(VoteFailure::MotionExpired)
        } else {
            Some(
                (
                    VoteStage::FindingVote { motion },
                    VoteAction::FindVote { motion: motion.id, user: request.user_id },
                ),
            )
        },
    }
}

/// The step once the user's votes were looked for.
pub open spec fn on_vote(
    request: VoteRequest,
    motion: FoundMotion,
    found: Option<RecordedVote>,
) -> Option<(VoteStage, VoteAction)> {
    match (found, request.direction) {
        (Some(recorded), Some(direction)) if direction != recorded.direction => refused(
            VoteFailure::CannotChange,
        ),
        (Some(recorded), _) => to_price(request, motion, recorded),
        (None, None) => refused(VoteFailure::DirectionMissing),
        (None, Some(direction)) => Some(
            (
                VoteStage::ReadingVote { motion },
                VoteAction::InsertVote { motion: motion.id, user: request.user_id, direction },
            ),
        ),
    }
}

/// The step once the votes are priced. There is one cost for each vote.
pub open spec fn on_costs(
    request: VoteRequest,
    motion: FoundMotion,
    recorded: RecordedVote,
    costs: Seq<i64>,
) -> Option<(VoteStage, VoteAction)> {
    if costs.len() == priced(request.count) && summable(costs) {
        Some(
            (
                VoteStage::ReadingBalance { motion, recorded, cost: cost_of(costs) as i64 },
                VoteAction::ReadBalance { user: request.user_id },
            ),
        )
    } else {
        None
    }
}

/// The transfer with which votes are paid.
pub open spec fn payment(request: VoteRequest, motion: FoundMotion, cost: i64, balance: i64) -> Transfer {
    Transfer {
        ty: ItemType::PoliticalCapital,
        quantity: cost,
        from_user: Some(request.user_id),
        from_balance: Some((balance - cost) as i64),
        to_user: None,
        to_balance: None,
        from_gen: false,
        message_id: request.command_message_id,
        to_motion: Some(motion.id),
        to_votes: Some(request.count),
    }
}

/// The step once the user's capital is known.
pub open spec fn on_balance(
    request: VoteRequest,
    motion: FoundMotion,
    recorded: RecordedVote,
    cost: i64,
    balance: Option<i64>,
) -> Option<(VoteStage, VoteAction)> {
    let capital = known_balance(balance);
    if cost > capital {
        refused(VoteFailure::NotEnoughCapital)
    } else if fits_i64(capital - cost) {
        Some(
            (
                VoteStage::ReadingTotals { motion, recorded, cost },
                VoteAction::Pay(payment(request, motion, cost, capital)),
            ),
        )
    } else {
        None
    }
}

/// The totals for and against once `count` votes are added on one side.
pub open spec fn totals_after(yes: i64, no: i64, direction: bool, count: i64) -> (int, int) {
    if direction {
        (yes + count, no as int)
    } else {
        (yes as int, no + count)
    }
}

/// The step once the totals are known.
pub open spec fn on_totals(
    request: VoteRequest,
    motion: FoundMotion,
    recorded: RecordedVote,
    cost: i64,
    yes: i64,
    no: i64,
) -> Option<(VoteStage, VoteAction)> {
    let (yes_after, no_after) = totals_after(yes, no, recorded.direction, request.count);
    let fits = fits_i64(recorded.amount + 1) && fits_i64(recorded.amount + request.count)
        && fits_i64(recorded.amount + request.count + 1) && fits_i64(yes_after) && fits_i64(
        no_after,
    ) && (motion.is_super ==> fits_i64(yes + no) && fits_i64(yes_after + no_after));
    if fits {
        Some(
            (
                VoteStage::Finished,
                VoteAction::Finish(
                    CastVote {
                        motion_id: motion.id,
                        user_id: request.user_id,
                        amount: (recorded.amount + request.count) as i64,
                        result_changed: wins(yes as int, no as int, motion.is_super) != wins(
                            yes_after,
                            no_after,
                            motion.is_super,
                        ),
                        message_id: motion.message_id,
                        count: request.count,
                        first: (recorded.amount + 1) as i64,
                        end: (recorded.amount + request.count + 1) as i64,
                        cost,
                    },
                ),
            ),
        )
    } else {
        None
    }
}

/// The step of a session: what it asks to be done next. There is none where
/// the answer is not one that the session waits for, or where a number would
/// leave 64 bits.
pub open spec fn vote_step(request: VoteRequest, stage: VoteStage, event: VoteEvent) -> Option<
    (VoteStage, VoteAction),
> {
    match (stage, event) {
        (VoteStage::FindingMotion, VoteEvent::Motion(found)) => on_motion(request, found),
        (VoteStage::FindingVote { motion }, VoteEvent::Vote(found)) => on_vote(
            request,
            motion,
            found,
        ),
        (VoteStage::ReadingVote { motion }, VoteEvent::Vote(Some(recorded))) => to_price(
            request,
            motion,
            recorded,
        ),
        (VoteStage::Pricing { motion, recorded }, VoteEvent::Costs(costs)) => on_costs(
            request,
            motion,
            recorded,
            costs@,
        ),
        (
            VoteStage::ReadingBalance { motion, recorded, cost },
            VoteEvent::Balance(balance),
        ) => on_balance(request, motion, recorded, cost, balance),
        (
            VoteStage::ReadingTotals { motion, recorded, cost },
            VoteEvent::Totals { yes, no },
        ) => on_totals(request, motion, recorded, cost, yes, no),
        _ => None,
    }
}

/// `n`, or -1 where it is absent.
pub open spec fn or_none(n: Option<i64>) -> i64 {
    match n {
        Some(v) => v,
        None => -1i64,
    }
}

/// The start of a session.
pub fn start(request: &VoteRequest) -> (r: (VoteStage, VoteAction))
    ensures
        r == (
            VoteStage::FindingMotion,
            VoteAction::FindMotion {
                id: or_none(request.motion_id),
                message_id: or_none(request.message_id),
            },
        ),
        r.1 matches VoteAction::FindMotion { id, message_id } && (request.motion_id == Some(id) || (
        request.motion_id is None && id == -1)) && (request.message_id == Some(message_id) || (
        request.message_id is None && message_id == -1)),
{
    let id: i64 = match request.motion_id {
        Some(id) => id,
        None => -1,
    };
    let message_id: i64 = match request.message_id {
        Some(id) => id,
        None => -1,
    };
    (VoteStage::FindingMotion, VoteAction::FindMotion { id, message_id })
}

/// The ordinals of the votes to be priced, where they fit 64 bits.
fn ordinals(count: i64, recorded: RecordedVote) -> (r: Option<(i64, i64, i64)>)
    ensures
        r == if fits_i64(recorded.amount + 1) && fits_i64(recorded.amount + count) && fits_i64(
            recorded.amount + count + 1,
        ) {
            Some(
                (
                    (recorded.amount + 1) as i64,
                    (recorded.amount + count) as i64,
                    (recorded.amount + count + 1) as i64,
                ),
            )
        } else {
            None
        },
{
    match (sum_i64(recorded.amount, 1), sum_i64(recorded.amount, count)) {
        (Some(first), Some(amount)) => match sum_i64(amount, 1) {
            Some(end) => Some((first, amount, end)),
            None => None,
        },
        _ => None,
    }
}

/// Continues with the pricing.
fn price(request: &VoteRequest, motion: FoundMotion, recorded: RecordedVote) -> (r: Option<
    (VoteStage, VoteAction),
>)
    ensures
        r == to_price(*request, motion, recorded),
{
    match ordinals(request.count, recorded) {
        None => None,
        Some((first, _, end)) => Some(
            (VoteStage::Pricing { motion, recorded }, VoteAction::Price { first, end }),
        ),
    }
}

/// The sum of the costs, where it stays within 64 bits.
fn add_costs(costs: &Vec<i64>) -> (r: Option<i64>)
    ensures
        r is Some <==> summable(costs@),
        r matches Some(cost) ==> cost == cost_of(costs@),
        r matches Some(cost) ==> cost == costs@.fold_left(0int, |sum: int, c: i64| sum + c),
{
    let mut cost: i64 = 0;
    let mut i: usize = 0;
    assert(costs@.take(0) =~= Seq::<i64>::empty());
    while i < costs.len()
        invariant
            i <= costs.len(),
            cost == cost_of(costs@.take(i as int)),
            forall|k: int| 0 <= k <= i ==> fits_i64(cost_of(#[trigger] costs@.take(k))),
        decreases costs.len() - i,
    {
        assert(costs@.take(i + 1).drop_last() =~= costs@.take(i as int));
        match sum_i64(cost, costs[i]) {
            None => {
                return None;
            },
            Some(sum) => {
                cost = sum;
            },
        }
        i = i + 1;
    }
    assert(costs@.take(i as int) =~= costs@);
    proof {
        law_cost_is_a_sum(costs@);
    }
    Some(cost)
}

/// Decides on the totals.
fn finish(
    request: &VoteRequest,
    motion: FoundMotion,
    recorded: RecordedVote,
    cost: i64,
    yes: i64,
    no: i64,
) -> (r: Option<(VoteStage, VoteAction)>)
    ensures
        r == on_totals(*request, motion, recorded, cost, yes, no),
{
    let (first, amount, end) = match ordinals(request.count, recorded) {
        None => {
            return None;
        },
        Some(o) => o,
    };
    let mut yes_after: i64 = yes;
    let mut no_after: i64 = no;
    if recorded.direction {
        match sum_i64(yes, request.count) {
            None => {
                return None;
            },
            Some(sum) => {
                yes_after = sum;
            },
        }
    } else {
        match sum_i64(no, request.count) {
            None => {
                return None;
            },
            Some(sum) => {
                no_after = sum;
            },
        }
    }
    if motion.is_super && (sum_i64(yes, no).is_none() || sum_i64(yes_after, no_after).is_none()) {
        return None;
    }
    let before = is_win(yes, no, motion.is_super);
    let after = is_win(yes_after, no_after, motion.is_super);
    Some(
        (
            VoteStage::Finished,
            VoteAction::Finish(
                CastVote {
                    motion_id: motion.id,
                    user_id: request.user_id,
                    amount,
                    result_changed: before != after,
                    message_id: motion.message_id,
                    count: request.count,
                    first,
                    end,
                    cost,
                },
            ),
        ),
    )
}

/// The step of a session: what it asks to be done next, or `None` where the
/// answer is not one that it waits for or a number would leave 64 bits.
pub fn step(request: &VoteRequest, stage: VoteStage, event: &VoteEvent) -> (r: Option<
    (VoteStage, VoteAction),
>)
    ensures
        r == vote_step(*request, stage, *event),
{
    match (stage, event) {
        (VoteStage::FindingMotion, VoteEvent::Motion(found)) => match *found {
            None => Some(
                (VoteStage::Finished, VoteAction::Fail(VoteFailure::MotionNotFound)),
            ),
            Some(motion) => if !motion.open {
                Some((VoteStage::Finished, VoteAction::Fail(VoteFailure::MotionExpired)))
            } else {
                Some(
                    (
                        VoteStage::FindingVote { motion },
                        VoteAction::FindVote { motion: motion.id, user: request.user_id },
                    ),
                )
            },
        },
        (VoteStage::FindingVote { motion }, VoteEvent::Vote(found)) => match *found {
            Some(recorded) => {
                if let Some(direction) = request.direction {
                    if direction != recorded.direction {
                        return Some(
                            (VoteStage::Finished, VoteAction::Fail(VoteFailure::CannotChange)),
                        );
                    }
                }
                price(request, motion, recorded)
            },
            None => match request.direction {
                None => Some(
                    (VoteStage::Finished, VoteAction::Fail(VoteFailure::DirectionMissing)),
                ),
                Some(direction) => Some(
                    (
                        VoteStage::ReadingVote { motion },
                        VoteAction::InsertVote {
                            motion: motion.id,
                            user: request.user_id,
                            direction,
                        },
                    ),
                ),
            },
        },
        (VoteStage::ReadingVote { motion }, VoteEvent::Vote(Some(recorded))) => price(
            request,
            motion,
            *recorded,
        ),
        (VoteStage::Pricing { motion, recorded }, VoteEvent::Costs(costs)) => {
            let expected: i64 = if request.count > 0 {
                request.count
            } else {
                0
            };
            if costs.len() as u64 != expected as u64 {
                return None;
            }
            match add_costs(costs) {
                None => None,
                Some(cost) => Some(
                    (
                        VoteStage::ReadingBalance { motion, recorded, cost },
                        VoteAction::ReadBalance { user: request.user_id },
                    ),
                ),
            }
        },
        (
            VoteStage::ReadingBalance { motion, recorded, cost },
            VoteEvent::Balance(balance),
        ) => {
            let capital = balance_or_zero(*balance);
            if cost > capital {
                return Some(
                    (VoteStage::Finished, VoteAction::Fail(VoteFailure::NotEnoughCapital)),
                );
            }
            let left: i128 = capital as i128 - cost as i128;
            if left > 9223372036854775807 {
                return None;
            }
            let paid = Transfer {
                ty: ItemType::PoliticalCapital,
                quantity: cost,
                from_user: Some(request.user_id),
                from_balance: Some(left as i64),
                to_user: None,
                to_balance: None,
                from_gen: false,
                message_id: request.command_message_id,
                to_motion: Some(motion.id),
                to_votes: Some(request.count),
            };
            Some((VoteStage::ReadingTotals { motion, recorded, cost }, VoteAction::Pay(paid)))
        },
        (
            VoteStage::ReadingTotals { motion, recorded, cost },
            VoteEvent::Totals { yes, no },
        ) => finish(request, motion, recorded, cost, *yes, *no),
        _ => None,
    }
}

/// Where a session stands after the given answers, and what it asked for last;
/// `None` where one of the answers had no step.
pub open spec fn session(request: VoteRequest, events: Seq<VoteEvent>) -> Option<
    (VoteStage, VoteAction),
>
    decreases events.len(),
{
    if events.len() == 0 {
        Some(
            (
                VoteStage::FindingMotion,
                VoteAction::FindMotion {
                    id: or_none(request.motion_id),
                    message_id: or_none(request.message_id),
                },
            ),
        )
    } else {
        match session(request, events.drop_last()) {
            None => None,
            Some((stage, _)) => vote_step(request, stage, events.last()),
        }
    }
}

/// A session begins with the search for the motion, by its number and by its
/// message, where -1 stands for what the request does not name. From then on
/// each answer takes one step.
pub proof fn law_session_begins_with_the_motion(
    request: VoteRequest,
    events: Seq<VoteEvent>,
    event: VoteEvent,
)
    ensures
        session(request, seq![]) matches Some(
            (stage, VoteAction::FindMotion { id, message_id }),
        ) && stage == VoteStage::FindingMotion && (match request.motion_id {
            Some(number) => id == number,
            None => id == -1,
        }) && (match request.message_id {
            Some(message) => message_id == message,
            None => message_id == -1,
        }),
        session(request, events) is None ==> session(request, events.push(event)) is None,
        session(request, events) matches Some((stage, _)) ==> session(request, events.push(event))
            == vote_step(request, stage, event),
{
    assert(events.push(event).drop_last() =~= events);
}

/// A refusal is final: a refused session asks for nothing more.
pub proof fn law_refusal_is_final(request: VoteRequest, events: Seq<VoteEvent>, event: VoteEvent)
    requires
        session(request, events) matches Some((_, VoteAction::Fail(_))),
    ensures
        session(request, events.push(event)) is None,
{
    assert(events.push(event).drop_last() =~= events);
}

/// Once a vote is paid for it is not refused.
pub proof fn law_paid_vote_is_not_refused(
    request: VoteRequest,
    events: Seq<VoteEvent>,
    event: VoteEvent,
)
    requires
        session(request, events) matches Some((_, VoteAction::Pay(_))),
    ensures
        !(session(request, events.push(event)) matches Some((_, VoteAction::Fail(_)))),
{
    assert(events.push(event).drop_last() =~= events);
}

/// A payment is covered: whoever pays for votes has the capital, the payment is
/// what the votes cost one by one, and the balance that is recorded is what is
/// left.
pub proof fn law_payment_is_covered(request: VoteRequest, events: Seq<VoteEvent>)
    requires
        session(request, events) matches Some((_, VoteAction::Pay(_))),
    ensures
        events.len() >= 2,
        events[events.len() - 2] is Costs,
        events[events.len() - 1] is Balance,
        ({
            let costs = events[events.len() - 2]->Costs_0@;
            let capital = known_balance(events[events.len() - 1]->Balance_0);
            &&& costs.len() == priced(request.count)
            &&& session(request, events) matches Some((_, VoteAction::Pay(paid))) && {
                &&& paid.quantity == cost_of(costs)
                &&& paid.quantity <= capital
                &&& paid.from_user == Some(request.user_id)
                &&& paid.from_balance matches Some(left) && left == capital - cost_of(costs)
                    && left >= 0
                &&& paid.to_votes == Some(request.count)
            }
        }),
{
    let before = events.drop_last();
    reveal_with_fuel(session, 3);
    assert(events.len() > 0);
    assert(before.len() > 0);
    assert(before.last() == events[events.len() - 2]);
    let costs = events[events.len() - 2]->Costs_0@;
    assert(costs.take(costs.len() as int) =~= costs);
}

/// A vote that is recorded has been paid for in the step before, at the cost
/// that is answered, and adds exactly the votes that were asked for to those
/// that the user had.
pub proof fn law_recorded_vote_was_paid(request: VoteRequest, events: Seq<VoteEvent>)
    requires
        session(request, events) matches Some((_, VoteAction::Finish(_))),
    ensures
        events.len() > 0,
        session(request, events) matches Some((_, VoteAction::Finish(cast))) && session(
            request,
            events.drop_last(),
        ) matches Some(
            (VoteStage::ReadingTotals { motion, recorded, cost }, VoteAction::Pay(paid)),
        ) && {
            &&& paid.quantity == cast.cost
            &&& paid.to_motion == Some(cast.motion_id)
            &&& paid.to_votes == Some(cast.count)
            &&& cast.count == request.count
            &&& cast.amount == recorded.amount + request.count
            &&& cast.first == recorded.amount + 1
            &&& cast.end == cast.first + request.count
            &&& cast.user_id == request.user_id
            &&& cast.motion_id == motion.id
        },
{
    let before = events.drop_last();
    reveal_with_fuel(session, 3);
    assert(events.len() > 0);
    assert(before.len() > 0);
}

/// A user's votes on a motion stay on one side: votes that were found are added
/// to, in their own direction, and a request for the other direction is
/// refused.
pub proof fn law_direction_is_kept(
    request: VoteRequest,
    motion: FoundMotion,
    recorded: RecordedVote,
)
    ensures
        request.direction == Some(!recorded.direction) ==> on_vote(request, motion, Some(recorded))
            == refused(VoteFailure::CannotChange),
        on_vote(request, motion, Some(recorded)) matches Some(
            (VoteStage::Pricing { recorded: kept, .. }, _),
        ) ==> kept == recorded && request.direction != Some(!recorded.direction),
{
}

/// Only an open motion can be voted on: every session that gets further than
/// the search for the motion has found one that is open.
pub proof fn law_only_open_motions_are_voted_on(request: VoteRequest, events: Seq<VoteEvent>)
    requires
        events.len() > 0,
        session(request, events) is Some,
        !(session(request, events) matches Some((_, VoteAction::Fail(_)))),
    ensures
        events[0] matches VoteEvent::Motion(Some(motion)) && motion.open,
    decreases events.len(),
{
    let before = events.drop_last();
    if events.len() == 1 {
        reveal_with_fuel(session, 2);
        assert(events.last() == events[0]);
    } else {
        if session(request, before) matches Some((_, VoteAction::Fail(_))) {
            law_refusal_is_final(request, before, events.last());
            assert(before.push(events.last()) =~= events);
        }
        law_only_open_motions_are_voted_on(request, before);
        assert(before[0] == events[0]);
    }
}

/// Casting votes changes the totals of a motion as they are counted from its
/// votes: the side of the vote gains as many votes as are cast, the other side
/// none.
pub proof fn law_cast_votes_are_counted(votes: Seq<MotionVote>, i: int, vote: MotionVote, count: i64)
    requires
        0 <= i < votes.len(),
        vote.direction == votes[i].direction,
        vote.amount == votes[i].amount + count,
        fits_i64(total(votes, true)),
        fits_i64(total(votes, false)),
    ensures
        totals_after(
            total(votes, true) as i64,
            total(votes, false) as i64,
            vote.direction,
            count,
        ) == (total(votes.update(i, vote), true), total(votes.update(i, vote), false)),
{
    crate::tally::lemma_total_update(votes, i, vote, true);
    crate::tally::lemma_total_update(votes, i, vote, false);
}

/// A voter who is recorded without votes does not change the totals.
pub proof fn law_empty_vote_counts_nothing(votes: Seq<MotionVote>, vote: MotionVote, side: bool)
    requires
        vote.amount == 0,
    ensures
        total(votes.push(vote), side) == total(votes, side),
{
    assert(votes.push(vote).drop_last() =~= votes);
}

/// Whether all numbers of a vote stay within 64 bits.
pub open spec fn within_bounds(
    request: VoteRequest,
    motion: FoundMotion,
    recorded: RecordedVote,
    costs: Seq<i64>,
    capital: i64,
    yes: i64,
    no: i64,
) -> bool {
    let (yes_after, no_after) = totals_after(yes, no, recorded.direction, request.count);
    &&& fits_i64(recorded.amount + 1)
    &&& fits_i64(recorded.amount + request.count)
    &&& fits_i64(recorded.amount + request.count + 1)
    &&& summable(costs)
    &&& fits_i64(capital - cost_of(costs))
    &&& fits_i64(yes_after)
    &&& fits_i64(no_after)
    &&& motion.is_super ==> fits_i64(yes + no) && fits_i64(yes_after + no_after)
}

/// A user with votes on an open motion who has the capital casts more of them,
/// at their cost, unless the other direction is asked for.
pub proof fn law_voter_can_add_votes(
    request: VoteRequest,
    motion: FoundMotion,
    recorded: RecordedVote,
    costs: Vec<i64>,
    balance: Option<i64>,
    yes: i64,
    no: i64,
)
    requires
        motion.open,
        request.direction != Some(!recorded.direction),
        costs@.len() == priced(request.count),
        cost_of(costs@) <= known_balance(balance),
        within_bounds(request, motion, recorded, costs@, known_balance(balance), yes, no),
    ensures
        session(
            request,
            seq![
                VoteEvent::Motion(Some(motion)),
                VoteEvent::Vote(Some(recorded)),
                VoteEvent::Costs(costs),
                VoteEvent::Balance(balance),
                VoteEvent::Totals { yes, no },
            ],
        ) matches Some((VoteStage::Finished, VoteAction::Finish(cast))) && cast.amount
            == recorded.amount + request.count && cast.cost == cost_of(costs@),
{
    let events = seq![
        VoteEvent::Motion(Some(motion)),
        VoteEvent::Vote(Some(recorded)),
        VoteEvent::Costs(costs),
        VoteEvent::Balance(balance),
        VoteEvent::Totals { yes, no },
    ];
    assert(events.take(5) =~= events);
    assert(costs@.take(costs@.len() as int) =~= costs@);
    lemma_session_take(request, events, 5);
    lemma_session_take(request, events, 4);
    lemma_session_take(request, events, 3);
    lemma_session_take(request, events, 2);
    lemma_session_take(request, events, 1);
}

/// A user without votes on an open motion who says how to vote and has the
/// capital casts votes in that direction, at their cost.
pub proof fn law_new_voter_can_vote(
    request: VoteRequest,
    motion: FoundMotion,
    direction: bool,
    costs: Vec<i64>,
    balance: Option<i64>,
    yes: i64,
    no: i64,
)
    requires
        motion.open,
        request.direction == Some(direction),
        costs@.len() == priced(request.count),
        cost_of(costs@) <= known_balance(balance),
        within_bounds(
            request,
            motion,
            RecordedVote { direction, amount: 0 },
            costs@,
            known_balance(balance),
            yes,
            no,
        ),
    ensures
        session(
            request,
            seq![
                VoteEvent::Motion(Some(motion)),
                VoteEvent::Vote(None),
                VoteEvent::Vote(Some(RecordedVote { direction, amount: 0 })),
                VoteEvent::Costs(costs),
                VoteEvent::Balance(balance),
                VoteEvent::Totals { yes, no },
            ],
        ) matches Some((VoteStage::Finished, VoteAction::Finish(cast))) && cast.amount
            == request.count && cast.cost == cost_of(costs@),
{
    let events = seq![
        VoteEvent::Motion(Some(motion)),
        VoteEvent::Vote(None),
        VoteEvent::Vote(Some(RecordedVote { direction, amount: 0 })),
        VoteEvent::Costs(costs),
        VoteEvent::Balance(balance),
        VoteEvent::Totals { yes, no },
    ];
    assert(events.take(6) =~= events);
    assert(costs@.take(costs@.len() as int) =~= costs@);
    lemma_session_take(request, events, 6);
    lemma_session_take(request, events, 5);
    lemma_session_take(request, events, 4);
    lemma_session_take(request, events, 3);
    lemma_session_take(request, events, 2);
    lemma_session_take(request, events, 1);
}

/// A session takes its answers one after the other.
proof fn lemma_session_take(request: VoteRequest, events: Seq<VoteEvent>, k: int)
    requires
        0 < k <= events.len(),
    ensures
        session(request, events.take(k)) == match session(request, events.take(k - 1)) {
            None => None,
            Some((stage, _)) => vote_step(request, stage, events[k - 1]),
        },
{
    assert(events.take(k).drop_last() =~= events.take(k - 1));
    assert(events.take(k).last() == events[k - 1]);
}

/// The cost of votes is the sum of their prices.
pub proof fn law_cost_is_a_sum(costs: Seq<i64>)
    ensures
        cost_of(costs) == costs.fold_left(0int, |sum: int, c: i64| sum + c),
    decreases costs.len(),
{
    let plus = |sum: int, c: i64| sum + c;
    if costs.len() > 0 {
        law_cost_is_a_sum(costs.drop_last());
        assert(costs.fold_left(0int, plus) == plus(
            costs.drop_last().fold_left(0int, plus),
            costs.last(),
        ));
    }
}

/// Every vote is charged: one more vote costs its price more, and votes that
/// are cast in two goes cost together what they cost at once.
pub proof fn law_every_vote_is_charged(a: Seq<i64>, b: Seq<i64>, c: i64)
    ensures
        cost_of(Seq::<i64>::empty()) == 0,
        cost_of(seq![c]) == c,
        cost_of(a.push(c)) == cost_of(a) + c,
        cost_of(a + b) == cost_of(a) + cost_of(b),
    decreases b.len(),
{
    reveal_with_fuel(cost_of, 2);
    assert(seq![c].drop_last() =~= Seq::<i64>::empty());
    assert(a.push(c).drop_last() =~= a);
    if b.len() == 0 {
        assert(a + b =~= a);
    } else {
        law_every_vote_is_charged(a, b.drop_last(), c);
        assert((a + b).drop_last() =~= a + b.drop_last());
    }
}

/// With prices above 0, more votes always cost more, and at least as much more
/// as there are more votes.
pub proof fn law_more_votes_cost_more(a: Seq<i64>, b: Seq<i64>)
    requires
        forall|i: int| 0 <= i < b.len() ==> #[trigger] b[i] > 0,
    ensures
        cost_of(a + b) >= cost_of(a) + b.len(),
    decreases b.len(),
{
    law_every_vote_is_charged(a, b, 0);
    if b.len() > 0 {
        let init = b.drop_last();
        assert forall|i: int| 0 <= i < init.len() implies #[trigger] init[i] > 0 by {
            assert(init[i] == b[i]);
        }
        law_more_votes_cost_more(a, init);
        law_every_vote_is_charged(a, init, 0);
        assert(b[b.len() - 1] > 0);
    }
}

/// The prices can be added exactly if no sum on the way leaves 64 bits; so they
/// always can where no price is negative and the cost fits.
pub proof fn law_ordinary_prices_can_be_added(costs: Seq<i64>, k: int)
    ensures
        (forall|i: int| 0 <= i < costs.len() ==> #[trigger] costs[i] >= 0) && cost_of(costs)
            <= 0x7fff_ffff_ffff_ffff ==> summable(costs),
        summable(costs) && 0 <= k <= costs.len() ==> -0x8000_0000_0000_0000 <= cost_of(
            costs.take(k),
        ) <= 0x7fff_ffff_ffff_ffff,
        !summable(costs) ==> exists|j: int|
            0 <= j <= costs.len() && !(-0x8000_0000_0000_0000 <= cost_of(#[trigger] costs.take(j))
                <= 0x7fff_ffff_ffff_ffff),
{
    if (forall|i: int| 0 <= i < costs.len() ==> #[trigger] costs[i] >= 0) && cost_of(costs)
        <= 0x7fff_ffff_ffff_ffff {
        assert forall|j: int| 0 <= j <= costs.len() implies fits_i64(
            cost_of(#[trigger] costs.take(j)),
        ) by {
            lemma_costs_grow(costs, j);
        }
    }
}

proof fn lemma_costs_grow(costs: Seq<i64>, k: int)
    requires
        0 <= k <= costs.len(),
        forall|i: int| 0 <= i < costs.len() ==> #[trigger] costs[i] >= 0,
    ensures
        0 <= cost_of(costs.take(k)) <= cost_of(costs),
    decreases costs.len(),
{
    if costs.len() == 0 {
        assert(costs.take(k) =~= costs);
    } else {
        let init = costs.drop_last();
        assert(costs[costs.len() - 1] >= 0);
        assert forall|i: int| 0 <= i < init.len() implies #[trigger] init[i] >= 0 by {
            assert(init[i] == costs[i]);
        }
        if k == costs.len() {
            assert(costs.take(k) =~= costs);
            lemma_costs_grow(init, k - 1);
            assert(init.take(k - 1) =~= init);
        } else {
            lemma_costs_grow(init, k);
            assert(init.take(k) =~= costs.take(k));
        }
    }
}

/// As many votes are priced as are asked for, and none where none or fewer are.
pub proof fn law_priced_votes(count: i64)
    ensures
        count >= 0 ==> priced(count) == count,
        count <= 0 ==> priced(count) == 0,
{
}

/// The answer to the search for a motion: a motion that is not there or not
/// open any more is refused, and for one that is open the votes of the user are
/// looked for.
pub proof fn law_search_for_the_motion(request: VoteRequest, motion: FoundMotion)
    ensures
        vote_step(request, VoteStage::FindingMotion, VoteEvent::Motion(None)) == Some(
            (VoteStage::Finished, VoteAction::Fail(VoteFailure::MotionNotFound)),
        ),
        !motion.open ==> vote_step(
            request,
            VoteStage::FindingMotion,
            VoteEvent::Motion(Some(motion)),
        ) == Some((VoteStage::Finished, VoteAction::Fail(VoteFailure::MotionExpired))),
        motion.open ==> vote_step(
            request,
            VoteStage::FindingMotion,
            VoteEvent::Motion(Some(motion)),
        ) == Some(
            (
                VoteStage::FindingVote { motion },
                VoteAction::FindVote { motion: motion.id, user: request.user_id },
            ),
        ),
{
}

/// The answer to the search for the user's votes: without votes a direction is
/// needed, and recorded; with votes the direction may not change.
pub proof fn law_search_for_the_votes(
    request: VoteRequest,
    motion: FoundMotion,
    recorded: RecordedVote,
    direction: bool,
)
    ensures
        request.direction is None ==> vote_step(
            request,
            VoteStage::FindingVote { motion },
            VoteEvent::Vote(None),
        ) == Some((VoteStage::Finished, VoteAction::Fail(VoteFailure::DirectionMissing))),
        request.direction == Some(direction) ==> vote_step(
            request,
            VoteStage::FindingVote { motion },
            VoteEvent::Vote(None),
        ) == Some(
            (
                VoteStage::ReadingVote { motion },
                VoteAction::InsertVote { motion: motion.id, user: request.user_id, direction },
            ),
        ),
        vote_step(request, VoteStage::FindingVote { motion }, VoteEvent::Vote(Some(recorded)))
            == Some((VoteStage::Finished, VoteAction::Fail(VoteFailure::CannotChange))) <==> (
        request.direction is Some && request.direction->0 != recorded.direction),
{
}

/// The votes to be priced start behind those that the user has, and are as many
/// as are asked for. They are priced wherever their ordinals fit 64 bits.
pub proof fn law_votes_to_be_priced(
    request: VoteRequest,
    motion: FoundMotion,
    recorded: RecordedVote,
)
    ensures
        to_price(request, motion, recorded) is Some <==> -0x8000_0000_0000_0000 <= recorded.amount
            + request.count && recorded.amount + request.count + 1 <= 0x7fff_ffff_ffff_ffff
            && recorded.amount + 1 <= 0x7fff_ffff_ffff_ffff,
        to_price(request, motion, recorded) matches Some((stage, action)) ==> {
            &&& stage == (VoteStage::Pricing { motion, recorded })
            &&& action matches VoteAction::Price { first, end } && first == recorded.amount + 1
                && end - first == request.count
        },
        request.direction is None || request.direction->0 == recorded.direction ==> vote_step(
            request,
            VoteStage::FindingVote { motion },
            VoteEvent::Vote(Some(recorded)),
        ) == to_price(request, motion, recorded),
        vote_step(request, VoteStage::ReadingVote { motion }, VoteEvent::Vote(Some(recorded)))
            == to_price(request, motion, recorded),
{
}

/// Every price is charged, and there is one for each vote that is asked for.
pub proof fn law_prices_are_added(
    request: VoteRequest,
    motion: FoundMotion,
    recorded: RecordedVote,
    costs: Vec<i64>,
)
    ensures
        vote_step(request, VoteStage::Pricing { motion, recorded }, VoteEvent::Costs(costs)) matches Some(
            (stage, action),
        ) ==> {
            &&& costs@.len() == (if request.count > 0 {
                request.count as int
            } else {
                0
            })
            &&& stage matches VoteStage::ReadingBalance { motion: m, recorded: r, cost } && m
                == motion && r == recorded && cost == costs@.fold_left(
                0int,
                |sum: int, c: i64| sum + c,
            )
            &&& action == (VoteAction::ReadBalance { user: request.user_id })
        },
        costs@.len() == request.count && (forall|i: int|
            0 <= i < costs@.len() ==> #[trigger] costs@[i] >= 0) && cost_of(costs@)
            <= 0x7fff_ffff_ffff_ffff ==> vote_step(
            request,
            VoteStage::Pricing { motion, recorded },
            VoteEvent::Costs(costs),
        ) is Some,
{
    law_cost_is_a_sum(costs@);
    law_ordinary_prices_can_be_added(costs@, costs@.len() as int);
    assert(costs@.take(costs@.len() as int) =~= costs@);
}

/// Votes are refused for want of capital exactly if they cost more than the
/// user has. Otherwise their cost is paid, and what is left is recorded; a
/// balance that is not known is 0.
pub proof fn law_capital_decides(
    request: VoteRequest,
    motion: FoundMotion,
    recorded: RecordedVote,
    cost: i64,
    balance: Option<i64>,
)
    ensures
        ({
            let capital: int = match balance {
                Some(b) => b as int,
                None => 0,
            };
            let step = vote_step(
                request,
                VoteStage::ReadingBalance { motion, recorded, cost },
                VoteEvent::Balance(balance),
            );
            &&& step == Some(
                (VoteStage::Finished, VoteAction::Fail(VoteFailure::NotEnoughCapital)),
            ) <==> cost > capital
            &&& 0 <= cost <= capital ==> step is Some
            &&& cost <= capital ==> (step matches Some((stage, action)) ==> {
                &&& stage == (VoteStage::ReadingTotals { motion, recorded, cost })
                &&& action matches VoteAction::Pay(paid) && {
                    &&& paid.quantity == cost
                    &&& paid.from_balance is Some && paid.from_balance->0 == capital - cost
                    &&& paid.from_user == Some(request.user_id)
                    &&& paid.to_user is None && paid.to_balance is None
                    &&& paid.ty == ItemType::PoliticalCapital
                    &&& !paid.from_gen
                    &&& paid.message_id == request.command_message_id
                    &&& paid.to_motion == Some(motion.id)
                    &&& paid.to_votes == Some(request.count)
                }
            })
        }),
{
}

/// Casting votes adds them to those of the user, and turns the result of the
/// motion exactly if it passes with them and not without, or without and not
/// with them.
pub proof fn law_votes_are_recorded(
    request: VoteRequest,
    motion: FoundMotion,
    recorded: RecordedVote,
    cost: i64,
    yes: i64,
    no: i64,
)
    ensures
        vote_step(
            request,
            VoteStage::ReadingTotals { motion, recorded, cost },
            VoteEvent::Totals { yes, no },
        ) matches Some((stage, action)) ==> {
            let more_yes: int = if recorded.direction {
                request.count as int
            } else {
                0
            };
            let more_no: int = if recorded.direction {
                0
            } else {
                request.count as int
            };
            &&& stage == VoteStage::Finished
            &&& action matches VoteAction::Finish(cast) && {
                &&& cast.motion_id == motion.id
                &&& cast.user_id == request.user_id
                &&& cast.message_id == motion.message_id
                &&& cast.count == request.count
                &&& cast.cost == cost
                &&& cast.amount - recorded.amount == request.count
                &&& cast.first - recorded.amount == 1
                &&& cast.end - cast.first == request.count
                &&& cast.result_changed <==> wins(yes as int, no as int, motion.is_super) != wins(
                    yes + more_yes,
                    no + more_no,
                    motion.is_super,
                )
                &&& !motion.is_super ==> (cast.result_changed <==> (yes > no) != (yes + more_yes > no
                    + more_no))
                &&& motion.is_super && 0 <= yes && 0 <= no && 0 <= request.count ==> (
                cast.result_changed <==> (yes > 2 * no) != (yes + more_yes > 2 * (no + more_no)))
            }
        },
{
    if motion.is_super && 0 <= yes && 0 <= no && 0 <= request.count {
        crate::tally::law_supermotion_needs_two_thirds(yes as int, no as int);
        crate::tally::law_supermotion_needs_two_thirds(yes + request.count, no as int);
        crate::tally::law_supermotion_needs_two_thirds(yes as int, no + request.count);
    }
}

/// The side of the vote gains the votes that are cast, and the other side
/// nothing.
pub proof fn law_one_side_gains(yes: i64, no: i64, count: i64)
    ensures
        totals_after(yes, no, true, count) == (yes + count, no as int),
        totals_after(yes, no, false, count) == (yes as int, no + count),
{
}

/// A session has a step for every answer that it waits for, as long as the
/// numbers are not negative and below two to the power of 61.
pub proof fn law_ordinary_votes_stay_within_bounds(
    request: VoteRequest,
    motion: FoundMotion,
    recorded: RecordedVote,
    costs: Seq<i64>,
    capital: i64,
    yes: i64,
    no: i64,
)
    requires
        0 <= request.count < 0x2000_0000_0000_0000,
        0 <= recorded.amount < 0x2000_0000_0000_0000,
        0 <= yes < 0x2000_0000_0000_0000,
        0 <= no < 0x2000_0000_0000_0000,
        forall|i: int| 0 <= i < costs.len() ==> #[trigger] costs[i] >= 0,
        cost_of(costs) <= capital,
    ensures
        within_bounds(request, motion, recorded, costs, capital, yes, no),
        on_totals(request, motion, recorded, cost_of(costs) as i64, yes, no) is Some,
{
    law_ordinary_prices_can_be_added(costs, 0);
    lemma_costs_grow(costs, costs.len() as int);
}

/// An answer that the session does not wait for has no step.
pub proof fn law_only_expected_answers(request: VoteRequest, stage: VoteStage, event: VoteEvent)
    ensures
        vote_step(request, stage, event) is Some ==> match stage {
            VoteStage::FindingMotion => event is Motion,
            VoteStage::FindingVote { .. } => event is Vote,
            VoteStage::ReadingVote { .. } => event is Vote && event->Vote_0 is Some,
            VoteStage::Pricing { .. } => event is Costs,
            VoteStage::ReadingBalance { .. } => event is Balance,
            VoteStage::ReadingTotals { .. } => event is Totals,
            VoteStage::Finished => false,
        },
{
}

/// The suffix of an ordinal depends on its last two digits, and not on its
/// sign. Above twenty only the last digit counts.
pub proof fn law_ordinal_suffixes(n: int)
    requires
        0 <= n,
    ensures
        ordinal_suffix(-n) == ordinal_suffix(n),
        ordinal_suffix(n + 100) == ordinal_suffix(n),
        20 < n < 100 ==> ordinal_suffix(n) == ordinal_suffix(n % 10),
        n == 1 ==> ordinal_suffix(n) == "st"@,
        n == 2 ==> ordinal_suffix(n) == "nd"@,
        n == 3 ==> ordinal_suffix(n) == "rd"@,
        n == 0 || 3 < n <= 20 ==> ordinal_suffix(n) == "th"@,
{
}

/// The answer to a vote begins with the number of the motion and ends with the
/// cost; between them stand how many votes were cast and which.
pub proof fn law_reply_tells_the_vote(cast: CastVote)
    ensures
        ({
            let words = cast.words();
            let id = decimal(cast.motion_id as int);
            let count = decimal(cast.count as int);
            let first = decimal(cast.first as int) + ordinal_suffix(cast.first as int);
            let end = decimal(cast.end as int) + ordinal_suffix(cast.end as int);
            let cost = decimal(cast.cost as int);
            let a = 17int + id.len();
            let b = a + 1 + count.len();
            let c = b + 8 + first.len();
            let d = c + 4 + end.len();
            let e = d + 10 + cost.len();
            &&& words.len() == e + 8
            &&& words.take(17) == "Voted on motion #"@
            &&& words.subrange(17, a) == id
            &&& words.subrange(a + 1, b) == count
            &&& words.subrange(b, b + 8) == " times, "@
            &&& words.subrange(b + 8, c) == first
            &&& words.subrange(c, c + 4) == " to "@
            &&& words.subrange(c + 4, d) == end
            &&& words.subrange(d, d + 10) == ", costing "@
            &&& words.subrange(d + 10, e) == cost
            &&& words.skip(e) == " capital"@
        }),
{
    reveal_strlit("Voted on motion #");
    reveal_strlit(" ");
    reveal_strlit(" times, ");
    reveal_strlit(" to ");
    reveal_strlit(", costing ");
    reveal_strlit(" capital");
    let words = cast.words();
    let id = decimal(cast.motion_id as int);
    let count = decimal(cast.count as int);
    let cost = decimal(cast.cost as int);
    let p0 = "Voted on motion #"@;
    let p1 = p0 + id;
    let p2 = p1 + " "@;
    let p3 = p2 + count;
    let p4 = p3 + " times, "@;
    let p5 = p4 + decimal(cast.first as int);
    let p6 = p5 + ordinal_suffix(cast.first as int);
    let p7 = p6 + " to "@;
    let p8 = p7 + decimal(cast.end as int);
    let p9 = p8 + ordinal_suffix(cast.end as int);
    let p10 = p9 + ", costing "@;
    let p11 = p10 + cost;
    let p12 = p11 + " capital"@;
    assert(p12 == words);
    lemma_appended(p0, id);
    lemma_appended(p1, " "@);
    lemma_appended(p2, count);
    lemma_appended(p3, " times, "@);
    lemma_appended(p4, decimal(cast.first as int));
    lemma_appended(p5, ordinal_suffix(cast.first as int));
    lemma_appended(p6, " to "@);
    lemma_appended(p7, decimal(cast.end as int));
    lemma_appended(p8, ordinal_suffix(cast.end as int));
    lemma_appended(p9, ", costing "@);
    lemma_appended(p10, cost);
    lemma_appended(p11, " capital"@);
    lemma_start_of_start(p10, p11, words);
    lemma_start_of_start(p9, p10, words);
    lemma_start_of_start(p8, p9, words);
    lemma_start_of_start(p7, p8, words);
    lemma_start_of_start(p6, p7, words);
    lemma_start_of_start(p5, p6, words);
    lemma_start_of_start(p4, p5, words);
    lemma_start_of_start(p3, p4, words);
    lemma_start_of_start(p2, p3, words);
    lemma_start_of_start(p1, p2, words);
    lemma_start_of_start(p0, p1, words);
    lemma_cut_of_start(p1, words, p0.len() as int, p1.len() as int);
    lemma_cut_of_start(p2, words, p1.len() as int, p2.len() as int);
    lemma_cut_of_start(p3, words, p2.len() as int, p3.len() as int);
    lemma_cut_of_start(p4, words, p3.len() as int, p4.len() as int);
    lemma_cut_of_start(p5, words, p4.len() as int, p5.len() as int);
    lemma_cut_of_start(p6, words, p5.len() as int, p6.len() as int);
    lemma_cut_of_start(p7, words, p6.len() as int, p7.len() as int);
    lemma_cut_of_start(p8, words, p7.len() as int, p8.len() as int);
    lemma_cut_of_start(p9, words, p8.len() as int, p9.len() as int);
    lemma_cut_of_start(p10, words, p9.len() as int, p10.len() as int);
    lemma_cut_of_start(p11, words, p10.len() as int, p11.len() as int);
    lemma_cut_of_start(p6, words, p4.len() as int, p6.len() as int);
    lemma_cut_of_start(p9, words, p7.len() as int, p9.len() as int);
    lemma_appended_two(
        p4,
        decimal(cast.first as int),
        ordinal_suffix(cast.first as int),
    );
    lemma_appended_two(p7, decimal(cast.end as int), ordinal_suffix(cast.end as int));
}

/// Steps are missing only where a number would leave 64 bits, or where there is
/// not one price for each vote.
pub proof fn law_where_steps_are_missing(
    request: VoteRequest,
    motion: FoundMotion,
    recorded: RecordedVote,
    costs: Seq<i64>,
    cost: i64,
    capital: i64,
    yes: i64,
    no: i64,
)
    ensures
        on_costs(request, motion, recorded, costs) is Some <==> summable(costs) && (costs.len()
            == request.count || (costs.len() == 0 && request.count < 0)),
        on_balance(request, motion, recorded, cost, Some(capital)) is Some <==> capital - cost
            <= 0x7fff_ffff_ffff_ffff,
        on_totals(request, motion, recorded, cost, yes, no) is Some <==> {
            let yes_after = yes + if recorded.direction {
                request.count as int
            } else {
                0
            };
            let no_after = no + if recorded.direction {
                0
            } else {
                request.count as int
            };
            &&& recorded.amount + 1 <= 0x7fff_ffff_ffff_ffff
            &&& -0x8000_0000_0000_0000 <= recorded.amount + request.count < 0x7fff_ffff_ffff_ffff
            &&& -0x8000_0000_0000_0000 <= yes_after <= 0x7fff_ffff_ffff_ffff
            &&& -0x8000_0000_0000_0000 <= no_after <= 0x7fff_ffff_ffff_ffff
            &&& motion.is_super ==> -0x8000_0000_0000_0000 <= yes + no <= 0x7fff_ffff_ffff_ffff
            &&& motion.is_super ==> -0x8000_0000_0000_0000 <= yes_after + no_after
                <= 0x7fff_ffff_ffff_ffff
        },
{
}

} // verus!
