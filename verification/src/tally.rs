//! Counting votes: the totals for and against, when a motion passes, and the
//! order in which voters are listed.

use bigdecimal::ToPrimitive;
use vstd::prelude::*;
#[allow(unused_imports)]
use vstd::arithmetic::power::pow;

verus! {

/// All votes that one user has on one motion.
#[derive(Clone, Copy, Debug, PartialEq, Eq, Structural)]
pub struct MotionVote {
    pub user: i64,
    pub amount: i64,
    /// `true` for the motion, `false` against it.
    pub direction: bool,
}

/// Whether `n` is a 64-bit signed integer.
pub open spec fn fits_i64(n: int) -> bool {
    i64::MIN <= n <= i64::MAX
}

/// The total of the votes in one direction.
pub open spec fn total(votes: Seq<MotionVote>, direction: bool) -> int
    decreases votes.len(),
{
    if votes.len() == 0 {
        0
    } else {
        total(votes.drop_last(), direction) + if votes.last().direction == direction {
            votes.last().amount as int
        } else {
            0
        }
    }
}

/// Replacing one vote replaces its share in the total.
pub proof fn lemma_total_update(votes: Seq<MotionVote>, i: int, vote: MotionVote, direction: bool)
    requires
        0 <= i < votes.len(),
    ensures
        total(votes.update(i, vote), direction) == total(votes, direction) - (
        if votes[i].direction == direction {
            votes[i].amount as int
        } else {
            0
        }) + (if vote.direction == direction {
            vote.amount as int
        } else {
            0
        }),
    decreases votes.len(),
{
    let updated = votes.update(i, vote);
    if i == votes.len() - 1 {
        assert(updated.drop_last() =~= votes.drop_last());
    } else {
        lemma_total_update(votes.drop_last(), i, vote, direction);
        assert(updated.drop_last() =~= votes.drop_last().update(i, vote));
    }
}

/// Whether both totals stay within 64 bits while the votes are counted in
/// order.
pub open spec fn countable(votes: Seq<MotionVote>) -> bool {
    forall|k: int|
        0 <= k <= votes.len() ==> fits_i64(total(#[trigger] votes.take(k), true)) && fits_i64(
            total(votes.take(k), false),
        )
}

/// A third of `n`, rounded towards zero.
pub open spec fn truncated_third(n: int) -> int {
    if n >= 0 {
        n / 3
    } else {
        -((-n) / 3)
    }
}

/// The least number of votes with which a supermotion passes, of `all` votes.
pub open spec fn super_threshold(all: int) -> int {
    let div = truncated_third(all);
    let rem = all - 3 * div;
    2 * div + rem + if rem == 0 {
        1int
    } else {
        0
    }
}

/// Whether a motion with these totals passes. An ordinary motion needs more
/// votes for it than against it; a supermotion needs its threshold.
pub open spec fn wins(yes: int, no: int, is_super: bool) -> bool {
    if is_super {
        yes >= super_threshold(yes + no)
    } else {
        yes > no
    }
}

/// Whether a motion with these totals passes.
pub fn is_win(yes_votes: i64, no_votes: i64, is_super: bool) -> (r: bool)
    requires
        is_super ==> fits_i64(yes_votes + no_votes),
    ensures
        r == wins(yes_votes as int, no_votes as int, is_super),
        !is_super ==> r == (yes_votes > no_votes),
        is_super && 0 <= yes_votes + no_votes ==> r == (yes_votes > 2 * no_votes),
{
    if is_super {
        let all: i64 = yes_votes + no_votes;
        let div: i64 = all / 3;
        let rem: i64 = all % 3;
        let tie: i64 = if rem == 0 {
            1
        } else {
            0
        };
        yes_votes >= div * 2 + rem + tie
    } else {
        yes_votes > no_votes
    }
}

/// A supermotion passes exactly with more than two thirds of the votes: more
/// than twice as many for it as against it.
pub proof fn law_supermotion_needs_two_thirds(yes: int, no: int)
    requires
        0 <= yes + no,
    ensures
        wins(yes, no, true) <==> 3 * yes > 2 * (yes + no),
        wins(yes, no, true) <==> yes > 2 * no,
{
}

/// A motion does not pass on a tie, nor without votes.
pub proof fn law_tie_loses(n: int, is_super: bool)
    requires
        0 <= n,
    ensures
        !wins(n, n, is_super),
{
}

/// What passes as a supermotion would pass as an ordinary motion.
pub proof fn law_supermotion_is_stricter(yes: int, no: int)
    requires
        0 <= yes,
        0 <= no,
        wins(yes, no, true),
    ensures
        wins(yes, no, false),
{
}

/// More votes for a motion and fewer against it do not make it fail.
pub proof fn law_support_only_helps(yes: int, no: int, more: int, fewer: int, is_super: bool)
    requires
        0 <= yes <= more,
        0 <= fewer <= no,
        wins(yes, no, is_super),
    ensures
        wins(more, fewer, is_super),
{
}

/// A motion and its opposite do not both pass with the same votes.
pub proof fn law_one_side_wins(yes: int, no: int, is_super: bool)
    requires
        0 <= yes,
        0 <= no,
    ensures
        !(wins(yes, no, is_super) && wins(no, yes, is_super)),
{
}

/// `a + b`, where that is a 64-bit signed integer.
pub fn sum_i64(a: i64, b: i64) -> (r: Option<i64>)
    ensures
        r == if fits_i64(a + b) {
            Some((a + b) as i64)
        } else {
            None
        },
        r is Some <==> -0x8000_0000_0000_0000 <= a + b <= 0x7fff_ffff_ffff_ffff,
        r matches Some(s) ==> s == a + b,
{
    let s: i128 = a as i128 + b as i128;
    if s < -9223372036854775808 || s > 9223372036854775807 {
        None
    } else {
        Some(s as i64)
    }
}

/// The totals for and against, or `None` where one of them leaves 64 bits while
/// the votes are counted in order.
pub fn tally(votes: &Vec<MotionVote>) -> (r: Option<(i64, i64)>)
    ensures
        r is Some <==> countable(votes@),
        r matches Some(t) ==> t.0 == total(votes@, true) && t.1 == total(votes@, false),
{
    let mut yes: i64 = 0;
    let mut no: i64 = 0;
    let mut i: usize = 0;
    assert(votes@.take(0) =~= Seq::<MotionVote>::empty());
    while i < votes.len()
        invariant
            i <= votes.len(),
            yes == total(votes@.take(i as int), true),
            no == total(votes@.take(i as int), false),
            forall|k: int|
                0 <= k <= i ==> fits_i64(total(#[trigger] votes@.take(k), true)) && fits_i64(
                    total(votes@.take(k), false),
                ),
        decreases votes.len() - i,
    {
        let vote = votes[i];
        assert(votes@.take(i + 1).drop_last() =~= votes@.take(i as int));
        if vote.direction {
            match sum_i64(yes, vote.amount) {
                Some(s) => {
                    yes = s;
                },
                None => {
                    return None;
                },
            }
        } else {
            match sum_i64(no, vote.amount) {
                Some(s) => {
                    no = s;
                },
                None => {
                    return None;
                },
            }
        }
        i = i + 1;
    }
    assert(votes@.take(i as int) =~= votes@);
    Some((yes, no))
}

/// The count of a motion: the totals, and whether it passes.
#[derive(Clone, Copy, Debug, PartialEq, Eq, Structural)]
pub struct Count {
    pub yes: i64,
    pub no: i64,
    pub pass: bool,
}

/// Whether the votes of a motion can be counted within 64 bits, which for a
/// supermotion includes the number of all votes.
pub open spec fn decidable(votes: Seq<MotionVote>, is_super: bool) -> bool {
    countable(votes) && (is_super ==> fits_i64(total(votes, true) + total(votes, false)))
}

/// Whether `count` is the count of the motion with these votes.
pub open spec fn is_count(count: Count, votes: Seq<MotionVote>, is_super: bool) -> bool {
    &&& count.yes == total(votes, true)
    &&& count.no == total(votes, false)
    &&& count.pass == wins(total(votes, true), total(votes, false), is_super)
}

/// The votes of a motion have one count.
pub proof fn law_count_is_determined(c: Count, d: Count, votes: Seq<MotionVote>, is_super: bool)
    requires
        is_count(c, votes, is_super),
        is_count(d, votes, is_super),
    ensures
        c == d,
{
}

/// Counts the votes of a motion; `None` where a number on the way leaves 64
/// bits.
pub fn count_votes(votes: &Vec<MotionVote>, is_super: bool) -> (r: Option<Count>)
    ensures
        r is Some <==> decidable(votes@, is_super),
        r matches Some(c) ==> is_count(c, votes@, is_super),
        r matches Some(c) ==> c.yes == total(votes@, true) && c.no == total(votes@, false) && (
        !is_super ==> c.pass == (c.yes > c.no)) && (is_super && 0 <= c.yes + c.no ==> c.pass == (
        c.yes > 2 * c.no)),
{
    match tally(votes) {
        None => None,
        Some((yes, no)) => {
            if is_super {
                match sum_i64(yes, no) {
                    None => {
                        return None;
                    },
                    Some(_) => {},
                }
            }
            Some(Count { yes, no, pass: is_win(yes, no, is_super) })
        },
    }
}

/// Whether the votes come with the larger amounts first.
pub open spec fn largest_first(votes: Seq<MotionVote>) -> bool {
    forall|i: int, j: int|
        0 <= i <= j < votes.len() ==> (#[trigger] votes[i]).amount >= (#[trigger] votes[j]).amount
}

/// Whether `ranked` holds the votes of `votes`, with the larger amounts first.
pub open spec fn is_ranking(ranked: Seq<MotionVote>, votes: Seq<MotionVote>) -> bool {
    ranked.to_multiset() == votes.to_multiset() && largest_first(ranked)
}

/// The votes with the larger amounts first. The order among equal amounts is
/// left open.
pub fn rank_votes(votes: &Vec<MotionVote>) -> (r: Vec<MotionVote>)
    ensures
        is_ranking(r@, votes@),
        r@.to_multiset() == votes@.to_multiset(),
        r@.len() == votes@.len(),
        forall|i: int, j: int|
            0 <= i <= j < r@.len() ==> (#[trigger] r@[i]).amount >= (#[trigger] r@[j]).amount,
{
    let mut ranked: Vec<MotionVote> = Vec::new();
    let mut i: usize = 0;
    assert(votes@.take(0) =~= ranked@);
    while i < votes.len()
        invariant
            i <= votes.len(),
            is_ranking(ranked@, votes@.take(i as int)),
        decreases votes.len() - i,
    {
        let vote = votes[i];
        let mut place: usize = 0;
        while place < ranked.len() && ranked[place].amount >= vote.amount
            invariant
                place <= ranked.len(),
                forall|j: int| 0 <= j < place ==> (#[trigger] ranked@[j]).amount >= vote.amount,
            decreases ranked.len() - place,
        {
            place = place + 1;
        }
        let ghost before = ranked@;
        ranked.insert(place, vote);
        proof {
            vstd::seq_lib::to_multiset_insert(before, place as int, vote);
            vstd::seq_lib::to_multiset_build(votes@.take(i as int), vote);
            assert(votes@.take(i + 1) =~= votes@.take(i as int).push(vote));
            assert forall|a: int, b: int| 0 <= a <= b < ranked@.len() implies (
            #[trigger] ranked@[a]).amount >= (#[trigger] ranked@[b]).amount by {
                let old_a = if a < place {
                    a
                } else {
                    a - 1
                };
                let old_b = if b < place {
                    b
                } else {
                    b - 1
                };
                if a != place {
                    assert(ranked@[a] == before[old_a]);
                }
                if b != place {
                    assert(ranked@[b] == before[old_b]);
                }
                if a == place && b > place {
                    assert(before[place as int].amount < vote.amount);
                    assert(before[place as int].amount >= before[old_b].amount);
                }
            }
        }
        i = i + 1;
    }
    assert(votes@.take(i as int) =~= votes@);
    proof {
        vstd::seq_lib::to_multiset_len(ranked@);
        vstd::seq_lib::to_multiset_len(votes@);
    }
    ranked
}

/// A decimal number as a database gives it: `digits` divided by ten to the
/// power of `scale`.
#[derive(Clone, Copy, Debug, PartialEq, Eq, Structural)]
pub struct Numeric {
    pub digits: i128,
    pub scale: i64,
}

impl Numeric {
    /// Whether the scale is one that a PostgreSQL `numeric` can have.
    pub open spec fn valid(self) -> bool {
        0 <= self.scale <= 16383
    }

    /// The number, with its fraction cut off.
    pub open spec fn whole(self) -> int {
        let unit = pow(10, self.scale as nat);
        if self.digits >= 0 {
            self.digits as int / unit
        } else {
            -((-self.digits) / unit)
        }
    }
}

/// Calls `bigdecimal::BigDecimal::to_i64` on the number that `n` describes.
/// The contract claims that the call cuts the fraction off, towards zero, and
/// gives the whole number that is left where it fits 64 bits, and `None` where
/// it does not.
#[verifier::external_body]
fn numeric_to_i64(n: Numeric) -> (r: Option<i64>)
    requires
        n.valid(),
    ensures
        r == if fits_i64(n.whole()) {
            Some(n.whole() as i64)
        } else {
            None
        },
{
    bigdecimal::BigDecimal::new(n.digits.into(), n.scale).to_i64()
}

/// The votes that a sum over rows stands for. A sum over no rows is absent and
/// counts as 0; `None` is a sum that does not fit 64 bits.
pub fn vote_total(sum: Option<Numeric>) -> (r: Option<i64>)
    requires
        sum matches Some(n) ==> n.valid(),
    ensures
        sum is None ==> r == Some(0i64),
        sum matches Some(n) ==> r == if fits_i64(n.whole()) {
            Some(n.whole() as i64)
        } else {
            None
        },
{
    match sum {
        None => Some(0),
        Some(n) => numeric_to_i64(n),
    }
}

/// A number without a fraction is its own whole part.
pub proof fn law_whole_of_integer(n: Numeric)
    requires
        n.scale == 0,
    ensures
        n.whole() == n.digits,
{
    vstd::arithmetic::power::lemma_pow0(10);
}

/// An ordinary motion passes exactly with more votes for it than against it.
pub proof fn law_ordinary_motion_needs_more_votes(yes: int, no: int)
    ensures
        wins(yes, no, false) <==> yes > no,
{
}

/// The votes of a supermotion that add up to less than none: where the sum is
/// `q` times three below zero and `r` more, the threshold is `2 * q + r` below
/// zero, and it has to be exceeded where `r` is 0.
pub proof fn law_supermotion_below_zero(yes: int, no: int, q: int, r: int)
    requires
        yes + no == -(3 * q + r),
        0 <= q,
        0 <= r < 3,
        0 < 3 * q + r,
    ensures
        r == 0 ==> (wins(yes, no, true) <==> yes > -2 * q),
        r != 0 ==> (wins(yes, no, true) <==> yes >= -2 * q - r),
{
}

/// Scaling all votes by the same number does not change who wins.
pub proof fn law_scale_does_not_matter(yes: int, no: int, k: int, is_super: bool)
    requires
        0 <= yes,
        0 <= no,
        0 < k,
    ensures
        wins(k * yes, k * no, is_super) <==> wins(yes, no, is_super),
{
    assert(k * yes > k * no <==> yes > no) by (nonlinear_arith)
        requires
            0 < k,
    ;
    assert(k * yes > 2 * (k * no) <==> yes > 2 * no) by (nonlinear_arith)
        requires
            0 < k,
    ;
    assert(0 <= k * yes && 0 <= k * no) by (nonlinear_arith)
        requires
            0 < k,
            0 <= yes,
            0 <= no,
    ;
    law_ordinary_motion_needs_more_votes(yes, no);
    law_ordinary_motion_needs_more_votes(k * yes, k * no);
    law_supermotion_needs_two_thirds(yes, no);
    law_supermotion_needs_two_thirds(k * yes, k * no);
}

/// The numbers of 64 bits with a sign.
pub proof fn law_range_of_i64(n: int)
    ensures
        fits_i64(n) <==> -0x8000_0000_0000_0000 <= n <= 0x7fff_ffff_ffff_ffff,
{
}

/// Every vote is counted, once, on its own side: a further voter adds exactly
/// the amount of that vote to its side, and the totals of two groups of voters
/// are the sums of their totals.
pub proof fn law_every_vote_is_counted(
    a: Seq<MotionVote>,
    b: Seq<MotionVote>,
    vote: MotionVote,
    side: bool,
)
    ensures
        total(Seq::<MotionVote>::empty(), side) == 0,
        total(a.push(vote), vote.direction) == total(a, vote.direction) + vote.amount,
        total(a.push(vote), !vote.direction) == total(a, !vote.direction),
        total(seq![vote], vote.direction) == vote.amount,
        total(seq![vote], !vote.direction) == 0,
        total(a + b, side) == total(a, side) + total(b, side),
    decreases b.len(),
{
    reveal_with_fuel(total, 2);
    assert(a.push(vote).drop_last() =~= a);
    assert(seq![vote].drop_last() =~= Seq::<MotionVote>::empty());
    if b.len() == 0 {
        assert(a + b =~= a);
    } else {
        law_every_vote_is_counted(a, b.drop_last(), vote, side);
        assert((a + b).drop_last() =~= a + b.drop_last());
    }
}

/// The total of a side is the sum of the amounts on that side.
pub proof fn law_total_is_a_sum(votes: Seq<MotionVote>, side: bool)
    ensures
        total(votes, side) == votes.fold_left(
            0int,
            |sum: int, v: MotionVote|
                sum + if v.direction == side {
                    v.amount as int
                } else {
                    0
                },
        ),
    decreases votes.len(),
{
    let plus = |sum: int, v: MotionVote|
        sum + if v.direction == side {
            v.amount as int
        } else {
            0
        };
    if votes.len() > 0 {
        law_total_is_a_sum(votes.drop_last(), side);
        assert(votes.fold_left(0int, plus) == plus(
            votes.drop_last().fold_left(0int, plus),
            votes.last(),
        ));
    }
}

/// Votes can be counted exactly if no total on the way leaves 64 bits; so they
/// can always be counted where no amount is negative and both totals fit.
pub proof fn law_ordinary_votes_can_be_counted(votes: Seq<MotionVote>, is_super: bool)
    requires
        forall|i: int| 0 <= i < votes.len() ==> (#[trigger] votes[i]).amount >= 0,
        total(votes, true) + total(votes, false) <= 0x7fff_ffff_ffff_ffff,
    ensures
        countable(votes),
        decidable(votes, is_super),
{
    assert forall|k: int| 0 <= k <= votes.len() implies fits_i64(
        total(#[trigger] votes.take(k), true),
    ) && fits_i64(total(votes.take(k), false)) by {
        lemma_totals_grow(votes, k);
    }
    lemma_totals_grow(votes, votes.len() as int);
    lemma_totals_grow(votes, 0);
}

proof fn lemma_totals_grow(votes: Seq<MotionVote>, k: int)
    requires
        0 <= k <= votes.len(),
        forall|i: int| 0 <= i < votes.len() ==> (#[trigger] votes[i]).amount >= 0,
    ensures
        0 <= total(votes.take(k), true) <= total(votes, true),
        0 <= total(votes.take(k), false) <= total(votes, false),
    decreases votes.len(),
{
    if votes.len() == 0 {
        assert(votes.take(k) =~= votes);
    } else {
        let init = votes.drop_last();
        assert(votes.last() == votes[votes.len() - 1]);
        assert forall|i: int| 0 <= i < init.len() implies (#[trigger] init[i]).amount >= 0 by {
            assert(init[i] == votes[i]);
        }
        if k == votes.len() {
            assert(votes.take(k) =~= votes);
            lemma_totals_grow(init, k - 1);
            assert(init.take(k - 1) =~= init);
        } else {
            lemma_totals_grow(init, k);
            assert(init.take(k) =~= votes.take(k));
        }
    }
}

/// Votes that can be counted have totals of 64 bits, also those of the first
/// `k` of them.
pub proof fn law_counted_totals_fit(votes: Seq<MotionVote>, k: int)
    requires
        countable(votes),
        0 <= k <= votes.len(),
    ensures
        -0x8000_0000_0000_0000 <= total(votes.take(k), true) <= 0x7fff_ffff_ffff_ffff,
        -0x8000_0000_0000_0000 <= total(votes.take(k), false) <= 0x7fff_ffff_ffff_ffff,
        decidable(votes, false),
        decidable(votes, true) <==> -0x8000_0000_0000_0000 <= total(votes, true) + total(votes, false)
            <= 0x7fff_ffff_ffff_ffff,
{
}

/// Votes that cannot be counted have a total on the way that leaves 64 bits,
/// and do not decide a motion.
pub proof fn law_uncountable_votes_overflow(votes: Seq<MotionVote>, is_super: bool)
    requires
        !countable(votes),
    ensures
        !decidable(votes, is_super),
        exists|k: int|
            0 <= k <= votes.len() && !(-0x8000_0000_0000_0000 <= total(#[trigger] votes.take(k), true)
                <= 0x7fff_ffff_ffff_ffff && -0x8000_0000_0000_0000 <= total(votes.take(k), false)
                <= 0x7fff_ffff_ffff_ffff),
{
}

/// A count holds the totals, and says of an ordinary motion that it passes with
/// more votes for it than against it, and of a supermotion with more than twice
/// as many.
pub proof fn law_count_follows_the_totals(count: Count, votes: Seq<MotionVote>, is_super: bool)
    requires
        is_count(count, votes, is_super),
    ensures
        count.yes == total(votes, true),
        count.no == total(votes, false),
        !is_super ==> (count.pass <==> count.yes > count.no),
        is_super && 0 <= count.yes + count.no ==> (count.pass <==> count.yes > 2 * count.no),
{
}

/// A ranking holds the same votes, none more and none fewer often, and of two
/// of them the one with the larger amount first.
pub proof fn law_ranking_keeps_the_votes(
    ranked: Seq<MotionVote>,
    votes: Seq<MotionVote>,
    vote: MotionVote,
    i: int,
    j: int,
)
    requires
        is_ranking(ranked, votes),
    ensures
        ranked.len() == votes.len(),
        ranked.to_multiset().count(vote) == votes.to_multiset().count(vote),
        0 <= i <= j < ranked.len() ==> ranked[i].amount >= ranked[j].amount,
{
    vstd::seq_lib::to_multiset_len(ranked);
    vstd::seq_lib::to_multiset_len(votes);
}

/// The admitted scales are those from 0 to 16383.
pub proof fn law_admitted_scales(n: Numeric)
    ensures
        n.valid() <==> 0 <= n.scale <= 16383,
{
}

/// The whole part of a number lies between zero and the number, less than one
/// away from it.
pub proof fn law_whole_is_cut_towards_zero(n: Numeric)
    requires
        n.valid(),
    ensures
        n.digits >= 0 ==> n.whole() * pow(10, n.scale as nat) <= n.digits < (n.whole() + 1) * pow(
            10,
            n.scale as nat,
        ),
        n.digits < 0 ==> (n.whole() - 1) * pow(10, n.scale as nat) < n.digits <= n.whole() * pow(
            10,
            n.scale as nat,
        ),
{
    let unit = pow(10, n.scale as nat);
    vstd::arithmetic::power::lemma_pow_positive(10, n.scale as nat);
    let m: int = if n.digits >= 0 {
        n.digits as int
    } else {
        -n.digits
    };
    let w = m / unit;
    vstd::arithmetic::div_mod::lemma_fundamental_div_mod(m, unit);
    vstd::arithmetic::div_mod::lemma_mod_bound(m, unit);
    assert(w * unit <= m < (w + 1) * unit) by (nonlinear_arith)
        requires
            m == unit * w + m % unit,
            0 <= m % unit < unit,
    ;
    assert((-w) * unit == -(w * unit)) by (nonlinear_arith);
    assert((-w - 1) * unit == -((w + 1) * unit)) by (nonlinear_arith);
}

} // verus!
