//! The boxes of titled fields that the bot posts: a motion with its votes, the
//! end of a vote, and a user's balances.

use vstd::prelude::*;

use crate::damm::announced_id;
#[allow(unused_imports)]
use crate::damm::checked_numeral;
use crate::ids::{mention, stored_user_text};
#[allow(unused_imports)]
use crate::ids::{mention_of, restored};
use crate::ledger::balance_or_zero;
#[allow(unused_imports)]
use crate::ledger::known_balance;
use crate::tally::{count_votes, rank_votes, Count, MotionVote};
#[allow(unused_imports)]
use crate::tally::{decidable, is_count, is_ranking, largest_first, total, wins};
use crate::text::{i64_text, push_i64};
#[allow(unused_imports)]
use crate::text::{decimal, lemma_appended, lemma_cut_of_start, lemma_start_of_start};

verus! {

/// How many voters a motion's box lists.
pub const LISTED_VOTERS: usize = 21;

/// One field of a box.
#[derive(Debug, PartialEq, Eq)]
pub struct EmbedField {
    pub name: String,
    pub value: String,
    pub inline: bool,
}

/// What one field shows.
#[verifier::ext_equal]
pub struct FieldView {
    pub name: Seq<char>,
    pub value: Seq<char>,
    pub inline: bool,
}

impl View for EmbedField {
    type V = FieldView;

    open spec fn view(&self) -> FieldView {
        FieldView { name: self.name@, value: self.value@, inline: self.inline }
    }
}

/// What a list of fields shows.
pub open spec fn shown(fields: Seq<EmbedField>) -> Seq<FieldView> {
    fields.map_values(|f: EmbedField| f@)
}

/// The line with the totals. The side that prevails comes first, in bold.
pub open spec fn votes_line(count: Count) -> Seq<char> {
    if count.pass {
        "**for "@ + decimal(count.yes as int) + "**/"@ + decimal(count.no as int) + " against"@
    } else {
        "**against "@ + decimal(count.no as int) + "**/"@ + decimal(count.yes as int) + " for"@
    }
}

/// The line with the totals. The side that prevails comes first, in bold.
pub fn votes_text(count: Count) -> (r: String)
    ensures
        r@ == votes_line(count),
{
    let mut out = String::new();
    if count.pass {
        out.append("**for ");
        push_i64(&mut out, count.yes);
        out.append("**/");
        push_i64(&mut out, count.no);
        out.append(" against");
    } else {
        out.append("**against ");
        push_i64(&mut out, count.no);
        out.append("**/");
        push_i64(&mut out, count.yes);
        out.append(" for");
    }
    assert(out@ =~= votes_line(count));
    out
}

/// The field with the totals.
pub open spec fn votes_field_view(count: Count) -> FieldView {
    FieldView { name: "Votes"@, value: votes_line(count), inline: false }
}

/// The field with the text of a motion.
pub open spec fn motion_field_view(motion_text: Seq<char>) -> FieldView {
    FieldView { name: "Motion"@, value: motion_text, inline: false }
}

/// The field of one voter: the user's number, and how many votes in which
/// direction.
pub open spec fn voter_field_view(vote: MotionVote) -> FieldView {
    FieldView {
        name: decimal(restored(vote.user)),
        value: decimal(vote.amount as int) + " "@ + if vote.direction {
            "for"@
        } else {
            "against"@
        },
        inline: true,
    }
}

/// The field that says that not every voter is listed.
pub open spec fn note_field_view() -> FieldView {
    FieldView {
        name: "Note"@,
        value:
            "There are more users that have voted, but there are too many to display here."@,
        inline: false,
    }
}

/// How many of `n` voters are listed.
pub open spec fn listed(n: nat) -> int {
    if n <= LISTED_VOTERS {
        n as int
    } else {
        LISTED_VOTERS as int
    }
}

/// The fields of the given voters, in order.
pub open spec fn voters_view(votes: Seq<MotionVote>) -> Seq<FieldView> {
    votes.map_values(|v: MotionVote| voter_field_view(v))
}

/// The fields of a motion whose voters are listed in the given order.
pub open spec fn motion_view(
    motion_text: Seq<char>,
    count: Count,
    ranked: Seq<MotionVote>,
) -> Seq<FieldView> {
    seq![motion_field_view(motion_text), votes_field_view(count)] + voters_view(
        ranked.take(listed(ranked.len())),
    ) + if ranked.len() > LISTED_VOTERS {
        seq![note_field_view()]
    } else {
        seq![]
    }
}

/// A field with the given texts.
fn field(name: &str, value: String, inline: bool) -> (r: EmbedField)
    ensures
        r@ == (FieldView { name: name@, value: value@, inline }),
{
    EmbedField { name: name.to_owned(), value, inline }
}

/// The field of one voter.
fn voter_field(vote: MotionVote) -> (r: EmbedField)
    ensures
        r@ == voter_field_view(vote),
{
    let mut value = i64_text(vote.amount);
    value.append(" ");
    if vote.direction {
        value.append("for");
    } else {
        value.append("against");
    }
    EmbedField { name: stored_user_text(vote.user), value, inline: true }
}

/// The fields of a motion whose voters are listed in the given order.
pub fn motion_fields(motion_text: &str, count: Count, ranked: &Vec<MotionVote>) -> (r: Vec<
    EmbedField,
>)
    ensures
        shown(r@) == motion_view(motion_text@, count, ranked@),
{
    let mut fields: Vec<EmbedField> = Vec::new();
    fields.push(field("Motion", motion_text.to_owned(), false));
    fields.push(field("Votes", votes_text(count), false));
    let ghost head = seq![motion_field_view(motion_text@), votes_field_view(count)];
    assert(shown(fields@) =~= head);
    let shown_voters: usize = if ranked.len() <= LISTED_VOTERS {
        ranked.len()
    } else {
        LISTED_VOTERS
    };
    let mut i: usize = 0;
    while i < shown_voters
        invariant
            i <= shown_voters <= ranked.len(),
            head.len() == 2,
            shown(fields@) =~= head + voters_view(ranked@.take(i as int)),
        decreases shown_voters - i,
    {
        let ghost before = fields@;
        fields.push(voter_field(ranked[i]));
        assert(shown(fields@) =~= shown(before).push(voter_field_view(ranked@[i as int])));
        assert(voters_view(ranked@.take(i + 1)) =~= voters_view(ranked@.take(i as int)).push(
            voter_field_view(ranked@[i as int]),
        ));
        i = i + 1;
    }
    if ranked.len() > LISTED_VOTERS {
        fields.push(
            field(
                "Note",
                "There are more users that have voted, but there are too many to display here.".to_owned(),
                false,
            ),
        );
    }
    assert(shown(fields@) =~= motion_view(motion_text@, count, ranked@));
    fields
}

/// The fields of a motion with its current votes, the voters with the most
/// votes first; `None` where the votes cannot be counted within 64 bits.
pub fn motion_message(motion_text: &str, votes: &Vec<MotionVote>, is_super: bool) -> (r: Option<
    Vec<EmbedField>,
>)
    ensures
        r is Some <==> decidable(votes@, is_super),
        r matches Some(fields) ==> exists|count: Count, ranked: Seq<MotionVote>|
            is_count(count, votes@, is_super) && is_ranking(ranked, votes@) && shown(fields@)
                == #[trigger] motion_view(motion_text@, count, ranked),
{
    match count_votes(votes, is_super) {
        None => None,
        Some(count) => {
            let ranked = rank_votes(votes);
            let fields = motion_fields(motion_text, count, &ranked);
            assert(shown(fields@) == motion_view(motion_text@, count, ranked@));
            Some(fields)
        },
    }
}

/// The message that announces the end of a vote.
#[derive(Debug, PartialEq, Eq)]
pub struct Announcement {
    pub title: String,
    /// The text of the motion, where it has passed.
    pub description: Option<String>,
    pub votes: EmbedField,
}

/// The title that announces the end of the vote on motion `id`.
pub open spec fn ended_title(id: nat, pass: bool) -> Seq<char> {
    "Vote ended! Motion #"@ + checked_numeral(id) + " has "@ + (if pass {
        "PASSED"@
    } else {
        "FAILED"@
    }) + "."@
}

/// The message that announces the end of the vote on motion `id`; `None` where
/// the votes cannot be counted within 64 bits. Only the text of a motion that
/// has passed is repeated.
pub fn announcement(motion_text: &str, id: i64, is_super: bool, votes: &Vec<MotionVote>) -> (r:
    Option<Announcement>)
    requires
        id >= 0,
    ensures
        r is Some <==> decidable(votes@, is_super),
        r matches Some(a) ==> {
            let pass = wins(total(votes@, true), total(votes@, false), is_super);
            &&& a.title@ == ended_title(id as nat, pass)
            &&& a.description is Some <==> pass
            &&& a.description matches Some(d) ==> d@ == motion_text@
            &&& exists|count: Count|
                is_count(count, votes@, is_super) && a.votes@ == #[trigger] votes_field_view(count)
        },
{
    match count_votes(votes, is_super) {
        None => None,
        Some(count) => {
            let mut title = "Vote ended! Motion #".to_owned();
            title.append(announced_id(id).as_str());
            title.append(" has ");
            if count.pass {
                title.append("PASSED");
            } else {
                title.append("FAILED");
            }
            title.append(".");
            let description: Option<String> = if count.pass {
                Some(motion_text.to_owned())
            } else {
                None
            };
            let votes_shown = field("Votes", votes_text(count), false);
            assert(votes_shown@ == votes_field_view(count));
            Some(Announcement { title, description, votes: votes_shown })
        },
    }
}

/// The title above a user's balances.
pub fn balances_title() -> (r: &'static str)
    ensures
        r@ == "Your balances:"@,
{
    "Your balances:"
}

/// The fields with a user's balances.
pub open spec fn balances_view(generators: Option<i64>, capital: Option<i64>) -> Seq<FieldView> {
    seq![
        FieldView {
            name: "Generators"@,
            value: decimal(known_balance(generators) as int),
            inline: false,
        },
        FieldView {
            name: "Capital"@,
            value: decimal(known_balance(capital) as int),
            inline: false,
        },
    ]
}

/// The fields with a user's balances.
pub fn balances_fields(generators: Option<i64>, capital: Option<i64>) -> (r: Vec<EmbedField>)
    ensures
        shown(r@) == balances_view(generators, capital),
{
    let mut fields: Vec<EmbedField> = Vec::new();
    fields.push(field("Generators", i64_text(balance_or_zero(generators)), false));
    fields.push(field("Capital", i64_text(balance_or_zero(capital)), false));
    assert(shown(fields@) =~= balances_view(generators, capital));
    fields
}

/// The words of the message that calls a motion.
pub open spec fn call_text(author: u64, id: nat) -> Seq<char> {
    "A motion has been called by "@ + mention_of(author) + "\n`$vote "@ + checked_numeral(id)
        + "` to vote!"@
}

/// The words of the message that calls motion `id`.
pub fn motion_call(author: u64, id: i64) -> (r: String)
    requires
        id >= 0,
    ensures
        r@ == call_text(author, id as nat),
{
    let mut out = "A motion has been called by ".to_owned();
    out.append(mention(author).as_str());
    out.append("\n`$vote ");
    out.append(announced_id(id).as_str());
    out.append("` to vote!");
    out
}

/// The fields of a motion that has just been called: its author has one vote
/// for it.
pub open spec fn new_motion_view(author: u64, motion_text: Seq<char>) -> Seq<FieldView> {
    seq![
        motion_field_view(motion_text),
        FieldView { name: "Votes"@, value: "**for 1**/0 against"@, inline: false },
        FieldView { name: mention_of(author), value: "1 for"@, inline: true },
    ]
}

/// The fields of a motion that has just been called.
pub fn new_motion_fields(author: u64, motion_text: &str) -> (r: Vec<EmbedField>)
    ensures
        shown(r@) == new_motion_view(author, motion_text@),
{
    let mut fields: Vec<EmbedField> = Vec::new();
    fields.push(field("Motion", motion_text.to_owned(), false));
    fields.push(field("Votes", "**for 1**/0 against".to_owned(), false));
    fields.push(EmbedField { name: mention(author), value: "1 for".to_owned(), inline: true });
    assert(shown(fields@) =~= new_motion_view(author, motion_text@));
    fields
}

/// A motion's box lists the motion and the totals, at most the fixed number of
/// voters, and a note exactly where voters are left out. Of two listed voters
/// the one with more votes comes first, and no voter who is left out has more
/// votes than one who is listed.
pub proof fn law_largest_voters_are_listed(
    motion_text: Seq<char>,
    count: Count,
    ranked: Seq<MotionVote>,
    i: int,
    j: int,
)
    requires
        largest_first(ranked),
        0 <= i <= j < ranked.len(),
        i < LISTED_VOTERS,
    ensures
        motion_view(motion_text, count, ranked)[2 + i] == voter_field_view(ranked[i]),
        ranked[i].amount >= ranked[j].amount,
        motion_view(motion_text, count, ranked).len() == 2 + listed(ranked.len()) + (
        if ranked.len() > LISTED_VOTERS {
            1int
        } else {
            0
        }),
        ranked.len() > LISTED_VOTERS <==> motion_view(motion_text, count, ranked).len() > 2
            + LISTED_VOTERS,
{
}

/// The box with which a motion is first posted shows the totals that its one
/// vote gives.
pub proof fn law_new_motion_shows_its_count(author: u64, motion_text: Seq<char>)
    ensures
        new_motion_view(author, motion_text)[1] == votes_field_view(
            Count { yes: 1, no: 0, pass: wins(1, 0, false) },
        ),
        new_motion_view(author, motion_text)[1] == votes_field_view(
            Count { yes: 1, no: 0, pass: wins(1, 0, true) },
        ),
{
    reveal_strlit("**for 1**/0 against");
    reveal_strlit("**for ");
    reveal_strlit("**/");
    reveal_strlit(" against");
    reveal_with_fuel(crate::text::decimal_nat, 2);
    assert("**for 1**/0 against"@ =~= "**for "@ + decimal(1) + "**/"@ + decimal(0) + " against"@);
}

/// The totals are shown as they are: of a motion that passes the votes for it
/// come first, of one that does not pass the votes against it.
pub proof fn law_totals_are_shown(count: Count)
    ensures
        ({
            let line = votes_line(count);
            let yes = decimal(count.yes as int);
            let no = decimal(count.no as int);
            &&& count.pass ==> {
                &&& line.len() == 17 + yes.len() + no.len()
                &&& line.take(6) == "**for "@
                &&& line.subrange(6, 6int + yes.len()) == yes
                &&& line.subrange(6int + yes.len(), 9int + yes.len()) == "**/"@
                &&& line.subrange(9int + yes.len(), 9int + yes.len() + no.len()) == no
                &&& line.skip(9int + yes.len() + no.len()) == " against"@
            }
            &&& !count.pass ==> {
                &&& line.len() == 17 + yes.len() + no.len()
                &&& line.take(10) == "**against "@
                &&& line.subrange(10, 10int + no.len()) == no
                &&& line.subrange(10int + no.len(), 13int + no.len()) == "**/"@
                &&& line.subrange(13int + no.len(), 13int + no.len() + yes.len()) == yes
                &&& line.skip(13int + no.len() + yes.len()) == " for"@
            }
        }),
{
    let line = votes_line(count);
    let yes = decimal(count.yes as int);
    let no = decimal(count.no as int);
    reveal_strlit("**for ");
    reveal_strlit("**against ");
    reveal_strlit("**/");
    reveal_strlit(" for");
    reveal_strlit(" against");
    if count.pass {
        lemma_four_parts("**for "@, yes, "**/"@, no, " against"@);
    } else {
        lemma_four_parts("**against "@, no, "**/"@, yes, " for"@);
    }
}

/// Where the parts of a text stand.
proof fn lemma_four_parts(
    a: Seq<char>,
    b: Seq<char>,
    c: Seq<char>,
    d: Seq<char>,
    e: Seq<char>,
)
    ensures
        ({
            let text = a + b + c + d + e;
            let i = a.len() as int;
            let j = i + b.len();
            let k = j + c.len();
            let l = k + d.len();
            &&& text.len() == l + e.len()
            &&& text.take(i) == a
            &&& text.subrange(i, j) == b
            &&& text.subrange(j, k) == c
            &&& text.subrange(k, l) == d
            &&& text.skip(l) == e
        }),
{
    let text = a + b + c + d + e;
    lemma_appended(a, b);
    lemma_appended(a + b, c);
    lemma_appended(a + b + c, d);
    lemma_appended(a + b + c + d, e);
    lemma_start_of_start(a + b + c, a + b + c + d, text);
    lemma_start_of_start(a + b, a + b + c, text);
    lemma_start_of_start(a, a + b, text);
    lemma_cut_of_start(a + b, text, a.len() as int, (a + b).len() as int);
    lemma_cut_of_start(a + b + c, text, (a + b).len() as int, (a + b + c).len() as int);
    lemma_cut_of_start(a + b + c + d, text, (a + b + c).len() as int, (a + b + c + d).len() as int);
}

/// A voter is shown by number, with the number and the direction of the votes.
pub proof fn law_voters_are_shown(vote: MotionVote)
    ensures
        voter_field_view(vote).name == decimal(
            if vote.user >= 0 {
                vote.user as int
            } else {
                vote.user + 0x1_0000_0000_0000_0000
            },
        ),
        voter_field_view(vote).value.take(decimal(vote.amount as int).len() as int) == decimal(
            vote.amount as int,
        ),
        vote.direction ==> voter_field_view(vote).value.skip(
            decimal(vote.amount as int).len() as int,
        ) == " for"@,
        !vote.direction ==> voter_field_view(vote).value.skip(
            decimal(vote.amount as int).len() as int,
        ) == " against"@,
        voter_field_view(vote).inline,
{
    reveal_strlit(" ");
    reveal_strlit("for");
    reveal_strlit("against");
    reveal_strlit(" for");
    reveal_strlit(" against");
    let n = decimal(vote.amount as int);
    let value = voter_field_view(vote).value;
    assert(value.take(n.len() as int) =~= n);
    if vote.direction {
        assert(value.skip(n.len() as int) =~= " for"@);
    } else {
        assert(value.skip(n.len() as int) =~= " against"@);
    }
}

/// A motion's box begins with the text of the motion and the totals, and ends
/// with the note where not all voters are listed. Everyone is listed where
/// there are at most 21.
pub proof fn law_motion_box(motion_text: Seq<char>, count: Count, ranked: Seq<MotionVote>, i: int)
    ensures
        ({
            let fields = motion_view(motion_text, count, ranked);
            &&& fields[0].name == "Motion"@ && fields[0].value == motion_text && !fields[0].inline
            &&& fields[1].name == "Votes"@ && fields[1].value == votes_line(count)
                && !fields[1].inline
            &&& 0 <= i < ranked.len() && i < 21 ==> fields[2 + i] == voter_field_view(ranked[i])
            &&& ranked.len() <= 21 ==> fields.len() == 2 + ranked.len()
            &&& ranked.len() > 21 ==> fields.len() == 24 && fields[23].name == "Note"@
                && fields[23].value
                == "There are more users that have voted, but there are too many to display here."@
                && !fields[23].inline
        }),
{
}

/// The end of a vote is announced under the motion's checked number, with what
/// became of it.
pub proof fn law_end_is_announced(id: nat, pass: bool)
    ensures
        ({
            let title = ended_title(id, pass);
            let number = checked_numeral(id);
            &&& title.take(20) == "Vote ended! Motion #"@
            &&& title.subrange(20, 20int + number.len()) == number
            &&& pass ==> title.skip(20int + number.len()) == " has PASSED."@
            &&& !pass ==> title.skip(20int + number.len()) == " has FAILED."@
        }),
{
    reveal_strlit("Vote ended! Motion #");
    reveal_strlit(" has ");
    reveal_strlit("PASSED");
    reveal_strlit("FAILED");
    reveal_strlit(".");
    reveal_strlit(" has PASSED.");
    reveal_strlit(" has FAILED.");
    let title = ended_title(id, pass);
    let number = checked_numeral(id);
    assert(title.take(20) =~= "Vote ended! Motion #"@);
    assert(title.subrange(20, 20int + number.len()) =~= number);
    if pass {
        assert(title.skip(20int + number.len()) =~= " has PASSED."@);
    } else {
        assert(title.skip(20int + number.len()) =~= " has FAILED."@);
    }
}

/// Balances are shown as they are, and as 0 where nothing is known.
pub proof fn law_balances_are_shown(generators: i64, capital: i64)
    ensures
        balances_view(Some(generators), Some(capital)).len() == 2,
        balances_view(Some(generators), Some(capital))[0].name == "Generators"@,
        balances_view(Some(generators), Some(capital))[0].value == decimal(generators as int),
        balances_view(Some(generators), Some(capital))[1].name == "Capital"@,
        balances_view(Some(generators), Some(capital))[1].value == decimal(capital as int),
        balances_view(None, Some(capital))[0].value == decimal(0),
        balances_view(None, Some(capital))[1].value == decimal(capital as int),
        balances_view(Some(generators), None)[0].value == decimal(generators as int),
        balances_view(Some(generators), None)[1].value == decimal(0),
{
}

/// A motion is called with a mention of its author and its checked number.
pub proof fn law_call_names_author_and_motion(author: u64, id: nat)
    ensures
        ({
            let text = call_text(author, id);
            let who = mention_of(author);
            let number = checked_numeral(id);
            let i = 28int + who.len();
            let j = i + 8 + number.len();
            &&& text.take(28) == "A motion has been called by "@
            &&& text.subrange(28, i) == who
            &&& text.subrange(i, i + 8) == "\n`$vote "@
            &&& text.subrange(i + 8, j) == number
            &&& text.skip(j) == "` to vote!"@
        }),
{
    reveal_strlit("A motion has been called by ");
    reveal_strlit("\n`$vote ");
    reveal_strlit("` to vote!");
    lemma_four_parts(
        "A motion has been called by "@,
        mention_of(author),
        "\n`$vote "@,
        checked_numeral(id),
        "` to vote!"@,
    );
}

/// A new motion's box shows its text and its author's one vote.
pub proof fn law_new_motion_box(author: u64, motion_text: Seq<char>)
    ensures
        new_motion_view(author, motion_text).len() == 3,
        new_motion_view(author, motion_text)[0].name == "Motion"@,
        new_motion_view(author, motion_text)[0].value == motion_text,
        new_motion_view(author, motion_text)[2].name == mention_of(author),
        new_motion_view(author, motion_text)[2].value == "1 for"@,
{
}

/// What a list of fields shows is what its fields hold, in order.
pub proof fn law_fields_are_shown(fields: Seq<EmbedField>, i: int)
    ensures
        shown(fields).len() == fields.len(),
        0 <= i < fields.len() ==> shown(fields)[i].name == fields[i].name@ && shown(fields)[i].value
            == fields[i].value@ && shown(fields)[i].inline == fields[i].inline,
{
}

} // verus!
