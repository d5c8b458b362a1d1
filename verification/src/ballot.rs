//! Reading a command to vote: the number of the motion with its check digit,
//! then words for the direction and the number of votes.

use vstd::prelude::*;

use crate::damm::{number_from_digits, validate};
#[allow(unused_imports)]
use crate::damm::{
    check_digit, checked_numeral, digit_values, is_checked, law_announced_number_reads_back,
    law_changed_digit_is_noticed, law_swapped_digits_are_noticed, number_of,
};
#[allow(unused_imports)]
use crate::give::{overridden, texts};
use crate::ids::to_stored;
#[allow(unused_imports)]
use crate::ids::stored;
use crate::number::{parse_u32, IntError};
#[allow(unused_imports)]
use crate::number::read_unsigned;
use crate::text::same_text;
#[allow(unused_imports)]
use crate::text::is_digit;
use crate::vote::VoteRequest;

verus! {

/// The words for a vote in favour.
pub open spec fn yes_words() -> Seq<Seq<char>> {
    seq![
        "favor"@,
        "for"@,
        "approve"@,
        "yes"@,
        "y"@,
        "aye"@,
        "yeah"@,
        "yeah!"@,
        "\u{1ff4d}"@,
        ":+1:"@,
        ":thumbsup:"@,
        "\u{1f646}"@,
        ":ok_woman:"@,
        "\u{2b55}"@,
        ":o:"@,
        "\u{1f44c}"@,
        ":ok_hand:"@,
        "\u{1f197}"@,
        ":ok:"@,
        "\u{2705}"@,
        "pass"@,
    ]
}

/// The words for a vote against.
pub open spec fn no_words() -> Seq<Seq<char>> {
    seq![
        "neigh"@,
        "fail"@,
        "no"@,
        "against"@,
        "nay"@,
        "no, asshole"@,
        "no, you wanker"@,
        "no, cunt"@,
        "negative"@,
        "never"@,
        "negatory"@,
        "veto"@,
        "\u{1f44e}"@,
        "deny"@,
        ":-1:"@,
        ":thumbsdown:"@,
        ".i na go'i"@,
        "\u{1f645}"@,
        ":no_good:"@,
        "\u{274C}"@,
        "\u{1f196}"@,
        ":ng:"@,
    ]
}

/// The words that say nothing about the vote.
pub open spec fn ignored_words() -> Seq<Seq<char>> {
    seq![
        "in"@,
        "i"@,
        "I"@,
        "think"@,
        "say"@,
        "fuck"@,
    ]
}

/// Whether `word` is a vote in favour.
fn is_yes_word(word: &str) -> (r: bool)
    ensures
        r == yes_words().contains(word@),
{
    let r = same_text(word, "favor")
        || same_text(word, "for")
        || same_text(word, "approve")
        || same_text(word, "yes")
        || same_text(word, "y")
        || same_text(word, "aye")
        || same_text(word, "yeah")
        || same_text(word, "yeah!")
        || same_text(word, "\u{1ff4d}")
        || same_text(word, ":+1:")
        || same_text(word, ":thumbsup:")
        || same_text(word, "\u{1f646}")
        || same_text(word, ":ok_woman:")
        || same_text(word, "\u{2b55}")
        || same_text(word, ":o:")
        || same_text(word, "\u{1f44c}")
        || same_text(word, ":ok_hand:")
        || same_text(word, "\u{1f197}")
        || same_text(word, ":ok:")
        || same_text(word, "\u{2705}")
        || same_text(word, "pass");
    proof {
        let words = yes_words();
        if r {
            assert(word@ == words[0]
                || word@ == words[1]
                || word@ == words[2]
                || word@ == words[3]
                || word@ == words[4]
                || word@ == words[5]
                || word@ == words[6]
                || word@ == words[7]
                || word@ == words[8]
                || word@ == words[9]
                || word@ == words[10]
                || word@ == words[11]
                || word@ == words[12]
                || word@ == words[13]
                || word@ == words[14]
                || word@ == words[15]
                || word@ == words[16]
                || word@ == words[17]
                || word@ == words[18]
                || word@ == words[19]
                || word@ == words[20]);
        }
    }
    r
}

/// Whether `word` is a vote against.
fn is_no_word(word: &str) -> (r: bool)
    ensures
        r == no_words().contains(word@),
{
    let r = same_text(word, "neigh")
        || same_text(word, "fail")
        || same_text(word, "no")
        || same_text(word, "against")
        || same_text(word, "nay")
        || same_text(word, "no, asshole")
        || same_text(word, "no, you wanker")
        || same_text(word, "no, cunt")
        || same_text(word, "negative")
        || same_text(word, "never")
        || same_text(word, "negatory")
        || same_text(word, "veto")
        || same_text(word, "\u{1f44e}")
        || same_text(word, "deny")
        || same_text(word, ":-1:")
        || same_text(word, ":thumbsdown:")
        || same_text(word, ".i na go'i")
        || same_text(word, "\u{1f645}")
        || same_text(word, ":no_good:")
        || same_text(word, "\u{274C}")
        || same_text(word, "\u{1f196}")
        || same_text(word, ":ng:");
    proof {
        let words = no_words();
        if r {
            assert(word@ == words[0]
                || word@ == words[1]
                || word@ == words[2]
                || word@ == words[3]
                || word@ == words[4]
                || word@ == words[5]
                || word@ == words[6]
                || word@ == words[7]
                || word@ == words[8]
                || word@ == words[9]
                || word@ == words[10]
                || word@ == words[11]
                || word@ == words[12]
                || word@ == words[13]
                || word@ == words[14]
                || word@ == words[15]
                || word@ == words[16]
                || word@ == words[17]
                || word@ == words[18]
                || word@ == words[19]
                || word@ == words[20]
                || word@ == words[21]);
        }
    }
    r
}

/// Whether `word` says nothing about the vote.
fn is_ignored_word(word: &str) -> (r: bool)
    ensures
        r == ignored_words().contains(word@),
{
    let r = same_text(word, "in")
        || same_text(word, "i")
        || same_text(word, "I")
        || same_text(word, "think")
        || same_text(word, "say")
        || same_text(word, "fuck");
    proof {
        let words = ignored_words();
        if r {
            assert(word@ == words[0]
                || word@ == words[1]
                || word@ == words[2]
                || word@ == words[3]
                || word@ == words[4]
                || word@ == words[5]);
        }
    }
    r
}

/// What one word contributes: a direction, a number of votes, or nothing.
pub open spec fn ballot_word(word: Seq<char>) -> Result<(Option<bool>, Option<i64>), IntError> {
    if yes_words().contains(word) {
        Ok((Some(true), None))
    } else if no_words().contains(word) {
        Ok((Some(false), None))
    } else if ignored_words().contains(word) {
        Ok((None, None))
    } else {
        match read_unsigned(word, u32::MAX as int) {
            Err(e) => Err(e),
            Ok(n) => Ok((None, Some(n as i64))),
        }
    }
}

/// What the words contribute together. A later word overrides an earlier one,
/// and the first word that is not understood decides the error.
pub open spec fn ballot_words(words: Seq<Seq<char>>) -> Result<
    (Option<bool>, Option<i64>),
    IntError,
>
    decreases words.len(),
{
    if words.len() == 0 {
        Ok((None, None))
    } else {
        match ballot_words(words.drop_last()) {
            Err(e) => Err(e),
            Ok(sofar) => match ballot_word(words.last()) {
                Err(e) => Err(e),
                Ok(next) => Ok((overridden(sofar.0, next.0), overridden(sofar.1, next.1))),
            },
        }
    }
}

/// A command to vote.
#[derive(Clone, Copy, Debug, PartialEq, Eq)]
pub struct Ballot {
    pub motion_id: i64,
    /// `Some(true)` for the motion, `Some(false)` against it.
    pub direction: Option<bool>,
    pub count: i64,
}

/// Why a command to vote is not understood.
#[derive(Clone, Copy, Debug, PartialEq, Eq)]
pub enum BallotError {
    InvalidMotionId,
    BadWord(IntError),
}

impl BallotError {
    /// The words that answer the command.
    pub open spec fn words(self) -> Seq<char> {
        match self {
            BallotError::InvalidMotionId => "Invalid motion id, please try again."@,
            BallotError::BadWord(e) => e.sentence(),
        }
    }

    /// The words that answer the command.
    pub fn message(&self) -> (r: &'static str)
        ensures
            r@ == self.words(),
            *self is InvalidMotionId ==> r@ == "Invalid motion id, please try again."@,
            *self matches BallotError::BadWord(e) ==> r@ == e.sentence(),
    {
        match *self {
            BallotError::InvalidMotionId => "Invalid motion id, please try again.",
            BallotError::BadWord(e) => e.message(),
        }
    }
}

/// The number of the motion that a word names, if its check digit is right.
pub open spec fn named_motion(word: Seq<char>) -> Option<int> {
    if is_checked(word) {
        Some(number_of(digit_values(word.drop_last())))
    } else {
        None
    }
}

/// What a command to vote asks for. Without a word for it the number of votes
/// is 1.
pub open spec fn ballot_asks(id_word: Seq<char>, words: Seq<Seq<char>>) -> Result<
    Ballot,
    BallotError,
> {
    match named_motion(id_word) {
        None => Err(BallotError::InvalidMotionId),
        Some(id) => match ballot_words(words) {
            Err(e) => Err(BallotError::BadWord(e)),
            Ok((direction, count)) => Ok(
                Ballot {
                    motion_id: id as i64,
                    direction,
                    count: match count {
                        Some(n) => n,
                        None => 1,
                    },
                },
            ),
        },
    }
}

/// Reads one word behind the number of the motion.
fn read_ballot_word(word: &str) -> (r: Result<(Option<bool>, Option<i64>), IntError>)
    ensures
        r == ballot_word(word@),
{
    if is_yes_word(word) {
        Ok((Some(true), None))
    } else if is_no_word(word) {
        Ok((Some(false), None))
    } else if is_ignored_word(word) {
        Ok((None, None))
    } else {
        match parse_u32(word) {
            Err(e) => Err(e),
            Ok(n) => Ok((None, Some(n as i64))),
        }
    }
}

/// An error stays once more words are read.
proof fn lemma_ballot_error_stays(words: Seq<Seq<char>>, k: int)
    requires
        0 <= k <= words.len(),
        ballot_words(words.take(k)) is Err,
    ensures
        ballot_words(words) == ballot_words(words.take(k)),
    decreases words.len() - k,
{
    if k < words.len() {
        assert(words.take(k + 1).drop_last() =~= words.take(k));
        lemma_ballot_error_stays(words, k + 1);
    } else {
        assert(words.take(k) =~= words);
    }
}

/// Reads the words behind the number of the motion.
pub fn parse_ballot_words(words: &Vec<String>) -> (r: Result<
    (Option<bool>, Option<i64>),
    IntError,
>)
    ensures
        r == ballot_words(texts(words@)),
{
    let mut direction: Option<bool> = None;
    let mut count: Option<i64> = None;
    let ghost all = texts(words@);
    let mut i: usize = 0;
    assert(all.take(0) =~= Seq::<Seq<char>>::empty());
    while i < words.len()
        invariant
            i <= words.len(),
            all == texts(words@),
            ballot_words(all.take(i as int)) == Ok::<(Option<bool>, Option<i64>), IntError>(
                (direction, count),
            ),
        decreases words.len() - i,
    {
        proof {
            assert(all.take(i + 1).drop_last() =~= all.take(i as int));
            assert(all.take(i + 1).last() == words@[i as int]@);
        }
        match read_ballot_word(words[i].as_str()) {
            Err(e) => {
                proof {
                    lemma_ballot_error_stays(all, i + 1);
                }
                return Err(e);
            },
            Ok((next_direction, next_count)) => {
                if next_direction.is_some() {
                    direction = next_direction;
                }
                if next_count.is_some() {
                    count = next_count;
                }
            },
        }
        i = i + 1;
    }
    assert(all.take(i as int) =~= all);
    Ok((direction, count))
}

/// Reads a command to vote: the number of the motion, then the other words.
/// `None` where the number of the motion does not fit 64 bits.
pub fn parse_ballot(id_word: &str, words: &Vec<String>) -> (r: Option<
    Result<Ballot, BallotError>,
>)
    ensures
        r is None <==> named_motion(id_word@) is Some && named_motion(id_word@)->0 > i64::MAX,
        r matches Some(read) ==> read == ballot_asks(id_word@, texts(words@)),
{
    match validate(id_word) {
        None => Some(Err(BallotError::InvalidMotionId)),
        Some(digits) => match number_from_digits(&digits) {
            None => None,
            Some(motion_id) => match parse_ballot_words(words) {
                Err(e) => Some(Err(BallotError::BadWord(e))),
                Ok((direction, count)) => Some(
                    Ok(
                        Ballot {
                            motion_id,
                            direction,
                            count: match count {
                                Some(n) => n,
                                None => 1,
                            },
                        },
                    ),
                ),
            },
        },
    }
}

/// The request that a command of `author` in the message `message` makes.
pub fn ballot_request(ballot: Ballot, author: u64, message: u64) -> (r: VoteRequest)
    ensures
        r == (VoteRequest {
            direction: ballot.direction,
            count: ballot.count,
            user_id: stored(author) as i64,
            motion_id: Some(ballot.motion_id),
            message_id: None,
            command_message_id: Some(stored(message) as i64),
        }),
{
    VoteRequest {
        direction: ballot.direction,
        count: ballot.count,
        user_id: to_stored(author),
        motion_id: Some(ballot.motion_id),
        message_id: None,
        command_message_id: Some(to_stored(message)),
    }
}

/// The number under which a motion is announced names that motion.
pub proof fn law_announced_number_names_its_motion(id: nat)
    ensures
        named_motion(checked_numeral(id)) == Some(id as int),
{
    law_announced_number_reads_back(id);
}

/// An announced number with one digit mistyped names no motion.
pub proof fn law_mistyped_number_names_none(id: nat, i: int, c: char)
    requires
        0 <= i < checked_numeral(id).len(),
        is_digit(c),
        c != checked_numeral(id)[i],
    ensures
        named_motion(checked_numeral(id).update(i, c)) is None,
{
    law_announced_number_reads_back(id);
    law_changed_digit_is_noticed(checked_numeral(id), i, c);
}

/// An announced number with two different neighbouring digits exchanged names
/// no motion.
pub proof fn law_swapped_number_names_none(id: nat, i: int)
    requires
        0 <= i,
        i + 1 < checked_numeral(id).len(),
        checked_numeral(id)[i] != checked_numeral(id)[i + 1],
    ensures
        named_motion(
            checked_numeral(id).update(i, checked_numeral(id)[i + 1]).update(
                i + 1,
                checked_numeral(id)[i],
            ),
        ) is None,
{
    law_announced_number_reads_back(id);
    law_swapped_digits_are_noticed(checked_numeral(id), i);
}

/// A command asks for a number of votes that is not negative.
pub proof fn law_ballot_count_is_not_negative(words: Seq<Seq<char>>)
    ensures
        ballot_words(words) matches Ok((_, Some(n))) ==> 0 <= n <= u32::MAX,
    decreases words.len(),
{
    if words.len() > 0 {
        law_ballot_count_is_not_negative(words.drop_last());
        let word = words.last();
        crate::number::law_read_digits(word, u32::MAX as int, IntError::PosOverflow);
        crate::number::law_read_digits(word.skip(1), u32::MAX as int, IntError::PosOverflow);
    }
}

/// No word means two things: the words for and against a motion and those that
/// say nothing are all different.
pub proof fn law_ballot_words_are_unambiguous(word: Seq<char>)
    ensures
        !(yes_words().contains(word) && no_words().contains(word)),
        !(yes_words().contains(word) && ignored_words().contains(word)),
        !(no_words().contains(word) && ignored_words().contains(word)),
{
    reveal_strlit("favor");
    reveal_strlit("for");
    reveal_strlit("approve");
    reveal_strlit("yes");
    reveal_strlit("y");
    reveal_strlit("aye");
    reveal_strlit("yeah");
    reveal_strlit("yeah!");
    reveal_strlit("\u{1ff4d}");
    reveal_strlit(":+1:");
    reveal_strlit(":thumbsup:");
    reveal_strlit("\u{1f646}");
    reveal_strlit(":ok_woman:");
    reveal_strlit("\u{2b55}");
    reveal_strlit(":o:");
    reveal_strlit("\u{1f44c}");
    reveal_strlit(":ok_hand:");
    reveal_strlit("\u{1f197}");
    reveal_strlit(":ok:");
    reveal_strlit("\u{2705}");
    reveal_strlit("pass");
    reveal_strlit("neigh");
    reveal_strlit("fail");
    reveal_strlit("no");
    reveal_strlit("against");
    reveal_strlit("nay");
    reveal_strlit("no, asshole");
    reveal_strlit("no, you wanker");
    reveal_strlit("no, cunt");
    reveal_strlit("negative");
    reveal_strlit("never");
    reveal_strlit("negatory");
    reveal_strlit("veto");
    reveal_strlit("\u{1f44e}");
    reveal_strlit("deny");
    reveal_strlit(":-1:");
    reveal_strlit(":thumbsdown:");
    reveal_strlit(".i na go'i");
    reveal_strlit("\u{1f645}");
    reveal_strlit(":no_good:");
    reveal_strlit("\u{274C}");
    reveal_strlit("\u{1f196}");
    reveal_strlit(":ng:");
    reveal_strlit("in");
    reveal_strlit("i");
    reveal_strlit("I");
    reveal_strlit("think");
    reveal_strlit("say");
    reveal_strlit("fuck");
    if yes_words().contains(word) {
        assert(word.len() == 5 && word[0] == 'f' && word[1] == 'a'
            || word.len() == 3 && word[0] == 'f' && word[1] == 'o'
            || word.len() == 7 && word[0] == 'a' && word[1] == 'p'
            || word.len() == 3 && word[0] == 'y' && word[1] == 'e'
            || word.len() == 1 && word[0] == 'y'
            || word.len() == 3 && word[0] == 'a' && word[1] == 'y'
            || word.len() == 4 && word[0] == 'y' && word[1] == 'e'
            || word.len() == 5 && word[0] == 'y' && word[1] == 'e'
            || word.len() == 1 && word[0] == '\u{1ff4d}'
            || word.len() == 4 && word[0] == ':' && word[1] == '+'
            || word.len() == 10 && word[0] == ':' && word[1] == 't'
            || word.len() == 1 && word[0] == '\u{1f646}'
            || word.len() == 10 && word[0] == ':' && word[1] == 'o'
            || word.len() == 1 && word[0] == '\u{2b55}'
            || word.len() == 3 && word[0] == ':' && word[1] == 'o'
            || word.len() == 1 && word[0] == '\u{1f44c}'
            || word.len() == 9 && word[0] == ':' && word[1] == 'o'
            || word.len() == 1 && word[0] == '\u{1f197}'
            || word.len() == 4 && word[0] == ':' && word[1] == 'o'
            || word.len() == 1 && word[0] == '\u{2705}'
            || word.len() == 4 && word[0] == 'p' && word[1] == 'a');
    }
    if no_words().contains(word) {
        assert(word.len() == 5 && word[0] == 'n' && word[1] == 'e'
            || word.len() == 4 && word[0] == 'f' && word[1] == 'a'
            || word.len() == 2 && word[0] == 'n' && word[1] == 'o'
            || word.len() == 7 && word[0] == 'a' && word[1] == 'g'
            || word.len() == 3 && word[0] == 'n' && word[1] == 'a'
            || word.len() == 11 && word[0] == 'n' && word[1] == 'o'
            || word.len() == 14 && word[0] == 'n' && word[1] == 'o'
            || word.len() == 8 && word[0] == 'n' && word[1] == 'o'
            || word.len() == 8 && word[0] == 'n' && word[1] == 'e'
            || word.len() == 4 && word[0] == 'v' && word[1] == 'e'
            || word.len() == 1 && word[0] == '\u{1f44e}'
            || word.len() == 4 && word[0] == 'd' && word[1] == 'e'
            || word.len() == 4 && word[0] == ':' && word[1] == '-'
            || word.len() == 12 && word[0] == ':' && word[1] == 't'
            || word.len() == 10 && word[0] == '.' && word[1] == 'i'
            || word.len() == 1 && word[0] == '\u{1f645}'
            || word.len() == 9 && word[0] == ':' && word[1] == 'n'
            || word.len() == 1 && word[0] == '\u{274c}'
            || word.len() == 1 && word[0] == '\u{1f196}'
            || word.len() == 4 && word[0] == ':' && word[1] == 'n');
    }
    if ignored_words().contains(word) {
        assert(word.len() == 2 && word[0] == 'i' && word[1] == 'n'
            || word.len() == 1 && word[0] == 'i'
            || word.len() == 1 && word[0] == 'I'
            || word.len() == 5 && word[0] == 't' && word[1] == 'h'
            || word.len() == 3 && word[0] == 's' && word[1] == 'a'
            || word.len() == 4 && word[0] == 'f' && word[1] == 'u');
    }
}

/// A word is a vote in favour, a vote against or ignored exactly if it is one of
/// these, letter for letter.
pub proof fn law_vocabulary(word: Seq<char>)
    ensures
        ballot_word(word) == Ok::<(Option<bool>, Option<i64>), IntError>((Some(true), None)) <==> (word == "favor"@
            || word == "for"@
            || word == "approve"@
            || word == "yes"@
            || word == "y"@
            || word == "aye"@
            || word == "yeah"@
            || word == "yeah!"@
            || word == "\u{1ff4d}"@
            || word == ":+1:"@
            || word == ":thumbsup:"@
            || word == "\u{1f646}"@
            || word == ":ok_woman:"@
            || word == "\u{2b55}"@
            || word == ":o:"@
            || word == "\u{1f44c}"@
            || word == ":ok_hand:"@
            || word == "\u{1f197}"@
            || word == ":ok:"@
            || word == "\u{2705}"@
            || word == "pass"@),
        ballot_word(word) == Ok::<(Option<bool>, Option<i64>), IntError>((Some(false), None)) <==> (word == "neigh"@
            || word == "fail"@
            || word == "no"@
            || word == "against"@
            || word == "nay"@
            || word == "no, asshole"@
            || word == "no, you wanker"@
            || word == "no, cunt"@
            || word == "negative"@
            || word == "never"@
            || word == "negatory"@
            || word == "veto"@
            || word == "\u{1f44e}"@
            || word == "deny"@
            || word == ":-1:"@
            || word == ":thumbsdown:"@
            || word == ".i na go'i"@
            || word == "\u{1f645}"@
            || word == ":no_good:"@
            || word == "\u{274C}"@
            || word == "\u{1f196}"@
            || word == ":ng:"@),
        ballot_word(word) == Ok::<(Option<bool>, Option<i64>), IntError>((None, None)) <==> (word == "in"@
            || word == "i"@
            || word == "I"@
            || word == "think"@
            || word == "say"@
            || word == "fuck"@),
{
    law_ballot_words_are_unambiguous(word);
    let yes = yes_words();
    let no = no_words();
    let ignored = ignored_words();
    assert(yes[0] == "favor"@ && yes[1] == "for"@ && yes[2] == "approve"@ && yes[3] == "yes"@ && yes[4] == "y"@ && yes[5] == "aye"@ && yes[6] == "yeah"@ && yes[7] == "yeah!"@ && yes[8] == "\u{1ff4d}"@ && yes[9] == ":+1:"@ && yes[10] == ":thumbsup:"@ && yes[11] == "\u{1f646}"@ && yes[12] == ":ok_woman:"@ && yes[13] == "\u{2b55}"@ && yes[14] == ":o:"@ && yes[15] == "\u{1f44c}"@ && yes[16] == ":ok_hand:"@ && yes[17] == "\u{1f197}"@ && yes[18] == ":ok:"@ && yes[19] == "\u{2705}"@ && yes[20] == "pass"@);
    assert(no[0] == "neigh"@ && no[1] == "fail"@ && no[2] == "no"@ && no[3] == "against"@ && no[4] == "nay"@ && no[5] == "no, asshole"@ && no[6] == "no, you wanker"@ && no[7] == "no, cunt"@ && no[8] == "negative"@ && no[9] == "never"@ && no[10] == "negatory"@ && no[11] == "veto"@ && no[12] == "\u{1f44e}"@ && no[13] == "deny"@ && no[14] == ":-1:"@ && no[15] == ":thumbsdown:"@ && no[16] == ".i na go'i"@ && no[17] == "\u{1f645}"@ && no[18] == ":no_good:"@ && no[19] == "\u{274C}"@ && no[20] == "\u{1f196}"@ && no[21] == ":ng:"@);
    assert(ignored[0] == "in"@ && ignored[1] == "i"@ && ignored[2] == "I"@ && ignored[3] == "think"@ && ignored[4] == "say"@ && ignored[5] == "fuck"@);
}

/// No word of the vocabulary begins with a digit or a `+`.
proof fn lemma_vocabulary_has_no_numbers(word: Seq<char>)
    requires
        yes_words().contains(word) || no_words().contains(word) || ignored_words().contains(word),
    ensures
        word.len() > 0,
        !is_digit(word[0]),
        word[0] != '+',
{
    reveal_strlit("favor");
    reveal_strlit("for");
    reveal_strlit("approve");
    reveal_strlit("yes");
    reveal_strlit("y");
    reveal_strlit("aye");
    reveal_strlit("yeah");
    reveal_strlit("yeah!");
    reveal_strlit("\u{1ff4d}");
    reveal_strlit(":+1:");
    reveal_strlit(":thumbsup:");
    reveal_strlit("\u{1f646}");
    reveal_strlit(":ok_woman:");
    reveal_strlit("\u{2b55}");
    reveal_strlit(":o:");
    reveal_strlit("\u{1f44c}");
    reveal_strlit(":ok_hand:");
    reveal_strlit("\u{1f197}");
    reveal_strlit(":ok:");
    reveal_strlit("\u{2705}");
    reveal_strlit("pass");
    reveal_strlit("neigh");
    reveal_strlit("fail");
    reveal_strlit("no");
    reveal_strlit("against");
    reveal_strlit("nay");
    reveal_strlit("no, asshole");
    reveal_strlit("no, you wanker");
    reveal_strlit("no, cunt");
    reveal_strlit("negative");
    reveal_strlit("never");
    reveal_strlit("negatory");
    reveal_strlit("veto");
    reveal_strlit("\u{1f44e}");
    reveal_strlit("deny");
    reveal_strlit(":-1:");
    reveal_strlit(":thumbsdown:");
    reveal_strlit(".i na go'i");
    reveal_strlit("\u{1f645}");
    reveal_strlit(":no_good:");
    reveal_strlit("\u{274C}");
    reveal_strlit("\u{1f196}");
    reveal_strlit(":ng:");
    reveal_strlit("in");
    reveal_strlit("i");
    reveal_strlit("I");
    reveal_strlit("think");
    reveal_strlit("say");
    reveal_strlit("fuck");
    assert(word[0] == '.' || word[0] == ':' || word[0] == 'I' || word[0] == 'a' || word[0] == 'd' || word[0] == 'f' || word[0] == 'i' || word[0] == 'n' || word[0] == 'p' || word[0] == 's' || word[0] == 't' || word[0] == 'v' || word[0] == 'y' || word[0] == '\u{2705}' || word[0] == '\u{274c}' || word[0] == '\u{2b55}' || word[0] == '\u{1f196}' || word[0] == '\u{1f197}' || word[0] == '\u{1f44c}' || word[0] == '\u{1f44e}' || word[0] == '\u{1f645}' || word[0] == '\u{1f646}' || word[0] == '\u{1ff4d}');
}

/// A number of votes is read as it is written, for every number of 32 bits; and
/// a word that is neither of the vocabulary nor a number is refused.
pub proof fn law_number_of_votes(digits: Seq<char>, word: Seq<char>, n: u32)
    ensures
        digits.len() > 0 && crate::text::all_digits(digits) && crate::text::digits_value(digits)
            <= u32::MAX ==> ballot_word(digits) == Ok::<(Option<bool>, Option<i64>), IntError>(
            (None, Some(crate::text::digits_value(digits) as i64)),
        ),
        ballot_word(crate::text::decimal(n as int)) == Ok::<(Option<bool>, Option<i64>), IntError>(
            (None, Some(n as i64)),
        ),
        ballot_word(word) matches Ok((_, Some(count))) ==> read_unsigned(word, 0xffff_ffff) == Ok::<
            int,
            IntError,
        >(count as int),
        ballot_word(word) matches Err(e) ==> read_unsigned(word, 0xffff_ffff) == Err::<int, IntError>(
            e,
        ),
{
    crate::number::law_unsigned_integers(digits, u32::MAX as int);
    if yes_words().contains(digits) || no_words().contains(digits) || ignored_words().contains(
        digits,
    ) {
        lemma_vocabulary_has_no_numbers(digits);
    }
    let numeral = crate::text::decimal(n as int);
    crate::text::law_decimal_reads_back(n as nat);
    crate::number::law_unsigned_integers(numeral, u32::MAX as int);
    assert(is_digit(numeral[0]));
    if yes_words().contains(numeral) || no_words().contains(numeral) || ignored_words().contains(
        numeral,
    ) {
        lemma_vocabulary_has_no_numbers(numeral);
    }
    crate::number::law_read_digits(word, u32::MAX as int, IntError::PosOverflow);
    crate::number::law_read_digits(word.skip(1), u32::MAX as int, IntError::PosOverflow);
}

/// Of all words of a command to vote, the last one with a number gives the
/// number of votes, and the last one with a direction the direction; a command
/// without such a word has none.
pub proof fn law_last_ballot_word_counts(words: Seq<Seq<char>>)
    ensures
        ballot_words(words) matches Ok((direction, count)) ==> {
            &&& forall|i: int| 0 <= i < words.len() ==> ballot_word(#[trigger] words[i]) is Ok
            &&& count is None ==> forall|i: int|
                0 <= i < words.len() ==> ballot_word(#[trigger] words[i])->Ok_0.1 is None
            &&& count is Some ==> exists|i: int|
                0 <= i < words.len() && ballot_word(#[trigger] words[i])->Ok_0.1 == count && forall|
                    j: int,
                |
                    i < j < words.len() ==> ballot_word(#[trigger] words[j])->Ok_0.1 is None
            &&& direction is None ==> forall|i: int|
                0 <= i < words.len() ==> ballot_word(#[trigger] words[i])->Ok_0.0 is None
            &&& direction is Some ==> exists|i: int|
                0 <= i < words.len() && ballot_word(#[trigger] words[i])->Ok_0.0 == direction && forall|
                    j: int,
                |
                    i < j < words.len() ==> ballot_word(#[trigger] words[j])->Ok_0.0 is None
        },
    decreases words.len(),
{
    if words.len() > 0 && ballot_words(words) is Ok {
        let init = words.drop_last();
        let n = words.len() - 1;
        law_last_ballot_word_counts(init);
        assert(words.last() == words[n]);
        assert forall|i: int| 0 <= i < init.len() implies #[trigger] init[i] == words[i] by {}
        assert forall|i: int| 0 <= i < words.len() implies ballot_word(#[trigger] words[i]) is Ok by {
            if i < n {
                assert(init[i] == words[i]);
            }
        }
        let sofar = ballot_words(init)->Ok_0;
        let next = ballot_word(words[n])->Ok_0;
        let now = ballot_words(words)->Ok_0;
        if now.1 is None {
            assert forall|i: int| 0 <= i < words.len() implies ballot_word(
                #[trigger] words[i],
            )->Ok_0.1 is None by {
                if i < n {
                    assert(init[i] == words[i]);
                }
            }
        } else if next.1 is None {
            let i = choose|i: int|
                0 <= i < init.len() && ballot_word(#[trigger] init[i])->Ok_0.1 == sofar.1 && forall|
                    j: int,
                |
                    i < j < init.len() ==> ballot_word(#[trigger] init[j])->Ok_0.1 is None;
            assert(init[i] == words[i]);
            assert forall|j: int| i < j < words.len() implies ballot_word(
                #[trigger] words[j],
            )->Ok_0.1 is None by {
                if j < n {
                    assert(init[j] == words[j]);
                }
            }
        }
        if now.0 is None {
            assert forall|i: int| 0 <= i < words.len() implies ballot_word(
                #[trigger] words[i],
            )->Ok_0.0 is None by {
                if i < n {
                    assert(init[i] == words[i]);
                }
            }
        } else if next.0 is None {
            let i = choose|i: int|
                0 <= i < init.len() && ballot_word(#[trigger] init[i])->Ok_0.0 == sofar.0 && forall|
                    j: int,
                |
                    i < j < init.len() ==> ballot_word(#[trigger] init[j])->Ok_0.0 is None;
            assert(init[i] == words[i]);
            assert forall|j: int| i < j < words.len() implies ballot_word(
                #[trigger] words[j],
            )->Ok_0.0 is None by {
                if j < n {
                    assert(init[j] == words[j]);
                }
            }
        }
    }
}

/// The words are refused exactly if one of them is not understood, with the
/// error of the first such word.
pub proof fn law_first_bad_ballot_word_decides(words: Seq<Seq<char>>)
    ensures
        ballot_words(words) is Ok <==> forall|i: int|
            0 <= i < words.len() ==> ballot_word(#[trigger] words[i]) is Ok,
        ballot_words(words) matches Err(e) ==> exists|i: int|
            0 <= i < words.len() && ballot_word(#[trigger] words[i]) == Err::<
                (Option<bool>, Option<i64>),
                IntError,
            >(e) && forall|j: int| 0 <= j < i ==> ballot_word(#[trigger] words[j]) is Ok,
    decreases words.len(),
{
    if words.len() > 0 {
        let init = words.drop_last();
        let n = words.len() - 1;
        law_first_bad_ballot_word_decides(init);
        assert(words.last() == words[n]);
        assert forall|i: int| 0 <= i < init.len() implies #[trigger] init[i] == words[i] by {}
        if ballot_words(init) is Ok {
            assert forall|i: int| 0 <= i < n implies ballot_word(#[trigger] words[i]) is Ok by {
                assert(init[i] == words[i]);
            }
        } else {
            let e = ballot_words(init)->Err_0;
            let i = choose|i: int|
                0 <= i < init.len() && ballot_word(#[trigger] init[i]) == Err::<
                    (Option<bool>, Option<i64>),
                    IntError,
                >(e) && forall|j: int| 0 <= j < i ==> ballot_word(#[trigger] init[j]) is Ok;
            assert(init[i] == words[i]);
            assert forall|j: int| 0 <= j < i implies ballot_word(#[trigger] words[j]) is Ok by {
                assert(init[j] == words[j]);
            }
        }
    }
}


/// The motion that a word names has the number that the digits before the check
/// digit stand for.
pub proof fn law_named_motion(word: Seq<char>, id: int)
    ensures
        named_motion(word) == Some(id) <==> is_checked(word) && crate::text::digits_value(
            word.drop_last(),
        ) == id,
{
    if is_checked(word) {
        let init = word.drop_last();
        assert forall|i: int| 0 <= i < init.len() implies is_digit(#[trigger] init[i]) by {
            assert(is_digit(word[i]));
        }
        crate::damm::law_number_of_digits(init, Seq::empty(), 0);
    }
}

/// A command to vote asks for the motion that is named, the direction that the
/// words give, and as many votes as they say, or one where they say none.
pub proof fn law_ballot_asks_what_is_written(
    id_word: Seq<char>,
    words: Seq<Seq<char>>,
    id: i64,
    direction: Option<bool>,
    count: i64,
)
    requires
        named_motion(id_word) == Some(id as int),
    ensures
        ballot_words(words) == Ok::<(Option<bool>, Option<i64>), IntError>((direction, Some(count)))
            ==> ballot_asks(id_word, words) == Ok::<Ballot, BallotError>(
            Ballot { motion_id: id, direction, count },
        ),
        ballot_words(words) == Ok::<(Option<bool>, Option<i64>), IntError>((direction, None))
            ==> ballot_asks(id_word, words) == Ok::<Ballot, BallotError>(
            Ballot { motion_id: id, direction, count: 1 },
        ),
        ballot_words(words) matches Err(e) ==> ballot_asks(id_word, words) == Err::<
            Ballot,
            BallotError,
        >(BallotError::BadWord(e)),
{
}

/// A command whose first word names no motion is refused, whatever follows.
pub proof fn law_ballot_needs_a_motion(id_word: Seq<char>, words: Seq<Seq<char>>)
    ensures
        ballot_asks(id_word, words) == Err::<Ballot, BallotError>(BallotError::InvalidMotionId)
            <==> !is_checked(id_word),
{
}

/// The announced number of a motion, a word for a direction and a number, in
/// either order, ask for that many votes on that motion in that direction.
pub proof fn law_every_vote_can_be_asked_for(
    id: i64,
    word: Seq<char>,
    direction: bool,
    count: u32,
)
    requires
        0 <= id,
        ballot_word(word) == Ok::<(Option<bool>, Option<i64>), IntError>((Some(direction), None)),
    ensures
        ballot_asks(
            checked_numeral(id as nat),
            seq![word, crate::text::decimal(count as int)],
        ) == Ok::<Ballot, BallotError>(
            Ballot { motion_id: id, direction: Some(direction), count: count as i64 },
        ),
        ballot_asks(
            checked_numeral(id as nat),
            seq![crate::text::decimal(count as int), word],
        ) == Ok::<Ballot, BallotError>(
            Ballot { motion_id: id, direction: Some(direction), count: count as i64 },
        ),
        ballot_asks(checked_numeral(id as nat), seq![word]) == Ok::<Ballot, BallotError>(
            Ballot { motion_id: id, direction: Some(direction), count: 1 },
        ),
{
    let n = crate::text::decimal(count as int);
    law_announced_number_names_its_motion(id as nat);
    law_number_of_votes(n, n, count);
    reveal_with_fuel(ballot_words, 3);
    assert(seq![word, n].drop_last() =~= seq![word]);
    assert(seq![n, word].drop_last() =~= seq![n]);
    assert(seq![word].drop_last() =~= Seq::<Seq<char>>::empty());
    assert(seq![n].drop_last() =~= Seq::<Seq<char>>::empty());
}

} // verus!
