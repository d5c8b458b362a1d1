//! Giving property to another user: reading the command, and moving the
//! balance.

use vstd::prelude::*;

use crate::ids::{mention, to_stored};
#[allow(unused_imports)]
use crate::ids::{mention_of, stored};
use crate::item::ItemType;
#[allow(unused_imports)]
use crate::item::{gen_names, named_type, pc_names};
use crate::ledger::{balance_or_zero, Transfer};
#[allow(unused_imports)]
use crate::ledger::known_balance;
use crate::number::{parse_u64, IntError};
#[allow(unused_imports)]
use crate::number::{law_read_digits, lone_sign, read_digits, read_unsigned};
#[allow(unused_imports)]
use crate::tally::fits_i64;
use crate::tally::sum_i64;
use crate::text::{chars_of, push_u64};
#[allow(unused_imports)]
use crate::text::{all_digits, decimal, digits_value, is_digit};
use crate::user::{known_user, CachedUser, Member, UserId};
#[allow(unused_imports)]
use crate::user::{is_known, spoken_of};

verus! {

/// Why a command to give is not understood.
#[derive(Debug, PartialEq, Eq)]
pub enum GiveError {
    /// The word is neither a kind nor begins with a digit.
    InvalidItemType(String),
    /// What follows the digits of a word is not a kind.
    UnrecognizedItemType(String),
    BadCount(IntError),
    AmountMissing,
    TypeMissing,
}

/// What a `GiveError` says.
pub enum GiveErrorView {
    InvalidItemType(Seq<char>),
    UnrecognizedItemType(Seq<char>),
    BadCount(IntError),
    AmountMissing,
    TypeMissing,
}

impl View for GiveError {
    type V = GiveErrorView;

    open spec fn view(&self) -> GiveErrorView {
        match *self {
            GiveError::InvalidItemType(word) => GiveErrorView::InvalidItemType(word@),
            GiveError::UnrecognizedItemType(word) => GiveErrorView::UnrecognizedItemType(word@),
            GiveError::BadCount(e) => GiveErrorView::BadCount(e),
            GiveError::AmountMissing => GiveErrorView::AmountMissing,
            GiveError::TypeMissing => GiveErrorView::TypeMissing,
        }
    }
}

impl GiveErrorView {
    /// The words that answer the command.
    pub open spec fn words(self) -> Seq<char> {
        match self {
            GiveErrorView::InvalidItemType(word) => "Invalid item type "@ + word,
            GiveErrorView::UnrecognizedItemType(word) => "Unrecognized item type "@ + word,
            GiveErrorView::BadCount(e) => "Bad count "@ + e.debug_view(),
            GiveErrorView::AmountMissing => "Amount not provided."@,
            GiveErrorView::TypeMissing => "Type not provided."@,
        }
    }
}

impl GiveError {
    /// The words that answer the command.
    pub fn message(&self) -> (r: String)
        ensures
            r@ == self@.words(),
            *self is AmountMissing ==> r@ == "Amount not provided."@,
            *self is TypeMissing ==> r@ == "Type not provided."@,
    {
        match self {
            GiveError::InvalidItemType(word) => {
                let mut out = "Invalid item type ".to_owned();
                out.append(word.as_str());
                out
            },
            GiveError::UnrecognizedItemType(word) => {
                let mut out = "Unrecognized item type ".to_owned();
                out.append(word.as_str());
                out
            },
            GiveError::BadCount(e) => {
                let mut out = "Bad count ".to_owned();
                out.append(e.debug_text());
                out
            },
            GiveError::AmountMissing => "Amount not provided.".to_owned(),
            GiveError::TypeMissing => "Type not provided.".to_owned(),
        }
    }
}

/// How many digits `s` begins with.
pub open spec fn leading_digits(s: Seq<char>) -> nat
    decreases s.len(),
{
    if s.len() == 0 || !is_digit(s[0]) {
        0
    } else {
        1 + leading_digits(s.drop_first())
    }
}

/// What one word contributes: a kind, an amount, or both at once when digits
/// are followed by the name of a kind.
pub open spec fn word_reads(word: Seq<char>) -> Result<
    (Option<ItemType>, Option<u64>),
    GiveErrorView,
> {
    let k = leading_digits(word) as int;
    if named_type(word) is Some {
        Ok((named_type(word), None))
    } else if k < word.len() {
        if k == 0 {
            Err(GiveErrorView::InvalidItemType(word))
        } else if named_type(word.skip(k)) is None {
            Err(GiveErrorView::UnrecognizedItemType(word.skip(k)))
        } else {
            match read_unsigned(word.take(k), u64::MAX as int) {
                Err(e) => Err(GiveErrorView::BadCount(e)),
                Ok(n) => Ok((named_type(word.skip(k)), Some(n as u64))),
            }
        }
    } else {
        match read_unsigned(word, u64::MAX as int) {
            Err(e) => Err(GiveErrorView::BadCount(e)),
            Ok(n) => Ok((None, Some(n as u64))),
        }
    }
}

/// `later` where it is there, else `earlier`.
pub open spec fn overridden<T>(earlier: Option<T>, later: Option<T>) -> Option<T> {
    if later is Some {
        later
    } else {
        earlier
    }
}

/// What the words contribute together. A later word overrides an earlier one,
/// and the first word that is not understood decides the error.
pub open spec fn words_read(words: Seq<Seq<char>>) -> Result<
    (Option<ItemType>, Option<u64>),
    GiveErrorView,
>
    decreases words.len(),
{
    if words.len() == 0 {
        Ok((None, None))
    } else {
        match words_read(words.drop_last()) {
            Err(e) => Err(e),
            Ok(sofar) => match word_reads(words.last()) {
                Err(e) => Err(e),
                Ok(next) => Ok((overridden(sofar.0, next.0), overridden(sofar.1, next.1))),
            },
        }
    }
}

/// What a command to give asks for, by the words behind the user.
pub open spec fn give_asks(words: Seq<Seq<char>>) -> Result<(u64, ItemType), GiveErrorView> {
    match words_read(words) {
        Err(e) => Err(e),
        Ok((ty, amount)) => if amount is None {
            Err(GiveErrorView::AmountMissing)
        } else if ty is None {
            Err(GiveErrorView::TypeMissing)
        } else {
            Ok((amount->0, ty->0))
        },
    }
}

/// The texts of a list of strings.
pub open spec fn texts(words: Seq<String>) -> Seq<Seq<char>> {
    words.map_values(|w: String| w@)
}

/// How many digits `chars` begins with.
fn count_leading_digits(chars: &Vec<char>) -> (r: usize)
    ensures
        r == leading_digits(chars@),
        r <= chars.len(),
{
    let mut i: usize = 0;
    assert(chars@.skip(0) =~= chars@);
    while i < chars.len() && '0' <= chars[i] && chars[i] <= '9'
        invariant
            i <= chars.len(),
            leading_digits(chars@) == i + leading_digits(chars@.skip(i as int)),
        decreases chars.len() - i,
    {
        assert(chars@.skip(i as int).drop_first() =~= chars@.skip(i + 1));
        i = i + 1;
    }
    i
}

/// Reads one word of a command to give.
fn read_word(word: &str) -> (r: Result<(Option<ItemType>, Option<u64>), GiveError>)
    ensures
        match word_reads(word@) {
            Ok(read) => r == Ok::<(Option<ItemType>, Option<u64>), GiveError>(read),
            Err(e) => r is Err && r->Err_0@ == e,
        },
{
    if let Some(ty) = ItemType::from_name(word) {
        return Ok((Some(ty), None));
    }
    let chars = chars_of(word);
    let k = count_leading_digits(&chars);
    if k < chars.len() {
        if k == 0 {
            return Err(GiveError::InvalidItemType(word.to_owned()));
        }
        let count_part = word.substring_char(0, k);
        let type_part = word.substring_char(k, chars.len());
        assert(count_part@ =~= word@.take(k as int));
        assert(type_part@ =~= word@.skip(k as int));
        match ItemType::from_name(type_part) {
            None => Err(GiveError::UnrecognizedItemType(type_part.to_owned())),
            Some(ty) => match parse_u64(count_part) {
                Err(e) => Err(GiveError::BadCount(e)),
                Ok(n) => Ok((Some(ty), Some(n))),
            },
        }
    } else {
        match parse_u64(word) {
            Err(e) => Err(GiveError::BadCount(e)),
            Ok(n) => Ok((None, Some(n))),
        }
    }
}

/// An error stays once more words are read.
proof fn lemma_word_error_stays(words: Seq<Seq<char>>, k: int)
    requires
        0 <= k <= words.len(),
        words_read(words.take(k)) is Err,
    ensures
        words_read(words) == words_read(words.take(k)),
    decreases words.len() - k,
{
    if k < words.len() {
        assert(words.take(k + 1).drop_last() =~= words.take(k));
        lemma_word_error_stays(words, k + 1);
    } else {
        assert(words.take(k) =~= words);
    }
}

/// Reads the words of a command to give, those behind the user: an amount and a
/// kind, in any order or joined in one word.
pub fn parse_give(words: &Vec<String>) -> (r: Result<(u64, ItemType), GiveError>)
    ensures
        match give_asks(texts(words@)) {
            Ok(asked) => r == Ok::<(u64, ItemType), GiveError>(asked),
            Err(e) => r is Err && r->Err_0@ == e,
        },
{
    let mut ty: Option<ItemType> = None;
    let mut amount: Option<u64> = None;
    let ghost all = texts(words@);
    let mut i: usize = 0;
    assert(all.take(0) =~= Seq::<Seq<char>>::empty());
    while i < words.len()
        invariant
            i <= words.len(),
            all == texts(words@),
            words_read(all.take(i as int)) == Ok::<
                (Option<ItemType>, Option<u64>),
                GiveErrorView,
            >((ty, amount)),
        decreases words.len() - i,
    {
        proof {
            assert(all.take(i + 1).drop_last() =~= all.take(i as int));
            assert(all.take(i + 1).last() == words@[i as int]@);
        }
        match read_word(words[i].as_str()) {
            Err(e) => {
                proof {
                    lemma_word_error_stays(all, i + 1);
                }
                return Err(e);
            },
            Ok((next_ty, next_amount)) => {
                if next_ty.is_some() {
                    ty = next_ty;
                }
                if next_amount.is_some() {
                    amount = next_amount;
                }
            },
        }
        i = i + 1;
    }
    assert(all.take(i as int) =~= all);
    match (amount, ty) {
        (None, _) => Err(GiveError::AmountMissing),
        (Some(_), None) => Err(GiveError::TypeMissing),
        (Some(n), Some(t)) => Ok((n, t)),
    }
}

/// The user that a command to give speaks of, who has to be in the cache.
pub fn recipient(
    author: UserId,
    arg: &str,
    users: &Vec<CachedUser>,
    members: &Vec<Member>,
) -> (r: Result<UserId, &'static str>)
    ensures
        match spoken_of(author.0, arg@, users@, members@) {
            None => r is Err && r->Err_0@ == "Could not find any User."@,
            Some(id) => if is_known(users@, id) {
                r == Ok::<UserId, &'static str>(UserId(id))
            } else {
                r is Err && r->Err_0@ == "User not found"@
            },
        },
{
    match UserId::from_command_args(author, arg, users, members) {
        Err(e) => Err(e),
        Ok(user) => if known_user(users, user.0) {
            Ok(user)
        } else {
            Err("User not found")
        },
    }
}

/// The order in which the balances of the two users are locked.
pub open spec fn locking_order(author: u64, dest: u64) -> (u64, u64) {
    if author > dest {
        (dest, author)
    } else {
        (author, dest)
    }
}

/// The two users in the order in which their balances are to be locked and
/// read.
pub fn lock_order(author: u64, dest: u64) -> (r: (u64, u64))
    ensures
        r == locking_order(author, dest),
        r == (author, dest) || r == (dest, author),
        r.0 <= r.1,
{
    if author > dest {
        (dest, author)
    } else {
        (author, dest)
    }
}

/// What becomes of a gift.
#[derive(Clone, Copy, Debug, PartialEq, Eq)]
pub enum GiveOutcome {
    Insufficient,
    Done(Transfer),
}

/// The balances of author and recipient, of the two that were read in locking
/// order.
pub open spec fn balances_of(author: u64, dest: u64, first: i64, second: i64) -> (i64, i64) {
    if author > dest {
        (second, first)
    } else {
        (first, second)
    }
}

/// The balances that a gift of `quantity` leaves. A gift to oneself changes
/// nothing.
pub open spec fn balances_left(
    author: u64,
    dest: u64,
    sender: i64,
    receiver: i64,
    quantity: int,
) -> (int, int) {
    if author == dest {
        (sender as int, sender as int)
    } else {
        (sender - quantity, receiver + quantity)
    }
}

/// What becomes of a gift of `amount` by `author` to `dest`. `first` and
/// `second` are the known balances in locking order. The amount counts as the
/// signed integer with the same bits. `None` where a balance that is left does
/// not fit 64 bits.
pub fn plan_give(
    author: u64,
    dest: u64,
    ty: ItemType,
    amount: u64,
    first: Option<i64>,
    second: Option<i64>,
    message: u64,
) -> (r: Option<GiveOutcome>)
    ensures
        ({
            let (sender, receiver) = balances_of(
                author,
                dest,
                known_balance(first),
                known_balance(second),
            );
            let (from, to) = balances_left(author, dest, sender, receiver, stored(amount));
            if sender < stored(amount) {
                r == Some(GiveOutcome::Insufficient)
            } else if !fits_i64(from) || !fits_i64(to) {
                r is None
            } else {
                r == Some(
                    GiveOutcome::Done(
                        Transfer {
                            ty,
                            quantity: stored(amount) as i64,
                            from_user: Some(stored(author) as i64),
                            from_balance: Some(from as i64),
                            to_user: Some(stored(dest) as i64),
                            to_balance: Some(to as i64),
                            from_gen: false,
                            message_id: Some(stored(message) as i64),
                            to_motion: None,
                            to_votes: None,
                        },
                    ),
                )
            }
        }),
        r == Some(GiveOutcome::Insufficient) <==> (if author > dest {
            known_balance(second)
        } else {
            known_balance(first)
        }) < stored(amount),
        r matches Some(GiveOutcome::Done(t)) ==> {
            let sender = if author > dest {
                known_balance(second)
            } else {
                known_balance(first)
            };
            let receiver = if author > dest {
                known_balance(first)
            } else {
                known_balance(second)
            };
            &&& t.quantity == stored(amount)
            &&& t.from_balance is Some
            &&& t.to_balance is Some
            &&& author != dest ==> sender - t.from_balance->0 == t.quantity
            &&& author != dest ==> t.to_balance->0 - receiver == t.quantity
            &&& author == dest ==> t.from_balance->0 == sender && t.to_balance->0 == sender
        },
{
    let quantity = to_stored(amount);
    let mut sender: i64 = balance_or_zero(first);
    let mut receiver: i64 = balance_or_zero(second);
    if author > dest {
        sender = balance_or_zero(second);
        receiver = balance_or_zero(first);
    }
    if sender < quantity {
        return Some(GiveOutcome::Insufficient);
    }
    let mut from_balance: i64 = sender;
    let mut to_balance: i64 = sender;
    if author != dest {
        let left: i128 = sender as i128 - quantity as i128;
        if left > 9223372036854775807 {
            return None;
        }
        from_balance = left as i64;
        match sum_i64(receiver, quantity) {
            None => {
                return None;
            },
            Some(balance) => {
                to_balance = balance;
            },
        }
    }
    Some(
        GiveOutcome::Done(
            Transfer {
                ty,
                quantity,
                from_user: Some(to_stored(author)),
                from_balance: Some(from_balance),
                to_user: Some(to_stored(dest)),
                to_balance: Some(to_balance),
                from_gen: false,
                message_id: Some(to_stored(message)),
                to_motion: None,
                to_votes: None,
            },
        ),
    )
}

/// The words that answer a gift.
pub open spec fn give_words(outcome: GiveOutcome, amount: u64, ty: ItemType, dest: u64) -> Seq<
    char,
> {
    match outcome {
        GiveOutcome::Insufficient => "Insufficient balance."@,
        GiveOutcome::Done(_) => "Successfully transferred "@ + decimal(amount as int) + " "@
            + ty.phrase() + " to "@ + mention_of(dest) + "."@,
    }
}

/// The words that answer a gift.
pub fn give_reply(outcome: GiveOutcome, amount: u64, ty: ItemType, dest: u64) -> (r: String)
    ensures
        r@ == give_words(outcome, amount, ty, dest),
        outcome is Insufficient ==> r@ == "Insufficient balance."@,
        outcome is Done ==> r@ == "Successfully transferred "@ + decimal(amount as int) + " "@
            + ty.phrase() + " to "@ + mention_of(dest) + "."@,
{
    match outcome {
        GiveOutcome::Insufficient => "Insufficient balance.".to_owned(),
        GiveOutcome::Done(_) => {
            let mut out = "Successfully transferred ".to_owned();
            push_u64(&mut out, amount);
            out.append(" ");
            out.append(ty.label());
            out.append(" to ");
            out.append(mention(dest).as_str());
            out.append(".");
            out
        },
    }
}

/// Two users who give to each other lock their balances in the same order, so
/// neither waits for the other.
pub proof fn law_locking_order_is_shared(a: u64, b: u64)
    ensures
        locking_order(a, b) == locking_order(b, a),
{
}

/// The balances that are read in locking order are taken for the right users.
pub proof fn law_balances_follow_their_users(
    author: u64,
    dest: u64,
    balance: spec_fn(u64) -> i64,
)
    ensures
        balances_of(
            author,
            dest,
            balance(locking_order(author, dest).0),
            balance(locking_order(author, dest).1),
        ) == (balance(author), balance(dest)),
{
}

/// A gift creates and destroys nothing: between two users the sum of their
/// balances stays the same, and a gift to oneself leaves the balance.
pub proof fn law_gift_conserves(author: u64, dest: u64, sender: i64, receiver: i64, quantity: int)
    ensures
        author != dest ==> balances_left(author, dest, sender, receiver, quantity).0
            + balances_left(author, dest, sender, receiver, quantity).1 == sender + receiver,
        author == dest ==> balances_left(author, dest, sender, receiver, quantity) == (
            sender as int,
            sender as int,
        ),
{
}

/// Nobody gives more than they have, nor takes by giving: after a gift that is
/// not refused, the author's balance is not negative and has not grown. An
/// amount of more than 63 bits is left out.
pub proof fn law_gift_is_covered(author: u64, dest: u64, sender: i64, receiver: i64, amount: u64)
    requires
        amount <= i64::MAX,
        sender >= stored(amount),
    ensures
        0 <= balances_left(author, dest, sender, receiver, stored(amount)).0 <= sender,
{
}

/// It does not matter in which order the amount and the kind are written.
pub proof fn law_word_order_is_free(a: Seq<char>, b: Seq<char>, ty: ItemType, amount: u64)
    requires
        word_reads(a) == Ok::<(Option<ItemType>, Option<u64>), GiveErrorView>((Some(ty), None)),
        word_reads(b) == Ok::<(Option<ItemType>, Option<u64>), GiveErrorView>(
            (None, Some(amount)),
        ),
    ensures
        give_asks(seq![a, b]) == Ok::<(u64, ItemType), GiveErrorView>((amount, ty)),
        give_asks(seq![b, a]) == Ok::<(u64, ItemType), GiveErrorView>((amount, ty)),
{
    reveal_with_fuel(words_read, 3);
    assert(seq![a, b].drop_last() =~= seq![a]);
    assert(seq![b, a].drop_last() =~= seq![b]);
    assert(seq![a].drop_last() =~= Seq::<Seq<char>>::empty());
    assert(seq![b].drop_last() =~= Seq::<Seq<char>>::empty());
}

/// The name of a kind begins with no digit.
proof fn lemma_names_begin_with_letters(name: Seq<char>)
    requires
        named_type(name) is Some,
    ensures
        name.len() > 0,
        !is_digit(name[0]),
{
    reveal_strlit("pc");
    reveal_strlit("politicalcapital");
    reveal_strlit("political-capital");
    reveal_strlit("capital");
    reveal_strlit("gen");
    reveal_strlit("g");
    reveal_strlit("generator");
    reveal_strlit("generators");
    reveal_strlit("gens");
    if pc_names().contains(name) {
        assert(name[0] == 'p' || name[0] == 'c');
    } else {
        assert(name[0] == 'g');
    }
}

proof fn lemma_leading_digits(digits: Seq<char>, rest: Seq<char>)
    requires
        all_digits(digits),
        rest.len() == 0 || !is_digit(rest[0]),
    ensures
        leading_digits(digits + rest) == digits.len(),
    decreases digits.len(),
{
    if digits.len() == 0 {
        assert(digits + rest =~= rest);
    } else {
        assert(is_digit(digits[0]));
        assert((digits + rest).drop_first() =~= digits.drop_first() + rest);
        assert forall|i: int| 0 <= i < digits.drop_first().len() implies is_digit(
            #[trigger] digits.drop_first()[i],
        ) by {
            assert(is_digit(digits[i + 1]));
        }
        lemma_leading_digits(digits.drop_first(), rest);
    }
}

/// An amount and a kind joined in one word say the same as the two words.
pub proof fn law_joined_word(digits: Seq<char>, name: Seq<char>)
    requires
        digits.len() > 0,
        all_digits(digits),
        named_type(name) is Some,
    ensures
        give_asks(seq![digits + name]) == give_asks(seq![digits, name]),
{
    let joined = digits + name;
    lemma_names_begin_with_letters(name);
    lemma_leading_digits(digits, name);
    lemma_leading_digits(digits, Seq::empty());
    assert(digits + Seq::<char>::empty() =~= digits);
    assert(is_digit(digits[0]));
    if named_type(joined) is Some {
        lemma_names_begin_with_letters(joined);
    }
    if named_type(digits) is Some {
        lemma_names_begin_with_letters(digits);
    }
    assert(joined.take(digits.len() as int) =~= digits);
    assert(joined.skip(digits.len() as int) =~= name);
    reveal_with_fuel(words_read, 3);
    assert(seq![digits, name].drop_last() =~= seq![digits]);
    assert(seq![digits].drop_last() =~= Seq::<Seq<char>>::empty());
    assert(seq![joined].drop_last() =~= Seq::<Seq<char>>::empty());
}

/// A gift between two users moves exactly its quantity: the author has that
/// much less afterwards, and the recipient that much more. A larger gift moves
/// more, by as much as it is larger.
pub proof fn law_gift_moves_its_quantity(
    author: u64,
    dest: u64,
    sender: i64,
    receiver: i64,
    quantity: int,
    more: int,
)
    requires
        author != dest,
    ensures
        sender - balances_left(author, dest, sender, receiver, quantity).0 == quantity,
        balances_left(author, dest, sender, receiver, quantity).1 - receiver == quantity,
        balances_left(author, dest, sender, receiver, quantity).0 - balances_left(
            author,
            dest,
            sender,
            receiver,
            quantity + more,
        ).0 == more,
{
}

/// A gift that is given back leaves both balances as they were.
pub proof fn law_gift_can_be_given_back(
    author: u64,
    dest: u64,
    sender: i64,
    receiver: i64,
    quantity: int,
)
    requires
        author != dest,
        fits_i64(sender - quantity),
        fits_i64(receiver + quantity),
    ensures
        ({
            let (left, gained) = balances_left(author, dest, sender, receiver, quantity);
            balances_left(dest, author, gained as i64, left as i64, quantity) == (
                receiver as int,
                sender as int,
            )
        }),
{
}

/// The users whose balances are locked are the two users of the gift, the one
/// with the smaller number first.
pub proof fn law_locking_order_is_ascending(author: u64, dest: u64)
    ensures
        locking_order(author, dest).0 <= locking_order(author, dest).1,
        locking_order(author, dest) == (author, dest) || locking_order(author, dest) == (
            dest,
            author,
        ),
{
}

/// The digits at the start of a text: all of them are digits, and what follows
/// them, if anything, is none.
pub proof fn law_leading_digits(s: Seq<char>)
    ensures
        leading_digits(s) <= s.len(),
        all_digits(s.take(leading_digits(s) as int)),
        leading_digits(s) < s.len() ==> !is_digit(s[leading_digits(s) as int]),
    decreases s.len(),
{
    if s.len() > 0 && is_digit(s[0]) {
        let tail = s.drop_first();
        law_leading_digits(tail);
        let k = leading_digits(s) as int;
        assert forall|i: int| 0 <= i < s.take(k).len() implies is_digit(#[trigger] s.take(k)[i]) by {
            if i > 0 {
                assert(is_digit(tail.take(k - 1)[i - 1]));
                assert(tail.take(k - 1)[i - 1] == s[i]);
            }
        }
        if k < s.len() {
            assert(tail[k - 1] == s[k]);
        }
    }
}

/// What the words of a command to give mean. A name is its kind; digits are
/// their value; digits before a name are both; and no other word has a meaning.
pub proof fn law_words_of_a_gift(digits: Seq<char>, name: Seq<char>, word: Seq<char>)
    requires
        digits.len() > 0,
        all_digits(digits),
        digits_value(digits) <= u64::MAX,
        named_type(name) is Some,
    ensures
        word_reads(name) == Ok::<(Option<ItemType>, Option<u64>), GiveErrorView>(
            (named_type(name), None),
        ),
        word_reads(digits) == Ok::<(Option<ItemType>, Option<u64>), GiveErrorView>(
            (None, Some(digits_value(digits) as u64)),
        ),
        word_reads(digits + name) == Ok::<(Option<ItemType>, Option<u64>), GiveErrorView>(
            (named_type(name), Some(digits_value(digits) as u64)),
        ),
        word_reads(word) is Ok ==> named_type(word) is Some || (word.len() > 0 && all_digits(word))
            || exists|k: int|
            0 < k < word.len() && all_digits(#[trigger] word.take(k)) && named_type(word.skip(k))
                is Some,
{
    lemma_names_begin_with_letters(name);
    lemma_leading_digits(digits, name);
    lemma_leading_digits(digits, Seq::empty());
    assert(digits + Seq::<char>::empty() =~= digits);
    assert(is_digit(digits[0]));
    let joined = digits + name;
    if named_type(joined) is Some {
        lemma_names_begin_with_letters(joined);
    }
    if named_type(digits) is Some {
        lemma_names_begin_with_letters(digits);
    }
    assert(joined.take(digits.len() as int) =~= digits);
    assert(joined.skip(digits.len() as int) =~= name);
    crate::number::law_unsigned_integers(digits, u64::MAX as int);
    law_leading_digits(word);
    let k = leading_digits(word) as int;
    if word_reads(word) is Ok && named_type(word) is None {
        if k < word.len() {
            assert(all_digits(word.take(k)));
        } else {
            assert(word.take(k) =~= word);
            if word.len() == 0 {
                crate::number::law_unsigned_integers(word, u64::MAX as int);
            }
        }
    }
}

/// Why a word of a command to give is not understood. `rest` is what follows
/// the digits of the word.
pub proof fn law_words_that_are_not_understood(digits: Seq<char>, rest: Seq<char>)
    requires
        all_digits(digits),
        rest.len() > 0 ==> !is_digit(rest[0]),
        named_type(digits + rest) is None,
    ensures
        digits.len() == 0 && rest.len() > 0 ==> word_reads(digits + rest) == Err::<
            (Option<ItemType>, Option<u64>),
            GiveErrorView,
        >(GiveErrorView::InvalidItemType(rest)),
        digits.len() > 0 && rest.len() > 0 && named_type(rest) is None ==> word_reads(digits + rest)
            == Err::<(Option<ItemType>, Option<u64>), GiveErrorView>(
            GiveErrorView::UnrecognizedItemType(rest),
        ),
        digits.len() > 0 && digits_value(digits) > u64::MAX && (rest.len() == 0 || named_type(rest)
            is Some) ==> word_reads(digits + rest) == Err::<
            (Option<ItemType>, Option<u64>),
            GiveErrorView,
        >(GiveErrorView::BadCount(IntError::PosOverflow)),
        digits.len() == 0 && rest.len() == 0 ==> word_reads(digits + rest) == Err::<
            (Option<ItemType>, Option<u64>),
            GiveErrorView,
        >(GiveErrorView::BadCount(IntError::Empty)),
{
    let word = digits + rest;
    lemma_leading_digits(digits, rest);
    assert(word.take(digits.len() as int) =~= digits);
    assert(word.skip(digits.len() as int) =~= rest);
    crate::number::law_unsigned_integers(digits, u64::MAX as int);
    if rest.len() == 0 {
        assert(word =~= digits);
    }
    if digits.len() == 0 {
        assert(word =~= rest);
    }
}

/// Of all words of a command to give, the last one with an amount gives the
/// amount, and the last one with a kind the kind; a command without such a word
/// has none.
pub proof fn law_last_word_counts(words: Seq<Seq<char>>)
    ensures
        words_read(words) matches Ok((ty, amount)) ==> {
            &&& forall|i: int| 0 <= i < words.len() ==> word_reads(#[trigger] words[i]) is Ok
            &&& amount is None ==> forall|i: int|
                0 <= i < words.len() ==> word_reads(#[trigger] words[i])->Ok_0.1 is None
            &&& amount is Some ==> exists|i: int|
                0 <= i < words.len() && word_reads(#[trigger] words[i])->Ok_0.1 == amount && forall|
                    j: int,
                |
                    i < j < words.len() ==> word_reads(#[trigger] words[j])->Ok_0.1 is None
            &&& ty is None ==> forall|i: int|
                0 <= i < words.len() ==> word_reads(#[trigger] words[i])->Ok_0.0 is None
            &&& ty is Some ==> exists|i: int|
                0 <= i < words.len() && word_reads(#[trigger] words[i])->Ok_0.0 == ty && forall|
                    j: int,
                |
                    i < j < words.len() ==> word_reads(#[trigger] words[j])->Ok_0.0 is None
        },
    decreases words.len(),
{
    if words.len() > 0 && words_read(words) is Ok {
        let init = words.drop_last();
        let n = words.len() - 1;
        law_last_word_counts(init);
        assert(words.last() == words[n]);
        assert forall|i: int| 0 <= i < init.len() implies #[trigger] init[i] == words[i] by {}
        assert forall|i: int| 0 <= i < words.len() implies word_reads(#[trigger] words[i]) is Ok by {
            if i < n {
                assert(init[i] == words[i]);
            }
        }
        let sofar = words_read(init)->Ok_0;
        let next = word_reads(words[n])->Ok_0;
        let now = words_read(words)->Ok_0;
        if now.1 is None {
            assert forall|i: int| 0 <= i < words.len() implies word_reads(
                #[trigger] words[i],
            )->Ok_0.1 is None by {
                if i < n {
                    assert(init[i] == words[i]);
                }
            }
        } else if next.1 is None {
            let i = choose|i: int|
                0 <= i < init.len() && word_reads(#[trigger] init[i])->Ok_0.1 == sofar.1 && forall|
                    j: int,
                |
                    i < j < init.len() ==> word_reads(#[trigger] init[j])->Ok_0.1 is None;
            assert(init[i] == words[i]);
            assert forall|j: int| i < j < words.len() implies word_reads(
                #[trigger] words[j],
            )->Ok_0.1 is None by {
                if j < n {
                    assert(init[j] == words[j]);
                }
            }
        }
        if now.0 is None {
            assert forall|i: int| 0 <= i < words.len() implies word_reads(
                #[trigger] words[i],
            )->Ok_0.0 is None by {
                if i < n {
                    assert(init[i] == words[i]);
                }
            }
        } else if next.0 is None {
            let i = choose|i: int|
                0 <= i < init.len() && word_reads(#[trigger] init[i])->Ok_0.0 == sofar.0 && forall|
                    j: int,
                |
                    i < j < init.len() ==> word_reads(#[trigger] init[j])->Ok_0.0 is None;
            assert(init[i] == words[i]);
            assert forall|j: int| i < j < words.len() implies word_reads(
                #[trigger] words[j],
            )->Ok_0.0 is None by {
                if j < n {
                    assert(init[j] == words[j]);
                }
            }
        }
    }
}

/// The words are refused exactly if one of them is not understood, with the
/// error of the first such word.
pub proof fn law_first_bad_word_decides(words: Seq<Seq<char>>)
    ensures
        words_read(words) is Ok <==> forall|i: int|
            0 <= i < words.len() ==> word_reads(#[trigger] words[i]) is Ok,
        words_read(words) matches Err(e) ==> exists|i: int|
            0 <= i < words.len() && word_reads(#[trigger] words[i]) == Err::<
                (Option<ItemType>, Option<u64>),
                GiveErrorView,
            >(e) && forall|j: int| 0 <= j < i ==> word_reads(#[trigger] words[j]) is Ok,
    decreases words.len(),
{
    if words.len() > 0 {
        let init = words.drop_last();
        let n = words.len() - 1;
        law_first_bad_word_decides(init);
        assert(words.last() == words[n]);
        assert forall|i: int| 0 <= i < init.len() implies #[trigger] init[i] == words[i] by {}
        if words_read(init) is Ok {
            assert forall|i: int| 0 <= i < n implies word_reads(#[trigger] words[i]) is Ok by {
                assert(init[i] == words[i]);
            }
        } else {
            let e = words_read(init)->Err_0;
            let i = choose|i: int|
                0 <= i < init.len() && word_reads(#[trigger] init[i]) == Err::<
                    (Option<ItemType>, Option<u64>),
                    GiveErrorView,
                >(e) && forall|j: int| 0 <= j < i ==> word_reads(#[trigger] init[j]) is Ok;
            assert(init[i] == words[i]);
            assert forall|j: int| 0 <= j < i implies word_reads(#[trigger] words[j]) is Ok by {
                assert(init[j] == words[j]);
            }
        }
    }
}

/// A command to give is granted exactly if its words give an amount and a kind,
/// and then asks for these. Otherwise it is the words that are not understood,
/// or the amount that is missing, or the kind.
pub proof fn law_gift_asks_what_is_written(words: Seq<Seq<char>>, amount: u64, ty: ItemType)
    ensures
        give_asks(words) == Ok::<(u64, ItemType), GiveErrorView>((amount, ty)) <==> words_read(words)
            == Ok::<(Option<ItemType>, Option<u64>), GiveErrorView>((Some(ty), Some(amount))),
        give_asks(words) == Err::<(u64, ItemType), GiveErrorView>(GiveErrorView::AmountMissing)
            <==> (words_read(words) is Ok && words_read(words)->Ok_0.1 is None),
        give_asks(words) == Err::<(u64, ItemType), GiveErrorView>(GiveErrorView::TypeMissing) <==> (
        words_read(words) is Ok && words_read(words)->Ok_0.1 is Some && words_read(words)->Ok_0.0
            is None),
        words_read(words) matches Err(e) ==> give_asks(words) == Err::<(u64, ItemType), GiveErrorView>(
            e,
        ),
{
    lemma_word_errors(words);
}

/// A word that is not understood is never answered as if something was missing.
proof fn lemma_word_errors(words: Seq<Seq<char>>)
    ensures
        words_read(words) matches Err(e) ==> !(e is AmountMissing) && !(e is TypeMissing),
    decreases words.len(),
{
    if words.len() > 0 {
        lemma_word_errors(words.drop_last());
    }
}

/// The numeral of an amount and the name of a kind, in either order or joined,
/// ask for that amount of that kind, for every amount.
pub proof fn law_every_amount_can_be_given(amount: u64, name: Seq<char>, ty: ItemType)
    requires
        named_type(name) == Some(ty),
    ensures
        give_asks(seq![decimal(amount as int), name]) == Ok::<(u64, ItemType), GiveErrorView>(
            (amount, ty),
        ),
        give_asks(seq![name, decimal(amount as int)]) == Ok::<(u64, ItemType), GiveErrorView>(
            (amount, ty),
        ),
        give_asks(seq![decimal(amount as int) + name]) == Ok::<(u64, ItemType), GiveErrorView>(
            (amount, ty),
        ),
{
    let digits = decimal(amount as int);
    crate::text::law_decimal_reads_back(amount as nat);
    law_words_of_a_gift(digits, name, name);
    law_word_order_is_free(name, digits, ty, amount);
    law_joined_word(digits, name);
}

/// The texts of strings are their texts, in order.
pub proof fn law_texts(words: Seq<String>, i: int)
    ensures
        texts(words).len() == words.len(),
        0 <= i < words.len() ==> texts(words)[i] == words[i]@,
{
}

/// The answer to a word that is not understood ends in that word, and the one
/// to a bad count in why it is bad.
pub proof fn law_answers_quote_the_word(word: Seq<char>, e: IntError)
    ensures
        GiveErrorView::InvalidItemType(word).words().skip(18) == word,
        GiveErrorView::InvalidItemType(word).words().take(18) == "Invalid item type "@,
        GiveErrorView::UnrecognizedItemType(word).words().skip(23) == word,
        GiveErrorView::UnrecognizedItemType(word).words().take(23) == "Unrecognized item type "@,
        GiveErrorView::BadCount(e).words().skip(10) == e.debug_view(),
        GiveErrorView::BadCount(e).words().take(10) == "Bad count "@,
{
    reveal_strlit("Invalid item type ");
    reveal_strlit("Unrecognized item type ");
    reveal_strlit("Bad count ");
    let a = GiveErrorView::InvalidItemType(word).words();
    let b = GiveErrorView::UnrecognizedItemType(word).words();
    let c = GiveErrorView::BadCount(e).words();
    assert(a.skip(18) =~= word);
    assert(a.take(18) =~= "Invalid item type "@);
    assert(b.skip(23) =~= word);
    assert(b.take(23) =~= "Unrecognized item type "@);
    assert(c.skip(10) =~= e.debug_view());
    assert(c.take(10) =~= "Bad count "@);
}

/// What an error says is what it holds.
pub proof fn law_errors_are_shown(e: GiveError)
    ensures
        match e {
            GiveError::InvalidItemType(word) => e@ == GiveErrorView::InvalidItemType(word@),
            GiveError::UnrecognizedItemType(word) => e@ == GiveErrorView::UnrecognizedItemType(
                word@,
            ),
            GiveError::BadCount(why) => e@ == GiveErrorView::BadCount(why),
            GiveError::AmountMissing => e@ == GiveErrorView::AmountMissing,
            GiveError::TypeMissing => e@ == GiveErrorView::TypeMissing,
        },
{
}

} // verus!
