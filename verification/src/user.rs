//! Finding the user that a command speaks of: the author, a number, a mention,
//! a tagged name, a nickname or a plain name.

use vstd::prelude::*;

use crate::number::{parse_u16, parse_u64};
#[allow(unused_imports)]
use crate::number::{law_read_digits, lone_sign, read_digits, read_unsigned, IntError};
use crate::text::{chars_of, same_ignoring_case, same_text};
#[allow(unused_imports)]
use crate::text::{all_digits, ascii_upper_text, digits_value, is_digit};

verus! {

/// The pattern of a message that is one mention of a user. Its group is the
/// user's number.
pub const USER_PING: &'static str = r"^\s*<@!?(\d+)>\s*$";

/// A user of the chat service.
#[derive(Clone, Copy, Debug, PartialEq, Eq, Structural)]
pub struct UserId(pub u64);

/// What the cache knows of a user.
#[derive(Debug)]
pub struct CachedUser {
    pub id: u64,
    pub discriminator: u16,
    pub name: String,
}

/// What the cache knows of a member of a guild.
#[derive(Debug)]
pub struct Member {
    pub id: u64,
    pub name: String,
    pub nick: Option<String>,
}

/// Whether `c` has the Unicode property `White_Space`.
pub open spec fn is_white(c: char) -> bool {
    let n = c as int;
    9 <= n <= 13 || n == 0x20 || n == 0x85 || n == 0xa0 || n == 0x1680 || 0x2000 <= n <= 0x200a || n
        == 0x2028 || n == 0x2029 || n == 0x202f || n == 0x205f || n == 0x3000
}

/// Whether every character of `s` is white space; true of the empty text.
pub open spec fn all_white(s: Seq<char>) -> bool {
    forall|i: int| 0 <= i < s.len() ==> is_white(#[trigger] s[i])
}

/// Whether `text` is `<@` or `<@!`, then `inner`, then `>`, with nothing but
/// white space around.
pub open spec fn is_ping(text: Seq<char>, inner: Seq<char>) -> bool {
    exists|before: Seq<char>, after: Seq<char>|
        #[trigger] all_white(before) && #[trigger] all_white(after) && (text == before + "<@"@
            + inner + ">"@ + after || text == before + "<@!"@ + inner + ">"@ + after)
}

/// Calls `regex::Regex::new` and `regex::Regex::captures`, and takes the first
/// group of the match. Of the one pattern that is admitted the contract claims:
/// a captured group stands in a mention of the text, is not empty and holds no
/// ASCII character but digits; and where the text mentions a number in ASCII
/// digits, that number is what is captured. Which other characters count as
/// digits is left unsaid.
#[verifier::external_body]
fn first_group(pattern: &str, text: &str) -> (r: Option<String>)
    requires
        pattern@ == USER_PING@,
    ensures
        r matches Some(group) ==> group@.len() > 0 && is_ping(text@, group@) && forall|i: int|
            0 <= i < group@.len() ==> is_digit(#[trigger] group@[i]) || group@[i] as int >= 128,
        forall|inner: Seq<char>| #[trigger]
            is_ping(text@, inner) && inner.len() > 0 && all_digits(inner) ==> r is Some && r->0@
                == inner,
{
    let re = regex::Regex::new(pattern).unwrap();
    re.captures(text).map(|found| found[1].to_string())
}

/// A text mentions at most one number.
pub proof fn law_ping_is_unambiguous(text: Seq<char>, d: Seq<char>, e: Seq<char>)
    requires
        is_ping(text, d),
        is_ping(text, e),
        d.len() > 0,
        e.len() > 0,
        all_digits(d),
        all_digits(e),
    ensures
        d == e,
{
    reveal_strlit("<@");
    reveal_strlit("<@!");
    reveal_strlit(">");
    let (a, b) = choose|before: Seq<char>, after: Seq<char>|
        #[trigger] all_white(before) && #[trigger] all_white(after) && (text == before + "<@"@ + d
            + ">"@ + after || text == before + "<@!"@ + d + ">"@ + after);
    let (c, f) = choose|before: Seq<char>, after: Seq<char>|
        #[trigger] all_white(before) && #[trigger] all_white(after) && (text == before + "<@"@ + e
            + ">"@ + after || text == before + "<@!"@ + e + ">"@ + after);
    assert(text[a.len() as int] == '<');
    assert(text[c.len() as int] == '<');
    assert(a.len() == c.len()) by {
        if a.len() < c.len() {
            assert(text[a.len() as int] == c[a.len() as int]);
            assert(is_white(c[a.len() as int]));
        }
        if c.len() < a.len() {
            assert(text[c.len() as int] == a[c.len() as int]);
            assert(is_white(a[c.len() as int]));
        }
    }
    let n = a.len() as int;
    assert(is_digit(d[0]));
    assert(is_digit(e[0]));
    let plain_d = text == a + "<@"@ + d + ">"@ + b;
    let plain_e = text == c + "<@"@ + e + ">"@ + f;
    assert(plain_d <==> plain_e) by {
        if plain_d {
            assert(text[n + 2] == d[0]);
        } else {
            assert(text[n + 2] == '!');
        }
        if plain_e {
            assert(text[n + 2] == e[0]);
        } else {
            assert(text[n + 2] == '!');
        }
    }
    let from: int = if plain_d {
        n + 2
    } else {
        n + 3
    };
    assert(text[from + d.len()] == '>');
    assert(text[from + e.len()] == '>');
    assert forall|i: int| 0 <= i < d.len() implies text[from + i] == d[i] by {}
    assert forall|i: int| 0 <= i < e.len() implies text[from + i] == e[i] by {}
    if d.len() < e.len() {
        assert(is_digit(e[d.len() as int]));
    }
    if e.len() < d.len() {
        assert(is_digit(d[e.len() as int]));
    }
    assert(d =~= e);
}

/// Whether `text` mentions the user whose number is written `digits`.
pub open spec fn pings(text: Seq<char>, digits: Seq<char>) -> bool {
    is_ping(text, digits) && digits.len() > 0 && all_digits(digits) && digits_value(digits)
        <= u64::MAX
}

/// The user that `text` mentions, if it mentions one.
pub open spec fn pinged_user(text: Seq<char>) -> Option<u64> {
    if exists|digits: Seq<char>| pings(text, digits) {
        Some(digits_value(choose|digits: Seq<char>| pings(text, digits)) as u64)
    } else {
        None
    }
}

/// The user that `text` mentions, or `None` where it is no mention of a user.
pub fn user_ping(text: &str) -> (r: Option<u64>)
    ensures
        r == pinged_user(text@),
{
    match first_group(USER_PING, text) {
        None => {
            assert(forall|digits: Seq<char>| !pings(text@, digits));
            None
        },
        Some(group) => {
            proof {
                let s = group@;
                law_read_digits(s, u64::MAX as int, IntError::PosOverflow);
                assert(is_digit(s[0]) || s[0] as int >= 128);
                assert(s[0] != '+' && s[0] != '-');
                assert(read_unsigned(s, u64::MAX as int) == read_digits(
                    s,
                    u64::MAX as int,
                    IntError::PosOverflow,
                ));
                assert(forall|digits: Seq<char>| pings(text@, digits) ==> digits == s);
                if all_digits(s) && digits_value(s) <= u64::MAX {
                    assert(pings(text@, s));
                }
            }
            match parse_u64(group.as_str()) {
                Ok(id) => Some(id),
                Err(_) => None,
            }
        },
    }
}

/// The place of the last `#` in `s`, or -1.
pub open spec fn last_hash(s: Seq<char>) -> int
    decreases s.len(),
{
    if s.len() == 0 {
        -1
    } else if s.last() == '#' {
        s.len() - 1
    } else {
        last_hash(s.drop_last())
    }
}

/// Whether two names are equal but for the case of ASCII letters.
pub open spec fn same_name(a: Seq<char>, b: Seq<char>) -> bool {
    ascii_upper_text(a) == ascii_upper_text(b)
}

/// The first of `users` with that name and discriminator.
pub open spec fn first_tagged(users: Seq<CachedUser>, name: Seq<char>, discriminator: int) -> Option<
    u64,
>
    decreases users.len(),
{
    if users.len() == 0 {
        None
    } else if users[0].discriminator == discriminator && same_name(users[0].name@, name) {
        Some(users[0].id)
    } else {
        first_tagged(users.drop_first(), name, discriminator)
    }
}

/// The user that `arg` names as `name#discriminator`. The last `#` divides, and
/// a discriminator has at most four digits.
pub open spec fn tagged_user(arg: Seq<char>, users: Seq<CachedUser>) -> Option<u64> {
    let k = last_hash(arg);
    if k < 0 {
        None
    } else {
        match read_unsigned(arg.skip(k + 1), u16::MAX as int) {
            Ok(discriminator) if discriminator <= 9999 => first_tagged(
                users,
                arg.take(k),
                discriminator,
            ),
            _ => None,
        }
    }
}

/// Whether a member goes by `name`, as nickname or as user name.
pub open spec fn goes_by(member: Member, name: Seq<char>) -> bool {
    (member.nick matches Some(nick) && same_name(nick@, name)) || same_name(member.name@, name)
}

/// The first of `members` who goes by `name`.
pub open spec fn first_named(members: Seq<Member>, name: Seq<char>) -> Option<u64>
    decreases members.len(),
{
    if members.len() == 0 {
        None
    } else if goes_by(members[0], name) {
        Some(members[0].id)
    } else {
        first_named(members.drop_first(), name)
    }
}

/// The user that `arg` speaks of. A dot or `self` is the author; then a number,
/// a mention, a tagged name and a name of a member are tried, in that order.
pub open spec fn spoken_of(
    author: u64,
    arg: Seq<char>,
    users: Seq<CachedUser>,
    members: Seq<Member>,
) -> Option<u64> {
    if arg == "."@ || arg == "self"@ {
        Some(author)
    } else if read_unsigned(arg, u64::MAX as int) is Ok {
        Some(read_unsigned(arg, u64::MAX as int)->Ok_0 as u64)
    } else if pinged_user(arg) is Some {
        pinged_user(arg)
    } else if tagged_user(arg, users) is Some {
        tagged_user(arg, users)
    } else {
        first_named(members, arg)
    }
}

/// The place of the last `#`, if there is one.
fn find_last_hash(chars: &Vec<char>) -> (r: Option<usize>)
    ensures
        match r {
            Some(k) => k == last_hash(chars@) && k < chars.len(),
            None => last_hash(chars@) == -1,
        },
{
    let mut i: usize = chars.len();
    assert(chars@.take(i as int) =~= chars@);
    while i > 0
        invariant
            i <= chars.len(),
            last_hash(chars@) == last_hash(chars@.take(i as int)),
        decreases i,
    {
        if chars[i - 1] == '#' {
            return Some(i - 1);
        }
        assert(chars@.take(i as int).drop_last() =~= chars@.take(i - 1));
        i = i - 1;
    }
    None
}

/// The first of `users` with that name and discriminator.
fn find_tagged(users: &Vec<CachedUser>, name: &str, discriminator: u16) -> (r: Option<u64>)
    ensures
        r == first_tagged(users@, name@, discriminator as int),
{
    let mut i: usize = 0;
    assert(users@.skip(0) =~= users@);
    while i < users.len()
        invariant
            i <= users.len(),
            first_tagged(users@, name@, discriminator as int) == first_tagged(
                users@.skip(i as int),
                name@,
                discriminator as int,
            ),
        decreases users.len() - i,
    {
        if users[i].discriminator == discriminator && same_ignoring_case(
            users[i].name.as_str(),
            name,
        ) {
            return Some(users[i].id);
        }
        assert(users@.skip(i as int).drop_first() =~= users@.skip(i + 1));
        i = i + 1;
    }
    None
}

/// The user that `arg` names as `name#discriminator`.
fn find_by_tag(arg: &str, users: &Vec<CachedUser>) -> (r: Option<u64>)
    ensures
        r == tagged_user(arg@, users@),
{
    let chars = chars_of(arg);
    match find_last_hash(&chars) {
        None => None,
        Some(k) => {
            let name = arg.substring_char(0, k);
            let number = arg.substring_char(k + 1, chars.len());
            assert(name@ =~= arg@.take(k as int));
            assert(number@ =~= arg@.skip(k + 1));
            match parse_u16(number) {
                Err(_) => None,
                Ok(discriminator) => if discriminator <= 9999 {
                    find_tagged(users, name, discriminator)
                } else {
                    None
                },
            }
        },
    }
}

/// The first of `members` who goes by `name`.
fn find_named(members: &Vec<Member>, name: &str) -> (r: Option<u64>)
    ensures
        r == first_named(members@, name@),
{
    let mut i: usize = 0;
    assert(members@.skip(0) =~= members@);
    while i < members.len()
        invariant
            i <= members.len(),
            first_named(members@, name@) == first_named(members@.skip(i as int), name@),
        decreases members.len() - i,
    {
        if let Some(nick) = &members[i].nick {
            if same_ignoring_case(nick.as_str(), name) {
                return Some(members[i].id);
            }
        }
        if same_ignoring_case(members[i].name.as_str(), name) {
            return Some(members[i].id);
        }
        assert(members@.skip(i as int).drop_first() =~= members@.skip(i + 1));
        i = i + 1;
    }
    None
}

impl UserId {
    /// The user that `arg` speaks of in a command of `author`. `users` are the
    /// cached users and `members` the members of all guilds, both in the order
    /// in which the cache lists them.
    pub fn from_command_args(
        author: UserId,
        arg: &str,
        users: &Vec<CachedUser>,
        members: &Vec<Member>,
    ) -> (r: Result<UserId, &'static str>)
        ensures
            match spoken_of(author.0, arg@, users@, members@) {
                Some(id) => r == Ok::<UserId, &'static str>(UserId(id)),
                None => r is Err && r->Err_0@ == "Could not find any User."@,
            },
    {
        if same_text(arg, ".") || same_text(arg, "self") {
            return Ok(author);
        }
        if let Ok(id) = parse_u64(arg) {
            return Ok(UserId(id));
        }
        if let Some(id) = user_ping(arg) {
            return Ok(UserId(id));
        }
        if let Some(id) = find_by_tag(arg, users) {
            return Ok(UserId(id));
        }
        match find_named(members, arg) {
            Some(id) => Ok(UserId(id)),
            None => Err("Could not find any User."),
        }
    }
}

/// Whether a user with the number `id` is among `users`.
pub open spec fn is_known(users: Seq<CachedUser>, id: u64) -> bool {
    exists|i: int| 0 <= i < users.len() && (#[trigger] users[i]).id == id
}

/// Whether a user with the number `id` is among `users`.
pub fn known_user(users: &Vec<CachedUser>, id: u64) -> (r: bool)
    ensures
        r == is_known(users@, id),
{
    let mut i: usize = 0;
    while i < users.len()
        invariant
            i <= users.len(),
            forall|j: int| 0 <= j < i ==> (#[trigger] users@[j]).id != id,
        decreases users.len() - i,
    {
        if users[i].id == id {
            return true;
        }
        i = i + 1;
    }
    false
}

/// Whoever is mentioned by the bot is found by that mention.
pub proof fn law_mention_reads_back(user: u64)
    ensures
        pinged_user(crate::ids::mention_of(user)) == Some(user),
{
    let text = crate::ids::mention_of(user);
    let digits = crate::text::decimal_nat(user as nat);
    crate::text::law_decimal_reads_back(user as nat);
    let none = Seq::<char>::empty();
    assert(all_white(none));
    assert(text =~= none + "<@"@ + digits + ">"@ + none);
    assert(is_ping(text, digits));
    assert(pings(text, digits));
    let chosen = choose|digits: Seq<char>| pings(text, digits);
    law_ping_is_unambiguous(text, digits, chosen);
}

/// A user's own number always speaks of that user.
pub proof fn law_number_speaks_of_its_user(
    author: u64,
    user: u64,
    users: Seq<CachedUser>,
    members: Seq<Member>,
)
    ensures
        spoken_of(author, crate::text::decimal(user as int), users, members) == Some(user),
{
    let s = crate::text::decimal_nat(user as nat);
    crate::text::law_decimal_reads_back(user as nat);
    law_read_digits(s, u64::MAX as int, IntError::PosOverflow);
    assert(is_digit(s[0]));
    reveal_strlit(".");
    reveal_strlit("self");
}

/// What is a mention: the user's digits between `<@` or `<@!` and `>`, with any
/// white space around; and it mentions the user with that number. Nothing else
/// mentions a user.
pub proof fn law_mentions(before: Seq<char>, digits: Seq<char>, after: Seq<char>, text: Seq<char>)
    requires
        all_white(before),
        all_white(after),
        digits.len() > 0,
        all_digits(digits),
        digits_value(digits) <= u64::MAX,
    ensures
        pinged_user(before + "<@"@ + digits + ">"@ + after) == Some(digits_value(digits) as u64),
        pinged_user(before + "<@!"@ + digits + ">"@ + after) == Some(digits_value(digits) as u64),
        pinged_user(text) matches Some(id) ==> exists|a: Seq<char>, d: Seq<char>, b: Seq<char>|
            all_white(a) && all_white(b) && d.len() > 0 && all_digits(d) && digits_value(d) == id
                && (text == #[trigger] (a + "<@"@ + d + ">"@ + b) || text == a + "<@!"@ + d + ">"@
                + b),
{
    let plain = before + "<@"@ + digits + ">"@ + after;
    let bang = before + "<@!"@ + digits + ">"@ + after;
    assert(is_ping(plain, digits));
    assert(is_ping(bang, digits));
    assert(pings(plain, digits));
    assert(pings(bang, digits));
    law_ping_gives_its_number(plain, digits);
    law_ping_gives_its_number(bang, digits);
    if pinged_user(text) is Some {
        let d = choose|d: Seq<char>| pings(text, d);
        crate::text::lemma_digits_value_nonnegative(d);
        let (a, b) = choose|a: Seq<char>, b: Seq<char>|
            #[trigger] all_white(a) && #[trigger] all_white(b) && (text == a + "<@"@ + d + ">"@ + b
                || text == a + "<@!"@ + d + ">"@ + b);
        let shape = a + "<@"@ + d + ">"@ + b;
        assert(text == shape || text == a + "<@!"@ + d + ">"@ + b);
    }
}

/// A text that mentions the number `digits` mentions the user with that number.
pub proof fn law_ping_gives_its_number(text: Seq<char>, digits: Seq<char>)
    requires
        pings(text, digits),
    ensures
        pinged_user(text) == Some(digits_value(digits) as u64),
        0 <= digits_value(digits) <= u64::MAX,
{
    let chosen = choose|d: Seq<char>| pings(text, d);
    law_ping_is_unambiguous(text, digits, chosen);
    crate::text::lemma_digits_value_nonnegative(digits);
}

/// What stands in a mention: no `#`, and a `<`, which is no digit and no sign.
proof fn lemma_ping_characters(text: Seq<char>, digits: Seq<char>)
    requires
        is_ping(text, digits),
        all_digits(digits),
        digits.len() > 0,
    ensures
        exists|i: int| 0 <= i < text.len() && text[i] == '<',
        exists|i: int| 0 <= i < text.len() && text[i] == '@',
        forall|i: int| 0 <= i < text.len() ==> #[trigger] text[i] != '#',
{
    reveal_strlit("<@");
    reveal_strlit("<@!");
    reveal_strlit(">");
    let (a, b) = choose|a: Seq<char>, b: Seq<char>|
        #[trigger] all_white(a) && #[trigger] all_white(b) && (text == a + "<@"@ + digits + ">"@ + b
            || text == a + "<@!"@ + digits + ">"@ + b);
    assert(text[a.len() as int] == '<');
    assert(text[a.len() + 1int] == '@');
    assert forall|i: int| 0 <= i < text.len() implies #[trigger] text[i] != '#' by {
        let from: int = if text == a + "<@"@ + digits + ">"@ + b {
            a.len() + 2int
        } else {
            a.len() + 3int
        };
        if i < a.len() {
            assert(text[i] == a[i]);
            assert(is_white(a[i]));
        } else if from <= i < from + digits.len() {
            assert(text[i] == digits[i - from]);
            assert(is_digit(digits[i - from]));
        } else if i > from + digits.len() {
            assert(text[i] == b[i - from - digits.len() - 1]);
            assert(is_white(b[i - from - digits.len() - 1]));
        }
    }
}

/// A text with a character that is neither a digit nor a sign is no number.
proof fn lemma_not_a_number(text: Seq<char>, i: int, max: int)
    requires
        0 <= max,
        0 <= i < text.len(),
        !is_digit(text[i]),
        text[i] != '+',
    ensures
        read_unsigned(text, max) is Err,
{
    crate::number::law_unsigned_integers(text, max);
    if read_unsigned(text, max) is Ok {
        if text[0] == '+' && all_digits(text.skip(1)) && i > 0 {
            assert(is_digit(text.skip(1)[i - 1]));
        }
    }
}

/// Whoever is mentioned by number in `text` is who the text speaks of, whoever
/// writes it and whatever the cache knows.
pub proof fn law_mention_speaks_of_its_number(
    author: u64,
    text: Seq<char>,
    digits: Seq<char>,
    users: Seq<CachedUser>,
    members: Seq<Member>,
)
    requires
        pings(text, digits),
    ensures
        spoken_of(author, text, users, members) == Some(digits_value(digits) as u64),
{
    lemma_ping_characters(text, digits);
    let i = choose|i: int| 0 <= i < text.len() && text[i] == '<';
    assert(read_unsigned(text, u64::MAX as int) is Err) by {
        lemma_not_a_number(text, i, u64::MAX as int);
    }
    assert(text != "."@ && text != "self"@) by {
        reveal_strlit(".");
        reveal_strlit("self");
    }
    law_ping_gives_its_number(text, digits);
}

/// A mention always speaks of the user who is mentioned, whoever writes it and
/// whatever the cache knows.
pub proof fn law_mention_speaks_of_its_user(
    author: u64,
    user: u64,
    users: Seq<CachedUser>,
    members: Seq<Member>,
)
    ensures
        spoken_of(author, crate::ids::mention_of(user), users, members) == Some(user),
{
    let text = crate::ids::mention_of(user);
    law_mention_reads_back(user);
    let digits = choose|digits: Seq<char>| pings(text, digits);
    law_ping_gives_its_number(text, digits);
    law_mention_speaks_of_its_number(author, text, digits, users, members);
}

/// A dot and `self` speak of the author, and a number of the user with that
/// number, whatever the cache knows.
pub proof fn law_author_and_numbers(
    author: u64,
    digits: Seq<char>,
    users: Seq<CachedUser>,
    members: Seq<Member>,
)
    ensures
        spoken_of(author, "."@, users, members) == Some(author),
        spoken_of(author, "self"@, users, members) == Some(author),
        digits.len() > 0 && all_digits(digits) && digits_value(digits) <= u64::MAX ==> spoken_of(
            author,
            digits,
            users,
            members,
        ) == Some(digits_value(digits) as u64) && spoken_of(
            author,
            seq!['+'] + digits,
            users,
            members,
        ) == Some(digits_value(digits) as u64),
{
    reveal_strlit(".");
    reveal_strlit("self");
    crate::number::law_unsigned_integers(digits, u64::MAX as int);
    if digits.len() > 0 && all_digits(digits) {
        assert(is_digit(digits[0]));
        assert((seq!['+'] + digits)[0] == '+');
    }
}

/// The last `#` of a text.
pub proof fn law_last_hash(name: Seq<char>, tag: Seq<char>)
    requires
        forall|i: int| 0 <= i < tag.len() ==> #[trigger] tag[i] != '#',
    ensures
        last_hash(tag) == -1,
        last_hash(name.push('#') + tag) == name.len(),
    decreases tag.len(),
{
    let s = name.push('#') + tag;
    if tag.len() == 0 {
        assert(s =~= name.push('#'));
    } else {
        let init = tag.drop_last();
        assert forall|i: int| 0 <= i < init.len() implies #[trigger] init[i] != '#' by {
            assert(init[i] == tag[i]);
        }
        law_last_hash(name, init);
        assert(s.drop_last() =~= name.push('#') + init);
        assert(tag[tag.len() - 1] != '#');
    }
}

/// The user that a tagged name finds is the first in the list with that
/// discriminator and, but for case, that name; none is found exactly if there
/// is no such user.
pub proof fn law_first_tagged(users: Seq<CachedUser>, name: Seq<char>, discriminator: int)
    ensures
        first_tagged(users, name, discriminator) is None ==> forall|i: int|
            0 <= i < users.len() ==> !((#[trigger] users[i]).discriminator == discriminator
                && ascii_upper_text(users[i].name@) == ascii_upper_text(name)),
        first_tagged(users, name, discriminator) matches Some(id) ==> exists|i: int|
            0 <= i < users.len() && (#[trigger] users[i]).id == id && users[i].discriminator
                == discriminator && ascii_upper_text(users[i].name@) == ascii_upper_text(name)
                && forall|j: int|
                0 <= j < i ==> !((#[trigger] users[j]).discriminator == discriminator
                    && ascii_upper_text(users[j].name@) == ascii_upper_text(name)),
    decreases users.len(),
{
    if users.len() > 0 {
        let tail = users.drop_first();
        law_first_tagged(tail, name, discriminator);
        assert forall|i: int| 0 < i < users.len() implies #[trigger] users[i] == tail[i - 1] by {}
        let here = users[0].discriminator == discriminator && ascii_upper_text(users[0].name@)
            == ascii_upper_text(name);
        if !here {
            if first_tagged(tail, name, discriminator) is Some {
                let id = first_tagged(tail, name, discriminator)->0;
                let k = choose|i: int|
                    0 <= i < tail.len() && (#[trigger] tail[i]).id == id && tail[i].discriminator
                        == discriminator && ascii_upper_text(tail[i].name@) == ascii_upper_text(name)
                        && forall|j: int|
                        0 <= j < i ==> !((#[trigger] tail[j]).discriminator == discriminator
                            && ascii_upper_text(tail[j].name@) == ascii_upper_text(name));
                assert(users[k + 1] == tail[k]);
                assert forall|j: int| 0 <= j < k + 1 implies !((
                #[trigger] users[j]).discriminator == discriminator && ascii_upper_text(
                    users[j].name@,
                ) == ascii_upper_text(name)) by {
                    if j > 0 {
                        assert(users[j] == tail[j - 1]);
                    }
                }
            } else {
                assert forall|i: int| 0 <= i < users.len() implies !((
                #[trigger] users[i]).discriminator == discriminator && ascii_upper_text(
                    users[i].name@,
                ) == ascii_upper_text(name)) by {
                    if i > 0 {
                        assert(users[i] == tail[i - 1]);
                    }
                }
            }
        } else {
            assert(users[0].id == first_tagged(users, name, discriminator)->0);
        }
    }
}

/// The user that a name finds is the first of the members whose nickname or
/// user name it is, but for case; none is found exactly if there is no such
/// member.
pub proof fn law_first_named(members: Seq<Member>, name: Seq<char>)
    ensures
        first_named(members, name) is None ==> forall|i: int|
            0 <= i < members.len() ==> ascii_upper_text((#[trigger] members[i]).name@)
                != ascii_upper_text(name) && (members[i].nick matches Some(nick)
                ==> ascii_upper_text(nick@) != ascii_upper_text(name)),
        first_named(members, name) matches Some(id) ==> exists|i: int|
            0 <= i < members.len() && (#[trigger] members[i]).id == id && (ascii_upper_text(
                members[i].name@,
            ) == ascii_upper_text(name) || (members[i].nick matches Some(nick) && ascii_upper_text(
                nick@,
            ) == ascii_upper_text(name))) && forall|j: int|
                0 <= j < i ==> ascii_upper_text((#[trigger] members[j]).name@) != ascii_upper_text(
                    name,
                ) && (members[j].nick matches Some(nick) ==> ascii_upper_text(nick@)
                    != ascii_upper_text(name)),
    decreases members.len(),
{
    if members.len() > 0 {
        let tail = members.drop_first();
        law_first_named(tail, name);
        if goes_by(members[0], name) {
            assert(members[0].id == first_named(members, name)->0);
        } else if first_named(tail, name) is Some {
            let id = first_named(tail, name)->0;
            let k = choose|i: int|
                0 <= i < tail.len() && (#[trigger] tail[i]).id == id && (ascii_upper_text(
                    tail[i].name@,
                ) == ascii_upper_text(name) || (tail[i].nick matches Some(nick) && ascii_upper_text(
                    nick@,
                ) == ascii_upper_text(name))) && forall|j: int|
                    0 <= j < i ==> ascii_upper_text((#[trigger] tail[j]).name@) != ascii_upper_text(
                        name,
                    ) && (tail[j].nick matches Some(nick) ==> ascii_upper_text(nick@)
                        != ascii_upper_text(name));
            assert(members[k + 1] == tail[k]);
            assert forall|j: int| 0 <= j < k + 1 implies ascii_upper_text(
                (#[trigger] members[j]).name@,
            ) != ascii_upper_text(name) && (members[j].nick matches Some(nick) ==> ascii_upper_text(
                nick@,
            ) != ascii_upper_text(name)) by {
                if j > 0 {
                    assert(members[j] == tail[j - 1]);
                }
            }
        } else {
            assert forall|i: int| 0 <= i < members.len() implies ascii_upper_text(
                (#[trigger] members[i]).name@,
            ) != ascii_upper_text(name) && (members[i].nick matches Some(nick) ==> ascii_upper_text(
                nick@,
            ) != ascii_upper_text(name)) by {
                if i > 0 {
                    assert(members[i] == tail[i - 1]);
                }
            }
        }
    }
}

/// A name, a `#` and a number up to 9999 speak of the first user with that name
/// and discriminator; if there is none, or the number is larger or none at all,
/// the whole text counts as a name of a member.
pub proof fn law_tagged_names(
    author: u64,
    name: Seq<char>,
    tag: Seq<char>,
    users: Seq<CachedUser>,
    members: Seq<Member>,
)
    requires
        forall|i: int| 0 <= i < tag.len() ==> #[trigger] tag[i] != '#',
    ensures
        ({
            let text = name.push('#') + tag;
            let number = read_unsigned(tag, 65535);
            spoken_of(author, text, users, members) == if number is Ok && number->Ok_0 <= 9999
                && first_tagged(users, name, number->Ok_0) is Some {
                first_tagged(users, name, number->Ok_0)
            } else {
                first_named(members, text)
            }
        }),
{
    let text = name.push('#') + tag;
    reveal_strlit(".");
    reveal_strlit("self");
    law_last_hash(name, tag);
    assert(text.skip(name.len() + 1int) =~= tag);
    assert(text.take(name.len() as int) =~= name);
    assert(text[name.len() as int] == '#');
    lemma_not_a_number(text, name.len() as int, u64::MAX as int);
    if exists|d: Seq<char>| pings(text, d) {
        let d = choose|d: Seq<char>| pings(text, d);
        lemma_ping_characters(text, d);
    }
    if text == "."@ || text == "self"@ {
        assert("."@[0] != '#' && "self"@[0] != '#' && "self"@[1] != '#' && "self"@[2] != '#'
            && "self"@[3] != '#');
    }
}

/// Any other text speaks of the first member who goes by it.
pub proof fn law_plain_names(
    author: u64,
    text: Seq<char>,
    users: Seq<CachedUser>,
    members: Seq<Member>,
)
    requires
        text != "."@,
        text != "self"@,
        read_unsigned(text, u64::MAX as int) is Err,
        pinged_user(text) is None,
        forall|i: int| 0 <= i < text.len() ==> #[trigger] text[i] != '#',
    ensures
        spoken_of(author, text, users, members) == first_named(members, text),
{
    law_last_hash(Seq::empty(), text);
}

/// Who is known is who is in the list, wherever it is.
pub proof fn law_known_users(a: Seq<CachedUser>, b: Seq<CachedUser>, user: CachedUser, id: u64)
    ensures
        !is_known(Seq::<CachedUser>::empty(), id),
        is_known(a + seq![user] + b, user.id),
        is_known(a.push(user), id) <==> is_known(a, id) || user.id == id,
{
    let all = a + seq![user] + b;
    assert(all[a.len() as int] == user);
    assert(a.push(user)[a.len() as int] == user);
    if is_known(a, id) {
        let i = choose|i: int| 0 <= i < a.len() && (#[trigger] a[i]).id == id;
        assert(a.push(user)[i].id == id);
    }
    if is_known(a.push(user), id) && user.id != id {
        let i = choose|i: int|
            0 <= i < a.push(user).len() && (#[trigger] a.push(user)[i]).id == id;
        assert(a[i].id == id);
    }
}

/// A text is white space exactly if each of its characters is; printable ASCII
/// characters are not. There are 25 characters of white space.
pub proof fn law_white_space(a: Seq<char>, c: char)
    ensures
        all_white(Seq::<char>::empty()),
        all_white(a.push(c)) <==> all_white(a) && is_white(c),
        0x20 < c as int && (c as int) < 0x7f ==> !is_white(c),
        is_white(c) <==> seq![
            '\t', '\n', '\u{b}', '\u{c}', '\r', ' ', '\u{85}', '\u{a0}', '\u{1680}', '\u{2000}',
            '\u{2001}', '\u{2002}', '\u{2003}', '\u{2004}', '\u{2005}', '\u{2006}', '\u{2007}',
            '\u{2008}', '\u{2009}', '\u{200a}', '\u{2028}', '\u{2029}', '\u{202f}', '\u{205f}',
            '\u{3000}',
        ].contains(c),
{
    if all_white(a.push(c)) {
        assert forall|i: int| 0 <= i < a.len() implies is_white(#[trigger] a[i]) by {
            assert(is_white(a.push(c)[i]));
        }
        assert(is_white(a.push(c)[a.len() as int]));
    }
    let white = seq![
        '\t', '\n', '\u{b}', '\u{c}', '\r', ' ', '\u{85}', '\u{a0}', '\u{1680}', '\u{2000}',
        '\u{2001}', '\u{2002}', '\u{2003}', '\u{2004}', '\u{2005}', '\u{2006}', '\u{2007}',
        '\u{2008}', '\u{2009}', '\u{200a}', '\u{2028}', '\u{2029}', '\u{202f}', '\u{205f}',
        '\u{3000}',
    ];
    if is_white(c) {
        let n = c as int;
        let i: int = if n <= 13 {
            n - 9
        } else if n == 0x20 {
            5
        } else if n == 0x85 {
            6
        } else if n == 0xa0 {
            7
        } else if n == 0x1680 {
            8
        } else if n <= 0x200a {
            n - 0x2000 + 9
        } else if n <= 0x2029 {
            n - 0x2028 + 20
        } else if n == 0x202f {
            22
        } else if n == 0x205f {
            23
        } else {
            24
        };
        assert(white[i] == c);
    }
}

} // verus!
