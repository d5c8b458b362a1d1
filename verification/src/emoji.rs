//! The emoji with which users vote by reacting to a motion.

use vstd::prelude::*;

use crate::ids::to_stored;
#[allow(unused_imports)]
use crate::ids::stored;
use crate::vote::VoteRequest;

verus! {

/// What a reaction with one of the bot's emoji means.
#[derive(Clone, Copy, Debug, PartialEq, Eq, Structural)]
pub enum SpecialEmojiAction {
    /// A vote for the motion.
    Yes,
    /// A vote against the motion.
    No,
    /// So many more votes in the direction already taken.
    Amount(u64),
}

/// What a reaction with the emoji `id` means, where it is one of the bot's.
pub open spec fn emoji_action(id: u64) -> Option<SpecialEmojiAction> {
    if id == 690487946054205470 {
        Some(SpecialEmojiAction::Amount(1))
    } else if id == 690487945945153557 {
        Some(SpecialEmojiAction::Amount(2))
    } else if id == 690487946213589032 {
        Some(SpecialEmojiAction::Amount(5))
    } else if id == 690487945701883954 {
        Some(SpecialEmojiAction::Amount(10))
    } else if id == 690487945936764969 {
        Some(SpecialEmojiAction::Amount(20))
    } else if id == 690487945072869457 {
        Some(SpecialEmojiAction::Amount(50))
    } else if id == 690487944552644639 {
        Some(SpecialEmojiAction::Amount(100))
    } else if id == 690487968695058432 {
        Some(SpecialEmojiAction::Amount(10))
    } else if id == 690487968523223051 {
        Some(SpecialEmojiAction::Amount(1))
    } else if id == 691352947820462121 {
        Some(SpecialEmojiAction::Yes)
    } else if id == 691352948072120380 {
        Some(SpecialEmojiAction::No)
    } else {
        None
    }
}

/// What a reaction with the emoji `id` means, or `None` where it means nothing.
pub fn special_emoji(id: u64) -> (r: Option<SpecialEmojiAction>)
    ensures
        r == emoji_action(id),
{
    match id {
        690487946054205470 => Some(SpecialEmojiAction::Amount(1)),
        690487945945153557 => Some(SpecialEmojiAction::Amount(2)),
        690487946213589032 => Some(SpecialEmojiAction::Amount(5)),
        690487945701883954 => Some(SpecialEmojiAction::Amount(10)),
        690487945936764969 => Some(SpecialEmojiAction::Amount(20)),
        690487945072869457 => Some(SpecialEmojiAction::Amount(50)),
        690487944552644639 => Some(SpecialEmojiAction::Amount(100)),
        690487968695058432 => Some(SpecialEmojiAction::Amount(10)),
        690487968523223051 => Some(SpecialEmojiAction::Amount(1)),
        691352947820462121 => Some(SpecialEmojiAction::Yes),
        691352948072120380 => Some(SpecialEmojiAction::No),
        _ => None,
    }
}

/// The key by which emoji are ordered: the two directions, then the amounts.
pub open spec fn emoji_key(id: u64) -> int {
    match emoji_action(id) {
        Some(SpecialEmojiAction::Amount(a)) => a as int,
        _ => -1,
    }
}

/// The emoji that the bot puts under a new motion, in order: the two
/// directions, then the amounts from small to large. Every emoji that means
/// something is there, once.
pub fn reaction_order() -> (r: Vec<u64>)
    ensures
        forall|id: u64| #[trigger] r@.contains(id) <==> emoji_action(id) is Some,
        r@.no_duplicates(),
        forall|i: int, j: int|
            0 <= i <= j < r@.len() ==> emoji_key(#[trigger] r@[i]) <= emoji_key(#[trigger] r@[j]),
{
    let mut ids: Vec<u64> = Vec::new();
    ids.push(691352947820462121);
    ids.push(691352948072120380);
    ids.push(690487946054205470);
    ids.push(690487968523223051);
    ids.push(690487945945153557);
    ids.push(690487946213589032);
    ids.push(690487945701883954);
    ids.push(690487968695058432);
    ids.push(690487945936764969);
    ids.push(690487945072869457);
    ids.push(690487944552644639);
    proof {
        let all = seq![
                691352947820462121u64,
                691352948072120380u64,
                690487946054205470u64,
                690487968523223051u64,
                690487945945153557u64,
                690487946213589032u64,
                690487945701883954u64,
                690487968695058432u64,
                690487945936764969u64,
                690487945072869457u64,
                690487944552644639u64,
        ];
        assert(ids@ =~= all);
        assert forall|id: u64| emoji_action(id) is Some implies #[trigger] ids@.contains(id) by {
            let k: int = choose|k: int| 0 <= k < 11 && #[trigger] all[k] == id;
            assert(ids@[k] == id);
        }
    }
    ids
}

/// What a reaction of `user` to the message `message` asks for. The bot's own
/// reactions and those with other emoji ask for nothing.
pub open spec fn reaction_asks(user: u64, bot: u64, emoji: Option<u64>) -> Option<(
    Option<bool>,
    int,
)> {
    if user == bot {
        None
    } else {
        match emoji {
            None => None,
            Some(id) => match emoji_action(id) {
                None => None,
                Some(SpecialEmojiAction::Yes) => Some((Some(true), 1)),
                Some(SpecialEmojiAction::No) => Some((Some(false), 1)),
                Some(SpecialEmojiAction::Amount(a)) => Some((None, a as int)),
            },
        }
    }
}

/// The vote that a reaction of `user` to the message `message` asks for, or
/// `None` where it asks for none. `emoji` is the custom emoji of the reaction,
/// if it is one.
pub fn reaction_request(user: u64, bot: u64, message: u64, emoji: Option<u64>) -> (r: Option<
    VoteRequest,
>)
    ensures
        r is Some <==> reaction_asks(user, bot, emoji) is Some,
        r matches Some(request) ==> {
            &&& reaction_asks(user, bot, emoji) == Some((request.direction, request.count as int))
            &&& request.user_id == stored(user)
            &&& request.motion_id is None
            &&& request.message_id == Some(stored(message) as i64)
            &&& request.command_message_id is None
        },
        user == bot || emoji is None ==> r is None,
        user != bot && emoji is Some ==> match emoji_action(emoji->0) {
            None => r is None,
            Some(SpecialEmojiAction::Amount(a)) => r is Some && r->0.count == a && r->0.direction
                is None,
            Some(SpecialEmojiAction::Yes) => r is Some && r->0.count == 1 && r->0.direction == Some(
                true,
            ),
            Some(SpecialEmojiAction::No) => r is Some && r->0.count == 1 && r->0.direction == Some(
                false,
            ),
        },
{
    if user == bot {
        return None;
    }
    let id = match emoji {
        None => {
            return None;
        },
        Some(id) => id,
    };
    let mut direction: Option<bool> = None;
    let mut count: u64 = 1;
    match special_emoji(id) {
        None => {
            return None;
        },
        Some(SpecialEmojiAction::Yes) => {
            direction = Some(true);
        },
        Some(SpecialEmojiAction::No) => {
            direction = Some(false);
        },
        Some(SpecialEmojiAction::Amount(a)) => {
            count = a;
        },
    }
    Some(
        VoteRequest {
            direction,
            count: count as i64,
            user_id: to_stored(user),
            motion_id: None,
            message_id: Some(to_stored(message)),
            command_message_id: None,
        },
    )
}

/// A reaction of anyone but the bot with an emoji for an amount asks for
/// exactly that amount, in no direction; one with an emoji for a direction asks
/// for one vote in that direction; and nothing else asks for a vote.
pub proof fn law_reactions_ask_what_the_emoji_means(user: u64, bot: u64, id: u64, a: u64)
    requires
        user != bot,
    ensures
        reaction_asks(user, bot, Some(id)) == Some((None::<bool>, a as int)) <==> emoji_action(id)
            == Some(SpecialEmojiAction::Amount(a)),
        reaction_asks(user, bot, Some(id)) == Some((Some(true), 1int)) <==> emoji_action(id) == Some(
            SpecialEmojiAction::Yes,
        ),
        reaction_asks(user, bot, Some(id)) == Some((Some(false), 1int)) <==> emoji_action(id) == Some(
            SpecialEmojiAction::No,
        ),
        reaction_asks(user, bot, Some(id)) is None <==> emoji_action(id) is None,
        reaction_asks(user, bot, None) is None,
        reaction_asks(bot, bot, Some(id)) is None,
{
}

/// The emoji of the bot: two for the directions, nine for the amounts.
pub proof fn law_emoji_of_the_bot(id: u64, a: u64)
    ensures
        emoji_action(id) == Some(SpecialEmojiAction::Yes) <==> id == 691352947820462121,
        emoji_action(id) == Some(SpecialEmojiAction::No) <==> id == 691352948072120380,
        emoji_action(id) == Some(SpecialEmojiAction::Amount(a)) <==> ((a == 1 && (id
            == 690487946054205470 || id == 690487968523223051)) || (a == 2 && id
            == 690487945945153557) || (a == 5 && id == 690487946213589032) || (a == 10 && (id
            == 690487945701883954 || id == 690487968695058432)) || (a == 20 && id
            == 690487945936764969) || (a == 50 && id == 690487945072869457) || (a == 100 && id
            == 690487944552644639)),
{
}

/// The directions come before all amounts, and amounts in their own order.
pub proof fn law_emoji_order(x: u64, y: u64, a: u64, b: u64)
    ensures
        emoji_action(x) == Some(SpecialEmojiAction::Yes) || emoji_action(x) == Some(
            SpecialEmojiAction::No,
        ) ==> (emoji_action(y) == Some(SpecialEmojiAction::Amount(b)) ==> emoji_key(x) < emoji_key(y)),
        emoji_action(x) == Some(SpecialEmojiAction::Amount(a)) && emoji_action(y) == Some(
            SpecialEmojiAction::Amount(b),
        ) ==> (emoji_key(x) < emoji_key(y) <==> a < b),
{
}

} // verus!
