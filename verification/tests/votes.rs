use political_capital::ballot::{
    ballot_request, parse_ballot, parse_ballot_words, Ballot, BallotError,
};
use political_capital::clock::{
    expiration_cutoff, generation_due, next_generation, Moment, FIRST_SECOND, LAST_SECOND,
};
use political_capital::damm::announced_id;
use political_capital::embed::{
    announcement, balances_fields, balances_title, motion_fields, motion_message,
    new_motion_fields, votes_text, EmbedField,
};
use political_capital::emoji::{reaction_order, reaction_request, special_emoji, SpecialEmojiAction};
use political_capital::item::ItemType;
use political_capital::number::IntError;
use political_capital::tally::{
    count_votes, is_win, rank_votes, sum_i64, tally, vote_total, Count, MotionVote, Numeric,
};
use political_capital::vote::{
    start, step, CastVote, FoundMotion, RecordedVote, VoteAction, VoteEvent, VoteFailure,
    VoteRequest, VoteStage,
};

fn vote(user: i64, amount: i64, direction: bool) -> MotionVote {
    MotionVote { user, amount, direction }
}

fn shown(fields: &Vec<EmbedField>) -> Vec<(String, String, bool)> {
    fields.iter().map(|f| (f.name.clone(), f.value.clone(), f.inline)).collect()
}

fn line(name: &str, value: &str, inline: bool) -> (String, String, bool) {
    (name.to_string(), value.to_string(), inline)
}

#[test]
fn ordinary_motions() {
    assert!(is_win(2, 1, false));
    assert!(!is_win(1, 1, false));
    assert!(!is_win(0, 0, false));
    assert!(is_win(i64::MAX, 1, false));
}

#[test]
fn supermotions_need_more_than_two_thirds() {
    assert!(is_win(7, 3, true));
    assert!(!is_win(6, 4, true));
    assert!(is_win(8, 3, true));
    assert!(!is_win(7, 4, true));
    assert!(is_win(9, 3, true));
    assert!(!is_win(8, 4, true));
    assert!(is_win(1, 0, true));
    assert!(!is_win(0, 0, true));
    for yes in 0..60 {
        for no in 0..60 {
            assert_eq!(is_win(yes, no, true), 3 * yes > 2 * (yes + no));
        }
    }
}

#[test]
fn negative_totals_divide_towards_zero() {
    assert!(is_win(-1, 0, true));
    assert!(is_win(-2, 0, true));
    assert!(!is_win(-3, 0, true));
}

#[test]
fn totals() {
    assert_eq!(tally(&vec![]), Some((0, 0)));
    let votes = vec![vote(1, 3, true), vote(2, 5, false), vote(3, 4, true)];
    assert_eq!(tally(&votes), Some((7, 5)));
    assert_eq!(tally(&vec![vote(1, i64::MAX, true), vote(2, 1, true)]), None);
    assert_eq!(
        tally(&vec![vote(1, i64::MAX, true), vote(2, 1, true), vote(3, -1, true)]),
        None
    );
    assert_eq!(count_votes(&votes, false), Some(Count { yes: 7, no: 5, pass: true }));
    assert_eq!(count_votes(&votes, true), Some(Count { yes: 7, no: 5, pass: false }));
    let many = vec![vote(1, i64::MAX, true), vote(2, 1, false)];
    assert_eq!(count_votes(&many, true), None);
    assert_eq!(count_votes(&many, false), Some(Count { yes: i64::MAX, no: 1, pass: true }));
    assert_eq!(sum_i64(i64::MAX, 1), None);
    assert_eq!(sum_i64(i64::MIN, -1), None);
    assert_eq!(sum_i64(-3, 5), Some(2));
}

#[test]
fn sums_of_the_database() {
    let n = |digits: i128, scale: i64| vote_total(Some(Numeric { digits, scale }));
    assert_eq!(vote_total(None), Some(0));
    assert_eq!(n(0, 0), Some(0));
    assert_eq!(n(1234, 0), Some(1234));
    assert_eq!(n(1299, 2), Some(12));
    assert_eq!(n(-1299, 2), Some(-12));
    assert_eq!(n(5, 16383), Some(0));
    assert_eq!(n(i64::MAX as i128, 0), Some(i64::MAX));
    assert_eq!(n(i64::MIN as i128, 0), Some(i64::MIN));
    assert_eq!(n(i64::MAX as i128 + 1, 0), None);
    assert_eq!(n(i64::MIN as i128 - 1, 0), None);
    assert_eq!(n((i64::MAX as i128) * 10 + 9, 1), Some(i64::MAX));
    assert_eq!(n((i64::MIN as i128) * 10 - 9, 1), Some(i64::MIN));
    assert_eq!(n(i128::MIN, 0), None);
    assert_eq!(n(i128::MIN, 38), Some(-1));
}

#[test]
fn voters_are_ranked() {
    let votes = vec![vote(1, 3, true), vote(2, 5, false), vote(3, -4, true), vote(4, 5, true)];
    let ranked = rank_votes(&votes);
    let amounts: Vec<i64> = ranked.iter().map(|v| v.amount).collect();
    assert_eq!(amounts, vec![5, 5, 3, -4]);
    for v in &votes {
        assert!(ranked.contains(v));
    }
}

#[test]
fn motion_boxes() {
    let votes = vec![vote(1, 3, true), vote(-1, 5, false)];
    let fields = motion_message("text", &votes, false).unwrap();
    assert_eq!(
        shown(&fields),
        vec![
            line("Motion", "text", false),
            line("Votes", "**against 5**/3 for", false),
            line("18446744073709551615", "5 against", true),
            line("1", "3 for", true),
        ]
    );
    assert_eq!(votes_text(Count { yes: 4, no: 1, pass: true }), "**for 4**/1 against");
    assert!(motion_message("t", &vec![vote(1, i64::MAX, true), vote(2, 1, true)], false).is_none());
}

#[test]
fn at_most_21_voters_are_listed() {
    let count = Count { yes: 0, no: 0, pass: false };
    let some: Vec<MotionVote> = (0..21).map(|i| vote(i, 100 - i, true)).collect();
    assert_eq!(motion_fields("m", count, &some).len(), 23);
    let more: Vec<MotionVote> = (0..22).map(|i| vote(i, 100 - i, true)).collect();
    let fields = shown(&motion_fields("m", count, &more));
    assert_eq!(fields.len(), 24);
    assert_eq!(fields[22], line("20", "80 for", true));
    assert_eq!(
        fields[23],
        line(
            "Note",
            "There are more users that have voted, but there are too many to display here.",
            false
        )
    );
}

#[test]
fn announcements() {
    let votes = vec![vote(1, 7, true), vote(2, 3, false)];
    let a = announcement("text", 572, true, &votes).unwrap();
    assert_eq!(a.title, "Vote ended! Motion #5724 has PASSED.");
    assert_eq!(a.description, Some("text".to_string()));
    assert_eq!(shown(&vec![a.votes]), vec![line("Votes", "**for 7**/3 against", false)]);
    let a = announcement("text", 1, true, &vec![vote(1, 7, true), vote(2, 4, false)]).unwrap();
    assert_eq!(a.title, "Vote ended! Motion #13 has FAILED.");
    assert_eq!(a.description, None);
    assert_eq!(shown(&vec![a.votes]), vec![line("Votes", "**against 4**/7 for", false)]);
    assert!(announcement("t", 1, true, &vec![vote(1, i64::MAX, true), vote(2, 1, false)]).is_none());
}

#[test]
fn other_boxes() {
    assert_eq!(balances_title(), "Your balances:");
    assert_eq!(
        shown(&balances_fields(Some(3), None)),
        vec![line("Generators", "3", false), line("Capital", "0", false)]
    );
    assert_eq!(
        shown(&new_motion_fields(7, "text")),
        vec![
            line("Motion", "text", false),
            line("Votes", "**for 1**/0 against", false),
            line("<@7>", "1 for", true),
        ]
    );
}

#[test]
fn emoji() {
    assert_eq!(special_emoji(690487946054205470), Some(SpecialEmojiAction::Amount(1)));
    assert_eq!(special_emoji(690487945945153557), Some(SpecialEmojiAction::Amount(2)));
    assert_eq!(special_emoji(690487946213589032), Some(SpecialEmojiAction::Amount(5)));
    assert_eq!(special_emoji(690487945701883954), Some(SpecialEmojiAction::Amount(10)));
    assert_eq!(special_emoji(690487945936764969), Some(SpecialEmojiAction::Amount(20)));
    assert_eq!(special_emoji(690487945072869457), Some(SpecialEmojiAction::Amount(50)));
    assert_eq!(special_emoji(690487944552644639), Some(SpecialEmojiAction::Amount(100)));
    assert_eq!(special_emoji(690487968695058432), Some(SpecialEmojiAction::Amount(10)));
    assert_eq!(special_emoji(690487968523223051), Some(SpecialEmojiAction::Amount(1)));
    assert_eq!(special_emoji(691352947820462121), Some(SpecialEmojiAction::Yes));
    assert_eq!(special_emoji(691352948072120380), Some(SpecialEmojiAction::No));
    assert_eq!(special_emoji(1), None);
    let order = reaction_order();
    assert_eq!(order.len(), 11);
    let keys: Vec<i64> = order
        .iter()
        .map(|id| match special_emoji(*id).unwrap() {
            SpecialEmojiAction::Amount(a) => a as i64,
            _ => -1,
        })
        .collect();
    assert_eq!(keys, vec![-1, -1, 1, 1, 2, 5, 10, 10, 20, 50, 100]);
}

#[test]
fn reactions() {
    let yes = reaction_request(5, 9, u64::MAX, Some(691352947820462121)).unwrap();
    assert_eq!(
        yes,
        VoteRequest {
            direction: Some(true),
            count: 1,
            user_id: 5,
            motion_id: None,
            message_id: Some(-1),
            command_message_id: None,
        }
    );
    let no = reaction_request(5, 9, 1, Some(691352948072120380)).unwrap();
    assert_eq!((no.direction, no.count), (Some(false), 1));
    let more = reaction_request(5, 9, 1, Some(690487944552644639)).unwrap();
    assert_eq!((more.direction, more.count), (None, 100));
    assert_eq!(reaction_request(9, 9, 1, Some(691352947820462121)), None);
    assert_eq!(reaction_request(5, 9, 1, Some(3)), None);
    assert_eq!(reaction_request(5, 9, 1, None), None);
}

fn words(list: &[&str]) -> Vec<String> {
    list.iter().map(|w| w.to_string()).collect()
}

#[test]
fn ballots() {
    let read = |list: &[&str]| parse_ballot("5724", &words(list)).unwrap();
    let ballot = |direction, count| Ok(Ballot { motion_id: 572, direction, count });
    assert_eq!(read(&[]), ballot(None, 1));
    assert_eq!(read(&["yes", "3"]), ballot(Some(true), 3));
    assert_eq!(read(&["4", "no"]), ballot(Some(false), 4));
    assert_eq!(read(&["i", "think", "I", "say", "in", "favor", "+2"]), ballot(Some(true), 2));
    assert_eq!(read(&["yes", "no", "1", "2"]), ballot(Some(false), 2));
    assert_eq!(read(&["4294967295"]), ballot(None, 4294967295));
    assert_eq!(read(&["4294967296"]), Err(BallotError::BadWord(IntError::PosOverflow)));
    assert_eq!(read(&["maybe", ""]), Err(BallotError::BadWord(IntError::InvalidDigit)));
    assert_eq!(read(&[""]), Err(BallotError::BadWord(IntError::Empty)));
    assert_eq!(
        parse_ballot("5725", &words(&["maybe"])),
        Some(Err(BallotError::InvalidMotionId))
    );
    assert_eq!(BallotError::InvalidMotionId.message(), "Invalid motion id, please try again.");
    assert_eq!(
        BallotError::BadWord(IntError::InvalidDigit).message(),
        "invalid digit found in string"
    );
    let long = political_capital::damm::add_to_str("9223372036854775808".to_string());
    assert_eq!(parse_ballot(&long, &words(&["maybe"])), None);
    let largest = announced_id(i64::MAX);
    assert_eq!(
        parse_ballot(&largest, &words(&[])),
        Some(Ok(Ballot { motion_id: i64::MAX, direction: None, count: 1 }))
    );
}

#[test]
fn ballot_vocabulary() {
    for w in [
        "favor", "for", "approve", "yes", "y", "aye", "yeah", "yeah!", "\u{1ff4d}", ":+1:",
        ":thumbsup:", "\u{1f646}", ":ok_woman:", "\u{2b55}", ":o:", "\u{1f44c}", ":ok_hand:",
        "\u{1f197}", ":ok:", "\u{2705}", "pass",
    ] {
        assert_eq!(parse_ballot_words(&words(&[w])), Ok((Some(true), None)));
    }
    for w in [
        "neigh", "fail", "no", "against", "nay", "no, asshole", "no, you wanker", "no, cunt",
        "negative", "never", "negatory", "veto", "\u{1f44e}", "deny", ":-1:", ":thumbsdown:",
        ".i na go'i", "\u{1f645}", ":no_good:", "\u{274C}", "\u{1f196}", ":ng:",
    ] {
        assert_eq!(parse_ballot_words(&words(&[w])), Ok((Some(false), None)));
    }
    for w in ["in", "i", "I", "think", "say", "fuck"] {
        assert_eq!(parse_ballot_words(&words(&[w])), Ok((None, None)));
    }
    assert_eq!(parse_ballot_words(&words(&["YES"])), Err(IntError::InvalidDigit));
}

fn request(direction: Option<bool>, count: i64) -> VoteRequest {
    ballot_request(Ballot { motion_id: 572, direction, count }, 5, 6)
}

fn motion(open: bool, is_super: bool) -> FoundMotion {
    FoundMotion { id: 572, open, is_super, message_id: 88 }
}

fn run(request: &VoteRequest, events: Vec<VoteEvent>) -> (VoteStage, VoteAction) {
    let (mut stage, mut action) = start(request);
    for event in &events {
        let (s, a) = step(request, stage, event).unwrap();
        stage = s;
        action = a;
    }
    (stage, action)
}

#[test]
fn sessions_start_with_the_motion() {
    let r = request(Some(true), 2);
    assert_eq!(
        start(&r),
        (VoteStage::FindingMotion, VoteAction::FindMotion { id: 572, message_id: -1 })
    );
    let reaction = reaction_request(5, 9, 88, Some(691352947820462121)).unwrap();
    assert_eq!(start(&reaction).1, VoteAction::FindMotion { id: -1, message_id: 88 });
}

#[test]
fn votes_are_refused() {
    let yes = request(Some(true), 1);
    let open = || VoteEvent::Motion(Some(motion(true, false)));
    let fails = |r: &VoteRequest, events, why: VoteFailure| {
        assert_eq!(run(r, events), (VoteStage::Finished, VoteAction::Fail(why)));
    };
    fails(&yes, vec![VoteEvent::Motion(None)], VoteFailure::MotionNotFound);
    fails(
        &yes,
        vec![VoteEvent::Motion(Some(motion(false, false)))],
        VoteFailure::MotionExpired,
    );
    fails(
        &yes,
        vec![open(), VoteEvent::Vote(Some(RecordedVote { direction: false, amount: 1 }))],
        VoteFailure::CannotChange,
    );
    fails(
        &request(None, 1),
        vec![open(), VoteEvent::Vote(None)],
        VoteFailure::DirectionMissing,
    );
    fails(
        &yes,
        vec![
            open(),
            VoteEvent::Vote(Some(RecordedVote { direction: true, amount: 1 })),
            VoteEvent::Costs(vec![42]),
            VoteEvent::Balance(Some(41)),
        ],
        VoteFailure::NotEnoughCapital,
    );
    fails(
        &yes,
        vec![
            open(),
            VoteEvent::Vote(Some(RecordedVote { direction: true, amount: 1 })),
            VoteEvent::Costs(vec![42]),
            VoteEvent::Balance(None),
        ],
        VoteFailure::NotEnoughCapital,
    );
    assert!(step(&yes, VoteStage::Finished, &VoteEvent::Motion(None)).is_none());
    assert_eq!(VoteFailure::MotionNotFound.message(), "Motion not found.");
    assert_eq!(VoteFailure::MotionExpired.message(), "Motion has expired.");
    assert_eq!(VoteFailure::CannotChange.message(), "You cannot change your vote.");
    assert_eq!(
        VoteFailure::DirectionMissing.message(),
        "You must specify how you want to vote!"
    );
    assert_eq!(VoteFailure::NotEnoughCapital.message(), "Not enough capital.");
}

#[test]
fn a_voter_adds_votes() {
    let r = request(None, 3);
    let recorded = RecordedVote { direction: false, amount: 10 };
    let mut events = vec![
        VoteEvent::Motion(Some(motion(true, false))),
        VoteEvent::Vote(Some(recorded)),
    ];
    assert_eq!(run(&r, events).1, VoteAction::Price { first: 11, end: 14 });
    events = vec![
        VoteEvent::Motion(Some(motion(true, false))),
        VoteEvent::Vote(Some(recorded)),
        VoteEvent::Costs(vec![65, 68, 71]),
    ];
    assert_eq!(run(&r, events).1, VoteAction::ReadBalance { user: 5 });
    events = vec![
        VoteEvent::Motion(Some(motion(true, false))),
        VoteEvent::Vote(Some(recorded)),
        VoteEvent::Costs(vec![65, 68, 71]),
        VoteEvent::Balance(Some(204)),
    ];
    match run(&r, events).1 {
        VoteAction::Pay(t) => {
            assert_eq!(t.ty, ItemType::PoliticalCapital);
            assert_eq!((t.quantity, t.from_user, t.from_balance), (204, Some(5), Some(0)));
            assert_eq!((t.to_user, t.to_balance, t.from_gen), (None, None, false));
            assert_eq!((t.message_id, t.to_motion, t.to_votes), (Some(6), Some(572), Some(3)));
        }
        other => panic!("{:?}", other),
    }
    events = vec![
        VoteEvent::Motion(Some(motion(true, false))),
        VoteEvent::Vote(Some(recorded)),
        VoteEvent::Costs(vec![65, 68, 71]),
        VoteEvent::Balance(Some(204)),
        VoteEvent::Totals { yes: 12, no: 10 },
    ];
    let cast = CastVote {
        motion_id: 572,
        user_id: 5,
        amount: 13,
        result_changed: true,
        message_id: 88,
        count: 3,
        first: 11,
        end: 14,
        cost: 204,
    };
    assert_eq!(run(&r, events), (VoteStage::Finished, VoteAction::Finish(cast)));
    assert_eq!(
        cast.reply(),
        "Voted on motion #572 3 times, 11th to 14th, costing 204 capital"
    );
}

#[test]
fn a_new_voter_votes() {
    let r = request(Some(true), 1);
    let events = vec![VoteEvent::Motion(Some(motion(true, true))), VoteEvent::Vote(None)];
    assert_eq!(
        run(&r, events).1,
        VoteAction::InsertVote { motion: 572, user: 5, direction: true }
    );
    let events = vec![
        VoteEvent::Motion(Some(motion(true, true))),
        VoteEvent::Vote(None),
        VoteEvent::Vote(Some(RecordedVote { direction: true, amount: 0 })),
        VoteEvent::Costs(vec![40]),
        VoteEvent::Balance(Some(100)),
        VoteEvent::Totals { yes: 3, no: 2 },
    ];
    match run(&r, events) {
        (VoteStage::Finished, VoteAction::Finish(cast)) => {
            assert_eq!((cast.amount, cast.result_changed), (1, false));
            assert_eq!(
                cast.reply(),
                "Voted on motion #572 1 times, 1st to 2nd, costing 40 capital"
            );
        }
        other => panic!("{:?}", other),
    }
}

#[test]
fn ordinals_in_replies() {
    let reply = |first, end| {
        CastVote {
            motion_id: -1,
            user_id: 0,
            amount: 0,
            result_changed: false,
            message_id: 0,
            count: 0,
            first,
            end,
            cost: 0,
        }
        .reply()
    };
    assert_eq!(reply(3, 11), "Voted on motion #-1 0 times, 3rd to 11th, costing 0 capital");
    assert_eq!(reply(12, 13), "Voted on motion #-1 0 times, 12th to 13th, costing 0 capital");
    assert_eq!(reply(21, 112), "Voted on motion #-1 0 times, 21st to 112th, costing 0 capital");
    assert_eq!(reply(-2, i64::MIN), "Voted on motion #-1 0 times, -2nd to -9223372036854775808th, costing 0 capital");
}

#[test]
fn steps_that_do_not_exist() {
    let r = request(Some(true), 2);
    let (stage, _) = start(&r);
    assert!(step(&r, stage, &VoteEvent::Balance(None)).is_none());
    let m = motion(true, true);
    let recorded = RecordedVote { direction: true, amount: 0 };
    let pricing = VoteStage::Pricing { motion: m, recorded };
    assert!(step(&r, pricing, &VoteEvent::Costs(vec![40])).is_none());
    assert!(step(&r, pricing, &VoteEvent::Costs(vec![i64::MAX, 1])).is_none());
    let full = RecordedVote { direction: true, amount: i64::MAX };
    assert!(step(&r, VoteStage::FindingVote { motion: m }, &VoteEvent::Vote(Some(full))).is_none());
    assert!(step(&r, VoteStage::ReadingVote { motion: m }, &VoteEvent::Vote(None)).is_none());
    let totals = VoteStage::ReadingTotals { motion: m, recorded, cost: 1 };
    assert!(step(&r, totals, &VoteEvent::Totals { yes: i64::MAX - 1, no: 0 }).is_none());
    assert!(step(&r, totals, &VoteEvent::Totals { yes: i64::MAX - 2, no: 1 }).is_none());
}

#[test]
fn generations() {
    let at = |secs, nanos| Moment { secs, nanos };
    assert!(generation_due(at(130, 5), at(100, 5)));
    assert!(!generation_due(at(130, 4), at(100, 5)));
    assert!(generation_due(at(131, 4), at(100, 5)));
    assert!(!generation_due(at(0, 0), at(100, 5)));
    assert!(generation_due(at(29, 999_999_999), at(-1, 999_999_999)));
    assert!(!generation_due(at(29, 999_999_998), at(-1, 999_999_999)));
    assert!(generation_due(at(LAST_SECOND, 0), at(FIRST_SECOND, 999_999_999)));
    assert!(!generation_due(at(FIRST_SECOND, 0), at(LAST_SECOND, 0)));
    assert_eq!(next_generation(at(100, 5)), at(130, 5));
    assert_eq!(next_generation(at(-10, 5)), at(20, 5));
    assert_eq!(next_generation(at(FIRST_SECOND, 0)), at(FIRST_SECOND + 30, 0));
    assert_eq!(next_generation(at(LAST_SECOND - 30, 7)), at(LAST_SECOND, 7));
}

#[test]
fn missed_generations_are_made_up() {
    let now = Moment { secs: 1000 + 95, nanos: 0 };
    let mut last = Moment { secs: 1000, nanos: 0 };
    let mut count = 0;
    while generation_due(now, last) {
        last = next_generation(last);
        count += 1;
    }
    assert_eq!(count, 3);
}

#[test]
fn expiration() {
    let at = |secs, nanos| Moment { secs, nanos };
    assert_eq!(expiration_cutoff(at(10000, 9)), at(8800, 9));
    assert_eq!(expiration_cutoff(at(FIRST_SECOND + 1200, 0)), at(FIRST_SECOND, 0));
    assert_eq!(expiration_cutoff(at(LAST_SECOND, 1)), at(LAST_SECOND - 1200, 1));
}
