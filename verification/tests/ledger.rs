use political_capital::embed::motion_call;
use political_capital::give::{
    give_reply, lock_order, parse_give, plan_give, GiveError, GiveOutcome,
};
use political_capital::item::ItemType;
use political_capital::ledger::{
    balance_or_zero, parse_fabricate, plan_fabricate, plan_payout, FabricateError, Transfer,
};
use political_capital::motion::{check_capital, motion_records};
use political_capital::number::IntError;
use political_capital::user::user_ping;

fn words(list: &[&str]) -> Vec<String> {
    list.iter().map(|w| w.to_string()).collect()
}

fn give(list: &[&str]) -> Result<(u64, ItemType), GiveError> {
    parse_give(&words(list))
}

#[test]
fn amount_and_kind_in_any_order() {
    let expected = Ok((10, ItemType::PoliticalCapital));
    assert_eq!(give(&["10", "pc"]), expected);
    assert_eq!(give(&["pc", "10"]), expected);
    assert_eq!(give(&["10pc"]), expected);
    assert_eq!(give(&["3", "g", "10", "capital"]), expected);
    assert_eq!(give(&["3gens"]), Ok((3, ItemType::Generator)));
    assert_eq!(give(&["18446744073709551615g"]), Ok((u64::MAX, ItemType::Generator)));
}

#[test]
fn give_errors() {
    assert_eq!(give(&["x10"]), Err(GiveError::InvalidItemType("x10".to_string())));
    assert_eq!(give(&["10x"]), Err(GiveError::UnrecognizedItemType("x".to_string())));
    assert_eq!(give(&["18446744073709551616", "pc"]), Err(GiveError::BadCount(IntError::PosOverflow)));
    assert_eq!(give(&["18446744073709551616pc"]), Err(GiveError::BadCount(IntError::PosOverflow)));
    assert_eq!(give(&[""]), Err(GiveError::BadCount(IntError::Empty)));
    assert_eq!(give(&["pc"]), Err(GiveError::AmountMissing));
    assert_eq!(give(&[]), Err(GiveError::AmountMissing));
    assert_eq!(give(&["10"]), Err(GiveError::TypeMissing));
    assert_eq!(give(&["10", "+5"]), Err(GiveError::InvalidItemType("+5".to_string())));
    assert_eq!(give(&["x", "10y"]), Err(GiveError::InvalidItemType("x".to_string())));

    let text = |list: &[&str]| give(list).unwrap_err().message();
    assert_eq!(text(&["x10"]), "Invalid item type x10");
    assert_eq!(text(&["10\u{2b55}x"]), "Unrecognized item type \u{2b55}x");
    assert_eq!(text(&["99999999999999999999"]), "Bad count ParseIntError { kind: PosOverflow }");
    assert_eq!(text(&["pc"]), "Amount not provided.");
    assert_eq!(text(&["10"]), "Type not provided.");
}

#[test]
fn gifts_move_balances() {
    assert_eq!(lock_order(5, 9), (5, 9));
    assert_eq!(lock_order(9, 5), (5, 9));
    let done = plan_give(9, 5, ItemType::Generator, 30, Some(7), Some(100), 77).unwrap();
    assert_eq!(
        done,
        GiveOutcome::Done(Transfer {
            ty: ItemType::Generator,
            quantity: 30,
            from_user: Some(9),
            from_balance: Some(70),
            to_user: Some(5),
            to_balance: Some(37),
            from_gen: false,
            message_id: Some(77),
            to_motion: None,
            to_votes: None,
        })
    );
    match plan_give(5, 9, ItemType::Generator, 7, Some(7), None, 77).unwrap() {
        GiveOutcome::Done(t) => {
            assert_eq!(t.from_balance, Some(0));
            assert_eq!(t.to_balance, Some(7));
        }
        GiveOutcome::Insufficient => panic!(),
    }
    match plan_give(5, 5, ItemType::Generator, 7, Some(8), Some(8), 77).unwrap() {
        GiveOutcome::Done(t) => {
            assert_eq!(t.from_balance, Some(8));
            assert_eq!(t.to_balance, Some(8));
        }
        GiveOutcome::Insufficient => panic!(),
    }
}

#[test]
fn gifts_are_refused() {
    assert_eq!(
        plan_give(5, 9, ItemType::Generator, 8, Some(7), Some(100), 77),
        Some(GiveOutcome::Insufficient)
    );
    assert_eq!(
        plan_give(5, 9, ItemType::Generator, 1, None, Some(100), 77),
        Some(GiveOutcome::Insufficient)
    );
    assert_eq!(plan_give(5, 9, ItemType::Generator, 1, Some(1), Some(i64::MAX), 77), None);
    assert_eq!(plan_give(5, 9, ItemType::Generator, 1 << 63, Some(0), Some(0), 77), None);
}

#[test]
fn amounts_of_more_than_63_bits_count_as_negative() {
    match plan_give(5, 9, ItemType::Generator, u64::MAX, Some(10), Some(20), 77).unwrap() {
        GiveOutcome::Done(t) => {
            assert_eq!(t.quantity, -1);
            assert_eq!(t.from_balance, Some(11));
            assert_eq!(t.to_balance, Some(19));
        }
        GiveOutcome::Insufficient => panic!(),
    }
}

#[test]
fn gift_replies() {
    let done = plan_give(5, 9, ItemType::Generator, 7, Some(7), None, 1).unwrap();
    assert_eq!(
        give_reply(done, 7, ItemType::Generator, 9),
        "Successfully transferred 7 generator(s) to <@9>."
    );
    assert_eq!(
        give_reply(done, 7, ItemType::PoliticalCapital, u64::MAX),
        "Successfully transferred 7 political capital to <@18446744073709551615>."
    );
    assert_eq!(
        give_reply(GiveOutcome::Insufficient, 7, ItemType::Generator, 9),
        "Insufficient balance."
    );
}

#[test]
fn fabrication() {
    assert_eq!(parse_fabricate("gen", "5"), Ok((ItemType::Generator, 5)));
    assert_eq!(parse_fabricate("pc", "+5"), Ok((ItemType::PoliticalCapital, 5)));
    assert_eq!(parse_fabricate("x", "y"), Err(FabricateError::UnrecognizedType));
    assert_eq!(parse_fabricate("pc", "y"), Err(FabricateError::BadCount(IntError::InvalidDigit)));
    assert_eq!(parse_fabricate("pc", "0"), Err(FabricateError::NotPositive));
    assert_eq!(parse_fabricate("pc", "-5"), Err(FabricateError::NotPositive));
    assert_eq!(FabricateError::UnrecognizedType.message(), "Unrecognized type");
    assert_eq!(FabricateError::NotPositive.message(), "fuck");
    assert_eq!(
        FabricateError::BadCount(IntError::InvalidDigit).message(),
        "ArgError(\"invalid digit found in string\")"
    );
    let t = plan_fabricate(3, ItemType::Generator, Some(4), 5, 8).unwrap();
    assert_eq!(
        t,
        Transfer {
            ty: ItemType::Generator,
            quantity: 5,
            from_user: None,
            from_balance: None,
            to_user: Some(3),
            to_balance: Some(9),
            from_gen: false,
            message_id: Some(8),
            to_motion: None,
            to_votes: None,
        }
    );
    assert_eq!(plan_fabricate(3, ItemType::Generator, None, 5, 8).unwrap().to_balance, Some(5));
    assert_eq!(plan_fabricate(3, ItemType::Generator, Some(i64::MAX), 1, 8), None);
}

#[test]
fn payouts() {
    let t = plan_payout(-3, Some(4), Some(10)).unwrap();
    assert_eq!(
        t,
        Transfer {
            ty: ItemType::PoliticalCapital,
            quantity: 4,
            from_user: None,
            from_balance: None,
            to_user: Some(-3),
            to_balance: Some(14),
            from_gen: true,
            message_id: None,
            to_motion: None,
            to_votes: None,
        }
    );
    assert_eq!(plan_payout(1, None, None).unwrap().to_balance, Some(0));
    assert_eq!(plan_payout(1, Some(1), Some(i64::MAX)), None);
    assert_eq!(balance_or_zero(None), 0);
    assert_eq!(balance_or_zero(Some(-4)), -4);
}

#[test]
fn calling_motions() {
    assert_eq!(check_capital(39), Err("You don't have enough capital."));
    assert_eq!(check_capital(40), Ok(()));
    let r = motion_records(5, 6, u64::MAX, 8, true, 41);
    assert_eq!((r.motion.id, r.motion.command_message_id), (8, 6));
    assert_eq!((r.motion.bot_message_id, r.motion.is_super), (-1, true));
    assert_eq!((r.vote.user, r.vote.amount, r.vote.direction), (5, 1, true));
    assert_eq!((r.fee.quantity, r.fee.from_balance), (40, Some(41)));
    assert_eq!((r.fee.from_user, r.fee.message_id), (Some(5), Some(6)));
    assert_eq!(r.fee.ty, ItemType::PoliticalCapital);
    assert_eq!(
        motion_call(123, 572),
        "A motion has been called by <@123>\n`$vote 5724` to vote!"
    );
}

#[test]
fn mentions_read_back() {
    for user in [0, 5, u64::MAX] {
        let text = motion_call(user, 1);
        let mention = text.split(' ').nth(6).unwrap().split('\n').next().unwrap();
        assert_eq!(user_ping(mention), Some(user));
    }
}
