use political_capital::damm::{add_to_str, announced_id, number_from_digits, validate};
use political_capital::ids::{from_stored, stored_user_text, to_stored};
use political_capital::item::{is_gen_name, is_pc_name, ItemType};
use political_capital::number::{parse_i64, parse_u16, parse_u32, parse_u64, IntError};
use political_capital::text::{
    chars_of, i64_text, push_digit, push_i64, push_u64, same_ignoring_case, same_text, u64_text,
};

#[test]
fn numerals() {
    for n in [0i64, 7, 10, 99, 100, -1, -10, 1234567890, i64::MAX, i64::MIN] {
        assert_eq!(i64_text(n), format!("{}", n));
    }
    for n in [0u64, 9, 10, 1000, u64::MAX] {
        assert_eq!(u64_text(n), format!("{}", n));
    }
    let mut out = String::from("n=");
    push_u64(&mut out, 42);
    push_digit(&mut out, 7);
    push_i64(&mut out, -3);
    assert_eq!(out, "n=427-3");
}

#[test]
fn text_comparison() {
    assert_eq!(chars_of("a\u{2b55}b"), vec!['a', '\u{2b55}', 'b']);
    assert!(same_text("vote", "vote"));
    assert!(!same_text("vote", "Vote"));
    assert!(same_ignoring_case("Zoe z\u{e9}", "zOE Z\u{e9}"));
    assert!(!same_ignoring_case("\u{e9}", "\u{c9}"));
    assert!(!same_ignoring_case("ab", "abc"));
    assert!(!same_ignoring_case("@", "`"));
}

fn kind(text: &str) -> String {
    format!("{:?}", text)
}

#[test]
fn integers_are_read_as_by_the_standard_library() {
    let words = [
        "", "+", "-", "0", "007", "+5", "-5", "--5", "+-5", "5-", " 5", "5 ", "x", "5x", "65535",
        "65536", "9999", "4294967295", "4294967296", "18446744073709551615",
        "18446744073709551616", "9223372036854775807", "9223372036854775808",
        "-9223372036854775808", "-9223372036854775809", "99999999999999999999999x",
        "1x99999999999999999999999", "\u{664}\u{665}", "-0", "+0", "-x", "999999999999999999999999",
    ];
    for w in words {
        let s: Result<u64, _> = w.parse();
        match (parse_u64(w), s) {
            (Ok(a), Ok(b)) => assert_eq!(a, b),
            (Err(a), Err(b)) => {
                assert_eq!(a.message(), b.to_string(), "{}", kind(w));
                assert_eq!(a.debug_text(), format!("{:?}", b));
            }
            other => panic!("{} {:?}", w, other),
        }
        let s: Result<u32, _> = w.parse();
        match (parse_u32(w), s) {
            (Ok(a), Ok(b)) => assert_eq!(a, b),
            (Err(a), Err(b)) => assert_eq!(a.message(), b.to_string(), "{}", kind(w)),
            other => panic!("{} {:?}", w, other),
        }
        let s: Result<u16, _> = w.parse();
        match (parse_u16(w), s) {
            (Ok(a), Ok(b)) => assert_eq!(a, b),
            (Err(a), Err(b)) => assert_eq!(a.message(), b.to_string(), "{}", kind(w)),
            other => panic!("{} {:?}", w, other),
        }
        let s: Result<i64, _> = w.parse();
        match (parse_i64(w), s) {
            (Ok(a), Ok(b)) => assert_eq!(a, b),
            (Err(a), Err(b)) => {
                assert_eq!(a.message(), b.to_string(), "{}", kind(w));
                assert_eq!(a.debug_text(), format!("{:?}", b));
            }
            other => panic!("{} {:?}", w, other),
        }
    }
}

#[test]
fn integer_errors() {
    assert_eq!(parse_u64(""), Err(IntError::Empty));
    assert_eq!(parse_u64("-1"), Err(IntError::InvalidDigit));
    assert_eq!(parse_u64("18446744073709551616"), Err(IntError::PosOverflow));
    assert_eq!(parse_i64("-9223372036854775809"), Err(IntError::NegOverflow));
    assert_eq!(parse_i64("-9223372036854775808"), Ok(i64::MIN));
}

#[test]
fn check_digits() {
    assert_eq!(add_to_str("572".to_string()), "5724");
    assert_eq!(add_to_str("1".to_string()), "13");
    assert_eq!(add_to_str("".to_string()), "0");
    assert_eq!(validate("5724"), Some(vec![5, 7, 2]));
    assert_eq!(validate("5727"), None);
    assert_eq!(validate(""), None);
    assert_eq!(validate("57a4"), None);
    assert_eq!(validate("0"), Some(vec![]));
    assert_eq!(number_from_digits(&vec![5, 7, 2]), Some(572));
    assert_eq!(number_from_digits(&vec![]), Some(0));
    assert_eq!(number_from_digits(&vec![9; 19]), None);
    assert_eq!(
        number_from_digits(&vec![9, 2, 2, 3, 3, 7, 2, 0, 3, 6, 8, 5, 4, 7, 7, 5, 8, 0, 7]),
        Some(i64::MAX)
    );
    assert_eq!(
        number_from_digits(&vec![9, 2, 2, 3, 3, 7, 2, 0, 3, 6, 8, 5, 4, 7, 7, 5, 8, 0, 8]),
        None
    );
}

#[test]
fn announced_ids_read_back() {
    for id in [0i64, 1, 9, 10, 572, 123456, i64::MAX] {
        let digits = validate(&announced_id(id)).unwrap();
        assert_eq!(number_from_digits(&digits), Some(id));
    }
}

#[test]
fn mistyped_ids_are_noticed() {
    let good: Vec<char> = announced_id(120934857).chars().collect();
    for i in 0..good.len() {
        for c in '0'..='9' {
            if c != good[i] {
                let mut bad = good.clone();
                bad[i] = c;
                let text: String = bad.into_iter().collect();
                assert_eq!(validate(&text), None);
            }
        }
        if i + 1 < good.len() && good[i] != good[i + 1] {
            let mut bad = good.clone();
            bad.swap(i, i + 1);
            let text: String = bad.into_iter().collect();
            assert_eq!(validate(&text), None);
        }
    }
}

#[test]
fn identifiers_survive_storage() {
    assert_eq!(to_stored(5), 5);
    assert_eq!(to_stored(u64::MAX), -1);
    assert_eq!(to_stored(1 << 63), i64::MIN);
    assert_eq!(from_stored(-1), u64::MAX);
    for id in [0, 1, u64::MAX, 1 << 63, 690487946054205470] {
        assert_eq!(from_stored(to_stored(id)), id);
    }
    assert_eq!(stored_user_text(-1), "18446744073709551615");
    assert_eq!(stored_user_text(42), "42");
}

#[test]
fn item_names() {
    assert_eq!(ItemType::PoliticalCapital.db_name(), "pc");
    assert_eq!(ItemType::Generator.db_name(), "gen");
    assert_eq!(ItemType::PoliticalCapital.label(), "political capital");
    assert_eq!(ItemType::Generator.label(), "generator(s)");
    for name in ["pc", "politicalcapital", "political-capital", "capital"] {
        assert!(is_pc_name(name) && !is_gen_name(name));
        assert_eq!(ItemType::from_name(name), Some(ItemType::PoliticalCapital));
    }
    for name in ["gen", "g", "generator", "generators", "gens"] {
        assert!(is_gen_name(name) && !is_pc_name(name));
        assert_eq!(ItemType::from_name(name), Some(ItemType::Generator));
    }
    assert_eq!(ItemType::from_name("PC"), None);
    assert_eq!(ItemType::from_name(""), None);
}
