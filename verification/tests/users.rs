use political_capital::give::recipient;
use political_capital::user::{known_user, user_ping, CachedUser, Member, UserId};

fn users() -> Vec<CachedUser> {
    vec![
        CachedUser { id: 11, discriminator: 1234, name: "Ada".to_string() },
        CachedUser { id: 12, discriminator: 7, name: "ada".to_string() },
        CachedUser { id: 13, discriminator: 7, name: "a#b".to_string() },
        CachedUser { id: 14, discriminator: 20000, name: "far".to_string() },
    ]
}

fn members() -> Vec<Member> {
    vec![
        Member { id: 21, name: "Grace".to_string(), nick: None },
        Member { id: 22, name: "other".to_string(), nick: Some("GRACE".to_string()) },
        Member { id: 23, name: "linus".to_string(), nick: Some("penguin".to_string()) },
    ]
}

fn find(arg: &str) -> Result<u64, &'static str> {
    UserId::from_command_args(UserId(99), arg, &users(), &members()).map(|u| u.0)
}

#[test]
fn author_is_meant() {
    assert_eq!(find("."), Ok(99));
    assert_eq!(find("self"), Ok(99));
    assert_eq!(find("Self"), Err("Could not find any User."));
}

#[test]
fn numbers_and_mentions() {
    assert_eq!(find("7"), Ok(7));
    assert_eq!(find("+7"), Ok(7));
    assert_eq!(find("18446744073709551615"), Ok(u64::MAX));
    assert_eq!(find("<@7>"), Ok(7));
    assert_eq!(find("<@!7>"), Ok(7));
    assert_eq!(find("  <@!0042>\n\t"), Ok(42));
    assert_eq!(find("\u{3000}<@7>\u{a0}"), Ok(7));
    assert_eq!(find("<@>"), Err("Could not find any User."));
    assert_eq!(find("<@+7>"), Err("Could not find any User."));
    assert_eq!(find("<@&7>"), Err("Could not find any User."));
    assert_eq!(find("x<@7>"), Err("Could not find any User."));
    assert_eq!(find("<@7>x"), Err("Could not find any User."));
    assert_eq!(find("<@18446744073709551616>"), Err("Could not find any User."));
    assert_eq!(find("<@\u{664}>"), Err("Could not find any User."));
}

#[test]
fn mention_parts() {
    assert_eq!(user_ping("<@123>"), Some(123));
    assert_eq!(user_ping("123"), None);
    assert_eq!(user_ping("<@ 123>"), None);
    assert_eq!(user_ping("<@!!1>"), None);
    assert_eq!(user_ping(""), None);
}

#[test]
fn every_white_space_is_allowed_around_a_mention() {
    for code in 0..=0x10ffffu32 {
        if let Some(c) = char::from_u32(code) {
            let expected = c.is_whitespace();
            if expected || code < 0x100 || (0x1600..0x1900).contains(&code) || (0x2000..0x2100).contains(&code) {
                let text = format!("{}<@5>", c);
                assert_eq!(user_ping(&text).is_some(), expected, "{:x}", code);
            }
        }
    }
}

#[test]
fn tagged_names() {
    assert_eq!(find("ada#1234"), Ok(11));
    assert_eq!(find("ADA#0007"), Ok(12));
    assert_eq!(find("A#B#7"), Ok(13));
    assert_eq!(find("ada#8"), Err("Could not find any User."));
    assert_eq!(find("far#20000"), Err("Could not find any User."));
    assert_eq!(find("ada#"), Err("Could not find any User."));
    assert_eq!(find("ada#70000"), Err("Could not find any User."));
}

#[test]
fn member_names() {
    assert_eq!(find("grace"), Ok(21));
    assert_eq!(find("OTHER"), Ok(22));
    assert_eq!(find("Penguin"), Ok(23));
    assert_eq!(find("Linus"), Ok(23));
    assert_eq!(find("ada"), Err("Could not find any User."));
}

#[test]
fn recipients_have_to_be_known() {
    let r = |arg: &str| recipient(UserId(11), arg, &users(), &members()).map(|u| u.0);
    assert_eq!(r("12"), Ok(12));
    assert_eq!(r("."), Ok(11));
    assert_eq!(r("77"), Err("User not found"));
    assert_eq!(r("grace"), Err("User not found"));
    assert_eq!(r("nobody"), Err("Could not find any User."));
    assert!(known_user(&users(), 14));
    assert!(!known_user(&users(), 15));
    assert!(!known_user(&vec![], 14));
}
