use user_api::json::encode_error_body;
use user_api::json::encode_new_user;
use user_api::json::encode_user;
use user_api::json::encode_users;
use user_api::json::parse_new_user;
use user_api::json::parse_u64;
use user_api::json::parse_user;
use user_api::json::u64_to_string;
use user_api::user::NewUser;
use user_api::user::User;

#[test]
fn encode_user_is_exact() {
    let u = User::new(7, "x@y.zz".to_string());
    assert_eq!("{\"id\":7,\"email\":\"x@y.zz\"}", encode_user(&u));
}

#[test]
fn encode_new_user_is_exact() {
    let nu = NewUser::new("a@b.com".to_string());
    assert_eq!("{\"email\":\"a@b.com\"}", encode_new_user(&nu));
}

#[test]
fn encode_error_body_is_exact() {
    assert_eq!("{\"error\":\"boom\"}", encode_error_body("boom"));
}

#[test]
fn encode_escapes_quotes_and_backslashes() {
    let u = User::new(1, "a\"b\\c".to_string());
    assert_eq!("{\"id\":1,\"email\":\"a\\\"b\\\\c\"}", encode_user(&u));
}

#[test]
fn user_round_trip() {
    let u = User::new(42, "quo\"te\\and\\\"both".to_string());
    let parsed = parse_user(&encode_user(&u)).unwrap();
    assert_eq!(u, parsed);
}

#[test]
fn new_user_round_trip() {
    let body = encode_new_user(&NewUser::new("weird \\\" mail".to_string()));
    let parsed = parse_new_user(&body).unwrap();
    assert_eq!("weird \\\" mail", parsed.email);
}

#[test]
fn parse_user_accepts_only_the_canonical_spelling() {
    assert!(parse_user("{\"id\":1,\"email\":\"a@b.com\"}").is_some());
    // whitespace, reordered fields, or other keys are not user bodies
    assert!(parse_user("{\"id\": 1,\"email\":\"a@b.com\"}").is_none());
    assert!(parse_user("{\"email\":\"a@b.com\",\"id\":1}").is_none());
    assert!(parse_user("{\"error\":\"User 9 Not Found\"}").is_none());
    assert!(parse_user("").is_none());
    assert!(parse_user("{\"id\":,\"email\":\"a\"}").is_none());
    assert!(parse_user("{\"id\":01,\"email\":\"a\"}").is_none());
    assert!(parse_user("{\"id\":1,\"email\":\"a\"}x").is_none());
    assert!(parse_user("{\"id\":1,\"email\":\"a").is_none());
    assert!(parse_user("{\"id\":1,\"email\":\"a\\x\"}").is_none());
    // one past u64::MAX
    assert!(parse_user("{\"id\":18446744073709551616,\"email\":\"a\"}").is_none());
    assert!(parse_user("{\"id\":18446744073709551615,\"email\":\"a\"}").is_some());
}

#[test]
fn parse_new_user_rejects_other_bodies() {
    assert!(parse_new_user("{\"email\":\"a@b.com\"}").is_some());
    assert!(parse_new_user("{\"id\":1,\"email\":\"a@b.com\"}").is_none());
    assert!(parse_new_user("{\"email\":\"a@b.com\" }").is_none());
    assert!(parse_new_user("{\"email\":\"a@b.com\"").is_none());
}

#[test]
fn encode_users_lists() {
    assert_eq!("[]", encode_users(&Vec::new()));
    let users = vec![User::new(1, "a@b.cd".to_string()), User::new(2, "e@f.gh".to_string())];
    assert_eq!("[{\"id\":1,\"email\":\"a@b.cd\"},{\"id\":2,\"email\":\"e@f.gh\"}]", encode_users(&users));
}

#[test]
fn u64_to_string_spells_decimals() {
    assert_eq!("0", u64_to_string(0));
    assert_eq!("10", u64_to_string(10));
    assert_eq!("18446744073709551615", u64_to_string(u64::MAX));
}

#[test]
fn parse_u64_reads_digit_strings() {
    assert_eq!(Some(0), parse_u64("0"));
    assert_eq!(Some(7), parse_u64("007"));
    assert_eq!(Some(u64::MAX), parse_u64("18446744073709551615"));
    assert_eq!(None, parse_u64("18446744073709551616"));
    assert_eq!(None, parse_u64(""));
    assert_eq!(None, parse_u64("12a"));
    assert_eq!(None, parse_u64("-1"));
}
