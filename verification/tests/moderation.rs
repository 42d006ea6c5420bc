use fetish_common::media::{largest_photo, PhotoSize};
use fetish_common::moderation::{
    contains_bytes, is_scam_message, judge_sender, mentions_keyword, scammer_query, SenderVerdict,
};

const ME: i64 = 1_000;
const GROUP: i64 = -100_123;
const PRIVATE: i64 = 555;
const KEYWORDS: &str = r#"["BITCOIN", "CLICK HERE", "ETUDE"]"#;

fn size(width: i32, height: i32) -> PhotoSize {
    PhotoSize { width, height }
}

#[test]
fn only_other_users_in_groups_are_looked_up() {
    assert_eq!(scammer_query(GROUP, Some(7), ME), Some(7));
    assert_eq!(scammer_query(GROUP, Some(ME), ME), None);
    assert_eq!(scammer_query(GROUP, None, ME), None);
    assert_eq!(scammer_query(PRIVATE, Some(7), ME), None);
    assert_eq!(scammer_query(0, Some(7), ME), None);
    assert_eq!(scammer_query(-1, Some(7), ME), Some(7));
}

#[test]
fn private_chats_are_left_alone() {
    assert_eq!(judge_sender(PRIVATE, Some(7), ME, true), SenderVerdict::Ignore);
    assert_eq!(judge_sender(0, Some(7), ME, false), SenderVerdict::Ignore);
    assert_eq!(judge_sender(PRIVATE, None, ME, false), SenderVerdict::Ignore);
}

#[test]
fn own_messages_are_left_alone() {
    assert_eq!(judge_sender(GROUP, Some(ME), ME, false), SenderVerdict::Ignore);
    assert_eq!(judge_sender(GROUP, Some(ME), ME, true), SenderVerdict::Ignore);
}

#[test]
fn known_scammers_are_sanctioned() {
    assert_eq!(judge_sender(GROUP, Some(7), ME, true), SenderVerdict::Sanction);
    assert_eq!(judge_sender(-1, Some(7), ME, true), SenderVerdict::Sanction);
}

#[test]
fn everybody_else_is_judged_by_the_text() {
    assert_eq!(judge_sender(GROUP, Some(7), ME, false), SenderVerdict::ReadOn);
    assert_eq!(judge_sender(GROUP, None, ME, false), SenderVerdict::ReadOn);
    assert_eq!(judge_sender(GROUP, None, ME, true), SenderVerdict::ReadOn);
}

#[test]
fn bytes_are_found_where_they_stand() {
    assert!(contains_bytes(b"hello world", b"hello"));
    assert!(contains_bytes(b"hello world", b"o w"));
    assert!(contains_bytes(b"hello world", b"world"));
    assert!(contains_bytes(b"hello world", b"hello world"));
    assert!(contains_bytes(b"hello world", b""));
    assert!(contains_bytes(b"", b""));
    assert!(contains_bytes(b"aab", b"ab"));
    assert!(!contains_bytes(b"hello world", b"worlds"));
    assert!(!contains_bytes(b"hello world", b"hello world!"));
    assert!(!contains_bytes(b"", b"a"));
    assert!(!contains_bytes(b"abab", b"ba a"));
}

#[test]
fn keywords_are_found_as_they_are_written() {
    let keywords = vec!["BITCOIN".to_string(), "CLICK HERE".to_string()];
    assert!(mentions_keyword("FREE BITCOIN NOW", &keywords));
    assert!(mentions_keyword("PLEASE CLICK HERE", &keywords));
    assert!(!mentions_keyword("free bitcoin now", &keywords));
    assert!(!mentions_keyword("CLICK  HERE", &keywords));
    assert!(!mentions_keyword("", &keywords));
    assert!(!mentions_keyword("FREE BITCOIN NOW", &vec![]));
    assert!(mentions_keyword("ANYTHING", &vec![String::new()]));
    assert!(mentions_keyword("PRIX: 5 €", &vec!["€".to_string()]));
}

#[test]
fn scam_is_found_whatever_the_case_and_the_accents() {
    assert_eq!(is_scam_message("Free Bitcoin for all", KEYWORDS), Ok(true));
    assert_eq!(is_scam_message("such a nice étude", KEYWORDS), Ok(true));
    assert_eq!(is_scam_message("ｂｉｔｃｏｉｎ", KEYWORDS), Ok(true));
    assert_eq!(is_scam_message("click\u{a0}here", KEYWORDS), Ok(true));
    assert_eq!(is_scam_message("hello, how are you?", KEYWORDS), Ok(false));
    assert_eq!(is_scam_message("", KEYWORDS), Ok(false));
    assert_eq!(is_scam_message("bitcoin", "[]"), Ok(false));
}

#[test]
fn keywords_are_not_normalised() {
    assert_eq!(is_scam_message("bitcoin", r#"["bitcoin"]"#), Ok(false));
    assert_eq!(is_scam_message("étude", r#"["ÉTUDE"]"#), Ok(false));
}

#[test]
fn malformed_keywords_are_an_error() {
    assert!(is_scam_message("bitcoin", "").is_err());
    assert!(is_scam_message("bitcoin", r#"{"a": 1}"#).is_err());
    assert!(is_scam_message("bitcoin", r#"["BITCOIN", 3]"#).is_err());
    assert!(is_scam_message("bitcoin", r#"["BITCOIN""#).is_err());
}

#[test]
fn photo_without_sizes_has_no_largest() {
    assert_eq!(largest_photo(&vec![]), None);
}

#[test]
fn largest_photo_has_the_most_pixels() {
    assert_eq!(largest_photo(&vec![size(90, 90)]), Some(0));
    assert_eq!(largest_photo(&vec![size(90, 90), size(320, 320), size(160, 160)]), Some(1));
    assert_eq!(largest_photo(&vec![size(10, 100), size(100, 11), size(1, 1)]), Some(1));
}

#[test]
fn first_of_the_largest_photos_wins() {
    assert_eq!(largest_photo(&vec![size(10, 20), size(20, 10), size(200, 1)]), Some(0));
    assert_eq!(largest_photo(&vec![size(0, 0), size(0, 5)]), Some(0));
}

#[test]
fn largest_photo_counts_pixels_without_overflow() {
    let sizes = vec![size(65_536, 65_536), size(i32::MAX, i32::MAX), size(i32::MAX, 2)];
    assert_eq!(largest_photo(&sizes), Some(1));
    assert_eq!(largest_photo(&vec![size(-1, 5), size(-2, -5), size(i32::MIN, i32::MIN)]), Some(2));
}
