use fetish_common::remote::{
    already_member, can_join_chat, join_chat, membership_query, parse_seconds, retry_hint_from,
    ChatRecord, GroupRef, JoinOutcome, MembershipStatus, RemoteError,
};

fn chat(can_send: bool, group: GroupRef) -> ChatRecord {
    ChatRecord { id: 7, can_send_basic_messages: can_send, group }
}

fn error(code: i32, message: &str) -> RemoteError {
    RemoteError { code, message: message.to_string() }
}

#[test]
fn chat_without_send_permission_is_not_eligible() {
    let closed = chat(false, GroupRef::Supergroup(1));
    assert!(!can_join_chat(&closed, &MembershipStatus::Left));
    assert!(!can_join_chat(&closed, &MembershipStatus::Member));
}

#[test]
fn banned_account_is_not_eligible() {
    let open = chat(true, GroupRef::Supergroup(1));
    assert!(!can_join_chat(&open, &MembershipStatus::Banned));
}

#[test]
fn restriction_counts_only_when_sending_is_denied() {
    let open = chat(true, GroupRef::BasicGroup(1));
    let muted = MembershipStatus::Restricted { is_member: true, can_send_basic_messages: false };
    let trimmed = MembershipStatus::Restricted { is_member: false, can_send_basic_messages: true };
    assert!(!can_join_chat(&open, &muted));
    assert!(can_join_chat(&open, &trimmed));
}

#[test]
fn every_other_standing_is_eligible() {
    let open = chat(true, GroupRef::Supergroup(1));
    assert!(can_join_chat(&open, &MembershipStatus::Left));
    assert!(can_join_chat(&open, &MembershipStatus::Member));
    assert!(can_join_chat(&open, &MembershipStatus::Other));
}

#[test]
fn membership_follows_the_standing() {
    assert!(!already_member(&MembershipStatus::Left));
    assert!(!already_member(&MembershipStatus::Restricted {
        is_member: false,
        can_send_basic_messages: true
    }));
    assert!(already_member(&MembershipStatus::Restricted {
        is_member: true,
        can_send_basic_messages: true
    }));
    assert!(already_member(&MembershipStatus::Member));
    assert!(already_member(&MembershipStatus::Banned));
    assert!(already_member(&MembershipStatus::Other));
}

#[test]
fn membership_query_names_the_group() {
    assert_eq!(membership_query(&chat(true, GroupRef::BasicGroup(11))), Some((11, false)));
    assert_eq!(membership_query(&chat(true, GroupRef::Supergroup(12))), Some((12, true)));
    assert_eq!(membership_query(&chat(true, GroupRef::NotAGroup)), None);
}

#[test]
fn parse_seconds_reads_decimal_digits() {
    assert_eq!(parse_seconds("45"), Some(45));
    assert_eq!(parse_seconds("0"), Some(0));
    assert_eq!(parse_seconds("007"), Some(7));
    assert_eq!(parse_seconds("18446744073709551615"), Some(u64::MAX));
}

#[test]
fn parse_seconds_rejects_what_is_no_number() {
    assert_eq!(parse_seconds(""), None);
    assert_eq!(parse_seconds("4x"), None);
    assert_eq!(parse_seconds("-4"), None);
    assert_eq!(parse_seconds("+4"), None);
    assert_eq!(parse_seconds("18446744073709551616"), None);
    assert_eq!(parse_seconds("99999999999999999999999"), None);
    assert_eq!(parse_seconds("\u{0664}\u{0665}"), None);
}

#[test]
fn hint_needs_the_slow_down_code() {
    assert_eq!(retry_hint_from(429, Some("45")), Some(45));
    assert_eq!(retry_hint_from(400, Some("45")), None);
    assert_eq!(retry_hint_from(429, None), None);
    assert_eq!(retry_hint_from(429, Some("x")), None);
}

#[test]
fn retry_after_is_read_from_the_message() {
    assert_eq!(error(429, "Too Many Requests: retry after 45").retry_after_seconds(), Some(45));
    assert_eq!(error(429, "FLOOD_WAIT: come back after 3 seconds").retry_after_seconds(), Some(3));
    assert_eq!(error(429, "after 12after 99").retry_after_seconds(), Some(12));
}

#[test]
fn retry_after_takes_the_first_match_with_digits() {
    assert_eq!(error(429, "after all, retry after 17").retry_after_seconds(), Some(17));
}

#[test]
fn retry_after_is_missing_without_a_match() {
    assert_eq!(error(429, "Too Many Requests").retry_after_seconds(), None);
    assert_eq!(error(429, "45").retry_after_seconds(), None);
    assert_eq!(error(429, "retry after  45").retry_after_seconds(), None);
    assert_eq!(error(429, "").retry_after_seconds(), None);
    assert_eq!(error(500, "retry after 45").retry_after_seconds(), None);
}

#[test]
fn retry_after_that_does_not_fit_is_no_hint() {
    assert_eq!(error(429, "retry after 18446744073709551616").retry_after_seconds(), None);
}

#[test]
fn join_chat_classifies_the_result() {
    assert_eq!(join_chat(&Ok(())), JoinOutcome::Joined);
    assert_eq!(
        join_chat(&Err(error(429, "Too Many Requests: retry after 45"))),
        JoinOutcome::RateLimited(45)
    );
    assert_eq!(join_chat(&Err(error(429, "Too Many Requests"))), JoinOutcome::Failed);
    assert_eq!(join_chat(&Err(error(400, "CHANNELS_TOO_MUCH"))), JoinOutcome::Failed);
    assert_eq!(join_chat(&Err(error(403, "retry after 45"))), JoinOutcome::Failed);
}
