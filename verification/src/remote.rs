//! What the scout needs to know of the remote directory: the record of a
//! chat, the account's standing in a group, and how a join attempt ended.

use vstd::prelude::*;
use vstd::string::StrSliceExecFns;

verus! {

/// Code of the remote error that asks the caller to slow down.
pub const TOO_MANY_REQUESTS: i32 = 429;

/// The group behind a chat, if the chat is one.
#[derive(Clone, Copy, Debug, PartialEq, Eq, Hash, Structural)]
pub enum GroupRef {
    BasicGroup(i64),
    Supergroup(i64),
    NotAGroup,
}

/// The part of a chat's record that decides whether the scout may join it.
#[derive(Clone, Copy, Debug, PartialEq, Eq, Hash, Structural)]
pub struct ChatRecord {
    pub id: i64,
    pub can_send_basic_messages: bool,
    pub group: GroupRef,
}

/// The account's standing in a group.
#[derive(Clone, Copy, Debug, PartialEq, Eq, Hash, Structural)]
pub enum MembershipStatus {
    Left,
    Member,
    Restricted { is_member: bool, can_send_basic_messages: bool },
    Banned,
    Other,
}

/// An error of the remote directory: its code and its message.
#[derive(Clone, Debug, PartialEq, Eq)]
pub struct RemoteError {
    pub code: i32,
    pub message: String,
}

/// How a join attempt ended.
#[derive(Clone, Copy, Debug, PartialEq, Eq, Hash, Structural)]
pub enum JoinOutcome {
    /// The account is now a member.
    Joined,
    /// The directory asked to come back after this many seconds.
    RateLimited(u64),
    /// The attempt failed for another reason.
    Failed,
}

/// A chat may be joined when its permissions allow basic messages, and the
/// account is neither banned from it nor restricted from sending them.
pub open spec fn is_eligible(chat: ChatRecord, status: MembershipStatus) -> bool {
    &&& chat.can_send_basic_messages
    &&& status != MembershipStatus::Banned
    &&& !(status matches MembershipStatus::Restricted { can_send_basic_messages, .. }
        && !can_send_basic_messages)
}

/// Whether the standing says that the account is in the group already: every
/// standing does, but having left and being restricted as a non-member.
pub open spec fn is_member(status: MembershipStatus) -> bool {
    &&& status != MembershipStatus::Left
    &&& !(status matches MembershipStatus::Restricted { is_member, .. } && !is_member)
}

/// The group whose standing has to be looked up for a chat, with the flag
/// that tells a supergroup from a basic group.
pub open spec fn group_of(chat: ChatRecord) -> Option<(i64, bool)> {
    match chat.group {
        GroupRef::BasicGroup(id) => Some((id, false)),
        GroupRef::Supergroup(id) => Some((id, true)),
        GroupRef::NotAGroup => None,
    }
}

/// Decides whether a chat may be joined.
pub fn can_join_chat(chat: &ChatRecord, status: &MembershipStatus) -> (eligible: bool)
    ensures
        eligible == is_eligible(*chat, *status),
{
    if !chat.can_send_basic_messages {
        return false;
    }
    match status {
        MembershipStatus::Banned => false,
        MembershipStatus::Restricted { can_send_basic_messages, .. } => *can_send_basic_messages,
        _ => true,
    }
}

/// Decides whether the account is a member already.
pub fn already_member(status: &MembershipStatus) -> (member: bool)
    ensures
        member == is_member(*status),
{
    match status {
        MembershipStatus::Left => false,
        MembershipStatus::Restricted { is_member, .. } => *is_member,
        _ => true,
    }
}

/// Says which standing to look up for a chat: the group's id and whether it
/// is a supergroup, or nothing when the chat is no group.
pub fn membership_query(chat: &ChatRecord) -> (query: Option<(i64, bool)>)
    ensures
        query == group_of(*chat),
{
    match chat.group {
        GroupRef::BasicGroup(id) => Some((id, false)),
        GroupRef::Supergroup(id) => Some((id, true)),
        GroupRef::NotAGroup => None,
    }
}

/// The number that a character stands for as a decimal digit.
pub open spec fn digit_value(c: char) -> Option<int> {
    if '0' <= c <= '9' {
        Some(c as int - '0' as int)
    } else {
        None
    }
}

/// The number written by a run of decimal digits; nothing if a character is
/// no digit from `0` to `9`. The empty run writes zero.
pub open spec fn decimal_value(digits: Seq<char>) -> Option<int>
    decreases digits.len(),
{
    if digits.len() == 0 {
        Some(0)
    } else {
        match (decimal_value(digits.drop_last()), digit_value(digits.last())) {
            (Some(value), Some(digit)) => Some(10 * value + digit),
            _ => None,
        }
    }
}

/// The seconds that a run of digits asks to wait: its value, where the run is
/// not empty, holds digits only and the value fits in 64 bits.
pub open spec fn seconds_of(digits: Seq<char>) -> Option<u64> {
    match decimal_value(digits) {
        Some(value) => if digits.len() > 0 && value <= u64::MAX {
            Some(value as u64)
        } else {
            None
        },
        None => None,
    }
}

/// The hint that an error carries: the seconds of the captured digits, where
/// the error is the one that asks to slow down and its message held any.
pub open spec fn retry_hint(code: i32, capture: Option<Seq<char>>) -> Option<u64> {
    match capture {
        Some(digits) => if code == TOO_MANY_REQUESTS {
            seconds_of(digits)
        } else {
            None
        },
        None => None,
    }
}

/// How a join attempt ended, given what it returned and what was captured
/// from the error's message.
pub open spec fn outcome_of(code: Option<i32>, capture: Option<Seq<char>>) -> JoinOutcome {
    match code {
        None => JoinOutcome::Joined,
        Some(code) => match retry_hint(code, capture) {
            Some(seconds) => JoinOutcome::RateLimited(seconds),
            None => JoinOutcome::Failed,
        },
    }
}

/// What `regex::Regex::captures` finds for a pattern in a text: the part of
/// the text that the pattern's first group took in the leftmost match;
/// nothing where the pattern does not compile, does not match, or matched
/// without that group.
pub uninterp spec fn first_capture(pattern: Seq<char>, haystack: Seq<char>) -> Option<Seq<char>>;

/// The pattern by which the seconds to wait are found in the message of an
/// error.
pub open spec fn retry_after_pattern() -> Seq<char> {
    "after (\\d+)"@
}

/// What the pattern captures in the message of an error.
pub open spec fn retry_after_capture(message: Seq<char>) -> Option<Seq<char>> {
    first_capture(retry_after_pattern(), message)
}

/// Compiles `pattern` with `regex::Regex::new`, searches `haystack` with
/// `Regex::captures` and hands out the text of the first group. The
/// contract only gives that text its name; it claims nothing of what a
/// pattern matches.
#[verifier::external_body]
fn capture_first_group(pattern: &str, haystack: &str) -> (capture: Option<String>)
    ensures
        capture is Some == first_capture(pattern@, haystack@) is Some,
        capture matches Some(text) ==> first_capture(pattern@, haystack@) == Some(text@),
{
    match regex::Regex::new(pattern) {
        Ok(compiled) => match compiled.captures(haystack) {
            Some(found) => match found.get(1) {
                Some(group) => Some(group.as_str().to_string()),
                None => None,
            },
            None => None,
        },
        Err(_) => None,
    }
}

/// Reads a run of decimal digits as a number of seconds.
pub fn parse_seconds(digits: &str) -> (seconds: Option<u64>)
    ensures
        seconds == seconds_of(digits@),
{
    let n = digits.unicode_len();
    if n == 0 {
        return None;
    }
    let mut value: u64 = 0;
    let mut i: usize = 0;
    while i < n
        invariant
            i <= n,
            n == digits@.len(),
            decimal_value(digits@.subrange(0, i as int)) == Some(value as int),
        decreases n - i,
    {
        let c = digits.get_char(i);
        let ghost prefix = digits@.subrange(0, i as int);
        let ghost longer = digits@.subrange(0, i + 1);
        proof {
            assert(longer.drop_last() =~= prefix);
            assert(longer.last() == c);
        }
        if c < '0' || c > '9' {
            proof {
                lemma_bad_digit_spoils(digits@, i as int);
            }
            return None;
        }
        let digit: u64 = (c as u32 - '0' as u32) as u64;
        if value > (u64::MAX - digit) / 10 {
            proof {
                assert(10 * value + digit > u64::MAX);
                lemma_value_grows(digits@, i + 1);
            }
            return None;
        }
        value = value * 10 + digit;
        i = i + 1;
    }
    proof {
        assert(digits@.subrange(0, n as int) =~= digits@);
    }
    Some(value)
}

/// The hint of an error with the given code, from what was captured in its
/// message.
pub fn retry_hint_from(code: i32, capture: Option<&str>) -> (hint: Option<u64>)
    ensures
        hint == retry_hint(
            code,
            match capture {
                Some(digits) => Some(digits@),
                None => None,
            },
        ),
{
    match capture {
        Some(digits) => if code == TOO_MANY_REQUESTS {
            parse_seconds(digits)
        } else {
            None
        },
        None => None,
    }
}

impl RemoteError {
    /// The seconds after which the directory wants the call repeated, if the
    /// error is the one that asks to slow down and its message names them.
    pub fn retry_after_seconds(&self) -> (hint: Option<u64>)
        ensures
            hint == retry_hint(self.code, retry_after_capture(self.message@)),
    {
        match capture_first_group("after (\\d+)", self.message.as_str()) {
            Some(digits) => retry_hint_from(self.code, Some(digits.as_str())),
            None => None,
        }
    }
}

/// Classifies what a join attempt returned.
pub fn join_chat(result: &Result<(), RemoteError>) -> (outcome: JoinOutcome)
    ensures
        outcome == outcome_of(
            match *result {
                Ok(_) => None,
                Err(error) => Some(error.code),
            },
            match *result {
                Ok(_) => None,
                Err(error) => retry_after_capture(error.message@),
            },
        ),
{
    match result {
        Ok(_) => JoinOutcome::Joined,
        Err(error) => match error.retry_after_seconds() {
            Some(seconds) => JoinOutcome::RateLimited(seconds),
            None => JoinOutcome::Failed,
        },
    }
}

/// Once a prefix of a run holds a character that is no digit, the run writes
/// no number.
pub proof fn lemma_bad_digit_spoils(digits: Seq<char>, at: int)
    requires
        0 <= at < digits.len(),
        digit_value(digits[at]) is None,
    ensures
        decimal_value(digits) is None,
    decreases digits.len(),
{
    if at < digits.len() - 1 {
        lemma_bad_digit_spoils(digits.drop_last(), at);
    }
}

/// The number written by a run of digits is at least the number written by
/// any of its prefixes.
pub proof fn lemma_value_grows(digits: Seq<char>, len: int)
    requires
        0 <= len <= digits.len(),
    ensures
        decimal_value(digits) matches Some(value) ==> (decimal_value(digits.subrange(0, len)) matches Some(
            shorter,
        ) && 0 <= shorter <= value),
    decreases digits.len(),
{
    if len == digits.len() {
        assert(digits.subrange(0, len) =~= digits);
        lemma_value_nonnegative(digits);
    } else {
        lemma_value_grows(digits.drop_last(), len);
        assert(digits.drop_last().subrange(0, len) =~= digits.subrange(0, len));
    }
}

/// A run of digits writes no negative number.
pub proof fn lemma_value_nonnegative(digits: Seq<char>)
    ensures
        decimal_value(digits) matches Some(value) ==> value >= 0,
    decreases digits.len(),
{
    if digits.len() > 0 {
        lemma_value_nonnegative(digits.drop_last());
    }
}

} // verus!
