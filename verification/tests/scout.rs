use fetish_common::location::Location;
use fetish_common::models::ScoutedChat;
use fetish_common::remote::{join_chat, JoinOutcome, RemoteError};
use fetish_common::scout::{
    travel_seconds, JoinAttempt, JoinErrorPolicy, ScoutConfig, State, Step,
    CHAT_JOIN_COOLDOWN_SECONDS, MAX_ROUTE_SECONDS, WALKING_SPEED_MM_PER_S,
};
use fetish_common::session::{JoinState, ScoutedLocation, SessionChat};

const HERE: Location = Location(48_859_270, 2_382_861);
const THERE: Location = Location(48_867_004, 2_382_861);
const T: i64 = 1_700_000_000;

fn pending(chat_id: i64) -> SessionChat {
    SessionChat { chat_id, state: JoinState::Pending }
}

fn joined(chat_id: i64, at: i64) -> SessionChat {
    SessionChat { chat_id, state: JoinState::Joined(at) }
}

fn abandoned(chat_id: i64) -> SessionChat {
    SessionChat { chat_id, state: JoinState::Abandoned }
}

fn session(chats: Vec<SessionChat>) -> ScoutedLocation {
    ScoutedLocation { location: HERE, scouted_at: T - 500, chats }
}

fn row(chat_id: i64, joined_at: Option<i64>) -> ScoutedChat {
    ScoutedChat { chat_id, location: HERE, scouted_at: T - 500, joined_at }
}

fn retrying() -> ScoutConfig {
    ScoutConfig { on_join_error: JoinErrorPolicy::Retry, ..ScoutConfig::default() }
}

#[test]
fn defaults_of_the_scout() {
    let config = ScoutConfig::default();
    assert_eq!(config.cooldown_seconds, 30);
    assert_eq!(config.days_cooldown, 3);
    assert_eq!(config.scouted_radius_mm, 86_000);
    assert_eq!(config.on_join_error, JoinErrorPolicy::GiveUpAfterOneError);
    assert_eq!(CHAT_JOIN_COOLDOWN_SECONDS, 30);
    assert_eq!(WALKING_SPEED_MM_PER_S, 1_500);
    assert_eq!(MAX_ROUTE_SECONDS, 1_800);
}

#[test]
fn walking_takes_a_second_for_a_metre_and_a_half() {
    assert_eq!(travel_seconds(0), 0);
    assert_eq!(travel_seconds(1_499), 0);
    assert_eq!(travel_seconds(1_500), 1);
    assert_eq!(travel_seconds(860_000), 573);
    assert_eq!(travel_seconds(u64::MAX), u64::MAX / 1_500);
}

#[test]
fn last_joined_is_the_latest_time() {
    assert_eq!(session(vec![]).get_last_joined_at(), None);
    assert_eq!(session(vec![pending(1), abandoned(2)]).get_last_joined_at(), None);
    assert_eq!(session(vec![joined(1, 0), pending(2)]).get_last_joined_at(), Some(0));
    assert_eq!(
        session(vec![joined(1, 50), joined(2, 0), joined(3, 70), joined(4, 60)]).get_last_joined_at(),
        Some(70)
    );
    assert_eq!(session(vec![joined(1, -5), joined(2, -9)]).get_last_joined_at(), Some(-5));
}

#[test]
fn next_unjoined_is_the_first_that_waits() {
    assert_eq!(session(vec![]).get_next_unjoined_chat(), None);
    assert_eq!(session(vec![joined(1, 5), abandoned(2)]).get_next_unjoined_chat(), None);
    assert_eq!(
        session(vec![joined(1, 5), abandoned(2), pending(3), pending(4)]).get_next_unjoined_chat(),
        Some(2)
    );
    assert_eq!(session(vec![pending(3)]).get_next_unjoined_chat(), Some(0));
}

#[test]
fn step_waits_for_the_rest_of_the_cooldown() {
    let config = ScoutConfig::default();
    let current = session(vec![joined(1, T), pending(2)]);
    let before = current.clone();
    assert_eq!(current.step_at(&vec![THERE], T + 10, &config), Step::Wait(20));
    assert_eq!(current.try_join_next_chat_at(T + 10, &config), JoinAttempt::Cooldown(20));
    assert_eq!(current.step_at(&vec![THERE], T, &config), Step::Wait(30));
    assert_eq!(current.step_at(&vec![THERE], T + 29, &config), Step::Wait(1));
    assert_eq!(current, before);
}

#[test]
fn step_joins_the_next_chat_once_the_cooldown_is_over() {
    let config = ScoutConfig::default();
    let current = session(vec![joined(1, T), pending(2), pending(3)]);
    assert_eq!(current.step_at(&vec![THERE], T + 30, &config), Step::Join(2));
    assert_eq!(current.step_at(&vec![THERE], T + 31, &config), Step::Join(2));
    assert_eq!(current.try_join_next_chat_at(T + 30, &config), JoinAttempt::Join(2));
}

#[test]
fn cooldown_counts_from_the_latest_join() {
    let config = ScoutConfig::default();
    let current = session(vec![joined(1, T), joined(2, T + 100), joined(3, 0), pending(4)]);
    assert_eq!(current.step_at(&vec![], T + 110, &config), Step::Wait(20));
    assert_eq!(current.step_at(&vec![], T + 130, &config), Step::Join(4));
}

#[test]
fn cooldown_counts_the_mark_of_a_member_as_a_time() {
    let config = ScoutConfig::default();
    let current = session(vec![joined(1, 0), pending(2)]);
    assert_eq!(current.step_at(&vec![], 10, &config), Step::Wait(20));
    assert_eq!(current.step_at(&vec![], T, &config), Step::Join(2));
}

#[test]
fn cooldown_holds_even_when_no_chat_waits() {
    let config = ScoutConfig::default();
    let current = session(vec![joined(1, T)]);
    assert_eq!(current.step_at(&vec![THERE], T + 5, &config), Step::Wait(25));
    assert_eq!(current.step_at(&vec![], T + 5, &config), Step::Wait(25));
}

#[test]
fn join_that_lies_ahead_makes_the_wait_longer() {
    let config = ScoutConfig::default();
    let current = session(vec![joined(1, T + 100), pending(2)]);
    assert_eq!(current.step_at(&vec![], T, &config), Step::Wait(130));
}

#[test]
fn wait_is_capped_at_the_largest_duration() {
    let config = ScoutConfig { cooldown_seconds: u64::MAX, ..ScoutConfig::default() };
    let current = session(vec![joined(1, i64::MAX), pending(2)]);
    assert_eq!(current.step_at(&vec![], i64::MIN, &config), Step::Wait(u64::MAX));
    assert_eq!(current.step_at(&vec![], i64::MAX, &config), Step::Wait(u64::MAX));
    let short = ScoutConfig::default();
    assert_eq!(current.step_at(&vec![], i64::MIN, &short), Step::Wait(u64::MAX));
    assert_eq!(current.step_at(&vec![], 0, &short), Step::Wait(i64::MAX as u64 + 30));
}

#[test]
fn no_cooldown_is_no_wait() {
    let config = ScoutConfig { cooldown_seconds: 0, ..ScoutConfig::default() };
    let current = session(vec![joined(1, T), pending(2)]);
    assert_eq!(current.step_at(&vec![], T, &config), Step::Join(2));
}

#[test]
fn step_scouts_when_no_chat_waits() {
    let config = ScoutConfig::default();
    assert_eq!(session(vec![]).step_at(&vec![THERE, HERE], T, &config), Step::Scout(THERE));
    let through = session(vec![joined(1, T), abandoned(2)]);
    assert_eq!(through.step_at(&vec![THERE, HERE], T + 30, &config), Step::Scout(THERE));
    assert_eq!(through.try_join_next_chat_at(T + 30, &config), JoinAttempt::NoNextChat);
}

#[test]
fn step_is_done_when_nothing_is_left() {
    let config = ScoutConfig::default();
    assert_eq!(session(vec![]).step_at(&vec![], T, &config), Step::Done);
    assert_eq!(session(vec![joined(1, T)]).step_at(&vec![], T + 30, &config), Step::Done);
}

#[test]
fn step_taken_now_reads_the_clock() {
    let config = ScoutConfig::default();
    let far_ahead = session(vec![joined(1, i64::MAX - 100), pending(2)]);
    match far_ahead.step(&vec![], &config) {
        Step::Wait(seconds) => assert!(seconds > 1_000_000),
        other => panic!("{:?}", other),
    }
    assert!(matches!(far_ahead.try_join_next_chat(&config), JoinAttempt::Cooldown(_)));
    let long_ago = session(vec![joined(1, 1_000), pending(2)]);
    assert_eq!(long_ago.step(&vec![], &config), Step::Join(2));
    assert_eq!(long_ago.try_join_next_chat(&config), JoinAttempt::Join(2));
}

#[test]
fn successful_join_is_recorded_and_stored() {
    let config = ScoutConfig::default();
    let mut current = session(vec![joined(1, 0), pending(2), pending(3)]);
    let (state, stored) = current.join_next_chat_at(JoinOutcome::Joined, T, &config);
    assert_eq!(state, State::Wait(30));
    assert_eq!(stored, Some(row(2, Some(T))));
    assert_eq!(current, session(vec![joined(1, 0), joined(2, T), pending(3)]));
}

#[test]
fn rate_limit_leaves_the_chat_waiting() {
    let config = ScoutConfig::default();
    let mut current = session(vec![joined(1, 0), pending(2), pending(3)]);
    let outcome = join_chat(&Err(RemoteError {
        code: 429,
        message: "Too Many Requests: retry after 45".to_string(),
    }));
    let (state, stored) = current.join_next_chat_at(outcome, T, &config);
    assert_eq!(state, State::Wait(45));
    assert_eq!(stored, None);
    assert_eq!(current, session(vec![joined(1, 0), pending(2), pending(3)]));
    assert_eq!(current.step_at(&vec![], T + 45, &config), Step::Join(2));
}

#[test]
fn failed_join_is_given_up_by_default() {
    let config = ScoutConfig::default();
    let mut current = session(vec![pending(2), pending(3)]);
    let (state, stored) = current.join_next_chat_at(JoinOutcome::Failed, T, &config);
    assert_eq!(state, State::Wait(30));
    assert_eq!(stored, None);
    assert_eq!(current, session(vec![abandoned(2), pending(3)]));
    assert_eq!(current.step_at(&vec![], T + 30, &config), Step::Join(3));
    assert_eq!(current.get_last_joined_at(), None);
}

#[test]
fn failed_join_is_tried_again_on_request() {
    let config = retrying();
    let mut current = session(vec![pending(2), pending(3)]);
    let (state, stored) = current.join_next_chat_at(JoinOutcome::Failed, T, &config);
    assert_eq!(state, State::Wait(30));
    assert_eq!(stored, None);
    assert_eq!(current, session(vec![pending(2), pending(3)]));
    assert_eq!(current.step_at(&vec![], T + 30, &config), Step::Join(2));
}

#[test]
fn outcome_without_a_waiting_chat_changes_nothing() {
    let config = ScoutConfig::default();
    let mut current = session(vec![joined(1, 5), abandoned(2)]);
    for outcome in [JoinOutcome::Joined, JoinOutcome::RateLimited(45), JoinOutcome::Failed] {
        assert_eq!(current.join_next_chat_at(outcome, T, &config), (State::Done, None));
        assert_eq!(current, session(vec![joined(1, 5), abandoned(2)]));
    }
}

#[test]
fn join_recorded_now_is_stamped_by_the_clock() {
    let config = ScoutConfig::default();
    let mut current = session(vec![pending(2)]);
    let (state, stored) = current.join_next_chat(JoinOutcome::Joined, &config);
    assert_eq!(state, State::Wait(30));
    let at = stored.unwrap().joined_at.unwrap();
    assert!(at > 1_600_000_000);
    assert_eq!(current, session(vec![joined(2, at)]));
}

#[test]
fn scout_replaces_the_session_and_pops_the_queue() {
    let mut current = session(vec![joined(1, 5), abandoned(2)]);
    let mut queue = vec![THERE, HERE];
    let found = ScoutedLocation { location: THERE, scouted_at: T, chats: vec![pending(7)] };
    let state = current.scout(found.clone(), &mut queue, 860_000);
    assert_eq!(state, Some(State::Wait(573)));
    assert_eq!(current, found);
    assert_eq!(queue, vec![HERE]);
}

#[test]
fn scout_does_not_leave_a_waiting_chat_behind() {
    let mut current = session(vec![joined(1, 5), pending(2)]);
    let mut queue = vec![THERE, HERE];
    let found = ScoutedLocation { location: THERE, scouted_at: T, chats: vec![pending(7)] };
    assert_eq!(current.scout(found, &mut queue, 860_000), None);
    assert_eq!(current, session(vec![joined(1, 5), pending(2)]));
    assert_eq!(queue, vec![THERE, HERE]);
}

#[test]
fn scout_takes_only_the_first_location_of_the_queue() {
    let mut current = session(vec![]);
    let mut queue = vec![THERE, HERE];
    let found = ScoutedLocation::new(HERE, T);
    assert_eq!(current.scout(found.clone(), &mut queue, 0), None);
    assert_eq!(current, session(vec![]));
    assert_eq!(queue, vec![THERE, HERE]);
    let mut empty: Vec<Location> = vec![];
    assert_eq!(current.scout(found, &mut empty, 0), None);
    assert_eq!(current, session(vec![]));
    assert!(empty.is_empty());
}

#[test]
fn route_time_is_what_is_left_of_the_walk() {
    let walking = ScoutedLocation { location: HERE, scouted_at: T, chats: vec![pending(1)] };
    assert_eq!(walking.route_remaining_time_at(860_000, T), 573);
    assert_eq!(walking.route_remaining_time_at(860_000, T + 100), 473);
    assert_eq!(walking.route_remaining_time_at(860_000, T + 573), 0);
    assert_eq!(walking.route_remaining_time_at(860_000, T + 574), 0);
    assert_eq!(walking.route_remaining_time_at(2_700_000, T), 1_800);
    assert_eq!(walking.route_remaining_time_at(2_701_500, T), 0);
    assert_eq!(walking.route_remaining_time_at(860_000, T - 1_227), 1_800);
    assert_eq!(walking.route_remaining_time_at(860_000, T - 1_228), 0);
    assert_eq!(walking.route_remaining_time_at(u64::MAX, i64::MIN), 0);
}

#[test]
fn route_time_is_none_when_no_chat_waits() {
    let through = ScoutedLocation { location: HERE, scouted_at: T, chats: vec![joined(1, T)] };
    assert_eq!(through.route_remaining_time_at(860_000, T), 0);
    assert_eq!(ScoutedLocation::new(HERE, T).route_remaining_time_at(860_000, T), 0);
    assert_eq!(through.route_remaining_time(860_000), 0);
}

#[test]
fn route_time_read_now_is_over_for_an_old_session() {
    let old = ScoutedLocation { location: HERE, scouted_at: 1_000, chats: vec![pending(1)] };
    assert_eq!(old.route_remaining_time(860_000), 0);
}

#[test]
fn resumed_session_joins_only_what_is_left() {
    let config = ScoutConfig::default();
    let rows = vec![row(1, Some(T - 400)), row(2, Some(0)), row(3, None)];
    let mut current = ScoutedLocation::init_at(&rows, THERE, T);
    assert_eq!(current, session(vec![joined(1, T - 400), joined(2, 0), pending(3)]));
    let mut queue: Vec<Location> = vec![];
    let mut now = T;
    let mut asked: Vec<i64> = vec![];
    let mut written: Vec<ScoutedChat> = vec![];
    let mut steps = 0;
    loop {
        steps += 1;
        assert!(steps < 10);
        let state = match current.step_at(&queue, now, &config) {
            Step::Wait(seconds) => State::Wait(seconds),
            Step::Join(chat_id) => {
                asked.push(chat_id);
                let (state, stored) = current.join_next_chat_at(join_chat(&Ok(())), now, &config);
                written.extend(stored);
                state
            }
            Step::Scout(location) => {
                let found = ScoutedLocation::new(location, now);
                current.scout(found, &mut queue, 0).unwrap()
            }
            Step::Done => State::Done,
        };
        match state {
            State::Wait(seconds) => now += seconds as i64,
            State::Done => break,
        }
    }
    assert_eq!(asked, vec![3]);
    assert_eq!(written, vec![row(3, Some(T))]);
    assert_eq!(current, session(vec![joined(1, T - 400), joined(2, 0), joined(3, T)]));
    assert_eq!(now, T + 30);
}
