//! The scout's decisions: what one step does, and what becomes of the
//! session when a join attempt or a discovery pass has ended.
//!
//! The driver asks `ScoutedLocation::step` what to do, does it, and reports
//! back: the outcome of a join attempt to `join_next_chat`, the session of a
//! discovery pass to `scout`. Every wait is in whole seconds.

use vstd::prelude::*;
use crate::clock::unix_now;
use crate::history::{DAYS_COOLDOWN, SCOUTED_RADIUS_MM};
use crate::location::Location;
use crate::models::ScoutedChat;
use crate::remote::JoinOutcome;
use crate::session::{row_of, unique_ids, JoinState, ScoutedLocation, SessionChat};

verus! {

/// The scout walks this many millimetres in a second.
pub const WALKING_SPEED_MM_PER_S: u64 = 1_500;

/// Seconds that have to pass between two joins, unless configured otherwise.
pub const CHAT_JOIN_COOLDOWN_SECONDS: u64 = 30;

/// The longest walk, in seconds, that is waited for when a session is resumed.
pub const MAX_ROUTE_SECONDS: u64 = 1_800;

/// What to do with a chat whose join failed for a reason other than the
/// directory asking to slow down.
#[derive(Clone, Copy, Debug, PartialEq, Eq, Hash, Structural)]
pub enum JoinErrorPolicy {
    /// Give the chat up for this session, so that the next one gets its turn.
    GiveUpAfterOneError,
    /// Leave the chat waiting, and try it again after the cooldown.
    Retry,
}

/// The settings of the scout.
#[derive(Clone, Copy, Debug, PartialEq, Eq, Hash, Structural)]
pub struct ScoutConfig {
    /// Seconds that have to pass between two joins.
    pub cooldown_seconds: u64,
    /// Days for which a scouted location is left alone.
    pub days_cooldown: i64,
    /// Millimetres below which a location counts as scouted with another.
    pub scouted_radius_mm: u64,
    pub on_join_error: JoinErrorPolicy,
}

impl Default for ScoutConfig {
    fn default() -> (config: ScoutConfig)
        ensures
            config.cooldown_seconds == CHAT_JOIN_COOLDOWN_SECONDS,
            config.days_cooldown == DAYS_COOLDOWN,
            config.scouted_radius_mm == SCOUTED_RADIUS_MM,
            config.on_join_error == JoinErrorPolicy::GiveUpAfterOneError,
    {
        ScoutConfig {
            cooldown_seconds: CHAT_JOIN_COOLDOWN_SECONDS,
            days_cooldown: DAYS_COOLDOWN,
            scouted_radius_mm: SCOUTED_RADIUS_MM,
            on_join_error: JoinErrorPolicy::GiveUpAfterOneError,
        }
    }
}

/// What the driver does when a step has ended.
#[derive(Clone, Copy, Debug, PartialEq, Eq, Hash, Structural)]
pub enum State {
    /// Sleep for this many seconds, then take the next step.
    Wait(u64),
    /// Nothing is left to do.
    Done,
}

/// What a join attempt comes to before anything is sent.
#[derive(Clone, Copy, Debug, PartialEq, Eq, Hash, Structural)]
pub enum JoinAttempt {
    /// The last join is too recent: wait for this many seconds.
    Cooldown(u64),
    /// Ask the directory to join the chat with this id.
    Join(i64),
    /// No chat of the session waits to be joined.
    NoNextChat,
}

/// What one step does.
#[derive(Clone, Copy, Debug, PartialEq, Eq, Hash, Structural)]
pub enum Step {
    /// Nothing but sleep for this many seconds.
    Wait(u64),
    /// Ask the directory to join the chat with this id, and report how it
    /// ended to `join_next_chat`.
    Join(i64),
    /// Run a discovery pass at this location, the first of the queue, and
    /// hand its session to `scout`.
    Scout(Location),
    /// Nothing: the queue is empty and no chat waits.
    Done,
}

/// The latest time at which a chat of the session was joined, the mark of a
/// member from the start counting as a time; nothing if no chat is joined.
pub open spec fn last_joined_at(chats: Seq<SessionChat>) -> Option<i64>
    decreases chats.len(),
{
    if chats.len() == 0 {
        None
    } else {
        let before = last_joined_at(chats.drop_last());
        match chats.last().state {
            JoinState::Joined(at) => match before {
                Some(latest) => if latest >= at {
                    Some(latest)
                } else {
                    Some(at)
                },
                None => Some(at),
            },
            _ => before,
        }
    }
}

/// The position of the first chat that waits to be joined, if any does.
pub open spec fn next_unjoined(chats: Seq<SessionChat>) -> Option<int>
    decreases chats.len(),
{
    if chats.len() == 0 {
        None
    } else {
        match next_unjoined(chats.drop_last()) {
            Some(i) => Some(i),
            None => if chats.last().state == JoinState::Pending {
                Some(chats.len() - 1)
            } else {
                None
            },
        }
    }
}

/// How many chats wait to be joined.
pub open spec fn pending_count(chats: Seq<SessionChat>) -> nat
    decreases chats.len(),
{
    if chats.len() == 0 {
        0
    } else {
        pending_count(chats.drop_last()) + if chats.last().state == JoinState::Pending {
            1nat
        } else {
            0nat
        }
    }
}

/// The seconds of the cooldown that are left at `now`; zero or less once it
/// is over, and where nothing was joined.
pub open spec fn cooldown_left(last: Option<i64>, now: i64, cooldown_seconds: u64) -> int {
    match last {
        Some(at) => cooldown_seconds - (now - at),
        None => 0,
    }
}

/// A number of seconds as a wait: no wait is longer than `u64::MAX` seconds.
pub open spec fn capped(seconds: int) -> u64 {
    if seconds > u64::MAX {
        u64::MAX
    } else if seconds < 0 {
        0
    } else {
        seconds as u64
    }
}

/// What a join attempt comes to at `now`: a wait while the cooldown lasts,
/// else the first chat that waits, else nothing.
pub open spec fn attempt_of(chats: Seq<SessionChat>, now: i64, cooldown_seconds: u64) -> JoinAttempt {
    let left = cooldown_left(last_joined_at(chats), now, cooldown_seconds);
    if left > 0 {
        JoinAttempt::Cooldown(capped(left))
    } else {
        match next_unjoined(chats) {
            Some(i) => JoinAttempt::Join(chats[i].chat_id),
            None => JoinAttempt::NoNextChat,
        }
    }
}

/// What one step does at `now`: what the join attempt asks for; where no
/// chat waits, a discovery pass at the first location of the queue; where
/// the queue is empty too, nothing.
pub open spec fn step_of(
    chats: Seq<SessionChat>,
    queue: Seq<Location>,
    now: i64,
    cooldown_seconds: u64,
) -> Step {
    match attempt_of(chats, now, cooldown_seconds) {
        JoinAttempt::Cooldown(seconds) => Step::Wait(seconds),
        JoinAttempt::Join(chat_id) => Step::Join(chat_id),
        JoinAttempt::NoNextChat => if queue.len() > 0 {
            Step::Scout(queue[0])
        } else {
            Step::Done
        },
    }
}

/// The state in which an ended join attempt leaves the chat that it was for.
pub open spec fn state_after(outcome: JoinOutcome, now: i64, policy: JoinErrorPolicy) -> JoinState {
    match outcome {
        JoinOutcome::Joined => JoinState::Joined(now),
        JoinOutcome::RateLimited(_) => JoinState::Pending,
        JoinOutcome::Failed => match policy {
            JoinErrorPolicy::GiveUpAfterOneError => JoinState::Abandoned,
            JoinErrorPolicy::Retry => JoinState::Pending,
        },
    }
}

/// The chats of the session once a join attempt for the first waiting chat
/// has ended.
pub open spec fn chats_after(
    chats: Seq<SessionChat>,
    outcome: JoinOutcome,
    now: i64,
    policy: JoinErrorPolicy,
) -> Seq<SessionChat> {
    match next_unjoined(chats) {
        Some(i) => chats.update(
            i,
            SessionChat { chat_id: chats[i].chat_id, state: state_after(outcome, now, policy) },
        ),
        None => chats,
    }
}

/// The wait that follows an ended join attempt: the seconds that the
/// directory asked for, else the cooldown. Nothing remains to do where no
/// chat was waiting.
pub open spec fn state_after_join(
    chats: Seq<SessionChat>,
    outcome: JoinOutcome,
    cooldown_seconds: u64,
) -> State {
    match next_unjoined(chats) {
        Some(_) => match outcome {
            JoinOutcome::RateLimited(seconds) => State::Wait(seconds),
            _ => State::Wait(cooldown_seconds),
        },
        None => State::Done,
    }
}

/// The row that is handed out to be stored when a join attempt has ended:
/// the row of the chat that was joined at `now`, and none where the attempt
/// did not end in a join.
pub open spec fn row_after_join(
    location: Location,
    scouted_at: i64,
    chats: Seq<SessionChat>,
    outcome: JoinOutcome,
    now: i64,
) -> Option<ScoutedChat> {
    match next_unjoined(chats) {
        Some(i) => if outcome == JoinOutcome::Joined {
            Some(
                row_of(
                    location,
                    scouted_at,
                    SessionChat { chat_id: chats[i].chat_id, state: JoinState::Joined(now) },
                ),
            )
        } else {
            None
        },
        None => None,
    }
}

/// Whether the scout may move on to a session found at `location`: no chat
/// of its session waits, and `location` is the first of the queue.
pub open spec fn may_scout(chats: Seq<SessionChat>, queue: Seq<Location>, location: Location) -> bool {
    &&& next_unjoined(chats) is None
    &&& queue.len() > 0
    &&& queue[0] == location
}

/// The seconds that the scout walks over a distance.
pub open spec fn travel_time(distance_mm: u64) -> u64 {
    distance_mm / WALKING_SPEED_MM_PER_S
}

/// The seconds of a walk that are left at `now` for a session that is
/// resumed: none if no chat waits, none if the walk is over or would last
/// longer than `MAX_ROUTE_SECONDS`.
pub open spec fn route_time_left(
    chats: Seq<SessionChat>,
    scouted_at: i64,
    distance_mm: u64,
    now: i64,
) -> u64 {
    let left = travel_time(distance_mm) - (now - scouted_at);
    if next_unjoined(chats) is None || left < 0 || left > MAX_ROUTE_SECONDS {
        0
    } else {
        left as u64
    }
}

/// The seconds that the scout walks over a distance.
pub fn travel_seconds(distance_mm: u64) -> (seconds: u64)
    ensures
        seconds == travel_time(distance_mm),
{
    distance_mm / WALKING_SPEED_MM_PER_S
}

impl ScoutedLocation {
    /// The latest time at which a chat of the session was joined.
    pub fn get_last_joined_at(&self) -> (last: Option<i64>)
        ensures
            last == last_joined_at(self.chats@),
    {
        let mut last: Option<i64> = None;
        let mut i: usize = 0;
        assert(self.chats@.subrange(0, 0) =~= Seq::<SessionChat>::empty());
        while i < self.chats.len()
            invariant
                i <= self.chats.len(),
                last == last_joined_at(self.chats@.subrange(0, i as int)),
            decreases self.chats.len() - i,
        {
            proof {
                let longer = self.chats@.subrange(0, i + 1);
                assert(longer.drop_last() =~= self.chats@.subrange(0, i as int));
                assert(longer.last() == self.chats@[i as int]);
            }
            match self.chats[i].state {
                JoinState::Joined(at) => {
                    last = match last {
                        Some(latest) => if latest >= at {
                            Some(latest)
                        } else {
                            Some(at)
                        },
                        None => Some(at),
                    };
                },
                _ => {},
            }
            i = i + 1;
        }
        assert(self.chats@.subrange(0, self.chats.len() as int) =~= self.chats@);
        last
    }

    /// The position of the first chat that waits to be joined.
    pub fn get_next_unjoined_chat(&self) -> (next: Option<usize>)
        ensures
            match next {
                Some(i) => next_unjoined(self.chats@) == Some(i as int) && i < self.chats.len(),
                None => next_unjoined(self.chats@) is None,
            },
    {
        let mut i: usize = 0;
        assert(self.chats@.subrange(0, 0) =~= Seq::<SessionChat>::empty());
        while i < self.chats.len()
            invariant
                i <= self.chats.len(),
                next_unjoined(self.chats@.subrange(0, i as int)) is None,
            decreases self.chats.len() - i,
        {
            proof {
                let longer = self.chats@.subrange(0, i + 1);
                assert(longer.drop_last() =~= self.chats@.subrange(0, i as int));
                assert(longer.last() == self.chats@[i as int]);
            }
            match self.chats[i].state {
                JoinState::Pending => {
                    proof {
                        lemma_next_unjoined_prefix(self.chats@, i + 1);
                    }
                    return Some(i);
                },
                _ => {},
            }
            i = i + 1;
        }
        assert(self.chats@.subrange(0, self.chats.len() as int) =~= self.chats@);
        None
    }

    /// What a join attempt comes to now.
    pub fn try_join_next_chat(&self, config: &ScoutConfig) -> (attempt: JoinAttempt)
        ensures
            exists|now: i64| attempt == attempt_of(self.chats@, now, config.cooldown_seconds),
    {
        self.try_join_next_chat_at(unix_now(), config)
    }

    /// What a join attempt comes to at `now`.
    pub fn try_join_next_chat_at(&self, now: i64, config: &ScoutConfig) -> (attempt: JoinAttempt)
        ensures
            attempt == attempt_of(self.chats@, now, config.cooldown_seconds),
    {
        let cooldown_seconds = config.cooldown_seconds;
        match self.get_last_joined_at() {
            Some(at) => {
                let left: i128 = cooldown_seconds as i128 - (now as i128 - at as i128);
                if left > 0 {
                    let seconds: u64 = if left > u64::MAX as i128 {
                        u64::MAX
                    } else {
                        left as u64
                    };
                    return JoinAttempt::Cooldown(seconds);
                }
            },
            None => {},
        }
        match self.get_next_unjoined_chat() {
            Some(i) => JoinAttempt::Join(self.chats[i].chat_id),
            None => JoinAttempt::NoNextChat,
        }
    }

    /// What the step that is taken now does, with `locations` as the queue
    /// of the locations that are still to visit. Nothing changes: the driver
    /// acts on the answer and reports back.
    pub fn step(&self, locations: &Vec<Location>, config: &ScoutConfig) -> (step: Step)
        ensures
            exists|now: i64| step == step_of(self.chats@, locations@, now, config.cooldown_seconds),
    {
        self.step_at(locations, unix_now(), config)
    }

    /// What the step at `now` does, with `locations` as the queue of the
    /// locations that are still to visit.
    pub fn step_at(&self, locations: &Vec<Location>, now: i64, config: &ScoutConfig) -> (step: Step)
        ensures
            step == step_of(self.chats@, locations@, now, config.cooldown_seconds),
    {
        match self.try_join_next_chat_at(now, config) {
            JoinAttempt::Cooldown(seconds) => Step::Wait(seconds),
            JoinAttempt::Join(chat_id) => Step::Join(chat_id),
            JoinAttempt::NoNextChat => if locations.len() > 0 {
                Step::Scout(locations[0])
            } else {
                Step::Done
            },
        }
    }

    /// Records how the join attempt for the first waiting chat has ended,
    /// with the time of this call as the time of a join, and says how long
    /// to wait.
    pub fn join_next_chat(&mut self, outcome: JoinOutcome, config: &ScoutConfig) -> (ended: (
        State,
        Option<ScoutedChat>,
    ))
        ensures
            final(self).location == old(self).location,
            final(self).scouted_at == old(self).scouted_at,
            exists|now: i64|
                {
                    &&& final(self).chats@ == chats_after(
                        old(self).chats@,
                        outcome,
                        now,
                        config.on_join_error,
                    )
                    &&& ended.1 == row_after_join(
                        old(self).location,
                        old(self).scouted_at,
                        old(self).chats@,
                        outcome,
                        now,
                    )
                },
            ended.0 == state_after_join(old(self).chats@, outcome, config.cooldown_seconds),
            old(self).wf() ==> final(self).wf(),
    {
        self.join_next_chat_at(outcome, unix_now(), config)
    }

    /// Records how the join attempt for the first waiting chat ended at
    /// `now`, and says how long to wait. A join is written into the session,
    /// and the chat's new row is handed out to be stored. A request to slow
    /// down changes nothing. Another failure changes what the policy says,
    /// and never the store.
    pub fn join_next_chat_at(&mut self, outcome: JoinOutcome, now: i64, config: &ScoutConfig) -> (ended:
        (State, Option<ScoutedChat>))
        ensures
            final(self).location == old(self).location,
            final(self).scouted_at == old(self).scouted_at,
            final(self).chats@ == chats_after(old(self).chats@, outcome, now, config.on_join_error),
            ended.0 == state_after_join(old(self).chats@, outcome, config.cooldown_seconds),
            ended.1 == row_after_join(
                old(self).location,
                old(self).scouted_at,
                old(self).chats@,
                outcome,
                now,
            ),
            old(self).wf() ==> final(self).wf(),
    {
        let i = match self.get_next_unjoined_chat() {
            Some(i) => i,
            None => {
                return (State::Done, None);
            },
        };
        let chat_id = self.chats[i].chat_id;
        proof {
            lemma_next_unjoined_is_first(self.chats@);
        }
        match outcome {
            JoinOutcome::Joined => {
                self.chats.set(i, SessionChat { chat_id, state: JoinState::Joined(now) });
                let row = ScoutedChat {
                    chat_id,
                    location: self.location,
                    scouted_at: self.scouted_at,
                    joined_at: Some(now),
                };
                (State::Wait(config.cooldown_seconds), Some(row))
            },
            JoinOutcome::RateLimited(seconds) => {
                assert(self.chats@ =~= chats_after(self.chats@, outcome, now, config.on_join_error));
                (State::Wait(seconds), None)
            },
            JoinOutcome::Failed => {
                match config.on_join_error {
                    JoinErrorPolicy::GiveUpAfterOneError => {
                        self.chats.set(i, SessionChat { chat_id, state: JoinState::Abandoned });
                    },
                    JoinErrorPolicy::Retry => {
                        assert(self.chats@ =~= chats_after(
                            self.chats@,
                            outcome,
                            now,
                            config.on_join_error,
                        ));
                    },
                }
                (State::Wait(config.cooldown_seconds), None)
            },
        }
    }

    /// Moves on to the first location of the queue, at which a discovery
    /// pass has made the session `discovered`. That session takes the place
    /// of this one, the location leaves the queue, and the wait is the time
    /// of the walk over `distance_mm`, the distance between the two
    /// locations. Nothing happens while a chat of this session waits, or
    /// where `discovered` is not of the first location of the queue.
    pub fn scout(
        &mut self,
        discovered: ScoutedLocation,
        locations: &mut Vec<Location>,
        distance_mm: u64,
    ) -> (state: Option<State>)
        ensures
            state is Some <==> may_scout(old(self).chats@, old(locations)@, discovered.location),
            match state {
                Some(wait) => {
                    &&& *final(self) == discovered
                    &&& final(locations)@ == old(locations)@.drop_first()
                    &&& wait == State::Wait(travel_time(distance_mm))
                },
                None => *final(self) == *old(self) && final(locations)@ == old(locations)@,
            },
    {
        if self.get_next_unjoined_chat().is_some() || locations.len() == 0 {
            return None;
        }
        if locations[0] != discovered.location {
            return None;
        }
        locations.remove(0);
        assert(locations@ =~= old(locations)@.drop_first());
        *self = discovered;
        Some(State::Wait(travel_seconds(distance_mm)))
    }

    /// The seconds of the walk to the session's location that are left now,
    /// for a session that is resumed; `distance_mm` is the length of the
    /// walk.
    pub fn route_remaining_time(&self, distance_mm: u64) -> (seconds: u64)
        ensures
            exists|now: i64|
                seconds == route_time_left(self.chats@, self.scouted_at, distance_mm, now),
    {
        self.route_remaining_time_at(distance_mm, unix_now())
    }

    /// The seconds of the walk to the session's location that are left at
    /// `now`, for a session that is resumed; `distance_mm` is the length of
    /// the walk.
    pub fn route_remaining_time_at(&self, distance_mm: u64, now: i64) -> (seconds: u64)
        ensures
            seconds == route_time_left(self.chats@, self.scouted_at, distance_mm, now),
    {
        if self.get_next_unjoined_chat().is_none() {
            return 0;
        }
        let left: i128 = travel_seconds(distance_mm) as i128 - (now as i128 - self.scouted_at as i128);
        if left < 0 || left > MAX_ROUTE_SECONDS as i128 {
            0
        } else {
            left as u64
        }
    }
}

/// The chat that `next_unjoined` finds waits, and no chat before it does;
/// where it finds none, no chat waits.
pub proof fn lemma_next_unjoined_is_first(chats: Seq<SessionChat>)
    ensures
        match next_unjoined(chats) {
            Some(i) => {
                &&& 0 <= i < chats.len()
                &&& chats[i].state == JoinState::Pending
                &&& forall|j: int| 0 <= j < i ==> (#[trigger] chats[j]).state != JoinState::Pending
            },
            None => forall|j: int|
                0 <= j < chats.len() ==> (#[trigger] chats[j]).state != JoinState::Pending,
        },
    decreases chats.len(),
{
    if chats.len() > 0 {
        let shorter = chats.drop_last();
        lemma_next_unjoined_is_first(shorter);
        assert(forall|j: int| 0 <= j < shorter.len() ==> shorter[j] == chats[j]);
    }
}

/// The first chat that waits in a prefix of the chats is the first that
/// waits in all of them.
pub proof fn lemma_next_unjoined_prefix(chats: Seq<SessionChat>, len: int)
    requires
        0 <= len <= chats.len(),
        next_unjoined(chats.subrange(0, len)) is Some,
    ensures
        next_unjoined(chats) == next_unjoined(chats.subrange(0, len)),
    decreases chats.len(),
{
    if len == chats.len() {
        assert(chats.subrange(0, len) =~= chats);
    } else {
        assert(chats.drop_last().subrange(0, len) =~= chats.subrange(0, len));
        lemma_next_unjoined_prefix(chats.drop_last(), len);
    }
}

/// The time that `last_joined_at` finds is the time of a joined chat, and
/// no chat was joined later; where it finds none, no chat is joined.
pub proof fn lemma_last_joined_is_latest(chats: Seq<SessionChat>)
    ensures
        match last_joined_at(chats) {
            Some(latest) => {
                &&& exists|i: int|
                    0 <= i < chats.len() && (#[trigger] chats[i]).state == JoinState::Joined(latest)
                &&& forall|j: int|
                    0 <= j < chats.len() ==> ((#[trigger] chats[j]).state matches JoinState::Joined(at)
                        ==> at <= latest)
            },
            None => forall|j: int|
                0 <= j < chats.len() ==> !((#[trigger] chats[j]).state is Joined),
        },
    decreases chats.len(),
{
    if chats.len() > 0 {
        let shorter = chats.drop_last();
        lemma_last_joined_is_latest(shorter);
        assert(forall|j: int| 0 <= j < shorter.len() ==> shorter[j] == chats[j]);
        match last_joined_at(chats) {
            Some(latest) => {
                if chats.last().state == JoinState::Joined(latest) {
                    assert(chats[chats.len() - 1].state == JoinState::Joined(latest));
                } else {
                    let i = choose|i: int|
                        0 <= i < shorter.len() && (#[trigger] shorter[i]).state == JoinState::Joined(
                            latest,
                        );
                    assert(chats[i].state == JoinState::Joined(latest));
                }
            },
            None => {},
        }
    }
}

/// The cooldown gates the join. While less than the cooldown has passed
/// since the latest join, a step is a wait for the rest of it. From then on
/// a step joins the first chat that waits; where none waits it scouts the
/// first location of the queue, and where the queue is empty it is done.
pub proof fn lemma_cooldown_gates_the_join(
    chats: Seq<SessionChat>,
    queue: Seq<Location>,
    now: i64,
    cooldown_seconds: u64,
)
    ensures
        (last_joined_at(chats) matches Some(at) && now - at < cooldown_seconds) ==> step_of(
            chats,
            queue,
            now,
            cooldown_seconds,
        ) == Step::Wait(capped(cooldown_seconds - (now - last_joined_at(chats).unwrap()))),
        !(last_joined_at(chats) matches Some(at) && now - at < cooldown_seconds) ==> step_of(
            chats,
            queue,
            now,
            cooldown_seconds,
        ) == match next_unjoined(chats) {
            Some(i) => Step::Join(chats[i].chat_id),
            None => if queue.len() > 0 {
                Step::Scout(queue[0])
            } else {
                Step::Done
            },
        },
        step_of(chats, queue, now, cooldown_seconds) == Step::Done <==> (cooldown_left(
            last_joined_at(chats),
            now,
            cooldown_seconds,
        ) <= 0 && next_unjoined(chats) is None && queue.len() == 0),
{
}

/// An ended join attempt touches the first waiting chat and no other: every
/// other chat, and so every chat that was joined or given up before, stays
/// as it was, and no chat changes its id or its place.
pub proof fn lemma_join_touches_only_next(
    chats: Seq<SessionChat>,
    outcome: JoinOutcome,
    now: i64,
    policy: JoinErrorPolicy,
)
    ensures
        chats_after(chats, outcome, now, policy).len() == chats.len(),
        forall|j: int|
            0 <= j < chats.len() ==> (#[trigger] chats_after(chats, outcome, now, policy)[j]).chat_id
                == chats[j].chat_id,
        forall|j: int|
            0 <= j < chats.len() && chats[j].state != JoinState::Pending ==> #[trigger] chats_after(
                chats,
                outcome,
                now,
                policy,
            )[j] == chats[j],
        forall|j: int|
            0 <= j < chats.len() && next_unjoined(chats) != Some(j) ==> #[trigger] chats_after(
                chats,
                outcome,
                now,
                policy,
            )[j] == chats[j],
        unique_ids(chats) ==> unique_ids(chats_after(chats, outcome, now, policy)),
{
    lemma_next_unjoined_is_first(chats);
}

/// A request to slow down leaves the session as it was, and the wait is the
/// one that was asked for.
pub proof fn lemma_rate_limit_changes_nothing(
    chats: Seq<SessionChat>,
    seconds: u64,
    now: i64,
    config: ScoutConfig,
)
    requires
        next_unjoined(chats) is Some,
    ensures
        chats_after(chats, JoinOutcome::RateLimited(seconds), now, config.on_join_error) == chats,
        state_after_join(chats, JoinOutcome::RateLimited(seconds), config.cooldown_seconds)
            == State::Wait(seconds),
{
    lemma_next_unjoined_is_first(chats);
    assert(chats_after(chats, JoinOutcome::RateLimited(seconds), now, config.on_join_error) =~= chats);
}

/// Putting a state in the place of another changes the number of waiting
/// chats by what the two states count.
pub proof fn lemma_pending_count_update(chats: Seq<SessionChat>, i: int, chat: SessionChat)
    requires
        0 <= i < chats.len(),
    ensures
        pending_count(chats.update(i, chat)) + (if chats[i].state == JoinState::Pending {
            1nat
        } else {
            0nat
        }) == pending_count(chats) + (if chat.state == JoinState::Pending {
            1nat
        } else {
            0nat
        }),
    decreases chats.len(),
{
    let updated = chats.update(i, chat);
    if i == chats.len() - 1 {
        assert(updated.drop_last() =~= chats.drop_last());
    } else {
        assert(updated.drop_last() =~= chats.drop_last().update(i, chat));
        lemma_pending_count_update(chats.drop_last(), i, chat);
    }
}

/// Every join attempt that ends in a join, or in giving the chat up, leaves
/// one chat less waiting; any other leaves as many. So a session is through
/// after as many such attempts as it has waiting chats.
pub proof fn lemma_join_progress(
    chats: Seq<SessionChat>,
    outcome: JoinOutcome,
    now: i64,
    policy: JoinErrorPolicy,
)
    ensures
        next_unjoined(chats) is None <==> pending_count(chats) == 0,
        pending_count(chats_after(chats, outcome, now, policy)) == if next_unjoined(chats) is Some
            && state_after(outcome, now, policy) != JoinState::Pending {
            pending_count(chats) - 1
        } else {
            pending_count(chats) as int
        },
{
    lemma_next_unjoined_is_first(chats);
    lemma_pending_count_is_zero(chats);
    match next_unjoined(chats) {
        Some(i) => {
            lemma_pending_count_update(
                chats,
                i,
                SessionChat { chat_id: chats[i].chat_id, state: state_after(outcome, now, policy) },
            );
        },
        None => {},
    }
}

/// No chat waits exactly when the number of waiting chats is zero.
pub proof fn lemma_pending_count_is_zero(chats: Seq<SessionChat>)
    ensures
        next_unjoined(chats) is None <==> pending_count(chats) == 0,
    decreases chats.len(),
{
    if chats.len() > 0 {
        lemma_pending_count_is_zero(chats.drop_last());
    }
}

} // verus!
