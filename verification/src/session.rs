//! The session: the chats found at one location, each with the state of its
//! join. A session is made by a discovery pass or rebuilt from the rows of
//! the store.

use vstd::prelude::*;
use crate::clock::unix_now;
use crate::location::Location;
use crate::models::{ScoutedChat, ALREADY_MEMBER};
use crate::remote::{
    already_member, can_join_chat, group_of, is_eligible, is_member, membership_query, ChatRecord,
    MembershipStatus,
};

verus! {

/// Where a chat of the session stands.
#[derive(Clone, Copy, Debug, PartialEq, Eq, Hash, Structural)]
pub enum JoinState {
    /// Waiting to be joined.
    Pending,
    /// Joined at the given time, or a member from the start where the time
    /// is `ALREADY_MEMBER`.
    Joined(i64),
    /// Given up after a failed attempt. The store does not learn of it: the
    /// chat's row stays without a time.
    Abandoned,
}

/// One chat of a session.
#[derive(Clone, Copy, Debug, PartialEq, Eq, Hash, Structural)]
pub struct SessionChat {
    pub chat_id: i64,
    pub state: JoinState,
}

/// What the directory told of one chat that a search found nearby: its
/// record and the account's standing in its group, each as far as it could be
/// resolved.
#[derive(Clone, Copy, Debug, PartialEq, Eq, Hash, Structural)]
pub struct Candidate {
    pub chat: Option<ChatRecord>,
    pub status: Option<MembershipStatus>,
}

/// The outcome of one discovery pass: the chats found at `location` at the
/// time `scouted_at`, in the order in which they are to be joined.
#[derive(Clone, Debug, PartialEq, Eq)]
pub struct ScoutedLocation {
    pub location: Location,
    pub scouted_at: i64,
    pub chats: Vec<SessionChat>,
}

/// The state that a row's `joined_at` stands for.
pub open spec fn state_of(joined_at: Option<i64>) -> JoinState {
    match joined_at {
        Some(at) => JoinState::Joined(at),
        None => JoinState::Pending,
    }
}

/// What a row's `joined_at` holds for a chat in the given state.
pub open spec fn joined_at_of(state: JoinState) -> Option<i64> {
    match state {
        JoinState::Joined(at) => Some(at),
        _ => None,
    }
}

/// The row that the store keeps for a chat of a session.
pub open spec fn row_of(location: Location, scouted_at: i64, chat: SessionChat) -> ScoutedChat {
    ScoutedChat { chat_id: chat.chat_id, location, scouted_at, joined_at: joined_at_of(chat.state) }
}

/// The rows of the chats of a session, in their order.
pub open spec fn rows_of(location: Location, scouted_at: i64, chats: Seq<SessionChat>) -> Seq<
    ScoutedChat,
> {
    Seq::new(chats.len(), |i: int| row_of(location, scouted_at, chats[i]))
}

/// Whether a chat with this id is among the chats.
pub open spec fn has_chat(chats: Seq<SessionChat>, chat_id: i64) -> bool {
    exists|i: int| 0 <= i < chats.len() && (#[trigger] chats[i]).chat_id == chat_id
}

/// Whether no id occurs twice among the chats.
pub open spec fn unique_ids(chats: Seq<SessionChat>) -> bool {
    forall|i: int, j: int|
        0 <= i < j < chats.len() ==> (#[trigger] chats[i]).chat_id != (#[trigger] chats[j]).chat_id
}

/// What a discovery pass makes of one candidate: nothing where its record or
/// standing is missing, where it is no group, or where it may not be joined;
/// else a chat that is joined already or waits to be.
pub open spec fn verdict(candidate: Candidate) -> Option<SessionChat> {
    match (candidate.chat, candidate.status) {
        (Some(chat), Some(status)) => if group_of(chat) is Some && is_eligible(chat, status) {
            Some(
                SessionChat {
                    chat_id: chat.id,
                    state: if is_member(status) {
                        JoinState::Joined(ALREADY_MEMBER)
                    } else {
                        JoinState::Pending
                    },
                },
            )
        } else {
            None
        },
        _ => None,
    }
}

/// The chat that a candidate adds to the chats found so far: the one of its
/// verdict, unless a chat with that id was found before.
pub open spec fn accepted(chats: Seq<SessionChat>, candidate: Candidate) -> Option<SessionChat> {
    match verdict(candidate) {
        Some(chat) => if has_chat(chats, chat.chat_id) {
            None
        } else {
            Some(chat)
        },
        None => None,
    }
}

/// The chats of the session that a discovery pass makes of the candidates.
pub open spec fn discovered(candidates: Seq<Candidate>) -> Seq<SessionChat>
    decreases candidates.len(),
{
    if candidates.len() == 0 {
        Seq::empty()
    } else {
        let before = discovered(candidates.drop_last());
        match accepted(before, candidates.last()) {
            Some(chat) => before.push(chat),
            None => before,
        }
    }
}

/// Whether row `i` is the row that a resumed session is built around: the
/// first of the rows with the largest `scouted_at`.
pub open spec fn is_latest(rows: Seq<ScoutedChat>, i: int) -> bool {
    &&& 0 <= i < rows.len()
    &&& forall|j: int| 0 <= j < rows.len() ==> (#[trigger] rows[j]).scouted_at <= rows[i].scouted_at
    &&& forall|j: int| 0 <= j < i ==> (#[trigger] rows[j]).scouted_at < rows[i].scouted_at
}

/// Whether a row is of the discovery pass at `location` at `scouted_at`.
pub open spec fn belongs(row: ScoutedChat, location: Location, scouted_at: i64) -> bool {
    row.location == location && row.scouted_at == scouted_at
}

/// The chats of the session that the rows hold for one discovery pass: the
/// rows of that pass in their order, each id once.
pub open spec fn resumed(rows: Seq<ScoutedChat>, location: Location, scouted_at: i64) -> Seq<
    SessionChat,
>
    decreases rows.len(),
{
    if rows.len() == 0 {
        Seq::empty()
    } else {
        let before = resumed(rows.drop_last(), location, scouted_at);
        let row = rows.last();
        if belongs(row, location, scouted_at) && !has_chat(before, row.chat_id) {
            before.push(SessionChat { chat_id: row.chat_id, state: state_of(row.joined_at) })
        } else {
            before
        }
    }
}

impl ScoutedLocation {
    /// A session is well formed when no chat occurs twice in it.
    pub open spec fn wf(&self) -> bool {
        unique_ids(self.chats@)
    }

    /// The session of a location at which nothing was found yet.
    pub fn new(location: Location, scouted_at: i64) -> (session: ScoutedLocation)
        ensures
            session.location == location,
            session.scouted_at == scouted_at,
            session.chats@ == Seq::<SessionChat>::empty(),
            session.wf(),
    {
        ScoutedLocation { location, scouted_at, chats: Vec::new() }
    }

    /// The session of a discovery pass at `location` that begins now: no
    /// chat is in it yet.
    pub fn begin(location: Location) -> (session: ScoutedLocation)
        ensures
            session.location == location,
            session.chats@ == Seq::<SessionChat>::empty(),
            session.wf(),
    {
        ScoutedLocation::new(location, unix_now())
    }

    /// Whether a chat with this id is in the session.
    pub fn contains_chat(&self, chat_id: i64) -> (found: bool)
        ensures
            found == has_chat(self.chats@, chat_id),
    {
        let mut i: usize = 0;
        while i < self.chats.len()
            invariant
                i <= self.chats.len(),
                forall|k: int| 0 <= k < i ==> (#[trigger] self.chats@[k]).chat_id != chat_id,
            decreases self.chats.len() - i,
        {
            if self.chats[i].chat_id == chat_id {
                return true;
            }
            i = i + 1;
        }
        false
    }

    /// Takes one candidate of a discovery pass into the session. Where the
    /// candidate is accepted, its chat is added at the end and its row is
    /// handed out to be stored; where it is not, nothing changes.
    pub fn consider(&mut self, candidate: &Candidate) -> (row: Option<ScoutedChat>)
        ensures
            final(self).location == old(self).location,
            final(self).scouted_at == old(self).scouted_at,
            match accepted(old(self).chats@, *candidate) {
                Some(chat) => final(self).chats@ == old(self).chats@.push(chat) && row == Some(
                    row_of(old(self).location, old(self).scouted_at, chat),
                ),
                None => final(self).chats@ == old(self).chats@ && row is None,
            },
            old(self).wf() ==> final(self).wf(),
    {
        let chat = match candidate.chat {
            Some(chat) => chat,
            None => {
                return None;
            },
        };
        let status = match candidate.status {
            Some(status) => status,
            None => {
                return None;
            },
        };
        if membership_query(&chat).is_none() || !can_join_chat(&chat, &status) {
            return None;
        }
        if self.contains_chat(chat.id) {
            return None;
        }
        let state = if already_member(&status) {
            JoinState::Joined(ALREADY_MEMBER)
        } else {
            JoinState::Pending
        };
        self.chats.push(SessionChat { chat_id: chat.id, state });
        Some(
            ScoutedChat {
                chat_id: chat.id,
                location: self.location,
                scouted_at: self.scouted_at,
                joined_at: match state {
                    JoinState::Joined(at) => Some(at),
                    _ => None,
                },
            },
        )
    }

    /// The session of a discovery pass over `candidates` at `location` that
    /// is made now, with the rows to store for it.
    pub fn from_location(location: Location, candidates: &Vec<Candidate>) -> (found: (
        ScoutedLocation,
        Vec<ScoutedChat>,
    ))
        ensures
            found.0.location == location,
            found.0.chats@ == discovered(candidates@),
            found.1@ == rows_of(location, found.0.scouted_at, discovered(candidates@)),
            found.0.wf(),
    {
        ScoutedLocation::from_location_at(location, unix_now(), candidates)
    }

    /// The session of a discovery pass over `candidates` at `location` at
    /// the time `scouted_at`, with the rows to store for it, one for each
    /// chat of the session.
    pub fn from_location_at(location: Location, scouted_at: i64, candidates: &Vec<Candidate>) -> (found:
        (ScoutedLocation, Vec<ScoutedChat>))
        ensures
            found.0.location == location,
            found.0.scouted_at == scouted_at,
            found.0.chats@ == discovered(candidates@),
            found.1@ == rows_of(location, scouted_at, discovered(candidates@)),
            found.0.wf(),
    {
        let mut session = ScoutedLocation::new(location, scouted_at);
        let mut rows: Vec<ScoutedChat> = Vec::new();
        let mut i: usize = 0;
        assert(candidates@.subrange(0, 0) =~= Seq::<Candidate>::empty());
        while i < candidates.len()
            invariant
                i <= candidates.len(),
                session.location == location,
                session.scouted_at == scouted_at,
                session.chats@ == discovered(candidates@.subrange(0, i as int)),
                rows@ == rows_of(location, scouted_at, session.chats@),
                session.wf(),
            decreases candidates.len() - i,
        {
            proof {
                let longer = candidates@.subrange(0, i + 1);
                assert(longer.drop_last() =~= candidates@.subrange(0, i as int));
                assert(longer.last() == candidates@[i as int]);
            }
            match session.consider(&candidates[i]) {
                Some(row) => {
                    rows.push(row);
                },
                None => {},
            }
            assert(rows@ =~= rows_of(location, scouted_at, session.chats@));
            i = i + 1;
        }
        assert(candidates@.subrange(0, candidates.len() as int) =~= candidates@);
        (session, rows)
    }

    /// Rebuilds the session to resume from the rows of the store: the chats
    /// of the latest discovery pass. There is none if the store is empty.
    pub fn from_database(rows: &Vec<ScoutedChat>) -> (session: Option<ScoutedLocation>)
        ensures
            session is None <==> rows@.len() == 0,
            session matches Some(resumed_session) ==> {
                &&& exists|i: int|
                    is_latest(rows@, i) && belongs(
                        #[trigger] rows@[i],
                        resumed_session.location,
                        resumed_session.scouted_at,
                    )
                &&& resumed_session.chats@ == resumed(
                    rows@,
                    resumed_session.location,
                    resumed_session.scouted_at,
                )
                &&& resumed_session.wf()
            },
    {
        if rows.len() == 0 {
            return None;
        }
        let mut latest: usize = 0;
        let mut i: usize = 1;
        while i < rows.len()
            invariant
                1 <= i <= rows.len(),
                latest < i,
                is_latest(rows@.subrange(0, i as int), latest as int),
            decreases rows.len() - i,
        {
            let ghost seen = rows@.subrange(0, i as int);
            let ghost longer = rows@.subrange(0, i + 1);
            if rows[i].scouted_at > rows[latest].scouted_at {
                assert forall|j: int| 0 <= j < longer.len() implies (#[trigger] longer[j]).scouted_at
                    <= longer[i as int].scouted_at by {
                    if j < i {
                        assert(seen[j].scouted_at <= seen[latest as int].scouted_at);
                    }
                }
                assert forall|j: int| 0 <= j < i implies (#[trigger] longer[j]).scouted_at
                    < longer[i as int].scouted_at by {
                    assert(seen[j].scouted_at <= seen[latest as int].scouted_at);
                }
                latest = i;
            } else {
                assert forall|j: int| 0 <= j < longer.len() implies (#[trigger] longer[j]).scouted_at
                    <= longer[latest as int].scouted_at by {
                    if j < i {
                        assert(seen[j].scouted_at <= seen[latest as int].scouted_at);
                    }
                }
                assert forall|j: int| 0 <= j < latest implies (#[trigger] longer[j]).scouted_at
                    < longer[latest as int].scouted_at by {
                    assert(seen[j].scouted_at < seen[latest as int].scouted_at);
                }
            }
            i = i + 1;
        }
        assert(rows@.subrange(0, rows.len() as int) =~= rows@);
        let location = rows[latest].location;
        let scouted_at = rows[latest].scouted_at;
        let mut session = ScoutedLocation::new(location, scouted_at);
        let mut k: usize = 0;
        assert(rows@.subrange(0, 0) =~= Seq::<ScoutedChat>::empty());
        while k < rows.len()
            invariant
                k <= rows.len(),
                session.location == location,
                session.scouted_at == scouted_at,
                session.chats@ == resumed(rows@.subrange(0, k as int), location, scouted_at),
                session.wf(),
            decreases rows.len() - k,
        {
            proof {
                let longer = rows@.subrange(0, k + 1);
                assert(longer.drop_last() =~= rows@.subrange(0, k as int));
                assert(longer.last() == rows@[k as int]);
            }
            let row = rows[k];
            if row.location == location && row.scouted_at == scouted_at && !session.contains_chat(
                row.chat_id,
            ) {
                let state = match row.joined_at {
                    Some(at) => JoinState::Joined(at),
                    None => JoinState::Pending,
                };
                session.chats.push(SessionChat { chat_id: row.chat_id, state });
            }
            k = k + 1;
        }
        assert(rows@.subrange(0, rows.len() as int) =~= rows@);
        Some(session)
    }

    /// The session to start from now: the one that the rows of the store
    /// hold, or, where they hold none, an empty one at `location`.
    pub fn init(rows: &Vec<ScoutedChat>, location: Location) -> (session: ScoutedLocation)
        ensures
            rows@.len() == 0 ==> session.location == location && session.chats@ == Seq::<
                SessionChat,
            >::empty(),
            rows@.len() > 0 ==> {
                &&& exists|i: int|
                    is_latest(rows@, i) && belongs(
                        #[trigger] rows@[i],
                        session.location,
                        session.scouted_at,
                    )
                &&& session.chats@ == resumed(rows@, session.location, session.scouted_at)
            },
            session.wf(),
    {
        ScoutedLocation::init_at(rows, location, unix_now())
    }

    /// The session to start from at `now`: the one that the rows of the
    /// store hold, or, where they hold none, an empty one at `location`.
    pub fn init_at(rows: &Vec<ScoutedChat>, location: Location, now: i64) -> (session: ScoutedLocation)
        ensures
            rows@.len() == 0 ==> session.location == location && session.scouted_at == now
                && session.chats@ == Seq::<SessionChat>::empty(),
            rows@.len() > 0 ==> {
                &&& exists|i: int|
                    is_latest(rows@, i) && belongs(
                        #[trigger] rows@[i],
                        session.location,
                        session.scouted_at,
                    )
                &&& session.chats@ == resumed(rows@, session.location, session.scouted_at)
            },
            session.wf(),
    {
        match ScoutedLocation::from_database(rows) {
            Some(session) => session,
            None => ScoutedLocation::new(location, now),
        }
    }
}

/// In the session of a discovery pass no chat occurs twice, and a chat is in
/// it exactly when a candidate with its id was found fit to join or joined
/// already.
pub proof fn lemma_discovered(candidates: Seq<Candidate>, chat_id: i64)
    ensures
        unique_ids(discovered(candidates)),
        discovered(candidates).len() <= candidates.len(),
        has_chat(discovered(candidates), chat_id) <==> exists|i: int|
            0 <= i < candidates.len() && (verdict(#[trigger] candidates[i]) matches Some(chat)
                && chat.chat_id == chat_id),
    decreases candidates.len(),
{
    let found = discovered(candidates);
    if candidates.len() > 0 {
        let shorter = candidates.drop_last();
        let before = discovered(shorter);
        lemma_discovered(shorter, chat_id);
        assert(forall|i: int| 0 <= i < shorter.len() ==> shorter[i] == candidates[i]);
        match accepted(before, candidates.last()) {
            Some(chat) => {
                assert(forall|i: int| 0 <= i < before.len() ==> found[i] == before[i]);
                assert(found[before.len() as int] == chat);
                assert(verdict(candidates[candidates.len() - 1]) == Some(chat));
                if has_chat(before, chat_id) {
                    let k = choose|k: int| 0 <= k < before.len() && (#[trigger] before[k]).chat_id == chat_id;
                    assert(found[k].chat_id == chat_id);
                }
            },
            None => {},
        }
        if has_chat(found, chat_id) && !has_chat(before, chat_id) {
            let k = choose|k: int| 0 <= k < found.len() && (#[trigger] found[k]).chat_id == chat_id;
            assert(k < before.len() ==> before[k].chat_id == chat_id);
        }
        if exists|i: int|
            0 <= i < candidates.len() && (verdict(#[trigger] candidates[i]) matches Some(chat)
                && chat.chat_id == chat_id) {
            let i = choose|i: int|
                0 <= i < candidates.len() && (verdict(#[trigger] candidates[i]) matches Some(chat)
                    && chat.chat_id == chat_id);
            if i < shorter.len() {
                assert(verdict(shorter[i]) matches Some(chat) && chat.chat_id == chat_id);
            } else if !has_chat(before, chat_id) {
                assert(found[found.len() - 1].chat_id == chat_id);
            }
        }
    }
}

/// In a resumed session no chat occurs twice, and a chat is in it exactly
/// when one of the rows of its discovery pass is the chat's.
pub proof fn lemma_resumed(
    rows: Seq<ScoutedChat>,
    location: Location,
    scouted_at: i64,
    chat_id: i64,
)
    ensures
        unique_ids(resumed(rows, location, scouted_at)),
        resumed(rows, location, scouted_at).len() <= rows.len(),
        has_chat(resumed(rows, location, scouted_at), chat_id) <==> exists|i: int|
            0 <= i < rows.len() && belongs(#[trigger] rows[i], location, scouted_at) && rows[i].chat_id
                == chat_id,
    decreases rows.len(),
{
    let session = resumed(rows, location, scouted_at);
    if rows.len() > 0 {
        let shorter = rows.drop_last();
        let before = resumed(shorter, location, scouted_at);
        let row = rows.last();
        lemma_resumed(shorter, location, scouted_at, chat_id);
        assert(forall|i: int| 0 <= i < shorter.len() ==> shorter[i] == rows[i]);
        if belongs(row, location, scouted_at) && !has_chat(before, row.chat_id) {
            assert(forall|i: int| 0 <= i < before.len() ==> session[i] == before[i]);
            assert(session[before.len() as int].chat_id == row.chat_id);
            if has_chat(before, chat_id) {
                let k = choose|k: int| 0 <= k < before.len() && (#[trigger] before[k]).chat_id == chat_id;
                assert(session[k].chat_id == chat_id);
            }
        }
        if has_chat(session, chat_id) && !has_chat(before, chat_id) {
            let k = choose|k: int| 0 <= k < session.len() && (#[trigger] session[k]).chat_id == chat_id;
            assert(k < before.len() ==> before[k].chat_id == chat_id);
            assert(belongs(rows[rows.len() - 1], location, scouted_at));
        }
        if exists|i: int|
            0 <= i < rows.len() && belongs(#[trigger] rows[i], location, scouted_at) && rows[i].chat_id
                == chat_id {
            let i = choose|i: int|
                0 <= i < rows.len() && belongs(#[trigger] rows[i], location, scouted_at)
                    && rows[i].chat_id == chat_id;
            if i < shorter.len() {
                assert(belongs(shorter[i], location, scouted_at) && shorter[i].chat_id == chat_id);
            } else if !has_chat(before, chat_id) {
                assert(session[session.len() - 1].chat_id == chat_id);
            }
        }
    }
}

/// The row around which a session is resumed is one row and no other: the
/// rows settle which discovery pass is resumed.
pub proof fn lemma_latest_is_one(rows: Seq<ScoutedChat>, i: int, j: int)
    requires
        is_latest(rows, i),
        is_latest(rows, j),
    ensures
        i == j,
{
    if i < j {
        assert(rows[i].scouted_at < rows[j].scouted_at);
        assert(rows[j].scouted_at <= rows[i].scouted_at);
    } else if j < i {
        assert(rows[j].scouted_at < rows[i].scouted_at);
        assert(rows[i].scouted_at <= rows[j].scouted_at);
    }
}

} // verus!
