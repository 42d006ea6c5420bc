//! The rows that the scout and its companions keep in the store.

use vstd::prelude::*;
use crate::location::Location;

verus! {

/// In `joined_at`, the time that marks a chat of which the account was a
/// member already when the chat was discovered.
pub const ALREADY_MEMBER: i64 = 0;

/// One discovered chat, as it is kept in the store under its `chat_id`.
///
/// `joined_at` is empty while the chat waits to be joined, `ALREADY_MEMBER`
/// where no join was needed, and otherwise the time of the join in seconds
/// since the epoch.
#[derive(Clone, Copy, Debug, PartialEq, Eq, Hash, Structural)]
pub struct ScoutedChat {
    pub chat_id: i64,
    pub location: Location,
    pub scouted_at: i64,
    pub joined_at: Option<i64>,
}

impl ScoutedChat {
    /// The key of the row.
    pub fn get_id(&self) -> (id: i64)
        ensures
            id == self.chat_id,
    {
        self.chat_id
    }
}

/// An account that was marked as a scammer.
#[derive(Clone, Copy, Debug, PartialEq, Eq, Hash, Structural)]
pub struct Scammer {
    pub user_id: i64,
}

impl Scammer {
    /// The key of the row.
    pub fn get_id(&self) -> (id: i64)
        ensures
            id == self.user_id,
    {
        self.user_id
    }
}

} // verus!
