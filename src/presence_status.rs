//! The current presence status of each user.

use vstd::prelude::*;

use crate::clock::now_millis;
use crate::error::ApiError;
use crate::event_id::{fresh_id_shape, new_event_id};
use crate::presence_event::{next_entry, PresenceStreamEvent};
use crate::presence_state::PresenceState;
use crate::store::{event_id_taken, status_of, PresenceStore};
use crate::table::{
    find_keyed, lemma_find_some, contains_id, copy_text, has_id, index_of_key, lemma_find_at, lemma_find_none,
    lemma_find_push, lemma_find_update, Keyed,
};

verus! {

/// A presence status, not saved yet.
pub struct NewPresenceStatus {
    /// The user's ID.
    pub user_id: String,
    /// The event that produced this state.
    pub event_id: String,
    /// The presence state.
    pub presence: PresenceState,
    /// A possible status message from the user.
    pub status_msg: Option<String>,
}

impl NewPresenceStatus {
    /// The status as saved at time `updated_at`.
    pub fn into_saved(self, updated_at: u64) -> (r: PresenceStatus)
        ensures
            r == new_status(self.user_id, self.event_id, self.presence, self.status_msg, updated_at),
    {
        PresenceStatus {
            user_id: self.user_id,
            event_id: self.event_id,
            presence: self.presence,
            status_msg: self.status_msg,
            updated_at,
        }
    }
}

/// The stored presence status of a user.
#[derive(Debug)]
pub struct PresenceStatus {
    /// The user's ID.
    pub user_id: String,
    /// The event that produced this state.
    pub event_id: String,
    /// The presence state.
    pub presence: PresenceState,
    /// A possible status message from the user.
    pub status_msg: Option<String>,
    /// Milliseconds since the epoch of the last update.
    pub updated_at: u64,
}

impl Keyed for PresenceStatus {
    open spec fn key(&self) -> Seq<char> {
        self.user_id@
    }

    fn key_ref(&self) -> (r: &String) {
        &self.user_id
    }
}

impl Clone for PresenceStatus {
    fn clone(&self) -> (r: Self)
        ensures
            r == *self,
    {
        PresenceStatus {
            user_id: self.user_id.clone(),
            event_id: self.event_id.clone(),
            presence: self.presence,
            status_msg: copy_text(&self.status_msg),
            updated_at: self.updated_at,
        }
    }
}

/// The presence as reported to clients at a given moment.
#[derive(Debug, Clone, Copy, PartialEq, Eq, Structural)]
pub struct EffectivePresence {
    /// The presence state reported.
    pub presence: PresenceState,
    /// Whether the user counts as active right now.
    pub currently_active: bool,
    /// Milliseconds since the last update.
    pub last_active_ago: u64,
}

/// The presence reported at time `now` for a state stored at `updated_at`.
/// Without a timeout the stored state is reported as it is; with one, a stored
/// `online` older than the timeout is reported as `unavailable`. A user is
/// currently active when the reported state is `online`.
pub open spec fn projection(
    stored: PresenceState,
    updated_at: u64,
    now: u64,
    timeout_ms: Option<u64>,
) -> EffectivePresence {
    let ago = now - updated_at;
    let presence = match timeout_ms {
        Some(t) => if stored == PresenceState::Online && ago > t {
            PresenceState::Unavailable
        } else {
            stored
        },
        None => stored,
    };
    EffectivePresence {
        presence,
        currently_active: presence == PresenceState::Online,
        last_active_ago: ago as u64,
    }
}

/// The status row that an upsert writes.
pub open spec fn new_status(
    user_id: String,
    event_id: String,
    presence: PresenceState,
    status_msg: Option<String>,
    now: u64,
) -> PresenceStatus {
    PresenceStatus { user_id, event_id, presence, status_msg, updated_at: now }
}

/// `after` is `before` after an upsert of `user_id` at time `now`: the log has
/// one more transition, the user's status row is the new one, and nothing else
/// changed.
pub open spec fn upserted(
    before: PresenceStore,
    after: PresenceStore,
    event_id: String,
    user_id: String,
    presence: PresenceState,
    status_msg: Option<String>,
    now: u64,
) -> bool {
    &&& after.events@ == before.events@.push(
        next_entry(before, event_id, user_id, presence, now),
    )
    &&& after.next_ordering == before.next_ordering + 1
    &&& forall|u: Seq<char>|
        #[trigger] status_of(after, u) == if u == user_id@ {
            Some(new_status(user_id, event_id, presence, status_msg, now))
        } else {
            status_of(before, u)
        }
    &&& after.users@ == before.users@
    &&& after.profiles@ == before.profiles@
    &&& after.presence_list@ == before.presence_list@
}

/// The stored presence of `u`; a user without a status counts as `unavailable`.
pub open spec fn current_presence(store: PresenceStore, u: Seq<char>) -> PresenceState {
    match status_of(store, u) {
        Some(s) => s.presence,
        None => PresenceState::Unavailable,
    }
}

/// The stored status message of `u`, if any.
pub open spec fn current_status_msg(store: PresenceStore, u: Seq<char>) -> Option<String> {
    match status_of(store, u) {
        Some(s) => s.status_msg,
        None => None,
    }
}

/// The rows among `rows` of the users in `users` updated after `since`, in
/// table order.
pub open spec fn updated_since(
    rows: Seq<PresenceStatus>,
    users: Seq<String>,
    since: Option<u64>,
) -> Seq<PresenceStatus>
    decreases rows.len(),
{
    if rows.len() == 0 {
        Seq::empty()
    } else {
        let rest = updated_since(rows.drop_last(), users, since);
        let row = rows.last();
        if contains_id(users, row.user_id@) && match since {
            Some(t) => row.updated_at > t,
            None => true,
        } {
            rest.push(row)
        } else {
            rest
        }
    }
}

impl PresenceStatus {
    /// Milliseconds from `updated_at` to `now`; a clock that reads a time
    /// before `updated_at` is an error.
    pub fn calculate_time_difference(updated_at: u64, now: u64) -> (r: Result<u64, ApiError>)
        ensures
            now >= updated_at ==> r == Ok::<u64, ApiError>((now - updated_at) as u64),
            now < updated_at ==> r == Err::<u64, ApiError>(ApiError::ClockError),
    {
        if now < updated_at {
            Err(ApiError::ClockError)
        } else {
            Ok(now - updated_at)
        }
    }

    /// The presence reported at `now` for `presence` stored at `updated_at`.
    pub fn effective_presence(
        presence: PresenceState,
        updated_at: u64,
        now: u64,
        timeout_ms: Option<u64>,
    ) -> (r: Result<EffectivePresence, ApiError>)
        ensures
            now >= updated_at ==> r == Ok::<EffectivePresence, ApiError>(
                projection(presence, updated_at, now, timeout_ms),
            ),
            now < updated_at ==> r == Err::<EffectivePresence, ApiError>(ApiError::ClockError),
    {
        let ago = match PresenceStatus::calculate_time_difference(updated_at, now) {
            Ok(a) => a,
            Err(e) => return Err(e),
        };
        let reported = match timeout_ms {
            Some(t) => if presence == PresenceState::Online && ago > t {
                PresenceState::Unavailable
            } else {
                presence
            },
            None => presence,
        };
        Ok(
            EffectivePresence {
                presence: reported,
                currently_active: reported == PresenceState::Online,
                last_active_ago: ago,
            },
        )
    }

    /// The presence status of `user_id`, if one was ever recorded.
    pub fn find_by_uid(store: &PresenceStore, user_id: &String) -> (r: Option<PresenceStatus>)
        requires
            store.wf(),
        ensures
            r == status_of(*store, user_id@),
    {
        match index_of_key(&store.statuses, user_id) {
            Some(i) => {
                proof {
                    lemma_find_at(store.statuses@, user_id@, i as int);
                }
                Some(store.statuses[i].clone())
            },
            None => {
                proof {
                    lemma_find_none(store.statuses@, user_id@);
                }
                None
            },
        }
    }

    /// Records that `user_id` is now in `presence`, with `status_msg`, as
    /// the transition `event_id` made at time `now`: one transition is
    /// appended to the log and the user's status row is written or replaced.
    /// Fails, changing nothing, once the log's orderings are used up or where
    /// `event_id` is already used in the store.
    pub fn upsert_at(
        store: &mut PresenceStore,
        event_id: String,
        user_id: &String,
        presence: PresenceState,
        status_msg: Option<String>,
        now: u64,
    ) -> (r: Result<(), ApiError>)
        requires
            old(store).wf(),
        ensures
            final(store).wf(),
            old(store).next_ordering < i64::MAX && !event_id_taken(*old(store), event_id@) ==> r is Ok
                && upserted(
                *old(store),
                *final(store),
                event_id,
                *user_id,
                presence,
                status_msg,
                now,
            ),
            !(old(store).next_ordering < i64::MAX && !event_id_taken(*old(store), event_id@)) ==> r
                == Err::<(), ApiError>(ApiError::Internal) && *final(store) == *old(store),
    {
        if store.event_id_taken(&event_id) {
            return Err(ApiError::Internal);
        }
        match PresenceStreamEvent::insert(store, &event_id, user_id, presence, now) {
            Ok(_) => {},
            Err(e) => return Err(e),
        }
        let ghost logged = store.statuses@;
        let ghost row = new_status(*user_id, event_id, presence, status_msg, now);
        match index_of_key(&store.statuses, user_id) {
            Some(i) => {
                proof {
                    lemma_find_update(logged, i as int, row);
                }
                PresenceStatus::update(store, i, user_id, presence, status_msg, event_id, now);
            },
            None => {
                proof {
                    lemma_find_none(logged, row.key());
                    lemma_find_push(logged, row);
                }
                let new_row = NewPresenceStatus {
                    user_id: user_id.clone(),
                    event_id,
                    presence,
                    status_msg,
                };
                PresenceStatus::create(store, new_row, now);
            },
        }
        Ok(())
    }

    /// Rewrites the status row at position `i`, which belongs to `user_id`,
    /// with a new state, message, event and update time.
    fn update(
        store: &mut PresenceStore,
        i: usize,
        user_id: &String,
        presence: PresenceState,
        status_msg: Option<String>,
        event_id: String,
        now: u64,
    )
        requires
            i < old(store).statuses@.len(),
        ensures
            final(store).statuses@ == old(store).statuses@.update(
                i as int,
                new_status(*user_id, event_id, presence, status_msg, now),
            ),
            final(store).users@ == old(store).users@,
            final(store).profiles@ == old(store).profiles@,
            final(store).events@ == old(store).events@,
            final(store).presence_list@ == old(store).presence_list@,
            final(store).next_ordering == old(store).next_ordering,
    {
        let row = PresenceStatus {
            user_id: user_id.clone(),
            event_id,
            presence,
            status_msg,
            updated_at: now,
        };
        store.statuses.set(i, row);
    }

    /// Adds the status row `new_row`, saved at time `now`.
    fn create(store: &mut PresenceStore, new_row: NewPresenceStatus, now: u64)
        requires
            find_keyed(old(store).statuses@, new_row.user_id@) is None,
        ensures
            final(store).statuses@ == old(store).statuses@.push(
                new_status(new_row.user_id, new_row.event_id, new_row.presence, new_row.status_msg, now),
            ),
            final(store).users@ == old(store).users@,
            final(store).profiles@ == old(store).profiles@,
            final(store).events@ == old(store).events@,
            final(store).presence_list@ == old(store).presence_list@,
            final(store).next_ordering == old(store).next_ordering,
    {
        store.statuses.push(new_row.into_saved(now));
    }

    /// Records that `user_id` is now in `presence`, with `status_msg`, under a
    /// fresh event identifier of `homeserver_domain` and at the current time.
    /// An identifier already used in the store, a domain that is no valid
    /// host, or used-up orderings are internal errors; a clock outside the
    /// range of `u64` is a clock error. On failure nothing changes.
    pub fn upsert(
        store: &mut PresenceStore,
        homeserver_domain: &str,
        user_id: &String,
        presence: PresenceState,
        status_msg: Option<String>,
    ) -> (r: Result<(), ApiError>)
        requires
            old(store).wf(),
        ensures
            final(store).wf(),
            r is Ok ==> exists|event_id: String, now: u64|
                #[trigger] upserted(
                    *old(store),
                    *final(store),
                    event_id,
                    *user_id,
                    presence,
                    status_msg,
                    now,
                ) && fresh_id_shape(event_id@) && !event_id_taken(*old(store), event_id@),
            r matches Err(e) ==> e == ApiError::Internal || e == ApiError::ClockError,
            old(store).next_ordering == i64::MAX ==> r is Err,
            r is Err ==> *final(store) == *old(store),
    {
        let event_id = match new_event_id(homeserver_domain) {
            Ok(id) => id,
            Err(e) => return Err(e),
        };
        let now = match now_millis() {
            Ok(t) => t,
            Err(e) => return Err(e),
        };
        PresenceStatus::upsert_at(store, event_id, user_id, presence, status_msg, now)
    }

    /// Writes the current presence of `user_id` again, refreshing its update
    /// time; a user without a status becomes `unavailable`. On failure nothing
    /// changes.
    pub fn update_by_uid_and_status(
        store: &mut PresenceStore,
        homeserver_domain: &str,
        user_id: &String,
    ) -> (r: Result<(), ApiError>)
        requires
            old(store).wf(),
        ensures
            final(store).wf(),
            r is Ok ==> exists|event_id: String, now: u64|
                #[trigger] upserted(
                    *old(store),
                    *final(store),
                    event_id,
                    *user_id,
                    current_presence(*old(store), user_id@),
                    current_status_msg(*old(store), user_id@),
                    now,
                ) && fresh_id_shape(event_id@) && !event_id_taken(*old(store), event_id@) && (
                status_of(*old(store), user_id@) matches Some(st) ==> st.event_id@ != event_id@),
            r matches Err(e) ==> e == ApiError::Internal || e == ApiError::ClockError,
            old(store).next_ordering == i64::MAX ==> r is Err,
            r is Err ==> *final(store) == *old(store),
    {
        proof {
            lemma_find_some(old(store).statuses@, user_id@);
        }
        let (presence, status_msg) = match PresenceStatus::find_by_uid(store, user_id) {
            Some(status) => (status.presence, status.status_msg),
            None => (PresenceState::Unavailable, None),
        };
        PresenceStatus::upsert(store, homeserver_domain, user_id, presence, status_msg)
    }

    /// The status rows of the users in `users` updated after `since`.
    pub fn get_users(store: &PresenceStore, users: &Vec<String>, since: Option<u64>) -> (r: Vec<
        PresenceStatus,
    >)
        ensures
            r@ == updated_since(store.statuses@, users@, since),
    {
        let mut found: Vec<PresenceStatus> = Vec::new();
        let mut i: usize = 0;
        while i < store.statuses.len()
            invariant
                i <= store.statuses@.len(),
                found@ == updated_since(store.statuses@.take(i as int), users@, since),
            decreases store.statuses@.len() - i,
        {
            assert(store.statuses@.take(i as int + 1).drop_last() =~= store.statuses@.take(
                i as int,
            ));
            let row = &store.statuses[i];
            let recent = match since {
                Some(t) => row.updated_at > t,
                None => true,
            };
            if has_id(users, &row.user_id) && recent {
                found.push(row.clone());
            }
            i = i + 1;
        }
        assert(store.statuses@.take(store.statuses@.len() as int) =~= store.statuses@);
        found
    }
}

} // verus!
