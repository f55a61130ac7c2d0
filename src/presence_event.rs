//! The transition log: every presence change, in a global order.

use vstd::prelude::*;

use crate::error::ApiError;
use crate::presence_state::PresenceState;
use crate::store::{profile_of, PresenceStore};
use crate::table::copy_text;

verus! {

/// A presence transition, not saved yet.
pub struct NewPresenceStreamEvent {
    /// The unique event ID.
    pub event_id: String,
    /// The user's ID.
    pub user_id: String,
    /// The presence state after the transition.
    pub presence: PresenceState,
    /// The user's avatar URL when the transition happened.
    pub avatar_url: Option<String>,
    /// The user's display name when the transition happened.
    pub displayname: Option<String>,
}

impl NewPresenceStreamEvent {
    /// The transition as saved at position `ordering` and time `created_at`.
    pub fn into_saved(self, ordering: i64, created_at: u64) -> (r: PresenceStreamEvent)
        ensures
            r == (PresenceStreamEvent {
                ordering,
                event_id: self.event_id,
                user_id: self.user_id,
                presence: self.presence,
                avatar_url: self.avatar_url,
                displayname: self.displayname,
                created_at,
            }),
    {
        PresenceStreamEvent {
            ordering,
            event_id: self.event_id,
            user_id: self.user_id,
            presence: self.presence,
            avatar_url: self.avatar_url,
            displayname: self.displayname,
            created_at,
        }
    }
}

/// A saved presence transition.
#[derive(Debug)]
pub struct PresenceStreamEvent {
    /// The position of the transition in the log.
    pub ordering: i64,
    /// The unique event ID.
    pub event_id: String,
    /// The user's ID.
    pub user_id: String,
    /// The presence state after the transition.
    pub presence: PresenceState,
    /// The user's avatar URL when the transition happened.
    pub avatar_url: Option<String>,
    /// The user's display name when the transition happened.
    pub displayname: Option<String>,
    /// Milliseconds since the epoch when the transition was saved.
    pub created_at: u64,
}

impl Clone for PresenceStreamEvent {
    fn clone(&self) -> (r: Self)
        ensures
            r == *self,
    {
        PresenceStreamEvent {
            ordering: self.ordering,
            event_id: self.event_id.clone(),
            user_id: self.user_id.clone(),
            presence: self.presence,
            avatar_url: copy_text(&self.avatar_url),
            displayname: copy_text(&self.displayname),
            created_at: self.created_at,
        }
    }
}

/// The log is ordered by strictly increasing positions, all below the next one to hand out.
pub open spec fn log_wf(events: Seq<PresenceStreamEvent>, next_ordering: i64) -> bool {
    &&& 1 <= next_ordering
    &&& forall|i: int, j: int|
        0 <= i < j < events.len() ==> #[trigger] events[i].ordering < #[trigger] events[j].ordering
    &&& forall|i: int| 0 <= i < events.len() ==> 1 <= #[trigger] events[i].ordering < next_ordering
}

/// The transition that the log of `store` receives next for `user_id`, with
/// the profile the user has at that moment.
pub open spec fn next_entry(
    store: PresenceStore,
    event_id: String,
    user_id: String,
    presence: PresenceState,
    now: u64,
) -> PresenceStreamEvent {
    PresenceStreamEvent {
        ordering: store.next_ordering,
        event_id,
        user_id,
        presence,
        avatar_url: match profile_of(store, user_id@) {
            Some(p) => p.avatar_url,
            None => None,
        },
        displayname: match profile_of(store, user_id@) {
            Some(p) => p.displayname,
            None => None,
        },
        created_at: now,
    }
}

/// `after` is `before` with `entry` appended to its log and nothing else changed.
pub open spec fn log_appended(
    before: PresenceStore,
    after: PresenceStore,
    entry: PresenceStreamEvent,
) -> bool {
    &&& after.events@ == before.events@.push(entry)
    &&& after.next_ordering == before.next_ordering + 1
    &&& after.users@ == before.users@
    &&& after.profiles@ == before.profiles@
    &&& after.statuses@ == before.statuses@
    &&& after.presence_list@ == before.presence_list@
}

/// Whether a transition at `ordering` lies after the cursor `since`.
pub open spec fn after_cursor(ordering: i64, since: Option<i64>) -> bool {
    match since {
        Some(c) => ordering > c,
        None => true,
    }
}

/// The latest transition of `u` after the cursor `since`.
pub open spec fn latest_entry(
    events: Seq<PresenceStreamEvent>,
    u: Seq<char>,
    since: Option<i64>,
) -> Option<PresenceStreamEvent>
    decreases events.len(),
{
    if events.len() == 0 {
        None
    } else if events.last().user_id@ == u && after_cursor(events.last().ordering, since) {
        Some(events.last())
    } else {
        latest_entry(events.drop_last(), u, since)
    }
}

/// For each user of `users` in turn, the latest transition after `since`,
/// where there is one.
pub open spec fn latest_per_user(
    events: Seq<PresenceStreamEvent>,
    users: Seq<String>,
    since: Option<i64>,
) -> Seq<PresenceStreamEvent>
    decreases users.len(),
{
    if users.len() == 0 {
        Seq::empty()
    } else {
        let rest = latest_per_user(events, users.drop_last(), since);
        match latest_entry(events, users.last()@, since) {
            Some(e) => rest.push(e),
            None => rest,
        }
    }
}

/// The latest transition of a user belongs to that user.
pub proof fn lemma_latest_entry_user(
    events: Seq<PresenceStreamEvent>,
    u: Seq<char>,
    since: Option<i64>,
)
    ensures
        latest_entry(events, u, since) matches Some(e) ==> e.user_id@ == u && after_cursor(
            e.ordering,
            since,
        ),
    decreases events.len(),
{
    if events.len() > 0 {
        lemma_latest_entry_user(events.drop_last(), u, since);
    }
}

impl PresenceStreamEvent {
    /// Appends a transition of `user_id` to `presence` to the log, with the
    /// next `ordering` and a snapshot of the user's profile. Fails, changing
    /// nothing, once the orderings are used up.
    pub fn insert(
        store: &mut PresenceStore,
        event_id: &String,
        user_id: &String,
        presence: PresenceState,
        now: u64,
    ) -> (r: Result<PresenceStreamEvent, ApiError>)
        requires
            old(store).wf(),
        ensures
            final(store).wf(),
            old(store).next_ordering < i64::MAX ==> {
                &&& r == Ok::<PresenceStreamEvent, ApiError>(
                    next_entry(*old(store), *event_id, *user_id, presence, now),
                )
                &&& log_appended(
                    *old(store),
                    *final(store),
                    next_entry(*old(store), *event_id, *user_id, presence, now),
                )
            },
            old(store).next_ordering == i64::MAX ==> r == Err::<PresenceStreamEvent, ApiError>(
                ApiError::Internal,
            ) && *final(store) == *old(store),
    {
        if store.next_ordering == i64::MAX {
            return Err(ApiError::Internal);
        }
        let profile = store.find_profile(user_id);
        let (avatar_url, displayname) = match profile {
            Some(p) => (p.avatar_url, p.displayname),
            None => (None, None),
        };
        let new_event = NewPresenceStreamEvent {
            event_id: event_id.clone(),
            user_id: user_id.clone(),
            presence,
            avatar_url,
            displayname,
        };
        let entry = new_event.into_saved(store.next_ordering, now);
        let saved = entry.clone();
        store.events.push(entry);
        store.next_ordering = store.next_ordering + 1;
        Ok(saved)
    }

    /// The latest transition of `user_id` after the cursor `since`.
    pub fn latest_for_user(store: &PresenceStore, user_id: &String, since: Option<i64>) -> (r:
        Option<PresenceStreamEvent>)
        ensures
            r == latest_entry(store.events@, user_id@, since),
    {
        let events = &store.events;
        let mut i: usize = events.len();
        assert(events@.take(events@.len() as int) =~= events@);
        while i > 0
            invariant
                events@ == store.events@,
                i <= events@.len(),
                latest_entry(events@, user_id@, since) == latest_entry(
                    events@.take(i as int),
                    user_id@,
                    since,
                ),
            decreases i,
        {
            assert(events@.take(i as int).drop_last() =~= events@.take(i as int - 1));
            assert(events@.take(i as int).last() == events@[i as int - 1]);
            let ghost prefix = events@.take(i as int);
            i = i - 1;
            let e = &events[i];
            let recent = match since {
                Some(c) => e.ordering > c,
                None => true,
            };
            if e.user_id == *user_id && recent {
                assert(latest_entry(prefix, user_id@, since) == Some(events@[i as int]));
                return Some(e.clone());
            }
        }
        assert(events@.take(0) =~= Seq::<PresenceStreamEvent>::empty());
        None
    }

    /// For each user of `users` in turn, the latest transition after `since`,
    /// where there is one.
    pub fn latest_per_user(store: &PresenceStore, users: &Vec<String>, since: Option<i64>) -> (r:
        Vec<PresenceStreamEvent>)
        ensures
            r@ == latest_per_user(store.events@, users@, since),
    {
        let mut found: Vec<PresenceStreamEvent> = Vec::new();
        let mut i: usize = 0;
        while i < users.len()
            invariant
                i <= users@.len(),
                found@ == latest_per_user(store.events@, users@.take(i as int), since),
            decreases users@.len() - i,
        {
            assert(users@.take(i as int + 1).drop_last() =~= users@.take(i as int));
            match PresenceStreamEvent::latest_for_user(store, &users[i], since) {
                Some(e) => found.push(e),
                None => {},
            }
            i = i + 1;
        }
        assert(users@.take(users@.len() as int) =~= users@);
        found
    }
}

} // verus!
