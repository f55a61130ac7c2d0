//! The presence snapshot that a polling client receives for its presence list.

use vstd::prelude::*;

use crate::clock::now_millis;
use crate::error::ApiError;
use crate::presence_event::{latest_per_user, PresenceStreamEvent};
use crate::presence_list::{observed_by, PresenceList};
use crate::presence_state::PresenceState;
use crate::presence_status::{projection, PresenceStatus};
use crate::store::PresenceStore;

verus! {

/// What a presence event tells about a user.
#[derive(Debug)]
pub struct PresenceEventContent {
    /// The user's avatar URL.
    pub avatar_url: Option<String>,
    /// Whether the user counts as active right now.
    pub currently_active: bool,
    /// The user's display name.
    pub displayname: Option<String>,
    /// Milliseconds since the user's last update.
    pub last_active_ago: u64,
    /// The presence state reported.
    pub presence: PresenceState,
    /// The user's ID.
    pub user_id: String,
}

/// A presence event as sent to clients.
#[derive(Debug)]
pub struct PresenceEvent {
    /// What the event tells.
    pub content: PresenceEventContent,
    /// The event that produced the state.
    pub event_id: String,
}

/// The event that a client receives at time `now` for the transition `e`.
pub open spec fn event_of(e: PresenceStreamEvent, now: u64, timeout_ms: Option<u64>) -> PresenceEvent {
    let p = projection(e.presence, e.created_at, now, timeout_ms);
    PresenceEvent {
        content: PresenceEventContent {
            avatar_url: e.avatar_url,
            currently_active: p.currently_active,
            displayname: e.displayname,
            last_active_ago: p.last_active_ago,
            presence: p.presence,
            user_id: e.user_id,
        },
        event_id: e.event_id,
    }
}

/// The events for the transitions `entries`, in their order.
pub open spec fn events_of(
    entries: Seq<PresenceStreamEvent>,
    now: u64,
    timeout_ms: Option<u64>,
) -> Seq<PresenceEvent> {
    entries.map_values(|e: PresenceStreamEvent| event_of(e, now, timeout_ms))
}

/// The cursor after a sync that returned `entries`: the largest of their
/// orderings, or the previous cursor (`-1` for none) when there are none
/// newer than it.
pub open spec fn cursor_of(entries: Seq<PresenceStreamEvent>, since: Option<i64>) -> i64
    decreases entries.len(),
{
    if entries.len() == 0 {
        match since {
            Some(c) => c,
            None => -1i64,
        }
    } else {
        let rest = cursor_of(entries.drop_last(), since);
        if entries.last().ordering > rest {
            entries.last().ordering
        } else {
            rest
        }
    }
}

/// The transitions that a sync of `o` after `since` reports: the latest one
/// of each observed user.
pub open spec fn sync_entries(store: PresenceStore, o: Seq<char>, since: Option<i64>) -> Seq<
    PresenceStreamEvent,
> {
    latest_per_user(store.events@, observed_by(store.presence_list@, o), since)
}

/// Whether none of `entries` was saved after `now`.
pub open spec fn clock_ok(entries: Seq<PresenceStreamEvent>, now: u64) -> bool {
    forall|i: int| 0 <= i < entries.len() ==> (#[trigger] entries[i]).created_at <= now
}

/// Builds the event for the transition `e` at time `now`.
fn build_event(e: PresenceStreamEvent, now: u64, timeout_ms: Option<u64>) -> (r: Result<
    PresenceEvent,
    ApiError,
>)
    ensures
        e.created_at <= now ==> (r matches Ok(ev) && ev == event_of(e, now, timeout_ms)),
        e.created_at > now ==> r == Err::<PresenceEvent, ApiError>(ApiError::ClockError),
{
    let p = match PresenceStatus::effective_presence(e.presence, e.created_at, now, timeout_ms) {
        Ok(p) => p,
        Err(err) => return Err(err),
    };
    Ok(
        PresenceEvent {
            content: PresenceEventContent {
                avatar_url: e.avatar_url,
                currently_active: p.currently_active,
                displayname: e.displayname,
                last_active_ago: p.last_active_ago,
                presence: p.presence,
                user_id: e.user_id,
            },
            event_id: e.event_id,
        },
    )
}

impl PresenceStreamEvent {
    /// The latest transition after `since` of each user that `user_id` observes.
    pub fn find_events_by_uid(store: &PresenceStore, user_id: &String, since: Option<i64>) -> (r:
        Vec<PresenceStreamEvent>)
        ensures
            r@ == sync_entries(*store, user_id@, since),
    {
        let users = PresenceList::find_observed_users(store, user_id);
        PresenceStreamEvent::latest_per_user(store, &users, since)
    }
}

impl PresenceList {
    /// The presence events for the users that `user_id` observes, as seen at
    /// time `now`: for each, its latest transition after the cursor `since`,
    /// with the presence derived under `timeout_ms` (none: the stored state
    /// as it is). Also returns the cursor for the next sync. A transition
    /// saved after `now` is a clock error.
    pub fn find_events_at(
        store: &PresenceStore,
        user_id: &String,
        since: Option<i64>,
        now: u64,
        timeout_ms: Option<u64>,
    ) -> (r: Result<(i64, Vec<PresenceEvent>), ApiError>)
        ensures
            clock_ok(sync_entries(*store, user_id@, since), now) ==> (r matches Ok(res) && res.0
                == cursor_of(sync_entries(*store, user_id@, since), since) && res.1@ == events_of(
                sync_entries(*store, user_id@, since),
                now,
                timeout_ms,
            )),
            !clock_ok(sync_entries(*store, user_id@, since), now) ==> r == Err::<
                (i64, Vec<PresenceEvent>),
                ApiError,
            >(ApiError::ClockError),
    {
        let entries = PresenceStreamEvent::find_events_by_uid(store, user_id, since);
        let ghost all = entries@;
        let mut cursor: i64 = match since {
            Some(c) => c,
            None => -1,
        };
        let mut events: Vec<PresenceEvent> = Vec::new();
        let n = entries.len();
        let mut rest = entries;
        let mut i: usize = 0;
        while i < n
            invariant
                all == sync_entries(*store, user_id@, since),
                n == all.len(),
                i <= all.len(),
                rest@ == all.skip(i as int),
                cursor == cursor_of(all.take(i as int), since),
                clock_ok(all.take(i as int), now),
                events@ == events_of(all.take(i as int), now, timeout_ms),
            decreases all.len() - i,
        {
            assert(all.take(i as int + 1).drop_last() =~= all.take(i as int));
            assert(all.take(i as int + 1).last() == all[i as int]);
            let e = rest.remove(0);
            assert(rest@ =~= all.skip(i as int + 1));
            if e.ordering > cursor {
                cursor = e.ordering;
            }
            let ghost older = events@;
            match build_event(e, now, timeout_ms) {
                Ok(ev) => {
                    events.push(ev);
                },
                Err(err) => {
                    assert(!clock_ok(all, now)) by {
                        assert(all[i as int].created_at > now);
                    }
                    return Err(err);
                },
            }
            assert(clock_ok(all.take(i as int + 1), now)) by {
                assert forall|k: int| 0 <= k < i + 1 implies (#[trigger] all.take(
                    i as int + 1,
                )[k]).created_at <= now by {
                    if k < i {
                        assert(all.take(i as int + 1)[k] == all.take(i as int)[k]);
                    }
                }
            }
            assert(events@ =~= events_of(all.take(i as int + 1), now, timeout_ms)) by {
                assert(older =~= events_of(all.take(i as int), now, timeout_ms));
            }
            i = i + 1;
        }
        assert(all.take(all.len() as int) =~= all);
        Ok((cursor, events))
    }

    /// The presence events for the users that `user_id` observes, as seen
    /// now, with the cursor for the next sync; see `find_events_at`.
    pub fn find_events_by_uid(
        store: &PresenceStore,
        user_id: &String,
        since: Option<i64>,
        timeout_ms: Option<u64>,
    ) -> (r: Result<(i64, Vec<PresenceEvent>), ApiError>)
        ensures
            r matches Ok(res) ==> (res.0 == cursor_of(sync_entries(*store, user_id@, since), since)
                && exists|now: u64|
                res.1@ == #[trigger] events_of(sync_entries(*store, user_id@, since), now, timeout_ms)),
            r matches Err(e) ==> e == ApiError::ClockError,
    {
        let now = match now_millis() {
            Ok(t) => t,
            Err(e) => return Err(e),
        };
        PresenceList::find_events_at(store, user_id, since, now, timeout_ms)
    }
}

} // verus!
