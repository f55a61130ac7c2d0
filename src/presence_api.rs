//! The presence endpoints: status of a user and presence lists.
//!
//! Each handler takes the authenticated user and the decoded request; the
//! transport that authenticates and decodes lies outside the library.

use vstd::prelude::*;

use crate::clock::now_millis;
use crate::error::ApiError;
use crate::presence_list::{list_updated, PresenceList};
use crate::presence_state::{parse_presence, PresenceState};
use crate::presence_status::{projection, upserted, PresenceStatus};
use crate::store::{missing_users, status_of, PresenceStore};
use crate::sync::{clock_ok, events_of, sync_entries, PresenceEvent};

verus! {

/// The PUT `/presence/:user_id/status` endpoint.
pub struct PutPresenceStatus;

/// The body of a presence status update.
pub struct PutPresenceStatusRequest {
    /// The status message to attach to this state.
    pub status_msg: Option<String>,
    /// The new presence state, as sent: "online", "offline" or "unavailable".
    pub presence: String,
}

/// The GET `/presence/:user_id/status` endpoint.
pub struct GetPresenceStatus;

/// The answer to a presence status query.
#[derive(Debug)]
pub struct GetPresenceStatusResponse {
    /// The status message, if one was set.
    pub status_msg: Option<String>,
    /// Whether the user counts as active right now.
    pub currently_active: bool,
    /// Milliseconds since the user's last update.
    pub last_active_ago: u64,
    /// The presence state reported.
    pub presence: PresenceState,
}

/// The POST `/presence/list/:user_id` endpoint.
pub struct PostPresenceList;

/// The body of a presence list update.
pub struct PostPresenceListRequest {
    /// The users to add to the list.
    pub invite: Vec<String>,
    /// The users to remove from the list.
    pub drop: Vec<String>,
}

/// The GET `/presence/list/:user_id` endpoint.
pub struct GetPresenceList;

/// The answer to a status query at time `now` for the stored `status`.
pub open spec fn status_response(
    status: PresenceStatus,
    now: u64,
    timeout_ms: Option<u64>,
) -> GetPresenceStatusResponse {
    let p = projection(status.presence, status.updated_at, now, timeout_ms);
    GetPresenceStatusResponse {
        status_msg: status.status_msg,
        currently_active: p.currently_active,
        last_active_ago: p.last_active_ago,
        presence: p.presence,
    }
}

impl PutPresenceStatus {
    /// Sets the presence of `user_id`, which must be the authenticated user,
    /// under a fresh event identifier of `homeserver_domain`. A presence that
    /// names no state is a bad request; a request for another user is
    /// refused. On failure nothing changes.
    pub fn handle(
        store: &mut PresenceStore,
        homeserver_domain: &str,
        authenticated: &String,
        user_id: &String,
        request: PutPresenceStatusRequest,
    ) -> (r: Result<(), ApiError>)
        requires
            old(store).wf(),
        ensures
            final(store).wf(),
            r is Err ==> *final(store) == *old(store),
            parse_presence(request.presence@) is None ==> r == Err::<(), ApiError>(
                ApiError::BadJson,
            ),
            parse_presence(request.presence@) is Some && authenticated@ != user_id@ ==> r == Err::<
                (),
                ApiError,
            >(ApiError::Unauthorized),
            parse_presence(request.presence@) is Some && authenticated@ == user_id@ ==> (r matches Err(
                e,
            ) ==> e == ApiError::Internal || e == ApiError::ClockError),
            parse_presence(request.presence@) is Some && authenticated@ == user_id@
                && old(store).next_ordering == i64::MAX ==> r is Err,
            r is Ok ==> authenticated@ == user_id@ && exists|event_id: String, now: u64|
                #[trigger] upserted(
                    *old(store),
                    *final(store),
                    event_id,
                    *user_id,
                    parse_presence(request.presence@).unwrap(),
                    request.status_msg,
                    now,
                ),
    {
        let presence = match PresenceState::decode_request(request.presence.as_str()) {
            Ok(p) => p,
            Err(e) => return Err(e),
        };
        if *user_id != *authenticated {
            return Err(ApiError::Unauthorized);
        }
        PresenceStatus::upsert(store, homeserver_domain, user_id, presence, request.status_msg)
    }
}

impl GetPresenceStatus {
    /// The presence status of `user_id` as seen at time `now`, with the
    /// presence derived under `timeout_ms`. A user without a status is not
    /// found; a status updated after `now` is a clock error.
    pub fn handle_at(
        store: &PresenceStore,
        user_id: &String,
        now: u64,
        timeout_ms: Option<u64>,
    ) -> (r: Result<GetPresenceStatusResponse, ApiError>)
        requires
            store.wf(),
        ensures
            status_of(*store, user_id@) is None ==> r == Err::<GetPresenceStatusResponse, ApiError>(
                ApiError::NotFound,
            ),
            status_of(*store, user_id@) matches Some(s) ==> (if s.updated_at <= now {
                r == Ok::<GetPresenceStatusResponse, ApiError>(status_response(s, now, timeout_ms))
            } else {
                r == Err::<GetPresenceStatusResponse, ApiError>(ApiError::ClockError)
            }),
    {
        let status = match PresenceStatus::find_by_uid(store, user_id) {
            Some(s) => s,
            None => return Err(ApiError::NotFound),
        };
        let p = match PresenceStatus::effective_presence(
            status.presence,
            status.updated_at,
            now,
            timeout_ms,
        ) {
            Ok(p) => p,
            Err(e) => return Err(e),
        };
        Ok(
            GetPresenceStatusResponse {
                status_msg: status.status_msg,
                currently_active: p.currently_active,
                last_active_ago: p.last_active_ago,
                presence: p.presence,
            },
        )
    }

    /// The presence status of `user_id` as seen now; see `handle_at`.
    pub fn handle(store: &PresenceStore, user_id: &String, timeout_ms: Option<u64>) -> (r: Result<
        GetPresenceStatusResponse,
        ApiError,
    >)
        requires
            store.wf(),
        ensures
            status_of(*store, user_id@) is None ==> r == Err::<GetPresenceStatusResponse, ApiError>(
                ApiError::NotFound,
            ),
            status_of(*store, user_id@) is Some ==> (r matches Err(e) ==> e == ApiError::ClockError),
            r matches Ok(resp) ==> (status_of(*store, user_id@) is Some && exists|now: u64|
                resp == #[trigger] status_response(
                    status_of(*store, user_id@).unwrap(),
                    now,
                    timeout_ms,
                )),
    {
        if PresenceStatus::find_by_uid(store, user_id).is_none() {
            return Err(ApiError::NotFound);
        }
        let now = match now_millis() {
            Ok(t) => t,
            Err(e) => return Err(e),
        };
        GetPresenceStatus::handle_at(store, user_id, now, timeout_ms)
    }
}

impl PostPresenceList {
    /// Updates the presence list of `user_id`, which must be the
    /// authenticated user; see `PresenceList::update`. On failure nothing
    /// changes.
    pub fn handle(
        store: &mut PresenceStore,
        authenticated: &String,
        user_id: &String,
        request: PostPresenceListRequest,
    ) -> (r: Result<(), ApiError>)
        requires
            old(store).wf(),
        ensures
            final(store).wf(),
            r is Err ==> *final(store) == *old(store),
            authenticated@ != user_id@ ==> r == Err::<(), ApiError>(ApiError::Unauthorized),
            authenticated@ == user_id@ && missing_users(old(store).users@, request.invite@).len()
                == 0 && missing_users(old(store).users@, request.drop@).len() == 0 ==> r is Ok,
            authenticated@ == user_id@ && missing_users(old(store).users@, request.invite@).len()
                > 0 ==> r matches Err(ApiError::UnknownUsers(_, _)),
            authenticated@ == user_id@ && missing_users(old(store).users@, request.drop@).len()
                > 0 ==> r matches Err(ApiError::UnknownUsers(_, _)),
            r is Ok ==> list_updated(
                *old(store),
                *final(store),
                user_id@,
                request.invite@,
                request.drop@,
            ),
    {
        if *user_id != *authenticated {
            return Err(ApiError::Unauthorized);
        }
        PresenceList::update(store, user_id, &request.invite, request.drop)
    }
}

impl GetPresenceList {
    /// The presence events of the users that `user_id`, which must be the
    /// authenticated user, observes, as seen at time `now`; see
    /// `PresenceList::find_events_at`.
    pub fn handle_at(
        store: &PresenceStore,
        authenticated: &String,
        user_id: &String,
        now: u64,
        timeout_ms: Option<u64>,
    ) -> (r: Result<Vec<PresenceEvent>, ApiError>)
        ensures
            authenticated@ != user_id@ ==> r == Err::<Vec<PresenceEvent>, ApiError>(
                ApiError::Unauthorized,
            ),
            authenticated@ == user_id@ && clock_ok(sync_entries(*store, user_id@, None), now) ==> (
            r matches Ok(events) && events@ == events_of(
                sync_entries(*store, user_id@, None),
                now,
                timeout_ms,
            )),
            authenticated@ == user_id@ && !clock_ok(sync_entries(*store, user_id@, None), now)
                ==> r == Err::<Vec<PresenceEvent>, ApiError>(ApiError::ClockError),
    {
        if *user_id != *authenticated {
            return Err(ApiError::Unauthorized);
        }
        match PresenceList::find_events_at(store, user_id, None, now, timeout_ms) {
            Ok((_, events)) => Ok(events),
            Err(e) => Err(e),
        }
    }

    /// The presence events of the users that `user_id`, which must be the
    /// authenticated user, observes, as seen now.
    pub fn handle(
        store: &PresenceStore,
        authenticated: &String,
        user_id: &String,
        timeout_ms: Option<u64>,
    ) -> (r: Result<Vec<PresenceEvent>, ApiError>)
        ensures
            authenticated@ != user_id@ ==> r == Err::<Vec<PresenceEvent>, ApiError>(
                ApiError::Unauthorized,
            ),
            authenticated@ == user_id@ ==> (r matches Err(e) ==> e == ApiError::ClockError),
            r matches Ok(events) ==> exists|now: u64|
                events@ == #[trigger] events_of(sync_entries(*store, user_id@, None), now, timeout_ms),
    {
        if *user_id != *authenticated {
            return Err(ApiError::Unauthorized);
        }
        let now = match now_millis() {
            Ok(t) => t,
            Err(e) => return Err(e),
        };
        GetPresenceList::handle_at(store, authenticated, user_id, now, timeout_ms)
    }
}

} // verus!
