use ruma_presence::clock::{millis_since_epoch, now_millis};
use ruma_presence::error::ApiError;
use ruma_presence::event_id::new_event_id;
use ruma_presence::presence_api::GetPresenceStatus;
use ruma_presence::presence_event::PresenceStreamEvent;
use ruma_presence::presence_list::PresenceList;
use ruma_presence::presence_state::PresenceState;
use ruma_presence::presence_status::PresenceStatus;
use ruma_presence::store::PresenceStore;

fn user(name: &str) -> String {
    format!("@{}:ruma.test", name)
}

fn store_with(names: &[&str]) -> PresenceStore {
    let mut store = PresenceStore::new();
    for name in names {
        store.register_user(user(name));
    }
    store
}

fn upsert(store: &mut PresenceStore, who: &str, event: &str, presence: PresenceState, now: u64) {
    let id = user(who);
    PresenceStatus::upsert_at(store, event.to_string(), &id, presence, None, now).unwrap();
}

fn invite(store: &mut PresenceStore, who: &str, names: &[&str]) {
    let invites: Vec<String> = names.iter().map(|n| user(n)).collect();
    PresenceList::update(store, &user(who), &invites, vec![]).unwrap();
}

#[test]
fn upsert_at_records_status_and_transition() {
    let mut store = store_with(&["carl"]);
    upsert(&mut store, "carl", "$a:ruma.test", PresenceState::Online, 1_000);
    let status = PresenceStatus::find_by_uid(&store, &user("carl")).unwrap();
    assert_eq!(status.presence, PresenceState::Online);
    assert_eq!(status.event_id, "$a:ruma.test");
    assert_eq!(status.updated_at, 1_000);
    assert_eq!(store.events.len(), 1);
    assert_eq!(store.events[0].ordering, 1);
    assert_eq!(store.events[0].created_at, 1_000);
    assert_eq!(store.next_ordering, 2);

    upsert(&mut store, "carl", "$b:ruma.test", PresenceState::Offline, 2_000);
    let status = PresenceStatus::find_by_uid(&store, &user("carl")).unwrap();
    assert_eq!(status.presence, PresenceState::Offline);
    assert_eq!(status.event_id, "$b:ruma.test");
    assert_eq!(status.updated_at, 2_000);
    assert_eq!(store.statuses.len(), 1);
    assert_eq!(store.events.len(), 2);
    assert_eq!(store.events[1].ordering, 2);
}

#[test]
fn find_by_uid_without_status() {
    let store = store_with(&["carl"]);
    assert!(PresenceStatus::find_by_uid(&store, &user("carl")).is_none());
}

#[test]
fn orderings_increase_across_users() {
    let mut store = store_with(&["alice", "bob"]);
    let a = PresenceStreamEvent::insert(&mut store, &"$1:x".to_string(), &user("alice"), PresenceState::Online, 5).unwrap();
    let b = PresenceStreamEvent::insert(&mut store, &"$2:x".to_string(), &user("bob"), PresenceState::Online, 5).unwrap();
    let c = PresenceStreamEvent::insert(&mut store, &"$3:x".to_string(), &user("alice"), PresenceState::Offline, 6).unwrap();
    assert!(a.ordering < b.ordering && b.ordering < c.ordering);
    assert_eq!((a.ordering, b.ordering, c.ordering), (1, 2, 3));
}

#[test]
fn exhausted_orderings_fail_without_change() {
    let mut store = store_with(&["alice"]);
    store.next_ordering = i64::MAX;
    let r = PresenceStatus::upsert_at(&mut store, "$1:x".to_string(), &user("alice"), PresenceState::Online, None, 5);
    assert_eq!(r, Err(ApiError::Internal));
    assert!(store.events.is_empty());
    assert!(store.statuses.is_empty());
}

#[test]
fn insert_snapshots_profile() {
    let mut store = store_with(&["bob"]);
    store.set_profile(user("bob"), Some("mxc://a".to_string()), Some("Bob".to_string()));
    let e = PresenceStreamEvent::insert(&mut store, &"$1:x".to_string(), &user("bob"), PresenceState::Online, 5).unwrap();
    assert_eq!(e.avatar_url.as_deref(), Some("mxc://a"));
    assert_eq!(e.displayname.as_deref(), Some("Bob"));
    store.set_profile(user("bob"), None, Some("Robert".to_string()));
    assert_eq!(store.profiles.len(), 1);
    let p = store.find_profile(&user("bob")).unwrap();
    assert_eq!(p.displayname.as_deref(), Some("Robert"));
    assert_eq!(p.avatar_url, None);
}

#[test]
fn latest_wins_in_sync() {
    let mut store = store_with(&["alice", "bob"]);
    invite(&mut store, "alice", &["bob"]);
    upsert(&mut store, "bob", "$1:x", PresenceState::Online, 100);
    upsert(&mut store, "bob", "$2:x", PresenceState::Unavailable, 200);
    let (cursor, events) = PresenceList::find_events_at(&store, &user("alice"), None, 300, None).unwrap();
    assert_eq!(events.len(), 1);
    assert_eq!(events[0].content.presence, PresenceState::Unavailable);
    assert_eq!(events[0].event_id, "$2:x");
    assert_eq!(events[0].content.last_active_ago, 100);
    assert!(!events[0].content.currently_active);
    assert_eq!(cursor, 2);
}

#[test]
fn end_to_end_presence_list() {
    let mut store = store_with(&["alice", "bob", "carl"]);
    invite(&mut store, "alice", &["bob", "carl"]);
    upsert(&mut store, "bob", "$1:x", PresenceState::Online, 100);
    upsert(&mut store, "bob", "$2:x", PresenceState::Online, 150);
    upsert(&mut store, "carl", "$3:x", PresenceState::Online, 120);
    let (cursor, events) = PresenceList::find_events_at(&store, &user("alice"), None, 200, None).unwrap();
    assert_eq!(events.len(), 2);
    let bob = events.iter().find(|e| e.content.user_id == user("bob")).unwrap();
    let carl = events.iter().find(|e| e.content.user_id == user("carl")).unwrap();
    assert_eq!(bob.event_id, "$2:x");
    assert_eq!(bob.content.last_active_ago, 50);
    assert_eq!(carl.event_id, "$3:x");
    assert_eq!(carl.content.last_active_ago, 80);
    assert!(bob.content.currently_active && carl.content.currently_active);
    assert_eq!(cursor, 3);
}

#[test]
fn sync_after_cursor_reports_only_newer() {
    let mut store = store_with(&["alice", "bob", "carl"]);
    invite(&mut store, "alice", &["bob", "carl"]);
    upsert(&mut store, "bob", "$1:x", PresenceState::Online, 100);
    upsert(&mut store, "carl", "$2:x", PresenceState::Online, 100);
    let (cursor, events) = PresenceList::find_events_at(&store, &user("alice"), None, 100, None).unwrap();
    assert_eq!((cursor, events.len()), (2, 2));
    upsert(&mut store, "carl", "$3:x", PresenceState::Offline, 110);
    let (cursor, events) = PresenceList::find_events_at(&store, &user("alice"), Some(cursor), 120, None).unwrap();
    assert_eq!(cursor, 3);
    assert_eq!(events.len(), 1);
    assert_eq!(events[0].content.user_id, user("carl"));
    assert_eq!(events[0].content.presence, PresenceState::Offline);
    let (cursor, events) = PresenceList::find_events_at(&store, &user("alice"), Some(cursor), 130, None).unwrap();
    assert_eq!(cursor, 3);
    assert!(events.is_empty());
}

#[test]
fn empty_sync_has_sentinel_cursor() {
    let store = store_with(&["alice"]);
    let (cursor, events) = PresenceList::find_events_at(&store, &user("alice"), None, 10, None).unwrap();
    assert_eq!(cursor, -1);
    assert!(events.is_empty());
}

#[test]
fn stale_online_is_reported_unavailable() {
    let mut store = store_with(&["alice", "bob"]);
    invite(&mut store, "alice", &["bob"]);
    upsert(&mut store, "bob", "$1:x", PresenceState::Online, 1_000);
    let (_, events) = PresenceList::find_events_at(&store, &user("alice"), None, 1_000 + 500 + 1, Some(500)).unwrap();
    assert_eq!(events[0].content.presence, PresenceState::Unavailable);
    assert!(!events[0].content.currently_active);
    assert_eq!(events[0].content.last_active_ago, 501);
    let (_, events) = PresenceList::find_events_at(&store, &user("alice"), None, 1_500, Some(500)).unwrap();
    assert_eq!(events[0].content.presence, PresenceState::Online);
    assert_eq!(store.statuses[0].presence, PresenceState::Online);
    let status = GetPresenceStatus::handle_at(&store, &user("bob"), 1_501, Some(500)).unwrap();
    assert_eq!(status.presence, PresenceState::Unavailable);
}

#[test]
fn sync_before_transition_is_clock_error() {
    let mut store = store_with(&["alice", "bob"]);
    invite(&mut store, "alice", &["bob"]);
    upsert(&mut store, "bob", "$1:x", PresenceState::Online, 1_000);
    let r = PresenceList::find_events_at(&store, &user("alice"), None, 999, None);
    assert_eq!(r.unwrap_err(), ApiError::ClockError);
    let r = GetPresenceStatus::handle_at(&store, &user("bob"), 999, None);
    assert_eq!(r.unwrap_err().status_code(), 500);
}

#[test]
fn duplicate_invite_is_no_op() {
    let mut store = store_with(&["alice", "bob"]);
    invite(&mut store, "alice", &["bob", "bob"]);
    invite(&mut store, "alice", &["bob"]);
    assert_eq!(store.presence_list.len(), 1);
    assert_eq!(PresenceList::find_observed_users(&store, &user("alice")), vec![user("bob")]);
}

#[test]
fn invite_and_drop_same_user_drops() {
    let mut store = store_with(&["alice", "bob", "carl"]);
    invite(&mut store, "alice", &["carl"]);
    PresenceList::update(&mut store, &user("alice"), &vec![user("bob")], vec![user("bob"), user("carl")]).unwrap();
    assert!(PresenceList::find_observed_users(&store, &user("alice")).is_empty());
}

#[test]
fn drop_of_unlisted_user_is_no_error() {
    let mut store = store_with(&["alice", "bob"]);
    assert!(PresenceList::update(&mut store, &user("alice"), &vec![], vec![user("bob")]).is_ok());
}

#[test]
fn observed_users_per_observer() {
    let mut store = store_with(&["alice", "bob", "carl"]);
    invite(&mut store, "alice", &["bob"]);
    invite(&mut store, "carl", &["alice", "bob"]);
    assert_eq!(PresenceList::find_observed_users(&store, &user("carl")), vec![user("alice"), user("bob")]);
    assert_eq!(PresenceList::find_observed_users(&store, &user("bob")), Vec::<String>::new());
}

#[test]
fn latest_per_user_skips_users_without_transitions() {
    let mut store = store_with(&["alice", "bob"]);
    upsert(&mut store, "bob", "$1:x", PresenceState::Online, 1);
    upsert(&mut store, "bob", "$2:x", PresenceState::Offline, 2);
    let latest = PresenceStreamEvent::latest_per_user(&store, &vec![user("alice"), user("bob")], None);
    assert_eq!(latest.len(), 1);
    assert_eq!(latest[0].event_id, "$2:x");
    let latest = PresenceStreamEvent::latest_per_user(&store, &vec![user("bob")], Some(2));
    assert!(latest.is_empty());
}

#[test]
fn get_users_filters_by_user_and_time() {
    let mut store = store_with(&["alice", "bob", "carl"]);
    upsert(&mut store, "alice", "$1:x", PresenceState::Online, 10);
    upsert(&mut store, "bob", "$2:x", PresenceState::Online, 20);
    upsert(&mut store, "carl", "$3:x", PresenceState::Online, 30);
    let rows = PresenceStatus::get_users(&store, &vec![user("alice"), user("carl")], None);
    assert_eq!(rows.len(), 2);
    let rows = PresenceStatus::get_users(&store, &vec![user("alice"), user("carl")], Some(10));
    assert_eq!(rows.len(), 1);
    assert_eq!(rows[0].user_id, user("carl"));
}

#[test]
fn refresh_keeps_state_or_sets_unavailable() {
    let mut store = store_with(&["alice", "bob"]);
    upsert(&mut store, "alice", "$1:x", PresenceState::Offline, 10);
    PresenceStatus::update_by_uid_and_status(&mut store, "ruma.test", &user("alice")).unwrap();
    PresenceStatus::update_by_uid_and_status(&mut store, "ruma.test", &user("bob")).unwrap();
    assert_eq!(PresenceStatus::find_by_uid(&store, &user("alice")).unwrap().presence, PresenceState::Offline);
    assert_eq!(PresenceStatus::find_by_uid(&store, &user("bob")).unwrap().presence, PresenceState::Unavailable);
    assert_eq!(store.events.len(), 3);
}

#[test]
fn staleness_projection_values() {
    let p = PresenceStatus::effective_presence(PresenceState::Online, 100, 100, None).unwrap();
    assert_eq!((p.presence, p.currently_active, p.last_active_ago), (PresenceState::Online, true, 0));
    let p = PresenceStatus::effective_presence(PresenceState::Online, 100, 1_000, None).unwrap();
    assert_eq!((p.presence, p.currently_active, p.last_active_ago), (PresenceState::Online, true, 900));
    let p = PresenceStatus::effective_presence(PresenceState::Online, 100, 1_000, Some(900)).unwrap();
    assert_eq!(p.presence, PresenceState::Online);
    let p = PresenceStatus::effective_presence(PresenceState::Online, 100, 1_001, Some(900)).unwrap();
    assert_eq!((p.presence, p.currently_active), (PresenceState::Unavailable, false));
    let p = PresenceStatus::effective_presence(PresenceState::Offline, 100, 5_000, Some(900)).unwrap();
    assert_eq!((p.presence, p.currently_active), (PresenceState::Offline, false));
    assert_eq!(
        PresenceStatus::effective_presence(PresenceState::Online, 100, 99, None),
        Err(ApiError::ClockError)
    );
    assert_eq!(PresenceStatus::calculate_time_difference(10, 25), Ok(15));
    assert_eq!(PresenceStatus::calculate_time_difference(10, 5), Err(ApiError::ClockError));
}

#[test]
fn presence_text_round_trip() {
    for p in [PresenceState::Online, PresenceState::Offline, PresenceState::Unavailable] {
        assert_eq!(PresenceState::parse(p.as_str()), Some(p));
        assert_eq!(PresenceState::parse(&p.to_string()), Some(p));
    }
    assert_eq!(PresenceState::Unavailable.as_str(), "unavailable");
    assert_eq!(PresenceState::parse("Online"), None);
    assert_eq!(PresenceState::decode_stored("away"), Err(ApiError::DataCorruption));
    assert_eq!(PresenceState::decode_request("away"), Err(ApiError::BadJson));
    assert_eq!(PresenceState::decode_stored("offline"), Ok(PresenceState::Offline));
}

#[test]
fn millis_conversion() {
    assert_eq!(millis_since_epoch(1, 500_000_000), Ok(1_500));
    assert_eq!(millis_since_epoch(0, 999_999), Ok(0));
    assert_eq!(millis_since_epoch(-1, 0), Err(ApiError::ClockError));
    assert_eq!(millis_since_epoch(i64::MAX, 0), Err(ApiError::ClockError));
    assert!(now_millis().unwrap() > 1_500_000_000_000);
}

#[test]
fn fresh_event_ids() {
    let a = new_event_id("ruma.test").unwrap();
    let b = new_event_id("ruma.test").unwrap();
    assert!(a.starts_with('$'));
    assert!(a.ends_with(":ruma.test"));
    assert_ne!(a, "ruma.test");
    assert_ne!(a, b);
    assert_eq!(new_event_id("not a host"), Err(ApiError::Internal));
}

#[test]
fn used_event_id_is_refused() {
    let mut store = store_with(&["alice", "bob"]);
    upsert(&mut store, "alice", "$1:x", PresenceState::Online, 5);
    let r = PresenceStatus::upsert_at(&mut store, "$1:x".to_string(), &user("bob"), PresenceState::Online, None, 6);
    assert_eq!(r, Err(ApiError::Internal));
    assert_eq!(store.events.len(), 1);
    assert_eq!(store.statuses.len(), 1);
    assert!(PresenceStatus::find_by_uid(&store, &user("bob")).is_none());
    assert_eq!(store.next_ordering, 2);
}

#[test]
fn refresh_uses_new_event_id() {
    let mut store = store_with(&["alice"]);
    upsert(&mut store, "alice", "$1:x", PresenceState::Online, 5);
    PresenceStatus::update_by_uid_and_status(&mut store, "ruma.test", &user("alice")).unwrap();
    let status = PresenceStatus::find_by_uid(&store, &user("alice")).unwrap();
    assert_ne!(status.event_id, "$1:x");
    assert_eq!(status.event_id, store.events[1].event_id);
    assert_eq!(status.event_id.chars().nth(19), Some(':'));
    assert!(status.event_id[1..19].chars().all(|c| c.is_ascii_alphanumeric()));
}
