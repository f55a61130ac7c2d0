use ruma_presence::error::{ApiError, ListSide};
use ruma_presence::presence_api::{
    GetPresenceList, GetPresenceStatus, PostPresenceList, PostPresenceListRequest,
    PutPresenceStatus, PutPresenceStatusRequest,
};
use ruma_presence::presence_state::PresenceState;
use ruma_presence::store::PresenceStore;

const DOMAIN: &str = "ruma.test";

fn user(name: &str) -> String {
    format!("@{}:ruma.test", name)
}

fn store_with(names: &[&str]) -> PresenceStore {
    let mut store = PresenceStore::new();
    for name in names {
        store.register_user(user(name));
    }
    store
}

fn put(store: &mut PresenceStore, who: &str, presence: &str, status_msg: Option<&str>) -> Result<(), ApiError> {
    let id = user(who);
    PutPresenceStatus::handle(
        store,
        DOMAIN,
        &id,
        &id,
        PutPresenceStatusRequest {
            status_msg: status_msg.map(|m| m.to_string()),
            presence: presence.to_string(),
        },
    )
}

fn post_list(store: &mut PresenceStore, who: &str, invite: &[&str], drop: &[&str]) -> Result<(), ApiError> {
    let id = user(who);
    PostPresenceList::handle(
        store,
        &id,
        &id,
        PostPresenceListRequest {
            invite: invite.iter().map(|s| s.to_string()).collect(),
            drop: drop.iter().map(|s| s.to_string()).collect(),
        },
    )
}

#[test]
fn basic_presence_status() {
    let mut store = store_with(&["carl"]);
    let user_id = "@carl:ruma.test";
    assert!(put(&mut store, "carl", "online", None).is_ok());

    let response = GetPresenceStatus::handle(&store, &user_id.to_string(), None).unwrap();
    assert_eq!(response.status_msg, None);
    assert!(response.currently_active);
    assert_eq!(response.presence.as_str(), "online");
}

#[test]
fn presence_status_message() {
    let mut store = store_with(&["carl"]);
    let user_id = "@carl:ruma.test";
    assert!(put(&mut store, "carl", "online", Some("Oscar!")).is_ok());

    let response = GetPresenceStatus::handle(&store, &user_id.to_string(), None).unwrap();
    assert!(response.currently_active);
    assert_eq!(response.presence.as_str(), "online");
    assert_eq!(response.status_msg.as_deref(), Some("Oscar!"));
}

#[test]
fn not_found_presence_status() {
    let store = store_with(&["alice"]);
    let user_id = format!("@{}:ruma.test", "alice");

    let response = GetPresenceStatus::handle(&store, &user_id, None);
    assert_eq!(response.unwrap_err().status_code(), 404);
}

#[test]
fn forbidden_put_presence_status() {
    let mut store = store_with(&["alice", "oscar"]);
    let user_id = "@alice:ruma.test".to_string();
    let oscar = user("oscar");

    let response = PutPresenceStatus::handle(
        &mut store,
        DOMAIN,
        &oscar,
        &user_id,
        PutPresenceStatusRequest { status_msg: None, presence: "online".to_string() },
    );
    assert_eq!(response.unwrap_err().status_code(), 403);
    assert!(store.statuses.is_empty());
    assert!(store.events.is_empty());
}

#[test]
fn basic_presence_list() {
    let mut store = store_with(&["alice", "bob", "carl"]);
    let user_id = "@alice:ruma.test".to_string();
    let bob_id = "@bob:ruma.test";
    let carl_id = "@carl:ruma.test";

    assert!(post_list(&mut store, "alice", &[bob_id, carl_id], &[]).is_ok());

    store.set_profile(bob_id.to_string(), Some("mxc://matrix.org/some/url".to_string()), None);

    assert!(put(&mut store, "bob", "online", None).is_ok());
    assert!(put(&mut store, "bob", "online", None).is_ok());
    assert!(put(&mut store, "carl", "online", None).is_ok());

    let events = GetPresenceList::handle(&store, &user_id, &user_id, None).unwrap();
    println!("{:#?}", events);
    let mut events = events.into_iter();
    assert_eq!(events.len(), 2);

    let first = events.next().unwrap();
    assert_eq!(first.content.user_id, bob_id);
    assert_eq!(first.content.avatar_url.as_deref(), Some("mxc://matrix.org/some/url"));
    assert_eq!(events.next().unwrap().content.user_id, carl_id);
}

#[test]
fn invitee_does_not_exist_presence_list() {
    let mut store = store_with(&["alice"]);

    let response = post_list(&mut store, "alice", &["@carl:ruma.test"], &[]);
    assert_eq!(response.unwrap_err().status_code(), 422);
}

#[test]
fn to_dropped_does_not_exist_presence_list() {
    let mut store = store_with(&["alice"]);

    let response = post_list(&mut store, "alice", &[], &["@carl:ruma.test"]);
    assert_eq!(response.unwrap_err().status_code(), 422);
}

#[test]
fn test_drop_presence_list() {
    let mut store = store_with(&["alice", "bob"]);
    let user_id = "@alice:ruma.test".to_string();

    assert!(post_list(&mut store, "alice", &["@bob:ruma.test"], &[]).is_ok());
    assert!(put(&mut store, "bob", "online", None).is_ok());

    let array = GetPresenceList::handle(&store, &user_id, &user_id, None).unwrap();
    assert_eq!(array.len(), 1);

    assert!(post_list(&mut store, "alice", &[], &["@bob:ruma.test"]).is_ok());

    let array = GetPresenceList::handle(&store, &user_id, &user_id, None).unwrap();
    assert_eq!(array.len(), 0);
}

#[test]
fn unknown_invitee_leaves_list_unchanged() {
    let mut store = store_with(&["alice", "bob"]);
    let response = post_list(&mut store, "alice", &["@bob:ruma.test", "@carl:ruma.test"], &[]);
    match response {
        Err(ApiError::UnknownUsers(side, users)) => {
            assert_eq!(side, ListSide::Invite);
            assert_eq!(users, vec!["@carl:ruma.test".to_string()]);
        }
        other => panic!("unexpected result {:?}", other),
    }
    assert!(store.presence_list.is_empty());
}

#[test]
fn unknown_drop_keeps_invites_out() {
    let mut store = store_with(&["alice", "bob"]);
    let response = post_list(&mut store, "alice", &["@bob:ruma.test"], &["@dave:ruma.test"]);
    match response {
        Err(ApiError::UnknownUsers(side, users)) => {
            assert_eq!(side, ListSide::Drop);
            assert_eq!(users, vec!["@dave:ruma.test".to_string()]);
        }
        other => panic!("unexpected result {:?}", other),
    }
    assert!(store.presence_list.is_empty());
}

#[test]
fn forbidden_presence_list_of_other_user() {
    let mut store = store_with(&["alice", "bob"]);
    let alice = user("alice");
    let bob = user("bob");
    let response = PostPresenceList::handle(
        &mut store,
        &bob,
        &alice,
        PostPresenceListRequest { invite: vec![bob.clone()], drop: vec![] },
    );
    assert_eq!(response.unwrap_err(), ApiError::Unauthorized);
    assert!(store.presence_list.is_empty());
    let listed = GetPresenceList::handle(&store, &bob, &alice, None);
    assert_eq!(listed.unwrap_err().status_code(), 403);
}

#[test]
fn unknown_presence_value_is_bad_request() {
    let mut store = store_with(&["carl"]);
    let response = put(&mut store, "carl", "away", None);
    assert_eq!(response.unwrap_err(), ApiError::BadJson);
    assert!(store.events.is_empty());
}

#[test]
fn repeated_upsert_keeps_one_row() {
    let mut store = store_with(&["carl"]);
    assert!(put(&mut store, "carl", "online", None).is_ok());
    let first = store.statuses[0].event_id.clone();
    assert!(put(&mut store, "carl", "online", None).is_ok());
    assert_eq!(store.statuses.len(), 1);
    assert_eq!(store.events.len(), 2);
    assert_eq!(store.statuses[0].presence, PresenceState::Online);
    assert_ne!(store.statuses[0].event_id, first);
    assert_eq!(store.statuses[0].event_id, store.events[1].event_id);
    assert!(store.events[0].ordering < store.events[1].ordering);
}
