use ruma_presence::error::{ApiError, ListSide};
use ruma_presence::push_rules::GetPushRules;
use ruma_presence::versions::{Versions, VersionsResponse};

#[test]
fn supported_versions() {
    assert_eq!(VersionsResponse::supported().versions, vec!["r0.2.0"]);
    assert_eq!(Versions::handle().versions, vec!["r0.2.0"]);
}

#[test]
fn push_rules_are_empty() {
    let r = GetPushRules::handle();
    assert!(r.global.content.is_empty());
    assert!(r.global.override_rule.is_empty());
    assert!(r.global.room.is_empty());
    assert!(r.global.sender.is_empty());
    assert!(r.global.underride.is_empty());
}

#[test]
fn error_statuses_and_codes() {
    assert_eq!(ApiError::Unauthorized.status_code(), 403);
    assert_eq!(ApiError::NotFound.status_code(), 404);
    assert_eq!(ApiError::BadJson.status_code(), 400);
    assert_eq!(ApiError::UnknownUsers(ListSide::Invite, vec![]).status_code(), 422);
    assert_eq!(ApiError::DataCorruption.status_code(), 500);
    assert_eq!(ApiError::Internal.errcode(), "M_UNKNOWN");
    assert_eq!(ApiError::Unauthorized.errcode(), "M_FORBIDDEN");
    assert_eq!(ApiError::NotFound.errcode(), "M_NOT_FOUND");
    assert_eq!(ApiError::BadJson.errcode(), "M_BAD_JSON");
    assert_eq!(ApiError::UnknownUsers(ListSide::Drop, vec![]).errcode(), "M_INVALID_PARAM");
}
