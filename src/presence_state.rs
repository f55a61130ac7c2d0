//! The three presence states and their textual form.

use vstd::prelude::*;

use crate::error::ApiError;

verus! {

/// A user's presence state, as set explicitly by the user.
#[derive(Clone, Copy, Debug, PartialEq, Eq, Structural)]
pub enum PresenceState {
    Online,
    Offline,
    Unavailable,
}

/// The text that stands for a presence state in requests and in storage.
pub open spec fn presence_text(p: PresenceState) -> Seq<char> {
    match p {
        PresenceState::Online => "online"@,
        PresenceState::Offline => "offline"@,
        PresenceState::Unavailable => "unavailable"@,
    }
}

/// The presence state written as `s`, if any.
pub open spec fn parse_presence(s: Seq<char>) -> Option<PresenceState> {
    if s == "online"@ {
        Some(PresenceState::Online)
    } else if s == "offline"@ {
        Some(PresenceState::Offline)
    } else if s == "unavailable"@ {
        Some(PresenceState::Unavailable)
    } else {
        None
    }
}

/// Decoding the text of a state gives the state back.
pub proof fn lemma_parse_text(p: PresenceState)
    ensures
        parse_presence(presence_text(p)) == Some(p),
{
    reveal_strlit("online");
    reveal_strlit("offline");
    reveal_strlit("unavailable");
    assert("online"@.len() != "offline"@.len());
    assert("online"@.len() != "unavailable"@.len());
    assert("offline"@.len() != "unavailable"@.len());
}

impl PresenceState {
    /// The textual form of the state.
    pub fn as_str(&self) -> (r: &'static str)
        ensures
            r@ == presence_text(*self),
    {
        match self {
            PresenceState::Online => "online",
            PresenceState::Offline => "offline",
            PresenceState::Unavailable => "unavailable",
        }
    }

    /// The textual form of the state, as an owned string.
    pub fn to_string(&self) -> (r: String)
        ensures
            r@ == presence_text(*self),
    {
        self.as_str().to_owned()
    }

    /// Reads a presence state from its textual form.
    pub fn parse(s: &str) -> (r: Option<PresenceState>)
        ensures
            r == parse_presence(s@),
    {
        let t = s.to_owned();
        if t == "online".to_owned() {
            Some(PresenceState::Online)
        } else if t == "offline".to_owned() {
            Some(PresenceState::Offline)
        } else if t == "unavailable".to_owned() {
            Some(PresenceState::Unavailable)
        } else {
            None
        }
    }

    /// Decodes a stored presence value; a value that names no state is corrupt data.
    pub fn decode_stored(s: &str) -> (r: Result<PresenceState, ApiError>)
        ensures
            parse_presence(s@) matches Some(p) ==> r == Ok::<PresenceState, ApiError>(p),
            parse_presence(s@) is None ==> r == Err::<PresenceState, ApiError>(ApiError::DataCorruption),
    {
        match PresenceState::parse(s) {
            Some(p) => Ok(p),
            None => Err(ApiError::DataCorruption),
        }
    }

    /// Decodes a presence value sent by a client; a value that names no state is a bad request.
    pub fn decode_request(s: &str) -> (r: Result<PresenceState, ApiError>)
        ensures
            parse_presence(s@) matches Some(p) ==> r == Ok::<PresenceState, ApiError>(p),
            parse_presence(s@) is None ==> r == Err::<PresenceState, ApiError>(ApiError::BadJson),
    {
        match PresenceState::parse(s) {
            Some(p) => Ok(p),
            None => Err(ApiError::BadJson),
        }
    }
}

} // verus!
