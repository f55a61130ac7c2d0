//! Fresh event identifiers.

use vstd::prelude::*;

use crate::error::ApiError;

verus! {

#[verifier::external_type_specification]
#[verifier::external_body]
pub struct ExIdentifierError(ruma_identifiers::Error);

/// Whether `c` is an ASCII letter or digit.
pub open spec fn is_ascii_alphanumeric(c: char) -> bool {
    ('A' <= c && c <= 'Z') || ('a' <= c && c <= 'z') || ('0' <= c && c <= '9')
}

/// The shape of a fresh event identifier: the sigil `$`, 18 ASCII letters or
/// digits, then `:` and the server's host.
pub open spec fn fresh_id_shape(id: Seq<char>) -> bool {
    &&& id.len() > 19
    &&& id[0] == '$'
    &&& id[19] == ':'
    &&& forall|i: int| 1 <= i < 19 ==> is_ascii_alphanumeric(#[trigger] id[i])
}

/// Relies on ruma_identifiers::EventId::new: a fresh identifier made of the
/// sigil `$`, 18 characters drawn by rand's `Alphanumeric` (ASCII letters and
/// digits), `:` and the server's host, or an error where the server name is no
/// valid host. The host is written as the URL parser normalises it, so it need
/// not be the server name letter for letter.
#[verifier::external_body]
fn generate_event_id(server_name: &str) -> (r: Result<String, ruma_identifiers::Error>)
    ensures
        r matches Ok(id) ==> fresh_id_shape(id@),
{
    match ruma_identifiers::EventId::new(server_name) {
        Ok(id) => Ok(id.to_string()),
        Err(e) => Err(e),
    }
}

/// A fresh event identifier scoped to the homeserver `domain`; a domain that is
/// no valid host is an internal error.
pub fn new_event_id(domain: &str) -> (r: Result<String, ApiError>)
    ensures
        r matches Ok(id) ==> fresh_id_shape(id@),
        r matches Err(e) ==> e == ApiError::Internal,
{
    match generate_event_id(domain) {
        Ok(id) => Ok(id),
        Err(_) => Err(ApiError::Internal),
    }
}

} // verus!
