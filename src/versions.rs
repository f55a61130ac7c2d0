//! The versions of the client-server protocol that the server supports.

use vstd::prelude::*;

verus! {

/// The `/versions` endpoint.
pub struct Versions;

/// The answer of the `/versions` endpoint.
#[derive(Debug)]
pub struct VersionsResponse {
    /// The supported versions.
    pub versions: Vec<&'static str>,
}

impl VersionsResponse {
    /// The list of supported versions of the protocol.
    pub fn supported() -> (r: VersionsResponse)
        ensures
            r.versions@.len() == 1,
            r.versions@[0]@ == "r0.2.0"@,
    {
        VersionsResponse { versions: vec!["r0.2.0"] }
    }
}

impl Versions {
    /// Answers a `/versions` request.
    pub fn handle() -> (r: VersionsResponse)
        ensures
            r.versions@.len() == 1,
            r.versions@[0]@ == "r0.2.0"@,
    {
        VersionsResponse::supported()
    }
}

} // verus!
