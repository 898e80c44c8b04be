//! A minimal credential-and-session authentication service core.
//!
//! Three components: a user-credential store resolving (username, password)
//! pairs to identities, a session store issuing and revoking opaque tokens,
//! and an orchestrator sequencing the two per request.

pub mod auth;
pub mod sessions;
pub mod users;

use vstd::prelude::*;

verus! {

/// A fresh opaque identifier, used both for user identities and for
/// session tokens.
///
/// Relies on `uuid::Uuid::new_v4` and its `Display` form: a random
/// version-4 identifier rendered in the hyphenated format, which is
/// always 36 characters long. The value is random, so nothing relates
/// two calls: callers state only what holds of every outcome.
#[verifier::external_body]
pub(crate) fn fresh_uuid() -> (r: String)
    ensures
        r@.len() == 36,
{
    uuid::Uuid::new_v4().to_string()
}

} // verus!
