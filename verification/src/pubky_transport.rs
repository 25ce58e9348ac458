//! Adapters holding handles of the Pubky SDK.
//!
//! These carry the SDK's authenticated session and unauthenticated
//! public-storage handles. The network calls themselves are asynchronous and
//! belong to the surrounding application; this module only creates and
//! exposes the handles, so their contents stay opaque here.

use vstd::prelude::*;
use vstd::string::StringExecFns;

use crate::domain::PaykitError;
use crate::paths::has_prefix;

verus! {

/// Declares the Pubky SDK's authenticated session handle so that it can
/// stand in signatures and fields; its contents stay opaque.
#[verifier::external_type_specification]
#[verifier::external_body]
pub struct ExPubkySession(pubky::PubkySession);

/// Declares the Pubky SDK's unauthenticated public-storage handle.
#[verifier::external_type_specification]
#[verifier::external_body]
pub struct ExPublicStorage(pubky::PublicStorage);

/// Relies on `pubky::PubkySession`'s derived `Clone`: the session is a pair
/// of shared handles (HTTP client and credential), so a clone is the same
/// session value.
pub assume_specification[ <pubky::PubkySession as Clone>::clone ](s: &pubky::PubkySession) -> (r:
    pubky::PubkySession)
    ensures
        r == *s,
;

/// Relies on `pubky::PublicStorage`'s derived `Clone`: the handle holds one
/// shared HTTP client, so a clone is the same handle value.
pub assume_specification[ <pubky::PublicStorage as Clone>::clone ](s: &pubky::PublicStorage) -> (r:
    pubky::PublicStorage)
    ensures
        r == *s,
;

/// Relies on `pubky::PublicStorage::new`: builds a fresh unauthenticated
/// storage handle, failing only when the underlying HTTP client cannot be
/// constructed; a failure is returned as its message text.
#[verifier::external_body]
fn create_public_storage() -> Result<pubky::PublicStorage, String> {
    pubky::PublicStorage::new().map_err(|err| format!("{err}"))
}

/// Adapter around `pubky::PubkySession` granting authenticated writes under
/// the session identity's storage root.
#[derive(Clone)]
pub struct PubkyAuthenticatedTransport {
    session: pubky::PubkySession,
}

impl PubkyAuthenticatedTransport {
    /// The wrapped session value.
    pub closed spec fn spec_session(&self) -> pubky::PubkySession {
        self.session
    }

    /// Create a new adapter from an existing session.
    pub fn new(session: pubky::PubkySession) -> (r: Self)
        ensures
            r.spec_session() == session,
    {
        Self { session }
    }

    /// Access the wrapped session for advanced uses.
    pub fn session(&self) -> (r: &pubky::PubkySession)
        ensures
            *r == self.spec_session(),
    {
        &self.session
    }
}

impl From<pubky::PubkySession> for PubkyAuthenticatedTransport {
    fn from(session: pubky::PubkySession) -> (r: Self) {
        Self { session }
    }
}

impl vstd::std_specs::convert::FromSpecImpl<pubky::PubkySession> for PubkyAuthenticatedTransport {
    open spec fn obeys_from_spec() -> bool {
        true
    }

    closed spec fn from_spec(session: pubky::PubkySession) -> Self {
        PubkyAuthenticatedTransport { session }
    }
}

/// Adapter around `pubky::PublicStorage` for unauthenticated reads.
#[derive(Clone)]
pub struct PubkyUnauthenticatedTransport {
    inner: pubky::PublicStorage,
}

impl PubkyUnauthenticatedTransport {
    /// The wrapped storage handle.
    pub closed spec fn spec_inner(&self) -> pubky::PublicStorage {
        self.inner
    }

    /// Build an adapter from an existing SDK handle.
    pub fn new(inner: pubky::PublicStorage) -> (r: Self)
        ensures
            r.spec_inner() == inner,
    {
        Self { inner }
    }

    /// Attempt to construct the underlying SDK handle afresh.
    ///
    /// Fails only when the SDK cannot build its client; the failure surfaces
    /// as a transport error.
    pub fn try_new() -> (r: Result<Self, PaykitError>)
        ensures
            r matches Err(e) ==> e matches PaykitError::Transport(m) && has_prefix(
                m@,
                "failed to create Pubky public transport: "@,
            ),
    {
        match create_public_storage() {
            Ok(inner) => Ok(Self { inner }),
            Err(msg) => {
                let mut s = String::from_str("failed to create Pubky public transport: ");
                s.append(msg.as_str());
                proof {
                    assert(s@.subrange(
                        0,
                        "failed to create Pubky public transport: "@.len() as int,
                    ) =~= "failed to create Pubky public transport: "@);
                }
                Err(PaykitError::Transport(s))
            },
        }
    }

    /// Access the wrapped SDK transport handle.
    pub fn inner(&self) -> (r: &pubky::PublicStorage)
        ensures
            *r == self.spec_inner(),
    {
        &self.inner
    }
}

} // verus!
