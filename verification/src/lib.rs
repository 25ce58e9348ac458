//! Stateless helpers for publishing and discovering payment endpoints on a
//! key-addressable public storage network.
//!
//! The crate defines the domain value types, the addressing convention that
//! maps identities and payment-method names to storage addresses, the
//! resolution algorithms that turn raw directory listings into typed results,
//! and a pair of small capability traits that callers implement (or wrap) to
//! perform reads and writes against the storage network.

use vstd::prelude::*;
use vstd::string::StringExecFns;

pub mod domain;
pub mod fetch;
pub mod laws;
pub mod memory;
pub mod model;
pub mod pairs;
pub mod paths;
pub mod pubky_transport;
pub mod resolve;
pub mod transport;

pub use domain::EndpointData;
pub use domain::MethodId;
pub use domain::PaykitError;
pub use domain::PublicKey;
pub use domain::SupportedPayments;
pub use pubky_transport::PubkyAuthenticatedTransport;
pub use pubky_transport::PubkyUnauthenticatedTransport;
pub use transport::AuthenticatedTransport;
pub use transport::UnauthenticatedTransportRead;

use crate::model::contacts_in;
use crate::model::endpoint_in;
use crate::model::key_set;
use crate::model::opt_data_view;
use crate::model::payments_in;
use crate::paths::has_prefix;
use crate::paths::payment_endpoint_addr;
use crate::resolve::contacts_distinct;

verus! {

/// Prefixes the operation label to a transport error's message, preserving
/// the error kind; any other error passes through unchanged.
pub fn map_transport_error(label: &'static str, err: PaykitError) -> (r: PaykitError)
    ensures
        match err {
            PaykitError::Transport(msg) => (match r {
                PaykitError::Transport(out) => out@ == label@ + ": "@ + msg@ && has_prefix(
                    out@,
                    label@ + ": "@,
                ),
                _ => false,
            }),
            _ => r == err,
        },
{
    match err {
        PaykitError::Transport(msg) => {
            let mut s = String::from_str(label);
            s.append(": ");
            s.append(msg.as_str());
            proof {
                assert(s@.subrange(0, (label@ + ": "@).len() as int) =~= label@ + ": "@);
            }
            PaykitError::Transport(s)
        },
        other => other,
    }
}

/// Stores or updates a payment endpoint through the injected authenticated
/// capability. On success the document for `method` under the writer's own
/// storage root holds exactly `data`.
pub fn set_payment_endpoint<S: AuthenticatedTransport>(
    client: &mut S,
    method: MethodId,
    data: EndpointData,
) -> (r: Result<(), PaykitError>)
    requires
        method@.len() > 0,
    ensures
        final(client).owner() == old(client).owner(),
        r is Ok ==> final(client).store() == old(client).store().insert(
            payment_endpoint_addr(old(client).owner(), method@),
            data@,
        ),
        r matches Err(e) ==> (e matches PaykitError::Transport(m) ==> has_prefix(
            m@,
            "set_payment_endpoint"@ + ": "@,
        )),
{
    match client.upsert_payment_endpoint(&method, &data) {
        Ok(()) => Ok(()),
        Err(err) => Err(map_transport_error("set_payment_endpoint", err)),
    }
}

/// Removes a payment endpoint through the injected authenticated capability.
/// On success the document existed and is gone; removing a method that was
/// never set fails.
pub fn remove_payment_endpoint<S: AuthenticatedTransport>(client: &mut S, method: MethodId) -> (r:
    Result<(), PaykitError>)
    requires
        method@.len() > 0,
    ensures
        final(client).owner() == old(client).owner(),
        r is Ok ==> old(client).store().contains_key(
            payment_endpoint_addr(old(client).owner(), method@),
        ) && final(client).store() == old(client).store().remove(
            payment_endpoint_addr(old(client).owner(), method@),
        ),
        !old(client).store().contains_key(payment_endpoint_addr(old(client).owner(), method@))
            ==> r is Err && final(client).store() == old(client).store(),
        r matches Err(e) ==> (e matches PaykitError::Transport(m) ==> has_prefix(
            m@,
            "remove_payment_endpoint"@ + ": "@,
        )),
{
    match client.remove_payment_endpoint(&method) {
        Ok(()) => Ok(()),
        Err(err) => Err(map_transport_error("remove_payment_endpoint", err)),
    }
}

/// Retrieves every payment method the given payee currently publishes.
///
/// A payee that published nothing (or whose endpoint directory is absent)
/// yields an empty collection; transport failures propagate as errors.
pub fn get_payment_list<R: UnauthenticatedTransportRead>(reader: &R, payee: &PublicKey) -> (r:
    Result<SupportedPayments, PaykitError>)
    ensures
        r matches Ok(sp) ==> sp@ == payments_in(reader.store(), payee@),
        r matches Err(e) ==> (e matches PaykitError::Transport(m) ==> has_prefix(
            m@,
            "get_payment_list"@ + ": "@,
        )),
{
    match reader.fetch_supported_payments(payee) {
        Ok(sp) => Ok(sp),
        Err(err) => Err(map_transport_error("get_payment_list", err)),
    }
}

/// Retrieves the endpoint document of `payee` for `method`.
///
/// An absent or empty document yields `Ok(None)`; transport failures
/// propagate as errors.
pub fn get_payment_endpoint<R: UnauthenticatedTransportRead>(
    reader: &R,
    payee: &PublicKey,
    method: &MethodId,
) -> (r: Result<Option<EndpointData>, PaykitError>)
    requires
        method@.len() > 0,
    ensures
        r matches Ok(o) ==> opt_data_view(o) == endpoint_in(reader.store(), payee@, method@),
        r matches Err(e) ==> (e matches PaykitError::Transport(m) ==> has_prefix(
            m@,
            "get_payment_endpoint"@ + ": "@,
        )),
{
    match reader.fetch_payment_endpoint(payee, method) {
        Ok(o) => Ok(o),
        Err(err) => Err(map_transport_error("get_payment_endpoint", err)),
    }
}

/// Returns the contacts known to the given identity.
///
/// An absent contacts directory yields an empty sequence; transport failures
/// propagate as errors.
pub fn get_known_contacts<R: UnauthenticatedTransportRead>(reader: &R, key: &PublicKey) -> (r:
    Result<Vec<PublicKey>, PaykitError>)
    ensures
        r matches Ok(cs) ==> key_set(cs@) == contacts_in(reader.store(), key@)
            && contacts_distinct(cs@),
        r matches Err(e) ==> (e matches PaykitError::Transport(m) ==> has_prefix(
            m@,
            "get_known_contacts"@ + ": "@,
        )),
{
    match reader.fetch_known_contacts(key) {
        Ok(cs) => Ok(cs),
        Err(err) => Err(map_transport_error("get_known_contacts", err)),
    }
}

} // verus!
