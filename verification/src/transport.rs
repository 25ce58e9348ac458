//! Capability contracts over the storage network.
//!
//! Callers inject implementations of these two narrow traits: a read-only
//! discovery capability and an authenticated write capability. Each
//! implementation models the durable network state it touches as a map from
//! full storage address to document content (its `store`), and every method
//! promises its outcome over that model.

use vstd::prelude::*;

use crate::domain::EndpointData;
use crate::domain::MethodId;
use crate::domain::PaykitError;
use crate::domain::PublicKey;
use crate::domain::SupportedPayments;
use crate::model::contacts_in;
use crate::model::endpoint_in;
use crate::model::key_set;
use crate::model::opt_data_view;
use crate::model::payments_in;
use crate::paths::payment_endpoint_addr;
use crate::resolve::contacts_distinct;

verus! {

/// Read-only, unauthenticated discovery over the storage network.
pub trait UnauthenticatedTransportRead {
    /// The network state visible to this reader: address to content.
    spec fn store(&self) -> Map<Seq<char>, Seq<char>>;

    /// Fetches the supported-payments collection published by `payee`.
    ///
    /// A payee that published nothing yields an empty collection, not an
    /// error; only genuine transport failure may produce `Err`.
    fn fetch_supported_payments(&self, payee: &PublicKey) -> (r: Result<
        SupportedPayments,
        PaykitError,
    >)
        ensures
            r matches Ok(sp) ==> sp@ == payments_in(self.store(), payee@),
    ;

    /// Fetches the endpoint document published by `payee` for `method`.
    ///
    /// An absent or empty document yields `None`, not an error; only genuine
    /// transport failure may produce `Err`.
    fn fetch_payment_endpoint(&self, payee: &PublicKey, method: &MethodId) -> (r: Result<
        Option<EndpointData>,
        PaykitError,
    >)
        requires
            method@.len() > 0,
        ensures
            r matches Ok(o) ==> opt_data_view(o) == endpoint_in(self.store(), payee@, method@),
    ;

    /// Lists the contacts known to `owner`, each exactly once.
    ///
    /// An absent contacts directory yields the empty sequence; a listed entry
    /// whose name cannot be resolved as a public key is a data-integrity
    /// failure.
    fn fetch_known_contacts(&self, owner: &PublicKey) -> (r: Result<Vec<PublicKey>, PaykitError>)
        ensures
            r matches Ok(cs) ==> key_set(cs@) == contacts_in(self.store(), owner@)
                && contacts_distinct(cs@),
    ;
}

/// Authenticated mutation of the writer's own payment-endpoint directory.
pub trait AuthenticatedTransport {
    /// The network state this writer mutates: address to content.
    spec fn store(&self) -> Map<Seq<char>, Seq<char>>;

    /// The identity whose storage root the session writes under.
    spec fn owner(&self) -> Seq<char>;

    /// Creates or replaces the endpoint document for `method` with `data`.
    fn upsert_payment_endpoint(&mut self, method: &MethodId, data: &EndpointData) -> (r: Result<
        (),
        PaykitError,
    >)
        requires
            method@.len() > 0,
        ensures
            final(self).owner() == old(self).owner(),
            r is Ok ==> final(self).store() == old(self).store().insert(
                payment_endpoint_addr(old(self).owner(), method@),
                data@,
            ),
    ;

    /// Deletes the endpoint document for `method`.
    ///
    /// Deleting a document that does not exist fails; it is never a silent
    /// success.
    fn remove_payment_endpoint(&mut self, method: &MethodId) -> (r: Result<(), PaykitError>)
        requires
            method@.len() > 0,
        ensures
            final(self).owner() == old(self).owner(),
            r is Ok ==> old(self).store().contains_key(
                payment_endpoint_addr(old(self).owner(), method@),
            ) && final(self).store() == old(self).store().remove(
                payment_endpoint_addr(old(self).owner(), method@),
            ),
            !old(self).store().contains_key(payment_endpoint_addr(old(self).owner(), method@))
                ==> r is Err && final(self).store() == old(self).store(),
    ;
}

} // verus!
