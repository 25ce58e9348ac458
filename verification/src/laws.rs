//! Laws relating the publish and discovery operations.
//!
//! The capability contracts state each operation's effect on the abstract
//! store (`payments_in`, `endpoint_in`, `contacts_in`); these proofs connect
//! consecutive operations through that model. Together with the facade
//! contracts they say how a write changes what every later read returns.

use vstd::prelude::*;

use crate::model::contacts_in;
use crate::model::endpoint_in;
use crate::model::payments_in;
use crate::paths::contact_marker_addr;
use crate::paths::contacts_list_addr;
use crate::paths::has_prefix;
use crate::paths::is_segment;
use crate::paths::lemma_concat_cancel;
use crate::paths::payment_endpoint_addr;
use crate::paths::payment_list_addr;

verus! {

/// Setting an endpoint and then fetching the same method returns exactly the
/// data that was set, for every non-empty payload. (An empty payload is read
/// back as absent, by the absence policy.)
pub proof fn lemma_set_then_get(
    store: Map<Seq<char>, Seq<char>>,
    payee: Seq<char>,
    method: Seq<char>,
    data: Seq<char>,
)
    requires
        data.len() > 0,
    ensures
        endpoint_in(store.insert(payment_endpoint_addr(payee, method), data), payee, method)
            == Some(data),
{
}

/// A payee who published nothing under the payment namespace has an empty
/// supported-payments collection, and every single-endpoint fetch returns
/// absence.
pub proof fn lemma_unpublished_payee_reads_empty(store: Map<Seq<char>, Seq<char>>, payee: Seq<char>)
    requires
        forall|a: Seq<char>| #[trigger]
            store.contains_key(a) ==> !has_prefix(a, payment_list_addr(payee)),
    ensures
        payments_in(store, payee) == Map::<Seq<char>, Seq<char>>::empty(),
        forall|m: Seq<char>| #[trigger] endpoint_in(store, payee, m) is None,
{
    let p = payment_list_addr(payee);
    assert forall|m: Seq<char>| #[trigger] endpoint_in(store, payee, m) is None by {
        let a = payment_endpoint_addr(payee, m);
        if store.contains_key(a) {
            assert(a.subrange(0, p.len() as int) =~= p);
            assert(has_prefix(a, p));
        }
    }
    assert forall|m: Seq<char>| !(#[trigger] payments_in(store, payee).dom().contains(m)) by {
        if payments_in(store, payee).dom().contains(m) {
            let a = payment_endpoint_addr(payee, m);
            assert(store.contains_key(a));
            assert(a.subrange(0, p.len() as int) =~= p);
            assert(has_prefix(a, p));
        }
    }
    assert(payments_in(store, payee) =~= Map::<Seq<char>, Seq<char>>::empty());
}

/// Setting the same method twice leaves only the latest payload: the fetch
/// returns it, and the supported-payments collection is exactly what a single
/// write of the latest payload would have produced, with the latest value
/// under that method.
pub proof fn lemma_latest_update_wins(
    store: Map<Seq<char>, Seq<char>>,
    payee: Seq<char>,
    method: Seq<char>,
    first: Seq<char>,
    latest: Seq<char>,
)
    requires
        is_segment(method),
        latest.len() > 0,
    ensures
        endpoint_in(
            store.insert(payment_endpoint_addr(payee, method), first).insert(
                payment_endpoint_addr(payee, method),
                latest,
            ),
            payee,
            method,
        ) == Some(latest),
        payments_in(
            store.insert(payment_endpoint_addr(payee, method), first).insert(
                payment_endpoint_addr(payee, method),
                latest,
            ),
            payee,
        ) == payments_in(store.insert(payment_endpoint_addr(payee, method), latest), payee),
        payments_in(
            store.insert(payment_endpoint_addr(payee, method), first).insert(
                payment_endpoint_addr(payee, method),
                latest,
            ),
            payee,
        ).contains_key(method),
        payments_in(
            store.insert(payment_endpoint_addr(payee, method), first).insert(
                payment_endpoint_addr(payee, method),
                latest,
            ),
            payee,
        )[method] == latest,
{
    let a = payment_endpoint_addr(payee, method);
    assert(store.insert(a, first).insert(a, latest) =~= store.insert(a, latest));
}

/// After removing a method's endpoint, fetching it returns absence, the
/// supported-payments collection is the old one without that method, and
/// every other method's endpoint is untouched.
pub proof fn lemma_remove_endpoint(
    store: Map<Seq<char>, Seq<char>>,
    payee: Seq<char>,
    method: Seq<char>,
)
    ensures
        endpoint_in(store.remove(payment_endpoint_addr(payee, method)), payee, method) is None,
        payments_in(store.remove(payment_endpoint_addr(payee, method)), payee) == payments_in(
            store,
            payee,
        ).remove(method),
        forall|m2: Seq<char>|
            m2 != method ==> #[trigger] endpoint_in(
                store.remove(payment_endpoint_addr(payee, method)),
                payee,
                m2,
            ) == endpoint_in(store, payee, m2),
{
    let a = payment_endpoint_addr(payee, method);
    let s2 = store.remove(a);
    assert forall|m2: Seq<char>| m2 != method implies payment_endpoint_addr(payee, m2) != a by {
        if payment_endpoint_addr(payee, m2) == a {
            lemma_concat_cancel(payment_list_addr(payee), m2, method);
        }
    }
    assert(payments_in(s2, payee) =~= payments_in(store, payee).remove(method));
}

/// An owner whose contacts namespace holds nothing has no known contacts.
pub proof fn lemma_no_markers_no_contacts(store: Map<Seq<char>, Seq<char>>, owner: Seq<char>)
    requires
        forall|a: Seq<char>| #[trigger]
            store.contains_key(a) ==> !has_prefix(a, contacts_list_addr(owner)),
    ensures
        contacts_in(store, owner) == Set::<Seq<char>>::empty(),
{
    let p = contacts_list_addr(owner);
    assert forall|c: Seq<char>| !(#[trigger] contacts_in(store, owner).contains(c)) by {
        if contacts_in(store, owner).contains(c) {
            let a = contact_marker_addr(owner, c);
            assert(store.contains_key(a));
            assert(a.subrange(0, p.len() as int) =~= p);
            assert(has_prefix(a, p));
        }
    }
    assert(contacts_in(store, owner) =~= Set::<Seq<char>>::empty());
}

/// Writing two contact marker files makes both names known contacts, whatever
/// the markers contain, and loses no contact that was already known.
pub proof fn lemma_contact_markers_appear(
    store: Map<Seq<char>, Seq<char>>,
    owner: Seq<char>,
    first: Seq<char>,
    second: Seq<char>,
    body1: Seq<char>,
    body2: Seq<char>,
)
    requires
        is_segment(first),
        is_segment(second),
    ensures
        contacts_in(
            store.insert(contact_marker_addr(owner, first), body1).insert(
                contact_marker_addr(owner, second),
                body2,
            ),
            owner,
        ).contains(first),
        contacts_in(
            store.insert(contact_marker_addr(owner, first), body1).insert(
                contact_marker_addr(owner, second),
                body2,
            ),
            owner,
        ).contains(second),
        forall|c: Seq<char>| #[trigger]
            contacts_in(store, owner).contains(c) ==> contacts_in(
                store.insert(contact_marker_addr(owner, first), body1).insert(
                    contact_marker_addr(owner, second),
                    body2,
                ),
                owner,
            ).contains(c),
{
}

} // verus!
