//! The abstract storage-network model.
//!
//! Durable state lives in the remote storage network, modelled as a map from
//! full address to document content. These functions say what each discovery
//! operation means over that map; the capability traits and the resolution
//! code promise their results in terms of them.

use vstd::prelude::*;

use crate::domain::EndpointData;
use crate::domain::PublicKey;
use crate::paths::contact_marker_addr;
use crate::paths::is_segment;
use crate::paths::payment_endpoint_addr;

verus! {

/// Everything `payee` currently publishes: each payment method whose endpoint
/// document exists with non-empty content, mapped to that content.
pub open spec fn payments_in(store: Map<Seq<char>, Seq<char>>, payee: Seq<char>) -> Map<
    Seq<char>,
    Seq<char>,
> {
    Map::new(
        |m: Seq<char>|
            is_segment(m) && store.contains_key(payment_endpoint_addr(payee, m)) && store[
                payment_endpoint_addr(payee, m)
            ].len() > 0,
        |m: Seq<char>| store[payment_endpoint_addr(payee, m)],
    )
}

/// The endpoint document of `payee` for `method`; an absent or empty document
/// reads as `None`.
pub open spec fn endpoint_in(
    store: Map<Seq<char>, Seq<char>>,
    payee: Seq<char>,
    method: Seq<char>,
) -> Option<Seq<char>> {
    let a = payment_endpoint_addr(payee, method);
    if store.contains_key(a) && store[a].len() > 0 {
        Some(store[a])
    } else {
        None
    }
}

/// The contacts known to `owner`: the names of the marker files in the
/// contacts directory, whatever the markers contain.
pub open spec fn contacts_in(store: Map<Seq<char>, Seq<char>>, owner: Seq<char>) -> Set<Seq<char>> {
    Set::new(|c: Seq<char>| is_segment(c) && store.contains_key(contact_marker_addr(owner, c)))
}

/// The view of an optional endpoint payload.
pub open spec fn opt_data_view(o: Option<EndpointData>) -> Option<Seq<char>> {
    match o {
        Some(d) => Some(d@),
        None => None,
    }
}

/// The set of key strings appearing in a sequence of public keys.
pub open spec fn key_set(s: Seq<PublicKey>) -> Set<Seq<char>> {
    Set::new(|x: Seq<char>| exists|i: int| 0 <= i < s.len() && (#[trigger] s[i])@ == x)
}

} // verus!
