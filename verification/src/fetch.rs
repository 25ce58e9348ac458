//! Read-capability implementation of the in-memory store.

use vstd::prelude::*;
use vstd::string::StrSliceExecFns;

use crate::domain::EndpointData;
use crate::domain::MethodId;
use crate::domain::PaykitError;
use crate::domain::PublicKey;
use crate::domain::SupportedPayments;
use crate::memory::listing_children_complete;
use crate::memory::listing_paths_distinct;
use crate::memory::shallow_listing_of;
use crate::memory::MemoryStore;
use crate::model::contacts_in;
use crate::model::key_set;
use crate::model::payments_in;
use crate::paths::contacts_list_addr;
use crate::paths::contacts_list_address;
use crate::paths::contact_marker_addr;
use crate::paths::has_prefix;
use crate::paths::is_child_key;
use crate::paths::is_dir_path;
use crate::paths::is_segment;
use crate::paths::lemma_list_addr_ends_with_separator;
use crate::paths::lemma_prefix_skip;
use crate::paths::lemma_trailing_of_concat;
use crate::paths::payment_endpoint_addr;
use crate::paths::trailing_of;
use crate::paths::payment_endpoint_address;
use crate::paths::payment_list_addr;
use crate::paths::payment_list_address;
use crate::resolve::contacts_distinct;
use crate::resolve::contact_listing_complete;
use crate::resolve::contact_listing_resolved;
use crate::resolve::contact_listing_sound;
use crate::resolve::entries_trailing_distinct;
use crate::resolve::is_parsable_key;
use crate::resolve::names_contact;
use crate::resolve::payment_listing_complete;
use crate::resolve::payment_listing_resolved;
use crate::resolve::payment_listing_sound;
use crate::resolve::resolve_contact_listing;
use crate::resolve::resolve_payment_listing;
use crate::resolve::resolves_to;
use crate::resolve::ResourceEntry;
use crate::transport::UnauthenticatedTransportRead;

verus! {

/// The part of `payments_in(st, pv)` whose methods appear among the first `k`
/// resolved items.
spec fn gathered(
    st: Map<Seq<char>, Seq<char>>,
    pv: Seq<char>,
    rs0: Seq<(MethodId, String)>,
    k: int,
) -> Map<Seq<char>, Seq<char>> {
    Map::new(
        |m: Seq<char>|
            payments_in(st, pv).dom().contains(m) && (exists|j: int|
                0 <= j < k && (#[trigger] rs0[j]).0@ == m),
        |m: Seq<char>| payments_in(st, pv)[m],
    )
}

proof fn lemma_gathered_step(
    st: Map<Seq<char>, Seq<char>>,
    pv: Seq<char>,
    rs0: Seq<(MethodId, String)>,
    k: int,
)
    requires
        0 <= k < rs0.len(),
    ensures
        payments_in(st, pv).dom().contains(rs0[k].0@) ==> gathered(st, pv, rs0, k + 1) == gathered(
            st,
            pv,
            rs0,
            k,
        ).insert(rs0[k].0@, payments_in(st, pv)[rs0[k].0@]),
        !payments_in(st, pv).dom().contains(rs0[k].0@) ==> gathered(st, pv, rs0, k + 1) == gathered(
            st,
            pv,
            rs0,
            k,
        ),
{
    let m = rs0[k].0@;
    let g0 = gathered(st, pv, rs0, k);
    let g1 = gathered(st, pv, rs0, k + 1);
    if payments_in(st, pv).dom().contains(m) {
        let g2 = g0.insert(m, payments_in(st, pv)[m]);
        assert forall|x: Seq<char>| g1.dom().contains(x) implies g2.dom().contains(x) by {
            if x != m {
                let j = choose|j: int| 0 <= j < k + 1 && (#[trigger] rs0[j]).0@ == x;
                assert(0 <= j < k && rs0[j].0@ == x);
            }
        }
        assert forall|x: Seq<char>| g2.dom().contains(x) implies g1.dom().contains(x) by {
            if x == m {
                assert(rs0[k].0@ == x);
            } else {
                let j = choose|j: int| 0 <= j < k && (#[trigger] rs0[j]).0@ == x;
                assert(0 <= j < k + 1 && rs0[j].0@ == x);
            }
        }
        assert(g1 =~= g2);
    } else {
        assert forall|x: Seq<char>| g1.dom().contains(x) implies g0.dom().contains(x) by {
            let j = choose|j: int| 0 <= j < k + 1 && (#[trigger] rs0[j]).0@ == x;
            assert(x != m);
            assert(0 <= j < k && rs0[j].0@ == x);
        }
        assert forall|x: Seq<char>| g0.dom().contains(x) implies g1.dom().contains(x) by {
            let j = choose|j: int| 0 <= j < k && (#[trigger] rs0[j]).0@ == x;
            assert(0 <= j < k + 1 && rs0[j].0@ == x);
        }
        assert(g1 =~= g0);
    }
}

impl UnauthenticatedTransportRead for MemoryStore {
    open spec fn store(&self) -> Map<Seq<char>, Seq<char>> {
        self.contents()
    }

    #[verifier::rlimit(60)]
    fn fetch_supported_payments(&self, payee: &PublicKey) -> (r: Result<
        SupportedPayments,
        PaykitError,
    >)
        ensures
            r is Ok,
    {
        let prefix = payment_list_address(payee);
        let entries = self.list_shallow(&prefix);
        let mut resolved = match resolve_payment_listing(&entries) {
            Ok(rs) => rs,
            Err(e) => {
                // A listing of the in-memory store never yields an entry with
                // an empty path, so resolution cannot fail here.
                proof {
                    let i = choose|i: int|
                        0 <= i < entries@.len() && ((#[trigger] entries@[i]).path@).len() == 0;
                    assert(is_dir_path(entries@[i].path@) || is_child_key(
                        prefix@,
                        entries@[i].path@,
                    ));
                    assert(false);
                }
                return Err(e);
            },
        };
        let ghost st = self.contents();
        let ghost pv = payee@;
        let ghost p = payment_list_addr(pv);
        let ghost rs0 = resolved@;
        let ghost es = entries@;
        let mut payments = SupportedPayments::new();
        let ghost k: int = 0;
        proof {
            assert(payments@ =~= gathered(st, pv, rs0, 0));
        }
        while resolved.len() > 0
            invariant
                0 <= k <= rs0.len(),
                resolved@ == rs0.subrange(k, rs0.len() as int),
                payments@ == gathered(st, pv, rs0, k),
                st == self.contents(),
                pv == payee@,
                p == payment_list_addr(pv),
                es == entries@,
                payment_listing_resolved(es, rs0),
                shallow_listing_of(st, p, es),
            decreases resolved@.len(),
        {
            let item = resolved.remove(0);
            proof {
                reveal(payment_listing_sound);
                assert(item == rs0[k]);
                assert(resolved@ =~= rs0.subrange(k + 1, rs0.len() as int));
                lemma_list_addr_ends_with_separator(pv);
                // The resolved item corresponds to a direct-child key of the
                // listing address, so its address is the method's document
                // address.
                assert(rs0[k].0@.len() > 0);
                let i = choose|i: int|
                    0 <= i < es.len() && resolves_to(#[trigger] es[i], rs0[k].0@, rs0[k].1@);
                assert(!is_dir_path(es[i].path@));
                let k0 = es[i].path@;
                assert(st.contains_key(k0) && is_child_key(p, k0));
                assert(has_prefix(k0, p));
                lemma_prefix_skip(k0, p);
                let s = k0.skip(p.len() as int);
                lemma_trailing_of_concat(p, s);
                assert(item.0@ == s);
                assert(payment_endpoint_addr(pv, item.0@) =~= k0);
                assert(is_segment(item.0@));
                assert(item.1@ == k0);
                lemma_gathered_step(st, pv, rs0, k);
            }
            let ghost m = item.0@;
            match self.get(&item.1) {
                Some(text) => {
                    if text.as_str().unicode_len() > 0 {
                        let data = EndpointData(text);
                        proof {
                            assert(payments_in(st, pv).dom().contains(m));
                            assert(payments_in(st, pv)[m] == data@);
                        }
                        payments.insert(item.0, data);
                    } else {
                        proof {
                            assert(!payments_in(st, pv).dom().contains(m));
                        }
                    }
                },
                None => {
                    proof {
                        assert(!payments_in(st, pv).dom().contains(m));
                    }
                },
            }
            proof {
                k = k + 1;
            }
        }
        proof {
            assert(k == rs0.len());
            lemma_list_addr_ends_with_separator(pv);
            assert forall|m: Seq<char>|
                payments_in(st, pv).dom().contains(m) implies #[trigger] payments@.dom().contains(
                m,
            ) by {
                reveal(payment_listing_complete);
                reveal(listing_children_complete);
                assert(is_segment(m) && st.contains_key(payment_endpoint_addr(pv, m)));
                let k0 = payment_endpoint_addr(pv, m);
                assert(k0 =~= p + m);
                assert((p + m).subrange(0, p.len() as int) =~= p);
                assert((p + m).skip(p.len() as int) =~= m);
                assert(is_child_key(p, k0));
                let i = choose|i: int|
                    0 <= i < es.len() && (#[trigger] es[i]).path@ == k0 && es[i].address@ == k0;
                assert(k0[k0.len() - 1] == m[m.len() - 1]);
                assert(!is_dir_path(es[i].path@));
                let j = choose|j: int|
                    0 <= j < rs0.len() && resolves_to(es[i], (#[trigger] rs0[j]).0@, rs0[j].1@);
                lemma_trailing_of_concat(p, m);
                assert(rs0[j].0@ == m);
            }
            assert(payments@ =~= payments_in(st, pv));
        }
        Ok(payments)
    }

    fn fetch_payment_endpoint(&self, payee: &PublicKey, method: &MethodId) -> (r: Result<
        Option<EndpointData>,
        PaykitError,
    >)
        ensures
            r is Ok,
    {
        let addr = payment_endpoint_address(payee, method);
        match self.get(&addr) {
            Some(text) => {
                if text.as_str().unicode_len() > 0 {
                    Ok(Some(EndpointData(text)))
                } else {
                    Ok(None)
                }
            },
            None => Ok(None),
        }
    }

    fn fetch_known_contacts(&self, owner: &PublicKey) -> (r: Result<Vec<PublicKey>, PaykitError>)
        ensures
            (forall|c: Seq<char>| #[trigger]
                contacts_in(self.contents(), owner@).contains(c) ==> is_parsable_key(c)) ==> r
                is Ok,
    {
        let prefix = contacts_list_address(owner);
        let entries = self.list_shallow(&prefix);
        match resolve_contact_listing(&entries) {
            Ok(cs) => {
                proof {
                    lemma_contacts_resolved(self.contents(), owner@, entries@, cs@);
                }
                Ok(cs)
            },
            Err(e) => {
                // Resolution fails only on a marker name that does not parse;
                // that name is a recorded contact, so the premise is false.
                proof {
                    let st = self.contents();
                    let p = contacts_list_addr(owner@);
                    lemma_list_addr_ends_with_separator(owner@);
                    let i = choose|i: int|
                        0 <= i < entries@.len() && (((#[trigger] entries@[i]).path@).len() == 0
                            || (!is_dir_path(entries@[i].path@) && !is_parsable_key(
                            trailing_of(entries@[i].path@),
                        )));
                    let k0 = entries@[i].path@;
                    assert(st.contains_key(k0) && is_child_key(p, k0));
                    assert(has_prefix(k0, p));
                    lemma_prefix_skip(k0, p);
                    let c = k0.skip(p.len() as int);
                    lemma_trailing_of_concat(p, c);
                    assert(contact_marker_addr(owner@, c) =~= k0);
                    assert(contacts_in(st, owner@).contains(c));
                    assert(!is_parsable_key(c));
                }
                Err(e)
            },
        }
    }
}

/// A resolved contact listing of the contacts directory holds exactly the
/// contacts recorded in the store.
proof fn lemma_contacts_resolved(
    st: Map<Seq<char>, Seq<char>>,
    ov: Seq<char>,
    es: Seq<ResourceEntry>,
    cs: Seq<PublicKey>,
)
    requires
        shallow_listing_of(st, contacts_list_addr(ov), es),
        contact_listing_resolved(es, cs),
    ensures
        key_set(cs) == contacts_in(st, ov),
        contacts_distinct(cs),
{
    let p = contacts_list_addr(ov);
    lemma_list_addr_ends_with_separator(ov);
    assert(entries_trailing_distinct(es)) by {
        assert forall|i1: int, i2: int|
            0 <= i1 < i2 < es.len() && !is_dir_path((#[trigger] es[i1]).path@) && !is_dir_path(
                (#[trigger] es[i2]).path@,
            ) implies trailing_of(es[i1].path@) != trailing_of(es[i2].path@) by {
            let k1 = es[i1].path@;
            let k2 = es[i2].path@;
            assert(k1 != k2);
            assert(is_child_key(p, k1) && is_child_key(p, k2));
            assert(has_prefix(k1, p) && has_prefix(k2, p));
            lemma_prefix_skip(k1, p);
            lemma_prefix_skip(k2, p);
            lemma_trailing_of_concat(p, k1.skip(p.len() as int));
            lemma_trailing_of_concat(p, k2.skip(p.len() as int));
            if k1.skip(p.len() as int) == k2.skip(p.len() as int) {
                assert(k1 == p + k1.skip(p.len() as int));
                assert(k2 == p + k2.skip(p.len() as int));
            }
        }
    }
    assert forall|x: Seq<char>| key_set(cs).contains(x) implies contacts_in(st, ov).contains(
        x,
    ) by {
        reveal(contact_listing_sound);
        let j = choose|j: int| 0 <= j < cs.len() && (#[trigger] cs[j])@ == x;
        let i = choose|i: int| 0 <= i < es.len() && names_contact(#[trigger] es[i], cs[j]@);
        let k0 = es[i].path@;
        assert(st.contains_key(k0) && is_child_key(p, k0));
        assert(has_prefix(k0, p));
        lemma_prefix_skip(k0, p);
        let s = k0.skip(p.len() as int);
        lemma_trailing_of_concat(p, s);
        assert(x == s);
        assert(contact_marker_addr(ov, x) =~= k0);
        assert(is_segment(x));
    }
    assert forall|x: Seq<char>| contacts_in(st, ov).contains(x) implies key_set(cs).contains(
        x,
    ) by {
        reveal(contact_listing_complete);
        reveal(listing_children_complete);
        assert(is_segment(x) && st.contains_key(contact_marker_addr(ov, x)));
        let k0 = contact_marker_addr(ov, x);
        assert(k0 =~= p + x);
        assert((p + x).subrange(0, p.len() as int) =~= p);
        assert((p + x).skip(p.len() as int) =~= x);
        assert(is_child_key(p, k0));
        let i = choose|i: int|
            0 <= i < es.len() && (#[trigger] es[i]).path@ == k0 && es[i].address@ == k0;
        assert(k0[k0.len() - 1] == x[x.len() - 1]);
        assert(!is_dir_path(es[i].path@));
        let j = choose|j: int| 0 <= j < cs.len() && names_contact(es[i], (#[trigger] cs[j])@);
        lemma_trailing_of_concat(p, x);
        assert(cs[j]@ == x);
    }
    assert(key_set(cs) =~= contacts_in(st, ov));
}

} // verus!

