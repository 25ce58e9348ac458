//! A verified in-memory storage network.
//!
//! `MemoryStore` realises the storage boundary — `get`, `list` (shallow),
//! `put`, `delete` — over a map from full address to content held in memory,
//! and implements both capability traits against its own state. It serves as
//! the reference model of the network conventions and lets every discovery
//! and mutation path run without a network.

use vstd::prelude::*;
use vstd::string::StrSliceExecFns;
use vstd::string::StringExecFns;

use crate::domain::EndpointData;
use crate::domain::MethodId;
use crate::domain::PaykitError;
use crate::domain::PublicKey;
use crate::pairs::distinct_keys;
use crate::pairs::lemma_pairs_map_domain;
use crate::pairs::lemma_pairs_map_get;
use crate::pairs::lemma_pairs_map_remove;
use crate::pairs::pairs_map;
use crate::paths::find_separator_from;
use crate::paths::has_prefix;
use crate::paths::is_child_key;
use crate::paths::is_dir_path;
use crate::paths::is_segment;
use crate::paths::payment_endpoint_addr;
use crate::paths::payment_endpoint_address;
use crate::paths::str_has_prefix;
use crate::resolve::ResourceEntry;
use crate::transport::AuthenticatedTransport;

verus! {

/// Soundness of a shallow listing of directory `p` over store `st`: every
/// entry is a pseudo-directory or an existing direct child, with its address
/// equal to its path.
pub open spec fn listing_entries_ok(
    st: Map<Seq<char>, Seq<char>>,
    p: Seq<char>,
    r: Seq<ResourceEntry>,
) -> bool {
    forall|i: int| #![trigger r[i]]
        0 <= i < r.len() ==> is_dir_path(r[i].path@) || (r[i].address@ == r[i].path@
            && st.contains_key(r[i].path@) && is_child_key(p, r[i].path@))
}

/// Completeness of a shallow listing: every direct child key of `p` present
/// in the store appears as an entry.
#[verifier::opaque]
pub open spec fn listing_children_complete(
    st: Map<Seq<char>, Seq<char>>,
    p: Seq<char>,
    r: Seq<ResourceEntry>,
) -> bool {
    forall|k: Seq<char>| #![trigger is_child_key(p, k)]
        st.contains_key(k) && is_child_key(p, k) ==> exists|i: int|
            0 <= i < r.len() && (#[trigger] r[i]).path@ == k && r[i].address@ == k
}

/// Distinct children: no direct-child entry repeats another's path.
pub open spec fn listing_paths_distinct(r: Seq<ResourceEntry>) -> bool {
    forall|i: int, j: int|
        0 <= i < j < r.len() && !is_dir_path((#[trigger] r[i]).path@) && !is_dir_path(
            (#[trigger] r[j]).path@,
        ) ==> r[i].path@ != r[j].path@
}

/// What a shallow listing of directory `p` over store `st` must hold.
pub open spec fn shallow_listing_of(
    st: Map<Seq<char>, Seq<char>>,
    p: Seq<char>,
    r: Seq<ResourceEntry>,
) -> bool {
    &&& listing_entries_ok(st, p, r)
    &&& listing_children_complete(st, p, r)
    &&& listing_paths_distinct(r)
}

/// In-memory storage network bound to one writing identity.
pub struct MemoryStore {
    owner_key: PublicKey,
    entries: Vec<(String, String)>,
}

impl MemoryStore {
    #[verifier::type_invariant]
    spec fn wf(&self) -> bool {
        distinct_keys(self.entries@)
    }

    /// The durable state: full address to document content.
    pub closed spec fn contents(&self) -> Map<Seq<char>, Seq<char>> {
        pairs_map(self.entries@)
    }

    /// The identity whose storage root authenticated writes land under.
    pub closed spec fn session_owner(&self) -> Seq<char> {
        self.owner_key@
    }

    /// Creates an empty store whose authenticated writes act for `owner`.
    pub fn new(owner: PublicKey) -> (r: Self)
        ensures
            r.contents() == Map::<Seq<char>, Seq<char>>::empty(),
            r.session_owner() == owner@,
    {
        Self { owner_key: owner, entries: Vec::new() }
    }

    fn find_index(entries: &Vec<(String, String)>, address: &String) -> (r: Option<usize>)
        ensures
            match r {
                Some(i) => i < entries@.len() && entries@[i as int].0@ == address@,
                None => forall|j: int|
                    0 <= j < entries@.len() ==> (#[trigger] entries@[j]).0@ != address@,
            },
    {
        let mut i: usize = 0;
        while i < entries.len()
            invariant
                i <= entries@.len(),
                forall|j: int| 0 <= j < i ==> (#[trigger] entries@[j]).0@ != address@,
            decreases entries@.len() - i,
        {
            if entries[i].0 == *address {
                return Some(i);
            }
            i += 1;
        }
        None
    }

    /// Fetches the content stored at `address`, or `None` when nothing exists
    /// there.
    pub fn get(&self, address: &String) -> (r: Option<String>)
        ensures
            match r {
                Some(c) => self.contents().contains_key(address@) && c@ == self.contents()[
                    address@
                ],
                None => !self.contents().contains_key(address@),
            },
    {
        proof {
            use_type_invariant(&*self);
        }
        match Self::find_index(&self.entries, address) {
            Some(i) => {
                proof {
                    lemma_pairs_map_get(self.entries@, i as int);
                }
                Some(self.entries[i].1.clone())
            },
            None => {
                proof {
                    lemma_pairs_map_domain(self.entries@, address@);
                }
                None
            },
        }
    }

    /// Creates or replaces the content at `address`.
    pub fn put(&mut self, address: String, content: String)
        ensures
            final(self).contents() == old(self).contents().insert(address@, content@),
            final(self).session_owner() == old(self).session_owner(),
    {
        proof {
            use_type_invariant(&*self);
        }
        let mut entries: Vec<(String, String)> = Vec::new();
        core::mem::swap(&mut entries, &mut self.entries);
        let ghost s0 = entries@;
        match Self::find_index(&entries, &address) {
            Some(i) => {
                entries.remove(i);
                proof {
                    lemma_pairs_map_remove(s0, i as int);
                    s0.remove_ensures(i as int);
                    assert forall|x: int, y: int| 0 <= x < y < entries@.len() implies (
                    #[trigger] entries@[x]).0@ != (#[trigger] entries@[y]).0@ by {
                        if y < i {
                            assert(entries@[x] == s0[x] && entries@[y] == s0[y]);
                        } else if x < i {
                            assert(entries@[x] == s0[x] && entries@[y] == s0[y + 1]);
                        } else {
                            assert(entries@[x] == s0[x + 1] && entries@[y] == s0[y + 1]);
                        }
                    }
                    assert forall|x: int| 0 <= x < entries@.len() implies (
                    #[trigger] entries@[x]).0@ != address@ by {
                        if x < i {
                            assert(entries@[x] == s0[x]);
                            assert(s0[x].0@ != s0[i as int].0@);
                        } else {
                            assert(entries@[x] == s0[x + 1]);
                            assert(s0[i as int].0@ != s0[x + 1].0@);
                        }
                    }
                }
            },
            None => {},
        }
        let ghost s1 = entries@;
        entries.push((address, content));
        proof {
            assert(entries@.drop_last() =~= s1);
            assert forall|x: int, y: int| 0 <= x < y < entries@.len() implies (
            #[trigger] entries@[x]).0@ != (#[trigger] entries@[y]).0@ by {
                if y < entries@.len() - 1 {
                    assert(entries@[x] == s1[x] && entries@[y] == s1[y]);
                } else {
                    assert(entries@[x] == s1[x]);
                }
            }
            assert(pairs_map(entries@) =~= pairs_map(s0).insert(address@, content@));
        }
        self.entries = entries;
    }

    /// Deletes the content at `address`; reports whether anything existed
    /// there.
    pub fn delete(&mut self, address: &String) -> (found: bool)
        ensures
            found == old(self).contents().contains_key(address@),
            found ==> final(self).contents() == old(self).contents().remove(address@),
            !found ==> final(self).contents() == old(self).contents(),
            final(self).session_owner() == old(self).session_owner(),
    {
        proof {
            use_type_invariant(&*self);
        }
        let mut entries: Vec<(String, String)> = Vec::new();
        core::mem::swap(&mut entries, &mut self.entries);
        let ghost s0 = entries@;
        let found = match Self::find_index(&entries, address) {
            Some(i) => {
                entries.remove(i);
                proof {
                    lemma_pairs_map_get(s0, i as int);
                    lemma_pairs_map_remove(s0, i as int);
                    s0.remove_ensures(i as int);
                    assert forall|x: int, y: int| 0 <= x < y < entries@.len() implies (
                    #[trigger] entries@[x]).0@ != (#[trigger] entries@[y]).0@ by {
                        if y < i {
                            assert(entries@[x] == s0[x] && entries@[y] == s0[y]);
                        } else if x < i {
                            assert(entries@[x] == s0[x] && entries@[y] == s0[y + 1]);
                        } else {
                            assert(entries@[x] == s0[x + 1] && entries@[y] == s0[y + 1]);
                        }
                    }
                }
                true
            },
            None => {
                proof {
                    lemma_pairs_map_domain(s0, address@);
                }
                false
            },
        };
        self.entries = entries;
        found
    }

    /// Shallow listing of the directory address `prefix`: one entry per
    /// direct child, and a pseudo-directory entry (path ending in the
    /// separator) for deeper descendants. An address with no descendants
    /// yields the empty listing.
    #[verifier::rlimit(60)]
    pub fn list_shallow(&self, prefix: &String) -> (r: Vec<ResourceEntry>)
        ensures
            shallow_listing_of(self.contents(), prefix@, r@),
    {
        proof {
            use_type_invariant(&*self);
        }
        let ghost st = self.contents();
        let ghost p = prefix@;
        let mut r: Vec<ResourceEntry> = Vec::new();
        let ghost mut dst: Seq<int> = Seq::empty();
        let ghost mut srcl: Seq<int> = Seq::empty();
        let plen = prefix.as_str().unicode_len();
        let mut t: usize = 0;
        while t < self.entries.len()
            invariant
                t <= self.entries@.len(),
                st == pairs_map(self.entries@),
                distinct_keys(self.entries@),
                p == prefix@,
                plen == p.len(),
                dst.len() == t,
                forall|i: int| #![trigger r@[i]]
                    0 <= i < r@.len() ==> is_dir_path(r@[i].path@) || (r@[i].address@
                        == r@[i].path@ && st.contains_key(r@[i].path@) && is_child_key(
                        p,
                        r@[i].path@,
                    )),
                forall|u: int| #![trigger dst[u]]
                    0 <= u < t ==> (is_child_key(p, self.entries@[u].0@) ==> 0 <= dst[u]
                        < r@.len() && r@[dst[u]].path@ == self.entries@[u].0@ && r@[dst[u]].address@
                        == self.entries@[u].0@),
                srcl.len() == r@.len(),
                forall|a: int| #![trigger srcl[a]]
                    0 <= a < srcl.len() ==> 0 <= srcl[a] < t && (!is_dir_path(r@[a].path@)
                        ==> r@[a].path@ == self.entries@[srcl[a]].0@),
                forall|a1: int, a2: int|
                    0 <= a1 < a2 < srcl.len() ==> #[trigger] srcl[a1] < #[trigger] srcl[a2],
            decreases self.entries@.len() - t,
        {
            let k: &String = &self.entries[t].0;
            let klen = k.as_str().unicode_len();
            if klen > plen && str_has_prefix(k.as_str(), prefix.as_str()) {
                match find_separator_from(k.as_str(), plen) {
                    Some(j) => {
                        // A deeper descendant: emit the pseudo-directory that
                        // contains it.
                        let dir = String::from_str(k.as_str().substring_char(0, j + 1));
                        proof {
                            assert(dir@[dir@.len() - 1] == k@[j as int]);
                            assert(is_dir_path(dir@));
                            assert(k@.skip(plen as int)[j - plen] == k@[j as int]);
                            assert(!is_segment(k@.skip(plen as int)));
                            assert(!is_child_key(p, self.entries@[t as int].0@));
                            dst = dst.push(-1);
                            srcl = srcl.push(t as int);
                        }
                        let address = dir.clone();
                        r.push(ResourceEntry { path: dir, address });
                    },
                    None => {
                        // A direct child: a real key of the store.
                        proof {
                            assert(self.entries@[t as int].0@ == k@);
                            lemma_pairs_map_domain(self.entries@, k@);
                            assert(st.contains_key(k@));
                            assert forall|x: int|
                                0 <= x < k@.skip(plen as int).len() implies k@.skip(plen as int)[x]
                                != '/' by {
                                assert(k@.skip(plen as int)[x] == k@[plen + x]);
                            }
                            assert(is_segment(k@.skip(plen as int)));
                            assert(is_child_key(p, k@));
                            dst = dst.push(r@.len() as int);
                            srcl = srcl.push(t as int);
                        }
                        r.push(ResourceEntry { path: k.clone(), address: k.clone() });
                        proof {
                            assert(r@[r@.len() - 1].path@ == self.entries@[t as int].0@);
                        }
                    },
                }
            } else {
                proof {
                    if is_child_key(p, k@) {
                        assert(has_prefix(k@, p));
                        assert(false);
                    }
                    dst = dst.push(-1);
                }
            }
            t += 1;
        }
        proof {
            assert(listing_children_complete(st, p, r@)) by {
                reveal(listing_children_complete);
                assert forall|k: Seq<char>|
                    st.contains_key(k) && #[trigger] is_child_key(p, k) implies exists|i: int|
                    0 <= i < r@.len() && (#[trigger] r@[i]).path@ == k && r@[i].address@ == k by {
                    lemma_pairs_map_domain(self.entries@, k);
                    let u = choose|u: int|
                        0 <= u < self.entries@.len() && (#[trigger] self.entries@[u]).0@ == k;
                    let i = dst[u];
                    assert(0 <= i < r@.len() && r@[i].path@ == k && r@[i].address@ == k);
                }
            }
            assert forall|a1: int, a2: int|
                0 <= a1 < a2 < r@.len() && !is_dir_path((#[trigger] r@[a1]).path@) && !is_dir_path(
                    (#[trigger] r@[a2]).path@,
                ) implies r@[a1].path@ != r@[a2].path@ by {
                assert(srcl[a1] < srcl[a2]);
                assert(r@[a1].path@ == self.entries@[srcl[a1]].0@);
                assert(r@[a2].path@ == self.entries@[srcl[a2]].0@);
                assert(self.entries@[srcl[a1]].0@ != self.entries@[srcl[a2]].0@);
            }
            assert(listing_paths_distinct(r@));
        }
        r
    }
}

impl AuthenticatedTransport for MemoryStore {
    open spec fn store(&self) -> Map<Seq<char>, Seq<char>> {
        self.contents()
    }

    open spec fn owner(&self) -> Seq<char> {
        self.session_owner()
    }

    fn upsert_payment_endpoint(&mut self, method: &MethodId, data: &EndpointData) -> (r: Result<
        (),
        PaykitError,
    >)
        ensures
            r is Ok,
    {
        let addr = payment_endpoint_address(&self.owner_key, method);
        self.put(addr, data.0.clone());
        Ok(())
    }

    fn remove_payment_endpoint(&mut self, method: &MethodId) -> (r: Result<(), PaykitError>)
        ensures
            old(self).contents().contains_key(
                payment_endpoint_addr(old(self).session_owner(), method@),
            ) ==> r is Ok,
    {
        let addr = payment_endpoint_address(&self.owner_key, method);
        if self.delete(&addr) {
            Ok(())
        } else {
            Err(PaykitError::Transport(String::from_str("delete endpoint: no such document")))
        }
    }
}

} // verus!
