//! Domain value types: identities, payment-method identifiers, endpoint
//! payloads, the supported-payments collection, and the crate's error type.

use vstd::prelude::*;
use vstd::string::StringExecFns;

use crate::pairs::distinct_keys;
use crate::pairs::lemma_pairs_map_domain;
use crate::pairs::lemma_pairs_map_get;
use crate::pairs::lemma_pairs_map_len;
use crate::pairs::lemma_pairs_map_remove;
use crate::pairs::pairs_map;

verus! {

/// Opaque identity of a network participant, carried as its string form.
///
/// Used both as "whose data is being read" and as a contact identity.
#[derive(Clone, Debug, PartialEq, Eq, Hash)]
pub struct PublicKey(pub String);

impl View for PublicKey {
    type V = Seq<char>;

    open spec fn view(&self) -> Seq<char> {
        self.0@
    }
}

/// Identifier for a payment method (for example `"lightning"`).
///
/// It is used as the trailing storage path segment of the endpoint document,
/// so it must be non-empty in that role.
#[derive(Clone, Debug, PartialEq, Eq, Hash)]
pub struct MethodId(pub String);

impl View for MethodId {
    type V = Seq<char>;

    open spec fn view(&self) -> Seq<char> {
        self.0@
    }
}

/// Serialized UTF-8 payload describing one payment endpoint.
///
/// Binary payloads must be pre-encoded (for example base64) by the caller.
#[derive(Clone, Debug, PartialEq, Eq)]
pub struct EndpointData(pub String);

impl View for EndpointData {
    type V = Seq<char>;

    open spec fn view(&self) -> Seq<char> {
        self.0@
    }
}

/// Domain-specific error type.
#[derive(Debug)]
pub enum PaykitError {
    /// Placeholder for logic that is not provided yet.
    Unimplemented(&'static str),
    /// Wrapper for storage-network failures, carrying a readable message.
    Transport(String),
}

impl PaykitError {
    /// Readable description of the error.
    pub fn message(&self) -> (r: String)
        ensures
            match *self {
                PaykitError::Unimplemented(label) => r@ == label@ + " is not implemented yet"@,
                PaykitError::Transport(msg) => r@ == "transport error: "@ + msg@,
            },
    {
        match self {
            PaykitError::Unimplemented(label) => {
                let mut s = String::from_str(*label);
                s.append(" is not implemented yet");
                s
            },
            PaykitError::Transport(msg) => {
                let mut s = String::from_str("transport error: ");
                s.append(msg.as_str());
                s
            },
        }
    }
}

/// Collection of supported payment entries keyed by method identifier.
///
/// Behaves as a map: keys are unique and iteration order carries no meaning.
/// The collection is constructed fresh on every query, never cached.
pub struct SupportedPayments {
    entries: Vec<(MethodId, EndpointData)>,
}

impl View for SupportedPayments {
    type V = Map<Seq<char>, Seq<char>>;

    closed spec fn view(&self) -> Map<Seq<char>, Seq<char>> {
        pairs_map(self.entries@)
    }
}

impl SupportedPayments {
    #[verifier::type_invariant]
    spec fn wf(&self) -> bool {
        distinct_keys(self.entries@)
    }

    /// Creates an empty collection.
    pub fn new() -> (r: Self)
        ensures
            r@ == Map::<Seq<char>, Seq<char>>::empty(),
    {
        Self { entries: Vec::new() }
    }

    fn find_index(entries: &Vec<(MethodId, EndpointData)>, method: &MethodId) -> (r: Option<usize>)
        ensures
            match r {
                Some(i) => i < entries@.len() && entries@[i as int].0@ == method@,
                None => forall|j: int|
                    0 <= j < entries@.len() ==> (#[trigger] entries@[j]).0@ != method@,
            },
    {
        let mut i: usize = 0;
        while i < entries.len()
            invariant
                i <= entries@.len(),
                forall|j: int| 0 <= j < i ==> (#[trigger] entries@[j]).0@ != method@,
            decreases entries@.len() - i,
        {
            if entries[i].0.0 == method.0 {
                return Some(i);
            }
            i += 1;
        }
        None
    }

    /// Inserts or replaces the endpoint payload published for `method`.
    pub fn insert(&mut self, method: MethodId, data: EndpointData)
        ensures
            final(self)@ == old(self)@.insert(method@, data@),
    {
        proof {
            use_type_invariant(&*self);
        }
        let mut entries: Vec<(MethodId, EndpointData)> = Vec::new();
        core::mem::swap(&mut entries, &mut self.entries);
        let ghost s0 = entries@;
        match Self::find_index(&entries, &method) {
            Some(i) => {
                entries.remove(i);
                proof {
                    lemma_pairs_map_remove(s0, i as int);
                    s0.remove_ensures(i as int);
                    assert forall|x: int, y: int| 0 <= x < y < entries@.len() implies (
                    #[trigger] entries@[x]).0@ != (#[trigger] entries@[y]).0@ by {
                        if y < i {
                            assert(entries@[x] == s0[x] && entries@[y] == s0[y]);
                        } else if x < i {
                            assert(entries@[x] == s0[x] && entries@[y] == s0[y + 1]);
                        } else {
                            assert(entries@[x] == s0[x + 1] && entries@[y] == s0[y + 1]);
                        }
                    }
                    assert forall|x: int| 0 <= x < entries@.len() implies (
                    #[trigger] entries@[x]).0@ != method@ by {
                        if x < i {
                            assert(entries@[x] == s0[x]);
                            assert(s0[x].0@ != s0[i as int].0@);
                        } else {
                            assert(entries@[x] == s0[x + 1]);
                            assert(s0[i as int].0@ != s0[x + 1].0@);
                        }
                    }
                }
            },
            None => {},
        }
        let ghost s1 = entries@;
        entries.push((method, data));
        proof {
            assert(entries@.drop_last() =~= s1);
            assert(entries@.last() == (method, data));
            assert forall|x: int, y: int| 0 <= x < y < entries@.len() implies (
            #[trigger] entries@[x]).0@ != (#[trigger] entries@[y]).0@ by {
                if y < entries@.len() - 1 {
                    assert(entries@[x] == s1[x] && entries@[y] == s1[y]);
                } else {
                    assert(entries@[x] == s1[x]);
                }
            }
            assert(pairs_map(entries@) =~= pairs_map(s0).insert(method@, data@));
        }
        self.entries = entries;
    }

    /// Looks up the endpoint payload published for `method`.
    pub fn get(&self, method: &MethodId) -> (r: Option<&EndpointData>)
        ensures
            match r {
                Some(d) => self@.contains_key(method@) && d@ == self@[method@],
                None => !self@.contains_key(method@),
            },
    {
        proof {
            use_type_invariant(&*self);
        }
        match Self::find_index(&self.entries, method) {
            Some(i) => {
                proof {
                    lemma_pairs_map_get(self.entries@, i as int);
                }
                Some(&self.entries[i].1)
            },
            None => {
                proof {
                    lemma_pairs_map_domain(self.entries@, method@);
                }
                None
            },
        }
    }

    /// Number of published methods.
    pub fn len(&self) -> (r: usize)
        ensures
            r == self@.dom().len(),
    {
        proof {
            use_type_invariant(&*self);
            lemma_pairs_map_len(self.entries@);
        }
        self.entries.len()
    }

    /// True when nothing is published.
    pub fn is_empty(&self) -> (r: bool)
        ensures
            r == (self@ == Map::<Seq<char>, Seq<char>>::empty()),
    {
        proof {
            use_type_invariant(&*self);
            if self.entries@.len() > 0 {
                lemma_pairs_map_get(self.entries@, self.entries@.len() - 1);
                assert(!Map::<Seq<char>, Seq<char>>::empty().contains_key(
                    self.entries@.last().0@,
                ));
            } else {
                assert(self.entries@ =~= Seq::<(MethodId, EndpointData)>::empty());
            }
        }
        self.entries.len() == 0
    }

    /// The entries as plain pairs; keys are pairwise distinct and the order
    /// carries no meaning.
    pub fn entries(&self) -> (r: &Vec<(MethodId, EndpointData)>)
        ensures
            pairs_map(r@) == self@,
            distinct_keys(r@),
    {
        proof {
            use_type_invariant(&*self);
        }
        &self.entries
    }
}

} // verus!
