//! Resolution of raw directory listings into typed results.
//!
//! A shallow listing yields entries whose paths either end in the separator
//! (pseudo-directories, skipped) or carry a trailing segment naming a payment
//! method or a contact. A malformed entry (no extractable segment) is a
//! data-integrity failure for the whole operation, never silently dropped.
//! The "not found is not an error" policy lives here too, as one
//! classification function per network verb.

use vstd::prelude::*;
use vstd::string::StrSliceExecFns;
use vstd::string::StringExecFns;

use crate::domain::EndpointData;
use crate::domain::MethodId;
use crate::domain::PaykitError;
use crate::domain::PublicKey;
use crate::domain::SupportedPayments;
use crate::paths::is_dir_path;
use crate::paths::is_pseudo_dir;
use crate::paths::trailing_of;
use crate::paths::trailing_segment;

verus! {

/// One entry of a shallow directory listing: the full address of the resource
/// and its path, whose trailing segment names it.
#[derive(Debug)]
pub struct ResourceEntry {
    /// Path whose trailing segment is the entry's name; a path ending in the
    /// separator marks a pseudo-directory.
    pub path: String,
    /// Full storage address at which the entry's content can be fetched.
    pub address: String,
}

/// What a raw content fetch produced, before the absence policy is applied.
pub enum FetchOutcome {
    /// The document exists; its body (possibly empty) decoded as UTF-8 text.
    Fetched(String),
    /// The network reported that the document does not exist.
    Absent,
    /// A genuine transport or protocol failure, with its message.
    Failed(String),
}

/// What a raw listing request produced, before the absence policy is applied.
pub enum ListingOutcome {
    /// The directory exists and these are its direct children.
    Listed(Vec<ResourceEntry>),
    /// The network reported that the directory does not exist.
    Absent,
    /// A genuine transport or protocol failure, with its message.
    Failed(String),
}

/// The not-found classification for HTTP-style status codes: the conditions
/// that read as absence rather than as failure.
pub fn is_not_found_status(status: u16) -> (r: bool)
    ensures
        r == (status == 404 || status == 410),
{
    status == 404 || status == 410
}

/// What `classify_fetch` owes for each outcome.
pub open spec fn fetch_classified(
    outcome: FetchOutcome,
    label: Seq<char>,
    r: Result<Option<String>, PaykitError>,
) -> bool {
    match outcome {
        FetchOutcome::Fetched(body) => (match r {
            Ok(o) => (match o {
                Some(b) => body@.len() > 0 && b@ == body@,
                None => body@.len() == 0,
            }),
            Err(_) => false,
        }),
        FetchOutcome::Absent => (match r {
            Ok(o) => o is None,
            Err(_) => false,
        }),
        FetchOutcome::Failed(m) => (match r {
            Ok(_) => false,
            Err(e) => (match e {
                PaykitError::Transport(out) => out@ == label + ": "@ + m@,
                _ => false,
            }),
        }),
    }
}

/// Applies the absence policy to a raw content fetch: a missing or empty
/// document reads as `None`; a failure becomes a transport error labelled
/// with the operation.
pub fn classify_fetch(outcome: FetchOutcome, label: &str) -> (r: Result<
    Option<String>,
    PaykitError,
>)
    ensures
        fetch_classified(outcome, label@, r),
{
    match outcome {
        FetchOutcome::Fetched(body) => {
            if body.as_str().unicode_len() == 0 {
                Ok(None)
            } else {
                Ok(Some(body))
            }
        },
        FetchOutcome::Absent => Ok(None),
        FetchOutcome::Failed(m) => {
            let mut s = String::from_str(label);
            s.append(": ");
            s.append(m.as_str());
            Err(PaykitError::Transport(s))
        },
    }
}

/// What `classify_listing` owes for each outcome.
pub open spec fn listing_classified(
    outcome: ListingOutcome,
    label: Seq<char>,
    r: Result<Vec<ResourceEntry>, PaykitError>,
) -> bool {
    match outcome {
        ListingOutcome::Listed(es) => (match r {
            Ok(v) => v@ == es@,
            Err(_) => false,
        }),
        ListingOutcome::Absent => (match r {
            Ok(v) => v@.len() == 0,
            Err(_) => false,
        }),
        ListingOutcome::Failed(m) => (match r {
            Ok(_) => false,
            Err(e) => (match e {
                PaykitError::Transport(out) => out@ == label + ": "@ + m@,
                _ => false,
            }),
        }),
    }
}

/// Applies the absence policy to a raw listing request: a missing directory
/// reads as an empty listing; a failure becomes a transport error labelled
/// with the operation.
pub fn classify_listing(outcome: ListingOutcome, label: &'static str) -> (r: Result<
    Vec<ResourceEntry>,
    PaykitError,
>)
    ensures
        listing_classified(outcome, label@, r),
{
    match outcome {
        ListingOutcome::Listed(es) => Ok(es),
        ListingOutcome::Absent => Ok(Vec::new()),
        ListingOutcome::Failed(m) => {
            let mut s = String::from_str(label);
            s.append(": ");
            s.append(m.as_str());
            Err(PaykitError::Transport(s))
        },
    }
}

/// One listing entry resolving to a payment method and its document address.
pub open spec fn resolves_to(e: ResourceEntry, m: Seq<char>, a: Seq<char>) -> bool {
    !is_dir_path(e.path@) && m == trailing_of(e.path@) && a == e.address@
}

/// One listing entry naming a contact.
pub open spec fn names_contact(e: ResourceEntry, c: Seq<char>) -> bool {
    !is_dir_path(e.path@) && c == trailing_of(e.path@)
}

/// Whether a string parses as a network public key; the name stands for the
/// outside parser's verdict, which depends on the characters alone.
pub uninterp spec fn is_parsable_key(s: Seq<char>) -> bool;

/// Relies on `pubky::PublicKey`'s `FromStr`: whether a string parses as a
/// public key depends on its characters alone, and a failure carries the
/// parser's message.
#[verifier::external_body]
fn parse_contact_key(s: &str) -> (r: Result<(), String>)
    ensures
        r is Ok <==> is_parsable_key(s@),
{
    match s.parse::<pubky::PublicKey>() {
        Ok(_) => Ok(()),
        Err(err) => Err(format!("{err}")),
    }
}

/// Non-pseudo-directory entries carry pairwise-distinct trailing segments.
pub open spec fn entries_trailing_distinct(entries: Seq<ResourceEntry>) -> bool {
    forall|i1: int, i2: int|
        0 <= i1 < i2 < entries.len() && !is_dir_path((#[trigger] entries[i1]).path@)
            && !is_dir_path((#[trigger] entries[i2]).path@) ==> trailing_of(entries[i1].path@)
            != trailing_of(entries[i2].path@)
}

/// Pairwise-distinct contact keys.
pub open spec fn contacts_distinct(cs: Seq<PublicKey>) -> bool {
    forall|j1: int, j2: int|
        0 <= j1 < j2 < cs.len() ==> (#[trigger] cs[j1])@ != (#[trigger] cs[j2])@
}

/// Soundness of a resolved payment listing: every resolved item stems from a
/// non-pseudo-directory entry, as its (non-empty) trailing segment and its
/// address.
#[verifier::opaque]
pub open spec fn payment_listing_sound(
    entries: Seq<ResourceEntry>,
    rs: Seq<(MethodId, String)>,
) -> bool {
    forall|j: int| #![trigger rs[j]]
        0 <= j < rs.len() ==> (rs[j].0@).len() > 0 && exists|i: int|
            0 <= i < entries.len() && resolves_to(#[trigger] entries[i], rs[j].0@, rs[j].1@)
}

/// Completeness of a resolved payment listing: every non-pseudo-directory
/// entry is resolved.
#[verifier::opaque]
pub open spec fn payment_listing_complete(
    entries: Seq<ResourceEntry>,
    rs: Seq<(MethodId, String)>,
) -> bool {
    forall|i: int| #![trigger entries[i]]
        0 <= i < entries.len() && !is_dir_path(entries[i].path@) ==> exists|j: int|
            0 <= j < rs.len() && resolves_to(entries[i], (#[trigger] rs[j]).0@, rs[j].1@)
}

/// What a successfully resolved payment listing contains: exactly the
/// non-pseudo-directory entries, each as its trailing segment (always
/// non-empty) paired with its document address.
pub open spec fn payment_listing_resolved(
    entries: Seq<ResourceEntry>,
    rs: Seq<(MethodId, String)>,
) -> bool {
    &&& payment_listing_sound(entries, rs)
    &&& payment_listing_complete(entries, rs)
    &&& forall|i: int| 0 <= i < entries.len() ==> ((#[trigger] entries[i]).path@).len() > 0
}

/// Soundness of a resolved contact listing: every listed contact is the
/// (non-empty) trailing segment of a non-pseudo-directory entry.
#[verifier::opaque]
pub open spec fn contact_listing_sound(entries: Seq<ResourceEntry>, cs: Seq<PublicKey>) -> bool {
    forall|j: int| #![trigger cs[j]]
        0 <= j < cs.len() ==> (cs[j]@).len() > 0 && is_parsable_key(cs[j]@) && exists|i: int|
            0 <= i < entries.len() && names_contact(#[trigger] entries[i], cs[j]@)
}

/// Completeness of a resolved contact listing: every non-pseudo-directory
/// entry names a listed contact.
#[verifier::opaque]
pub open spec fn contact_listing_complete(entries: Seq<ResourceEntry>, cs: Seq<PublicKey>) -> bool {
    forall|i: int| #![trigger entries[i]]
        0 <= i < entries.len() && !is_dir_path(entries[i].path@) ==> exists|j: int|
            0 <= j < cs.len() && names_contact(entries[i], (#[trigger] cs[j])@)
}

/// What a successfully resolved contact listing contains: exactly the
/// non-pseudo-directory entries, each as its trailing segment (always
/// non-empty and parseable) read as a public key; entries with distinct
/// names yield distinct contacts.
pub open spec fn contact_listing_resolved(entries: Seq<ResourceEntry>, cs: Seq<PublicKey>) -> bool {
    &&& contact_listing_sound(entries, cs)
    &&& contact_listing_complete(entries, cs)
    &&& forall|i: int| 0 <= i < entries.len() ==> ((#[trigger] entries[i]).path@).len() > 0
    &&& entries_trailing_distinct(entries) ==> contacts_distinct(cs)
}

/// Resolves a shallow listing of a payment-endpoint directory.
///
/// Pseudo-directories are skipped; every other entry must carry a trailing
/// segment, which names the method whose document lives at the entry's
/// address. An entry without one (an empty path) fails the whole operation.
pub fn resolve_payment_listing(entries: &Vec<ResourceEntry>) -> (r: Result<
    Vec<(MethodId, String)>,
    PaykitError,
>)
    ensures
        match r {
            Ok(rs) => payment_listing_resolved(entries@, rs@),
            Err(e) => {
                &&& exists|i: int|
                    0 <= i < entries@.len() && ((#[trigger] entries@[i]).path@).len() == 0
                &&& e matches PaykitError::Transport(m) && m@
                    == "invalid resource returned for supported payment entry"@
            },
        },
{
    let mut rs: Vec<(MethodId, String)> = Vec::new();
    let ghost mut src: Seq<int> = Seq::empty();
    let ghost mut dst: Seq<int> = Seq::empty();
    let mut i: usize = 0;
    while i < entries.len()
        invariant
            i <= entries@.len(),
            src.len() == rs@.len(),
            dst.len() == i,
            forall|j: int| #![trigger src[j]]
                0 <= j < src.len() ==> 0 <= src[j] < i && resolves_to(
                    entries@[src[j]],
                    rs@[j].0@,
                    rs@[j].1@,
                ),
            forall|j: int| #![trigger rs@[j]] 0 <= j < rs@.len() ==> (rs@[j].0@).len() > 0,
            forall|x: int| #![trigger dst[x]]
                0 <= x < i ==> (!is_dir_path(entries@[x].path@) ==> 0 <= dst[x] < rs@.len()
                    && resolves_to(entries@[x], rs@[dst[x]].0@, rs@[dst[x]].1@)),
            forall|x: int| 0 <= x < i ==> ((#[trigger] entries@[x]).path@).len() > 0,
        decreases entries@.len() - i,
    {
        let e = &entries[i];
        if !is_pseudo_dir(e.path.as_str()) {
            match trailing_segment(e.path.as_str()) {
                Some(seg) => {
                    rs.push((MethodId(seg), e.address.clone()));
                    proof {
                        src = src.push(i as int);
                        dst = dst.push(rs@.len() - 1);
                        assert(resolves_to(
                            entries@[i as int],
                            rs@[rs@.len() - 1].0@,
                            rs@[rs@.len() - 1].1@,
                        ));
                    }
                },
                None => {
                    proof {
                        if entries@[i as int].path@.len() > 0 {
                            assert(trailing_of(entries@[i as int].path@).len() > 0);
                        }
                    }
                    return Err(
                        PaykitError::Transport(
                            String::from_str("invalid resource returned for supported payment entry"),
                        ),
                    );
                },
            }
        } else {
            proof {
                dst = dst.push(-1);
            }
        }
        i += 1;
    }
    proof {
        assert(payment_listing_sound(entries@, rs@)) by {
            reveal(payment_listing_sound);
            assert forall|j: int| #![trigger rs@[j]]
                0 <= j < rs@.len() implies ((rs@[j].0@).len() > 0 && exists|x: int|
                0 <= x < entries@.len() && resolves_to(
                    #[trigger] entries@[x],
                    rs@[j].0@,
                    rs@[j].1@,
                )) by {
                let x = src[j];
                assert(0 <= x < entries@.len() && resolves_to(entries@[x], rs@[j].0@, rs@[j].1@));
            }
        }
        assert(payment_listing_complete(entries@, rs@)) by {
            reveal(payment_listing_complete);
            assert forall|x: int| #![trigger entries@[x]]
                0 <= x < entries@.len() && !is_dir_path(entries@[x].path@) implies exists|j: int|
                0 <= j < rs@.len() && resolves_to(entries@[x], (#[trigger] rs@[j]).0@, rs@[j].1@) by {
                let j = dst[x];
                assert(0 <= j < rs@.len() && resolves_to(entries@[x], rs@[j].0@, rs@[j].1@));
            }
        }
    }
    Ok(rs)
}

/// Resolves a shallow listing of a contacts directory.
///
/// Pseudo-directories are skipped; every other entry's trailing segment is
/// parsed as a contact's public key. An entry without a segment (an empty
/// path), or one whose segment does not parse, is a data-integrity failure
/// for the whole operation, never silently dropped.
pub fn resolve_contact_listing(entries: &Vec<ResourceEntry>) -> (r: Result<
    Vec<PublicKey>,
    PaykitError,
>)
    ensures
        match r {
            Ok(cs) => contact_listing_resolved(entries@, cs@),
            Err(e) => {
                &&& exists|i: int|
                    0 <= i < entries@.len() && (((#[trigger] entries@[i]).path@).len() == 0 || (
                    !is_dir_path(entries@[i].path@) && !is_parsable_key(
                        trailing_of(entries@[i].path@),
                    )))
                &&& e is Transport
            },
        },
{
    let mut cs: Vec<PublicKey> = Vec::new();
    let ghost mut src: Seq<int> = Seq::empty();
    let ghost mut dst: Seq<int> = Seq::empty();
    let mut i: usize = 0;
    while i < entries.len()
        invariant
            i <= entries@.len(),
            src.len() == cs@.len(),
            dst.len() == i,
            forall|j: int| #![trigger src[j]]
                0 <= j < src.len() ==> 0 <= src[j] < i && names_contact(
                    entries@[src[j]],
                    cs@[j]@,
                ),
            forall|j1: int, j2: int|
                0 <= j1 < j2 < src.len() ==> #[trigger] src[j1] < #[trigger] src[j2],
            forall|j: int| #![trigger cs@[j]]
                0 <= j < cs@.len() ==> (cs@[j]@).len() > 0 && is_parsable_key(cs@[j]@),
            forall|x: int| #![trigger dst[x]]
                0 <= x < i ==> (!is_dir_path(entries@[x].path@) ==> 0 <= dst[x] < cs@.len()
                    && names_contact(entries@[x], cs@[dst[x]]@)),
            forall|x: int| 0 <= x < i ==> ((#[trigger] entries@[x]).path@).len() > 0,
        decreases entries@.len() - i,
    {
        let e = &entries[i];
        if !is_pseudo_dir(e.path.as_str()) {
            match trailing_segment(e.path.as_str()) {
                Some(seg) => {
                    match parse_contact_key(seg.as_str()) {
                        Ok(()) => {
                            cs.push(PublicKey(seg));
                            proof {
                                src = src.push(i as int);
                                dst = dst.push(cs@.len() - 1);
                                assert(names_contact(entries@[i as int], cs@[cs@.len() - 1]@));
                            }
                        },
                        Err(why) => {
                            proof {
                                assert(!is_parsable_key(trailing_of(entries@[i as int].path@)));
                            }
                            let mut s = String::from_str("invalid contact entry '");
                            s.append(seg.as_str());
                            s.append("': ");
                            s.append(why.as_str());
                            return Err(PaykitError::Transport(s));
                        },
                    }
                },
                None => {
                    proof {
                        if entries@[i as int].path@.len() > 0 {
                            assert(trailing_of(entries@[i as int].path@).len() > 0);
                        }
                    }
                    return Err(
                        PaykitError::Transport(
                            String::from_str("invalid resource returned for contact entry"),
                        ),
                    );
                },
            }
        } else {
            proof {
                dst = dst.push(-1);
            }
        }
        i += 1;
    }
    proof {
        assert(contact_listing_sound(entries@, cs@)) by {
            reveal(contact_listing_sound);
            assert forall|j: int| #![trigger cs@[j]]
                0 <= j < cs@.len() implies ((cs@[j]@).len() > 0 && is_parsable_key(cs@[j]@)
                && exists|x: int|
                0 <= x < entries@.len() && names_contact(#[trigger] entries@[x], cs@[j]@)) by {
                let x = src[j];
                assert(0 <= x < entries@.len() && names_contact(entries@[x], cs@[j]@));
            }
        }
        assert(contact_listing_complete(entries@, cs@)) by {
            reveal(contact_listing_complete);
            assert forall|x: int| #![trigger entries@[x]]
                0 <= x < entries@.len() && !is_dir_path(entries@[x].path@) implies exists|j: int|
                0 <= j < cs@.len() && names_contact(entries@[x], (#[trigger] cs@[j])@) by {
                let j = dst[x];
                assert(0 <= j < cs@.len() && names_contact(entries@[x], cs@[j]@));
            }
        }
        if entries_trailing_distinct(entries@) {
            assert forall|j1: int, j2: int| 0 <= j1 < j2 < cs@.len() implies (
            #[trigger] cs@[j1])@ != (#[trigger] cs@[j2])@ by {
                let x1 = src[j1];
                let x2 = src[j2];
                assert(names_contact(entries@[x1], cs@[j1]@));
                assert(names_contact(entries@[x2], cs@[j2]@));
                assert(x1 < x2);
                assert(trailing_of(entries@[x1].path@) != trailing_of(entries@[x2].path@));
            }
            assert(contacts_distinct(cs@));
        }
    }
    Ok(cs)
}

/// The map held by a run of fetched payloads: absent and empty payloads are
/// skipped, and a later pair for the same method overrides an earlier one.
pub open spec fn aggregated(s: Seq<(MethodId, Option<EndpointData>)>) -> Map<Seq<char>, Seq<char>>
    decreases s.len(),
{
    if s.len() == 0 {
        Map::empty()
    } else {
        let rest = aggregated(s.drop_last());
        match s.last().1 {
            Some(d) => if d@.len() > 0 {
                rest.insert(s.last().0@, d@)
            } else {
                rest
            },
            None => rest,
        }
    }
}

/// Merges fetched endpoint payloads into the supported-payments collection.
///
/// The canonical aggregation point of the listing algorithm: an absent or
/// empty payload skips its entry, and later duplicates override earlier ones.
pub fn aggregate_payments(items: Vec<(MethodId, Option<EndpointData>)>) -> (r: SupportedPayments)
    ensures
        r@ == aggregated(items@),
{
    let ghost orig = items@;
    let mut items = items;
    let mut r = SupportedPayments::new();
    let ghost k: int = 0;
    while items.len() > 0
        invariant
            0 <= k <= orig.len(),
            items@ == orig.subrange(k, orig.len() as int),
            r@ == aggregated(orig.subrange(0, k)),
        decreases items@.len(),
    {
        let x = items.remove(0);
        proof {
            assert(x == orig[k]);
            assert(items@ =~= orig.subrange(k + 1, orig.len() as int));
            assert(orig.subrange(0, k + 1).drop_last() =~= orig.subrange(0, k));
            assert(orig.subrange(0, k + 1).last() == orig[k]);
        }
        match x.1 {
            Some(d) => {
                if d.0.as_str().unicode_len() > 0 {
                    r.insert(x.0, d);
                } else {
                }
            },
            None => {},
        }
        proof {
            k = k + 1;
        }
    }
    proof {
        assert(orig.subrange(0, k) =~= orig);
    }
    r
}

} // verus!
