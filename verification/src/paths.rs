//! Addressing convention and path arithmetic.
//!
//! Storage addresses are strings of the form `pubky{owner}{namespace}{segment}`,
//! where the namespace is either the payment-endpoint directory
//! `/pub/paykit.app/v0/` or the contacts directory `/pub/pubky.app/follows/`.
//! The trailing path segment (after the last `/`) names the payment method or
//! the contact. A path that ends in `/` names a pseudo-directory.

use vstd::prelude::*;
use vstd::string::StrSliceExecFns;
use vstd::string::StringExecFns;

use crate::domain::MethodId;
use crate::domain::PublicKey;

verus! {

/// Conventional directory for payment endpoint documents, relative to an
/// identity's storage root. The `v0` segment is the protocol version marker:
/// an incompatible future convention must use a new version segment.
pub const PAYKIT_PATH_PREFIX: &'static str = "/pub/paykit.app/v0/";

/// Conventional directory of contact marker files (one file per known
/// contact), relative to an identity's storage root.
pub const PUBKY_FOLLOWS_PATH: &'static str = "/pub/pubky.app/follows/";

/// The payment-endpoint directory, as characters.
pub open spec fn paykit_prefix() -> Seq<char> {
    "/pub/paykit.app/v0/"@
}

/// The contacts directory, as characters.
pub open spec fn follows_prefix() -> Seq<char> {
    "/pub/pubky.app/follows/"@
}

/// The address scheme marker that starts every full storage address.
pub open spec fn scheme_prefix() -> Seq<char> {
    "pubky"@
}

/// Address of the directory that lists every payment endpoint of `payee`.
pub open spec fn payment_list_addr(payee: Seq<char>) -> Seq<char> {
    scheme_prefix() + payee + paykit_prefix()
}

/// Address of the endpoint document of `payee` for `method`.
pub open spec fn payment_endpoint_addr(payee: Seq<char>, method: Seq<char>) -> Seq<char> {
    payment_list_addr(payee) + method
}

/// Address of the directory that lists every contact marker of `owner`.
pub open spec fn contacts_list_addr(owner: Seq<char>) -> Seq<char> {
    scheme_prefix() + owner + follows_prefix()
}

/// Address of the marker file that records `contact` as known to `owner`.
pub open spec fn contact_marker_addr(owner: Seq<char>, contact: Seq<char>) -> Seq<char> {
    contacts_list_addr(owner) + contact
}

/// True when `p` is a prefix of `s`.
pub open spec fn has_prefix(s: Seq<char>, p: Seq<char>) -> bool {
    p.len() <= s.len() && s.subrange(0, p.len() as int) == p
}

/// A listing path whose last character is the separator names a
/// pseudo-directory and carries no identifier.
pub open spec fn is_dir_path(s: Seq<char>) -> bool {
    s.len() > 0 && s[s.len() - 1] == '/'
}

/// A usable path segment: non-empty and free of the separator.
pub open spec fn is_segment(s: Seq<char>) -> bool {
    s.len() > 0 && (forall|i: int| 0 <= i < s.len() ==> s[i] != '/')
}

/// A direct child of the directory address `p`: strictly longer, starts with
/// `p`, and the remainder is a clean segment (no separator).
pub open spec fn is_child_key(p: Seq<char>, k: Seq<char>) -> bool {
    k.len() > p.len() && k.subrange(0, p.len() as int) == p && is_segment(k.skip(p.len() as int))
}

/// The characters after the last separator of `s`; all of `s` when it has
/// none, and empty when `s` ends with the separator.
pub open spec fn trailing_of(s: Seq<char>) -> Seq<char>
    decreases s.len(),
{
    if s.len() == 0 {
        Seq::empty()
    } else if s[s.len() - 1] == '/' {
        Seq::empty()
    } else {
        trailing_of(s.drop_last()).push(s[s.len() - 1])
    }
}

pub proof fn lemma_trailing_of_no_separator(s: Seq<char>)
    requires
        forall|i: int| 0 <= i < s.len() ==> s[i] != '/',
    ensures
        trailing_of(s) == s,
    decreases s.len(),
{
    if s.len() == 0 {
        assert(trailing_of(s) =~= s);
    } else {
        lemma_trailing_of_no_separator(s.drop_last());
        assert(trailing_of(s) =~= s);
    }
}

/// Appending a separator-free suffix to a path that ends with the separator
/// makes that suffix the trailing segment.
pub proof fn lemma_trailing_of_concat(p: Seq<char>, s: Seq<char>)
    requires
        p.len() > 0,
        p[p.len() - 1] == '/',
        forall|i: int| 0 <= i < s.len() ==> s[i] != '/',
    ensures
        trailing_of(p + s) == s,
    decreases s.len(),
{
    if s.len() == 0 {
        assert(p + s =~= p);
        assert(trailing_of(p + s) =~= s);
    } else {
        lemma_trailing_of_concat(p, s.drop_last());
        assert((p + s).drop_last() =~= p + s.drop_last());
        assert(trailing_of(p + s) =~= s);
    }
}

/// Concatenation with a common left part is injective on the right part.
pub proof fn lemma_concat_cancel(p: Seq<char>, a: Seq<char>, b: Seq<char>)
    requires
        p + a == p + b,
    ensures
        a == b,
{
    assert((p + a).len() == p.len() + a.len());
    assert((p + b).len() == p.len() + b.len());
    assert forall|i: int| 0 <= i < a.len() implies a[i] == b[i] by {
        assert((p + a)[p.len() + i] == a[i]);
        assert((p + b)[p.len() + i] == b[i]);
    }
    assert(a =~= b);
}

/// A string splits into any of its prefixes and the rest.
pub proof fn lemma_prefix_skip(s: Seq<char>, p: Seq<char>)
    requires
        has_prefix(s, p),
    ensures
        p + s.skip(p.len() as int) == s,
{
    assert(p + s.skip(p.len() as int) =~= s);
}

pub proof fn lemma_paykit_prefix_shape()
    ensures
        paykit_prefix().len() == 19,
        paykit_prefix()[paykit_prefix().len() - 1] == '/',
{
    reveal_strlit("/pub/paykit.app/v0/");
}

pub proof fn lemma_follows_prefix_shape()
    ensures
        follows_prefix().len() == 23,
        follows_prefix()[follows_prefix().len() - 1] == '/',
{
    reveal_strlit("/pub/pubky.app/follows/");
}

/// Both listing addresses end with the separator, so the trailing segment of
/// a child address is exactly the child's own name.
pub proof fn lemma_list_addr_ends_with_separator(who: Seq<char>)
    ensures
        payment_list_addr(who).len() > 0,
        payment_list_addr(who)[payment_list_addr(who).len() - 1] == '/',
        contacts_list_addr(who).len() > 0,
        contacts_list_addr(who)[contacts_list_addr(who).len() - 1] == '/',
{
    lemma_paykit_prefix_shape();
    lemma_follows_prefix_shape();
    let pay = payment_list_addr(who);
    let fol = contacts_list_addr(who);
    assert(pay[pay.len() - 1] == paykit_prefix()[paykit_prefix().len() - 1]);
    assert(fol[fol.len() - 1] == follows_prefix()[follows_prefix().len() - 1]);
}

/// True exactly when `p` is a prefix of `s`.
pub fn str_has_prefix(s: &str, p: &str) -> (r: bool)
    ensures
        r == has_prefix(s@, p@),
{
    let slen = s.unicode_len();
    let plen = p.unicode_len();
    if plen > slen {
        return false;
    }
    let mut i: usize = 0;
    while i < plen
        invariant
            i <= plen,
            plen <= slen,
            plen == p@.len(),
            slen == s@.len(),
            forall|j: int| 0 <= j < i ==> s@[j] == p@[j],
        decreases plen - i,
    {
        if s.get_char(i) != p.get_char(i) {
            proof {
                if has_prefix(s@, p@) {
                    assert(s@.subrange(0, p@.len() as int)[i as int] == p@[i as int]);
                }
            }
            return false;
        }
        i += 1;
    }
    proof {
        assert(s@.subrange(0, p@.len() as int) =~= p@);
    }
    true
}

/// Index of the first separator of `s` at or after `from`, if any.
pub fn find_separator_from(s: &str, from: usize) -> (r: Option<usize>)
    requires
        from <= s@.len(),
    ensures
        match r {
            Some(j) => from <= j < s@.len() && s@[j as int] == '/' && (forall|x: int|
                from <= x < j ==> s@[x] != '/'),
            None => forall|x: int| from <= x < s@.len() ==> s@[x] != '/',
        },
{
    let len = s.unicode_len();
    let mut i = from;
    while i < len
        invariant
            from <= i <= len,
            len == s@.len(),
            forall|x: int| from <= x < i ==> s@[x] != '/',
        decreases len - i,
    {
        if s.get_char(i) == '/' {
            return Some(i);
        }
        i += 1;
    }
    None
}

/// Relates a cut position found by scanning from the end to `trailing_of`.
proof fn lemma_trailing_after_cut(s: Seq<char>, j: int)
    requires
        0 <= j <= s.len(),
        forall|x: int| j <= x < s.len() ==> s[x] != '/',
        j == 0 || s[j - 1] == '/',
    ensures
        trailing_of(s) == s.skip(j),
{
    if j == 0 {
        lemma_trailing_of_no_separator(s);
        assert(s.skip(0) =~= s);
    } else {
        assert(s =~= s.subrange(0, j) + s.skip(j));
        lemma_trailing_of_concat(s.subrange(0, j), s.skip(j));
    }
}

/// The trailing non-empty path segment of `path`, when it has one.
///
/// There is none exactly when the path is empty or names a pseudo-directory.
pub fn trailing_segment(path: &str) -> (r: Option<String>)
    ensures
        match r {
            Some(seg) => seg@ == trailing_of(path@) && seg@.len() > 0,
            None => trailing_of(path@).len() == 0,
        },
{
    let len = path.unicode_len();
    let mut j = len;
    while j > 0 && path.get_char(j - 1) != '/'
        invariant
            0 <= j <= len,
            len == path@.len(),
            forall|x: int| j <= x < len ==> path@[x] != '/',
        decreases j,
    {
        j -= 1;
    }
    proof {
        lemma_trailing_after_cut(path@, j as int);
    }
    if j == len {
        None
    } else {
        let seg = path.substring_char(j, len);
        Some(String::from_str(seg))
    }
}

/// True when `path` names a pseudo-directory.
pub fn is_pseudo_dir(path: &str) -> (r: bool)
    ensures
        r == is_dir_path(path@),
{
    let len = path.unicode_len();
    len > 0 && path.get_char(len - 1) == '/'
}

/// Builds the listing address for every payment endpoint of `payee`.
pub fn payment_list_address(payee: &PublicKey) -> (r: String)
    ensures
        r@ == payment_list_addr(payee@),
{
    let mut s = String::from_str("pubky");
    s.append(payee.0.as_str());
    s.append("/pub/paykit.app/v0/");
    proof {
        assert(s@ =~= payment_list_addr(payee@));
    }
    s
}

/// Builds the address of the endpoint document of `payee` for `method`.
pub fn payment_endpoint_address(payee: &PublicKey, method: &MethodId) -> (r: String)
    ensures
        r@ == payment_endpoint_addr(payee@, method@),
{
    let mut s = payment_list_address(payee);
    s.append(method.0.as_str());
    s
}

/// Builds the listing address for every contact marker of `owner`.
pub fn contacts_list_address(owner: &PublicKey) -> (r: String)
    ensures
        r@ == contacts_list_addr(owner@),
{
    let mut s = String::from_str("pubky");
    s.append(owner.0.as_str());
    s.append("/pub/pubky.app/follows/");
    proof {
        assert(s@ =~= contacts_list_addr(owner@));
    }
    s
}

/// Builds the root-relative path of the endpoint document for `method`, for
/// writes through an authenticated session rooted at the writer's identity.
pub fn payment_endpoint_path(method: &MethodId) -> (r: String)
    ensures
        r@ == paykit_prefix() + method@,
{
    let mut s = String::from_str("/pub/paykit.app/v0/");
    s.append(method.0.as_str());
    s
}

/// Builds the root-relative path of the marker file for `contact`.
pub fn contact_marker_path(contact: &PublicKey) -> (r: String)
    ensures
        r@ == follows_prefix() + contact@,
{
    let mut s = String::from_str("/pub/pubky.app/follows/");
    s.append(contact.0.as_str());
    s
}

} // verus!
