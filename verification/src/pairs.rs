//! Association lists of viewable pairs, abstracted to `Map`.
//!
//! Both the supported-payments collection and the in-memory store keep their
//! entries as a vector of pairs with pairwise-distinct keys; their views are
//! the maps defined here.

use vstd::prelude::*;

verus! {

/// The mapping held by an association list, read left to right: a later pair
/// with the same key overrides an earlier one.
pub open spec fn pairs_map<K: View, V: View>(s: Seq<(K, V)>) -> Map<K::V, V::V>
    decreases s.len(),
{
    if s.len() == 0 {
        Map::empty()
    } else {
        pairs_map(s.drop_last()).insert(s.last().0@, s.last().1@)
    }
}

/// Pairwise-distinct keys, compared by view.
pub open spec fn distinct_keys<K: View, V: View>(s: Seq<(K, V)>) -> bool {
    forall|i: int, j: int| 0 <= i < j < s.len() ==> (#[trigger] s[i]).0@ != (#[trigger] s[j]).0@
}

pub proof fn lemma_pairs_map_domain<K: View, V: View>(s: Seq<(K, V)>, k: K::V)
    ensures
        pairs_map(s).contains_key(k) <==> exists|i: int|
            0 <= i < s.len() && (#[trigger] s[i]).0@ == k,
    decreases s.len(),
{
    if s.len() == 0 {
    } else {
        let t = s.drop_last();
        lemma_pairs_map_domain(t, k);
        if s.last().0@ == k {
            assert(s[s.len() - 1].0@ == k);
        } else {
            if pairs_map(s).contains_key(k) {
                let i = choose|i: int| 0 <= i < t.len() && (#[trigger] t[i]).0@ == k;
                assert(s[i].0@ == k);
            }
            if exists|i: int| 0 <= i < s.len() && (#[trigger] s[i]).0@ == k {
                let i = choose|i: int| 0 <= i < s.len() && (#[trigger] s[i]).0@ == k;
                assert(i < s.len() - 1);
                assert(t[i].0@ == k);
            }
        }
    }
}

pub proof fn lemma_pairs_map_get<K: View, V: View>(s: Seq<(K, V)>, i: int)
    requires
        distinct_keys(s),
        0 <= i < s.len(),
    ensures
        pairs_map(s).contains_key(s[i].0@),
        pairs_map(s)[s[i].0@] == s[i].1@,
    decreases s.len(),
{
    if i == s.len() - 1 {
    } else {
        let t = s.drop_last();
        assert forall|x: int, y: int| 0 <= x < y < t.len() implies (#[trigger] t[x]).0@ != (
        #[trigger] t[y]).0@ by {
            assert(t[x] == s[x] && t[y] == s[y]);
        }
        assert(t[i] == s[i]);
        lemma_pairs_map_get(t, i);
        assert(s.last().0@ != s[i].0@);
    }
}

pub proof fn lemma_pairs_map_len<K: View, V: View>(s: Seq<(K, V)>)
    requires
        distinct_keys(s),
    ensures
        pairs_map(s).dom().finite(),
        pairs_map(s).dom().len() == s.len(),
    decreases s.len(),
{
    if s.len() == 0 {
        assert(pairs_map(s).dom() =~= Set::<K::V>::empty());
    } else {
        let t = s.drop_last();
        assert forall|x: int, y: int| 0 <= x < y < t.len() implies (#[trigger] t[x]).0@ != (
        #[trigger] t[y]).0@ by {
            assert(t[x] == s[x] && t[y] == s[y]);
        }
        lemma_pairs_map_len(t);
        lemma_pairs_map_domain(t, s.last().0@);
        assert forall|i: int| 0 <= i < t.len() implies (#[trigger] t[i]).0@ != s.last().0@ by {
            assert(t[i] == s[i]);
            assert(s[i].0@ != s[s.len() - 1].0@);
        }
        assert(!pairs_map(t).contains_key(s.last().0@));
        assert(pairs_map(s).dom() =~= pairs_map(t).dom().insert(s.last().0@));
    }
}

pub proof fn lemma_pairs_map_remove<K: View, V: View>(s: Seq<(K, V)>, i: int)
    requires
        distinct_keys(s),
        0 <= i < s.len(),
    ensures
        pairs_map(s.remove(i)) == pairs_map(s).remove(s[i].0@),
    decreases s.len(),
{
    let k = s[i].0@;
    if i == s.len() - 1 {
        let t = s.drop_last();
        assert(s.remove(i) =~= t);
        lemma_pairs_map_domain(t, k);
        assert forall|x: int| 0 <= x < t.len() implies (#[trigger] t[x]).0@ != k by {
            assert(t[x] == s[x]);
            assert(s[x].0@ != s[s.len() - 1].0@);
        }
        assert(!pairs_map(t).contains_key(k));
        assert(pairs_map(s.remove(i)) =~= pairs_map(s).remove(k));
    } else {
        let t = s.drop_last();
        assert forall|x: int, y: int| 0 <= x < y < t.len() implies (#[trigger] t[x]).0@ != (
        #[trigger] t[y]).0@ by {
            assert(t[x] == s[x] && t[y] == s[y]);
        }
        assert(t[i] == s[i]);
        lemma_pairs_map_remove(t, i);
        let u = s.remove(i);
        assert(u.len() == s.len() - 1);
        assert(u.drop_last() =~= t.remove(i));
        assert(u.last() == s.last());
        assert(pairs_map(u) == pairs_map(t.remove(i)).insert(s.last().0@, s.last().1@));
        assert(s.last().0@ != k);
        assert(pairs_map(t).remove(k).insert(s.last().0@, s.last().1@) =~= pairs_map(t).insert(
            s.last().0@,
            s.last().1@,
        ).remove(k));
        assert(pairs_map(s.remove(i)) =~= pairs_map(s).remove(k));
    }
}

} // verus!
