use vstd::prelude::*;

use crate::oid::{oid_decode, oid_encode, valid_oid_str};

verus! {

/// First-match lookup over (identifier bytes, record) pairs, the
/// mathematical reading of one store collection.
pub open spec fn lookup<V>(s: Seq<(Seq<u8>, V)>, k: Seq<u8>) -> Option<V>
    decreases s.len(),
{
    if s.len() == 0 {
        None
    } else if s[0].0 == k {
        Some(s[0].1)
    } else {
        lookup(s.drop_first(), k)
    }
}

/// No two pairs carry the same identifier.
pub open spec fn distinct_keys<V>(s: Seq<(Seq<u8>, V)>) -> bool {
    forall|i: int, j: int| 0 <= i < j < s.len() ==> s[i].0 != s[j].0
}

/// Some pair carries the key.
pub open spec fn has_key<V>(s: Seq<(Seq<u8>, V)>, k: Seq<u8>) -> bool {
    exists|i: int| 0 <= i < s.len() && (#[trigger] s[i]).0 == k
}

/// A lookup misses exactly when no pair carries the key.
pub proof fn lemma_lookup_none_iff<V>(s: Seq<(Seq<u8>, V)>, k: Seq<u8>)
    ensures
        lookup(s, k) is None <==> !has_key(s, k),
    decreases s.len(),
{
    if s.len() > 0 {
        lemma_lookup_none_iff(s.drop_first(), k);
        if s[0].0 == k {
            assert(has_key(s, k));
        } else {
            if has_key(s.drop_first(), k) {
                let w = choose|i: int|
                    0 <= i < s.drop_first().len() && (#[trigger] s.drop_first()[i]).0 == k;
                assert(s.drop_first()[w] == s[w + 1]);
                assert(has_key(s, k));
            }
            if has_key(s, k) {
                let w = choose|i: int| 0 <= i < s.len() && (#[trigger] s[i]).0 == k;
                assert(w > 0);
                assert(s.drop_first()[w - 1] == s[w]);
                assert(has_key(s.drop_first(), k));
            }
        }
    }
}

/// With distinct keys, a lookup by the key of pair `i` finds pair `i`.
pub proof fn lemma_lookup_found<V>(s: Seq<(Seq<u8>, V)>, i: int)
    requires
        distinct_keys(s),
        0 <= i < s.len(),
    ensures
        lookup(s, s[i].0) == Some(s[i].1),
    decreases s.len(),
{
    if i > 0 {
        assert(s[0].0 != s[i].0);
        assert(forall|i: int|
            0 <= i < s.drop_first().len() ==> #[trigger] s.drop_first()[i] == s[i + 1]);
        assert(distinct_keys(s.drop_first()));
        lemma_lookup_found(s.drop_first(), i - 1);
    }
}

/// Appending a pair changes exactly the lookup of a previously missing key.
pub proof fn lemma_lookup_push<V>(s: Seq<(Seq<u8>, V)>, k0: Seq<u8>, v0: V, k: Seq<u8>)
    ensures
        lookup(s.push((k0, v0)), k) == (if lookup(s, k) is Some {
            lookup(s, k)
        } else if k0 == k {
            Some(v0)
        } else {
            None::<V>
        }),
    decreases s.len(),
{
    let s2 = s.push((k0, v0));
    if s.len() == 0 {
        assert(s2[0] == (k0, v0));
        assert(s2.drop_first() =~= Seq::<(Seq<u8>, V)>::empty());
    } else {
        assert(s2[0] == s[0]);
        assert(s2.drop_first() =~= s.drop_first().push((k0, v0)));
        lemma_lookup_push(s.drop_first(), k0, v0, k);
    }
}

/// Replacing the record of pair `i`, key kept, changes exactly the lookup
/// of that key.
pub proof fn lemma_lookup_update<V>(s: Seq<(Seq<u8>, V)>, i: int, v: V, k: Seq<u8>)
    requires
        distinct_keys(s),
        0 <= i < s.len(),
    ensures
        lookup(s.update(i, (s[i].0, v)), k) == (if s[i].0 == k {
            Some(v)
        } else {
            lookup(s, k)
        }),
    decreases s.len(),
{
    let s2 = s.update(i, (s[i].0, v));
    assert(forall|i: int|
        0 <= i < s.drop_first().len() ==> #[trigger] s.drop_first()[i] == s[i + 1]);
    if i == 0 {
        assert(s2[0] == (s[0].0, v));
        assert(s2.drop_first() =~= s.drop_first());
    } else {
        assert(s2[0] == s[0]);
        assert(s2.drop_first() =~= s.drop_first().update(i - 1, (s[i].0, v)));
        assert(distinct_keys(s.drop_first()));
        lemma_lookup_update(s.drop_first(), i - 1, v, k);
        if s[0].0 == k {
            assert(s[i].0 != k);
        }
    }
}

/// Removing pair `i` changes exactly the lookup of its key.
pub proof fn lemma_lookup_remove<V>(s: Seq<(Seq<u8>, V)>, i: int, k: Seq<u8>)
    requires
        distinct_keys(s),
        0 <= i < s.len(),
    ensures
        lookup(s.remove(i), k) == (if s[i].0 == k {
            None::<V>
        } else {
            lookup(s, k)
        }),
    decreases s.len(),
{
    let s2 = s.remove(i);
    assert(forall|i: int|
        0 <= i < s.drop_first().len() ==> #[trigger] s.drop_first()[i] == s[i + 1]);
    assert(distinct_keys(s.drop_first()));
    if i == 0 {
        assert(s2 =~= s.drop_first());
        if s[0].0 == k {
            lemma_lookup_none_iff(s.drop_first(), k);
        }
    } else {
        assert(s2[0] == s[0]);
        assert(s2.drop_first() =~= s.drop_first().remove(i - 1));
        lemma_lookup_remove(s.drop_first(), i - 1, k);
        if s[0].0 == k {
            assert(s[i].0 != k);
        }
    }
}

/// Freshly created records are retrievable. If the store assigns key `k`
/// to a record `r`, then the canonical hex rendering of `k` is a
/// well-formed identifier string, and looking it up in the new store
/// contents finds exactly `r`.
pub proof fn lemma_create_then_get_by_id<V>(s: Seq<(Seq<u8>, V)>, r: V, k: Seq<u8>)
    requires
        lookup(s, k) is None,
        k.len() == 12,
    ensures
        valid_oid_str(oid_encode(k)),
        lookup(s.push((k, r)), oid_decode(oid_encode(k))) == Some(r),
{
    crate::oid::lemma_oid_hex_round_trip(k);
    lemma_lookup_push(s, k, r, k);
}

} // verus!
