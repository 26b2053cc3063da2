//! How many records are kept, and that the order in which the records come
//! does not matter for it.

use crate::dedup::{deliveries, first_delivery, identities, picked, surviving};
use crate::usage::UsageEntry;
use std::sync::Arc;
use vstd::prelude::*;

verus! {

/// The number of records without an identity.
pub open spec fn unidentified(keys: Seq<Option<Seq<char>>>) -> nat {
    keys.to_multiset().count(None)
}

/// The identities of the records that were not seen before.
pub open spec fn new_identities(keys: Seq<Option<Seq<char>>>, seen: Set<Seq<char>>) -> Set<
    Seq<char>,
> {
    Set::new(|h: Seq<char>| !seen.contains(h) && keys.contains(Some(h)))
}

/// As many records are kept as there are records without an identity and
/// identities that were not seen before.
pub proof fn lemma_survivor_count(keys: Seq<Option<Seq<char>>>, seen: Set<Seq<char>>)
    ensures
        new_identities(keys, seen).finite(),
        picked(deliveries(keys, seen)).len() == unidentified(keys) + new_identities(
            keys,
            seen,
        ).len(),
    decreases keys.len(),
{
    if keys.len() == 0 {
        assert(new_identities(keys, seen) =~= Set::<Seq<char>>::empty());
        keys.to_multiset_ensures();
        assert(keys.to_multiset().len() == 0);
    } else {
        let rest = keys.drop_last();
        let k = keys.last();
        let n = keys.len() - 1;
        lemma_survivor_count(rest, seen);
        assert(keys =~= rest.push(k));
        rest.to_multiset_ensures();
        assert(keys.to_multiset() =~= rest.to_multiset().insert(k));
        assert forall|i: int| 0 <= i < n implies first_delivery(keys, seen, i) == first_delivery(
            rest,
            seen,
            i,
        ) by {
            assert(keys[i] == rest[i]);
            assert(forall|j: int| 0 <= j < i ==> keys[j] == rest[j]);
        }
        assert(deliveries(keys, seen).drop_last() =~= deliveries(rest, seen));
        assert(deliveries(keys, seen).last() == first_delivery(keys, seen, n));
        match k {
            None => {
                assert forall|h: Seq<char>| new_identities(keys, seen).contains(h)
                    == new_identities(rest, seen).contains(h) by {
                    if keys.contains(Some(h)) {
                        let i = choose|i: int| 0 <= i < keys.len() && keys[i] == Some(h);
                        assert(rest[i] == Some(h));
                    }
                    if rest.contains(Some(h)) {
                        let i = choose|i: int| 0 <= i < rest.len() && rest[i] == Some(h);
                        assert(keys[i] == Some(h));
                    }
                }
                assert(new_identities(keys, seen) =~= new_identities(rest, seen));
            },
            Some(g) => {
                let fresh = first_delivery(keys, seen, n);
                assert(fresh == (!seen.contains(g) && !rest.contains(Some(g)))) by {
                    if rest.contains(Some(g)) {
                        let i = choose|i: int| 0 <= i < rest.len() && rest[i] == Some(g);
                        assert(keys[i] == Some(g));
                    }
                    if !rest.contains(Some(g)) {
                        assert forall|j: int| 0 <= j < n implies keys[j] != Some(g) by {
                            assert(rest[j] == keys[j]);
                        }
                    }
                }
                let grown = if fresh {
                    new_identities(rest, seen).insert(g)
                } else {
                    new_identities(rest, seen)
                };
                assert forall|h: Seq<char>| new_identities(keys, seen).contains(h)
                    == grown.contains(h) by {
                    if keys.contains(Some(h)) {
                        let i = choose|i: int| 0 <= i < keys.len() && keys[i] == Some(h);
                        if i < n {
                            assert(rest[i] == Some(h));
                        }
                    }
                    if rest.contains(Some(h)) {
                        let i = choose|i: int| 0 <= i < rest.len() && rest[i] == Some(h);
                        assert(keys[i] == Some(h));
                    }
                    if h == g {
                        assert(keys[n] == Some(h));
                    }
                }
                assert(new_identities(keys, seen) =~= grown);
            },
        }
    }
}

/// The number of records that are kept: the records without an identity,
/// and one for each identity that was not seen before.
pub proof fn lemma_number_of_survivors(entries: Seq<Arc<UsageEntry>>, seen: Set<Seq<char>>)
    ensures
        new_identities(identities(entries), seen).finite(),
        surviving(entries, seen).len() == unidentified(identities(entries)) + new_identities(
            identities(entries),
            seen,
        ).len(),
{
    lemma_survivor_count(identities(entries), seen);
}

/// The same records in another order have the same identities, each as
/// often.
pub proof fn lemma_identities_of_reordered(a: Seq<Arc<UsageEntry>>, b: Seq<Arc<UsageEntry>>)
    requires
        a.to_multiset() == b.to_multiset(),
    ensures
        identities(a).to_multiset() == identities(b).to_multiset(),
    decreases a.len(),
{
    a.to_multiset_ensures();
    b.to_multiset_ensures();
    if a.len() == 0 {
        assert(identities(a) =~= identities(b));
    } else {
        let x = a.last();
        let rest_a = a.drop_last();
        assert(a =~= rest_a.push(x));
        rest_a.to_multiset_ensures();
        assert(a[a.len() - 1] == x);
        assert(a.contains(x));
        vstd::seq_lib::to_multiset_contains(a, x);
        vstd::seq_lib::to_multiset_contains(b, x);
        assert(b.contains(x));
        let i = choose|i: int| 0 <= i < b.len() && b[i] == x;
        let rest_b = b.remove(i);
        vstd::seq_lib::to_multiset_remove(b, i);
        assert(rest_a.to_multiset() =~= a.to_multiset().remove(x));
        assert(rest_a.to_multiset() =~= rest_b.to_multiset());
        lemma_identities_of_reordered(rest_a, rest_b);
        let ka = identities(a);
        let kb = identities(b);
        assert(ka =~= identities(rest_a).push(x.data.identity()));
        identities(rest_a).to_multiset_ensures();
        assert(kb.remove(i) =~= identities(rest_b));
        vstd::seq_lib::to_multiset_remove(kb, i);
        assert(kb.contains(kb[i]));
        vstd::seq_lib::to_multiset_contains(kb, kb[i]);
        assert(kb.to_multiset() =~= kb.remove(i).to_multiset().insert(kb[i]));
    }
}

/// Two loads of the same records, in whatever order they come, keep the
/// same number of records, the same number of records without an identity,
/// and the same identities.
pub proof fn lemma_order_does_not_matter(
    a: Seq<Arc<UsageEntry>>,
    b: Seq<Arc<UsageEntry>>,
    seen: Set<Seq<char>>,
)
    requires
        a.to_multiset() == b.to_multiset(),
    ensures
        surviving(a, seen).len() == surviving(b, seen).len(),
        unidentified(identities(a)) == unidentified(identities(b)),
        new_identities(identities(a), seen) == new_identities(identities(b), seen),
{
    lemma_identities_of_reordered(a, b);
    let ka = identities(a);
    let kb = identities(b);
    lemma_survivor_count(ka, seen);
    lemma_survivor_count(kb, seen);
    ka.to_multiset_ensures();
    kb.to_multiset_ensures();
    assert forall|h: Seq<char>| new_identities(ka, seen).contains(h) == new_identities(
        kb,
        seen,
    ).contains(h) by {
        vstd::seq_lib::to_multiset_contains(ka, Some(h));
        vstd::seq_lib::to_multiset_contains(kb, Some(h));
    }
    assert(new_identities(ka, seen) =~= new_identities(kb, seen));
}

} // verus!
