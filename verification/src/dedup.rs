//! Deduplication. A record that carries both a message identifier and a
//! request identifier has an identity; of all records with one identity only
//! the first that is seen is kept. A record without an identity is always
//! kept.

use crate::ids::{MessageId, RequestId, UniqueHash};
use crate::shared::share;
use crate::usage::UsageEntry;
use std::sync::Arc;
use vstd::hash_set::StringHashSet;
use vstd::prelude::*;

verus! {

/// The identities seen so far in a load.
pub type SeenIdentities = StringHashSet;

/// The identities seen before a load has taken its first record: none.
pub fn none_seen() -> (r: SeenIdentities)
    ensures
        r@ == Set::<Seq<char>>::empty(),
{
    StringHashSet::new()
}

/// The positions that are flagged, in increasing order.
pub open spec fn picked(flags: Seq<bool>) -> Seq<int>
    decreases flags.len(),
{
    if flags.len() == 0 {
        Seq::empty()
    } else if flags.last() {
        picked(flags.drop_last()).push(flags.len() - 1)
    } else {
        picked(flags.drop_last())
    }
}

/// The identity of each record.
pub open spec fn identities(entries: Seq<Arc<UsageEntry>>) -> Seq<Option<Seq<char>>> {
    Seq::new(entries.len(), |i: int| entries[i].data.identity())
}

/// The record at position `i` is kept: it has no identity, or its identity
/// was not seen before and no earlier record has it.
pub open spec fn first_delivery(keys: Seq<Option<Seq<char>>>, seen: Set<Seq<char>>, i: int) -> bool {
    match keys[i] {
        None => true,
        Some(h) => !seen.contains(h) && forall|j: int| 0 <= j < i ==> keys[j] != Some(h),
    }
}

/// For each record, whether it is kept.
pub open spec fn deliveries(keys: Seq<Option<Seq<char>>>, seen: Set<Seq<char>>) -> Seq<bool> {
    Seq::new(keys.len(), |i: int| first_delivery(keys, seen, i))
}

/// The identities seen once the first `n` records have passed: those seen
/// before, and those of the records.
pub open spec fn seen_after(keys: Seq<Option<Seq<char>>>, seen: Set<Seq<char>>, n: int) -> Set<
    Seq<char>,
> {
    Set::new(|h: Seq<char>| seen.contains(h) || exists|j: int| 0 <= j < n && keys[j] == Some(h))
}

/// The positions of the records that are kept, in order.
pub open spec fn surviving(entries: Seq<Arc<UsageEntry>>, seen: Set<Seq<char>>) -> Seq<int> {
    picked(deliveries(identities(entries), seen))
}

/// `kept` holds the records of `entries` that are kept, in order.
pub open spec fn survivors_of(
    kept: Seq<Arc<UsageEntry>>,
    entries: Seq<Arc<UsageEntry>>,
    seen: Set<Seq<char>>,
) -> bool {
    &&& kept.len() == surviving(entries, seen).len()
    &&& forall|k: int| 0 <= k < kept.len() ==> kept[k] == entries[surviving(entries, seen)[k]]
}

/// The text of a record's identity: the message identifier, a colon, the
/// request identifier.
pub fn create_entry_hash(message_id: &MessageId, request_id: &RequestId) -> (r: String)
    ensures
        r@ == crate::ids::entry_hash(message_id@, request_id@),
{
    UniqueHash::from_ids(message_id, request_id).into_inner()
}

/// Whether a record was seen before. A record with an identity that is new
/// is recorded as seen.
pub fn is_duplicate(entry: &UsageEntry, processed_hashes: &mut StringHashSet) -> (r: bool)
    ensures
        r == match entry.data.identity() {
            Some(h) => old(processed_hashes)@.contains(h),
            None => false,
        },
        final(processed_hashes)@ == match entry.data.identity() {
            Some(h) => old(processed_hashes)@.insert(h),
            None => old(processed_hashes)@,
        },
{
    match UniqueHash::from_usage_entry_data(&entry.data) {
        Some(hash) => {
            if processed_hashes.contains(hash.as_str()) {
                proof {
                    assert(processed_hashes@.insert(hash@) =~= processed_hashes@);
                }
                true
            } else {
                processed_hashes.insert(hash.into_inner());
                false
            }
        },
        None => false,
    }
}

/// What is seen after one more record: what was seen before it, and its
/// identity where it has one. The record is kept exactly when it has no
/// identity or its identity is not among what was seen before it.
pub proof fn lemma_seen_after_step(keys: Seq<Option<Seq<char>>>, seen: Set<Seq<char>>, i: int)
    requires
        0 <= i < keys.len(),
    ensures
        seen_after(keys, seen, i + 1) == match keys[i] {
            Some(h) => seen_after(keys, seen, i).insert(h),
            None => seen_after(keys, seen, i),
        },
        first_delivery(keys, seen, i) == match keys[i] {
            Some(h) => !seen_after(keys, seen, i).contains(h),
            None => true,
        },
{
    let before = seen_after(keys, seen, i);
    let after = match keys[i] {
        Some(h) => before.insert(h),
        None => before,
    };
    assert forall|g: Seq<char>| after.contains(g) == seen_after(keys, seen, i + 1).contains(
        g,
    ) by {
        if seen_after(keys, seen, i + 1).contains(g) && !seen.contains(g) {
            let j = choose|j: int| 0 <= j < i + 1 && keys[j] == Some(g);
            if j < i {
                assert(before.contains(g));
            }
        }
        if before.contains(g) && !seen.contains(g) {
            let j = choose|j: int| 0 <= j < i && keys[j] == Some(g);
            assert(0 <= j < i + 1 && keys[j] == Some(g));
        }
        if keys[i] == Some(g) {
            assert(0 <= i < i + 1 && keys[i] == Some(g));
        }
    }
    assert(after =~= seen_after(keys, seen, i + 1));
    match keys[i] {
        Some(h) => {
            if before.contains(h) && !seen.contains(h) {
                let j = choose|j: int| 0 <= j < i && keys[j] == Some(h);
                assert(keys[j] == Some(h));
            }
        },
        None => {},
    }
}

/// The positions of the records that are kept, in order. The identities of
/// all the records are recorded as seen.
pub fn surviving_positions(entries: &[Arc<UsageEntry>], hashes: &mut StringHashSet) -> (r: Vec<
    usize,
>)
    ensures
        r@.len() == surviving(entries@, old(hashes)@).len(),
        forall|k: int| 0 <= k < r@.len() ==> r@[k] == surviving(entries@, old(hashes)@)[k],
        final(hashes)@ == seen_after(identities(entries@), old(hashes)@, entries@.len() as int),
{
    let ghost keys = identities(entries@);
    let ghost seen = hashes@;
    let ghost flags = deliveries(keys, seen);
    let mut out: Vec<usize> = Vec::new();
    let mut i: usize = 0;
    proof {
        assert(hashes@ =~= seen_after(keys, seen, 0));
        assert(flags.take(0) =~= Seq::<bool>::empty());
    }
    while i < entries.len()
        invariant
            i <= entries.len(),
            keys == identities(entries@),
            flags == deliveries(keys, seen),
            hashes@ == seen_after(keys, seen, i as int),
            out@.len() == picked(flags.take(i as int)).len(),
            forall|k: int| 0 <= k < out@.len() ==> out@[k] == picked(flags.take(i as int))[k],
        decreases entries.len() - i,
    {
        let ghost before = hashes@;
        let duplicate = is_duplicate(&entries[i], hashes);
        proof {
            assert(keys[i as int] == entries@[i as int].data.identity());
            assert(flags.take(i + 1).drop_last() =~= flags.take(i as int));
            assert(flags.take(i + 1).last() == flags[i as int]);
            lemma_seen_after_step(keys, seen, i as int);
            assert(hashes@ == seen_after(keys, seen, i + 1));
            assert(flags[i as int] == !duplicate);
        }
        if !duplicate {
            out.push(i);
        }
        i += 1;
    }
    proof {
        assert(flags.take(i as int) =~= flags);
    }
    out
}

/// The records that are kept, in order. The identities of all the records
/// are recorded as seen.
pub fn deduplicate(entries: &[Arc<UsageEntry>], hashes: &mut StringHashSet) -> (r: Vec<
    Arc<UsageEntry>,
>)
    ensures
        survivors_of(r@, entries@, old(hashes)@),
        final(hashes)@ == seen_after(identities(entries@), old(hashes)@, entries@.len() as int),
{
    let ghost seen = hashes@;
    let positions = surviving_positions(entries, hashes);
    proof {
        lemma_picked_in_range(deliveries(identities(entries@), seen));
    }
    let mut out: Vec<Arc<UsageEntry>> = Vec::new();
    let mut k: usize = 0;
    while k < positions.len()
        invariant
            k <= positions.len(),
            positions@.len() == surviving(entries@, seen).len(),
            forall|m: int|
                0 <= m < positions@.len() ==> 0 <= #[trigger] positions@[m] < entries@.len(),
            forall|m: int|
                0 <= m < positions@.len() ==> positions@[m] == surviving(entries@, seen)[m],
            out@.len() == k,
            forall|m: int| 0 <= m < k ==> out@[m] == entries@[positions@[m] as int],
        decreases positions.len() - k,
    {
        out.push(share(&entries[positions[k]]));
        k += 1;
    }
    out
}

/// Every picked position is a position of the flags, and is flagged; the
/// picked positions increase; and every flagged position is picked.
pub proof fn lemma_picked_in_range(flags: Seq<bool>)
    ensures
        picked(flags).len() <= flags.len(),
        forall|k: int|
            0 <= k < picked(flags).len() ==> 0 <= #[trigger] picked(flags)[k] < flags.len()
                && flags[picked(flags)[k]],
        forall|a: int, b: int|
            0 <= a < b < picked(flags).len() ==> picked(flags)[a] < picked(flags)[b],
        forall|i: int|
            0 <= i < flags.len() && flags[i] ==> exists|k: int|
                0 <= k < picked(flags).len() && picked(flags)[k] == i,
    decreases flags.len(),
{
    if flags.len() > 0 {
        let rest = flags.drop_last();
        lemma_picked_in_range(rest);
        assert forall|i: int| 0 <= i < flags.len() && flags[i] implies exists|k: int|
            0 <= k < picked(flags).len() && picked(flags)[k] == i by {
            if i < rest.len() {
                assert(rest[i]);
                let k = choose|k: int| 0 <= k < picked(rest).len() && picked(rest)[k] == i;
                assert(picked(flags)[k] == i);
            } else {
                assert(picked(flags)[picked(rest).len() as int] == i);
            }
        }
    }
}

/// Among the positions that hold a given identity there is a first.
pub proof fn lemma_first_occurrence(keys: Seq<Option<Seq<char>>>, h: Seq<char>, n: int)
    requires
        0 <= n <= keys.len(),
        exists|i: int| 0 <= i < n && keys[i] == Some(h),
    ensures
        exists|first: int|
            0 <= first < n && keys[first] == Some(h) && forall|j: int|
                0 <= j < first ==> keys[j] != Some(h),
    decreases n,
{
    if exists|i: int| 0 <= i < n - 1 && keys[i] == Some(h) {
        lemma_first_occurrence(keys, h, n - 1);
    } else {
        let i = choose|i: int| 0 <= i < n && keys[i] == Some(h);
        assert(i == n - 1);
        assert(forall|j: int| 0 <= j < n - 1 ==> keys[j] != Some(h));
    }
}

/// Of all the records that share one identity exactly one is kept, whatever
/// the order in which the records come; where the identity was seen before,
/// none of them is kept.
pub proof fn lemma_one_survivor_per_identity(
    entries: Seq<Arc<UsageEntry>>,
    seen: Set<Seq<char>>,
    h: Seq<char>,
)
    requires
        exists|i: int| 0 <= i < entries.len() && entries[i].data.identity() == Some(h),
    ensures
        seen.contains(h) ==> forall|k: int|
            0 <= k < surviving(entries, seen).len() ==> entries[surviving(
                entries,
                seen,
            )[k]].data.identity() != Some(h),
        !seen.contains(h) ==> exists|k: int|
            {
                &&& 0 <= k < surviving(entries, seen).len()
                &&& entries[surviving(entries, seen)[k]].data.identity() == Some(h)
                &&& forall|m: int|
                    0 <= m < surviving(entries, seen).len() && entries[surviving(
                        entries,
                        seen,
                    )[m]].data.identity() == Some(h) ==> m == k
            },
{
    let keys = identities(entries);
    let flags = deliveries(keys, seen);
    let kept = surviving(entries, seen);
    lemma_picked_in_range(flags);
    let some = choose|i: int| 0 <= i < entries.len() && entries[i].data.identity() == Some(h);
    assert(keys[some] == Some(h));
    lemma_first_occurrence(keys, h, keys.len() as int);
    let first = choose|first: int|
        0 <= first < keys.len() && keys[first] == Some(h) && forall|j: int|
            0 <= j < first ==> keys[j] != Some(h);
    assert forall|m: int|
        0 <= m < kept.len() && entries[kept[m]].data.identity() == Some(h) implies kept[m]
        == first && !seen.contains(h) by {
        let p = kept[m];
        assert(flags[p]);
        assert(keys[p] == Some(h));
        assert(first_delivery(keys, seen, p));
        if p > first {
            assert(keys[first] != Some(h));
        }
    }
    if !seen.contains(h) {
        assert(first_delivery(keys, seen, first));
        assert(flags[first]);
        let k = choose|k: int| 0 <= k < kept.len() && kept[k] == first;
        assert(entries[kept[k]].data.identity() == Some(h));
        assert forall|m: int|
            0 <= m < kept.len() && entries[kept[m]].data.identity() == Some(h) implies m
            == k by {
            assert(kept[m] == first);
            if m < k {
                assert(kept[m] < kept[k]);
            }
            if k < m {
                assert(kept[k] < kept[m]);
            }
        }
    }
}

/// A record without an identity is always kept.
pub proof fn lemma_unidentified_survives(
    entries: Seq<Arc<UsageEntry>>,
    seen: Set<Seq<char>>,
    i: int,
)
    requires
        0 <= i < entries.len(),
        entries[i].data.identity() is None,
    ensures
        exists|k: int| 0 <= k < surviving(entries, seen).len() && surviving(entries, seen)[k] == i,
{
    let flags = deliveries(identities(entries), seen);
    lemma_picked_in_range(flags);
    assert(flags[i]);
    let k = choose|k: int| 0 <= k < picked(flags).len() && picked(flags)[k] == i;
    assert(surviving(entries, seen)[k] == i);
}

/// The records that are kept stand in the order in which they came.
pub proof fn lemma_survivors_in_order(entries: Seq<Arc<UsageEntry>>, seen: Set<Seq<char>>)
    ensures
        surviving(entries, seen).len() <= entries.len(),
        forall|k: int|
            0 <= k < surviving(entries, seen).len() ==> 0 <= #[trigger] surviving(
                entries,
                seen,
            )[k] < entries.len(),
        forall|a: int, b: int|
            0 <= a < b < surviving(entries, seen).len() ==> surviving(entries, seen)[a]
                < surviving(entries, seen)[b],
{
    lemma_picked_in_range(deliveries(identities(entries), seen));
}

/// The records of several batches, one batch after the other.
pub open spec fn flattened(results: Seq<Vec<Arc<UsageEntry>>>) -> Seq<Arc<UsageEntry>>
    decreases results.len(),
{
    if results.len() == 0 {
        Seq::empty()
    } else {
        flattened(results.drop_last()) + results.last()@
    }
}

/// The records of several batches, one batch after the other.
pub fn flatten(results: &Vec<Vec<Arc<UsageEntry>>>) -> (r: Vec<Arc<UsageEntry>>)
    ensures
        r@ == flattened(results@),
{
    let mut out: Vec<Arc<UsageEntry>> = Vec::new();
    let mut i: usize = 0;
    proof {
        assert(results@.take(0) =~= Seq::<Vec<Arc<UsageEntry>>>::empty());
    }
    while i < results.len()
        invariant
            i <= results.len(),
            out@ == flattened(results@.take(i as int)),
        decreases results.len() - i,
    {
        let batch = &results[i];
        let ghost start = out@;
        let mut j: usize = 0;
        while j < batch.len()
            invariant
                j <= batch.len(),
                out@ == start + batch@.subrange(0, j as int),
            decreases batch.len() - j,
        {
            out.push(share(&batch[j]));
            proof {
                assert(batch@.subrange(0, j as int).push(batch@[j as int]) =~= batch@.subrange(
                    0,
                    j + 1,
                ));
            }
            j += 1;
        }
        proof {
            assert(batch@.subrange(0, j as int) =~= batch@);
            assert(results@.take(i + 1).drop_last() =~= results@.take(i as int));
            assert(results@.take(i + 1).last() == results@[i as int]);
        }
        i += 1;
    }
    proof {
        assert(results@.take(i as int) =~= results@);
    }
    out
}

/// The records of the batches that are kept, in order: all batches share the
/// one set of identities seen, which is updated.
pub fn deduplicate_entries(results: &Vec<Vec<Arc<UsageEntry>>>, hashes: &mut StringHashSet) -> (r:
    Vec<Arc<UsageEntry>>)
    ensures
        survivors_of(r@, flattened(results@), old(hashes)@),
        final(hashes)@ == seen_after(
            identities(flattened(results@)),
            old(hashes)@,
            flattened(results@).len() as int,
        ),
{
    let all = flatten(results);
    deduplicate(all.as_slice(), hashes)
}

} // verus!
