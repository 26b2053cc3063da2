//! The snapshot: all records of one load, deduplicated and in order of their
//! timestamps, with the views that are derived from it.

use crate::cost::{total_cost, Cost};
use crate::dedup::{lemma_picked_in_range, picked, surviving, surviving_positions};
use crate::ids::SessionId;
use crate::ordering::{key_lt, sorted_by_timestamp};
use crate::pricing::{calculate_entry_cost, entry_cost};
use crate::session::{ParsedEntry, SessionBlock};
use crate::session_blocks::{build_session_blocks, built_from};
use crate::shared::share;
use crate::text::{lemma_lex_le_lt, lex_le, lex_lt, str_lt, utf8};
use crate::time::{
    entry_time, format_timestamp, now_nanos, parse_entry_timestamp,
    representable, text_of, Instant,
};
use crate::usage::UsageEntry;
use std::sync::Arc;
use vstd::hash_set::StringHashSet;
use vstd::prelude::*;
use vstd::slice::slice_subrange;

verus! {

/// All records of one load.
#[derive(Debug)]
pub struct MergedUsageSnapshot {
    pub all_entries: Vec<Arc<UsageEntry>>,
}

/// The bytes by which a record is found: those of its timestamp, or none
/// where it has no timestamp.
pub open spec fn sort_key(entry: UsageEntry) -> Seq<u8> {
    match entry.data.timestamp {
        Some(t) => utf8(t@),
        None => Seq::empty(),
    }
}

/// The record's timestamp comes before the text `start`, as strings compare.
pub open spec fn before(entry: UsageEntry, start: Seq<char>) -> bool {
    lex_lt(sort_key(entry), utf8(start))
}

/// Exactly the records at positions below `idx` come before `start`.
pub open spec fn partitioned_at(entries: Seq<Arc<UsageEntry>>, start: Seq<char>, idx: int) -> bool {
    &&& 0 <= idx <= entries.len()
    &&& forall|k: int| 0 <= k < entries.len() ==> (before(*#[trigger] entries[k], start) <==> k < idx)
}

/// `part` is the tail of `all` from a position that separates a record
/// before `start` from one that is not; where `all` is in order, `part`
/// holds exactly the records that do not come before `start`.
pub open spec fn suffix_since(
    all: Seq<Arc<UsageEntry>>,
    start: Seq<char>,
    part: Seq<Arc<UsageEntry>>,
) -> bool {
    let idx = all.len() - part.len();
    &&& part.len() <= all.len()
    &&& part == all.subrange(idx, all.len() as int)
    &&& idx > 0 ==> before(*all[idx - 1], start)
    &&& idx < all.len() ==> !before(*all[idx], start)
    &&& sorted_by_timestamp(all) ==> partitioned_at(all, start, idx)
}

/// The cost of the records of one session: the sum of the costs of the
/// records that belong to it.
pub open spec fn session_total(entries: Seq<Arc<UsageEntry>>, session: Seq<char>) -> int
    decreases entries.len(),
{
    if entries.len() == 0 {
        0
    } else {
        session_total(entries.drop_last(), session) + if entries.last().session_id@ == session {
            entry_cost(*entries.last())
        } else {
            0
        }
    }
}

/// For each record, whether its timestamp denotes an instant.
pub open spec fn timed_flags(entries: Seq<Arc<UsageEntry>>) -> Seq<bool> {
    Seq::new(entries.len(), |i: int| entry_time(*entries[i]) is Some)
}

/// The records whose timestamp denotes an instant, in order.
pub open spec fn timed(entries: Seq<Arc<UsageEntry>>) -> Seq<Arc<UsageEntry>> {
    let positions = picked(timed_flags(entries));
    Seq::new(positions.len(), |k: int| entries[positions[k]])
}

/// The records that the block builder works on: those whose timestamp
/// denotes an instant, without the later deliveries of a record that came
/// before.
pub open spec fn preprocessed(entries: Seq<Arc<UsageEntry>>) -> Seq<Arc<UsageEntry>> {
    let candidates = timed(entries);
    let positions = surviving(candidates, Set::empty());
    Seq::new(positions.len(), |m: int| candidates[positions[m]])
}

/// Records with their instants.
pub open spec fn with_times(entries: Seq<Arc<UsageEntry>>) -> Seq<ParsedEntry> {
    Seq::new(entries.len(), |m: int| (entry_time(*entries[m])->0, entries[m]))
}

/// The first active block, where there is one.
pub open spec fn first_active(blocks: Seq<SessionBlock>, found: Option<SessionBlock>) -> bool {
    match found {
        Some(block) => exists|idx: int|
            {
                &&& 0 <= idx < blocks.len()
                &&& blocks[idx] == block
                &&& block is Active
                &&& forall|j: int| 0 <= j < idx ==> !(blocks[j] is Active)
            },
        None => forall|j: int| 0 <= j < blocks.len() ==> !(blocks[j] is Active),
    }
}

/// A record that does not come before another has a key that is not greater.
pub proof fn lemma_sort_key_monotone(a: UsageEntry, b: UsageEntry)
    requires
        !key_lt(b, a),
    ensures
        lex_le(sort_key(a), sort_key(b)),
{
}

/// In records that are in order, a position that separates a record before
/// `start` from one that is not separates all of them.
pub proof fn lemma_partition_point(entries: Seq<Arc<UsageEntry>>, start: Seq<char>, idx: int)
    requires
        sorted_by_timestamp(entries),
        0 <= idx <= entries.len(),
        idx > 0 ==> before(*entries[idx - 1], start),
        idx < entries.len() ==> !before(*entries[idx], start),
    ensures
        partitioned_at(entries, start, idx),
{
    assert forall|k: int| 0 <= k < entries.len() implies (before(*#[trigger] entries[k], start)
        <==> k < idx) by {
        if k < idx {
            if k < idx - 1 {
                lemma_sort_key_monotone(*entries[k], *entries[idx - 1]);
                lemma_lex_le_lt(sort_key(*entries[k]), sort_key(*entries[idx - 1]), utf8(start));
            }
        } else {
            if k > idx {
                lemma_sort_key_monotone(*entries[idx], *entries[k]);
                if before(*entries[k], start) {
                    lemma_lex_le_lt(sort_key(*entries[idx]), sort_key(*entries[k]), utf8(start));
                }
            }
        }
    }
}

/// Whether a record's timestamp comes before the text `start`.
pub fn entry_before(entry: &UsageEntry, start: &str) -> (r: bool)
    ensures
        r == before(*entry, start@),
{
    match &entry.data.timestamp {
        Some(t) => str_lt(t.as_str(), start),
        None => start.as_bytes().len() > 0,
    }
}

/// The records that the block builder works on, each with its instant:
/// those whose timestamp denotes an instant, without the later deliveries of
/// a record that came before.
pub fn preprocess(entries: &[Arc<UsageEntry>]) -> (r: Vec<ParsedEntry>)
    ensures
        r@ == with_times(preprocessed(entries@)),
        forall|m: int| 0 <= m < r@.len() ==> representable(#[trigger] r@[m].0),
        forall|m: int| 0 <= m < r@.len() ==> entry_time(*r@[m].1) == Some(r@[m].0),
{
    let ghost flags = timed_flags(entries@);
    let mut candidates: Vec<Arc<UsageEntry>> = Vec::new();
    let mut times: Vec<Instant> = Vec::new();
    let mut i: usize = 0;
    proof {
        assert(flags.take(0) =~= Seq::<bool>::empty());
    }
    while i < entries.len()
        invariant
            i <= entries@.len(),
            flags == timed_flags(entries@),
            candidates@.len() == picked(flags.take(i as int)).len(),
            times@.len() == candidates@.len(),
            forall|k: int|
                0 <= k < candidates@.len() ==> 0 <= #[trigger] picked(flags.take(i as int))[k]
                    < i,
            forall|k: int|
                0 <= k < candidates@.len() ==> #[trigger] candidates@[k]
                    == entries@[picked(flags.take(i as int))[k]],
            forall|k: int|
                0 <= k < candidates@.len() ==> entry_time(*candidates@[k]) == Some(
                    #[trigger] times@[k],
                ),
        decreases entries.len() - i,
    {
        proof {
            assert(flags.take(i + 1).drop_last() =~= flags.take(i as int));
            assert(flags.take(i + 1).last() == flags[i as int]);
            assert(flags[i as int] == (entry_time(*entries@[i as int]) is Some));
            assert(picked(flags.take(i + 1)) == if flags[i as int] {
                picked(flags.take(i as int)).push(i as int)
            } else {
                picked(flags.take(i as int))
            });
        }
        match parse_entry_timestamp(&entries[i]) {
            Some(t) => {
                candidates.push(share(&entries[i]));
                times.push(t);
            },
            None => {},
        }
        i += 1;
    }
    proof {
        assert(flags.take(i as int) =~= flags);
        assert(candidates@ =~= timed(entries@));
    }
    let mut hashes = StringHashSet::new();
    let positions = surviving_positions(candidates.as_slice(), &mut hashes);
    proof {
        lemma_picked_in_range(
            crate::dedup::deliveries(crate::dedup::identities(candidates@), Set::empty()),
        );
    }
    let mut out: Vec<ParsedEntry> = Vec::new();
    let mut m: usize = 0;
    while m < positions.len()
        invariant
            m <= positions@.len(),
            times@.len() == candidates@.len(),
            candidates@ == timed(entries@),
            positions@.len() == surviving(candidates@, Set::empty()).len(),
            forall|k: int|
                0 <= k < positions@.len() ==> 0 <= #[trigger] positions@[k] < candidates@.len(),
            forall|k: int|
                0 <= k < positions@.len() ==> positions@[k] == surviving(
                    candidates@,
                    Set::empty(),
                )[k],
            forall|k: int|
                0 <= k < candidates@.len() ==> entry_time(*candidates@[k]) == Some(
                    #[trigger] times@[k],
                ),
            out@.len() == m,
            forall|k: int|
                0 <= k < m ==> #[trigger] out@[k] == (
                    times@[positions@[k] as int],
                    candidates@[positions@[k] as int],
                ),
        decreases positions.len() - m,
    {
        let p: usize = positions[m];
        out.push((times[p], share(&candidates[p])));
        m += 1;
    }
    proof {
        assert(out@ =~= with_times(preprocessed(entries@)));
    }
    out
}

impl MergedUsageSnapshot {
    /// The position found by bisection on "comes before `start`". It always
    /// separates a record that comes before `start` from one that does not;
    /// in a snapshot that is in order, it is the position of the first record
    /// that does not come before `start`.
    pub fn first_since(&self, start: &str) -> (idx: usize)
        ensures
            idx <= self.all_entries@.len(),
            idx > 0 ==> before(*self.all_entries@[idx - 1], start@),
            idx < self.all_entries@.len() ==> !before(*self.all_entries@[idx as int], start@),
            sorted_by_timestamp(self.all_entries@) ==> partitioned_at(
                self.all_entries@,
                start@,
                idx as int,
            ),
    {
        let mut lo: usize = 0;
        let mut hi: usize = self.all_entries.len();
        while lo < hi
            invariant
                lo <= hi <= self.all_entries@.len(),
                lo > 0 ==> before(*self.all_entries@[lo - 1], start@),
                hi < self.all_entries@.len() ==> !before(*self.all_entries@[hi as int], start@),
            decreases hi - lo,
        {
            let mid: usize = lo + (hi - lo) / 2;
            if entry_before(&self.all_entries[mid], start) {
                lo = mid + 1;
            } else {
                hi = mid;
            }
        }
        proof {
            if sorted_by_timestamp(self.all_entries@) {
                lemma_partition_point(self.all_entries@, start@, lo as int);
            }
        }
        lo
    }

    /// The records from the position that `first_since` finds: in a snapshot
    /// that is in order, the records that do not come before `start`.
    pub fn entries_since(&self, start: &str) -> (r: &[Arc<UsageEntry>])
        ensures
            suffix_since(self.all_entries@, start@, r@),
    {
        let idx = self.first_since(start);
        slice_subrange(self.all_entries.as_slice(), idx, self.all_entries.len())
    }

    /// The cost of the records since `start`.
    pub fn cost_since(&self, start: &str) -> (r: Cost)
        ensures
            exists|part: Seq<Arc<UsageEntry>>| #[trigger]
                suffix_since(self.all_entries@, start@, part) && r@ == total_cost(part),
    {
        let part = self.entries_since(start);
        proof {
            assert(suffix_since(self.all_entries@, start@, part@));
        }
        Cost::from_entries(part)
    }

    /// The text of the start of today, given the instant at which today
    /// began in the local time zone: that instant as it is written. There is
    /// none where the instant cannot be written.
    pub fn today_start(midnight: i128) -> (r: Option<String>)
        ensures
            r is Some == text_of(midnight as int) is Some,
            r is Some ==> r->0@ == text_of(midnight as int)->0,
    {
        format_timestamp(midnight)
    }

    /// Today's records, given the instant at which today began in the local
    /// time zone: the records since the text of that instant; none where the
    /// instant cannot be written.
    pub fn today_entries(&self, midnight: i128) -> (r: &[Arc<UsageEntry>])
        ensures
            match text_of(midnight as int) {
                Some(start) => suffix_since(self.all_entries@, start, r@),
                None => r@.len() == 0,
            },
    {
        match Self::today_start(midnight) {
            Some(start) => self.entries_since(start.as_str()),
            None => slice_subrange(
                self.all_entries.as_slice(),
                self.all_entries.len(),
                self.all_entries.len(),
            ),
        }
    }

    /// The cost of today's records, given the instant at which today began
    /// in the local time zone; nothing where the instant cannot be written.
    pub fn today_cost(&self, midnight: i128) -> (r: Cost)
        ensures
            match text_of(midnight as int) {
                Some(start) => exists|part: Seq<Arc<UsageEntry>>| #[trigger]
                    suffix_since(self.all_entries@, start, part) && r@ == total_cost(part),
                None => r@ == 0,
            },
    {
        match Self::today_start(midnight) {
            Some(start) => self.cost_since(start.as_str()),
            None => Cost::new(0),
        }
    }

    /// The cost of one session: that of the records whose session is the
    /// given one.
    pub fn session_cost(&self, session_id: &SessionId) -> (r: Cost)
        ensures
            r@ == session_total(self.all_entries@, session_id@),
    {
        let mut total: i128 = 0;
        let mut i: usize = 0;
        while i < self.all_entries.len()
            invariant
                i <= self.all_entries@.len(),
                total == session_total(self.all_entries@.subrange(0, i as int), session_id@),
                -(i * 0x8000_0000_0000_0000) <= total <= i * 0x8000_0000_0000_0000,
            decreases self.all_entries.len() - i,
        {
            proof {
                assert(self.all_entries@.subrange(0, i + 1).drop_last()
                    =~= self.all_entries@.subrange(0, i as int));
                assert(self.all_entries@.subrange(0, i + 1).last() == self.all_entries@[i as int]);
            }
            if self.all_entries[i].session_id.fast_eq(session_id) {
                let cost: i64 = calculate_entry_cost(&self.all_entries[i]);
                total = total + cost as i128;
            }
            i += 1;
        }
        proof {
            assert(self.all_entries@.subrange(0, i as int) =~= self.all_entries@);
        }
        Cost::new(total)
    }

    /// The records that the block builder works on, each with its instant.
    pub fn preprocess_entries(&self) -> (r: Vec<ParsedEntry>)
        ensures
            r@ == with_times(preprocessed(self.all_entries@)),
            forall|m: int| 0 <= m < r@.len() ==> representable(#[trigger] r@[m].0),
            forall|m: int| 0 <= m < r@.len() ==> entry_time(*r@[m].1) == Some(r@[m].0),
    {
        preprocess(self.all_entries.as_slice())
    }

    /// The session blocks of the snapshot, evaluated at `now`.
    pub fn session_blocks_at(&self, now: i128) -> (r: Vec<SessionBlock>)
        ensures
            built_from(r@, with_times(preprocessed(self.all_entries@)), now as int),
    {
        let parsed = self.preprocess_entries();
        build_session_blocks(&parsed, now)
    }

    /// The session blocks of the snapshot, evaluated at the time of the call.
    pub fn session_blocks(&self) -> (r: Vec<SessionBlock>)
        ensures
            exists|now: i128|
                built_from(r@, with_times(preprocessed(self.all_entries@)), now as int),
    {
        let now = now_nanos();
        self.session_blocks_at(now)
    }

    /// The block that is active at `now`: the first active one among the
    /// session blocks of the snapshot.
    pub fn active_block_at(&self, now: i128) -> (r: Option<SessionBlock>)
        ensures
            exists|blocks: Seq<SessionBlock>| #[trigger]
                built_from(blocks, with_times(preprocessed(self.all_entries@)), now as int)
                    && first_active(blocks, r),
    {
        let mut blocks = self.session_blocks_at(now);
        let ghost all = blocks@;
        proof {
            assert(built_from(all, with_times(preprocessed(self.all_entries@)), now as int));
        }
        let mut i: usize = 0;
        while i < blocks.len()
            invariant
                i <= blocks@.len(),
                blocks@ == all,
                built_from(all, with_times(preprocessed(self.all_entries@)), now as int),
                forall|j: int| 0 <= j < i ==> !(all[j] is Active),
            decreases blocks.len() - i,
        {
            if blocks[i].is_active() {
                let found = blocks.swap_remove(i);
                proof {
                    assert(found == all[i as int]);
                    assert(first_active(all, Some(found)));
                }
                return Some(found);
            }
            i += 1;
        }
        proof {
            assert(first_active(all, None));
        }
        None
    }

    /// The block that is active at the time of the call.
    pub fn active_block(&self) -> (r: Option<SessionBlock>)
        ensures
            exists|blocks: Seq<SessionBlock>, now: i128| #[trigger]
                built_from(blocks, with_times(preprocessed(self.all_entries@)), now as int)
                    && first_active(blocks, r),
    {
        let now = now_nanos();
        self.active_block_at(now)
    }
}

} // verus!
