//! The session block builder: a state machine over records in order of time.

use crate::constants::SESSION_BLOCK_DURATION;
use crate::session::{
    blocks_of, builder_after, builder_step, closed_run, entries_of, times_of,
    ParsedEntry, SessionBlock,
};
use crate::shared::share;
use crate::snapshot::{preprocess, preprocessed, with_times};
use crate::time::{floor_to_hour, now_nanos, representable};
use crate::usage::UsageEntry;
use std::sync::Arc;
use vstd::prelude::*;

verus! {

/// The blocks match, one by one, what the builder emits for the instants of
/// the given records, evaluated at `now`.
pub open spec fn built_from(blocks: Seq<SessionBlock>, parsed: Seq<ParsedEntry>, now: int) -> bool {
    let expected = blocks_of(times_of(parsed));
    &&& blocks.len() == expected.len()
    &&& forall|j: int|
        0 <= j < blocks.len() ==> (#[trigger] blocks[j]).matches(
            expected[j],
            entries_of(parsed),
            now,
        )
}

/// Group records, given in order of time with their instants, into session
/// blocks, and classify each session as active or completed at `now`.
pub fn build_session_blocks(parsed: &Vec<ParsedEntry>, now: i128) -> (blocks: Vec<SessionBlock>)
    requires
        forall|i: int| 0 <= i < parsed@.len() ==> representable(#[trigger] parsed@[i].0),
    ensures
        built_from(blocks@, parsed@, now as int),
{
    let mut blocks: Vec<SessionBlock> = Vec::new();
    if parsed.len() == 0 {
        return blocks;
    }
    let ghost times = times_of(parsed@);
    let ghost all = entries_of(parsed@);
    let mut last: i128 = parsed[0].0.nanos_total();
    let mut current_start: i128 = floor_to_hour(parsed[0].0);
    let mut current_entries: Vec<Arc<UsageEntry>> = Vec::new();
    current_entries.push(share(&parsed[0].1));
    let ghost mut first: int = 0;
    let mut i: usize = 1;
    proof {
        assert(current_entries@ =~= all.subrange(0, 1));
    }
    while i < parsed.len()
        invariant
            1 <= i <= parsed.len(),
            times == times_of(parsed@),
            all == entries_of(parsed@),
            forall|k: int| 0 <= k < parsed@.len() ==> representable(#[trigger] parsed@[k].0),
            builder_after(times, i as int).start == current_start,
            builder_after(times, i as int).last == last,
            builder_after(times, i as int).first == first,
            0 <= first < i,
            -8_640_000_000_000_000_000_000 <= last <= 8_640_000_000_005_000_000_000,
            -8_640_000_003_600_000_000_000 <= current_start <= 8_640_000_000_000_000_000_000,
            blocks@.len() == builder_after(times, i as int).emitted.len(),
            forall|j: int|
                0 <= j < blocks@.len() ==> (#[trigger] blocks@[j]).matches(
                    builder_after(times, i as int).emitted[j],
                    all,
                    now as int,
                ),
            current_entries@ == all.subrange(first, i as int),
        decreases parsed.len() - i,
    {
        let ghost st = builder_after(times, i as int);
        let at = parsed[i].0;
        let t: i128 = at.nanos_total();
        proof {
            assert(representable(parsed@[i as int].0));
            assert(times[i as int] == at);
            assert(builder_after(times, i + 1) == builder_step(st, i as int, at));
        }
        let since_start: i128 = t - current_start;
        let since_last: i128 = t - last;
        if since_start > SESSION_BLOCK_DURATION || since_last > SESSION_BLOCK_DURATION {
            let closed = SessionBlock::new(current_start, current_entries, last, now);
            proof {
                assert(closed.matches(closed_run(st, i as int), all, now as int));
            }
            blocks.push(closed);
            if since_last > SESSION_BLOCK_DURATION {
                blocks.push(SessionBlock::idle(last + SESSION_BLOCK_DURATION, t));
            }
            current_start = floor_to_hour(at);
            current_entries = Vec::new();
            current_entries.push(share(&parsed[i].1));
            proof {
                first = i as int;
                assert(current_entries@ =~= all.subrange(first, i + 1));
            }
        } else {
            current_entries.push(share(&parsed[i].1));
            proof {
                assert(current_entries@ =~= all.subrange(first, i + 1));
            }
        }
        last = t;
        i += 1;
    }
    let ghost st = builder_after(times, i as int);
    let closed = SessionBlock::new(current_start, current_entries, last, now);
    proof {
        assert(closed.matches(closed_run(st, i as int), all, now as int));
    }
    blocks.push(closed);
    blocks
}

/// The session blocks of records given in order of time, evaluated at `now`.
/// Records whose timestamp denotes no instant are passed over, and so are
/// the later deliveries of a record that came before.
pub fn identify_session_blocks_at(sorted_entries: &[Arc<UsageEntry>], now: i128) -> (blocks: Vec<
    SessionBlock,
>)
    ensures
        built_from(blocks@, with_times(preprocessed(sorted_entries@)), now as int),
{
    let parsed = preprocess(sorted_entries);
    build_session_blocks(&parsed, now)
}

/// The session blocks of records given in order of time, evaluated at the
/// time of the call.
pub fn identify_session_blocks(sorted_entries: &[Arc<UsageEntry>]) -> (blocks: Vec<SessionBlock>)
    ensures
        exists|now: i128| #[trigger]
            built_from(blocks@, with_times(preprocessed(sorted_entries@)), now as int),
{
    let now = now_nanos();
    identify_session_blocks_at(sorted_entries, now)
}

/// The first active block among the given blocks.
pub fn find_active_block(blocks: &[SessionBlock]) -> (r: Option<&SessionBlock>)
    ensures
        match r {
            Some(block) => exists|idx: int|
                {
                    &&& 0 <= idx < blocks@.len()
                    &&& #[trigger] blocks@[idx] == *block
                    &&& block is Active
                    &&& forall|j: int| 0 <= j < idx ==> !(blocks@[j] is Active)
                },
            None => forall|j: int| 0 <= j < blocks@.len() ==> !(blocks@[j] is Active),
        },
{
    let mut i: usize = 0;
    while i < blocks.len()
        invariant
            i <= blocks@.len(),
            forall|j: int| 0 <= j < i ==> !(blocks@[j] is Active),
        decreases blocks.len() - i,
    {
        if blocks[i].is_active() {
            return Some(&blocks[i]);
        }
        i += 1;
    }
    None
}

/// Where no record lies after the time of evaluation, at most one of the
/// blocks built is active, and it is the last.
pub proof fn lemma_at_most_one_active(blocks: Seq<SessionBlock>, parsed: Seq<ParsedEntry>, now: int)
    requires
        built_from(blocks, parsed, now),
        forall|i: int| 0 <= i < parsed.len() ==> parsed[i].0.total() <= now,
    ensures
        forall|j: int| 0 <= j < blocks.len() - 1 ==> !(#[trigger] blocks[j] is Active),
        forall|a: int, b: int|
            0 <= a < blocks.len() && 0 <= b < blocks.len() && blocks[a] is Active
                && blocks[b] is Active ==> a == b,
{
    let times = times_of(parsed);
    assert forall|j: int| 0 <= j < blocks.len() - 1 implies !(#[trigger] blocks[j] is Active) by {
        crate::session_laws::lemma_only_last_session_active(times, now, j);
        assert(blocks[j].matches(blocks_of(times)[j], entries_of(parsed), now));
    }
}

} // verus!
