//! What holds of the blocks that the builder emits, for every sequence of
//! instants.

use crate::constants::SESSION_BLOCK_DURATION;
use crate::session::{
    active_at, blocks_of, builder_after, builder_step, closed_run, exceeds, BlockSpec,
};
use crate::time::Instant;
use vstd::prelude::*;

verus! {

/// The instants never go back in time.
pub open spec fn in_order(times: Seq<Instant>) -> bool {
    forall|a: int, b: int| 0 <= a <= b < times.len() ==> times[a].total() <= times[b].total()
}

/// A session holds at least one record, starts at the hour of its first
/// record, and each of its records lies at most a block's length after the
/// start of the session and after the record before it.
pub open spec fn run_ok(times: Seq<Instant>, b: BlockSpec) -> bool {
    match b {
        BlockSpec::Idle { .. } => true,
        BlockSpec::Run { start, first, next, last } => {
            &&& 0 <= first < next <= times.len()
            &&& start == times[first].hour_start()
            &&& last == times[next - 1].total()
            &&& forall|m: int| first <= m < next ==> !exceeds(#[trigger] times[m].total(), start)
            &&& forall|m: int|
                first < m < next ==> !exceeds(#[trigger] times[m].total(), times[m - 1].total())
        },
    }
}

/// A session that is followed by another record was closed by that record:
/// it lies more than a block's length after the session's start or after its
/// latest record.
pub open spec fn run_closed_ok(times: Seq<Instant>, b: BlockSpec) -> bool {
    match b {
        BlockSpec::Idle { .. } => true,
        BlockSpec::Run { start, first, next, last } => {
            &&& next < times.len()
            &&& (exceeds(times[next].total(), start) || exceeds(times[next].total(), last))
        },
    }
}

/// How the block at position `j` follows on what stands before it. The first
/// block is a session that starts with the first record. A session follows a
/// session directly where no silence lies between their records, and follows
/// an idle block otherwise. An idle block follows a session, and spans from a
/// block's length after that session's latest record to the record that
/// comes next, which lies later still.
pub open spec fn link_ok(times: Seq<Instant>, blocks: Seq<BlockSpec>, j: int) -> bool {
    match blocks[j] {
        BlockSpec::Run { first, .. } => {
            if j == 0 {
                first == 0
            } else {
                match blocks[j - 1] {
                    BlockSpec::Run { next, .. } => {
                        &&& next == first
                        &&& 1 <= first < times.len()
                        &&& !exceeds(times[first].total(), times[first - 1].total())
                    },
                    BlockSpec::Idle { .. } => {
                        &&& j >= 2
                        &&& blocks[j - 2] is Run
                        &&& blocks[j - 2]->next == first
                    },
                }
            }
        },
        BlockSpec::Idle { start, end } => {
            &&& j >= 1
            &&& blocks[j - 1] is Run
            &&& 1 <= blocks[j - 1]->next < times.len()
            &&& start == times[blocks[j - 1]->next - 1].total() + SESSION_BLOCK_DURATION
            &&& end == times[blocks[j - 1]->next].total()
            &&& exceeds(end, times[blocks[j - 1]->next - 1].total())
        },
    }
}

/// The idle block for the silence before the record at position `i`.
pub open spec fn idle_before(times: Seq<Instant>, i: int) -> BlockSpec {
    BlockSpec::Idle {
        start: times[i - 1].total() + SESSION_BLOCK_DURATION,
        end: times[i].total(),
    }
}

/// What holds of the builder after `k` records.
pub open spec fn builder_inv(times: Seq<Instant>, k: int) -> bool {
    let st = builder_after(times, k);
    let all = st.emitted.push(closed_run(st, k));
    &&& run_ok(times, closed_run(st, k))
    &&& forall|j: int| 0 <= j < all.len() ==> link_ok(times, all, j)
    &&& forall|j: int| 0 <= j < st.emitted.len() ==> run_ok(times, #[trigger] st.emitted[j])
    &&& forall|j: int| 0 <= j < st.emitted.len() ==> run_closed_ok(times, #[trigger] st.emitted[j])
    &&& forall|i: int|
        1 <= i < k && exceeds(#[trigger] times[i].total(), times[i - 1].total()) ==> exists|j: int|
            0 <= j < st.emitted.len() && st.emitted[j] == idle_before(times, i)
}

/// The builder keeps its invariant.
pub proof fn lemma_builder_inv(times: Seq<Instant>, k: int)
    requires
        1 <= k <= times.len(),
    ensures
        builder_inv(times, k),
    decreases k,
{
    let st = builder_after(times, k);
    let all = st.emitted.push(closed_run(st, k));
    if k == 1 {
        assert(all.len() == 1);
        assert(link_ok(times, all, 0));
    } else {
        lemma_builder_inv(times, k - 1);
        let i = k - 1;
        let t = times[i].total();
        let prev = builder_after(times, k - 1);
        let prev_all = prev.emitted.push(closed_run(prev, k - 1));
        assert(st == builder_step(prev, i, times[i]));
        assert(run_ok(times, closed_run(prev, i)));
        if exceeds(t, prev.start) || exceeds(t, prev.last) {
            let closed = prev.emitted.push(closed_run(prev, i));
            assert(closed == prev_all);
            assert(run_closed_ok(times, closed_run(prev, i)));
            assert(run_ok(times, closed_run(st, k)));
            if exceeds(t, prev.last) {
                let idle = idle_before(times, i);
                assert(st.emitted == closed.push(idle));
                assert forall|j: int| 0 <= j < all.len() implies link_ok(times, all, j) by {
                    if j < prev_all.len() {
                        assert(link_ok(times, prev_all, j));
                        assert(all[j] == prev_all[j]);
                        if j >= 1 {
                            assert(all[j - 1] == prev_all[j - 1]);
                        }
                        if j >= 2 {
                            assert(all[j - 2] == prev_all[j - 2]);
                        }
                    } else if j == prev_all.len() {
                        assert(all[j] == idle);
                        assert(all[j - 1] == closed_run(prev, i));
                    } else {
                        assert(all[j] == closed_run(st, k));
                        assert(all[j - 1] == idle);
                        assert(all[j - 2] == closed_run(prev, i));
                    }
                }
                assert forall|j: int| 0 <= j < st.emitted.len() implies run_ok(
                    times,
                    #[trigger] st.emitted[j],
                ) by {
                    if j < prev.emitted.len() {
                        assert(st.emitted[j] == prev.emitted[j]);
                    }
                }
                assert forall|j: int| 0 <= j < st.emitted.len() implies run_closed_ok(
                    times,
                    #[trigger] st.emitted[j],
                ) by {
                    if j < prev.emitted.len() {
                        assert(st.emitted[j] == prev.emitted[j]);
                    }
                }
                assert forall|g: int|
                    1 <= g < k && exceeds(
                        #[trigger] times[g].total(),
                        times[g - 1].total(),
                    ) implies exists|j: int|
                    0 <= j < st.emitted.len() && st.emitted[j] == idle_before(times, g) by {
                    if g < i {
                        let j = choose|j: int|
                            0 <= j < prev.emitted.len() && prev.emitted[j] == idle_before(
                                times,
                                g,
                            );
                        assert(st.emitted[j] == prev.emitted[j]);
                    } else {
                        assert(st.emitted[prev_all.len() as int] == idle);
                    }
                }
            } else {
                assert(st.emitted == closed);
                assert forall|j: int| 0 <= j < all.len() implies link_ok(times, all, j) by {
                    if j < prev_all.len() {
                        assert(link_ok(times, prev_all, j));
                        assert(all[j] == prev_all[j]);
                        if j >= 1 {
                            assert(all[j - 1] == prev_all[j - 1]);
                        }
                        if j >= 2 {
                            assert(all[j - 2] == prev_all[j - 2]);
                        }
                    } else {
                        assert(all[j] == closed_run(st, k));
                        assert(all[j - 1] == closed_run(prev, i));
                    }
                }
                assert forall|j: int| 0 <= j < st.emitted.len() implies run_ok(
                    times,
                    #[trigger] st.emitted[j],
                ) by {
                    if j < prev.emitted.len() {
                        assert(st.emitted[j] == prev.emitted[j]);
                    }
                }
                assert forall|j: int| 0 <= j < st.emitted.len() implies run_closed_ok(
                    times,
                    #[trigger] st.emitted[j],
                ) by {
                    if j < prev.emitted.len() {
                        assert(st.emitted[j] == prev.emitted[j]);
                    }
                }
                assert forall|g: int|
                    1 <= g < k && exceeds(
                        #[trigger] times[g].total(),
                        times[g - 1].total(),
                    ) implies exists|j: int|
                    0 <= j < st.emitted.len() && st.emitted[j] == idle_before(times, g) by {
                    let j = choose|j: int|
                        0 <= j < prev.emitted.len() && prev.emitted[j] == idle_before(times, g);
                    assert(st.emitted[j] == prev.emitted[j]);
                }
            }
        } else {
            assert(st.emitted == prev.emitted);
            assert(run_ok(times, closed_run(st, k)));
            assert forall|j: int| 0 <= j < all.len() implies link_ok(times, all, j) by {
                assert(link_ok(times, prev_all, j));
                if j < prev.emitted.len() {
                    assert(all[j] == prev_all[j]);
                }
                if j >= 1 {
                    assert(all[j - 1] == prev_all[j - 1]);
                }
                if j >= 2 {
                    assert(all[j - 2] == prev_all[j - 2]);
                }
            }
            assert forall|g: int|
                1 <= g < k && exceeds(
                    #[trigger] times[g].total(),
                    times[g - 1].total(),
                ) implies exists|j: int|
                0 <= j < st.emitted.len() && st.emitted[j] == idle_before(times, g) by {
                let j = choose|j: int|
                    0 <= j < prev.emitted.len() && prev.emitted[j] == idle_before(times, g);
            }
        }
    }
}

/// The idle block at position `j` spans a silence: it stands between two
/// sessions, the records on its two sides are consecutive and lie more than a
/// block's length apart, and it runs from a block's length after the earlier
/// of them to the later.
pub open spec fn idle_spans_gap(times: Seq<Instant>, blocks: Seq<BlockSpec>, j: int) -> bool {
    &&& 0 < j < blocks.len() - 1
    &&& blocks[j - 1] is Run
    &&& blocks[j + 1] is Run
    &&& blocks[j + 1]->first == blocks[j - 1]->next
    &&& 1 <= blocks[j - 1]->next < times.len()
    &&& exceeds(times[blocks[j - 1]->next].total(), times[blocks[j - 1]->next - 1].total())
    &&& blocks[j] == idle_before(times, blocks[j - 1]->next)
}

/// What is emitted for a sequence of instants ends with a session, and every
/// block follows on the one before as `link_ok` says.
pub proof fn lemma_blocks_linked(times: Seq<Instant>)
    requires
        times.len() > 0,
    ensures
        blocks_of(times).len() > 0,
        blocks_of(times).last() is Run,
        blocks_of(times).last()->next == times.len(),
        forall|j: int| 0 <= j < blocks_of(times).len() ==> link_ok(times, blocks_of(times), j),
        forall|j: int|
            0 <= j < blocks_of(times).len() - 1 ==> run_closed_ok(
                times,
                #[trigger] blocks_of(times)[j],
            ),
{
    lemma_builder_inv(times, times.len() as int);
    let st = builder_after(times, times.len() as int);
    assert forall|j: int| 0 <= j < blocks_of(times).len() - 1 implies run_closed_ok(
        times,
        #[trigger] blocks_of(times)[j],
    ) by {
        assert(blocks_of(times)[j] == st.emitted[j]);
    }
}

/// Every record of a session lies at most a block's length after the start
/// of the session, which is the hour of the session's first record, and at
/// most a block's length after the record before it in the session. Where
/// the instants are in order, no record lies before the start of its session
/// or before the record before it.
pub proof fn lemma_records_within_window(times: Seq<Instant>, j: int)
    requires
        0 <= j < blocks_of(times).len(),
    ensures
        run_ok(times, blocks_of(times)[j]),
        in_order(times) ==> match blocks_of(times)[j] {
            BlockSpec::Idle { .. } => true,
            BlockSpec::Run { start, first, next, .. } => {
                &&& forall|m: int| first <= m < next ==> start <= (#[trigger] times[m]).total()
                &&& forall|m: int|
                    first < m < next ==> times[m - 1].total() <= (#[trigger] times[m]).total()
            },
        },
{
    lemma_builder_inv(times, times.len() as int);
    let st = builder_after(times, times.len() as int);
    if j < st.emitted.len() {
        assert(blocks_of(times)[j] == st.emitted[j]);
    }
    if in_order(times) {
        match blocks_of(times)[j] {
            BlockSpec::Idle { .. } => {},
            BlockSpec::Run { start, first, next, .. } => {
                assert(start <= times[first].total());
            },
        }
    }
}

/// Every idle block spans a silence of more than a block's length between
/// two consecutive records, from a block's length after the earlier record
/// to the later one. So an idle block has a positive width, and no two idle
/// blocks follow each other.
pub proof fn lemma_idle_block_spans_gap(times: Seq<Instant>, j: int)
    requires
        0 <= j < blocks_of(times).len(),
        blocks_of(times)[j] is Idle,
    ensures
        idle_spans_gap(times, blocks_of(times), j),
        blocks_of(times)[j]->Idle_start < blocks_of(times)[j]->end,
{
    lemma_blocks_linked(times);
    let blocks = blocks_of(times);
    assert(link_ok(times, blocks, j));
    assert(j < blocks.len() - 1);
    assert(link_ok(times, blocks, j + 1));
}

/// Every silence of more than a block's length between two consecutive
/// records has its idle block.
pub proof fn lemma_gap_has_idle_block(times: Seq<Instant>, i: int)
    requires
        1 <= i < times.len(),
        exceeds(times[i].total(), times[i - 1].total()),
    ensures
        exists|j: int|
            0 <= j < blocks_of(times).len() && blocks_of(times)[j] == idle_before(times, i),
{
    lemma_builder_inv(times, times.len() as int);
    let st = builder_after(times, times.len() as int);
    let j = choose|j: int| 0 <= j < st.emitted.len() && st.emitted[j] == idle_before(times, i);
    assert(blocks_of(times)[j] == st.emitted[j]);
}

/// Where no record lies after the time of evaluation, no session but the
/// last can be active.
pub proof fn lemma_only_last_session_active(times: Seq<Instant>, now: int, j: int)
    requires
        forall|i: int| 0 <= i < times.len() ==> times[i].total() <= now,
        0 <= j < blocks_of(times).len() - 1,
    ensures
        match blocks_of(times)[j] {
            BlockSpec::Idle { .. } => true,
            BlockSpec::Run { start, last, .. } => !active_at(start, last, now),
        },
{
    lemma_blocks_linked(times);
    lemma_records_within_window(times, j);
    assert(run_closed_ok(times, blocks_of(times)[j]));
    match blocks_of(times)[j] {
        BlockSpec::Idle { .. } => {},
        BlockSpec::Run { next, .. } => {
            assert(times[next].total() <= now);
        },
    }
}

} // verus!
