//! Session blocks: the grouping of usage records, in order of time, into
//! five-hour billing windows, with an explicit idle block for every silence
//! longer than a window.

use crate::constants::SESSION_BLOCK_DURATION;
use crate::cost::{block_cost, Cost};
use crate::constants::MINUTE;
use crate::time::{entry_time, parse_entry_timestamp, Instant};
use crate::usage::UsageEntry;
use std::sync::Arc;
use vstd::prelude::*;

verus! {

/// A stretch of the timeline.
#[derive(Debug, Clone)]
pub enum SessionBlock {
    /// A silence between two sessions. It holds no records.
    Idle { start_time: i128, end_time: i128 },
    /// The session that is still open at the time of evaluation.
    Active { start_time: i128, entries: Vec<Arc<UsageEntry>> },
    /// A session of the past.
    Completed { start_time: i128, entries: Vec<Arc<UsageEntry>> },
}

/// A record with the instant of its timestamp.
pub type ParsedEntry = (Instant, Arc<UsageEntry>);

/// One instant lies more than a block's length after another.
pub open spec fn exceeds(later: int, earlier: int) -> bool {
    later - earlier > SESSION_BLOCK_DURATION as int
}

/// A block that starts at `start` and whose latest record is of `last` is
/// active at `now` when its window has not yet ended and its latest record
/// is less than a block's length old.
pub open spec fn active_at(start: int, last: int, now: int) -> bool {
    now - last < SESSION_BLOCK_DURATION as int && now < start + SESSION_BLOCK_DURATION as int
}

/// The whole minutes of a time in nanoseconds; a part of a minute is
/// dropped, of a negative time too.
pub open spec fn whole_minutes(nanos: int) -> int {
    if nanos >= 0 {
        nanos / (MINUTE as int)
    } else {
        -((-nanos) / (MINUTE as int))
    }
}

/// Whether `now` lies before the end of a block's length that starts at
/// `from`.
pub fn before_block_end(now: i128, from: i128) -> (r: bool)
    ensures
        r == (now < from + SESSION_BLOCK_DURATION),
{
    if from > i128::MAX - SESSION_BLOCK_DURATION {
        true
    } else {
        now < from + SESSION_BLOCK_DURATION
    }
}

/// The time from the first record of a block to its last is that between
/// two timestamps of the range that the library works on.
pub proof fn lemma_duration_bounds(block: SessionBlock)
    requires
        block.spec_actual_duration() is Some,
    ensures
        -17_280_000_000_005_000_000_000 <= block.spec_actual_duration()->0
            <= 17_280_000_000_005_000_000_000,
{
}

/// What the builder emits, over the positions of the records it was given.
pub enum BlockSpec {
    /// A silence from `start` to `end`.
    Idle { start: int, end: int },
    /// A session that starts at `start` and holds the records at positions
    /// `first` up to, not including, `next`; `last` is the instant of the
    /// latest of them.
    Run { start: int, first: int, next: int, last: int },
}

/// The builder between two records: the blocks emitted so far and the block
/// that is open.
pub struct BuilderState {
    pub emitted: Seq<BlockSpec>,
    pub start: int,
    pub first: int,
    pub last: int,
}

/// The open block as it is emitted when the record at position `next` closes
/// it, or the input ends there.
pub open spec fn closed_run(st: BuilderState, next: int) -> BlockSpec {
    BlockSpec::Run { start: st.start, first: st.first, next, last: st.last }
}

/// The builder after the first record, of instant `t`: a block is open at
/// the start of the record's hour and holds that record.
pub open spec fn builder_init(t: Instant) -> BuilderState {
    BuilderState { emitted: Seq::empty(), start: t.hour_start(), first: 0, last: t.total() }
}

/// The builder takes the record at position `i`, of instant `t`. Where the
/// record lies more than a block's length after the start of the open block
/// or after the latest record, the open block is closed and a new one opened
/// at the start of the record's hour; where it lies that far after the latest
/// record, an idle block is emitted between the two. Otherwise the record
/// joins the open block.
pub open spec fn builder_step(st: BuilderState, i: int, t: Instant) -> BuilderState {
    if exceeds(t.total(), st.start) || exceeds(t.total(), st.last) {
        let closed = st.emitted.push(closed_run(st, i));
        let emitted = if exceeds(t.total(), st.last) {
            closed.push(
                BlockSpec::Idle { start: st.last + SESSION_BLOCK_DURATION as int, end: t.total() },
            )
        } else {
            closed
        };
        BuilderState { emitted, start: t.hour_start(), first: i, last: t.total() }
    } else {
        BuilderState { emitted: st.emitted, start: st.start, first: st.first, last: t.total() }
    }
}

/// The builder after the first `k` of the given instants, `k` at least 1.
pub open spec fn builder_after(times: Seq<Instant>, k: int) -> BuilderState
    decreases k,
{
    if k <= 1 {
        builder_init(times[0])
    } else {
        builder_step(builder_after(times, k - 1), k - 1, times[k - 1])
    }
}

/// The blocks of a sequence of instants: what the builder has emitted after
/// the last of them, and the block that is then open.
pub open spec fn blocks_of(times: Seq<Instant>) -> Seq<BlockSpec> {
    if times.len() == 0 {
        Seq::empty()
    } else {
        let st = builder_after(times, times.len() as int);
        st.emitted.push(closed_run(st, times.len() as int))
    }
}

/// The instants of parsed records.
pub open spec fn times_of(parsed: Seq<ParsedEntry>) -> Seq<Instant> {
    Seq::new(parsed.len(), |i: int| parsed[i].0)
}

/// The records of parsed records.
pub open spec fn entries_of(parsed: Seq<ParsedEntry>) -> Seq<Arc<UsageEntry>> {
    Seq::new(parsed.len(), |i: int| parsed[i].1)
}

impl SessionBlock {
    /// The block is the one that `spec` describes, over the given records and
    /// evaluated at `now`.
    pub open spec fn matches(self, spec: BlockSpec, entries: Seq<Arc<UsageEntry>>, now: int) -> bool {
        match spec {
            BlockSpec::Idle { start, end } => self == (SessionBlock::Idle {
                start_time: start as i128,
                end_time: end as i128,
            }) && start == start as i128 && end == end as i128,
            BlockSpec::Run { start, first, next, last } => {
                &&& start == start as i128
                &&& 0 <= first <= next <= entries.len()
                &&& match self {
                    SessionBlock::Idle { .. } => false,
                    SessionBlock::Active { start_time, entries: held } => {
                        &&& active_at(start, last, now)
                        &&& start_time == start
                        &&& held@ == entries.subrange(first, next)
                    },
                    SessionBlock::Completed { start_time, entries: held } => {
                        &&& !active_at(start, last, now)
                        &&& start_time == start
                        &&& held@ == entries.subrange(first, next)
                    },
                }
            },
        }
    }

    /// A session block that starts at `block_start`: active when, at `now`,
    /// its window has not ended and its latest record is less than a block's
    /// length old; completed otherwise.
    pub fn new(
        block_start: i128,
        entries: Vec<Arc<UsageEntry>>,
        last_entry_time: i128,
        now: i128,
    ) -> (r: Self)
        ensures
            active_at(block_start as int, last_entry_time as int, now as int) ==> r == (
            SessionBlock::Active { start_time: block_start, entries }),
            !active_at(block_start as int, last_entry_time as int, now as int) ==> r == (
            SessionBlock::Completed { start_time: block_start, entries }),
    {
        if before_block_end(now, last_entry_time) && before_block_end(now, block_start) {
            SessionBlock::Active { start_time: block_start, entries }
        } else {
            SessionBlock::Completed { start_time: block_start, entries }
        }
    }

    /// An idle block from `start_time` to `end_time`.
    pub fn idle(start_time: i128, end_time: i128) -> (r: SessionBlock)
        ensures
            r == (SessionBlock::Idle { start_time, end_time }),
    {
        SessionBlock::Idle { start_time, end_time }
    }

    /// Where the block ends: an idle block where it says, a session a
    /// block's length after its start.
    pub open spec fn spec_end_time(&self) -> int {
        match self {
            SessionBlock::Idle { end_time, .. } => *end_time as int,
            SessionBlock::Active { start_time, .. } => start_time + SESSION_BLOCK_DURATION,
            SessionBlock::Completed { start_time, .. } => start_time + SESSION_BLOCK_DURATION,
        }
    }

    /// The records of the block; an idle block has none.
    pub open spec fn spec_entries(&self) -> Seq<Arc<UsageEntry>> {
        match self {
            SessionBlock::Idle { .. } => Seq::empty(),
            SessionBlock::Active { entries, .. } => entries@,
            SessionBlock::Completed { entries, .. } => entries@,
        }
    }

    /// The instant at which the block ends.
    pub fn end_time(&self) -> (r: i128)
        requires
            self.spec_end_time() <= i128::MAX,
        ensures
            r == self.spec_end_time(),
    {
        match self {
            SessionBlock::Idle { end_time, .. } => *end_time,
            SessionBlock::Active { start_time, .. } => *start_time + SESSION_BLOCK_DURATION,
            SessionBlock::Completed { start_time, .. } => *start_time + SESSION_BLOCK_DURATION,
        }
    }

    /// The records of the block, in order.
    pub fn entries(&self) -> (r: Vec<&UsageEntry>)
        ensures
            r@.len() == self.spec_entries().len(),
            forall|i: int| 0 <= i < r@.len() ==> *r@[i] == *self.spec_entries()[i],
    {
        match self {
            SessionBlock::Idle { .. } => Vec::new(),
            SessionBlock::Active { entries, .. } | SessionBlock::Completed { entries, .. } => {
                let mut out: Vec<&UsageEntry> = Vec::new();
                let mut i: usize = 0;
                while i < entries.len()
                    invariant
                        i <= entries.len(),
                        out@.len() == i,
                        forall|k: int| 0 <= k < i ==> *out@[k] == *entries@[k],
                    decreases entries.len() - i,
                {
                    out.push(&*entries[i]);
                    i += 1;
                }
                out
            },
        }
    }

    /// The time from the first record of the block to its last. There is
    /// none for an idle block, for a block without records, and where the
    /// timestamp of the first or of the last record denotes no instant.
    pub open spec fn spec_actual_duration(&self) -> Option<int> {
        if self is Idle || self.spec_entries().len() == 0 {
            None
        } else {
            match (
                entry_time(*self.spec_entries().first()),
                entry_time(*self.spec_entries().last()),
            ) {
                (Some(first), Some(last)) => Some(last.total() - first.total()),
                _ => None,
            }
        }
    }

    /// The time from the first record of the block to its last, in
    /// nanoseconds.
    pub fn actual_duration(&self) -> (r: Option<i128>)
        ensures
            r is Some == self.spec_actual_duration() is Some,
            r is Some ==> r->0 == self.spec_actual_duration()->0,
    {
        match self {
            SessionBlock::Idle { .. } => None,
            SessionBlock::Active { entries, .. } | SessionBlock::Completed { entries, .. } => {
                if entries.len() == 0 {
                    return None;
                }
                match parse_entry_timestamp(&entries[0]) {
                    Some(first) => match parse_entry_timestamp(&entries[entries.len() - 1]) {
                        Some(last) => Some(last.nanos_total() - first.nanos_total()),
                        None => None,
                    },
                    None => None,
                }
            },
        }
    }

    /// The time from the first record of the block to its last, in whole
    /// minutes; a part of a minute is dropped.
    pub fn actual_duration_minutes(&self) -> (r: Option<i64>)
        ensures
            r is Some == self.spec_actual_duration() is Some,
            r is Some ==> r->0 == whole_minutes(self.spec_actual_duration()->0),
    {
        match self.actual_duration() {
            Some(d) => {
                proof {
                    lemma_duration_bounds(*self);
                }
                if d >= 0 {
                    Some((d / MINUTE) as i64)
                } else {
                    Some((-((-d) / MINUTE)) as i64)
                }
            },
            None => None,
        }
    }

    /// The cost of the block.
    pub fn cost(&self) -> (r: Cost)
        ensures
            r@ == block_cost(*self),
    {
        Cost::from_session_block(self)
    }

    /// Whether the block is a silence.
    pub fn is_idle(&self) -> (r: bool)
        ensures
            r == (self is Idle),
    {
        matches!(self, SessionBlock::Idle { .. })
    }

    /// Whether the block is the open session.
    pub fn is_active(&self) -> (r: bool)
        ensures
            r == (self is Active),
    {
        matches!(self, SessionBlock::Active { .. })
    }
}

} // verus!
