//! Sums of money, in whole units of 1e-8 USD.

use crate::pricing::{calculate_entry_cost, entry_cost};
use crate::session::SessionBlock;
use crate::usage::UsageEntry;
use std::sync::Arc;
use vstd::prelude::*;

verus! {

/// The cost of records: the sum of the costs of each.
pub open spec fn total_cost(entries: Seq<Arc<UsageEntry>>) -> int
    decreases entries.len(),
{
    if entries.len() == 0 {
        0
    } else {
        total_cost(entries.drop_last()) + entry_cost(*entries.last())
    }
}

/// The cost of a block: that of its records. An idle block costs nothing.
pub open spec fn block_cost(block: SessionBlock) -> int {
    total_cost(block.spec_entries())
}

/// The cost of no records is nothing, and each record adds its own cost.
pub proof fn lemma_total_cost_push(entries: Seq<Arc<UsageEntry>>, entry: Arc<UsageEntry>)
    ensures
        total_cost(Seq::<Arc<UsageEntry>>::empty()) == 0,
        total_cost(entries.push(entry)) == total_cost(entries) + entry_cost(*entry),
{
    assert(entries.push(entry).drop_last() =~= entries);
}

/// An amount of money.
#[derive(Debug, Clone, Copy, PartialEq, Eq, Structural, PartialOrd, Ord)]
pub struct Cost(i128);

impl View for Cost {
    type V = int;

    closed spec fn view(&self) -> int {
        self.0 as int
    }
}

impl Cost {
    /// The amount of the given number of units.
    pub fn new(value: i128) -> (r: Self)
        ensures
            r@ == value,
    {
        Cost(value)
    }

    /// The cost of the given records.
    pub fn from_entries(entries: &[Arc<UsageEntry>]) -> (r: Self)
        ensures
            r@ == total_cost(entries@),
    {
        let mut total: i128 = 0;
        let mut i: usize = 0;
        while i < entries.len()
            invariant
                i <= entries.len(),
                total == total_cost(entries@.subrange(0, i as int)),
                -(i * 0x8000_0000_0000_0000) <= total <= i * 0x8000_0000_0000_0000,
            decreases entries.len() - i,
        {
            let cost: i64 = calculate_entry_cost(&entries[i]);
            proof {
                lemma_total_cost_push(entries@.subrange(0, i as int), entries@[i as int]);
                assert(entries@.subrange(0, i as int).push(entries@[i as int])
                    =~= entries@.subrange(0, i + 1));
            }
            total = total + cost as i128;
            i += 1;
        }
        proof {
            assert(entries@.subrange(0, i as int) =~= entries@);
        }
        Cost(total)
    }

    /// The cost of a block.
    pub fn from_session_block(block: &SessionBlock) -> (r: Self)
        ensures
            r@ == block_cost(*block),
    {
        match block {
            SessionBlock::Idle { .. } => Cost(0),
            SessionBlock::Active { entries, .. } | SessionBlock::Completed { entries, .. } => {
                Self::from_entries(entries.as_slice())
            },
        }
    }

    /// The number of units.
    pub fn value(&self) -> (r: i128)
        ensures
            r == self@,
    {
        self.0
    }

    /// Whether the amount is more than half a cent.
    pub fn is_positive(&self) -> (r: bool)
        ensures
            r == (self@ > 500_000),
    {
        self.0 > 500_000
    }
}

} // verus!
