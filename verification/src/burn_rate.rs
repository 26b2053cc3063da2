//! The burn rate of a session block: its cost per hour, over the time from
//! its first record to its last.

use crate::cost::{block_cost, Cost};
use crate::session::SessionBlock;
use vstd::prelude::*;

verus! {

/// The time over which a block burns its cost: from its first record to its
/// last, where the last lies after the first. There is none for an idle
/// block, for a block without records, where the first or the last record
/// has no instant, and where the two records are of one instant or the last
/// lies before the first.
pub open spec fn burn_span(block: SessionBlock) -> Option<int> {
    match block.spec_actual_duration() {
        Some(d) => if d > 0 {
            Some(d)
        } else {
            None
        },
        None => None,
    }
}

/// The cost of a block and the time it was spent in, in nanoseconds: the two
/// parts of its burn rate, which is the cost divided by the time in hours. The burn rate
/// is undefined, and there are no parts, where the block has no time between
/// its first and its last record.
pub fn burn_rate_parts(block: &SessionBlock) -> (r: Option<(Cost, i128)>)
    ensures
        r is Some == burn_span(*block) is Some,
        match r {
            Some((cost, span)) => cost@ == block_cost(*block) && span == burn_span(*block)->0,
            None => true,
        },
{
    match block.actual_duration() {
        Some(span) => {
            if span > 0 {
                Some((block.cost(), span))
            } else {
                None
            }
        },
        None => None,
    }
}

/// The burn rate of a block, held as its two parts: a cost, and the time in
/// which it was spent, which is more than none.
#[derive(Debug, Clone, Copy, PartialEq, Eq, Structural)]
pub struct BurnRate {
    cost: Cost,
    span: i128,
}

impl BurnRate {
    /// The cost and the time are the parts of this burn rate.
    pub closed spec fn has_parts(&self, cost: int, span: int) -> bool {
        self.cost@ == cost && self.span == span
    }

    /// The burn rate of a block; none where it is undefined.
    pub fn from_session_block(block: &SessionBlock) -> (r: Option<Self>)
        ensures
            r is Some == burn_span(*block) is Some,
            r is Some ==> r->0.has_parts(block_cost(*block), burn_span(*block)->0),
    {
        match burn_rate_parts(block) {
            Some((cost, span)) => Some(BurnRate { cost, span }),
            None => None,
        }
    }

    /// The cost that was spent.
    pub fn cost(&self) -> (r: Cost)
        ensures
            forall|cost: int, span: int| self.has_parts(cost, span) ==> r@ == cost,
    {
        self.cost
    }

    /// The time in which the cost was spent.
    pub fn span(&self) -> (r: i128)
        ensures
            forall|cost: int, span: int| self.has_parts(cost, span) ==> r == span,
    {
        self.span
    }
}

} // verus!
