//! The time that is left until a session block ends.

use crate::formatting::{digits, push_decimal, push_signed, signed_digits};
use crate::session::SessionBlock;
use crate::constants::MINUTE;
use crate::time::now_nanos;
use vstd::prelude::*;
use vstd::string::StringExecFns;

verus! {

/// A remaining time, in whole minutes. One that is read off a block is never
/// negative; a negative one stands for no time left.
#[derive(Debug, Clone, Copy, PartialEq, Eq, Structural, PartialOrd, Ord)]
pub struct RemainingTime(i64);

impl View for RemainingTime {
    type V = int;

    closed spec fn view(&self) -> int {
        self.0 as int
    }
}

/// The text of a remaining time: below an hour the minutes, "30m left"; a
/// whole number of hours, "2h left"; otherwise hours and minutes,
/// "2h 15m left".
pub open spec fn remaining_text(minutes: int) -> Seq<char> {
    if minutes < 60 {
        signed_digits(minutes) + "m left"@
    } else if minutes % 60 > 0 {
        digits((minutes / 60) as nat) + "h "@ + digits((minutes % 60) as nat) + "m left"@
    } else {
        digits((minutes / 60) as nat) + "h left"@
    }
}

/// The whole minutes from `now` to `end`; none once `end` is reached.
pub open spec fn remaining_minutes(end: int, now: int) -> int {
    if end > now {
        (end - now) / (MINUTE as int)
    } else {
        0
    }
}

/// The value of `i64` nearest to a whole number.
pub open spec fn nearest_i64(t: int) -> i64 {
    if t > i64::MAX {
        i64::MAX
    } else if t < i64::MIN {
        i64::MIN
    } else {
        t as i64
    }
}

impl RemainingTime {
    /// The time that is left of a block at `now`: from `now` to the end of
    /// the block in whole minutes, and none once the block has ended. More
    /// minutes than can be counted are given as the most that can.
    pub fn from_session_block_at(block: &SessionBlock, now: i128) -> (r: Self)
        requires
            block.spec_end_time() <= i128::MAX,
        ensures
            r@ == nearest_i64(remaining_minutes(block.spec_end_time(), now as int)),
    {
        let end: i128 = block.end_time();
        if end <= now {
            RemainingTime(0)
        } else if now < 0 && end > i128::MAX + now {
            RemainingTime(i64::MAX)
        } else {
            let minutes: i128 = (end - now) / MINUTE;
            if minutes > i64::MAX as i128 {
                RemainingTime(i64::MAX)
            } else {
                RemainingTime(minutes as i64)
            }
        }
    }

    /// The time that is left of a block at the time of the call.
    pub fn from_session_block(block: &SessionBlock) -> (r: Self)
        requires
            block.spec_end_time() <= i128::MAX,
        ensures
            exists|now: i128|
                r@ == nearest_i64(
                    #[trigger] remaining_minutes(block.spec_end_time(), now as int),
                ),
    {
        let now = now_nanos();
        let r = Self::from_session_block_at(block, now);
        proof {
            assert(r@ == nearest_i64(remaining_minutes(block.spec_end_time(), now as int)));
        }
        r
    }

    /// A remaining time of the given number of minutes.
    pub fn new(minutes: i64) -> (r: Self)
        ensures
            r@ == minutes,
    {
        RemainingTime(minutes)
    }

    /// The number of minutes.
    pub fn minutes(&self) -> (r: i64)
        ensures
            r == self@,
    {
        self.0
    }

    /// Whether any time is left.
    pub fn has_remaining(&self) -> (r: bool)
        ensures
            r == (self@ > 0),
    {
        self.0 > 0
    }

    /// The remaining time as a text such as "2h 30m left".
    pub fn to_formatted_string(&self) -> (r: String)
        ensures
            r@ == remaining_text(self@),
    {
        let mut s = String::new();
        if self.0 < 60 {
            push_signed(&mut s, self.0);
            s.append("m left");
            proof {
                assert(s@ =~= remaining_text(self@));
            }
        } else {
            let hours: u64 = (self.0 / 60) as u64;
            let mins: u64 = (self.0 % 60) as u64;
            push_decimal(&mut s, hours);
            if mins > 0 {
                s.append("h ");
                push_decimal(&mut s, mins);
                s.append("m left");
            } else {
                s.append("h left");
            }
            proof {
                assert(s@ =~= remaining_text(self@));
            }
        }
        s
    }
}

} // verus!
