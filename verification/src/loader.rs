//! What the load decides: which records are worth keeping, and how the
//! records of all log files become one snapshot. Reading the files and
//! turning their lines into records is the caller's part.

use crate::constants::SESSION_BLOCK_DURATION;
use crate::dedup::{deduplicate, flatten, flattened, none_seen, surviving};
use crate::ids::SessionId;
use crate::ordering::{sort_by_timestamp, sorted_by_timestamp, with_timestamp};
use crate::snapshot::MergedUsageSnapshot;
use crate::text::{ends_with_text, lex_lt, str_lt, utf8};
use crate::time::{format_timestamp, now_nanos, text_of};
use crate::usage::UsageEntry;
use std::sync::Arc;
use vstd::prelude::*;
use vstd::string::{StrSliceExecFns, StringExecFns};

verus! {

/// A record is kept when it belongs to the current session, when it has no
/// timestamp, or when its timestamp does not come before the cutoff, as
/// strings compare.
pub open spec fn keeps(entry: UsageEntry, current_session: Seq<char>, cutoff: Seq<char>) -> bool {
    ||| entry.session_id@ == current_session
    ||| match entry.data.timestamp {
        Some(t) => !lex_lt(utf8(t@), utf8(cutoff)),
        None => true,
    }
}

/// Whether a record is kept by the early filter of a load.
pub fn should_keep_entry(
    entry: &UsageEntry,
    current_session_id: &SessionId,
    cutoff_timestamp: &str,
) -> (r: bool)
    ensures
        r == keeps(*entry, current_session_id@, cutoff_timestamp@),
{
    if entry.session_id.fast_eq(current_session_id) {
        return true;
    }
    match &entry.data.timestamp {
        Some(t) => !str_lt(t.as_str(), cutoff_timestamp),
        None => true,
    }
}

/// The session that a log file belongs to, by the file's name: for a name
/// that ends in ".jsonl", the name without that extension. Another file is
/// no log file.
pub open spec fn session_id_of(name: Seq<char>) -> Option<Seq<char>> {
    if ends_with_text(name, ".jsonl"@) {
        Some(name.subrange(0, name.len() - ".jsonl"@.len()))
    } else {
        None
    }
}

/// Whether the first `end` characters of a name end in ".jsonl".
fn ends_in_jsonl(name: &str, end: usize) -> (r: bool)
    requires
        end <= name@.len(),
    ensures
        r == ends_with_text(name@.subrange(0, end as int), ".jsonl"@),
{
    proof {
        reveal_strlit(".jsonl");
    }
    if end < 6 {
        return false;
    }
    let ghost head = name@.subrange(0, end as int);
    let same = name.get_char(end - 6) == '.' && name.get_char(end - 5) == 'j' && name.get_char(
        end - 4,
    ) == 's' && name.get_char(end - 3) == 'o' && name.get_char(end - 2) == 'n' && name.get_char(
        end - 1,
    ) == 'l';
    proof {
        let tail = head.subrange(head.len() - 6, head.len() as int);
        assert(tail.len() == 6);
        assert(forall|k: int| 0 <= k < 6 ==> tail[k] == name@[end - 6 + k]);
        if same {
            assert(tail =~= ".jsonl"@);
        } else {
            assert(tail[0] == name@[end - 6] && tail[1] == name@[end - 5] && tail[2] == name@[end
                - 4] && tail[3] == name@[end - 3] && tail[4] == name@[end - 2] && tail[5]
                == name@[end - 1]);
        }
    }
    same
}

/// The session that a log file belongs to, by the file's name.
pub fn session_id_of_file_name(name: &str) -> (r: Option<String>)
    ensures
        r is Some == session_id_of(name@) is Some,
        r is Some ==> r->0@ == session_id_of(name@)->0,
{
    let n: usize = name.unicode_len();
    proof {
        reveal_strlit(".jsonl");
        assert(name@.subrange(0, n as int) =~= name@);
    }
    if ends_in_jsonl(name, n) {
        Some(String::from_str(name.substring_char(0, n - 6)))
    } else {
        None
    }
}

/// The snapshot of the records of all base directories: the same records,
/// in order of their timestamps, those with one timestamp in the order in
/// which they came.
pub fn merge_snapshot(parts: &Vec<Vec<Arc<UsageEntry>>>) -> (r: MergedUsageSnapshot)
    ensures
        sorted_by_timestamp(r.all_entries@),
        r.all_entries@.to_multiset() == flattened(parts@).to_multiset(),
        forall|text: Option<Seq<char>>| #[trigger]
            with_timestamp(r.all_entries@, text) == with_timestamp(flattened(parts@), text),
{
    let mut all_entries = flatten(parts);
    sort_by_timestamp(&mut all_entries);
    MergedUsageSnapshot { all_entries }
}

/// The cutoff of a load that starts at `now` on a day that began at
/// `today_start`: the earlier, as strings compare, of the texts of two
/// instants, one block's length before the day began and two blocks' lengths
/// before `now`. So no block that reaches into today is cut, and the block
/// before the current one is loaded whole. There is none where one of the
/// two instants cannot be formed or written.
pub open spec fn cutoff_of(today_start: int, now: int) -> Option<Seq<char>> {
    match (
        text_of(today_start - SESSION_BLOCK_DURATION),
        text_of(now - 2 * SESSION_BLOCK_DURATION),
    ) {
        (Some(x), Some(y)) => Some(
            if lex_lt(utf8(x), utf8(y)) {
                x
            } else {
                y
            },
        ),
        _ => None,
    }
}

/// The cutoff of a load.
pub fn cutoff_text(today_start: i128, now: i128) -> (r: Option<String>)
    ensures
        r is Some == cutoff_of(today_start as int, now as int) is Some,
        r is Some ==> r->0@ == cutoff_of(today_start as int, now as int)->0,
{
    if today_start < i128::MIN + SESSION_BLOCK_DURATION || now < i128::MIN + 2
        * SESSION_BLOCK_DURATION {
        return None;
    }
    match format_timestamp(today_start - SESSION_BLOCK_DURATION) {
        Some(safe_today_cutoff) => match format_timestamp(now - 2 * SESSION_BLOCK_DURATION) {
            Some(minimum_lookback) => {
                if str_lt(safe_today_cutoff.as_str(), minimum_lookback.as_str()) {
                    Some(safe_today_cutoff)
                } else {
                    Some(minimum_lookback)
                }
            },
            None => None,
        },
        None => None,
    }
}

/// The bounds of a load.
#[derive(Debug)]
pub struct FilterBoundaries {
    /// Records of other sessions that come before this text are not loaded.
    pub cutoff_timestamp: String,
}

/// The records of several base directories, each with the records of its
/// files: all of them, one directory after the other, and in each directory
/// one file after the other.
pub open spec fn all_records(dirs: Seq<Vec<Vec<Arc<UsageEntry>>>>) -> Seq<Arc<UsageEntry>>
    decreases dirs.len(),
{
    if dirs.len() == 0 {
        Seq::empty()
    } else {
        all_records(dirs.drop_last()) + flattened(dirs.last()@)
    }
}

/// The records that a load keeps, in the order in which they came: every
/// record without an identity, and of the records with one identity the
/// first.
pub open spec fn kept_records(entries: Seq<Arc<UsageEntry>>) -> Seq<Arc<UsageEntry>> {
    let positions = surviving(entries, Set::empty());
    Seq::new(positions.len(), |k: int| entries[positions[k]])
}

/// The snapshot of a load, given the records of every file of every base
/// directory: the records that are kept, in order of their timestamps, those
/// with one timestamp in the order in which they came.
pub fn load_snapshot(dirs: &Vec<Vec<Vec<Arc<UsageEntry>>>>) -> (r: MergedUsageSnapshot)
    ensures
        sorted_by_timestamp(r.all_entries@),
        r.all_entries@.len() == surviving(all_records(dirs@), Set::empty()).len(),
        r.all_entries@.to_multiset() == kept_records(all_records(dirs@)).to_multiset(),
        forall|text: Option<Seq<char>>| #[trigger]
            with_timestamp(r.all_entries@, text) == with_timestamp(
                kept_records(all_records(dirs@)),
                text,
            ),
{
    let mut all: Vec<Arc<UsageEntry>> = Vec::new();
    let mut d: usize = 0;
    proof {
        assert(dirs@.take(0) =~= Seq::<Vec<Vec<Arc<UsageEntry>>>>::empty());
    }
    while d < dirs.len()
        invariant
            d <= dirs.len(),
            all@ == all_records(dirs@.take(d as int)),
        decreases dirs.len() - d,
    {
        let mut part = flatten(&dirs[d]);
        all.append(&mut part);
        proof {
            assert(dirs@.take(d + 1).drop_last() =~= dirs@.take(d as int));
            assert(dirs@.take(d + 1).last() == dirs@[d as int]);
        }
        d += 1;
    }
    proof {
        assert(dirs@.take(d as int) =~= dirs@);
    }
    let mut seen = none_seen();
    let mut all_entries = deduplicate(all.as_slice(), &mut seen);
    proof {
        assert(all_entries@ =~= kept_records(all_records(dirs@)));
        all_entries@.to_multiset_ensures();
    }
    let ghost kept = all_entries@;
    sort_by_timestamp(&mut all_entries);
    proof {
        all_entries@.to_multiset_ensures();
        assert(all_entries@.len() == kept.len());
    }
    MergedUsageSnapshot { all_entries }
}

impl FilterBoundaries {
    /// The bounds of a load that starts now, on a day that began at
    /// `today_start` in the local time zone: the cutoff of that day start and
    /// of the instant that the clock shows, and none where the two have no
    /// cutoff.
    pub fn new(today_start: i128) -> (r: Option<Self>)
        ensures
            exists|now: i128|
                match r {
                    Some(bounds) => #[trigger] cutoff_of(today_start as int, now as int) == Some(
                        bounds.cutoff_timestamp@,
                    ),
                    None => cutoff_of(today_start as int, now as int) is None,
                },
    {
        let now = now_nanos();
        match cutoff_text(today_start, now) {
            Some(cutoff_timestamp) => {
                proof {
                    assert(cutoff_of(today_start as int, now as int) == Some(cutoff_timestamp@));
                }
                Some(FilterBoundaries { cutoff_timestamp })
            },
            None => {
                proof {
                    assert(cutoff_of(today_start as int, now as int) is None);
                }
                None
            },
        }
    }
}

} // verus!
