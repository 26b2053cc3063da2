//! The order of records: by the text of their timestamps, as strings
//! compare, a record without a timestamp before all that have one.

use crate::text::{lemma_lex_lt_asymmetric, lex_lt, str_lt, utf8};
use crate::usage::UsageEntry;
use std::cmp::Ordering;
use std::sync::Arc;
use vstd::prelude::*;

verus! {

/// One record comes strictly before another.
pub open spec fn key_lt(a: UsageEntry, b: UsageEntry) -> bool {
    match (a.data.timestamp, b.data.timestamp) {
        (None, None) => false,
        (None, Some(_)) => true,
        (Some(_), None) => false,
        (Some(x), Some(y)) => lex_lt(utf8(x@), utf8(y@)),
    }
}

/// The records are in order: none comes strictly before a record that
/// stands earlier.
pub open spec fn sorted_by_timestamp(entries: Seq<Arc<UsageEntry>>) -> bool {
    forall|i: int, j: int| 0 <= i < j < entries.len() ==> !key_lt(*entries[j], *entries[i])
}

/// The records with a given timestamp text, or with none, in order.
pub open spec fn with_timestamp(entries: Seq<Arc<UsageEntry>>, text: Option<Seq<char>>) -> Seq<
    Arc<UsageEntry>,
> {
    entries.filter(|e: Arc<UsageEntry>| e.data.timestamp_text() == text)
}

/// Two records never each come strictly before the other.
pub proof fn lemma_key_lt_asymmetric(a: UsageEntry, b: UsageEntry)
    ensures
        !(key_lt(a, b) && key_lt(b, a)),
{
    match (a.data.timestamp, b.data.timestamp) {
        (Some(x), Some(y)) => {
            if lex_lt(utf8(x@), utf8(y@)) {
                lemma_lex_lt_asymmetric(utf8(x@), utf8(y@));
            }
        },
        _ => {},
    }
}

/// Whether one record comes strictly before another.
pub fn timestamp_lt(a: &UsageEntry, b: &UsageEntry) -> (r: bool)
    ensures
        r == key_lt(*a, *b),
{
    match (&a.data.timestamp, &b.data.timestamp) {
        (None, None) => false,
        (None, Some(_)) => true,
        (Some(_), None) => false,
        (Some(x), Some(y)) => str_lt(x.as_str(), y.as_str()),
    }
}

/// How two records compare.
pub fn compare_timestamps(a: &UsageEntry, b: &UsageEntry) -> (r: Ordering)
    ensures
        (r == Ordering::Less) == key_lt(*a, *b),
        (r == Ordering::Greater) == key_lt(*b, *a),
{
    proof {
        lemma_key_lt_asymmetric(*a, *b);
    }
    if timestamp_lt(a, b) {
        Ordering::Less
    } else if timestamp_lt(b, a) {
        Ordering::Greater
    } else {
        Ordering::Equal
    }
}

/// `slice::sort_by` sorts in place by the comparison it is given, which here
/// is a total order, and is stable: the result holds the same records, in
/// order, and records that compare equal, which are those with the same
/// timestamp text, keep the order in which they stood.
#[verifier::external_body]
pub(crate) fn sort_by_timestamp(entries: &mut Vec<Arc<UsageEntry>>)
    ensures
        sorted_by_timestamp(final(entries)@),
        final(entries)@.to_multiset() == old(entries)@.to_multiset(),
        forall|text: Option<Seq<char>>| #[trigger]
            with_timestamp(final(entries)@, text) == with_timestamp(old(entries)@, text),
{
    entries.sort_by(|a, b| compare_timestamps(a, b));
}

} // verus!
