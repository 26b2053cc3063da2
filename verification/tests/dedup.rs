use ccr::dedup::{create_entry_hash, deduplicate, deduplicate_entries, flatten, is_duplicate};
use ccr::ids::{MessageId, RequestId, SessionId, UniqueHash};
use ccr::usage::{Message, UsageEntry, UsageEntryData};
use std::sync::Arc;
use vstd::hash_set::StringHashSet;

fn record(
    session: &str,
    timestamp: &str,
    cost: i64,
    message_id: Option<&str>,
    request_id: Option<&str>,
) -> UsageEntry {
    UsageEntry::from_data(
        UsageEntryData {
            timestamp: Some(timestamp.to_string()),
            model: None,
            cost_usd: Some(cost),
            message: Some(Message { id: message_id.map(MessageId::from), model: None, usage: None }),
            request_id: request_id.map(RequestId::from),
        },
        SessionId::from(session),
    )
}

#[test]
fn test_duplicate_detection() {
    let mut processed_hashes = StringHashSet::new();

    let entry1 =
        record("session-1", "2024-01-15T10:30:00Z", 10_000_000, Some("msg_123"), Some("req_456"));
    let entry2 =
        record("session-2", "2024-01-15T10:30:01Z", 20_000_000, Some("msg_123"), Some("req_456"));
    let entry3 =
        record("session-3", "2024-01-15T10:30:02Z", 30_000_000, Some("msg_789"), Some("req_999"));

    assert!(!is_duplicate(&entry1, &mut processed_hashes));
    assert!(is_duplicate(&entry2, &mut processed_hashes));
    assert!(!is_duplicate(&entry3, &mut processed_hashes));
}

#[test]
fn test_unique_hash_from_usage_entry_data() {
    let data_with_ids =
        record("s", "2025-01-20T10:00:00Z", 0, Some("msg-123"), Some("req-456")).data;
    let hash = UniqueHash::from_usage_entry_data(&data_with_ids);
    assert!(hash.is_some());
    assert_eq!(hash.unwrap().as_str(), "msg-123:req-456");

    let data_no_msg_id = record("s", "2025-01-20T10:00:00Z", 0, None, Some("req-456")).data;
    assert!(UniqueHash::from_usage_entry_data(&data_no_msg_id).is_none());

    let data_no_req_id = record("s", "2025-01-20T10:00:00Z", 0, Some("msg-123"), None).data;
    assert!(UniqueHash::from_usage_entry_data(&data_no_req_id).is_none());

    let mut data_no_message =
        record("s", "2025-01-20T10:00:00Z", 0, Some("msg-123"), Some("req-456")).data;
    data_no_message.message = None;
    assert!(UniqueHash::from_usage_entry_data(&data_no_message).is_none());
}

#[test]
fn entry_hash_joins_with_a_colon() {
    let hash = create_entry_hash(&MessageId::from("m"), &RequestId::from("r"));
    assert_eq!(hash, "m:r");
    assert_eq!(create_entry_hash(&MessageId::from(""), &RequestId::from("")), ":");
}

#[test]
fn first_delivery_survives_and_order_is_kept() {
    let entries: Vec<Arc<UsageEntry>> = vec![
        Arc::new(record("a", "t1", 1, Some("m1"), Some("r1"))),
        Arc::new(record("b", "t2", 2, Some("m2"), Some("r2"))),
        Arc::new(record("c", "t3", 3, Some("m1"), Some("r1"))),
        Arc::new(record("d", "t4", 4, None, Some("r1"))),
        Arc::new(record("e", "t5", 5, None, Some("r1"))),
        Arc::new(record("f", "t6", 6, Some("m2"), Some("r2"))),
    ];
    let mut seen = StringHashSet::new();
    let kept = deduplicate(&entries, &mut seen);
    let costs: Vec<i64> = kept.iter().map(|e| e.data.cost_usd.unwrap()).collect();
    assert_eq!(costs, vec![1, 2, 4, 5]);
    assert!(seen.contains("m1:r1"));
    assert!(seen.contains("m2:r2"));
    assert_eq!(seen.len(), 2);
}

#[test]
fn records_without_identity_are_never_removed() {
    let entries: Vec<Arc<UsageEntry>> = vec![
        Arc::new(record("a", "t", 1, None, None)),
        Arc::new(record("a", "t", 1, None, None)),
        Arc::new(record("a", "t", 1, Some("m"), None)),
        Arc::new(record("a", "t", 1, Some("m"), None)),
    ];
    let mut seen = StringHashSet::new();
    let kept = deduplicate(&entries, &mut seen);
    assert_eq!(kept.len(), 4);
    assert!(seen.is_empty());
}

#[test]
fn identities_seen_before_are_dropped() {
    let mut seen = StringHashSet::new();
    let first = vec![vec![Arc::new(record("a", "t", 1, Some("m1"), Some("r1")))]];
    assert_eq!(deduplicate_entries(&first, &mut seen).len(), 1);
    let second = vec![
        vec![Arc::new(record("b", "t", 2, Some("m1"), Some("r1")))],
        vec![Arc::new(record("b", "t", 3, Some("m3"), Some("r3")))],
    ];
    let kept = deduplicate_entries(&second, &mut seen);
    assert_eq!(kept.len(), 1);
    assert_eq!(kept[0].data.cost_usd, Some(3));
}

#[test]
fn any_order_keeps_one_record_per_identity() {
    let a = Arc::new(record("a", "t", 1, Some("m1"), Some("r1")));
    let b = Arc::new(record("b", "t", 2, Some("m1"), Some("r1")));
    let c = Arc::new(record("c", "t", 3, Some("m2"), Some("r2")));
    let d = Arc::new(record("d", "t", 4, None, None));
    let orders = vec![
        vec![a.clone(), b.clone(), c.clone(), d.clone()],
        vec![b.clone(), a.clone(), d.clone(), c.clone()],
        vec![d.clone(), c.clone(), b.clone(), a.clone()],
    ];
    for order in orders {
        let mut seen = StringHashSet::new();
        let kept = deduplicate(&order, &mut seen);
        assert_eq!(kept.len(), 3);
        let with_m1 = kept
            .iter()
            .filter(|e| UniqueHash::from_usage_entry_data(&e.data).map(|h| h.into_inner())
                == Some("m1:r1".to_string()))
            .count();
        assert_eq!(with_m1, 1);
        assert_eq!(seen.len(), 2);
    }
}

#[test]
fn two_files_with_shared_records() {
    let mut file_a = Vec::new();
    for i in 0..10 {
        let id = format!("a{}", i);
        let (m, r) = if i < 4 {
            (format!("shared-m{}", i), format!("shared-r{}", i))
        } else {
            (format!("m-{}", id), format!("r-{}", id))
        };
        file_a.push(Arc::new(record("a", "2024-01-15T10:00:00.000Z", 1, Some(&m), Some(&r))));
    }
    let mut file_b = Vec::new();
    for i in 0..12 {
        let id = format!("b{}", i);
        let (m, r) = if i < 4 {
            (format!("shared-m{}", i), format!("shared-r{}", i))
        } else {
            (format!("m-{}", id), format!("r-{}", id))
        };
        file_b.push(Arc::new(record("b", "2024-01-15T11:00:00.000Z", 1, Some(&m), Some(&r))));
    }
    let files = vec![file_a, file_b];
    assert_eq!(flatten(&files).len(), 22);
    let mut seen = StringHashSet::new();
    let kept = deduplicate_entries(&files, &mut seen);
    assert_eq!(kept.len(), 18);
    for i in 0..4 {
        let shared = format!("shared-m{}:shared-r{}", i, i);
        let n = kept
            .iter()
            .filter(|e| UniqueHash::from_usage_entry_data(&e.data).map(|h| h.into_inner())
                == Some(shared.clone()))
            .count();
        assert_eq!(n, 1);
    }
    let other_way = vec![files[1].clone(), files[0].clone()];
    let mut seen_again = StringHashSet::new();
    assert_eq!(deduplicate_entries(&other_way, &mut seen_again).len(), 18);
    assert_eq!(seen_again.len(), seen.len());
}
