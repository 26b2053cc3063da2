use ccr::ids::{MessageId, ModelId, RequestId, SessionId};
use ccr::loader::merge_snapshot;
use ccr::snapshot::{entry_before, preprocess, MergedUsageSnapshot};
use ccr::usage::{Message, Usage, UsageEntry, UsageEntryData};
use chrono::{DateTime, Datelike, Duration, Local, SecondsFormat, TimeZone, Utc};
use std::sync::Arc;

fn ns(t: DateTime<Utc>) -> i128 {
    t.timestamp() as i128 * 1_000_000_000 + t.timestamp_subsec_nanos() as i128
}

fn create_test_entry(
    session_id: &str,
    timestamp: &str,
    message_id: Option<&str>,
    request_id: Option<&str>,
    input_tokens: Option<u32>,
    output_tokens: Option<u32>,
) -> Arc<UsageEntry> {
    Arc::new(UsageEntry {
        data: UsageEntryData {
            timestamp: Some(timestamp.to_string()),
            model: Some(ModelId::from("sonnet")),
            cost_usd: None,
            message: Some(Message {
                id: message_id.map(MessageId::from),
                model: Some(ModelId::from("sonnet")),
                usage: Some(Usage {
                    input_tokens,
                    output_tokens,
                    cache_creation_input_tokens: None,
                    cache_read_input_tokens: None,
                    cache_creation: None,
                    service_tier: None,
                }),
            }),
            request_id: request_id.map(RequestId::from),
        },
        session_id: SessionId::from(session_id),
    })
}

fn local_midnight() -> DateTime<Utc> {
    Local::now()
        .date_naive()
        .and_hms_opt(0, 0, 0)
        .unwrap()
        .and_local_timezone(Local)
        .unwrap()
        .with_timezone(&Utc)
}

fn millis_text(t: DateTime<Utc>) -> String {
    t.to_rfc3339_opts(SecondsFormat::Millis, true)
}

#[test]
fn test_merged_usage_snapshot_today_entries() {
    let today_start = local_midnight();

    let yesterday = today_start - Duration::days(1);
    let today_morning = today_start + Duration::hours(8);
    let today_afternoon = today_start + Duration::hours(14);

    let entries = vec![
        create_test_entry(
            "session-1",
            &yesterday.to_rfc3339(),
            Some("msg-1"),
            Some("req-1"),
            Some(100),
            Some(50),
        ),
        create_test_entry(
            "session-2",
            &today_morning.to_rfc3339(),
            Some("msg-2"),
            Some("req-2"),
            Some(200),
            Some(100),
        ),
        create_test_entry(
            "session-3",
            &today_afternoon.to_rfc3339(),
            Some("msg-3"),
            Some("req-3"),
            Some(150),
            Some(75),
        ),
    ];

    let snapshot = MergedUsageSnapshot { all_entries: entries };

    let today_entries = snapshot.today_entries(ns(today_start));
    assert_eq!(today_entries.len(), 2);

    for entry in today_entries {
        let timestamp = entry.data.timestamp.as_ref().unwrap();
        assert!(timestamp >= &today_start.to_rfc3339());
    }
    let each = |i: i128, o: i128| i * 300 + o * 1500;
    assert_eq!(
        snapshot.today_cost(ns(today_start)).value(),
        each(200, 100) + each(150, 75)
    );
    assert_eq!(
        MergedUsageSnapshot::today_start(ns(today_start)),
        Some(millis_text(today_start))
    );
}

#[test]
fn test_merged_usage_snapshot_session_cost() {
    let entries = vec![
        create_test_entry(
            "session-1",
            "2024-01-15T10:00:00.000Z",
            Some("msg-1"),
            Some("req-1"),
            Some(100),
            Some(50),
        ),
        create_test_entry(
            "session-1",
            "2024-01-15T10:30:00.000Z",
            Some("msg-2"),
            Some("req-2"),
            Some(200),
            Some(100),
        ),
        create_test_entry(
            "session-2",
            "2024-01-15T11:00:00.000Z",
            Some("msg-3"),
            Some("req-3"),
            Some(150),
            Some(75),
        ),
    ];

    let snapshot = MergedUsageSnapshot { all_entries: entries };

    let session1_cost = snapshot.session_cost(&SessionId::from("session-1"));
    let session2_cost = snapshot.session_cost(&SessionId::from("session-2"));
    let session3_cost = snapshot.session_cost(&SessionId::from("session-3"));

    assert!(session1_cost.value() > 0);
    assert!(session2_cost.value() > 0);
    assert_eq!(session3_cost.value(), 0);
    assert_eq!(session1_cost.value(), 300 * 300 + 150 * 1500);
    assert_eq!(session2_cost.value(), 150 * 300 + 75 * 1500);
}

#[test]
fn test_merged_usage_snapshot_preprocess_entries() {
    let entries = vec![
        create_test_entry(
            "session-1",
            "2024-01-15T10:00:00.000Z",
            Some("msg-1"),
            Some("req-1"),
            Some(100),
            Some(50),
        ),
        create_test_entry(
            "session-1",
            "2024-01-15T10:30:00.000Z",
            Some("msg-1"),
            Some("req-1"),
            Some(100),
            Some(50),
        ),
        create_test_entry(
            "session-1",
            "2024-01-15T11:00:00.000Z",
            Some("msg-2"),
            Some("req-2"),
            Some(200),
            Some(100),
        ),
    ];

    let snapshot = MergedUsageSnapshot { all_entries: entries };

    let processed = snapshot.preprocess_entries();

    assert_eq!(processed.len(), 2);

    for (timestamp, _) in &processed {
        assert!(DateTime::from_timestamp(timestamp.secs, timestamp.nanos).unwrap().year() == 2024);
    }
    assert_eq!(processed[0].0.secs, 1_705_312_800);
    assert_eq!(processed[1].0.secs, 1_705_316_400);
    assert_eq!(processed[1].0.nanos, 0);
    assert_eq!(preprocess(&snapshot.all_entries).len(), 2);
}

#[test]
fn test_merged_usage_snapshot_session_blocks() {
    let base_time = Utc.with_ymd_and_hms(2024, 1, 15, 10, 0, 0).unwrap();

    let entries = vec![
        create_test_entry(
            "session-1",
            &base_time.to_rfc3339(),
            Some("msg-1"),
            Some("req-1"),
            Some(100),
            Some(50),
        ),
        create_test_entry(
            "session-1",
            &(base_time + Duration::hours(2)).to_rfc3339(),
            Some("msg-2"),
            Some("req-2"),
            Some(200),
            Some(100),
        ),
        create_test_entry(
            "session-1",
            &(base_time + Duration::hours(8)).to_rfc3339(),
            Some("msg-3"),
            Some("req-3"),
            Some(150),
            Some(75),
        ),
    ];

    let snapshot = MergedUsageSnapshot { all_entries: entries };

    let blocks = snapshot.session_blocks();

    assert!(blocks.len() >= 2);
    assert_eq!(blocks.len(), 3);

    let has_idle = blocks.iter().any(|b| b.is_idle());
    assert!(has_idle, "Should have an idle block between sessions");
}

#[test]
fn test_merged_usage_snapshot_active_block() {
    let now = Utc::now();
    let recent_time = now - Duration::minutes(30);

    let entries = vec![
        create_test_entry(
            "session-1",
            &recent_time.to_rfc3339(),
            Some("msg-1"),
            Some("req-1"),
            Some(100),
            Some(50),
        ),
        create_test_entry(
            "session-1",
            &(recent_time + Duration::minutes(10)).to_rfc3339(),
            Some("msg-2"),
            Some("req-2"),
            Some(200),
            Some(100),
        ),
    ];

    let snapshot = MergedUsageSnapshot { all_entries: entries };

    let active_block = snapshot.active_block();
    assert!(active_block.is_some());

    let block = active_block.unwrap();
    assert!(block.is_active());
    assert_eq!(block.entries().len(), 2);
}

#[test]
fn test_merged_usage_snapshot_empty() {
    let snapshot = MergedUsageSnapshot { all_entries: vec![] };

    assert_eq!(snapshot.today_entries(0).len(), 0);
    assert_eq!(snapshot.today_cost(0).value(), 0);
    assert_eq!(snapshot.session_cost(&SessionId::from("any")).value(), 0);
    assert!(snapshot.active_block().is_none());
    assert_eq!(snapshot.session_blocks().len(), 0);
}

#[test]
fn test_session_blocks_with_exact_5_hour_gap() {
    let base_time = Utc.with_ymd_and_hms(2024, 1, 15, 10, 0, 0).unwrap();

    let entries = vec![
        create_test_entry(
            "session-1",
            &base_time.to_rfc3339(),
            Some("msg-1"),
            Some("req-1"),
            Some(100),
            Some(50),
        ),
        create_test_entry(
            "session-1",
            &(base_time + Duration::hours(5)).to_rfc3339(),
            Some("msg-2"),
            Some("req-2"),
            Some(200),
            Some(100),
        ),
    ];

    let snapshot = MergedUsageSnapshot { all_entries: entries };

    let blocks = snapshot.session_blocks();

    assert!(blocks.len() >= 1);
    assert_eq!(blocks.len(), 1);
}

#[test]
fn active_block_at_a_given_time() {
    let base = Utc.with_ymd_and_hms(2024, 1, 15, 10, 20, 0).unwrap();
    let entries = vec![
        create_test_entry("s", &base.to_rfc3339(), Some("m1"), Some("r1"), Some(1), None),
        create_test_entry(
            "s",
            &(base + Duration::hours(7)).to_rfc3339(),
            Some("m2"),
            Some("r2"),
            Some(1),
            None,
        ),
    ];
    let snapshot = MergedUsageSnapshot { all_entries: entries };
    let at = |hours: i64| snapshot.active_block_at(ns((base + Duration::hours(hours))));
    let late = at(8).unwrap();
    assert_eq!(
        late.end_time(),
        ns(Utc.with_ymd_and_hms(2024, 1, 15, 17, 0, 0).unwrap()) + 18_000_000_000_000
    );
    assert_eq!(late.entries().len(), 1);
    assert!(at(13).is_none());
    assert_eq!(snapshot.session_blocks_at(ns(base)).len(), 3);
}

#[test]
fn entries_since_bisects_on_the_timestamp_text() {
    let texts = [
        "2024-01-14T23:59:59.999Z",
        "2024-01-15T00:00:00.000Z",
        "2024-01-15T00:00:00.000Z",
        "2024-01-15T08:00:00.000Z",
    ];
    let mut entries: Vec<Arc<UsageEntry>> =
        texts.iter().map(|t| create_test_entry("s", t, None, None, Some(1), None)).collect();
    let mut without = (*entries[0]).clone();
    without.data.timestamp = None;
    entries.insert(0, Arc::new(without));
    let snapshot = MergedUsageSnapshot { all_entries: entries };
    assert_eq!(snapshot.first_since("2024-01-15T00:00:00.000Z"), 2);
    assert_eq!(snapshot.entries_since("2024-01-15T00:00:00.000Z").len(), 3);
    assert_eq!(snapshot.first_since(""), 0);
    assert_eq!(snapshot.first_since("2023"), 1);
    assert_eq!(snapshot.first_since("2025"), 5);
    assert_eq!(snapshot.cost_since("2024-01-15T08:00:00.000Z").value(), 300);
    assert!(entry_before(&snapshot.all_entries[0], "x"));
    assert!(!entry_before(&snapshot.all_entries[0], ""));
}

#[test]
fn merge_sorts_by_timestamp_and_keeps_ties_in_order() {
    let e = |session: &str, t: &str| create_test_entry(session, t, None, None, None, None);
    let mut none = (*e("n", "x")).clone();
    none.data.timestamp = None;
    let parts = vec![
        vec![e("a", "2024-01-15T10:00:00.000Z"), e("b", "2024-01-14T10:00:00.000Z")],
        vec![],
        vec![e("c", "2024-01-15T10:00:00.000Z"), Arc::new(none), e("d", "2024-01-15T09:00:00.000Z")],
    ];
    let snapshot = merge_snapshot(&parts);
    let order: Vec<String> =
        snapshot.all_entries.iter().map(|x| x.session_id.as_str().to_string()).collect();
    assert_eq!(order, vec!["n", "b", "d", "a", "c"]);
}
