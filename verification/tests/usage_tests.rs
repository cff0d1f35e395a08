use load_balancer::usage::{UsageKey, UsageRecord, UsageTracker, UsageWriter};

fn requests_for(records: &[(UsageKey, UsageRecord)], minute_ts: i64) -> Option<u64> {
    records
        .iter()
        .find(|(k, _)| k.minute_ts == minute_ts)
        .map(|(_, r)| r.total_requests)
}

#[test]
fn test_usage_tracker_record_increments_counts() {
    let mut tracker = UsageTracker::new();

    tracker.record(1, 10, 100, 1024, 1000);
    tracker.record(1, 10, 100, 2048, 1001);
    tracker.record(1, 10, 100, 512, 1002);

    let records = tracker.drain_all();
    assert_eq!(records.len(), 1);

    let (key, record) = &records[0];
    assert_eq!(key.account_id, 1);
    assert_eq!(key.key_id, 10);
    assert_eq!(key.plan_id, 100);
    assert_eq!(key.minute_ts, 960);
    assert_eq!(record.total_requests, 3);
    assert_eq!(record.total_data_bytes, 1024 + 2048 + 512);
}

#[test]
fn test_usage_tracker_minute_bucketing() {
    let mut tracker = UsageTracker::new();

    tracker.record(1, 10, 100, 100, 60);
    tracker.record(1, 10, 100, 100, 119);
    tracker.record(1, 10, 100, 100, 120);
    tracker.record(1, 10, 100, 100, 180);

    let records = tracker.drain_all();
    assert_eq!(records.len(), 3);

    assert_eq!(requests_for(&records, 60), Some(2));
    assert_eq!(requests_for(&records, 120), Some(1));
    assert_eq!(requests_for(&records, 180), Some(1));
}

#[test]
fn test_drain_hour() {
    let mut tracker = UsageTracker::new();

    tracker.record(1, 10, 100, 100, 0);
    tracker.record(1, 10, 100, 100, 1800);
    tracker.record(1, 10, 100, 100, 3599);

    tracker.record(1, 10, 100, 100, 3600);
    tracker.record(1, 10, 100, 100, 7199);

    let hour0_records = tracker.drain_hour(0);
    assert_eq!(hour0_records.len(), 3);

    let hour1_records = tracker.drain_hour(3600);
    assert_eq!(hour1_records.len(), 2);

    let remaining = tracker.drain_all();
    assert!(remaining.is_empty());
}

#[test]
fn test_usage_writer_creates_db_with_schema() {
    let mut tracker = UsageTracker::new();
    let writer = UsageWriter::new("usage".to_string());

    tracker.record(1, 10, 100, 1024 * 1024, 3600);

    let batch = writer.flush_hour(&mut tracker, 3600).expect("one batch");
    assert_eq!(batch.filename, "usage-1970010101.db");
    assert_eq!(batch.rows.len(), 1);

    let (key, record) = &batch.rows[0];
    assert_eq!(key.account_id, 1);
    assert_eq!(key.key_id, 10);
    assert_eq!(key.plan_id, 100);
    assert_eq!(record.total_requests, 1);
    assert_eq!(record.total_data_bytes, 1024 * 1024);
}

#[test]
fn test_flush_all_groups_by_hour() {
    let mut tracker = UsageTracker::new();
    let writer = UsageWriter::new("usage".to_string());

    tracker.record(1, 10, 100, 100, 0);
    tracker.record(1, 10, 100, 100, 3600);

    let batches = writer.flush_all(&mut tracker);
    let count: usize = batches.iter().map(|b| b.rows.len()).sum();
    assert_eq!(count, 2);

    let mut filenames: Vec<&str> = batches.iter().map(|b| b.filename.as_str()).collect();
    filenames.sort();
    assert_eq!(filenames, vec!["usage-1970010100.db", "usage-1970010101.db"]);
}

#[test]
fn flush_hour_of_empty_hour_is_none() {
    let mut tracker = UsageTracker::new();
    let writer = UsageWriter::new("usage".to_string());
    tracker.record(1, 10, 100, 100, 7200);
    assert!(writer.flush_hour(&mut tracker, 3600).is_none());
    assert_eq!(tracker.drain_all().len(), 1);
}

#[test]
fn tick_flushes_each_elapsed_hour_once() {
    let mut tracker = UsageTracker::new();
    let mut writer = UsageWriter::new("usage".to_string());

    tracker.record(1, 10, 100, 50, 3700);

    // First tick only arms the schedule.
    assert!(writer.tick(&mut tracker, 3700).is_none());
    // Same hour: nothing to flush yet.
    assert!(writer.tick(&mut tracker, 3800).is_none());
    // The clock left hour 3600: its records are flushed exactly once.
    let batch = writer.tick(&mut tracker, 7300).expect("one batch");
    assert_eq!(batch.hour_ts, 3600);
    assert_eq!(batch.rows.len(), 1);
    assert!(writer.tick(&mut tracker, 7400).is_none());
}

#[test]
fn usage_on_shutdown_sums_requests() {
    let mut tracker = UsageTracker::new();
    tracker.set_output_dir("usage".to_string());
    let writer = UsageWriter::new("usage".to_string());

    let now: i64 = 1_700_000_000;
    tracker.record(1, 10, 100, 10, now);
    tracker.record(1, 10, 100, 20, now + 1);
    tracker.record(1, 10, 100, 30, now + 61);

    let batches = writer.flush_all(&mut tracker);
    assert_eq!(batches.len(), 1);
    let total: u64 = batches[0].rows.iter().map(|(_, r)| r.total_requests).sum();
    assert_eq!(total, 3);
}
