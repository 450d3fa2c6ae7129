use airdrop::telemetry::{average_bps, duration_millis, transfer_key, RateSample, TransferTelemetry, TransferTracker};

const MS: u64 = 1_000_000;

fn start(tracker: &mut TransferTracker, id: &str, device: &str, direction: &str, kind: &str, total: u64, now: u64) -> String {
    tracker.start_transfer(id, device, direction, kind, total, format!("2026-07-13T00:00:{:02}Z", now / 1_000_000_000), now)
}

#[test]
fn transfer_history_keeps_completed_metrics() {
    let mut telemetry = TransferTracker::new();
    let key = start(&mut telemetry, "transfer-1", "peer-1", "upload", "files", 100, 0);
    telemetry.update_transfer(&key, 60, 300 * MS);
    telemetry.finish_transfer(&key, true, Some("已发送".into()), "2026-07-13T00:00:01Z".into(), 500 * MS);
    let snapshot = telemetry.snapshot(600 * MS);
    assert_eq!(snapshot.len(), 1);
    assert_eq!(snapshot[0].transferred_bytes, 100);
    assert_eq!(snapshot[0].status, "success");
}

#[test]
fn failed_transfer_preserves_partial_progress() {
    let mut telemetry = TransferTracker::new();
    let key = start(&mut telemetry, "transfer-2", "peer-2", "download", "image", 200, 0);
    telemetry.update_transfer(&key, 75, 300 * MS);
    telemetry.finish_transfer(&key, false, Some("连接中断".into()), "2026-07-13T00:00:01Z".into(), 500 * MS);
    let snapshot = telemetry.snapshot(600 * MS);
    assert_eq!(snapshot[0].transferred_bytes, 75);
    assert_eq!(snapshot[0].status, "failed");
}

#[test]
fn repeated_logical_transfer_ids_get_independent_attempts() {
    let mut telemetry = TransferTracker::new();
    let first = start(&mut telemetry, "transfer-3", "peer-3", "upload", "files", 100, 0);
    let second = start(&mut telemetry, "transfer-3", "peer-3", "upload", "files", 100, 1_000 * MS);
    assert_ne!(first, second);
    let snapshot = telemetry.snapshot(2_000 * MS);
    assert_eq!(snapshot.len(), 2);
    assert_ne!(snapshot[0].attempt_id, snapshot[1].attempt_id);
}

#[test]
fn resume_baseline_is_not_counted_as_current_attempt_throughput() {
    let mut telemetry = TransferTracker::new();
    let key = start(&mut telemetry, "transfer-4", "peer-4", "download", "files", 1_000, 0);
    telemetry.set_transfer_baseline(&key, 1_000, 10 * MS);
    telemetry.finish_transfer(&key, true, Some("文件已存在".into()), "2026-07-13T00:00:01Z".into(), 20 * MS);
    let snapshot = telemetry.snapshot(30 * MS);
    assert_eq!(snapshot[0].transferred_bytes, 1_000);
    assert_eq!(snapshot[0].average_bps, 0);
}

#[test]
fn unconfirmed_delivery_is_not_reported_as_success() {
    let mut telemetry = TransferTracker::new();
    let key = start(&mut telemetry, "transfer-5", "peer-5", "upload", "text", 20, 0);
    telemetry.update_transfer(&key, 20, 5 * MS);
    telemetry.finish_unconfirmed(&key, Some("旧版本不支持回执".into()), "2026-07-13T00:00:01Z".into(), 10 * MS);
    let snapshot = telemetry.snapshot(20 * MS);
    assert_eq!(snapshot[0].status, "sent");
    assert_eq!(snapshot[0].transferred_bytes, 20);
}

#[test]
fn transfer_keys_name_direction_device_id_and_attempt() {
    assert_eq!(transfer_key("t-1", "peer", "upload", 42), "upload:peer:t-1:42");
    let mut telemetry = TransferTracker::new();
    let key = start(&mut telemetry, "t-1", "peer", "upload", "files", 10, 0);
    assert_eq!(key, "upload:peer:t-1:1");
    assert_eq!(telemetry.next_attempt_id(), 1);
}

#[test]
fn progress_is_capped_monotone_and_sampled() {
    let mut telemetry = TransferTracker::new();
    let key = start(&mut telemetry, "t", "peer", "upload", "files", 1_000, 0);
    // Too soon after the start: no sample.
    assert_eq!(telemetry.update_transfer(&key, 100, 100 * MS), None);
    // The interval has passed since the last sample (the start).
    assert_eq!(
        telemetry.update_transfer(&key, 400, 300 * MS),
        Some(RateSample { bytes: 400, elapsed_nanos: 300 * MS })
    );
    // Progress does not go back.
    assert_eq!(telemetry.update_transfer(&key, 50, 700 * MS), None);
    assert_eq!(telemetry.active()[0].view.transferred_bytes, 400);
    // Completion is sampled at once, and progress stops at the size.
    assert_eq!(
        telemetry.update_transfer(&key, 5_000, 710 * MS),
        Some(RateSample { bytes: 600, elapsed_nanos: 410 * MS })
    );
    assert_eq!(telemetry.active()[0].view.transferred_bytes, 1_000);
    assert_eq!(telemetry.active()[0].session_transferred_bytes, 1_000);
    telemetry.set_transfer_speed(&key, 1_234);
    let live = telemetry.snapshot(1_000 * MS);
    assert_eq!(live[0].speed_bps, 1_234);
    assert_eq!(live[0].duration_ms, 1_000);
    assert_eq!(live[0].average_bps, 1_000);
    // A stale sample shows no speed.
    let stale = telemetry.snapshot(2_710 * MS);
    assert_eq!(stale[0].speed_bps, 0);
    // Unknown keys change nothing.
    assert_eq!(telemetry.update_transfer("missing", 10, 3_000 * MS), None);
    assert!(telemetry.finish_transfer("missing", true, None, "x".into(), 0).is_none());
}

#[test]
fn network_and_confirmation_durations_split_the_total() {
    let mut telemetry = TransferTracker::new();
    let key = start(&mut telemetry, "t", "peer", "upload", "text", 10, 1_000 * MS);
    telemetry.update_transfer(&key, 10, 1_100 * MS);
    telemetry.mark_network_complete(&key, 1_400 * MS);
    // Only the first mark counts.
    telemetry.mark_network_complete(&key, 1_900 * MS);
    telemetry.set_remote_processing(&key, Some(7));
    let done: TransferTelemetry = telemetry
        .finish_transfer(&key, true, Some("ok".into()), "2026-07-13T00:00:02Z".into(), 2_000 * MS)
        .unwrap();
    assert_eq!(done.duration_ms, 1_000);
    assert_eq!(done.network_duration_ms, Some(400));
    assert_eq!(done.confirmation_duration_ms, Some(600));
    assert_eq!(done.remote_processing_ms, Some(7));
    assert_eq!(done.speed_bps, 0);
    assert_eq!(done.average_bps, 10);
    assert_eq!(done.completed_at.as_deref(), Some("2026-07-13T00:00:02Z"));
    assert!(telemetry.active().is_empty());
}

#[test]
fn history_keeps_ten_newest_per_device_and_snapshot_orders_by_time() {
    let mut telemetry = TransferTracker::new();
    for n in 0..12u64 {
        let key = start(&mut telemetry, &format!("t{n}"), "peer-a", "upload", "text", 1, n * 1_000 * MS);
        telemetry.finish_transfer(&key, true, None, format!("2026-07-13T00:01:{n:02}Z"), n * 1_000 * MS + MS);
    }
    let key = start(&mut telemetry, "b", "peer-b", "download", "text", 1, 0);
    telemetry.finish_transfer(&key, false, None, "2026-07-13T00:00:30Z".into(), MS);
    assert_eq!(telemetry.recent().len(), 2);
    assert_eq!(telemetry.recent()[0].transfers.len(), 10);
    assert_eq!(telemetry.recent()[0].transfers[0].id, "t11");
    assert_eq!(telemetry.recent()[0].transfers[9].id, "t2");
    let older = start(&mut telemetry, "old", "peer-c", "upload", "text", 5, 0);
    let newer = start(&mut telemetry, "new", "peer-c", "upload", "text", 5, 5_000 * MS);
    let snapshot = telemetry.snapshot(6_000 * MS);
    assert_eq!(snapshot.len(), 13);
    assert_eq!(snapshot[0].id, "new");
    assert_eq!(snapshot[1].id, "old");
    assert_eq!(snapshot[2].id, "t11");
    assert_eq!(snapshot[12].id, "b");
    assert!(older != newer);
}

#[test]
fn restored_history_skips_active_records_and_advances_attempt_ids() {
    let mut telemetry = TransferTracker::new();
    let mut records = Vec::new();
    for (n, status) in [(5u64, "success"), (9, "active"), (3, "failed")] {
        let key = start(&mut telemetry, &format!("r{n}"), "peer", "upload", "text", 1, 0);
        let mut done = telemetry.finish_transfer(&key, true, None, "2026-07-13T00:00:00Z".into(), MS).unwrap();
        done.attempt_id = n;
        done.status = status.to_string();
        records.push(done);
    }
    let mut restored = TransferTracker::new();
    restored.restore_history(&records);
    assert_eq!(restored.next_attempt_id(), 5);
    assert_eq!(restored.recent().len(), 1);
    let ids: Vec<&str> = restored.recent()[0].transfers.iter().map(|t| t.id.as_str()).collect();
    assert_eq!(ids, vec!["r5", "r3"]);
    let key = start(&mut restored, "next", "peer", "upload", "text", 1, 0);
    assert_eq!(key, "upload:peer:next:6");
}

#[test]
fn durations_and_rates_round_as_specified() {
    assert_eq!(duration_millis(12), 12);
    assert_eq!(duration_millis(u128::MAX), u64::MAX);
    assert_eq!(average_bps(500, 0), 500);
    assert_eq!(average_bps(1_000, 1_000_000_000), 1_000);
    assert_eq!(average_bps(1, 400_000_000), 3);
    assert_eq!(average_bps(1, 3_000_000_000), 0);
    assert_eq!(average_bps(u64::MAX, 1), u64::MAX);
}
