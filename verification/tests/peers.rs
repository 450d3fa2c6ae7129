use airdrop::peers::{ConnectionCounters, PeerSample, PeerTracker};

fn counters(tx: u64, rx: u64, sent: u64, lost: u64) -> ConnectionCounters {
    ConnectionCounters { tx_bytes: tx, rx_bytes: rx, sent_packets: sent, lost_packets: lost }
}

#[test]
fn samples_add_byte_totals_and_keep_ten_loss_samples() {
    let mut peers = PeerTracker::new();
    peers.mark_connected("peer-1".into(), 7, 12, counters(100, 50, 10, 0), "t0".into(), 0);
    let view = &peers.peers()[0].view;
    assert!(view.connected);
    assert_eq!(view.rtt_ms, Some(12));
    assert_eq!(view.connected_at.as_deref(), Some("t0"));
    assert_eq!(view.reconnect_count, 0);
    let sample = peers.sample_connection("peer-1", 7, 15, counters(400, 80, 30, 2), "t1".into(), 1_000_000_000);
    assert_eq!(
        sample,
        Some(PeerSample { tx_bytes: 300, rx_bytes: 30, elapsed_nanos: 1_000_000_000, window_sent: 20, window_lost: 2 })
    );
    assert_eq!(peers.peers()[0].view.total_uploaded_bytes, 300);
    assert_eq!(peers.peers()[0].view.total_downloaded_bytes, 30);
    assert_eq!(peers.peers()[0].view.last_activity_at.as_deref(), Some("t1"));
    // No bytes moved: activity stays.
    peers.sample_connection("peer-1", 7, 15, counters(400, 80, 30, 2), "t2".into(), 2_000_000_000);
    assert_eq!(peers.peers()[0].view.last_activity_at.as_deref(), Some("t1"));
    for n in 0..12u64 {
        peers.sample_connection("peer-1", 7, 15, counters(400, 80, 31 + n, 2), "t".into(), 3_000_000_000 + n);
    }
    assert_eq!(peers.peers()[0].loss_window.len(), 10);
    // A sample on another connection or for an unknown peer changes nothing.
    assert_eq!(peers.sample_connection("peer-1", 8, 1, counters(0, 0, 0, 0), "x".into(), 0), None);
    assert_eq!(peers.sample_connection("peer-2", 7, 1, counters(0, 0, 0, 0), "x".into(), 0), None);
    peers.set_peer_rates("peer-1", 1, 2, 3, 4);
    assert_eq!(peers.peers()[0].view.recent_download_bps, 4);
}

#[test]
fn reconnects_keep_totals_and_count_unexpected_disconnects() {
    let mut peers = PeerTracker::new();
    peers.mark_connected("peer-1".into(), 1, 5, counters(0, 0, 0, 0), "t0".into(), 0);
    peers.sample_connection("peer-1", 1, 5, counters(100, 200, 1, 0), "t1".into(), 10);
    peers.mark_disconnected("peer-1", 1, "closed".into(), "network lost".into(), false, "t2".into());
    let view = &peers.peers()[0].view;
    assert!(!view.connected);
    assert_eq!(view.rtt_ms, None);
    assert_eq!(view.connected_at, None);
    assert_eq!(view.unexpected_disconnect_count, 1);
    assert_eq!(view.last_disconnect_reason.as_deref(), Some("network lost"));
    // A second close of the same connection is ignored.
    peers.mark_disconnected("peer-1", 1, "closed".into(), "again".into(), false, "t3".into());
    assert_eq!(peers.peers()[0].view.unexpected_disconnect_count, 1);
    peers.mark_connected("peer-1".into(), 2, 6, counters(0, 0, 0, 0), "t4".into(), 20);
    peers.mark_disconnected("peer-1", 2, "app".into(), "quit".into(), true, "t5".into());
    let view = &peers.peers()[0].view;
    assert_eq!(view.reconnect_count, 1);
    assert_eq!(view.total_uploaded_bytes, 100);
    assert_eq!(view.total_downloaded_bytes, 200);
    assert_eq!(view.unexpected_disconnect_count, 1);
    assert!(view.last_disconnect_planned);
    assert_eq!(peers.peers().len(), 1);
}

#[test]
fn peer_snapshots_are_ordered_by_device_id() {
    let mut peers = PeerTracker::new();
    for id in ["peer-c", "peer-a", "peer-b"] {
        peers.mark_connected(id.to_string(), 1, 1, counters(0, 0, 0, 0), "t".into(), 0);
    }
    let ids: Vec<String> = peers.peer_snapshot().into_iter().map(|p| p.device_id).collect();
    assert_eq!(ids, vec!["peer-a".to_string(), "peer-b".to_string(), "peer-c".to_string()]);
}
