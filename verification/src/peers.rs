//! Connection telemetry of each peer: connects and reconnects, planned and
//! unexpected disconnects, byte totals and the recent packet-loss window,
//! from counters the connection reports. Rates and loss percentages, which
//! need floating point, are computed by the caller from the samples taken
//! here and handed back.

use vstd::prelude::*;
use vstd::string::*;
use vstd::utf8::encode_utf8;
use crate::order::{sort_by_key, sorted_by_key, SortKey};
use crate::telemetry::{sat_add, sat_sub};
use crate::text::str_equal;

verus! {

/// Loss samples kept per peer.
pub const LOSS_WINDOW_SAMPLES: usize = 10;

/// The counters of a connection that the telemetry reads.
#[derive(Clone, Copy, Debug, PartialEq, Eq, Structural)]
pub struct ConnectionCounters {
    pub tx_bytes: u64,
    pub rx_bytes: u64,
    pub sent_packets: u64,
    pub lost_packets: u64,
}

/// What the interface shows of a peer's connection.
pub struct PeerTelemetry {
    pub device_id: String,
    pub connected: bool,
    pub rtt_ms: Option<u64>,
    pub upload_bps: u64,
    pub download_bps: u64,
    pub recent_upload_bps: u64,
    pub recent_download_bps: u64,
    pub total_uploaded_bytes: u64,
    pub total_downloaded_bytes: u64,
    pub connected_at: Option<String>,
    pub last_activity_at: Option<String>,
    pub reconnect_count: u32,
    pub last_disconnect_reason: Option<String>,
    pub last_disconnect_code: Option<String>,
    pub last_disconnected_at: Option<String>,
    pub last_disconnect_planned: bool,
    pub unexpected_disconnect_count: u32,
}

fn clone_text(o: &Option<String>) -> (c: Option<String>)
    ensures
        c == *o,
{
    match o {
        Some(s) => Some(s.clone()),
        None => None,
    }
}

impl Clone for PeerTelemetry {
    fn clone(&self) -> (copy: Self)
        ensures
            copy == *self,
    {
        PeerTelemetry {
            device_id: self.device_id.clone(),
            connected: self.connected,
            rtt_ms: self.rtt_ms,
            upload_bps: self.upload_bps,
            download_bps: self.download_bps,
            recent_upload_bps: self.recent_upload_bps,
            recent_download_bps: self.recent_download_bps,
            total_uploaded_bytes: self.total_uploaded_bytes,
            total_downloaded_bytes: self.total_downloaded_bytes,
            connected_at: clone_text(&self.connected_at),
            last_activity_at: clone_text(&self.last_activity_at),
            reconnect_count: self.reconnect_count,
            last_disconnect_reason: clone_text(&self.last_disconnect_reason),
            last_disconnect_code: clone_text(&self.last_disconnect_code),
            last_disconnected_at: clone_text(&self.last_disconnected_at),
            last_disconnect_planned: self.last_disconnect_planned,
            unexpected_disconnect_count: self.unexpected_disconnect_count,
        }
    }
}

impl SortKey for PeerTelemetry {
    open spec fn key(&self) -> Seq<u8> {
        encode_utf8(self.device_id@)
    }

    fn key_bytes(&self) -> (bytes: &[u8]) {
        self.device_id.as_str().as_bytes()
    }
}

/// A peer's telemetry with what the next sample is measured against.
pub struct PeerState {
    pub view: PeerTelemetry,
    pub connection_id: u64,
    pub last: ConnectionCounters,
    pub last_sampled_nanos: u64,
    /// Packets sent and lost in each recent sample, oldest first.
    pub loss_window: Vec<(u64, u64)>,
    pub connected_before: bool,
}

/// The telemetry of all peers.
pub struct PeerTracker {
    peers: Vec<PeerState>,
}

/// No peer appears twice.
pub open spec fn peers_ok(s: Seq<PeerState>) -> bool {
    forall|i: int, j: int| 0 <= i < j < s.len() ==> (#[trigger] s[i]).view.device_id@ != (#[trigger] s[j]).view.device_id@
}

/// The index of this device's telemetry.
#[verifier::opaque]
pub open spec fn peer_index(s: Seq<PeerState>, device_id: Seq<char>) -> Option<int> {
    if exists|i: int| 0 <= i < s.len() && (#[trigger] s[i]).view.device_id@ == device_id {
        Some(choose|i: int| 0 <= i < s.len() && (#[trigger] s[i]).view.device_id@ == device_id)
    } else {
        None
    }
}

/// `a + b`, or `u32::MAX` where that overflows.
pub open spec fn sat_add_u32(a: u32, b: u32) -> u32 {
    if a + b <= u32::MAX { (a + b) as u32 } else { u32::MAX }
}

/// What a peer shows once connected: carried over from its previous
/// connection are the totals, the last disconnect and the count of
/// unexpected ones; a reconnect is counted; rates start at zero.
pub open spec fn connected_view(
    previous: Option<PeerState>,
    device_id: String,
    rtt_ms: u64,
    now: String,
) -> PeerTelemetry {
    PeerTelemetry {
        device_id,
        connected: true,
        rtt_ms: Some(rtt_ms),
        upload_bps: 0,
        download_bps: 0,
        recent_upload_bps: 0,
        recent_download_bps: 0,
        total_uploaded_bytes: match previous { Some(p) => p.view.total_uploaded_bytes, None => 0 },
        total_downloaded_bytes: match previous { Some(p) => p.view.total_downloaded_bytes, None => 0 },
        connected_at: Some(now),
        last_activity_at: Some(now),
        reconnect_count: match previous {
            Some(p) => sat_add_u32(p.view.reconnect_count, if p.connected_before { 1 } else { 0 }),
            None => 0,
        },
        last_disconnect_reason: match previous { Some(p) => p.view.last_disconnect_reason, None => None },
        last_disconnect_code: match previous { Some(p) => p.view.last_disconnect_code, None => None },
        last_disconnected_at: match previous { Some(p) => p.view.last_disconnected_at, None => None },
        last_disconnect_planned: match previous { Some(p) => p.view.last_disconnect_planned, None => false },
        unexpected_disconnect_count: match previous { Some(p) => p.view.unexpected_disconnect_count, None => 0 },
    }
}

/// What a peer shows once disconnected.
pub open spec fn disconnected_view(v: PeerTelemetry, code: String, reason: String, planned: bool, at: String) -> PeerTelemetry {
    PeerTelemetry {
        connected: false,
        rtt_ms: None,
        upload_bps: 0,
        download_bps: 0,
        recent_upload_bps: 0,
        recent_download_bps: 0,
        connected_at: None,
        last_disconnect_code: Some(code),
        last_disconnect_reason: Some(reason),
        last_disconnected_at: Some(at),
        last_disconnect_planned: planned,
        unexpected_disconnect_count: if planned { v.unexpected_disconnect_count } else { sat_add_u32(v.unexpected_disconnect_count, 1) },
        ..v
    }
}

/// What one sample measured: bytes each way and packets sent and lost since
/// the last sample, the nanoseconds between, and the loss window's totals.
#[derive(Clone, Copy, Debug, PartialEq, Eq, Structural)]
pub struct PeerSample {
    pub tx_bytes: u64,
    pub rx_bytes: u64,
    pub elapsed_nanos: u64,
    pub window_sent: u64,
    pub window_lost: u64,
}

/// The loss window after a sample: the last ten.
pub open spec fn window_after(w: Seq<(u64, u64)>, sample: (u64, u64)) -> Seq<(u64, u64)> {
    let p = w.push(sample);
    if p.len() > LOSS_WINDOW_SAMPLES { p.skip(p.len() - LOSS_WINDOW_SAMPLES) } else { p }
}

/// Packets sent over the window, added from the oldest, saturating.
pub open spec fn window_sent(w: Seq<(u64, u64)>) -> u64
    decreases w.len(),
{
    if w.len() == 0 { 0 } else { sat_add(window_sent(w.drop_last()), w.last().0) }
}

/// Packets lost over the window, added from the oldest, saturating.
pub open spec fn window_lost(w: Seq<(u64, u64)>) -> u64
    decreases w.len(),
{
    if w.len() == 0 { 0 } else { sat_add(window_lost(w.drop_last()), w.last().1) }
}

/// A sample of a connected peer on the connection it is connected on.
pub open spec fn sampled(old: PeerState, new: PeerState, rtt_ms: u64, c: ConnectionCounters, now: String, now_nanos: u64) -> bool {
    let tx = sat_sub(c.tx_bytes, old.last.tx_bytes);
    let rx = sat_sub(c.rx_bytes, old.last.rx_bytes);
    &&& new.view == (PeerTelemetry {
        connected: true,
        rtt_ms: Some(rtt_ms),
        total_uploaded_bytes: sat_add(old.view.total_uploaded_bytes, tx),
        total_downloaded_bytes: sat_add(old.view.total_downloaded_bytes, rx),
        last_activity_at: if tx > 0 || rx > 0 { Some(now) } else { old.view.last_activity_at },
        ..old.view
    })
    &&& new.loss_window@ == window_after(old.loss_window@, (sat_sub(c.sent_packets, old.last.sent_packets),
        sat_sub(c.lost_packets, old.last.lost_packets)))
    &&& new.last == c
    &&& new.last_sampled_nanos == now_nanos
    &&& new.connection_id == old.connection_id
    &&& new.connected_before == old.connected_before
}

/// The sample handed to the caller.
pub open spec fn sample_of(old: PeerState, new: PeerState, c: ConnectionCounters, now_nanos: u64) -> PeerSample {
    PeerSample {
        tx_bytes: sat_sub(c.tx_bytes, old.last.tx_bytes),
        rx_bytes: sat_sub(c.rx_bytes, old.last.rx_bytes),
        elapsed_nanos: sat_sub(now_nanos, old.last_sampled_nanos),
        window_sent: window_sent(new.loss_window@),
        window_lost: window_lost(new.loss_window@),
    }
}

/// Only entry `i` differs.
pub open spec fn changed_only(old: Seq<PeerState>, new: Seq<PeerState>, i: int) -> bool {
    &&& new.len() == old.len()
    &&& 0 <= i < old.len()
    &&& forall|j: int| 0 <= j < old.len() && j != i ==> new[j] == old[j]
    &&& new[i].view.device_id == old[i].view.device_id
}

/// The peer `device_id` is tracked on this connection and connected.
pub open spec fn live_on(s: Seq<PeerState>, device_id: Seq<char>, connection_id: u64) -> bool {
    peer_index(s, device_id) matches Some(i) && s[i].connection_id == connection_id && s[i].view.connected
}

proof fn lemma_peer_index_is(s: Seq<PeerState>, device_id: Seq<char>, i: int)
    requires
        peers_ok(s),
        0 <= i < s.len(),
        s[i].view.device_id@ == device_id,
    ensures
        peer_index(s, device_id) == Some(i),
{
    reveal(peer_index);
    let c = choose|c: int| 0 <= c < s.len() && (#[trigger] s[c]).view.device_id@ == device_id;
    if c != i {
        if c < i {
            assert(s[c].view.device_id@ != s[i].view.device_id@);
        } else {
            assert(s[i].view.device_id@ != s[c].view.device_id@);
        }
    }
}

proof fn lemma_peer_index_none(s: Seq<PeerState>, device_id: Seq<char>)
    requires
        forall|i: int| 0 <= i < s.len() ==> (#[trigger] s[i]).view.device_id@ != device_id,
    ensures
        peer_index(s, device_id) is None,
{
    reveal(peer_index);
}

proof fn lemma_changed_only_ok(old: Seq<PeerState>, new: Seq<PeerState>, i: int)
    requires
        peers_ok(old),
        changed_only(old, new, i),
    ensures
        peers_ok(new),
{
    assert forall|a: int, b: int| 0 <= a < b < new.len() implies (#[trigger] new[a]).view.device_id@ != (#[trigger] new[b]).view.device_id@ by {
        assert(old[a].view.device_id@ != old[b].view.device_id@);
    }
}

fn loss_totals(w: &Vec<(u64, u64)>) -> (totals: (u64, u64))
    ensures
        totals == (window_sent(w@), window_lost(w@)),
{
    let mut sent: u64 = 0;
    let mut lost: u64 = 0;
    let mut i: usize = 0;
    while i < w.len()
        invariant
            i <= w@.len(),
            sent == window_sent(w@.take(i as int)),
            lost == window_lost(w@.take(i as int)),
        decreases w@.len() - i,
    {
        proof {
            let t = w@.take(i + 1);
            assert(t.drop_last() =~= w@.take(i as int));
            assert(t.last() == w@[i as int]);
        }
        sent = sent.saturating_add(w[i].0);
        lost = lost.saturating_add(w[i].1);
        i = i + 1;
    }
    proof {
        assert(w@.take(w@.len() as int) =~= w@);
    }
    (sent, lost)
}

impl PeerTracker {
    /// The tracked peers, in the order they were first seen.
    pub closed spec fn states(&self) -> Seq<PeerState> {
        self.peers@
    }

    /// The tracked peers, in the order they were first seen.
    pub fn peers(&self) -> (states: &Vec<PeerState>)
        ensures
            states@ == self.states(),
    {
        &self.peers
    }

    /// No peers.
    pub fn new() -> (t: PeerTracker)
        ensures
            t.states().len() == 0,
            peers_ok(t.states()),
    {
        PeerTracker { peers: Vec::new() }
    }

    fn find_peer(&self, device_id: &str) -> (index: Option<usize>)
        requires
            peers_ok(self.peers@),
        ensures
            match index {
                Some(i) => i < self.peers@.len() && peer_index(self.peers@, device_id@) == Some(i as int),
                None => peer_index(self.peers@, device_id@) is None,
            },
    {
        let mut i: usize = 0;
        while i < self.peers.len()
            invariant
                i <= self.peers@.len(),
                peers_ok(self.peers@),
                forall|j: int| 0 <= j < i ==> (#[trigger] self.peers@[j]).view.device_id@ != device_id@,
            decreases self.peers@.len() - i,
        {
            if str_equal(self.peers[i].view.device_id.as_str(), device_id) {
                proof {
                    lemma_peer_index_is(self.peers@, device_id@, i as int);
                }
                return Some(i);
            }
            i = i + 1;
        }
        proof {
            lemma_peer_index_none(self.peers@, device_id@);
        }
        None
    }

    /// A peer connected on `connection_id`: its telemetry starts afresh,
    /// measured from `counters`, carrying over totals and disconnect history
    /// and counting a reconnect.
    pub fn mark_connected(
        &mut self,
        device_id: String,
        connection_id: u64,
        rtt_ms: u64,
        counters: ConnectionCounters,
        now: String,
        now_nanos: u64,
    )
        requires
            peers_ok(old(self).states()),
        ensures
            peers_ok(final(self).states()),
            final(self).states().len() > 0,
            ({
                let index = peer_index(old(self).states(), device_id@);
                let previous = match index {
                    Some(i) => Some(old(self).states()[i]),
                    None => None,
                };
                let p = final(self).states().last();
                &&& final(self).states().drop_last() == match index {
                    Some(i) => old(self).states().remove(i),
                    None => old(self).states(),
                }
                &&& p.view == connected_view(previous, device_id, rtt_ms, now)
                &&& p.connection_id == connection_id
                &&& p.last == counters
                &&& p.last_sampled_nanos == now_nanos
                &&& p.loss_window@.len() == 0
                &&& p.connected_before
            }),
    {
        let ghost before = self.peers@;
        let previous = match self.find_peer(device_id.as_str()) {
            Some(i) => {
                proof {
                    reveal(peer_index);
                }
                Some(self.peers.remove(i))
            },
            None => None,
        };
        let ghost middle = self.peers@;
        let view = match &previous {
            Some(p) => PeerTelemetry {
                device_id,
                connected: true,
                rtt_ms: Some(rtt_ms),
                upload_bps: 0,
                download_bps: 0,
                recent_upload_bps: 0,
                recent_download_bps: 0,
                total_uploaded_bytes: p.view.total_uploaded_bytes,
                total_downloaded_bytes: p.view.total_downloaded_bytes,
                connected_at: Some(now.clone()),
                last_activity_at: Some(now),
                reconnect_count: p.view.reconnect_count.saturating_add(if p.connected_before { 1 } else { 0 }),
                last_disconnect_reason: clone_text(&p.view.last_disconnect_reason),
                last_disconnect_code: clone_text(&p.view.last_disconnect_code),
                last_disconnected_at: clone_text(&p.view.last_disconnected_at),
                last_disconnect_planned: p.view.last_disconnect_planned,
                unexpected_disconnect_count: p.view.unexpected_disconnect_count,
            },
            None => PeerTelemetry {
                device_id,
                connected: true,
                rtt_ms: Some(rtt_ms),
                upload_bps: 0,
                download_bps: 0,
                recent_upload_bps: 0,
                recent_download_bps: 0,
                total_uploaded_bytes: 0,
                total_downloaded_bytes: 0,
                connected_at: Some(now.clone()),
                last_activity_at: Some(now),
                reconnect_count: 0,
                last_disconnect_reason: None,
                last_disconnect_code: None,
                last_disconnected_at: None,
                last_disconnect_planned: false,
                unexpected_disconnect_count: 0,
            },
        };
        proof {
            let prev_spec = match peer_index(before, device_id@) {
                Some(i) => Some(before[i]),
                None => None,
            };
            assert(previous == prev_spec);
            assert(view == connected_view(prev_spec, device_id, rtt_ms, now));
            assert forall|j: int| 0 <= j < middle.len() implies (#[trigger] middle[j]).view.device_id@ != device_id@ by {
                reveal(peer_index);
                match peer_index(before, device_id@) {
                    Some(i) => {
                        let jj = if j < i { j } else { j + 1 };
                        assert(middle[j] == before[jj]);
                        assert(before[jj].view.device_id@ != before[i].view.device_id@ || jj == i);
                        if jj < i {
                            assert(before[jj].view.device_id@ != before[i].view.device_id@);
                        } else {
                            assert(before[i].view.device_id@ != before[jj].view.device_id@);
                        }
                    },
                    None => {
                        assert(middle[j] == before[j]);
                    },
                }
            }
            assert forall|a: int, b: int| 0 <= a < b < middle.len() implies (#[trigger] middle[a]).view.device_id@ != (#[trigger] middle[b]).view.device_id@ by {
                match peer_index(before, device_id@) {
                    Some(i) => {
                        let aa = if a < i { a } else { a + 1 };
                        let bb = if b < i { b } else { b + 1 };
                        assert(middle[a] == before[aa] && middle[b] == before[bb]);
                    },
                    None => {},
                }
            }
        }
        self.peers.push(PeerState {
            view,
            connection_id,
            last: counters,
            last_sampled_nanos: now_nanos,
            loss_window: Vec::new(),
            connected_before: true,
        });
        proof {
            let s = self.peers@;
            assert(s.drop_last() =~= middle);
            assert forall|a: int, b: int| 0 <= a < b < s.len() implies (#[trigger] s[a]).view.device_id@ != (#[trigger] s[b]).view.device_id@ by {
                assert(s[a] == middle[a]);
                if b < middle.len() {
                    assert(s[b] == middle[b]);
                }
            }
        }
    }

    /// A peer's connection closed: where it is connected on that
    /// connection, it shows the disconnect, counting it when unplanned.
    pub fn mark_disconnected(
        &mut self,
        device_id: &str,
        connection_id: u64,
        code: String,
        reason: String,
        planned: bool,
        at: String,
    )
        requires
            peers_ok(old(self).states()),
        ensures
            peers_ok(final(self).states()),
            live_on(old(self).states(), device_id@, connection_id) ==> ({
                let i = peer_index(old(self).states(), device_id@)->0;
                &&& changed_only(old(self).states(), final(self).states(), i)
                &&& final(self).states()[i].view == disconnected_view(old(self).states()[i].view, code, reason, planned, at)
                &&& final(self).states()[i].connection_id == old(self).states()[i].connection_id
                &&& final(self).states()[i].last == old(self).states()[i].last
                &&& final(self).states()[i].last_sampled_nanos == old(self).states()[i].last_sampled_nanos
                &&& final(self).states()[i].loss_window@ == old(self).states()[i].loss_window@
                &&& final(self).states()[i].connected_before == old(self).states()[i].connected_before
            }),
            !live_on(old(self).states(), device_id@, connection_id) ==> final(self).states() == old(self).states(),
    {
        let i = match self.find_peer(device_id) {
            Some(i) => i,
            None => return,
        };
        if self.peers[i].connection_id != connection_id || !self.peers[i].view.connected {
            return;
        }
        let ghost before = self.peers@;
        let mut p = self.peers.remove(i);
        p.view.connected = false;
        p.view.rtt_ms = None;
        p.view.upload_bps = 0;
        p.view.download_bps = 0;
        p.view.recent_upload_bps = 0;
        p.view.recent_download_bps = 0;
        p.view.connected_at = None;
        p.view.last_disconnect_code = Some(code);
        p.view.last_disconnect_reason = Some(reason);
        p.view.last_disconnected_at = Some(at);
        p.view.last_disconnect_planned = planned;
        if !planned {
            p.view.unexpected_disconnect_count = p.view.unexpected_disconnect_count.saturating_add(1);
        }
        self.peers.insert(i, p);
        proof {
            assert(self.peers@ =~= before.update(i as int, p));
            lemma_changed_only_ok(before, self.peers@, i as int);
        }
    }

    /// Samples a peer connected on `connection_id`: byte totals grow by the
    /// bytes since the last sample, the loss window takes the packets since
    /// then, and activity is noted when bytes moved. Returns the sample, for
    /// the caller to turn into rates and a loss percentage.
    pub fn sample_connection(
        &mut self,
        device_id: &str,
        connection_id: u64,
        rtt_ms: u64,
        counters: ConnectionCounters,
        now: String,
        now_nanos: u64,
    ) -> (sample: Option<PeerSample>)
        requires
            peers_ok(old(self).states()),
        ensures
            peers_ok(final(self).states()),
            live_on(old(self).states(), device_id@, connection_id) ==> ({
                let i = peer_index(old(self).states(), device_id@)->0;
                &&& changed_only(old(self).states(), final(self).states(), i)
                &&& sampled(old(self).states()[i], final(self).states()[i], rtt_ms, counters, now, now_nanos)
                &&& sample == Some(sample_of(old(self).states()[i], final(self).states()[i], counters, now_nanos))
            }),
            !live_on(old(self).states(), device_id@, connection_id) ==> final(self).states() == old(self).states() && sample is None,
    {
        let i = match self.find_peer(device_id) {
            Some(i) => i,
            None => return None,
        };
        if self.peers[i].connection_id != connection_id || !self.peers[i].view.connected {
            return None;
        }
        let ghost before = self.peers@;
        let mut p = self.peers.remove(i);
        let ghost old_p = p;
        let elapsed = now_nanos.saturating_sub(p.last_sampled_nanos);
        let tx = counters.tx_bytes.saturating_sub(p.last.tx_bytes);
        let rx = counters.rx_bytes.saturating_sub(p.last.rx_bytes);
        let sent = counters.sent_packets.saturating_sub(p.last.sent_packets);
        let lost = counters.lost_packets.saturating_sub(p.last.lost_packets);
        p.loss_window.push((sent, lost));
        let ghost pushed = p.loss_window@;
        while p.loss_window.len() > LOSS_WINDOW_SAMPLES
            invariant
                pushed.len() >= p.loss_window@.len(),
                p.loss_window@ == pushed.skip(pushed.len() - p.loss_window@.len()),
                pushed.len() > LOSS_WINDOW_SAMPLES ==> p.loss_window@.len() >= LOSS_WINDOW_SAMPLES,
                pushed.len() <= LOSS_WINDOW_SAMPLES ==> p.loss_window@ == pushed,
                p.view == old_p.view,
                p.last == old_p.last,
                p.last_sampled_nanos == old_p.last_sampled_nanos,
                p.connection_id == old_p.connection_id,
                p.connected_before == old_p.connected_before,
            decreases p.loss_window@.len(),
        {
            p.loss_window.remove(0);
            proof {
                assert(p.loss_window@ =~= pushed.skip(pushed.len() - p.loss_window@.len()));
            }
        }
        proof {
            if pushed.len() <= LOSS_WINDOW_SAMPLES {
                assert(pushed.skip(0) =~= pushed);
            }
        }
        let (window_sent_total, window_lost_total) = loss_totals(&p.loss_window);
        p.view.connected = true;
        p.view.rtt_ms = Some(rtt_ms);
        p.view.total_uploaded_bytes = p.view.total_uploaded_bytes.saturating_add(tx);
        p.view.total_downloaded_bytes = p.view.total_downloaded_bytes.saturating_add(rx);
        if tx > 0 || rx > 0 {
            p.view.last_activity_at = Some(now);
        }
        p.last = counters;
        p.last_sampled_nanos = now_nanos;
        let sample = PeerSample {
            tx_bytes: tx,
            rx_bytes: rx,
            elapsed_nanos: elapsed,
            window_sent: window_sent_total,
            window_lost: window_lost_total,
        };
        proof {
            assert(old_p == before[i as int]);
            assert(p.loss_window@ == window_after(old_p.loss_window@, (sent, lost)));
        }
        self.peers.insert(i, p);
        proof {
            assert(self.peers@ =~= before.update(i as int, p));
            lemma_changed_only_ok(before, self.peers@, i as int);
        }
        Some(sample)
    }

    /// Shows the rates the caller computed from a sample.
    pub fn set_peer_rates(
        &mut self,
        device_id: &str,
        upload_bps: u64,
        download_bps: u64,
        recent_upload_bps: u64,
        recent_download_bps: u64,
    )
        requires
            peers_ok(old(self).states()),
        ensures
            peers_ok(final(self).states()),
            match peer_index(old(self).states(), device_id@) {
                Some(i) => {
                    let p = old(self).states()[i];
                    &&& changed_only(old(self).states(), final(self).states(), i)
                    &&& final(self).states()[i].view == (PeerTelemetry {
                        upload_bps, download_bps, recent_upload_bps, recent_download_bps, ..p.view
                    })
                    &&& final(self).states()[i].connection_id == p.connection_id
                    &&& final(self).states()[i].last == p.last
                    &&& final(self).states()[i].last_sampled_nanos == p.last_sampled_nanos
                    &&& final(self).states()[i].loss_window@ == p.loss_window@
                    &&& final(self).states()[i].connected_before == p.connected_before
                },
                None => final(self).states() == old(self).states(),
            },
    {
        let i = match self.find_peer(device_id) {
            Some(i) => i,
            None => return,
        };
        let ghost before = self.peers@;
        let mut p = self.peers.remove(i);
        p.view.upload_bps = upload_bps;
        p.view.download_bps = download_bps;
        p.view.recent_upload_bps = recent_upload_bps;
        p.view.recent_download_bps = recent_download_bps;
        self.peers.insert(i, p);
        proof {
            assert(self.peers@ =~= before.update(i as int, p));
            lemma_changed_only_ok(before, self.peers@, i as int);
        }
    }

    /// What the interface shows of the peers, ordered by device id.
    pub fn peer_snapshot(&self) -> (views: Vec<PeerTelemetry>)
        ensures
            views@.to_multiset() == Seq::new(self.states().len(), |i: int| self.states()[i].view).to_multiset(),
            sorted_by_key(views@),
    {
        let mut views: Vec<PeerTelemetry> = Vec::new();
        let mut i: usize = 0;
        while i < self.peers.len()
            invariant
                i <= self.peers@.len(),
                views@ == Seq::new(i as nat, |k: int| self.peers@[k].view),
            decreases self.peers@.len() - i,
        {
            views.push(self.peers[i].view.clone());
            proof {
                assert(views@ =~= Seq::new((i + 1) as nat, |k: int| self.peers@[k].view));
            }
            i = i + 1;
        }
        sort_by_key(&mut views);
        views
    }
}

} // verus!
