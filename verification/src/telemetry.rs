//! Transfer telemetry: each transfer attempt's progress, its completion
//! into a per-device history of recent transfers, and the snapshot the
//! interface shows. Clock readings come in as monotonic nanoseconds; rate
//! smoothing, which needs floating point, stays with the caller, who hands
//! back the smoothed speed.

use vstd::prelude::*;
use vstd::string::*;
use crate::files::{decimal, push_decimal, lemma_decimal_injective};
use crate::text::{push_char, str_equal};
use crate::order::{bytes_less, seq_lt, lemma_lt_total, lemma_lt_transitive, lemma_lt_asymmetric};
use vstd::utf8::encode_utf8;

verus! {

broadcast use vstd::seq_lib::group_to_multiset_ensures, vstd::seq_lib::to_multiset_remove,
    vstd::seq_lib::to_multiset_insert;

/// Completed transfers kept per device.
pub const RECENT_TRANSFERS_PER_DEVICE: usize = 10;

/// Completed transfers shown in a snapshot.
pub const RECENT_TRANSFER_SNAPSHOT_LIMIT: usize = 200;

/// Progress arriving sooner than this after the last rate sample is not
/// sampled (unless the transfer is complete).
pub const RATE_SAMPLE_INTERVAL_NANOS: u64 = 250_000_000;

/// A transfer whose last rate sample is this old shows no speed.
pub const RATE_STALE_AFTER_NANOS: u64 = 2_000_000_000;

/// What the interface shows of one transfer attempt.
pub struct TransferTelemetry {
    pub id: String,
    pub attempt_id: u64,
    pub device_id: String,
    pub direction: String,
    pub kind: String,
    pub total_bytes: u64,
    pub transferred_bytes: u64,
    pub started_at: String,
    pub completed_at: Option<String>,
    pub duration_ms: u64,
    pub network_duration_ms: Option<u64>,
    pub confirmation_duration_ms: Option<u64>,
    pub remote_processing_ms: Option<u64>,
    pub speed_bps: u64,
    pub average_bps: u64,
    pub status: String,
    pub message: Option<String>,
}

impl Clone for TransferTelemetry {
    fn clone(&self) -> (copy: Self)
        ensures
            copy == *self,
    {
        TransferTelemetry {
            id: self.id.clone(),
            attempt_id: self.attempt_id,
            device_id: self.device_id.clone(),
            direction: self.direction.clone(),
            kind: self.kind.clone(),
            total_bytes: self.total_bytes,
            transferred_bytes: self.transferred_bytes,
            started_at: self.started_at.clone(),
            completed_at: match &self.completed_at {
                Some(c) => Some(c.clone()),
                None => None,
            },
            duration_ms: self.duration_ms,
            network_duration_ms: self.network_duration_ms,
            confirmation_duration_ms: self.confirmation_duration_ms,
            remote_processing_ms: self.remote_processing_ms,
            speed_bps: self.speed_bps,
            average_bps: self.average_bps,
            status: self.status.clone(),
            message: match &self.message {
                Some(m) => Some(m.clone()),
                None => None,
            },
        }
    }
}

/// `{direction}:{device_id}:{id}:{attempt_id}`.
pub open spec fn transfer_key_text(id: Seq<char>, device_id: Seq<char>, direction: Seq<char>, attempt_id: u64) -> Seq<char> {
    direction + seq![':'] + device_id + seq![':'] + id + seq![':'] + decimal(attempt_id as nat)
}

/// The key of one transfer attempt.
pub fn transfer_key(id: &str, device_id: &str, direction: &str, attempt_id: u64) -> (key: String)
    ensures
        key@ == transfer_key_text(id@, device_id@, direction@, attempt_id),
{
    let mut key = String::from_str(direction);
    push_char(&mut key, ':');
    key.append(device_id);
    push_char(&mut key, ':');
    key.append(id);
    push_char(&mut key, ':');
    push_decimal(&mut key, attempt_id);
    proof {
        assert(key@ =~= transfer_key_text(id@, device_id@, direction@, attempt_id));
    }
    key
}

/// Attempts with different attempt ids have different keys, whatever their
/// transfer id, device and direction.
pub proof fn lemma_attempt_keys_differ(id: Seq<char>, device_id: Seq<char>, direction: Seq<char>, a: u64, b: u64)
    requires
        a != b,
    ensures
        transfer_key_text(id, device_id, direction, a) != transfer_key_text(id, device_id, direction, b),
{
    let prefix = direction + seq![':'] + device_id + seq![':'] + id + seq![':'];
    let ka = transfer_key_text(id, device_id, direction, a);
    let kb = transfer_key_text(id, device_id, direction, b);
    assert(ka =~= prefix + decimal(a as nat));
    assert(kb =~= prefix + decimal(b as nat));
    if ka == kb {
        assert(ka.skip(prefix.len() as int) =~= decimal(a as nat));
        assert(kb.skip(prefix.len() as int) =~= decimal(b as nat));
        lemma_decimal_injective(a as nat, b as nat);
    }
}

/// Milliseconds as a `u64`, saturating.
pub fn duration_millis(millis: u128) -> (capped: u64)
    ensures
        capped == if millis <= u64::MAX { millis as u64 } else { u64::MAX },
{
    if millis <= 0xffff_ffff_ffff_ffffu128 {
        millis as u64
    } else {
        u64::MAX
    }
}

/// Whole milliseconds in a span of nanoseconds.
pub open spec fn millis_of(nanos: u64) -> u64 {
    (nanos / 1_000_000) as u64
}

/// The average rate of `bytes` over `nanos` nanoseconds, in bytes per
/// second rounded to the nearest (halves up); `bytes` itself over no time.
pub open spec fn average_rate(bytes: u64, nanos: u64) -> int {
    if nanos == 0 {
        bytes as int
    } else {
        (bytes * 2_000_000_000 + nanos) / (2 * nanos)
    }
}

/// The average rate, saturating at `u64::MAX`.
pub open spec fn capped_rate(bytes: u64, nanos: u64) -> u64 {
    if average_rate(bytes, nanos) <= u64::MAX {
        average_rate(bytes, nanos) as u64
    } else {
        u64::MAX
    }
}

/// The average rate, saturating at `u64::MAX`.
pub fn average_bps(bytes: u64, nanos: u64) -> (rate: u64)
    ensures
        rate == capped_rate(bytes, nanos),
{
    if nanos == 0 {
        return bytes;
    }
    let numerator: u128 = (bytes as u128) * 2_000_000_000u128 + (nanos as u128);
    let denominator: u128 = 2u128 * (nanos as u128);
    let rate: u128 = numerator / denominator;
    if rate <= 0xffff_ffff_ffff_ffffu128 {
        rate as u64
    } else {
        u64::MAX
    }
}


/// `a - b`, or 0 where `b > a`.
pub open spec fn sat_sub(a: u64, b: u64) -> u64 {
    if a >= b { (a - b) as u64 } else { 0 }
}

/// `a + b`, or `u64::MAX` where that overflows.
pub open spec fn sat_add(a: u64, b: u64) -> u64 {
    if a + b <= u64::MAX { (a + b) as u64 } else { u64::MAX }
}

/// A transfer in progress. Times are monotonic clock readings in
/// nanoseconds.
pub struct ActiveTransfer {
    pub key: String,
    pub view: TransferTelemetry,
    pub started_nanos: u64,
    pub last_progress_nanos: u64,
    pub last_progress_bytes: u64,
    pub session_transferred_bytes: u64,
    pub network_completed_nanos: Option<u64>,
}

/// The recent completed transfers of one device, newest first.
pub struct DeviceHistory {
    pub device_id: String,
    pub transfers: Vec<TransferTelemetry>,
}

/// All transfer telemetry.
pub struct TransferTracker {
    active: Vec<ActiveTransfer>,
    recent: Vec<DeviceHistory>,
    next_attempt_id: u64,
}

/// No key is active twice, and no transfer has moved more bytes than it has.
pub open spec fn active_ok(s: Seq<ActiveTransfer>) -> bool {
    &&& forall|i: int, j: int| 0 <= i < j < s.len() ==> (#[trigger] s[i]).key@ != (#[trigger] s[j]).key@
    &&& forall|i: int| 0 <= i < s.len() ==> (#[trigger] s[i]).view.transferred_bytes <= s[i].view.total_bytes
}

/// Each device has one history of at most ten of its own transfers.
pub open spec fn recent_ok(s: Seq<DeviceHistory>) -> bool {
    &&& forall|i: int| 0 <= i < s.len() ==> (#[trigger] s[i]).transfers@.len() <= RECENT_TRANSFERS_PER_DEVICE
    &&& forall|i: int, j: int| 0 <= i < j < s.len() ==> (#[trigger] s[i]).device_id@ != (#[trigger] s[j]).device_id@
    &&& forall|i: int, k: int| 0 <= i < s.len() && 0 <= k < s[i].transfers@.len()
        ==> (#[trigger] s[i].transfers@[k]).device_id@ == s[i].device_id@
}

pub open spec fn tracker_valid(t: TransferTracker) -> bool {
    active_ok(t.active_transfers()) && recent_ok(t.recent_histories())
}

/// The index of the active transfer with this key.
#[verifier::opaque]
pub open spec fn active_index(s: Seq<ActiveTransfer>, key: Seq<char>) -> Option<int> {
    if exists|i: int| 0 <= i < s.len() && (#[trigger] s[i]).key@ == key {
        Some(choose|i: int| 0 <= i < s.len() && (#[trigger] s[i]).key@ == key)
    } else {
        None
    }
}

proof fn lemma_active_index_is(s: Seq<ActiveTransfer>, key: Seq<char>, i: int)
    requires
        active_ok(s),
        0 <= i < s.len(),
        s[i].key@ == key,
    ensures
        active_index(s, key) == Some(i),
{
    reveal(active_index);
    let c = choose|c: int| 0 <= c < s.len() && (#[trigger] s[c]).key@ == key;
    if c != i {
        if c < i {
            assert(s[c].key@ != s[i].key@);
        } else {
            assert(s[i].key@ != s[c].key@);
        }
    }
}

proof fn lemma_active_index_none(s: Seq<ActiveTransfer>, key: Seq<char>)
    requires
        forall|i: int| 0 <= i < s.len() ==> (#[trigger] s[i]).key@ != key,
    ensures
        active_index(s, key) is None,
{
    reveal(active_index);
}

/// Replacing one transfer by another with the same key and consistent
/// counts keeps the active list valid.
proof fn lemma_update_active_ok(s: Seq<ActiveTransfer>, i: int, e: ActiveTransfer)
    requires
        active_ok(s),
        0 <= i < s.len(),
        e.key@ == s[i].key@,
        e.view.transferred_bytes <= e.view.total_bytes,
    ensures
        active_ok(s.update(i, e)),
{
    let u = s.update(i, e);
    assert forall|a: int, b: int| 0 <= a < b < u.len() implies (#[trigger] u[a]).key@ != (#[trigger] u[b]).key@ by {
        assert(s[a].key@ != s[b].key@);
    }
}

/// Removing a transfer keeps the active list valid.
proof fn lemma_remove_active_ok(s: Seq<ActiveTransfer>, i: int)
    requires
        active_ok(s),
        0 <= i < s.len(),
    ensures
        active_ok(s.remove(i)),
        forall|j: int| 0 <= j < s.remove(i).len() ==> (#[trigger] s.remove(i)[j]).key@ != s[i].key@,
{
    let r = s.remove(i);
    assert forall|a: int, b: int| 0 <= a < b < r.len() implies (#[trigger] r[a]).key@ != (#[trigger] r[b]).key@ by {
        let aa = if a < i { a } else { a + 1 };
        let bb = if b < i { b } else { b + 1 };
        assert(r[a] == s[aa] && r[b] == s[bb]);
    }
    assert forall|x: int| 0 <= x < r.len() implies (#[trigger] r[x]).view.transferred_bytes <= r[x].view.total_bytes by {
        let xx = if x < i { x } else { x + 1 };
        assert(r[x] == s[xx]);
    }
    assert forall|j: int| 0 <= j < r.len() implies (#[trigger] r[j]).key@ != s[i].key@ by {
        let jj = if j < i { j } else { j + 1 };
        assert(r[j] == s[jj]);
    }
}

/// The active list after a start: the transfer with the new key, if any,
/// replaced by the new one at the end.
pub open spec fn active_without(s: Seq<ActiveTransfer>, index: Option<int>) -> Seq<ActiveTransfer> {
    match index {
        Some(i) => s.remove(i),
        None => s,
    }
}

/// What a rate sample hands the caller: bytes moved since the last sample
/// and the nanoseconds that took.
#[derive(Clone, Copy, Debug, PartialEq, Eq, Structural)]
pub struct RateSample {
    pub bytes: u64,
    pub elapsed_nanos: u64,
}

/// A transfer resumed at `bytes` (at most its size): no speed yet, and the
/// resumed bytes are not counted as moved in this attempt.
pub open spec fn with_baseline(a: ActiveTransfer, bytes: u64, now: u64) -> ActiveTransfer {
    let b = if bytes <= a.view.total_bytes { bytes } else { a.view.total_bytes };
    ActiveTransfer {
        view: TransferTelemetry { transferred_bytes: b, speed_bps: 0, ..a.view },
        last_progress_nanos: now,
        last_progress_bytes: b,
        ..a
    }
}

/// Progress never goes back and never passes the size.
pub open spec fn progressed(a: ActiveTransfer, bytes: u64) -> u64 {
    let capped = if bytes <= a.view.total_bytes { bytes } else { a.view.total_bytes };
    if capped > a.view.transferred_bytes { capped } else { a.view.transferred_bytes }
}

/// A rate sample is taken when progress passed the last sample and either
/// the sample interval has passed or the transfer is complete.
pub open spec fn sample_due(a: ActiveTransfer, bytes: u64, now: u64) -> bool {
    let next = progressed(a, bytes);
    next > a.last_progress_bytes && (sat_sub(now, a.last_progress_nanos) >= RATE_SAMPLE_INTERVAL_NANOS
        || next == a.view.total_bytes)
}

/// A transfer after a progress report.
pub open spec fn with_progress(a: ActiveTransfer, bytes: u64, now: u64) -> ActiveTransfer {
    let next = progressed(a, bytes);
    let moved = ActiveTransfer {
        view: TransferTelemetry { transferred_bytes: next, ..a.view },
        session_transferred_bytes: sat_add(a.session_transferred_bytes, sat_sub(next, a.view.transferred_bytes)),
        ..a
    };
    if sample_due(a, bytes, now) {
        ActiveTransfer { last_progress_nanos: now, last_progress_bytes: next, ..moved }
    } else {
        moved
    }
}

/// The rate sample a progress report yields, if one is due.
pub open spec fn rate_sample(a: ActiveTransfer, bytes: u64, now: u64) -> Option<RateSample> {
    if sample_due(a, bytes, now) {
        Some(RateSample {
            bytes: sat_sub(progressed(a, bytes), a.last_progress_bytes),
            elapsed_nanos: sat_sub(now, a.last_progress_nanos),
        })
    } else {
        None
    }
}

/// A transfer showing a new speed.
pub open spec fn with_speed(a: ActiveTransfer, speed_bps: u64) -> ActiveTransfer {
    ActiveTransfer { view: TransferTelemetry { speed_bps, ..a.view }, ..a }
}

/// A transfer whose network part is complete: the first time it was marked.
pub open spec fn with_network_complete(a: ActiveTransfer, now: u64) -> ActiveTransfer {
    ActiveTransfer {
        network_completed_nanos: Some(match a.network_completed_nanos {
            Some(c) => c,
            None => now,
        }),
        ..a
    }
}

/// A transfer with the peer's reported processing time.
pub open spec fn with_remote_processing(a: ActiveTransfer, ms: Option<u64>) -> ActiveTransfer {
    ActiveTransfer { view: TransferTelemetry { remote_processing_ms: ms, ..a.view }, ..a }
}

proof fn lemma_reinsert<A>(s: Seq<A>, i: int, e: A)
    requires
        0 <= i < s.len(),
    ensures
        s.remove(i).insert(i, e) == s.update(i, e),
{
    assert(s.remove(i).insert(i, e) =~= s.update(i, e));
}

/// The histories as plain values: each device with its transfers.
pub open spec fn history_model(s: Seq<DeviceHistory>) -> Seq<(Seq<char>, Seq<TransferTelemetry>)> {
    Seq::new(s.len(), |i: int| (s[i].device_id@, s[i].transfers@))
}

/// The index of this device's history.
#[verifier::opaque]
pub open spec fn model_index(m: Seq<(Seq<char>, Seq<TransferTelemetry>)>, device: Seq<char>) -> Option<int> {
    if exists|i: int| 0 <= i < m.len() && (#[trigger] m[i]).0 == device {
        Some(choose|i: int| 0 <= i < m.len() && (#[trigger] m[i]).0 == device)
    } else {
        None
    }
}

proof fn lemma_model_index_is(s: Seq<DeviceHistory>, device: Seq<char>, j: int)
    requires
        recent_ok(s),
        0 <= j < s.len(),
        s[j].device_id@ == device,
    ensures
        model_index(history_model(s), device) == Some(j),
{
    reveal(model_index);
    let m = history_model(s);
    assert(m[j].0 == device);
    let c = choose|c: int| 0 <= c < m.len() && (#[trigger] m[c]).0 == device;
    if c != j {
        if c < j {
            assert(s[c].device_id@ != s[j].device_id@);
        } else {
            assert(s[j].device_id@ != s[c].device_id@);
        }
    }
}

proof fn lemma_model_index_none(s: Seq<DeviceHistory>, device: Seq<char>)
    requires
        forall|j: int| 0 <= j < s.len() ==> (#[trigger] s[j]).device_id@ != device,
    ensures
        model_index(history_model(s), device) is None,
{
    reveal(model_index);
    let m = history_model(s);
    assert forall|i: int| 0 <= i < m.len() implies (#[trigger] m[i]).0 != device by {
        assert(m[i].0 == s[i].device_id@);
    }
}

/// At most the first ten transfers.
pub open spec fn capped(s: Seq<TransferTelemetry>) -> Seq<TransferTelemetry> {
    if s.len() <= RECENT_TRANSFERS_PER_DEVICE { s } else { s.take(RECENT_TRANSFERS_PER_DEVICE as int) }
}

/// The histories after a completed transfer: first in its device's history.
pub open spec fn with_newest(
    m: Seq<(Seq<char>, Seq<TransferTelemetry>)>,
    t: TransferTelemetry,
) -> Seq<(Seq<char>, Seq<TransferTelemetry>)> {
    match model_index(m, t.device_id@) {
        Some(j) => m.update(j, (m[j].0, capped(seq![t] + m[j].1))),
        None => m.push((t.device_id@, seq![t])),
    }
}

/// The histories after a stored transfer is read back: last in its
/// device's history, if there is room.
pub open spec fn with_oldest(
    m: Seq<(Seq<char>, Seq<TransferTelemetry>)>,
    t: TransferTelemetry,
) -> Seq<(Seq<char>, Seq<TransferTelemetry>)> {
    match model_index(m, t.device_id@) {
        Some(j) => m.update(j, (m[j].0, capped(m[j].1.push(t)))),
        None => m.push((t.device_id@, seq![t])),
    }
}

/// Milliseconds from a transfer's start until its network part completed.
pub open spec fn network_ms(a: ActiveTransfer) -> Option<u64> {
    match a.network_completed_nanos {
        Some(c) => Some(millis_of(sat_sub(c, a.started_nanos))),
        None => None,
    }
}

/// The part of the duration spent waiting for confirmation.
pub open spec fn confirmation_ms(duration_ms: u64, network: Option<u64>) -> Option<u64> {
    match network {
        Some(n) => Some(sat_sub(duration_ms, n)),
        None => None,
    }
}

/// What a finished transfer shows: a completed one shows all its bytes,
/// another the bytes it had; durations and the average rate of this
/// attempt's bytes run to `now`.
pub open spec fn finished_view(
    a: ActiveTransfer,
    status: String,
    completed: bool,
    message: Option<String>,
    completed_at: String,
    now: u64,
) -> TransferTelemetry {
    let elapsed = sat_sub(now, a.started_nanos);
    let duration = millis_of(elapsed);
    TransferTelemetry {
        transferred_bytes: if completed { a.view.total_bytes } else { a.view.transferred_bytes },
        completed_at: Some(completed_at),
        duration_ms: duration,
        network_duration_ms: network_ms(a),
        confirmation_duration_ms: confirmation_ms(duration, network_ms(a)),
        speed_bps: 0,
        average_bps: capped_rate(a.session_transferred_bytes, elapsed),
        status,
        message,
        ..a.view
    }
}

/// Durations and average rate of a transfer at `now`.
fn timing(a: &ActiveTransfer, now: u64) -> (r: (u64, Option<u64>, Option<u64>, u64))
    ensures
        r.0 == millis_of(sat_sub(now, a.started_nanos)),
        r.1 == network_ms(*a),
        r.2 == confirmation_ms(r.0, r.1),
        r.3 == capped_rate(a.session_transferred_bytes, sat_sub(now, a.started_nanos)),
{
    let elapsed = now.saturating_sub(a.started_nanos);
    let duration = elapsed / 1_000_000;
    let network = match a.network_completed_nanos {
        Some(c) => Some(c.saturating_sub(a.started_nanos) / 1_000_000),
        None => None,
    };
    let confirmation = match network {
        Some(n) => Some(duration.saturating_sub(n)),
        None => None,
    };
    (duration, network, confirmation, average_bps(a.session_transferred_bytes, elapsed))
}

/// The histories after each stored transfer in turn is read back; stored
/// transfers still marked active are skipped.
pub open spec fn restored(
    m: Seq<(Seq<char>, Seq<TransferTelemetry>)>,
    records: Seq<TransferTelemetry>,
) -> Seq<(Seq<char>, Seq<TransferTelemetry>)>
    decreases records.len(),
{
    if records.len() == 0 {
        m
    } else {
        let before = restored(m, records.drop_last());
        if records.last().status@ == "active"@ {
            before
        } else {
            with_oldest(before, records.last())
        }
    }
}

/// The next attempt id after stored transfers are read back: at least the
/// attempt id of each one not marked active.
pub open spec fn restored_attempt_id(start: u64, records: Seq<TransferTelemetry>) -> u64
    decreases records.len(),
{
    if records.len() == 0 {
        start
    } else {
        let before = restored_attempt_id(start, records.drop_last());
        if records.last().status@ == "active"@ || records.last().attempt_id <= before {
            before
        } else {
            records.last().attempt_id
        }
    }
}

/// The two orders a snapshot lists transfers in.
#[derive(Clone, Copy, Debug, PartialEq, Eq, Structural)]
pub enum RankOrder {
    Started,
    Completed,
}

/// The bytes a transfer is ranked by: its start time, or its completion
/// time with "none" before any time (the order of `Option<String>`).
pub open spec fn rank(t: TransferTelemetry, order: RankOrder) -> Seq<u8> {
    match order {
        RankOrder::Started => encode_utf8(t.started_at@),
        RankOrder::Completed => match t.completed_at {
            None => Seq::empty(),
            Some(c) => seq![1u8] + encode_utf8(c@),
        },
    }
}

/// Latest first: no transfer ranks below one after it.
pub open spec fn newest_first(s: Seq<TransferTelemetry>, order: RankOrder) -> bool {
    forall|i: int, j: int| 0 <= i < j < s.len() ==> !seq_lt(rank(#[trigger] s[i], order), rank(#[trigger] s[j], order))
}

fn rank_less(a: &TransferTelemetry, b: &TransferTelemetry, order: RankOrder) -> (r: bool)
    ensures
        r == seq_lt(rank(*a, order), rank(*b, order)),
{
    match order {
        RankOrder::Started => bytes_less(a.started_at.as_str().as_bytes(), b.started_at.as_str().as_bytes()),
        RankOrder::Completed => match (&a.completed_at, &b.completed_at) {
            (None, None) => false,
            (None, Some(_)) => true,
            (Some(_), None) => false,
            (Some(x), Some(y)) => {
                let r = bytes_less(x.as_str().as_bytes(), y.as_str().as_bytes());
                proof {
                    let kx = seq![1u8] + encode_utf8(x@);
                    let ky = seq![1u8] + encode_utf8(y@);
                    assert(kx.drop_first() =~= encode_utf8(x@));
                    assert(ky.drop_first() =~= encode_utf8(y@));
                }
                r
            },
        },
    }
}

/// Sorts latest first (an insertion sort).
fn sort_newest_first(v: &mut Vec<TransferTelemetry>, order: RankOrder)
    ensures
        final(v)@.to_multiset() == old(v)@.to_multiset(),
        final(v)@.len() == old(v)@.len(),
        newest_first(final(v)@, order),
{
    let n = v.len();
    if n < 2 {
        return;
    }
    let mut i: usize = 1;
    while i < n
        invariant
            n == v@.len(),
            1 <= i <= n,
            v@.to_multiset() == old(v)@.to_multiset(),
            newest_first(v@.take(i as int), order),
        decreases n - i,
    {
        let ghost before = v@;
        let x = v.remove(i);
        let mut j: usize = i;
        while j > 0 && rank_less(&v[j - 1], &x, order)
            invariant
                v@ == before.remove(i as int),
                j <= i < n,
                v@.len() == n - 1,
                x == before[i as int],
                forall|k: int| j <= k < i ==> seq_lt(rank(#[trigger] v@[k], order), rank(x, order)),
                before.len() == n,
            decreases j,
        {
            j = j - 1;
        }
        let ghost removed = v@;
        v.insert(j, x);
        proof {
            let s = v@;
            let kx = rank(x, order);
            assert(s == removed.insert(j as int, x));
            assert forall|a: int, b: int| 0 <= a < b < i + 1 implies !seq_lt(
                rank(#[trigger] s.take(i + 1)[a], order),
                rank(#[trigger] s.take(i + 1)[b], order),
            ) by {
                assert(s.take(i + 1)[a] == s[a]);
                assert(s.take(i + 1)[b] == s[b]);
                let ka = rank(s[a], order);
                let kb = rank(s[b], order);
                if b < j {
                    assert(s[a] == before.take(i as int)[a]);
                    assert(s[b] == before.take(i as int)[b]);
                } else if b == j {
                    assert(s[a] == before.take(i as int)[a]);
                    let kp = rank(removed[j - 1], order);
                    assert(removed[j - 1] == before.take(i as int)[j - 1]);
                    assert(!seq_lt(kp, kx));
                    if a < j - 1 {
                        assert(!seq_lt(ka, kp));
                        lemma_lt_total(ka, kp);
                        lemma_lt_transitive(kp, ka, kx);
                    }
                } else if a == j {
                    assert(s[b] == removed[b - 1]);
                    assert(seq_lt(rank(removed[b - 1], order), kx));
                    lemma_lt_asymmetric(kb, kx);
                } else if a < j {
                    assert(s[a] == before.take(i as int)[a]);
                    assert(s[b] == before.take(i as int)[b - 1]);
                } else {
                    assert(s[a] == before.take(i as int)[a - 1]);
                    assert(s[b] == before.take(i as int)[b - 1]);
                }
            }
        }
        i = i + 1;
    }
    proof {
        assert(v@.take(n as int) =~= v@);
    }
}

/// What the interface shows of an active transfer at `now`: no speed once
/// the last rate sample is stale, durations and average rate so far.
pub open spec fn live_view(a: ActiveTransfer, now: u64) -> TransferTelemetry {
    let elapsed = sat_sub(now, a.started_nanos);
    let duration = millis_of(elapsed);
    TransferTelemetry {
        speed_bps: if sat_sub(now, a.last_progress_nanos) >= RATE_STALE_AFTER_NANOS { 0 } else { a.view.speed_bps },
        duration_ms: duration,
        network_duration_ms: network_ms(a),
        confirmation_duration_ms: confirmation_ms(duration, network_ms(a)),
        average_bps: capped_rate(a.session_transferred_bytes, elapsed),
        ..a.view
    }
}

pub open spec fn live_views(s: Seq<ActiveTransfer>, now: u64) -> Seq<TransferTelemetry> {
    Seq::new(s.len(), |i: int| live_view(s[i], now))
}

fn live_view_of(a: &ActiveTransfer, now: u64) -> (v: TransferTelemetry)
    ensures
        v == live_view(*a, now),
{
    let (duration, network, confirmation, average) = timing(a, now);
    let mut v = a.view.clone();
    if now.saturating_sub(a.last_progress_nanos) >= RATE_STALE_AFTER_NANOS {
        v.speed_bps = 0;
    }
    v.duration_ms = duration;
    v.network_duration_ms = network;
    v.confirmation_duration_ms = confirmation;
    v.average_bps = average;
    v
}

/// All histories' transfers, one device after another.
pub open spec fn flatten(m: Seq<(Seq<char>, Seq<TransferTelemetry>)>) -> Seq<TransferTelemetry>
    decreases m.len(),
{
    if m.len() == 0 {
        Seq::empty()
    } else {
        flatten(m.drop_last()) + m.last().1
    }
}

/// How many completed transfers a snapshot shows.
pub open spec fn shown_recent(m: Seq<(Seq<char>, Seq<TransferTelemetry>)>) -> int {
    let n = flatten(m).len() as int;
    if n <= RECENT_TRANSFER_SNAPSHOT_LIMIT { n } else { RECENT_TRANSFER_SNAPSHOT_LIMIT as int }
}

impl TransferTracker {
    /// The transfers under way, in the order they started.
    pub closed spec fn active_transfers(&self) -> Seq<ActiveTransfer> {
        self.active@
    }

    /// The finished transfers, one history per device.
    pub closed spec fn recent_histories(&self) -> Seq<DeviceHistory> {
        self.recent@
    }

    /// The attempt number the next transfer gets.
    pub closed spec fn next_attempt(&self) -> u64 {
        self.next_attempt_id
    }

    /// The transfers under way, in the order they started.
    pub fn active(&self) -> (active: &Vec<ActiveTransfer>)
        ensures
            active@ == self.active_transfers(),
    {
        &self.active
    }

    /// The finished transfers, one history per device.
    pub fn recent(&self) -> (recent: &Vec<DeviceHistory>)
        ensures
            recent@ == self.recent_histories(),
    {
        &self.recent
    }

    /// The attempt number the next transfer gets.
    pub fn next_attempt_id(&self) -> (id: u64)
        ensures
            id == self.next_attempt(),
    {
        self.next_attempt_id
    }

    /// No transfers.
    pub fn new() -> (t: TransferTracker)
        ensures
            t.active_transfers().len() == 0,
            t.recent_histories().len() == 0,
            t.next_attempt() == 0,
            tracker_valid(t),
    {
        TransferTracker { active: Vec::new(), recent: Vec::new(), next_attempt_id: 0 }
    }

    fn find_active(&self, key: &str) -> (index: Option<usize>)
        requires
            active_ok(self.active@),
        ensures
            match index {
                Some(i) => i < self.active@.len() && active_index(self.active@, key@) == Some(i as int),
                None => active_index(self.active@, key@) is None,
            },
    {
        let mut i: usize = 0;
        while i < self.active.len()
            invariant
                i <= self.active@.len(),
                active_ok(self.active@),
                forall|j: int| 0 <= j < i ==> (#[trigger] self.active@[j]).key@ != key@,
            decreases self.active@.len() - i,
        {
            if str_equal(self.active[i].key.as_str(), key) {
                proof {
                    lemma_active_index_is(self.active@, key@, i as int);
                }
                return Some(i);
            }
            i = i + 1;
        }
        proof {
            lemma_active_index_none(self.active@, key@);
        }
        None
    }

    /// Starts an attempt and returns its key; each attempt gets the next
    /// attempt id (saturating at `u64::MAX`). An active attempt with the same
    /// key is replaced.
    pub fn start_transfer(
        &mut self,
        id: &str,
        device_id: &str,
        direction: &str,
        kind: &str,
        total_bytes: u64,
        started_at: String,
        now: u64,
    ) -> (key: String)
        requires
            tracker_valid(*old(self)),
        ensures
            tracker_valid(*final(self)),
            final(self).next_attempt() == sat_add(old(self).next_attempt(), 1),
            key@ == transfer_key_text(id@, device_id@, direction@, final(self).next_attempt()),
            final(self).recent_histories() == old(self).recent_histories(),
            final(self).active_transfers().len() > 0,
            final(self).active_transfers().drop_last() == active_without(old(self).active_transfers(), active_index(old(self).active_transfers(), key@)),
            active_index(final(self).active_transfers(), key@) == Some(final(self).active_transfers().len() - 1),
            ({
                let a = final(self).active_transfers().last();
                &&& a.key@ == key@
                &&& a.view.id@ == id@ && a.view.device_id@ == device_id@
                &&& a.view.direction@ == direction@ && a.view.kind@ == kind@
                &&& a.view.attempt_id == final(self).next_attempt()
                &&& a.view.total_bytes == total_bytes && a.view.transferred_bytes == 0
                &&& a.view.started_at == started_at && a.view.completed_at is None
                &&& a.view.duration_ms == 0 && a.view.network_duration_ms is None
                &&& a.view.confirmation_duration_ms is None && a.view.remote_processing_ms is None
                &&& a.view.speed_bps == 0 && a.view.average_bps == 0
                &&& a.view.status@ == "active"@ && a.view.message is None
                &&& a.started_nanos == now && a.last_progress_nanos == now
                &&& a.last_progress_bytes == 0 && a.session_transferred_bytes == 0
                &&& a.network_completed_nanos is None
            }),
    {
        let attempt_id = self.next_attempt_id.saturating_add(1);
        let key = transfer_key(id, device_id, direction, attempt_id);
        let view = TransferTelemetry {
            id: String::from_str(id),
            attempt_id,
            device_id: String::from_str(device_id),
            direction: String::from_str(direction),
            kind: String::from_str(kind),
            total_bytes,
            transferred_bytes: 0,
            started_at,
            completed_at: None,
            duration_ms: 0,
            network_duration_ms: None,
            confirmation_duration_ms: None,
            remote_processing_ms: None,
            speed_bps: 0,
            average_bps: 0,
            status: String::from_str("active"),
            message: None,
        };
        let entry = ActiveTransfer {
            key: key.clone(),
            view,
            started_nanos: now,
            last_progress_nanos: now,
            last_progress_bytes: 0,
            session_transferred_bytes: 0,
            network_completed_nanos: None,
        };
        let found = self.find_active(key.as_str());
        let ghost before = self.active@;
        match found {
            Some(i) => {
                proof {
                    reveal(active_index);
                    lemma_remove_active_ok(before, i as int);
                }
                self.active.remove(i);
            },
            None => {
                proof {
                    reveal(active_index);
                    assert forall|j: int| 0 <= j < before.len() implies (#[trigger] before[j]).key@ != key@ by {
                        if before[j].key@ == key@ {
                            assert(exists|i: int| 0 <= i < before.len() && (#[trigger] before[i]).key@ == key@);
                        }
                    }
                }
            },
        }
        let ghost middle = self.active@;
        self.next_attempt_id = attempt_id;
        self.active.push(entry);
        proof {
            let s = self.active@;
            let n = middle.len() as int;
            assert(s.drop_last() =~= middle);
            assert(s[n] == entry);
            assert forall|a: int, b: int| 0 <= a < b < s.len() implies (#[trigger] s[a]).key@ != (#[trigger] s[b]).key@ by {
                assert(s[a] == middle[a]);
                if b < n {
                    assert(s[b] == middle[b]);
                }
            }
            assert forall|x: int| 0 <= x < s.len() implies (#[trigger] s[x]).view.transferred_bytes <= s[x].view.total_bytes by {
                if x < n {
                    assert(s[x] == middle[x]);
                }
            }
            lemma_active_index_is(s, key@, n);
        }
        key
    }

    /// Resumes a transfer at `transferred_bytes` already present.
    pub fn set_transfer_baseline(&mut self, key: &str, transferred_bytes: u64, now: u64)
        requires
            tracker_valid(*old(self)),
        ensures
            tracker_valid(*final(self)),
            final(self).recent_histories() == old(self).recent_histories(),
            final(self).next_attempt() == old(self).next_attempt(),
            final(self).active_transfers() == match active_index(old(self).active_transfers(), key@) {
                Some(i) => old(self).active_transfers().update(i, with_baseline(old(self).active_transfers()[i], transferred_bytes, now)),
                None => old(self).active_transfers(),
            },
    {
        match self.find_active(key) {
            Some(i) => {
                let ghost before = self.active@;
                let mut e = self.active.remove(i);
                let baseline = if transferred_bytes <= e.view.total_bytes { transferred_bytes } else { e.view.total_bytes };
                e.view.transferred_bytes = baseline;
                e.view.speed_bps = 0;
                e.last_progress_nanos = now;
                e.last_progress_bytes = baseline;
                proof {
                    assert(e == with_baseline(before[i as int], transferred_bytes, now));
                    lemma_update_active_ok(before, i as int, e);
                    lemma_reinsert(before, i as int, e);
                }
                self.active.insert(i, e);
            },
            None => {},
        }
    }

    /// Records progress; returns the rate sample when one is due, for the
    /// caller to smooth into a speed (`set_transfer_speed`).
    pub fn update_transfer(&mut self, key: &str, transferred_bytes: u64, now: u64) -> (sample: Option<RateSample>)
        requires
            tracker_valid(*old(self)),
        ensures
            tracker_valid(*final(self)),
            final(self).recent_histories() == old(self).recent_histories(),
            final(self).next_attempt() == old(self).next_attempt(),
            match active_index(old(self).active_transfers(), key@) {
                Some(i) => final(self).active_transfers() == old(self).active_transfers().update(i, with_progress(old(self).active_transfers()[i], transferred_bytes, now))
                    && sample == rate_sample(old(self).active_transfers()[i], transferred_bytes, now),
                None => final(self).active_transfers() == old(self).active_transfers() && sample is None,
            },
    {
        match self.find_active(key) {
            Some(i) => {
                let ghost before = self.active@;
                let mut e = self.active.remove(i);
                let ghost a = e;
                let previous = e.view.transferred_bytes;
                let capped = if transferred_bytes <= e.view.total_bytes { transferred_bytes } else { e.view.total_bytes };
                let next = if capped > previous { capped } else { previous };
                e.view.transferred_bytes = next;
                e.session_transferred_bytes = e.session_transferred_bytes.saturating_add(next - previous);
                let elapsed = now.saturating_sub(e.last_progress_nanos);
                let mut sample: Option<RateSample> = None;
                if next > e.last_progress_bytes && (elapsed >= RATE_SAMPLE_INTERVAL_NANOS || next == e.view.total_bytes) {
                    sample = Some(RateSample { bytes: next - e.last_progress_bytes, elapsed_nanos: elapsed });
                    e.last_progress_nanos = now;
                    e.last_progress_bytes = next;
                }
                proof {
                    assert(a == before[i as int]);
                    assert(e == with_progress(a, transferred_bytes, now));
                    assert(sample == rate_sample(a, transferred_bytes, now));
                    lemma_update_active_ok(before, i as int, e);
                    lemma_reinsert(before, i as int, e);
                }
                self.active.insert(i, e);
                sample
            },
            None => None,
        }
    }

    /// Shows a smoothed speed for an active transfer.
    pub fn set_transfer_speed(&mut self, key: &str, speed_bps: u64)
        requires
            tracker_valid(*old(self)),
        ensures
            tracker_valid(*final(self)),
            final(self).recent_histories() == old(self).recent_histories(),
            final(self).next_attempt() == old(self).next_attempt(),
            final(self).active_transfers() == match active_index(old(self).active_transfers(), key@) {
                Some(i) => old(self).active_transfers().update(i, with_speed(old(self).active_transfers()[i], speed_bps)),
                None => old(self).active_transfers(),
            },
    {
        match self.find_active(key) {
            Some(i) => {
                let ghost before = self.active@;
                let mut e = self.active.remove(i);
                e.view.speed_bps = speed_bps;
                proof {
                    assert(e == with_speed(before[i as int], speed_bps));
                    lemma_update_active_ok(before, i as int, e);
                    lemma_reinsert(before, i as int, e);
                }
                self.active.insert(i, e);
            },
            None => {},
        }
    }

    /// Marks the moment the bytes were all on the network (the first time).
    pub fn mark_network_complete(&mut self, key: &str, now: u64)
        requires
            tracker_valid(*old(self)),
        ensures
            tracker_valid(*final(self)),
            final(self).recent_histories() == old(self).recent_histories(),
            final(self).next_attempt() == old(self).next_attempt(),
            final(self).active_transfers() == match active_index(old(self).active_transfers(), key@) {
                Some(i) => old(self).active_transfers().update(i, with_network_complete(old(self).active_transfers()[i], now)),
                None => old(self).active_transfers(),
            },
    {
        match self.find_active(key) {
            Some(i) => {
                let ghost before = self.active@;
                let mut e = self.active.remove(i);
                if e.network_completed_nanos.is_none() {
                    e.network_completed_nanos = Some(now);
                }
                proof {
                    assert(e == with_network_complete(before[i as int], now));
                    lemma_update_active_ok(before, i as int, e);
                    lemma_reinsert(before, i as int, e);
                }
                self.active.insert(i, e);
            },
            None => {},
        }
    }

    /// Records how long the peer took to process the transfer.
    pub fn set_remote_processing(&mut self, key: &str, processing_ms: Option<u64>)
        requires
            tracker_valid(*old(self)),
        ensures
            tracker_valid(*final(self)),
            final(self).recent_histories() == old(self).recent_histories(),
            final(self).next_attempt() == old(self).next_attempt(),
            final(self).active_transfers() == match active_index(old(self).active_transfers(), key@) {
                Some(i) => old(self).active_transfers().update(i, with_remote_processing(old(self).active_transfers()[i], processing_ms)),
                None => old(self).active_transfers(),
            },
    {
        match self.find_active(key) {
            Some(i) => {
                let ghost before = self.active@;
                let mut e = self.active.remove(i);
                e.view.remote_processing_ms = processing_ms;
                proof {
                    assert(e == with_remote_processing(before[i as int], processing_ms));
                    lemma_update_active_ok(before, i as int, e);
                    lemma_reinsert(before, i as int, e);
                }
                self.active.insert(i, e);
            },
            None => {},
        }
    }

    fn find_history(&self, device_id: &str) -> (index: Option<usize>)
        requires
            recent_ok(self.recent@),
        ensures
            match index {
                Some(j) => j < self.recent@.len() && model_index(history_model(self.recent@), device_id@) == Some(j as int),
                None => model_index(history_model(self.recent@), device_id@) is None,
            },
    {
        let mut j: usize = 0;
        while j < self.recent.len()
            invariant
                j <= self.recent@.len(),
                recent_ok(self.recent@),
                forall|k: int| 0 <= k < j ==> (#[trigger] self.recent@[k]).device_id@ != device_id@,
            decreases self.recent@.len() - j,
        {
            if str_equal(self.recent[j].device_id.as_str(), device_id) {
                proof {
                    lemma_model_index_is(self.recent@, device_id@, j as int);
                }
                return Some(j);
            }
            j = j + 1;
        }
        proof {
            lemma_model_index_none(self.recent@, device_id@);
        }
        None
    }

    /// Puts a completed transfer first in its device's history, keeping ten.
    fn record_newest(&mut self, done: TransferTelemetry)
        requires
            recent_ok(old(self).recent@),
        ensures
            recent_ok(final(self).recent@),
            history_model(final(self).recent@) == with_newest(history_model(old(self).recent@), done),
            final(self).active == old(self).active,
            final(self).next_attempt_id == old(self).next_attempt_id,
    {
        let ghost before = self.recent@;
        let ghost m = history_model(before);
        match self.find_history(done.device_id.as_str()) {
            Some(j) => {
                proof {
                    reveal(model_index);
                }
                let mut h = self.recent.remove(j);
                let ghost old_transfers = h.transfers@;
                h.transfers.insert(0, done);
                h.transfers.truncate(RECENT_TRANSFERS_PER_DEVICE);
                proof {
                    assert(old_transfers.insert(0, done) =~= seq![done] + old_transfers);
                    assert(h.transfers@ =~= capped(seq![done] + old_transfers));
                    assert(h.device_id@ == done.device_id@);
                    lemma_reinsert(before, j as int, h);
                }
                self.recent.insert(j, h);
                proof {
                    let s = self.recent@;
                    assert(s == before.update(j as int, h));
                    assert(history_model(s) =~= m.update(j as int, (m[j as int].0, capped(seq![done] + m[j as int].1))));
                    assert forall|a: int, b: int| 0 <= a < b < s.len() implies (#[trigger] s[a]).device_id@ != (#[trigger] s[b]).device_id@ by {
                        assert(before[a].device_id@ != before[b].device_id@);
                    }
                    assert forall|x: int, k: int| 0 <= x < s.len() && 0 <= k < s[x].transfers@.len()
                        implies (#[trigger] s[x].transfers@[k]).device_id@ == s[x].device_id@ by {
                        if x == j {
                            if k > 0 {
                                assert(s[x].transfers@[k] == old_transfers[k - 1]);
                                assert(before[x].transfers@[k - 1].device_id@ == before[x].device_id@);
                            }
                        }
                    }
                }
            },
            None => {
                proof {
                    reveal(model_index);
                    assert forall|k: int| 0 <= k < before.len() implies (#[trigger] before[k]).device_id@ != done.device_id@ by {
                        if before[k].device_id@ == done.device_id@ {
                            assert(m[k].0 == done.device_id@);
                        }
                    }
                }
                let device_id = done.device_id.clone();
                let mut transfers: Vec<TransferTelemetry> = Vec::new();
                transfers.push(done);
                self.recent.push(DeviceHistory { device_id, transfers });
                proof {
                    let s = self.recent@;
                    assert(history_model(s) =~= m.push((done.device_id@, seq![done])));
                    assert forall|a: int, b: int| 0 <= a < b < s.len() implies (#[trigger] s[a]).device_id@ != (#[trigger] s[b]).device_id@ by {
                        assert(s[a] == before[a]);
                        if b < before.len() {
                            assert(s[b] == before[b]);
                        }
                    }
                    assert forall|x: int, k: int| 0 <= x < s.len() && 0 <= k < s[x].transfers@.len()
                        implies (#[trigger] s[x].transfers@[k]).device_id@ == s[x].device_id@ by {
                        if x < before.len() {
                            assert(s[x] == before[x]);
                        }
                    }
                }
            },
        }
    }

    /// Ends an active transfer: takes it out of the active list and puts
    /// what it shows first in its device's history, which it also returns.
    fn finish_transfer_with_status(
        &mut self,
        key: &str,
        status: String,
        completed: bool,
        message: Option<String>,
        completed_at: String,
        now: u64,
    ) -> (finished: Option<TransferTelemetry>)
        requires
            tracker_valid(*old(self)),
        ensures
            tracker_valid(*final(self)),
            final(self).next_attempt_id == old(self).next_attempt_id,
            match active_index(old(self).active@, key@) {
                Some(i) => finished == Some(finished_view(old(self).active@[i], status, completed, message, completed_at, now))
                    && final(self).active@ == old(self).active@.remove(i)
                    && history_model(final(self).recent@) == with_newest(history_model(old(self).recent@), finished->0),
                None => finished is None && final(self).active@ == old(self).active@ && final(self).recent@ == old(self).recent@,
            },
    {
        match self.find_active(key) {
            Some(i) => {
                let ghost before = self.active@;
                proof {
                    lemma_remove_active_ok(before, i as int);
                }
                let a = self.active.remove(i);
                let (duration, network, confirmation, average) = timing(&a, now);
                let mut view = a.view;
                if completed {
                    view.transferred_bytes = view.total_bytes;
                }
                view.completed_at = Some(completed_at);
                view.duration_ms = duration;
                view.network_duration_ms = network;
                view.confirmation_duration_ms = confirmation;
                view.speed_bps = 0;
                view.average_bps = average;
                view.status = status;
                view.message = message;
                proof {
                    assert(view == finished_view(before[i as int], status, completed, message, completed_at, now));
                }
                let done = view.clone();
                self.record_newest(view);
                Some(done)
            },
            None => None,
        }
    }

    /// Ends an active transfer as succeeded (all bytes) or failed (the
    /// bytes it had).
    pub fn finish_transfer(
        &mut self,
        key: &str,
        success: bool,
        message: Option<String>,
        completed_at: String,
        now: u64,
    ) -> (finished: Option<TransferTelemetry>)
        requires
            tracker_valid(*old(self)),
        ensures
            tracker_valid(*final(self)),
            final(self).next_attempt() == old(self).next_attempt(),
            match active_index(old(self).active_transfers(), key@) {
                Some(i) => finished matches Some(done)
                    && done == finished_view(old(self).active_transfers()[i], done.status, success, message, completed_at, now)
                    && done.status@ == (if success { "success"@ } else { "failed"@ })
                    && done.transferred_bytes == (if success { old(self).active_transfers()[i].view.total_bytes } else { old(self).active_transfers()[i].view.transferred_bytes })
                    && final(self).active_transfers() == old(self).active_transfers().remove(i)
                    && history_model(final(self).recent_histories()) == with_newest(history_model(old(self).recent_histories()), done),
                None => finished is None && final(self).active_transfers() == old(self).active_transfers() && final(self).recent_histories() == old(self).recent_histories(),
            },
    {
        let status = if success { String::from_str("success") } else { String::from_str("failed") };
        self.finish_transfer_with_status(key, status, success, message, completed_at, now)
    }

    /// Ends an active transfer whose bytes were all sent but whose receipt
    /// the peer did not confirm: status `sent`, all bytes.
    pub fn finish_unconfirmed(
        &mut self,
        key: &str,
        message: Option<String>,
        completed_at: String,
        now: u64,
    ) -> (finished: Option<TransferTelemetry>)
        requires
            tracker_valid(*old(self)),
        ensures
            tracker_valid(*final(self)),
            final(self).next_attempt() == old(self).next_attempt(),
            match active_index(old(self).active_transfers(), key@) {
                Some(i) => finished matches Some(done)
                    && done == finished_view(old(self).active_transfers()[i], done.status, true, message, completed_at, now)
                    && done.status@ == "sent"@
                    && done.transferred_bytes == old(self).active_transfers()[i].view.total_bytes
                    && final(self).active_transfers() == old(self).active_transfers().remove(i)
                    && history_model(final(self).recent_histories()) == with_newest(history_model(old(self).recent_histories()), done),
                None => finished is None && final(self).active_transfers() == old(self).active_transfers() && final(self).recent_histories() == old(self).recent_histories(),
            },
    {
        let status = String::from_str("sent");
        self.finish_transfer_with_status(key, status, true, message, completed_at, now)
    }

    /// Reads back one stored transfer (the caller reads them newest first):
    /// skipped if still marked active, else last in its device's history if
    /// there is room; the next attempt id passes its attempt id.
    pub fn restore_record(&mut self, record: TransferTelemetry)
        requires
            tracker_valid(*old(self)),
        ensures
            tracker_valid(*final(self)),
            final(self).active_transfers() == old(self).active_transfers(),
            record.status@ == "active"@ ==> final(self).recent_histories() == old(self).recent_histories()
                && final(self).next_attempt() == old(self).next_attempt(),
            record.status@ != "active"@ ==> history_model(final(self).recent_histories()) == with_oldest(history_model(old(self).recent_histories()), record)
                && final(self).next_attempt() == (if record.attempt_id <= old(self).next_attempt() { old(self).next_attempt() } else { record.attempt_id }),
    {
        if str_equal(record.status.as_str(), "active") {
            return;
        }
        if record.attempt_id > self.next_attempt_id {
            self.next_attempt_id = record.attempt_id;
        }
        let ghost before = self.recent@;
        let ghost m = history_model(before);
        match self.find_history(record.device_id.as_str()) {
            Some(j) => {
                proof {
                    reveal(model_index);
                }
                let mut h = self.recent.remove(j);
                let ghost old_transfers = h.transfers@;
                h.transfers.push(record);
                h.transfers.truncate(RECENT_TRANSFERS_PER_DEVICE);
                proof {
                    assert(h.transfers@ =~= capped(old_transfers.push(record)));
                    assert(h.device_id@ == record.device_id@);
                    lemma_reinsert(before, j as int, h);
                }
                self.recent.insert(j, h);
                proof {
                    let s = self.recent@;
                    assert(s == before.update(j as int, h));
                    assert(history_model(s) =~= m.update(j as int, (m[j as int].0, capped(m[j as int].1.push(record)))));
                    assert forall|a: int, b: int| 0 <= a < b < s.len() implies (#[trigger] s[a]).device_id@ != (#[trigger] s[b]).device_id@ by {
                        assert(before[a].device_id@ != before[b].device_id@);
                    }
                    assert forall|x: int, k: int| 0 <= x < s.len() && 0 <= k < s[x].transfers@.len()
                        implies (#[trigger] s[x].transfers@[k]).device_id@ == s[x].device_id@ by {
                        if x == j && k < old_transfers.len() {
                            assert(s[x].transfers@[k] == old_transfers[k]);
                            assert(before[x].transfers@[k].device_id@ == before[x].device_id@);
                        }
                    }
                }
            },
            None => {
                proof {
                    reveal(model_index);
                    assert forall|k: int| 0 <= k < before.len() implies (#[trigger] before[k]).device_id@ != record.device_id@ by {
                        if before[k].device_id@ == record.device_id@ {
                            assert(m[k].0 == record.device_id@);
                        }
                    }
                }
                let device_id = record.device_id.clone();
                let mut transfers: Vec<TransferTelemetry> = Vec::new();
                transfers.push(record);
                self.recent.push(DeviceHistory { device_id, transfers });
                proof {
                    let s = self.recent@;
                    assert(history_model(s) =~= m.push((record.device_id@, seq![record])));
                    assert forall|a: int, b: int| 0 <= a < b < s.len() implies (#[trigger] s[a]).device_id@ != (#[trigger] s[b]).device_id@ by {
                        assert(s[a] == before[a]);
                        if b < before.len() {
                            assert(s[b] == before[b]);
                        }
                    }
                    assert forall|x: int, k: int| 0 <= x < s.len() && 0 <= k < s[x].transfers@.len()
                        implies (#[trigger] s[x].transfers@[k]).device_id@ == s[x].device_id@ by {
                        if x < before.len() {
                            assert(s[x] == before[x]);
                        }
                    }
                }
            },
        }
    }

    /// Reads back stored transfers in turn.
    pub fn restore_history(&mut self, records: &Vec<TransferTelemetry>)
        requires
            tracker_valid(*old(self)),
        ensures
            tracker_valid(*final(self)),
            final(self).active_transfers() == old(self).active_transfers(),
            history_model(final(self).recent_histories()) == restored(history_model(old(self).recent_histories()), records@),
            final(self).next_attempt() == restored_attempt_id(old(self).next_attempt(), records@),
    {
        let mut i: usize = 0;
        while i < records.len()
            invariant
                i <= records@.len(),
                tracker_valid(*self),
                self.active@ == old(self).active@,
                history_model(self.recent@) == restored(history_model(old(self).recent@), records@.take(i as int)),
                self.next_attempt_id == restored_attempt_id(old(self).next_attempt_id, records@.take(i as int)),
            decreases records@.len() - i,
        {
            let record = records[i].clone();
            proof {
                let t = records@.take(i + 1);
                assert(t.drop_last() =~= records@.take(i as int));
                assert(t.last() == records@[i as int]);
            }
            self.restore_record(record);
            i = i + 1;
        }
        proof {
            assert(records@.take(records@.len() as int) =~= records@);
        }
    }

    /// What the interface shows: the active transfers, latest started first,
    /// then at most two hundred completed ones, latest completed first.
    pub fn snapshot(&self, now: u64) -> (views: Vec<TransferTelemetry>)
        requires
            tracker_valid(*self),
        ensures
            ({
                let n = self.active_transfers().len() as int;
                let all = flatten(history_model(self.recent_histories()));
                let shown = shown_recent(history_model(self.recent_histories()));
                &&& views@.len() == n + shown
                &&& views@.take(n).to_multiset() == live_views(self.active_transfers(), now).to_multiset()
                &&& newest_first(views@.take(n), RankOrder::Started)
                &&& exists|s: Seq<TransferTelemetry>| #[trigger] s.to_multiset() == all.to_multiset()
                    && newest_first(s, RankOrder::Completed) && views@.skip(n) == s.take(shown)
            }),
    {
        let mut views: Vec<TransferTelemetry> = Vec::new();
        let mut i: usize = 0;
        while i < self.active.len()
            invariant
                i <= self.active@.len(),
                views@ == live_views(self.active@, now).take(i as int),
            decreases self.active@.len() - i,
        {
            let v = live_view_of(&self.active[i], now);
            views.push(v);
            proof {
                assert(views@ =~= live_views(self.active@, now).take(i + 1));
            }
            i = i + 1;
        }
        proof {
            assert(views@ =~= live_views(self.active@, now));
        }
        sort_newest_first(&mut views, RankOrder::Started);
        let ghost m = history_model(self.recent@);
        let mut recent: Vec<TransferTelemetry> = Vec::new();
        let mut d: usize = 0;
        while d < self.recent.len()
            invariant
                d <= self.recent@.len(),
                m == history_model(self.recent@),
                recent@ == flatten(m.take(d as int)),
            decreases self.recent@.len() - d,
        {
            let ghost start = recent@;
            let mut k: usize = 0;
            while k < self.recent[d].transfers.len()
                invariant
                    d < self.recent@.len(),
                    k <= self.recent@[d as int].transfers@.len(),
                    recent@ == start + self.recent@[d as int].transfers@.take(k as int),
                decreases self.recent@[d as int].transfers@.len() - k,
            {
                recent.push(self.recent[d].transfers[k].clone());
                proof {
                    assert(recent@ =~= start + self.recent@[d as int].transfers@.take(k + 1));
                }
                k = k + 1;
            }
            proof {
                let t = m.take(d + 1);
                assert(t.drop_last() =~= m.take(d as int));
                assert(t.last() == m[d as int]);
                assert(self.recent@[d as int].transfers@.take(k as int) =~= m[d as int].1);
            }
            d = d + 1;
        }
        proof {
            assert(m.take(m.len() as int) =~= m);
        }
        sort_newest_first(&mut recent, RankOrder::Completed);
        let ghost sorted = recent@;
        recent.truncate(RECENT_TRANSFER_SNAPSHOT_LIMIT);
        let ghost active_part = views@;
        views.append(&mut recent);
        proof {
            let n = self.active@.len() as int;
            assert(views@.take(n) =~= active_part);
            assert(views@.skip(n) =~= sorted.take(shown_recent(m)));
            assert(sorted.to_multiset() == flatten(m).to_multiset());
        }
        views
    }
}

} // verus!
