//! How the lists the interface shows change as devices appear, pair,
//! connect, are disabled or revoked, and how pauses and the mobile app's
//! activity are set.

use vstd::prelude::*;
use vstd::string::*;
use vstd::utf8::encode_utf8;
use crate::delivery::TrustedDevice;
use crate::group::SignedGroupManifest;
use crate::order::{sort_by_key, sorted_by_key, SortKey};
use crate::text::str_equal;
use crate::views::{DeviceSlot, NearbyDevice, PendingPairing, SyncGroupView, TrustedDeviceView};

verus! {

broadcast use vstd::seq_lib::group_to_multiset_ensures;

impl SortKey for NearbyDevice {
    open spec fn key(&self) -> Seq<u8> {
        encode_utf8(self.device_name@)
    }

    fn key_bytes(&self) -> (bytes: &[u8]) {
        self.device_name.as_str().as_bytes()
    }
}

/// The first nearby device announced under this instance.
pub open spec fn first_instance(s: Seq<NearbyDevice>, instance_id: Seq<char>, i: int) -> bool {
    &&& 0 <= i < s.len()
    &&& s[i].instance_id@ == instance_id
    &&& forall|j: int| 0 <= j < i ==> (#[trigger] s[j]).instance_id@ != instance_id
}

/// Shows a device announced on the network, marked paired or not: it
/// replaces the first entry of its instance, or else joins the list, which
/// is then ordered by device name.
pub fn upsert_nearby_device(devices: &mut Vec<NearbyDevice>, nearby: NearbyDevice, paired: bool)
    ensures
        ({
            let shown = NearbyDevice { paired, ..nearby };
            if exists|i: int| first_instance(old(devices)@, nearby.instance_id@, i) {
                forall|i: int| #[trigger] first_instance(old(devices)@, nearby.instance_id@, i)
                    ==> final(devices)@ == old(devices)@.update(i, shown)
            } else {
                &&& final(devices)@.to_multiset() == old(devices)@.push(shown).to_multiset()
                &&& sorted_by_key(final(devices)@)
            }
        }),
{
    let mut shown = nearby;
    shown.paired = paired;
    let mut i: usize = 0;
    while i < devices.len()
        invariant
            i <= devices@.len(),
            devices@ == old(devices)@,
            shown == (NearbyDevice { paired, ..nearby }),
            forall|j: int| 0 <= j < i ==> (#[trigger] devices@[j]).instance_id@ != nearby.instance_id@,
        decreases devices@.len() - i,
    {
        if str_equal(devices[i].instance_id.as_str(), shown.instance_id.as_str()) {
            let ghost before = devices@;
            proof {
                assert(first_instance(before, nearby.instance_id@, i as int));
                assert forall|k: int| #[trigger] first_instance(before, nearby.instance_id@, k) implies k == i by {
                    if k < i {
                        assert(before[k].instance_id@ != nearby.instance_id@);
                    }
                    if k > i {
                        assert(before[i as int].instance_id@ != nearby.instance_id@);
                    }
                }
            }
            devices.remove(i);
            devices.insert(i, shown);
            proof {
                assert(devices@ =~= before.update(i as int, shown));
            }
            return;
        }
        i = i + 1;
    }
    devices.push(shown);
    sort_by_key(devices);
}

/// Drops the devices announced under this instance.
pub fn remove_nearby_device(devices: &mut Vec<NearbyDevice>, instance_id: &str)
    ensures
        final(devices)@ == old(devices)@.filter(|d: NearbyDevice| d.instance_id@ != instance_id@),
{
    let ghost original = devices@;
    let ghost pred = |d: NearbyDevice| d.instance_id@ != instance_id@;
    let mut kept: Vec<NearbyDevice> = Vec::new();
    let mut rest: Vec<NearbyDevice> = Vec::new();
    std::mem::swap(&mut rest, devices);
    let ghost mut i: int = 0;
    while rest.len() > 0
        invariant
            0 <= i <= original.len(),
            i + rest@.len() == original.len(),
            rest@ == original.skip(i),
            kept@ == original.take(i).filter(pred),
            pred == (|d: NearbyDevice| d.instance_id@ != instance_id@),
        decreases rest@.len(),
    {
        let item = rest.remove(0);
        proof {
            reveal_with_fuel(Seq::filter, 1);
            assert(original.take(i + 1).drop_last() =~= original.take(i));
            assert(original.take(i + 1).last() == item);
            assert(rest@ =~= original.skip(i + 1));
        }
        if !str_equal(item.instance_id.as_str(), instance_id) {
            kept.push(item);
        }
        proof {
            i = i + 1;
        }
    }
    proof {
        assert(original.take(original.len() as int) =~= original);
    }
    *devices = kept;
}

/// Drops the pairings with this id.
fn drop_pairing(pairings: &mut Vec<PendingPairing>, pairing_id: &str)
    ensures
        final(pairings)@ == old(pairings)@.filter(|p: PendingPairing| p.pairing_id@ != pairing_id@),
{
    let ghost original = pairings@;
    let ghost pred = |p: PendingPairing| p.pairing_id@ != pairing_id@;
    let mut kept: Vec<PendingPairing> = Vec::new();
    let mut rest: Vec<PendingPairing> = Vec::new();
    std::mem::swap(&mut rest, pairings);
    let ghost mut i: int = 0;
    while rest.len() > 0
        invariant
            0 <= i <= original.len(),
            i + rest@.len() == original.len(),
            rest@ == original.skip(i),
            kept@ == original.take(i).filter(pred),
            pred == (|p: PendingPairing| p.pairing_id@ != pairing_id@),
        decreases rest@.len(),
    {
        let item = rest.remove(0);
        proof {
            reveal_with_fuel(Seq::filter, 1);
            assert(original.take(i + 1).drop_last() =~= original.take(i));
            assert(original.take(i + 1).last() == item);
            assert(rest@ =~= original.skip(i + 1));
        }
        if !str_equal(item.pairing_id.as_str(), pairing_id) {
            kept.push(item);
        }
        proof {
            i = i + 1;
        }
    }
    proof {
        assert(original.take(original.len() as int) =~= original);
    }
    *pairings = kept;
}

/// Drops the pairings with this device.
fn drop_device_pairings(pairings: &mut Vec<PendingPairing>, device_id: &str)
    ensures
        final(pairings)@ == old(pairings)@.filter(|p: PendingPairing| p.device_id@ != device_id@),
{
    let ghost original = pairings@;
    let ghost pred = |p: PendingPairing| p.device_id@ != device_id@;
    let mut kept: Vec<PendingPairing> = Vec::new();
    let mut rest: Vec<PendingPairing> = Vec::new();
    std::mem::swap(&mut rest, pairings);
    let ghost mut i: int = 0;
    while rest.len() > 0
        invariant
            0 <= i <= original.len(),
            i + rest@.len() == original.len(),
            rest@ == original.skip(i),
            kept@ == original.take(i).filter(pred),
            pred == (|p: PendingPairing| p.device_id@ != device_id@),
        decreases rest@.len(),
    {
        let item = rest.remove(0);
        proof {
            reveal_with_fuel(Seq::filter, 1);
            assert(original.take(i + 1).drop_last() =~= original.take(i));
            assert(original.take(i + 1).last() == item);
            assert(rest@ =~= original.skip(i + 1));
        }
        if !str_equal(item.device_id.as_str(), device_id) {
            kept.push(item);
        }
        proof {
            i = i + 1;
        }
    }
    proof {
        assert(original.take(original.len() as int) =~= original);
    }
    *pairings = kept;
}

/// Drops the paired devices with this id.
fn drop_trusted(trusted: &mut Vec<TrustedDeviceView>, device_id: &str)
    ensures
        final(trusted)@ == old(trusted)@.filter(|t: TrustedDeviceView| t.device_id@ != device_id@),
{
    let ghost original = trusted@;
    let ghost pred = |t: TrustedDeviceView| t.device_id@ != device_id@;
    let mut kept: Vec<TrustedDeviceView> = Vec::new();
    let mut rest: Vec<TrustedDeviceView> = Vec::new();
    std::mem::swap(&mut rest, trusted);
    let ghost mut i: int = 0;
    while rest.len() > 0
        invariant
            0 <= i <= original.len(),
            i + rest@.len() == original.len(),
            rest@ == original.skip(i),
            kept@ == original.take(i).filter(pred),
            pred == (|t: TrustedDeviceView| t.device_id@ != device_id@),
        decreases rest@.len(),
    {
        let item = rest.remove(0);
        proof {
            reveal_with_fuel(Seq::filter, 1);
            assert(original.take(i + 1).drop_last() =~= original.take(i));
            assert(original.take(i + 1).last() == item);
            assert(rest@ =~= original.skip(i + 1));
        }
        if !str_equal(item.device_id.as_str(), device_id) {
            kept.push(item);
        }
        proof {
            i = i + 1;
        }
    }
    proof {
        assert(original.take(original.len() as int) =~= original);
    }
    *trusted = kept;
}

/// Drops the slots of this device.
fn drop_device_slots(slots: &mut Vec<DeviceSlot>, device_id: &str)
    ensures
        final(slots)@ == old(slots)@.filter(|s: DeviceSlot| s.device_id@ != device_id@),
{
    let ghost original = slots@;
    let ghost pred = |s: DeviceSlot| s.device_id@ != device_id@;
    let mut kept: Vec<DeviceSlot> = Vec::new();
    let mut rest: Vec<DeviceSlot> = Vec::new();
    std::mem::swap(&mut rest, slots);
    let ghost mut i: int = 0;
    while rest.len() > 0
        invariant
            0 <= i <= original.len(),
            i + rest@.len() == original.len(),
            rest@ == original.skip(i),
            kept@ == original.take(i).filter(pred),
            pred == (|s: DeviceSlot| s.device_id@ != device_id@),
        decreases rest@.len(),
    {
        let item = rest.remove(0);
        proof {
            reveal_with_fuel(Seq::filter, 1);
            assert(original.take(i + 1).drop_last() =~= original.take(i));
            assert(original.take(i + 1).last() == item);
            assert(rest@ =~= original.skip(i + 1));
        }
        if !str_equal(item.device_id.as_str(), device_id) {
            kept.push(item);
        }
        proof {
            i = i + 1;
        }
    }
    proof {
        assert(original.take(original.len() as int) =~= original);
    }
    *slots = kept;
}

/// Shows a pairing waiting for confirmation, replacing an earlier one with
/// the same id.
pub fn show_pending_pairing(pairings: &mut Vec<PendingPairing>, pairing: PendingPairing)
    ensures
        final(pairings)@ == old(pairings)@.filter(|p: PendingPairing| p.pairing_id@ != pairing.pairing_id@).push(pairing),
{
    drop_pairing(pairings, pairing.pairing_id.as_str());
    pairings.push(pairing);
}

/// The first pairing with this id.
pub open spec fn first_pairing(s: Seq<PendingPairing>, pairing_id: Seq<char>, i: int) -> bool {
    &&& 0 <= i < s.len()
    &&& s[i].pairing_id@ == pairing_id
    &&& forall|j: int| 0 <= j < i ==> (#[trigger] s[j]).pairing_id@ != pairing_id
}

/// Shows a new status on the first pairing with this id.
pub fn set_pairing_status(pairings: &mut Vec<PendingPairing>, pairing_id: &str, status: &str)
    ensures
        forall|i: int| #[trigger] first_pairing(old(pairings)@, pairing_id@, i) ==> {
            &&& final(pairings)@.len() == old(pairings)@.len()
            &&& final(pairings)@[i].status@ == status@
            &&& final(pairings)@[i] == (PendingPairing { status: final(pairings)@[i].status, ..old(pairings)@[i] })
            &&& forall|j: int| 0 <= j < old(pairings)@.len() && j != i ==> final(pairings)@[j] == old(pairings)@[j]
        },
        !(exists|i: int| first_pairing(old(pairings)@, pairing_id@, i)) ==> final(pairings)@ == old(pairings)@,
{
    let mut i: usize = 0;
    while i < pairings.len()
        invariant
            i <= pairings@.len(),
            pairings@ == old(pairings)@,
            forall|j: int| 0 <= j < i ==> (#[trigger] pairings@[j]).pairing_id@ != pairing_id@,
        decreases pairings@.len() - i,
    {
        if str_equal(pairings[i].pairing_id.as_str(), pairing_id) {
            let ghost before = pairings@;
            proof {
                assert(first_pairing(before, pairing_id@, i as int));
                assert forall|k: int| #[trigger] first_pairing(before, pairing_id@, k) implies k == i by {
                    if k < i {
                        assert(before[k].pairing_id@ != pairing_id@);
                    }
                    if k > i {
                        assert(before[i as int].pairing_id@ != pairing_id@);
                    }
                }
            }
            let mut p = pairings.remove(i);
            p.status = String::from_str(status);
            pairings.insert(i, p);
            proof {
                assert(pairings@ =~= before.update(i as int, p));
            }
            return;
        }
        i = i + 1;
    }
}

/// Drops a pairing that ended without completing.
pub fn pairing_cancelled(pairings: &mut Vec<PendingPairing>, pairing_id: &str)
    ensures
        final(pairings)@ == old(pairings)@.filter(|p: PendingPairing| p.pairing_id@ != pairing_id@),
{
    drop_pairing(pairings, pairing_id);
}

/// The interface's view of a paired device that has just connected.
pub open spec fn trusted_view_of(device: TrustedDevice, online: bool) -> TrustedDeviceView {
    TrustedDeviceView {
        device_id: device.device_id,
        device_name: device.device_name,
        platform: device.platform,
        paired_at: device.paired_at,
        online,
        sync_enabled: device.sync_enabled,
    }
}

/// The first nearby entry of this device.
pub open spec fn first_nearby_device(s: Seq<NearbyDevice>, device_id: Seq<char>, i: int) -> bool {
    &&& 0 <= i < s.len()
    &&& s[i].device_id@ == device_id
    &&& forall|j: int| 0 <= j < i ==> (#[trigger] s[j]).device_id@ != device_id
}

/// Marks the first nearby entry of this device as paired or not.
pub open spec fn nearby_marked(old: Seq<NearbyDevice>, new: Seq<NearbyDevice>, device_id: Seq<char>, paired: bool) -> bool {
    &&& (forall|i: int| #[trigger] first_nearby_device(old, device_id, i) ==> new == old.update(i, NearbyDevice { paired, ..old[i] }))
    &&& (!(exists|i: int| first_nearby_device(old, device_id, i)) ==> new == old)
}

fn mark_nearby(nearby: &mut Vec<NearbyDevice>, device_id: &str, paired: bool)
    ensures
        nearby_marked(old(nearby)@, final(nearby)@, device_id@, paired),
{
    let mut i: usize = 0;
    while i < nearby.len()
        invariant
            i <= nearby@.len(),
            nearby@ == old(nearby)@,
            forall|j: int| 0 <= j < i ==> (#[trigger] nearby@[j]).device_id@ != device_id@,
        decreases nearby@.len() - i,
    {
        if str_equal(nearby[i].device_id.as_str(), device_id) {
            let ghost before = nearby@;
            proof {
                assert(first_nearby_device(before, device_id@, i as int));
                assert forall|k: int| #[trigger] first_nearby_device(before, device_id@, k) implies k == i by {
                    if k < i {
                        assert(before[k].device_id@ != device_id@);
                    }
                    if k > i {
                        assert(before[i as int].device_id@ != device_id@);
                    }
                }
            }
            let mut d = nearby.remove(i);
            d.paired = paired;
            nearby.insert(i, d);
            proof {
                assert(nearby@ =~= before.update(i as int, d));
            }
            return;
        }
        i = i + 1;
    }
}

/// A pairing completed: it leaves the pending list, the device is listed
/// once as paired and online, and its nearby entry shows it paired.
pub fn pairing_completed(
    pairings: &mut Vec<PendingPairing>,
    trusted: &mut Vec<TrustedDeviceView>,
    nearby: &mut Vec<NearbyDevice>,
    pairing_id: &str,
    device: &TrustedDevice,
)
    ensures
        final(pairings)@ == old(pairings)@.filter(|p: PendingPairing| p.pairing_id@ != pairing_id@),
        final(trusted)@ == old(trusted)@.filter(|t: TrustedDeviceView| t.device_id@ != device.device_id@).push(
            trusted_view_of(*device, true),
        ),
        nearby_marked(old(nearby)@, final(nearby)@, device.device_id@, true),
{
    drop_pairing(pairings, pairing_id);
    drop_trusted(trusted, device.device_id.as_str());
    trusted.push(TrustedDeviceView {
        device_id: device.device_id.clone(),
        device_name: device.device_name.clone(),
        platform: device.platform.clone(),
        paired_at: device.paired_at.clone(),
        online: true,
        sync_enabled: device.sync_enabled,
    });
    mark_nearby(nearby, device.device_id.as_str(), true);
}

/// The paired devices as first listed: offline until they connect.
pub fn trusted_views(devices: &[TrustedDevice]) -> (views: Vec<TrustedDeviceView>)
    ensures
        views@ == devices@.map_values(|d: TrustedDevice| trusted_view_of(d, false)),
{
    let mut views: Vec<TrustedDeviceView> = Vec::new();
    let mut i: usize = 0;
    while i < devices.len()
        invariant
            i <= devices@.len(),
            views@ == devices@.take(i as int).map_values(|d: TrustedDevice| trusted_view_of(d, false)),
        decreases devices@.len() - i,
    {
        let d = &devices[i];
        views.push(TrustedDeviceView {
            device_id: d.device_id.clone(),
            device_name: d.device_name.clone(),
            platform: d.platform.clone(),
            paired_at: d.paired_at.clone(),
            online: false,
            sync_enabled: d.sync_enabled,
        });
        proof {
            assert(devices@.take(i + 1) =~= devices@.take(i as int).push(devices@[i as int]));
            assert(views@ =~= devices@.take(i + 1).map_values(|d: TrustedDevice| trusted_view_of(d, false)));
        }
        i = i + 1;
    }
    proof {
        assert(devices@.take(devices@.len() as int) =~= devices@);
    }
    views
}

/// The first paired device with this id.
pub open spec fn first_trusted(s: Seq<TrustedDeviceView>, device_id: Seq<char>, i: int) -> bool {
    &&& 0 <= i < s.len()
    &&& s[i].device_id@ == device_id
    &&& forall|j: int| 0 <= j < i ==> (#[trigger] s[j]).device_id@ != device_id
}

fn find_trusted(trusted: &Vec<TrustedDeviceView>, device_id: &str) -> (index: Option<usize>)
    ensures
        match index {
            Some(i) => first_trusted(trusted@, device_id@, i as int),
            None => forall|j: int| 0 <= j < trusted@.len() ==> (#[trigger] trusted@[j]).device_id@ != device_id@,
        },
{
    let mut i: usize = 0;
    while i < trusted.len()
        invariant
            i <= trusted@.len(),
            forall|j: int| 0 <= j < i ==> (#[trigger] trusted@[j]).device_id@ != device_id@,
        decreases trusted@.len() - i,
    {
        if str_equal(trusted[i].device_id.as_str(), device_id) {
            return Some(i);
        }
        i = i + 1;
    }
    None
}

proof fn lemma_first_trusted_unique(s: Seq<TrustedDeviceView>, device_id: Seq<char>, i: int, k: int)
    requires
        first_trusted(s, device_id, i),
        first_trusted(s, device_id, k),
    ensures
        i == k,
{
    if k < i {
        assert(s[k].device_id@ != device_id);
    }
    if i < k {
        assert(s[i].device_id@ != device_id);
    }
}

/// Marks a device's slots online or offline.
fn mark_slots_online(slots: &mut Vec<DeviceSlot>, device_id: &str, online: bool)
    ensures
        final(slots)@.len() == old(slots)@.len(),
        forall|j: int| 0 <= j < old(slots)@.len() ==> #[trigger] final(slots)@[j] == if old(slots)@[j].device_id@ == device_id@ {
            DeviceSlot { online, ..old(slots)@[j] }
        } else {
            old(slots)@[j]
        },
{
    let mut i: usize = 0;
    while i < slots.len()
        invariant
            i <= slots@.len(),
            slots@.len() == old(slots)@.len(),
            forall|j: int| 0 <= j < i ==> #[trigger] slots@[j] == if old(slots)@[j].device_id@ == device_id@ {
                DeviceSlot { online, ..old(slots)@[j] }
            } else {
                old(slots)@[j]
            },
            forall|j: int| i <= j < slots@.len() ==> #[trigger] slots@[j] == old(slots)@[j],
        decreases slots@.len() - i,
    {
        if str_equal(slots[i].device_id.as_str(), device_id) {
            let ghost before = slots@;
            let mut s = slots.remove(i);
            s.online = online;
            slots.insert(i, s);
            proof {
                assert(slots@ =~= before.update(i as int, s));
            }
        }
        i = i + 1;
    }
}

/// A paired device connected or disconnected: its list entry and slots show
/// it.
pub fn set_trusted_online(trusted: &mut Vec<TrustedDeviceView>, slots: &mut Vec<DeviceSlot>, device_id: &str, online: bool)
    ensures
        forall|i: int| #[trigger] first_trusted(old(trusted)@, device_id@, i)
            ==> final(trusted)@ == old(trusted)@.update(i, TrustedDeviceView { online, ..old(trusted)@[i] }),
        !(exists|i: int| first_trusted(old(trusted)@, device_id@, i)) ==> final(trusted)@ == old(trusted)@,
        final(slots)@.len() == old(slots)@.len(),
        forall|j: int| 0 <= j < old(slots)@.len() ==> #[trigger] final(slots)@[j] == if old(slots)@[j].device_id@ == device_id@ {
            DeviceSlot { online, ..old(slots)@[j] }
        } else {
            old(slots)@[j]
        },
{
    match find_trusted(trusted, device_id) {
        Some(i) => {
            let ghost before = trusted@;
            let mut t = trusted.remove(i);
            t.online = online;
            trusted.insert(i, t);
            proof {
                assert(trusted@ =~= before.update(i as int, t));
                assert forall|k: int| #[trigger] first_trusted(before, device_id@, k) implies trusted@ == before.update(k, TrustedDeviceView { online, ..before[k] }) by {
                    lemma_first_trusted_unique(before, device_id@, i as int, k);
                }
            }
        },
        None => {},
    }
    mark_slots_online(slots, device_id, online);
}

/// Synchronization with a paired device was switched on or off: its entry
/// shows it, and switching off also shows it offline and drops its slots.
/// An unknown device is refused.
pub fn set_device_sync_enabled(trusted: &mut Vec<TrustedDeviceView>, slots: &mut Vec<DeviceSlot>, device_id: &str, enabled: bool)
    -> (result: Result<(), String>)
    ensures
        match result {
            Ok(()) => exists|i: int| #[trigger] first_trusted(old(trusted)@, device_id@, i)
                && final(trusted)@ == old(trusted)@.update(i, TrustedDeviceView {
                    sync_enabled: enabled,
                    online: if enabled { old(trusted)@[i].online } else { false },
                    ..old(trusted)@[i]
                }),
            Err(e) => e@ == "可信设备不存在"@ && final(trusted)@ == old(trusted)@
                && forall|j: int| 0 <= j < old(trusted)@.len() ==> (#[trigger] old(trusted)@[j]).device_id@ != device_id@,
        },
        (result is Ok && !enabled) ==> final(slots)@ == old(slots)@.filter(|s: DeviceSlot| s.device_id@ != device_id@),
        !(result is Ok && !enabled) ==> final(slots)@ == old(slots)@,
{
    let i = match find_trusted(trusted, device_id) {
        Some(i) => i,
        None => return Err(String::from_str("可信设备不存在")),
    };
    let ghost before = trusted@;
    let mut t = trusted.remove(i);
    t.sync_enabled = enabled;
    if !enabled {
        t.online = false;
    }
    trusted.insert(i, t);
    proof {
        assert(trusted@ =~= before.update(i as int, t));
        assert(first_trusted(before, device_id@, i as int));
    }
    if !enabled {
        drop_device_slots(slots, device_id);
    }
    Ok(())
}

/// The groups that a revoked device owns (other than this device's own):
/// this device leaves them.
pub open spec fn owned_by_revoked(manifests: Seq<SignedGroupManifest>, device_id: Seq<char>, local: Seq<char>) -> Seq<Seq<char>> {
    manifests.filter(|g: SignedGroupManifest| g.manifest.owner_device_id@ == device_id && g.manifest.owner_device_id@ != local)
        .map_values(|g: SignedGroupManifest| g.manifest.group_id@)
}

/// The ids of the groups a revoked device owns, other than this device's.
pub fn revoked_owner_groups(manifests: &[SignedGroupManifest], device_id: &str, local_device_id: &str) -> (ids: Vec<String>)
    ensures
        ids.deep_view() == owned_by_revoked(manifests@, device_id@, local_device_id@),
{
    let ghost pred = |g: SignedGroupManifest| g.manifest.owner_device_id@ == device_id@ && g.manifest.owner_device_id@ != local_device_id@;
    let mut ids: Vec<String> = Vec::new();
    let mut i: usize = 0;
    while i < manifests.len()
        invariant
            i <= manifests@.len(),
            pred == (|g: SignedGroupManifest| g.manifest.owner_device_id@ == device_id@ && g.manifest.owner_device_id@ != local_device_id@),
            ids.deep_view() == manifests@.take(i as int).filter(pred).map_values(|g: SignedGroupManifest| g.manifest.group_id@),
        decreases manifests@.len() - i,
    {
        let m = &manifests[i].manifest;
        let ghost old_ids = ids.deep_view();
        proof {
            reveal_with_fuel(Seq::filter, 1);
            assert(manifests@.take(i + 1).drop_last() =~= manifests@.take(i as int));
            assert(manifests@.take(i + 1).last() == manifests@[i as int]);
        }
        if str_equal(m.owner_device_id.as_str(), device_id) && !str_equal(m.owner_device_id.as_str(), local_device_id) {
            ids.push(m.group_id.clone());
            proof {
                let t = manifests@.take(i + 1);
                assert(pred(manifests@[i as int]));
                assert(t.filter(pred) == manifests@.take(i as int).filter(pred).push(manifests@[i as int]));
                assert(ids.deep_view() =~= old_ids.push(m.group_id@));
                assert(ids.deep_view() =~= manifests@.take(i + 1).filter(pred).map_values(|g: SignedGroupManifest| g.manifest.group_id@));
            }
        } else {
            proof {
                assert(ids.deep_view() =~= manifests@.take(i + 1).filter(pred).map_values(|g: SignedGroupManifest| g.manifest.group_id@));
            }
        }
        i = i + 1;
    }
    proof {
        assert(manifests@.take(manifests@.len() as int) =~= manifests@);
    }
    ids
}

fn contains_text(ids: &[String], id: &str) -> (found: bool)
    ensures
        found == ids.deep_view().contains(id@),
{
    let mut i: usize = 0;
    while i < ids.len()
        invariant
            i <= ids@.len(),
            forall|j: int| 0 <= j < i ==> ids@[j]@ != id@,
        decreases ids@.len() - i,
    {
        if str_equal(ids[i].as_str(), id) {
            proof {
                assert(ids.deep_view()[i as int] == id@);
            }
            return true;
        }
        i = i + 1;
    }
    proof {
        if ids.deep_view().contains(id@) {
            let k = choose|k: int| 0 <= k < ids.deep_view().len() && ids.deep_view()[k] == id@;
            assert(ids@[k]@ == id@);
        }
    }
    false
}

/// Drops the groups whose ids are listed.
fn drop_groups(groups: &mut Vec<SyncGroupView>, ids: &[String])
    ensures
        final(groups)@ == old(groups)@.filter(|g: SyncGroupView| !ids.deep_view().contains(g.group_id@)),
{
    let ghost original = groups@;
    let ghost pred = |g: SyncGroupView| !ids.deep_view().contains(g.group_id@);
    let mut kept: Vec<SyncGroupView> = Vec::new();
    let mut rest: Vec<SyncGroupView> = Vec::new();
    std::mem::swap(&mut rest, groups);
    let ghost mut i: int = 0;
    while rest.len() > 0
        invariant
            0 <= i <= original.len(),
            i + rest@.len() == original.len(),
            rest@ == original.skip(i),
            kept@ == original.take(i).filter(pred),
            pred == (|g: SyncGroupView| !ids.deep_view().contains(g.group_id@)),
        decreases rest@.len(),
    {
        let item = rest.remove(0);
        proof {
            reveal_with_fuel(Seq::filter, 1);
            assert(original.take(i + 1).drop_last() =~= original.take(i));
            assert(original.take(i + 1).last() == item);
            assert(rest@ =~= original.skip(i + 1));
        }
        if !contains_text(ids, item.group_id.as_str()) {
            kept.push(item);
        }
        proof {
            i = i + 1;
        }
    }
    proof {
        assert(original.take(original.len() as int) =~= original);
    }
    *groups = kept;
}

/// A device was revoked: it leaves the paired devices, its slots and
/// pairings go, the groups it owned (`owner_group_ids`) go, and its nearby
/// entry shows it unpaired.
pub fn revoke_device_views(
    trusted: &mut Vec<TrustedDeviceView>,
    slots: &mut Vec<DeviceSlot>,
    pairings: &mut Vec<PendingPairing>,
    groups: &mut Vec<SyncGroupView>,
    nearby: &mut Vec<NearbyDevice>,
    device_id: &str,
    owner_group_ids: &[String],
)
    ensures
        final(trusted)@ == old(trusted)@.filter(|t: TrustedDeviceView| t.device_id@ != device_id@),
        final(slots)@ == old(slots)@.filter(|s: DeviceSlot| s.device_id@ != device_id@),
        final(pairings)@ == old(pairings)@.filter(|p: PendingPairing| p.device_id@ != device_id@),
        final(groups)@ == old(groups)@.filter(|g: SyncGroupView| !owner_group_ids.deep_view().contains(g.group_id@)),
        nearby_marked(old(nearby)@, final(nearby)@, device_id@, false),
{
    drop_trusted(trusted, device_id);
    drop_device_slots(slots, device_id);
    drop_device_pairings(pairings, device_id);
    drop_groups(groups, owner_group_ids);
    mark_nearby(nearby, device_id, false);
}

/// Pauses or resumes publishing (`publish`) or receiving (`subscribe`);
/// another kind is refused.
pub fn set_pause(kind: &str, paused: bool, publish_paused: &mut bool, subscribe_paused: &mut bool) -> (result: Result<(), String>)
    ensures
        kind@ == "publish"@ ==> result is Ok && *final(publish_paused) == paused && *final(subscribe_paused) == *old(subscribe_paused),
        kind@ == "subscribe"@ ==> result is Ok && *final(subscribe_paused) == paused && *final(publish_paused) == *old(publish_paused),
        kind@ != "publish"@ && kind@ != "subscribe"@ ==> (result matches Err(e) && e@ == "未知暂停类型"@)
            && *final(publish_paused) == *old(publish_paused) && *final(subscribe_paused) == *old(subscribe_paused),
{
    proof {
        reveal_strlit("publish");
        reveal_strlit("subscribe");
        assert("publish"@[0] != "subscribe"@[0]);
    }
    if str_equal(kind, "publish") {
        *publish_paused = paused;
        Ok(())
    } else if str_equal(kind, "subscribe") {
        *subscribe_paused = paused;
        Ok(())
    } else {
        Err(String::from_str("未知暂停类型"))
    }
}

/// The activity the interface shows when the app goes to the background or
/// foreground; only the Android app tracks it (elsewhere nothing changes).
/// Another activity is refused.
pub fn app_activity(platform: &str, activity: &str) -> (result: Result<Option<&'static str>, String>)
    ensures
        platform@ != "android"@ ==> result == Ok::<Option<&'static str>, String>(None),
        platform@ == "android"@ ==> {
            if activity@ == "background"@ {
                result matches Ok(Some(s)) && s@ == "suspended"@
            } else if activity@ == "foreground"@ {
                result matches Ok(Some(s)) && s@ == "foreground_live"@
            } else {
                result matches Err(e) && e@ == "未知应用生命周期状态"@
            }
        },
{
    if !str_equal(platform, "android") {
        return Ok(None);
    }
    if str_equal(activity, "background") {
        Ok(Some("suspended"))
    } else if str_equal(activity, "foreground") {
        Ok(Some("foreground_live"))
    } else {
        Err(String::from_str("未知应用生命周期状态"))
    }
}

} // verus!
