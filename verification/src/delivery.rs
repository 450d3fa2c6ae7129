//! Who may send clipboard content to whom: the content types a group
//! carries, which groups an incoming slot may arrive through, which devices
//! an outgoing slot goes to, and which peers are authorized at all.

use vstd::prelude::*;
use vstd::string::*;
use crate::group::{GroupManifest, GroupMember, GroupPolicy, MemberState, SignedGroupManifest, SyncDirection, decode, decoded};
use crate::order::{lemma_sorted_texts_is, sort_dedup_texts, sorted_texts};
use crate::text::str_equal;

verus! {

/// A device this one has paired with, or learned from a shared group.
pub struct TrustedDevice {
    pub device_id: String,
    pub device_name: String,
    pub platform: String,
    pub public_key: Vec<u8>,
    pub certificate_der: Vec<u8>,
    pub paired_at: String,
    pub sync_enabled: bool,
}

impl TrustedDevice {
    /// Equal fields, byte fields compared by their contents.
    pub open spec fn same_as(self, other: TrustedDevice) -> bool {
        &&& self.device_id == other.device_id
        &&& self.device_name == other.device_name
        &&& self.platform == other.platform
        &&& self.public_key@ == other.public_key@
        &&& self.certificate_der@ == other.certificate_der@
        &&& self.paired_at == other.paired_at
        &&& self.sync_enabled == other.sync_enabled
    }
}

impl Clone for TrustedDevice {
    fn clone(&self) -> (copy: Self)
        ensures
            copy.same_as(*self),
    {
        TrustedDevice {
            device_id: self.device_id.clone(),
            device_name: self.device_name.clone(),
            platform: self.platform.clone(),
            public_key: self.public_key.clone(),
            certificate_der: self.certificate_der.clone(),
            paired_at: self.paired_at.clone(),
            sync_enabled: self.sync_enabled,
        }
    }
}

/// Whether a group with policy `p` carries content of type `t` (`text`,
/// `url`, `image`, `html` or `files`); URLs travel with text.
pub open spec fn type_allowed(p: GroupPolicy, t: Seq<char>) -> bool {
    if t == "text"@ {
        p.allow_text
    } else if t == "url"@ {
        p.allow_text
    } else if t == "image"@ {
        p.allow_images
    } else if t == "html"@ {
        p.allow_html
    } else if t == "files"@ {
        p.allow_files
    } else {
        false
    }
}

/// Whether the group policy carries the content type.
pub fn group_type_allowed(policy: &GroupPolicy, content_type: &str) -> (allowed: bool)
    ensures
        allowed == type_allowed(*policy, content_type@),
{
    if str_equal(content_type, "text") {
        policy.allow_text
    } else if str_equal(content_type, "url") {
        policy.allow_text
    } else if str_equal(content_type, "image") {
        policy.allow_images
    } else if str_equal(content_type, "html") {
        policy.allow_html
    } else if str_equal(content_type, "files") {
        policy.allow_files
    } else {
        false
    }
}

/// The group `m` carries content of type `t` from `origin` to `local`: it is
/// one of the groups the content names, it carries the type, and both devices
/// are active members, the origin allowed to send and the local device to
/// receive.
#[verifier::opaque]
pub open spec fn delivers_through(
    m: GroupManifest,
    local: Seq<char>,
    origin: Seq<char>,
    group_ids: Seq<Seq<char>>,
    t: Seq<char>,
) -> bool {
    &&& group_ids.contains(m.group_id@)
    &&& type_allowed(m.policy, t)
    &&& m.active_index(origin) is Some
    &&& m.active_index(local) is Some
    &&& m.members@[m.active_index(origin)->0].direction.publishes()
    &&& m.members@[m.active_index(local)->0].direction.subscribes()
}

/// `name` is the name of a manifest through which the content is delivered.
pub open spec fn delivery_group_name(
    manifests: Seq<SignedGroupManifest>,
    local: Seq<char>,
    origin: Seq<char>,
    group_ids: Seq<Seq<char>>,
    t: Seq<char>,
    name: Seq<char>,
) -> bool {
    exists|i: int| 0 <= i < manifests.len() && delivers_through(#[trigger] manifests[i].manifest, local, origin, group_ids, t)
        && manifests[i].manifest.name@ == name
}

fn contains_text(values: &[String], value: &str) -> (found: bool)
    ensures
        found == values.deep_view().contains(value@),
{
    let ghost views = values.deep_view();
    let mut i: usize = 0;
    while i < values.len()
        invariant
            i <= values@.len(),
            views == values.deep_view(),
            forall|j: int| 0 <= j < i ==> views[j] != value@,
        decreases values@.len() - i,
    {
        if str_equal(values[i].as_str(), value) {
            proof {
                assert(views[i as int] == value@);
            }
            return true;
        }
        i = i + 1;
    }
    false
}

/// Checks that content of type `content_type` from `origin_device_id`,
/// labelled with `group_ids`, reaches this device through some group, and
/// returns the names of all such groups, sorted and each once.
pub fn validate_group_delivery_from_manifests(
    manifests: &[SignedGroupManifest],
    local_device_id: &str,
    origin_device_id: &str,
    group_ids: &[String],
    content_type: &str,
) -> (result: Result<Vec<String>, String>)
    ensures
        match result {
            Ok(names) => names@.len() > 0 && names.deep_view() == sorted_texts(
                |n: Seq<char>| delivery_group_name(manifests@, local_device_id@, origin_device_id@,
                    group_ids.deep_view(), content_type@, n),
            ) && crate::order::texts_strictly_sorted(names.deep_view())
                && forall|n: Seq<char>| names.deep_view().contains(n) <==> #[trigger] delivery_group_name(manifests@,
                local_device_id@, origin_device_id@, group_ids.deep_view(), content_type@, n),
            Err(_) => forall|n: Seq<char>| !#[trigger] delivery_group_name(manifests@, local_device_id@, origin_device_id@,
                group_ids.deep_view(), content_type@, n),
        },
{
    let ghost ids = group_ids.deep_view();
    let ghost member = |n: Seq<char>| delivery_group_name(manifests@, local_device_id@, origin_device_id@, ids, content_type@, n);
    let mut names: Vec<String> = Vec::new();
    let mut i: usize = 0;
    while i < manifests.len()
        invariant
            i <= manifests@.len(),
            ids == group_ids.deep_view(),
            forall|n: Seq<char>| names.deep_view().contains(n) <==> exists|k: int| 0 <= k < i
                && delivers_through(#[trigger] manifests@[k].manifest, local_device_id@, origin_device_id@, ids, content_type@)
                && manifests@[k].manifest.name@ == n,
        decreases manifests@.len() - i,
    {
        let manifest = &manifests[i].manifest;
        let ghost before = names.deep_view();
        let mut delivered = false;
        if contains_text(group_ids, manifest.group_id.as_str()) && group_type_allowed(&manifest.policy, content_type) {
            match manifest.active_member(origin_device_id) {
                Some(origin) => match manifest.active_member(local_device_id) {
                    Some(local) => {
                        if origin.direction.can_publish() && local.direction.can_subscribe() {
                            delivered = true;
                        }
                    },
                    None => {},
                },
                None => {},
            }
        }
        proof {
            lemma_active_member_index(*manifest, origin_device_id@);
            lemma_active_member_index(*manifest, local_device_id@);
        }
        if delivered {
            names.push(manifest.name.clone());
        }
        proof {
            assert(delivered == delivers_through(*manifest, local_device_id@, origin_device_id@, ids, content_type@)) by {
                reveal(delivers_through);
            }
            if delivered {
                assert(names.deep_view() =~= before.push(manifest.name@));
            } else {
                assert(names.deep_view() =~= before);
            }
            assert forall|n: Seq<char>| names.deep_view().contains(n) <==> exists|k: int| 0 <= k < i + 1
                && delivers_through(#[trigger] manifests@[k].manifest, local_device_id@, origin_device_id@, ids, content_type@)
                && manifests@[k].manifest.name@ == n by {
                if names.deep_view().contains(n) && !before.contains(n) {
                    assert(n == manifest.name@);
                    assert(manifests@[i as int].manifest == *manifest);
                }
                if exists|k: int| 0 <= k < i + 1
                    && delivers_through(#[trigger] manifests@[k].manifest, local_device_id@, origin_device_id@, ids, content_type@)
                    && manifests@[k].manifest.name@ == n {
                    let k = choose|k: int| 0 <= k < i + 1
                        && delivers_through(#[trigger] manifests@[k].manifest, local_device_id@, origin_device_id@, ids, content_type@)
                        && manifests@[k].manifest.name@ == n;
                    if k == i {
                        assert(names.deep_view()[names.deep_view().len() - 1] == n);
                    } else {
                        assert(before.contains(n));
                        let j = choose|j: int| 0 <= j < before.len() && before[j] == n;
                        assert(names.deep_view()[j] == n);
                    }
                }
            }
        }
        i = i + 1;
    }
    sort_dedup_texts(&mut names);
    proof {
        assert forall|n: Seq<char>| names.deep_view().contains(n) <==> member(n) by {}
    }
    if names.len() == 0 {
        proof {
            assert forall|n: Seq<char>| !#[trigger] delivery_group_name(manifests@, local_device_id@, origin_device_id@,
                group_ids.deep_view(), content_type@, n) by {
                if member(n) {
                    assert(names.deep_view().contains(n));
                }
            }
        }
        return Err(String::from_str("远端槽位不属于当前允许的同步组"));
    }
    proof {
        lemma_sorted_texts_is(names.deep_view(), member);
    }
    Ok(names)
}

/// `active_member` finds the member at `active_index`.
pub proof fn lemma_active_member_index(m: GroupManifest, device_id: Seq<char>)
    ensures
        m.active_index(device_id) matches Some(i) ==> 0 <= i < m.members@.len()
            && m.members@[i].device_id@ == device_id && m.members@[i].state == MemberState::Active
            && forall|j: int| 0 <= j < i ==> !(#[trigger] m.members@[j].device_id@ == device_id
                && m.members@[j].state == MemberState::Active),
{
    if exists|i: int| 0 <= i < m.members@.len() && #[trigger] m.members@[i].device_id@ == device_id
        && m.members@[i].state == MemberState::Active {
        let w = choose|i: int| 0 <= i < m.members@.len() && #[trigger] m.members@[i].device_id@ == device_id
            && m.members@[i].state == MemberState::Active;
        lemma_first_active(m, device_id, w);
    }
}

proof fn lemma_first_active(m: GroupManifest, device_id: Seq<char>, w: int)
    requires
        0 <= w < m.members@.len(),
        m.members@[w].device_id@ == device_id,
        m.members@[w].state == MemberState::Active,
    ensures
        exists|i: int| 0 <= i < m.members@.len() && #[trigger] m.members@[i].device_id@ == device_id
            && m.members@[i].state == MemberState::Active
            && forall|j: int| 0 <= j < i ==> !(#[trigger] m.members@[j].device_id@ == device_id
                && m.members@[j].state == MemberState::Active),
    decreases w,
{
    if exists|j: int| 0 <= j < w && #[trigger] m.members@[j].device_id@ == device_id && m.members@[j].state == MemberState::Active {
        let j = choose|j: int| 0 <= j < w && #[trigger] m.members@[j].device_id@ == device_id && m.members@[j].state == MemberState::Active;
        lemma_first_active(m, device_id, j);
    }
}

/// The devices one outgoing slot goes to, with the groups it goes through.
pub struct DeliveryTarget {
    pub device_id: String,
    pub group_ids: Vec<String>,
}

/// `member` of group `m` receives content of type `t` that this device
/// (`local`) publishes: the group carries the type, this device is an active
/// member allowed to send, and `member` is another active member allowed to
/// receive that is not blocked here (revoked, or with sync switched off).
pub open spec fn receives_from(
    m: GroupManifest,
    local: Seq<char>,
    t: Seq<char>,
    blocked: Seq<Seq<char>>,
    member: GroupMember,
) -> bool {
    &&& type_allowed(m.policy, t)
    &&& m.active_index(local) is Some
    &&& m.members@[m.active_index(local)->0].direction.publishes()
    &&& member.device_id@ != local
    &&& member.state == MemberState::Active
    &&& member.direction.subscribes()
    &&& !blocked.contains(member.device_id@)
}

/// Content flows only from a member that may send to one that may receive,
/// and never to or from a disabled one: where a group delivers content from
/// `origin` to `local`, the origin's direction is send-only or
/// bidirectional and the local device's is receive-only or bidirectional.
pub proof fn lemma_delivery_respects_directions(
    m: GroupManifest,
    local: Seq<char>,
    origin: Seq<char>,
    group_ids: Seq<Seq<char>>,
    t: Seq<char>,
)
    requires
        delivers_through(m, local, origin, group_ids, t),
    ensures
        ({
            let o = m.members@[m.active_index(origin)->0].direction;
            let l = m.members@[m.active_index(local)->0].direction;
            &&& o == SyncDirection::SendOnly || o == SyncDirection::Bidirectional
            &&& l == SyncDirection::ReceiveOnly || l == SyncDirection::Bidirectional
            &&& o != SyncDirection::Disabled && l != SyncDirection::Disabled
        }),
{
    reveal(delivers_through);
}

/// An outgoing slot goes only to members that may receive: a member that
/// receives what this device publishes has direction receive-only or
/// bidirectional (never disabled or send-only), and this device's own
/// direction is send-only or bidirectional.
pub proof fn lemma_targets_may_receive(
    m: GroupManifest,
    local: Seq<char>,
    t: Seq<char>,
    blocked: Seq<Seq<char>>,
    member: GroupMember,
)
    requires
        receives_from(m, local, t, blocked, member),
    ensures
        member.direction == SyncDirection::ReceiveOnly || member.direction == SyncDirection::Bidirectional,
        member.direction != SyncDirection::Disabled,
        ({
            let l = m.members@[m.active_index(local)->0].direction;
            l == SyncDirection::SendOnly || l == SyncDirection::Bidirectional
        }),
{
}

/// The (device, group) pairs of the receiving members among `members` of `m`,
/// in order.
pub open spec fn member_pairs(
    m: GroupManifest,
    members: Seq<GroupMember>,
    local: Seq<char>,
    t: Seq<char>,
    blocked: Seq<Seq<char>>,
) -> Seq<(Seq<char>, Seq<char>)>
    decreases members.len(),
{
    if members.len() == 0 {
        Seq::empty()
    } else {
        let init = member_pairs(m, members.drop_last(), local, t, blocked);
        if receives_from(m, local, t, blocked, members.last()) {
            init.push((members.last().device_id@, m.group_id@))
        } else {
            init
        }
    }
}

/// The (device, group) pairs over all manifests, in order.
pub open spec fn delivery_pairs(
    manifests: Seq<SignedGroupManifest>,
    local: Seq<char>,
    t: Seq<char>,
    blocked: Seq<Seq<char>>,
) -> Seq<(Seq<char>, Seq<char>)>
    decreases manifests.len(),
{
    if manifests.len() == 0 {
        Seq::empty()
    } else {
        let m = manifests.last().manifest;
        delivery_pairs(manifests.drop_last(), local, t, blocked) + member_pairs(m, m.members@, local, t, blocked)
    }
}

/// The groups paired with device `d`, in order.
pub open spec fn groups_of(pairs: Seq<(Seq<char>, Seq<char>)>, d: Seq<char>) -> Seq<Seq<char>>
    decreases pairs.len(),
{
    if pairs.len() == 0 {
        Seq::empty()
    } else if pairs.last().0 == d {
        groups_of(pairs.drop_last(), d).push(pairs.last().1)
    } else {
        groups_of(pairs.drop_last(), d)
    }
}

proof fn lemma_groups_of_absent(pairs: Seq<(Seq<char>, Seq<char>)>, d: Seq<char>)
    requires
        forall|k: int| 0 <= k < pairs.len() ==> (#[trigger] pairs[k]).0 != d,
    ensures
        groups_of(pairs, d) == Seq::<Seq<char>>::empty(),
    decreases pairs.len(),
{
    if pairs.len() > 0 {
        assert(pairs.last() == pairs[pairs.len() - 1]);
        lemma_groups_of_absent(pairs.drop_last(), d);
    }
}

/// Some target is device `d`.
pub open spec fn has_target(targets: Seq<DeliveryTarget>, d: Seq<char>) -> bool {
    exists|k: int| 0 <= k < targets.len() && (#[trigger] targets[k]).device_id@ == d
}

/// Some pair has device `d`.
pub open spec fn has_pair(pairs: Seq<(Seq<char>, Seq<char>)>, d: Seq<char>) -> bool {
    exists|p: int| 0 <= p < pairs.len() && (#[trigger] pairs[p]).0 == d
}

/// The targets hold the devices of `pairs`, each once, each with its groups.
pub open spec fn targets_match(targets: Seq<DeliveryTarget>, pairs: Seq<(Seq<char>, Seq<char>)>) -> bool {
    &&& forall|a: int, b: int| 0 <= a < b < targets.len() ==> (#[trigger] targets[a]).device_id@ != (#[trigger] targets[b]).device_id@
    &&& forall|k: int| 0 <= k < targets.len() ==> (#[trigger] targets[k]).group_ids.deep_view() == groups_of(pairs, targets[k].device_id@)
    &&& forall|d: Seq<char>| #![trigger has_target(targets, d)] #![trigger has_pair(pairs, d)] has_target(targets, d) <==> has_pair(pairs, d)
}

/// Adds the pair (`device_id`, `group_id`) to the targets.
#[verifier::loop_isolation(false)]
fn add_target(targets: &mut Vec<DeliveryTarget>, device_id: &str, group_id: &str, pairs: Ghost<Seq<(Seq<char>, Seq<char>)>>)
    requires
        targets_match(old(targets)@, pairs@),
    ensures
        targets_match(final(targets)@, pairs@.push((device_id@, group_id@))),
{
    let ghost all = pairs@.push((device_id@, group_id@));
    let ghost before = targets@;
    proof {
        assert forall|x: Seq<char>| #![all_triggers] groups_of(all, x) == if x == device_id@ {
            groups_of(pairs@, x).push(group_id@)
        } else {
            groups_of(pairs@, x)
        } by {
            assert(all.drop_last() =~= pairs@);
        }
    }
    let mut k: usize = 0;
    while k < targets.len()
        invariant
            k <= targets@.len(),
            targets@ == before,
            forall|j: int| 0 <= j < k ==> (#[trigger] targets@[j]).device_id@ != device_id@,
        decreases targets@.len() - k,
    {
        if str_equal(targets[k].device_id.as_str(), device_id) {
            let mut entry = targets.remove(k);
            entry.group_ids.push(String::from_str(group_id));
            targets.insert(k, entry);
            proof {
                let t = targets@;
                assert forall|a: int, b: int| 0 <= a < b < t.len() implies (#[trigger] t[a]).device_id@ != (#[trigger] t[b]).device_id@ by {
                    assert(t[a].device_id == before[a].device_id);
                    assert(t[b].device_id == before[b].device_id);
                }
                assert forall|j: int| 0 <= j < t.len() implies (#[trigger] t[j]).group_ids.deep_view() == groups_of(all, t[j].device_id@) by {
                    if j == k {
                        assert(t[j].group_ids.deep_view() =~= before[j].group_ids.deep_view().push(group_id@));
                    } else {
                        assert(t[j] == before[j]);
                        assert(before[j].device_id@ != device_id@);
                    }
                }
                assert forall|d: Seq<char>| has_target(t, d) <==> has_pair(all, d) by {
                    if exists|j: int| 0 <= j < t.len() && (#[trigger] t[j]).device_id@ == d {
                        let j = choose|j: int| 0 <= j < t.len() && (#[trigger] t[j]).device_id@ == d;
                        assert(before[j].device_id@ == d);
                        if d != device_id@ {
                            assert(has_target(before, d));
                            let p = choose|p: int| 0 <= p < pairs@.len() && (#[trigger] pairs@[p]).0 == d;
                            assert(all[p] == pairs@[p]);
                        } else {
                            assert(all[all.len() - 1].0 == d);
                        }
                    }
                    if exists|p: int| 0 <= p < all.len() && (#[trigger] all[p]).0 == d {
                        let p = choose|p: int| 0 <= p < all.len() && (#[trigger] all[p]).0 == d;
                        if d == device_id@ {
                            assert(t[k as int].device_id@ == d);
                        } else {
                            assert(all[p] == pairs@[p]);
                            assert(has_pair(pairs@, d));
                            let j = choose|j: int| 0 <= j < before.len() && (#[trigger] before[j]).device_id@ == d;
                            assert(t[j].device_id == before[j].device_id);
                        }
                    }
                }
            }
            return;
        }
        k = k + 1;
    }
    let mut groups: Vec<String> = Vec::new();
    groups.push(String::from_str(group_id));
    targets.push(DeliveryTarget { device_id: String::from_str(device_id), group_ids: groups });
    proof {
        let t = targets@;
        assert forall|p: int| 0 <= p < pairs@.len() implies (#[trigger] pairs@[p]).0 != device_id@ by {
            if pairs@[p].0 == device_id@ {
                assert(has_pair(pairs@, device_id@));
                let j = choose|j: int| 0 <= j < before.len() && (#[trigger] before[j]).device_id@ == device_id@;
            }
        }
        lemma_groups_of_absent(pairs@, device_id@);
        assert forall|a: int, b: int| 0 <= a < b < t.len() implies (#[trigger] t[a]).device_id@ != (#[trigger] t[b]).device_id@ by {
            assert(t[a] == before[a]);
            if b < before.len() {
                assert(t[b] == before[b]);
            }
        }
        assert forall|j: int| 0 <= j < t.len() implies (#[trigger] t[j]).group_ids.deep_view() == groups_of(all, t[j].device_id@) by {
            if j == before.len() {
                assert(t[j].group_ids.deep_view() =~= Seq::<Seq<char>>::empty().push(group_id@));
            } else {
                assert(t[j] == before[j]);
            }
        }
        assert forall|d: Seq<char>| has_target(t, d) <==> has_pair(all, d) by {
            if exists|j: int| 0 <= j < t.len() && (#[trigger] t[j]).device_id@ == d {
                let j = choose|j: int| 0 <= j < t.len() && (#[trigger] t[j]).device_id@ == d;
                if j == before.len() {
                    assert(all[all.len() - 1].0 == d);
                } else {
                    assert(t[j] == before[j]);
                    assert(has_target(before, d));
                    let p = choose|p: int| 0 <= p < pairs@.len() && (#[trigger] pairs@[p]).0 == d;
                    assert(all[p] == pairs@[p]);
                }
            }
            if exists|p: int| 0 <= p < all.len() && (#[trigger] all[p]).0 == d {
                let p = choose|p: int| 0 <= p < all.len() && (#[trigger] all[p]).0 == d;
                if p == pairs@.len() {
                    assert(t[before.len() as int].device_id@ == d);
                } else {
                    assert(all[p] == pairs@[p]);
                    assert(has_pair(pairs@, d));
                    let j = choose|j: int| 0 <= j < before.len() && (#[trigger] before[j]).device_id@ == d;
                    assert(t[j] == before[j]);
                }
            }
        }
    }
}

proof fn lemma_member_pairs_none(m: GroupManifest, members: Seq<GroupMember>, local: Seq<char>, t: Seq<char>, blocked: Seq<Seq<char>>)
    requires
        !(type_allowed(m.policy, t) && m.active_index(local) is Some && m.members@[m.active_index(local)->0].direction.publishes()),
    ensures
        member_pairs(m, members, local, t, blocked) == Seq::<(Seq<char>, Seq<char>)>::empty(),
    decreases members.len(),
{
    if members.len() > 0 {
        lemma_member_pairs_none(m, members.drop_last(), local, t, blocked);
    }
}

/// The devices that content of type `content_type` published here goes to,
/// each with the groups it goes through: every other active, receiving,
/// unblocked member of every group that carries the type and in which this
/// device is an active, sending member. `blocked` lists the devices that are
/// revoked or have sync switched off here.
pub fn delivery_targets(
    manifests: &[SignedGroupManifest],
    local_device_id: &str,
    content_type: &str,
    blocked: &[String],
) -> (targets: Vec<DeliveryTarget>)
    ensures
        targets_match(targets@, delivery_pairs(manifests@, local_device_id@, content_type@, blocked.deep_view())),
{
    let ghost local = local_device_id@;
    let ghost t = content_type@;
    let ghost bl = blocked.deep_view();
    let mut targets: Vec<DeliveryTarget> = Vec::new();
    let mut i: usize = 0;
    proof {
        assert(manifests@.take(0) =~= Seq::<SignedGroupManifest>::empty());
    }
    while i < manifests.len()
        invariant
            i <= manifests@.len(),
            local == local_device_id@,
            t == content_type@,
            bl == blocked.deep_view(),
            targets_match(targets@, delivery_pairs(manifests@.take(i as int), local, t, bl)),
        decreases manifests@.len() - i,
    {
        let manifest = &manifests[i].manifest;
        let ghost done = delivery_pairs(manifests@.take(i as int), local, t, bl);
        proof {
            assert(manifests@.take(i + 1).drop_last() =~= manifests@.take(i as int));
            assert(manifests@.take(i + 1).last() == manifests@[i as int]);
            lemma_active_member_index(*manifest, local);
        }
        let mut sends = false;
        if group_type_allowed(&manifest.policy, content_type) {
            match manifest.active_member(local_device_id) {
                Some(member) => {
                    sends = member.direction.can_publish();
                },
                None => {},
            }
        }
        if sends {
            let mut j: usize = 0;
            proof {
                assert(manifest.members@.take(0) =~= Seq::<GroupMember>::empty());
                assert(done + Seq::<(Seq<char>, Seq<char>)>::empty() =~= done);
            }
            while j < manifest.members.len()
                invariant
                    j <= manifest.members@.len(),
                    sends,
                    type_allowed(manifest.policy, t),
                    manifest.active_index(local) is Some,
                    manifest.members@[manifest.active_index(local)->0].direction.publishes(),
                    local == local_device_id@,
                    t == content_type@,
                    bl == blocked.deep_view(),
                    targets_match(targets@, done + member_pairs(*manifest, manifest.members@.take(j as int), local, t, bl)),
                decreases manifest.members@.len() - j,
            {
                let member = &manifest.members[j];
                let ghost before = member_pairs(*manifest, manifest.members@.take(j as int), local, t, bl);
                proof {
                    assert(manifest.members@.take(j + 1).drop_last() =~= manifest.members@.take(j as int));
                    assert(manifest.members@.take(j + 1).last() == manifest.members@[j as int]);
                }
                if !str_equal(member.device_id.as_str(), local_device_id) && member.state == MemberState::Active
                    && member.direction.can_subscribe() && !contains_text(blocked, member.device_id.as_str()) {
                    add_target(&mut targets, member.device_id.as_str(), manifest.group_id.as_str(), Ghost(done + before));
                    proof {
                        assert((done + before).push((member.device_id@, manifest.group_id@)) =~= done + before.push(
                            (member.device_id@, manifest.group_id@),
                        ));
                    }
                }
                j = j + 1;
            }
            proof {
                assert(manifest.members@.take(manifest.members@.len() as int) =~= manifest.members@);
            }
        } else {
            proof {
                lemma_member_pairs_none(*manifest, manifest.members@, local, t, bl);
                assert(done + member_pairs(*manifest, manifest.members@, local, t, bl) =~= done);
            }
        }
        i = i + 1;
    }
    proof {
        assert(manifests@.take(manifests@.len() as int) =~= manifests@);
    }
    targets
}

/// What `trusted_from_group_member` makes of a member: a trusted device with
/// the member's names and decoded key and certificate, sync enabled; or which
/// Base64 field failed to decode, the key checked first.
pub open spec fn member_device_matches(member: GroupMember, result: Result<TrustedDevice, String>) -> bool {
    match result {
        Ok(d) => {
            &&& decoded(member.public_key@) == Some(d.public_key@)
            &&& decoded(member.certificate@) == Some(d.certificate_der@)
            &&& d.device_id == member.device_id
            &&& d.device_name == member.device_name
            &&& d.platform == member.platform
            &&& d.paired_at == member.joined_at
            &&& d.sync_enabled
        },
        Err(e) => if decoded(member.public_key@) is None {
            e@ == "同步组成员公钥编码无效"@
        } else {
            decoded(member.certificate@) is None && e@ == "同步组成员证书编码无效"@
        },
    }
}

/// The trusted device that a group member stands for.
pub fn trusted_from_group_member(member: &GroupMember) -> (result: Result<TrustedDevice, String>)
    ensures
        member_device_matches(*member, result),
{
    let public_key = match decode(member.public_key.as_str()) {
        Some(key) => key,
        None => return Err(String::from_str("同步组成员公钥编码无效")),
    };
    let certificate_der = match decode(member.certificate.as_str()) {
        Some(certificate) => certificate,
        None => return Err(String::from_str("同步组成员证书编码无效")),
    };
    Ok(TrustedDevice {
        device_id: member.device_id.clone(),
        device_name: member.device_name.clone(),
        platform: member.platform.clone(),
        public_key,
        certificate_der,
        paired_at: member.joined_at.clone(),
        sync_enabled: true,
    })
}

/// Both this device and `device` are active members of `m`.
pub open spec fn shares_group(m: GroupManifest, local: Seq<char>, device: Seq<char>) -> bool {
    m.active_index(local) is Some && m.active_index(device) is Some
}

/// Manifest `i` is the first in which both devices are active members.
pub open spec fn first_shared(manifests: Seq<SignedGroupManifest>, local: Seq<char>, device: Seq<char>, i: int) -> bool {
    &&& 0 <= i < manifests.len()
    &&& shares_group(manifests[i].manifest, local, device)
    &&& forall|j: int| 0 <= j < i ==> !#[trigger] shares_group(manifests[j].manifest, local, device)
}

fn find_shared_group(manifests: &[SignedGroupManifest], local_device_id: &str, device_id: &str) -> (found: Option<usize>)
    ensures
        match found {
            Some(i) => first_shared(manifests@, local_device_id@, device_id@, i as int),
            None => forall|j: int| 0 <= j < manifests@.len() ==> !#[trigger] shares_group(manifests@[j].manifest, local_device_id@, device_id@),
        },
{
    let ghost local = local_device_id@;
    let ghost device = device_id@;
    let mut i: usize = 0;
    while i < manifests.len()
        invariant
            i <= manifests@.len(),
            local == local_device_id@,
            device == device_id@,
            forall|j: int| 0 <= j < i ==> !#[trigger] shares_group(manifests@[j].manifest, local, device),
        decreases manifests@.len() - i,
    {
        let manifest = &manifests[i].manifest;
        let both = manifest.active_member(local_device_id).is_some() && manifest.active_member(device_id).is_some();
        assert(both == shares_group(*manifest, local, device)) by {
            lemma_active_member_index(*manifest, local);
            lemma_active_member_index(*manifest, device);
        }
        if both {
            return Some(i);
        }
        i = i + 1;
    }
    None
}

/// Whether device `device_id` may exchange content with this device, and as
/// what: a revoked device may not; a trusted (paired) device may while its
/// sync is enabled; otherwise the device is authorized by the first group in
/// which both are active members. `revoked` and `trusted` are what the store
/// holds for the device.
#[verifier::spinoff_prover]
#[verifier::rlimit(40)]
pub fn authorized_device(
    revoked: bool,
    trusted: Option<TrustedDevice>,
    manifests: &[SignedGroupManifest],
    local_device_id: &str,
    device_id: &str,
) -> (result: Result<Option<TrustedDevice>, String>)
    ensures
        revoked ==> result matches Ok(None),
        !revoked && trusted.is_some() ==> match result {
            Ok(Some(d)) => trusted->0.sync_enabled && d == trusted->0,
            Ok(None) => !trusted->0.sync_enabled,
            Err(_) => false,
        },
        !revoked && trusted.is_none() ==> match result {
            Ok(None) => forall|j: int| 0 <= j < manifests@.len() ==> !#[trigger] shares_group(manifests@[j].manifest, local_device_id@, device_id@),
            _ => exists|i: int| #[trigger] first_shared(manifests@, local_device_id@, device_id@, i) && {
                let m = manifests@[i].manifest;
                match result {
                    Ok(Some(d)) => member_device_matches(m.members@[m.active_index(device_id@)->0], Ok(d)),
                    Err(e) => member_device_matches(m.members@[m.active_index(device_id@)->0], Err(e)),
                    Ok(None) => false,
                }
            },
        },
{
    if revoked {
        return Ok(None);
    }
    match trusted {
        Some(device) => {
            if device.sync_enabled {
                return Ok(Some(device));
            } else {
                return Ok(None);
            }
        },
        None => {},
    }
    match find_shared_group(manifests, local_device_id, device_id) {
        Some(i) => {
            let manifest = &manifests[i].manifest;
            proof {
                lemma_active_member_index(*manifest, device_id@);
            }
            match manifest.active_member(device_id) {
                Some(member) => {
                    let converted = trusted_from_group_member(member);
                    proof {
                        assert(first_shared(manifests@, local_device_id@, device_id@, i as int));
                    }
                    match converted {
                        Ok(d) => Ok(Some(d)),
                        Err(e) => Err(e),
                    }
                },
                None => Ok(None),
            }
        },
        None => Ok(None),
    }
}

/// The content types this device sends and accepts, as its settings say.
#[derive(Clone, Copy, Debug, PartialEq, Eq, Structural)]
pub struct ContentPermissions {
    pub allow_text: bool,
    pub allow_html: bool,
    pub allow_images: bool,
    pub allow_urls: bool,
    pub allow_files: bool,
}

/// Whether the settings allow content of type `t`.
pub open spec fn permits(p: ContentPermissions, t: Seq<char>) -> bool {
    if t == "text"@ {
        p.allow_text
    } else if t == "url"@ {
        p.allow_urls
    } else if t == "image"@ {
        p.allow_images
    } else if t == "html"@ {
        p.allow_html
    } else if t == "files"@ {
        p.allow_files
    } else {
        false
    }
}

/// Each setting governs its own content type and only that one: text goes
/// by `allow_text`, URLs by `allow_urls`, images by `allow_images`, HTML by
/// `allow_html`, files by `allow_files`, any other type is refused; and
/// switching one setting off refuses its type, whatever the other settings,
/// while every other type stays as it was.
pub proof fn lemma_each_setting_governs_its_type(p: ContentPermissions, t: Seq<char>)
    ensures
        permits(p, "text"@) == p.allow_text,
        permits(p, "url"@) == p.allow_urls,
        permits(p, "image"@) == p.allow_images,
        permits(p, "html"@) == p.allow_html,
        permits(p, "files"@) == p.allow_files,
        t != "text"@ && t != "url"@ && t != "image"@ && t != "html"@ && t != "files"@ ==> !permits(p, t),
        permits(ContentPermissions { allow_files: false, ..p }, t) == (t != "files"@ && permits(p, t)),
        permits(ContentPermissions { allow_html: false, ..p }, t) == (t != "html"@ && permits(p, t)),
        permits(ContentPermissions { allow_images: false, ..p }, t) == (t != "image"@ && permits(p, t)),
        permits(ContentPermissions { allow_urls: false, ..p }, t) == (t != "url"@ && permits(p, t)),
        permits(ContentPermissions { allow_text: false, ..p }, t) == (t != "text"@ && permits(p, t)),
{
    reveal_strlit("text");
    reveal_strlit("url");
    reveal_strlit("image");
    reveal_strlit("html");
    reveal_strlit("files");
    assert("text"@.len() == 4 && "url"@.len() == 3 && "image"@.len() == 5 && "html"@.len() == 4 && "files"@.len() == 5);
    assert("text"@[0] != "html"@[0]);
    assert("image"@[0] != "files"@[0]);
}

/// Whether the settings allow the content type.
pub fn content_enabled(permissions: &ContentPermissions, content_type: &str) -> (enabled: bool)
    ensures
        enabled == permits(*permissions, content_type@),
{
    if str_equal(content_type, "text") {
        permissions.allow_text
    } else if str_equal(content_type, "url") {
        permissions.allow_urls
    } else if str_equal(content_type, "image") {
        permissions.allow_images
    } else if str_equal(content_type, "html") {
        permissions.allow_html
    } else if str_equal(content_type, "files") {
        permissions.allow_files
    } else {
        false
    }
}

/// Whether content of the type may be published now: publishing is not
/// paused and the settings allow the type.
pub fn can_publish_content(publish_paused: bool, permissions: &ContentPermissions, content_type: &str) -> (allowed: bool)
    ensures
        allowed == (!publish_paused && permits(*permissions, content_type@)),
{
    !publish_paused && content_enabled(permissions, content_type)
}

/// Checks an incoming offer: it must reach this device through some group
/// (as `validate_group_delivery_from_manifests` checks), receiving must not
/// be paused, and the settings must allow the type.
pub fn validate_incoming_offer(
    manifests: &[SignedGroupManifest],
    local_device_id: &str,
    origin_device_id: &str,
    group_ids: &[String],
    content_type: &str,
    subscribe_paused: bool,
    permissions: &ContentPermissions,
) -> (result: Result<(), String>)
    ensures
        result is Ok <==> (exists|n: Seq<char>| #[trigger] delivery_group_name(manifests@, local_device_id@, origin_device_id@,
            group_ids.deep_view(), content_type@, n)) && !subscribe_paused && permits(*permissions, content_type@),
{
    match validate_group_delivery_from_manifests(manifests, local_device_id, origin_device_id, group_ids, content_type) {
        Ok(names) => {
            proof {
                assert(names.deep_view().contains(names.deep_view()[0]));
                assert(delivery_group_name(manifests@, local_device_id@, origin_device_id@, group_ids.deep_view(), content_type@,
                    names.deep_view()[0]));
            }
        },
        Err(e) => return Err(e),
    }
    if subscribe_paused || !content_enabled(permissions, content_type) {
        return Err(String::from_str("本机策略已停用此内容类型的接收"));
    }
    Ok(())
}

} // verus!
