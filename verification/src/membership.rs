//! How the owner of a group changes it: new groups, members that accept,
//! change direction, are removed or leave, policy changes and the end of a
//! group. Every change is a new revision and a new membership epoch.

use vstd::prelude::*;
use vstd::string::*;
use crate::delivery::TrustedDevice;
use crate::formats::{base64_encode, base64_text};
use crate::group::{
    GroupManifest, GroupMember, GroupPolicy, GroupTombstone, MemberState, SyncDirection, GROUP_ENCODING_VERSION,
    MAX_GROUP_MEMBERS, manifest_normalized, member_identity_valid, members_distinct, owner_active,
};
use crate::order::{SortKey, seq_lt, sort_dedup_texts, sorted_texts, strictly_sorted_by_key};
use crate::text::str_equal;
use crate::group::{decode, decoded};
use crate::views::{CreateSyncGroupInput, UpdateGroupPolicyInput};

verus! {

/// The next revision or epoch: one more, saturating at `u64::MAX`.
pub open spec fn next_version(v: u64) -> u64 {
    if v < u64::MAX {
        (v + 1) as u64
    } else {
        v
    }
}

fn bump(v: u64) -> (next: u64)
    ensures
        next == next_version(v),
{
    v.saturating_add(1)
}

/// A sync direction by its name: `disabled`, `send_only`, `receive_only` or
/// `bidirectional`.
pub open spec fn direction_named(name: Seq<char>) -> Option<SyncDirection> {
    if name == "disabled"@ {
        Some(SyncDirection::Disabled)
    } else if name == "send_only"@ {
        Some(SyncDirection::SendOnly)
    } else if name == "receive_only"@ {
        Some(SyncDirection::ReceiveOnly)
    } else if name == "bidirectional"@ {
        Some(SyncDirection::Bidirectional)
    } else {
        None
    }
}

/// The direction names mean what they say: a name reads as a direction
/// that publishes exactly when the name is `send_only` or `bidirectional`,
/// and subscribes exactly when it is `receive_only` or `bidirectional`; no
/// two names read as the same direction, and every direction has a name.
pub proof fn lemma_direction_names(a: Seq<char>, b: Seq<char>, d: SyncDirection)
    ensures
        direction_named(a) matches Some(x) ==> (x.publishes() <==> (a == "send_only"@ || a == "bidirectional"@))
            && (x.subscribes() <==> (a == "receive_only"@ || a == "bidirectional"@)),
        direction_named(a) is Some && direction_named(a) == direction_named(b) ==> a == b,
        exists|n: Seq<char>| direction_named(n) == Some(d),
{
    reveal_strlit("disabled");
    reveal_strlit("send_only");
    reveal_strlit("receive_only");
    reveal_strlit("bidirectional");
    assert("disabled"@.len() == 8 && "send_only"@.len() == 9 && "receive_only"@.len() == 12 && "bidirectional"@.len() == 13);
    match d {
        SyncDirection::Disabled => assert(direction_named("disabled"@) == Some(d)),
        SyncDirection::SendOnly => assert(direction_named("send_only"@) == Some(d)),
        SyncDirection::ReceiveOnly => assert(direction_named("receive_only"@) == Some(d)),
        SyncDirection::Bidirectional => assert(direction_named("bidirectional"@) == Some(d)),
    }
}

/// Reads a sync direction from its name.
pub fn parse_direction(name: &str) -> (direction: Result<SyncDirection, String>)
    ensures
        match direction {
            Ok(d) => direction_named(name@) == Some(d),
            Err(_) => direction_named(name@) is None,
        },
{
    if str_equal(name, "disabled") {
        Ok(SyncDirection::Disabled)
    } else if str_equal(name, "send_only") {
        Ok(SyncDirection::SendOnly)
    } else if str_equal(name, "receive_only") {
        Ok(SyncDirection::ReceiveOnly)
    } else if str_equal(name, "bidirectional") {
        Ok(SyncDirection::Bidirectional)
    } else {
        Err(String::from_str("未知同步方向"))
    }
}

/// The devices a new group invites: the chosen ids sorted, each once, one to
/// fifteen of them (the owner makes the group's sixteenth member).
pub fn normalize_member_ids(ids: Vec<String>) -> (result: Result<Vec<String>, String>)
    ensures
        match result {
            Ok(sorted) => sorted.deep_view() == sorted_texts(|x: Seq<char>| ids.deep_view().contains(x))
                && 1 <= sorted@.len() && sorted@.len() + 1 <= MAX_GROUP_MEMBERS,
            Err(_) => {
                let n = sorted_texts(|x: Seq<char>| ids.deep_view().contains(x)).len();
                n == 0 || n + 1 > MAX_GROUP_MEMBERS
            },
        },
{
    let ghost original = ids.deep_view();
    let mut sorted = ids;
    sort_dedup_texts(&mut sorted);
    proof {
        crate::order::lemma_sorted_texts_is(sorted.deep_view(), |x: Seq<char>| original.contains(x));
    }
    if sorted.len() == 0 || sorted.len() >= MAX_GROUP_MEMBERS {
        return Err(String::from_str("请选择 1 到 15 台可信设备"));
    }
    Ok(sorted)
}

/// The member that a trusted device becomes when invited: its names and
/// Base64 key and certificate, invited, both directions.
pub open spec fn invited_member_of(m: GroupMember, device: TrustedDevice, joined_at: Seq<char>) -> bool {
    &&& m.device_id == device.device_id
    &&& m.device_name == device.device_name
    &&& m.platform == device.platform
    &&& m.public_key@ == base64_text(device.public_key@)
    &&& m.certificate@ == base64_text(device.certificate_der@)
    &&& m.joined_at@ == joined_at
    &&& m.state == MemberState::Invited
    &&& m.direction == SyncDirection::Bidirectional
}

/// A stored device whose key and certificate Base64 can encode.
pub open spec fn encodable_device(device: Option<TrustedDevice>) -> bool {
    device matches Some(d) ==> d.public_key@.len() <= usize::MAX / 512 && d.certificate_der@.len() <= usize::MAX / 512
}

/// A trusted device with sync enabled that `m` stands for as invited.
pub open spec fn ready_device_as(device: Option<TrustedDevice>, m: GroupMember, joined_at: Seq<char>) -> bool {
    device matches Some(d) && d.sync_enabled && invited_member_of(m, d, joined_at)
}

/// A trusted device with sync enabled.
pub open spec fn ready_device(device: Option<TrustedDevice>) -> bool {
    device matches Some(d) && d.sync_enabled
}

/// The members of a new group: the owner, then each chosen device in order
/// as an invited member. Each chosen device must be trusted with sync
/// enabled (`devices[i]` is what the store holds for `ids[i]`).
pub fn new_group_members(
    owner: GroupMember,
    ids: &[String],
    devices: &[Option<TrustedDevice>],
    joined_at: &str,
) -> (result: Result<Vec<GroupMember>, String>)
    requires
        ids@.len() == devices@.len(),
        forall|i: int| 0 <= i < devices@.len() ==> encodable_device(#[trigger] devices@[i]),
    ensures
        match result {
            Ok(members) => {
                &&& members@.len() == ids@.len() + 1
                &&& members@[0] == owner
                &&& forall|i: int| 0 <= i < ids@.len() ==> ready_device_as(#[trigger] devices@[i], members@[i + 1], joined_at@)
            },
            Err(_) => exists|i: int| 0 <= i < ids@.len() && !ready_device(#[trigger] devices@[i]),
        },
{
    let mut members: Vec<GroupMember> = Vec::new();
    members.push(owner);
    let mut i: usize = 0;
    while i < ids.len()
        invariant
            ids@.len() == devices@.len(),
            forall|k: int| 0 <= k < devices@.len() ==> encodable_device(#[trigger] devices@[k]),
            i <= ids@.len(),
            members@.len() == i + 1,
            members@[0] == owner,
            forall|k: int| 0 <= k < i ==> ready_device_as(#[trigger] devices@[k], members@[k + 1], joined_at@),
        decreases ids@.len() - i,
    {
        match &devices[i] {
            Some(device) => {
                if !device.sync_enabled {
                    return Err(device_not_ready(ids[i].as_str()));
                }
                let member = GroupMember {
                    device_id: device.device_id.clone(),
                    device_name: device.device_name.clone(),
                    platform: device.platform.clone(),
                    public_key: base64_encode(device.public_key.as_slice()),
                    certificate: base64_encode(device.certificate_der.as_slice()),
                    joined_at: String::from_str(joined_at),
                    state: MemberState::Invited,
                    direction: SyncDirection::Bidirectional,
                };
                members.push(member);
            },
            None => {
                return Err(device_not_ready(ids[i].as_str()));
            },
        }
        i = i + 1;
    }
    Ok(members)
}

fn device_not_ready(device_id: &str) -> (message: String)
    ensures
        message@ == "设备 "@ + device_id@ + " 尚未直接配对或同步已停用"@,
{
    let mut message = String::from_str("设备 ");
    message.append(device_id);
    message.append(" 尚未直接配对或同步已停用");
    message
}

/// The policy of a new group: the content types the request chose, offline
/// content kept for a day.
pub fn new_group_policy(input: &CreateSyncGroupInput) -> (policy: GroupPolicy)
    ensures
        policy == (GroupPolicy {
            allow_text: input.allow_text,
            allow_images: input.allow_images,
            allow_html: input.allow_html,
            allow_files: input.allow_files,
            offline_ttl_seconds: 86400,
        }),
{
    GroupPolicy {
        allow_text: input.allow_text,
        allow_images: input.allow_images,
        allow_html: input.allow_html,
        allow_files: input.allow_files,
        offline_ttl_seconds: 24 * 60 * 60,
    }
}

/// The first manifest of a new group: revision and epoch 1.
pub fn new_group_manifest(
    group_id: String,
    owner_device_id: String,
    name: String,
    policy: GroupPolicy,
    members: Vec<GroupMember>,
) -> (manifest: GroupManifest)
    ensures
        manifest.encoding_version == GROUP_ENCODING_VERSION,
        manifest.group_id == group_id,
        manifest.owner_device_id == owner_device_id,
        manifest.name == name,
        manifest.revision == 1,
        manifest.membership_epoch == 1,
        manifest.policy == policy,
        manifest.members@ == members@,
{
    GroupManifest {
        encoding_version: GROUP_ENCODING_VERSION,
        group_id,
        owner_device_id,
        name,
        revision: 1,
        membership_epoch: 1,
        policy,
        members,
    }
}

/// Which members an operation may pick.
#[derive(Clone, Copy, Debug, PartialEq, Eq, Structural)]
pub enum MemberFilter {
    Any,
    Active,
    Invited,
    NotRemoved,
}

/// `m` has id `device_id` and passes the filter.
pub open spec fn picked(m: GroupMember, device_id: Seq<char>, filter: MemberFilter) -> bool {
    m.device_id@ == device_id && match filter {
        MemberFilter::Any => true,
        MemberFilter::Active => m.state == MemberState::Active,
        MemberFilter::Invited => m.state == MemberState::Invited,
        MemberFilter::NotRemoved => m.state != MemberState::Removed,
    }
}

/// Member `i` is the first that the filter picks.
pub open spec fn first_picked(members: Seq<GroupMember>, device_id: Seq<char>, filter: MemberFilter, i: int) -> bool {
    &&& 0 <= i < members.len()
    &&& picked(members[i], device_id, filter)
    &&& forall|j: int| 0 <= j < i ==> !picked(#[trigger] members[j], device_id, filter)
}

/// The index of the first member with id `device_id` that the filter picks.
pub fn find_member(members: &Vec<GroupMember>, device_id: &str, filter: MemberFilter) -> (index: Option<usize>)
    ensures
        match index {
            Some(i) => first_picked(members@, device_id@, filter, i as int),
            None => forall|j: int| 0 <= j < members@.len() ==> !picked(#[trigger] members@[j], device_id@, filter),
        },
{
    let mut i: usize = 0;
    while i < members.len()
        invariant
            i <= members@.len(),
            forall|j: int| 0 <= j < i ==> !picked(#[trigger] members@[j], device_id@, filter),
        decreases members@.len() - i,
    {
        let m = &members[i];
        let state_ok = match filter {
            MemberFilter::Any => true,
            MemberFilter::Active => m.state == MemberState::Active,
            MemberFilter::Invited => m.state == MemberState::Invited,
            MemberFilter::NotRemoved => m.state != MemberState::Removed,
        };
        if str_equal(m.device_id.as_str(), device_id) && state_ok {
            return Some(i);
        }
        i = i + 1;
    }
    None
}

/// What a device that connects is sent again of one group.
#[derive(Clone, Copy, Debug, PartialEq, Eq, Structural)]
pub struct GroupReplay {
    /// This device owns the group and the device is still invited: a new
    /// invitation goes out where the store finds the last one expired.
    pub invite_candidate: bool,
    /// The device is an active member: it gets the manifest.
    pub send_manifest: bool,
}

/// What of `manifest` is replayed to `device_id` when it connects.
pub fn group_replay(manifest: &GroupManifest, local_device_id: &str, device_id: &str) -> (replay: GroupReplay)
    ensures
        replay.invite_candidate == (manifest.owner_device_id@ == local_device_id@
            && exists|j: int| 0 <= j < manifest.members@.len() && picked(#[trigger] manifest.members@[j], device_id@, MemberFilter::Invited)),
        replay.send_manifest == exists|j: int| 0 <= j < manifest.members@.len()
            && picked(#[trigger] manifest.members@[j], device_id@, MemberFilter::Active),
{
    let owner = str_equal(manifest.owner_device_id.as_str(), local_device_id);
    let invited = find_member(&manifest.members, device_id, MemberFilter::Invited).is_some();
    let active = find_member(&manifest.members, device_id, MemberFilter::Active).is_some();
    GroupReplay { invite_candidate: owner && invited, send_manifest: active }
}

/// What an owner does with a device's answer to its invitation.
#[derive(Clone, Copy, Debug, PartialEq, Eq, Structural)]
pub enum InviteResponse {
    /// The same answer again: nothing changes (an acceptance gets the
    /// current manifest again).
    Repeat,
    /// The invitation is marked rejected.
    Reject,
    /// The device becomes an active member.
    Accept,
}

/// Decides on an answer to an invitation in state `status`: a repeated
/// answer changes nothing; an invitation already answered otherwise cannot
/// change; a sent one is rejected or accepted as answered.
pub fn invite_response(status: &str, accepted: bool) -> (result: Result<InviteResponse, String>)
    ensures
        (status@ == "accepted"@ && accepted) || (status@ == "rejected"@ && !accepted) ==> result == Ok::<InviteResponse, String>(InviteResponse::Repeat),
        !((status@ == "accepted"@ && accepted) || (status@ == "rejected"@ && !accepted)) ==> {
            if status@ != "sent"@ {
                result matches Err(e) && e@ == "同步组邀请已经处理，不能修改选择"@
            } else if accepted {
                result == Ok::<InviteResponse, String>(InviteResponse::Accept)
            } else {
                result == Ok::<InviteResponse, String>(InviteResponse::Reject)
            }
        },
{
    if (str_equal(status, "accepted") && accepted) || (str_equal(status, "rejected") && !accepted) {
        return Ok(InviteResponse::Repeat);
    }
    if !str_equal(status, "sent") {
        return Err(String::from_str("同步组邀请已经处理，不能修改选择"));
    }
    if accepted {
        Ok(InviteResponse::Accept)
    } else {
        Ok(InviteResponse::Reject)
    }
}

/// `b` is `a`'s device: the same id, names, key and certificate.
pub open spec fn same_identity(a: GroupMember, b: GroupMember) -> bool {
    &&& a.device_id == b.device_id
    &&& a.device_name == b.device_name
    &&& a.platform == b.platform
    &&& a.public_key == b.public_key
    &&& a.certificate == b.certificate
}

fn changed_member(m: &GroupMember, state: MemberState, direction: SyncDirection, joined_at: Option<&str>) -> (changed: GroupMember)
    ensures
        changed.device_id == m.device_id,
        changed.device_name == m.device_name,
        changed.platform == m.platform,
        changed.public_key == m.public_key,
        changed.certificate == m.certificate,
        match joined_at {
            Some(j) => changed.joined_at@ == j@,
            None => changed.joined_at == m.joined_at,
        },
        changed.state == state,
        changed.direction == direction,
{
    GroupMember {
        device_id: m.device_id.clone(),
        device_name: m.device_name.clone(),
        platform: m.platform.clone(),
        public_key: m.public_key.clone(),
        certificate: m.certificate.clone(),
        joined_at: match joined_at {
            Some(j) => String::from_str(j),
            None => m.joined_at.clone(),
        },
        state,
        direction,
    }
}

/// The manifest is `old` with member `i` replaced by `m`, a new revision and
/// a new membership epoch.
pub open spec fn revised_with_member(new: GroupManifest, old: GroupManifest, i: int, m: GroupMember) -> bool {
    &&& 0 <= i < old.members@.len()
    &&& new.encoding_version == old.encoding_version
    &&& new.group_id == old.group_id
    &&& new.owner_device_id == old.owner_device_id
    &&& new.name == old.name
    &&& new.policy == old.policy
    &&& new.revision == next_version(old.revision)
    &&& new.membership_epoch == next_version(old.membership_epoch)
    &&& new.members@ == old.members@.update(i, m)
}

fn revise_member(manifest: GroupManifest, i: usize, member: GroupMember) -> (revised: GroupManifest)
    requires
        i < manifest.members@.len(),
    ensures
        revised_with_member(revised, manifest, i as int, member),
{
    let mut members = manifest.members;
    let ghost before = members@;
    members.remove(i);
    members.insert(i, member);
    proof {
        assert(members@ =~= before.update(i as int, member));
    }
    GroupManifest {
        encoding_version: manifest.encoding_version,
        group_id: manifest.group_id,
        owner_device_id: manifest.owner_device_id,
        name: manifest.name,
        revision: bump(manifest.revision),
        membership_epoch: bump(manifest.membership_epoch),
        policy: manifest.policy,
        members,
    }
}

/// The owner records that `device_id` accepted its invitation: the first
/// member with that id becomes active, joined at `joined_at`.
pub fn accept_member(manifest: GroupManifest, device_id: &str, joined_at: &str) -> (result: Result<GroupManifest, String>)
    ensures
        match result {
            Ok(m) => exists|i: int| #[trigger] first_picked(manifest.members@, device_id@, MemberFilter::Any, i)
                && revised_with_member(m, manifest, i, m.members@[i]) && same_identity(m.members@[i], manifest.members@[i])
                && m.members@[i].state == MemberState::Active && m.members@[i].direction == manifest.members@[i].direction
                && m.members@[i].joined_at@ == joined_at@,
            Err(_) => forall|j: int| 0 <= j < manifest.members@.len() ==> !picked(#[trigger] manifest.members@[j], device_id@, MemberFilter::Any),
        },
        manifest_normalized(manifest) ==> (result matches Ok(m) ==> manifest_normalized(m)),
{
    match find_member(&manifest.members, device_id, MemberFilter::Any) {
        Some(i) => {
            let old = &manifest.members[i];
            let changed = changed_member(old, MemberState::Active, old.direction, Some(joined_at));
            let ghost original = manifest;
            let revised = revise_member(manifest, i, changed);
            proof {
                assert(first_picked(original.members@, device_id@, MemberFilter::Any, i as int));
                assert(revised.members@[i as int] == changed);
                if manifest_normalized(original) {
                    lemma_member_change_keeps_normalized(revised, original, i as int);
                }
            }
            Ok(revised)
        },
        None => Err(String::from_str("同步组清单缺少接受设备")),
    }
}

/// The owner sets the direction of an active member.
pub fn set_member_direction(
    manifest: GroupManifest,
    local_device_id: &str,
    device_id: &str,
    direction: SyncDirection,
) -> (result: Result<GroupManifest, String>)
    ensures
        manifest.owner_device_id@ != local_device_id@ ==> result is Err,
        manifest.owner_device_id@ == local_device_id@ ==> match result {
            Ok(m) => exists|i: int| #[trigger] first_picked(manifest.members@, device_id@, MemberFilter::Active, i)
                && revised_with_member(m, manifest, i, m.members@[i]) && same_identity(m.members@[i], manifest.members@[i])
                && m.members@[i].state == manifest.members@[i].state && m.members@[i].joined_at == manifest.members@[i].joined_at
                && m.members@[i].direction == direction,
            Err(_) => forall|j: int| 0 <= j < manifest.members@.len() ==> !picked(#[trigger] manifest.members@[j], device_id@, MemberFilter::Active),
        },
        manifest_normalized(manifest) ==> (result matches Ok(m) ==> manifest_normalized(m)),
{
    if !str_equal(manifest.owner_device_id.as_str(), local_device_id) {
        return Err(String::from_str("只有同步组 Owner 可以修改成员方向"));
    }
    match find_member(&manifest.members, device_id, MemberFilter::Active) {
        Some(i) => {
            let old = &manifest.members[i];
            let changed = changed_member(old, old.state, direction, None);
            let ghost original = manifest;
            let revised = revise_member(manifest, i, changed);
            proof {
                assert(first_picked(original.members@, device_id@, MemberFilter::Active, i as int));
                assert(revised.members@[i as int] == changed);
                if manifest_normalized(original) {
                    lemma_member_change_keeps_normalized(revised, original, i as int);
                }
            }
            Ok(revised)
        },
        None => Err(String::from_str("活动成员不存在")),
    }
}

proof fn lemma_first_picked_exists(members: Seq<GroupMember>, device_id: Seq<char>, filter: MemberFilter, j: int)
    requires
        0 <= j < members.len(),
        picked(members[j], device_id, filter),
    ensures
        exists|i: int| #[trigger] first_picked(members, device_id, filter, i) && i <= j,
    decreases j,
{
    if exists|k: int| 0 <= k < j && picked(#[trigger] members[k], device_id, filter) {
        let k = choose|k: int| 0 <= k < j && picked(#[trigger] members[k], device_id, filter);
        lemma_first_picked_exists(members, device_id, filter, k);
    } else {
        assert(first_picked(members, device_id, filter, j));
    }
}

/// Removing reaches every member that is not already removed, an invited
/// one that has not accepted yet included: where some member with the id is
/// invited or active, a member with the id is found for removal (so
/// `remove_member` by the owner succeeds), and it is such a member, at or
/// before that one.
pub proof fn lemma_remove_reaches_every_unremoved_member(members: Seq<GroupMember>, device_id: Seq<char>, j: int)
    requires
        0 <= j < members.len(),
        members[j].device_id@ == device_id,
        members[j].state == MemberState::Invited || members[j].state == MemberState::Active,
    ensures
        !(forall|k: int| 0 <= k < members.len() ==> !picked(#[trigger] members[k], device_id, MemberFilter::NotRemoved)),
        exists|i: int| #[trigger] first_picked(members, device_id, MemberFilter::NotRemoved, i),
        forall|i: int| #[trigger] first_picked(members, device_id, MemberFilter::NotRemoved, i) ==> i <= j
            && members[i].device_id@ == device_id && members[i].state != MemberState::Removed,
{
    assert(picked(members[j], device_id, MemberFilter::NotRemoved));
    lemma_first_picked_exists(members, device_id, MemberFilter::NotRemoved, j);
    assert forall|i: int| #[trigger] first_picked(members, device_id, MemberFilter::NotRemoved, i) implies i <= j
        && members[i].device_id@ == device_id && members[i].state != MemberState::Removed by {
        if i > j {
            assert(!picked(members[j], device_id, MemberFilter::NotRemoved));
        }
    }
}

/// The owner removes a member that is not yet removed; the owner cannot
/// remove itself. The member is left removed and disabled.
pub fn remove_member(manifest: GroupManifest, local_device_id: &str, device_id: &str) -> (result: Result<GroupManifest, String>)
    ensures
        (manifest.owner_device_id@ != local_device_id@ || device_id@ == local_device_id@) ==> result is Err,
        manifest.owner_device_id@ == local_device_id@ && device_id@ != local_device_id@ ==> match result {
            Ok(m) => exists|i: int| #[trigger] first_picked(manifest.members@, device_id@, MemberFilter::NotRemoved, i)
                && revised_with_member(m, manifest, i, m.members@[i]) && same_identity(m.members@[i], manifest.members@[i])
                && m.members@[i].joined_at == manifest.members@[i].joined_at
                && m.members@[i].state == MemberState::Removed && m.members@[i].direction == SyncDirection::Disabled,
            Err(_) => forall|j: int| 0 <= j < manifest.members@.len() ==> !picked(#[trigger] manifest.members@[j], device_id@, MemberFilter::NotRemoved),
        },
        manifest.owner_device_id@ == local_device_id@ && device_id@ != local_device_id@
            && (exists|j: int| 0 <= j < manifest.members@.len() && #[trigger] manifest.members@[j].device_id@ == device_id@
                && (manifest.members@[j].state == MemberState::Invited || manifest.members@[j].state == MemberState::Active))
            ==> result is Ok,
        manifest_normalized(manifest) ==> (result matches Ok(m) ==> manifest_normalized(m)),
{
    if !str_equal(manifest.owner_device_id.as_str(), local_device_id) {
        return Err(String::from_str("只有同步组 Owner 可以移除成员"));
    }
    if str_equal(device_id, local_device_id) {
        return Err(String::from_str("Owner 不能把自己移出同步组"));
    }
    match find_member(&manifest.members, device_id, MemberFilter::NotRemoved) {
        Some(i) => {
            let changed = changed_member(&manifest.members[i], MemberState::Removed, SyncDirection::Disabled, None);
            let ghost original = manifest;
            let revised = revise_member(manifest, i, changed);
            proof {
                assert(first_picked(original.members@, device_id@, MemberFilter::NotRemoved, i as int));
                assert(revised.members@[i as int] == changed);
                if manifest_normalized(original) {
                    lemma_member_change_keeps_normalized(revised, original, i as int);
                }
            }
            Ok(revised)
        },
        None => {
            proof {
                if exists|j: int| 0 <= j < manifest.members@.len() && #[trigger] manifest.members@[j].device_id@ == device_id@
                    && (manifest.members@[j].state == MemberState::Invited || manifest.members@[j].state == MemberState::Active) {
                    let j = choose|j: int| 0 <= j < manifest.members@.len() && #[trigger] manifest.members@[j].device_id@ == device_id@
                        && (manifest.members@[j].state == MemberState::Invited || manifest.members@[j].state == MemberState::Active);
                    lemma_remove_reaches_every_unremoved_member(manifest.members@, device_id@, j);
                }
            }
            Err(String::from_str("同步组成员不存在"))
        },
    }
}

/// The owner records that an active member left: the first member with
/// that id is left removed and disabled.
pub fn member_left(manifest: GroupManifest, local_device_id: &str, sender_device_id: &str) -> (result: Result<GroupManifest, String>)
    ensures
        (manifest.owner_device_id@ != local_device_id@ || manifest.active_index(sender_device_id@) is None) ==> result is Err,
        manifest.owner_device_id@ == local_device_id@ && manifest.active_index(sender_device_id@) is Some ==> match result {
            Ok(m) => exists|i: int| #[trigger] first_picked(manifest.members@, sender_device_id@, MemberFilter::Any, i)
                && revised_with_member(m, manifest, i, m.members@[i]) && same_identity(m.members@[i], manifest.members@[i])
                && m.members@[i].joined_at == manifest.members@[i].joined_at
                && m.members@[i].state == MemberState::Removed && m.members@[i].direction == SyncDirection::Disabled,
            Err(_) => false,
        },
        manifest_normalized(manifest) && sender_device_id@ != local_device_id@ ==> (result matches Ok(m) ==> manifest_normalized(m)),
{
    if !str_equal(manifest.owner_device_id.as_str(), local_device_id) {
        return Err(String::from_str("本机不是同步组 Owner"));
    }
    proof {
        crate::delivery::lemma_active_member_index(manifest, sender_device_id@);
    }
    if manifest.active_member(sender_device_id).is_none() {
        return Err(String::from_str("退出通知来源不是活动成员"));
    }
    match find_member(&manifest.members, sender_device_id, MemberFilter::Any) {
        Some(i) => {
            let changed = changed_member(&manifest.members[i], MemberState::Removed, SyncDirection::Disabled, None);
            let ghost original = manifest;
            let revised = revise_member(manifest, i, changed);
            proof {
                assert(first_picked(original.members@, sender_device_id@, MemberFilter::Any, i as int));
                assert(revised.members@[i as int] == changed);
                if manifest_normalized(original) && sender_device_id@ != local_device_id@ {
                    lemma_member_change_keeps_normalized(revised, original, i as int);
                }
            }
            Ok(revised)
        },
        None => {
            proof {
                let k = manifest.active_index(sender_device_id@)->0;
                assert(picked(manifest.members@[k], sender_device_id@, MemberFilter::Any));
            }
            Err(String::from_str("同步组清单缺少退出成员"))
        },
    }
}

/// The owner changes which content types the group carries.
pub fn update_group_policy(manifest: GroupManifest, local_device_id: &str, input: &UpdateGroupPolicyInput) -> (result: Result<GroupManifest, String>)
    ensures
        result is Ok <==> manifest.owner_device_id@ == local_device_id@,
        result matches Ok(m) ==> {
            &&& m.encoding_version == manifest.encoding_version
            &&& m.group_id == manifest.group_id
            &&& m.owner_device_id == manifest.owner_device_id
            &&& m.name == manifest.name
            &&& m.members@ == manifest.members@
            &&& m.revision == next_version(manifest.revision)
            &&& m.membership_epoch == next_version(manifest.membership_epoch)
            &&& m.policy == (GroupPolicy {
                allow_text: input.allow_text,
                allow_images: input.allow_images,
                allow_html: input.allow_html,
                allow_files: input.allow_files,
                offline_ttl_seconds: manifest.policy.offline_ttl_seconds,
            })
        },
        manifest_normalized(manifest) ==> (result matches Ok(m) ==> manifest_normalized(m)),
{
    if !str_equal(manifest.owner_device_id.as_str(), local_device_id) {
        return Err(String::from_str("只有同步组 Owner 可以修改组策略"));
    }
    let policy = GroupPolicy {
        allow_text: input.allow_text,
        allow_images: input.allow_images,
        allow_html: input.allow_html,
        allow_files: input.allow_files,
        offline_ttl_seconds: manifest.policy.offline_ttl_seconds,
    };
    Ok(GroupManifest {
        encoding_version: manifest.encoding_version,
        group_id: manifest.group_id,
        owner_device_id: manifest.owner_device_id,
        name: manifest.name,
        revision: bump(manifest.revision),
        membership_epoch: bump(manifest.membership_epoch),
        policy,
        members: manifest.members,
    })
}

/// The owner ends the group: a tombstone one revision and one epoch past the
/// manifest, deleted at `deleted_at`.
pub fn group_tombstone(manifest: &GroupManifest, local_device_id: &str, deleted_at: String) -> (result: Result<GroupTombstone, String>)
    ensures
        result is Ok <==> manifest.owner_device_id@ == local_device_id@,
        result matches Ok(t) ==> {
            &&& t.encoding_version == GROUP_ENCODING_VERSION
            &&& t.group_id == manifest.group_id
            &&& t.owner_device_id@ == local_device_id@
            &&& t.revision == next_version(manifest.revision)
            &&& t.membership_epoch == next_version(manifest.membership_epoch)
            &&& t.deleted_at == deleted_at
        },
{
    if !str_equal(manifest.owner_device_id.as_str(), local_device_id) {
        return Err(String::from_str("只有同步组 Owner 可以结束同步组"));
    }
    Ok(GroupTombstone {
        encoding_version: GROUP_ENCODING_VERSION,
        group_id: manifest.group_id.clone(),
        owner_device_id: String::from_str(local_device_id),
        revision: bump(manifest.revision),
        membership_epoch: bump(manifest.membership_epoch),
        deleted_at,
    })
}

/// The devices that a group's end or a new manifest is sent to: its active
/// members other than this device, in order.
pub open spec fn other_active(members: Seq<GroupMember>, local: Seq<char>) -> Seq<Seq<char>>
    decreases members.len(),
{
    if members.len() == 0 {
        Seq::empty()
    } else {
        let init = other_active(members.drop_last(), local);
        let m = members.last();
        if m.state == MemberState::Active && m.device_id@ != local {
            init.push(m.device_id@)
        } else {
            init
        }
    }
}

/// The active members other than this device.
pub fn active_recipients(manifest: &GroupManifest, local_device_id: &str) -> (recipients: Vec<String>)
    ensures
        recipients.deep_view() == other_active(manifest.members@, local_device_id@),
{
    let mut recipients: Vec<String> = Vec::new();
    let mut i: usize = 0;
    while i < manifest.members.len()
        invariant
            i <= manifest.members@.len(),
            recipients.deep_view() == other_active(manifest.members@.take(i as int), local_device_id@),
        decreases manifest.members@.len() - i,
    {
        let m = &manifest.members[i];
        proof {
            assert(manifest.members@.take(i + 1).drop_last() =~= manifest.members@.take(i as int));
        }
        if m.state == MemberState::Active && !str_equal(m.device_id.as_str(), local_device_id) {
            recipients.push(m.device_id.clone());
            proof {
                assert(recipients.deep_view() =~= other_active(manifest.members@.take(i as int), local_device_id@).push(m.device_id@));
            }
        }
        i = i + 1;
    }
    proof {
        assert(manifest.members@.take(manifest.members@.len() as int) =~= manifest.members@);
    }
    recipients
}

/// Changing one member's state, direction or join time, without touching its
/// identity, keeps a normalized manifest normalized, as long as the owner
/// stays active.
pub proof fn lemma_member_change_keeps_normalized(new: GroupManifest, old: GroupManifest, i: int)
    requires
        manifest_normalized(old),
        revised_with_member(new, old, i, new.members@[i]),
        same_identity(new.members@[i], old.members@[i]),
        new.members@[i].state == MemberState::Active || old.members@[i].device_id@ != old.owner_device_id@,
    ensures
        manifest_normalized(new),
{
    let a = old.members@;
    let b = new.members@;
    assert forall|j: int| 0 <= j < b.len() implies (#[trigger] b[j]).device_id == a[j].device_id
        && member_identity_valid(b[j]) by {
        if j != i {
            assert(b[j] == a[j]);
        }
        assert(member_identity_valid(a[j]));
    }
    assert(members_distinct(b)) by {
        assert forall|x: int, y: int| 0 <= x < y < b.len() implies #[trigger] b[x].device_id@ != #[trigger] b[y].device_id@ by {
            assert(b[x].device_id == a[x].device_id);
            assert(b[y].device_id == a[y].device_id);
            assert(a[x].device_id@ != a[y].device_id@);
        }
    }
    assert(owner_active(new)) by {
        let k = choose|k: int| 0 <= k < a.len() && #[trigger] a[k].device_id@ == old.owner_device_id@ && a[k].state == MemberState::Active;
        if k == i {
            assert(b[k].device_id@ == new.owner_device_id@);
        } else {
            assert(b[k] == a[k]);
        }
    }
    assert(strictly_sorted_by_key(b)) by {
        assert forall|x: int, y: int| 0 <= x < y < b.len() implies seq_lt(#[trigger] b[x].key(), #[trigger] b[y].key()) by {
            assert(b[x].device_id == a[x].device_id);
            assert(b[y].device_id == a[y].device_id);
            assert(seq_lt(a[x].key(), a[y].key()));
        }
    }
}

/// A revision is newer: while below `u64::MAX`, every owner change gives the
/// manifest a higher revision and membership epoch, for the same group.
pub proof fn lemma_revision_advances(new: GroupManifest, old: GroupManifest, i: int)
    requires
        revised_with_member(new, old, i, new.members@[i]),
        old.revision < u64::MAX,
        old.membership_epoch < u64::MAX,
    ensures
        new.revision > old.revision,
        new.membership_epoch > old.membership_epoch,
        new.group_id == old.group_id,
        new.owner_device_id == old.owner_device_id,
{
}

/// Text order, as `str`'s `Ord` compares: by UTF-8 bytes.
pub open spec fn text_lt(a: Seq<char>, b: Seq<char>) -> bool {
    seq_lt(vstd::utf8::encode_utf8(a), vstd::utf8::encode_utf8(b))
}

/// Checks an invitation's addressing: it names this device, comes from the
/// group's owner, and expires after `now` (times compared as RFC 3339 text).
pub fn check_group_invite(
    target_device_id: &str,
    local_device_id: &str,
    owner_device_id: &str,
    sender_device_id: &str,
    expires_at: &str,
    now: &str,
) -> (result: Result<(), String>)
    ensures
        result is Ok <==> target_device_id@ == local_device_id@ && owner_device_id@ == sender_device_id@
            && text_lt(now@, expires_at@),
{
    if !str_equal(target_device_id, local_device_id) || !str_equal(owner_device_id, sender_device_id)
        || !crate::order::bytes_less(now.as_bytes(), expires_at.as_bytes()) {
        return Err(String::from_str("同步组邀请目标、来源或有效期无效"));
    }
    Ok(())
}

/// Checks that an invitation's manifest lists this device as invited (its
/// first entry).
pub fn check_invited_locally(manifest: &GroupManifest, local_device_id: &str) -> (result: Result<(), String>)
    ensures
        result is Ok <==> exists|i: int| #[trigger] first_picked(manifest.members@, local_device_id@, MemberFilter::Any, i)
            && manifest.members@[i].state == MemberState::Invited,
{
    match find_member(&manifest.members, local_device_id, MemberFilter::Any) {
        Some(i) => {
            if manifest.members[i].state != MemberState::Invited {
                return Err(String::from_str("同步组邀请中的本机状态无效"));
            }
            Ok(())
        },
        None => Err(String::from_str("同步组邀请清单缺少本机")),
    }
}

/// The local state that a received manifest gives this device: `active` or
/// `removed`, by its first entry; an entry still invited, or none, is refused.
pub fn manifest_local_state(manifest: &GroupManifest, local_device_id: &str) -> (result: Result<&'static str, String>)
    ensures
        match result {
            Ok(label) => exists|i: int| #[trigger] first_picked(manifest.members@, local_device_id@, MemberFilter::Any, i)
                && match manifest.members@[i].state {
                    MemberState::Active => label@ == "active"@,
                    MemberState::Removed => label@ == "removed"@,
                    MemberState::Invited => false,
                },
            Err(_) => forall|i: int| #[trigger] first_picked(manifest.members@, local_device_id@, MemberFilter::Any, i)
                ==> manifest.members@[i].state == MemberState::Invited,
        },
{
    match find_member(&manifest.members, local_device_id, MemberFilter::Any) {
        Some(i) => match manifest.members[i].state {
            MemberState::Invited => {
                proof {
                    assert forall|k: int| #[trigger] first_picked(manifest.members@, local_device_id@, MemberFilter::Any, k)
                        implies manifest.members@[k].state == MemberState::Invited by {
                        if k < i {
                            assert(!picked(manifest.members@[k], local_device_id@, MemberFilter::Any));
                        }
                        if k > i {
                            assert(!picked(manifest.members@[i as int], local_device_id@, MemberFilter::Any));
                        }
                    }
                }
                Err(String::from_str("未接受邀请的清单不能直接激活本机"))
            },
            MemberState::Active => Ok("active"),
            MemberState::Removed => Ok("removed"),
        },
        None => Err(String::from_str("同步组新清单缺少本机")),
    }
}

/// Checks a received tombstone against the last trusted manifest of its
/// group: the same owner and a higher revision; returns the owner's key from
/// its first entry in that manifest.
pub fn tombstone_owner_key(manifest: &GroupManifest, tombstone: &GroupTombstone) -> (result: Result<Vec<u8>, String>)
    ensures
        match result {
            Ok(key) => manifest.owner_device_id@ == tombstone.owner_device_id@ && tombstone.revision > manifest.revision
                && exists|i: int| #[trigger] first_picked(manifest.members@, manifest.owner_device_id@, MemberFilter::Any, i)
                    && decoded(manifest.members@[i].public_key@) == Some(key@),
            Err(_) => !(manifest.owner_device_id@ == tombstone.owner_device_id@ && tombstone.revision > manifest.revision)
                || (forall|j: int| 0 <= j < manifest.members@.len() ==> !picked(#[trigger] manifest.members@[j], manifest.owner_device_id@, MemberFilter::Any))
                || exists|i: int| #[trigger] first_picked(manifest.members@, manifest.owner_device_id@, MemberFilter::Any, i)
                    && decoded(manifest.members@[i].public_key@) is None,
        },
{
    if !str_equal(manifest.owner_device_id.as_str(), tombstone.owner_device_id.as_str()) || tombstone.revision <= manifest.revision {
        return Err(String::from_str("同步组删除声明 Owner 或版本无效"));
    }
    match find_member(&manifest.members, manifest.owner_device_id.as_str(), MemberFilter::Any) {
        Some(i) => match decode(manifest.members[i].public_key.as_str()) {
            Some(key) => Ok(key),
            None => Err(String::from_str("同步组 Owner 公钥编码无效")),
        },
        None => Err(String::from_str("同步组历史清单缺少 Owner")),
    }
}

/// What storing a signed manifest (or tombstone) does, given what the store
/// already holds for its group.
#[derive(Clone, Copy, Debug, PartialEq, Eq, Structural)]
pub enum StoreDecision {
    /// The record is new or newer: write it.
    Write,
    /// The same record is already stored: nothing to do.
    Unchanged,
}

/// Decides whether a signed manifest of revision `revision` may be stored.
/// `tombstoned`: the group has a tombstone; `current`: the stored revision
/// and whether the stored record equals the new one. A group that ended
/// takes no manifest; an older revision is refused; the same revision is
/// accepted only as the same record.
pub fn manifest_store_decision(tombstoned: bool, current: Option<(u64, bool)>, revision: u64) -> (decision: Result<StoreDecision, String>)
    ensures
        tombstoned ==> decision is Err,
        !tombstoned ==> match current {
            None => decision == Ok::<StoreDecision, String>(StoreDecision::Write),
            Some((stored, same)) => match decision {
                Ok(StoreDecision::Write) => revision > stored,
                Ok(StoreDecision::Unchanged) => revision == stored && same,
                Err(_) => revision < stored || (revision == stored && !same),
            },
        },
{
    if tombstoned {
        return Err(String::from_str("同步组已由删除声明永久终结"));
    }
    match current {
        Some((stored, same)) => {
            if revision < stored {
                return Err(String::from_str("拒绝回滚同步组清单"));
            }
            if revision == stored {
                if same {
                    return Ok(StoreDecision::Unchanged);
                }
                return Err(String::from_str("相同同步组版本出现不同内容"));
            }
            Ok(StoreDecision::Write)
        },
        None => Ok(StoreDecision::Write),
    }
}

/// Decides whether a signed tombstone of revision `revision` may be stored,
/// given the stored tombstone's revision and whether it equals the new one.
pub fn tombstone_store_decision(current: Option<(u64, bool)>, revision: u64) -> (decision: Result<StoreDecision, String>)
    ensures
        match current {
            None => decision == Ok::<StoreDecision, String>(StoreDecision::Write),
            Some((stored, same)) => match decision {
                Ok(StoreDecision::Write) => revision > stored,
                Ok(StoreDecision::Unchanged) => revision == stored && same,
                Err(_) => revision < stored || (revision == stored && !same),
            },
        },
{
    match current {
        Some((stored, same)) => {
            if revision < stored {
                return Err(String::from_str("拒绝回滚同步组删除声明"));
            }
            if revision == stored {
                if same {
                    return Ok(StoreDecision::Unchanged);
                }
                return Err(String::from_str("相同同步组删除版本出现不同内容"));
            }
            Ok(StoreDecision::Write)
        },
        None => Ok(StoreDecision::Write),
    }
}

/// Decides whether a received invitation may be stored under its id, given
/// whether an invitation with that id is stored and, if so, whether it is
/// the same one (group, target, expiry and manifest): a repeat changes
/// nothing, another invitation under the same id is refused.
pub fn invite_store_decision(stored_same: Option<bool>) -> (decision: Result<StoreDecision, String>)
    ensures
        match stored_same {
            None => decision == Ok::<StoreDecision, String>(StoreDecision::Write),
            Some(true) => decision == Ok::<StoreDecision, String>(StoreDecision::Unchanged),
            Some(false) => decision matches Err(e) && e@ == "相同邀请 ID 出现不同内容"@,
        },
{
    match stored_same {
        None => Ok(StoreDecision::Write),
        Some(true) => Ok(StoreDecision::Unchanged),
        Some(false) => Err(String::from_str("相同邀请 ID 出现不同内容")),
    }
}

/// Decides whether a member's leave of a group may be stored, given whether
/// a leave of that member is stored and, if so, whether it has the same
/// owner and leave id: a repeat changes nothing, a conflicting one is
/// refused.
pub fn leave_store_decision(stored_same: Option<bool>) -> (decision: Result<StoreDecision, String>)
    ensures
        match stored_same {
            None => decision == Ok::<StoreDecision, String>(StoreDecision::Write),
            Some(true) => decision == Ok::<StoreDecision, String>(StoreDecision::Unchanged),
            Some(false) => decision matches Err(e) && e@ == "相同成员存在冲突的同步组退出记录"@,
        },
{
    match stored_same {
        None => Ok(StoreDecision::Write),
        Some(true) => Ok(StoreDecision::Unchanged),
        Some(false) => Err(String::from_str("相同成员存在冲突的同步组退出记录")),
    }
}

} // verus!
