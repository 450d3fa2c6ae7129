//! What the user interface shows: device slots with their clipboard
//! representations, devices, pairings, groups and invites, and how slots are
//! built from received content.

use vstd::prelude::*;
use vstd::string::*;
use vstd::utf8::encode_utf8;
use crate::content::{text_content_type, text_type};
use crate::delivery::{TrustedDevice, delivery_group_name, validate_group_delivery_from_manifests};
use crate::files::{push_decimal, ReceivedFileBundle};
use crate::group::{GroupMember, GroupPolicy, SignedGroupManifest};
use crate::text::{str_equal, truncate_text, truncated};
use crate::order::{extend_texts, lemma_concat_contains, lemma_sorted_texts_is, sort_dedup_texts, sorted_texts};

verus! {

/// What this device can do with the system clipboard.
pub struct ClipboardCapability {
    pub can_read_text: bool,
    pub can_write_text: bool,
    pub foreground_capture: bool,
    pub limitation: Option<String>,
}

/// One form in which a slot's content can be pasted.
pub struct ClipboardRepresentation {
    pub id: String,
    pub kind: String,
    pub label: String,
    pub mime: String,
    pub size: u64,
    pub status: String,
    pub enabled: bool,
}

/// The latest clipboard content of one remote device.
pub struct DeviceSlot {
    pub id: String,
    pub revision: u64,
    pub device_id: String,
    pub device_name: String,
    pub platform: String,
    pub online: bool,
    pub pinned: Option<bool>,
    pub availability: String,
    pub preview: String,
    pub image_preview: Option<String>,
    pub file_names: Option<Vec<String>>,
    pub captured_at: String,
    pub age_label: String,
    pub groups: Vec<String>,
    pub group_ids: Vec<String>,
    pub sequence: u64,
    pub size: u64,
    pub representations: Vec<ClipboardRepresentation>,
    pub blocked_reason: Option<String>,
    pub progress: Option<u8>,
}

/// This device's own clipboard content.
pub struct CurrentClipboard {
    pub source: String,
    pub source_label: String,
    pub preview: String,
    pub image_preview: Option<String>,
    pub file_names: Option<Vec<String>>,
    pub types: Vec<String>,
    pub changed_at: String,
}

/// A paste from a slot in progress.
pub struct ImportOperation {
    pub id: String,
    pub slot_id: String,
    pub device_name: String,
    pub source_summary: String,
    pub status: String,
    pub progress: u8,
    pub message: Option<String>,
}

/// A device found on the local network.
pub struct NearbyDevice {
    pub instance_id: String,
    pub device_id: String,
    pub device_name: String,
    pub platform: String,
    pub addresses: Vec<String>,
    pub port: u16,
    pub last_seen_at: String,
    pub paired: bool,
}

/// A paired device as the interface lists it.
pub struct TrustedDeviceView {
    pub device_id: String,
    pub device_name: String,
    pub platform: String,
    pub paired_at: String,
    pub online: bool,
    pub sync_enabled: bool,
}

/// A pairing waiting for the user to compare and confirm its code.
pub struct PendingPairing {
    pub pairing_id: String,
    pub device_id: String,
    pub device_name: String,
    pub platform: String,
    pub sas: String,
    pub direction: String,
    pub expires_at: String,
    pub status: String,
}

/// A sync group as the interface lists it.
pub struct SyncGroupView {
    pub group_id: String,
    pub name: String,
    pub owner_device_id: String,
    pub revision: u64,
    pub membership_epoch: u64,
    pub is_owner: bool,
    pub policy: GroupPolicy,
    pub members: Vec<GroupMember>,
}

/// An invitation to a group that waits for the user's answer.
pub struct PendingGroupInviteView {
    pub invite_id: String,
    pub group_id: String,
    pub group_name: String,
    pub owner_device_id: String,
    pub owner_name: String,
    pub expires_at: String,
}

/// The user's request to create a group.
pub struct CreateSyncGroupInput {
    pub name: String,
    pub member_device_ids: Vec<String>,
    pub allow_text: bool,
    pub allow_images: bool,
    pub allow_html: bool,
    pub allow_files: bool,
}

/// The user's request to change what a group carries.
pub struct UpdateGroupPolicyInput {
    pub group_id: String,
    pub allow_text: bool,
    pub allow_images: bool,
    pub allow_html: bool,
    pub allow_files: bool,
}

/// The groups a slot arrived through: their names and ids.
pub struct SlotGroups {
    pub names: Vec<String>,
    pub ids: Vec<String>,
}

/// An invitation to a group, as stored.
pub struct StoredGroupInvite {
    pub invite_id: String,
    pub target_device_id: String,
    pub expires_at: String,
    pub status: String,
    pub manifest: SignedGroupManifest,
}

/// Rich clipboard content received from a device.
pub struct RemoteRich {
    pub sequence: u64,
    pub text: String,
    pub html: Option<String>,
    pub rtf: Option<String>,
    pub captured_at: String,
    pub group_ids: Vec<String>,
}

/// A file bundle received from a device.
pub struct RemoteFiles {
    pub sequence: u64,
    pub bundle: ReceivedFileBundle,
    pub captured_at: String,
    pub group_ids: Vec<String>,
    pub total_size: u64,
}

/// `r` is a representation ready to paste with these fields.
pub open spec fn ready_as(r: ClipboardRepresentation, id: Seq<char>, kind: Seq<char>, label: Seq<char>, mime: Seq<char>, size: u64) -> bool {
    &&& r.id@ == id
    &&& r.kind@ == kind
    &&& r.label@ == label
    &&& r.mime@ == mime
    &&& r.size == size
    &&& r.status@ == "ready"@
    &&& r.enabled
}

fn ready_representation(id: &str, kind: &str, label: &str, mime: &str, size: u64) -> (r: ClipboardRepresentation)
    ensures
        ready_as(r, id@, kind@, label@, mime@, size),
{
    ClipboardRepresentation {
        id: String::from_str(id),
        kind: String::from_str(kind),
        label: String::from_str(label),
        mime: String::from_str(mime),
        size,
        status: String::from_str("ready"),
        enabled: true,
    }
}

/// The fields that every slot takes from its device, sequence, capture time
/// and groups.
pub open spec fn slot_of(slot: DeviceSlot, device: TrustedDevice, sequence: u64, captured_at: Seq<char>, groups: SlotGroups) -> bool {
    &&& slot.id@ == "device:"@ + device.device_id@
    &&& slot.revision == sequence
    &&& slot.sequence == sequence
    &&& slot.device_id == device.device_id
    &&& slot.device_name == device.device_name
    &&& slot.platform == device.platform
    &&& slot.pinned is None
    &&& slot.captured_at@ == captured_at
    &&& slot.groups == groups.names
    &&& slot.group_ids == groups.ids
    &&& slot.blocked_reason is None
    &&& slot.progress is None
}

fn slot_id(device_id: &str) -> (id: String)
    ensures
        id@ == "device:"@ + device_id@,
{
    let mut id = String::from_str("device:");
    id.append(device_id);
    id
}

/// The byte length of a text, as a `u64`.
pub open spec fn byte_len(text: Seq<char>) -> u64 {
    encode_utf8(text).len() as u64
}

/// `slot` shows `text` (sequence `sequence`, captured at `captured_at`) from
/// the device with this id, name and platform: its single representation is
/// the URL or plain text, and only the groups are left open.
pub open spec fn text_slot_view(
    slot: DeviceSlot,
    device_id: Seq<char>,
    device_name: Seq<char>,
    platform: Seq<char>,
    sequence: u64,
    text: Seq<char>,
    captured_at: Seq<char>,
    online: bool,
    availability: Seq<char>,
) -> bool {
    &&& slot.id@ == "device:"@ + device_id
    &&& slot.revision == sequence
    &&& slot.sequence == sequence
    &&& slot.device_id@ == device_id
    &&& slot.device_name@ == device_name
    &&& slot.platform@ == platform
    &&& slot.pinned is None
    &&& slot.captured_at@ == captured_at
    &&& slot.blocked_reason is None
    &&& slot.progress is None
    &&& slot.online == online
    &&& slot.availability@ == availability
    &&& slot.preview@ == truncated(text, 4096)
    &&& slot.image_preview is None
    &&& slot.file_names is None
    &&& slot.age_label@ == (if online { "刚刚"@ } else { "本机缓存"@ })
    &&& slot.size == byte_len(text)
    &&& slot.representations@.len() == 1
    &&& if text_type(text) == "url"@ {
        ready_as(slot.representations@[0], "text/uri-list;charset=utf-8"@, "url"@, "URL"@, "text/uri-list;charset=utf-8"@, byte_len(text))
    } else {
        ready_as(slot.representations@[0], "text/plain;charset=utf-8"@, "text"@, "纯文本"@, "text/plain;charset=utf-8"@, byte_len(text))
    }
}

/// The slot that shows text from a device.
pub fn text_slot(
    device: &TrustedDevice,
    sequence: u64,
    text: &str,
    captured_at: String,
    online: bool,
    availability: &str,
    groups: SlotGroups,
) -> (slot: DeviceSlot)
    ensures
        slot_of(slot, *device, sequence, captured_at@, groups),
        text_slot_view(slot, device.device_id@, device.device_name@, device.platform@, sequence, text@, captured_at@, online,
            availability@),
        slot.online == online,
        slot.availability@ == availability@,
        slot.preview@ == truncated(text@, 4096),
        slot.image_preview is None,
        slot.file_names is None,
        slot.age_label@ == (if online { "刚刚"@ } else { "本机缓存"@ }),
        slot.size == byte_len(text@),
        slot.representations@.len() == 1,
        if text_type(text@) == "url"@ {
            ready_as(slot.representations@[0], "text/uri-list;charset=utf-8"@, "url"@, "URL"@, "text/uri-list;charset=utf-8"@, byte_len(text@))
        } else {
            ready_as(slot.representations@[0], "text/plain;charset=utf-8"@, "text"@, "纯文本"@, "text/plain;charset=utf-8"@, byte_len(text@))
        },
{
    let size = text.as_bytes().len() as u64;
    let representation = if str_equal(text_content_type(text), "url") {
        ready_representation("text/uri-list;charset=utf-8", "url", "URL", "text/uri-list;charset=utf-8", size)
    } else {
        ready_representation("text/plain;charset=utf-8", "text", "纯文本", "text/plain;charset=utf-8", size)
    };
    DeviceSlot {
        id: slot_id(device.device_id.as_str()),
        revision: sequence,
        device_id: device.device_id.clone(),
        device_name: device.device_name.clone(),
        platform: device.platform.clone(),
        online,
        pinned: None,
        availability: String::from_str(availability),
        preview: truncate_text(text, 4096),
        image_preview: None,
        file_names: None,
        captured_at,
        age_label: if online { String::from_str("刚刚") } else { String::from_str("本机缓存") },
        groups: groups.names,
        group_ids: groups.ids,
        sequence,
        size,
        representations: vec![representation],
        blocked_reason: None,
        progress: None,
    }
}

/// The slot that shows rich text (HTML and/or RTF with a plain-text
/// fallback) from a device. The sizes of its parts add up within a `u64`.
pub fn rich_slot(device: &TrustedDevice, rich: &RemoteRich, groups: SlotGroups) -> (slot: DeviceSlot)
    requires
        encode_utf8(rich.text@).len() + match rich.html {
            Some(h) => encode_utf8(h@).len(),
            None => 0,
        } + match rich.rtf {
            Some(r) => encode_utf8(r@).len(),
            None => 0,
        } <= u64::MAX,
    ensures
        slot_of(slot, *device, rich.sequence, rich.captured_at@, groups),
        slot.online,
        slot.availability@ == "ready"@,
        slot.preview@ == truncated(rich.text@, 4096),
        slot.image_preview is None,
        slot.file_names is None,
        slot.age_label@ == "刚刚"@,
        slot.representations@.len() == 1 + (if rich.html is Some { 1int } else { 0 }) + (if rich.rtf is Some { 1int } else { 0 }),
        if text_type(rich.text@) == "url"@ {
            ready_as(slot.representations@[0], "text/uri-list;charset=utf-8"@, "url"@, "URL 降级"@, "text/uri-list;charset=utf-8"@, byte_len(rich.text@))
        } else {
            ready_as(slot.representations@[0], "text/plain;charset=utf-8"@, "text"@, "纯文本降级"@, "text/plain;charset=utf-8"@, byte_len(rich.text@))
        },
        rich.html matches Some(h) ==> ready_as(slot.representations@[1], "text/html"@, "html"@, "HTML"@, "text/html;charset=utf-8"@, byte_len(h@)),
        rich.rtf matches Some(r) ==> ready_as(slot.representations@[slot.representations@.len() - 1], "text/rtf"@, "html"@, "RTF"@, "text/rtf"@, byte_len(r@)),
        slot.size == encode_utf8(rich.text@).len() + match rich.html {
            Some(h) => encode_utf8(h@).len(),
            None => 0,
        } + match rich.rtf {
            Some(r) => encode_utf8(r@).len(),
            None => 0,
        },
{
    let text_size = rich.text.as_str().as_bytes().len() as u64;
    let first = if str_equal(text_content_type(rich.text.as_str()), "url") {
        ready_representation("text/uri-list;charset=utf-8", "url", "URL 降级", "text/uri-list;charset=utf-8", text_size)
    } else {
        ready_representation("text/plain;charset=utf-8", "text", "纯文本降级", "text/plain;charset=utf-8", text_size)
    };
    let mut representations = vec![first];
    let mut size: u64 = text_size;
    match &rich.html {
        Some(html) => {
            let html_size = html.as_str().as_bytes().len() as u64;
            representations.push(ready_representation("text/html", "html", "HTML", "text/html;charset=utf-8", html_size));
            size = size + html_size;
        },
        None => {},
    }
    match &rich.rtf {
        Some(rtf) => {
            let rtf_size = rtf.as_str().as_bytes().len() as u64;
            representations.push(ready_representation("text/rtf", "html", "RTF", "text/rtf", rtf_size));
            size = size + rtf_size;
        },
        None => {},
    }
    DeviceSlot {
        id: slot_id(device.device_id.as_str()),
        revision: rich.sequence,
        device_id: device.device_id.clone(),
        device_name: device.device_name.clone(),
        platform: device.platform.clone(),
        online: true,
        pinned: None,
        availability: String::from_str("ready"),
        preview: truncate_text(rich.text.as_str(), 4096),
        image_preview: None,
        file_names: None,
        captured_at: rich.captured_at.clone(),
        age_label: String::from_str("刚刚"),
        groups: groups.names,
        group_ids: groups.ids,
        sequence: rich.sequence,
        size,
        representations,
        blocked_reason: None,
        progress: None,
    }
}

/// The texts joined with `sep` between them.
pub open spec fn joined(parts: Seq<Seq<char>>, sep: Seq<char>) -> Seq<char>
    decreases parts.len(),
{
    if parts.len() == 0 {
        Seq::empty()
    } else if parts.len() == 1 {
        parts[0]
    } else {
        joined(parts.drop_last(), sep) + sep + parts.last()
    }
}

/// `slice::join`: the texts with `sep` between them.
pub fn join_texts(parts: &[String], sep: &str) -> (text: String)
    ensures
        text@ == joined(parts.deep_view(), sep@),
{
    let mut text = String::new();
    let mut i: usize = 0;
    while i < parts.len()
        invariant
            i <= parts@.len(),
            text@ == joined(parts.deep_view().take(i as int), sep@),
        decreases parts@.len() - i,
    {
        if i > 0 {
            text.append(sep);
        }
        text.append(parts[i].as_str());
        proof {
            assert(parts.deep_view().take(i + 1).drop_last() =~= parts.deep_view().take(i as int));
            if i == 0 {
                assert(text@ =~= joined(parts.deep_view().take(1), sep@));
            } else {
                assert(text@ =~= joined(parts.deep_view().take(i as int), sep@) + sep@ + parts.deep_view()[i as int]);
            }
        }
        i = i + 1;
    }
    proof {
        assert(parts.deep_view().take(parts@.len() as int) =~= parts.deep_view());
    }
    text
}

/// `{count} 个文件或目录`.
pub open spec fn item_count_label(count: nat) -> Seq<char> {
    crate::files::decimal(count) + " 个文件或目录"@
}

pub(crate) fn item_count_text(count: usize) -> (label: String)
    ensures
        label@ == item_count_label(count as nat),
{
    let mut label = String::new();
    push_decimal(&mut label, count as u64);
    label.append(" 个文件或目录");
    proof {
        assert(label@ =~= item_count_label(count as nat));
    }
    label
}

/// The slot that shows a file bundle from a device: the names of its
/// top-level items, previewed where `preview_names` allows and there are any,
/// otherwise counted.
pub fn file_slot(device: &TrustedDevice, files: &RemoteFiles, preview_names: bool, groups: SlotGroups) -> (slot: DeviceSlot)
    ensures
        slot_of(slot, *device, files.sequence, files.captured_at@, groups),
        slot.online,
        slot.availability@ == "ready"@,
        ({
            let names = crate::files::file_names(files.bundle.clipboard_path_list());
            &&& slot.file_names matches Some(n) && n.deep_view() == names
            &&& slot.preview@ == if preview_names && names.len() > 0 {
                truncated(joined(names, "、"@), 4096)
            } else {
                item_count_label(names.len())
            }
            &&& slot.representations@.len() == 1
            &&& ready_as(slot.representations@[0], "application/x-localdrop-files"@, "files"@, item_count_label(names.len()),
                "application/x-localdrop-files"@, files.total_size)
        }),
        slot.image_preview is None,
        slot.age_label@ == "刚刚"@,
        slot.size == files.total_size,
{
    let names = files.bundle.display_names();
    let count = names.len();
    let preview = if preview_names && count > 0 {
        let all = join_texts(names.as_slice(), "、");
        truncate_text(all.as_str(), 4096)
    } else {
        item_count_text(count)
    };
    let label = item_count_text(count);
    let representation = ClipboardRepresentation {
        id: String::from_str("application/x-localdrop-files"),
        kind: String::from_str("files"),
        label,
        mime: String::from_str("application/x-localdrop-files"),
        size: files.total_size,
        status: String::from_str("ready"),
        enabled: true,
    };
    DeviceSlot {
        id: slot_id(device.device_id.as_str()),
        revision: files.sequence,
        device_id: device.device_id.clone(),
        device_name: device.device_name.clone(),
        platform: device.platform.clone(),
        online: true,
        pinned: None,
        availability: String::from_str("ready"),
        preview,
        image_preview: None,
        file_names: Some(names),
        captured_at: files.captured_at.clone(),
        age_label: String::from_str("刚刚"),
        groups: groups.names,
        group_ids: groups.ids,
        sequence: files.sequence,
        size: files.total_size,
        representations: vec![representation],
        blocked_reason: None,
        progress: None,
    }
}

/// `图片 · {width} × {height}`.
pub open spec fn image_label(width: u32, height: u32) -> Seq<char> {
    "图片 · "@ + crate::files::decimal(width as nat) + " × "@ + crate::files::decimal(height as nat)
}

/// The slot that shows an image from a device, with a thumbnail preview.
pub fn image_slot(
    device: &TrustedDevice,
    sequence: u64,
    rgba: &[u8],
    width: u32,
    height: u32,
    captured_at: String,
    groups: SlotGroups,
) -> (slot: DeviceSlot)
    ensures
        slot_of(slot, *device, sequence, captured_at@, groups),
        slot.online,
        slot.availability@ == "ready"@,
        slot.preview@ == image_label(width, height),
        match slot.image_preview {
            Some(p) => crate::content::image_preview_url(rgba@, width, height) == Some(p@),
            None => crate::content::image_preview_url(rgba@, width, height) is None,
        },
        slot.file_names is None,
        slot.age_label@ == "刚刚"@,
        slot.size == rgba@.len(),
        slot.representations@.len() == 1,
        ready_as(slot.representations@[0], "image/rgba"@, "image"@, "图片"@, "image/png"@, rgba@.len() as u64),
{
    let size = rgba.len() as u64;
    let mut preview = String::from_str("图片 · ");
    push_decimal(&mut preview, width as u64);
    preview.append(" × ");
    push_decimal(&mut preview, height as u64);
    proof {
        assert(preview@ =~= image_label(width, height));
    }
    DeviceSlot {
        id: slot_id(device.device_id.as_str()),
        revision: sequence,
        device_id: device.device_id.clone(),
        device_name: device.device_name.clone(),
        platform: device.platform.clone(),
        online: true,
        pinned: None,
        availability: String::from_str("ready"),
        preview,
        image_preview: crate::content::image_preview_data_url(rgba, width, height),
        file_names: None,
        captured_at,
        age_label: String::from_str("刚刚"),
        groups: groups.names,
        group_ids: groups.ids,
        sequence,
        size,
        representations: vec![ready_representation("image/rgba", "image", "图片", "image/png", size)],
        blocked_reason: None,
        progress: None,
    }
}

/// How the interface lists a group, as seen from `local_device_id`.
pub fn group_view(manifest: &SignedGroupManifest, local_device_id: &str) -> (view: SyncGroupView)
    ensures
        view.group_id == manifest.manifest.group_id,
        view.name == manifest.manifest.name,
        view.owner_device_id == manifest.manifest.owner_device_id,
        view.revision == manifest.manifest.revision,
        view.membership_epoch == manifest.manifest.membership_epoch,
        view.is_owner == (manifest.manifest.owner_device_id@ == local_device_id@),
        view.policy == manifest.manifest.policy,
        view.members@ == manifest.manifest.members@,
{
    SyncGroupView {
        group_id: manifest.manifest.group_id.clone(),
        name: manifest.manifest.name.clone(),
        owner_device_id: manifest.manifest.owner_device_id.clone(),
        revision: manifest.manifest.revision,
        membership_epoch: manifest.manifest.membership_epoch,
        is_owner: str_equal(manifest.manifest.owner_device_id.as_str(), local_device_id),
        policy: manifest.manifest.policy,
        members: crate::group::clone_members(&manifest.manifest.members),
    }
}

/// How the interface lists an invitation: the group, its owner (named by
/// the owner's active member entry, `未知设备` where there is none) and the
/// expiry.
pub fn pending_group_invite_view(invite: &StoredGroupInvite) -> (view: PendingGroupInviteView)
    ensures
        view.invite_id == invite.invite_id,
        view.group_id == invite.manifest.manifest.group_id,
        view.group_name == invite.manifest.manifest.name,
        view.owner_device_id == invite.manifest.manifest.owner_device_id,
        view.expires_at == invite.expires_at,
        ({
            let m = invite.manifest.manifest;
            view.owner_name@ == match m.active_index(m.owner_device_id@) {
                Some(i) => m.members@[i].device_name@,
                None => "未知设备"@,
            }
        }),
{
    let manifest = &invite.manifest.manifest;
    proof {
        crate::delivery::lemma_active_member_index(*manifest, manifest.owner_device_id@);
    }
    let owner_name = match manifest.active_member(manifest.owner_device_id.as_str()) {
        Some(member) => member.device_name.clone(),
        None => String::from_str("未知设备"),
    };
    PendingGroupInviteView {
        invite_id: invite.invite_id.clone(),
        group_id: manifest.group_id.clone(),
        group_name: manifest.name.clone(),
        owner_device_id: manifest.owner_device_id.clone(),
        owner_name,
        expires_at: invite.expires_at.clone(),
    }
}

/// The global shortcut that opens the window unless the user chose another.
pub fn default_global_shortcut() -> (shortcut: String)
    ensures
        shortcut@ == "Ctrl+Alt+KeyZ"@,
{
    String::from_str("Ctrl+Alt+KeyZ")
}

/// Checks that content from `origin_device_id` is newer than the slot this
/// device shows for it: the first slot of that device, where there is one,
/// must have a lower sequence.
pub fn validate_incoming_sequence(slots: &[DeviceSlot], origin_device_id: &str, sequence: u64) -> (result: Result<(), String>)
    ensures
        result is Err <==> exists|i: int| 0 <= i < slots@.len() && #[trigger] slots@[i].device_id@ == origin_device_id@
            && sequence <= slots@[i].sequence
            && forall|j: int| 0 <= j < i ==> #[trigger] slots@[j].device_id@ != origin_device_id@,
{
    let mut i: usize = 0;
    while i < slots.len()
        invariant
            i <= slots@.len(),
            forall|j: int| 0 <= j < i ==> #[trigger] slots@[j].device_id@ != origin_device_id@,
        decreases slots@.len() - i,
    {
        if str_equal(slots[i].device_id.as_str(), origin_device_id) {
            if sequence <= slots[i].sequence {
                return Err(String::from_str("远端剪贴板数据流已经过期"));
            }
            proof {
                assert forall|k: int| 0 <= k < slots@.len() && #[trigger] slots@[k].device_id@ == origin_device_id@
                    && sequence <= slots@[k].sequence implies exists|j: int| 0 <= j < k && #[trigger] slots@[j].device_id@ == origin_device_id@ by {
                    if k > i {
                        assert(slots@[i as int].device_id@ == origin_device_id@);
                    }
                }
            }
            return Ok(());
        }
        i = i + 1;
    }
    Ok(())
}

/// Some representation of the slot has kind `kind`.
pub open spec fn has_kind(reps: Seq<ClipboardRepresentation>, kind: Seq<char>) -> bool {
    exists|i: int| 0 <= i < reps.len() && (#[trigger] reps[i]).kind@ == kind
}

fn any_kind(reps: &Vec<ClipboardRepresentation>, kind: &str) -> (found: bool)
    ensures
        found == has_kind(reps@, kind@),
{
    let mut i: usize = 0;
    while i < reps.len()
        invariant
            i <= reps@.len(),
            forall|j: int| 0 <= j < i ==> (#[trigger] reps@[j]).kind@ != kind@,
        decreases reps@.len() - i,
    {
        if str_equal(reps[i].kind.as_str(), kind) {
            return true;
        }
        i = i + 1;
    }
    false
}

/// The plain-text type a slot falls back to: `url` where it has a URL form.
pub open spec fn fallback_type(slot: DeviceSlot) -> Seq<char> {
    if has_kind(slot.representations@, "url"@) {
        "url"@
    } else {
        "text"@
    }
}

/// The content type of a slot: files, image, html (rich), or its fallback.
pub open spec fn slot_content_type(slot: DeviceSlot) -> Seq<char> {
    if has_kind(slot.representations@, "files"@) {
        "files"@
    } else if has_kind(slot.representations@, "image"@) {
        "image"@
    } else if has_kind(slot.representations@, "html"@) {
        "html"@
    } else {
        fallback_type(slot)
    }
}

/// Group `g` still carries content of type `t` from the slot's origin to
/// this device.
pub open spec fn still_delivers(manifests: Seq<SignedGroupManifest>, local: Seq<char>, slot: DeviceSlot, t: Seq<char>, g: Seq<char>) -> bool {
    exists|n: Seq<char>| #[trigger] delivery_group_name(manifests, local, slot.device_id@, seq![g], t, n)
}

/// The first `k` of the slot's group ids, those through which its origin
/// still delivers content of type `t` here, in order.
pub open spec fn delivering_ids_upto(manifests: Seq<SignedGroupManifest>, local: Seq<char>, slot: DeviceSlot, t: Seq<char>, k: int) -> Seq<Seq<char>>
    decreases k,
{
    if k <= 0 {
        Seq::empty()
    } else if still_delivers(manifests, local, slot, t, slot.group_ids@[k - 1]@) {
        delivering_ids_upto(manifests, local, slot, t, k - 1).push(slot.group_ids@[k - 1]@)
    } else {
        delivering_ids_upto(manifests, local, slot, t, k - 1)
    }
}

/// The slot's group ids through which its origin still delivers content of
/// type `t` here, in order.
pub open spec fn delivering_ids(manifests: Seq<SignedGroupManifest>, local: Seq<char>, slot: DeviceSlot, t: Seq<char>) -> Seq<Seq<char>> {
    delivering_ids_upto(manifests, local, slot, t, slot.group_ids@.len() as int)
}

/// `n` names a group, among the first `k` group ids of the slot, through
/// which its origin delivers content of type `t` here.
pub open spec fn delivering_name_upto(manifests: Seq<SignedGroupManifest>, local: Seq<char>, slot: DeviceSlot, t: Seq<char>, k: int, n: Seq<char>) -> bool {
    exists|i: int| 0 <= i < k && #[trigger] delivery_group_name(manifests, local, slot.device_id@, seq![slot.group_ids@[i]@], t, n)
}

/// `n` names a group, among the slot's group ids, through which its origin
/// delivers content of type `t` here.
pub open spec fn delivering_name(manifests: Seq<SignedGroupManifest>, local: Seq<char>, slot: DeviceSlot, t: Seq<char>, n: Seq<char>) -> bool {
    delivering_name_upto(manifests, local, slot, t, slot.group_ids@.len() as int, n)
}

/// What a slot keeps after the groups changed: the group ids and names it is
/// still delivered through, and whether rich content falls back to text
/// because only its text form is still allowed.
pub struct SlotRetention {
    pub group_ids: Vec<String>,
    pub names: Vec<String>,
    pub downgrade_to_text: bool,
}

/// The retention of a slot, where it is retained: see `slot_retention`.
pub open spec fn retention_matches(
    manifests: Seq<SignedGroupManifest>,
    local: Seq<char>,
    slot: DeviceSlot,
    retention: Option<SlotRetention>,
) -> bool {
    let rich = has_kind(slot.representations@, "html"@);
    let main = delivering_ids(manifests, local, slot, slot_content_type(slot));
    let text = if rich { delivering_ids(manifests, local, slot, fallback_type(slot)) } else { Seq::empty() };
    let downgrade = rich && main.len() == 0 && text.len() > 0;
    let ids = if downgrade {
        text
    } else if rich {
        sorted_texts(|g: Seq<char>| main.contains(g) || text.contains(g))
    } else {
        main
    };
    let name = |n: Seq<char>| delivering_name(manifests, local, slot, slot_content_type(slot), n)
        || (rich && delivering_name(manifests, local, slot, fallback_type(slot), n));
    match retention {
        Some(r) => {
            &&& ids.len() > 0
            &&& r.group_ids.deep_view() == ids
            &&& r.names.deep_view() == sorted_texts(name)
            &&& r.downgrade_to_text == downgrade
        },
        None => ids.len() == 0,
    }
}

/// `validate_group_delivery_from_manifests` for the one group `group_id`.
fn one_group_delivery(
    manifests: &[SignedGroupManifest],
    local_device_id: &str,
    origin_device_id: &str,
    group_id: &String,
    content_type: &str,
) -> (names: Option<Vec<String>>)
    ensures
        match names {
            Some(found) => (exists|n: Seq<char>| #[trigger] delivery_group_name(manifests@, local_device_id@, origin_device_id@,
                seq![group_id@], content_type@, n)) && forall|n: Seq<char>| found.deep_view().contains(n)
                <==> #[trigger] delivery_group_name(manifests@, local_device_id@, origin_device_id@, seq![group_id@], content_type@, n),
            None => forall|n: Seq<char>| !#[trigger] delivery_group_name(manifests@, local_device_id@, origin_device_id@,
                seq![group_id@], content_type@, n),
        },
{
    let one = vec![group_id.clone()];
    let ids = one.as_slice();
    proof {
        assert(ids.deep_view() =~= seq![group_id@]);
    }
    match validate_group_delivery_from_manifests(manifests, local_device_id, origin_device_id, ids, content_type) {
        Ok(found) => {
            proof {
                let n0 = found.deep_view()[0];
                assert(found.deep_view().contains(n0));
                assert(delivery_group_name(manifests@, local_device_id@, origin_device_id@, seq![group_id@], content_type@, n0));
                assert forall|n: Seq<char>| found.deep_view().contains(n)
                    <==> #[trigger] delivery_group_name(manifests@, local_device_id@, origin_device_id@, seq![group_id@], content_type@, n) by {
                    assert(ids.deep_view() == seq![group_id@]);
                }
            }
            Some(found)
        },
        Err(_) => {
            proof {
                assert forall|n: Seq<char>| !#[trigger] delivery_group_name(manifests@, local_device_id@, origin_device_id@,
                    seq![group_id@], content_type@, n) by {
                    assert(ids.deep_view() == seq![group_id@]);
                    assert(!delivery_group_name(manifests@, local_device_id@, origin_device_id@, ids.deep_view(), content_type@, n));
                }
            }
            None
        },
    }
}

#[verifier::spinoff_prover]
fn delivering_groups(
    manifests: &[SignedGroupManifest],
    local_device_id: &str,
    slot: &DeviceSlot,
    content_type: &str,
) -> (result: (Vec<String>, Vec<String>))
    ensures
        result.0.deep_view() == delivering_ids(manifests@, local_device_id@, *slot, content_type@),
        forall|n: Seq<char>| result.1.deep_view().contains(n) <==> delivering_name(manifests@, local_device_id@, *slot, content_type@, n),
{
    let ghost ms = manifests@;
    let ghost local = local_device_id@;
    let ghost t = content_type@;
    let mut ids: Vec<String> = Vec::new();
    let mut names: Vec<String> = Vec::new();
    let mut i: usize = 0;
    while i < slot.group_ids.len()
        invariant
            i <= slot.group_ids@.len(),
            ms == manifests@,
            local == local_device_id@,
            t == content_type@,
            ids.deep_view() == delivering_ids_upto(ms, local, *slot, t, i as int),
            forall|n: Seq<char>| names.deep_view().contains(n) <==> #[trigger] delivering_name_upto(ms, local, *slot, t, i as int, n),
        decreases slot.group_ids@.len() - i,
    {
        let group_id = &slot.group_ids[i];
        let ghost before_ids = ids.deep_view();
        let ghost before_names = names.deep_view();
        match one_group_delivery(manifests, local_device_id, slot.device_id.as_str(), group_id, content_type) {
            Some(found) => {
                ids.push(group_id.clone());
                extend_texts(&mut names, found.as_slice());
                proof {
                    assert(still_delivers(ms, local, *slot, t, group_id@));
                    assert(ids.deep_view() =~= before_ids.push(group_id@));
                    assert forall|n: Seq<char>| names.deep_view().contains(n) <==> #[trigger] delivering_name_upto(ms, local, *slot, t, i + 1, n) by {
                        lemma_concat_contains(before_names, found.deep_view(), n);
                        lemma_name_upto_step(ms, local, *slot, t, i as int, n);
                    }
                }
            },
            None => {
                proof {
                    assert(!still_delivers(ms, local, *slot, t, group_id@));
                    assert forall|n: Seq<char>| names.deep_view().contains(n) <==> #[trigger] delivering_name_upto(ms, local, *slot, t, i + 1, n) by {
                        lemma_name_upto_step(ms, local, *slot, t, i as int, n);
                    }
                }
            },
        }
        i = i + 1;
    }
    (ids, names)
}

proof fn lemma_name_upto_step(ms: Seq<SignedGroupManifest>, local: Seq<char>, slot: DeviceSlot, t: Seq<char>, i: int, n: Seq<char>)
    requires
        0 <= i,
    ensures
        delivering_name_upto(ms, local, slot, t, i + 1, n) <==> (delivering_name_upto(ms, local, slot, t, i, n)
            || delivery_group_name(ms, local, slot.device_id@, seq![slot.group_ids@[i]@], t, n)),
{
    if delivering_name_upto(ms, local, slot, t, i + 1, n) {
        let k = choose|k: int| 0 <= k < i + 1 && #[trigger] delivery_group_name(ms, local, slot.device_id@, seq![slot.group_ids@[k]@], t, n);
        if k < i {
            assert(delivering_name_upto(ms, local, slot, t, i, n));
        }
    }
    if delivering_name_upto(ms, local, slot, t, i, n) {
        let k = choose|k: int| 0 <= k < i && #[trigger] delivery_group_name(ms, local, slot.device_id@, seq![slot.group_ids@[k]@], t, n);
        assert(0 <= k < i + 1);
    }
}

proof fn lemma_named_implies_ids(ms: Seq<SignedGroupManifest>, local: Seq<char>, slot: DeviceSlot, t: Seq<char>, k: int, n: Seq<char>)
    requires
        0 <= k <= slot.group_ids@.len(),
        delivering_name_upto(ms, local, slot, t, k, n),
    ensures
        delivering_ids_upto(ms, local, slot, t, k).len() > 0,
    decreases k,
{
    let i = choose|i: int| 0 <= i < k && #[trigger] delivery_group_name(ms, local, slot.device_id@, seq![slot.group_ids@[i]@], t, n);
    if i == k - 1 {
        assert(still_delivers(ms, local, slot, t, slot.group_ids@[k - 1]@));
    } else {
        assert(delivering_name_upto(ms, local, slot, t, k - 1, n));
        lemma_named_implies_ids(ms, local, slot, t, k - 1, n);
    }
}

/// What a slot keeps after the groups changed (see `retention_matches`): the
/// group ids through which its origin still delivers its content type here
/// and the names of those groups; rich content also counts the groups that
/// carry its text fallback, and falls back to text where only those remain.
/// `None` where no group delivers the slot any more.
pub fn slot_retention(manifests: &[SignedGroupManifest], local_device_id: &str, slot: &DeviceSlot) -> (retention: Option<SlotRetention>)
    ensures
        retention_matches(manifests@, local_device_id@, *slot, retention),
{
    let rich = any_kind(&slot.representations, "html");
    let fallback: &str = if any_kind(&slot.representations, "url") { "url" } else { "text" };
    let content_type: &str = if any_kind(&slot.representations, "files") {
        "files"
    } else if any_kind(&slot.representations, "image") {
        "image"
    } else if rich {
        "html"
    } else {
        fallback
    };
    assert(fallback@ == fallback_type(*slot));
    assert(content_type@ == slot_content_type(*slot));
    let (mut ids, mut names) = delivering_groups(manifests, local_device_id, slot, content_type);
    let (text_ids, text_names) = if rich {
        delivering_groups(manifests, local_device_id, slot, fallback)
    } else {
        (Vec::new(), Vec::new())
    };
    let ghost main = ids.deep_view();
    let ghost text = text_ids.deep_view();
    let ghost main_names = names.deep_view();
    let ghost more_names = text_names.deep_view();
    proof {
        if !rich {
            assert(text =~= Seq::<Seq<char>>::empty());
        }
    }
    let downgrade = rich && ids.len() == 0 && text_ids.len() > 0;
    if rich {
        if downgrade {
            ids = text_ids;
            names = text_names;
        } else {
            extend_texts(&mut ids, text_ids.as_slice());
            extend_texts(&mut names, text_names.as_slice());
            let ghost joined_ids = ids.deep_view();
            sort_dedup_texts(&mut ids);
            proof {
                assert forall|g: Seq<char>| ids.deep_view().contains(g) <==> (main.contains(g) || text.contains(g)) by {
                    lemma_concat_contains(main, text, g);
                }
                lemma_sorted_texts_is(ids.deep_view(), |g: Seq<char>| main.contains(g) || text.contains(g));
            }
        }
    }
    let ghost unsorted_names = names.deep_view();
    sort_dedup_texts(&mut names);
    proof {
        let ct = slot_content_type(*slot);
        let fb = fallback_type(*slot);
        let name = |n: Seq<char>| delivering_name(manifests@, local_device_id@, *slot, ct, n)
            || (rich && delivering_name(manifests@, local_device_id@, *slot, fb, n));
        assert forall|n: Seq<char>| names.deep_view().contains(n) <==> name(n) by {
            if rich && !downgrade {
                lemma_concat_contains(main_names, more_names, n);
            }
            if downgrade && delivering_name(manifests@, local_device_id@, *slot, ct, n) {
                lemma_named_implies_ids(manifests@, local_device_id@, *slot, ct, slot.group_ids@.len() as int, n);
            }
        }
        lemma_sorted_texts_is(names.deep_view(), name);
    }
    if ids.len() == 0 {
        None
    } else {
        Some(SlotRetention { group_ids: ids, names, downgrade_to_text: downgrade })
    }
}

/// The two slots agree on all fields but their groups, size and
/// representations.
pub open spec fn same_slot_content(a: DeviceSlot, b: DeviceSlot) -> bool {
    &&& a.id == b.id
    &&& a.revision == b.revision
    &&& a.device_id == b.device_id
    &&& a.device_name == b.device_name
    &&& a.platform == b.platform
    &&& a.online == b.online
    &&& a.pinned == b.pinned
    &&& a.availability == b.availability
    &&& a.preview == b.preview
    &&& a.image_preview == b.image_preview
    &&& a.file_names == b.file_names
    &&& a.captured_at == b.captured_at
    &&& a.age_label == b.age_label
    &&& a.sequence == b.sequence
    &&& a.blocked_reason == b.blocked_reason
    &&& a.progress == b.progress
}

/// Gives a retained slot its remaining groups; a slot that falls back to
/// text gets the one plain-text (or URL) representation, sized `text_size`
/// where the text of the received rich content is known, else keeping its
/// size.
pub fn apply_retention(slot: &mut DeviceSlot, retention: SlotRetention, text_size: Option<u64>)
    ensures
        same_slot_content(*final(slot), *old(slot)),
        final(slot).group_ids == retention.group_ids,
        final(slot).groups == retention.names,
        !retention.downgrade_to_text ==> final(slot).size == old(slot).size && final(slot).representations == old(slot).representations,
        retention.downgrade_to_text ==> ({
            let size = match text_size {
                Some(s) => s,
                None => old(slot).size,
            };
            &&& final(slot).size == size
            &&& final(slot).representations@.len() == 1
            &&& if fallback_type(*old(slot)) == "url"@ {
                ready_as(final(slot).representations@[0], "text/uri-list"@, "url"@, "URL"@, "text/uri-list;charset=utf-8"@, size)
            } else {
                ready_as(final(slot).representations@[0], "text/plain"@, "text"@, "纯文本"@, "text/plain;charset=utf-8"@, size)
            }
        }),
{
    slot.group_ids = retention.group_ids;
    slot.groups = retention.names;
    if retention.downgrade_to_text {
        let is_url = any_kind(&slot.representations, "url");
        assert(slot.representations@ == old(slot).representations@);
        assert(is_url == has_kind(old(slot).representations@, "url"@));
        proof {
            reveal_strlit("url");
            reveal_strlit("text");
            assert("text"@ != "url"@) by {
                assert("text"@[0] != "url"@[0]);
            }
        }
        assert(is_url == (fallback_type(*old(slot)) == "url"@));
        let size = match text_size {
            Some(s) => s,
            None => slot.size,
        };
        let representation = if is_url {
            ready_representation("text/uri-list", "url", "URL", "text/uri-list;charset=utf-8", size)
        } else {
            ready_representation("text/plain", "text", "纯文本", "text/plain;charset=utf-8", size)
        };
        slot.size = size;
        slot.representations = vec![representation];
    }
}

} // verus!
