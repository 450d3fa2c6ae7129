//! Taking remote content into the local clipboard: which slots may be
//! imported, the operation that waits for the user's confirmation, what the
//! local clipboard shows afterwards, and which slots and bodies the content
//! settings keep.

use vstd::prelude::*;
use vstd::string::*;
use crate::content::{image_preview_data_url, text_content_type, text_type};
use crate::delivery::{delivery_group_name, permits, validate_group_delivery_from_manifests, ContentPermissions};
use crate::files::{push_decimal, ReceivedFileBundle};
use crate::group::SignedGroupManifest;
use crate::text::{str_equal, truncate_text, truncated};
use crate::views::{has_kind, slot_content_type, CurrentClipboard, DeviceSlot, ImportOperation};

verus! {

/// The content received from a device, kept until it is imported.
pub enum RemoteClipboardBody {
    Text(String),
    Rich { text: String, html: Option<String>, rtf: Option<String> },
    Files(ReceivedFileBundle),
    Image { rgba: Vec<u8>, width: u32, height: u32 },
}

/// Whether the settings allow importing content of type `t`; anything but
/// image, html, url and files counts as text.
pub open spec fn import_permitted(p: ContentPermissions, t: Seq<char>) -> bool {
    if t == "image"@ {
        p.allow_images
    } else if t == "html"@ {
        p.allow_html
    } else if t == "url"@ {
        p.allow_urls
    } else if t == "files"@ {
        p.allow_files
    } else {
        p.allow_text
    }
}

/// Which setting lets a slot be imported, by what the slot holds: a slot
/// with files goes by `allow_files`; else one with an image by
/// `allow_images`; else one with an HTML representation (rich text) by
/// `allow_html`; else one with a URL by `allow_urls`; else by
/// `allow_text`. Each depends on that one setting alone.
pub proof fn lemma_import_setting_per_slot(p: ContentPermissions, slot: DeviceSlot)
    ensures
        ({
            let reps = slot.representations@;
            let allowed = import_permitted(p, slot_content_type(slot));
            &&& has_kind(reps, "files"@) ==> allowed == p.allow_files
            &&& !has_kind(reps, "files"@) && has_kind(reps, "image"@) ==> allowed == p.allow_images
            &&& !has_kind(reps, "files"@) && !has_kind(reps, "image"@) && has_kind(reps, "html"@) ==> allowed == p.allow_html
            &&& !has_kind(reps, "files"@) && !has_kind(reps, "image"@) && !has_kind(reps, "html"@) && has_kind(reps, "url"@)
                ==> allowed == p.allow_urls
            &&& !has_kind(reps, "files"@) && !has_kind(reps, "image"@) && !has_kind(reps, "html"@) && !has_kind(reps, "url"@)
                ==> allowed == p.allow_text
        }),
{
    reveal_strlit("text");
    reveal_strlit("url");
    reveal_strlit("image");
    reveal_strlit("html");
    reveal_strlit("files");
    assert("text"@.len() == 4 && "url"@.len() == 3 && "image"@.len() == 5 && "html"@.len() == 4 && "files"@.len() == 5);
    assert("text"@[0] != "html"@[0]);
    assert("image"@[0] != "files"@[0]);
}

fn import_enabled(permissions: &ContentPermissions, content_type: &str) -> (enabled: bool)
    ensures
        enabled == import_permitted(*permissions, content_type@),
{
    if str_equal(content_type, "image") {
        permissions.allow_images
    } else if str_equal(content_type, "html") {
        permissions.allow_html
    } else if str_equal(content_type, "url") {
        permissions.allow_urls
    } else if str_equal(content_type, "files") {
        permissions.allow_files
    } else {
        permissions.allow_text
    }
}

fn kind_present(slot: &DeviceSlot, kind: &str) -> (found: bool)
    ensures
        found == has_kind(slot.representations@, kind@),
{
    let mut i: usize = 0;
    while i < slot.representations.len()
        invariant
            i <= slot.representations@.len(),
            forall|j: int| 0 <= j < i ==> (#[trigger] slot.representations@[j]).kind@ != kind@,
        decreases slot.representations@.len() - i,
    {
        if str_equal(slot.representations[i].kind.as_str(), kind) {
            return true;
        }
        i = i + 1;
    }
    false
}

/// The content type of a slot, as the import checks it.
pub fn content_type_of_slot(slot: &DeviceSlot) -> (kind: &'static str)
    ensures
        kind@ == slot_content_type(*slot),
{
    if kind_present(slot, "files") {
        "files"
    } else if kind_present(slot, "image") {
        "image"
    } else if kind_present(slot, "html") {
        "html"
    } else if kind_present(slot, "url") {
        "url"
    } else {
        "text"
    }
}

/// Slot `i` is the first with this id and revision.
pub open spec fn first_slot(slots: Seq<DeviceSlot>, slot_id: Seq<char>, revision: u64, i: int) -> bool {
    &&& 0 <= i < slots.len()
    &&& slots[i].id@ == slot_id && slots[i].revision == revision
    &&& forall|j: int| 0 <= j < i ==> !((#[trigger] slots[j]).id@ == slot_id && slots[j].revision == revision)
}

fn find_slot(slots: &[DeviceSlot], slot_id: &str, revision: u64) -> (found: Option<usize>)
    ensures
        match found {
            Some(i) => first_slot(slots@, slot_id@, revision, i as int),
            None => forall|k: int| !#[trigger] first_slot(slots@, slot_id@, revision, k),
        },
{
    let mut i: usize = 0;
    while i < slots.len()
        invariant
            i <= slots@.len(),
            forall|j: int| 0 <= j < i ==> !((#[trigger] slots@[j]).id@ == slot_id@ && slots@[j].revision == revision),
        decreases slots@.len() - i,
    {
        if str_equal(slots[i].id.as_str(), slot_id) && slots[i].revision == revision {
            return Some(i);
        }
        i = i + 1;
    }
    proof {
        assert forall|k: int| !#[trigger] first_slot(slots@, slot_id@, revision, k) by {
            if 0 <= k < slots@.len() {
                assert(!(slots@[k].id@ == slot_id@ && slots@[k].revision == revision));
            }
        }
    }
    None
}

/// Checks a request to import the slot `slot_id` at `revision`: the slot
/// must exist at that revision, still be delivered through its groups, be of
/// a type the settings allow, and have its content at hand
/// (`body_available`). Returns the slot's index.
pub fn check_import(
    manifests: &[SignedGroupManifest],
    local_device_id: &str,
    slots: &[DeviceSlot],
    slot_id: &str,
    revision: u64,
    permissions: &ContentPermissions,
    body_available: bool,
) -> (result: Result<usize, String>)
    ensures
        match result {
            Ok(i) => {
                let s = slots@[i as int];
                &&& first_slot(slots@, slot_id@, revision, i as int)
                &&& exists|n: Seq<char>| #[trigger] delivery_group_name(manifests@, local_device_id@, s.device_id@,
                    s.group_ids.deep_view(), slot_content_type(s), n)
                &&& import_permitted(*permissions, slot_content_type(s))
                &&& body_available
            },
            Err(_) => (forall|i: int| !#[trigger] first_slot(slots@, slot_id@, revision, i)) || exists|i: int| #[trigger] first_slot(slots@, slot_id@, revision, i) && {
                let s = slots@[i];
                ||| forall|n: Seq<char>| !#[trigger] delivery_group_name(manifests@, local_device_id@, s.device_id@,
                    s.group_ids.deep_view(), slot_content_type(s), n)
                ||| !import_permitted(*permissions, slot_content_type(s))
                ||| !body_available
            },
        },
{
    let i = match find_slot(slots, slot_id, revision) {
        Some(i) => i,
        None => return Err(String::from_str("设备槽位不存在或已经更新")),
    };
    let slot = &slots[i];
    proof {
        assert(first_slot(slots@, slot_id@, revision, i as int));
    }
    let content_type = content_type_of_slot(slot);
    let ids = slot.group_ids.as_slice();
    assert(ids.deep_view() =~= slot.group_ids.deep_view());
    match validate_group_delivery_from_manifests(manifests, local_device_id, slot.device_id.as_str(), ids, content_type) {
        Ok(names) => {
            proof {
                assert(names.deep_view().contains(names.deep_view()[0]));
                assert(delivery_group_name(manifests@, local_device_id@, slot.device_id@, slot.group_ids.deep_view(),
                    slot_content_type(*slot), names.deep_view()[0]));
            }
        },
        Err(e) => {
            proof {
                assert(first_slot(slots@, slot_id@, revision, i as int));
                assert forall|n: Seq<char>| !#[trigger] delivery_group_name(manifests@, local_device_id@, slot.device_id@,
                    slot.group_ids.deep_view(), slot_content_type(*slot), n) by {
                    assert(!delivery_group_name(manifests@, local_device_id@, slot.device_id@, ids.deep_view(),
                        slot_content_type(*slot), n));
                }
            }
            return Err(e);
        },
    }
    if !import_enabled(permissions, content_type) {
        return Err(String::from_str("本机策略已停用此内容类型的取用"));
    }
    if !body_available {
        let mut message = slot.device_name.clone();
        message.append(" 的远端正文当前不可用");
        return Err(message);
    }
    Ok(i)
}

/// The operation that waits for the user to confirm an import of `slot`.
pub fn new_import_operation(import_id: String, slot: &DeviceSlot) -> (operation: ImportOperation)
    ensures
        operation.id == import_id,
        operation.slot_id == slot.id,
        operation.device_name == slot.device_name,
        operation.source_summary@ == truncated(slot.preview@, 80),
        operation.status@ == "awaiting_confirmation"@,
        operation.progress == 100,
        operation.message matches Some(m) && m@ == "确认后才会写入本机系统剪贴板"@,
{
    ImportOperation {
        id: import_id,
        slot_id: slot.id.clone(),
        device_name: slot.device_name.clone(),
        source_summary: truncate_text(slot.preview.as_str(), 80),
        status: String::from_str("awaiting_confirmation"),
        progress: 100,
        message: Some(String::from_str("确认后才会写入本机系统剪贴板")),
    }
}

/// The index of the first import with this id that waits for confirmation.
pub fn pending_import(imports: &[ImportOperation], import_id: &str) -> (index: Option<usize>)
    ensures
        match index {
            Some(i) => i < imports@.len() && imports@[i as int].id@ == import_id@
                && imports@[i as int].status@ == "awaiting_confirmation"@
                && forall|j: int| 0 <= j < i ==> !((#[trigger] imports@[j]).id@ == import_id@
                    && imports@[j].status@ == "awaiting_confirmation"@),
            None => forall|j: int| 0 <= j < imports@.len() ==> !((#[trigger] imports@[j]).id@ == import_id@
                && imports@[j].status@ == "awaiting_confirmation"@),
        },
{
    let mut i: usize = 0;
    while i < imports.len()
        invariant
            i <= imports@.len(),
            forall|j: int| 0 <= j < i ==> !((#[trigger] imports@[j]).id@ == import_id@
                && imports@[j].status@ == "awaiting_confirmation"@),
        decreases imports@.len() - i,
    {
        if str_equal(imports[i].id.as_str(), import_id) && str_equal(imports[i].status.as_str(), "awaiting_confirmation") {
            return Some(i);
        }
        i = i + 1;
    }
    None
}

/// What the local clipboard shows once a body is imported.
pub struct ImportSummary {
    pub preview: String,
    pub types: Vec<String>,
    pub image_preview: Option<String>,
    pub file_names: Option<Vec<String>>,
}

/// The summary of an imported body: its preview, the forms it offers, and
/// for images and files their preview or names.
pub fn import_summary(body: &RemoteClipboardBody) -> (summary: ImportSummary)
    ensures
        match body {
            RemoteClipboardBody::Text(text) => {
                &&& summary.preview@ == truncated(text@, 4096)
                &&& summary.types.deep_view() == seq![if text_type(text@) == "url"@ { "URL"@ } else { "纯文本"@ }]
                &&& summary.image_preview is None
                &&& summary.file_names is None
            },
            RemoteClipboardBody::Rich { text, .. } => {
                &&& summary.preview@ == truncated(text@, 4096)
                &&& summary.types.deep_view() == seq!["富文本 / HTML"@, "纯文本降级"@]
                &&& summary.image_preview is None
                &&& summary.file_names is None
            },
            RemoteClipboardBody::Files(bundle) => {
                &&& summary.preview@ == crate::views::item_count_label(bundle.clipboard_path_list().len())
                &&& summary.types.deep_view() == seq!["文件与目录"@]
                &&& summary.image_preview is None
                &&& summary.file_names matches Some(names) && names.deep_view() == crate::files::file_names(bundle.clipboard_path_list())
            },
            RemoteClipboardBody::Image { rgba, width, height } => {
                &&& summary.preview@ == crate::views::image_label(*width, *height)
                &&& summary.types.deep_view() == seq!["图片"@]
                &&& match summary.image_preview {
                    Some(p) => crate::content::image_preview_url(rgba@, *width, *height) == Some(p@),
                    None => crate::content::image_preview_url(rgba@, *width, *height) is None,
                }
                &&& summary.file_names is None
            },
        },
{
    match body {
        RemoteClipboardBody::Text(text) => {
            let label = if str_equal(text_content_type(text.as_str()), "url") {
                String::from_str("URL")
            } else {
                String::from_str("纯文本")
            };
            let types = vec![label];
            proof {
                assert(types.deep_view() =~= seq![label@]);
            }
            ImportSummary { preview: truncate_text(text.as_str(), 4096), types, image_preview: None, file_names: None }
        },
        RemoteClipboardBody::Rich { text, .. } => {
            let types = vec![String::from_str("富文本 / HTML"), String::from_str("纯文本降级")];
            proof {
                assert(types.deep_view() =~= seq!["富文本 / HTML"@, "纯文本降级"@]);
            }
            ImportSummary { preview: truncate_text(text.as_str(), 4096), types, image_preview: None, file_names: None }
        },
        RemoteClipboardBody::Files(bundle) => {
            let paths = bundle.clipboard_paths();
            let mut preview = String::new();
            push_decimal(&mut preview, paths.len() as u64);
            preview.append(" 个文件或目录");
            proof {
                assert(preview@ =~= crate::views::item_count_label(bundle.clipboard_path_list().len()));
            }
            let types = vec![String::from_str("文件与目录")];
            proof {
                assert(types.deep_view() =~= seq!["文件与目录"@]);
            }
            ImportSummary { preview, types, image_preview: None, file_names: Some(bundle.display_names()) }
        },
        RemoteClipboardBody::Image { rgba, width, height } => {
            let mut preview = String::from_str("图片 · ");
            push_decimal(&mut preview, *width as u64);
            preview.append(" × ");
            push_decimal(&mut preview, *height as u64);
            proof {
                assert(preview@ =~= crate::views::image_label(*width, *height));
            }
            let types = vec![String::from_str("图片")];
            proof {
                assert(types.deep_view() =~= seq!["图片"@]);
            }
            ImportSummary {
                preview,
                types,
                image_preview: image_preview_data_url(rgba.as_slice(), *width, *height),
                file_names: None,
            }
        },
    }
}

/// Marks the first import with this id and slot as done and describes the
/// local clipboard it produced, taken from the import's device at
/// `changed_at`. Nothing changes where no such import exists.
pub fn complete_import(
    imports: &mut Vec<ImportOperation>,
    import_id: &str,
    slot_id: &str,
    summary: ImportSummary,
    changed_at: String,
) -> (current: Option<CurrentClipboard>)
    ensures
        final(imports)@.len() == old(imports)@.len(),
        match current {
            Some(c) => exists|i: int| 0 <= i < old(imports)@.len() && (#[trigger] old(imports)@[i]).id@ == import_id@
                && old(imports)@[i].slot_id@ == slot_id@
                && (forall|j: int| 0 <= j < i ==> !((#[trigger] old(imports)@[j]).id@ == import_id@ && old(imports)@[j].slot_id@ == slot_id@))
                && final(imports)@[i].status@ == "imported"@
                && (final(imports)@[i].message matches Some(m) && m@ == "已写入本机剪贴板"@)
                && final(imports)@[i].id == old(imports)@[i].id && final(imports)@[i].slot_id == old(imports)@[i].slot_id
                && final(imports)@[i].device_name == old(imports)@[i].device_name
                && (forall|j: int| 0 <= j < old(imports)@.len() && j != i ==> final(imports)@[j] == old(imports)@[j])
                && c.source@ == "remote"@ && c.source_label@ == "取自 "@ + old(imports)@[i].device_name@
                && c.preview == summary.preview && c.types == summary.types && c.image_preview == summary.image_preview
                && c.file_names == summary.file_names && c.changed_at == changed_at,
            None => final(imports)@ == old(imports)@ && forall|j: int| 0 <= j < old(imports)@.len()
                ==> !((#[trigger] old(imports)@[j]).id@ == import_id@ && old(imports)@[j].slot_id@ == slot_id@),
        },
{
    let mut i: usize = 0;
    while i < imports.len()
        invariant
            imports@ == old(imports)@,
            i <= imports@.len(),
            forall|j: int| 0 <= j < i ==> !((#[trigger] imports@[j]).id@ == import_id@ && imports@[j].slot_id@ == slot_id@),
        decreases imports@.len() - i,
    {
        if str_equal(imports[i].id.as_str(), import_id) && str_equal(imports[i].slot_id.as_str(), slot_id) {
            let mut operation = imports.remove(i);
            operation.status = String::from_str("imported");
            operation.message = Some(String::from_str("已写入本机剪贴板"));
            let mut label = String::from_str("取自 ");
            label.append(operation.device_name.as_str());
            let current = CurrentClipboard {
                source: String::from_str("remote"),
                source_label: label,
                preview: summary.preview,
                image_preview: summary.image_preview,
                file_names: summary.file_names,
                types: summary.types,
                changed_at,
            };
            imports.insert(i, operation);
            return Some(current);
        }
        i = i + 1;
    }
    None
}

/// A confirmed import is not pending again: where only one operation has
/// the id, once `complete_import` has marked it imported (its other
/// operations unchanged), none with that id awaits confirmation, so
/// `pending_import` finds nothing and a second confirmation is refused.
pub proof fn lemma_confirmed_import_not_pending(
    before: Seq<ImportOperation>,
    after: Seq<ImportOperation>,
    import_id: Seq<char>,
    i: int,
)
    requires
        0 <= i < before.len(),
        after.len() == before.len(),
        before[i].id@ == import_id,
        after[i].id == before[i].id,
        after[i].status@ == "imported"@,
        forall|j: int| 0 <= j < before.len() && j != i ==> after[j] == before[j],
        forall|j: int| 0 <= j < before.len() && (#[trigger] before[j]).id@ == import_id ==> j == i,
    ensures
        forall|j: int| 0 <= j < after.len() ==> !((#[trigger] after[j]).id@ == import_id
            && after[j].status@ == "awaiting_confirmation"@),
{
    assert("imported"@ != "awaiting_confirmation"@) by {
        reveal_strlit("imported");
        reveal_strlit("awaiting_confirmation");
        assert("imported"@.len() != "awaiting_confirmation"@.len());
    }
    assert forall|j: int| 0 <= j < after.len() implies !((#[trigger] after[j]).id@ == import_id
        && after[j].status@ == "awaiting_confirmation"@) by {
        if j != i {
            assert(after[j] == before[j]);
        }
    }
}

/// Drops the imports with this id.
pub fn cancel_import(imports: &mut Vec<ImportOperation>, import_id: &str)
    ensures
        final(imports)@ == old(imports)@.filter(|op: ImportOperation| op.id@ != import_id@),
{
    let ghost original = imports@;
    let mut kept: Vec<ImportOperation> = Vec::new();
    let mut rest: Vec<ImportOperation> = Vec::new();
    std::mem::swap(&mut rest, imports);
    let ghost mut i: int = 0;
    let ghost pred = |op: ImportOperation| op.id@ != import_id@;
    while rest.len() > 0
        invariant
            0 <= i <= original.len(),
            i + rest@.len() == original.len(),
            rest@ == original.skip(i),
            kept@ == original.take(i).filter(pred),
            pred == (|op: ImportOperation| op.id@ != import_id@),
        decreases rest@.len(),
    {
        let op = rest.remove(0);
        proof {
            reveal_with_fuel(Seq::filter, 1);
            assert(original.take(i + 1).drop_last() =~= original.take(i));
            assert(original.take(i + 1).last() == op);
            assert(rest@ =~= original.skip(i + 1));
        }
        if !str_equal(op.id.as_str(), import_id) {
            kept.push(op);
        }
        proof {
            i = i + 1;
        }
    }
    proof {
        assert(original.take(original.len() as int) =~= original);
    }
    *imports = kept;
}

/// A slot that the content settings keep: text and URL slots need their
/// type allowed unless they are rich (which the HTML setting governs), and
/// images, HTML and files need theirs.
pub open spec fn slot_permitted(slot: DeviceSlot, p: ContentPermissions) -> bool {
    let reps = slot.representations@;
    &&& p.allow_text || !has_kind(reps, "text"@) || has_kind(reps, "html"@)
    &&& p.allow_urls || !has_kind(reps, "url"@) || has_kind(reps, "html"@)
    &&& p.allow_images || !has_kind(reps, "image"@)
    &&& p.allow_html || !has_kind(reps, "html"@)
    &&& p.allow_files || !has_kind(reps, "files"@)
}

/// Whether the settings keep the slot.
pub fn slot_allowed(slot: &DeviceSlot, p: &ContentPermissions) -> (keep: bool)
    ensures
        keep == slot_permitted(*slot, *p),
{
    let html = kind_present(slot, "html");
    (p.allow_text || !kind_present(slot, "text") || html) && (p.allow_urls || !kind_present(slot, "url") || html)
        && (p.allow_images || !kind_present(slot, "image")) && (p.allow_html || !html)
        && (p.allow_files || !kind_present(slot, "files"))
}

/// Every content type is allowed.
pub open spec fn all_permitted(p: ContentPermissions) -> bool {
    p.allow_text && p.allow_urls && p.allow_images && p.allow_html && p.allow_files
}

/// Applies changed content settings to what the interface shows: the slots
/// they no longer allow go, and pending imports are dropped as soon as any
/// type is disallowed.
pub fn apply_content_settings(slots: &mut Vec<DeviceSlot>, imports: &mut Vec<ImportOperation>, p: &ContentPermissions)
    ensures
        final(slots)@ == old(slots)@.filter(|s: DeviceSlot| slot_permitted(s, *p)),
        final(imports)@ == if all_permitted(*p) { old(imports)@ } else { Seq::empty() },
{
    let ghost original = slots@;
    let ghost pred = |s: DeviceSlot| slot_permitted(s, *p);
    let mut kept: Vec<DeviceSlot> = Vec::new();
    let mut rest: Vec<DeviceSlot> = Vec::new();
    std::mem::swap(&mut rest, slots);
    let ghost mut i: int = 0;
    while rest.len() > 0
        invariant
            0 <= i <= original.len(),
            i + rest@.len() == original.len(),
            rest@ == original.skip(i),
            kept@ == original.take(i).filter(pred),
            pred == (|s: DeviceSlot| slot_permitted(s, *p)),
        decreases rest@.len(),
    {
        let slot = rest.remove(0);
        proof {
            reveal_with_fuel(Seq::filter, 1);
            assert(original.take(i + 1).drop_last() =~= original.take(i));
            assert(original.take(i + 1).last() == slot);
            assert(rest@ =~= original.skip(i + 1));
        }
        if slot_allowed(&slot, p) {
            kept.push(slot);
        }
        proof {
            i = i + 1;
        }
    }
    proof {
        assert(original.take(original.len() as int) =~= original);
    }
    *slots = kept;
    if !(p.allow_text && p.allow_urls && p.allow_images && p.allow_html && p.allow_files) {
        imports.clear();
    }
}

/// Whether the settings keep a received body: text by its type (URL or
/// plain), rich content by HTML, files and images by theirs.
pub open spec fn body_permitted(body: RemoteClipboardBody, p: ContentPermissions) -> bool {
    match body {
        RemoteClipboardBody::Text(text) => if text_type(text@) == "url"@ {
            p.allow_urls
        } else {
            p.allow_text
        },
        RemoteClipboardBody::Rich { .. } => p.allow_html,
        RemoteClipboardBody::Files(_) => p.allow_files,
        RemoteClipboardBody::Image { .. } => p.allow_images,
    }
}

/// Whether the settings keep a cached or received text.
pub fn text_permitted(text: &str, p: &ContentPermissions) -> (keep: bool)
    ensures
        keep == if text_type(text@) == "url"@ { p.allow_urls } else { p.allow_text },
{
    if str_equal(text_content_type(text), "url") {
        p.allow_urls
    } else {
        p.allow_text
    }
}

/// Whether the settings keep a received body.
pub fn body_allowed(body: &RemoteClipboardBody, p: &ContentPermissions) -> (keep: bool)
    ensures
        keep == body_permitted(*body, *p),
{
    match body {
        RemoteClipboardBody::Text(text) => text_permitted(text.as_str(), p),
        RemoteClipboardBody::Rich { .. } => p.allow_html,
        RemoteClipboardBody::Files(_) => p.allow_files,
        RemoteClipboardBody::Image { .. } => p.allow_images,
    }
}

/// A global shortcut the user typed: trimmed, and holding a `+` between a
/// modifier and a key.
pub fn check_global_shortcut(shortcut: &str) -> (result: Result<String, String>)
    ensures
        match result {
            Ok(s) => s@ == crate::text::trimmed(shortcut@) && s@.contains('+'),
            Err(_) => !crate::text::trimmed(shortcut@).contains('+'),
        },
{
    let trimmed = crate::text::trim(shortcut);
    if !crate::text::contains_char(trimmed.as_str(), '+') {
        return Err(String::from_str("快捷键必须包含 Ctrl、Alt、Shift 或 Super 修饰键"));
    }
    Ok(trimmed)
}

} // verus!
