//! Accepting clipboard content from another device: the size and format
//! limits, the sender's authorization, the groups it arrives through, the
//! local settings, and replacing the device's slot only with newer content.

use vstd::prelude::*;
use vstd::string::*;
use vstd::utf8::encode_utf8;
use crate::content::{text_content_type, text_type};
use crate::delivery::{delivery_group_name, validate_group_delivery_from_manifests, ContentPermissions};
use crate::group::SignedGroupManifest;
use crate::order::{extend_texts, lemma_concat_contains, lemma_sorted_texts_is, sort_dedup_texts, sorted_texts};
use crate::text::str_equal;
use crate::views::DeviceSlot;

verus! {

/// The largest text or rich text accepted from another device.
pub const MAX_REMOTE_TEXT_BYTES: usize = 1024 * 1024;

/// The largest image accepted from another device.
pub const MAX_REMOTE_IMAGE_BYTES: usize = 64 * 1024 * 1024;

/// The group names through which content of type `t` from `origin` with
/// these group ids reaches this device, as a sorted list.
pub open spec fn delivered_names(
    manifests: Seq<SignedGroupManifest>,
    local: Seq<char>,
    origin: Seq<char>,
    ids: Seq<Seq<char>>,
    t: Seq<char>,
) -> Seq<Seq<char>> {
    sorted_texts(|n: Seq<char>| delivery_group_name(manifests, local, origin, ids, t, n))
}

/// Some group delivers content of type `t`.
pub open spec fn delivered(manifests: Seq<SignedGroupManifest>, local: Seq<char>, origin: Seq<char>, ids: Seq<Seq<char>>, t: Seq<char>) -> bool {
    exists|n: Seq<char>| #[trigger] delivery_group_name(manifests, local, origin, ids, t, n)
}

/// Checks text from another device: at most 1 MiB, from a device that is
/// authorized with sync enabled, delivered through some group for its type
/// (URL or text), and allowed by the settings. Returns the group names, or
/// `None` where receiving is paused or the device's slot already shows
/// content at least as new (the text is then dropped quietly: it replaces
/// neither the slot nor its kept body nor its cached copy).
pub fn check_remote_text(
    text: &str,
    authorized_sync: bool,
    manifests: &[SignedGroupManifest],
    local_device_id: &str,
    origin_device_id: &str,
    group_ids: &[String],
    permissions: &ContentPermissions,
    subscribe_paused: bool,
    slots: &[DeviceSlot],
    sequence: u64,
) -> (result: Result<Option<Vec<String>>, String>)
    ensures
        ({
            let t = text_type(text@);
            let ok = encode_utf8(text@).len() <= MAX_REMOTE_TEXT_BYTES && authorized_sync
                && delivered(manifests@, local_device_id@, origin_device_id@, group_ids.deep_view(), t)
                && (if t == "url"@ { permissions.allow_urls } else { permissions.allow_text });
            match result {
                Ok(Some(names)) => ok && !subscribe_paused && !stale(slots@, origin_device_id@, sequence)
                    && names.deep_view() == delivered_names(manifests@, local_device_id@, origin_device_id@, group_ids.deep_view(), t),
                Ok(None) => ok && (subscribe_paused || stale(slots@, origin_device_id@, sequence)),
                Err(_) => !ok,
            }
        }),
{
    if text.as_bytes().len() > MAX_REMOTE_TEXT_BYTES {
        return Err(String::from_str("远端文本超过 1 MiB"));
    }
    if !authorized_sync {
        return Err(String::from_str("该设备的剪贴板同步已停用"));
    }
    let content_type = text_content_type(text);
    let names = match validate_group_delivery_from_manifests(manifests, local_device_id, origin_device_id, group_ids, content_type) {
        Ok(names) => {
            proof {
                assert(names.deep_view().contains(names.deep_view()[0]));
                assert(delivery_group_name(manifests@, local_device_id@, origin_device_id@, group_ids.deep_view(), content_type@,
                    names.deep_view()[0]));
            }
            names
        },
        Err(e) => return Err(e),
    };
    let allowed = if str_equal(content_type, "url") { permissions.allow_urls } else { permissions.allow_text };
    if !allowed {
        return Err(String::from_str("本机策略已停用此文本类型同步"));
    }
    if subscribe_paused || is_stale(slots, origin_device_id, sequence) {
        return Ok(None);
    }
    Ok(Some(names))
}

/// The first slot of `device_id` already shows content at least as new.
pub open spec fn stale(slots: Seq<DeviceSlot>, device_id: Seq<char>, sequence: u64) -> bool {
    exists|i: int| 0 <= i < slots.len() && #[trigger] slots[i].device_id@ == device_id && sequence <= slots[i].sequence
        && forall|j: int| 0 <= j < i ==> #[trigger] slots[j].device_id@ != device_id
}

fn is_stale(slots: &[DeviceSlot], device_id: &str, sequence: u64) -> (result: bool)
    ensures
        result == stale(slots@, device_id@, sequence),
{
    crate::views::validate_incoming_sequence(slots, device_id, sequence).is_err()
}

/// Checks rich text from another device: HTML or RTF present, at most 1 MiB
/// in all, an authorized device, delivered as HTML through some group, and
/// allowed by the settings. Returns the names of the groups that carry it as
/// HTML or as its text fallback, sorted; `None` where the device's slot
/// already shows newer content.
pub fn check_remote_rich(
    text: &str,
    html: Option<&str>,
    rtf: Option<&str>,
    authorized_sync: bool,
    manifests: &[SignedGroupManifest],
    local_device_id: &str,
    origin_device_id: &str,
    group_ids: &[String],
    permissions: &ContentPermissions,
    subscribe_paused: bool,
    slots: &[DeviceSlot],
    sequence: u64,
) -> (result: Result<Option<Vec<String>>, String>)
    ensures
        ({
            let size = encode_utf8(text@).len() + match html {
                Some(h) => encode_utf8(h@).len(),
                None => 0,
            } + match rtf {
                Some(r) => encode_utf8(r@).len(),
                None => 0,
            };
            let ids = group_ids.deep_view();
            let ok = (html is Some || rtf is Some) && size <= MAX_REMOTE_TEXT_BYTES && authorized_sync
                && delivered(manifests@, local_device_id@, origin_device_id@, ids, "html"@)
                && !subscribe_paused && permissions.allow_html;
            match result {
                Ok(Some(names)) => ok && !stale(slots@, origin_device_id@, sequence) && names.deep_view() == sorted_texts(
                    |n: Seq<char>| delivery_group_name(manifests@, local_device_id@, origin_device_id@, ids, "html"@, n)
                        || delivery_group_name(manifests@, local_device_id@, origin_device_id@, ids, text_type(text@), n),
                ),
                Ok(None) => ok && stale(slots@, origin_device_id@, sequence),
                Err(_) => !ok,
            }
        }),
{
    let text_len = text.as_bytes().len();
    let html_len: usize = match html {
        Some(h) => h.as_bytes().len(),
        None => 0,
    };
    let rtf_len: usize = match rtf {
        Some(r) => r.as_bytes().len(),
        None => 0,
    };
    let total = text_len.saturating_add(html_len).saturating_add(rtf_len);
    if (html.is_none() && rtf.is_none()) || total > MAX_REMOTE_TEXT_BYTES {
        return Err(String::from_str("远端富文本格式或大小无效"));
    }
    if !authorized_sync {
        return Err(String::from_str("该设备的剪贴板同步已停用"));
    }
    let ghost ids = group_ids.deep_view();
    let mut names = match validate_group_delivery_from_manifests(manifests, local_device_id, origin_device_id, group_ids, "html") {
        Ok(names) => {
            proof {
                assert(names.deep_view().contains(names.deep_view()[0]));
                assert(delivery_group_name(manifests@, local_device_id@, origin_device_id@, ids, "html"@, names.deep_view()[0]));
            }
            names
        },
        Err(e) => return Err(e),
    };
    let ghost html_names = names.deep_view();
    let fallback = text_content_type(text);
    match validate_group_delivery_from_manifests(manifests, local_device_id, origin_device_id, group_ids, fallback) {
        Ok(text_names) => {
            extend_texts(&mut names, text_names.as_slice());
            sort_dedup_texts(&mut names);
            proof {
                assert forall|n: Seq<char>| names.deep_view().contains(n) <==> (delivery_group_name(manifests@, local_device_id@,
                    origin_device_id@, ids, "html"@, n) || delivery_group_name(manifests@, local_device_id@, origin_device_id@, ids,
                    text_type(text@), n)) by {
                    lemma_concat_contains(html_names, text_names.deep_view(), n);
                }
            }
        },
        Err(_) => {
            proof {
                assert forall|n: Seq<char>| names.deep_view().contains(n) <==> (delivery_group_name(manifests@, local_device_id@,
                    origin_device_id@, ids, "html"@, n) || delivery_group_name(manifests@, local_device_id@, origin_device_id@, ids,
                    text_type(text@), n)) by {}
            }
        },
    }
    proof {
        lemma_sorted_texts_is(names.deep_view(), |n: Seq<char>| delivery_group_name(manifests@, local_device_id@, origin_device_id@,
            ids, "html"@, n) || delivery_group_name(manifests@, local_device_id@, origin_device_id@, ids, text_type(text@), n));
    }
    if subscribe_paused || !permissions.allow_html {
        return Err(String::from_str("本机策略已停用富文本同步"));
    }
    if is_stale(slots, origin_device_id, sequence) {
        return Ok(None);
    }
    Ok(Some(names))
}

/// Checks an image from another device: a size whose byte count fits, not
/// empty, exactly four bytes per pixel, at most 64 MiB, an authorized device,
/// delivered as an image through some group, and allowed by the settings.
/// Returns the group names; `None` where the device's slot already shows
/// newer content.
pub fn check_remote_image(
    rgba_len: usize,
    width: u32,
    height: u32,
    authorized_sync: bool,
    manifests: &[SignedGroupManifest],
    local_device_id: &str,
    origin_device_id: &str,
    group_ids: &[String],
    permissions: &ContentPermissions,
    subscribe_paused: bool,
    slots: &[DeviceSlot],
    sequence: u64,
) -> (result: Result<Option<Vec<String>>, String>)
    ensures
        ({
            let ids = group_ids.deep_view();
            let ok = width * height * 4 <= usize::MAX && width > 0 && height > 0 && rgba_len == width * height * 4
                && rgba_len <= MAX_REMOTE_IMAGE_BYTES && authorized_sync
                && delivered(manifests@, local_device_id@, origin_device_id@, ids, "image"@)
                && !subscribe_paused && permissions.allow_images;
            match result {
                Ok(Some(names)) => ok && !stale(slots@, origin_device_id@, sequence)
                    && names.deep_view() == delivered_names(manifests@, local_device_id@, origin_device_id@, ids, "image"@),
                Ok(None) => ok && stale(slots@, origin_device_id@, sequence),
                Err(_) => !ok,
            }
        }),
{
    let expected = match (width as usize).checked_mul(height as usize) {
        Some(pixels) => match pixels.checked_mul(4) {
            Some(e) => e,
            None => {
                proof {
                    assert(width * height * 4 > usize::MAX) by (nonlinear_arith)
                        requires
                            pixels == width * height,
                            pixels * 4 > usize::MAX,
                    ;
                }
                return Err(String::from_str("远端图片尺寸溢出"));
            },
        },
        None => {
            proof {
                assert(width * height * 4 > usize::MAX) by (nonlinear_arith)
                    requires
                        width * height > usize::MAX,
                ;
            }
            return Err(String::from_str("远端图片尺寸溢出"));
        },
    };
    if width == 0 || height == 0 || rgba_len != expected || rgba_len > MAX_REMOTE_IMAGE_BYTES {
        return Err(String::from_str("远端图片格式或大小无效"));
    }
    if !authorized_sync {
        return Err(String::from_str("该设备的剪贴板同步已停用"));
    }
    let names = match validate_group_delivery_from_manifests(manifests, local_device_id, origin_device_id, group_ids, "image") {
        Ok(names) => {
            proof {
                assert(names.deep_view().contains(names.deep_view()[0]));
                assert(delivery_group_name(manifests@, local_device_id@, origin_device_id@, group_ids.deep_view(), "image"@,
                    names.deep_view()[0]));
            }
            names
        },
        Err(e) => return Err(e),
    };
    if subscribe_paused || !permissions.allow_images {
        return Err(String::from_str("本机策略已停用图片同步"));
    }
    if is_stale(slots, origin_device_id, sequence) {
        return Ok(None);
    }
    Ok(Some(names))
}

/// Shows a device's new slot: unless the device's first slot already shows
/// content at least as new, all its slots are replaced by the new one, placed
/// last. Returns whether the slot was placed.
pub fn place_slot(slots: &mut Vec<DeviceSlot>, slot: DeviceSlot) -> (placed: bool)
    ensures
        placed == !stale(old(slots)@, slot.device_id@, slot.sequence),
        placed ==> final(slots)@ == old(slots)@.filter(|s: DeviceSlot| s.device_id@ != slot.device_id@).push(slot),
        !placed ==> final(slots)@ == old(slots)@,
{
    if is_stale(slots.as_slice(), slot.device_id.as_str(), slot.sequence) {
        return false;
    }
    let ghost original = slots@;
    let ghost pred = |s: DeviceSlot| s.device_id@ != slot.device_id@;
    let mut kept: Vec<DeviceSlot> = Vec::new();
    let mut rest: Vec<DeviceSlot> = Vec::new();
    std::mem::swap(&mut rest, slots);
    let ghost mut i: int = 0;
    while rest.len() > 0
        invariant
            0 <= i <= original.len(),
            i + rest@.len() == original.len(),
            rest@ == original.skip(i),
            kept@ == original.take(i).filter(pred),
            pred == (|s: DeviceSlot| s.device_id@ != slot.device_id@),
        decreases rest@.len(),
    {
        let item = rest.remove(0);
        proof {
            reveal_with_fuel(Seq::filter, 1);
            assert(original.take(i + 1).drop_last() =~= original.take(i));
            assert(original.take(i + 1).last() == item);
            assert(rest@ =~= original.skip(i + 1));
        }
        if !str_equal(item.device_id.as_str(), slot.device_id.as_str()) {
            kept.push(item);
        }
        proof {
            i = i + 1;
        }
    }
    proof {
        assert(original.take(original.len() as int) =~= original);
    }
    kept.push(slot);
    *slots = kept;
    true
}

} // verus!
