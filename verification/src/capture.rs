//! Content captured from the local clipboard: what the interface then shows
//! as this device's clipboard, whether and how it is published to other
//! devices, and the one-shot suppression that keeps content just imported
//! from another device from being published back.

use vstd::prelude::*;
use vstd::string::*;
use vstd::utf8::encode_utf8;
use crate::content::{
    copied_file_names, copied_name, file_list_hash, file_list_hash_input, image_hash, image_hash_input,
    image_preview_data_url, image_preview_url, rich_hash, rich_hash_input, text_content_type, text_type,
};
use crate::crypto::sha256_digest;
use crate::delivery::ContentPermissions;
use crate::files::{decimal, push_decimal};
use crate::imports::RemoteClipboardBody;
use crate::monitor::{hash_view, same_hash};
use crate::text::{str_equal, trim, trimmed, truncate_text, truncated};
use crate::views::{byte_len, image_label, item_count_label, item_count_text, ClipboardCapability, CurrentClipboard};

verus! {

/// The largest text or rich text published from this device.
pub const MAX_CAPTURED_TEXT_BYTES: usize = 1024 * 1024;

/// The largest image published from this device.
pub const MAX_CAPTURED_IMAGE_BYTES: usize = 64 * 1024 * 1024;

/// The part of the service's state that captures read and change.
pub struct CaptureState {
    pub current_clipboard: CurrentClipboard,
    pub last_published_preview: String,
    pub last_synchronized_at: String,
    pub capability: ClipboardCapability,
    /// Text just written into the local clipboard by an import.
    pub suppress_text: Option<String>,
    /// Hashes of rich text, files and an image just written by an import.
    pub suppress_rich: Option<[u8; 32]>,
    pub suppress_files: Option<[u8; 32]>,
    pub suppress_image: Option<[u8; 32]>,
}

/// What to do after a capture.
pub enum CaptureOutcome {
    /// Nothing to capture.
    Ignored,
    /// The capture failed and was reported in the state.
    Reported,
    /// Shown (unless suppressed) but not published.
    Recorded,
    /// Publish the text as content of this type.
    PublishText(&'static str),
    /// Publish the rich text as HTML, and as its text fallback of this type
    /// where that type is allowed.
    PublishRich { text_fallback: Option<&'static str> },
    /// Stage and publish the files, then call `record_files_published`.
    PublishFiles,
    /// Publish the image.
    PublishImage,
}

/// The clipboard shows local content.
pub open spec fn shows_local(c: CurrentClipboard, preview: Seq<char>, types: Seq<Seq<char>>, now: String) -> bool {
    &&& c.source@ == "local"@
    &&& c.source_label@ == "来自本机系统剪贴板"@
    &&& c.preview@ == preview
    &&& c.types.deep_view() == types
    &&& c.changed_at == now
}

/// A capture failure is reported: reading is marked unavailable with the
/// message, nothing else changes.
pub open spec fn failure_reported(old: CaptureState, new: CaptureState, message: Seq<char>) -> bool {
    &&& new.capability.limitation matches Some(m) && m@ == message
    &&& new == (CaptureState {
        capability: ClipboardCapability {
            can_read_text: false,
            foreground_capture: false,
            limitation: new.capability.limitation,
            ..old.capability
        },
        ..old
    })
}

/// Content of type `t` (`url` or text) is allowed.
pub open spec fn text_allowed(p: ContentPermissions, t: Seq<char>) -> bool {
    if t == "url"@ { p.allow_urls } else { p.allow_text }
}

/// The import just wrote this text.
pub open spec fn text_suppressed(s: CaptureState, text: Seq<char>) -> bool {
    s.suppress_text matches Some(t) && t@ == text
}

/// The capture of a text: blank text is ignored; text over 1 MiB is
/// reported; otherwise, unless an import just wrote it (which is then
/// forgotten), the clipboard shows it, and where publishing is on and its
/// type allowed it is published. Reading counts as working again.
pub open spec fn captured_text(
    old: CaptureState,
    new: CaptureState,
    p: ContentPermissions,
    paused: bool,
    text: Seq<char>,
    now: String,
    outcome: CaptureOutcome,
) -> bool {
    let t = text_type(text);
    let suppressed = text_suppressed(old, text);
    let publish = !paused && text_allowed(p, t) && !suppressed;
    if trimmed(text).len() == 0 {
        outcome is Ignored && new == old
    } else if byte_len(text) > MAX_CAPTURED_TEXT_BYTES {
        outcome is Reported && failure_reported(old, new, "文本剪贴板超过 1 MiB，已跳过同步"@)
    } else {
        &&& if suppressed {
            new.current_clipboard == old.current_clipboard
        } else {
            &&& shows_local(new.current_clipboard, truncated(text, 4096), seq![if t == "url"@ { "URL"@ } else { "纯文本"@ }], now)
            &&& new.current_clipboard.image_preview is None
            &&& new.current_clipboard.file_names is None
        }
        &&& new.suppress_text == (if suppressed { None } else { old.suppress_text })
        &&& new.suppress_rich == old.suppress_rich
        &&& new.suppress_files == old.suppress_files
        &&& new.suppress_image == old.suppress_image
        &&& publish ==> new.last_published_preview@ == "本机最近捕获："@ + truncated(text, 80)
        &&& !publish ==> new.last_published_preview == old.last_published_preview
        &&& new.last_synchronized_at == now
        &&& new.capability == (ClipboardCapability { can_read_text: true, foreground_capture: true, limitation: None, ..old.capability })
        &&& publish ==> (outcome matches CaptureOutcome::PublishText(k) && k@ == t)
        &&& !publish ==> outcome is Recorded
    }
}

fn local_clipboard(preview: String, types: Vec<String>, image_preview: Option<String>, file_names: Option<Vec<String>>, now: &String) -> (c: CurrentClipboard)
    ensures
        c.source@ == "local"@,
        c.source_label@ == "来自本机系统剪贴板"@,
        c.preview == preview,
        c.types == types,
        c.image_preview == image_preview,
        c.file_names == file_names,
        c.changed_at == *now,
{
    CurrentClipboard {
        source: String::from_str("local"),
        source_label: String::from_str("来自本机系统剪贴板"),
        preview,
        image_preview,
        file_names,
        types,
        changed_at: now.clone(),
    }
}

fn published_preview(text: &str) -> (preview: String)
    ensures
        preview@ == "本机最近捕获："@ + truncated(text@, 80),
{
    let mut preview = String::from_str("本机最近捕获：");
    let cut = truncate_text(text, 80);
    preview.append(cut.as_str());
    preview
}

/// Marks reading the clipboard as failing, with the message.
pub fn report_clipboard_failure(state: &mut CaptureState, message: String)
    ensures
        *final(state) == (CaptureState {
            capability: ClipboardCapability {
                can_read_text: false,
                foreground_capture: false,
                limitation: Some(message),
                ..old(state).capability
            },
            ..*old(state)
        }),
{
    state.capability.can_read_text = false;
    state.capability.foreground_capture = false;
    state.capability.limitation = Some(message);
}

/// Marks reading the clipboard as working again.
pub fn report_clipboard_recovered(state: &mut CaptureState)
    ensures
        *final(state) == (CaptureState {
            capability: ClipboardCapability {
                can_read_text: true,
                foreground_capture: true,
                limitation: None,
                ..old(state).capability
            },
            ..*old(state)
        }),
{
    state.capability.can_read_text = true;
    state.capability.foreground_capture = true;
    state.capability.limitation = None;
}

/// Notes a limitation of the clipboard access (reading still works).
pub fn report_clipboard_limitation(state: &mut CaptureState, message: String)
    ensures
        *final(state) == (CaptureState {
            capability: ClipboardCapability { limitation: Some(message), ..old(state).capability },
            ..*old(state)
        }),
{
    state.capability.limitation = Some(message);
}

fn capture_text(
    state: &mut CaptureState,
    permissions: &ContentPermissions,
    publish_paused: bool,
    text: String,
    now: String,
) -> (outcome: CaptureOutcome)
    ensures
        captured_text(*old(state), *final(state), *permissions, publish_paused, text@, now, outcome),
{
    if trim(text.as_str()).as_str().is_empty() {
        return CaptureOutcome::Ignored;
    }
    if text.as_str().as_bytes().len() > MAX_CAPTURED_TEXT_BYTES {
        report_clipboard_failure(state, String::from_str("文本剪贴板超过 1 MiB，已跳过同步"));
        return CaptureOutcome::Reported;
    }
    let content_type = text_content_type(text.as_str());
    let suppressed = match &state.suppress_text {
        Some(s) => str_equal(s.as_str(), text.as_str()),
        None => false,
    };
    if suppressed {
        state.suppress_text = None;
    } else {
        let label = if str_equal(content_type, "url") { String::from_str("URL") } else { String::from_str("纯文本") };
        let types = vec![label];
        proof {
            assert(types.deep_view() =~= seq![label@]);
        }
        state.current_clipboard = local_clipboard(truncate_text(text.as_str(), 4096), types, None, None, &now);
    }
    let allowed = if str_equal(content_type, "url") { permissions.allow_urls } else { permissions.allow_text };
    let publish = !publish_paused && allowed && !suppressed;
    if publish {
        state.last_published_preview = published_preview(text.as_str());
    }
    state.last_synchronized_at = now;
    state.capability.can_read_text = true;
    state.capability.foreground_capture = true;
    state.capability.limitation = None;
    if publish {
        CaptureOutcome::PublishText(content_type)
    } else {
        CaptureOutcome::Recorded
    }
}

/// Captures text read from the local clipboard.
pub fn capture_local_clipboard(
    state: &mut CaptureState,
    permissions: &ContentPermissions,
    publish_paused: bool,
    text: String,
    now: String,
) -> (outcome: CaptureOutcome)
    ensures
        captured_text(*old(state), *final(state), *permissions, publish_paused, text@, now, outcome),
{
    capture_text(state, permissions, publish_paused, text, now)
}

/// The UTF-8 size of rich text: its text, HTML and RTF.
pub open spec fn rich_size(text: Seq<char>, html: Option<Seq<char>>, rtf: Option<Seq<char>>) -> int {
    encode_utf8(text).len() + match html {
        Some(h) => encode_utf8(h).len() as int,
        None => 0,
    } + match rtf {
        Some(r) => encode_utf8(r).len() as int,
        None => 0,
    }
}

pub open spec fn opt_text(o: Option<String>) -> Option<Seq<char>> {
    match o {
        Some(s) => Some(s@),
        None => None,
    }
}

/// The capture of rich text: without HTML and RTF it is a text capture;
/// over 1 MiB in all it is reported; otherwise, unless an import just wrote
/// it, the clipboard shows it, and where publishing is on and HTML or its
/// text fallback is allowed it is published: as HTML (with the fallback
/// where allowed) or, without HTML, as text.
pub open spec fn captured_rich(
    old: CaptureState,
    new: CaptureState,
    p: ContentPermissions,
    paused: bool,
    text: Seq<char>,
    html: Option<Seq<char>>,
    rtf: Option<Seq<char>>,
    now: String,
    outcome: CaptureOutcome,
) -> bool {
    let hash = sha256_digest(rich_hash_input(text, html, rtf));
    let suppressed = hash_view(old.suppress_rich) == Some(hash);
    let fallback = text_type(text);
    let fallback_allowed = text_allowed(p, fallback);
    let publish = !paused && (p.allow_html || fallback_allowed) && !suppressed;
    if html is None && rtf is None {
        captured_text(old, new, p, paused, text, now, outcome)
    } else if rich_size(text, html, rtf) > MAX_CAPTURED_TEXT_BYTES {
        outcome is Reported && failure_reported(old, new, "富文本剪贴板超过 1 MiB，已跳过同步"@)
    } else {
        &&& if suppressed {
            new.current_clipboard == old.current_clipboard
        } else {
            &&& shows_local(new.current_clipboard, truncated(text, 4096), seq!["富文本 / HTML"@, "纯文本降级"@], now)
            &&& new.current_clipboard.image_preview is None
            &&& new.current_clipboard.file_names is None
        }
        &&& new.suppress_rich == (if suppressed { None } else { old.suppress_rich })
        &&& new.suppress_text == old.suppress_text
        &&& new.suppress_files == old.suppress_files
        &&& new.suppress_image == old.suppress_image
        &&& publish ==> new.last_published_preview@ == "本机最近捕获："@ + truncated(text, 80)
        &&& !publish ==> new.last_published_preview == old.last_published_preview
        &&& new.last_synchronized_at == now
        &&& new.capability == old.capability
        &&& (publish && p.allow_html) ==> (outcome matches CaptureOutcome::PublishRich { text_fallback }
            && (fallback_allowed ==> (text_fallback matches Some(k) && k@ == fallback))
            && (!fallback_allowed ==> text_fallback is None))
        &&& (publish && !p.allow_html) ==> (outcome matches CaptureOutcome::PublishText(k) && k@ == fallback)
        &&& !publish ==> outcome is Recorded
    }
}

/// Captures rich text read from the local clipboard.
pub fn capture_local_rich(
    state: &mut CaptureState,
    permissions: &ContentPermissions,
    publish_paused: bool,
    text: String,
    html: Option<String>,
    rtf: Option<String>,
    now: String,
) -> (outcome: CaptureOutcome)
    ensures
        captured_rich(*old(state), *final(state), *permissions, publish_paused, text@, opt_text(html), opt_text(rtf), now, outcome),
{
    if html.is_none() && rtf.is_none() {
        return capture_text(state, permissions, publish_paused, text, now);
    }
    let text_len = text.as_str().as_bytes().len();
    let html_len: usize = match &html {
        Some(h) => h.as_str().as_bytes().len(),
        None => 0,
    };
    let rtf_len: usize = match &rtf {
        Some(r) => r.as_str().as_bytes().len(),
        None => 0,
    };
    let total = text_len.saturating_add(html_len).saturating_add(rtf_len);
    if total > MAX_CAPTURED_TEXT_BYTES {
        report_clipboard_failure(state, String::from_str("富文本剪贴板超过 1 MiB，已跳过同步"));
        return CaptureOutcome::Reported;
    }
    let fallback = text_content_type(text.as_str());
    let html_text = match &html {
        Some(h) => Some(h.as_str()),
        None => None,
    };
    let rtf_text = match &rtf {
        Some(r) => Some(r.as_str()),
        None => None,
    };
    let hash = rich_hash(text.as_str(), html_text, rtf_text);
    let suppressed = same_hash(&state.suppress_rich, &hash);
    if suppressed {
        state.suppress_rich = None;
    } else {
        let types = vec![String::from_str("富文本 / HTML"), String::from_str("纯文本降级")];
        proof {
            assert(types.deep_view() =~= seq!["富文本 / HTML"@, "纯文本降级"@]);
        }
        state.current_clipboard = local_clipboard(truncate_text(text.as_str(), 4096), types, None, None, &now);
    }
    let fallback_allowed = if str_equal(fallback, "url") { permissions.allow_urls } else { permissions.allow_text };
    let publish = !publish_paused && (permissions.allow_html || fallback_allowed) && !suppressed;
    if publish {
        state.last_published_preview = published_preview(text.as_str());
    }
    state.last_synchronized_at = now;
    if !publish {
        CaptureOutcome::Recorded
    } else if permissions.allow_html {
        CaptureOutcome::PublishRich { text_fallback: if fallback_allowed { Some(fallback) } else { None } }
    } else {
        CaptureOutcome::PublishText(fallback)
    }
}

/// The capture of copied files: none is ignored; otherwise, unless an
/// import just wrote them, the clipboard shows their count and names, and
/// where publishing is on and files are allowed they are published.
pub open spec fn captured_files(
    old: CaptureState,
    new: CaptureState,
    p: ContentPermissions,
    paused: bool,
    files: Seq<Seq<char>>,
    now: String,
    outcome: CaptureOutcome,
) -> bool {
    let hash = sha256_digest(file_list_hash_input(files));
    let suppressed = hash_view(old.suppress_files) == Some(hash);
    if files.len() == 0 {
        outcome is Ignored && new == old
    } else {
        &&& if suppressed {
            new.current_clipboard == old.current_clipboard
        } else {
            &&& shows_local(new.current_clipboard, item_count_label(files.len()), seq!["文件与目录"@], now)
            &&& new.current_clipboard.image_preview is None
            &&& new.current_clipboard.file_names matches Some(names) && names@.len() == files.len()
                && forall|i: int| 0 <= i < files.len() ==> #[trigger] names@[i]@ == copied_name(files[i])
        }
        &&& new.suppress_files == (if suppressed { None } else { old.suppress_files })
        &&& new.suppress_text == old.suppress_text
        &&& new.suppress_rich == old.suppress_rich
        &&& new.suppress_image == old.suppress_image
        &&& new.last_published_preview == old.last_published_preview
        &&& new.last_synchronized_at == now
        &&& new.capability == old.capability
        &&& (!paused && p.allow_files && !suppressed) ==> outcome is PublishFiles
        &&& !(!paused && p.allow_files && !suppressed) ==> outcome is Recorded
    }
}

/// Captures files copied in the local clipboard.
pub fn capture_local_files(
    state: &mut CaptureState,
    permissions: &ContentPermissions,
    publish_paused: bool,
    files: Vec<String>,
    now: String,
) -> (outcome: CaptureOutcome)
    ensures
        captured_files(*old(state), *final(state), *permissions, publish_paused, files.deep_view(), now, outcome),
{
    if files.len() == 0 {
        return CaptureOutcome::Ignored;
    }
    let hash = file_list_hash(files.as_slice());
    let suppressed = same_hash(&state.suppress_files, &hash);
    if suppressed {
        state.suppress_files = None;
    } else {
        let names = copied_file_names(files.as_slice());
        let types = vec![String::from_str("文件与目录")];
        proof {
            assert(types.deep_view() =~= seq!["文件与目录"@]);
            assert forall|i: int| 0 <= i < files@.len() implies #[trigger] names@[i]@ == copied_name(files.deep_view()[i]) by {
                assert(names@[i]@ == copied_name(files@[i]@));
            }
        }
        state.current_clipboard = local_clipboard(item_count_text(files.len()), types, None, Some(names), &now);
    }
    state.last_synchronized_at = now;
    if !publish_paused && permissions.allow_files && !suppressed {
        CaptureOutcome::PublishFiles
    } else {
        CaptureOutcome::Recorded
    }
}

/// Notes that `count` captured files were staged for publishing.
pub fn record_files_published(state: &mut CaptureState, count: usize)
    ensures
        final(state).last_published_preview@ == "本机最近捕获："@ + item_count_label(count as nat),
        *final(state) == (CaptureState { last_published_preview: final(state).last_published_preview, ..*old(state) }),
{
    let mut preview = String::from_str("本机最近捕获：");
    let label = item_count_text(count);
    preview.append(label.as_str());
    state.last_published_preview = preview;
}

/// The preview of a published image.
pub open spec fn image_published_label(width: u32, height: u32) -> Seq<char> {
    "本机最近捕获：图片 "@ + decimal(width as nat) + " × "@ + decimal(height as nat)
}

/// Why a captured image is refused, if it is: a size whose byte count
/// overflows, a buffer that is empty or not four bytes per pixel, or more
/// than 64 MiB.
pub open spec fn image_refusal(len: nat, width: u32, height: u32) -> Option<Seq<char>> {
    if width * height * 4 > usize::MAX {
        Some("图片尺寸溢出"@)
    } else if width == 0 || height == 0 || len != width * height * 4 {
        Some("系统剪贴板图片格式无效"@)
    } else if len > MAX_CAPTURED_IMAGE_BYTES {
        Some("剪贴板图片超过 64 MiB，已跳过同步"@)
    } else {
        None
    }
}

/// The capture of an accepted image: unless an import just wrote it, the
/// clipboard shows it with a thumbnail, and where publishing is on and
/// images are allowed it is published.
pub open spec fn captured_image(
    old: CaptureState,
    new: CaptureState,
    p: ContentPermissions,
    paused: bool,
    rgba: Seq<u8>,
    width: u32,
    height: u32,
    now: String,
    outcome: CaptureOutcome,
) -> bool {
    let suppressed = hash_view(old.suppress_image) == Some(sha256_digest(image_hash_input(rgba, width, height)));
    let publish = !paused && p.allow_images && !suppressed;
    &&& if suppressed {
        new.current_clipboard == old.current_clipboard
    } else {
        &&& shows_local(new.current_clipboard, image_label(width, height), seq!["图片"@], now)
        &&& opt_text(new.current_clipboard.image_preview) == image_preview_url(rgba, width, height)
        &&& new.current_clipboard.file_names is None
    }
    &&& new.suppress_image == (if suppressed { None } else { old.suppress_image })
    &&& new.suppress_text == old.suppress_text
    &&& new.suppress_rich == old.suppress_rich
    &&& new.suppress_files == old.suppress_files
    &&& publish ==> new.last_published_preview@ == image_published_label(width, height)
    &&& !publish ==> new.last_published_preview == old.last_published_preview
    &&& new.last_synchronized_at == now
    &&& new.capability == old.capability
    &&& publish ==> outcome is PublishImage
    &&& !publish ==> outcome is Recorded
}

/// Captures an image read from the local clipboard; a refused image changes
/// nothing.
pub fn capture_local_image(
    state: &mut CaptureState,
    permissions: &ContentPermissions,
    publish_paused: bool,
    rgba: Vec<u8>,
    width: u32,
    height: u32,
    now: String,
) -> (result: Result<CaptureOutcome, String>)
    ensures
        match image_refusal(rgba@.len(), width, height) {
            Some(message) => (result matches Err(e) && e@ == message) && *final(state) == *old(state),
            None => result matches Ok(outcome)
                && captured_image(*old(state), *final(state), *permissions, publish_paused, rgba@, width, height, now, outcome),
        },
{
    let expected = match (width as usize).checked_mul(height as usize) {
        Some(pixels) => match pixels.checked_mul(4) {
            Some(e) => e,
            None => {
                proof {
                    assert(width * height * 4 > usize::MAX) by (nonlinear_arith)
                        requires
                            pixels == width * height,
                            pixels * 4 > usize::MAX,
                    ;
                }
                return Err(String::from_str("图片尺寸溢出"));
            },
        },
        None => {
            proof {
                assert(width * height * 4 > usize::MAX) by (nonlinear_arith)
                    requires
                        width * height > usize::MAX,
                ;
            }
            return Err(String::from_str("图片尺寸溢出"));
        },
    };
    if width == 0 || height == 0 || rgba.len() != expected {
        return Err(String::from_str("系统剪贴板图片格式无效"));
    }
    if rgba.len() > MAX_CAPTURED_IMAGE_BYTES {
        return Err(String::from_str("剪贴板图片超过 64 MiB，已跳过同步"));
    }
    let hash = image_hash(rgba.as_slice(), width, height);
    let suppressed = same_hash(&state.suppress_image, &hash);
    if suppressed {
        state.suppress_image = None;
    } else {
        let mut preview = String::from_str("图片 · ");
        push_decimal(&mut preview, width as u64);
        preview.append(" × ");
        push_decimal(&mut preview, height as u64);
        proof {
            assert(preview@ =~= image_label(width, height));
        }
        let types = vec![String::from_str("图片")];
        proof {
            assert(types.deep_view() =~= seq!["图片"@]);
        }
        let thumbnail = image_preview_data_url(rgba.as_slice(), width, height);
        state.current_clipboard = local_clipboard(preview, types, thumbnail, None, &now);
    }
    let publish = !publish_paused && permissions.allow_images && !suppressed;
    if publish {
        let mut label = String::from_str("本机最近捕获：图片 ");
        push_decimal(&mut label, width as u64);
        label.append(" × ");
        push_decimal(&mut label, height as u64);
        proof {
            assert(label@ =~= image_published_label(width, height));
        }
        state.last_published_preview = label;
    }
    state.last_synchronized_at = now;
    Ok(if publish { CaptureOutcome::PublishImage } else { CaptureOutcome::Recorded })
}

/// Before an import writes a body into the local clipboard: remembers it so
/// that its capture is not published back (rich text also as its text).
pub fn suppress_import(state: &mut CaptureState, body: &RemoteClipboardBody)
    ensures
        final(state).current_clipboard == old(state).current_clipboard,
        final(state).last_published_preview == old(state).last_published_preview,
        final(state).last_synchronized_at == old(state).last_synchronized_at,
        final(state).capability == old(state).capability,
        match body {
            RemoteClipboardBody::Text(text) => opt_text(final(state).suppress_text) == Some(text@)
                && final(state).suppress_rich == old(state).suppress_rich
                && final(state).suppress_files == old(state).suppress_files
                && final(state).suppress_image == old(state).suppress_image,
            RemoteClipboardBody::Rich { text, html, rtf } => opt_text(final(state).suppress_text) == Some(text@)
                && hash_view(final(state).suppress_rich) == Some(sha256_digest(rich_hash_input(text@, opt_text(*html), opt_text(*rtf))))
                && final(state).suppress_files == old(state).suppress_files
                && final(state).suppress_image == old(state).suppress_image,
            RemoteClipboardBody::Files(bundle) => hash_view(final(state).suppress_files)
                == Some(sha256_digest(file_list_hash_input(bundle.clipboard_path_list())))
                && final(state).suppress_text == old(state).suppress_text
                && final(state).suppress_rich == old(state).suppress_rich
                && final(state).suppress_image == old(state).suppress_image,
            RemoteClipboardBody::Image { rgba, width, height } => hash_view(final(state).suppress_image)
                == Some(sha256_digest(image_hash_input(rgba@, *width, *height)))
                && final(state).suppress_text == old(state).suppress_text
                && final(state).suppress_rich == old(state).suppress_rich
                && final(state).suppress_files == old(state).suppress_files,
        },
{
    match body {
        RemoteClipboardBody::Text(text) => {
            state.suppress_text = Some(text.clone());
        },
        RemoteClipboardBody::Rich { text, html, rtf } => {
            let html_text = match html {
                Some(h) => Some(h.as_str()),
                None => None,
            };
            let rtf_text = match rtf {
                Some(r) => Some(r.as_str()),
                None => None,
            };
            state.suppress_rich = Some(rich_hash(text.as_str(), html_text, rtf_text));
            state.suppress_text = Some(text.clone());
        },
        RemoteClipboardBody::Files(bundle) => {
            let paths = bundle.clipboard_paths();
            state.suppress_files = Some(file_list_hash(paths.as_slice()));
        },
        RemoteClipboardBody::Image { rgba, width, height } => {
            state.suppress_image = Some(image_hash(rgba.as_slice(), *width, *height));
        },
    }
}

/// After an import failed to write a body: forgets what `suppress_import`
/// remembered for it.
pub fn clear_import_suppression(state: &mut CaptureState, body: &RemoteClipboardBody)
    ensures
        final(state).current_clipboard == old(state).current_clipboard,
        final(state).last_published_preview == old(state).last_published_preview,
        final(state).last_synchronized_at == old(state).last_synchronized_at,
        final(state).capability == old(state).capability,
        final(state).suppress_text == (match body {
            RemoteClipboardBody::Text(_) => None,
            RemoteClipboardBody::Rich { .. } => None,
            _ => old(state).suppress_text,
        }),
        final(state).suppress_rich == (if body is Rich { None } else { old(state).suppress_rich }),
        final(state).suppress_files == (if body is Files { None } else { old(state).suppress_files }),
        final(state).suppress_image == (if body is Image { None } else { old(state).suppress_image }),
{
    match body {
        RemoteClipboardBody::Text(_) => {
            state.suppress_text = None;
        },
        RemoteClipboardBody::Rich { .. } => {
            state.suppress_rich = None;
            state.suppress_text = None;
        },
        RemoteClipboardBody::Files(_) => {
            state.suppress_files = None;
        },
        RemoteClipboardBody::Image { .. } => {
            state.suppress_image = None;
        },
    }
}

/// The state before anything was captured: reading works, nothing shown
/// yet, nothing suppressed.
pub fn initial_capture_state() -> (state: CaptureState)
    ensures
        state.current_clipboard.source@ == "unknown"@,
        state.current_clipboard.source_label@ == "正在监听本机剪贴板"@,
        state.current_clipboard.preview@ == "复制文本、图片、富文本或文件后会自动显示在这里。"@,
        state.current_clipboard.image_preview is None,
        state.current_clipboard.file_names is None,
        state.current_clipboard.types@.len() == 0,
        state.current_clipboard.changed_at@ == "1970-01-01T00:00:00.000Z"@,
        state.last_published_preview@ == "等待本机剪贴板变化"@,
        state.last_synchronized_at@ == "1970-01-01T00:00:00.000Z"@,
        state.capability == (ClipboardCapability { can_read_text: true, can_write_text: true, foreground_capture: true, limitation: None }),
        state.suppress_text is None && state.suppress_rich is None,
        state.suppress_files is None && state.suppress_image is None,
{
    CaptureState {
        current_clipboard: CurrentClipboard {
            source: String::from_str("unknown"),
            source_label: String::from_str("正在监听本机剪贴板"),
            preview: String::from_str("复制文本、图片、富文本或文件后会自动显示在这里。"),
            image_preview: None,
            file_names: None,
            types: Vec::new(),
            changed_at: String::from_str("1970-01-01T00:00:00.000Z"),
        },
        last_published_preview: String::from_str("等待本机剪贴板变化"),
        last_synchronized_at: String::from_str("1970-01-01T00:00:00.000Z"),
        capability: ClipboardCapability { can_read_text: true, can_write_text: true, foreground_capture: true, limitation: None },
        suppress_text: None,
        suppress_rich: None,
        suppress_files: None,
        suppress_image: None,
    }
}

/// Text an import just wrote into the local clipboard is not published back:
/// its capture only records, leaves what the clipboard shows, and uses up
/// the suppression, so the next capture of it publishes again.
pub proof fn lemma_imported_text_not_published_back(
    old: CaptureState,
    new: CaptureState,
    p: ContentPermissions,
    paused: bool,
    text: Seq<char>,
    now: String,
    outcome: CaptureOutcome,
)
    requires
        opt_text(old.suppress_text) == Some(text),
        trimmed(text).len() > 0,
        byte_len(text) <= MAX_CAPTURED_TEXT_BYTES,
        captured_text(old, new, p, paused, text, now, outcome),
    ensures
        outcome is Recorded,
        new.current_clipboard == old.current_clipboard,
        new.suppress_text is None,
        new.last_published_preview == old.last_published_preview,
{
}

/// Rich text, files or an image that an import just wrote are not published
/// back either: their capture only records and uses up the suppression.
pub proof fn lemma_imported_content_not_published_back(
    old: CaptureState,
    new_rich: CaptureState,
    new_files: CaptureState,
    new_image: CaptureState,
    p: ContentPermissions,
    paused: bool,
    text: Seq<char>,
    html: Option<Seq<char>>,
    rtf: Option<Seq<char>>,
    files: Seq<Seq<char>>,
    rgba: Seq<u8>,
    width: u32,
    height: u32,
    now: String,
    rich_outcome: CaptureOutcome,
    files_outcome: CaptureOutcome,
    image_outcome: CaptureOutcome,
)
    requires
        hash_view(old.suppress_rich) == Some(sha256_digest(rich_hash_input(text, html, rtf))),
        hash_view(old.suppress_files) == Some(sha256_digest(file_list_hash_input(files))),
        hash_view(old.suppress_image) == Some(sha256_digest(image_hash_input(rgba, width, height))),
        html is Some || rtf is Some,
        rich_size(text, html, rtf) <= MAX_CAPTURED_TEXT_BYTES,
        files.len() > 0,
        captured_rich(old, new_rich, p, paused, text, html, rtf, now, rich_outcome),
        captured_files(old, new_files, p, paused, files, now, files_outcome),
        captured_image(old, new_image, p, paused, rgba, width, height, now, image_outcome),
    ensures
        rich_outcome is Recorded && new_rich.suppress_rich is None && new_rich.current_clipboard == old.current_clipboard,
        files_outcome is Recorded && new_files.suppress_files is None && new_files.current_clipboard == old.current_clipboard,
        image_outcome is Recorded && new_image.suppress_image is None && new_image.current_clipboard == old.current_clipboard,
{
}

} // verus!
