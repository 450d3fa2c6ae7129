//! The clipboard monitor's decisions: when repeated read failures are
//! reported and recovery announced, and which clipboard changes are
//! captured, judged by content hashes against the previous poll. Reading the
//! clipboard and sleeping between polls stay outside.

use vstd::prelude::*;
use vstd::string::*;
use crate::content::{file_list_hash, file_list_hash_input, image_hash, image_hash_input, rich_hash, rich_hash_input};
use crate::crypto::sha256_digest;
use crate::text::{bytes_equal, str_equal};

verus! {

/// What the monitor remembers between polls.
pub struct MonitorState {
    pub previous_text: Option<String>,
    pub previous_image: Option<[u8; 32]>,
    pub previous_rich: Option<[u8; 32]>,
    pub previous_files: Option<[u8; 32]>,
    pub initialized: bool,
    pub consecutive_failures: u8,
    pub failure_reported: bool,
}

/// Nothing seen yet.
pub fn new_monitor_state() -> (state: MonitorState)
    ensures
        state.previous_text is None,
        state.previous_image is None,
        state.previous_rich is None,
        state.previous_files is None,
        !state.initialized,
        state.consecutive_failures == 0,
        !state.failure_reported,
{
    MonitorState {
        previous_text: None,
        previous_image: None,
        previous_rich: None,
        previous_files: None,
        initialized: false,
        consecutive_failures: 0,
        failure_reported: false,
    }
}

/// A read of the clipboard failed: counts it, and says whether to report
/// the failure now (the third in a row, reported once).
pub fn monitor_read_failed(state: &mut MonitorState) -> (report: bool)
    ensures
        final(state).consecutive_failures == if old(state).consecutive_failures < 255 {
            (old(state).consecutive_failures + 1) as u8
        } else {
            255u8
        },
        report == (final(state).consecutive_failures >= 3 && !old(state).failure_reported),
        final(state).failure_reported == (old(state).failure_reported || report),
        final(state).previous_text == old(state).previous_text,
        final(state).previous_image == old(state).previous_image,
        final(state).previous_rich == old(state).previous_rich,
        final(state).previous_files == old(state).previous_files,
        final(state).initialized == old(state).initialized,
{
    state.consecutive_failures = state.consecutive_failures.saturating_add(1);
    let report = state.consecutive_failures >= 3 && !state.failure_reported;
    if report {
        state.failure_reported = true;
    }
    report
}

/// A read succeeded: the failure count restarts, and a reported failure is
/// announced as recovered.
pub fn monitor_read_succeeded(state: &mut MonitorState) -> (recovered: bool)
    ensures
        recovered == old(state).failure_reported,
        final(state).consecutive_failures == 0,
        !final(state).failure_reported,
        final(state).previous_text == old(state).previous_text,
        final(state).previous_image == old(state).previous_image,
        final(state).previous_rich == old(state).previous_rich,
        final(state).previous_files == old(state).previous_files,
        final(state).initialized == old(state).initialized,
{
    state.consecutive_failures = 0;
    let recovered = state.failure_reported;
    state.failure_reported = false;
    recovered
}

/// What one poll read.
pub struct ClipboardContent {
    pub text: Option<String>,
    pub rich: Option<(String, Option<String>, Option<String>)>,
    pub image: Option<(Vec<u8>, u32, u32)>,
    pub files: Vec<String>,
}

/// A change the monitor captures.
pub enum Capture {
    Files(Vec<String>),
    Rich { text: String, html: Option<String>, rtf: Option<String> },
    Text(String),
    Image { rgba: Vec<u8>, width: u32, height: u32 },
}

/// An image whose pixel buffer is non-empty and holds exactly four bytes per
/// pixel.
pub open spec fn image_well_formed(len: nat, width: u32, height: u32) -> bool {
    len > 0 && width * height * 4 == len
}

/// Whether an RGBA buffer of `len` bytes fits the size.
pub fn image_dimensions_match(len: usize, width: u32, height: u32) -> (ok: bool)
    ensures
        ok == image_well_formed(len as nat, width, height),
{
    match (width as usize).checked_mul(height as usize) {
        Some(pixels) => match pixels.checked_mul(4) {
            Some(expected) => expected == len && len > 0,
            None => {
                proof {
                    assert(width * height * 4 > len) by (nonlinear_arith)
                        requires
                            pixels == width * height,
                            pixels * 4 > usize::MAX,
                            len <= usize::MAX,
                    ;
                }
                false
            },
        },
        None => {
            proof {
                assert(width * height * 4 > len) by (nonlinear_arith)
                    requires
                        width * height > usize::MAX,
                        len <= usize::MAX,
                ;
            }
            false
        },
    }
}

/// An optional text as an optional view.
pub open spec fn opt_view(o: Option<String>) -> Option<Seq<char>> {
    match o {
        Some(s) => Some(s@),
        None => None,
    }
}

/// The hash remembered for the poll's rich content.
pub open spec fn rich_digest(rich: Option<(String, Option<String>, Option<String>)>) -> Option<Seq<u8>> {
    match rich {
        Some((t, h, r)) => Some(sha256_digest(rich_hash_input(t@, opt_view(h), opt_view(r)))),
        None => None,
    }
}

/// The hash remembered for the poll's files (none for an empty list).
pub open spec fn files_digest(files: Seq<String>) -> Option<Seq<u8>> {
    if files.len() == 0 {
        None
    } else {
        Some(sha256_digest(file_list_hash_input(files.map_values(|f: String| f@))))
    }
}

/// The hash remembered for the poll's image, where it is well formed.
pub open spec fn image_digest(image: Option<(Vec<u8>, u32, u32)>) -> Option<Seq<u8>> {
    match image {
        Some((rgba, w, h)) => if image_well_formed(rgba@.len(), w, h) {
            Some(sha256_digest(image_hash_input(rgba@, w, h)))
        } else {
            None
        },
        None => None,
    }
}

/// A remembered hash as a sequence.
pub open spec fn hash_view(o: Option<[u8; 32]>) -> Option<Seq<u8>> {
    match o {
        Some(h) => Some(h@),
        None => None,
    }
}

/// The first capture of a poll: the files where there are any and they
/// changed; else the rich content where there is some and it changed; else
/// the text where it changed.
pub open spec fn main_capture_kind(state: MonitorState, content: ClipboardContent) -> int {
    if content.files@.len() > 0 {
        if hash_view(state.previous_files) != files_digest(content.files@) { 1 } else { 0 }
    } else if content.rich is Some {
        if hash_view(state.previous_rich) != rich_digest(content.rich) { 2 } else { 0 }
    } else if content.text is Some {
        if opt_view(state.previous_text) != opt_view(content.text) { 3 } else { 0 }
    } else {
        0
    }
}

/// Without files, a well-formed image that changed is captured as well.
pub open spec fn image_captured(state: MonitorState, content: ClipboardContent) -> bool {
    content.files@.len() == 0 && image_digest(content.image) is Some && hash_view(state.previous_image) != image_digest(content.image)
}

pub(crate) fn same_hash(previous: &Option<[u8; 32]>, hash: &[u8; 32]) -> (same: bool)
    ensures
        same == (hash_view(*previous) == Some(hash@)),
{
    match previous {
        Some(p) => bytes_equal(p, hash),
        None => false,
    }
}

fn same_text(previous: &Option<String>, text: &String) -> (same: bool)
    ensures
        same == (opt_view(*previous) == Some(text@)),
{
    match previous {
        Some(p) => str_equal(p.as_str(), text.as_str()),
        None => false,
    }
}

fn rich_parts_hash(rich: &(String, Option<String>, Option<String>)) -> (hash: [u8; 32])
    ensures
        Some(hash@) == rich_digest(Some(*rich)),
{
    let html = match &rich.1 {
        Some(h) => Some(h.as_str()),
        None => None,
    };
    let rtf = match &rich.2 {
        Some(r) => Some(r.as_str()),
        None => None,
    };
    rich_hash(rich.0.as_str(), html, rtf)
}

/// Takes one successful poll: the first poll only records what is there;
/// later polls capture what changed (see `main_capture_kind` and
/// `image_captured`), and every poll remembers the new content's hashes.
pub fn monitor_observe(state: &mut MonitorState, content: ClipboardContent) -> (captures: Vec<Capture>)
    ensures
        opt_view(final(state).previous_text) == opt_view(content.text),
        hash_view(final(state).previous_image) == image_digest(content.image),
        hash_view(final(state).previous_rich) == rich_digest(content.rich),
        hash_view(final(state).previous_files) == files_digest(content.files@),
        final(state).initialized,
        final(state).consecutive_failures == old(state).consecutive_failures,
        final(state).failure_reported == old(state).failure_reported,
        !old(state).initialized ==> captures@.len() == 0,
        old(state).initialized ==> {
            let main = main_capture_kind(*old(state), content);
            let image = image_captured(*old(state), content);
            &&& captures@.len() == (if main != 0 { 1int } else { 0 }) + (if image { 1int } else { 0 })
            &&& main == 1 ==> (captures@[0] matches Capture::Files(f) && f@ == content.files@)
            &&& main == 2 ==> (captures@[0] matches Capture::Rich { text, html, rtf } && content.rich matches Some(r)
                && text == r.0 && html == r.1 && rtf == r.2)
            &&& main == 3 ==> (captures@[0] matches Capture::Text(t) && content.text == Some(t))
            &&& image ==> (captures@[captures@.len() - 1] matches Capture::Image { rgba, width, height }
                && content.image matches Some(i) && rgba@ == i.0@ && width == i.1 && height == i.2)
        },
{
    let ClipboardContent { text, rich, image, files } = content;
    let image_hash_value: Option<[u8; 32]> = match &image {
        Some(i) => if image_dimensions_match(i.0.len(), i.1, i.2) {
            Some(image_hash(i.0.as_slice(), i.1, i.2))
        } else {
            None
        },
        None => None,
    };
    let rich_hash_value: Option<[u8; 32]> = match &rich {
        Some(r) => Some(rich_parts_hash(r)),
        None => None,
    };
    let files_hash_value: Option<[u8; 32]> = if files.len() == 0 {
        None
    } else {
        let h = file_list_hash(files.as_slice());
        proof {
            assert(files.deep_view() =~= files@.map_values(|f: String| f@));
        }
        Some(h)
    };
    let mut captures: Vec<Capture> = Vec::new();
    if state.initialized {
        if files.len() > 0 {
            let changed = match &files_hash_value {
                Some(h) => !same_hash(&state.previous_files, h),
                None => true,
            };
            if changed {
                captures.push(Capture::Files(files.clone()));
            }
        } else {
            match &rich {
                Some(r) => {
                    let changed = match &rich_hash_value {
                        Some(h) => !same_hash(&state.previous_rich, h),
                        None => true,
                    };
                    if changed {
                        captures.push(Capture::Rich { text: r.0.clone(), html: r.1.clone(), rtf: r.2.clone() });
                    }
                },
                None => match &text {
                    Some(t) => {
                        if !same_text(&state.previous_text, t) {
                            captures.push(Capture::Text(t.clone()));
                        }
                    },
                    None => {},
                },
            }
        }
        if files.len() == 0 {
            match (&image, &image_hash_value) {
                (Some(i), Some(h)) => {
                    if !same_hash(&state.previous_image, h) {
                        captures.push(Capture::Image { rgba: i.0.clone(), width: i.1, height: i.2 });
                    }
                },
                _ => {},
            }
        }
    }
    state.previous_text = text;
    state.previous_image = image_hash_value;
    state.previous_rich = rich_hash_value;
    state.previous_files = files_hash_value;
    state.initialized = true;
    captures
}

/// A part kept where it is not blank.
pub open spec fn non_blank(part: Option<String>) -> Option<String> {
    match part {
        Some(p) => if crate::text::trimmed(p@).len() > 0 { Some(p) } else { None },
        None => None,
    }
}

fn keep_non_blank(part: Option<String>) -> (kept: Option<String>)
    ensures
        kept == non_blank(part),
{
    match part {
        Some(p) => if crate::text::trim(p.as_str()).as_str().is_empty() { None } else { Some(p) },
        None => None,
    }
}

/// Rich content read from the clipboard: its HTML and RTF where not blank;
/// none where neither is left. The plain text defaults to empty.
pub fn rich_from_parts(text: Option<String>, html: Option<String>, rtf: Option<String>)
    -> (rich: Option<(String, Option<String>, Option<String>)>)
    ensures
        rich is None <==> non_blank(html) is None && non_blank(rtf) is None,
        rich matches Some(r) ==> r.1 == non_blank(html) && r.2 == non_blank(rtf)
            && r.0@ == match text {
                Some(t) => t@,
                None => Seq::<char>::empty(),
            },
{
    let html = keep_non_blank(html);
    let rtf = keep_non_blank(rtf);
    if html.is_none() && rtf.is_none() {
        return None;
    }
    let text = match text {
        Some(t) => t,
        None => String::new(),
    };
    Some((text, html, rtf))
}

/// The forms written when rich content is put into the clipboard: each
/// that is not empty; nothing at all is refused.
pub fn rich_write_parts(text: String, html: Option<String>, rtf: Option<String>)
    -> (parts: Result<(Option<String>, Option<String>, Option<String>), String>)
    ensures
        match parts {
            Ok(p) => {
                &&& p.0 == (if text@.len() > 0 { Some(text) } else { None })
                &&& p.1 == (match html { Some(h) => if h@.len() > 0 { Some(h) } else { None }, None => None })
                &&& p.2 == (match rtf { Some(r) => if r@.len() > 0 { Some(r) } else { None }, None => None })
                &&& (p.0 is Some || p.1 is Some || p.2 is Some)
            },
            Err(e) => e@ == "富文本剪贴板内容为空"@ && text@.len() == 0
                && (match html { Some(h) => h@.len() == 0, None => true })
                && (match rtf { Some(r) => r@.len() == 0, None => true }),
        },
{
    let text_part = if text.as_str().is_empty() { None } else { Some(text) };
    let html_part = match html {
        Some(h) => if h.as_str().is_empty() { None } else { Some(h) },
        None => None,
    };
    let rtf_part = match rtf {
        Some(r) => if r.as_str().is_empty() { None } else { Some(r) },
        None => None,
    };
    if text_part.is_none() && html_part.is_none() && rtf_part.is_none() {
        return Err(String::from_str("富文本剪贴板内容为空"));
    }
    Ok((text_part, html_part, rtf_part))
}

/// What a basic read of the clipboard (text and image only) yields: an
/// error where both reads failed; otherwise the text where it is not blank
/// and the image where it was read.
pub fn basic_content(text: Result<String, String>, image: Result<(Vec<u8>, u32, u32), String>)
    -> (content: Result<ClipboardContent, String>)
    ensures
        content is Err <==> text is Err && image is Err,
        content matches Err(e) ==> e@ == "无法读取系统剪贴板中的文本或图片"@,
        content matches Ok(c) ==> {
            &&& c.text == match text {
                Ok(t) => non_blank(Some(t)),
                Err(_) => None,
            }
            &&& c.image == match image {
                Ok(i) => Some(i),
                Err(_) => None,
            }
            &&& c.rich is None
            &&& c.files@.len() == 0
        },
{
    if text.is_err() && image.is_err() {
        return Err(String::from_str("无法读取系统剪贴板中的文本或图片"));
    }
    let text = match text {
        Ok(t) => keep_non_blank(Some(t)),
        Err(_) => None,
    };
    let image = match image {
        Ok(i) => Some(i),
        Err(_) => None,
    };
    Ok(ClipboardContent { text, rich: None, image, files: Vec::new() })
}

} // verus!
