//! Clipboard content: whether text is a standalone network URL, the content
//! hashes that identify an image, rich text or file list, and the names that
//! a list of copied files shows.

use vstd::prelude::*;
use vstd::string::*;
use vstd::utf8::encode_utf8;
use crate::codec::{append_bytes, be_u32, be_u64, put_u64};
use crate::crypto::{sha256, sha256_digest};
use crate::formats::{base64_encode, base64_text};
use crate::path::{file_name, file_name_of};
use crate::text::{char_is_whitespace, chars_of, is_white_space, str_equal, trim, trimmed};

verus! {

/// The scheme of the URL that `url::Url::parse` reads from `text`, as
/// `Url::scheme` gives it; `None` where parsing fails.
pub uninterp spec fn url_scheme(text: Seq<char>) -> Option<Seq<char>>;

/// Calls `url::Url::parse` and, where it succeeds, `Url::scheme`; the result
/// is named `url_scheme`.
#[verifier::external_body]
fn parse_url_scheme(text: &str) -> (scheme: Option<String>)
    ensures
        match scheme {
            Some(s) => url_scheme(text@) == Some(s@),
            None => url_scheme(text@) is None,
        },
{
    match url::Url::parse(text) {
        Ok(url) => Some(url.scheme().to_string()),
        Err(_) => None,
    }
}

/// The schemes that make a text a network URL.
pub open spec fn network_scheme(scheme: Seq<char>) -> bool {
    scheme == "http"@ || scheme == "https"@ || scheme == "ftp"@ || scheme == "mailto"@
}

/// The content type of a text whose URL scheme (if it parses as a URL) is
/// `scheme`: `url` for a network scheme, else `text`.
pub open spec fn scheme_content_type(scheme: Option<Seq<char>>) -> Seq<char> {
    match scheme {
        Some(s) => if network_scheme(s) {
            "url"@
        } else {
            "text"@
        },
        None => "text"@,
    }
}

/// The content type of clipboard text: `url` where the trimmed text is one
/// token without white space that parses as a URL with a network scheme,
/// `text` otherwise.
pub open spec fn text_type(text: Seq<char>) -> Seq<char> {
    let value = trimmed(text);
    if value.len() == 0 || exists|i: int| 0 <= i < value.len() && is_white_space(#[trigger] value[i]) {
        "text"@
    } else {
        scheme_content_type(url_scheme(value))
    }
}

/// The content type that a parsed URL scheme gives a text.
pub fn scheme_type(scheme: &Option<String>) -> (kind: &'static str)
    ensures
        kind@ == scheme_content_type(match scheme {
            Some(s) => Some(s@),
            None => None,
        }),
{
    match scheme {
        Some(s) => {
            let value = s.as_str();
            if str_equal(value, "http") || str_equal(value, "https") || str_equal(value, "ftp") || str_equal(value, "mailto") {
                "url"
            } else {
                "text"
            }
        },
        None => "text",
    }
}

/// Classifies clipboard text as `url` or `text`.
pub fn text_content_type(text: &str) -> (kind: &'static str)
    ensures
        kind@ == text_type(text@),
{
    let value = trim(text);
    let chars = chars_of(value.as_str());
    if chars.len() == 0 {
        return "text";
    }
    let mut i: usize = 0;
    while i < chars.len()
        invariant
            chars@ == value@,
            value@ == trimmed(text@),
            i <= chars@.len(),
            forall|j: int| 0 <= j < i ==> !is_white_space(#[trigger] chars@[j]),
        decreases chars@.len() - i,
    {
        if char_is_whitespace(chars[i]) {
            return "text";
        }
        i = i + 1;
    }
    let scheme = parse_url_scheme(value.as_str());
    scheme_type(&scheme)
}

/// The bytes hashed to identify an image.
pub open spec fn image_hash_input(rgba: Seq<u8>, width: u32, height: u32) -> Seq<u8> {
    encode_utf8("localdrop-clipboard-image-v1"@) + seq![0u8] + be_u32(width) + be_u32(height) + rgba
}

/// A text field of a content hash: its byte length, then its bytes.
pub open spec fn hashed_text(text: Seq<char>) -> Seq<u8> {
    be_u64(encode_utf8(text).len() as u64) + encode_utf8(text)
}

/// An optional text field of a content hash: `0`, or `1` and the field.
pub open spec fn hashed_option(text: Option<Seq<char>>) -> Seq<u8> {
    match text {
        Some(t) => seq![1u8] + hashed_text(t),
        None => seq![0u8],
    }
}

/// The bytes hashed to identify rich text.
pub open spec fn rich_hash_input(text: Seq<char>, html: Option<Seq<char>>, rtf: Option<Seq<char>>) -> Seq<u8> {
    encode_utf8("localdrop-rich-clipboard-v1"@) + seq![0u8] + hashed_text(text) + hashed_option(html) + hashed_option(rtf)
}

/// The hashed fields of a list of texts, in order.
pub open spec fn hashed_texts(texts: Seq<Seq<char>>) -> Seq<u8>
    decreases texts.len(),
{
    if texts.len() == 0 {
        Seq::empty()
    } else {
        hashed_texts(texts.drop_last()) + hashed_text(texts.last())
    }
}

/// The bytes hashed to identify a list of files.
pub open spec fn file_list_hash_input(files: Seq<Seq<char>>) -> Seq<u8> {
    encode_utf8("localdrop-file-list-v1"@) + seq![0u8] + hashed_texts(files)
}

fn to_array(digest: Vec<u8>) -> (array: [u8; 32])
    requires
        digest@.len() == 32,
    ensures
        array@ == digest@,
{
    crate::codec::array32(digest.as_slice())
}

fn put_hashed_text(output: &mut Vec<u8>, text: &str)
    ensures
        final(output)@ == old(output)@ + hashed_text(text@),
{
    let bytes = text.as_bytes();
    put_u64(output, bytes.len() as u64);
    append_bytes(output, bytes);
    proof {
        assert(final(output)@ =~= old(output)@ + hashed_text(text@));
    }
}

fn put_hashed_option(output: &mut Vec<u8>, text: Option<&str>)
    ensures
        final(output)@ == old(output)@ + hashed_option(match text {
            Some(t) => Some(t@),
            None => None,
        }),
{
    match text {
        Some(t) => {
            output.push(1u8);
            let ghost middle = output@;
            put_hashed_text(output, t);
            proof {
                assert(final(output)@ =~= old(output)@ + (seq![1u8] + hashed_text(t@)));
            }
        },
        None => {
            output.push(0u8);
            proof {
                assert(final(output)@ =~= old(output)@ + seq![0u8]);
            }
        },
    }
}

fn start_hash(label: &str) -> (output: Vec<u8>)
    ensures
        output@ == encode_utf8(label@) + seq![0u8],
{
    let mut output: Vec<u8> = Vec::new();
    append_bytes(&mut output, label.as_bytes());
    output.push(0u8);
    proof {
        assert(output@ =~= encode_utf8(label@) + seq![0u8]);
    }
    output
}

/// The SHA-256 hash that identifies an image by its size and RGBA pixels.
pub fn image_hash(rgba: &[u8], width: u32, height: u32) -> (hash: [u8; 32])
    ensures
        hash@ == sha256_digest(image_hash_input(rgba@, width, height)),
{
    let mut input = start_hash("localdrop-clipboard-image-v1");
    crate::codec::put_u32_be(&mut input, width);
    crate::codec::put_u32_be(&mut input, height);
    append_bytes(&mut input, rgba);
    proof {
        assert(input@ =~= image_hash_input(rgba@, width, height));
    }
    to_array(sha256(input.as_slice()))
}

/// The SHA-256 hash that identifies rich text by its plain text, HTML and RTF.
pub fn rich_hash(text: &str, html: Option<&str>, rtf: Option<&str>) -> (hash: [u8; 32])
    ensures
        hash@ == sha256_digest(rich_hash_input(text@, match html {
            Some(h) => Some(h@),
            None => None,
        }, match rtf {
            Some(r) => Some(r@),
            None => None,
        })),
{
    let mut input = start_hash("localdrop-rich-clipboard-v1");
    put_hashed_text(&mut input, text);
    put_hashed_option(&mut input, html);
    put_hashed_option(&mut input, rtf);
    proof {
        assert(input@ =~= rich_hash_input(text@, match html {
            Some(h) => Some(h@),
            None => None,
        }, match rtf {
            Some(r) => Some(r@),
            None => None,
        }));
    }
    to_array(sha256(input.as_slice()))
}

/// The SHA-256 hash that identifies a list of file paths, in order.
pub fn file_list_hash(files: &[String]) -> (hash: [u8; 32])
    ensures
        hash@ == sha256_digest(file_list_hash_input(files.deep_view())),
{
    let mut input = start_hash("localdrop-file-list-v1");
    let ghost head = input@;
    let mut i: usize = 0;
    while i < files.len()
        invariant
            i <= files@.len(),
            input@ == head + hashed_texts(files.deep_view().take(i as int)),
        decreases files@.len() - i,
    {
        put_hashed_text(&mut input, files[i].as_str());
        proof {
            assert(files.deep_view().take(i + 1).drop_last() =~= files.deep_view().take(i as int));
            assert(input@ =~= head + hashed_texts(files.deep_view().take(i + 1)));
        }
        i = i + 1;
    }
    proof {
        assert(files.deep_view().take(files@.len() as int) =~= files.deep_view());
    }
    to_array(sha256(input.as_slice()))
}

/// The name a copied file shows: its file name, or the whole path where it
/// has none.
pub open spec fn copied_name(path: Seq<char>) -> Seq<char> {
    match file_name_of(path) {
        Some(n) => if n.len() > 0 {
            n
        } else {
            path
        },
        None => path,
    }
}

/// The names that a list of copied files shows, in order.
pub fn copied_file_names(files: &[String]) -> (names: Vec<String>)
    ensures
        names@.len() == files@.len(),
        forall|i: int| 0 <= i < files@.len() ==> #[trigger] names@[i]@ == copied_name(files@[i]@),
{
    let mut names: Vec<String> = Vec::new();
    let mut i: usize = 0;
    while i < files.len()
        invariant
            i <= files@.len(),
            names@.len() == i,
            forall|j: int| 0 <= j < i ==> #[trigger] names@[j]@ == copied_name(files@[j]@),
        decreases files@.len() - i,
    {
        let file = &files[i];
        let name = match file_name(file.as_str()) {
            Some(n) => if n.as_str().is_empty() {
                file.clone()
            } else {
                n
            },
            None => file.clone(),
        };
        names.push(name);
        i = i + 1;
    }
    names
}

/// The width of a preview thumbnail, in pixels.
pub const PREVIEW_MAX_WIDTH: u32 = 360;

/// The height of a preview thumbnail, in pixels.
pub const PREVIEW_MAX_HEIGHT: u32 = 240;

/// The PNG bytes of an RGBA image of the given size resized to
/// `max_width` × `max_height`, as the `image` crate resizes and encodes it;
/// `None` where the pixels are too few for the size.
pub uninterp spec fn png_thumbnail_bytes(rgba: Seq<u8>, width: u32, height: u32, max_width: u32, max_height: u32) -> Option<Seq<u8>>;

/// Calls `image::RgbaImage::from_raw`, `image::imageops::thumbnail` (which
/// resizes to exactly `max_width` × `max_height`) and `PngEncoder::write_image`; the result is
/// named `png_thumbnail_bytes`. `from_raw` returns `None` where the buffer is
/// too small; the thumbnail's buffer always has the length that
/// `write_image` asserts.
#[verifier::external_body]
fn png_thumbnail(rgba: &[u8], width: u32, height: u32, max_width: u32, max_height: u32) -> (png: Option<Vec<u8>>)
    ensures
        match png {
            Some(p) => png_thumbnail_bytes(rgba@, width, height, max_width, max_height) == Some(p@),
            None => png_thumbnail_bytes(rgba@, width, height, max_width, max_height) is None,
        },
{
    let source = image::RgbaImage::from_raw(width, height, rgba.to_vec())?;
    let thumbnail = image::imageops::thumbnail(&source, max_width, max_height);
    let mut png = Vec::new();
    let encoder = image::codecs::png::PngEncoder::new(&mut png);
    let written = image::ImageEncoder::write_image(encoder, thumbnail.as_raw(), thumbnail.width(), thumbnail.height(), image::ExtendedColorType::Rgba8);
    match written {
        Ok(()) => Some(png),
        Err(_) => None,
    }
}

/// The data URL of an image's thumbnail (resized to 360 × 240):
/// `data:image/png;base64,` and the Base64 of the thumbnail PNG.
pub open spec fn image_preview_url(rgba: Seq<u8>, width: u32, height: u32) -> Option<Seq<char>> {
    match png_thumbnail_bytes(rgba, width, height, PREVIEW_MAX_WIDTH, PREVIEW_MAX_HEIGHT) {
        Some(png) => if png.len() <= usize::MAX / 512 {
            Some("data:image/png;base64,"@ + base64_text(png))
        } else {
            None
        },
        None => None,
    }
}

/// The preview of an RGBA image as a PNG data URL, where the pixels fit the
/// size. A thumbnail too long to encode (more than `usize::MAX / 512`
/// bytes) has no preview.
pub fn image_preview_data_url(rgba: &[u8], width: u32, height: u32) -> (url: Option<String>)
    ensures
        match url {
            Some(u) => image_preview_url(rgba@, width, height) == Some(u@),
            None => image_preview_url(rgba@, width, height) is None,
        },
{
    match png_thumbnail(rgba, width, height, PREVIEW_MAX_WIDTH, PREVIEW_MAX_HEIGHT) {
        Some(png) => {
            if png.len() > usize::MAX / 512 {
                return None;
            }
            let mut url = String::from_str("data:image/png;base64,");
            let encoded = base64_encode(png.as_slice());
            url.append(encoded.as_str());
            Some(url)
        },
        None => None,
    }
}

} // verus!
