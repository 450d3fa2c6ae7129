//! Checks on the data streams between trusted devices: which kind of stream
//! arrives, an image stream's header and payload, each received file's hash,
//! and where an interrupted file transfer resumes.

use vstd::prelude::*;
use vstd::string::*;
use vstd::utf8::encode_utf8;
use crate::crypto::{sha256, sha256_digest, sha256_fed, sha256_hasher_finish, sha256_hasher_new, sha256_hasher_update, Sha256Hasher};
use crate::files::FileEntry;
use crate::formats::{hexlower, hexlower_encode};
use crate::identity::{ascii_lower, to_ascii_lowercase};
use crate::text::str_equal;

verus! {

/// The largest PNG an image stream carries.
pub const MAX_IMAGE_BLOB: usize = 16 * 1024 * 1024;

/// The kinds of data stream, announced by the stream's first byte.
#[derive(Clone, Copy, Debug, PartialEq, Eq, Structural)]
pub enum StreamKind {
    /// A one-way stream with an image (byte 1).
    Image,
    /// A two-way stream with files (byte 2).
    Files,
}

/// The kind a stream's first byte announces: 1 an image, 2 files.
pub open spec fn stream_kind_spec(first: u8) -> Option<StreamKind> {
    if first == 1 { Some(StreamKind::Image) } else if first == 2 { Some(StreamKind::Files) } else { None }
}

/// The kind a stream's first byte announces.
pub fn stream_kind(first: u8) -> (kind: Option<StreamKind>)
    ensures
        kind == stream_kind_spec(first),
{
    if first == 1 {
        Some(StreamKind::Image)
    } else if first == 2 {
        Some(StreamKind::Files)
    } else {
        None
    }
}

/// The first byte of a stream of this kind.
pub fn stream_kind_byte(kind: StreamKind) -> (first: u8)
    ensures
        stream_kind_spec(first) == Some(kind),
{
    match kind {
        StreamKind::Image => 1,
        StreamKind::Files => 2,
    }
}

/// The SHA-256 of `data` as lower-case hexadecimal.
pub fn sha256_hex(data: &[u8]) -> (hex: String)
    ensures
        hex@ == hexlower(sha256_digest(data@)),
{
    let digest = sha256(data);
    hexlower_encode(digest.as_slice())
}

/// The name under which a device's received files are kept: the
/// hexadecimal of the first twelve bytes of the SHA-256 of its id.
pub fn peer_directory_key(device_id: &str) -> (key: String)
    ensures
        key@ == hexlower(sha256_digest(encode_utf8(device_id@)).take(12)),
{
    let digest = sha256(device_id.as_bytes());
    let prefix = crate::text::slice_prefix(digest.as_slice(), 12);
    hexlower_encode(prefix.as_slice())
}

/// The header that precedes an image's PNG on its stream.
pub struct ImageBlobHeader {
    pub schema_version: u8,
    pub message_id: String,
    pub origin_sequence: u64,
    pub captured_at: String,
    pub width: u32,
    pub height: u32,
    pub png_length: u64,
    pub sha256: String,
    pub group_ids: Vec<String>,
}

/// An image header is usable: schema 1, a PNG of 1 byte to 16 MiB, a size
/// that is not empty.
pub open spec fn image_header_ok(h: ImageBlobHeader) -> bool {
    h.schema_version == 1 && h.png_length != 0 && h.png_length <= MAX_IMAGE_BLOB && h.width != 0 && h.height != 0
}

/// Checks an image stream's header.
pub fn check_image_header(header: &ImageBlobHeader) -> (result: Result<(), String>)
    ensures
        result is Ok <==> image_header_ok(*header),
        result matches Err(e) ==> e@ == "图片数据流头无效"@,
{
    if header.schema_version != 1 || header.png_length == 0 || header.png_length > MAX_IMAGE_BLOB as u64
        || header.width == 0 || header.height == 0 {
        return Err(String::from_str("图片数据流头无效"));
    }
    Ok(())
}

/// Checks the PNG read from an image stream against its header: the
/// announced length and SHA-256.
pub fn check_image_payload(header: &ImageBlobHeader, png: &[u8]) -> (result: Result<(), String>)
    ensures
        result is Ok <==> png@.len() == header.png_length && hexlower(sha256_digest(png@)) == header.sha256@,
        result matches Err(e) ==> e@ == "图片数据长度或哈希不匹配"@,
{
    if png.len() as u64 != header.png_length {
        return Err(String::from_str("图片数据长度或哈希不匹配"));
    }
    let hex = sha256_hex(png);
    if !str_equal(hex.as_str(), header.sha256.as_str()) {
        return Err(String::from_str("图片数据长度或哈希不匹配"));
    }
    Ok(())
}

/// Checks that the decoded image has the size the header announced.
pub fn check_decoded_size(header: &ImageBlobHeader, width: u32, height: u32) -> (result: Result<(), String>)
    ensures
        result is Ok <==> width == header.width && height == header.height,
        result matches Err(e) ==> e@ == "图片数据尺寸与声明不匹配"@,
{
    if width != header.width || height != header.height {
        return Err(String::from_str("图片数据尺寸与声明不匹配"));
    }
    Ok(())
}

/// The RGBA pixels, width and height that the `image` crate decodes from
/// PNG bytes; `None` where they are not a PNG it can decode.
pub uninterp spec fn png_decoded(png: Seq<u8>) -> Option<(Seq<u8>, u32, u32)>;

/// Calls `image::load_from_memory_with_format` with the PNG format and
/// `DynamicImage::to_rgba8`, returning the pixel buffer (`into_raw`) and its
/// size; the result is named `png_decoded`. An `ImageBuffer` holds four
/// bytes per pixel of an RGBA image. The decoder's error becomes its text.
#[verifier::external_body]
fn decode_png(png: &[u8]) -> (decoded: Result<(Vec<u8>, u32, u32), String>)
    ensures
        match decoded {
            Ok((rgba, width, height)) => png_decoded(png@) == Some((rgba@, width, height))
                && rgba@.len() == width * height * 4,
            Err(_) => png_decoded(png@) is None,
        },
{
    match image::load_from_memory_with_format(png, image::ImageFormat::Png) {
        Ok(image) => {
            let rgba = image.to_rgba8();
            let (width, height) = (rgba.width(), rgba.height());
            Ok((rgba.into_raw(), width, height))
        },
        Err(error) => Err(error.to_string()),
    }
}

/// The pixels of a received image: the PNG must have the announced length
/// and SHA-256, decode, and have the announced size.
pub fn received_image_pixels(header: &ImageBlobHeader, png: &[u8]) -> (result: Result<Vec<u8>, String>)
    ensures
        ({
            let payload_ok = png@.len() == header.png_length && hexlower(sha256_digest(png@)) == header.sha256@;
            let d = png_decoded(png@)->0;
            &&& result is Ok <==> payload_ok && png_decoded(png@) is Some && d.1 == header.width && d.2 == header.height
            &&& result matches Ok(rgba) ==> rgba@ == d.0 && rgba@.len() == header.width * header.height * 4
            &&& result matches Err(e) ==> if !payload_ok {
                e@ == "图片数据长度或哈希不匹配"@
            } else if png_decoded(png@) is None {
                e@.len() >= "图片数据解码失败："@.len() && e@.take("图片数据解码失败："@.len() as int) == "图片数据解码失败："@
            } else {
                e@ == "图片数据尺寸与声明不匹配"@
            }
        }),
{
    check_image_payload(header, png)?;
    let (rgba, width, height) = match decode_png(png) {
        Ok(decoded) => decoded,
        Err(error) => {
            let mut message = String::from_str("图片数据解码失败：");
            message.append(error.as_str());
            proof {
                assert(message@.take("图片数据解码失败："@.len() as int) =~= "图片数据解码失败："@);
            }
            return Err(message);
        },
    };
    check_decoded_size(header, width, height)?;
    Ok(rgba)
}

/// A received file is intact where the hexadecimal of its SHA-256 equals
/// its stated hash, compared without regard to ASCII case.
pub fn file_hash_matches(digest: &[u8], expected: &str) -> (matches: bool)
    requires
        digest@.len() <= usize::MAX / 512,
    ensures
        matches == (hexlower(digest@) == ascii_lower(expected@)),
{
    let hex = hexlower_encode(digest);
    let lower = to_ascii_lowercase(expected);
    str_equal(hex.as_str(), lower.as_str())
}

/// What already exists where a file of the bundle is received.
pub enum ExistingFile {
    /// Nothing.
    Missing,
    /// A regular file of this many bytes.
    Regular(u64),
    /// A link, a directory or anything else that is not a regular file.
    Unsafe,
}

/// Where receiving a file resumes.
#[derive(Clone, Copy, Debug, PartialEq, Eq, Structural)]
pub struct ResumeOffset {
    pub offset: u64,
    /// The existing file is longer than the entry and must be removed first.
    pub reset: bool,
}

/// Where receiving `entry` resumes given what exists: directories and
/// missing files from the start; a regular file no longer than the entry
/// after its bytes; a longer one from the start, once removed. Anything else
/// is refused.
pub fn resume_offset(entry: &FileEntry, existing: &ExistingFile) -> (result: Result<ResumeOffset, String>)
    ensures
        entry.is_directory ==> result == Ok::<ResumeOffset, String>(ResumeOffset { offset: 0, reset: false }),
        !entry.is_directory ==> match *existing {
            ExistingFile::Missing => result == Ok::<ResumeOffset, String>(ResumeOffset { offset: 0, reset: false }),
            ExistingFile::Regular(len) => result == Ok::<ResumeOffset, String>(if len <= entry.size {
                ResumeOffset { offset: len, reset: false }
            } else {
                ResumeOffset { offset: 0, reset: true }
            }),
            ExistingFile::Unsafe => result matches Err(e) && e@ == "文件续传缓存包含不安全文件类型"@,
        },
{
    if entry.is_directory {
        return Ok(ResumeOffset { offset: 0, reset: false });
    }
    match existing {
        ExistingFile::Missing => Ok(ResumeOffset { offset: 0, reset: false }),
        ExistingFile::Regular(len) => if *len <= entry.size {
            Ok(ResumeOffset { offset: *len, reset: false })
        } else {
            Ok(ResumeOffset { offset: 0, reset: true })
        },
        ExistingFile::Unsafe => Err(String::from_str("文件续传缓存包含不安全文件类型")),
    }
}

/// Offset `offset` fits `entry`: a directory resumes at nothing, a file at
/// most at its declared size.
pub open spec fn offset_fits(entry: FileEntry, offset: u64) -> bool {
    if entry.is_directory { offset == 0 } else { offset <= entry.size }
}

/// Entry `i` is the first whose offset does not fit.
pub open spec fn first_misfit(entries: Seq<FileEntry>, offsets: Seq<u64>, i: int) -> bool {
    &&& 0 <= i < entries.len()
    &&& !offset_fits(entries[i], offsets[i])
    &&& forall|j: int| 0 <= j < i ==> offset_fits(#[trigger] entries[j], offsets[j])
}

/// The sender's check of the receiver's resume plan for a file blob: plan
/// version 1, the same transfer id, one offset per entry, and each offset
/// fitting its entry. The first fault met names the error.
pub fn check_resume_plan(
    schema_version: u8,
    transfer_id: &str,
    offsets: &[u64],
    expected_transfer_id: &str,
    entries: &[FileEntry],
) -> (result: Result<(), String>)
    ensures
        ({
            let plan_ok = schema_version == 1 && transfer_id@ == expected_transfer_id@ && offsets@.len() == entries@.len();
            &&& result is Ok <==> plan_ok && forall|i: int| 0 <= i < entries@.len() ==> offset_fits(#[trigger] entries@[i], offsets@[i])
            &&& result matches Err(e) ==> if !plan_ok {
                e@ == "文件续传计划无效"@
            } else {
                exists|i: int| #[trigger] first_misfit(entries@, offsets@, i) && e@ == (if entries@[i].is_directory {
                    "目录续传偏移无效"@
                } else {
                    "文件续传偏移超过声明大小"@
                })
            }
        }),
{
    if schema_version != 1 || !str_equal(transfer_id, expected_transfer_id) || offsets.len() != entries.len() {
        return Err(String::from_str("文件续传计划无效"));
    }
    let mut i: usize = 0;
    while i < entries.len()
        invariant
            i <= entries@.len(),
            offsets@.len() == entries@.len(),
            schema_version == 1,
            transfer_id@ == expected_transfer_id@,
            forall|j: int| 0 <= j < i ==> offset_fits(#[trigger] entries@[j], offsets@[j]),
        decreases entries@.len() - i,
    {
        if entries[i].is_directory {
            if offsets[i] != 0 {
                proof {
                    assert(first_misfit(entries@, offsets@, i as int));
                }
                return Err(String::from_str("目录续传偏移无效"));
            }
        } else if offsets[i] > entries[i].size {
            proof {
                assert(first_misfit(entries@, offsets@, i as int));
            }
            return Err(String::from_str("文件续传偏移超过声明大小"));
        }
        i = i + 1;
    }
    Ok(())
}

/// The sender's check of the receiver's final acknowledgement: version 1,
/// the same transfer id and accepted; otherwise the receiver's message, or
/// a refusal where it gave none.
pub fn check_transfer_ack(
    schema_version: u8,
    transfer_id: &str,
    accepted: bool,
    message: Option<String>,
    expected_transfer_id: &str,
) -> (result: Result<(), String>)
    ensures
        result is Ok <==> schema_version == 1 && transfer_id@ == expected_transfer_id@ && accepted,
        result matches Err(e) ==> e@ == match message {
            Some(m) => m@,
            None => "接收端拒绝了文件快照"@,
        },
{
    if schema_version != 1 || !str_equal(transfer_id, expected_transfer_id) || !accepted {
        return match message {
            Some(m) => Err(m),
            None => Err(String::from_str("接收端拒绝了文件快照")),
        };
    }
    Ok(())
}

/// The receiver's check of the resume manifest kept with a partial file
/// bundle: where one is stored it must equal the header's; returns whether
/// it is still to be written.
pub fn check_resume_manifest(stored: Option<&[u8]>, manifest: &[u8]) -> (result: Result<bool, String>)
    ensures
        match stored {
            None => result == Ok::<bool, String>(true),
            Some(s) => if s@ == manifest@ {
                result == Ok::<bool, String>(false)
            } else {
                result matches Err(e) && e@ == "相同文件传输 ID 出现不同清单"@
            },
        },
{
    match stored {
        None => Ok(true),
        Some(s) => if crate::text::bytes_equal(s, manifest) {
            Ok(false)
        } else {
            Err(String::from_str("相同文件传输 ID 出现不同清单"))
        },
    }
}

/// The SHA-256 of a file's bytes, fed as the file is read or received.
pub struct FileDigest {
    hasher: Sha256Hasher,
}

impl FileDigest {
    /// The bytes fed so far.
    pub closed spec fn fed(&self) -> Seq<u8> {
        sha256_fed(self.hasher)
    }

    /// Nothing fed yet.
    pub fn new() -> (digest: FileDigest)
        ensures
            digest.fed() == Seq::<u8>::empty(),
    {
        FileDigest { hasher: sha256_hasher_new() }
    }

    /// Feeds the next bytes of the file.
    pub fn update(&mut self, chunk: &[u8])
        ensures
            final(self).fed() == old(self).fed() + chunk@,
    {
        sha256_hasher_update(&mut self.hasher, chunk);
    }

    /// The lower-case hexadecimal SHA-256 of the bytes fed, as a file entry
    /// records it.
    pub fn hex(self) -> (text: String)
        ensures
            text@ == hexlower(sha256_digest(self.fed())),
    {
        let digest = sha256_hasher_finish(self.hasher);
        hexlower_encode(digest.as_slice())
    }
}

/// Checks the bytes received for a file entry (those already on disk before
/// a resume, then those received) against the entry's SHA-256, compared
/// without regard to ASCII case.
pub fn check_received_file(digest: FileDigest, entry: &FileEntry) -> (result: Result<(), String>)
    ensures
        result is Ok <==> hexlower(sha256_digest(digest.fed())) == ascii_lower(entry.sha256@),
        result matches Err(e) ==> e@ == "文件 "@ + entry.relative_path@ + " 哈希不匹配"@,
{
    let bytes = sha256_hasher_finish(digest.hasher);
    if file_hash_matches(bytes.as_slice(), entry.sha256.as_str()) {
        Ok(())
    } else {
        let mut message = String::from_str("文件 ");
        message.append(entry.relative_path.as_str());
        message.append(" 哈希不匹配");
        Err(message)
    }
}

} // verus!
