use airdrop::blobs::{
    check_received_file, received_image_pixels, FileDigest,
    check_resume_manifest, check_resume_plan, check_transfer_ack,
    check_decoded_size, check_image_header, check_image_payload, file_hash_matches, peer_directory_key, resume_offset,
    sha256_hex, stream_kind, stream_kind_byte, ExistingFile, ImageBlobHeader, ResumeOffset, StreamKind, MAX_IMAGE_BLOB,
};
use airdrop::files::FileEntry;
use sha2::{Digest, Sha256};

fn header(png: &[u8]) -> ImageBlobHeader {
    ImageBlobHeader {
        schema_version: 1,
        message_id: "m".into(),
        origin_sequence: 1,
        captured_at: "t".into(),
        width: 2,
        height: 3,
        png_length: png.len() as u64,
        sha256: sha256_hex(png),
        group_ids: vec!["g".into()],
    }
}

#[test]
fn streams_announce_their_kind() {
    assert_eq!(stream_kind(1), Some(StreamKind::Image));
    assert_eq!(stream_kind(2), Some(StreamKind::Files));
    assert_eq!(stream_kind(3), None);
    assert_eq!(stream_kind(stream_kind_byte(StreamKind::Files)), Some(StreamKind::Files));
}

#[test]
fn hashes_are_lower_case_hexadecimal() {
    assert_eq!(sha256_hex(b"abc"), "ba7816bf8f01cfea414140de5dae2223b00361a396177a9cb410ff61f20015ad");
    assert_eq!(peer_directory_key("device-a").len(), 24);
    assert_eq!(peer_directory_key("device-a"), sha256_hex(b"device-a")[..24]);
    let digest = Sha256::digest(b"0123456789");
    assert!(file_hash_matches(&digest, &sha256_hex(b"0123456789").to_ascii_uppercase()));
    assert!(!file_hash_matches(&digest, &sha256_hex(b"x")));
}

#[test]
fn image_streams_are_checked_against_their_header() {
    let png = vec![9u8; 10];
    let h = header(&png);
    assert!(check_image_header(&h).is_ok());
    assert!(check_image_payload(&h, &png).is_ok());
    assert!(check_image_payload(&h, &png[..9]).is_err());
    assert!(check_image_payload(&h, &vec![8u8; 10]).is_err());
    assert!(check_decoded_size(&h, 2, 3).is_ok());
    assert!(check_decoded_size(&h, 3, 2).is_err());
    let mut too_big = header(&png);
    too_big.png_length = MAX_IMAGE_BLOB as u64 + 1;
    assert!(check_image_header(&too_big).is_err());
    let mut empty = header(&png);
    empty.width = 0;
    assert_eq!(check_image_header(&empty), Err("图片数据流头无效".to_string()));
}

#[test]
fn file_transfers_resume_after_the_bytes_already_received() {
    let file = FileEntry { relative_path: "a.txt".into(), size: 10, sha256: "0".repeat(64), is_directory: false };
    let dir = FileEntry { relative_path: "d".into(), size: 0, sha256: String::new(), is_directory: true };
    assert_eq!(resume_offset(&dir, &ExistingFile::Unsafe), Ok(ResumeOffset { offset: 0, reset: false }));
    assert_eq!(resume_offset(&file, &ExistingFile::Missing), Ok(ResumeOffset { offset: 0, reset: false }));
    assert_eq!(resume_offset(&file, &ExistingFile::Regular(4)), Ok(ResumeOffset { offset: 4, reset: false }));
    assert_eq!(resume_offset(&file, &ExistingFile::Regular(10)), Ok(ResumeOffset { offset: 10, reset: false }));
    assert_eq!(resume_offset(&file, &ExistingFile::Regular(11)), Ok(ResumeOffset { offset: 0, reset: true }));
    assert!(resume_offset(&file, &ExistingFile::Unsafe).is_err());
}

#[test]
fn the_sender_checks_the_resume_plan_and_the_final_acknowledgement() {
    let file = FileEntry { relative_path: "a.txt".into(), size: 10, sha256: "0".repeat(64), is_directory: false };
    let dir = FileEntry { relative_path: "d".into(), size: 0, sha256: String::new(), is_directory: true };
    let entries = vec![dir.clone(), file.clone()];
    assert_eq!(check_resume_plan(1, "t", &[0, 10], "t", &entries), Ok(()));
    assert_eq!(check_resume_plan(1, "t", &[0, 4], "t", &entries), Ok(()));
    assert_eq!(check_resume_plan(2, "t", &[0, 4], "t", &entries), Err("文件续传计划无效".to_string()));
    assert_eq!(check_resume_plan(1, "u", &[0, 4], "t", &entries), Err("文件续传计划无效".to_string()));
    assert_eq!(check_resume_plan(1, "t", &[0], "t", &entries), Err("文件续传计划无效".to_string()));
    assert_eq!(check_resume_plan(1, "t", &[1, 4], "t", &entries), Err("目录续传偏移无效".to_string()));
    assert_eq!(check_resume_plan(1, "t", &[0, 11], "t", &entries), Err("文件续传偏移超过声明大小".to_string()));
    assert_eq!(check_transfer_ack(1, "t", true, None, "t"), Ok(()));
    assert_eq!(check_transfer_ack(1, "t", false, None, "t"), Err("接收端拒绝了文件快照".to_string()));
    assert_eq!(check_transfer_ack(1, "u", true, Some("哈希不符".to_string()), "t"), Err("哈希不符".to_string()));
    assert_eq!(check_resume_manifest(None, b"m"), Ok(true));
    assert_eq!(check_resume_manifest(Some(b"m"), b"m"), Ok(false));
    assert_eq!(check_resume_manifest(Some(b"n"), b"m"), Err("相同文件传输 ID 出现不同清单".to_string()));
}

#[test]
fn received_files_are_hashed_as_their_bytes_arrive() {
    let content = b"hello world, in pieces";
    let expected = format!("{:x}", Sha256::digest(content));
    let mut digest = FileDigest::new();
    digest.update(&content[..5]);
    digest.update(&content[5..]);
    assert_eq!(digest.hex(), expected);
    let entry = FileEntry { relative_path: "dir/a.txt".into(), size: content.len() as u64, sha256: expected.to_uppercase(), is_directory: false };
    let mut digest = FileDigest::new();
    digest.update(content);
    assert_eq!(check_received_file(digest, &entry), Ok(()));
    let mut digest = FileDigest::new();
    digest.update(b"hello world, in piece");
    assert_eq!(check_received_file(digest, &entry), Err("文件 dir/a.txt 哈希不匹配".to_string()));
    assert_eq!(FileDigest::new().hex(), format!("{:x}", Sha256::digest(b"")));
}

#[test]
fn received_images_are_decoded_and_their_size_checked() {
    let rgba: Vec<u8> = vec![255, 0, 0, 255, 0, 255, 0, 128];
    let mut png = Vec::new();
    image::ImageEncoder::write_image(image::codecs::png::PngEncoder::new(&mut png), &rgba, 2, 1, image::ExtendedColorType::Rgba8).unwrap();
    let mut h = header(&png);
    h.width = 2;
    h.height = 1;
    assert_eq!(received_image_pixels(&h, &png), Ok(rgba.clone()));
    let mut wrong_size = header(&png);
    wrong_size.width = 1;
    wrong_size.height = 2;
    assert_eq!(received_image_pixels(&wrong_size, &png), Err("图片数据尺寸与声明不匹配".to_string()));
    let garbage = b"not a png".to_vec();
    let g = header(&garbage);
    assert!(received_image_pixels(&g, &garbage).unwrap_err().starts_with("图片数据解码失败："));
    let mut tampered = png.clone();
    tampered[0] ^= 1;
    assert_eq!(received_image_pixels(&h, &tampered), Err("图片数据长度或哈希不匹配".to_string()));
}
