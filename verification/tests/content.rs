use airdrop::content::{copied_file_names, file_list_hash, image_hash, image_preview_data_url, rich_hash, text_content_type};
use sha2::{Digest, Sha256};

#[test]
fn classifies_standalone_network_urls_without_treating_paths_as_urls() {
    assert_eq!(text_content_type("https://example.com/path"), "url");
    assert_eq!(text_content_type("mailto:user@example.com"), "url");
    assert_eq!(text_content_type("file:///tmp/example.txt"), "text");
    assert_eq!(text_content_type("See https://example.com"), "text");
    assert_eq!(text_content_type("C:\\Temp\\example.txt"), "text");
}

#[test]
fn surrounding_white_space_is_ignored_and_empty_text_is_text() {
    assert_eq!(text_content_type("  ftp://example.com/file \n"), "url");
    assert_eq!(text_content_type("   "), "text");
    assert_eq!(text_content_type("http://a b"), "text");
}

#[test]
fn content_hashes_cover_every_field() {
    let mut expected = b"localdrop-clipboard-image-v1\0".to_vec();
    expected.extend_from_slice(&2u32.to_be_bytes());
    expected.extend_from_slice(&1u32.to_be_bytes());
    expected.extend_from_slice(&[1, 2, 3, 4, 5, 6, 7, 8]);
    let digest: [u8; 32] = Sha256::digest(&expected).into();
    assert_eq!(image_hash(&[1, 2, 3, 4, 5, 6, 7, 8], 2, 1), digest);
    assert_ne!(image_hash(&[1, 2, 3, 4, 5, 6, 7, 8], 1, 2), digest);

    let mut rich = b"localdrop-rich-clipboard-v1\0".to_vec();
    rich.extend_from_slice(&2u64.to_be_bytes());
    rich.extend_from_slice(b"hi");
    rich.push(1);
    rich.extend_from_slice(&3u64.to_be_bytes());
    rich.extend_from_slice(b"<b>");
    rich.push(0);
    let digest: [u8; 32] = Sha256::digest(&rich).into();
    assert_eq!(rich_hash("hi", Some("<b>"), None), digest);
    assert_ne!(rich_hash("hi", None, Some("<b>")), digest);

    let mut files = b"localdrop-file-list-v1\0".to_vec();
    files.extend_from_slice(&1u64.to_be_bytes());
    files.extend_from_slice(b"a");
    files.extend_from_slice(&2u64.to_be_bytes());
    files.extend_from_slice(b"bc");
    let digest: [u8; 32] = Sha256::digest(&files).into();
    assert_eq!(file_list_hash(&["a".to_string(), "bc".to_string()]), digest);
    assert_ne!(file_list_hash(&["ab".to_string(), "c".to_string()]), digest);
}

#[test]
fn copied_files_show_their_file_names() {
    let names = copied_file_names(&["/home/me/report.pdf".to_string(), "folder/".to_string(), "/".to_string()]);
    assert_eq!(names, vec!["report.pdf".to_string(), "folder".to_string(), "/".to_string()]);
}

#[test]
fn image_previews_are_png_data_urls() {
    let preview = image_preview_data_url(&[255u8; 16], 2, 2).unwrap();
    assert!(preview.starts_with("data:image/png;base64,iVBOR"));
    assert_eq!(image_preview_data_url(&[255u8; 3], 2, 2), None);
}
