use airdrop::files::{
    portable_name, relative_to_string, safe_relative_path, unique_name, validate_file_header, FileBlobHeader,
    FileEntry, HeaderError, PathError, ReceivedFileBundle,
};

fn strings(values: &[&str]) -> Vec<String> {
    values.iter().map(|value| value.to_string()).collect()
}

fn entry(path: &str, size: u64, sha256: &str, is_directory: bool) -> FileEntry {
    FileEntry { relative_path: path.to_string(), size, sha256: sha256.to_string(), is_directory }
}

fn header(entries: Vec<FileEntry>, total_size: u64) -> FileBlobHeader {
    FileBlobHeader {
        schema_version: 1,
        message_id: "message".to_string(),
        origin_sequence: 1,
        captured_at: "2026-07-13T00:00:00Z".to_string(),
        total_size,
        entries,
        group_ids: Vec::new(),
    }
}

#[test]
fn rejects_escaping_relative_paths() {
    assert!(safe_relative_path("folder/file.txt").is_ok());
    assert!(safe_relative_path("../secret").is_err());
    assert!(safe_relative_path("/absolute").is_err());
    assert!(safe_relative_path("folder/./file.txt").is_err());
}

#[test]
fn relative_paths_split_into_components_and_report_each_fault() {
    assert_eq!(safe_relative_path("folder/file.txt"), Ok(strings(&["folder", "file.txt"])));
    assert_eq!(safe_relative_path(""), Err(PathError::Invalid));
    assert_eq!(safe_relative_path("a\\b"), Err(PathError::Invalid));
    assert_eq!(safe_relative_path(&"x".repeat(1025)), Err(PathError::Invalid));
    assert_eq!(safe_relative_path(&vec!["d"; 33].join("/")), Err(PathError::TooDeep));
    assert!(safe_relative_path(&vec!["d"; 32].join("/")).is_ok());
    assert_eq!(safe_relative_path("a//b"), Err(PathError::Escaping));
    assert_eq!(safe_relative_path("a/.."), Err(PathError::Escaping));
    assert_eq!(safe_relative_path(&format!("{}/b", "n".repeat(256))), Err(PathError::Escaping));
    assert!(safe_relative_path(&format!("{}/b", "n".repeat(255))).is_ok());
}

#[test]
fn relative_to_string_round_trips_through_the_receiver_check() {
    let components = strings(&["photos", "2026", "cat.png"]);
    let text = relative_to_string(&components).unwrap();
    assert_eq!(text, "photos/2026/cat.png");
    assert_eq!(safe_relative_path(&text), Ok(components));
    assert_eq!(relative_to_string(&strings(&["a", ".."])), Err(PathError::NotNormal));
    assert_eq!(relative_to_string(&strings(&["a/b"])), Err(PathError::NotNormal));
    assert_eq!(relative_to_string(&[]), Err(PathError::Invalid));
    for checked in ["folder/file.txt", "a", "x/y/z w.md"] {
        let parts = safe_relative_path(checked).unwrap();
        assert_eq!(relative_to_string(&parts), Ok(checked.to_string()));
    }
}

#[test]
fn portable_names_replace_forbidden_characters_and_reserved_stems() {
    assert_eq!(portable_name("report.txt"), "report.txt");
    assert_eq!(portable_name("a<b>c:d\"e/f\\g|h?i*j"), "a_b_c_d_e_f_g_h_i_j");
    assert_eq!(portable_name("tab\there"), "tab_here");
    assert_eq!(portable_name("name. . "), "name");
    assert_eq!(portable_name("..."), "_");
    assert_eq!(portable_name(""), "_");
    assert_eq!(portable_name("con.txt"), "_con.txt");
    assert_eq!(portable_name("Lpt9"), "_Lpt9");
    assert_eq!(portable_name("COM0"), "COM0");
    assert_eq!(portable_name(".aux"), ".aux");
    assert_eq!(portable_name("aux.tar.gz"), "aux.tar.gz");
}

#[test]
fn unique_names_number_repeats_before_the_extension() {
    let mut used = Vec::new();
    assert_eq!(unique_name("photo.png", &mut used), "photo.png");
    assert_eq!(unique_name("photo.png", &mut used), "photo (2).png");
    assert_eq!(unique_name("photo.png", &mut used), "photo (3).png");
    assert_eq!(unique_name("notes", &mut used), "notes");
    assert_eq!(unique_name("notes", &mut used), "notes (2)");
    assert_eq!(unique_name(".env", &mut used), ".env");
    assert_eq!(unique_name(".env", &mut used), ".env (2)");
    assert_eq!(used.len(), 7);
}

#[test]
fn file_headers_are_checked_entry_by_entry() {
    let hash = "a".repeat(64);
    let good = header(vec![entry("folder", 0, "", true), entry("folder/a.txt", 10, &hash, false)], 10);
    assert_eq!(validate_file_header(&good), Ok(()));
    let mut wrong_schema = header(vec![entry("a", 1, &hash, false)], 1);
    wrong_schema.schema_version = 2;
    assert_eq!(validate_file_header(&wrong_schema), Err(HeaderError::Invalid));
    assert_eq!(validate_file_header(&header(Vec::new(), 0)), Err(HeaderError::Invalid));
    assert_eq!(
        validate_file_header(&header(vec![entry("../a", 1, &hash, false)], 1)),
        Err(HeaderError::Path(PathError::Escaping))
    );
    assert_eq!(
        validate_file_header(&header(vec![entry("a", 1, &hash, false), entry("a", 1, &hash, false)], 2)),
        Err(HeaderError::DuplicatePath)
    );
    assert_eq!(validate_file_header(&header(vec![entry("d", 1, "", true)], 0)), Err(HeaderError::DirectoryFields));
    assert_eq!(validate_file_header(&header(vec![entry("a", 1, "xyz", false)], 1)), Err(HeaderError::HashFormat));
    assert_eq!(validate_file_header(&header(vec![entry("a", 1, &hash, false)], 2)), Err(HeaderError::SizeMismatch));
    assert_eq!(
        validate_file_header(&header(vec![entry("a", u64::MAX, &hash, false), entry("b", 1, &hash, false)], 1)),
        Err(HeaderError::SizeOverflow)
    );
}

#[test]
fn received_bundle_lists_each_top_level_item_once() {
    let hash = "b".repeat(64);
    let bundle = ReceivedFileBundle::new(
        "/tmp/incoming/bundle".to_string(),
        vec![
            entry("photos", 0, "", true),
            entry("photos/cat.png", 3, &hash, false),
            entry("notes.txt", 2, &hash, false),
            entry("photos/dog.png", 4, &hash, false),
        ],
    );
    assert_eq!(
        bundle.clipboard_paths(),
        strings(&["/tmp/incoming/bundle/notes.txt", "/tmp/incoming/bundle/photos"])
    );
    assert_eq!(bundle.display_names(), strings(&["notes.txt", "photos"]));
}
