use airdrop::capture::{
    capture_local_clipboard, capture_local_files, initial_capture_state, capture_local_image, capture_local_rich, clear_import_suppression,
    record_files_published, report_clipboard_limitation, report_clipboard_recovered, suppress_import, CaptureOutcome,
    CaptureState,
};
use airdrop::delivery::ContentPermissions;
use airdrop::imports::RemoteClipboardBody;
use airdrop::views::{ClipboardCapability, CurrentClipboard};

fn state() -> CaptureState {
    CaptureState {
        current_clipboard: CurrentClipboard {
            source: "remote".into(),
            source_label: "earlier".into(),
            preview: "earlier".into(),
            image_preview: None,
            file_names: None,
            types: Vec::new(),
            changed_at: "t0".into(),
        },
        last_published_preview: "none".into(),
        last_synchronized_at: "t0".into(),
        capability: ClipboardCapability { can_read_text: false, can_write_text: true, foreground_capture: false, limitation: Some("x".into()) },
        suppress_text: None,
        suppress_rich: None,
        suppress_files: None,
        suppress_image: None,
    }
}

fn allow_all() -> ContentPermissions {
    ContentPermissions { allow_text: true, allow_html: true, allow_images: true, allow_urls: true, allow_files: true }
}

#[test]
fn captured_text_is_shown_and_published_by_type() {
    let mut s = state();
    let outcome = capture_local_clipboard(&mut s, &allow_all(), false, "https://example.com".into(), "t1".into());
    assert!(matches!(outcome, CaptureOutcome::PublishText("url")));
    assert_eq!(s.current_clipboard.source, "local");
    assert_eq!(s.current_clipboard.source_label, "来自本机系统剪贴板");
    assert_eq!(s.current_clipboard.types, vec!["URL".to_string()]);
    assert_eq!(s.last_published_preview, "本机最近捕获：https://example.com");
    assert_eq!(s.last_synchronized_at, "t1");
    assert!(s.capability.can_read_text && s.capability.foreground_capture && s.capability.limitation.is_none());
    let mut paused = state();
    let outcome = capture_local_clipboard(&mut paused, &allow_all(), true, "hello".into(), "t1".into());
    assert!(matches!(outcome, CaptureOutcome::Recorded));
    assert_eq!(paused.current_clipboard.preview, "hello");
    assert_eq!(paused.last_published_preview, "none");
}

#[test]
fn blank_and_oversized_text_is_not_captured() {
    let mut s = state();
    assert!(matches!(capture_local_clipboard(&mut s, &allow_all(), false, "  \n".into(), "t1".into()), CaptureOutcome::Ignored));
    assert_eq!(s.current_clipboard.preview, "earlier");
    let big = "x".repeat(1024 * 1024 + 1);
    assert!(matches!(capture_local_clipboard(&mut s, &allow_all(), false, big, "t1".into()), CaptureOutcome::Reported));
    assert_eq!(s.capability.limitation.as_deref(), Some("文本剪贴板超过 1 MiB，已跳过同步"));
    assert!(!s.capability.can_read_text);
    report_clipboard_recovered(&mut s);
    assert!(s.capability.can_read_text && s.capability.limitation.is_none());
    report_clipboard_limitation(&mut s, "no files".into());
    assert!(s.capability.can_read_text);
    assert_eq!(s.capability.limitation.as_deref(), Some("no files"));
}

#[test]
fn imported_content_is_not_published_back_once() {
    let mut s = state();
    suppress_import(&mut s, &RemoteClipboardBody::Text("from phone".into()));
    let outcome = capture_local_clipboard(&mut s, &allow_all(), false, "from phone".into(), "t1".into());
    assert!(matches!(outcome, CaptureOutcome::Recorded));
    assert_eq!(s.current_clipboard.preview, "earlier");
    assert!(s.suppress_text.is_none());
    let again = capture_local_clipboard(&mut s, &allow_all(), false, "from phone".into(), "t2".into());
    assert!(matches!(again, CaptureOutcome::PublishText("text")));
    let image = RemoteClipboardBody::Image { rgba: vec![0u8; 4], width: 1, height: 1 };
    suppress_import(&mut s, &image);
    assert!(s.suppress_image.is_some());
    clear_import_suppression(&mut s, &image);
    assert!(s.suppress_image.is_none());
}

#[test]
fn rich_text_is_published_as_html_with_an_allowed_fallback() {
    let mut s = state();
    let outcome = capture_local_rich(&mut s, &allow_all(), false, "plain".into(), Some("<b>plain</b>".into()), None, "t1".into());
    assert!(matches!(outcome, CaptureOutcome::PublishRich { text_fallback: Some("text") }));
    assert_eq!(s.current_clipboard.types, vec!["富文本 / HTML".to_string(), "纯文本降级".to_string()]);
    let mut no_html = allow_all();
    no_html.allow_html = false;
    let mut s = state();
    let outcome = capture_local_rich(&mut s, &no_html, false, "plain".into(), Some("<b>plain</b>".into()), None, "t1".into());
    assert!(matches!(outcome, CaptureOutcome::PublishText("text")));
    let mut s = state();
    let plain = capture_local_rich(&mut s, &allow_all(), false, "plain".into(), None, None, "t1".into());
    assert!(matches!(plain, CaptureOutcome::PublishText("text")));
    assert_eq!(s.current_clipboard.types, vec!["纯文本".to_string()]);
    suppress_import(&mut s, &RemoteClipboardBody::Rich { text: "r".into(), html: Some("<i>r</i>".into()), rtf: None });
    let back = capture_local_rich(&mut s, &allow_all(), false, "r".into(), Some("<i>r</i>".into()), None, "t2".into());
    assert!(matches!(back, CaptureOutcome::Recorded));
}

#[test]
fn copied_files_are_shown_by_name_and_published_once_staged() {
    let mut s = state();
    let outcome = capture_local_files(&mut s, &allow_all(), false, vec!["/home/a/x.txt".into(), "/home/a/dir".into()], "t1".into());
    assert!(matches!(outcome, CaptureOutcome::PublishFiles));
    assert_eq!(s.current_clipboard.preview, "2 个文件或目录");
    assert_eq!(s.current_clipboard.file_names, Some(vec!["x.txt".to_string(), "dir".to_string()]));
    assert_eq!(s.last_published_preview, "none");
    record_files_published(&mut s, 2);
    assert_eq!(s.last_published_preview, "本机最近捕获：2 个文件或目录");
    assert!(matches!(capture_local_files(&mut s, &allow_all(), false, Vec::new(), "t2".into()), CaptureOutcome::Ignored));
}

#[test]
fn captured_images_are_checked_then_shown() {
    let mut s = state();
    assert_eq!(capture_local_image(&mut s, &allow_all(), false, vec![0u8; 15], 2, 2, "t1".into()).err().as_deref(), Some("系统剪贴板图片格式无效"));
    assert_eq!(capture_local_image(&mut s, &allow_all(), false, vec![], u32::MAX, u32::MAX, "t1".into()).err().as_deref(), Some("图片尺寸溢出"));
    assert_eq!(s.current_clipboard.preview, "earlier");
    let outcome = capture_local_image(&mut s, &allow_all(), false, vec![7u8; 16], 2, 2, "t1".into()).unwrap();
    assert!(matches!(outcome, CaptureOutcome::PublishImage));
    assert_eq!(s.current_clipboard.preview, "图片 · 2 × 2");
    assert!(s.current_clipboard.image_preview.is_some());
    assert_eq!(s.last_published_preview, "本机最近捕获：图片 2 × 2");
}

#[test]
fn nothing_is_shown_or_suppressed_before_the_first_capture() {
    let s = initial_capture_state();
    assert_eq!(s.current_clipboard.source, "unknown");
    assert_eq!(s.last_published_preview, "等待本机剪贴板变化");
    assert!(s.capability.can_read_text && s.capability.can_write_text);
    assert!(s.suppress_text.is_none() && s.suppress_image.is_none());
}
