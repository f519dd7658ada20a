use synapse::entry::{ClipboardEntry, EntryKind};
use synapse::present::{
    file_extension, format_size, is_code_text, kind_label, preview_text, LAST_SHOWN_MILLIS,
};

fn entry(kind: EntryKind, content: &str, mime: Option<&str>, device: Option<&str>, user: Option<&str>) -> ClipboardEntry {
    ClipboardEntry::new(
        kind,
        content.to_string(),
        mime.map(|m| m.to_string()),
        None,
        device.map(|d| d.to_string()),
        user.map(|u| u.to_string()),
        None,
    )
    .unwrap()
}

#[test]
fn sizes_in_bytes_kilobytes_and_megabytes() {
    assert_eq!(format_size(500), "500 B");
    assert_eq!(format_size(2048), "2.00 KB");
    assert_eq!(format_size(5 * 1024 * 1024), "5.00 MB");
}

#[test]
fn size_boundaries_and_rounding() {
    assert_eq!(format_size(0), "0 B");
    assert_eq!(format_size(1023), "1023 B");
    assert_eq!(format_size(1024), "1.00 KB");
    assert_eq!(format_size(1536), "1.50 KB");
    assert_eq!(format_size(1152), "1.12 KB");
    assert_eq!(format_size(1050), "1.03 KB");
    assert_eq!(format_size(1_048_575), "1024.00 KB");
    assert_eq!(format_size(1_048_576), "1.00 MB");
    assert_eq!(format_size(1_572_864), "1.50 MB");
}

#[test]
fn size_label_of_unknown_size() {
    let e = entry(EntryKind::Text, "x", None, None, None);
    assert_eq!(e.size_label(), "Unknown");
    let s = ClipboardEntry::new(EntryKind::Text, "x".to_string(), None, None, None, None, Some(2048))
        .unwrap();
    assert_eq!(s.size_label(), "2.00 KB");
}

#[test]
fn git_command_is_code_and_prose_is_not() {
    assert!(is_code_text("notes\ngit commit -m \"x\"\nmore"));
    assert!(!is_code_text("hello world"));
}

#[test]
fn code_heuristic_cases() {
    assert!(is_code_text("# heading"));
    assert!(is_code_text("intro\n// comment"));
    assert!(is_code_text("run $ make"));
    assert!(is_code_text("const x = 1;"));
    assert!(!is_code_text("a # not at line start"));
    assert!(!is_code_text("price $5 each"));
    assert!(!is_code_text(""));
}

#[test]
fn only_text_entries_are_code() {
    let t = entry(EntryKind::Text, "npm install", None, None, None);
    assert!(t.is_code());
    let h = entry(EntryKind::Html, "npm install", None, None, None);
    assert!(!h.is_code());
}

#[test]
fn kind_labels() {
    assert_eq!(kind_label(EntryKind::Text), "Text");
    assert_eq!(kind_label(EntryKind::Html), "HTML");
    assert_eq!(kind_label(EntryKind::Image), "Image");
}

#[test]
fn extensions_by_kind_and_mime() {
    assert_eq!(file_extension(EntryKind::Image, "image/png"), "png");
    assert_eq!(file_extension(EntryKind::Image, "image/jpg"), "jpg");
    assert_eq!(file_extension(EntryKind::Image, "image/jpeg"), "jpg");
    assert_eq!(file_extension(EntryKind::Image, "image/gif"), "gif");
    assert_eq!(file_extension(EntryKind::Image, "image/webp"), "webp");
    assert_eq!(file_extension(EntryKind::Image, "image/svg+xml"), "svg");
    assert_eq!(file_extension(EntryKind::Image, "image/bmp"), "png");
    assert_eq!(file_extension(EntryKind::Html, "text/html"), "html");
    assert_eq!(file_extension(EntryKind::Text, "text/plain"), "txt");
}

#[test]
fn file_name_sanitises_names() {
    let e = entry(EntryKind::Text, "x", None, Some("My Mac/Pro"), Some(" bob smith\n"));
    assert_eq!(
        e.file_name_with(Some("20240101_120000".to_string())),
        "20240101_120000_My_Mac_Pro__bob_smith.txt"
    );
    let back = entry(EntryKind::Text, "x", None, Some("a\\b"), Some("\tcarol\t"));
    assert_eq!(back.file_name_with(None), "unknown_time_a_b_carol.txt");
}

#[test]
fn file_name_of_unknown_origin() {
    let e = entry(EntryKind::Image, "QUJD", Some("image/jpeg"), None, None);
    assert_eq!(e.file_name_with(None), "unknown_time_unknown_device_unknown_user.jpg");
    assert_eq!(e.download_file_name(), "unknown_time_unknown_device_unknown_user.jpg");
}

#[test]
fn download_name_is_stamped_when_time_is_known() {
    let e = ClipboardEntry::new(
        EntryKind::Html,
        "<p>x</p>".to_string(),
        None,
        Some(1_700_000_000_000),
        Some("pc".to_string()),
        Some("dan".to_string()),
        None,
    )
    .unwrap();
    let name = e.download_file_name();
    assert!(name.ends_with("_pc_dan.html"));
    let stamp = &name[..name.len() - "_pc_dan.html".len()];
    assert_eq!(stamp.len(), 15);
    assert!(stamp.starts_with("2023111"));
    assert_ne!(e.time_label(), "Unknown");
    assert!(e.time_label().starts_with("2023-11-1"));
}

#[test]
fn time_label_of_unknown_time() {
    let e = entry(EntryKind::Text, "x", None, None, None);
    assert_eq!(e.time_label(), "Unknown");
}

#[test]
fn preview_keeps_ten_lines() {
    let text: String = (1..=12).map(|i| format!("line{}\r\n", i)).collect();
    let (shown, cut) = preview_text(&text);
    assert!(cut);
    let expected: Vec<String> = (1..=10).map(|i| format!("line{}", i)).collect();
    assert_eq!(shown, expected.join("\n"));
}

#[test]
fn preview_of_ten_lines_is_whole() {
    let text: String = (1..=10).map(|i| format!("l{}\n", i)).collect();
    assert_eq!(preview_text(&text), (text.clone(), false));
}

#[test]
fn preview_cuts_long_text_by_characters() {
    let long = "a".repeat(2000);
    let (shown, cut) = preview_text(&long);
    assert!(cut);
    assert_eq!(shown, "a".repeat(1500));
    let wide = "é".repeat(800);
    assert_eq!(preview_text(&wide), (wide.clone(), true));
    let short = "é".repeat(700);
    assert_eq!(preview_text(&short), (short.clone(), false));
}

#[test]
fn full_view_for_images_and_long_text() {
    let i = entry(EntryKind::Image, "QUJD", None, None, None);
    assert!(i.needs_full_view());
    let t = entry(EntryKind::Text, "short", None, None, None);
    assert!(!t.needs_full_view());
    let long = entry(EntryKind::Html, &"b".repeat(1600), None, None, None);
    assert!(long.needs_full_view());
    assert_eq!(long.preview().0.len(), 1500);
}

#[test]
fn known_times_are_shown() {
    for ms in [0, 1_700_000_000_000, LAST_SHOWN_MILLIS] {
        let e = ClipboardEntry::new(EntryKind::Text, "x".to_string(), None, Some(ms), None, None, None)
            .unwrap();
        let label = e.time_label();
        assert_ne!(label, "Unknown");
        assert!(label.len() >= 15);
        assert!(!e.download_file_name().starts_with("unknown_time"));
    }
}
