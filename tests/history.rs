use synapse::capture::{normalize_capture, CaptureMeta};
use synapse::entry::{ClipboardEntry, EntryError, EntryKind};
use synapse::history::{HistoryError, HistoryStore};

fn meta() -> CaptureMeta {
    CaptureMeta {
        captured_at: Some(1_700_000_000_000),
        device: Some("laptop".to_string()),
        user: Some("alice".to_string()),
    }
}

fn text_entry(s: &str) -> ClipboardEntry {
    ClipboardEntry::new(EntryKind::Text, s.to_string(), None, None, None, None, None).unwrap()
}

fn contents(v: &[ClipboardEntry]) -> Vec<String> {
    v.iter().map(|e| e.content().to_string()).collect()
}

#[test]
fn blank_text_is_never_captured() {
    for t in ["", " ", "\n\t  \r\n", "\u{3000}\u{a0}"] {
        assert!(normalize_capture(None, Some(t.to_string()), meta()).is_none());
        let mut store = HistoryStore::new();
        assert!(!store.capture(None, Some(t.to_string()), meta()));
        assert_eq!(store.len(), 0);
    }
}

#[test]
fn failed_reads_capture_nothing() {
    let mut store = HistoryStore::new();
    assert!(!store.capture(None, None, meta()));
    assert!(store.is_empty());
}

#[test]
fn text_capture_keeps_content_and_counts_utf8_bytes() {
    let e = normalize_capture(None, Some("  héllo ".to_string()), meta()).unwrap();
    assert_eq!(e.kind(), EntryKind::Text);
    assert_eq!(e.content(), "  héllo ");
    assert_eq!(e.mime_type(), Some("text/plain"));
    assert_eq!(e.byte_size(), Some(9));
    assert_eq!(e.captured_at(), Some(1_700_000_000_000));
    assert_eq!(e.origin_device(), Some("laptop"));
    assert_eq!(e.origin_user(), Some("alice"));
}

#[test]
fn image_of_300_bytes_is_one_image_entry() {
    let image = "A".repeat(400);
    let mut store = HistoryStore::new();
    let before = store.len();
    assert!(store.capture(Some(image.clone()), Some("also some text".to_string()), meta()));
    assert_eq!(store.len(), before + 1);
    let e = store.get(0).unwrap();
    assert_eq!(e.kind(), EntryKind::Image);
    assert_eq!(e.byte_size(), Some(300));
    assert_eq!(e.mime_type(), Some("image/png"));
    assert_eq!(e.content(), image);
    let texts = store
        .snapshot_reversed()
        .iter()
        .filter(|e| e.kind() == EntryKind::Text)
        .count();
    assert_eq!(texts, 0);
}

#[test]
fn image_size_discounts_padding() {
    let one = normalize_capture(Some("QQ==".to_string()), None, meta()).unwrap();
    assert_eq!(one.byte_size(), Some(1));
    let two = normalize_capture(Some("QUI=".to_string()), None, meta()).unwrap();
    assert_eq!(two.byte_size(), Some(2));
    let three = normalize_capture(Some("QUJD".to_string()), None, meta()).unwrap();
    assert_eq!(three.byte_size(), Some(3));
}

#[test]
fn blank_image_falls_back_to_text() {
    let e = normalize_capture(Some("  ".to_string()), Some("hi".to_string()), meta()).unwrap();
    assert_eq!(e.kind(), EntryKind::Text);
    assert_eq!(e.content(), "hi");
}

#[test]
fn empty_names_are_stored_as_unknown() {
    let m = CaptureMeta { captured_at: None, device: Some(String::new()), user: Some(String::new()) };
    let e = normalize_capture(None, Some("x".to_string()), m).unwrap();
    assert_eq!(e.origin_device(), None);
    assert_eq!(e.origin_user(), None);
    assert_eq!(e.device_label(), "Unknown");
    assert_eq!(e.user_label(), "Unknown");
}

#[test]
fn image_with_text_mime_is_rejected() {
    let r = ClipboardEntry::new(
        EntryKind::Image,
        "QUJD".to_string(),
        Some("text/plain".to_string()),
        None,
        None,
        None,
        None,
    );
    assert_eq!(r.err(), Some(EntryError::MimeMismatch));
    let ok = ClipboardEntry::new(
        EntryKind::Image,
        "QUJD".to_string(),
        Some("image/jpeg".to_string()),
        None,
        None,
        None,
        None,
    );
    assert!(ok.is_ok());
    let text = ClipboardEntry::new(
        EntryKind::Text,
        "x".to_string(),
        Some("text/plain".to_string()),
        None,
        None,
        None,
        None,
    );
    assert!(text.is_ok());
}

#[test]
fn blank_content_is_rejected() {
    let r = ClipboardEntry::new(EntryKind::Html, " \n".to_string(), None, None, None, None, None);
    assert_eq!(r.err(), Some(EntryError::BlankContent));
}

#[test]
fn effective_mime_defaults_by_kind() {
    assert_eq!(text_entry("a").effective_mime(), "text/plain");
    let h = ClipboardEntry::new(EntryKind::Html, "<b>x</b>".to_string(), None, None, None, None, None)
        .unwrap();
    assert_eq!(h.effective_mime(), "text/html");
    let i = ClipboardEntry::new(EntryKind::Image, "QUJD".to_string(), None, None, None, None, None)
        .unwrap();
    assert_eq!(i.effective_mime(), "image/png");
}

#[test]
fn snapshot_is_reverse_of_storage_order() {
    let mut store = HistoryStore::new();
    for s in ["one", "two", "three", "two"] {
        store.append(text_entry(s));
    }
    assert_eq!(contents(&store.snapshot_reversed()), vec!["two", "three", "two", "one"]);
    assert_eq!(store.len(), 4);
    assert_eq!(store.delete_at(0).unwrap().content(), "one");
    assert!(store.delete_at(7).is_err());
    assert_eq!(store.len(), 3);
    assert_eq!(store.snapshot_reversed().len(), 3);
    assert_eq!(contents(&store.snapshot_reversed()), vec!["two", "three", "two"]);
}

#[test]
fn delete_keeps_order_of_the_others() {
    let mut store = HistoryStore::new();
    for s in ["a", "b", "c", "d"] {
        store.append(text_entry(s));
    }
    let removed = store.delete_at(1).unwrap();
    assert_eq!(removed.content(), "b");
    let snap = contents(&store.snapshot_reversed());
    assert_eq!(snap, vec!["d", "c", "a"]);
    assert!(!snap.contains(&"b".to_string()));
}

#[test]
fn delete_out_of_range_leaves_history() {
    let mut store = HistoryStore::new();
    assert_eq!(store.delete_at(0).err(), Some(HistoryError::IndexOutOfRange));
    store.append(text_entry("a"));
    assert_eq!(store.delete_at(1).err(), Some(HistoryError::IndexOutOfRange));
    assert_eq!(store.len(), 1);
}

#[test]
fn display_index_maps_to_storage_index() {
    let mut store = HistoryStore::new();
    for s in ["a", "b", "c"] {
        store.append(text_entry(s));
    }
    assert_eq!(store.storage_index(0), Some(2));
    assert_eq!(store.storage_index(2), Some(0));
    assert_eq!(store.storage_index(3), None);
    let idx = store.storage_index(0).unwrap();
    assert_eq!(store.delete_at(idx).unwrap().content(), "c");
}
