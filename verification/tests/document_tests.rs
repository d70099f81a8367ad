use swatchbook::document::{Document, DocumentError};

#[test]
fn new_document_is_untitled_unmodified() {
    let doc = Document::new();
    assert_eq!(doc.title(), "Untitled");
    assert!(!doc.is_modified);
}

#[test]
fn window_title_without_modification() {
    let doc = Document::new();
    assert_eq!(doc.window_title(), "Untitled — Swatchbook");
}

#[test]
fn window_title_with_modification() {
    let mut doc = Document::new();
    doc.is_modified = true;
    assert_eq!(doc.window_title(), "• Untitled — Swatchbook");
}

#[test]
fn save_without_path_returns_error() {
    let mut doc = Document::new();
    doc.content = "hello".to_string();
    assert!(doc.save().is_err());
    assert_eq!(doc.save(), Err(DocumentError::NoPath));
    assert_eq!(DocumentError::NoPath.message(), "no path set — use save_to");
}

#[test]
fn autosave_path_contains_swatchbook() {
    let p = Document::autosave_path(Some("/home/u/.local/share"), Some("/home/u"));
    assert!(p.contains("swatchbook"));
    assert!(p.ends_with("autosave.md"));
}

#[test]
fn autosave_path_falls_back_to_home_then_tmp() {
    assert_eq!(
        Document::autosave_path(None, Some("/home/u")),
        "/home/u/.local/share/swatchbook/autosave.md"
    );
    assert_eq!(
        Document::sentinel_path(None, None),
        "/tmp/.local/share/swatchbook/.running"
    );
    assert_eq!(
        Document::sentinel_path(Some("/data"), Some("/home/u")),
        "/data/swatchbook/.running"
    );
}

#[test]
fn save_targets_current_path_and_record_save_clears_modified() {
    let mut doc = Document::new();
    doc.is_modified = true;
    doc.record_save("/tmp/work/palette.md".to_string());
    assert!(!doc.is_modified);
    assert_eq!(doc.save(), Ok("/tmp/work/palette.md".to_string()));
    assert_eq!(doc.title(), "palette.md");
    assert_eq!(doc.window_title(), "palette.md — Swatchbook");
}

#[test]
fn title_of_path_without_file_name_is_untitled() {
    let mut doc = Document::new();
    doc.path = Some("/".to_string());
    assert_eq!(doc.title(), "Untitled");
    doc.path = Some("dir/..".to_string());
    assert_eq!(doc.title(), "Untitled");
}

#[test]
fn save_to_roundtrip() {
    let path = "/tmp/swatchbook_test/test.md".to_string();

    let mut doc = Document::new();
    doc.content = "# Hello\n\n- `#ff0000`\n".to_string();
    doc.is_modified = true;
    doc.record_save(path.clone());
    assert_eq!(doc.save(), Ok(path.clone()));

    // What a save writes is what a load reads back.
    let loaded = Document::from_file(path, doc.content.clone());
    assert_eq!(loaded.content, doc.content);
    assert_eq!(loaded.title(), "test.md");
    assert!(!loaded.is_modified);
}

#[test]
fn autosave_path_separators() {
    assert_eq!(Document::autosave_path(Some("/data/"), None), "/data/swatchbook/autosave.md");
    assert_eq!(Document::autosave_path(Some(""), None), "swatchbook/autosave.md");
}
