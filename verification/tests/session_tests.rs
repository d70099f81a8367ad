use swatchbook::document::Document;
use swatchbook::highlight::{highlight_spans, Highlight};
use swatchbook::session::{
    clamp_focus, close_after_save, close_needs_prompt, close_response, copied_message,
    css_copied_message, focus_next, focus_prev, language_code, language_index,
    tailwind_copied_message, CloseResponse,
};

#[test]
fn focus_moves_forward_and_wraps() {
    assert_eq!(focus_next(None, 3), 0);
    assert_eq!(focus_next(Some(0), 3), 1);
    assert_eq!(focus_next(Some(2), 3), 0);
    assert_eq!(focus_next(Some(7), 3), 2);
}

#[test]
fn focus_moves_back_and_wraps() {
    assert_eq!(focus_prev(None, 3), 2);
    assert_eq!(focus_prev(Some(0), 3), 2);
    assert_eq!(focus_prev(Some(2), 3), 1);
}

#[test]
fn focus_forward_then_back_returns() {
    for count in 1..6usize {
        for i in 0..count {
            assert_eq!(focus_prev(Some(focus_next(Some(i), count)), count), i);
            assert_eq!(focus_next(Some(focus_prev(Some(i), count)), count), i);
        }
    }
}

#[test]
fn focus_is_clamped_after_reparse() {
    assert_eq!(clamp_focus(Some(5), 3), Some(2));
    assert_eq!(clamp_focus(Some(5), 0), None);
    assert_eq!(clamp_focus(Some(1), 3), Some(1));
    assert_eq!(clamp_focus(None, 3), None);
}

#[test]
fn close_prompt_only_for_unsaved_changes() {
    assert!(close_needs_prompt(false, true));
    assert!(!close_needs_prompt(true, true));
    assert!(!close_needs_prompt(false, false));
}

#[test]
fn close_responses() {
    assert_eq!(close_response("discard"), CloseResponse::Discard);
    assert_eq!(close_response("save"), CloseResponse::Save);
    assert_eq!(close_response("cancel"), CloseResponse::Cancel);
    assert_eq!(close_response("Save"), CloseResponse::Cancel);
    assert_eq!(close_response(""), CloseResponse::Cancel);
}

#[test]
fn close_after_save_needs_a_path() {
    assert!(close_after_save(true, false));
    assert!(!close_after_save(false, false));
    assert!(!close_after_save(true, true));
}

#[test]
fn language_menu_positions() {
    assert_eq!(language_index(""), 0);
    assert_eq!(language_index("en"), 1);
    assert_eq!(language_index("es"), 2);
    assert_eq!(language_index("fr"), 3);
    assert_eq!(language_index("de"), 4);
    assert_eq!(language_index("pt"), 0);
    assert_eq!(language_code(0), "");
    assert_eq!(language_code(3), "fr");
    assert_eq!(language_code(9), "");
    for i in 0..5u32 {
        assert_eq!(language_index(language_code(i)), i);
    }
}

#[test]
fn feedback_messages() {
    assert_eq!(css_copied_message(1), "1 CSS variable copied.");
    assert_eq!(css_copied_message(0), "0 CSS variables copied.");
    assert_eq!(css_copied_message(12), "12 CSS variables copied.");
    assert_eq!(tailwind_copied_message(1), "Tailwind config with 1 colour copied.");
    assert_eq!(tailwind_copied_message(3), "Tailwind config with 3 colours copied.");
    assert_eq!(copied_message("#ff0000"), "Copied #ff0000");
}

#[test]
fn highlight_headings_and_code_spans() {
    let text = "# Colors\n- **Red** — `#ff0000` and `x`\nplain ` only one\n## Sub `a`";
    let h = highlight_spans(text);
    assert_eq!(
        h,
        vec![
            Highlight::Heading { line: 0 },
            Highlight::Code { line: 1, start: 12, end: 21 },
            Highlight::Code { line: 1, start: 26, end: 29 },
            Highlight::Heading { line: 3 },
            Highlight::Code { line: 3, start: 7, end: 10 },
        ]
    );
}

#[test]
fn highlight_empty_and_unclosed() {
    assert_eq!(highlight_spans(""), vec![]);
    assert_eq!(highlight_spans("`"), vec![]);
    assert_eq!(highlight_spans("``"), vec![Highlight::Code { line: 0, start: 0, end: 2 }]);
    assert_eq!(
        highlight_spans("a```b"),
        vec![Highlight::Code { line: 0, start: 1, end: 3 }]
    );
}

#[test]
fn crash_recovery_needs_both_files() {
    assert!(Document::has_crash_recovery(true, true));
    assert!(!Document::has_crash_recovery(true, false));
    assert!(!Document::has_crash_recovery(false, true));
}

#[test]
fn loaded_and_recovered_documents() {
    let d = Document::from_file("/tmp/p.md".to_string(), "# P".to_string());
    assert_eq!(d.content, "# P");
    assert_eq!(d.title(), "p.md");
    assert!(!d.is_modified);
    let r = Document::recover("# R".to_string());
    assert_eq!(r.content, "# R");
    assert!(r.path.is_none());
    assert!(r.is_modified);
    assert_eq!(r.window_title(), "• Untitled — Swatchbook");
}

#[test]
fn palette_name_drops_md_extension() {
    let d = Document::from_file("/tmp/brand.md".to_string(), String::new());
    assert_eq!(d.palette_name(), "brand");
    let u = Document::new();
    assert_eq!(u.palette_name(), "Untitled");
}
