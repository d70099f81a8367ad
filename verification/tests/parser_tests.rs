use swatchbook::parser::{markdown_events, parse_events, Document};
use swatchbook::token::{scan_color, ColorScan, ColorValue};

/// Parses Markdown whose colour tokens need no numeric evaluation.
fn parse(md: &str) -> Document {
    let events = markdown_events(md);
    let resolved = vec![None; events.len()];
    parse_events(&events, &resolved)
}

fn ready(s: &str) -> Option<ColorValue> {
    match scan_color(s) {
        Some(ColorScan::Ready(c)) => Some(c),
        Some(other) => panic!("unexpected scan {other:?}"),
        None => None,
    }
}

#[test]
fn extract_hex6() {
    assert_eq!(ready("#E53935"), Some(ColorValue::Rgba(0xE5, 0x39, 0x35, 255)));
}

#[test]
fn extract_hex3() {
    assert_eq!(ready("#f00"), Some(ColorValue::Rgba(0xff, 0x00, 0x00, 255)));
}

#[test]
fn extract_hex8_carries_alpha() {
    assert_eq!(ready("#3482e380"), Some(ColorValue::Rgba(0x34, 0x82, 0xe3, 0x80)));
}

#[test]
fn extract_hex4_shorthand_alpha() {
    assert_eq!(ready("#f008"), Some(ColorValue::Rgba(0xff, 0x00, 0x00, 0x88)));
}

#[test]
fn extract_rgb() {
    assert_eq!(ready("rgb(255, 0, 128)"), Some(ColorValue::Rgba(255, 0, 128, 255)));
}

#[test]
fn extract_rgba_keeps_alpha_text() {
    assert_eq!(
        scan_color("rgba(255, 0, 0, 0.5)"),
        Some(ColorScan::RgbAlpha(255, 0, 0, "0.5".to_string()))
    );
}

#[test]
fn extract_hsl_keeps_argument_text() {
    assert_eq!(
        scan_color("hsl(0, 100%, 50%)"),
        Some(ColorScan::Hsl("0".into(), "100".into(), "50".into(), None))
    );
    assert_eq!(
        scan_color(" hsla(210deg , 0% ,50%, 0.3 ) "),
        Some(ColorScan::Hsl("210".into(), "0".into(), "50".into(), Some("0.3".into())))
    );
}

#[test]
fn extract_transparent_keyword() {
    assert_eq!(ready("transparent"), Some(ColorValue::Rgba(0, 0, 0, 0)));
}

#[test]
fn extract_extended_named_color() {
    assert_eq!(ready("rebeccapurple").map(|c| c.to_rgb()), Some((102, 51, 153)));
}

#[test]
fn extract_named_red() {
    let c = ready("red").unwrap();
    assert_eq!(c.to_rgb(), (255, 0, 0));
}

#[test]
fn extract_unknown_returns_none() {
    assert_eq!(scan_color("notacolor"), None);
    assert_eq!(scan_color("#gg0000"), None);
    assert_eq!(scan_color("#12345"), None);
}

#[test]
fn to_hex_string_normalises() {
    assert_eq!(ColorValue::Rgba(0x3A, 0x82, 0xE3, 255).to_hex_string(), "#3a82e3");
    assert_eq!(ColorValue::Named("blue".into()).to_hex_string(), "#0000ff");
}

#[test]
fn to_hex_string_includes_alpha_when_translucent() {
    assert_eq!(ColorValue::Rgba(0x34, 0x82, 0xe3, 0x80).to_hex_string(), "#3482e380");
}

#[test]
fn empty_document() {
    let doc = parse("");
    assert!(doc.sections.is_empty());
    assert_eq!(doc.all_swatches().len(), 0);
}

#[test]
fn single_section_two_swatches() {
    let md = "# Palette\n\n- **Red** — `#E53935`\n- **Blue** — `#3482E3`\n";
    let doc = parse(md);
    assert_eq!(doc.sections.len(), 1);
    let s = &doc.sections[0];
    assert_eq!(s.heading, "Palette");
    assert_eq!(s.swatches.len(), 2);
    assert_eq!(s.swatches[0].color, ColorValue::Rgba(0xE5, 0x39, 0x35, 255));
    assert_eq!(s.swatches[1].color, ColorValue::Rgba(0x34, 0x82, 0xE3, 255));
}

#[test]
fn two_sections() {
    let md = "# Palette\n\n- Red — `#ff0000`\n\n## Typography\n\n- Body — `rgb(30, 30, 30)`\n";
    let doc = parse(md);
    assert_eq!(doc.sections.len(), 2);
    assert_eq!(doc.sections[1].swatches[0].color, ColorValue::Rgba(30, 30, 30, 255));
}

#[test]
fn all_swatches_flattens() {
    let md = "# A\n\n- `#ff0000`\n\n# B\n\n- `#00ff00`\n- `#0000ff`\n";
    let doc = parse(md);
    assert_eq!(doc.all_swatches().len(), 3);
}

#[test]
fn label_strips_bold_markers() {
    let doc = parse("# P\n\n- **Primary** — `#ff0000`\n");
    assert_eq!(doc.sections[0].swatches[0].name, "Primary");
}

#[test]
fn label_strips_trailing_dash_and_em_dash() {
    let doc = parse("# P\n\n- Background — `#ffffff`\n");
    assert_eq!(doc.sections[0].swatches[0].name, "Background");
}

#[test]
fn label_strips_italic_markers() {
    let doc = parse("# P\n\n- *Accent* `#aabbcc`\n");
    assert_eq!(doc.sections[0].swatches[0].name, "Accent");
}

#[test]
fn item_with_no_text_falls_back_to_normalised_hex() {
    let doc = parse("# P\n\n- `#E53935`\n");
    assert_eq!(doc.sections[0].swatches[0].name, "#e53935");
}

#[test]
fn last_color_token_wins_in_item() {
    let doc = parse("# P\n\n- See `#ff0000` or `#00ff00`\n");
    assert_eq!(doc.sections[0].swatches[0].color, ColorValue::Rgba(0x00, 0xff, 0x00, 255));
}

#[test]
fn item_without_color_is_ignored() {
    let doc = parse("# P\n\n- No colour here\n- Red `#ff0000`\n");
    assert_eq!(doc.sections[0].swatches.len(), 1);
    assert_eq!(doc.sections[0].swatches[0].name, "Red");
}

#[test]
fn resolved_value_is_used_for_numeric_forms() {
    let md = "# P\n\n- Fade `rgba(255, 0, 0, 0.5)`\n- Odd `hsl(x, y, z)`\n";
    let events = markdown_events(md);
    let resolved: Vec<Option<ColorValue>> = events
        .iter()
        .map(|e| match e {
            swatchbook::parser::MdEvent::Code(t) if t.starts_with("rgba") => {
                Some(ColorValue::Rgba(255, 0, 0, 128))
            }
            _ => None,
        })
        .collect();
    let doc = parse_events(&events, &resolved);
    assert_eq!(doc.sections[0].swatches.len(), 1);
    assert_eq!(doc.sections[0].swatches[0].name, "Fade");
    assert_eq!(doc.sections[0].swatches[0].color, ColorValue::Rgba(255, 0, 0, 128));
}

#[test]
fn heading_code_is_heading_text() {
    let doc = parse("# Brand `v2`\n\n- Ink `black`\n");
    assert_eq!(doc.sections[0].heading, "Brand v2");
    assert_eq!(doc.sections[0].swatches[0].color, ColorValue::Named("black".into()));
}

#[test]
fn heading_without_swatches_is_kept() {
    let doc = parse("# Empty\n\n# Full\n\n- `#000`\n");
    assert_eq!(doc.sections.len(), 2);
    assert_eq!(doc.sections[0].heading, "Empty");
    assert!(doc.sections[0].swatches.is_empty());
}

#[test]
fn bare_inline_color_outside_list_is_extracted() {
    let doc = parse("`rgb(30, 30, 30)`\n");
    assert_eq!(doc.sections.len(), 1);
    assert_eq!(doc.sections[0].heading, "");
    assert_eq!(doc.sections[0].swatches.len(), 1);
    assert_eq!(doc.sections[0].swatches[0].name, "#1e1e1e");
    assert_eq!(doc.sections[0].swatches[0].color, ColorValue::Rgba(30, 30, 30, 255));
}

#[test]
fn paragraph_color_takes_paragraph_text_as_name() {
    let doc = parse("# Base\n\nBackground — `#ffffff`\n\nJust prose.\n\n- Ink `#000000`\n");
    assert_eq!(doc.sections.len(), 1);
    let s = &doc.sections[0].swatches;
    assert_eq!(s.len(), 2);
    assert_eq!(s[0].name, "Background");
    assert_eq!(s[0].color, ColorValue::Rgba(255, 255, 255, 255));
    assert_eq!(s[1].name, "Ink");
}

#[test]
fn loose_list_item_gives_one_swatch() {
    let doc = parse("# P\n\n- Red `#ff0000`\n\n- Blue `#0000ff`\n");
    let s = &doc.sections[0].swatches;
    assert_eq!(s.len(), 2);
    assert_eq!(s[0].name, "Red");
    assert_eq!(s[1].name, "Blue");
}
