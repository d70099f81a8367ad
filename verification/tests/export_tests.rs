use swatchbook::renderer::json::is_json;
use swatchbook::renderer::{
    design_tokens_json_to_markdown, gpl_to_markdown, to_ase_palette, to_css_variables,
    to_design_tokens_json, to_gimp_palette, to_tailwind_config, RenderCard, SwatchItem,
};

fn color(name: &str, hex: &str, r: u8, g: u8, b: u8) -> RenderCard {
    RenderCard::Color(SwatchItem {
        name: name.to_string(),
        hex: hex.to_string(),
        r,
        g,
        b,
        a: 255,
    })
}

fn font(name: &str, family: &str, size_px: f64, weight: u16) -> RenderCard {
    RenderCard::Font {
        name: name.to_string(),
        family: family.to_string(),
        size_px: size_px.to_string(),
        weight,
        line_height: None,
        display: format!("{family} {size_px}px"),
    }
}

fn space(name: &str, value_px: f64, display: &str) -> RenderCard {
    RenderCard::Space {
        name: name.to_string(),
        value_px: value_px.to_string(),
        display: display.to_string(),
    }
}

fn radius(name: &str, value_px: f64, display: &str) -> RenderCard {
    RenderCard::Radius {
        name: name.to_string(),
        value_px: value_px.to_string(),
        display: display.to_string(),
    }
}

fn shadow(name: &str, css: &str) -> RenderCard {
    RenderCard::Shadow { name: name.to_string(), css: css.to_string() }
}

#[test]
fn json_color_token() {
    let cards = vec![color("Primary", "#3482e3", 0x34, 0x82, 0xe3)];
    let json = to_design_tokens_json(&cards);
    assert!(json.contains("\"primary\""), "got: {json}");
    assert!(json.contains("\"$type\": \"color\""), "got: {json}");
    assert!(json.contains("\"$value\": \"#3482e3\""), "got: {json}");
}

#[test]
fn json_font_token() {
    let cards = vec![RenderCard::Font {
        name: "Body".into(),
        family: "Inter".into(),
        size_px: 16.0f64.to_string(),
        weight: 400,
        line_height: Some(1.5f64.to_string()),
        display: "Inter 16px/1.5".into(),
    }];
    let json = to_design_tokens_json(&cards);
    assert!(json.contains("\"body\""), "got: {json}");
    assert!(json.contains("\"$type\": \"typography\""), "got: {json}");
    assert!(json.contains("\"fontFamily\": \"Inter\""), "got: {json}");
    assert!(json.contains("\"fontSize\": \"16px\""), "got: {json}");
    assert!(json.contains("\"fontWeight\": 400"), "got: {json}");
    assert!(json.contains("\"lineHeight\": 1.5"), "got: {json}");
}

#[test]
fn json_font_no_line_height() {
    let cards = vec![font("Heading", "Inter", 24.0, 700)];
    let json = to_design_tokens_json(&cards);
    assert!(!json.contains("lineHeight"), "should omit absent lineHeight: {json}");
}

#[test]
fn json_space_token() {
    let cards = vec![space("gap-md", 8.0, "8px")];
    let json = to_design_tokens_json(&cards);
    assert!(json.contains("\"gap-md\""), "got: {json}");
    assert!(json.contains("\"$type\": \"dimension\""), "got: {json}");
    assert!(json.contains("\"$value\": \"8px\""), "got: {json}");
}

#[test]
fn json_radius_token() {
    let cards = vec![radius("button", 6.0, "6px")];
    let json = to_design_tokens_json(&cards);
    assert!(json.contains("\"$type\": \"borderRadius\""), "got: {json}");
    assert!(json.contains("\"$value\": \"6px\""), "got: {json}");
}

#[test]
fn json_shadow_token() {
    let cards = vec![shadow("card", "0 2px 8px rgba(0,0,0,0.12)")];
    let json = to_design_tokens_json(&cards);
    assert!(json.contains("\"$type\": \"shadow\""), "got: {json}");
    assert!(json.contains("\"$value\": \"0 2px 8px rgba(0,0,0,0.12)\""), "got: {json}");
}

#[test]
fn json_all_token_types() {
    let cards = vec![
        color("Primary", "#3482e3", 0x34, 0x82, 0xe3),
        font("Body", "Inter", 16.0, 400),
        space("Gap", 8.0, "8px"),
        radius("Btn", 6.0, "6px"),
        shadow("Card", "0 2px 8px rgba(0,0,0,0.12)"),
    ];
    let json = to_design_tokens_json(&cards);
    assert!(json.starts_with('{'), "got: {json}");
    assert!(json.ends_with('}'), "got: {json}");
    assert!(!json.contains(",\n}"), "trailing comma: {json}");
}

#[test]
fn json_deduplicates_names() {
    let cards = vec![
        color("Primary", "#ff0000", 255, 0, 0),
        color("Primary", "#00ff00", 0, 255, 0),
    ];
    let json = to_design_tokens_json(&cards);
    assert!(json.contains("\"primary\""), "got: {json}");
    assert!(json.contains("\"primary-2\""), "got: {json}");
}

#[test]
fn json_empty_is_empty_object() {
    let json = to_design_tokens_json(&[]);
    assert!(json.starts_with('{') && json.ends_with('}'), "got: {json}");
    assert!(!json.contains('"'), "should have no keys: {json}");
}

#[test]
fn json_exact_document() {
    let cards = vec![
        color("Primary", "#3482e3", 0x34, 0x82, 0xe3),
        RenderCard::Font {
            name: "Body".into(),
            family: "My \"Sans\"".into(),
            size_px: "16".into(),
            weight: 400,
            line_height: Some("1.5".into()),
            display: "x".into(),
        },
        shadow("Card", "a \"b\""),
    ];
    let json = to_design_tokens_json(&cards);
    assert_eq!(
        json,
        "{\n  \"primary\": { \"$type\": \"color\", \"$value\": \"#3482e3\" },\n  \"body\": { \"$type\": \"typography\", \"$value\": { \"fontFamily\": \"My \\\"Sans\\\"\", \"fontSize\": \"16px\", \"fontWeight\": 400, \"lineHeight\": 1.5 } },\n  \"card\": { \"$type\": \"shadow\", \"$value\": \"a \\\"b\\\"\" }\n}"
    );
    assert_eq!(to_design_tokens_json(&[]), "{\n}");
}

#[test]
fn gimp_palette_header() {
    let cards = vec![color("Red", "#ff0000", 255, 0, 0)];
    let gpl = to_gimp_palette(&cards, "Test Palette");
    assert!(gpl.starts_with("GIMP Palette\n"), "got: {gpl}");
    assert!(gpl.contains("Name: Test Palette\n"), "got: {gpl}");
    assert!(gpl.contains("Columns: 5\n#\n"), "got: {gpl}");
}

#[test]
fn gimp_palette_color_line() {
    let cards = vec![color("Primary", "#3482e3", 0x34, 0x82, 0xe3)];
    let gpl = to_gimp_palette(&cards, "Tokens");
    assert!(gpl.contains("52") && gpl.contains("130") && gpl.contains("227"), "got: {gpl}");
    assert!(gpl.contains("Primary"), "got: {gpl}");
    assert!(gpl.ends_with(" 52 130 227\tPrimary\n"), "got: {gpl}");
}

#[test]
fn gimp_palette_skips_non_color_tokens() {
    let cards = vec![
        color("Red", "#ff0000", 255, 0, 0),
        font("Body", "Inter", 16.0, 400),
        space("Gap", 8.0, "8px"),
    ];
    let gpl = to_gimp_palette(&cards, "Tokens");
    let body: String = gpl.lines().skip(4).collect::<Vec<_>>().join("\n");
    assert!(body.contains("Red"), "got body: {body}");
    assert!(!body.contains("Body"), "font should be skipped: {body}");
    assert!(!body.contains("Gap"), "space should be skipped: {body}");
}

#[test]
fn tailwind_config_structure() {
    let cards = vec![color("Primary", "#3482e3", 0x34, 0x82, 0xe3)];
    let tw = to_tailwind_config(&cards);
    assert!(tw.contains("module.exports"), "got: {tw}");
    assert!(tw.contains("theme:"), "got: {tw}");
    assert!(tw.contains("colors:"), "got: {tw}");
    assert!(tw.contains("'primary': '#3482e3'"), "got: {tw}");
}

#[test]
fn tailwind_config_skips_non_color() {
    let cards = vec![
        color("Primary", "#3482e3", 0x34, 0x82, 0xe3),
        font("Body", "Inter", 16.0, 400),
        space("Gap", 8.0, "8px"),
    ];
    let tw = to_tailwind_config(&cards);
    assert!(tw.contains("primary"), "got: {tw}");
    assert!(!tw.contains("body"), "font should be skipped: {tw}");
    assert!(!tw.contains("gap"), "space should be skipped: {tw}");
}

#[test]
fn tailwind_config_deduplicates() {
    let cards = vec![
        color("Brand", "#ff0000", 255, 0, 0),
        color("Brand", "#00ff00", 0, 255, 0),
    ];
    let tw = to_tailwind_config(&cards);
    assert!(tw.contains("'brand'"), "got: {tw}");
    assert!(tw.contains("'brand-2'"), "got: {tw}");
}

#[test]
fn ase_magic_and_version() {
    let cards = vec![color("Red", "#ff0000", 255, 0, 0)];
    let ase = to_ase_palette(&cards);
    assert_eq!(&ase[0..4], b"ASEF", "magic bytes");
    assert_eq!(&ase[4..8], &[0x00, 0x01, 0x00, 0x00], "version 1.0");
}

#[test]
fn ase_block_count() {
    let cards = vec![color("Red", "#ff0000", 255, 0, 0), color("Blue", "#0000ff", 0, 0, 255)];
    let ase = to_ase_palette(&cards);
    let count = u32::from_be_bytes(ase[8..12].try_into().unwrap());
    assert_eq!(count, 2);
}

#[test]
fn ase_skips_non_color() {
    let cards = vec![color("Red", "#ff0000", 255, 0, 0), font("Body", "Inter", 16.0, 400)];
    let ase = to_ase_palette(&cards);
    let count = u32::from_be_bytes(ase[8..12].try_into().unwrap());
    assert_eq!(count, 1, "font should be skipped");
}

#[test]
fn ase_rgb_model_field() {
    let cards = vec![color("A", "#112233", 0x11, 0x22, 0x33)];
    let ase = to_ase_palette(&cards);
    let has_rgb = ase.windows(4).any(|w| w == b"RGB ");
    assert!(has_rgb, "should contain RGB  color model");
}

#[test]
fn ase_empty_produces_header_only() {
    let ase = to_ase_palette(&[]);
    assert_eq!(ase.len(), 12, "header only: magic(4) + version(4) + count(4)");
    let count = u32::from_be_bytes(ase[8..12].try_into().unwrap());
    assert_eq!(count, 0);
}

/// The bytes the reference encoder writes for one colour block.
fn reference_block(name: &str, r: u8, g: u8, b: u8) -> Vec<u8> {
    let units: Vec<u16> = name.encode_utf16().chain(std::iter::once(0)).collect();
    let name_bytes: Vec<u8> = units.iter().flat_map(|c| c.to_be_bytes()).collect();
    let block_len = 2u32 + name_bytes.len() as u32 + 4 + 12 + 2;
    let mut out = vec![0x00, 0x01];
    out.extend_from_slice(&block_len.to_be_bytes());
    out.extend_from_slice(&(units.len() as u16).to_be_bytes());
    out.extend_from_slice(&name_bytes);
    out.extend_from_slice(b"RGB ");
    out.extend_from_slice(&(r as f32 / 255.0).to_be_bytes());
    out.extend_from_slice(&(g as f32 / 255.0).to_be_bytes());
    out.extend_from_slice(&(b as f32 / 255.0).to_be_bytes());
    out.extend_from_slice(&[0x00, 0x02]);
    out
}

#[test]
fn ase_blocks_match_float_channels_for_every_value() {
    for v in 0..=255u8 {
        let cards = vec![color("Zoë 😀", "#000000", v, 255 - v, v / 2)];
        let ase = to_ase_palette(&cards);
        assert_eq!(&ase[12..], &reference_block("Zoë 😀", v, 255 - v, v / 2)[..], "value {v}");
    }
}

#[test]
fn gpl_basic_palette() {
    let gpl = "GIMP Palette\nName: My Colors\nColumns: 5\n#\n255   0   0\tRed\n  0 128   0\tGreen\n";
    let md = gpl_to_markdown(gpl);
    assert!(md.contains("# My Colors"), "got: {md}");
    assert!(md.contains("- **Red** — `#ff0000`"), "got: {md}");
    assert!(md.contains("- **Green** — `#008000`"), "got: {md}");
    assert_eq!(md, "# My Colors\n\n- **Red** — `#ff0000`\n- **Green** — `#008000`\n");
}

#[test]
fn gpl_default_name_when_missing() {
    let gpl = "GIMP Palette\n#\n255   0   0\tRed\n";
    let md = gpl_to_markdown(gpl);
    assert!(md.contains("# Imported Palette"), "got: {md}");
}

#[test]
fn gpl_skips_malformed_lines() {
    let gpl = "GIMP Palette\nName: Test\n#\nnot a color line\n255 0 0\tValid\n";
    let md = gpl_to_markdown(gpl);
    assert!(md.contains("Valid"), "got: {md}");
    assert_eq!(md, "# Test\n\n- **Valid** — `#ff0000`\n");
}

#[test]
fn gpl_handles_crlf_and_out_of_range() {
    let gpl = "GIMP Palette\r\nName: Win \r\n#\r\n1 2 3\tA\r\n256 0 0\tBig\r\n";
    assert_eq!(gpl_to_markdown(gpl), "# Win\n\n- **A** — `#010203`\n");
    assert_eq!(gpl_to_markdown(""), "# Imported Palette\n\n\n");
}

#[test]
fn gimp_palette_round_trips_through_import() {
    let cards = vec![color("Sky", "#3482e3", 0x34, 0x82, 0xe3), color("Ink", "#000000", 0, 0, 0)];
    let md = gpl_to_markdown(&to_gimp_palette(&cards, "Brand"));
    assert_eq!(md, "# Brand\n\n- **Sky** — `#3482e3`\n- **Ink** — `#000000`\n");
}

#[test]
fn json_import_color_token() {
    let json = r##"{"primary": {"$type": "color", "$value": "#3482e3"}}"##;
    let md = design_tokens_json_to_markdown(json).expect("should parse");
    assert!(md.contains("## Colors"), "got: {md}");
    assert!(md.contains("Primary"), "got: {md}");
    assert!(md.contains("#3482e3"), "got: {md}");
}

#[test]
fn json_import_dimension_token() {
    let json = r#"{"gap-md": {"$type": "dimension", "$value": "8px"}}"#;
    let md = design_tokens_json_to_markdown(json).expect("should parse");
    assert!(md.contains("## Spacing"), "got: {md}");
    assert!(md.contains("Gap Md"), "got: {md}");
    assert!(md.contains("8px"), "got: {md}");
}

#[test]
fn json_import_radius_token() {
    let json = r#"{"btn": {"$type": "borderRadius", "$value": "6px"}}"#;
    let md = design_tokens_json_to_markdown(json).expect("should parse");
    assert!(md.contains("radius: 6px"), "got: {md}");
}

#[test]
fn json_import_shadow_token() {
    let json = r#"{"card": {"$type": "shadow", "$value": "0 2px 8px rgba(0,0,0,0.12)"}}"#;
    let md = design_tokens_json_to_markdown(json).expect("should parse");
    assert!(md.contains("shadow: 0 2px 8px rgba(0,0,0,0.12)"), "got: {md}");
}

#[test]
fn json_import_returns_none_for_empty_object() {
    let md = design_tokens_json_to_markdown("{}");
    assert!(md.is_none(), "empty object should return None");
}

#[test]
fn json_import_kebab_to_title_case() {
    let json = r##"{"font-body-base": {"$type": "color", "$value": "#000"}}"##;
    let md = design_tokens_json_to_markdown(json).expect("should parse");
    assert!(md.contains("Font Body Base"), "got: {md}");
}

#[test]
fn json_import_full_document() {
    let json = r##"{
  "primary": { "$type": "color", "$value": "#3482e3" },
  "body_text": { "$type": "typography", "$value": { "fontFamily": "Inter", "fontSize": "16px", "fontWeight": "700", "lineHeight": "1.5" } },
  "list": [1, 2, {"x": "}"}],
  "n": 3,
  "gap": { "$type": "dimension", "$value": "8px" },
  "odd": { "$type": "unknown", "$value": "?" }
}"##;
    let md = design_tokens_json_to_markdown(json).expect("should parse");
    assert_eq!(
        md,
        "# Imported Design Tokens\n\n## Colors\n\n- **Primary** — `#3482e3`\n\n## Typography\n\n- **Body Text** — `font: Inter bold 16px/1.5`\n\n## Spacing\n\n- **Gap** — `8px`\n"
    );
}

#[test]
fn json_import_rejects_non_objects_and_unterminated_keys() {
    assert!(design_tokens_json_to_markdown("[]").is_none());
    assert!(design_tokens_json_to_markdown("").is_none());
    assert!(design_tokens_json_to_markdown("{\"a}").is_none());
    assert!(design_tokens_json_to_markdown("{\"a\": {\"$type\": \"color\"}").is_none());
}

#[test]
fn json_export_round_trips_through_import() {
    let cards = vec![color("Primary", "#3482e3", 0x34, 0x82, 0xe3), space("gap-md", 8.0, "8px")];
    let md = design_tokens_json_to_markdown(&to_design_tokens_json(&cards)).expect("should parse");
    assert_eq!(
        md,
        "# Imported Design Tokens\n\n## Colors\n\n- **Primary** — `#3482e3`\n\n## Spacing\n\n- **Gap Md** — `8px`\n"
    );
}

#[test]
fn css_variables_still_works_with_swatch_item() {
    let items = vec![SwatchItem {
        name: "Primary".into(),
        hex: "#3482e3".into(),
        r: 0x34,
        g: 0x82,
        b: 0xe3,
        a: 255,
    }];
    let css = to_css_variables(&items);
    assert!(css.contains("--color-primary: #3482e3;"), "got: {css}");
}

#[test]
fn json_import_rejects_text_that_is_not_json() {
    let trailing_comma = r##"{"a": {"$type": "color", "$value": "#fff"},}"##;
    assert!(design_tokens_json_to_markdown(trailing_comma).is_none());
    let bad_literal = r##"{"a": {"$type": "color", "$value": "#fff"}, "b": tru}"##;
    assert!(design_tokens_json_to_markdown(bad_literal).is_none());
    let single_quotes = r##"{'a': {"$type": "color", "$value": "#fff"}}"##;
    assert!(design_tokens_json_to_markdown(single_quotes).is_none());
    let fine = r##"{"a": {"$type": "color", "$value": "#fff"}, "n": [1, -2.5e3, null, true]}"##;
    assert!(design_tokens_json_to_markdown(fine).is_some());
}

#[test]
fn json_syntax_checker() {
    for ok in [
        "{}", "[]", " 0 ", "-0.5e+10", "1E2", "\"a\\u00e9\\n\"", "true", "null",
        "{\"k\": [1, {\"x\": false}], \"m\": \"\"}", "\t[ ]\r\n",
    ] {
        assert!(is_json(ok), "should accept {ok:?}");
    }
    for bad in [
        "", "01", "1.", ".5", "+1", "1e", "[1,]", "{\"a\"}", "{\"a\":1,}", "\"\\x\"",
        "\"\u{1}\"", "[1 2]", "nul", "{} {}", "'a'", "\"abc", "[\"\\u12g4\"]",
    ] {
        assert!(!is_json(bad), "should refuse {bad:?}");
    }
    let deep = "[".repeat(1000) + &"]".repeat(1000);
    assert!(is_json(&deep));
    let unclosed = "[".repeat(1000) + &"]".repeat(999);
    assert!(!is_json(&unclosed));
}

#[test]
fn json_export_is_json() {
    let mut lined = font("Body", "Inter \"Var\"", 16.0, 700);
    if let RenderCard::Font { line_height, .. } = &mut lined {
        *line_height = Some(1.5f64.to_string());
    }
    let cards = vec![
        color("Primary", "#3482e3", 0x34, 0x82, 0xe3),
        color("Primary", "#3482e380", 0x34, 0x82, 0xe3),
        lined,
        font("Mono", "monospace", 14.0, 400),
        space("gap", 8.0, "8px"),
        radius("card", 12.0, "12px"),
        shadow("modal", "0 8px 24px \"soft\""),
    ];
    assert!(is_json(&to_design_tokens_json(&cards)));
    assert!(is_json(&to_design_tokens_json(&[])));
    // A backslash the export does not escape leaves the JSON grammar.
    assert!(!is_json(&to_design_tokens_json(&[shadow("s", "a\\q")])));
}

#[test]
fn gimp_palette_round_trip_trims_names_and_skips_other_cards() {
    let cards = vec![
        color("  Sky\r", "#3482e3", 0x34, 0x82, 0xe3),
        space("gap", 8.0, "8px"),
        color("Tab\tName ", "#0a0b0c", 10, 11, 12),
    ];
    let md = gpl_to_markdown(&to_gimp_palette(&cards, " Brand\r"));
    assert_eq!(md, "# Brand\n\n- **Sky** — `#3482e3`\n- **Tab\tName** — `#0a0b0c`\n");
    assert_eq!(gpl_to_markdown(&to_gimp_palette(&[], "Empty")), "# Empty\n\n\n");
}

#[test]
fn json_import_reads_back_exported_strings() {
    let cards = vec![
        radius("card", 12.0, "12px"),
        shadow("modal", "0 8px 24px \"soft\""),
        color("Primary", "#3482e3", 0x34, 0x82, 0xe3),
        color("Primary", "#ff0000", 0xff, 0, 0),
    ];
    let md = design_tokens_json_to_markdown(&to_design_tokens_json(&cards)).expect("should parse");
    assert_eq!(
        md,
        "# Imported Design Tokens\n\n## Colors\n\n- **Primary** — `#3482e3`\n- **Primary 2** — `#ff0000`\n\n## Radius\n\n- **Card** — `radius: 12px`\n\n## Shadows\n\n- **Modal** — `shadow: 0 8px 24px \"soft\"`\n"
    );
}

#[test]
fn json_import_of_exported_font_reads_string_fields_only() {
    let cards = vec![font("Body", "Inter", 16.0, 700)];
    let md = design_tokens_json_to_markdown(&to_design_tokens_json(&cards)).expect("should parse");
    assert_eq!(md, "# Imported Design Tokens\n\n## Typography\n\n- **Body** — `font: Inter regular 16px`\n");
}
