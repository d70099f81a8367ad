use swatchbook::parser::{markdown_events, parse_events};
use swatchbook::renderer::{
    color_count, color_swatch_items, name_to_slug, swatch_cards, to_css_variables, unique_slugs,
    RenderCard, SwatchItem,
};
use swatchbook::token::ColorValue;

fn item(name: &str, hex: &str, r: u8, g: u8, b: u8) -> SwatchItem {
    SwatchItem { name: name.to_string(), hex: hex.to_string(), r, g, b, a: 255 }
}

#[test]
fn css_variables_basic() {
    let items = vec![item("Primary", "#3482e3", 0x34, 0x82, 0xe3)];
    let css = to_css_variables(&items);
    assert!(css.contains("--color-primary: #3482e3;"), "got: {css}");
    assert!(css.starts_with(":root {"));
    assert!(css.ends_with('}'));
    assert_eq!(css, ":root {\n  --color-primary: #3482e3;\n}");
}

#[test]
fn css_variables_collapses_spaces_to_single_dash() {
    let items = vec![item("Hello  World", "#ffffff", 255, 255, 255)];
    let css = to_css_variables(&items);
    assert!(css.contains("--color-hello-world:"), "got: {css}");
    assert!(!css.contains("--color-hello--world:"), "must not have double dash: {css}");
}

#[test]
fn css_variables_empty_slug_falls_back_to_hex() {
    let items = vec![item("---", "#aabbcc", 0xaa, 0xbb, 0xcc)];
    let css = to_css_variables(&items);
    assert!(css.contains("--color-aabbcc:"), "got: {css}");
}

#[test]
fn css_variables_deduplicates_names() {
    let items = vec![
        item("Primary", "#ff0000", 255, 0, 0),
        item("Primary", "#00ff00", 0, 255, 0),
        item("Primary", "#0000ff", 0, 0, 255),
    ];
    let css = to_css_variables(&items);
    assert!(css.contains("--color-primary:"), "first occurrence, got: {css}");
    assert!(css.contains("--color-primary-2:"), "second occurrence, got: {css}");
    assert!(css.contains("--color-primary-3:"), "third occurrence, got: {css}");
}

#[test]
fn css_variables_trims_leading_trailing_separators() {
    let items = vec![item("  Trim Me  ", "#123456", 0x12, 0x34, 0x56)];
    let css = to_css_variables(&items);
    assert!(css.contains("--color-trim-me:"), "got: {css}");
}

#[test]
fn css_variables_empty_list() {
    assert_eq!(to_css_variables(&[]), ":root {\n}");
}

#[test]
fn slug_rules() {
    assert_eq!(name_to_slug("Über Grün 2", "#fff").into_iter().collect::<String>(), "über-grün-2");
    assert_eq!(name_to_slug("!!", "##abc").into_iter().collect::<String>(), "abc");
    assert_eq!(name_to_slug("", "8px").into_iter().collect::<String>(), "8px");
}

#[test]
fn card_accessors() {
    let c = RenderCard::Color(item("Primary", "#3482e3", 0x34, 0x82, 0xe3));
    assert_eq!(c.name(), "Primary");
    assert_eq!(c.value_label(), "#3482e3");
    assert_eq!(c.copy_value(), "#3482e3");
    assert!(c.as_color().is_some());
    let s = RenderCard::Shadow { name: "Card".into(), css: "0 1px 2px".into() };
    assert_eq!(s.name(), "Card");
    assert_eq!(s.value_label(), "0 1px 2px");
    assert!(s.as_color().is_none());
}

#[test]
fn parsed_swatches_become_colour_cards() {
    let md = "# Brand\n\n- **Red** — `#ff000080`\n- **Navy** — `navy`\n";
    let events = markdown_events(md);
    let doc = parse_events(&events, &vec![None; events.len()]);
    let cards = swatch_cards(&doc);
    assert_eq!(cards.len(), 2);
    match &cards[0] {
        RenderCard::Color(i) => {
            assert_eq!((i.name.as_str(), i.hex.as_str()), ("Red", "#ff000080"));
            assert_eq!((i.r, i.g, i.b, i.a), (255, 0, 0, 0x80));
        }
        other => panic!("got {other:?}"),
    }
    match &cards[1] {
        RenderCard::Color(i) => assert_eq!((i.hex.as_str(), i.a), ("#000080", 255)),
        other => panic!("got {other:?}"),
    }
    assert_eq!(doc.sections[0].swatches[1].color, ColorValue::Named("navy".into()));
    let mut mixed = cards.clone();
    mixed.insert(1, RenderCard::Shadow { name: "S".into(), css: "0 1px red".into() });
    assert_eq!(color_count(&mixed), 2);
    let items = color_swatch_items(&mixed);
    assert_eq!(items.len(), 2);
    assert_eq!(items[1].name, "Navy");
}

fn slugs_of(names: &[&str]) -> Vec<String> {
    let cards: Vec<RenderCard> =
        names.iter().map(|n| RenderCard::Color(item(n, "#000000", 0, 0, 0))).collect();
    unique_slugs(&cards).into_iter().map(|s| s.into_iter().collect()).collect()
}

#[test]
fn unique_slugs_numbers_repeats() {
    assert_eq!(slugs_of(&["Primary", "Primary", "Primary"]), ["primary", "primary-2", "primary-3"]);
    assert_eq!(slugs_of(&["A", "B", "A"]), ["a", "b", "a-2"]);
}

#[test]
fn unique_slugs_skip_slugs_already_taken() {
    assert_eq!(slugs_of(&["A", "A", "A 2"]), ["a", "a-2", "a-2-2"]);
    assert_eq!(slugs_of(&["A 2", "A", "A"]), ["a-2", "a", "a-3"]);
    assert!(slugs_of(&[]).is_empty());
}

#[test]
fn css_variables_have_distinct_names() {
    let items = vec![
        item("A", "#ff0000", 255, 0, 0),
        item("A", "#00ff00", 0, 255, 0),
        item("A 2", "#0000ff", 0, 0, 255),
    ];
    assert_eq!(
        to_css_variables(&items),
        ":root {\n  --color-a: #ff0000;\n  --color-a-2: #00ff00;\n  --color-a-2-2: #0000ff;\n}"
    );
}

#[test]
fn split_alnum_keeps_unicode_words() {
    let v: Vec<char> = "über grün--2!".chars().collect();
    let words: Vec<String> = swatchbook::renderer::split_alnum(&v)
        .into_iter()
        .map(|w| w.into_iter().collect())
        .collect();
    assert_eq!(words, ["über", "grün", "2"]);
}

#[test]
fn kebab_to_title_capitalises_each_word() {
    let v: Vec<char> = "font-body_base".chars().collect();
    let t: String = swatchbook::renderer::import::kebab_to_title(&v).into_iter().collect();
    assert_eq!(t, "Font Body Base");
    let e: Vec<char> = "ärger".chars().collect();
    let t: String = swatchbook::renderer::import::kebab_to_title(&e).into_iter().collect();
    assert_eq!(t, "Ärger");
}
