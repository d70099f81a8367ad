use swatchbook::token::{scan_color, ColorScan, ColorValue, WcagLevel};

#[test]
fn wcag_labels() {
    assert_eq!(WcagLevel::Aaa.label(), "AAA");
    assert_eq!(WcagLevel::Aa.label(), "AA");
    assert_eq!(WcagLevel::Fail.label(), "Fail");
}

#[test]
fn named_colours_are_opaque_and_case_insensitive() {
    let c = match scan_color("  RebeccaPurple ") {
        Some(ColorScan::Ready(c)) => c,
        other => panic!("got {other:?}"),
    };
    assert_eq!(c, ColorValue::Named("rebeccapurple".into()));
    assert_eq!(c.to_rgba(), (102, 51, 153, 255));
    assert_eq!(c.alpha(), 255);
    assert_eq!(ColorValue::Named("grey".into()).to_rgb(), (128, 128, 128));
    assert_eq!(ColorValue::Named("notacolor".into()).to_rgba(), (128, 128, 128, 255));
    assert_eq!(ColorValue::Named("yellowgreen".into()).to_hex_string(), "#9acd32");
}

#[test]
fn default_colour_is_mid_grey() {
    assert_eq!(ColorValue::default(), ColorValue::Rgba(128, 128, 128, 255));
}

#[test]
fn hex_round_trip_for_sampled_values() {
    for r in (0..=255u16).step_by(17) {
        for a in [0u8, 0x80, 0xfe, 0xff] {
            let c = ColorValue::Rgba(r as u8, 255 - r as u8, (r / 3) as u8, a);
            assert_eq!(scan_color(&c.to_hex_string()), Some(ColorScan::Ready(c)));
        }
    }
}

#[test]
fn rgb_arguments_follow_integer_parsing() {
    assert_eq!(scan_color("rgb(+1, 02 ,3)"), Some(ColorScan::Ready(ColorValue::Rgba(1, 2, 3, 255))));
    assert_eq!(scan_color("rgb(256, 0, 0)"), None);
    assert_eq!(scan_color("rgb(-1, 0, 0)"), None);
    assert_eq!(scan_color("rgb(1, 2)"), None);
    assert_eq!(scan_color("rgb (1, 2, 3)"), Some(ColorScan::Ready(ColorValue::Rgba(1, 2, 3, 255))));
    assert_eq!(scan_color("RGB(1, 2, 3)"), None);
    assert_eq!(
        scan_color("rgba(1,2,3, 50% )"),
        Some(ColorScan::RgbAlpha(1, 2, 3, "50%".into()))
    );
}

#[test]
fn hsl_needs_three_or_four_arguments() {
    assert_eq!(scan_color("hsl(1, 2)"), None);
    assert_eq!(scan_color("hsl(1,2,3,4,5)"), None);
    assert_eq!(
        scan_color("hsl(120degdeg, 50%%, 25%)"),
        Some(ColorScan::Hsl("120".into(), "50".into(), "25".into(), None))
    );
}
