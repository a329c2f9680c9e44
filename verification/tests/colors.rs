use rust_audit::color::{estimate_contrast_ok, hex_digit, hex_to_rgb, is_contrast_ok};
use rust_audit::style::extract_css_color;

#[test]
fn black_on_white_passes() {
    assert!(estimate_contrast_ok((0, 0, 0), (255, 255, 255)));
    assert!(estimate_contrast_ok((255, 255, 255), (0, 0, 0)));
}

#[test]
fn channels_enter_the_ratio_unscaled() {
    // 10.05 / 0.05 = 201
    assert!(estimate_contrast_ok((0, 0, 0), (10, 10, 10)));
    // 200.05 / 100.05 is just under 2
    assert!(!estimate_contrast_ok((100, 100, 100), (200, 200, 200)));
    // 76.55 / 18.46 is about 2.94
    assert!(!estimate_contrast_ok((255, 0, 0), (0, 0, 255)));
}

#[test]
fn equal_colours_fail() {
    assert!(!estimate_contrast_ok((0, 0, 0), (0, 0, 0)));
    assert!(!estimate_contrast_ok((17, 99, 203), (17, 99, 203)));
}

#[test]
fn the_threshold_is_strict() {
    // 0.722 and 3.424: (3.424 + 0.05) / (0.722 + 0.05) is 4.5 exactly
    assert!(!estimate_contrast_ok((0, 0, 10), (7, 2, 7)));
    assert!(!estimate_contrast_ok((7, 2, 7), (0, 0, 10)));
    // one step of blue more on the brighter side is enough
    assert!(estimate_contrast_ok((0, 0, 10), (7, 2, 8)));
}

#[test]
fn near_the_threshold() {
    assert!(!estimate_contrast_ok((50, 50, 50), (225, 225, 225)));
    assert!(estimate_contrast_ok((50, 50, 50), (226, 226, 226)));
    assert!(estimate_contrast_ok((56, 56, 56), (255, 255, 255)));
    assert!(!estimate_contrast_ok((57, 57, 57), (255, 255, 255)));
    assert!(!estimate_contrast_ok((0, 0, 0), (0, 0, 2)));
    assert!(estimate_contrast_ok((0, 0, 0), (0, 0, 3)));
}

#[test]
fn the_order_of_the_pair_does_not_matter() {
    let samples = [(0u8, 0u8, 0u8), (7, 2, 7), (50, 50, 50), (226, 226, 226), (255, 0, 0), (0, 0, 255)];
    for a in samples {
        for b in samples {
            assert_eq!(estimate_contrast_ok(a, b), estimate_contrast_ok(b, a));
        }
    }
}

#[test]
fn hex_digits_have_their_values() {
    assert_eq!(hex_digit('0'), Some(0));
    assert_eq!(hex_digit('9'), Some(9));
    assert_eq!(hex_digit('a'), Some(10));
    assert_eq!(hex_digit('f'), Some(15));
    assert_eq!(hex_digit('A'), Some(10));
    assert_eq!(hex_digit('F'), Some(15));
    assert_eq!(hex_digit('g'), None);
    assert_eq!(hex_digit('G'), None);
    assert_eq!(hex_digit('+'), None);
    assert_eq!(hex_digit(' '), None);
}

#[test]
fn six_digits_make_a_colour() {
    assert_eq!(hex_to_rgb("#000000"), Some((0, 0, 0)));
    assert_eq!(hex_to_rgb("#ffffff"), Some((255, 255, 255)));
    assert_eq!(hex_to_rgb("#FF0a10"), Some((255, 10, 16)));
    assert_eq!(hex_to_rgb("#123456"), Some((0x12, 0x34, 0x56)));
}

#[test]
fn other_texts_make_no_colour() {
    assert_eq!(hex_to_rgb(""), None);
    assert_eq!(hex_to_rgb("#fff"), None);
    assert_eq!(hex_to_rgb("#fffffff"), None);
    assert_eq!(hex_to_rgb("ffffff"), None);
    assert_eq!(hex_to_rgb("0ffffff"), None);
    assert_eq!(hex_to_rgb("#gggggg"), None);
    assert_eq!(hex_to_rgb("#+1+2+3"), None);
    assert_eq!(hex_to_rgb("#12 456"), None);
    assert_eq!(hex_to_rgb("red"), None);
    assert_eq!(hex_to_rgb("rgb(0,0,0)"), None);
}

#[test]
fn a_colour_with_longer_characters_is_no_colour() {
    // seven bytes, five characters
    assert_eq!(hex_to_rgb("#a\u{20ac}bc"), None);
    assert_eq!(hex_to_rgb("#\u{e4}bcd"), None);
    assert!(!is_contrast_ok("#a\u{20ac}bc", "#ffffff"));
}

#[test]
fn written_colours_are_compared() {
    assert!(is_contrast_ok("#000000", "#ffffff"));
    assert!(is_contrast_ok("#ffffff", "#000000"));
    assert!(!is_contrast_ok("#646464", "#c8c8c8"));
    assert!(!is_contrast_ok("#00000a", "#070207"));
    assert!(is_contrast_ok("#00000a", "#070208"));
}

#[test]
fn a_text_that_is_no_colour_fails_the_comparison() {
    assert!(!is_contrast_ok("#zzzzzz", "#ffffff"));
    assert!(!is_contrast_ok("#000000", "#fffff"));
    assert!(!is_contrast_ok("", ""));
    assert!(!is_contrast_ok("black", "white"));
}

#[test]
fn a_style_gives_its_colours() {
    let style = "color: #112233; background-color:#ffffff";
    assert_eq!(extract_css_color(style, "color"), Some("#112233".to_string()));
    assert_eq!(extract_css_color(style, "background-color"), Some("#ffffff".to_string()));
    assert_eq!(extract_css_color(style, "border-color"), None);
}

#[test]
fn background_color_is_not_color() {
    assert_eq!(extract_css_color("background-color: #ffffff", "color"), None);
    assert_eq!(extract_css_color("color: #000000", "background-color"), None);
}

#[test]
fn white_space_around_a_declaration_is_dropped() {
    assert_eq!(extract_css_color("  color:   #abcdef  ;", "color"), Some("#abcdef".to_string()));
    assert_eq!(extract_css_color("\n\tcolor:\t#abcdef\n", "color"), Some("#abcdef".to_string()));
    assert_eq!(extract_css_color(";;color:#abcdef", "color"), Some("#abcdef".to_string()));
}

#[test]
fn the_colon_follows_the_name_at_once() {
    assert_eq!(extract_css_color("color : #abcdef", "color"), None);
    assert_eq!(extract_css_color("Color:#abcdef", "color"), None);
}

#[test]
fn other_ways_to_write_a_colour_are_passed_over() {
    assert_eq!(extract_css_color("color: red", "color"), None);
    assert_eq!(extract_css_color("color: #fff", "color"), None);
    assert_eq!(extract_css_color("color: rgb(0, 0, 0)", "color"), None);
    assert_eq!(extract_css_color("color: #11223344", "color"), None);
    assert_eq!(extract_css_color("color: #112233 !important", "color"), None);
    assert_eq!(extract_css_color("color:", "color"), None);
    assert_eq!(extract_css_color("", "color"), None);
}

#[test]
fn the_first_declaration_with_a_colour_wins() {
    assert_eq!(
        extract_css_color("color: red; color: #111111; color: #222222", "color"),
        Some("#111111".to_string())
    );
}

#[test]
fn the_shape_is_taken_not_the_digits() {
    assert_eq!(extract_css_color("color: #zzzzzz", "color"), Some("#zzzzzz".to_string()));
    // seven bytes in five characters
    assert_eq!(extract_css_color("color: #a\u{20ac}bc", "color"), Some("#a\u{20ac}bc".to_string()));
    // seven characters in thirteen bytes
    assert_eq!(extract_css_color("color: #\u{e4}\u{e4}\u{e4}\u{e4}\u{e4}\u{e4}", "color"), None);
}
