use feedreader::text::{contains_char, html_is_safe, html_to_text, i32_to_decimal, text_from_rendering, trim, u64_to_decimal, white_space};

#[test]
fn trim_removes_outer_white_space() {
    assert_eq!(trim("  hello world \n\t"), "hello world");
    assert_eq!(trim("\u{3000}x\u{a0}"), "x");
    assert_eq!(trim("   "), "");
    assert_eq!(trim(""), "");
    assert_eq!(trim("a b"), "a b");
}

#[test]
fn trim_agrees_with_std() {
    for s in ["  a  ", "\u{2028}b\u{85}", "\u{200b}c", "x\u{1680}", "\r\n"] {
        assert_eq!(trim(s), s.trim());
    }
}

#[test]
fn white_space_property() {
    for c in [' ', '\t', '\n', '\u{85}', '\u{a0}', '\u{2000}', '\u{200a}', '\u{205f}', '\u{3000}'] {
        assert!(white_space(c));
        assert_eq!(white_space(c), c.is_whitespace());
    }
    for c in ['a', '\u{200b}', '\u{feff}', '_'] {
        assert!(!white_space(c));
        assert_eq!(white_space(c), c.is_whitespace());
    }
}

#[test]
fn contains_char_finds_char() {
    assert!(contains_char("a<b", '<'));
    assert!(!contains_char("plain", '<'));
    assert!(!contains_char("", '<'));
}

#[test]
fn decimal_formatting() {
    assert_eq!(u64_to_decimal(0), "0");
    assert_eq!(u64_to_decimal(42), "42");
    assert_eq!(u64_to_decimal(u64::MAX), u64::MAX.to_string());
    assert_eq!(i32_to_decimal(-7), "-7");
    assert_eq!(i32_to_decimal(i32::MIN), i32::MIN.to_string());
    assert_eq!(i32_to_decimal(1200), "1200");
}

#[test]
fn plain_text_is_kept() {
    assert_eq!(html_to_text("no tags & fine"), "no tags & fine");
}

#[test]
fn html_is_rendered() {
    let out = html_to_text("<p>Hello <i>world</i></p>");
    assert!(out.contains("Hello"));
    assert!(!out.contains("<p>"));
    assert_eq!(out, html2text::from_read("<p>Hello <i>world</i></p>".as_bytes(), 80).unwrap());
}

#[test]
fn failed_rendering_falls_back_to_html() {
    assert_eq!(text_from_rendering("<x>", None), "<x>");
    assert_eq!(text_from_rendering("<x>", Some("x".to_string())), "x");
}

#[test]
fn html_with_control_character_is_rendered() {
    let html = "<p>a\u{1}b and a&#x7;c</p>";
    assert!(html_is_safe(html.as_bytes()));
    assert_eq!(html_to_text(html), html2text::from_read(html.as_bytes(), 80).unwrap());
}

#[test]
fn html_with_overflowing_numbers_is_kept() {
    let html = "<table><tr><td colspan=18446744073709551615>a</td><td COLSPAN = \"18446744073709551615\">b</td></tr></table>";
    assert!(!html_is_safe(html.as_bytes()));
    assert_eq!(html_to_text(html), html);
    let html = "<ol start='9223372036854775807'><li>a</li><li>b</li></ol>";
    assert!(!html_is_safe(html.as_bytes()));
    assert_eq!(html_to_text(html), html);
    assert!(!html_is_safe(b"<ol start=-9999999999><li>a</li></ol>"));
    assert!(!html_is_safe(b"<td colspan=\"&#57;&#57;\">x</td>"));
}

#[test]
fn html_with_ordinary_numbers_is_rendered() {
    let html = "<table><tr><td colspan=2>a</td></tr><tr><td>b</td><td>c</td></tr></table><ol start=\"5\"><li>x</li></ol><p>Start = 12, colspan=3</p>";
    assert!(html_is_safe(html.as_bytes()));
    assert_eq!(html_to_text(html), html2text::from_read(html.as_bytes(), 80).unwrap());
}

#[test]
fn html_with_harmless_references_is_rendered() {
    let html = "<p>it&#x27;s &#8212; a&#10;b&#0009;c &#1000001;</p>";
    assert!(html_is_safe(html.as_bytes()));
    let out = html_to_text(html);
    assert!(out.starts_with("it's"));
    assert_eq!(out, html2text::from_read(html.as_bytes(), 80).unwrap());
}
