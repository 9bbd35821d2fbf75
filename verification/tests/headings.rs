use yarner_toc::anchor::heading_anchor;
use yarner_toc::heading::heading_level;
use yarner_toc::text::{is_space, trim};

fn is_white_space(code: u32) -> bool {
    matches!(
        code,
        0x9..=0xd
            | 0x20
            | 0x85
            | 0xa0
            | 0x1680
            | 0x2000..=0x200a
            | 0x2028
            | 0x2029
            | 0x202f
            | 0x205f
            | 0x3000
    )
}

#[test]
fn format_anchor() {
    assert_eq!(heading_anchor("A heading"), "a-heading".to_string());
    assert_eq!(
        heading_anchor("Heading - with... punctuations"),
        "heading---with----punctuations".to_string()
    );
    assert_eq!(
        heading_anchor("Heading with 123 numbers"),
        "heading-with-123-numbers".to_string()
    );
}

#[test]
fn no_heading() {
    assert_eq!(heading_level("Not a heading"), None);
}

#[test]
fn no_label_heading() {
    assert_eq!(heading_level("###"), None);
}

#[test]
fn heading_level_with_space() {
    assert_eq!(heading_level("## Heading"), Some(("Heading", 2)));
}

#[test]
fn heading_level_without_space() {
    assert_eq!(heading_level("##Heading"), Some(("Heading", 2)));
}

#[test]
fn level_is_the_number_of_hashes() {
    for level in 1..=40usize {
        let line = format!("{} Title", "#".repeat(level));
        assert_eq!(heading_level(&line), Some(("Title", level)));
    }
}

#[test]
fn empty_line_is_no_heading() {
    assert_eq!(heading_level(""), None);
}

#[test]
fn hashes_and_blanks_are_no_heading() {
    assert_eq!(heading_level("#"), None);
    assert_eq!(heading_level("##   "), None);
    assert_eq!(heading_level("## \t\u{a0}\u{3000}"), None);
}

#[test]
fn hashes_must_start_the_line() {
    assert_eq!(heading_level(" # Indented"), None);
    assert_eq!(heading_level("a # b"), None);
}

#[test]
fn label_keeps_inner_blanks_and_later_hashes() {
    assert_eq!(heading_level("#  a  b  "), Some(("a  b", 1)));
    assert_eq!(heading_level("## C# and F# ##"), Some(("C# and F# ##", 2)));
    assert_eq!(heading_level("# #"), Some(("#", 1)));
}

#[test]
fn label_may_hold_any_script() {
    assert_eq!(heading_level("### Überblick — 概要"), Some(("Überblick — 概要", 3)));
}

#[test]
fn label_is_trimmed_of_exactly_the_white_space() {
    for code in 0..=0x10ffffu32 {
        let c = match char::from_u32(code) {
            Some(c) => c,
            None => continue,
        };
        if c == '#' {
            continue;
        }
        let line = format!("#{c}x{c}");
        let expected = if is_white_space(code) {
            "x".to_string()
        } else {
            format!("{c}x{c}")
        };
        assert_eq!(heading_level(&line), Some((expected.as_str(), 1)), "U+{code:04X}");
    }
}

#[test]
fn white_space_is_what_the_standard_library_takes_for_it() {
    for code in 0..=0x10ffffu32 {
        if let Some(c) = char::from_u32(code) {
            assert_eq!(is_space(c), is_white_space(code), "U+{code:04X}");
            assert_eq!(is_space(c), c.is_whitespace(), "U+{code:04X}");
        }
    }
}

#[test]
fn trim_drops_the_white_space_on_both_sides() {
    assert_eq!(trim("  a b  "), "a b");
    assert_eq!(trim("\t\n x \r\n"), "x");
    assert_eq!(trim("x"), "x");
    assert_eq!(trim("x  "), "x");
    assert_eq!(trim("  x"), "x");
    assert_eq!(trim("\u{2003}é\u{3000}"), "é");
}

#[test]
fn trim_of_white_space_alone_is_empty() {
    assert_eq!(trim(""), "");
    assert_eq!(trim(" "), "");
    assert_eq!(trim(" \t\u{a0}\u{2028} "), "");
}

#[test]
fn trim_agrees_with_the_standard_library() {
    for code in 0..=0x10ffffu32 {
        if let Some(c) = char::from_u32(code) {
            let padded = format!("{c}{c}x {c}y{c}");
            assert_eq!(trim(&padded), padded.trim(), "U+{code:04X}");
        }
    }
    for text in ["", " ", "a", " a", "a ", " a ", "  a  b  ", "\n\na\n\n", "\u{85}a\u{85}"] {
        assert_eq!(trim(text), text.trim());
    }
}
