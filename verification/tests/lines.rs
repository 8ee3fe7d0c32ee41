use monsum::classify;
use monsum::text::char_is_whitespace;
use monsum::text::chars_of;
use monsum::text::same_text;
use monsum::text::starts_with;
use monsum::text::trim_bounds;
use monsum::text::trimmed;
use monsum::LineKind;
use monsum::Section;

#[test]
fn every_line_has_one_shape() {
    assert_eq!(classify("## Days"), LineKind::SectionHeader(Section::Days));
    assert_eq!(classify("## Tasks"), LineKind::SectionHeader(Section::Other));
    assert_eq!(classify("## "), LineKind::SectionHeader(Section::Other));
    assert_eq!(classify("## Days "), LineKind::SectionHeader(Section::Other));
    assert_eq!(classify("## days"), LineKind::SectionHeader(Section::Other));
    assert_eq!(classify("- [ ] a"), LineKind::Task);
    assert_eq!(classify("- [x]"), LineKind::Task);
    assert_eq!(classify("- [X] a"), LineKind::Task);
    assert_eq!(classify("### [[Daily Notes/2022-09-29|29th (Thu)]]"), LineKind::DayHeader);
    assert_eq!(classify("### [["), LineKind::DayHeader);
    assert_eq!(classify("### [[nonsense"), LineKind::DayHeader);
    assert_eq!(classify("- an event"), LineKind::Freeform);
    assert_eq!(classify("- "), LineKind::Freeform);
    assert_eq!(classify("- [y] a"), LineKind::Freeform);
    assert_eq!(classify("- [x"), LineKind::Freeform);
    assert_eq!(classify("- [ ]]"), LineKind::Task);
    assert_eq!(classify("- []"), LineKind::Freeform);
    assert_eq!(classify(""), LineKind::Blank);
    assert_eq!(classify(" "), LineKind::Other);
    assert_eq!(classify("##"), LineKind::Other);
    assert_eq!(classify("##Days"), LineKind::Other);
    assert_eq!(classify("### Days"), LineKind::Other);
    assert_eq!(classify("# Title"), LineKind::Other);
    assert_eq!(classify("-"), LineKind::Other);
    assert_eq!(classify("-[x] a"), LineKind::Other);
    assert_eq!(classify(" - [x] a"), LineKind::Other);
    assert_eq!(classify("words"), LineKind::Other);
}

#[test]
fn white_space_is_what_unicode_says() {
    for code in 0..=0x11_0000u32 {
        if let Some(c) = char::from_u32(code) {
            assert_eq!(char_is_whitespace(c), c.is_whitespace(), "{code:#x}");
        }
    }
}

#[test]
fn trimming_agrees_with_the_standard_library() {
    for s in [
        "",
        " ",
        "a",
        " a",
        "a ",
        "  a b  ",
        "\t\r\n a \u{a0}\u{2003}\u{3000}",
        "\u{85}\u{1680}x\u{2028}\u{2029}\u{202f}\u{205f}",
        "\u{200b} zero width is no space \u{feff}",
        " \u{1f600} ",
        "\n\n",
    ] {
        assert_eq!(trimmed(s), s.trim(), "{s:?}");
        let chars: Vec<char> = s.chars().collect();
        let (start, end) = trim_bounds(&chars);
        let kept: String = chars[start..end].iter().collect();
        assert_eq!(kept, s.trim(), "{s:?}");
    }
}

#[test]
fn the_characters_of_a_text_come_in_order() {
    assert_eq!(chars_of(""), Vec::<char>::new());
    assert_eq!(chars_of("a\u{e9}\u{1f600}b"), vec!['a', '\u{e9}', '\u{1f600}', 'b']);
}

#[test]
fn a_prefix_is_found_at_the_start_only() {
    let line = chars_of("### [[x");
    assert!(starts_with(&line, "### [["));
    assert!(starts_with(&line, "### [[x"));
    assert!(starts_with(&line, ""));
    assert!(!starts_with(&line, "### [[x "));
    assert!(!starts_with(&line, "## "));
    assert!(!starts_with(&line, "[["));
    assert!(same_text(&line, "### [[x"));
    assert!(!same_text(&line, "### [["));
    assert!(!same_text(&line, "### [[y"));
    assert!(same_text(&[], ""));
}
