use html_to_pdf_service::text::{
    before_comma, eq_ignore_ascii_case, is_blank, join, same_text, trim, white_space,
};

#[test]
fn white_space_agrees_with_std_on_every_character() {
    for n in 0..=0x10FFFFu32 {
        if let Some(c) = char::from_u32(n) {
            assert_eq!(white_space(c), c.is_whitespace(), "{:x}", n);
        }
    }
}

#[test]
fn blank_texts() {
    assert!(is_blank(""));
    assert!(is_blank(" \t\r\n"));
    assert!(is_blank("\u{a0}\u{2003}\u{3000}"));
    assert!(!is_blank(" x "));
    assert!(!is_blank("\u{200b}"));
}

#[test]
fn trim_agrees_with_std() {
    for s in [
        "", " ", "a", " a", "a ", "  a b  ", "\n{\"type\":\"ready\"}\r\n", "\u{3000}é\u{a0}", "\u{85}x",
    ] {
        assert_eq!(trim(s), s.trim());
        assert_eq!(trim(s).is_empty(), is_blank(s));
    }
}

#[test]
fn case_is_ignored_for_ascii_letters_only() {
    assert!(eq_ignore_ascii_case("A4", "a4"));
    assert!(eq_ignore_ascii_case("LeTTer", "lEttER"));
    assert!(eq_ignore_ascii_case("", ""));
    assert!(!eq_ignore_ascii_case("A4", "A44"));
    assert!(!eq_ignore_ascii_case("A44", "A4"));
    assert!(!eq_ignore_ascii_case("É", "é"));
    assert!(!eq_ignore_ascii_case("@", "`"));
    assert!(!eq_ignore_ascii_case("[", "{"));
}

#[test]
fn fields_and_joins() {
    assert_eq!(before_comma("1.2.3.4, 5.6.7.8"), "1.2.3.4");
    assert_eq!(before_comma("1.2.3.4"), "1.2.3.4");
    assert_eq!(before_comma(",x"), "");
    assert_eq!(before_comma(""), "");
    assert_eq!(join(&vec!["a", "b", "c"], ", "), "a, b, c");
    assert_eq!(join(&vec!["a"], ", "), "a");
    assert_eq!(join(&vec![], ", "), "");
    assert!(same_text("*", "*"));
    assert!(!same_text("*", "**"));
}
