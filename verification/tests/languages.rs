use madari::languages::name;

#[test]
fn displays_codes_and_preserves_unknowns() {
    for code in ["en", "EN", "eng"] {
        assert_eq!(name(code), "English");
    }
    assert_eq!(name("pt-BR"), "Portuguese (Brazil)");
    assert_eq!(name("hi"), "Hindi");
    assert_eq!(name("unknown-tag"), "unknown-tag");
}

#[test]
fn qualifiers_underscores_and_unknown_regions() {
    assert_eq!(name(" zh_Hant_tw "), "Chinese (Traditional, TW)");
    assert_eq!(name("en-US"), "English (United States)");
    assert_eq!(name("sr-Latn"), "Serbian (Latin)");
    assert_eq!(name("nb"), "Norwegian Bokmål");
    assert_eq!(name("und"), "Unspecified language");
}

#[test]
fn empty_and_unknown_codes() {
    assert_eq!(name(""), "");
    assert_eq!(name("   "), "");
    assert_eq!(name("-x"), "");
    assert_eq!(name("  Klingon "), "Klingon");
    assert_eq!(name("xx-YY"), "xx-YY");
}

#[test]
fn shown_names_are_shown_unchanged() {
    for code in ["en", "pt-BR", "zh_Hans", " xx ", "", "-x", "No spoken language", "ENG"] {
        assert_eq!(name(&name(code)), name(code));
    }
    assert_eq!(name("\u{2003}en\u{85}"), "English");
    assert_eq!(name("\u{3000}fr-ca\t"), "French (Canada)");
    assert_eq!(name("\u{200B}xx"), "\u{200B}xx");
}
