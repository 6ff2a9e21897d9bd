use searchfox_api::{classify, CategoryTag};

fn unknown(key: &str) -> CategoryTag {
    CategoryTag::Unknown(key.to_string())
}

#[test]
fn files_is_a_fixed_name() {
    assert_eq!(classify("Files"), CategoryTag::FilesCategory);
}

#[test]
fn textual_occurrences_is_a_fixed_name() {
    assert_eq!(classify("Textual Occurrences"), CategoryTag::TextCategory);
}

#[test]
fn definitions_carry_their_symbol() {
    assert_eq!(
        classify("Definitions (BrowserChild)"),
        CategoryTag::DefinitionsCategory("BrowserChild".to_string())
    );
}

#[test]
fn declarations_carry_their_symbol() {
    assert_eq!(
        classify("Declarations (mozilla::dom::BrowserChild::BrowserChild)"),
        CategoryTag::DeclarationsCategory("mozilla::dom::BrowserChild::BrowserChild".to_string())
    );
}

#[test]
fn uses_carry_their_symbol() {
    assert_eq!(classify("Uses (Foo)"), CategoryTag::UsesCategory("Foo".to_string()));
}

#[test]
fn only_the_last_bracket_closes_the_symbol() {
    assert_eq!(
        classify("Definitions (operator())"),
        CategoryTag::DefinitionsCategory("operator()".to_string())
    );
    assert_eq!(
        classify("Uses (f(int) const)"),
        CategoryTag::UsesCategory("f(int) const".to_string())
    );
    assert_eq!(classify("Uses ())"), CategoryTag::UsesCategory(")".to_string()));
}

#[test]
fn symbol_may_hold_any_characters() {
    assert_eq!(
        classify("Uses (größe – 大小)"),
        CategoryTag::UsesCategory("größe – 大小".to_string())
    );
    assert_eq!(
        classify("Declarations (Definitions (x))"),
        CategoryTag::DeclarationsCategory("Definitions (x)".to_string())
    );
}

#[test]
fn one_character_is_a_symbol() {
    assert_eq!(classify("Definitions (x)"), CategoryTag::DefinitionsCategory("x".to_string()));
}

#[test]
fn empty_symbol_is_unknown() {
    for key in ["Definitions ()", "Declarations ()", "Uses ()"] {
        assert_eq!(classify(key), unknown(key));
    }
}

#[test]
fn unknown_name_is_carried_whole() {
    assert_eq!(classify("Bogus"), unknown("Bogus"));
}

#[test]
fn match_is_exact() {
    for key in [
        "",
        ")",
        "files",
        "FILES",
        "Files ",
        " Files",
        "Textual occurrences",
        "Textual  Occurrences",
        "Definitions",
        "Definitions (",
        "Definitions (Foo",
        "Definitions(Foo)",
        "definitions (Foo)",
        "Definitions (Foo) ",
        "Definition (Foo)",
        "Declarations [Foo]",
        "Uses Foo)",
        "Use (Foo)",
        "Uses (Foo)x",
        "normal",
    ] {
        assert_eq!(classify(key), unknown(key), "{:?}", key);
    }
}

#[test]
fn tags_are_equal_by_kind_and_symbol() {
    assert_ne!(classify("Uses (Foo)"), classify("Uses (Bar)"));
    assert_ne!(classify("Uses (Foo)"), classify("Definitions (Foo)"));
    assert_ne!(classify("Declarations (Foo)"), classify("Definitions (Foo)"));
    assert_ne!(classify("Files"), classify("Textual Occurrences"));
    assert_ne!(classify("Files"), unknown("Files"));
}
