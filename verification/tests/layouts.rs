use std::collections::HashSet;
use vibepanel::compositor::layout_names::{code_of_lowered, layouts, short_code_from_language};
use vibepanel::compositor::mango_layouts::{by_name, by_symbol, mango_layouts};

#[test]
fn test_short_code_from_language() {
    assert_eq!(short_code_from_language("Swedish"), Some("SE"));
    assert_eq!(short_code_from_language("German"), Some("DE"));
    assert_eq!(short_code_from_language("Japanese"), Some("JP"));
    assert_eq!(short_code_from_language("Klingon"), None);
}

#[test]
fn test_short_code_from_language_case_insensitive() {
    assert_eq!(short_code_from_language("swedish"), Some("SE"));
    assert_eq!(short_code_from_language("GERMAN"), Some("DE"));
}

#[test]
fn test_all_entries_have_uppercase_codes() {
    for entry in layouts() {
        assert_eq!(
            entry.code,
            entry.code.to_uppercase(),
            "layout code for '{}' should be uppercase",
            entry.language
        );
    }
}

#[test]
fn test_all_entries_have_capitalized_language() {
    for entry in layouts() {
        assert!(
            entry.language.starts_with(|c: char| c.is_uppercase()),
            "language '{}' should be capitalized",
            entry.language
        );
    }
}

#[test]
fn codes_are_found_by_the_lowered_name() {
    assert_eq!(code_of_lowered("uzbek"), Some("UZ"));
    assert_eq!(code_of_lowered("Uzbek"), None);
    assert_eq!(code_of_lowered(""), None);
}

#[test]
fn every_language_has_its_code() {
    assert_eq!(layouts().len(), 29);
    for entry in layouts() {
        assert_eq!(short_code_from_language(entry.language), Some(entry.code));
    }
}

#[test]
fn catalog_has_unique_names_and_symbols() {
    let layouts = mango_layouts();
    assert_eq!(layouts.len(), 14);
    assert_eq!(
        layouts
            .iter()
            .map(|layout| layout.name)
            .collect::<HashSet<_>>()
            .len(),
        layouts.len()
    );
    assert_eq!(
        layouts
            .iter()
            .map(|layout| layout.symbol)
            .collect::<HashSet<_>>()
            .len(),
        layouts.len()
    );
}

#[test]
fn every_mango_layout_is_found_by_name_and_symbol() {
    for layout in mango_layouts() {
        assert_eq!(by_name(layout.name).unwrap().symbol, layout.symbol);
        assert_eq!(by_symbol(layout.symbol).unwrap().name, layout.name);
    }
    assert_eq!(by_name("tile").unwrap().label, "Tile");
    assert!(by_name("Tile").is_none());
    assert!(by_symbol("?").is_none());
}

#[test]
fn no_two_languages_share_a_code() {
    let entries = layouts();
    for (i, a) in entries.iter().enumerate() {
        assert!(entries[i + 1..].iter().all(|b| a.code != b.code));
    }
}
