use ludex::identity::normalize_title;

#[test]
fn removes_trademarks_and_punctuation() {
    assert_eq!(normalize_title("Cyberpunk 2077™"), "cyberpunk 2077");
    assert_eq!(normalize_title("NieR:Automata®"), "nier automata");
}

#[test]
fn strips_conservative_edition_suffixes() {
    assert_eq!(normalize_title("Control Ultimate Edition"), "control");
    assert_eq!(normalize_title("Hades - Standard Edition"), "hades");
}

#[test]
fn does_not_remove_meaningful_middle_words() {
    assert_eq!(normalize_title("Deluxe Ski Jump 4"), "deluxe ski jump 4");
}

#[test]
fn a_title_that_is_only_a_suffix_is_kept() {
    assert_eq!(normalize_title("Deluxe Edition"), "deluxe edition");
    assert_eq!(normalize_title("Remastered"), "remastered");
}

#[test]
fn only_one_suffix_is_stripped() {
    assert_eq!(normalize_title("Hades Standard Edition Standard Edition"), "hades standard edition");
}

#[test]
fn separators_before_the_suffix_are_dropped() {
    assert_eq!(normalize_title("Doom (Remastered"), "doom");
    assert_eq!(normalize_title("Quake: Remaster"), "quake");
}

#[test]
fn whitespace_and_case_are_normalised() {
    assert_eq!(normalize_title("  THE   Witcher\t3  "), "the witcher 3");
    assert_eq!(normalize_title(""), "");
    assert_eq!(normalize_title("!!!"), "");
}

#[test]
fn normalised_titles_are_tidy_words() {
    for t in ["Hades - Standard Edition", "  A--B  c©  ", "ÉLDEN Ring™", "x: y"] {
        let n = normalize_title(t);
        assert!(!n.starts_with(' ') && !n.ends_with(' ') && !n.contains("  "));
        assert!(n.chars().all(|c| c == ' ' || c.is_alphanumeric()));
    }
}
