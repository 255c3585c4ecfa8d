use fs_sav::text::{eq_ignore_ascii_case, last_split_piece, str_eq};

#[test]
fn test_map_id_last_piece() {
    assert_eq!(last_split_piece("EWorldConquestMapId::TerminusHex"), "TerminusHex");
    assert_eq!(last_split_piece("TerminusHex"), "TerminusHex");
    assert_eq!(last_split_piece("a::b::c"), "c");
    assert_eq!(last_split_piece("a::"), "");
    assert_eq!(last_split_piece(""), "");
}

#[test]
fn test_last_piece_matches_separators_from_the_left() {
    // "a:::b".split("::") gives ["a", ":b"].
    assert_eq!(last_split_piece("a:::b"), ":b");
    assert_eq!(last_split_piece("a::::b"), "b");
    assert_eq!(last_split_piece(":::"), ":");
    assert_eq!(last_split_piece("Ünïcode::Hëx"), "Hëx");
}

#[test]
fn test_eq_ignore_ascii_case() {
    assert!(eq_ignore_ascii_case("Seaport", "seaport"));
    assert!(eq_ignore_ascii_case("SEAPORT", "SeaPort"));
    assert!(!eq_ignore_ascii_case("Seaport", "Seaports"));
    assert!(!eq_ignore_ascii_case("É", "é"));
}

#[test]
fn test_str_eq() {
    assert!(str_eq("Keep", "Keep"));
    assert!(!str_eq("Keep", "keep"));
    assert!(!str_eq("Keep", "Kee"));
}
