use codex_session::diff_panel::parser::{normalize_path, paths_match};

#[test]
fn path_matching_accepts_absolute_history_paths() {
    assert!(paths_match(
        "src/parser.rs",
        r"H:\Project\Software\codex\src\parser.rs",
        false,
    ));
}

#[test]
fn the_case_of_paths_does_not_matter_on_windows() {
    assert!(paths_match("SRC/Parser.rs", r"C:\code\src\PARSER.RS", true));
    assert!(paths_match("SRC/ÄRGER.rs", r"C:\code\src\ärger.rs", true));
    assert!(!paths_match("SRC/Parser.rs", r"C:\code\src\PARSER.RS", false));
    assert_eq!(normalize_path(r"SRC\Parser.rs", true), "src/parser.rs");
    assert_eq!(normalize_path(r"SRC\Parser.rs", false), "SRC/Parser.rs");
}
