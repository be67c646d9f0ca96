use gather_files::pattern::{build_globset, expand_raw_pattern, PatternSet};

fn gs(pats: &[&str]) -> PatternSet {
    build_globset(&pats.iter().map(|s| s.to_string()).collect::<Vec<_>>())
}

#[test]
fn dir_pattern_covers_all_cases() {
    let g = gs(&["gather/"]);
    assert!(g.is_match("gather"));
    assert!(g.is_match("gather/output.txt"));
    assert!(g.is_match("a/b/gather"));
    assert!(g.is_match("a/b/gather/file"));
}

#[test]
fn ext_pattern_matches_any_depth() {
    let g = gs(&[".rs"]);
    assert!(g.is_match("src/main.rs"));
    assert!(g.is_match("deep/lib.rs"));
}

#[test]
fn filename_pattern_matches() {
    let g = gs(&["Cargo.toml"]);
    assert!(g.is_match("Cargo.toml"));
    assert!(g.is_match("nested/Cargo.toml"));
}

#[test]
fn dir_shorthand_matches_build_but_not_rebuild() {
    let g = gs(&["build/"]);
    assert!(g.is_match("build"));
    assert!(g.is_match("build/x"));
    assert!(g.is_match("a/build/y"));
    assert!(!g.is_match("rebuild/x"));
}

#[test]
fn matching_is_case_sensitive() {
    let g = gs(&["Makefile"]);
    assert!(g.is_match("Makefile"));
    assert!(!g.is_match("makefile"));
}

#[test]
fn bare_name_also_covers_a_directory_of_that_name() {
    let g = gs(&["docs"]);
    assert!(g.is_match("docs"));
    assert!(g.is_match("a/docs"));
    assert!(g.is_match("docs/readme.md"));
    assert!(!g.is_match("mydocs"));
}

#[test]
fn expansion_of_each_shorthand() {
    assert_eq!(expand_raw_pattern("build/"), vec!["**/build", "**/build/**", "build/**"]);
    assert_eq!(expand_raw_pattern("build//"), vec!["**/build", "**/build/**", "build/**"]);
    assert_eq!(expand_raw_pattern(".rs"), vec!["**/*.rs"]);
    assert_eq!(expand_raw_pattern("Cargo.toml"), vec!["**/Cargo.toml", "**/Cargo.toml/**"]);
    assert_eq!(expand_raw_pattern("src/*.rs"), vec!["src/*.rs"]);
    assert_eq!(expand_raw_pattern("*.log"), vec!["*.log"]);
}

#[test]
fn invalid_glob_is_dropped_and_reported() {
    let g = gs(&["a[", "*.txt"]);
    assert_eq!(g.dropped(), &vec!["**/a[".to_string(), "**/a[/**".to_string()]);
    assert!(g.is_match("notes.txt"));
    assert!(!g.is_empty());
}

#[test]
fn empty_pattern_list_matches_nothing() {
    let g = gs(&[]);
    assert!(g.is_empty());
    assert!(!g.is_match("anything"));
}
