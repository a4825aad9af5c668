use load_file::format_diagnostic;
use load_file::load_file_bytes;
use load_file::load_file_str;
use load_file::resolve_path;
use load_file::LoadError;

fn platform_resolved(base: &str, rel: &str) -> String {
    std::path::Path::new(base)
        .parent()
        .unwrap()
        .join(rel)
        .to_str()
        .unwrap()
        .to_string()
}

#[test]
fn resolves_beside_the_base_file() {
    let r = resolve_path("src/main.rs", "greeting.txt").unwrap();
    assert_eq!(r, "src/greeting.txt");
}

#[test]
fn resolves_nested_base_without_normalization() {
    let r = resolve_path("a/b/c/mod.rs", "../shaders/main.glsl").unwrap();
    assert_eq!(r, "a/b/c/../shaders/main.glsl");
}

#[test]
fn resolves_single_component_base_to_current_directory() {
    let r = resolve_path("main.rs", "greeting.txt").unwrap();
    assert_eq!(r, "greeting.txt");
}

#[test]
fn resolves_base_directly_under_the_root() {
    let r = resolve_path("/main.rs", "greeting.txt").unwrap();
    assert_eq!(r, "/greeting.txt");
}

#[test]
fn trailing_separators_are_normalized_away() {
    let r = resolve_path("src/app/", "greeting.txt").unwrap();
    assert_eq!(r, "src/greeting.txt");
    assert_eq!(
        std::path::Path::new("src/app/")
            .parent()
            .unwrap()
            .join("greeting.txt"),
        std::path::PathBuf::from("src/greeting.txt")
    );
}

#[test]
fn repeated_separators_are_dropped_with_the_final_component() {
    let r = resolve_path("a//b.rs", "x.txt").unwrap();
    assert_eq!(r, "a/x.txt");
    assert_eq!(
        std::path::Path::new("a//b.rs").parent().unwrap().join("x.txt"),
        std::path::PathBuf::from("a/x.txt")
    );
}

#[test]
fn single_component_with_trailing_separator_resolves_to_current_directory() {
    let r = resolve_path("app/", "greeting.txt").unwrap();
    assert_eq!(r, "greeting.txt");
}

#[test]
fn base_under_the_root_with_trailing_separator_resolves_into_the_root() {
    let r = resolve_path("/app/", "greeting.txt").unwrap();
    assert_eq!(r, "/greeting.txt");
}

#[test]
fn absolute_relative_path_stands_on_its_own() {
    let r = resolve_path("src/main.rs", "/etc/hosts").unwrap();
    assert_eq!(r, "/etc/hosts");
}

#[test]
fn empty_base_is_an_invalid_base() {
    assert_eq!(resolve_path("", "greeting.txt"), Err(LoadError::InvalidBase));
}

#[test]
fn bare_root_base_is_an_invalid_base() {
    assert_eq!(resolve_path("/", "greeting.txt"), Err(LoadError::InvalidBase));
}

#[test]
fn trailing_dot_components_are_normalized_away() {
    let r = resolve_path("a/b/.", "x").unwrap();
    assert_eq!(r, "a/x");
    assert_eq!(r, platform_resolved("a/b/.", "x"));
}

#[test]
fn dot_component_bases_match_the_platform() {
    let cases = ["a/.", ".", "./", "./a", "a/./b", "a/./.", "a/..", "/.a", "/./a"];
    for base in cases {
        assert_eq!(
            resolve_path(base, "x").unwrap(),
            platform_resolved(base, "x"),
            "base {:?}",
            base
        );
    }
}

#[test]
fn root_only_dot_base_is_an_invalid_base() {
    assert_eq!(resolve_path("/.", "x"), Err(LoadError::InvalidBase));
    assert!(std::path::Path::new("/.").parent().is_none());
}

#[test]
fn double_slash_root_matches_the_platform() {
    assert_eq!(resolve_path("//a", "x").unwrap(), platform_resolved("//a", "x"));
}

#[test]
fn separator_only_bases_are_invalid_bases() {
    assert_eq!(resolve_path("//", "greeting.txt"), Err(LoadError::InvalidBase));
    assert_eq!(resolve_path("///", "greeting.txt"), Err(LoadError::InvalidBase));
    assert!(std::path::Path::new("//").parent().is_none());
}

#[test]
fn bytes_keep_their_exact_content_and_length() {
    let contents = vec![0u8, 1, 2, 254, 255];
    let loaded = load_file_bytes(contents.clone());
    assert_eq!(loaded, contents.as_slice());
    assert_eq!(loaded.len(), 5);
}

#[test]
fn empty_contents_load_as_an_empty_slice() {
    let loaded = load_file_bytes(Vec::new());
    assert_eq!(loaded.len(), 0);
}

#[test]
fn two_loads_of_equal_content_agree_but_are_independent() {
    let contents = b"same bytes".to_vec();
    let first = load_file_bytes(contents.clone());
    let second = load_file_bytes(contents);
    assert_eq!(first, second);
}

#[test]
fn valid_utf8_loads_as_text() {
    let text = load_file_str(b"Hello, world!".to_vec()).unwrap();
    assert_eq!(text, "Hello, world!");
    assert_eq!(text.len(), 13);
}

#[test]
fn empty_contents_load_as_empty_text() {
    assert_eq!(load_file_str(Vec::new()), Ok(""));
}

#[test]
fn multibyte_text_survives_the_round_trip() {
    let text = load_file_str("grüße, wörld".as_bytes().to_vec()).unwrap();
    assert_eq!(text, "grüße, wörld");
}

#[test]
fn invalid_utf8_loads_as_bytes_but_not_as_text() {
    let contents = vec![0xFFu8, 0xFE];
    let loaded = load_file_bytes(contents.clone());
    assert_eq!(loaded, &[0xFF, 0xFE]);
    assert_eq!(load_file_str(contents), Err(LoadError::InvalidEncoding));
}

#[test]
fn reasons_name_each_failure() {
    assert_eq!(LoadError::InvalidBase.reason(), "invalid source file path");
    assert_eq!(LoadError::FileNotFound.reason(), "file not found");
    assert_eq!(LoadError::ReadFailed.reason(), "unable to read the file");
    assert_eq!(LoadError::InvalidEncoding.reason(), "invalid utf8");
}

#[test]
fn diagnostic_before_resolution_names_reason_operation_and_path() {
    let m = format_diagnostic(&LoadError::InvalidBase, "load_bytes!", "greeting.txt", None);
    assert_eq!(m, "invalid source file path in load_bytes!(\"greeting.txt\")");
}

#[test]
fn missing_file_diagnostic_names_the_requested_path() {
    let m = format_diagnostic(&LoadError::FileNotFound, "load_bytes!", "greeting.txt", None);
    assert!(m.contains("file not found"));
    assert!(m.contains("greeting.txt"));
    assert_eq!(m, "file not found in load_bytes!(\"greeting.txt\")");
}

#[test]
fn diagnostic_after_resolution_appends_the_resolved_path() {
    let m = format_diagnostic(
        &LoadError::ReadFailed,
        "load_str!",
        "greeting.txt",
        Some("src/greeting.txt"),
    );
    assert_eq!(
        m,
        "unable to read the file in load_str!(\"greeting.txt\") (resolved to: \"src/greeting.txt\")"
    );
}

#[test]
fn encoding_diagnostic_names_invalid_utf8() {
    let m = format_diagnostic(&LoadError::InvalidEncoding, "load_str!", "data.bin", Some("src/data.bin"));
    assert!(m.contains("invalid utf8"));
    assert_eq!(m, "invalid utf8 in load_str!(\"data.bin\") (resolved to: \"src/data.bin\")");
}

#[test]
fn diagnostic_escapes_backslashes_and_quotes() {
    let m = format_diagnostic(&LoadError::FileNotFound, "load_bytes!", "a\\b\"c", None);
    assert_eq!(m, "file not found in load_bytes!(\"a\\\\b\\\"c\")");
}

#[test]
fn diagnostic_escapes_named_control_characters() {
    let rel = "a\nb\tc\rd\0e";
    let m = format_diagnostic(&LoadError::FileNotFound, "load_bytes!", rel, None);
    assert_eq!(m, format!("file not found in load_bytes!({:?})", rel));
    assert_eq!(m, "file not found in load_bytes!(\"a\\nb\\tc\\rd\\0e\")");
}

#[test]
fn diagnostic_escapes_other_control_characters_as_hex() {
    let rel = "a\u{1}b\u{1f}c\u{7f}d\u{9f}e";
    let m = format_diagnostic(&LoadError::FileNotFound, "load_bytes!", rel, None);
    assert_eq!(m, format!("file not found in load_bytes!({:?})", rel));
    assert_eq!(
        m,
        "file not found in load_bytes!(\"a\\u{1}b\\u{1f}c\\u{7f}d\\u{9f}e\")"
    );
}

#[test]
fn end_to_end_greeting_beside_the_caller() {
    let path = resolve_path("examples/show.rs", "greeting.txt").unwrap();
    assert_eq!(path, "examples/greeting.txt");
    let contents = b"Hello, world!".to_vec();
    let bytes = load_file_bytes(contents.clone());
    assert_eq!(bytes.len(), 13);
    assert_eq!(bytes, "Hello, world!".as_bytes());
    let text = load_file_str(contents).unwrap();
    assert_eq!(text, "Hello, world!");
}
