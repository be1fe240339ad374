use focus_session::identity::{canonicalize, parse_frontmost_pid, resolve_identity, SampleError};
use focus_session::text::{contains_substr, str_eq, trim};

#[test]
fn electron_host_path_maps_to_friendly_name() {
    let raw = "/Applications/Visual Studio Code.app/Contents/MacOS/Electron Code Helper";
    assert_eq!(canonicalize(raw), "VS Code");
}

#[test]
fn canonical_friendly_name_is_unchanged() {
    assert_eq!(canonicalize("VS Code"), "VS Code");
}

#[test]
fn canonicalizing_twice_equals_canonicalizing_once() {
    for raw in [
        "VS Code",
        "/Applications/Visual Studio Code.app/Contents/MacOS/Electron",
        "/Applications/Safari.app/Contents/MacOS/Safari",
        "",
    ] {
        let once = canonicalize(raw);
        let twice = canonicalize(&once);
        assert_eq!(twice, once);
    }
}

#[test]
fn marker_match_is_case_sensitive() {
    assert_eq!(canonicalize("/usr/bin/xcodebuild"), "/usr/bin/xcodebuild");
    assert_eq!(canonicalize("/usr/bin/XCodebuild"), "VS Code");
}

#[test]
fn plain_command_line_is_its_own_identity() {
    let raw = "/Applications/Google Chrome.app/Contents/MacOS/Google Chrome";
    assert_eq!(canonicalize(raw), raw);
}

#[test]
fn resolve_trims_and_canonicalizes() {
    let r = resolve_identity("  /Applications/Safari.app/Contents/MacOS/Safari\n");
    assert_eq!(
        r.unwrap(),
        "/Applications/Safari.app/Contents/MacOS/Safari"
    );
    let r = resolve_identity("\t/opt/editors/Code Helper\n");
    assert_eq!(r.unwrap(), "VS Code");
}

#[test]
fn blank_descriptor_is_unresolvable() {
    assert_eq!(
        resolve_identity("   \n").unwrap_err(),
        SampleError::UnresolvableIdentity
    );
    assert_eq!(
        resolve_identity("").unwrap_err(),
        SampleError::UnresolvableIdentity
    );
}

#[test]
fn frontmost_pid_parses_trimmed_numeral() {
    assert_eq!(parse_frontmost_pid("1234\n").unwrap(), 1234);
    assert_eq!(parse_frontmost_pid(" 7 ").unwrap(), 7);
    assert_eq!(parse_frontmost_pid("4294967295").unwrap(), u32::MAX);
}

#[test]
fn empty_query_output_means_no_frontmost_process() {
    assert_eq!(
        parse_frontmost_pid("").unwrap_err(),
        SampleError::NoFrontmostProcess
    );
    assert_eq!(
        parse_frontmost_pid(" \n").unwrap_err(),
        SampleError::NoFrontmostProcess
    );
}

#[test]
fn malformed_query_output_is_a_failed_query() {
    assert_eq!(
        parse_frontmost_pid("abc").unwrap_err(),
        SampleError::QueryFailed
    );
    assert_eq!(
        parse_frontmost_pid("12a4").unwrap_err(),
        SampleError::QueryFailed
    );
    assert_eq!(
        parse_frontmost_pid("-5").unwrap_err(),
        SampleError::QueryFailed
    );
    assert_eq!(
        parse_frontmost_pid("4294967296").unwrap_err(),
        SampleError::QueryFailed
    );
}

#[test]
fn trim_strips_surrounding_whitespace_only() {
    assert_eq!(trim("  VS Code \t\n"), "VS Code");
    assert_eq!(trim("no-space"), "no-space");
    assert_eq!(trim(" \t\r\n"), "");
    assert_eq!(trim("a b"), "a b");
}

#[test]
fn str_eq_is_exact_equality() {
    assert!(str_eq("VS Code", "VS Code"));
    assert!(!str_eq("VS Code", "vs code"));
    assert!(!str_eq("VS Code", "VS Code "));
    assert!(str_eq("", ""));
}

#[test]
fn substring_search_finds_the_marker() {
    assert!(contains_substr("/opt/Code Helper", "Code"));
    assert!(contains_substr("Code", "Code"));
    assert!(!contains_substr("Cod", "Code"));
    assert!(!contains_substr("/usr/bin/xcodebuild", "Code"));
    assert!(contains_substr("anything", ""));
}
