use dirtree::exclude::get_excluded_folders;
use dirtree::exclude::parse_excluded;
use dirtree::exclude::trim_str;
use dirtree::messages::header_line;
use dirtree::messages::missing_path_error;
use dirtree::render::is_excluded_dir;

fn list(v: &[&str]) -> Vec<String> {
    v.iter().map(|s| s.to_string()).collect()
}

#[test]
fn parse_splits_on_commas_and_trims() {
    assert_eq!(parse_excluded(" node_modules , build,bin"), list(&["node_modules", "build", "bin"]));
}

#[test]
fn parse_keeps_empty_pieces() {
    assert_eq!(parse_excluded("a,,b,"), list(&["a", "", "b", ""]));
    assert_eq!(parse_excluded(""), list(&[""]));
}

#[test]
fn trim_removes_surrounding_whitespace_only() {
    assert_eq!(trim_str(" \t a b \n"), "a b".to_string());
    assert_eq!(trim_str("plain"), "plain".to_string());
    assert_eq!(trim_str("  \t "), "".to_string());
}

#[test]
fn configured_value_overrides_default() {
    assert_eq!(get_excluded_folders(Some("x, y")), list(&["x", "y"]));
}

#[test]
fn default_list_used_when_unset() {
    assert_eq!(
        get_excluded_folders(None),
        list(&[
            "node_modules",
            "build",
            "bin",
            "user-management-service",
            "franchise-service",
            "gradle",
            "logs",
            "customer-service",
            "node_modules",
        ])
    );
}

#[test]
fn exclusion_test_ignores_files_and_spots_hidden_dirs() {
    let excl = list(&["bin"]);
    assert!(is_excluded_dir(&"bin".to_string(), true, &excl));
    assert!(!is_excluded_dir(&"bin".to_string(), false, &excl));
    assert!(is_excluded_dir(&".git".to_string(), true, &list(&[])));
    assert!(!is_excluded_dir(&".gitignore".to_string(), false, &list(&[])));
    assert!(!is_excluded_dir(&"src".to_string(), true, &excl));
}

#[test]
fn header_names_the_resolved_path() {
    assert_eq!(header_line("/some/dir"), "Tree structure of: /some/dir".to_string());
}

#[test]
fn missing_path_message_matches() {
    assert_eq!(missing_path_error("/nope"), "Error: Path '/nope' does not exist.".to_string());
}
