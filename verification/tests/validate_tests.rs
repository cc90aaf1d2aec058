use jj_backend::errors::JJError;
use jj_backend::repo::probe_repo_structure;
use jj_backend::validate::validate_and_canonicalize_path;

#[test]
fn empty_path_is_rejected() {
    assert_eq!(validate_and_canonicalize_path("").unwrap_err(), JJError::EmptyPath);
}

#[test]
fn parent_directory_pattern_is_rejected() {
    assert_eq!(validate_and_canonicalize_path("/tmp/../etc").unwrap_err(), JJError::UnsafePattern);
    assert_eq!(validate_and_canonicalize_path("..").unwrap_err(), JJError::UnsafePattern);
}

#[test]
fn home_shorthand_is_rejected() {
    assert_eq!(validate_and_canonicalize_path("~/repo").unwrap_err(), JJError::UnsafePattern);
    assert_eq!(validate_and_canonicalize_path("~").unwrap_err(), JJError::UnsafePattern);
}

#[test]
fn unsafe_pattern_wins_over_invalid_characters() {
    // The deny list is checked before the control-character scan.
    assert_eq!(validate_and_canonicalize_path("..\u{7}").unwrap_err(), JJError::UnsafePattern);
}

#[test]
fn null_byte_is_rejected() {
    assert_eq!(validate_and_canonicalize_path("/tmp/\0").unwrap_err(), JJError::InvalidCharacters);
}

#[test]
fn control_character_is_rejected() {
    assert_eq!(
        validate_and_canonicalize_path("/tmp/\u{1b}x").unwrap_err(),
        JJError::InvalidCharacters,
    );
}

#[test]
fn newline_tab_and_carriage_return_pass_the_character_check() {
    // These characters are allowed by the scan; the path then simply fails to
    // resolve on the filesystem.
    assert_eq!(
        validate_and_canonicalize_path("/no_such_dir\n").unwrap_err(),
        JJError::InvalidOrInaccessible,
    );
    assert_eq!(
        validate_and_canonicalize_path("/no_such_dir\t\r").unwrap_err(),
        JJError::InvalidOrInaccessible,
    );
}

#[test]
fn root_directory_validates() {
    let canonical = validate_and_canonicalize_path("/").unwrap();
    assert_eq!(canonical.as_str(), "/");
}

#[test]
fn nonexistent_path_is_inaccessible() {
    assert_eq!(
        validate_and_canonicalize_path("/no_such_dir_for_these_tests").unwrap_err(),
        JJError::InvalidOrInaccessible,
    );
}

#[test]
fn file_path_is_not_a_directory() {
    let result = validate_and_canonicalize_path("/proc/self/status");
    assert_eq!(result.unwrap_err(), JJError::NotADirectory);
}

#[test]
fn directory_without_metadata_is_not_a_repository() {
    let canonical = validate_and_canonicalize_path("/").unwrap();
    assert_eq!(
        probe_repo_structure(&canonical, true).unwrap_err(),
        JJError::NotARepository,
    );
    assert_eq!(
        probe_repo_structure(&canonical, false).unwrap_err(),
        JJError::NotARepository,
    );
}
