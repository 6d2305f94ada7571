use furnace::version::{extract_major_minor, sanitize_php_version};

#[test]
fn caret_requirement_becomes_major_minor() {
    assert_eq!(extract_major_minor("^8.2"), "8.2");
}

#[test]
fn range_requirement_becomes_major_minor() {
    assert_eq!(extract_major_minor(">=8.2.1"), "8.2");
}

#[test]
fn bare_major_is_kept() {
    assert_eq!(extract_major_minor("8"), "8");
}

#[test]
fn empty_input_gives_empty_version() {
    assert_eq!(extract_major_minor(""), "");
}

#[test]
fn trailing_dot_is_kept_verbatim() {
    assert_eq!(extract_major_minor("8."), "8.");
}

#[test]
fn leading_dot_is_kept_verbatim() {
    // the run starts at the first digit, so the dot before it is skipped
    assert_eq!(extract_major_minor(".5"), "5");
}

#[test]
fn text_around_the_version_is_dropped() {
    assert_eq!(extract_major_minor("php >= 7.4.33, please"), "7.4");
}

#[test]
fn sanitize_keeps_the_full_run() {
    assert_eq!(sanitize_php_version(">=8.2.1"), "8.2.1");
}

#[test]
fn sanitize_of_plain_version_is_identity() {
    assert_eq!(sanitize_php_version("8.3"), "8.3");
}

#[test]
fn sanitize_without_digits_is_empty() {
    assert_eq!(sanitize_php_version("latest"), "");
}
