use furnace::composer::parse_php_version;
use furnace::config::load_config;
use furnace::error::FurnaceError;
use furnace::paths::home_dir;
use furnace::strutil::{contains, last_path_segment, str_eq};
use furnace::version::extract_major_minor;

#[test]
fn composer_requirement_is_read_from_json() {
    let text = "{\"name\":\"acme/blog\",\"require\":{\"php\":\"^8.2\",\"laravel/framework\":\"^11.0\"}}";
    let req = parse_php_version(text).unwrap();
    assert_eq!(req, "^8.2");
    assert_eq!(extract_major_minor(&req), "8.2");
}

#[test]
fn composer_without_php_requirement_yields_nothing() {
    assert!(parse_php_version("{\"require\":{}}").is_none());
    assert!(parse_php_version("{}").is_none());
    assert!(parse_php_version("not json at all {{{").is_none());
    assert!(parse_php_version("{\"require\":{\"php\":8}}").is_none());
}

#[test]
fn config_php_version_is_read_from_yaml() {
    let cfg = load_config("php_version: \"8.3\"\n").unwrap();
    assert_eq!(cfg.php_version.as_deref(), Some("8.3"));
}

#[test]
fn config_without_the_entry_is_still_a_config() {
    let cfg = load_config("other: 1\n").unwrap();
    assert!(cfg.php_version.is_none());
}

#[test]
fn unparsable_config_yields_nothing() {
    assert!(load_config(": : :\n\t?").is_none());
}

#[test]
fn substring_search_matches_the_library_rules() {
    assert!(contains("bind() to 0.0.0.0:80 failed (98: Address already in use)", "Address already in use"));
    assert!(!contains("clean shutdown", "Address already in use"));
    assert!(contains("abc", ""));
    assert!(!contains("ab", "abc"));
}

#[test]
fn last_segment_of_a_path() {
    assert_eq!(last_path_segment("/srv/blog"), "blog");
    assert_eq!(last_path_segment("blog"), "blog");
    assert_eq!(last_path_segment("/srv/blog/"), "");
}

#[test]
fn string_equality_helper() {
    assert!(str_eq("nginx", "nginx"));
    assert!(!str_eq("nginx", "apache"));
}

#[test]
fn error_messages_name_their_kind() {
    assert_eq!(
        FurnaceError::NotFound("blog".to_string()).message(),
        "not found: blog"
    );
    assert_eq!(
        FurnaceError::Conflict("blog".to_string()).message(),
        "conflict: blog"
    );
    assert_eq!(
        FurnaceError::ExternalToolFailure("boom".to_string()).message(),
        "external tool failure: boom"
    );
    assert_eq!(
        FurnaceError::ResourceUnavailable("port 80".to_string()).message(),
        "resource unavailable: port 80"
    );
    assert_eq!(
        FurnaceError::IOFailure("disk".to_string()).message(),
        "io failure: disk"
    );
}

#[test]
fn home_directory_probe_answers() {
    // the answer depends on the machine; only its shape is checked
    let h = home_dir();
    if let Some(p) = h {
        assert!(!p.is_empty());
    }
}
