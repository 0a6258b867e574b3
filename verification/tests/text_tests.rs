use sphinx_ultra::matching::{normalize_path, translate_pattern};
use sphinx_ultra::renderer::{extract_plain_text_for_slug, slugify};
use sphinx_ultra::validation::{ValidationConfig, ValidationResult};

#[test]
fn test_translate_pattern() {
    assert_eq!(translate_pattern("*.rst"), "^[^/]*\\.rst$");
    assert_eq!(translate_pattern("**"), "^.*$");
    assert_eq!(translate_pattern("**/index.rst"), "^(?:[^/]+/)*index\\.rst$");
    assert_eq!(translate_pattern("docs/*.rst"), "^docs/[^/]*\\.rst$");

    assert_eq!(translate_pattern("[abc].rst"), "^[abc]\\.rst$");
    assert_eq!(translate_pattern("[!abc].rst"), "^[^abc]\\.rst$");
}

#[test]
fn test_translate_pattern_matches() {
    let re = regex::Regex::new(&translate_pattern("**/index.rst")).unwrap();
    assert!(re.is_match("a/b/index.rst"));
    assert!(re.is_match("index.rst"));
    assert!(!re.is_match("a/b/other.rst"));

    let re = regex::Regex::new(&translate_pattern("*.rst")).unwrap();
    assert!(re.is_match("intro.rst"));
    assert!(!re.is_match("a/intro.rst"));
}

#[test]
fn test_normalize_path() {
    assert_eq!(normalize_path("a\\b\\c.rst"), "a/b/c.rst");
    assert_eq!(normalize_path("a/b/c.rst"), "a/b/c.rst");
}

#[test]
fn test_slugify() {
    assert_eq!(slugify("Hello World"), "hello-world");
    assert_eq!(slugify("Introduction"), "introduction");
    assert_eq!(slugify("API Reference"), "api-reference");
    assert_eq!(slugify("foo_bar-baz"), "foo-bar-baz");
    assert_eq!(slugify("Action.button"), "action-button");
    assert_eq!(slugify("Action.delete"), "action-delete");
}

#[test]
fn test_extract_plain_text_for_slug() {
    assert_eq!(
        extract_plain_text_for_slug("`after` (:ref:`evaluated <evaluate>`)"),
        "after (evaluated)"
    );
    assert_eq!(extract_plain_text_for_slug("`display_name`"), "display_name");
    assert_eq!(
        extract_plain_text_for_slug("`foo` and :doc:`Bar`"),
        "foo and Bar"
    );
}

#[test]
fn test_validation_result_creation() {
    let success = ValidationResult::success();
    assert!(success.passed);
    assert!(success.error_message.is_none());

    let failure = ValidationResult::failure("Test error".to_string());
    assert!(!failure.passed);
    assert_eq!(failure.error_message.unwrap(), "Test error");
}

#[test]
fn test_validation_config_defaults() {
    let config = ValidationConfig::default();
    assert!(config.settings.enable_constraints);
    assert!(config.settings.cache_results);
    assert!(config.constraint_failed_options.contains_key("critical"));
}
