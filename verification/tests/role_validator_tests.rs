use sphinx_ultra::directives::validation::roles::{
    DocRoleValidator, DownloadRoleValidator, KbdRoleValidator, MathRoleValidator,
    RefRoleValidator,
};
use sphinx_ultra::directives::validation::{
    ParsedRole, RoleValidationResult, RoleValidator, SourceLocation,
};

fn create_test_role(name: &str, target: &str, display_text: Option<String>) -> ParsedRole {
    ParsedRole {
        name: name.to_string(),
        target: target.to_string(),
        display_text,
        location: SourceLocation {
            file: "test.rst".to_string(),
            line: 1,
            column: 1,
        },
    }
}

#[test]
fn test_doc_role_validator() {
    let validator = DocRoleValidator::new();

    let role = create_test_role("doc", "installation", None);
    assert!(matches!(validator.validate(&role), RoleValidationResult::Valid));

    let role = create_test_role("doc", "", None);
    assert!(matches!(validator.validate(&role), RoleValidationResult::Error(_)));

    let role = create_test_role("doc", "installation.rst", None);
    assert!(matches!(validator.validate(&role), RoleValidationResult::Warning(_)));
}

#[test]
fn test_ref_role_validator() {
    let validator = RefRoleValidator::new();

    let role = create_test_role("ref", "advanced-usage", None);
    assert!(matches!(validator.validate(&role), RoleValidationResult::Valid));

    let role = create_test_role("ref", "advanced usage", None);
    assert!(matches!(validator.validate(&role), RoleValidationResult::Error(_)));

    let role = create_test_role("ref", "Advanced-Usage", None);
    assert!(matches!(validator.validate(&role), RoleValidationResult::Warning(_)));
}

#[test]
fn test_download_role_validator() {
    let validator = DownloadRoleValidator::new();

    let role = create_test_role("download", "example.pdf", None);
    assert!(matches!(validator.validate(&role), RoleValidationResult::Valid));

    let role = create_test_role("download", "example", None);
    assert!(matches!(validator.validate(&role), RoleValidationResult::Warning(_)));

    let role = create_test_role("download", "https://example.com/file.pdf", None);
    assert!(matches!(validator.validate(&role), RoleValidationResult::Warning(_)));
}

#[test]
fn test_math_role_validator() {
    let validator = MathRoleValidator::new();

    let role = create_test_role("math", "x = y + z", None);
    assert!(matches!(validator.validate(&role), RoleValidationResult::Valid));

    let role = create_test_role("math", "", None);
    assert!(matches!(validator.validate(&role), RoleValidationResult::Error(_)));

    let role = create_test_role("math", "x = \\frac{a}{b", None);
    assert!(matches!(validator.validate(&role), RoleValidationResult::Warning(_)));
}

#[test]
fn test_kbd_role_validator() {
    let validator = KbdRoleValidator::new();

    let role = create_test_role("kbd", "Ctrl+C", None);
    assert!(matches!(validator.validate(&role), RoleValidationResult::Valid));

    let role = create_test_role("kbd", "", None);
    assert!(matches!(validator.validate(&role), RoleValidationResult::Error(_)));
}
