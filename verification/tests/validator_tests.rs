use sphinx_ultra::directives::validation::builtin::{
    CodeBlockValidator, ImageValidator, MathValidator, NoteValidator,
};
use sphinx_ultra::directives::validation::{
    DirectiveRegistry, DirectiveValidationResult, DirectiveValidationSystem, DirectiveValidator,
    ParsedDirective, RoleRegistry, SourceLocation, ValidationStatistics,
};
use sphinx_ultra::strmap::StrMap;

fn create_test_directive(
    name: &str,
    args: Vec<String>,
    options: StrMap<String>,
    content: &str,
) -> ParsedDirective {
    ParsedDirective {
        name: name.to_string(),
        arguments: args,
        options,
        content: content.to_string(),
        location: SourceLocation {
            file: "test.rst".to_string(),
            line: 1,
            column: 1,
        },
    }
}

#[test]
fn test_directive_registry_creation() {
    let registry = DirectiveRegistry::new();
    assert_eq!(registry.get_registered_directives().len(), 0);
}

#[test]
fn test_directive_registry_with_builtin() {
    let registry = DirectiveRegistry::with_builtin_validators();
    assert!(!registry.get_registered_directives().is_empty());
    assert!(registry.is_directive_registered("code-block"));
    assert!(registry.is_directive_registered("note"));
    assert!(registry.is_directive_registered("warning"));
}

#[test]
fn test_role_registry_creation() {
    let registry = RoleRegistry::new();
    assert_eq!(registry.get_registered_roles().len(), 0);
}

#[test]
fn test_role_registry_with_builtin() {
    let registry = RoleRegistry::with_builtin_validators();
    assert!(!registry.get_registered_roles().is_empty());
    assert!(registry.is_role_registered("doc"));
    assert!(registry.is_role_registered("ref"));
    assert!(registry.is_role_registered("download"));
}

#[test]
fn test_validation_statistics() {
    let mut stats = ValidationStatistics::new();

    let directive = create_test_directive("note", vec![], StrMap::new(), "Test content");

    stats.record_directive(&directive, &DirectiveValidationResult::Valid);
    assert_eq!(stats.total_directives, 1);
    assert_eq!(stats.valid_directives, 1);
}

#[test]
fn test_validation_system() {
    let mut system = DirectiveValidationSystem::new();

    let directive = create_test_directive("note", vec![], StrMap::new(), "Test content");

    let result = system.validate_directive(&directive);
    assert!(matches!(result, DirectiveValidationResult::Valid));
    assert_eq!(system.statistics().total_directives, 1);
}

#[test]
fn test_code_block_validator() {
    let validator = CodeBlockValidator::new();

    let directive = create_test_directive(
        "code-block",
        vec!["python".to_string()],
        StrMap::new(),
        "print('Hello, world!')",
    );
    assert!(matches!(
        validator.validate(&directive),
        DirectiveValidationResult::Valid
    ));

    let directive = create_test_directive(
        "code-block",
        vec![],
        StrMap::new(),
        "print('Hello, world!')",
    );
    assert!(matches!(
        validator.validate(&directive),
        DirectiveValidationResult::Warning(_)
    ));
}

#[test]
fn test_note_validator() {
    let validator = NoteValidator::new();

    let directive = create_test_directive("note", vec![], StrMap::new(), "This is a note");
    assert!(matches!(
        validator.validate(&directive),
        DirectiveValidationResult::Valid
    ));

    let directive = create_test_directive("note", vec![], StrMap::new(), "");
    assert!(matches!(
        validator.validate(&directive),
        DirectiveValidationResult::Error(_)
    ));
}

#[test]
fn test_image_validator() {
    let validator = ImageValidator::new();

    let directive =
        create_test_directive("image", vec!["test.png".to_string()], StrMap::new(), "");
    assert!(matches!(
        validator.validate(&directive),
        DirectiveValidationResult::Valid
    ));

    let directive = create_test_directive("image", vec![], StrMap::new(), "");
    assert!(matches!(
        validator.validate(&directive),
        DirectiveValidationResult::Error(_)
    ));
}

#[test]
fn test_math_validator() {
    let validator = MathValidator::new();

    let directive = create_test_directive("math", vec![], StrMap::new(), "x = \\frac{a}{b}");
    assert!(matches!(
        validator.validate(&directive),
        DirectiveValidationResult::Valid
    ));

    let directive = create_test_directive("math", vec![], StrMap::new(), "");
    assert!(matches!(
        validator.validate(&directive),
        DirectiveValidationResult::Error(_)
    ));
}

#[test]
fn test_image_validator_option_units() {
    let validator = ImageValidator::new();
    let mut options = StrMap::new();
    options.insert("width", "100px".to_string());
    options.insert("align", "center".to_string());
    let directive =
        create_test_directive("image", vec!["test.png".to_string()], options, "");
    assert!(matches!(
        validator.validate(&directive),
        DirectiveValidationResult::Valid
    ));

    let mut options = StrMap::new();
    options.insert("width", "100".to_string());
    let directive =
        create_test_directive("image", vec!["test.png".to_string()], options, "");
    assert!(matches!(
        validator.validate(&directive),
        DirectiveValidationResult::Warning(_)
    ));

    let mut options = StrMap::new();
    options.insert("scale", "not-a-number".to_string());
    let directive =
        create_test_directive("image", vec!["test.png".to_string()], options, "");
    assert!(matches!(
        validator.validate(&directive),
        DirectiveValidationResult::Error(_)
    ));

    let mut options = StrMap::new();
    options.insert("scale", "1.5e2".to_string());
    let directive =
        create_test_directive("image", vec!["test.png".to_string()], options, "");
    assert!(matches!(
        validator.validate(&directive),
        DirectiveValidationResult::Valid
    ));
}
