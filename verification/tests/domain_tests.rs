use sphinx_ultra::domains::python::PythonDomain;
use sphinx_ultra::domains::rst::RstDomain;
use sphinx_ultra::domains::{
    CrossReference, DomainValidator, ReferenceLocation, ReferenceType,
};

fn create_test_location() -> ReferenceLocation {
    ReferenceLocation {
        docname: "test.rst".to_string(),
        lineno: Some(10),
        column: Some(5),
        source_path: Some("test.rst".to_string()),
    }
}

#[test]
fn test_python_domain_creation() {
    let domain = PythonDomain::new();
    assert_eq!(domain.domain_name(), "python");
    assert!(domain
        .supported_reference_types()
        .contains(&ReferenceType::Function));
    assert!(domain
        .supported_reference_types()
        .contains(&ReferenceType::Class));
}

#[test]
fn test_register_function() {
    let mut domain = PythonDomain::new();

    let result = domain.register_function(
        "test_func".to_string(),
        "module.test_func".to_string(),
        Some("test_func(x, y)".to_string()),
        Some("Test function".to_string()),
        create_test_location(),
    );

    assert!(result.is_ok());
    assert_eq!(domain.get_all_objects().len(), 1);

    let objs = domain.get_all_objects();
    let obj = objs[0];
    assert_eq!(obj.name, "test_func");
    assert_eq!(obj.object_type, "function");
    assert_eq!(obj.domain, "python");
}

#[test]
fn test_reference_resolution() {
    let mut domain = PythonDomain::new();

    domain
        .register_function(
            "example".to_string(),
            "mymodule.example".to_string(),
            None,
            None,
            create_test_location(),
        )
        .unwrap();

    let reference = CrossReference {
        ref_type: ReferenceType::Function,
        target: "mymodule.example".to_string(),
        display_text: None,
        source_location: create_test_location(),
        is_external: false,
    };

    let resolved = domain.resolve_reference(&reference);
    assert!(resolved.is_some());

    let obj = resolved.unwrap();
    assert_eq!(obj.qualified_name, "mymodule.example");
    assert_eq!(obj.object_type, "function");
}

#[test]
fn test_reference_validation() {
    let mut domain = PythonDomain::new();

    domain
        .register_class(
            "TestClass".to_string(),
            "module.TestClass".to_string(),
            None,
            create_test_location(),
        )
        .unwrap();

    let valid_ref = CrossReference {
        ref_type: ReferenceType::Class,
        target: "module.TestClass".to_string(),
        display_text: None,
        source_location: create_test_location(),
        is_external: false,
    };

    let result = domain.validate_reference(&valid_ref);
    assert!(result.is_valid);
    assert!(result.target_object.is_some());
    assert!(result.error_message.is_none());

    let invalid_ref = CrossReference {
        ref_type: ReferenceType::Class,
        target: "nonexistent.Class".to_string(),
        display_text: None,
        source_location: create_test_location(),
        is_external: false,
    };

    let result = domain.validate_reference(&invalid_ref);
    assert!(!result.is_valid);
    assert!(result.target_object.is_none());
    assert!(result.error_message.is_some());
}

#[test]
fn test_suggestions() {
    let mut domain = PythonDomain::new();

    domain
        .register_function(
            "similar_function".to_string(),
            "module.similar_function".to_string(),
            None,
            None,
            create_test_location(),
        )
        .unwrap();

    let reference = CrossReference {
        ref_type: ReferenceType::Function,
        target: "similar".to_string(),
        display_text: None,
        source_location: create_test_location(),
        is_external: false,
    };

    let result = domain.validate_reference(&reference);
    assert!(!result.is_valid);
    assert!(!result.suggestions.is_empty());
    assert!(result
        .suggestions
        .contains(&"module.similar_function".to_string()));
}

#[test]
fn test_rst_domain_creation() {
    let domain = RstDomain::new();
    assert_eq!(domain.domain_name(), "rst");
    assert!(domain
        .supported_reference_types()
        .contains(&ReferenceType::Document));
    assert!(domain
        .supported_reference_types()
        .contains(&ReferenceType::Section));
}

#[test]
fn test_register_document() {
    let mut domain = RstDomain::new();

    let result = domain.register_document(
        "index".to_string(),
        "Home Page".to_string(),
        create_test_location(),
    );

    assert!(result.is_ok());
    assert_eq!(domain.get_all_objects().len(), 1);

    let reference = CrossReference {
        ref_type: ReferenceType::Document,
        target: "index".to_string(),
        display_text: None,
        source_location: create_test_location(),
        is_external: false,
    };
    let doc = domain.resolve_reference(&reference).unwrap();
    assert_eq!(doc.name, "index");
    assert_eq!(doc.object_type, "document");
    assert_eq!(doc.metadata.get("title"), Some(&"Home Page".to_string()));
}

#[test]
fn test_register_section() {
    let mut domain = RstDomain::new();

    let result = domain.register_section(
        "introduction".to_string(),
        "Introduction".to_string(),
        "index".to_string(),
        create_test_location(),
    );

    assert!(result.is_ok());
    assert_eq!(domain.get_all_objects().len(), 1);

    let reference = CrossReference {
        ref_type: ReferenceType::Section,
        target: "introduction".to_string(),
        display_text: None,
        source_location: create_test_location(),
        is_external: false,
    };
    let section = domain.resolve_reference(&reference).unwrap();
    assert_eq!(section.name, "introduction");
    assert_eq!(section.object_type, "section");
    assert_eq!(
        section.metadata.get("title"),
        Some(&"Introduction".to_string())
    );
    assert_eq!(section.metadata.get("docname"), Some(&"index".to_string()));
}

#[test]
fn test_document_reference_validation() {
    let mut domain = RstDomain::new();

    domain
        .register_document(
            "getting-started".to_string(),
            "Getting Started".to_string(),
            create_test_location(),
        )
        .unwrap();

    let valid_ref = CrossReference {
        ref_type: ReferenceType::Document,
        target: "getting-started".to_string(),
        display_text: None,
        source_location: create_test_location(),
        is_external: false,
    };

    let result = domain.validate_reference(&valid_ref);
    assert!(result.is_valid);
    assert!(result.target_object.is_some());

    let valid_ref_ext = CrossReference {
        ref_type: ReferenceType::Document,
        target: "getting-started.rst".to_string(),
        display_text: None,
        source_location: create_test_location(),
        is_external: false,
    };

    let result = domain.validate_reference(&valid_ref_ext);
    assert!(result.is_valid);

    let invalid_ref = CrossReference {
        ref_type: ReferenceType::Document,
        target: "nonexistent".to_string(),
        display_text: None,
        source_location: create_test_location(),
        is_external: false,
    };

    let result = domain.validate_reference(&invalid_ref);
    assert!(!result.is_valid);
    assert!(result.error_message.is_some());
}

#[test]
fn test_section_reference_validation() {
    let mut domain = RstDomain::new();

    domain
        .register_section(
            "api-reference".to_string(),
            "API Reference".to_string(),
            "api".to_string(),
            create_test_location(),
        )
        .unwrap();

    let valid_ref = CrossReference {
        ref_type: ReferenceType::Section,
        target: "api-reference".to_string(),
        display_text: None,
        source_location: create_test_location(),
        is_external: false,
    };

    let result = domain.validate_reference(&valid_ref);
    assert!(result.is_valid);
    assert!(result.target_object.is_some());

    let invalid_ref = CrossReference {
        ref_type: ReferenceType::Section,
        target: "api".to_string(),
        display_text: None,
        source_location: create_test_location(),
        is_external: false,
    };

    let result = domain.validate_reference(&invalid_ref);
    assert!(!result.is_valid);
    assert!(!result.suggestions.is_empty());
}
