use sphinx_ultra::navigation::NavigationBuilder;

#[test]
fn test_navigation_builder() {
    let mut builder = NavigationBuilder::new("index".to_string());

    builder.register_document("index", "Welcome");
    builder.register_document("intro", "Introduction");
    builder.register_document("guide", "User Guide");
    builder.register_document("api", "API Reference");

    builder.register_toctree(
        "index",
        vec!["intro".to_string(), "guide".to_string(), "api".to_string()],
    );

    let tree = builder.build_tree();
    assert_eq!(tree.title, "Welcome");
    assert_eq!(tree.children.len(), 3);
}

#[test]
fn test_explicit_title_syntax() {
    let mut builder = NavigationBuilder::new("index".to_string());

    builder.register_document("index", "Welcome");
    builder.register_document("intro", "Introduction");

    builder.register_toctree("index", vec!["Getting Started <intro>".to_string()]);

    let tree = builder.build_tree();
    assert_eq!(tree.children[0].title, "Getting Started");
    assert_eq!(tree.children[0].doc_path, "intro");
}

#[test]
fn test_flatten_reading_order() {
    let mut builder = NavigationBuilder::new("index".to_string());
    builder.register_document("index", "Welcome");
    builder.register_document("intro", "Introduction");
    builder.register_document("guide", "User Guide");
    builder.register_toctree("index", vec!["intro".to_string(), "guide".to_string()]);

    let tree = builder.build_tree();
    let flat = tree.flatten();
    assert_eq!(flat.len(), 3);
    assert_eq!(flat[0].0, "index");
    assert_eq!(flat[0].1, "Welcome");
    assert_eq!(flat[1].0, "intro");
    assert_eq!(flat[2].0, "guide");
}

#[test]
fn test_external_entries_stay_leaves() {
    let mut builder = NavigationBuilder::new("index".to_string());
    builder.register_document("index", "Welcome");
    builder.register_toctree(
        "index",
        vec!["Docs <https://docs.example.org/>".to_string()],
    );
    let tree = builder.build_tree();
    assert_eq!(tree.children.len(), 1);
    assert_eq!(tree.children[0].doc_path, "https://docs.example.org/");
    assert_eq!(tree.children[0].title, "Docs");
    assert!(tree.children[0].children.is_empty());
}

#[test]
fn test_self_reference_stays_finite() {
    let mut builder = NavigationBuilder::new("index".to_string());
    builder.register_document("index", "Welcome");
    builder.register_toctree("index", vec!["index".to_string()]);
    let tree = builder.build_tree();
    assert_eq!(tree.children.len(), 1);
    assert_eq!(tree.children[0].doc_path, "index");
    assert!(tree.children[0].children.is_empty());
}

#[test]
fn test_page_navigation() {
    let mut builder = NavigationBuilder::new("index".to_string());

    builder.register_document("index", "Welcome");
    builder.register_document("intro", "Introduction");
    builder.register_document("guide", "User Guide");

    builder.register_toctree("index", vec!["intro".to_string(), "guide".to_string()]);

    let nav = builder.get_page_navigation("intro");

    assert!(nav.prev.is_some());
    assert_eq!(nav.prev.as_ref().unwrap().title, "Welcome");

    assert!(nav.next.is_some());
    assert_eq!(nav.next.as_ref().unwrap().title, "User Guide");

    assert_eq!(nav.parents.len(), 1);
    assert_eq!(nav.parents[0].title, "Welcome");
}

#[test]
fn test_render_toctree() {
    let mut builder = NavigationBuilder::new("index".to_string());

    builder.register_document("index", "Welcome");
    builder.register_document("intro", "Introduction");
    builder.register_document("guide", "User Guide");

    builder.register_toctree("index", vec!["intro".to_string(), "guide".to_string()]);

    let options = sphinx_ultra::navigation::ToctreeOptions::default();
    let html = builder.render_toctree(&options);

    assert!(html.contains("Introduction"));
    assert!(html.contains("User Guide"));
    assert!(html.contains("intro.html"));
    assert!(html.contains("guide.html"));
    assert!(!html.contains("Welcome"));
}

#[test]
fn test_render_toctree_with_current_doc() {
    let mut builder = NavigationBuilder::new("index".to_string());

    builder.register_document("index", "Welcome");
    builder.register_document("components", "Components");
    builder.register_document("action", "Action");

    builder.register_toctree("index", vec!["components".to_string()]);
    builder.register_toctree("components", vec!["action".to_string()]);

    let mut options = sphinx_ultra::navigation::ToctreeOptions::default();
    options.current_doc = Some("action".to_string());
    let html = builder.render_toctree(&options);

    assert!(html.contains("class=\"toctree-l1 current has-children\""));
    assert!(html.contains("class=\"toctree-l2 current current-page\""));
    assert!(html.contains("class=\"current reference internal\" href=\"action.html\""));
    assert!(html.contains("toctree-checkbox"));
}

#[test]
fn test_render_toctree_has_children() {
    let mut builder = NavigationBuilder::new("index".to_string());

    builder.register_document("index", "Welcome");
    builder.register_document("parent", "Parent");
    builder.register_document("child", "Child");
    builder.register_document("leaf", "Leaf");

    builder.register_toctree("index", vec!["parent".to_string(), "leaf".to_string()]);
    builder.register_toctree("parent", vec!["child".to_string()]);

    let options = sphinx_ultra::navigation::ToctreeOptions::default();
    let html = builder.render_toctree(&options);

    assert!(html.contains("has-children"));
    assert!(html.contains(
        "<li class=\"toctree-l1\"><a class=\"reference internal\" href=\"leaf.html\">Leaf</a></li>"
    ));
}

#[test]
fn test_cycle_reported_in_title() {
    let mut builder = NavigationBuilder::new("index".to_string());
    builder.register_document("index", "Welcome");
    builder.register_document("a", "Alpha");
    builder.register_toctree("index", vec!["a".to_string()]);
    builder.register_toctree("a", vec!["index".to_string()]);
    let tree = builder.build_tree();
    assert_eq!(tree.children.len(), 1);
    assert_eq!(tree.children[0].doc_path, "a");
    assert_eq!(tree.children[0].children.len(), 1);
    let back = &tree.children[0].children[0];
    assert_eq!(back.doc_path, "index");
    assert_eq!(back.title, "Welcome (circular reference)");
    assert!(back.children.is_empty());
}
