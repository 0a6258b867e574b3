use sphinx_ultra::document::{DocumentContent, RstNode};
use sphinx_ultra::parser::Parser;

fn parse_rst_content(parser: &Parser, content: &str) -> sphinx_ultra::document::Document {
    parser.parse("test.rst", content)
}

#[test]
fn test_title_with_equals_underline() {
    let parser = Parser::new();
    let content = "My Title\n========\n\nSome text.";
    let doc = parse_rst_content(&parser, content);

    assert_eq!(doc.title, "My Title");
}

#[test]
fn test_title_with_dash_underline() {
    let parser = Parser::new();
    let content = "My Title\n--------\n\nSome text.";
    let doc = parse_rst_content(&parser, content);

    assert_eq!(doc.title, "My Title");
}

#[test]
fn test_title_with_tilde_underline() {
    let parser = Parser::new();
    let content = "My Title\n~~~~~~~~\n\nSome text.";
    let doc = parse_rst_content(&parser, content);

    assert_eq!(doc.title, "My Title");
}

#[test]
fn test_title_levels() {
    let parser = Parser::new();

    assert_eq!(parser.get_rst_title_level('#'), 1);
    assert_eq!(parser.get_rst_title_level('*'), 2);
    assert_eq!(parser.get_rst_title_level('='), 3);
    assert_eq!(parser.get_rst_title_level('-'), 4);
    assert_eq!(parser.get_rst_title_level('^'), 5);
    assert_eq!(parser.get_rst_title_level('"'), 6);
}

#[test]
fn test_multiple_titles_with_different_underlines() {
    let parser = Parser::new();
    let content = "Main Title\n==========\n\nSome intro text.\n\nSubsection\n----------\n\nMore text.\n";
    let doc = parse_rst_content(&parser, content);

    assert_eq!(doc.title, "Main Title");
}

#[test]
fn test_title_with_non_breaking_spaces() {
    let parser = Parser::new();
    let content = "`attrs`\u{00A0}\u{00A0}\u{00A0}(:ref:`evaluated <evaluate>`)\n^^^^^^^^^^^^^^^^^^^^^^^^^^^^^^^^^^^^^^^^^^^\n\nType: :doc:`Attrs`\n";
    let doc = parse_rst_content(&parser, content);

    assert!(!doc.title.is_empty() && doc.title != "Untitled");

    if let DocumentContent::RestructuredText(rst) = &doc.content {
        let title_count = rst
            .ast
            .iter()
            .filter(|node| matches!(node, RstNode::Title { .. }))
            .count();
        assert_eq!(title_count, 1);
    } else {
        panic!("expected RST content");
    }
}

#[test]
fn test_directive_parsed_with_options_and_content() {
    let parser = Parser::new();
    let content = "Title\n=====\n\n.. code-block:: python\n   :caption: Example\n\n   print('hi')\n";
    let doc = parse_rst_content(&parser, content);
    if let DocumentContent::RestructuredText(rst) = &doc.content {
        assert_eq!(rst.directives.len(), 1);
        let d = &rst.directives[0];
        assert_eq!(d.name, "code-block");
        assert_eq!(d.args.len(), 1);
        assert_eq!(d.args[0], "python");
        assert_eq!(d.options.get("caption"), Some(&"Example".to_string()));
        assert_eq!(d.content, "print('hi')");
    } else {
        panic!("expected RST content");
    }
}

#[test]
fn test_link_target_parsed() {
    let parser = Parser::new();
    let content = "Title\n=====\n\n.. _my-target:\n\nSome paragraph.\n";
    let doc = parse_rst_content(&parser, content);
    if let DocumentContent::RestructuredText(rst) = &doc.content {
        assert!(rst
            .ast
            .iter()
            .any(|n| matches!(n, RstNode::LinkTarget { name, .. } if name == "my-target")));
    } else {
        panic!("expected RST content");
    }
}

#[test]
fn test_cross_refs_extracted() {
    let parser = Parser::new();
    let content = "See :doc:`installation` and :ref:`setup`.\n";
    let doc = parser.parse("test.rst", content);
    assert_eq!(doc.cross_refs.len(), 2);
    assert_eq!(doc.cross_refs[0].ref_type, "doc");
    assert_eq!(doc.cross_refs[0].target, "installation");
    assert_eq!(doc.cross_refs[1].ref_type, "ref");
    assert_eq!(doc.cross_refs[1].target, "setup");
}

#[test]
fn test_output_path_extension() {
    let parser = Parser::new();
    let doc = parser.parse("docs/intro.rst", "Hello\n");
    assert_eq!(doc.output_path, "docs/intro.html");
    let doc = parser.parse("README", "Hello\n");
    assert_eq!(doc.output_path, "README.html");
}

#[test]
fn test_plain_text_document() {
    let parser = Parser::new();
    let doc = parser.parse("notes.txt", "just text");
    assert!(matches!(doc.content, DocumentContent::PlainText(_)));
    assert_eq!(doc.title, "Untitled");
    assert!(doc.toc.is_empty());
}

#[test]
fn test_directive_args_split_on_whitespace() {
    let parser = Parser::new();
    let content = ".. admonition:: Custom  Warning Title\n\n   Body text.\n";
    let doc = parse_rst_content(&parser, content);
    if let DocumentContent::RestructuredText(rst) = &doc.content {
        assert_eq!(rst.directives.len(), 1);
        let d = &rst.directives[0];
        assert_eq!(d.name, "admonition");
        assert_eq!(d.args, vec!["Custom", "Warning", "Title"]);
    } else {
        panic!("expected RST content");
    }
}
