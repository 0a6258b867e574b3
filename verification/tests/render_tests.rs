use sphinx_ultra::document::DocumentContent;
use sphinx_ultra::parser::Parser;
use sphinx_ultra::renderer::HtmlRenderer;

fn render(content: &str) -> String {
    let parser = Parser::new();
    let doc = parser.parse("test.rst", content);
    let renderer = HtmlRenderer::new();
    renderer.render_document_content(&doc.content)
}

#[test]
fn test_simple_document_title_and_section() {
    let parser = Parser::new();
    let doc = parser.parse("test.rst", "My Title\n========\n\nSome text.");
    assert_eq!(doc.title, "My Title");
    let renderer = HtmlRenderer::new();
    let html = renderer.render_document_content(&doc.content);
    assert!(html.contains("<section id=\"my-title\">"), "got: {}", html);
    // The fixed underline table assigns '=' level 3, so the heading tag is
    // h3; its headerlink anchor is the title's slug.
    assert!(
        html.contains("<h3>My Title<a class=\"headerlink\" href=\"#my-title\""),
        "got: {}",
        html
    );
    assert!(html.contains("<p>Some text.</p>"));
}

#[test]
fn test_sections_balanced_and_nested() {
    let html = render(
        "Top\n===\n\nIntro.\n\nSub\n---\n\nBody.\n\nOther\n=====\n\nTail.\n",
    );
    let opens = html.matches("<section").count();
    let closes = html.matches("</section>").count();
    assert_eq!(opens, 3);
    assert_eq!(opens, closes);
    let first_close = html.find("</section>").unwrap();
    let sub = html.find("id=\"sub\"").unwrap();
    assert!(sub < first_close, "sub-section must nest inside the first");
}

#[test]
fn test_unknown_directive_produces_no_visible_output() {
    let html = render(
        "Title\n=====\n\nSome text before.\n\n.. unknown-directive:: argument\n   :option: value\n\n   Some content inside the directive.\n\nSome text after.\n",
    );
    assert!(!html.contains("unknown-directive"), "got: {}", html);
    assert!(!html.contains(":option:"));
    assert!(html.contains("Some text before"));
    assert!(html.contains("Some text after"));
    assert!(!html.contains("<p>.."));
}

#[test]
fn test_unknown_rst_construct_not_in_output() {
    let html = render(
        "Title\n=====\n\nSome text before.\n\n.. something-unknown something something\n\nMore text after.\n",
    );
    assert!(!html.contains("something-unknown"));
    assert!(html.contains("Some text before"));
    assert!(html.contains("More text after"));
}

#[test]
fn test_note_directive_renders_admonition() {
    let html = render("Title\n=====\n\n.. note::\n\n   Read the manual first.\n");
    assert!(html.contains("admonition note"), "got: {}", html);
    assert!(html.contains("Read the manual first."));
}

#[test]
fn test_raw_html_directive_inserts_html() {
    let html = render(
        "Title\n=====\n\n.. raw:: html\n\n   <div class=\"custom-widget\">x</div>\n",
    );
    assert!(html.contains("<div class=\"custom-widget\">x</div>"), "got: {}", html);
    assert!(!html.contains(".. raw::"));
}

#[test]
fn test_toctree_directive_with_explicit_titles() {
    let html = render(
        "Welcome\n=======\n\n.. toctree::\n   :maxdepth: 2\n   :caption: Contents\n\n   Introduction <intro>\n   Tutorial Guide <tutorial/index>\n",
    );
    assert!(!html.contains("<p>.. toctree::"));
    assert!(html.contains("toctree-wrapper"));
    assert!(html.contains("Contents"));
    assert!(html.contains("intro.html"));
    assert!(html.contains("tutorial/index.html"));
    assert!(html.contains(">Introduction<"));
    assert!(html.contains(">Tutorial Guide<"));
    assert!(!html.contains(">intro<"));
}

#[test]
fn test_toctree_with_document_titles_from_registry() {
    let parser = Parser::new();
    let doc = parser.parse(
        "index.rst",
        "Index\n=====\n\n.. toctree::\n\n   intro\n   unknown-doc\n",
    );
    let mut renderer = HtmlRenderer::new();
    renderer.register_document_title("intro", "Introduction to the Project");
    let html = renderer.render_document_content(&doc.content);
    assert!(html.contains(">Introduction to the Project<"), "got: {}", html);
    assert!(html.contains(">unknown-doc<"));
    assert!(html.contains("intro.html"));
}

#[test]
fn test_toctree_hidden() {
    let html = render("Index\n=====\n\n.. toctree::\n   :hidden:\n\n   secret_page\n");
    assert!(html.contains("toctree-wrapper"));
    assert!(html.contains("display: none"), "got: {}", html);
}

#[test]
fn test_link_target_not_rendered_in_html() {
    let html = render(
        "Title\n=====\n\n.. _my-link-target:\n\nSome paragraph after the link target.\n",
    );
    assert!(!html.contains(".. _my-link-target"));
    assert!(html.contains("<span id=\"my-link-target\"></span>"), "got: {}", html);
    assert!(html.contains("Some paragraph after"));
}

#[test]
fn test_blockquote_rendering() {
    let html = render("Title\n=====\n\nType: `Union[int, str]`\n\n    See :ref:`after <after>`\n");
    assert!(html.contains("<blockquote>"), "got: {}", html);
    assert!(html.contains("href=\"after.html#after\""), "got: {}", html);
    assert!(html.contains("<span class=\"std std-ref\">after</span></a>"), "got: {}", html);
}

#[test]
fn test_literalinclude_with_lines() {
    let parser = Parser::new();
    let doc = parser.parse(
        "index.rst",
        "Title\n=====\n\n.. literalinclude:: sample.txt\n   :lines: 2-4\n",
    );
    let mut renderer = HtmlRenderer::new();
    renderer.add_source_file("sample.txt", "one\ntwo\nthree\nfour\nfive\n");
    let html = renderer.render_document_content(&doc.content);
    assert!(html.contains("two"), "got: {}", html);
    assert!(html.contains("three"));
    assert!(html.contains("four"));
    assert!(!html.contains("one\n"), "line one must be excluded, got: {}", html);
    assert!(!html.contains("five"));
}

#[test]
fn test_literalinclude_with_start_after_end_before() {
    let parser = Parser::new();
    let doc = parser.parse(
        "index.rst",
        "Title\n=====\n\n.. literalinclude:: sample.py\n   :start-after: # START\n   :end-before: # END\n",
    );
    let mut renderer = HtmlRenderer::new();
    renderer.add_source_file(
        "sample.py",
        "before\n# START\nkept line\n# END\nafter\n",
    );
    let html = renderer.render_document_content(&doc.content);
    assert!(html.contains("kept line"), "got: {}", html);
    assert!(!html.contains("# START"));
    assert!(!html.contains("# END"));
    assert!(!html.contains("before"));
    assert!(!html.contains("after\n"));
}

#[test]
fn test_literalinclude_file_not_found() {
    let parser = Parser::new();
    let doc = parser.parse("index.rst", "Title\n=====\n\n.. literalinclude:: missing.py\n");
    let renderer = HtmlRenderer::new();
    let html = renderer.render_document_content(&doc.content);
    assert!(
        html.contains("<!-- literalinclude error: could not read 'missing.py'"),
        "got: {}",
        html
    );
}

#[test]
fn test_include_basic() {
    let parser = Parser::new();
    let doc = parser.parse("index.rst", "Title\n=====\n\n.. include:: part.rst\n");
    let mut renderer = HtmlRenderer::new();
    renderer.add_source_file("part.rst", "Included paragraph here.\n");
    let html = renderer.render_document_content(&doc.content);
    assert!(html.contains("Included paragraph here."), "got: {}", html);
}

#[test]
fn test_include_file_not_found() {
    let parser = Parser::new();
    let doc = parser.parse("index.rst", "Title\n=====\n\n.. include:: missing.rst\n");
    let renderer = HtmlRenderer::new();
    let html = renderer.render_document_content(&doc.content);
    assert!(html.contains("<!-- include error: could not read 'missing.rst'"), "got: {}", html);
}

#[test]
fn test_include_cycle_reports_error() {
    let parser = Parser::new();
    let doc = parser.parse("index.rst", "Title\n=====\n\n.. include:: a.rst\n");
    let mut renderer = HtmlRenderer::new();
    renderer.add_source_file("a.rst", ".. include:: a.rst\n");
    let html = renderer.render_document_content(&doc.content);
    assert!(html.contains("<!-- include error: nesting too deep -->"), "got: {}", html);
}

#[test]
fn test_code_block_directive_highlighted() {
    let html = render(
        "Code Example\n============\n\n.. code-block:: python\n\n   def greet(name):\n       return name\n",
    );
    assert!(html.contains("highlight-python"), "got: {}", html);
    assert!(html.contains("<pre"), "got: {}", html);
    assert!(html.contains("greet"));
    assert!(!html.contains("<p>.. code-block::"));
}

#[test]
fn test_render_rst_list() {
    let html = render("Title\n=====\n\nIntro:\n\n- Item 1\n- Item 2\n");
    // The block parser keeps hyphen lists as paragraphs; the rendered text
    // must still carry both items.
    assert!(html.contains("Item 1"));
    assert!(html.contains("Item 2"));
}

#[test]
fn test_plain_text_rendering() {
    let parser = Parser::new();
    let doc = parser.parse("notes.txt", "a < b & c");
    let renderer = HtmlRenderer::new();
    let html = renderer.render_document_content(&doc.content);
    assert_eq!(html, "<p>a &lt; b &amp; c</p>");
}

#[test]
fn test_markdown_minimal_paragraphs() {
    // The Markdown path is intentionally minimal: the event stream hands
    // each text run over as its own paragraph.
    let parser = Parser::new();
    let doc = parser.parse("notes.md", "This is **bold** text.");
    let renderer = HtmlRenderer::new();
    let html = renderer.render_document_content(&doc.content);
    assert!(html.contains("<p>This is </p>"), "got: {}", html);
    assert!(html.contains("<p>bold</p>"), "got: {}", html);
    assert!(!html.contains("**"));
}
