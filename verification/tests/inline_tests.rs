use sphinx_ultra::renderer::HtmlRenderer;

#[test]
fn test_render_inline_markup() {
    let renderer = HtmlRenderer::new();

    let result = renderer.render_rst_inline("This is **bold** text.");
    assert!(result.contains("<strong>bold</strong>"));

    let result = renderer.render_rst_inline("This is *italic* text.");
    assert!(result.contains("<em>italic</em>"));

    let result = renderer.render_rst_inline("This is ``code`` text.");
    assert!(result.contains("<code>code</code>"));
}

#[test]
fn test_bold_italic_code_together() {
    let renderer = HtmlRenderer::new();
    let result = renderer.render_rst_inline("This is **bold** and *italic* and ``code``.");
    assert!(result.contains("<strong>bold</strong>"));
    assert!(result.contains("<em>italic</em>"));
    assert!(result.contains("<code>code</code>"));
    assert!(!result.contains('*'));
    assert!(!result.contains('`'));
}

#[test]
fn test_rst_single_backtick_inline_code() {
    let renderer = HtmlRenderer::new();

    let result = renderer.render_rst_inline("Use `my_function()` to call it.");
    assert!(
        result.contains("<code class=\"code docutils literal notranslate\"><span class=\"pre\">my_function()</span></code>"),
        "single backticks should render as a literal code span, got: {}",
        result
    );
    assert!(!result.contains("`my_function()`"));
}

#[test]
fn test_rst_external_link() {
    let renderer = HtmlRenderer::new();

    let result = renderer
        .render_rst_inline("See the `howto <https://docs.example.org/cookbook.html>`_ for examples.");
    assert!(
        result.contains(
            "<a class=\"reference external\" href=\"https://docs.example.org/cookbook.html\">howto</a>"
        ),
        "external link should render with its class, got: {}",
        result
    );
}

#[test]
fn test_rst_internal_reference() {
    let renderer = HtmlRenderer::new();

    let result = renderer.render_rst_inline("See `my-section`_ for details.");
    assert!(
        result.contains("<a class=\"reference internal\" href=\"#my-section\">my-section</a>"),
        "internal reference should create an anchor link, got: {}",
        result
    );
}

#[test]
fn test_ref_role_rendering() {
    let renderer = HtmlRenderer::new();
    let result = renderer.render_rst_inline("See :ref:`attrs <attributes>`.");
    assert!(
        result.contains("<span class=\"std std-ref\">attrs</span></a>"),
        "got: {}",
        result
    );
    assert!(
        result.contains("href=\"attributes.html#attributes\""),
        "got: {}",
        result
    );
    assert!(!result.contains("attrs &lt;attributes&gt;"));
}

#[test]
fn test_markup_free_text_is_escaped_only() {
    let renderer = HtmlRenderer::new();
    let text = "Fish & chips are <tasty>.";
    let expected = html_escape::encode_text(text).to_string();
    assert_eq!(renderer.render_rst_inline(text), expected);
}

#[test]
fn test_escape_matches_reference_encoder() {
    let renderer = HtmlRenderer::new();
    for text in ["a > b && a < c", "plain words", "1 + 1 = 2"] {
        assert_eq!(
            renderer.render_rst_inline(text),
            html_escape::encode_text(text).to_string()
        );
    }
}

#[test]
fn test_unknown_role_becomes_comment() {
    let renderer = HtmlRenderer::new();
    let result = renderer.render_rst_inline("Use :nosuchrole:`target` here.");
    assert!(result.contains("<!-- Unknown role: nosuchrole -->"), "got: {}", result);
}
