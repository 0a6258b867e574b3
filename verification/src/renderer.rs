//! The AST-to-HTML renderer: heading-driven section nesting, per-node
//! rendering through the inline markup engine, and the directive dispatch
//! for toctree, literalinclude and include.  Syntax highlighting is done by
//! syntect behind trusted wrappers.

use vstd::prelude::*;

use crate::document::{
    spec_pairs_get, spec_pairs_has, DocumentContent, MarkdownContent, MarkdownNode, MdNodeView,
    NodeView, RstContent, RstNode, opts_view, lemma_opts_get,
};
use crate::inline::{
    render_inline_chars, render_nav_title, slugify_chars, spec_count_not, count_not_from,
    spec_nav_title, spec_render_inline, spec_slugify, spec_find_span1, lemma_find_span1_bounds,
};
use crate::strmap::StrMap;
use crate::text::{
    append_chars, append_str, chars_eq_str, escape_html, from_chars, is_whitespace_char,
    join_chars, lemma_find_char_at, lemma_find_char_none, parse_usize, slice_range,
    spec_count_word, spec_count_ws, count_ws_from, spec_escape_html, spec_find_char, spec_is_blank,
    spec_lines, spec_parse_uint, spec_starts_with, spec_trim, split_lines, to_chars, trim_chars,
    count_word_from, spec_contains, contains_sub, find_sub, spec_split_char, split_char,
};

verus! {

// ---------------------------------------------------------------------------
// Trusted view of syntect.
// ---------------------------------------------------------------------------

#[verifier::external_type_specification]
#[verifier::external_body]
pub struct ExSyntaxSet(syntect::parsing::SyntaxSet);

#[verifier::external_type_specification]
#[verifier::external_body]
pub struct ExThemeSet(syntect::highlighting::ThemeSet);

/// The highlighted HTML that syntect yields for the given sets, theme name,
/// language token and code, if any.
pub uninterp spec fn highlight_of(
    ss: syntect::parsing::SyntaxSet,
    ts: syntect::highlighting::ThemeSet,
    theme: Seq<char>,
    token: Option<Seq<char>>,
    code: Seq<char>,
) -> Option<Seq<char>>;

/// Whether a theme set holds a theme of the given name.
pub uninterp spec fn theme_has(ts: syntect::highlighting::ThemeSet, name: Seq<char>) -> bool;

/// Relies on syntect::parsing::SyntaxSet::load_defaults_newlines: loads the
/// bundled syntax definitions.
#[verifier::external_body]
fn load_default_syntaxes() -> syntect::parsing::SyntaxSet {
    syntect::parsing::SyntaxSet::load_defaults_newlines()
}

/// Relies on syntect::highlighting::ThemeSet::load_defaults: loads the
/// bundled themes.
#[verifier::external_body]
fn load_default_themes() -> syntect::highlighting::ThemeSet {
    syntect::highlighting::ThemeSet::load_defaults()
}

/// Relies on BTreeMap::contains_key over ThemeSet::themes: whether the
/// theme set holds a theme of this name.
#[verifier::external_body]
fn theme_set_has(ts: &syntect::highlighting::ThemeSet, name: &str) -> (r: bool)
    ensures
        r == theme_has(*ts, name@),
{
    ts.themes.contains_key(name)
}

/// Relies on syntect's find_syntax_by_token, find_syntax_by_extension,
/// find_syntax_plain_text, ThemeSet::themes and highlighted_html_for_string:
/// the syntax is chosen by token, then by extension, then plain text, and
/// the highlighted HTML is a function of the sets, the theme name, the
/// token and the code alone; any failure yields nothing. find_syntax_plain_text
/// panics on a syntax set without a "Plain Text" definition; every SyntaxSet
/// reaching this private function comes from load_default_syntaxes, whose
/// defaults include it.
#[verifier::external_body]
fn syntect_highlight(
    ss: &syntect::parsing::SyntaxSet,
    ts: &syntect::highlighting::ThemeSet,
    theme_name: &str,
    token: Option<&str>,
    code: &str,
) -> (r: Option<String>)
    ensures
        match r {
            Some(h) => highlight_of(
                *ss,
                *ts,
                theme_name@,
                match token {
                    Some(t) => Some(t@),
                    None => None,
                },
                code@,
            ) == Some(h@),
            None => highlight_of(
                *ss,
                *ts,
                theme_name@,
                match token {
                    Some(t) => Some(t@),
                    None => None,
                },
                code@,
            ) is None,
        },
{
    let theme = ts.themes.get(theme_name)?;
    let syntax = match token {
        Some(t) => ss
            .find_syntax_by_token(t)
            .or_else(|| ss.find_syntax_by_extension(t))
            .unwrap_or_else(|| ss.find_syntax_plain_text()),
        None => ss.find_syntax_plain_text(),
    };
    syntect::html::highlighted_html_for_string(code, ss, syntax, theme).ok()
}

// ---------------------------------------------------------------------------
// The renderer.
// ---------------------------------------------------------------------------

/// The HTML renderer: the registered document titles, the preloaded source
/// files for the include directives, and the highlighting configuration.
pub struct HtmlRenderer {
    /// Document path to title, for toctree entries.
    document_titles: StrMap<String>,
    /// Source-relative path to file text, for literalinclude and include.
    source_files: StrMap<String>,
    syntax_set: syntect::parsing::SyntaxSet,
    theme_set: syntect::highlighting::ThemeSet,
    theme_name: String,
}

impl HtmlRenderer {
    /// The registered titles, as the specifications see them.
    pub closed spec fn titles(self) -> StrMap<String> {
        self.document_titles
    }

    /// The preloaded files, as the specifications see them.
    pub closed spec fn files(self) -> StrMap<String> {
        self.source_files
    }

    /// The chosen theme name.
    pub closed spec fn spec_theme(self) -> Seq<char> {
        self.theme_name@
    }

    /// The loaded theme set.
    pub closed spec fn spec_theme_set(self) -> syntect::highlighting::ThemeSet {
        self.theme_set
    }

    /// The renderer's maps are well-formed.
    pub open spec fn wf(self) -> bool {
        self.titles().wf() && self.files().wf()
    }

    /// The highlighting outcome for a code block under this renderer.
    pub closed spec fn spec_highlight(self, token: Option<Seq<char>>, code: Seq<char>) -> Seq<
        char,
    > {
        match highlight_of(self.syntax_set, self.theme_set, self.theme_name@, token, code) {
            Some(h) => h,
            None => "<pre><code>"@ + spec_escape_html(code) + "</code></pre>"@,
        }
    }

    /// Create a renderer with the default syntax set, theme set and theme.
    pub fn new() -> (r: HtmlRenderer)
        ensures
            r.wf(),
            r.titles().key_seq() == Seq::<Seq<char>>::empty(),
            r.files().key_seq() == Seq::<Seq<char>>::empty(),
    {
        HtmlRenderer {
            document_titles: StrMap::new(),
            source_files: StrMap::new(),
            syntax_set: load_default_syntaxes(),
            theme_set: load_default_themes(),
            theme_name: String::from_str("base16-ocean.dark"),
        }
    }

    /// Choose the highlighting theme; an unknown name leaves it unchanged.
    pub fn set_theme(&mut self, theme_name: &str)
        requires
            old(self).wf(),
        ensures
            final(self).wf(),
            final(self).titles() == old(self).titles(),
            final(self).files() == old(self).files(),
            final(self).spec_theme() == if theme_has(old(self).spec_theme_set(), theme_name@) {
                theme_name@
            } else {
                old(self).spec_theme()
            },
    {
        if theme_set_has(&self.theme_set, theme_name) {
            self.theme_name = String::from_str(theme_name);
        }
    }

    /// Register a document title for toctree rendering.
    pub fn register_document_title(&mut self, path: &str, title: &str)
        requires
            old(self).wf(),
        ensures
            final(self).wf(),
            final(self).files() == old(self).files(),
            forall|k: Seq<char>| #![auto] crate::document::opt_str_view(
                final(self).titles().spec_get(k),
            ) == if k == path@ {
                crate::document::Some_val(title@)
            } else {
                crate::document::opt_str_view(old(self).titles().spec_get(k))
            },
            final(self).titles().key_seq().len() == old(self).titles().key_seq().len()
                + if old(self).titles().spec_contains_key(path@) {
                0int
            } else {
                1int
            },
    {
        let t = String::from_str(title);
        self.document_titles.insert(path, t);
    }

    /// Look up a registered document title.
    pub fn get_document_title(&self, path: &str) -> (r: Option<&String>)
        requires
            self.wf(),
        ensures
            match r {
                Some(t) => self.titles().spec_get(path@) == Some(*t),
                None => self.titles().spec_get(path@) is None,
            },
    {
        self.document_titles.get(path)
    }

    /// Preload a source file for the literalinclude and include directives.
    pub fn add_source_file(&mut self, path: &str, content: &str)
        requires
            old(self).wf(),
        ensures
            final(self).wf(),
            final(self).titles() == old(self).titles(),
            forall|k: Seq<char>| #![auto] crate::document::opt_str_view(
                final(self).files().spec_get(k),
            ) == if k == path@ {
                crate::document::Some_val(content@)
            } else {
                crate::document::opt_str_view(old(self).files().spec_get(k))
            },
            final(self).files().key_seq().len() == old(self).files().key_seq().len()
                + if old(self).files().spec_contains_key(path@) {
                0int
            } else {
                1int
            },
    {
        let c = String::from_str(content);
        self.source_files.insert(path, c);
    }

    /// Render inline RST markup: roles, references, escaping, code spans,
    /// bold and italic, in that order.
    pub fn render_rst_inline(&self, text: &str) -> (r: String)
        ensures
            r@ == spec_render_inline(text@),
    {
        let v = to_chars(text);
        from_chars(render_inline_chars(v.as_slice()).as_slice())
    }
}

// ---------------------------------------------------------------------------
// Markup stripping for slugs.
// ---------------------------------------------------------------------------

/// A role occurrence for stripping: colon, word, colon, backtick, text
/// without backtick or angle, then either a closing backtick or an angle
/// part and the backtick.  Yields the text bounds and the end.
pub open spec fn spec_strip_role_at(s: Seq<char>, pos: int) -> Option<(int, int, int)> {
    if pos < 0 || pos >= s.len() || s[pos] != ':' {
        None
    } else {
        let k = spec_count_word(s.subrange(pos + 1, s.len() as int));
        if k < 1 || pos + 1 + k >= s.len() || s[pos + 1 + k] != ':' {
            None
        } else if pos + 2 + k >= s.len() || s[pos + 2 + k] != '`' {
            None
        } else {
            let t0 = pos + 3 + k;
            let m = spec_count_not2(s.subrange(t0, s.len() as int));
            if m < 1 || t0 + m >= s.len() {
                None
            } else if s[t0 + m] == '`' {
                Some((t0, t0 + m, t0 + m + 1))
            } else if s[t0 + m] == '<' {
                let g = spec_count_not(s.subrange(t0 + m + 1, s.len() as int), '>');
                if g < 1 || t0 + m + 1 + g + 1 >= s.len() || s[t0 + m + 1 + g] != '>' || s[t0 + m
                    + 2 + g] != '`' {
                    None
                } else {
                    Some((t0, t0 + m, t0 + m + 3 + g))
                }
            } else {
                None
            }
        }
    }
}

/// The number of leading characters that are neither backtick nor angle.
pub open spec fn spec_count_not2(s: Seq<char>) -> int
    decreases s.len(),
{
    if s.len() > 0 && s[0] != '`' && s[0] != '<' {
        1 + spec_count_not2(s.drop_first())
    } else {
        0
    }
}

pub proof fn lemma_count_not2_bounds(s: Seq<char>)
    ensures
        0 <= spec_count_not2(s) <= s.len(),
    decreases s.len(),
{
    if s.len() > 0 && s[0] != '`' && s[0] != '<' {
        lemma_count_not2_bounds(s.drop_first());
    }
}

/// Count the characters of `v` from `i` on that are neither backtick nor
/// angle.
fn count_not2_from(v: &[char], i: usize) -> (r: usize)
    requires
        i <= v@.len(),
    ensures
        r == spec_count_not2(v@.subrange(i as int, v@.len() as int)),
        i + r <= v@.len(),
    decreases v@.len() - i,
{
    let ghost s = v@.subrange(i as int, v@.len() as int);
    if i < v.len() && v[i] != '`' && v[i] != '<' {
        proof {
            assert(s[0] == v@[i as int]);
            assert(s.drop_first() =~= v@.subrange(i + 1, v@.len() as int));
        }
        let rest = count_not2_from(v, i + 1);
        1 + rest
    } else {
        proof {
            if i < v.len() {
                assert(s[0] == v@[i as int]);
            }
        }
        0
    }
}

/// The first role occurrence for stripping.
pub open spec fn spec_find_strip_role(s: Seq<char>, pos: int) -> Option<(int, int, int, int)>
    decreases s.len() - pos,
{
    if pos < 0 || pos >= s.len() {
        None
    } else {
        match spec_strip_role_at(s, pos) {
            Some((a, b, e)) => Some((pos, a, b, e)),
            None => spec_find_strip_role(s, pos + 1),
        }
    }
}

pub proof fn lemma_find_strip_role_bounds(s: Seq<char>, pos: int)
    requires
        0 <= pos,
    ensures
        match spec_find_strip_role(s, pos) {
            Some((st, a, b, e)) => pos <= st && st < a && a <= b && b < e && e <= s.len(),
            None => true,
        },
    decreases s.len() - pos,
{
    if pos < s.len() {
        if spec_strip_role_at(s, pos) is Some {
            let k = spec_count_word(s.subrange(pos + 1, s.len() as int));
            crate::text::lemma_count_word_bounds(s.subrange(pos + 1, s.len() as int));
            let t0 = pos + 3 + k;
            lemma_count_not2_bounds(s.subrange(t0, s.len() as int));
        } else {
            lemma_find_strip_role_bounds(s, pos + 1);
        }
    }
}

/// Find the first role occurrence of `v` for stripping.
fn find_strip_role(v: &[char]) -> (r: Option<(usize, usize, usize, usize)>)
    ensures
        match r {
            Some((st, a, b, e)) => spec_find_strip_role(v@, 0) == Some(
                (st as int, a as int, b as int, e as int),
            ) && st < a && a <= b && b < e && e <= v@.len(),
            None => spec_find_strip_role(v@, 0) is None,
        },
{
    let n = v.len();
    let mut pos: usize = 0;
    while pos < n
        invariant
            n == v@.len(),
            pos <= n,
            spec_find_strip_role(v@, 0) == spec_find_strip_role(v@, pos as int),
        decreases n - pos,
    {
        if v[pos] == ':' {
            let k = count_word_from(v, pos + 1);
            if k >= 1 && pos + 1 + k < n && v[pos + 1 + k] == ':' && pos + 2 + k < n && v[pos + 2
                + k] == '`' {
                let t0 = pos + 3 + k;
                let m = count_not2_from(v, t0);
                if m >= 1 && t0 + m < n {
                    if v[t0 + m] == '`' {
                        return Some((pos, t0, t0 + m, t0 + m + 1));
                    }
                    if v[t0 + m] == '<' {
                        let g = count_not_from(v, '>', t0 + m + 1);
                        if g >= 1 && n - (t0 + m + 1 + g) >= 2 && v[t0 + m + 1 + g] == '>' && v[t0
                            + m + 2 + g] == '`' {
                            return Some((pos, t0, t0 + m, t0 + m + 3 + g));
                        }
                    }
                }
            }
        }
        pos += 1;
    }
    None
}

/// Strip role markup, keeping the trimmed display text.
pub open spec fn spec_strip_roles(s: Seq<char>) -> Seq<char>
    decreases s.len(),
    via spec_strip_roles_decreases
{
    match spec_find_strip_role(s, 0) {
        None => s,
        Some((st, a, b, e)) => s.subrange(0, st) + spec_trim(s.subrange(a, b))
            + spec_strip_roles(s.subrange(e, s.len() as int)),
    }
}

#[via_fn]
proof fn spec_strip_roles_decreases(s: Seq<char>) {
    lemma_find_strip_role_bounds(s, 0);
}

fn strip_roles(v: &[char]) -> (r: Vec<char>)
    ensures
        r@ == spec_strip_roles(v@),
    decreases v@.len(),
{
    let n = v.len();
    match find_strip_role(v) {
        None => slice_range(v, 0, n),
        Some((st, a, b, e)) => {
            proof {
                assert(v@.subrange(0, n as int) =~= v@);
            }
            let mut out = slice_range(v, 0, st);
            let content = trim_chars(slice_range(v, a, b).as_slice());
            append_chars(&mut out, content.as_slice());
            let rest = slice_range(v, e, n);
            let rendered = strip_roles(rest.as_slice());
            append_chars(&mut out, rendered.as_slice());
            proof {
                assert(out@ =~= spec_strip_roles(v@));
            }
            out
        },
    }
}

/// Strip single-backtick code markup, keeping the text.
pub open spec fn spec_strip_ticks(s: Seq<char>) -> Seq<char>
    decreases s.len(),
    via spec_strip_ticks_decreases
{
    match spec_find_span1(s, 0, '`') {
        None => s,
        Some((st, a, b)) => s.subrange(0, st) + s.subrange(a, b) + spec_strip_ticks(
            s.subrange(b + 1, s.len() as int),
        ),
    }
}

#[via_fn]
proof fn spec_strip_ticks_decreases(s: Seq<char>) {
    lemma_find_span1_bounds(s, 0, '`');
}

fn strip_ticks(v: &[char]) -> (r: Vec<char>)
    ensures
        r@ == spec_strip_ticks(v@),
    decreases v@.len(),
{
    let n = v.len();
    match crate::inline::find_span1_pub(v, '`') {
        None => slice_range(v, 0, n),
        Some((st, a, b)) => {
            proof {
                assert(v@.subrange(0, n as int) =~= v@);
            }
            let mut out = slice_range(v, 0, st);
            append_chars(&mut out, slice_range(v, a, b).as_slice());
            let rest = slice_range(v, b + 1, n);
            let rendered = strip_ticks(rest.as_slice());
            append_chars(&mut out, rendered.as_slice());
            proof {
                assert(out@ =~= spec_strip_ticks(v@));
            }
            out
        },
    }
}

/// The characters of `s` that are not backticks.
pub open spec fn spec_drop_ticks(s: Seq<char>) -> Seq<char>
    decreases s.len(),
{
    if s.len() == 0 {
        Seq::empty()
    } else {
        spec_drop_ticks(s.drop_last()) + if s[s.len() - 1] != '`' {
            seq![s[s.len() - 1]]
        } else {
            Seq::<char>::empty()
        }
    }
}

fn drop_ticks(v: &[char]) -> (r: Vec<char>)
    ensures
        r@ == spec_drop_ticks(v@),
{
    let n = v.len();
    let mut out: Vec<char> = Vec::new();
    let mut i: usize = 0;
    proof {
        assert(out@ =~= spec_drop_ticks(v@.subrange(0, 0)));
    }
    while i < n
        invariant
            n == v@.len(),
            i <= n,
            out@ == spec_drop_ticks(v@.subrange(0, i as int)),
        decreases n - i,
    {
        proof {
            let pre = v@.subrange(0, i + 1);
            assert(pre.drop_last() =~= v@.subrange(0, i as int));
            assert(pre[pre.len() - 1] == v@[i as int]);
        }
        if v[i] != '`' {
            out.push(v[i]);
        }
        i += 1;
        proof {
            assert(out@ =~= spec_drop_ticks(v@.subrange(0, i as int)));
        }
    }
    proof {
        assert(v@.subrange(0, n as int) =~= v@);
    }
    out
}

/// Plain text for a slug: role markup reduced to its display text, code
/// markup reduced to its text, and stray backticks dropped.
pub open spec fn spec_strip_markup(s: Seq<char>) -> Seq<char> {
    spec_drop_ticks(spec_strip_ticks(spec_strip_roles(s)))
}

/// Extract plain text from RST markup for use in slugs.
pub fn extract_plain_text_for_slug(text: &str) -> (r: String)
    ensures
        r@ == spec_strip_markup(text@),
{
    let v = to_chars(text);
    let a = strip_roles(v.as_slice());
    let b = strip_ticks(a.as_slice());
    let c = drop_ticks(b.as_slice());
    from_chars(c.as_slice())
}

/// Convert text to a URL-safe slug for anchor IDs.
pub fn slugify(text: &str) -> (r: String)
    ensures
        r@ == spec_slugify(text@),
{
    let v = to_chars(text);
    from_chars(slugify_chars(v.as_slice()).as_slice())
}

// ---------------------------------------------------------------------------
// Per-node helpers.
// ---------------------------------------------------------------------------

/// A heading level clamped to 1 through 6.
pub open spec fn spec_clamp_level(l: int) -> int {
    if l < 1 {
        1
    } else if l > 6 {
        6
    } else {
        l
    }
}

/// The digit character of a clamped heading level.
pub open spec fn spec_level_digit(l: int) -> Seq<char> {
    if l <= 1 {
        "1"@
    } else if l == 2 {
        "2"@
    } else if l == 3 {
        "3"@
    } else if l == 4 {
        "4"@
    } else if l == 5 {
        "5"@
    } else {
        "6"@
    }
}

/// Clamp a heading level and give its digit.
fn clamp_level(level: usize) -> (r: (usize, &'static str))
    ensures
        r.0 == spec_clamp_level(level as int),
        r.1@ == spec_level_digit(spec_clamp_level(level as int)),
{
    if level <= 1 {
        (1, "1")
    } else if level == 2 {
        (2, "2")
    } else if level == 3 {
        (3, "3")
    } else if level == 4 {
        (4, "4")
    } else if level == 5 {
        (5, "5")
    } else {
        (6, "6")
    }
}

/// The anchor slug of a title: its markup-stripped text, slugified.
pub open spec fn spec_title_slug(text: Seq<char>) -> Seq<char> {
    spec_slugify(spec_strip_markup(text))
}

/// A rendered heading: the inline-processed title and a headerlink anchor.
pub open spec fn spec_heading_html(text: Seq<char>, level: int) -> Seq<char> {
    let d = spec_level_digit(spec_clamp_level(level));
    let slug = spec_title_slug(text);
    "<h"@ + d + ">"@ + spec_render_inline(text) + "<a class=\"headerlink\" href=\"#"@ + slug
        + "\" title=\"Link to this heading\">\u{b6}</a></h"@ + d + ">"@
}

/// Build a rendered heading.
fn heading_html(text: &[char], level: usize) -> (r: Vec<char>)
    ensures
        r@ == spec_heading_html(text@, level as int),
{
    let (_, d) = clamp_level(level);
    let slug = slugify_chars(drop_ticks(
        strip_ticks(strip_roles(text).as_slice()).as_slice(),
    ).as_slice());
    let mut out: Vec<char> = Vec::new();
    append_str(&mut out, "<h");
    append_str(&mut out, d);
    append_str(&mut out, ">");
    append_chars(&mut out, render_inline_chars(text).as_slice());
    append_str(&mut out, "<a class=\"headerlink\" href=\"#");
    append_chars(&mut out, slug.as_slice());
    append_str(&mut out, "\" title=\"Link to this heading\">\u{b6}</a></h");
    append_str(&mut out, d);
    append_str(&mut out, ">");
    proof {
        assert(out@ =~= spec_heading_html(text@, level as int));
    }
    out
}

/// One rendered list item: items with embedded newlines become a nested
/// definition sub-list.
pub open spec fn spec_list_item_html(item: Seq<char>) -> Seq<char> {
    if spec_find_char(item, '\n') >= 0 {
        let parts = spec_split_char(item, '\n');
        "<li><dl class=\"simple\">\n<dt>"@ + spec_render_inline(parts[0]) + "</dt><dd><ul>\n"@
            + spec_nested_items_html(parts.drop_first()) + "\n</ul>\n</dd>\n</dl></li>"@
    } else {
        "<li>"@ + spec_render_inline(item) + "</li>"@
    }
}

/// The nested sub-items of a list item, joined with newlines.
pub open spec fn spec_nested_items_html(parts: Seq<Seq<char>>) -> Seq<char>
    decreases parts.len(),
{
    if parts.len() == 0 {
        Seq::empty()
    } else if parts.len() == 1 {
        "<li><p>"@ + spec_render_inline(parts[0]) + "</p></li>"@
    } else {
        "<li><p>"@ + spec_render_inline(parts[0]) + "</p></li>"@ + "\n"@
            + spec_nested_items_html(parts.drop_first())
    }
}

fn nested_items_html(parts: &Vec<Vec<char>>, from: usize) -> (r: Vec<char>)
    requires
        from <= parts@.len(),
    ensures
        r@ == spec_nested_items_html(
            parts.deep_view().subrange(from as int, parts.deep_view().len() as int),
        ),
    decreases parts@.len() - from,
{
    let ghost pv = parts.deep_view();
    let ghost rest = pv.subrange(from as int, pv.len() as int);
    if from >= parts.len() {
        proof {
            assert(rest.len() == 0);
        }
        return Vec::new();
    }
    proof {
        assert(pv[from as int] == parts@[from as int]@);
        assert(rest[0] == pv[from as int]);
        assert(rest.drop_first() =~= pv.subrange(from + 1, pv.len() as int));
    }
    let mut out: Vec<char> = Vec::new();
    append_str(&mut out, "<li><p>");
    append_chars(&mut out, render_inline_chars(parts[from].as_slice()).as_slice());
    append_str(&mut out, "</p></li>");
    if from + 1 < parts.len() {
        append_str(&mut out, "\n");
        let more = nested_items_html(parts, from + 1);
        append_chars(&mut out, more.as_slice());
        proof {
            assert(out@ =~= spec_nested_items_html(rest));
        }
    } else {
        proof {
            assert(rest.len() == 1);
            assert(out@ =~= spec_nested_items_html(rest));
        }
    }
    out
}

/// Build one rendered list item.
fn list_item_html(item: &[char]) -> (r: Vec<char>)
    ensures
        r@ == spec_list_item_html(item@),
{
    let has_nl: bool = match crate::text::find_char(item, '\n', 0) {
        Some(i) => {
            proof {
                lemma_find_char_at(item@, '\n', i as int);
            }
            true
        },
        None => {
            proof {
                lemma_find_char_none(item@, '\n');
            }
            false
        },
    };
    if has_nl {
        let parts = split_char(item, '\n');
        let ghost pv = parts.deep_view();
        proof {
            crate::text::lemma_find_char_props(item@, '\n');
            assert(pv.len() > 0) by {
                assert(spec_split_char(item@, '\n').len() > 0);
            }
            assert(pv[0] == parts@[0]@);
        }
        let mut out: Vec<char> = Vec::new();
        append_str(&mut out, "<li><dl class=\"simple\">\n<dt>");
        append_chars(&mut out, render_inline_chars(parts[0].as_slice()).as_slice());
        append_str(&mut out, "</dt><dd><ul>\n");
        let nested = nested_items_html(&parts, 1);
        append_chars(&mut out, nested.as_slice());
        append_str(&mut out, "\n</ul>\n</dd>\n</dl></li>");
        proof {
            assert(pv.subrange(1, pv.len() as int) =~= pv.drop_first());
            assert(out@ =~= spec_list_item_html(item@));
        }
        out
    } else {
        let mut out: Vec<char> = Vec::new();
        append_str(&mut out, "<li>");
        append_chars(&mut out, render_inline_chars(item).as_slice());
        append_str(&mut out, "</li>");
        proof {
            assert(out@ =~= spec_list_item_html(item@));
        }
        out
    }
}

/// Rendered list items, joined with newlines.
pub open spec fn spec_list_items_html(items: Seq<Seq<char>>) -> Seq<char>
    decreases items.len(),
{
    if items.len() == 0 {
        Seq::empty()
    } else if items.len() == 1 {
        spec_list_item_html(items[0])
    } else {
        spec_list_item_html(items[0]) + "\n"@ + spec_list_items_html(items.drop_first())
    }
}

fn list_items_html(items: &Vec<String>, from: usize) -> (r: Vec<char>)
    requires
        from <= items@.len(),
    ensures
        r@ == spec_list_items_html(
            items.deep_view().subrange(from as int, items.deep_view().len() as int),
        ),
    decreases items@.len() - from,
{
    let ghost iv = items.deep_view();
    let ghost rest = iv.subrange(from as int, iv.len() as int);
    if from >= items.len() {
        proof {
            assert(rest.len() == 0);
        }
        return Vec::new();
    }
    proof {
        assert(iv[from as int] == items@[from as int]@);
        assert(rest[0] == iv[from as int]);
        assert(rest.drop_first() =~= iv.subrange(from + 1, iv.len() as int));
    }
    let item = to_chars(items[from].as_str());
    let mut out = list_item_html(item.as_slice());
    if from + 1 < items.len() {
        append_str(&mut out, "\n");
        let more = list_items_html(items, from + 1);
        append_chars(&mut out, more.as_slice());
        proof {
            assert(out@ =~= spec_list_items_html(rest));
        }
    } else {
        proof {
            assert(rest.len() == 1);
            assert(out@ =~= spec_list_items_html(rest));
        }
    }
    out
}

/// A rendered list node.
pub open spec fn spec_list_html(items: Seq<Seq<char>>, ordered: bool) -> Seq<char> {
    if ordered {
        "<ol>\n"@ + spec_list_items_html(items) + "\n</ol>"@
    } else {
        "<ul class=\"simple\">\n"@ + spec_list_items_html(items) + "\n</ul>"@
    }
}

/// The rendered header cells of a table.
pub open spec fn spec_table_headers(hs: Seq<Seq<char>>) -> Seq<char>
    decreases hs.len(),
{
    if hs.len() == 0 {
        Seq::empty()
    } else {
        "<th>"@ + spec_escape_html(hs[0]) + "</th>\n"@ + spec_table_headers(hs.drop_first())
    }
}

fn table_headers(hs: &Vec<String>, from: usize) -> (r: Vec<char>)
    requires
        from <= hs@.len(),
    ensures
        r@ == spec_table_headers(
            hs.deep_view().subrange(from as int, hs.deep_view().len() as int),
        ),
    decreases hs@.len() - from,
{
    let ghost hv = hs.deep_view();
    let ghost rest = hv.subrange(from as int, hv.len() as int);
    if from >= hs.len() {
        proof {
            assert(rest.len() == 0);
        }
        return Vec::new();
    }
    proof {
        assert(hv[from as int] == hs@[from as int]@);
        assert(rest[0] == hv[from as int]);
        assert(rest.drop_first() =~= hv.subrange(from + 1, hv.len() as int));
    }
    let mut out: Vec<char> = Vec::new();
    append_str(&mut out, "<th>");
    let cell = to_chars(hs[from].as_str());
    append_chars(&mut out, escape_html(cell.as_slice()).as_slice());
    append_str(&mut out, "</th>\n");
    let more = table_headers(hs, from + 1);
    append_chars(&mut out, more.as_slice());
    proof {
        assert(out@ =~= spec_table_headers(rest));
    }
    out
}

/// The rendered cells of one table row.
pub open spec fn spec_table_cells(cs: Seq<Seq<char>>) -> Seq<char>
    decreases cs.len(),
{
    if cs.len() == 0 {
        Seq::empty()
    } else {
        "<td>"@ + spec_escape_html(cs[0]) + "</td>\n"@ + spec_table_cells(cs.drop_first())
    }
}

fn table_cells(cs: &Vec<String>, from: usize) -> (r: Vec<char>)
    requires
        from <= cs@.len(),
    ensures
        r@ == spec_table_cells(
            cs.deep_view().subrange(from as int, cs.deep_view().len() as int),
        ),
    decreases cs@.len() - from,
{
    let ghost cv = cs.deep_view();
    let ghost rest = cv.subrange(from as int, cv.len() as int);
    if from >= cs.len() {
        proof {
            assert(rest.len() == 0);
        }
        return Vec::new();
    }
    proof {
        assert(cv[from as int] == cs@[from as int]@);
        assert(rest[0] == cv[from as int]);
        assert(rest.drop_first() =~= cv.subrange(from + 1, cv.len() as int));
    }
    let mut out: Vec<char> = Vec::new();
    append_str(&mut out, "<td>");
    let cell = to_chars(cs[from].as_str());
    append_chars(&mut out, escape_html(cell.as_slice()).as_slice());
    append_str(&mut out, "</td>\n");
    let more = table_cells(cs, from + 1);
    append_chars(&mut out, more.as_slice());
    proof {
        assert(out@ =~= spec_table_cells(rest));
    }
    out
}

/// The rendered rows of a table body.
pub open spec fn spec_table_rows(rs: Seq<Seq<Seq<char>>>) -> Seq<char>
    decreases rs.len(),
{
    if rs.len() == 0 {
        Seq::empty()
    } else {
        "<tr>\n"@ + spec_table_cells(rs[0]) + "</tr>\n"@ + spec_table_rows(rs.drop_first())
    }
}

fn table_rows(rs: &Vec<Vec<String>>, from: usize) -> (r: Vec<char>)
    requires
        from <= rs@.len(),
    ensures
        r@ == spec_table_rows(
            rs.deep_view().subrange(from as int, rs.deep_view().len() as int),
        ),
    decreases rs@.len() - from,
{
    let ghost rv = rs.deep_view();
    let ghost rest = rv.subrange(from as int, rv.len() as int);
    if from >= rs.len() {
        proof {
            assert(rest.len() == 0);
        }
        return Vec::new();
    }
    proof {
        assert(rv[from as int] =~~= rs@[from as int].deep_view());
        assert(rest[0] == rv[from as int]);
        assert(rest.drop_first() =~= rv.subrange(from + 1, rv.len() as int));
    }
    let mut out: Vec<char> = Vec::new();
    append_str(&mut out, "<tr>\n");
    let cells = table_cells(&rs[from], 0);
    proof {
        assert(rs@[from as int].deep_view().subrange(0, rs@[from as int].deep_view().len() as int)
            =~= rs@[from as int].deep_view());
    }
    append_chars(&mut out, cells.as_slice());
    append_str(&mut out, "</tr>\n");
    let more = table_rows(rs, from + 1);
    append_chars(&mut out, more.as_slice());
    proof {
        assert(out@ =~= spec_table_rows(rest));
    }
    out
}

/// A rendered table node.
pub open spec fn spec_table_html(hs: Seq<Seq<char>>, rs: Seq<Seq<Seq<char>>>) -> Seq<char> {
    "<table>\n"@ + (if hs.len() > 0 {
        "<thead>\n<tr>\n"@ + spec_table_headers(hs) + "</tr>\n</thead>\n"@
    } else {
        Seq::<char>::empty()
    }) + (if rs.len() > 0 {
        "<tbody>\n"@ + spec_table_rows(rs) + "</tbody>\n"@
    } else {
        Seq::<char>::empty()
    }) + "</table>"@
}

/// The rendered items of a definition list.
pub open spec fn spec_dl_items(items: Seq<crate::document::DefItemView>) -> Seq<char>
    decreases items.len(),
{
    if items.len() == 0 {
        Seq::empty()
    } else {
        "<dt>"@ + spec_render_inline(items[0].term) + "</dt><dd><p>"@ + spec_render_inline(
            items[0].definition,
        ) + "</p>\n</dd>\n"@ + spec_dl_items(items.drop_first())
    }
}

fn dl_items(items: &Vec<crate::document::DefinitionItem>, from: usize) -> (r: Vec<char>)
    requires
        from <= items@.len(),
    ensures
        r@ == spec_dl_items(
            items.deep_view().subrange(from as int, items.deep_view().len() as int),
        ),
    decreases items@.len() - from,
{
    let ghost iv = items.deep_view();
    let ghost rest = iv.subrange(from as int, iv.len() as int);
    if from >= items.len() {
        proof {
            assert(rest.len() == 0);
        }
        return Vec::new();
    }
    proof {
        assert(iv[from as int] == items@[from as int]@);
        assert(rest[0] == iv[from as int]);
        assert(rest.drop_first() =~= iv.subrange(from + 1, iv.len() as int));
    }
    let mut out: Vec<char> = Vec::new();
    append_str(&mut out, "<dt>");
    let term = to_chars(items[from].term.as_str());
    append_chars(&mut out, render_inline_chars(term.as_slice()).as_slice());
    append_str(&mut out, "</dt><dd><p>");
    let def = to_chars(items[from].definition.as_str());
    append_chars(&mut out, render_inline_chars(def.as_slice()).as_slice());
    append_str(&mut out, "</p>\n</dd>\n");
    let more = dl_items(items, from + 1);
    append_chars(&mut out, more.as_slice());
    proof {
        assert(out@ =~= spec_dl_items(rest));
    }
    out
}

// ---------------------------------------------------------------------------
// The toctree directive.
// ---------------------------------------------------------------------------

/// The entries of a toctree body: trimmed non-blank lines that are not
/// option lines.
pub open spec fn spec_toctree_entries(lines: Seq<Seq<char>>) -> Seq<Seq<char>>
    decreases lines.len(),
{
    if lines.len() == 0 {
        Seq::empty()
    } else {
        let t = spec_trim(lines[0]);
        (if t.len() > 0 && t[0] != ':' {
            seq![t]
        } else {
            Seq::<Seq<char>>::empty()
        }) + spec_toctree_entries(lines.drop_first())
    }
}

fn toctree_entries(lines: &Vec<Vec<char>>, from: usize) -> (r: Vec<Vec<char>>)
    requires
        from <= lines@.len(),
    ensures
        r.deep_view() == spec_toctree_entries(
            lines.deep_view().subrange(from as int, lines.deep_view().len() as int),
        ),
    decreases lines@.len() - from,
{
    let ghost lv = lines.deep_view();
    let ghost rest = lv.subrange(from as int, lv.len() as int);
    if from >= lines.len() {
        let out: Vec<Vec<char>> = Vec::new();
        proof {
            assert(rest.len() == 0);
            assert(out.deep_view() =~~= spec_toctree_entries(rest));
        }
        return out;
    }
    proof {
        assert(lv[from as int] == lines@[from as int]@);
        assert(rest[0] == lv[from as int]);
        assert(rest.drop_first() =~= lv.subrange(from + 1, lv.len() as int));
    }
    let t = trim_chars(lines[from].as_slice());
    let more = toctree_entries(lines, from + 1);
    if t.len() > 0 && t[0] != ':' {
        let ghost tv = t@;
        let ghost mv = more.deep_view();
        let mut out = more;
        out.insert(0, t);
        proof {
            assert(out.deep_view() =~~= seq![tv] + mv);
            assert(seq![tv] + mv =~~= spec_toctree_entries(rest));
        }
        out
    } else {
        proof {
            assert(more.deep_view() =~~= spec_toctree_entries(rest));
        }
        more
    }
}

/// The explicit title and the path of a toctree entry.
pub open spec fn spec_entry_title_path(e: Seq<char>) -> (Option<Seq<char>>, Seq<char>) {
    let ci = spec_find_char(e, '<');
    if ci >= 0 && e.len() > 0 && e[e.len() - 1] == '>' && ci < e.len() - 1 {
        (Some(spec_trim(e.subrange(0, ci))), e.subrange(ci + 1, e.len() - 1))
    } else {
        (None, e)
    }
}

/// Parse a toctree entry into its explicit title and path.
fn entry_title_path(e: &[char]) -> (r: (Option<Vec<char>>, Vec<char>))
    ensures
        ({
            let s = spec_entry_title_path(e@);
            (match r.0 {
                Some(t) => s.0 == Some(t@),
                None => s.0 is None,
            }) && r.1@ == s.1
        }),
{
    let n = e.len();
    let fi: Option<usize> = match crate::text::find_char(e, '<', 0) {
        Some(i) => {
            proof {
                lemma_find_char_at(e@, '<', i as int);
            }
            Some(i)
        },
        None => {
            proof {
                lemma_find_char_none(e@, '<');
            }
            None
        },
    };
    match fi {
        Some(ci) if n > 0 && e[n - 1] == '>' && ci < n - 1 => {
            let t = trim_chars(slice_range(e, 0, ci).as_slice());
            let p = slice_range(e, ci + 1, n - 1);
            (Some(t), p)
        },
        _ => {
            let p = slice_range(e, 0, n);
            proof {
                assert(p@ =~= e@);
            }
            (None, p)
        },
    }
}

/// The display title of a toctree entry: the explicit title, the registered
/// title of the path, or the path itself.
pub open spec fn spec_entry_display(r: HtmlRenderer, e: Seq<char>) -> Seq<char> {
    let s = spec_entry_title_path(e);
    match s.0 {
        Some(t) => t,
        None => match r.titles().spec_get(s.1) {
            Some(reg) => reg@,
            None => s.1,
        },
    }
}

/// One toctree list entry.
pub open spec fn spec_toctree_li(r: HtmlRenderer, e: Seq<char>) -> Seq<char> {
    let path = spec_entry_title_path(e).1;
    "<li class=\"toctree-l1\"><a class=\"reference internal\" href=\""@ + spec_escape_html(
        path + ".html"@,
    ) + "\">"@ + spec_escape_html(spec_entry_display(r, e)) + "</a></li>\n"@
}

/// The toctree list entries, concatenated.
pub open spec fn spec_toctree_lis(r: HtmlRenderer, es: Seq<Seq<char>>) -> Seq<char>
    decreases es.len(),
{
    if es.len() == 0 {
        Seq::empty()
    } else {
        spec_toctree_li(r, es[0]) + spec_toctree_lis(r, es.drop_first())
    }
}

/// The rendered toctree directive.
pub open spec fn spec_toctree_html(
    r: HtmlRenderer,
    opts: Seq<(Seq<char>, Seq<char>)>,
    content: Seq<char>,
) -> Seq<char> {
    let entries = spec_toctree_entries(spec_lines(content));
    (if spec_pairs_has(opts, "hidden"@) {
        "<div class=\"toctree-wrapper\" style=\"display: none;\">\n"@
    } else {
        "<div class=\"toctree-wrapper\">\n"@
    }) + (match spec_pairs_get(opts, "caption"@) {
        Some(c) => "<p class=\"caption\"><span class=\"caption-text\">"@ + spec_escape_html(c)
            + "</span></p>\n"@,
        None => Seq::<char>::empty(),
    }) + (if entries.len() > 0 {
        "<ul>\n"@ + spec_toctree_lis(r, entries) + "</ul>\n"@
    } else {
        Seq::<char>::empty()
    }) + "</div>"@
}

impl HtmlRenderer {
    /// Render the toctree list entries from `from` on.
    fn toctree_lis(&self, es: &Vec<Vec<char>>, from: usize) -> (r: Vec<char>)
        requires
            self.wf(),
            from <= es@.len(),
        ensures
            r@ == spec_toctree_lis(
                *self,
                es.deep_view().subrange(from as int, es.deep_view().len() as int),
            ),
        decreases es@.len() - from,
    {
        let ghost ev = es.deep_view();
        let ghost rest = ev.subrange(from as int, ev.len() as int);
        if from >= es.len() {
            proof {
                assert(rest.len() == 0);
            }
            return Vec::new();
        }
        proof {
            assert(ev[from as int] == es@[from as int]@);
            assert(rest[0] == ev[from as int]);
            assert(rest.drop_first() =~= ev.subrange(from + 1, ev.len() as int));
        }
        let (title, path) = entry_title_path(es[from].as_slice());
        let mut href = slice_range(path.as_slice(), 0, path.len());
        append_str(&mut href, ".html");
        proof {
            assert(href@ =~= spec_entry_title_path(ev[from as int]).1 + ".html"@);
        }
        let display: Vec<char> = match title {
            Some(t) => t,
            None => {
                match self.document_titles.get(from_chars(path.as_slice()).as_str()) {
                    Some(reg) => to_chars(reg.as_str()),
                    None => path,
                }
            },
        };
        let mut out: Vec<char> = Vec::new();
        append_str(&mut out, "<li class=\"toctree-l1\"><a class=\"reference internal\" href=\"");
        append_chars(&mut out, escape_html(href.as_slice()).as_slice());
        append_str(&mut out, "\">");
        append_chars(&mut out, escape_html(display.as_slice()).as_slice());
        append_str(&mut out, "</a></li>\n");
        let more = self.toctree_lis(es, from + 1);
        append_chars(&mut out, more.as_slice());
        proof {
            assert(out@ =~= spec_toctree_lis(*self, rest));
        }
        out
    }

    /// Render a toctree directive against the registered titles.
    fn render_toctree_directive(&self, options: &StrMap<String>, content: &[char]) -> (r: Vec<
        char,
    >)
        requires
            self.wf(),
            options.wf(),
        ensures
            r@ == spec_toctree_html(*self, opts_view(*options), content@),
    {
        let lines = split_lines(content);
        let entries = toctree_entries(&lines, 0);
        proof {
            assert(lines.deep_view().subrange(0, lines.deep_view().len() as int)
                =~= lines.deep_view());
        }
        let mut out: Vec<char> = Vec::new();
        proof {
            lemma_opts_get(*options, "hidden"@);
            lemma_opts_get(*options, "caption"@);
        }
        let hidden: bool = match options.get("hidden") {
            Some(_) => true,
            None => false,
        };
        if hidden {
            append_str(&mut out, "<div class=\"toctree-wrapper\" style=\"display: none;\">\n");
        } else {
            append_str(&mut out, "<div class=\"toctree-wrapper\">\n");
        }
        match options.get("caption") {
            Some(c) => {
                append_str(&mut out, "<p class=\"caption\"><span class=\"caption-text\">");
                let cv = to_chars(c.as_str());
                append_chars(&mut out, escape_html(cv.as_slice()).as_slice());
                append_str(&mut out, "</span></p>\n");
            },
            None => {},
        }
        if entries.len() > 0 {
            append_str(&mut out, "<ul>\n");
            let lis = self.toctree_lis(&entries, 0);
            proof {
                assert(entries.deep_view().subrange(0, entries.deep_view().len() as int)
                    =~= entries.deep_view());
            }
            append_chars(&mut out, lis.as_slice());
            append_str(&mut out, "</ul>\n");
        }
        append_str(&mut out, "</div>");
        proof {
            assert(out@ =~= spec_toctree_html(*self, opts_view(*options), content@));
        }
        out
    }
}

// ---------------------------------------------------------------------------
// literalinclude: line filters over a preloaded file.
// ---------------------------------------------------------------------------

/// Index of the first line that contains `marker`, or -1.
pub open spec fn spec_find_line_with(lines: Seq<Seq<char>>, marker: Seq<char>) -> int
    decreases lines.len(),
{
    if lines.len() == 0 {
        -1
    } else if spec_contains(lines[0], marker) {
        0
    } else {
        let r = spec_find_line_with(lines.drop_first(), marker);
        if r < 0 {
            -1
        } else {
            r + 1
        }
    }
}

pub proof fn lemma_find_line_with_props(lines: Seq<Seq<char>>, marker: Seq<char>)
    ensures
        spec_find_line_with(lines, marker) >= 0 ==> spec_find_line_with(lines, marker)
            < lines.len(),
        spec_find_line_with(lines, marker) < 0 ==> spec_find_line_with(lines, marker) == -1,
    decreases lines.len(),
{
    if lines.len() > 0 && !spec_contains(lines[0], marker) {
        lemma_find_line_with_props(lines.drop_first(), marker);
    }
}

/// Find the first line of `lines` (from `from`) that contains `marker`.
fn find_line_with(lines: &Vec<Vec<char>>, marker: &[char], from: usize) -> (r: Option<usize>)
    requires
        from <= lines@.len(),
    ensures
        match r {
            Some(i) => from <= i < lines@.len() && spec_find_line_with(
                lines.deep_view().subrange(from as int, lines.deep_view().len() as int),
                marker@,
            ) == i - from,
            None => spec_find_line_with(
                lines.deep_view().subrange(from as int, lines.deep_view().len() as int),
                marker@,
            ) == -1,
        },
    decreases lines@.len() - from,
{
    let ghost lv = lines.deep_view();
    let ghost rest = lv.subrange(from as int, lv.len() as int);
    if from >= lines.len() {
        proof {
            assert(rest.len() == 0);
        }
        return None;
    }
    proof {
        assert(lv[from as int] == lines@[from as int]@);
        assert(rest[0] == lv[from as int]);
        assert(rest.drop_first() =~= lv.subrange(from + 1, lv.len() as int));
    }
    if contains_sub(lines[from].as_slice(), marker) {
        Some(from)
    } else {
        match find_line_with(lines, marker, from + 1) {
            Some(i) => Some(i),
            None => None,
        }
    }
}

/// The lines after the first one containing `marker`; all of them when no
/// line does.
pub open spec fn spec_after_marker(lines: Seq<Seq<char>>, marker: Seq<char>) -> Seq<Seq<char>> {
    let f = spec_find_line_with(lines, marker);
    if f >= 0 {
        lines.subrange(f + 1, lines.len() as int)
    } else {
        lines
    }
}

/// The lines from the first one containing `marker` on.
pub open spec fn spec_from_marker(lines: Seq<Seq<char>>, marker: Seq<char>) -> Seq<Seq<char>> {
    let f = spec_find_line_with(lines, marker);
    if f >= 0 {
        lines.subrange(f, lines.len() as int)
    } else {
        lines
    }
}

/// The lines before the first one containing `marker`.
pub open spec fn spec_before_marker(lines: Seq<Seq<char>>, marker: Seq<char>) -> Seq<Seq<char>> {
    let f = spec_find_line_with(lines, marker);
    if f >= 0 {
        lines.subrange(0, f)
    } else {
        lines
    }
}

/// The lines with the first `txt` (a 0-based count) skipped, when `txt`
/// parses and is in range.
pub open spec fn spec_skip_start(lines: Seq<Seq<char>>, txt: Seq<char>) -> Seq<Seq<char>> {
    match spec_parse_uint(txt, usize::MAX as int) {
        Some(n) => if n <= lines.len() {
            lines.subrange(n, lines.len() as int)
        } else {
            lines
        },
        None => lines,
    }
}

/// The first `txt` lines (a 1-based exclusive bound), when `txt` parses and
/// is in range.
pub open spec fn spec_take_end(lines: Seq<Seq<char>>, txt: Seq<char>) -> Seq<Seq<char>> {
    match spec_parse_uint(txt, usize::MAX as int) {
        Some(e) => if 0 < e <= lines.len() {
            lines.subrange(0, e)
        } else {
            lines
        },
        None => lines,
    }
}

/// The 0-based indices selected by the range `lo-hi` (1-based inclusive),
/// kept within `total`.
pub open spec fn spec_sel_range(lo: int, hi: int, total: int) -> Seq<int>
    decreases hi - lo + 1,
{
    if lo > hi {
        Seq::empty()
    } else {
        (if 1 <= lo <= total {
            seq![lo - 1]
        } else {
            Seq::<int>::empty()
        }) + spec_sel_range(lo + 1, hi, total)
    }
}

/// The 0-based indices selected by a lines specification: a comma list of
/// single numbers and `a-b` ranges.
pub open spec fn spec_lines_sel(parts: Seq<Seq<char>>, total: int) -> Seq<int>
    decreases parts.len(),
{
    if parts.len() == 0 {
        Seq::empty()
    } else {
        let part = spec_trim(parts[0]);
        (if spec_find_char(part, '-') >= 0 {
            let halves = spec_split_char(part, '-');
            if halves.len() == 2 {
                match (
                    spec_parse_uint(spec_trim(halves[0]), usize::MAX as int),
                    spec_parse_uint(spec_trim(halves[1]), usize::MAX as int),
                ) {
                    (Some(lo), Some(hi)) => spec_sel_range(lo, hi, total),
                    _ => Seq::<int>::empty(),
                }
            } else {
                Seq::<int>::empty()
            }
        } else {
            match spec_parse_uint(part, usize::MAX as int) {
                Some(l) => if 1 <= l <= total {
                    seq![l - 1]
                } else {
                    Seq::<int>::empty()
                },
                None => Seq::<int>::empty(),
            }
        }) + spec_lines_sel(parts.drop_first(), total)
    }
}

pub proof fn lemma_sel_range_bounds(lo: int, hi: int, total: int)
    ensures
        forall|k: int|
            0 <= k < spec_sel_range(lo, hi, total).len() ==> 0 <= #[trigger] spec_sel_range(
                lo,
                hi,
                total,
            )[k] < total,
    decreases hi - lo + 1,
{
    if lo <= hi {
        lemma_sel_range_bounds(lo + 1, hi, total);
        assert forall|k: int|
            0 <= k < spec_sel_range(lo, hi, total).len() implies 0 <= #[trigger] spec_sel_range(
            lo,
            hi,
            total,
        )[k] < total by {
            if 1 <= lo <= total {
                if k >= 1 {
                    assert(spec_sel_range(lo, hi, total)[k] == spec_sel_range(
                        lo + 1,
                        hi,
                        total,
                    )[k - 1]);
                }
            } else {
                assert(spec_sel_range(lo, hi, total)[k] == spec_sel_range(lo + 1, hi, total)[k]);
            }
        }
    }
}

pub proof fn lemma_lines_sel_bounds(parts: Seq<Seq<char>>, total: int)
    ensures
        forall|k: int|
            0 <= k < spec_lines_sel(parts, total).len() ==> 0 <= #[trigger] spec_lines_sel(
                parts,
                total,
            )[k] < total,
    decreases parts.len(),
{
    if parts.len() > 0 {
        lemma_lines_sel_bounds(parts.drop_first(), total);
        let part = spec_trim(parts[0]);
        let head: Seq<int> = if spec_find_char(part, '-') >= 0 {
            let halves = spec_split_char(part, '-');
            if halves.len() == 2 {
                match (
                    spec_parse_uint(spec_trim(halves[0]), usize::MAX as int),
                    spec_parse_uint(spec_trim(halves[1]), usize::MAX as int),
                ) {
                    (Some(lo), Some(hi)) => {
                        lemma_sel_range_bounds(lo, hi, total);
                        spec_sel_range(lo, hi, total)
                    },
                    _ => Seq::<int>::empty(),
                }
            } else {
                Seq::<int>::empty()
            }
        } else {
            match spec_parse_uint(part, usize::MAX as int) {
                Some(l) => if 1 <= l <= total {
                    seq![l - 1]
                } else {
                    Seq::<int>::empty()
                },
                None => Seq::<int>::empty(),
            }
        };
        assert(forall|k: int| 0 <= k < head.len() ==> 0 <= #[trigger] head[k] < total);
        assert forall|k: int|
            0 <= k < spec_lines_sel(parts, total).len() implies 0 <= #[trigger] spec_lines_sel(
            parts,
            total,
        )[k] < total by {
            if k < head.len() {
                assert(spec_lines_sel(parts, total)[k] == head[k]);
            } else {
                assert(spec_lines_sel(parts, total)[k] == spec_lines_sel(
                    parts.drop_first(),
                    total,
                )[k - head.len()]);
            }
        }
    }
}

/// Compute the selected indices for a range part.
fn sel_range(lo: usize, hi: usize, total: usize, out: &mut Vec<usize>)
    ensures
        idx_view(final(out)@) == idx_view(old(out)@) + spec_sel_range(
            lo as int,
            hi as int,
            total as int,
        ),
    decreases hi - lo + 1 + if lo > hi {
        0int
    } else {
        1int
    },
{
    if lo > hi {
        proof {
            assert(idx_view(out@) =~= idx_view(old(out)@) + spec_sel_range(
                lo as int,
                hi as int,
                total as int,
            ));
        }
        return ;
    }
    let ghost before = out@;
    if 1 <= lo && lo <= total {
        out.push(lo - 1);
    }
    if lo == hi {
        proof {
            assert(spec_sel_range(lo as int + 1, hi as int, total as int) =~= Seq::<int>::empty());
            assert(idx_view(out@) =~= idx_view(before) + spec_sel_range(
                lo as int,
                hi as int,
                total as int,
            ));
        }
        return ;
    }
    sel_range(lo + 1, hi, total, out);
    proof {
        assert(idx_view(out@) =~= idx_view(before) + spec_sel_range(
            lo as int,
            hi as int,
            total as int,
        ));
    }
}

/// The lines at the given indices.
pub open spec fn spec_select_lines(lines: Seq<Seq<char>>, idxs: Seq<int>) -> Seq<Seq<char>>
    decreases idxs.len(),
{
    if idxs.len() == 0 {
        Seq::empty()
    } else {
        (if 0 <= idxs[0] < lines.len() {
            seq![lines[idxs[0]]]
        } else {
            Seq::<Seq<char>>::empty()
        }) + spec_select_lines(lines, idxs.drop_first())
    }
}

/// One line dedented by up to `k` columns; a shorter line just loses its
/// leading whitespace.
pub open spec fn spec_dedent_line(line: Seq<char>, k: int) -> Seq<char> {
    if line.len() >= k {
        let w = spec_count_ws(line);
        let cut = if k <= w {
            k
        } else {
            w
        };
        line.subrange(cut, line.len() as int)
    } else {
        crate::text::spec_trim_start(line)
    }
}

/// Every line dedented.
pub open spec fn spec_dedent_lines(lines: Seq<Seq<char>>, k: int) -> Seq<Seq<char>>
    decreases lines.len(),
{
    if lines.len() == 0 {
        Seq::empty()
    } else {
        seq![spec_dedent_line(lines[0], k)] + spec_dedent_lines(lines.drop_first(), k)
    }
}

/// Dedent the lines from `from` on.
fn dedent_lines(lines: &Vec<Vec<char>>, k: usize, from: usize) -> (r: Vec<Vec<char>>)
    requires
        from <= lines@.len(),
    ensures
        r.deep_view() == spec_dedent_lines(
            lines.deep_view().subrange(from as int, lines.deep_view().len() as int),
            k as int,
        ),
    decreases lines@.len() - from,
{
    let ghost lv = lines.deep_view();
    let ghost rest = lv.subrange(from as int, lv.len() as int);
    if from >= lines.len() {
        let out: Vec<Vec<char>> = Vec::new();
        proof {
            assert(rest.len() == 0);
            assert(out.deep_view() =~~= spec_dedent_lines(rest, k as int));
        }
        return out;
    }
    proof {
        assert(lv[from as int] == lines@[from as int]@);
        assert(rest[0] == lv[from as int]);
        assert(rest.drop_first() =~= lv.subrange(from + 1, lv.len() as int));
    }
    let line = &lines[from];
    let d: Vec<char> = if line.len() >= k {
        let w = count_ws_from(line.as_slice(), 0);
        proof {
            assert(line@.subrange(0, line@.len() as int) =~= line@);
        }
        let cut: usize = if k <= w {
            k
        } else {
            w
        };
        slice_range(line.as_slice(), cut, line.len())
    } else {
        crate::text::trim_start_chars(line.as_slice())
    };
    proof {
        assert(d@ == spec_dedent_line(lv[from as int], k as int));
    }
    let more = dedent_lines(lines, k, from + 1);
    let ghost dv = d@;
    let ghost mv = more.deep_view();
    let mut out = more;
    out.insert(0, d);
    proof {
        assert(out.deep_view() =~~= seq![dv] + mv);
        assert(seq![dv] + mv =~~= spec_dedent_lines(rest, k as int));
    }
    out
}

// ---------------------------------------------------------------------------
// Python object extraction for literalinclude.
// ---------------------------------------------------------------------------

/// Whether a line defines the named object: `def name(`, `class name:` or
/// `class name(` after its indentation.
pub open spec fn spec_is_def_line(line: Seq<char>, name: Seq<char>) -> bool {
    let t = crate::text::spec_trim_start(line);
    spec_starts_with(t, "def "@ + name + "("@) || spec_starts_with(t, "class "@ + name + ":"@)
        || spec_starts_with(t, "class "@ + name + "("@)
}

/// Check whether a line defines the named object.
fn is_def_line(line: &[char], name: &[char]) -> (r: bool)
    ensures
        r == spec_is_def_line(line@, name@),
{
    let t = crate::text::trim_start_chars(line);
    let mut p1: Vec<char> = Vec::new();
    append_str(&mut p1, "def ");
    append_chars(&mut p1, name);
    append_str(&mut p1, "(");
    let mut p2: Vec<char> = Vec::new();
    append_str(&mut p2, "class ");
    append_chars(&mut p2, name);
    append_str(&mut p2, ":");
    let mut p3: Vec<char> = Vec::new();
    append_str(&mut p3, "class ");
    append_chars(&mut p3, name);
    append_str(&mut p3, "(");
    proof {
        assert(p1@ =~= "def "@ + name@ + "("@);
        assert(p2@ =~= "class "@ + name@ + ":"@);
        assert(p3@ =~= "class "@ + name@ + "("@);
    }
    crate::text::starts_with_chars(t.as_slice(), p1.as_slice()) || crate::text::starts_with_chars(
        t.as_slice(),
        p2.as_slice(),
    ) || crate::text::starts_with_chars(t.as_slice(), p3.as_slice())
}

/// The first line at or after `j` that defines `name` at an indentation
/// level of at least `min_indent` (counted in steps of four columns), or -1.
pub open spec fn spec_py_find(lines: Seq<Seq<char>>, name: Seq<char>, min_indent: int, j: int) -> int
    decreases lines.len() - j,
{
    if j < 0 || j >= lines.len() {
        -1
    } else if spec_is_def_line(lines[j], name) && spec_count_ws(lines[j]) / 4 >= min_indent {
        j
    } else {
        spec_py_find(lines, name, min_indent, j + 1)
    }
}

/// The end of the object that starts at `start` with indentation
/// `start_indent`: the first later line that is neither blank, a comment
/// nor a decorator and whose indentation is no deeper.
pub open spec fn spec_py_end(lines: Seq<Seq<char>>, j: int, start_indent: int) -> int
    decreases lines.len() - j,
{
    if j < 0 || j >= lines.len() {
        lines.len() as int
    } else {
        let t = spec_trim(lines[j]);
        if t.len() == 0 || t[0] == '#' {
            spec_py_end(lines, j + 1, start_indent)
        } else if spec_count_ws(lines[j]) <= start_indent && t[0] != '@' {
            j
        } else {
            spec_py_end(lines, j + 1, start_indent)
        }
    }
}

/// The end trimmed of trailing blank lines, but not past `start + 1`.
pub open spec fn spec_py_trim(lines: Seq<Seq<char>>, start: int, e: int) -> int
    decreases e,
{
    if e > start + 1 && 0 < e <= lines.len() && spec_is_blank(lines[e - 1]) {
        spec_py_trim(lines, start, e - 1)
    } else {
        e
    }
}

/// The line range of the named object, if found.
pub open spec fn spec_py_range(lines: Seq<Seq<char>>, name: Seq<char>, min_indent: int) -> Option<
    (int, int),
> {
    let start = spec_py_find(lines, name, min_indent, 0);
    if start < 0 {
        None
    } else {
        let e = spec_py_end(lines, start + 1, spec_count_ws(lines[start]));
        Some((start, spec_py_trim(lines, start, e)))
    }
}

/// The extracted lines of a Python object: `Class.method` finds the method
/// inside the class, a plain name finds a top-level object.
pub open spec fn spec_pyobject(lines: Seq<Seq<char>>, po: Seq<char>) -> Option<Seq<Seq<char>>> {
    let d = spec_find_char(po, '.');
    if d >= 0 {
        let cls = po.subrange(0, d);
        let meth = po.subrange(d + 1, po.len() as int);
        match spec_py_range(lines, cls, 0) {
            Some((cs, ce)) => {
                let cl = lines.subrange(cs, ce);
                match spec_py_range(cl, meth, 1) {
                    Some((ms, me)) => Some(cl.subrange(ms, me)),
                    None => None,
                }
            },
            None => None,
        }
    } else {
        match spec_py_range(lines, po, 0) {
            Some((st, e)) => Some(lines.subrange(st, e)),
            None => None,
        }
    }
}

proof fn lemma_py_find_bounds(lines: Seq<Seq<char>>, name: Seq<char>, min_indent: int, j: int)
    requires
        0 <= j,
    ensures
        spec_py_find(lines, name, min_indent, j) == -1 || j <= spec_py_find(
            lines,
            name,
            min_indent,
            j,
        ) < lines.len(),
    decreases lines.len() - j,
{
    if j < lines.len() && !(spec_is_def_line(lines[j], name) && spec_count_ws(lines[j]) / 4
        >= min_indent) {
        lemma_py_find_bounds(lines, name, min_indent, j + 1);
    }
}

proof fn lemma_py_end_bounds(lines: Seq<Seq<char>>, j: int, si: int)
    requires
        0 <= j <= lines.len(),
    ensures
        j <= spec_py_end(lines, j, si) <= lines.len(),
    decreases lines.len() - j,
{
    if j < lines.len() {
        let t = spec_trim(lines[j]);
        if t.len() == 0 || t[0] == '#' || !(spec_count_ws(lines[j]) <= si && t[0] != '@') {
            lemma_py_end_bounds(lines, j + 1, si);
        }
    }
}

proof fn lemma_py_trim_bounds(lines: Seq<Seq<char>>, start: int, e: int)
    requires
        start + 1 <= e,
    ensures
        start + 1 <= spec_py_trim(lines, start, e) <= e,
    decreases e,
{
    if e > start + 1 && 0 < e <= lines.len() && spec_is_blank(lines[e - 1]) {
        lemma_py_trim_bounds(lines, start, e - 1);
    }
}

/// Find the first definition line.
fn py_find(lines: &Vec<Vec<char>>, name: &[char], min_indent: usize, j: usize) -> (r: Option<
    usize,
>)
    requires
        j <= lines@.len(),
    ensures
        match r {
            Some(i) => spec_py_find(lines.deep_view(), name@, min_indent as int, j as int)
                == i as int && j <= i < lines@.len(),
            None => spec_py_find(lines.deep_view(), name@, min_indent as int, j as int) == -1,
        },
    decreases lines@.len() - j,
{
    let ghost lv = lines.deep_view();
    if j >= lines.len() {
        return None;
    }
    proof {
        assert(lv[j as int] == lines@[j as int]@);
    }
    let w = count_ws_from(lines[j].as_slice(), 0);
    proof {
        assert(lines@[j as int]@.subrange(0, lines@[j as int]@.len() as int)
            =~= lines@[j as int]@);
    }
    if is_def_line(lines[j].as_slice(), name) && w / 4 >= min_indent {
        Some(j)
    } else {
        py_find(lines, name, min_indent, j + 1)
    }
}

/// Find the end of the object.
fn py_end(lines: &Vec<Vec<char>>, j: usize, si: usize) -> (r: usize)
    requires
        j <= lines@.len(),
    ensures
        r as int == spec_py_end(lines.deep_view(), j as int, si as int),
        j <= r <= lines@.len(),
    decreases lines@.len() - j,
{
    let ghost lv = lines.deep_view();
    if j >= lines.len() {
        return lines.len();
    }
    proof {
        assert(lv[j as int] == lines@[j as int]@);
    }
    let t = trim_chars(lines[j].as_slice());
    if t.len() == 0 || t[0] == '#' {
        py_end(lines, j + 1, si)
    } else {
        let w = count_ws_from(lines[j].as_slice(), 0);
        proof {
            assert(lines@[j as int]@.subrange(0, lines@[j as int]@.len() as int)
                =~= lines@[j as int]@);
        }
        if w <= si && t[0] != '@' {
            j
        } else {
            py_end(lines, j + 1, si)
        }
    }
}

/// Trim trailing blank lines of the range.
fn py_trim(lines: &Vec<Vec<char>>, start: usize, e: usize) -> (r: usize)
    requires
        start + 1 <= e,
        e <= lines@.len(),
    ensures
        r as int == spec_py_trim(lines.deep_view(), start as int, e as int),
        start + 1 <= r <= e,
    decreases e,
{
    let ghost lv = lines.deep_view();
    if e > start + 1 {
        proof {
            assert(lv[e - 1] == lines@[e - 1]@);
        }
        let t = trim_chars(lines[e - 1].as_slice());
        if t.len() == 0 {
            return py_trim(lines, start, e - 1);
        }
    }
    e
}

/// The line range of the named object.
fn py_range(lines: &Vec<Vec<char>>, name: &[char], min_indent: usize) -> (r: Option<
    (usize, usize),
>)
    ensures
        match r {
            Some((s, e)) => spec_py_range(lines.deep_view(), name@, min_indent as int) == Some(
                (s as int, e as int),
            ) && s < e <= lines@.len(),
            None => spec_py_range(lines.deep_view(), name@, min_indent as int) is None,
        },
{
    let nl = lines.len();
    match py_find(lines, name, min_indent, 0) {
        None => None,
        Some(start) => {
            proof {
                assert(lines.deep_view()[start as int] == lines@[start as int]@);
            }
            let si = count_ws_from(lines[start].as_slice(), 0);
            proof {
                assert(lines@[start as int]@.subrange(0, lines@[start as int]@.len() as int)
                    =~= lines@[start as int]@);
            }
            let e = py_end(lines, start + 1, si);
            proof {
                lemma_py_end_bounds(lines.deep_view(), start as int + 1, si as int);
                lemma_py_trim_bounds(lines.deep_view(), start as int, e as int);
            }
            let e2 = py_trim(lines, start, e);
            Some((start, e2))
        },
    }
}

/// Copy the lines of a range into a fresh vector.
fn copy_lines(lines: &Vec<Vec<char>>, a: usize, b: usize) -> (r: Vec<Vec<char>>)
    requires
        a <= b <= lines@.len(),
    ensures
        r.deep_view() == lines.deep_view().subrange(a as int, b as int),
    decreases b - a,
{
    let ghost lv = lines.deep_view();
    if a >= b {
        let out: Vec<Vec<char>> = Vec::new();
        proof {
            assert(out.deep_view() =~~= lv.subrange(a as int, b as int));
        }
        return out;
    }
    proof {
        assert(lv[a as int] == lines@[a as int]@);
    }
    let first = slice_range(lines[a].as_slice(), 0, lines[a].len());
    let more = copy_lines(lines, a + 1, b);
    let ghost fv = first@;
    let ghost mv = more.deep_view();
    let mut out = more;
    out.insert(0, first);
    proof {
        assert(fv =~= lv[a as int]);
        assert(out.deep_view() =~~= seq![fv] + mv);
        assert(seq![fv] + mv =~~= lv.subrange(a as int, b as int));
    }
    out
}

/// Extract a Python object from the file lines.
fn extract_pyobject(lines: &Vec<Vec<char>>, po: &[char]) -> (r: Option<Vec<Vec<char>>>)
    ensures
        match r {
            Some(ls) => spec_pyobject(lines.deep_view(), po@) == Some(ls.deep_view()),
            None => spec_pyobject(lines.deep_view(), po@) is None,
        },
{
    let dot: Option<usize> = match crate::text::find_char(po, '.', 0) {
        Some(i) => {
            proof {
                lemma_find_char_at(po@, '.', i as int);
            }
            Some(i)
        },
        None => {
            proof {
                lemma_find_char_none(po@, '.');
            }
            None
        },
    };
    let m = po.len();
    match dot {
        Some(d) => {
            let cls = slice_range(po, 0, d);
            let meth = slice_range(po, d + 1, m);
            match py_range(lines, cls.as_slice(), 0) {
                Some((cs, ce)) => {
                    let cl = copy_lines(lines, cs, ce);
                    match py_range(&cl, meth.as_slice(), 1) {
                        Some((ms, me)) => {
                            let out = copy_lines(&cl, ms, me);
                            Some(out)
                        },
                        None => None,
                    }
                },
                None => None,
            }
        },
        None => {
            match py_range(lines, po, 0) {
                Some((st, e)) => {
                    let out = copy_lines(lines, st, e);
                    Some(out)
                },
                None => None,
            }
        },
    }
}

// ---------------------------------------------------------------------------
// Applying the literalinclude line filters.
// ---------------------------------------------------------------------------

/// The integer view of an index list.
pub open spec fn idx_view(s: Seq<usize>) -> Seq<int> {
    Seq::new(s.len(), |i: int| s[i] as int)
}

/// The selected indices of a lines option, over its comma-separated parts.
fn lines_sel(parts: &Vec<Vec<char>>, total: usize, from: usize) -> (r: Vec<usize>)
    requires
        from <= parts@.len(),
    ensures
        idx_view(r@) == spec_lines_sel(
            parts.deep_view().subrange(from as int, parts.deep_view().len() as int),
            total as int,
        ),
    decreases parts@.len() - from,
{
    let ghost pv = parts.deep_view();
    let ghost rest = pv.subrange(from as int, pv.len() as int);
    if from >= parts.len() {
        let out: Vec<usize> = Vec::new();
        proof {
            assert(rest.len() == 0);
            assert(idx_view(out@) =~= spec_lines_sel(rest, total as int));
        }
        return out;
    }
    proof {
        assert(pv[from as int] == parts@[from as int]@);
        assert(rest[0] == pv[from as int]);
        assert(rest.drop_first() =~= pv.subrange(from + 1, pv.len() as int));
    }
    let part = trim_chars(parts[from].as_slice());
    let mut out: Vec<usize> = Vec::new();
    let has_dash: bool = match crate::text::find_char(part.as_slice(), '-', 0) {
        Some(i) => {
            proof {
                lemma_find_char_at(part@, '-', i as int);
            }
            true
        },
        None => {
            proof {
                lemma_find_char_none(part@, '-');
            }
            false
        },
    };
    if has_dash {
        let halves = split_char(part.as_slice(), '-');
        if halves.len() == 2 {
            proof {
                assert(halves.deep_view()[0] == halves@[0]@);
                assert(halves.deep_view()[1] == halves@[1]@);
            }
            let lo = parse_usize(trim_chars(halves[0].as_slice()).as_slice());
            let hi = parse_usize(trim_chars(halves[1].as_slice()).as_slice());
            match (lo, hi) {
                (Some(a), Some(b)) => {
                    sel_range(a, b, total, &mut out);
                    proof {
                        assert(idx_view(out@) =~= spec_sel_range(a as int, b as int, total as int));
                    }
                },
                _ => {},
            }
        }
    } else {
        match parse_usize(part.as_slice()) {
            Some(l) => {
                if 1 <= l && l <= total {
                    out.push(l - 1);
                }
            },
            None => {},
        }
    }
    let ghost head = idx_view(out@);
    let more = lines_sel(parts, total, from + 1);
    let ghost mv = idx_view(more@);
    let mut res = out;
    let mut k: usize = 0;
    proof {
        assert(idx_view(res@) =~= head + mv.subrange(0, 0));
    }
    while k < more.len()
        invariant
            k <= more@.len(),
            mv == idx_view(more@),
            mv.len() == more@.len(),
            idx_view(res@) == head + mv.subrange(0, k as int),
        decreases more@.len() - k,
    {
        let ghost prev = res@;
        res.push(more[k]);
        k += 1;
        proof {
            assert(res@ =~= prev.push(more@[k - 1]));
            assert(idx_view(prev).len() == prev.len());
            assert forall|j: int| 0 <= j < res@.len() implies idx_view(res@)[j] == (head
                + mv.subrange(0, k as int))[j] by {
                if j < prev.len() {
                    assert(res@[j] == prev[j]);
                    assert(idx_view(prev)[j] == prev[j] as int);
                    assert((head + mv.subrange(0, k - 1))[j] == (head + mv.subrange(
                        0,
                        k as int,
                    ))[j]);
                } else {
                    assert(res@[j] == more@[k - 1]);
                    assert(mv[k - 1] == more@[k - 1] as int);
                }
            }
            assert(idx_view(res@) =~= head + mv.subrange(0, k as int));
        }
    }
    proof {
        assert(mv.subrange(0, mv.len() as int) =~= mv);
        assert(head + mv =~= spec_lines_sel(rest, total as int));
    }
    res
}

/// Copy the lines at the selected indices.
fn select_lines(lines: &Vec<Vec<char>>, sel: &Vec<usize>) -> (r: Vec<Vec<char>>)
    ensures
        r.deep_view() == spec_select_lines(lines.deep_view(), idx_view(sel@)),
{
    let ghost lv = lines.deep_view();
    let ghost iv = idx_view(sel@);
    let mut out: Vec<Vec<char>> = Vec::new();
    let mut k: usize = 0;
    proof {
        assert(iv.subrange(0, iv.len() as int) =~= iv);
        assert(out.deep_view() + spec_select_lines(lv, iv) =~~= spec_select_lines(lv, iv));
    }
    while k < sel.len()
        invariant
            lv == lines.deep_view(),
            iv == idx_view(sel@),
            iv.len() == sel@.len(),
            lv.len() == lines@.len(),
            k <= sel@.len(),
            spec_select_lines(lv, iv) == out.deep_view() + spec_select_lines(
                lv,
                iv.subrange(k as int, iv.len() as int),
            ),
        decreases sel@.len() - k,
    {
        let ghost restidx = iv.subrange(k as int, iv.len() as int);
        let ghost oldout = out.deep_view();
        proof {
            assert(restidx[0] == iv[k as int]);
            assert(restidx.drop_first() =~= iv.subrange(k + 1, iv.len() as int));
        }
        let i = sel[k];
        if i < lines.len() {
            proof {
                assert(lv[i as int] == lines@[i as int]@);
            }
            let piece = slice_range(lines[i].as_slice(), 0, lines[i].len());
            proof {
                assert(piece@ =~= lv[i as int]);
            }
            out.push(piece);
            proof {
                assert(out.deep_view() =~~= oldout + seq![lv[i as int]]);
                assert(oldout + seq![lv[i as int]] + spec_select_lines(
                    lv,
                    iv.subrange(k + 1, iv.len() as int),
                ) =~~= oldout + spec_select_lines(lv, restidx));
            }
        } else {
            proof {
                assert(oldout + spec_select_lines(lv, iv.subrange(k + 1, iv.len() as int)) =~~=
                oldout + spec_select_lines(lv, restidx));
            }
        }
        k += 1;
    }
    proof {
        assert(iv.subrange(iv.len() as int, iv.len() as int).len() == 0);
        assert(spec_select_lines(lv, iv.subrange(iv.len() as int, iv.len() as int))
            =~~= Seq::<Seq<char>>::empty());
        assert(out.deep_view() =~~= spec_select_lines(lv, iv));
    }
    out
}

/// The filtered lines of a literalinclude body, after the marker, line
/// range, selection and dedent options, in this order.
pub open spec fn spec_li_lines(lines: Seq<Seq<char>>, opts: Seq<(Seq<char>, Seq<char>)>) -> Seq<
    Seq<char>,
> {
    let l1 = match spec_pairs_get(opts, "start-after"@) {
        Some(m) => spec_after_marker(lines, m),
        None => lines,
    };
    let l2 = match spec_pairs_get(opts, "start-at"@) {
        Some(m) => spec_from_marker(l1, m),
        None => l1,
    };
    let l3 = match spec_pairs_get(opts, "end-before"@) {
        Some(m) => spec_before_marker(l2, m),
        None => l2,
    };
    let l4 = match spec_pairs_get(opts, "start-line"@) {
        Some(t) => spec_skip_start(l3, t),
        None => l3,
    };
    let l5 = match spec_pairs_get(opts, "end-line"@) {
        Some(t) => spec_take_end(l4, t),
        None => l4,
    };
    let l6 = match spec_pairs_get(opts, "lines"@) {
        Some(sp) => spec_select_lines(
            l5,
            spec_lines_sel(spec_split_char(sp, ','), l5.len() as int),
        ),
        None => l5,
    };
    match spec_pairs_get(opts, "dedent"@) {
        Some(ds) => match spec_parse_uint(ds, usize::MAX as int) {
            Some(k) => spec_dedent_lines(l6, k),
            None => l6,
        },
        None => l6,
    }
}

/// The lines after the marker line, copied.
fn after_marker(lines: &Vec<Vec<char>>, marker: &[char]) -> (r: Vec<Vec<char>>)
    ensures
        r.deep_view() == spec_after_marker(lines.deep_view(), marker@),
{
    proof {
        assert(lines.deep_view().subrange(0, lines.deep_view().len() as int)
            =~= lines.deep_view());
    }
    let n = lines.len();
    match find_line_with(lines, marker, 0) {
        Some(i) => copy_lines(lines, i + 1, n),
        None => copy_lines(lines, 0, n),
    }
}

/// The lines from the marker line on, copied.
fn from_marker(lines: &Vec<Vec<char>>, marker: &[char]) -> (r: Vec<Vec<char>>)
    ensures
        r.deep_view() == spec_from_marker(lines.deep_view(), marker@),
{
    proof {
        assert(lines.deep_view().subrange(0, lines.deep_view().len() as int)
            =~= lines.deep_view());
    }
    match find_line_with(lines, marker, 0) {
        Some(i) => copy_lines(lines, i, lines.len()),
        None => copy_lines(lines, 0, lines.len()),
    }
}

/// The lines before the marker line, copied.
fn before_marker(lines: &Vec<Vec<char>>, marker: &[char]) -> (r: Vec<Vec<char>>)
    ensures
        r.deep_view() == spec_before_marker(lines.deep_view(), marker@),
{
    proof {
        assert(lines.deep_view().subrange(0, lines.deep_view().len() as int)
            =~= lines.deep_view());
    }
    match find_line_with(lines, marker, 0) {
        Some(i) => copy_lines(lines, 0, i),
        None => copy_lines(lines, 0, lines.len()),
    }
}

/// Apply the literalinclude line filters.
fn li_lines(lines: Vec<Vec<char>>, options: &StrMap<String>) -> (r: Vec<Vec<char>>)
    requires
        options.wf(),
    ensures
        r.deep_view() == spec_li_lines(lines.deep_view(), opts_view(*options)),
{
    proof {
        lemma_opts_get(*options, "start-after"@);
        lemma_opts_get(*options, "start-at"@);
        lemma_opts_get(*options, "end-before"@);
        lemma_opts_get(*options, "start-line"@);
        lemma_opts_get(*options, "end-line"@);
        lemma_opts_get(*options, "lines"@);
        lemma_opts_get(*options, "dedent"@);
    }
    let l1 = match options.get("start-after") {
        Some(m) => after_marker(&lines, to_chars(m.as_str()).as_slice()),
        None => lines,
    };
    let l2 = match options.get("start-at") {
        Some(m) => from_marker(&l1, to_chars(m.as_str()).as_slice()),
        None => l1,
    };
    let l3 = match options.get("end-before") {
        Some(m) => before_marker(&l2, to_chars(m.as_str()).as_slice()),
        None => l2,
    };
    let l4 = match options.get("start-line") {
        Some(t) => {
            match parse_usize(to_chars(t.as_str()).as_slice()) {
                Some(n) => {
                    if n <= l3.len() {
                        copy_lines(&l3, n, l3.len())
                    } else {
                        l3
                    }
                },
                None => l3,
            }
        },
        None => l3,
    };
    let l5 = match options.get("end-line") {
        Some(t) => {
            match parse_usize(to_chars(t.as_str()).as_slice()) {
                Some(e) => {
                    if 0 < e && e <= l4.len() {
                        copy_lines(&l4, 0, e)
                    } else {
                        l4
                    }
                },
                None => l4,
            }
        },
        None => l4,
    };
    let l6 = match options.get("lines") {
        Some(sp) => {
            let parts = split_char(to_chars(sp.as_str()).as_slice(), ',');
            proof {
                assert(parts.deep_view().subrange(0, parts.deep_view().len() as int)
                    =~= parts.deep_view());
            }
            let sel = lines_sel(&parts, l5.len(), 0);
            select_lines(&l5, &sel)
        },
        None => l5,
    };
    match options.get("dedent") {
        Some(ds) => {
            match parse_usize(to_chars(ds.as_str()).as_slice()) {
                Some(k) => {
                    proof {
                        assert(l6.deep_view().subrange(0, l6.deep_view().len() as int)
                            =~= l6.deep_view());
                    }
                    dedent_lines(&l6, k, 0)
                },
                None => l6,
            }
        },
        None => l6,
    }
}

// ---------------------------------------------------------------------------
// Languages by file extension, and caption substitution.
// ---------------------------------------------------------------------------

/// The highlighting language for a file extension, by a fixed table.
pub open spec fn spec_ext_lang(e: Seq<char>) -> Seq<char> {
    if e == "py"@ {
        "python"@
    } else if e == "rs"@ {
        "rust"@
    } else if e == "js"@ {
        "javascript"@
    } else if e == "ts"@ {
        "typescript"@
    } else if e == "cpp"@ || e == "cc"@ || e == "cxx"@ || e == "h"@ || e == "hpp"@ {
        "cpp"@
    } else if e == "c"@ {
        "c"@
    } else if e == "java"@ {
        "java"@
    } else if e == "go"@ {
        "go"@
    } else if e == "php"@ {
        "php"@
    } else if e == "rb"@ {
        "ruby"@
    } else if e == "sh"@ || e == "bash"@ {
        "bash"@
    } else if e == "ps1"@ {
        "powershell"@
    } else if e == "sql"@ {
        "sql"@
    } else if e == "xml"@ {
        "xml"@
    } else if e == "html"@ || e == "htm"@ {
        "html"@
    } else if e == "css"@ {
        "css"@
    } else if e == "json"@ {
        "json"@
    } else if e == "yaml"@ || e == "yml"@ {
        "yaml"@
    } else if e == "toml"@ {
        "toml"@
    } else if e == "ini"@ || e == "cfg"@ {
        "ini"@
    } else if e == "md"@ {
        "markdown"@
    } else if e == "rst"@ {
        "rst"@
    } else if e == "tex"@ {
        "latex"@
    } else {
        "text"@
    }
}

/// Map a file extension to its language token.
fn ext_lang(e: &[char]) -> (r: &'static str)
    ensures
        r@ == spec_ext_lang(e@),
{
    if chars_eq_str(e, "py") {
        "python"
    } else if chars_eq_str(e, "rs") {
        "rust"
    } else if chars_eq_str(e, "js") {
        "javascript"
    } else if chars_eq_str(e, "ts") {
        "typescript"
    } else if chars_eq_str(e, "cpp") || chars_eq_str(e, "cc") || chars_eq_str(e, "cxx")
        || chars_eq_str(e, "h") || chars_eq_str(e, "hpp") {
        "cpp"
    } else if chars_eq_str(e, "c") {
        "c"
    } else if chars_eq_str(e, "java") {
        "java"
    } else if chars_eq_str(e, "go") {
        "go"
    } else if chars_eq_str(e, "php") {
        "php"
    } else if chars_eq_str(e, "rb") {
        "ruby"
    } else if chars_eq_str(e, "sh") || chars_eq_str(e, "bash") {
        "bash"
    } else if chars_eq_str(e, "ps1") {
        "powershell"
    } else if chars_eq_str(e, "sql") {
        "sql"
    } else if chars_eq_str(e, "xml") {
        "xml"
    } else if chars_eq_str(e, "html") || chars_eq_str(e, "htm") {
        "html"
    } else if chars_eq_str(e, "css") {
        "css"
    } else if chars_eq_str(e, "json") {
        "json"
    } else if chars_eq_str(e, "yaml") || chars_eq_str(e, "yml") {
        "yaml"
    } else if chars_eq_str(e, "toml") {
        "toml"
    } else if chars_eq_str(e, "ini") || chars_eq_str(e, "cfg") {
        "ini"
    } else if chars_eq_str(e, "md") {
        "markdown"
    } else if chars_eq_str(e, "rst") {
        "rst"
    } else if chars_eq_str(e, "tex") {
        "latex"
    } else {
        "text"
    }
}

/// The language of a literalinclude: the explicit option or the extension
/// table, defaulting to plain text.
pub open spec fn spec_li_lang(opts: Seq<(Seq<char>, Seq<char>)>, fname: Seq<char>) -> Seq<char> {
    match spec_pairs_get(opts, "language"@) {
        Some(l) => l,
        None => match crate::parser::spec_ext_of(fname) {
            Some(e) => spec_ext_lang(e),
            None => "text"@,
        },
    }
}

/// Index of the first occurrence of `pat` at or after `pos`, or -1.
pub open spec fn spec_find_occ(s: Seq<char>, pat: Seq<char>, pos: int) -> int
    decreases s.len() - pos + 1,
{
    if pos < 0 || pos + pat.len() > s.len() {
        -1
    } else if s.subrange(pos, pos + pat.len()) == pat {
        pos
    } else {
        spec_find_occ(s, pat, pos + 1)
    }
}

pub proof fn lemma_find_occ_bounds(s: Seq<char>, pat: Seq<char>, pos: int)
    requires
        0 <= pos,
    ensures
        spec_find_occ(s, pat, pos) == -1 || (pos <= spec_find_occ(s, pat, pos)
            && spec_find_occ(s, pat, pos) + pat.len() <= s.len()),
    decreases s.len() - pos + 1,
{
    if pos + pat.len() <= s.len() && s.subrange(pos, pos + pat.len()) != pat {
        lemma_find_occ_bounds(s, pat, pos + 1);
    }
}

pub proof fn lemma_find_occ_at(s: Seq<char>, pat: Seq<char>, from: int, i: int)
    requires
        0 <= from <= i,
        crate::text::spec_occurs_at(s, pat, i),
        forall|j: int| from <= j < i ==> !crate::text::spec_occurs_at(s, pat, j),
    ensures
        spec_find_occ(s, pat, from) == i,
    decreases i - from,
{
    if from < i {
        assert(!crate::text::spec_occurs_at(s, pat, from));
        lemma_find_occ_at(s, pat, from + 1, i);
    }
}

pub proof fn lemma_find_occ_none(s: Seq<char>, pat: Seq<char>, from: int)
    requires
        0 <= from,
        forall|j: int| from <= j ==> !crate::text::spec_occurs_at(s, pat, j),
    ensures
        spec_find_occ(s, pat, from) == -1,
    decreases s.len() - from + 1,
{
    if from + pat.len() <= s.len() {
        assert(!crate::text::spec_occurs_at(s, pat, from));
        lemma_find_occ_none(s, pat, from + 1);
    }
}

/// Every occurrence of `pat` replaced by `rep`.
pub open spec fn spec_replace_all(s: Seq<char>, pat: Seq<char>, rep: Seq<char>) -> Seq<char>
    decreases s.len(),
    via spec_replace_all_decreases
{
    if pat.len() == 0 {
        s
    } else {
        let p = spec_find_occ(s, pat, 0);
        if p < 0 {
            s
        } else {
            s.subrange(0, p) + rep + spec_replace_all(
                s.subrange(p + pat.len(), s.len() as int),
                pat,
                rep,
            )
        }
    }
}

#[via_fn]
proof fn spec_replace_all_decreases(s: Seq<char>, pat: Seq<char>, rep: Seq<char>) {
    lemma_find_occ_bounds(s, pat, 0);
}

/// Replace every occurrence of `pat` with `rep`.
pub fn replace_all_chars(v: &[char], pat: &[char], rep: &[char]) -> (r: Vec<char>)
    ensures
        r@ == spec_replace_all(v@, pat@, rep@),
    decreases v@.len(),
{
    let n = v.len();
    if pat.len() == 0 {
        return slice_range(v, 0, n);
    }
    match find_sub(v, pat, 0) {
        None => {
            proof {
                lemma_find_occ_none(v@, pat@, 0);
            }
            slice_range(v, 0, n)
        },
        Some(p) => {
            proof {
                lemma_find_occ_at(v@, pat@, 0, p as int);
            }
            let mut out = slice_range(v, 0, p);
            append_chars(&mut out, rep);
            let rest = slice_range(v, p + pat.len(), n);
            let rendered = replace_all_chars(rest.as_slice(), pat, rep);
            append_chars(&mut out, rendered.as_slice());
            proof {
                assert(out@ =~= spec_replace_all(v@, pat@, rep@));
            }
            out
        },
    }
}

// ---------------------------------------------------------------------------
// The literalinclude and include directives, and the directive processor.
// ---------------------------------------------------------------------------

impl HtmlRenderer {
    /// The rendered literalinclude: the preloaded file, filtered and
    /// highlighted, with an optional caption; a missing file or object
    /// yields an HTML comment.
    pub open spec fn spec_literalinclude(
        self,
        args: Seq<Seq<char>>,
        opts: Seq<(Seq<char>, Seq<char>)>,
    ) -> Seq<char> {
        let fname: Seq<char> = if args.len() > 0 {
            args[0]
        } else {
            Seq::empty()
        };
        match self.files().spec_get(fname) {
            None => "<!-- literalinclude error: could not read '"@ + fname + "' -->"@,
            Some(text) => {
                let lines0 = spec_lines(text@);
                match spec_pairs_get(opts, "pyobject"@) {
                    Some(po) => match spec_pyobject(lines0, po) {
                        Some(ls) => self.spec_li_html(fname, opts, ls),
                        None => "<!-- literalinclude error: could not find pyobject '"@ + po
                            + "' in '"@ + fname + "' -->"@,
                    },
                    None => self.spec_li_html(fname, opts, lines0),
                }
            },
        }
    }

    /// The literalinclude body for already-extracted lines.
    pub open spec fn spec_li_html(
        self,
        fname: Seq<char>,
        opts: Seq<(Seq<char>, Seq<char>)>,
        lines: Seq<Seq<char>>,
    ) -> Seq<char> {
        let filtered = spec_li_lines(lines, opts);
        let joined = crate::text::spec_join(filtered, "\n"@);
        let lang = spec_li_lang(opts, fname);
        (match spec_pairs_get(opts, "caption"@) {
            Some(c) => "<div class=\"code-block-caption\"><span class=\"caption-text\">"@
                + spec_escape_html(spec_replace_all(c, "{filename}"@, fname)) + "</span></div>\n"@,
            None => Seq::<char>::empty(),
        }) + "<div class=\"highlight-"@ + lang + " notranslate\">"@ + self.spec_highlight(
            Some(lang),
            joined,
        ) + "</div>"@
    }

    /// Render a literalinclude directive.
    fn render_literalinclude(&self, args: &Vec<String>, options: &StrMap<String>) -> (r: Vec<
        char,
    >)
        requires
            self.wf(),
            options.wf(),
        ensures
            r@ == self.spec_literalinclude(args.deep_view(), opts_view(*options)),
    {
        let fname: Vec<char> = if args.len() > 0 {
            proof {
                assert(args.deep_view()[0] == args@[0]@);
            }
            to_chars(args[0].as_str())
        } else {
            Vec::new()
        };
        proof {
            if args@.len() == 0 {
                assert(fname@ =~= Seq::<char>::empty());
            }
            lemma_opts_get(*options, "pyobject"@);
            lemma_opts_get(*options, "caption"@);
            lemma_opts_get(*options, "language"@);
        }
        let fname_s = from_chars(fname.as_slice());
        match self.source_files.get(fname_s.as_str()) {
            None => {
                let mut out: Vec<char> = Vec::new();
                append_str(&mut out, "<!-- literalinclude error: could not read '");
                append_chars(&mut out, fname.as_slice());
                append_str(&mut out, "' -->");
                proof {
                    assert(out@ =~= self.spec_literalinclude(
                        args.deep_view(),
                        opts_view(*options),
                    ));
                }
                out
            },
            Some(text) => {
                let tv = to_chars(text.as_str());
                let lines0 = split_lines(tv.as_slice());
                match options.get("pyobject") {
                    Some(po) => {
                        let poc = to_chars(po.as_str());
                        match extract_pyobject(&lines0, poc.as_slice()) {
                            Some(ls) => {
                                let body = self.li_html(fname.as_slice(), options, ls);
                                proof {
                                    assert(body@ == self.spec_literalinclude(
                                        args.deep_view(),
                                        opts_view(*options),
                                    ));
                                }
                                body
                            },
                            None => {
                                let mut out: Vec<char> = Vec::new();
                                append_str(
                                    &mut out,
                                    "<!-- literalinclude error: could not find pyobject '",
                                );
                                append_chars(&mut out, poc.as_slice());
                                append_str(&mut out, "' in '");
                                append_chars(&mut out, fname.as_slice());
                                append_str(&mut out, "' -->");
                                proof {
                                    assert(out@ =~= self.spec_literalinclude(
                                        args.deep_view(),
                                        opts_view(*options),
                                    ));
                                }
                                out
                            },
                        }
                    },
                    None => {
                        let body = self.li_html(fname.as_slice(), options, lines0);
                        proof {
                            assert(body@ == self.spec_literalinclude(
                                args.deep_view(),
                                opts_view(*options),
                            ));
                        }
                        body
                    },
                }
            },
        }
    }

    /// Assemble the literalinclude body.
    fn li_html(&self, fname: &[char], options: &StrMap<String>, lines: Vec<Vec<char>>) -> (r: Vec<
        char,
    >)
        requires
            self.wf(),
            options.wf(),
        ensures
            r@ == self.spec_li_html(fname@, opts_view(*options), lines.deep_view()),
    {
        proof {
            lemma_opts_get(*options, "language"@);
            lemma_opts_get(*options, "caption"@);
        }
        let ghost lv = lines.deep_view();
        let filtered = li_lines(lines, options);
        let nl = to_chars("\n");
        let joined = join_chars(&filtered, nl.as_slice());
        let lang: Vec<char> = match options.get("language") {
            Some(l) => to_chars(l.as_str()),
            None => {
                match crate::parser::ext_of_pub(fname) {
                    Some(e) => to_chars(ext_lang(e.as_slice())),
                    None => to_chars("text"),
                }
            },
        };
        proof {
            reveal_strlit("text");
            assert(lang@ == spec_li_lang(opts_view(*options), fname@)) by {
                if opts_view(*options).len() >= 0 {
                }
            }
        }
        let mut out: Vec<char> = Vec::new();
        match options.get("caption") {
            Some(c) => {
                let cv = to_chars(c.as_str());
                let pat = to_chars("{filename}");
                proof {
                    reveal_strlit("{filename}");
                    assert(pat@ == "{filename}"@);
                }
                let replaced = replace_all_chars(cv.as_slice(), pat.as_slice(), fname);
                append_str(&mut out, "<div class=\"code-block-caption\"><span class=\"caption-text\">");
                append_chars(&mut out, escape_html(replaced.as_slice()).as_slice());
                append_str(&mut out, "</span></div>\n");
            },
            None => {},
        }
        append_str(&mut out, "<div class=\"highlight-");
        append_chars(&mut out, lang.as_slice());
        append_str(&mut out, " notranslate\">");
        let hl = self.highlight_chars(Some(lang.as_slice()), joined.as_slice());
        append_chars(&mut out, hl.as_slice());
        append_str(&mut out, "</div>");
        proof {
            assert(out@ =~= self.spec_li_html(fname@, opts_view(*options), lv));
        }
        out
    }

    /// Highlight code, falling back to an escaped block.
    fn highlight_chars(&self, token: Option<&[char]>, code: &[char]) -> (r: Vec<char>)
        ensures
            r@ == self.spec_highlight(
                match token {
                    Some(t) => Some(t@),
                    None => None,
                },
                code@,
            ),
    {
        let code_s = from_chars(code);
        let res = match token {
            Some(t) => {
                let ts = from_chars(t);
                syntect_highlight(
                    &self.syntax_set,
                    &self.theme_set,
                    self.theme_name.as_str(),
                    Some(ts.as_str()),
                    code_s.as_str(),
                )
            },
            None => syntect_highlight(
                &self.syntax_set,
                &self.theme_set,
                self.theme_name.as_str(),
                None,
                code_s.as_str(),
            ),
        };
        match res {
            Some(h) => to_chars(h.as_str()),
            None => {
                let mut out: Vec<char> = Vec::new();
                append_str(&mut out, "<pre><code>");
                append_chars(&mut out, escape_html(code).as_slice());
                append_str(&mut out, "</code></pre>");
                proof {
                    assert(out@ =~= "<pre><code>"@ + spec_escape_html(code@) + "</code></pre>"@);
                }
                out
            },
        }
    }
}

/// The lines of an include body after its filters: start line, end line,
/// start-after marker, end-before marker, in this order.
pub open spec fn spec_inc_lines(lines: Seq<Seq<char>>, opts: Seq<(Seq<char>, Seq<char>)>) -> Seq<
    Seq<char>,
> {
    let l1 = match spec_pairs_get(opts, "start-line"@) {
        Some(t) => spec_skip_start(lines, t),
        None => lines,
    };
    let l2 = match spec_pairs_get(opts, "end-line"@) {
        Some(t) => spec_take_end(l1, t),
        None => l1,
    };
    let l3 = match spec_pairs_get(opts, "start-after"@) {
        Some(m) => spec_after_marker(l2, m),
        None => l2,
    };
    match spec_pairs_get(opts, "end-before"@) {
        Some(m) => spec_before_marker(l3, m),
        None => l3,
    }
}

/// Apply the include line filters.
fn inc_lines(lines: Vec<Vec<char>>, options: &StrMap<String>) -> (r: Vec<Vec<char>>)
    requires
        options.wf(),
    ensures
        r.deep_view() == spec_inc_lines(lines.deep_view(), opts_view(*options)),
{
    proof {
        lemma_opts_get(*options, "start-line"@);
        lemma_opts_get(*options, "end-line"@);
        lemma_opts_get(*options, "start-after"@);
        lemma_opts_get(*options, "end-before"@);
    }
    let l1 = match options.get("start-line") {
        Some(t) => {
            match parse_usize(to_chars(t.as_str()).as_slice()) {
                Some(n) => {
                    if n <= lines.len() {
                        copy_lines(&lines, n, lines.len())
                    } else {
                        lines
                    }
                },
                None => lines,
            }
        },
        None => lines,
    };
    let l2 = match options.get("end-line") {
        Some(t) => {
            match parse_usize(to_chars(t.as_str()).as_slice()) {
                Some(e) => {
                    if 0 < e && e <= l1.len() {
                        copy_lines(&l1, 0, e)
                    } else {
                        l1
                    }
                },
                None => l1,
            }
        },
        None => l1,
    };
    let l3 = match options.get("start-after") {
        Some(m) => after_marker(&l2, to_chars(m.as_str()).as_slice()),
        None => l2,
    };
    match options.get("end-before") {
        Some(m) => before_marker(&l3, to_chars(m.as_str()).as_slice()),
        None => l3,
    }
}

// ---------------------------------------------------------------------------
// Section nesting and whole-document rendering.
// ---------------------------------------------------------------------------

/// Closing tags for the open sections at or below the incoming level, and
/// the stack that remains.
pub open spec fn spec_close_sections(stack: Seq<int>, level: int) -> (Seq<char>, Seq<int>)
    decreases stack.len(),
{
    if stack.len() > 0 && stack.last() >= level {
        let r = spec_close_sections(stack.drop_last(), level);
        ("</section>\n"@ + r.0, r.1)
    } else {
        (Seq::empty(), stack)
    }
}

/// Closing tags for every open section.
pub open spec fn spec_close_all(stack: Seq<int>) -> Seq<char>
    decreases stack.len(),
{
    if stack.len() == 0 {
        Seq::empty()
    } else {
        "</section>\n"@ + spec_close_all(stack.drop_last())
    }
}

/// The list of raw-content directive names: their body lines skip inline
/// processing.
pub open spec fn spec_raw_name(name: Seq<char>) -> bool {
    name == "raw"@ || name == "code-block"@ || name == "code"@ || name == "sourcecode"@ || name
        == "literalinclude"@ || name == "highlight"@
}

/// The body lines handed to the directive processor: raw for the raw-content
/// names, inline-rendered line by line otherwise.
pub open spec fn spec_proc_lines(content: Seq<char>, raw: bool) -> Seq<Seq<char>>
    decreases spec_lines(content).len(),
{
    if raw {
        spec_lines(content)
    } else {
        spec_inline_lines(spec_lines(content))
    }
}

/// Each line rendered through the inline engine.
pub open spec fn spec_inline_lines(lines: Seq<Seq<char>>) -> Seq<Seq<char>>
    decreases lines.len(),
{
    if lines.len() == 0 {
        Seq::empty()
    } else {
        seq![spec_render_inline(lines[0])] + spec_inline_lines(lines.drop_first())
    }
}

/// The admonition title for a known admonition name.
pub open spec fn spec_adm_title(name: Seq<char>) -> Option<Seq<char>> {
    if name == "note"@ {
        Some("Note"@)
    } else if name == "warning"@ {
        Some("Warning"@)
    } else if name == "tip"@ {
        Some("Tip"@)
    } else if name == "hint"@ {
        Some("Hint"@)
    } else if name == "important"@ {
        Some("Important"@)
    } else if name == "caution"@ {
        Some("Caution"@)
    } else if name == "danger"@ {
        Some("Danger"@)
    } else if name == "error"@ {
        Some("Error"@)
    } else if name == "attention"@ {
        Some("Attention"@)
    } else {
        None
    }
}

impl HtmlRenderer {
    /// The rendered form of a directive that is not handled in-core: raw
    /// content is inserted, admonitions become admonition blocks, code
    /// names are highlighted, and anything else is an HTML comment that
    /// does not carry the directive's name.
    pub open spec fn spec_process_directive(
        self,
        name: Seq<char>,
        args: Seq<Seq<char>>,
        body: Seq<Seq<char>>,
    ) -> Seq<char> {
        if name == "raw"@ {
            crate::text::spec_join(body, "\n"@)
        } else {
            match spec_adm_title(name) {
                Some(title) => "<div class=\"admonition "@ + name
                    + "\">\n<p class=\"admonition-title\">"@ + title + "</p>\n<p>"@
                    + crate::text::spec_join(body, "\n"@) + "</p>\n</div>"@,
                None => if name == "code-block"@ || name == "code"@ || name == "sourcecode"@ {
                    let lang: Seq<char> = if args.len() > 0 {
                        args[0]
                    } else {
                        "text"@
                    };
                    "<div class=\"highlight-"@ + lang + " notranslate\">"@ + self.spec_highlight(
                        Some(lang),
                        crate::text::spec_join(body, "\n"@),
                    ) + "</div>"@
                } else {
                    "<!-- Error processing directive -->"@
                },
            }
        }
    }
}

/// Render each line through the inline engine.
fn inline_lines(lines: &Vec<Vec<char>>, from: usize) -> (r: Vec<Vec<char>>)
    requires
        from <= lines@.len(),
    ensures
        r.deep_view() == spec_inline_lines(
            lines.deep_view().subrange(from as int, lines.deep_view().len() as int),
        ),
    decreases lines@.len() - from,
{
    let ghost lv = lines.deep_view();
    let ghost rest = lv.subrange(from as int, lv.len() as int);
    if from >= lines.len() {
        let out: Vec<Vec<char>> = Vec::new();
        proof {
            assert(rest.len() == 0);
            assert(out.deep_view() =~~= spec_inline_lines(rest));
        }
        return out;
    }
    proof {
        assert(lv[from as int] == lines@[from as int]@);
        assert(rest[0] == lv[from as int]);
        assert(rest.drop_first() =~= lv.subrange(from + 1, lv.len() as int));
    }
    let head = render_inline_chars(lines[from].as_slice());
    let more = inline_lines(lines, from + 1);
    let ghost hv = head@;
    let ghost mv = more.deep_view();
    let mut out = more;
    out.insert(0, head);
    proof {
        assert(out.deep_view() =~~= seq![hv] + mv);
        assert(seq![hv] + mv =~~= spec_inline_lines(rest));
    }
    out
}

impl HtmlRenderer {
    /// One rendered node; the fuel bounds nested includes.
    pub open spec fn spec_render_node(self, n: NodeView, fuel: nat) -> Seq<char>
        decreases fuel, 1int, 0int,
    {
        match n {
            NodeView::Title { text, level, .. } => spec_heading_html(text, level),
            NodeView::Paragraph { content, .. } => "<p>"@ + spec_render_inline(content)
                + "</p>"@,
            NodeView::CodeBlock { language, content, .. } => self.spec_highlight(
                language,
                content,
            ),
            NodeView::List { items, ordered, .. } => spec_list_html(items, ordered),
            NodeView::Table { headers, rows, .. } => spec_table_html(headers, rows),
            NodeView::LinkTarget { name, .. } => "<span id=\""@ + spec_escape_html(name)
                + "\"></span>"@,
            NodeView::BlockQuote { content, .. } => "<blockquote>\n<p>"@ + spec_render_inline(
                content,
            ) + "</p>\n</blockquote>"@,
            NodeView::DefinitionList { items, .. } => "<dl class=\"simple\">\n"@ + spec_dl_items(
                items,
            ) + "</dl>"@,
            NodeView::Directive { name, args, options, content, .. } => if name == "toctree"@ {
                spec_toctree_html(self, options, content)
            } else if name == "literalinclude"@ {
                self.spec_literalinclude(args, options)
            } else if name == "include"@ {
                if fuel == 0 {
                    "<!-- include error: nesting too deep -->"@
                } else {
                    self.spec_include(args, options, (fuel - 1) as nat)
                }
            } else {
                self.spec_process_directive(
                    name,
                    args,
                    spec_proc_lines(content, spec_raw_name(name)),
                )
            },
        }
    }

    /// The rendered include directive: the preloaded file, filtered, parsed
    /// as RST and rendered in place.
    pub open spec fn spec_include(
        self,
        args: Seq<Seq<char>>,
        opts: Seq<(Seq<char>, Seq<char>)>,
        fuel: nat,
    ) -> Seq<char>
        decreases fuel, 3int, 0int,
    {
        let fname: Seq<char> = if args.len() > 0 {
            args[0]
        } else {
            Seq::empty()
        };
        match self.files().spec_get(fname) {
            None => "<!-- include error: could not read '"@ + fname + "' -->"@,
            Some(text) => {
                let joined = crate::text::spec_join(
                    spec_inc_lines(spec_lines(text@), opts),
                    "\n"@,
                );
                self.spec_render_nodes(
                    crate::parser::spec_parse_rst(spec_lines(joined), 0),
                    0,
                    Seq::empty(),
                    fuel,
                )
            },
        }
    }

    /// The rendered nodes from `i` on, under the open-section stack.
    pub open spec fn spec_render_nodes(
        self,
        nodes: Seq<NodeView>,
        i: int,
        stack: Seq<int>,
        fuel: nat,
    ) -> Seq<char>
        decreases fuel, 2int, nodes.len() - i,
    {
        if i < 0 || i >= nodes.len() {
            spec_close_all(stack)
        } else {
            match nodes[i] {
                NodeView::Title { text, level, .. } => {
                    let lv = spec_clamp_level(level);
                    let c = spec_close_sections(stack, lv);
                    c.0 + "<section id=\""@ + spec_title_slug(text) + "\">\n"@
                        + self.spec_render_node(nodes[i], fuel) + "\n"@ + self.spec_render_nodes(
                        nodes,
                        i + 1,
                        c.1.push(lv),
                        fuel,
                    )
                },
                _ => self.spec_render_node(nodes[i], fuel) + "\n"@ + self.spec_render_nodes(
                    nodes,
                    i + 1,
                    stack,
                    fuel,
                ),
            }
        }
    }

    /// Close the open sections at or below `level`.
    fn close_sections(&self, stack: Vec<usize>, level: usize, out: &mut Vec<char>) -> (r: Vec<
        usize,
    >)
        ensures
            final(out)@ == old(out)@ + spec_close_sections(idx_view(stack@), level as int).0,
            idx_view(r@) == spec_close_sections(idx_view(stack@), level as int).1,
        decreases stack@.len(),
    {
        let ghost sv = idx_view(stack@);
        let mut stack = stack;
        if stack.len() > 0 {
            let top = stack[stack.len() - 1];
            proof {
                assert(sv.last() == top as int);
            }
            if top >= level {
                append_str(out, "</section>\n");
                let _ = stack.pop();
                proof {
                    assert(idx_view(stack@) =~= sv.drop_last());
                }
                let r = self.close_sections(stack, level, out);
                proof {
                    assert(out@ =~= old(out)@ + spec_close_sections(sv, level as int).0);
                }
                return r;
            }
        }
        proof {
            assert(out@ =~= old(out)@ + spec_close_sections(sv, level as int).0);
        }
        stack
    }

    /// Render one node.
    #[verifier::rlimit(100)]
    fn render_rst_node_at(&self, n: &RstNode, fuel: usize) -> (r: Vec<char>)
        requires
            self.wf(),
            crate::document::node_wf(*n),
        ensures
            r@ == self.spec_render_node(n@, fuel as nat),
        decreases fuel, 1int, 0int,
    {
        match n {
            RstNode::Title { text, level, .. } => {
                let tv = to_chars(text.as_str());
                let r = heading_html(tv.as_slice(), *level);
                proof {
                    assert(r@ == self.spec_render_node(n@, fuel as nat));
                }
                r
            },
            RstNode::Paragraph { content, .. } => {
                let cv = to_chars(content.as_str());
                let mut out: Vec<char> = Vec::new();
                append_str(&mut out, "<p>");
                append_chars(&mut out, render_inline_chars(cv.as_slice()).as_slice());
                append_str(&mut out, "</p>");
                proof {
                    assert(out@ =~= self.spec_render_node(n@, fuel as nat));
                }
                out
            },
            RstNode::CodeBlock { language, content, .. } => {
                let cv = to_chars(content.as_str());
                let r = match language {
                    Some(l) => {
                        let lv = to_chars(l.as_str());
                        self.highlight_chars(Some(lv.as_slice()), cv.as_slice())
                    },
                    None => self.highlight_chars(None, cv.as_slice()),
                };
                proof {
                    assert(r@ == self.spec_render_node(n@, fuel as nat));
                }
                r
            },
            RstNode::List { items, ordered, .. } => {
                let body = list_items_html(items, 0);
                proof {
                    assert(items.deep_view().subrange(0, items.deep_view().len() as int)
                        =~= items.deep_view());
                }
                let mut out: Vec<char> = Vec::new();
                if *ordered {
                    append_str(&mut out, "<ol>\n");
                    append_chars(&mut out, body.as_slice());
                    append_str(&mut out, "\n</ol>");
                } else {
                    append_str(&mut out, "<ul class=\"simple\">\n");
                    append_chars(&mut out, body.as_slice());
                    append_str(&mut out, "\n</ul>");
                }
                proof {
                    assert(out@ =~= self.spec_render_node(n@, fuel as nat));
                }
                out
            },
            RstNode::Table { headers, rows, .. } => {
                let mut out: Vec<char> = Vec::new();
                append_str(&mut out, "<table>\n");
                if headers.len() > 0 {
                    append_str(&mut out, "<thead>\n<tr>\n");
                    let hs = table_headers(headers, 0);
                    proof {
                        assert(headers.deep_view().subrange(
                            0,
                            headers.deep_view().len() as int,
                        ) =~= headers.deep_view());
                    }
                    append_chars(&mut out, hs.as_slice());
                    append_str(&mut out, "</tr>\n</thead>\n");
                }
                if rows.len() > 0 {
                    append_str(&mut out, "<tbody>\n");
                    let rs = table_rows(rows, 0);
                    proof {
                        assert(rows.deep_view().subrange(0, rows.deep_view().len() as int)
                            =~= rows.deep_view());
                    }
                    append_chars(&mut out, rs.as_slice());
                    append_str(&mut out, "</tbody>\n");
                }
                append_str(&mut out, "</table>");
                proof {
                    assert(out@ =~= self.spec_render_node(n@, fuel as nat));
                }
                out
            },
            RstNode::LinkTarget { name, .. } => {
                let nv = to_chars(name.as_str());
                let mut out: Vec<char> = Vec::new();
                append_str(&mut out, "<span id=\"");
                append_chars(&mut out, escape_html(nv.as_slice()).as_slice());
                append_str(&mut out, "\"></span>");
                proof {
                    assert(out@ =~= self.spec_render_node(n@, fuel as nat));
                }
                out
            },
            RstNode::BlockQuote { content, .. } => {
                let cv = to_chars(content.as_str());
                let mut out: Vec<char> = Vec::new();
                append_str(&mut out, "<blockquote>\n<p>");
                append_chars(&mut out, render_inline_chars(cv.as_slice()).as_slice());
                append_str(&mut out, "</p>\n</blockquote>");
                proof {
                    assert(out@ =~= self.spec_render_node(n@, fuel as nat));
                }
                out
            },
            RstNode::DefinitionList { items, .. } => {
                let body = dl_items(items, 0);
                proof {
                    assert(items.deep_view().subrange(0, items.deep_view().len() as int)
                        =~= items.deep_view());
                }
                let mut out: Vec<char> = Vec::new();
                append_str(&mut out, "<dl class=\"simple\">\n");
                append_chars(&mut out, body.as_slice());
                append_str(&mut out, "</dl>");
                proof {
                    assert(out@ =~= self.spec_render_node(n@, fuel as nat));
                }
                out
            },
            RstNode::Directive { name, args, options, content, .. } => {
                let cv = to_chars(content.as_str());
                let r: Vec<char> = if str_eq2(name.as_str(), "toctree") {
                    self.render_toctree_directive(options, cv.as_slice())
                } else if str_eq2(name.as_str(), "literalinclude") {
                    self.render_literalinclude(args, options)
                } else if str_eq2(name.as_str(), "include") {
                    if fuel == 0 {
                        let mut out: Vec<char> = Vec::new();
                        append_str(&mut out, "<!-- include error: nesting too deep -->");
                        proof {
                            assert(out@ =~= "<!-- include error: nesting too deep -->"@);
                        }
                        out
                    } else {
                        self.render_include(args, options, fuel - 1)
                    }
                } else {
                    let raw = str_eq2(name.as_str(), "raw") || str_eq2(name.as_str(), "code-block")
                        || str_eq2(name.as_str(), "code") || str_eq2(name.as_str(), "sourcecode")
                        || str_eq2(name.as_str(), "highlight");
                    proof {
                        assert((raw || str_eq2_spec(name@, "literalinclude"@)) == spec_raw_name(
                            name@,
                        ));
                    }
                    let lines = split_lines(cv.as_slice());
                    let body: Vec<Vec<char>> = if raw {
                        lines
                    } else {
                        let b = inline_lines(&lines, 0);
                        proof {
                            assert(lines.deep_view().subrange(
                                0,
                                lines.deep_view().len() as int,
                            ) =~= lines.deep_view());
                        }
                        b
                    };
                    self.process_directive_body(name.as_str(), args, &body)
                };
                proof {
                    assert(r@ == self.spec_render_node(n@, fuel as nat));
                }
                r
            },
        }
    }

    /// Render a directive through the built-in processor.
    fn process_directive_body(&self, name: &str, args: &Vec<String>, body: &Vec<Vec<char>>) -> (r:
        Vec<char>)
        requires
            self.wf(),
        ensures
            r@ == self.spec_process_directive(name@, args.deep_view(), body.deep_view()),
    {
        let nl = to_chars("\n");
        if str_eq2(name, "raw") {
            let r = join_chars(body, nl.as_slice());
            proof {
                reveal_strlit("\n");
                assert(r@ == self.spec_process_directive(name@, args.deep_view(), body.deep_view()));
            }
            return r;
        }
        let title: Option<&'static str> = if str_eq2(name, "note") {
            Some("Note")
        } else if str_eq2(name, "warning") {
            Some("Warning")
        } else if str_eq2(name, "tip") {
            Some("Tip")
        } else if str_eq2(name, "hint") {
            Some("Hint")
        } else if str_eq2(name, "important") {
            Some("Important")
        } else if str_eq2(name, "caution") {
            Some("Caution")
        } else if str_eq2(name, "danger") {
            Some("Danger")
        } else if str_eq2(name, "error") {
            Some("Error")
        } else if str_eq2(name, "attention") {
            Some("Attention")
        } else {
            None
        };
        match title {
            Some(t) => {
                let mut out: Vec<char> = Vec::new();
                append_str(&mut out, "<div class=\"admonition ");
                append_str(&mut out, name);
                append_str(&mut out, "\">\n<p class=\"admonition-title\">");
                append_str(&mut out, t);
                append_str(&mut out, "</p>\n<p>");
                append_chars(&mut out, join_chars(body, nl.as_slice()).as_slice());
                append_str(&mut out, "</p>\n</div>");
                proof {
                    reveal_strlit("\n");
                    assert(out@ =~= self.spec_process_directive(
                        name@,
                        args.deep_view(),
                        body.deep_view(),
                    ));
                }
                out
            },
            None => {
                if str_eq2(name, "code-block") || str_eq2(name, "code") || str_eq2(
                    name,
                    "sourcecode",
                ) {
                    let lang: Vec<char> = if args.len() > 0 {
                        proof {
                            assert(args.deep_view()[0] == args@[0]@);
                        }
                        to_chars(args[0].as_str())
                    } else {
                        to_chars("text")
                    };
                    proof {
                        reveal_strlit("text");
                    }
                    let mut out: Vec<char> = Vec::new();
                    append_str(&mut out, "<div class=\"highlight-");
                    append_chars(&mut out, lang.as_slice());
                    append_str(&mut out, " notranslate\">");
                    let hl = self.highlight_chars(
                        Some(lang.as_slice()),
                        join_chars(body, nl.as_slice()).as_slice(),
                    );
                    append_chars(&mut out, hl.as_slice());
                    append_str(&mut out, "</div>");
                    proof {
                        reveal_strlit("\n");
                        assert(out@ =~= self.spec_process_directive(
                            name@,
                            args.deep_view(),
                            body.deep_view(),
                        ));
                    }
                    out
                } else {
                    let mut out: Vec<char> = Vec::new();
                    append_str(&mut out, "<!-- Error processing directive -->");
                    proof {
                        assert(out@ =~= self.spec_process_directive(
                            name@,
                            args.deep_view(),
                            body.deep_view(),
                        ));
                    }
                    out
                }
            },
        }
    }

    /// Render an include directive.
    #[verifier::rlimit(100)]
    fn render_include(&self, args: &Vec<String>, options: &StrMap<String>, fuel: usize) -> (r:
        Vec<char>)
        requires
            self.wf(),
            options.wf(),
        ensures
            r@ == self.spec_include(args.deep_view(), opts_view(*options), fuel as nat),
        decreases fuel, 3int, 0int,
    {
        let fname: Vec<char> = if args.len() > 0 {
            proof {
                assert(args.deep_view()[0] == args@[0]@);
            }
            to_chars(args[0].as_str())
        } else {
            Vec::new()
        };
        proof {
            if args@.len() == 0 {
                assert(fname@ =~= Seq::<char>::empty());
            }
        }
        let fname_s = from_chars(fname.as_slice());
        match self.source_files.get(fname_s.as_str()) {
            None => {
                let mut out: Vec<char> = Vec::new();
                append_str(&mut out, "<!-- include error: could not read '");
                append_chars(&mut out, fname.as_slice());
                append_str(&mut out, "' -->");
                proof {
                    assert(out@ =~= self.spec_include(
                        args.deep_view(),
                        opts_view(*options),
                        fuel as nat,
                    ));
                }
                out
            },
            Some(text) => {
                let tv = to_chars(text.as_str());
                let lines = split_lines(tv.as_slice());
                let filtered = inc_lines(lines, options);
                let nl = to_chars("\n");
                let joined = join_chars(&filtered, nl.as_slice());
                proof {
                    reveal_strlit("\n");
                }
                let p = crate::parser::Parser::new();
                let rc = p.parse_rst(from_chars(joined.as_slice()).as_str());
                let empty_stack: Vec<usize> = Vec::new();
                proof {
                    assert(idx_view(empty_stack@) =~= Seq::<int>::empty());
                }
                let body = self.render_nodes_from(&rc.ast, 0, empty_stack, fuel);
                proof {
                    assert(body@ == self.spec_include(
                        args.deep_view(),
                        opts_view(*options),
                        fuel as nat,
                    ));
                }
                body
            },
        }
    }

    /// Render the nodes from `i` on, closing sections at the end.
    fn render_nodes_from(
        &self,
        nodes: &Vec<RstNode>,
        i: usize,
        stack: Vec<usize>,
        fuel: usize,
    ) -> (r: Vec<char>)
        requires
            self.wf(),
            i <= nodes@.len(),
            forall|k: int| 0 <= k < nodes@.len() ==> crate::document::node_wf(#[trigger] nodes@[k]),
        ensures
            r@ == self.spec_render_nodes(
                nodes.deep_view(),
                i as int,
                idx_view(stack@),
                fuel as nat,
            ),
        decreases fuel, 2int, nodes@.len() - i,
    {
        let ghost nv = nodes.deep_view();
        let ghost sv = idx_view(stack@);
        if i >= nodes.len() {
            let mut out: Vec<char> = Vec::new();
            let _ = self.close_all(stack, &mut out);
            proof {
                assert(out@ =~= spec_close_all(sv));
            }
            return out;
        }
        proof {
            assert(nv[i as int] == nodes@[i as int]@);
        }
        match &nodes[i] {
            RstNode::Title { text, level, line } => {
                proof {
                    assert(nv[i as int] == NodeView::Title {
                        text: text@,
                        level: *level as int,
                        line: *line as int,
                    });
                }
                let (lv, _) = clamp_level(*level);
                let mut out: Vec<char> = Vec::new();
                let stack2 = self.close_sections(stack, lv, &mut out);
                append_str(&mut out, "<section id=\"");
                let tvv = to_chars(text.as_str());
                let slug = slugify_chars(drop_ticks(
                    strip_ticks(strip_roles(tvv.as_slice()).as_slice()).as_slice(),
                ).as_slice());
                append_chars(&mut out, slug.as_slice());
                append_str(&mut out, "\">\n");
                let node_html = self.render_rst_node_at(&nodes[i], fuel);
                append_chars(&mut out, node_html.as_slice());
                append_str(&mut out, "\n");
                let mut stack3 = stack2;
                stack3.push(lv);
                proof {
                    assert(idx_view(stack3@) =~= spec_close_sections(
                        sv,
                        spec_clamp_level(*level as int),
                    ).1.push(spec_clamp_level(*level as int)));
                }
                let rest = self.render_nodes_from(nodes, i + 1, stack3, fuel);
                append_chars(&mut out, rest.as_slice());
                proof {
                    assert(out@ =~= self.spec_render_nodes(nv, i as int, sv, fuel as nat));
                }
                out
            },
            _ => {
                let mut out = self.render_rst_node_at(&nodes[i], fuel);
                append_str(&mut out, "\n");
                let rest = self.render_nodes_from(nodes, i + 1, stack, fuel);
                append_chars(&mut out, rest.as_slice());
                proof {
                    assert(!(nv[i as int] is Title));
                    assert(out@ =~= self.spec_render_nodes(nv, i as int, sv, fuel as nat));
                }
                out
            },
        }
    }

    /// Close every open section.
    fn close_all(&self, stack: Vec<usize>, out: &mut Vec<char>) -> (r: bool)
        ensures
            final(out)@ == old(out)@ + spec_close_all(idx_view(stack@)),
        decreases stack@.len(),
    {
        let ghost sv = idx_view(stack@);
        let mut stack = stack;
        if stack.len() == 0 {
            proof {
                assert(out@ =~= old(out)@ + spec_close_all(sv));
            }
            return true;
        }
        append_str(out, "</section>\n");
        let _ = stack.pop();
        proof {
            assert(idx_view(stack@) =~= sv.drop_last());
        }
        let r = self.close_all(stack, out);
        proof {
            assert(out@ =~= old(out)@ + spec_close_all(sv));
        }
        r
    }

    /// Render RST content: nodes in order, wrapped in nested sections by
    /// their heading levels; includes may nest as deep as there are
    /// preloaded files.
    pub fn render_rst(&self, content: &RstContent) -> (r: String)
        requires
            self.wf(),
            self.files().key_seq().len() < usize::MAX,
            forall|k: int|
                0 <= k < content.ast@.len() ==> crate::document::node_wf(
                    #[trigger] content.ast@[k],
                ),
        ensures
            r@ == self.spec_render_nodes(
                content.ast.deep_view(),
                0,
                Seq::empty(),
                (self.files().key_seq().len() + 1) as nat,
            ),
    {
        let fuel = self.source_files.len() + 1;
        let empty_stack: Vec<usize> = Vec::new();
        proof {
            assert(idx_view(empty_stack@) =~= Seq::<int>::empty());
        }
        let out = self.render_nodes_from(&content.ast, 0, empty_stack, fuel);
        from_chars(out.as_slice())
    }

    /// Render parsed document content of any format.
    pub fn render_document_content(&self, content: &DocumentContent) -> (r: String)
        requires
            self.wf(),
            self.files().key_seq().len() < usize::MAX,
            match content {
                DocumentContent::RestructuredText(rc) => forall|k: int|
                    0 <= k < rc.ast@.len() ==> crate::document::node_wf(#[trigger] rc.ast@[k]),
                _ => true,
            },
        ensures
            match content {
                DocumentContent::RestructuredText(rc) => r@ == self.spec_render_nodes(
                    rc.ast.deep_view(),
                    0,
                    Seq::empty(),
                    (self.files().key_seq().len() + 1) as nat,
                ),
                DocumentContent::Markdown(mc) => r@ == self.spec_render_md(mc.ast.deep_view()),
                DocumentContent::PlainText(t) => r@ == "<p>"@ + spec_escape_html(t@) + "</p>"@,
            },
    {
        match content {
            DocumentContent::RestructuredText(rc) => self.render_rst(rc),
            DocumentContent::Markdown(mc) => self.render_markdown(mc),
            DocumentContent::PlainText(t) => {
                let tv = to_chars(t.as_str());
                let mut out: Vec<char> = Vec::new();
                append_str(&mut out, "<p>");
                append_chars(&mut out, escape_html(tv.as_slice()).as_slice());
                append_str(&mut out, "</p>");
                proof {
                    assert(out@ =~= "<p>"@ + spec_escape_html(t@) + "</p>"@);
                }
                from_chars(out.as_slice())
            },
        }
    }

    /// The rendered Markdown nodes: paragraphs through the inline engine's
    /// escaping, one per line.
    pub open spec fn spec_render_md(self, nodes: Seq<MdNodeView>) -> Seq<char>
        decreases nodes.len(),
    {
        if nodes.len() == 0 {
            Seq::empty()
        } else {
            (match nodes[0] {
                MdNodeView::Paragraph { content, .. } => "<p>"@
                    + crate::inline::spec_render_md_inline(content) + "</p>"@,
                MdNodeView::Heading { text, level, .. } => {
                    let d = spec_level_digit(spec_clamp_level(level));
                    "<h"@ + d + " id=\""@ + spec_slugify(text) + "\">"@ + spec_escape_html(text)
                        + "</h"@ + d + ">"@
                },
                MdNodeView::CodeBlock { language, content, .. } => self.spec_highlight(
                    language,
                    content,
                ),
                MdNodeView::List { items, ordered, .. } => spec_list_html(items, ordered),
                MdNodeView::Table { headers, rows, .. } => spec_table_html(headers, rows),
            }) + "\n"@ + self.spec_render_md(nodes.drop_first())
        }
    }

    /// Render Markdown content.
    pub fn render_markdown(&self, content: &MarkdownContent) -> (r: String)
        requires
            self.wf(),
        ensures
            r@ == self.spec_render_md(content.ast.deep_view()),
    {
        let out = self.render_md_from(&content.ast, 0);
        proof {
            assert(content.ast.deep_view().subrange(0, content.ast.deep_view().len() as int)
                =~= content.ast.deep_view());
        }
        from_chars(out.as_slice())
    }

    /// Render the Markdown nodes from `i` on.
    fn render_md_from(&self, nodes: &Vec<MarkdownNode>, i: usize) -> (r: Vec<char>)
        requires
            self.wf(),
            i <= nodes@.len(),
        ensures
            r@ == self.spec_render_md(
                nodes.deep_view().subrange(i as int, nodes.deep_view().len() as int),
            ),
        decreases nodes@.len() - i,
    {
        let ghost nv = nodes.deep_view();
        let ghost rest = nv.subrange(i as int, nv.len() as int);
        if i >= nodes.len() {
            let out: Vec<char> = Vec::new();
            proof {
                assert(rest.len() == 0);
            }
            return out;
        }
        proof {
            assert(nv[i as int] == nodes@[i as int]@);
            assert(rest[0] == nv[i as int]);
            assert(rest.drop_first() =~= nv.subrange(i + 1, nv.len() as int));
        }
        let mut out: Vec<char> = Vec::new();
        match &nodes[i] {
            MarkdownNode::Paragraph { content, .. } => {
                let cv = to_chars(content.as_str());
                append_str(&mut out, "<p>");
                append_chars(
                    &mut out,
                    crate::inline::render_md_inline_chars(cv.as_slice()).as_slice(),
                );
                append_str(&mut out, "</p>");
            },
            MarkdownNode::Heading { text, level, .. } => {
                let tv = to_chars(text.as_str());
                let (_, d) = clamp_level(*level);
                append_str(&mut out, "<h");
                append_str(&mut out, d);
                append_str(&mut out, " id=\"");
                append_chars(&mut out, slugify_chars(tv.as_slice()).as_slice());
                append_str(&mut out, "\">");
                append_chars(&mut out, escape_html(tv.as_slice()).as_slice());
                append_str(&mut out, "</h");
                append_str(&mut out, d);
                append_str(&mut out, ">");
            },
            MarkdownNode::CodeBlock { language, content, .. } => {
                let cv = to_chars(content.as_str());
                let hl = match language {
                    Some(l) => {
                        let lv = to_chars(l.as_str());
                        self.highlight_chars(Some(lv.as_slice()), cv.as_slice())
                    },
                    None => self.highlight_chars(None, cv.as_slice()),
                };
                append_chars(&mut out, hl.as_slice());
            },
            MarkdownNode::List { items, ordered, .. } => {
                let body = list_items_html(items, 0);
                proof {
                    assert(items.deep_view().subrange(0, items.deep_view().len() as int)
                        =~= items.deep_view());
                }
                if *ordered {
                    append_str(&mut out, "<ol>\n");
                    append_chars(&mut out, body.as_slice());
                    append_str(&mut out, "\n</ol>");
                } else {
                    append_str(&mut out, "<ul class=\"simple\">\n");
                    append_chars(&mut out, body.as_slice());
                    append_str(&mut out, "\n</ul>");
                }
            },
            MarkdownNode::Table { headers, rows, .. } => {
                append_str(&mut out, "<table>\n");
                if headers.len() > 0 {
                    append_str(&mut out, "<thead>\n<tr>\n");
                    let hs = table_headers(headers, 0);
                    proof {
                        assert(headers.deep_view().subrange(
                            0,
                            headers.deep_view().len() as int,
                        ) =~= headers.deep_view());
                    }
                    append_chars(&mut out, hs.as_slice());
                    append_str(&mut out, "</tr>\n</thead>\n");
                }
                if rows.len() > 0 {
                    append_str(&mut out, "<tbody>\n");
                    let rs = table_rows(rows, 0);
                    proof {
                        assert(rows.deep_view().subrange(0, rows.deep_view().len() as int)
                            =~= rows.deep_view());
                    }
                    append_chars(&mut out, rs.as_slice());
                    append_str(&mut out, "</tbody>\n");
                }
                append_str(&mut out, "</table>");
            },
        }
        append_str(&mut out, "\n");
        let more = self.render_md_from(nodes, i + 1);
        append_chars(&mut out, more.as_slice());
        proof {
            assert(out@ =~= self.spec_render_md(rest));
        }
        out
    }
}

/// Character-wise string-slice equality, shared with the dispatcher.
fn str_eq2(a: &str, b: &str) -> (r: bool)
    ensures
        r == str_eq2_spec(a@, b@),
{
    crate::text::str_eq(a, b)
}

/// Equality of two character sequences.
pub open spec fn str_eq2_spec(a: Seq<char>, b: Seq<char>) -> bool {
    a == b
}

// ---------------------------------------------------------------------------
// Laws of the section structure: balance and strict nesting.
// ---------------------------------------------------------------------------

/// How many opening section tags the renderer emits from node `i` on.
pub open spec fn spec_section_opens(nodes: Seq<NodeView>, i: int) -> int
    decreases nodes.len() - i,
{
    if i < 0 || i >= nodes.len() {
        0
    } else {
        (match nodes[i] {
            NodeView::Title { .. } => 1int,
            _ => 0int,
        }) + spec_section_opens(nodes, i + 1)
    }
}

/// How many closing section tags the renderer emits from node `i` on, under
/// the given open-section stack.
pub open spec fn spec_section_closes(nodes: Seq<NodeView>, i: int, stack: Seq<int>) -> int
    decreases nodes.len() - i,
{
    if i < 0 || i >= nodes.len() {
        stack.len() as int
    } else {
        match nodes[i] {
            NodeView::Title { level, .. } => {
                let lv = spec_clamp_level(level);
                let c = spec_close_sections(stack, lv);
                (stack.len() - c.1.len()) + spec_section_closes(nodes, i + 1, c.1.push(lv))
            },
            _ => spec_section_closes(nodes, i + 1, stack),
        }
    }
}

proof fn lemma_close_sections_shrinks(stack: Seq<int>, lv: int)
    ensures
        spec_close_sections(stack, lv).1.len() <= stack.len(),
        spec_close_sections(stack, lv).1.len() > 0 ==> spec_close_sections(stack, lv).1.last()
            < lv,
        forall|k: int|
            0 <= k < spec_close_sections(stack, lv).1.len() ==> spec_close_sections(
                stack,
                lv,
            ).1[k] == stack[k],
    decreases stack.len(),
{
    if stack.len() > 0 && stack.last() >= lv {
        lemma_close_sections_shrinks(stack.drop_last(), lv);
        assert forall|k: int|
            0 <= k < spec_close_sections(stack, lv).1.len() implies spec_close_sections(
            stack,
            lv,
        ).1[k] == stack[k] by {
            assert(spec_close_sections(stack, lv).1[k] == spec_close_sections(
                stack.drop_last(),
                lv,
            ).1[k]);
            assert(spec_close_sections(stack.drop_last(), lv).1[k] == stack.drop_last()[k]);
        }
    }
}

/// The law of balance: over a whole document, rendered from an empty stack,
/// the number of closing section tags equals the number of opening ones.
/// More generally, the closes equal the opens plus the sections already
/// open when rendering starts.
pub proof fn lemma_sections_balanced(nodes: Seq<NodeView>, i: int, stack: Seq<int>)
    requires
        0 <= i,
    ensures
        spec_section_closes(nodes, i, stack) == spec_section_opens(nodes, i)
            + stack.len(),
    decreases nodes.len() - i,
{
    if i < nodes.len() {
        match nodes[i] {
            NodeView::Title { level, .. } => {
                let lv = spec_clamp_level(level);
                let c = spec_close_sections(stack, lv);
                lemma_close_sections_shrinks(stack, lv);
                lemma_sections_balanced(nodes, i + 1, c.1.push(lv));
            },
            _ => {
                lemma_sections_balanced(nodes, i + 1, stack);
            },
        }
    }
}

/// A stack of open section levels is strictly increasing.
pub open spec fn spec_stack_ordered(stack: Seq<int>) -> bool {
    forall|a: int, b: int| 0 <= a < b < stack.len() ==> stack[a] < stack[b]
}

/// The law of nesting: when a title opens a section, the sections that
/// remain open are strictly increasing in level and the new section's level
/// sits strictly above them, so nesting follows the heading levels.
pub proof fn lemma_sections_ordered(stack: Seq<int>, lv: int)
    requires
        spec_stack_ordered(stack),
    ensures
        spec_stack_ordered(spec_close_sections(stack, lv).1.push(lv)),
    decreases stack.len(),
{
    let c = spec_close_sections(stack, lv);
    lemma_close_sections_shrinks(stack, lv);
    let s2 = c.1.push(lv);
    assert forall|a: int, b: int| 0 <= a < b < s2.len() implies s2[a] < s2[b] by {
        if b < s2.len() - 1 {
            assert(s2[a] == stack[a] && s2[b] == stack[b]);
        } else {
            assert(s2[b] == lv);
            if c.1.len() > 0 {
                assert(s2[a] == stack[a]);
                assert(c.1.last() == stack[c.1.len() - 1]);
                assert(c.1.last() < lv);
                if a < c.1.len() - 1 {
                    assert(stack[a] < stack[c.1.len() - 1]);
                }
            }
        }
    }
}

/// The law of unknown directives: a directive whose name none of the
/// handled sets contain renders to a fixed comment, so its name never
/// reaches the output.
pub proof fn lemma_unknown_directive_hidden(
    r: HtmlRenderer,
    name: Seq<char>,
    args: Seq<Seq<char>>,
    body: Seq<Seq<char>>,
)
    requires
        name != "raw"@,
        spec_adm_title(name) is None,
        name != "code-block"@,
        name != "code"@,
        name != "sourcecode"@,
    ensures
        r.spec_process_directive(name, args, body) == "<!-- Error processing directive -->"@,
{
}

} // verus!
