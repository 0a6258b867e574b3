//! The document model: AST nodes for reStructuredText and Markdown, parsed
//! directives, table-of-contents entries and the document wrapper, together
//! with the mathematical views the contracts are stated over.

use vstd::prelude::*;

use crate::strmap::{seq_index_of, lemma_seq_index_of_props, StrMap};

verus! {

/// Option lists as the specifications see them: key/value pairs of
/// character sequences in insertion order, with no key repeated.
pub open spec fn opts_view(m: StrMap<String>) -> Seq<(Seq<char>, Seq<char>)> {
    Seq::new(m.key_seq().len(), |i: int| (m.key_seq()[i], m.val_seq()[i]@))
}

/// First value bound to `k` in a pair list, if any.
pub open spec fn spec_pairs_get(ps: Seq<(Seq<char>, Seq<char>)>, k: Seq<char>) -> Option<
    Seq<char>,
>
    decreases ps.len(),
{
    if ps.len() == 0 {
        None
    } else if ps[0].0 == k {
        Some(ps[0].1)
    } else {
        spec_pairs_get(ps.drop_first(), k)
    }
}

/// Whether a pair list binds the key `k`.
pub open spec fn spec_pairs_has(ps: Seq<(Seq<char>, Seq<char>)>, k: Seq<char>) -> bool {
    spec_pairs_get(ps, k) is Some
}

proof fn lemma_pairs_get_index(ps: Seq<(Seq<char>, Seq<char>)>, ks: Seq<Seq<char>>, k: Seq<char>)
    requires
        ps.len() == ks.len(),
        forall|i: int| 0 <= i < ps.len() ==> (#[trigger] ps[i]).0 == ks[i],
    ensures
        seq_index_of(ks, k) < 0 ==> spec_pairs_get(ps, k) is None,
        seq_index_of(ks, k) >= 0 ==> spec_pairs_get(ps, k) == Some(
            ps[seq_index_of(ks, k)].1,
        ),
    decreases ps.len(),
{
    if ps.len() > 0 {
        assert(ps[0].0 == ks[0]);
        if ks[0] != k {
            assert(forall|i: int|
                0 <= i < ps.drop_first().len() ==> (#[trigger] ps.drop_first()[i]).0
                    == ks.drop_first()[i]);
            lemma_pairs_get_index(ps.drop_first(), ks.drop_first(), k);
            if seq_index_of(ks, k) >= 0 {
                lemma_seq_index_of_props(ks, k);
                lemma_seq_index_of_props(ks.drop_first(), k);
                assert(seq_index_of(ks.drop_first(), k) == seq_index_of(ks, k) - 1);
                assert(ps.drop_first()[seq_index_of(ks.drop_first(), k)] == ps[seq_index_of(
                    ks,
                    k,
                )]);
            }
        }
    }
}

/// The pair-list view of a string map agrees with its lookup function.
pub proof fn lemma_opts_get(m: StrMap<String>, k: Seq<char>)
    requires
        m.wf(),
    ensures
        match m.spec_get(k) {
            Some(v) => spec_pairs_get(opts_view(m), k) == Some(v@),
            None => spec_pairs_get(opts_view(m), k) is None,
        },
{
    let ps = opts_view(m);
    let ks = m.key_seq();
    assert(forall|i: int| 0 <= i < ps.len() ==> (#[trigger] ps[i]).0 == ks[i]);
    lemma_pairs_get_index(ps, ks, k);
    lemma_seq_index_of_props(ks, k);
}

/// The pair list after binding `k` to `v`: the first pair with key `k` is
/// replaced, or the pair is appended when the key is new.
pub open spec fn spec_pairs_insert(
    ps: Seq<(Seq<char>, Seq<char>)>,
    k: Seq<char>,
    v: Seq<char>,
) -> Seq<(Seq<char>, Seq<char>)>
    decreases ps.len(),
{
    if ps.len() == 0 {
        seq![(k, v)]
    } else if ps[0].0 == k {
        seq![(k, v)] + ps.drop_first()
    } else {
        seq![ps[0]] + spec_pairs_insert(ps.drop_first(), k, v)
    }
}

proof fn lemma_pairs_insert_shape(
    ps: Seq<(Seq<char>, Seq<char>)>,
    ks: Seq<Seq<char>>,
    k: Seq<char>,
    v: Seq<char>,
)
    requires
        ps.len() == ks.len(),
        forall|i: int| 0 <= i < ps.len() ==> (#[trigger] ps[i]).0 == ks[i],
    ensures
        seq_index_of(ks, k) < 0 ==> spec_pairs_insert(ps, k, v) == ps.push((k, v)),
        seq_index_of(ks, k) >= 0 ==> spec_pairs_insert(ps, k, v) == ps.update(
            seq_index_of(ks, k),
            (k, v),
        ),
    decreases ps.len(),
{
    if ps.len() == 0 {
        assert(spec_pairs_insert(ps, k, v) =~= ps.push((k, v)));
    } else if ps[0].0 == k {
        assert(ks[0] == k);
        assert(seq_index_of(ks, k) == 0);
        assert(spec_pairs_insert(ps, k, v) =~= ps.update(0, (k, v)));
    } else {
        assert(forall|i: int|
            0 <= i < ps.drop_first().len() ==> (#[trigger] ps.drop_first()[i]).0
                == ks.drop_first()[i]);
        lemma_pairs_insert_shape(ps.drop_first(), ks.drop_first(), k, v);
        lemma_seq_index_of_props(ks, k);
        lemma_seq_index_of_props(ks.drop_first(), k);
        if seq_index_of(ks, k) < 0 {
            assert(spec_pairs_insert(ps, k, v) =~= ps.push((k, v)));
        } else {
            let r = seq_index_of(ks, k);
            assert(seq_index_of(ks.drop_first(), k) == r - 1);
            assert(spec_pairs_insert(ps, k, v) =~= ps.update(r, (k, v)));
        }
    }
}

/// Inserting into a well-formed string map transforms its pair-list view as
/// spec_pairs_insert says.
pub proof fn lemma_opts_insert(
    oldm: StrMap<String>,
    newm: StrMap<String>,
    k: Seq<char>,
    v: Seq<char>,
)
    requires
        oldm.wf(),
        newm.wf(),
        !oldm.spec_contains_key(k) ==> newm.key_seq() == oldm.key_seq().push(k)
            && newm.val_seq().len() == oldm.val_seq().len() + 1,
        oldm.spec_contains_key(k) ==> newm.key_seq() == oldm.key_seq(),
        forall|k2: Seq<char>| #![auto] opt_str_view(newm.spec_get(k2)) == if k2 == k {
            Some_val(v)
        } else {
            opt_str_view(oldm.spec_get(k2))
        },
    ensures
        opts_view(newm) == spec_pairs_insert(opts_view(oldm), k, v),
{
    let ps = opts_view(oldm);
    let ks = oldm.key_seq();
    assert(forall|i: int| 0 <= i < ps.len() ==> (#[trigger] ps[i]).0 == ks[i]);
    lemma_pairs_insert_shape(ps, ks, k, v);
    lemma_seq_index_of_props(ks, k);
    let idx = seq_index_of(ks, k);
    assert forall|i: int| 0 <= i < opts_view(newm).len() implies opts_view(newm)[i]
        == spec_pairs_insert(ps, k, v)[i] by {
        lemma_view_entry(newm, i);
        let ki = newm.key_seq()[i];
        if idx < 0 {
            if i < ps.len() {
                assert(ki == ks[i]);
                assert(ks[i] != k);
                lemma_view_entry(oldm, i);
                assert(opt_str_view(newm.spec_get(ki)) == opt_str_view(oldm.spec_get(ki)));
                assert((opts_view(newm)[i]).1 == ps[i].1);
                assert(opts_view(newm)[i] == ps.push((k, v))[i]) by {
                    assert((opts_view(newm)[i]).0 == ps[i].0);
                }
            } else {
                assert(ki == k);
                assert(opt_str_view(newm.spec_get(k)) == Some_val(v));
                assert((opts_view(newm)[i]).1 == v);
            }
        } else {
            assert(newm.key_seq() == ks);
            if i == idx {
                assert(ki == k);
                assert(opt_str_view(newm.spec_get(k)) == Some_val(v));
                assert((opts_view(newm)[i]).1 == v);
            } else {
                assert(ki == ks[i]);
                assert(ks[i] != k) by {
                    if ks[i] == k {
                        assert(ks[idx] == k);
                    }
                }
                lemma_view_entry(oldm, i);
                assert(opt_str_view(newm.spec_get(ki)) == opt_str_view(oldm.spec_get(ki)));
                assert((opts_view(newm)[i]).1 == ps[i].1);
            }
        }
    }
    assert(opts_view(newm) =~= spec_pairs_insert(ps, k, v));
}

/// The character view of an optional String lookup result.
pub open spec fn opt_str_view(o: Option<String>) -> Option<Seq<char>> {
    match o {
        Some(s) => Some(s@),
        None => None,
    }
}

/// An Option holding exactly the sequence `v` at the view level.
pub open spec fn Some_val(v: Seq<char>) -> Option<Seq<char>> {
    Some(v)
}

/// In a well-formed map, the pair at position `i` is the binding of its own
/// key.
pub proof fn lemma_view_entry(m: StrMap<String>, i: int)
    requires
        m.wf(),
        0 <= i < m.key_seq().len(),
    ensures
        (opts_view(m)[i]).0 == m.key_seq()[i],
        opt_str_view(m.spec_get(m.key_seq()[i])) == Some_val((opts_view(m)[i]).1),
{
    let ki = m.key_seq()[i];
    lemma_seq_index_of_props(m.key_seq(), ki);
    let r = seq_index_of(m.key_seq(), ki);
    if r != i {
        if r < 0 {
            assert(m.key_seq()[i] != ki);
        } else {
            assert(m.key_seq()[r] == ki);
        }
    }
    assert(r == i);
}

// ---------------------------------------------------------------------------
// View types: what the AST looks like to the specifications.
// ---------------------------------------------------------------------------

/// The view of one definition-list item.
pub struct DefItemView {
    pub term: Seq<char>,
    pub definition: Seq<char>,
}

/// The view of one RST AST node.
pub enum NodeView {
    Title { text: Seq<char>, level: int, line: int },
    Paragraph { content: Seq<char>, line: int },
    CodeBlock { language: Option<Seq<char>>, content: Seq<char>, line: int },
    List { items: Seq<Seq<char>>, ordered: bool, line: int },
    Table { headers: Seq<Seq<char>>, rows: Seq<Seq<Seq<char>>>, line: int },
    Directive {
        name: Seq<char>,
        args: Seq<Seq<char>>,
        options: Seq<(Seq<char>, Seq<char>)>,
        content: Seq<char>,
        line: int,
    },
    LinkTarget { name: Seq<char>, line: int },
    BlockQuote { content: Seq<char>, line: int },
    DefinitionList { items: Seq<DefItemView>, line: int },
}

/// The view of one Markdown AST node.
pub enum MdNodeView {
    Heading { text: Seq<char>, level: int, line: int },
    Paragraph { content: Seq<char>, line: int },
    CodeBlock { language: Option<Seq<char>>, content: Seq<char>, line: int },
    List { items: Seq<Seq<char>>, ordered: bool, line: int },
    Table { headers: Seq<Seq<char>>, rows: Seq<Seq<Seq<char>>>, line: int },
}

/// The view of a parsed directive.
pub struct DirectiveView {
    pub name: Seq<char>,
    pub args: Seq<Seq<char>>,
    pub options: Seq<(Seq<char>, Seq<char>)>,
    pub content: Seq<char>,
    pub line: int,
}

// ---------------------------------------------------------------------------
// Executable AST types.
// ---------------------------------------------------------------------------

/// One item of a definition list.
pub struct DefinitionItem {
    pub term: String,
    pub definition: String,
}

impl View for DefinitionItem {
    type V = DefItemView;

    open spec fn view(&self) -> DefItemView {
        DefItemView { term: self.term@, definition: self.definition@ }
    }
}

impl DeepView for DefinitionItem {
    type V = DefItemView;

    open spec fn deep_view(&self) -> DefItemView {
        self.view()
    }
}

/// One node of the RST AST, in source order.
pub enum RstNode {
    Title { text: String, level: usize, line: usize },
    Paragraph { content: String, line: usize },
    CodeBlock { language: Option<String>, content: String, line: usize },
    List { items: Vec<String>, ordered: bool, line: usize },
    Table { headers: Vec<String>, rows: Vec<Vec<String>>, line: usize },
    Directive {
        name: String,
        args: Vec<String>,
        options: StrMap<String>,
        content: String,
        line: usize,
    },
    LinkTarget { name: String, line: usize },
    BlockQuote { content: String, line: usize },
    DefinitionList { items: Vec<DefinitionItem>, line: usize },
}

impl View for RstNode {
    type V = NodeView;

    open spec fn view(&self) -> NodeView {
        match self {
            RstNode::Title { text, level, line } => NodeView::Title {
                text: text@,
                level: *level as int,
                line: *line as int,
            },
            RstNode::Paragraph { content, line } => NodeView::Paragraph {
                content: content@,
                line: *line as int,
            },
            RstNode::CodeBlock { language, content, line } => NodeView::CodeBlock {
                language: match language {
                    Some(l) => Some(l@),
                    None => None,
                },
                content: content@,
                line: *line as int,
            },
            RstNode::List { items, ordered, line } => NodeView::List {
                items: items.deep_view(),
                ordered: *ordered,
                line: *line as int,
            },
            RstNode::Table { headers, rows, line } => NodeView::Table {
                headers: headers.deep_view(),
                rows: rows.deep_view(),
                line: *line as int,
            },
            RstNode::Directive { name, args, options, content, line } => NodeView::Directive {
                name: name@,
                args: args.deep_view(),
                options: opts_view(*options),
                content: content@,
                line: *line as int,
            },
            RstNode::LinkTarget { name, line } => NodeView::LinkTarget {
                name: name@,
                line: *line as int,
            },
            RstNode::BlockQuote { content, line } => NodeView::BlockQuote {
                content: content@,
                line: *line as int,
            },
            RstNode::DefinitionList { items, line } => NodeView::DefinitionList {
                items: items.deep_view(),
                line: *line as int,
            },
        }
    }
}

impl DeepView for RstNode {
    type V = NodeView;

    open spec fn deep_view(&self) -> NodeView {
        self.view()
    }
}

/// A node well-formedness bound: directive options are a well-formed map.
pub open spec fn node_wf(n: RstNode) -> bool {
    match n {
        RstNode::Directive { options, .. } => options.wf(),
        _ => true,
    }
}

/// One node of the Markdown AST.
pub enum MarkdownNode {
    Heading { text: String, level: usize, line: usize },
    Paragraph { content: String, line: usize },
    CodeBlock { language: Option<String>, content: String, line: usize },
    List { items: Vec<String>, ordered: bool, line: usize },
    Table { headers: Vec<String>, rows: Vec<Vec<String>>, line: usize },
}

impl View for MarkdownNode {
    type V = MdNodeView;

    open spec fn view(&self) -> MdNodeView {
        match self {
            MarkdownNode::Heading { text, level, line } => MdNodeView::Heading {
                text: text@,
                level: *level as int,
                line: *line as int,
            },
            MarkdownNode::Paragraph { content, line } => MdNodeView::Paragraph {
                content: content@,
                line: *line as int,
            },
            MarkdownNode::CodeBlock { language, content, line } => MdNodeView::CodeBlock {
                language: match language {
                    Some(l) => Some(l@),
                    None => None,
                },
                content: content@,
                line: *line as int,
            },
            MarkdownNode::List { items, ordered, line } => MdNodeView::List {
                items: items.deep_view(),
                ordered: *ordered,
                line: *line as int,
            },
            MarkdownNode::Table { headers, rows, line } => MdNodeView::Table {
                headers: headers.deep_view(),
                rows: rows.deep_view(),
                line: *line as int,
            },
        }
    }
}

impl DeepView for MarkdownNode {
    type V = MdNodeView;

    open spec fn deep_view(&self) -> MdNodeView {
        self.view()
    }
}

/// A parsed RST directive, kept beside the AST.
pub struct RstDirective {
    pub name: String,
    pub args: Vec<String>,
    pub options: StrMap<String>,
    pub content: String,
    pub line: usize,
}

impl View for RstDirective {
    type V = DirectiveView;

    open spec fn view(&self) -> DirectiveView {
        DirectiveView {
            name: self.name@,
            args: self.args.deep_view(),
            options: opts_view(self.options),
            content: self.content@,
            line: self.line as int,
        }
    }
}

impl DeepView for RstDirective {
    type V = DirectiveView;

    open spec fn deep_view(&self) -> DirectiveView {
        self.view()
    }
}

/// Parsed RST content: the raw text, its AST, and its directives.
pub struct RstContent {
    pub raw: String,
    pub ast: Vec<RstNode>,
    pub directives: Vec<RstDirective>,
}

/// Parsed Markdown content.
pub struct MarkdownContent {
    pub raw: String,
    pub ast: Vec<MarkdownNode>,
    pub front_matter: Option<String>,
}

/// What a document holds, by source format.
pub enum DocumentContent {
    RestructuredText(RstContent),
    Markdown(MarkdownContent),
    PlainText(String),
}

/// One entry of a document's own table of contents: a title with its level
/// and anchor.
pub struct TocEntry {
    pub title: String,
    pub level: usize,
    pub anchor: String,
    pub line: usize,
}

/// The view of one table-of-contents entry.
pub struct TocView {
    pub title: Seq<char>,
    pub level: int,
    pub anchor: Seq<char>,
    pub line: int,
}

impl View for TocEntry {
    type V = TocView;

    open spec fn view(&self) -> TocView {
        TocView {
            title: self.title@,
            level: self.level as int,
            anchor: self.anchor@,
            line: self.line as int,
        }
    }
}

impl DeepView for TocEntry {
    type V = TocView;

    open spec fn deep_view(&self) -> TocView {
        self.view()
    }
}

impl TocEntry {
    /// Build a table-of-contents entry.
    pub fn new(title: String, level: usize, anchor: String, line: usize) -> (r: TocEntry)
        ensures
            r.title@ == title@,
            r.level == level,
            r.anchor@ == anchor@,
            r.line == line,
    {
        TocEntry { title, level, anchor, line }
    }
}

/// A cross-reference found in the raw text, such as a `:doc:` or `:ref:`
/// occurrence.
pub struct CrossReference {
    pub ref_type: String,
    pub target: String,
    pub text: Option<String>,
    pub line_number: usize,
}

/// The view of a cross-reference.
pub struct CrossRefView {
    pub ref_type: Seq<char>,
    pub target: Seq<char>,
    pub text: Option<Seq<char>>,
    pub line_number: int,
}

impl View for CrossReference {
    type V = CrossRefView;

    open spec fn view(&self) -> CrossRefView {
        CrossRefView {
            ref_type: self.ref_type@,
            target: self.target@,
            text: match &self.text {
                Some(t) => Some(t@),
                None => None,
            },
            line_number: self.line_number as int,
        }
    }
}

impl DeepView for CrossReference {
    type V = CrossRefView;

    open spec fn deep_view(&self) -> CrossRefView {
        self.view()
    }
}

/// A parsed document: paths, title, content, table of contents and
/// cross-references.
pub struct Document {
    pub source_path: String,
    pub output_path: String,
    pub title: String,
    pub content: DocumentContent,
    pub toc: Vec<TocEntry>,
    pub cross_refs: Vec<CrossReference>,
}

impl Document {
    /// A fresh document with empty content.
    pub fn new(source_path: String, output_path: String) -> (r: Document)
        ensures
            r.source_path@ == source_path@,
            r.output_path@ == output_path@,
            r.title@ == Seq::<char>::empty(),
            r.toc@.len() == 0,
            r.cross_refs@.len() == 0,
            r.content is PlainText,
    {
        Document {
            source_path,
            output_path,
            title: String::new(),
            content: DocumentContent::PlainText(String::new()),
            toc: Vec::new(),
            cross_refs: Vec::new(),
        }
    }
}

} // verus!
