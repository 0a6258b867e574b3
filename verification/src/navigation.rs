//! Navigation and document hierarchy: a registry of document titles and
//! toctree entries, recursive tree construction with a visited-path guard,
//! previous/next/parent computation, and sidebar toctree rendering.

use vstd::prelude::*;

use crate::inline::{render_nav_title, spec_nav_title};
use crate::strmap::StrMap;
use crate::text::{
    append_chars, append_str, escape_html, from_chars, slice_range, spec_escape_html,
    spec_find_char, spec_starts_with, spec_trim, to_chars, trim_chars,
};

verus! {

/// A navigation link: a title and its target.
pub struct NavLink {
    pub title: String,
    pub link: String,
}

/// The view of a navigation link.
pub struct NavLinkView {
    pub title: Seq<char>,
    pub link: Seq<char>,
}

impl View for NavLink {
    type V = NavLinkView;

    open spec fn view(&self) -> NavLinkView {
        NavLinkView { title: self.title@, link: self.link@ }
    }
}

impl DeepView for NavLink {
    type V = NavLinkView;

    open spec fn deep_view(&self) -> NavLinkView {
        self.view()
    }
}

impl NavLink {
    /// Build a navigation link.
    pub fn new(title: String, link: String) -> (r: NavLink)
        ensures
            r.title@ == title@,
            r.link@ == link@,
    {
        NavLink { title, link }
    }
}

/// Navigation context for a single page: the breadcrumb trail, the
/// neighbours in reading order, and the page's own children.
pub struct PageNavigation {
    pub parents: Vec<NavLink>,
    pub prev: Option<NavLink>,
    pub next: Option<NavLink>,
    pub children: Vec<NavLink>,
}

/// A node of the document tree.
pub struct TocTreeNode {
    pub doc_path: String,
    pub title: String,
    pub children: Vec<TocTreeNode>,
}

/// The view of a document tree node.
#[verifier::ext_equal]
pub struct TreeView {
    pub doc_path: Seq<char>,
    pub title: Seq<char>,
    pub children: Seq<TreeView>,
}

/// The view of a tree node, defined over the node structure.
pub open spec fn tree_view(t: TocTreeNode) -> TreeView
    decreases t,
{
    TreeView { doc_path: t.doc_path@, title: t.title@, children: trees_view(t.children) }
}

/// The views of a vector of tree nodes.
pub open spec fn trees_view(cs: Vec<TocTreeNode>) -> Seq<TreeView>
    decreases cs,
{
    seq_trees_view(cs@)
}

/// The views of a sequence of tree nodes.
pub open spec fn seq_trees_view(cs: Seq<TocTreeNode>) -> Seq<TreeView>
    decreases cs,
    via seq_trees_view_decreases
{
    if cs.len() == 0 {
        Seq::empty()
    } else {
        seq![tree_view(cs[0])] + seq_trees_view(cs.drop_first())
    }
}

#[via_fn]
proof fn seq_trees_view_decreases(cs: Seq<TocTreeNode>) {
    if cs.len() > 0 {
        vstd::seq::axiom_seq_len_decreases(cs, cs.drop_first());
    }
}

/// The element view of a node-sequence view.
pub proof fn lemma_seq_trees_view(cs: Seq<TocTreeNode>)
    ensures
        seq_trees_view(cs).len() == cs.len(),
        forall|i: int| 0 <= i < cs.len() ==> #[trigger] seq_trees_view(cs)[i] == tree_view(
            cs[i],
        ),
    decreases cs.len(),
{
    if cs.len() > 0 {
        lemma_seq_trees_view(cs.drop_first());
        assert forall|i: int| 0 <= i < cs.len() implies #[trigger] seq_trees_view(cs)[i]
            == tree_view(cs[i]) by {
            if i >= 1 {
                assert(seq_trees_view(cs)[i] == seq_trees_view(cs.drop_first())[i - 1]);
                assert(cs.drop_first()[i - 1] == cs[i]);
            }
        }
    }
}

impl TocTreeNode {
    /// Build a leaf node.
    pub fn new(doc_path: String, title: String) -> (r: TocTreeNode)
        ensures
            tree_view(r) == (TreeView {
                doc_path: doc_path@,
                title: title@,
                children: Seq::<TreeView>::empty(),
            }),
    {
        let r = TocTreeNode { doc_path, title, children: Vec::new() };
        proof {
            assert(tree_view(r).children =~= Seq::<TreeView>::empty());
            assert(tree_view(r) =~= TreeView {
                doc_path: r.doc_path@,
                title: r.title@,
                children: Seq::<TreeView>::empty(),
            });
        }
        r
    }

    /// All documents of the subtree in reading order, depth first.
    pub fn flatten(&self) -> (r: Vec<(String, String)>)
        ensures
            r.deep_view() == spec_flatten(tree_view(*self)),
        decreases *self,
    {
        let mut out: Vec<(String, String)> = Vec::new();
        out.push((self.doc_path.clone(), self.title.clone()));
        let ghost tv = tree_view(*self);
        proof {
            assert(out.deep_view() =~~= seq![(tv.doc_path, tv.title)] + spec_flatten_list(
                tv.children.subrange(0, 0),
            ));
        }
        let n = self.children.len();
        let mut i: usize = 0;
        proof {
            lemma_seq_trees_view(self.children@);
        }
        while i < n
            invariant
                n == self.children@.len(),
                tv == tree_view(*self),
                tv.children.len() == n,
                i <= n,
                out.deep_view() == seq![(tv.doc_path, tv.title)] + spec_flatten_list(
                    tv.children.subrange(0, i as int),
                ),
            decreases n - i,
        {
            let ghost before = out.deep_view();
            proof {
                lemma_seq_trees_view(self.children@);
                assert(tv.children[i as int] == tree_view(self.children@[i as int]));
                assert(tv.children.subrange(0, i + 1).drop_last() =~= tv.children.subrange(
                    0,
                    i as int,
                ));
                assert(tv.children.subrange(0, i + 1).last() == tv.children[i as int]);
                lemma_flatten_list_snoc(tv.children.subrange(0, i + 1));
            }
            let sub = self.children[i].flatten();
            let m = sub.len();
            let ghost sv = sub.deep_view();
            let mut k: usize = 0;
            proof {
                assert(out.deep_view().len() == out@.len());
                assert(out.deep_view() =~~= before + sv.subrange(0, 0));
            }
            while k < m
                invariant
                    m == sub@.len(),
                    sv == sub.deep_view(),
                    sv.len() == m,
                    k <= m,
                    out@.len() == before.len() + k,
                    out.deep_view() == before + sv.subrange(0, k as int),
                decreases m - k,
            {
                proof {
                    assert(sv[k as int] == sub@[k as int].deep_view());
                }
                let pair = (sub[k].0.clone(), sub[k].1.clone());
                let ghost pairv = pair.deep_view();
                let ghost prev = out@;
                proof {
                    assert(pair.0@ == sub@[k as int].0@);
                    assert(pair.1@ == sub@[k as int].1@);
                    assert(pairv == sub@[k as int].deep_view());
                }
                out.push(pair);
                k += 1;
                proof {
                    assert forall|j: int| 0 <= j < out@.len() implies out.deep_view()[j] == (
                    before + sv.subrange(0, k as int))[j] by {
                        if j < prev.len() {
                            assert(out@[j] == prev[j]);
                            assert((before + sv.subrange(0, k - 1))[j] == (before + sv.subrange(
                                0,
                                k as int,
                            ))[j]);
                            assert(out.deep_view()[j] == out@[j].deep_view());
                        } else {
                            assert(out@[j].deep_view() == pairv);
                            assert((before + sv.subrange(0, k as int))[j] == sv[k - 1]);
                        }
                    }
                    assert(out.deep_view() =~= before + sv.subrange(0, k as int));
                }
            }
            i += 1;
            proof {
                assert(sv.subrange(0, m as int) =~= sv);
                assert(out.deep_view() =~~= seq![(tv.doc_path, tv.title)] + spec_flatten_list(
                    tv.children.subrange(0, i as int),
                ));
            }
        }
        proof {
            assert(tv.children.subrange(0, n as int) =~= tv.children);
        }
        out
    }
}

/// The documents of a tree in reading order: the node, then its children's
/// subtrees in order.
pub open spec fn spec_flatten(t: TreeView) -> Seq<(Seq<char>, Seq<char>)>
    decreases t,
{
    seq![(t.doc_path, t.title)] + spec_flatten_list(t.children)
}

/// The flattened subtrees of a node list, in order.
pub open spec fn spec_flatten_list(ts: Seq<TreeView>) -> Seq<(Seq<char>, Seq<char>)>
    decreases ts,
{
    if ts.len() == 0 {
        Seq::empty()
    } else {
        spec_flatten(ts[0]) + spec_flatten_list(ts.drop_first())
    }
}

proof fn lemma_flatten_list_snoc(ts: Seq<TreeView>)
    requires
        ts.len() > 0,
    ensures
        spec_flatten_list(ts) == spec_flatten_list(ts.drop_last()) + spec_flatten(ts.last()),
    decreases ts.len(),
{
    if ts.len() == 1 {
        assert(spec_flatten_list(ts.drop_first()) =~= Seq::<(Seq<char>, Seq<char>)>::empty());
        assert(spec_flatten_list(ts.drop_last()) =~= Seq::<(Seq<char>, Seq<char>)>::empty());
        assert(ts[0] == ts.last());
        assert(spec_flatten_list(ts) =~= spec_flatten_list(ts.drop_last()) + spec_flatten(
            ts.last(),
        ));
    } else {
        lemma_flatten_list_snoc(ts.drop_first());
        assert(ts.drop_first().drop_last() =~= ts.drop_last().drop_first());
        assert(ts.drop_first().last() == ts.last());
        assert(ts.drop_last()[0] == ts[0]);
        assert(spec_flatten_list(ts) =~= spec_flatten_list(ts.drop_last()) + spec_flatten(
            ts.last(),
        ));
    }
}

/// Options for rendering the sidebar toctree.
pub struct ToctreeOptions {
    pub maxdepth: usize,
    pub collapse: bool,
    pub includehidden: bool,
    pub titles_only: bool,
    pub current_doc: Option<String>,
}

impl Default for ToctreeOptions {
    /// The default options: a depth of four, collapsed, hidden entries
    /// included, full titles, no current document.
    fn default() -> (r: ToctreeOptions)
        ensures
            r.maxdepth == 4,
            r.collapse,
            r.includehidden,
            !r.titles_only,
            r.current_doc is None,
    {
        ToctreeOptions {
            maxdepth: 4,
            collapse: true,
            includehidden: true,
            titles_only: false,
            current_doc: None,
        }
    }
}

/// Manages the document hierarchy and navigation.
pub struct NavigationBuilder {
    toctree_entries: StrMap<Vec<String>>,
    titles: StrMap<String>,
    master_doc: String,
}

/// The explicit title and path of a toctree entry: `Title <path>` carries
/// its own title.
pub open spec fn spec_nav_entry(e: Seq<char>) -> (Option<Seq<char>>, Seq<char>) {
    let ci = spec_find_char(e, '<');
    if ci >= 0 && e.len() > 0 && e[e.len() - 1] == '>' && ci < e.len() - 1 {
        (Some(spec_trim(e.subrange(0, ci))), e.subrange(ci + 1, e.len() - 1))
    } else {
        (None, e)
    }
}

/// Whether a path is an external address.
pub open spec fn spec_is_external(p: Seq<char>) -> bool {
    spec_starts_with(p, "http://"@) || spec_starts_with(p, "https://"@)
}

/// Parse a toctree entry into its explicit title and path.
fn nav_entry(e: &[char]) -> (r: (Option<Vec<char>>, Vec<char>))
    ensures
        ({
            let s = spec_nav_entry(e@);
            (match r.0 {
                Some(t) => s.0 == Some(t@),
                None => s.0 is None,
            }) && r.1@ == s.1
        }),
{
    let n = e.len();
    let fi: Option<usize> = match crate::text::find_char(e, '<', 0) {
        Some(i) => {
            proof {
                crate::text::lemma_find_char_at(e@, '<', i as int);
            }
            Some(i)
        },
        None => {
            proof {
                crate::text::lemma_find_char_none(e@, '<');
            }
            None
        },
    };
    match fi {
        Some(ci) if n > 0 && e[n - 1] == '>' && ci < n - 1 => {
            (Some(trim_chars(slice_range(e, 0, ci).as_slice())), slice_range(e, ci + 1, n - 1))
        },
        _ => {
            let p = slice_range(e, 0, n);
            proof {
                assert(p@ =~= e@);
            }
            (None, p)
        },
    }
}

/// Whether a path (as characters) is external.
fn is_external(p: &[char]) -> (r: bool)
    ensures
        r == spec_is_external(p@),
{
    crate::text::starts_with_str(p, "http://") || crate::text::starts_with_str(p, "https://")
}

impl NavigationBuilder {
    /// The registered titles.
    pub closed spec fn spec_titles(self) -> StrMap<String> {
        self.titles
    }

    /// The registered toctree entries.
    pub closed spec fn spec_entries(self) -> StrMap<Vec<String>> {
        self.toctree_entries
    }

    /// The master document.
    pub closed spec fn spec_master(self) -> Seq<char> {
        self.master_doc@
    }

    /// The registries are well-formed.
    pub open spec fn wf(self) -> bool {
        self.spec_titles().wf() && self.spec_entries().wf()
    }

    /// The title of a document: its registered title or its path.
    pub open spec fn spec_title_of(self, doc: Seq<char>) -> Seq<char> {
        match self.spec_titles().spec_get(doc) {
            Some(t) => t@,
            None => doc,
        }
    }

    /// The tree under `doc`: entries expand recursively, external entries
    /// stay leaves, and a document already on the path from the root becomes
    /// a leaf whose title reports the circular reference, so a
    /// self-referencing toctree cannot recurse forever and the cycle is
    /// visible in the output.
    pub open spec fn spec_tree(self, doc: Seq<char>, visited: Seq<Seq<char>>, fuel: nat) -> TreeView
        decreases fuel, 0int, 0int,
    {
        let base = TreeView {
            doc_path: doc,
            title: self.spec_title_of(doc),
            children: Seq::empty(),
        };
        if visited.contains(doc) {
            TreeView {
                doc_path: doc,
                title: self.spec_title_of(doc) + " (circular reference)"@,
                children: Seq::empty(),
            }
        } else if fuel == 0 {
            base
        } else {
            match self.spec_entries().spec_get(doc) {
                Some(es) => TreeView {
                    doc_path: base.doc_path,
                    title: base.title,
                    children: self.spec_tree_children(
                        es.deep_view(),
                        visited.push(doc),
                        (fuel - 1) as nat,
                    ),
                },
                None => base,
            }
        }
    }

    /// The child subtrees for an entry list.
    pub open spec fn spec_tree_children(
        self,
        es: Seq<Seq<char>>,
        visited: Seq<Seq<char>>,
        fuel: nat,
    ) -> Seq<TreeView>
        decreases fuel, 2int, es.len(),
    {
        if es.len() == 0 {
            Seq::empty()
        } else {
            seq![self.spec_tree_child(es[0], visited, fuel)] + self.spec_tree_children(
                es.drop_first(),
                visited,
                fuel,
            )
        }
    }

    /// One child subtree: external entries are leaves; an explicit title
    /// wins over the built subtree's title.
    pub open spec fn spec_tree_child(
        self,
        e: Seq<char>,
        visited: Seq<Seq<char>>,
        fuel: nat,
    ) -> TreeView
        decreases fuel, 1int, 0int,
    {
        let p = spec_nav_entry(e);
        if spec_is_external(p.1) {
            TreeView {
                doc_path: p.1,
                title: match p.0 {
                    Some(t) => t,
                    None => p.1,
                },
                children: Seq::empty(),
            }
        } else {
            let c = self.spec_tree(p.1, visited, fuel);
            match p.0 {
                Some(t) => TreeView { doc_path: c.doc_path, title: t, children: c.children },
                None => c,
            }
        }
    }

    /// Create a builder with the given master document.
    pub fn new(master_doc: String) -> (r: NavigationBuilder)
        ensures
            r.wf(),
            r.spec_master() == master_doc@,
            r.spec_titles().key_seq() == Seq::<Seq<char>>::empty(),
            r.spec_entries().key_seq() == Seq::<Seq<char>>::empty(),
    {
        NavigationBuilder { toctree_entries: StrMap::new(), titles: StrMap::new(), master_doc }
    }

    /// Register a document with its title.
    pub fn register_document(&mut self, doc_path: &str, title: &str)
        requires
            old(self).wf(),
        ensures
            final(self).wf(),
            final(self).spec_master() == old(self).spec_master(),
            final(self).spec_entries() == old(self).spec_entries(),
            forall|k: Seq<char>| #![auto] crate::document::opt_str_view(
                final(self).spec_titles().spec_get(k),
            ) == if k == doc_path@ {
                crate::document::Some_val(title@)
            } else {
                crate::document::opt_str_view(old(self).spec_titles().spec_get(k))
            },
            final(self).spec_titles().key_seq().len() == old(self).spec_titles().key_seq().len()
                + if old(self).spec_titles().spec_contains_key(doc_path@) {
                0int
            } else {
                1int
            },
    {
        let t = String::from_str(title);
        self.titles.insert(doc_path, t);
    }

    /// Register the toctree entries of a document.
    pub fn register_toctree(&mut self, doc_path: &str, entries: Vec<String>)
        requires
            old(self).wf(),
        ensures
            final(self).wf(),
            final(self).spec_master() == old(self).spec_master(),
            final(self).spec_titles() == old(self).spec_titles(),
            final(self).spec_entries().spec_contains_key(doc_path@),
            forall|k: Seq<char>| #![auto] spec_entries_view(
                final(self).spec_entries().spec_get(k),
            ) == if k == doc_path@ {
                Some(entries.deep_view())
            } else {
                spec_entries_view(old(self).spec_entries().spec_get(k))
            },
            final(self).spec_entries().key_seq().len() == old(self).spec_entries().key_seq().len()
                + if old(self).spec_entries().spec_contains_key(doc_path@) {
                0int
            } else {
                1int
            },
    {
        self.toctree_entries.insert(doc_path, entries);
    }

    /// The master document path.
    pub fn master_doc(&self) -> (r: &String)
        ensures
            r@ == self.spec_master(),
    {
        &self.master_doc
    }

    /// The registered titles map.
    pub fn titles(&self) -> (r: &StrMap<String>)
        ensures
            *r == self.spec_titles(),
    {
        &self.titles
    }

    /// Build the document tree from the master document.
    pub fn build_tree(&self) -> (r: TocTreeNode)
        requires
            self.wf(),
            self.spec_entries().key_seq().len() < usize::MAX,
        ensures
            tree_view(r) == self.spec_tree(
                self.spec_master(),
                Seq::<Seq<char>>::empty(),
                (self.spec_entries().key_seq().len() + 1) as nat,
            ),
    {
        let fuel = self.toctree_entries.len() + 1;
        let visited: Vec<String> = Vec::new();
        proof {
            assert(visited.deep_view() =~~= Seq::<Seq<char>>::empty());
        }
        let md = self.master_doc.clone();
        self.build_tree_for(md, &visited, fuel)
    }

    /// Build the tree under `doc`, guarding against cycles on the path.
    fn build_tree_for(&self, doc: String, visited: &Vec<String>, fuel: usize) -> (r: TocTreeNode)
        requires
            self.wf(),
        ensures
            tree_view(r) == self.spec_tree(doc@, visited.deep_view(), fuel as nat),
        decreases fuel, 0int, 0int,
    {
        let title: String = match self.titles.get(doc.as_str()) {
            Some(t) => t.clone(),
            None => doc.clone(),
        };
        let mut on_path = false;
        let n = visited.len();
        let mut i: usize = 0;
        while i < n
            invariant
                n == visited@.len(),
                i <= n,
                on_path == exists|j: int|
                    0 <= j < i && visited.deep_view()[j] == doc@,
            decreases n - i,
        {
            proof {
                assert(visited.deep_view()[i as int] == visited@[i as int]@);
            }
            if crate::text::str_eq(visited[i].as_str(), doc.as_str()) {
                on_path = true;
            }
            i += 1;
        }
        proof {
            assert(on_path == visited.deep_view().contains(doc@));
        }
        if on_path {
            let mut tc = to_chars(title.as_str());
            append_str(&mut tc, " (circular reference)");
            let marked = from_chars(tc.as_slice());
            let r = TocTreeNode { doc_path: doc, title: marked, children: Vec::new() };
            proof {
                assert(tree_view(r).children =~= Seq::<TreeView>::empty());
                assert(tree_view(r) =~= self.spec_tree(r.doc_path@, visited.deep_view(), fuel as nat));
            }
            return r;
        }
        if fuel == 0 {
            let r = TocTreeNode { doc_path: doc, title, children: Vec::new() };
            proof {
                assert(tree_view(r).children =~= Seq::<TreeView>::empty());
                assert(tree_view(r) =~= self.spec_tree(r.doc_path@, visited.deep_view(), fuel as nat));
            }
            return r;
        }
        match self.toctree_entries.get(doc.as_str()) {
            None => {
                let r = TocTreeNode { doc_path: doc, title, children: Vec::new() };
                proof {
                    assert(tree_view(r).children =~= Seq::<TreeView>::empty());
                    assert(tree_view(r) =~= self.spec_tree(
                        r.doc_path@,
                        visited.deep_view(),
                        fuel as nat,
                    ));
                }
                r
            },
            Some(es) => {
                let mut visited2: Vec<String> = Vec::new();
                let mut k: usize = 0;
                while k < visited.len()
                    invariant
                        k <= visited@.len(),
                        visited2.deep_view() == visited.deep_view().subrange(0, k as int),
                    decreases visited@.len() - k,
                {
                    proof {
                        assert(visited.deep_view()[k as int] == visited@[k as int]@);
                    }
                    let cl = visited[k].clone();
                    let ghost clv = cl@;
                    let ghost prevv = visited2.deep_view();
                    proof {
                        assert(clv == visited@[k as int]@);
                    }
                    visited2.push(cl);
                    k += 1;
                    proof {
                        assert(visited2.deep_view() =~~= prevv.push(clv));
                        assert(prevv.push(clv) =~~= visited.deep_view().subrange(0, k as int));
                    }
                }
                proof {
                    assert(visited.deep_view().subrange(0, visited@.len() as int)
                        =~= visited.deep_view());
                }
                visited2.push(doc.clone());
                proof {
                    assert(visited2.deep_view() =~~= visited.deep_view().push(doc@));
                }
                let children = self.build_children(es, 0, &visited2, fuel - 1);
                proof {
                    assert(es.deep_view().subrange(0, es.deep_view().len() as int)
                        =~= es.deep_view());
                }
                let r = TocTreeNode { doc_path: doc, title, children };
                proof {
                    assert(trees_view(r.children) == seq_trees_view(r.children@));
                    assert(tree_view(r) =~= self.spec_tree(
                        r.doc_path@,
                        visited.deep_view(),
                        fuel as nat,
                    ));
                }
                r
            },
        }
    }

    /// Build the child subtrees for the entries from `from` on.
    fn build_children(
        &self,
        es: &Vec<String>,
        from: usize,
        visited: &Vec<String>,
        fuel: usize,
    ) -> (r: Vec<TocTreeNode>)
        requires
            self.wf(),
            from <= es@.len(),
        ensures
            seq_trees_view(r@) == self.spec_tree_children(
                es.deep_view().subrange(from as int, es.deep_view().len() as int),
                visited.deep_view(),
                fuel as nat,
            ),
        decreases fuel, 2int, es@.len() - from,
    {
        let ghost ev = es.deep_view();
        let ghost rest = ev.subrange(from as int, ev.len() as int);
        if from >= es.len() {
            let out: Vec<TocTreeNode> = Vec::new();
            proof {
                assert(rest.len() == 0);
                assert(seq_trees_view(out@) =~= self.spec_tree_children(
                    rest,
                    visited.deep_view(),
                    fuel as nat,
                ));
            }
            return out;
        }
        proof {
            assert(ev[from as int] == es@[from as int]@);
            assert(rest[0] == ev[from as int]);
            assert(rest.drop_first() =~= ev.subrange(from + 1, ev.len() as int));
        }
        let child = self.build_child(&es[from], visited, fuel);
        let more = self.build_children(es, from + 1, visited, fuel);
        let ghost childg = child;
        let ghost morev = more@;
        let ghost cv = tree_view(child);
        let ghost mv = seq_trees_view(more@);
        let mut out = more;
        out.insert(0, child);
        proof {
            assert(out@ =~= morev.insert(0, childg));
            lemma_seq_trees_view(out@);
            lemma_seq_trees_view(morev);
            assert forall|j: int| 0 <= j < out@.len() implies seq_trees_view(out@)[j] == (
            seq![cv] + mv)[j] by {
                assert(seq_trees_view(out@)[j] == tree_view(out@[j]));
                if j == 0 {
                    assert(out@[0] == childg);
                } else {
                    assert(out@[j] == morev[j - 1]);
                    assert(seq_trees_view(morev)[j - 1] == tree_view(morev[j - 1]));
                }
            }
            assert(seq_trees_view(out@) =~= seq![cv] + mv);
            assert(seq![cv] + mv =~= self.spec_tree_children(
                rest,
                visited.deep_view(),
                fuel as nat,
            ));
        }
        out
    }

    /// Build one child subtree.
    fn build_child(&self, e: &String, visited: &Vec<String>, fuel: usize) -> (r: TocTreeNode)
        requires
            self.wf(),
        ensures
            tree_view(r) == self.spec_tree_child(e@, visited.deep_view(), fuel as nat),
        decreases fuel, 1int, 0int,
    {
        let ec = to_chars(e.as_str());
        let (title, path) = nav_entry(ec.as_slice());
        if is_external(path.as_slice()) {
            let t: Vec<char> = match title {
                Some(t) => t,
                None => slice_range(path.as_slice(), 0, path.len()),
            };
            proof {
                assert(t@ == match spec_nav_entry(e@).0 {
                    Some(x) => x,
                    None => spec_nav_entry(e@).1,
                });
            }
            let r = TocTreeNode {
                doc_path: from_chars(path.as_slice()),
                title: from_chars(t.as_slice()),
                children: Vec::new(),
            };
            proof {
                assert(tree_view(r).children =~= Seq::<TreeView>::empty());
                assert(tree_view(r) =~= self.spec_tree_child(e@, visited.deep_view(), fuel as nat));
            }
            r
        } else {
            let c = self.build_tree_for(from_chars(path.as_slice()), visited, fuel);
            match title {
                Some(t) => {
                    let r = TocTreeNode {
                        doc_path: c.doc_path,
                        title: from_chars(t.as_slice()),
                        children: c.children,
                    };
                    proof {
                        assert(tree_view(r) =~= self.spec_tree_child(
                            e@,
                            visited.deep_view(),
                            fuel as nat,
                        ));
                    }
                    r
                },
                None => c,
            }
        }
    }
}

/// The deep view of an optional entry list.
pub open spec fn spec_entries_view(o: Option<Vec<String>>) -> Option<Seq<Seq<char>>> {
    match o {
        Some(v) => Some(v.deep_view()),
        None => None,
    }
}

// ---------------------------------------------------------------------------
// Page navigation: reading order, neighbours and parents.
// ---------------------------------------------------------------------------

/// Index of the first flattened entry for `doc`, or -1.
pub open spec fn spec_flat_pos(flat: Seq<(Seq<char>, Seq<char>)>, doc: Seq<char>) -> int
    decreases flat.len(),
{
    if flat.len() == 0 {
        -1
    } else if flat[0].0 == doc {
        0
    } else {
        let r = spec_flat_pos(flat.drop_first(), doc);
        if r < 0 {
            -1
        } else {
            r + 1
        }
    }
}

pub proof fn lemma_flat_pos_props(flat: Seq<(Seq<char>, Seq<char>)>, doc: Seq<char>)
    ensures
        spec_flat_pos(flat, doc) >= 0 ==> spec_flat_pos(flat, doc) < flat.len()
            && flat[spec_flat_pos(flat, doc)].0 == doc,
        spec_flat_pos(flat, doc) < 0 ==> spec_flat_pos(flat, doc) == -1,
    decreases flat.len(),
{
    if flat.len() > 0 && flat[0].0 != doc {
        lemma_flat_pos_props(flat.drop_first(), doc);
    }
}

/// A navigation link for a flattened entry: the title and the path with the
/// output extension.
pub open spec fn spec_flat_link(e: (Seq<char>, Seq<char>)) -> NavLinkView {
    NavLinkView { title: e.1, link: e.0 + ".html"@ }
}

/// The root-to-node path of titles and paths to `doc`, if `doc` is in the
/// tree; the leftmost match wins.
pub open spec fn spec_path_to(t: TreeView, doc: Seq<char>) -> Option<
    Seq<(Seq<char>, Seq<char>)>,
>
    decreases t,
{
    if t.doc_path == doc {
        Some(seq![(t.doc_path, t.title)])
    } else {
        match spec_path_to_list(t.children, doc) {
            Some(p) => Some(seq![(t.doc_path, t.title)] + p),
            None => None,
        }
    }
}

/// The path through the first child subtree that holds `doc`.
pub open spec fn spec_path_to_list(ts: Seq<TreeView>, doc: Seq<char>) -> Option<
    Seq<(Seq<char>, Seq<char>)>,
>
    decreases ts,
{
    if ts.len() == 0 {
        None
    } else {
        match spec_path_to(ts[0], doc) {
            Some(p) => Some(p),
            None => spec_path_to_list(ts.drop_first(), doc),
        }
    }
}

/// Find the root-to-node path to `doc`, as links.
fn path_to(node: &TocTreeNode, doc: &str) -> (r: Option<Vec<(String, String)>>)
    ensures
        match r {
            Some(p) => spec_path_to(tree_view(*node), doc@) == Some(p.deep_view()),
            None => spec_path_to(tree_view(*node), doc@) is None,
        },
    decreases *node,
{
    let ghost tv = tree_view(*node);
    let head = (node.doc_path.clone(), node.title.clone());
    let ghost hv = (tv.doc_path, tv.title);
    proof {
        assert(head.deep_view() == hv);
    }
    if crate::text::str_eq(node.doc_path.as_str(), doc) {
        let mut out: Vec<(String, String)> = Vec::new();
        out.push(head);
        proof {
            assert(out.deep_view().len() == 1);
            assert(out.deep_view()[0] == hv);
            assert(out.deep_view() =~= seq![hv]);
        }
        return Some(out);
    }
    let n = node.children.len();
    let mut i: usize = 0;
    proof {
        lemma_seq_trees_view(node.children@);
        assert(tv.children.subrange(0, tv.children.len() as int) =~= tv.children);
        assert(tv.children.subrange(0, 0).len() == 0);
    }
    while i < n
        invariant
            n == node.children@.len(),
            tv == tree_view(*node),
            tv.children.len() == n,
            i <= n,
            tv.doc_path != doc@,
            head.deep_view() == hv,
            hv == (tv.doc_path, tv.title),
            spec_path_to_list(tv.children, doc@) == spec_path_to_list(
                tv.children.subrange(i as int, tv.children.len() as int),
                doc@,
            ),
        decreases n - i,
    {
        let ghost rest = tv.children.subrange(i as int, tv.children.len() as int);
        proof {
            lemma_seq_trees_view(node.children@);
            assert(tv.children[i as int] == tree_view(node.children@[i as int]));
            assert(rest[0] == tv.children[i as int]);
            assert(rest.drop_first() =~= tv.children.subrange(
                i + 1,
                tv.children.len() as int,
            ));
        }
        match path_to(&node.children[i], doc) {
            Some(p) => {
                let ghost pv = p.deep_view();
                let mut out: Vec<(String, String)> = Vec::new();
                out.push(head);
                let m = p.len();
                let mut k: usize = 0;
                proof {
                    assert(out.deep_view().len() == 1);
                    assert(out.deep_view()[0] == hv);
                    assert(out.deep_view() =~= seq![hv] + pv.subrange(0, 0));
                }
                while k < m
                    invariant
                        m == p@.len(),
                        pv == p.deep_view(),
                        pv.len() == m,
                        k <= m,
                        out@.len() == k + 1,
                        out.deep_view() == seq![hv] + pv.subrange(0, k as int),
                    decreases m - k,
                {
                    proof {
                        assert(pv[k as int] == p@[k as int].deep_view());
                    }
                    let pair = (p[k].0.clone(), p[k].1.clone());
                    let ghost pairv = pair.deep_view();
                    let ghost prevv = out@;
                    let ghost before = out.deep_view();
                    proof {
                        assert(pairv == pv[k as int]);
                    }
                    out.push(pair);
                    k += 1;
                    proof {
                        assert forall|j: int| 0 <= j < out@.len() implies out.deep_view()[j] == (
                        seq![hv] + pv.subrange(0, k as int))[j] by {
                            if j < prevv.len() {
                                assert(out@[j] == prevv[j]);
                                assert((seq![hv] + pv.subrange(0, k - 1))[j] == (seq![hv]
                                    + pv.subrange(0, k as int))[j]);
                            } else {
                                assert(out@[j].deep_view() == pairv);
                            }
                        }
                        assert(out.deep_view() =~= seq![hv] + pv.subrange(0, k as int));
                    }
                }
                proof {
                    assert(pv.subrange(0, m as int) =~= pv);
                    assert(out.deep_view() =~= seq![hv] + pv);
                }
                return Some(out);
            },
            None => {},
        }
        i += 1;
    }
    proof {
        assert(spec_path_to_list(
            tv.children.subrange(i as int, tv.children.len() as int),
            doc@,
        ) is None);
    }
    None
}

/// The links of every path entry but the last: title, and path with the
/// output extension.
pub open spec fn spec_parent_links(p: Seq<(Seq<char>, Seq<char>)>) -> Seq<NavLinkView>
    decreases p.len(),
{
    if p.len() <= 1 {
        Seq::empty()
    } else {
        seq![NavLinkView { title: p[0].1, link: p[0].0 + ".html"@ }] + spec_parent_links(
            p.drop_first(),
        )
    }
}

impl NavigationBuilder {
    /// The flattened reading order of the whole tree.
    pub open spec fn spec_flat(self) -> Seq<(Seq<char>, Seq<char>)> {
        spec_flatten(
            self.spec_tree(
                self.spec_master(),
                Seq::empty(),
                (self.spec_entries().key_seq().len() + 1) as nat,
            ),
        )
    }

    /// The breadcrumb trail of a page: the links of the root-to-parent
    /// path, the page itself excluded; empty when the page is not in the
    /// tree.
    pub open spec fn spec_parents(self, doc: Seq<char>) -> Seq<NavLinkView> {
        match spec_path_to(
            self.spec_tree(
                self.spec_master(),
                Seq::empty(),
                (self.spec_entries().key_seq().len() + 1) as nat,
            ),
            doc,
        ) {
            Some(p) => spec_parent_links(p),
            None => Seq::empty(),
        }
    }

    /// The links of a page's own registered entries, externals excluded:
    /// an explicit title wins, then the registered title, then the path.
    pub open spec fn spec_child_links(self, es: Seq<Seq<char>>) -> Seq<NavLinkView>
        decreases es.len(),
    {
        if es.len() == 0 {
            Seq::empty()
        } else {
            let pe = spec_nav_entry(es[0]);
            (if spec_is_external(pe.1) {
                Seq::<NavLinkView>::empty()
            } else {
                seq![
                    NavLinkView {
                        title: match pe.0 {
                            Some(t) => t,
                            None => match self.spec_titles().spec_get(pe.1) {
                                Some(reg) => reg@,
                                None => pe.1,
                            },
                        },
                        link: pe.1 + ".html"@,
                    },
                ]
            }) + self.spec_child_links(es.drop_first())
        }
    }

    /// The children of a page, as navigation links.
    pub open spec fn spec_children(self, doc: Seq<char>) -> Seq<NavLinkView> {
        match self.spec_entries().spec_get(doc) {
            Some(es) => self.spec_child_links(es.deep_view()),
            None => Seq::empty(),
        }
    }

    /// Navigation for one page: the previous and next documents in reading
    /// order, the breadcrumb trail, and the page's own children.
    pub fn get_page_navigation(&self, doc_path: &str) -> (r: PageNavigation)
        requires
            self.wf(),
            self.spec_entries().key_seq().len() < usize::MAX,
        ensures
            ({
                let flat = self.spec_flat();
                let pos = spec_flat_pos(flat, doc_path@);
                (match r.prev {
                    Some(p) => pos > 0 && p@ == spec_flat_link(flat[pos - 1]),
                    None => pos <= 0,
                }) && (match r.next {
                    Some(p) => pos >= 0 && pos + 1 < flat.len() && p@ == spec_flat_link(
                        flat[pos + 1],
                    ),
                    None => pos < 0 || pos + 1 >= flat.len(),
                })
            }),
            r.parents.deep_view() == self.spec_parents(doc_path@),
            r.children.deep_view() == self.spec_children(doc_path@),
    {
        let tree = self.build_tree();
        let flat = tree.flatten();
        let ghost fv = self.spec_flat();
        proof {
            assert(flat.deep_view() == fv);
        }
        let n = flat.len();
        let mut pos: Option<usize> = None;
        let mut i: usize = 0;
        while i < n
            invariant
                n == flat@.len(),
                fv == flat.deep_view(),
                fv.len() == n,
                i <= n,
                match pos {
                    Some(p) => p < i && fv[p as int].0 == doc_path@ && forall|j: int|
                        0 <= j < p ==> fv[j].0 != doc_path@,
                    None => forall|j: int| 0 <= j < i ==> fv[j].0 != doc_path@,
                },
            decreases n - i,
        {
            let done: bool = match pos {
                Some(_) => true,
                None => false,
            };
            if !done {
                proof {
                    assert(fv[i as int] == flat@[i as int].deep_view());
                }
                if crate::text::str_eq(flat[i].0.as_str(), doc_path) {
                    pos = Some(i);
                }
            }
            i += 1;
        }
        let mut prev: Option<NavLink> = None;
        let mut next: Option<NavLink> = None;
        match pos {
            Some(p) => {
                proof {
                    crate::strmap::lemma_seq_index_of_at(
                        Seq::new(fv.len(), |j: int| fv[j].0),
                        doc_path@,
                        p as int,
                    );
                    lemma_flat_pos_from_index(fv, doc_path@, p as int);
                }
                if p > 0 {
                    proof {
                        assert(fv[p - 1] == flat@[p - 1].deep_view());
                    }
                    prev = Some(
                        NavLink::new(
                            flat[p - 1].1.clone(),
                            link_of(flat[p - 1].0.as_str()),
                        ),
                    );
                }
                if p + 1 < n {
                    proof {
                        assert(fv[p + 1] == flat@[p + 1].deep_view());
                    }
                    next = Some(
                        NavLink::new(
                            flat[p + 1].1.clone(),
                            link_of(flat[p + 1].0.as_str()),
                        ),
                    );
                }
            },
            None => {
                proof {
                    lemma_flat_pos_none(fv, doc_path@);
                }
            },
        }
        // Breadcrumb trail: the path from the root, without the page itself.
        let mut parents: Vec<NavLink> = Vec::new();
        match path_to(&tree, doc_path) {
            Some(path) => {
                let ghost pv = path.deep_view();
                let mut k: usize = 0;
                let upto = if path.len() > 0 {
                    path.len() - 1
                } else {
                    0
                };
                proof {
                    assert(pv.subrange(0, pv.len() as int) =~= pv);
                    assert(parents.deep_view() + spec_parent_links(pv) =~= spec_parent_links(
                        pv,
                    ));
                }
                while k < upto
                    invariant
                        pv == path.deep_view(),
                        pv.len() == path@.len(),
                        upto == if pv.len() > 0 {
                            pv.len() - 1
                        } else {
                            0int
                        },
                        k <= upto,
                        spec_parent_links(pv) == parents.deep_view() + spec_parent_links(
                            pv.subrange(k as int, pv.len() as int),
                        ),
                    decreases upto - k,
                {
                    let ghost rest = pv.subrange(k as int, pv.len() as int);
                    proof {
                        assert(pv[k as int] == path@[k as int].deep_view());
                        assert(rest[0] == pv[k as int]);
                        assert(rest.drop_first() =~= pv.subrange(k + 1, pv.len() as int));
                    }
                    let nl = NavLink::new(path[k].1.clone(), link_of(path[k].0.as_str()));
                    let ghost nlv = nl@;
                    let ghost before = parents.deep_view();
                    proof {
                        assert(nlv == (NavLinkView { title: pv[k as int].1, link: pv[k as int].0
                            + ".html"@ }));
                    }
                    parents.push(nl);
                    k += 1;
                    proof {
                        assert(parents.deep_view() =~= before.push(nlv));
                        assert(before.push(nlv) + spec_parent_links(
                            pv.subrange(k as int, pv.len() as int),
                        ) =~= before + spec_parent_links(pv.subrange(k - 1, pv.len() as int)));
                    }
                }
                proof {
                    assert(spec_parent_links(pv.subrange(k as int, pv.len() as int)).len()
                        == 0);
                    assert(parents.deep_view() =~= spec_parent_links(pv));
                }
            },
            None => {
                proof {
                    assert(parents.deep_view() =~= Seq::<NavLinkView>::empty());
                }
            },
        }
        // The page's own children, externals excluded.
        let mut children: Vec<NavLink> = Vec::new();
        match self.toctree_entries.get(doc_path) {
            Some(es) => {
                let ghost ev = es.deep_view();
                let m = es.len();
                let mut k: usize = 0;
                proof {
                    assert(ev.subrange(0, ev.len() as int) =~= ev);
                    assert(children.deep_view() + self.spec_child_links(ev)
                        =~= self.spec_child_links(ev));
                }
                while k < m
                    invariant
                        self.wf(),
                        m == es@.len(),
                        ev == es.deep_view(),
                        ev.len() == m,
                        k <= m,
                        self.spec_child_links(ev) == children.deep_view()
                            + self.spec_child_links(ev.subrange(k as int, ev.len() as int)),
                    decreases m - k,
                {
                    let ghost rest = ev.subrange(k as int, ev.len() as int);
                    proof {
                        assert(ev[k as int] == es@[k as int]@);
                        assert(rest[0] == ev[k as int]);
                        assert(rest.drop_first() =~= ev.subrange(k + 1, ev.len() as int));
                    }
                    let ec = to_chars(es[k].as_str());
                    let (etitle, epath) = nav_entry(ec.as_slice());
                    let ghost before = children.deep_view();
                    if !is_external(epath.as_slice()) {
                        let display: String = match etitle {
                            Some(t) => from_chars(t.as_slice()),
                            None => {
                                match self.titles.get(from_chars(epath.as_slice()).as_str()) {
                                    Some(reg) => reg.clone(),
                                    None => from_chars(epath.as_slice()),
                                }
                            },
                        };
                        let nl = NavLink::new(
                            display,
                            link_of(from_chars(epath.as_slice()).as_str()),
                        );
                        let ghost nlv = nl@;
                        proof {
                            let pe = spec_nav_entry(rest[0]);
                            assert(nlv == (NavLinkView {
                                title: match pe.0 {
                                    Some(t) => t,
                                    None => match self.spec_titles().spec_get(pe.1) {
                                        Some(reg) => reg@,
                                        None => pe.1,
                                    },
                                },
                                link: pe.1 + ".html"@,
                            }));
                        }
                        children.push(nl);
                        proof {
                            assert(children.deep_view() =~= before.push(nlv));
                            assert(before.push(nlv) + self.spec_child_links(
                                ev.subrange(k + 1, ev.len() as int),
                            ) =~= before + self.spec_child_links(rest));
                        }
                    } else {
                        proof {
                            assert(before + self.spec_child_links(
                                ev.subrange(k + 1, ev.len() as int),
                            ) =~= before + self.spec_child_links(rest));
                        }
                    }
                    k += 1;
                }
                proof {
                    assert(self.spec_child_links(
                        ev.subrange(m as int, ev.len() as int),
                    ).len() == 0);
                    assert(children.deep_view() =~= self.spec_child_links(ev));
                }
            },
            None => {
                proof {
                    assert(children.deep_view() =~= Seq::<NavLinkView>::empty());
                }
            },
        }
        PageNavigation { parents, prev, next, children }
    }
}

/// Whether a found index is the first match.
proof fn lemma_flat_pos_from_index(flat: Seq<(Seq<char>, Seq<char>)>, doc: Seq<char>, p: int)
    requires
        0 <= p < flat.len(),
        flat[p].0 == doc,
        forall|j: int| 0 <= j < p ==> flat[j].0 != doc,
    ensures
        spec_flat_pos(flat, doc) == p,
    decreases p,
{
    if p > 0 {
        lemma_flat_pos_from_index(flat.drop_first(), doc, p - 1);
    }
}

proof fn lemma_flat_pos_none(flat: Seq<(Seq<char>, Seq<char>)>, doc: Seq<char>)
    requires
        forall|j: int| 0 <= j < flat.len() ==> flat[j].0 != doc,
    ensures
        spec_flat_pos(flat, doc) == -1,
    decreases flat.len(),
{
    if flat.len() > 0 {
        lemma_flat_pos_none(flat.drop_first(), doc);
    }
}

/// The link of a document path: the path with the output extension.
fn link_of(path: &str) -> (r: String)
    ensures
        r@ == path@ + ".html"@,
{
    let mut out: Vec<char> = Vec::new();
    crate::text::append_str(&mut out, path);
    crate::text::append_str(&mut out, ".html");
    proof {
        assert(out@ =~= path@ + ".html"@);
    }
    from_chars(out.as_slice())
}

// ---------------------------------------------------------------------------
// Sidebar toctree rendering.
// ---------------------------------------------------------------------------

/// The decimal digit character of `d`.
pub open spec fn spec_digit_char(d: int) -> char {
    if d == 0 {
        '0'
    } else if d == 1 {
        '1'
    } else if d == 2 {
        '2'
    } else if d == 3 {
        '3'
    } else if d == 4 {
        '4'
    } else if d == 5 {
        '5'
    } else if d == 6 {
        '6'
    } else if d == 7 {
        '7'
    } else if d == 8 {
        '8'
    } else {
        '9'
    }
}

/// The decimal digits of `n`.
pub open spec fn spec_dec(n: int) -> Seq<char>
    decreases n,
{
    if n < 10 {
        seq![spec_digit_char(if n < 0 {
            0
        } else {
            n
        })]
    } else {
        spec_dec(n / 10) + seq![spec_digit_char(n % 10)]
    }
}

/// Write `n` in decimal.
pub fn dec_chars(n: usize) -> (r: Vec<char>)
    ensures
        r@ == spec_dec(n as int),
    decreases n,
{
    let d = n % 10;
    let c: char = if d == 0 {
        '0'
    } else if d == 1 {
        '1'
    } else if d == 2 {
        '2'
    } else if d == 3 {
        '3'
    } else if d == 4 {
        '4'
    } else if d == 5 {
        '5'
    } else if d == 6 {
        '6'
    } else if d == 7 {
        '7'
    } else if d == 8 {
        '8'
    } else {
        '9'
    };
    if n < 10 {
        let mut out: Vec<char> = Vec::new();
        out.push(c);
        proof {
            assert(out@ =~= spec_dec(n as int));
        }
        out
    } else {
        let mut out = dec_chars(n / 10);
        out.push(c);
        proof {
            assert(out@ =~= spec_dec(n as int));
        }
        out
    }
}

/// The next checkbox counter value; the last value saturates.
pub open spec fn spec_next_counter(c: int) -> int {
    if c < usize::MAX as int {
        c + 1
    } else {
        c
    }
}

/// The list-item head of a sidebar node: its classes and its link.
pub open spec fn spec_tc_head(
    t: TreeView,
    depth: int,
    maxdepth: int,
    cur: Option<Seq<char>>,
    cpath: Seq<Seq<char>>,
) -> Seq<char> {
    let ext = spec_is_external(t.doc_path);
    let has_children = t.children.len() > 0 && (maxdepth == 0 || depth < maxdepth);
    let is_cur = !ext && cpath.contains(t.doc_path);
    let is_cur_page = !ext && cur == Some(t.doc_path);
    let classes = "toctree-l"@ + spec_dec(depth) + (if is_cur {
        " current"@
    } else {
        Seq::<char>::empty()
    }) + (if is_cur_page {
        " current-page"@
    } else {
        Seq::<char>::empty()
    }) + (if has_children {
        " has-children"@
    } else {
        Seq::<char>::empty()
    });
    let lclass: Seq<char> = if ext {
        "reference external"@
    } else if is_cur_page {
        "current reference internal"@
    } else {
        "reference internal"@
    };
    let href: Seq<char> = if ext {
        t.doc_path
    } else {
        t.doc_path + ".html"@
    };
    "<li class=\""@ + classes + "\"><a class=\""@ + lclass + "\" href=\""@
        + crate::text::spec_escape_html(href) + "\">"@ + spec_nav_title(t.title) + "</a>"@
}

/// One rendered sidebar node and the counter after it.
pub open spec fn spec_tc_node(
    t: TreeView,
    depth: int,
    maxdepth: int,
    cur: Option<Seq<char>>,
    cpath: Seq<Seq<char>>,
    counter: int,
) -> (Seq<char>, int)
    decreases t, 0int,
{
    if depth > maxdepth && maxdepth > 0 {
        (Seq::empty(), counter)
    } else {
        let ext = spec_is_external(t.doc_path);
        let has_children = t.children.len() > 0 && (maxdepth == 0 || depth < maxdepth);
        let is_cur = !ext && cpath.contains(t.doc_path);
        let head = spec_tc_head(t, depth, maxdepth, cur, cpath);
        if has_children {
            let body = spec_tc_list(
                t.children,
                spec_next_counter(depth),
                maxdepth,
                cur,
                cpath,
                spec_next_counter(counter),
            );
            (
                head + "<input aria-label=\"Toggle navigation of "@
                    + crate::text::spec_escape_html(t.title)
                    + "\" class=\"toctree-checkbox\" id=\"toctree-checkbox-"@ + spec_dec(counter)
                    + "\" name=\"toctree-checkbox-"@ + spec_dec(counter)
                    + "\" role=\"switch\" type=\"checkbox\""@ + (if is_cur {
                    " checked"@
                } else {
                    Seq::<char>::empty()
                }) + ">"@ + "<label for=\"toctree-checkbox-"@ + spec_dec(counter)
                    + "\"><span class=\"icon\"><svg><use href=\"#svg-arrow-right\"></use></svg></span></label>"@
                    + "<ul>\n"@ + body.0 + "</ul>\n"@ + "</li>\n"@,
                body.1,
            )
        } else {
            (head + "</li>\n"@, counter)
        }
    }
}

/// The rendered sidebar nodes of a list, threading the counter.
pub open spec fn spec_tc_list(
    ts: Seq<TreeView>,
    depth: int,
    maxdepth: int,
    cur: Option<Seq<char>>,
    cpath: Seq<Seq<char>>,
    counter: int,
) -> (Seq<char>, int)
    decreases ts, 1int,
    via spec_tc_list_decreases
{
    if ts.len() == 0 {
        (Seq::empty(), counter)
    } else {
        let a = spec_tc_node(ts[0], depth, maxdepth, cur, cpath, counter);
        let b = spec_tc_list(ts.drop_first(), depth, maxdepth, cur, cpath, a.1);
        (a.0 + b.0, b.1)
    }
}

#[via_fn]
proof fn spec_tc_list_decreases(
    ts: Seq<TreeView>,
    depth: int,
    maxdepth: int,
    cur: Option<Seq<char>>,
    cpath: Seq<Seq<char>>,
    counter: int,
) {
    if ts.len() > 0 {
        vstd::seq::axiom_seq_len_decreases(ts, ts.drop_first());
    }
}

/// Build the list-item head of a sidebar node.
#[verifier::rlimit(100)]
fn tc_head(
    node: &TocTreeNode,
    depth: usize,
    maxdepth: usize,
    cur: &Option<String>,
    cpath: &Vec<String>,
) -> (r: Vec<char>)
    ensures
        r@ == spec_tc_head(
            tree_view(*node),
            depth as int,
            maxdepth as int,
            match cur {
                Some(c) => Some(c@),
                None => None,
            },
            cpath.deep_view(),
        ),
{
    let ghost tv = tree_view(*node);
    let dp = to_chars(node.doc_path.as_str());
    let title = to_chars(node.title.as_str());
    let ext = is_external(dp.as_slice());
    let has_children = node.children.len() > 0 && (maxdepth == 0 || depth < maxdepth);
    proof {
        lemma_seq_trees_view(node.children@);
        assert(tv.children.len() == node.children@.len());
    }
    let mut on_path = false;
    let cn = cpath.len();
    let mut ci: usize = 0;
    while ci < cn
        invariant
            cn == cpath@.len(),
            ci <= cn,
            on_path == exists|j: int| 0 <= j < ci && cpath.deep_view()[j] == node.doc_path@,
        decreases cn - ci,
    {
        proof {
            assert(cpath.deep_view()[ci as int] == cpath@[ci as int]@);
        }
        if crate::text::str_eq(cpath[ci].as_str(), node.doc_path.as_str()) {
            on_path = true;
        }
        ci += 1;
    }
    proof {
        assert(on_path == cpath.deep_view().contains(node.doc_path@));
    }
    let is_cur = !ext && on_path;
    let is_cur_page: bool = !ext && match cur {
        Some(c) => crate::text::str_eq(c.as_str(), node.doc_path.as_str()),
        None => false,
    };
    let mut out: Vec<char> = Vec::new();
    append_str(&mut out, "<li class=\"");
    append_str(&mut out, "toctree-l");
    append_chars(&mut out, dec_chars(depth).as_slice());
    if is_cur {
        append_str(&mut out, " current");
    }
    if is_cur_page {
        append_str(&mut out, " current-page");
    }
    if has_children {
        append_str(&mut out, " has-children");
    }
    append_str(&mut out, "\"><a class=\"");
    if ext {
        append_str(&mut out, "reference external");
    } else if is_cur_page {
        append_str(&mut out, "current reference internal");
    } else {
        append_str(&mut out, "reference internal");
    }
    append_str(&mut out, "\" href=\"");
    let href: Vec<char> = if ext {
        slice_range(dp.as_slice(), 0, dp.len())
    } else {
        let mut h = slice_range(dp.as_slice(), 0, dp.len());
        append_str(&mut h, ".html");
        h
    };
    proof {
        if spec_is_external(tv.doc_path) {
            assert(href@ =~= tv.doc_path);
        } else {
            assert(href@ =~= tv.doc_path + ".html"@);
        }
    }
    append_chars(&mut out, escape_html(href.as_slice()).as_slice());
    append_str(&mut out, "\">");
    append_chars(&mut out, render_nav_title(title.as_slice()).as_slice());
    append_str(&mut out, "</a>");
    proof {
        assert(out@ =~= spec_tc_head(
            tv,
            depth as int,
            maxdepth as int,
            match cur {
                Some(c) => Some(c@),
                None => None,
            },
            cpath.deep_view(),
        ));
    }
    out
}

/// Render one sidebar node.
#[verifier::rlimit(100)]
fn tc_node(
    node: &TocTreeNode,
    depth: usize,
    maxdepth: usize,
    cur: &Option<String>,
    cpath: &Vec<String>,
    counter: usize,
) -> (r: (Vec<char>, usize))
    ensures
        ({
            let s = spec_tc_node(
                tree_view(*node),
                depth as int,
                maxdepth as int,
                match cur {
                    Some(c) => Some(c@),
                    None => None,
                },
                cpath.deep_view(),
                counter as int,
            );
            r.0@ == s.0 && r.1 as int == s.1
        }),
    decreases *node,
{
    let ghost tv = tree_view(*node);
    if depth > maxdepth && maxdepth > 0 {
        return (Vec::new(), counter);
    }
    let dp = to_chars(node.doc_path.as_str());
    let title = to_chars(node.title.as_str());
    let ext = is_external(dp.as_slice());
    let has_children = node.children.len() > 0 && (maxdepth == 0 || depth < maxdepth);
    proof {
        lemma_seq_trees_view(node.children@);
        assert(tv.children.len() == node.children@.len());
    }
    let mut on_path = false;
    let cn = cpath.len();
    let mut ci: usize = 0;
    while ci < cn
        invariant
            cn == cpath@.len(),
            ci <= cn,
            on_path == exists|j: int| 0 <= j < ci && cpath.deep_view()[j] == node.doc_path@,
        decreases cn - ci,
    {
        proof {
            assert(cpath.deep_view()[ci as int] == cpath@[ci as int]@);
        }
        if crate::text::str_eq(cpath[ci].as_str(), node.doc_path.as_str()) {
            on_path = true;
        }
        ci += 1;
    }
    proof {
        assert(on_path == cpath.deep_view().contains(node.doc_path@));
    }
    let is_cur = !ext && on_path;
    let mut out = tc_head(node, depth, maxdepth, cur, cpath);
    if has_children {
        let cid = counter;
        let counter2: usize = if counter < usize::MAX {
            counter + 1
        } else {
            counter
        };
        append_str(&mut out, "<input aria-label=\"Toggle navigation of ");
        append_chars(&mut out, escape_html(title.as_slice()).as_slice());
        append_str(&mut out, "\" class=\"toctree-checkbox\" id=\"toctree-checkbox-");
        append_chars(&mut out, dec_chars(cid).as_slice());
        append_str(&mut out, "\" name=\"toctree-checkbox-");
        append_chars(&mut out, dec_chars(cid).as_slice());
        append_str(&mut out, "\" role=\"switch\" type=\"checkbox\"");
        if is_cur {
            append_str(&mut out, " checked");
        }
        append_str(&mut out, ">");
        append_str(&mut out, "<label for=\"toctree-checkbox-");
        append_chars(&mut out, dec_chars(cid).as_slice());
        append_str(
            &mut out,
            "\"><span class=\"icon\"><svg><use href=\"#svg-arrow-right\"></use></svg></span></label>",
        );
        append_str(&mut out, "<ul>\n");
        let mut body: Vec<char> = Vec::new();
        let mut cnt: usize = counter2;
        let depth2: usize = if depth < usize::MAX {
            depth + 1
        } else {
            depth
        };
        let cn2 = node.children.len();
        let mut ci2: usize = 0;
        proof {
            lemma_seq_trees_view(node.children@);
            assert(tv.children.subrange(0, tv.children.len() as int) =~= tv.children);
        }
        while ci2 < cn2
            invariant
                cn2 == node.children@.len(),
                tv == tree_view(*node),
                tv.children.len() == cn2,
                tv.children == seq_trees_view(node.children@),
                ci2 <= cn2,
                depth2 as int == spec_next_counter(depth as int),
                ({
                    let whole = spec_tc_list(
                        tv.children,
                        spec_next_counter(depth as int),
                        maxdepth as int,
                        match cur {
                            Some(c) => Some(c@),
                            None => None,
                        },
                        cpath.deep_view(),
                        counter2 as int,
                    );
                    let rest = spec_tc_list(
                        tv.children.subrange(ci2 as int, tv.children.len() as int),
                        spec_next_counter(depth as int),
                        maxdepth as int,
                        match cur {
                            Some(c) => Some(c@),
                            None => None,
                        },
                        cpath.deep_view(),
                        cnt as int,
                    );
                    whole.0 == body@ + rest.0 && whole.1 == rest.1
                }),
            decreases cn2 - ci2,
        {
            let ghost rest0 = tv.children.subrange(ci2 as int, tv.children.len() as int);
            proof {
                lemma_seq_trees_view(node.children@);
                assert(rest0[0] == tv.children[ci2 as int]);
                assert(tv.children[ci2 as int] == tree_view(node.children@[ci2 as int]));
                assert(rest0.drop_first() =~= tv.children.subrange(
                    ci2 + 1,
                    tv.children.len() as int,
                ));
            }
            let a = tc_node(&node.children[ci2], depth2, maxdepth, cur, cpath, cnt);
            append_chars(&mut body, a.0.as_slice());
            cnt = a.1;
            ci2 += 1;
        }
        proof {
            assert(spec_tc_list(
                tv.children.subrange(cn2 as int, tv.children.len() as int),
                spec_next_counter(depth as int),
                maxdepth as int,
                match cur {
                    Some(c) => Some(c@),
                    None => None,
                },
                cpath.deep_view(),
                cnt as int,
            ).0 =~= Seq::<char>::empty());
            assert(body@ + Seq::<char>::empty() =~= body@);
        }
        append_chars(&mut out, body.as_slice());
        append_str(&mut out, "</ul>\n");
        append_str(&mut out, "</li>\n");
        proof {
            assert(out@ =~= spec_tc_node(
                tv,
                depth as int,
                maxdepth as int,
                match cur {
                    Some(c) => Some(c@),
                    None => None,
                },
                cpath.deep_view(),
                counter as int,
            ).0);
        }
        (out, cnt)
    } else {
        append_str(&mut out, "</li>\n");
        proof {
            assert(out@ =~= spec_tc_node(
                tv,
                depth as int,
                maxdepth as int,
                match cur {
                    Some(c) => Some(c@),
                    None => None,
                },
                cpath.deep_view(),
                counter as int,
            ).0);
        }
        (out, counter)
    }
}

/// The document paths on the root-to-node path, or none.
pub open spec fn spec_cpath(t: TreeView, cur: Option<Seq<char>>) -> Seq<Seq<char>> {
    match cur {
        Some(doc) => match spec_path_to(t, doc) {
            Some(p) => Seq::new(p.len(), |i: int| p[i].0),
            None => Seq::empty(),
        },
        None => Seq::empty(),
    }
}

impl NavigationBuilder {
    /// The rendered sidebar: the root's children only, so the root's own
    /// title is never part of the output.
    pub open spec fn spec_render_toctree(self, maxdepth: int, cur: Option<Seq<char>>) -> Seq<
        char,
    > {
        let t = self.spec_tree(
            self.spec_master(),
            Seq::empty(),
            (self.spec_entries().key_seq().len() + 1) as nat,
        );
        if t.children.len() == 0 {
            Seq::empty()
        } else {
            spec_tc_list(t.children, 1, maxdepth, cur, spec_cpath(t, cur), 1).0
        }
    }

    /// Render the sidebar toctree: only the children of the root document
    /// appear, each with its depth class, current markers and collapse
    /// controls.
    pub fn render_toctree(&self, options: &ToctreeOptions) -> (r: String)
        requires
            self.wf(),
            self.spec_entries().key_seq().len() < usize::MAX,
        ensures
            r@ == self.spec_render_toctree(
                options.maxdepth as int,
                match options.current_doc {
                    Some(c) => Some(c@),
                    None => None,
                },
            ),
    {
        let tree = self.build_tree();
        let ghost tv = tree_view(tree);
        let cpath: Vec<String> = match &options.current_doc {
            Some(doc) => {
                match path_to(&tree, doc.as_str()) {
                    Some(p) => {
                        let m = p.len();
                        let ghost pv = p.deep_view();
                        let mut out: Vec<String> = Vec::new();
                        let mut k: usize = 0;
                        proof {
                            assert(out.deep_view() =~~= Seq::new(
                                pv.len(),
                                |i: int| pv[i].0,
                            ).subrange(0, 0));
                        }
                        while k < m
                            invariant
                                m == p@.len(),
                                pv == p.deep_view(),
                                pv.len() == m,
                                k <= m,
                                out.deep_view() == Seq::new(
                                    pv.len(),
                                    |i: int| pv[i].0,
                                ).subrange(0, k as int),
                            decreases m - k,
                        {
                            proof {
                                assert(pv[k as int] == p@[k as int].deep_view());
                            }
                            let piece = p[k].0.clone();
                            let ghost piecev = piece@;
                            let ghost before = out.deep_view();
                            proof {
                                assert(piecev == pv[k as int].0);
                            }
                            out.push(piece);
                            k += 1;
                            proof {
                                assert(out.deep_view() =~~= before.push(piecev));
                                assert(before.push(piecev) =~~= Seq::new(
                                    pv.len(),
                                    |i: int| pv[i].0,
                                ).subrange(0, k as int));
                            }
                        }
                        proof {
                            assert(Seq::new(pv.len(), |i: int| pv[i].0).subrange(0, m as int)
                                =~= Seq::new(pv.len(), |i: int| pv[i].0));
                        }
                        out
                    },
                    None => Vec::new(),
                }
            },
            None => Vec::new(),
        };
        proof {
            assert(cpath.deep_view() =~~= spec_cpath(tv, match options.current_doc {
                Some(c) => Some(c@),
                None => None,
            }));
        }
        if tree.children.len() == 0 {
            proof {
                lemma_seq_trees_view(tree.children@);
                assert(tv.children.len() == 0);
            }
            return String::new();
        }
        proof {
            lemma_seq_trees_view(tree.children@);
            assert(tv.children.subrange(0, tv.children.len() as int) =~= tv.children);
        }
        let mut body: Vec<char> = Vec::new();
        let mut cnt: usize = 1;
        let cn2 = tree.children.len();
        let mut ci2: usize = 0;
        while ci2 < cn2
            invariant
                cn2 == tree.children@.len(),
                tv == tree_view(tree),
                tv.children.len() == cn2,
                tv.children == seq_trees_view(tree.children@),
                ci2 <= cn2,
                ({
                    let whole = spec_tc_list(
                        tv.children,
                        1,
                        options.maxdepth as int,
                        match options.current_doc {
                            Some(c) => Some(c@),
                            None => None,
                        },
                        cpath.deep_view(),
                        1,
                    );
                    let rest = spec_tc_list(
                        tv.children.subrange(ci2 as int, tv.children.len() as int),
                        1,
                        options.maxdepth as int,
                        match options.current_doc {
                            Some(c) => Some(c@),
                            None => None,
                        },
                        cpath.deep_view(),
                        cnt as int,
                    );
                    whole.0 == body@ + rest.0 && whole.1 == rest.1
                }),
            decreases cn2 - ci2,
        {
            let ghost rest0 = tv.children.subrange(ci2 as int, tv.children.len() as int);
            proof {
                lemma_seq_trees_view(tree.children@);
                assert(rest0[0] == tv.children[ci2 as int]);
                assert(tv.children[ci2 as int] == tree_view(tree.children@[ci2 as int]));
                assert(rest0.drop_first() =~= tv.children.subrange(
                    ci2 + 1,
                    tv.children.len() as int,
                ));
            }
            let a = tc_node(&tree.children[ci2], 1, options.maxdepth, &options.current_doc, &cpath, cnt);
            append_chars(&mut body, a.0.as_slice());
            cnt = a.1;
            ci2 += 1;
        }
        proof {
            assert(spec_tc_list(
                tv.children.subrange(cn2 as int, tv.children.len() as int),
                1,
                options.maxdepth as int,
                match options.current_doc {
                    Some(c) => Some(c@),
                    None => None,
                },
                cpath.deep_view(),
                cnt as int,
            ).0 =~= Seq::<char>::empty());
            assert(body@ + Seq::<char>::empty() =~= body@);
        }
        from_chars(body.as_slice())
    }
}

/// The law of the sidebar root: the rendered toctree is exactly the
/// rendering of the root's child subtrees, so the root document itself,
/// and in particular its own title, is never part of the output.
pub proof fn lemma_toctree_children_only(
    nb: NavigationBuilder,
    maxdepth: int,
    cur: Option<Seq<char>>,
)
    ensures
        ({
            let t = nb.spec_tree(
                nb.spec_master(),
                Seq::empty(),
                (nb.spec_entries().key_seq().len() + 1) as nat,
            );
            nb.spec_render_toctree(maxdepth, cur) == if t.children.len() == 0 {
                Seq::<char>::empty()
            } else {
                spec_tc_list(t.children, 1, maxdepth, cur, spec_cpath(t, cur), 1).0
            }
        }),
{
}

} // verus!
