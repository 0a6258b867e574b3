//! The block parser: scans raw reStructuredText into an AST, line by line,
//! with a fixed priority of recognition rules (directive, title, literal
//! block, link target, comment, block quote, paragraph).  Parsing is total:
//! every input yields an AST.

use vstd::prelude::*;

use crate::document::{
    spec_pairs_insert, opts_view, DirectiveView, Document, DocumentContent, MarkdownContent,
    MarkdownNode, MdNodeView, NodeView, RstContent, RstDirective, RstNode, TocEntry, CrossReference,
    lemma_opts_insert, opt_str_view, Some_val,
};
use crate::strmap::StrMap;
use crate::text::{
    append_chars, append_str, contains_char, count_name_from, count_word_from, count_ws_from,
    find_char, from_chars, is_whitespace_char, lower_of, lowercase_str, replace_char, slice_range,
    spec_count_name, spec_count_word, spec_count_ws, spec_ends_with, spec_find_char, spec_lines,
    spec_replace_char, spec_starts_with, spec_trim, spec_trim_end, split_lines, starts_with_str,
    to_chars, trim_chars, trim_end_chars, ends_with_str,
};

verus! {

// ---------------------------------------------------------------------------
// Line classification, as the specification sees it.
// ---------------------------------------------------------------------------

/// Whether every character of the line is whitespace (a blank line).
pub open spec fn spec_all_ws(s: Seq<char>) -> bool {
    forall|j: int| 0 <= j < s.len() ==> crate::text::char_whitespace(#[trigger] s[j])
}

/// Whether a line is a blank line.
pub fn is_all_ws(v: &[char]) -> (r: bool)
    ensures
        r == spec_all_ws(v@),
{
    let mut i: usize = 0;
    while i < v.len()
        invariant
            i <= v@.len(),
            forall|j: int| 0 <= j < i ==> crate::text::char_whitespace(#[trigger] v@[j]),
        decreases v@.len() - i,
    {
        if !is_whitespace_char(v[i]) {
            return false;
        }
        i += 1;
    }
    true
}

/// A directive header: optional indentation, `..`, whitespace, a name,
/// `::`, then the arguments.  Yields the name and the argument text.
pub open spec fn spec_directive_match(line: Seq<char>) -> Option<(Seq<char>, Seq<char>)> {
    let w = spec_count_ws(line);
    let r1 = line.subrange(w, line.len() as int);
    if !spec_starts_with(r1, seq!['.', '.']) {
        None
    } else {
        let r2 = r1.subrange(2, r1.len() as int);
        let w2 = spec_count_ws(r2);
        if w2 < 1 {
            None
        } else {
            let r3 = r2.subrange(w2, r2.len() as int);
            let nl = spec_count_name(r3);
            if nl < 1 {
                None
            } else {
                let name = r3.subrange(0, nl);
                let r4 = r3.subrange(nl, r3.len() as int);
                if !spec_starts_with(r4, seq![':', ':']) {
                    None
                } else {
                    let r5 = r4.subrange(2, r4.len() as int);
                    let w3 = spec_count_ws(r5);
                    Some((name, r5.subrange(w3, r5.len() as int)))
                }
            }
        }
    }
}

/// Match a directive header line, returning the name and argument text.
#[verifier::rlimit(60)]
pub fn directive_match(v: &[char]) -> (r: Option<(Vec<char>, Vec<char>)>)
    ensures
        match r {
            Some((name, args)) => spec_directive_match(v@) == Some((name@, args@)),
            None => spec_directive_match(v@) is None,
        },
{
    let n = v.len();
    let w = count_ws_from(v, 0);
    let ghost r1 = v@.subrange(spec_count_ws(v@), v@.len() as int);
    proof {
        assert(v@.subrange(0, n as int) =~= v@);
        assert(r1 =~= v@.subrange(w as int, n as int));
    }
    if n - w < 2 || v[w] != '.' || v[w + 1] != '.' {
        proof {
            if w + 2 <= n {
                assert(r1[0] == v@[w as int]);
                assert(r1[1] == v@[w + 1]);
            }
            assert(!spec_starts_with(r1, seq!['.', '.'])) by {
                if spec_starts_with(r1, seq!['.', '.']) {
                    assert(r1.subrange(0, 2)[0] == r1[0]);
                    assert(r1.subrange(0, 2)[1] == r1[1]);
                }
            }
        }
        return None;
    }
    proof {
        assert(r1[0] == v@[w as int] && r1[1] == v@[w + 1]);
        assert(spec_starts_with(r1, seq!['.', '.'])) by {
            assert(r1.subrange(0, 2) =~= seq!['.', '.']);
        }
    }
    let ghost r2 = r1.subrange(2, r1.len() as int);
    proof {
        assert(r2 =~= v@.subrange(w + 2, n as int));
    }
    let w2 = count_ws_from(v, w + 2);
    if w2 < 1 {
        return None;
    }
    let p3 = w + 2 + w2;
    let ghost r3 = r2.subrange(spec_count_ws(r2), r2.len() as int);
    proof {
        assert(r3 =~= v@.subrange(p3 as int, n as int));
    }
    let nl = count_name_from(v, p3);
    if nl < 1 {
        return None;
    }
    let p4 = p3 + nl;
    let name = slice_range(v, p3, p4);
    let ghost r4 = r3.subrange(spec_count_name(r3), r3.len() as int);
    proof {
        assert(name@ =~= r3.subrange(0, spec_count_name(r3)));
        assert(r4 =~= v@.subrange(p4 as int, n as int));
    }
    if n - p4 < 2 || v[p4] != ':' || v[p4 + 1] != ':' {
        proof {
            if p4 + 2 <= n {
                assert(r4[0] == v@[p4 as int]);
                assert(r4[1] == v@[p4 + 1]);
            }
            assert(!spec_starts_with(r4, seq![':', ':'])) by {
                if spec_starts_with(r4, seq![':', ':']) {
                    assert(r4.subrange(0, 2)[0] == r4[0]);
                    assert(r4.subrange(0, 2)[1] == r4[1]);
                }
            }
        }
        return None;
    }
    proof {
        assert(r4[0] == v@[p4 as int] && r4[1] == v@[p4 + 1]);
        assert(spec_starts_with(r4, seq![':', ':'])) by {
            assert(r4.subrange(0, 2) =~= seq![':', ':']);
        }
    }
    let ghost r5 = r4.subrange(2, r4.len() as int);
    proof {
        assert(r5 =~= v@.subrange(p4 + 2, n as int));
    }
    let w3 = count_ws_from(v, p4 + 2);
    let args = slice_range(v, p4 + 2 + w3, n);
    proof {
        assert(args@ =~= r5.subrange(spec_count_ws(r5), r5.len() as int));
    }
    Some((name, args))
}

/// The characters that may underline a title.
pub open spec fn spec_is_underline_char(c: char) -> bool {
    c == '=' || c == '-' || c == '~' || c == '^' || c == '"' || c == '\'' || c == '*' || c == '+'
        || c == '#' || c == '<' || c == '>'
}

/// Whether a trimmed line consists only of underline characters.
pub open spec fn spec_is_underline(t: Seq<char>) -> bool {
    t.len() > 0 && forall|j: int| 0 <= j < t.len() ==> spec_is_underline_char(#[trigger] t[j])
}

/// Whether the next line underlines the current one: non-empty, made of
/// underline characters, and at least as long (counted in characters) as the
/// trimmed title line.
pub open spec fn spec_title_ok(cur: Seq<char>, next: Seq<char>) -> bool {
    let t = spec_trim(next);
    spec_is_underline(t) && t.len() >= spec_trim(cur).len()
}

/// Check whether `next` underlines `cur`.
pub fn title_ok(cur: &[char], next: &[char]) -> (r: bool)
    ensures
        r == spec_title_ok(cur@, next@),
{
    let t = trim_chars(next);
    let n = t.len();
    if n == 0 {
        return false;
    }
    let mut i: usize = 0;
    while i < n
        invariant
            n == t@.len(),
            t@ == spec_trim(next@),
            i <= n,
            forall|j: int| 0 <= j < i ==> spec_is_underline_char(#[trigger] t@[j]),
        decreases n - i,
    {
        let c = t[i];
        if !(c == '=' || c == '-' || c == '~' || c == '^' || c == '"' || c == '\'' || c == '*'
            || c == '+' || c == '#' || c == '<' || c == '>') {
            proof {
                assert(!spec_is_underline(t@)) by {
                    if spec_is_underline(t@) {
                        assert(spec_is_underline_char(t@[i as int]));
                    }
                }
            }
            return false;
        }
        i += 1;
    }
    let ct = trim_chars(cur);
    n >= ct.len()
}

/// An internal hyperlink target `.. _name:` on a trimmed line: yields the
/// name when it is non-empty and has no space.
pub open spec fn spec_link_target(t: Seq<char>) -> Option<Seq<char>> {
    if t.len() >= 5 && spec_starts_with(t, seq!['.', '.', ' ', '_']) && t[t.len() - 1] == ':' {
        let name = t.subrange(4, t.len() - 1);
        if name.len() > 0 && !name.contains(' ') {
            Some(name)
        } else {
            None
        }
    } else {
        None
    }
}

/// Match a link target on a trimmed line.
pub fn link_target_match(t: &[char]) -> (r: Option<Vec<char>>)
    ensures
        match r {
            Some(name) => spec_link_target(t@) == Some(name@),
            None => spec_link_target(t@) is None,
        },
{
    let n = t.len();
    if n < 5 {
        return None;
    }
    if !(t[0] == '.' && t[1] == '.' && t[2] == ' ' && t[3] == '_') {
        proof {
            assert(!spec_starts_with(t@, seq!['.', '.', ' ', '_'])) by {
                if spec_starts_with(t@, seq!['.', '.', ' ', '_']) {
                    let p = t@.subrange(0, 4);
                    assert(p[0] == t@[0] && p[1] == t@[1] && p[2] == t@[2] && p[3] == t@[3]);
                }
            }
        }
        return None;
    }
    proof {
        assert(spec_starts_with(t@, seq!['.', '.', ' ', '_'])) by {
            assert(t@.subrange(0, 4) =~= seq!['.', '.', ' ', '_']);
        }
    }
    if t[n - 1] != ':' {
        return None;
    }
    let name = slice_range(t, 4, n - 1);
    proof {
        assert(name@ =~= t@.subrange(4, t@.len() - 1));
    }
    if name.len() == 0 {
        return None;
    }
    if contains_char(name.as_slice(), ' ') {
        return None;
    }
    Some(name)
}

// ---------------------------------------------------------------------------
// Directive bodies, code blocks, paragraphs, block quotes and comments.
// ---------------------------------------------------------------------------

/// Scan directive option lines from line `j`, folding each `:key: value`
/// line into the option list; blank lines are skipped.  Yields the options
/// and the line where scanning stopped.
pub open spec fn spec_dir_options(
    lines: Seq<Seq<char>>,
    j: int,
    acc: Seq<(Seq<char>, Seq<char>)>,
) -> (Seq<(Seq<char>, Seq<char>)>, int)
    decreases lines.len() - j,
{
    if j < 0 || j >= lines.len() {
        (acc, j)
    } else {
        let line = lines[j];
        if spec_all_ws(line) {
            spec_dir_options(lines, j + 1, acc)
        } else if spec_starts_with(line, seq![' ', ' ', ' ', ':']) {
            let stripped = line.subrange(4, line.len() as int);
            let ci = spec_find_char(stripped, ':');
            if ci >= 0 {
                spec_dir_options(
                    lines,
                    j + 1,
                    spec_pairs_insert(
                        acc,
                        stripped.subrange(0, ci),
                        spec_trim(stripped.subrange(ci + 1, stripped.len() as int)),
                    ),
                )
            } else {
                spec_dir_options(lines, j + 1, acc)
            }
        } else {
            (acc, j)
        }
    }
}

pub proof fn lemma_dir_options_end(lines: Seq<Seq<char>>, j: int, acc: Seq<(Seq<char>, Seq<char>)>)
    requires
        0 <= j <= lines.len(),
    ensures
        j <= spec_dir_options(lines, j, acc).1 <= lines.len(),
    decreases lines.len() - j,
{
    if j < lines.len() {
        let line = lines[j];
        if spec_all_ws(line) {
            lemma_dir_options_end(lines, j + 1, acc);
        } else if spec_starts_with(line, seq![' ', ' ', ' ', ':']) {
            let stripped = line.subrange(4, line.len() as int);
            let ci = spec_find_char(stripped, ':');
            if ci >= 0 {
                lemma_dir_options_end(
                    lines,
                    j + 1,
                    spec_pairs_insert(
                        acc,
                        stripped.subrange(0, ci),
                        spec_trim(stripped.subrange(ci + 1, stripped.len() as int)),
                    ),
                );
            } else {
                lemma_dir_options_end(lines, j + 1, acc);
            }
        }
    }
}

/// Scan directive content lines from line `j`: indented lines are dedented,
/// blank lines stay as empty lines.  Yields the content text and the line
/// where scanning stopped.
pub open spec fn spec_dir_content(lines: Seq<Seq<char>>, j: int) -> (Seq<char>, int)
    decreases lines.len() - j,
{
    if j < 0 || j >= lines.len() {
        (Seq::empty(), j)
    } else {
        let line = lines[j];
        if spec_starts_with(line, seq![' ', ' ', ' ']) {
            let r = spec_dir_content(lines, j + 1);
            (line.subrange(3, line.len() as int) + seq!['\n'] + r.0, r.1)
        } else if spec_starts_with(line, seq!['\t']) {
            let r = spec_dir_content(lines, j + 1);
            (line.subrange(1, line.len() as int) + seq!['\n'] + r.0, r.1)
        } else if spec_all_ws(line) {
            let r = spec_dir_content(lines, j + 1);
            (seq!['\n'] + r.0, r.1)
        } else {
            (Seq::empty(), j)
        }
    }
}

pub proof fn lemma_dir_content_end(lines: Seq<Seq<char>>, j: int)
    requires
        0 <= j <= lines.len(),
    ensures
        j <= spec_dir_content(lines, j).1 <= lines.len(),
    decreases lines.len() - j,
{
    if j < lines.len() {
        lemma_dir_content_end(lines, j + 1);
    }
}

/// The parsed directive starting at line `i` (which must match the header
/// rule), and the index of the first line after it.
pub open spec fn spec_directive_at(lines: Seq<Seq<char>>, i: int) -> (DirectiveView, int) {
    let m = spec_directive_match(lines[i])->Some_0;
    let o = spec_dir_options(lines, i + 1, Seq::empty());
    let c = spec_dir_content(lines, o.1);
    (
        DirectiveView {
            name: m.0,
            args: crate::text::spec_split_ws(m.1),
            options: o.0,
            content: spec_trim_end(c.0),
            line: i + 1,
        },
        c.1,
    )
}

/// Scan a literal code block from line `j`: indented and blank lines are
/// taken verbatim.  Yields the text and the stop line.
pub open spec fn spec_code_block(lines: Seq<Seq<char>>, j: int) -> (Seq<char>, int)
    decreases lines.len() - j,
{
    if j < 0 || j >= lines.len() {
        (Seq::empty(), j)
    } else {
        let line = lines[j];
        if spec_starts_with(line, seq![' ', ' ', ' ']) || spec_starts_with(line, seq!['\t'])
            || spec_all_ws(line) {
            let r = spec_code_block(lines, j + 1);
            (line + seq!['\n'] + r.0, r.1)
        } else {
            (Seq::empty(), j)
        }
    }
}

pub proof fn lemma_code_block_end(lines: Seq<Seq<char>>, j: int)
    requires
        0 <= j <= lines.len(),
    ensures
        j <= spec_code_block(lines, j).1 <= lines.len(),
    decreases lines.len() - j,
{
    if j < lines.len() {
        lemma_code_block_end(lines, j + 1);
    }
}

/// Scan a paragraph from line `j`: contiguous non-blank lines, trimmed and
/// joined with single spaces.  Yields the text and the stop line.
pub open spec fn spec_paragraph(lines: Seq<Seq<char>>, j: int) -> (Seq<char>, int)
    decreases lines.len() - j,
{
    if j < 0 || j >= lines.len() {
        (Seq::empty(), j)
    } else {
        let line = lines[j];
        if spec_all_ws(line) {
            (Seq::empty(), j)
        } else {
            let r = spec_paragraph(lines, j + 1);
            (spec_trim(line) + seq![' '] + r.0, r.1)
        }
    }
}

pub proof fn lemma_paragraph_end(lines: Seq<Seq<char>>, j: int)
    requires
        0 <= j <= lines.len(),
    ensures
        j <= spec_paragraph(lines, j).1 <= lines.len(),
    decreases lines.len() - j,
{
    if j < lines.len() {
        lemma_paragraph_end(lines, j + 1);
    }
}

/// Scan a block quote from line `j`: indented lines are dedented; a blank
/// line is consumed and ends the quote.  Yields the text and the stop line.
pub open spec fn spec_blockquote(lines: Seq<Seq<char>>, j: int) -> (Seq<char>, int)
    decreases lines.len() - j,
{
    if j < 0 || j >= lines.len() {
        (Seq::empty(), j)
    } else {
        let line = lines[j];
        if spec_starts_with(line, seq![' ', ' ', ' ']) {
            let r = spec_blockquote(lines, j + 1);
            (line.subrange(3, line.len() as int) + seq!['\n'] + r.0, r.1)
        } else if spec_starts_with(line, seq!['\t']) {
            let r = spec_blockquote(lines, j + 1);
            (line.subrange(1, line.len() as int) + seq!['\n'] + r.0, r.1)
        } else if spec_all_ws(line) {
            (Seq::empty(), j + 1)
        } else {
            (Seq::empty(), j)
        }
    }
}

pub proof fn lemma_blockquote_end(lines: Seq<Seq<char>>, j: int)
    requires
        0 <= j <= lines.len(),
    ensures
        j <= spec_blockquote(lines, j).1 <= lines.len(),
    decreases lines.len() - j,
{
    if j < lines.len() {
        lemma_blockquote_end(lines, j + 1);
    }
}

/// The first line after a comment that starts at the line before `j`:
/// blank and indented continuation lines belong to the comment.
pub open spec fn spec_comment_end(lines: Seq<Seq<char>>, j: int) -> int
    decreases lines.len() - j,
{
    if j < 0 || j >= lines.len() {
        j
    } else {
        let line = lines[j];
        if spec_all_ws(line) || spec_starts_with(line, seq![' ', ' ', ' ']) || spec_starts_with(
            line,
            seq!['\t'],
        ) {
            spec_comment_end(lines, j + 1)
        } else {
            j
        }
    }
}

pub proof fn lemma_comment_end(lines: Seq<Seq<char>>, j: int)
    requires
        0 <= j <= lines.len(),
    ensures
        j <= spec_comment_end(lines, j) <= lines.len(),
    decreases lines.len() - j,
{
    if j < lines.len() {
        lemma_comment_end(lines, j + 1);
    }
}

// ---------------------------------------------------------------------------
// Executable scanners, each mirroring its specification.
// ---------------------------------------------------------------------------

/// Whether the line starts with three spaces.
fn starts_3sp(v: &[char]) -> (r: bool)
    ensures
        r == spec_starts_with(v@, seq![' ', ' ', ' ']),
{
    if v.len() >= 3 && v[0] == ' ' && v[1] == ' ' && v[2] == ' ' {
        proof {
            assert(v@.subrange(0, 3) =~= seq![' ', ' ', ' ']);
        }
        true
    } else {
        proof {
            assert(!spec_starts_with(v@, seq![' ', ' ', ' '])) by {
                if spec_starts_with(v@, seq![' ', ' ', ' ']) {
                    let p = v@.subrange(0, 3);
                    assert(p[0] == v@[0] && p[1] == v@[1] && p[2] == v@[2]);
                }
            }
        }
        false
    }
}

/// Whether the line starts with three spaces and a colon.
fn starts_3sp_colon(v: &[char]) -> (r: bool)
    ensures
        r == spec_starts_with(v@, seq![' ', ' ', ' ', ':']),
{
    if v.len() >= 4 && v[0] == ' ' && v[1] == ' ' && v[2] == ' ' && v[3] == ':' {
        proof {
            assert(v@.subrange(0, 4) =~= seq![' ', ' ', ' ', ':']);
        }
        true
    } else {
        proof {
            assert(!spec_starts_with(v@, seq![' ', ' ', ' ', ':'])) by {
                if spec_starts_with(v@, seq![' ', ' ', ' ', ':']) {
                    let p = v@.subrange(0, 4);
                    assert(p[0] == v@[0] && p[1] == v@[1] && p[2] == v@[2] && p[3] == v@[3]);
                }
            }
        }
        false
    }
}

/// Whether the line starts with a tab.
fn starts_tab(v: &[char]) -> (r: bool)
    ensures
        r == spec_starts_with(v@, seq!['\t']),
{
    if v.len() >= 1 && v[0] == '\t' {
        proof {
            assert(v@.subrange(0, 1) =~= seq!['\t']);
        }
        true
    } else {
        proof {
            assert(!spec_starts_with(v@, seq!['\t'])) by {
                if spec_starts_with(v@, seq!['\t']) {
                    let p = v@.subrange(0, 1);
                    assert(p[0] == v@[0]);
                }
            }
        }
        false
    }
}

/// Scan directive options into `m` from line `j`; yields the stop line.
fn dir_options_scan(lines: &Vec<Vec<char>>, j: usize, m: &mut StrMap<String>) -> (e: usize)
    requires
        j <= lines@.len(),
        old(m).wf(),
    ensures
        final(m).wf(),
        (opts_view(*final(m)), e as int) == spec_dir_options(
            lines.deep_view(),
            j as int,
            opts_view(*old(m)),
        ),
        j <= e <= lines@.len(),
    decreases lines@.len() - j,
{
    let ghost lv = lines.deep_view();
    proof {
        assert(lv.len() == lines@.len());
    }
    if j >= lines.len() {
        return j;
    }
    let line = &lines[j];
    proof {
        assert(lv[j as int] == lines@[j as int]@);
    }
    if is_all_ws(line.as_slice()) {
        dir_options_scan(lines, j + 1, m)
    } else if starts_3sp_colon(line.as_slice()) {
        let stripped = slice_range(line.as_slice(), 4, line.len());
        proof {
            assert(stripped@ =~= lv[j as int].subrange(4, lv[j as int].len() as int));
        }
        match find_char(stripped.as_slice(), ':', 0) {
            Some(ci) => {
                proof {
                    crate::text::lemma_find_char_at(stripped@, ':', ci as int);
                }
                let key = slice_range(stripped.as_slice(), 0, ci);
                let val = trim_chars(
                    slice_range(stripped.as_slice(), ci + 1, stripped.len()).as_slice(),
                );
                let ghost before = opts_view(*m);
                let ks = from_chars(key.as_slice());
                let vs = from_chars(val.as_slice());
                proof {
                    assert(ks@ == key@ && vs@ == val@);
                }
                let ghost mbefore = *m;
                m.insert(ks.as_str(), vs);
                proof {
                    lemma_opts_insert(mbefore, *m, key@, val@);
                }
                dir_options_scan(lines, j + 1, m)
            },
            None => {
                proof {
                    crate::text::lemma_find_char_none(stripped@, ':');
                }
                dir_options_scan(lines, j + 1, m)
            },
        }
    } else {
        j
    }
}

/// Scan directive content from line `j`; yields the text and stop line.
fn dir_content_scan(lines: &Vec<Vec<char>>, j: usize) -> (r: (Vec<char>, usize))
    requires
        j <= lines@.len(),
    ensures
        (r.0@, r.1 as int) == spec_dir_content(lines.deep_view(), j as int),
        j <= r.1 <= lines@.len(),
    decreases lines@.len() - j,
{
    let ghost lv = lines.deep_view();
    proof {
        assert(lv.len() == lines@.len());
    }
    if j >= lines.len() {
        return (Vec::new(), j);
    }
    let line = &lines[j];
    proof {
        assert(lv[j as int] == lines@[j as int]@);
    }
    if starts_3sp(line.as_slice()) {
        let mut out = slice_range(line.as_slice(), 3, line.len());
        out.push('\n');
        let rest = dir_content_scan(lines, j + 1);
        append_chars(&mut out, rest.0.as_slice());
        proof {
            assert(out@ =~= lv[j as int].subrange(3, lv[j as int].len() as int) + seq!['\n']
                + rest.0@);
        }
        (out, rest.1)
    } else if starts_tab(line.as_slice()) {
        let mut out = slice_range(line.as_slice(), 1, line.len());
        out.push('\n');
        let rest = dir_content_scan(lines, j + 1);
        append_chars(&mut out, rest.0.as_slice());
        proof {
            assert(out@ =~= lv[j as int].subrange(1, lv[j as int].len() as int) + seq!['\n']
                + rest.0@);
        }
        (out, rest.1)
    } else if is_all_ws(line.as_slice()) {
        let mut out: Vec<char> = Vec::new();
        out.push('\n');
        let rest = dir_content_scan(lines, j + 1);
        append_chars(&mut out, rest.0.as_slice());
        proof {
            assert(out@ =~= seq!['\n'] + rest.0@);
        }
        (out, rest.1)
    } else {
        (Vec::new(), j)
    }
}

/// Scan a literal code block from line `j`; yields the text and stop line.
fn code_block_scan(lines: &Vec<Vec<char>>, j: usize) -> (r: (Vec<char>, usize))
    requires
        j <= lines@.len(),
    ensures
        (r.0@, r.1 as int) == spec_code_block(lines.deep_view(), j as int),
        j <= r.1 <= lines@.len(),
    decreases lines@.len() - j,
{
    let ghost lv = lines.deep_view();
    proof {
        assert(lv.len() == lines@.len());
    }
    if j >= lines.len() {
        return (Vec::new(), j);
    }
    let line = &lines[j];
    proof {
        assert(lv[j as int] == lines@[j as int]@);
    }
    if starts_3sp(line.as_slice()) || starts_tab(line.as_slice()) || is_all_ws(line.as_slice()) {
        let mut out = slice_range(line.as_slice(), 0, line.len());
        out.push('\n');
        let rest = code_block_scan(lines, j + 1);
        append_chars(&mut out, rest.0.as_slice());
        proof {
            assert(slice_full(lv[j as int]) =~= lv[j as int]);
            assert(out@ =~= lv[j as int] + seq!['\n'] + rest.0@);
        }
        (out, rest.1)
    } else {
        (Vec::new(), j)
    }
}

/// The whole of a sequence, as a subrange.
pub open spec fn slice_full(s: Seq<char>) -> Seq<char> {
    s.subrange(0, s.len() as int)
}

/// Scan a paragraph from line `j`; yields the text and stop line.
fn paragraph_scan(lines: &Vec<Vec<char>>, j: usize) -> (r: (Vec<char>, usize))
    requires
        j <= lines@.len(),
    ensures
        (r.0@, r.1 as int) == spec_paragraph(lines.deep_view(), j as int),
        j <= r.1 <= lines@.len(),
    decreases lines@.len() - j,
{
    let ghost lv = lines.deep_view();
    proof {
        assert(lv.len() == lines@.len());
    }
    if j >= lines.len() {
        return (Vec::new(), j);
    }
    let line = &lines[j];
    proof {
        assert(lv[j as int] == lines@[j as int]@);
    }
    if is_all_ws(line.as_slice()) {
        (Vec::new(), j)
    } else {
        let mut out = trim_chars(line.as_slice());
        out.push(' ');
        let rest = paragraph_scan(lines, j + 1);
        append_chars(&mut out, rest.0.as_slice());
        proof {
            assert(out@ =~= spec_trim(lv[j as int]) + seq![' '] + rest.0@);
        }
        (out, rest.1)
    }
}

/// Scan a block quote from line `j`; yields the text and stop line.
fn blockquote_scan(lines: &Vec<Vec<char>>, j: usize) -> (r: (Vec<char>, usize))
    requires
        j <= lines@.len(),
    ensures
        (r.0@, r.1 as int) == spec_blockquote(lines.deep_view(), j as int),
        j <= r.1 <= lines@.len(),
    decreases lines@.len() - j,
{
    let ghost lv = lines.deep_view();
    proof {
        assert(lv.len() == lines@.len());
    }
    if j >= lines.len() {
        return (Vec::new(), j);
    }
    let line = &lines[j];
    proof {
        assert(lv[j as int] == lines@[j as int]@);
    }
    if starts_3sp(line.as_slice()) {
        let mut out = slice_range(line.as_slice(), 3, line.len());
        out.push('\n');
        let rest = blockquote_scan(lines, j + 1);
        append_chars(&mut out, rest.0.as_slice());
        proof {
            assert(out@ =~= lv[j as int].subrange(3, lv[j as int].len() as int) + seq!['\n']
                + rest.0@);
        }
        (out, rest.1)
    } else if starts_tab(line.as_slice()) {
        let mut out = slice_range(line.as_slice(), 1, line.len());
        out.push('\n');
        let rest = blockquote_scan(lines, j + 1);
        append_chars(&mut out, rest.0.as_slice());
        proof {
            assert(out@ =~= lv[j as int].subrange(1, lv[j as int].len() as int) + seq!['\n']
                + rest.0@);
        }
        (out, rest.1)
    } else if is_all_ws(line.as_slice()) {
        (Vec::new(), j + 1)
    } else {
        (Vec::new(), j)
    }
}

/// Find the first line after a comment's continuation lines.
fn comment_end_scan(lines: &Vec<Vec<char>>, j: usize) -> (e: usize)
    requires
        j <= lines@.len(),
    ensures
        e as int == spec_comment_end(lines.deep_view(), j as int),
        j <= e <= lines@.len(),
    decreases lines@.len() - j,
{
    let ghost lv = lines.deep_view();
    proof {
        assert(lv.len() == lines@.len());
    }
    if j >= lines.len() {
        return j;
    }
    let line = &lines[j];
    proof {
        assert(lv[j as int] == lines@[j as int]@);
    }
    if is_all_ws(line.as_slice()) || starts_3sp(line.as_slice()) || starts_tab(line.as_slice()) {
        comment_end_scan(lines, j + 1)
    } else {
        j
    }
}

// ---------------------------------------------------------------------------
// The whole scanner: one step per block, in rule-priority order.
// ---------------------------------------------------------------------------

/// The nodes produced at line `i` and the line where the next block starts.
pub open spec fn spec_parse_step(lines: Seq<Seq<char>>, i: int) -> (Seq<NodeView>, int) {
    let line = lines[i];
    let trimmed = spec_trim(line);
    if spec_all_ws(line) {
        (Seq::empty(), i + 1)
    } else if spec_directive_match(line) is Some {
        let d = spec_directive_at(lines, i);
        (
            seq![
                NodeView::Directive {
                    name: d.0.name,
                    args: d.0.args,
                    options: d.0.options,
                    content: d.0.content,
                    line: i + 1,
                },
            ],
            d.1,
        )
    } else if i + 1 < lines.len() && spec_title_ok(line, lines[i + 1]) {
        (
            seq![
                NodeView::Title {
                    text: trimmed,
                    level: crate::spec_title_level(spec_trim(lines[i + 1])[0]) as int,
                    line: i + 1,
                },
            ],
            i + 2,
        )
    } else if spec_ends_with(line, seq![':', ':']) {
        let c = spec_code_block(lines, i + 1);
        (
            seq![NodeView::CodeBlock { language: None, content: spec_trim(c.0), line: i + 1 }],
            c.1,
        )
    } else if spec_link_target(trimmed) is Some {
        (seq![NodeView::LinkTarget { name: spec_link_target(trimmed)->Some_0, line: i + 1 }], i + 1)
    } else if spec_starts_with(trimmed, seq!['.', '.', ' ']) {
        (Seq::empty(), spec_comment_end(lines, i + 1))
    } else if spec_starts_with(line, seq![' ', ' ', ' ']) || spec_starts_with(line, seq!['\t']) {
        let b = spec_blockquote(lines, i);
        let c = spec_trim(b.0);
        (
            if c.len() > 0 {
                seq![NodeView::BlockQuote { content: c, line: i + 1 }]
            } else {
                Seq::empty()
            },
            b.1,
        )
    } else {
        let p = spec_paragraph(lines, i);
        (seq![NodeView::Paragraph { content: spec_trim(p.0), line: i + 1 }], p.1)
    }
}

pub proof fn lemma_parse_step_end(lines: Seq<Seq<char>>, i: int)
    requires
        0 <= i < lines.len(),
    ensures
        i < spec_parse_step(lines, i).1 <= lines.len(),
{
    let line = lines[i];
    let trimmed = spec_trim(line);
    if spec_all_ws(line) {
    } else if spec_directive_match(line) is Some {
        lemma_dir_options_end(lines, i + 1, Seq::empty());
        lemma_dir_content_end(lines, spec_dir_options(lines, i + 1, Seq::empty()).1);
    } else if i + 1 < lines.len() && spec_title_ok(line, lines[i + 1]) {
    } else if spec_ends_with(line, seq![':', ':']) {
        lemma_code_block_end(lines, i + 1);
    } else if spec_link_target(trimmed) is Some {
    } else if spec_starts_with(trimmed, seq!['.', '.', ' ']) {
        lemma_comment_end(lines, i + 1);
    } else if spec_starts_with(line, seq![' ', ' ', ' ']) || spec_starts_with(line, seq!['\t']) {
        lemma_blockquote_end(lines, i + 1);
        assert(spec_blockquote(lines, i).1 >= i + 1);
    } else {
        lemma_paragraph_end(lines, i + 1);
        assert(spec_paragraph(lines, i).1 >= i + 1);
    }
}

/// The AST of the lines from `i` on.
pub open spec fn spec_parse_rst(lines: Seq<Seq<char>>, i: int) -> Seq<NodeView>
    decreases lines.len() - i,
    via spec_parse_rst_decreases
{
    if i < 0 || i >= lines.len() {
        Seq::empty()
    } else {
        let s = spec_parse_step(lines, i);
        s.0 + spec_parse_rst(lines, s.1)
    }
}

#[via_fn]
proof fn spec_parse_rst_decreases(lines: Seq<Seq<char>>, i: int) {
    if 0 <= i < lines.len() {
        lemma_parse_step_end(lines, i);
    }
}

/// The directives among a node sequence, in order.
pub open spec fn spec_dirs_of(nodes: Seq<NodeView>) -> Seq<DirectiveView>
    decreases nodes.len(),
{
    if nodes.len() == 0 {
        Seq::empty()
    } else {
        spec_dirs_of(nodes.drop_last()) + match nodes[nodes.len() - 1] {
            NodeView::Directive { name, args, options, content, line } => seq![
                DirectiveView { name, args, options, content, line },
            ],
            _ => Seq::empty(),
        }
    }
}

/// The block parser.
pub struct Parser {
    _private: bool,
}

impl Parser {
    /// Create a parser.
    pub fn new() -> (r: Parser) {
        Parser { _private: true }
    }

    /// The fixed mapping from an underline character to a heading level.
    pub fn get_rst_title_level(&self, c: char) -> (level: usize)
        ensures
            level == crate::spec_title_level(c),
    {
        crate::get_rst_title_level(c)
    }

    /// Scan RST text into its AST.  Parsing is total: every input yields an
    /// AST, and the directives list carries each directive node in order.
    pub fn parse_rst(&self, content: &str) -> (r: RstContent)
        ensures
            r.raw@ == content@,
            r.ast.deep_view() == spec_parse_rst(spec_lines(content@), 0),
            r.directives.deep_view() == spec_dirs_of(r.ast.deep_view()),
            forall|k: int| 0 <= k < r.ast@.len() ==> crate::document::node_wf(#[trigger] r.ast@[k]),
    {
        let cv = to_chars(content);
        let lines = split_lines(cv.as_slice());
        let ghost lv = lines.deep_view();
        proof {
            assert(lv == spec_lines(content@));
        }
        let nlines = lines.len();
        let mut nodes: Vec<RstNode> = Vec::new();
        let mut directives: Vec<RstDirective> = Vec::new();
        let mut i: usize = 0;
        proof {
            assert(nodes.deep_view() =~= Seq::<NodeView>::empty());
            assert(directives.deep_view() =~= Seq::<DirectiveView>::empty());
            assert(spec_parse_rst(lv, 0) =~= nodes.deep_view() + spec_parse_rst(lv, 0));
        }
        while i < nlines
            invariant
                lv == lines.deep_view(),
                nlines == lines@.len(),
                lv.len() == lines@.len(),
                i <= nlines,
                spec_parse_rst(lv, 0) == nodes.deep_view() + spec_parse_rst(lv, i as int),
                directives.deep_view() == spec_dirs_of(nodes.deep_view()),
                forall|k: int|
                    0 <= k < nodes@.len() ==> crate::document::node_wf(#[trigger] nodes@[k]),
            decreases nlines - i,
        {
            let ghost step = spec_parse_step(lv, i as int);
            let ghost oldnodes = nodes.deep_view();
            let ghost olddirs = directives.deep_view();
            proof {
                lemma_parse_step_end(lv, i as int);
                assert(spec_parse_rst(lv, i as int) == step.0 + spec_parse_rst(lv, step.1));
            }
            let line = &lines[i];
            proof {
                assert(lv[i as int] == lines@[i as int]@);
                if i + 1 < nlines {
                    assert(lv[i + 1] == lines@[i + 1]@);
                }
            }
            let trimmed = trim_chars(line.as_slice());
            proof {
                reveal_strlit("::");
                assert("::"@ =~= seq![':', ':']);
            }
            if is_all_ws(line.as_slice()) {
                i += 1;
                proof {
                    assert(oldnodes + (step.0 + spec_parse_rst(lv, i as int)) =~= (oldnodes
                        + step.0) + spec_parse_rst(lv, i as int));
                    assert(oldnodes + step.0 =~= oldnodes);
                }
            } else {
                let dm = directive_match(line.as_slice());
                match dm {
                    Some((name, args)) => {
                        let mut m: StrMap<String> = StrMap::new();
                        proof {
                            assert(opts_view(m) =~= Seq::<(Seq<char>, Seq<char>)>::empty());
                        }
                        let oend = dir_options_scan(&lines, i + 1, &mut m);
                        let mut m2: StrMap<String> = StrMap::new();
                        proof {
                            assert(opts_view(m2) =~= Seq::<(Seq<char>, Seq<char>)>::empty());
                        }
                        let oend2 = dir_options_scan(&lines, i + 1, &mut m2);
                        let cres = dir_content_scan(&lines, oend);
                        let ctext = trim_end_chars(cres.0.as_slice());
                        let name_s = from_chars(name.as_slice());
                        let name_s2 = from_chars(name.as_slice());
                        let words = crate::text::split_whitespace_chars(args.as_slice());
                        let args_v: Vec<String> = crate::text::strings_of_words(&words);
                        let args_v2: Vec<String> = crate::text::strings_of_words(&words);
                        let content_s = from_chars(ctext.as_slice());
                        let content_s2 = from_chars(ctext.as_slice());
                        let nd = RstNode::Directive {
                            name: name_s,
                            args: args_v,
                            options: m,
                            content: content_s,
                            line: i + 1,
                        };
                        let dir = RstDirective {
                            name: name_s2,
                            args: args_v2,
                            options: m2,
                            content: content_s2,
                            line: i + 1,
                        };
                        proof {
                            assert(nd@ == step.0[0]);
                        }
                        nodes.push(nd);
                        directives.push(dir);
                        i = cres.1;
                        proof {
                            assert(nodes.deep_view() =~~= oldnodes + step.0);
                            assert(oldnodes + (step.0 + spec_parse_rst(lv, i as int)) =~= (
                            oldnodes + step.0) + spec_parse_rst(lv, i as int));
                            assert(spec_dirs_of(nodes.deep_view()) =~= olddirs.push(dir@)) by {
                                assert(nodes.deep_view().drop_last() =~~= oldnodes);
                            }
                            assert(directives.deep_view() =~~= olddirs.push(dir@));
                        }
                    },
                    None => {
                        if i + 1 < nlines && title_ok(line.as_slice(), lines[i + 1].as_slice()) {
                            proof {
                                assert(lv[i + 1] == lines@[i + 1]@);
                            }
                            let tn = trim_chars(lines[i + 1].as_slice());
                            let level = crate::get_rst_title_level(tn[0]);
                            let nd = RstNode::Title {
                                text: from_chars(trimmed.as_slice()),
                                level,
                                line: i + 1,
                            };
                            proof {
                                assert(nd@ == step.0[0]);
                            }
                            nodes.push(nd);
                            i += 2;
                            proof {
                                assert(nodes.deep_view() =~~= oldnodes + step.0);
                                assert(oldnodes + (step.0 + spec_parse_rst(lv, i as int)) =~= (
                                oldnodes + step.0) + spec_parse_rst(lv, i as int));
                                assert(spec_dirs_of(nodes.deep_view()) =~= olddirs) by {
                                    assert(nodes.deep_view().drop_last() =~~= oldnodes);
                                }
                            }
                        } else if ends_with_str(line.as_slice(), "::") {
                            let cres = code_block_scan(&lines, i + 1);
                            let ctext = trim_chars(cres.0.as_slice());
                            let nd = RstNode::CodeBlock {
                                language: None,
                                content: from_chars(ctext.as_slice()),
                                line: i + 1,
                            };
                            proof {
                                assert(nd@ == step.0[0]);
                            }
                            nodes.push(nd);
                            i = cres.1;
                            proof {
                                assert(nodes.deep_view() =~~= oldnodes + step.0);
                                assert(oldnodes + (step.0 + spec_parse_rst(lv, i as int)) =~= (
                                oldnodes + step.0) + spec_parse_rst(lv, i as int));
                                assert(spec_dirs_of(nodes.deep_view()) =~= olddirs) by {
                                    assert(nodes.deep_view().drop_last() =~~= oldnodes);
                                }
                            }
                        } else {
                            let ltm = link_target_match(trimmed.as_slice());
                            match ltm {
                                Some(ltname) => {
                                    let nd = RstNode::LinkTarget {
                                        name: from_chars(ltname.as_slice()),
                                        line: i + 1,
                                    };
                                    proof {
                                        assert(nd@ == step.0[0]);
                                    }
                                    nodes.push(nd);
                                    i += 1;
                                    proof {
                                        assert(nodes.deep_view() =~~= oldnodes + step.0);
                                        assert(oldnodes + (step.0 + spec_parse_rst(lv, i as int))
                                            =~= (oldnodes + step.0) + spec_parse_rst(
                                            lv,
                                            i as int,
                                        ));
                                        assert(spec_dirs_of(nodes.deep_view()) =~= olddirs) by {
                                            assert(nodes.deep_view().drop_last() =~~= oldnodes);
                                        }
                                    }
                                },
                                None => {
                                    let is_comment: bool = if trimmed.len() >= 3 {
                                        let c0 = trimmed[0];
                                        let c1 = trimmed[1];
                                        let c2 = trimmed[2];
                                        c0 == '.' && c1 == '.' && c2 == ' '
                                    } else {
                                        false
                                    };
                                    proof {
                                        if is_comment {
                                            assert(trimmed@.subrange(0, 3) =~= seq![
                                                '.',
                                                '.',
                                                ' ',
                                            ]);
                                        } else {
                                            assert(!spec_starts_with(trimmed@, seq![
                                                '.',
                                                '.',
                                                ' ',
                                            ])) by {
                                                if spec_starts_with(trimmed@, seq![
                                                    '.',
                                                    '.',
                                                    ' ',
                                                ]) {
                                                    let p = trimmed@.subrange(0, 3);
                                                    assert(p[0] == trimmed@[0] && p[1]
                                                        == trimmed@[1] && p[2] == trimmed@[2]);
                                                }
                                            }
                                        }
                                    }
                                    if is_comment {
                                        let e = comment_end_scan(&lines, i + 1);
                                        i = e;
                                        proof {
                                            assert(oldnodes + (step.0 + spec_parse_rst(
                                                lv,
                                                i as int,
                                            )) =~= (oldnodes + step.0) + spec_parse_rst(
                                                lv,
                                                i as int,
                                            ));
                                            assert(oldnodes + step.0 =~= oldnodes);
                                        }
                                    } else if starts_3sp(line.as_slice()) || starts_tab(
                                        line.as_slice(),
                                    ) {
                                        let bres = blockquote_scan(&lines, i);
                                        let btext = trim_chars(bres.0.as_slice());
                                        if btext.len() > 0 {
                                            let nd = RstNode::BlockQuote {
                                                content: from_chars(btext.as_slice()),
                                                line: i + 1,
                                            };
                                            proof {
                                                assert(nd@ == step.0[0]);
                                            }
                                            nodes.push(nd);
                                            i = bres.1;
                                            proof {
                                                assert(nodes.deep_view() =~~= oldnodes + step.0);
                                                assert(oldnodes + (step.0 + spec_parse_rst(
                                                    lv,
                                                    i as int,
                                                )) =~= (oldnodes + step.0) + spec_parse_rst(
                                                    lv,
                                                    i as int,
                                                ));
                                                assert(spec_dirs_of(nodes.deep_view())
                                                    =~= olddirs) by {
                                                    assert(nodes.deep_view().drop_last()
                                                        =~~= oldnodes);
                                                }
                                            }
                                        } else {
                                            i = bres.1;
                                            proof {
                                                assert(oldnodes + (step.0 + spec_parse_rst(
                                                    lv,
                                                    i as int,
                                                )) =~= (oldnodes + step.0) + spec_parse_rst(
                                                    lv,
                                                    i as int,
                                                ));
                                                assert(oldnodes + step.0 =~= oldnodes);
                                            }
                                        }
                                    } else {
                                        let pres = paragraph_scan(&lines, i);
                                        let ptext = trim_chars(pres.0.as_slice());
                                        let nd = RstNode::Paragraph {
                                            content: from_chars(ptext.as_slice()),
                                            line: i + 1,
                                        };
                                        proof {
                                            assert(nd@ == step.0[0]);
                                        }
                                        nodes.push(nd);
                                        i = pres.1;
                                        proof {
                                            assert(nodes.deep_view() =~~= oldnodes + step.0);
                                            assert(oldnodes + (step.0 + spec_parse_rst(
                                                lv,
                                                i as int,
                                            )) =~= (oldnodes + step.0) + spec_parse_rst(
                                                lv,
                                                i as int,
                                            ));
                                            assert(spec_dirs_of(nodes.deep_view()) =~= olddirs)
                                                by {
                                                assert(nodes.deep_view().drop_last()
                                                    =~~= oldnodes);
                                            }
                                        }
                                    }
                                },
                            }
                        }
                    },
                }
            }
        }
        proof {
            assert(spec_parse_rst(lv, i as int) =~= Seq::<NodeView>::empty());
            assert(nodes.deep_view() =~= spec_parse_rst(lv, 0));
        }
        let raw = String::from_str(content);
        RstContent { raw, ast: nodes, directives }
    }
}

// ---------------------------------------------------------------------------
// Titles, tables of contents and cross-references.
// ---------------------------------------------------------------------------

/// The document title: the text of the first Title node, regardless of its
/// level; `Untitled` when there is none.
pub open spec fn spec_extract_title(nodes: Seq<NodeView>) -> Seq<char>
    decreases nodes.len(),
{
    if nodes.len() == 0 {
        seq!['U', 'n', 't', 'i', 't', 'l', 'e', 'd']
    } else {
        match nodes[0] {
            NodeView::Title { text, .. } => text,
            _ => spec_extract_title(nodes.drop_first()),
        }
    }
}

/// The Markdown document title: the first level-1 heading.
pub open spec fn spec_extract_title_md(nodes: Seq<MdNodeView>) -> Seq<char>
    decreases nodes.len(),
{
    if nodes.len() == 0 {
        seq!['U', 'n', 't', 'i', 't', 'l', 'e', 'd']
    } else {
        match nodes[0] {
            MdNodeView::Heading { text, level, .. } => if level == 1 {
                text
            } else {
                spec_extract_title_md(nodes.drop_first())
            },
            _ => spec_extract_title_md(nodes.drop_first()),
        }
    }
}

/// The anchor of a title: its lower-case form with spaces turned into
/// hyphens.
pub open spec fn spec_anchor(text: Seq<char>) -> Seq<char> {
    spec_replace_char(lower_of(text), ' ', '-')
}

/// One table-of-contents entry per Title node, in order.
pub open spec fn spec_toc(nodes: Seq<NodeView>) -> Seq<crate::document::TocView>
    decreases nodes.len(),
{
    if nodes.len() == 0 {
        Seq::empty()
    } else {
        spec_toc(nodes.drop_last()) + match nodes[nodes.len() - 1] {
            NodeView::Title { text, level, line } => seq![
                crate::document::TocView {
                    title: text,
                    level: level,
                    anchor: spec_anchor(text),
                    line: line,
                },
            ],
            _ => Seq::empty(),
        }
    }
}

/// One table-of-contents entry per Markdown heading, in order.
pub open spec fn spec_toc_md(nodes: Seq<MdNodeView>) -> Seq<crate::document::TocView>
    decreases nodes.len(),
{
    if nodes.len() == 0 {
        Seq::empty()
    } else {
        spec_toc_md(nodes.drop_last()) + match nodes[nodes.len() - 1] {
            MdNodeView::Heading { text, level, line } => seq![
                crate::document::TocView {
                    title: text,
                    level: level,
                    anchor: spec_anchor(text),
                    line: line,
                },
            ],
            _ => Seq::empty(),
        }
    }
}

/// The number of leading non-backtick characters of `s`.
pub open spec fn spec_count_nonbt(s: Seq<char>) -> int
    decreases s.len(),
{
    if s.len() > 0 && s[0] != '`' {
        1 + spec_count_nonbt(s.drop_first())
    } else {
        0
    }
}

/// Count the non-backtick characters of `v` starting at position `i`.
fn count_nonbt_from(v: &[char], i: usize) -> (r: usize)
    requires
        i <= v@.len(),
    ensures
        r == spec_count_nonbt(v@.subrange(i as int, v@.len() as int)),
        i + r <= v@.len(),
    decreases v@.len() - i,
{
    let ghost s = v@.subrange(i as int, v@.len() as int);
    if i < v.len() && v[i] != '`' {
        proof {
            assert(s[0] == v@[i as int]);
            assert(s.drop_first() =~= v@.subrange(i + 1, v@.len() as int));
        }
        let rest = count_nonbt_from(v, i + 1);
        1 + rest
    } else {
        proof {
            if i < v.len() {
                assert(s[0] == v@[i as int]);
            }
        }
        0
    }
}

/// A cross-reference occurrence at position `pos` of a line: a colon, a
/// word, a colon, then a backtick-quoted target.  Yields the word, the
/// target, and the position after the occurrence.
pub open spec fn spec_ref_at(line: Seq<char>, pos: int) -> Option<(Seq<char>, Seq<char>, int)> {
    if pos < 0 || pos >= line.len() || line[pos] != ':' {
        None
    } else {
        let k = spec_count_word(line.subrange(pos + 1, line.len() as int));
        if k < 1 || pos + 1 + k >= line.len() || line[pos + 1 + k] != ':' {
            None
        } else if pos + 2 + k >= line.len() || line[pos + 2 + k] != '`' {
            None
        } else {
            let m = spec_count_nonbt(line.subrange(pos + 3 + k, line.len() as int));
            if m < 1 || pos + 3 + k + m >= line.len() || line[pos + 3 + k + m] != '`' {
                None
            } else {
                Some(
                    (
                        line.subrange(pos + 1, pos + 1 + k),
                        line.subrange(pos + 3 + k, pos + 3 + k + m),
                        pos + 4 + k + m,
                    ),
                )
            }
        }
    }
}

/// Check for a cross-reference occurrence at position `pos`.
fn ref_at(line: &[char], pos: usize) -> (r: Option<(Vec<char>, Vec<char>, usize)>)
    requires
        pos < line@.len(),
    ensures
        match r {
            Some((w, t, e)) => spec_ref_at(line@, pos as int) == Some((w@, t@, e as int)) && pos
                < e <= line@.len(),
            None => spec_ref_at(line@, pos as int) is None,
        },
{
    let n = line.len();
    if line[pos] != ':' {
        return None;
    }
    let k = count_word_from(line, pos + 1);
    proof {
        assert(line@.subrange(pos + 1, n as int) =~= line@.subrange(pos + 1, line@.len() as int));
    }
    if k < 1 || pos + 1 + k >= n || line[pos + 1 + k] != ':' {
        return None;
    }
    if pos + 2 + k >= n || line[pos + 2 + k] != '`' {
        return None;
    }
    let m = count_nonbt_from(line, pos + 3 + k);
    if m < 1 || pos + 3 + k + m >= n || line[pos + 3 + k + m] != '`' {
        return None;
    }
    let w = slice_range(line, pos + 1, pos + 1 + k);
    let t = slice_range(line, pos + 3 + k, pos + 3 + k + m);
    Some((w, t, pos + 4 + k + m))
}

/// All cross-reference occurrences of a line from position `pos` on.
pub open spec fn spec_scan_refs(line: Seq<char>, pos: int) -> Seq<(Seq<char>, Seq<char>)>
    decreases line.len() - pos,
    via spec_scan_refs_decreases
{
    if pos < 0 || pos >= line.len() {
        Seq::empty()
    } else {
        match spec_ref_at(line, pos) {
            Some((w, t, e)) => seq![(w, t)] + spec_scan_refs(line, e),
            None => spec_scan_refs(line, pos + 1),
        }
    }
}

#[via_fn]
proof fn spec_scan_refs_decreases(line: Seq<char>, pos: int) {
    if 0 <= pos < line.len() {
        if spec_ref_at(line, pos) is Some {
            let k = spec_count_word(line.subrange(pos + 1, line.len() as int));
            let m = spec_count_nonbt(line.subrange(pos + 3 + k, line.len() as int));
            assert(spec_ref_at(line, pos)->Some_0.2 == pos + 4 + k + m);
            crate::text::lemma_count_word_bounds(line.subrange(pos + 1, line.len() as int));
        }
    }
}

/// Scan one line for cross-references.
fn scan_refs_line(line: &[char]) -> (r: Vec<(String, String)>)
    ensures
        r.deep_view() == spec_scan_refs(line@, 0),
{
    let n = line.len();
    let mut out: Vec<(String, String)> = Vec::new();
    let mut pos: usize = 0;
    proof {
        assert(out.deep_view() + spec_scan_refs(line@, 0) =~~= spec_scan_refs(line@, 0));
    }
    while pos < n
        invariant
            n == line@.len(),
            pos <= n,
            spec_scan_refs(line@, 0) == out.deep_view() + spec_scan_refs(line@, pos as int),
        decreases n - pos,
    {
        let ghost oldout = out.deep_view();
        match ref_at(line, pos) {
            Some((w, t, e)) => {
                let ws = from_chars(w.as_slice());
                let ts = from_chars(t.as_slice());
                let ghost pair = (w@, t@);
                out.push((ws, ts));
                pos = e;
                proof {
                    assert(out.deep_view() =~~= oldout + seq![pair]);
                    assert(oldout + (seq![pair] + spec_scan_refs(line@, pos as int)) =~~= (oldout
                        + seq![pair]) + spec_scan_refs(line@, pos as int));
                }
            },
            None => {
                pos += 1;
            },
        }
    }
    proof {
        assert(spec_scan_refs(line@, pos as int) =~= Seq::<(Seq<char>, Seq<char>)>::empty());
        assert(out.deep_view() =~= spec_scan_refs(line@, 0));
    }
    out
}

/// The cross-references of a text, line by line, with 1-based line numbers.
pub open spec fn spec_cross_refs(lines: Seq<Seq<char>>, i: int) -> Seq<
    crate::document::CrossRefView,
>
    decreases lines.len() - i,
{
    if i < 0 || i >= lines.len() {
        Seq::empty()
    } else {
        spec_scan_refs(lines[i], 0).map_values(
            |p: (Seq<char>, Seq<char>)|
                crate::document::CrossRefView {
                    ref_type: p.0,
                    target: p.1,
                    text: None,
                    line_number: i + 1,
                },
        ) + spec_cross_refs(lines, i + 1)
    }
}

impl Parser {
    /// Extract every cross-reference of the raw text.
    pub fn extract_cross_refs(&self, content: &str) -> (r: Vec<CrossReference>)
        ensures
            r.deep_view() == spec_cross_refs(spec_lines(content@), 0),
    {
        let cv = to_chars(content);
        let lines = split_lines(cv.as_slice());
        let ghost lv = lines.deep_view();
        let n = lines.len();
        let mut out: Vec<CrossReference> = Vec::new();
        let mut i: usize = 0;
        proof {
            assert(out.deep_view() + spec_cross_refs(lv, 0) =~~= spec_cross_refs(lv, 0));
        }
        while i < n
            invariant
                lv == lines.deep_view(),
                n == lines@.len(),
                lv.len() == n,
                i <= n,
                spec_cross_refs(lv, 0) == out.deep_view() + spec_cross_refs(lv, i as int),
            decreases n - i,
        {
            let ghost oldout = out.deep_view();
            proof {
                assert(lv[i as int] == lines@[i as int]@);
            }
            let pairs = scan_refs_line(lines[i].as_slice());
            let m = pairs.len();
            let ghost pv = spec_scan_refs(lv[i as int], 0);
            let ghost mapped = pv.map_values(
                |p: (Seq<char>, Seq<char>)|
                    crate::document::CrossRefView {
                        ref_type: p.0,
                        target: p.1,
                        text: None,
                        line_number: i as int + 1,
                    },
            );
            let mut k: usize = 0;
            proof {
                assert(pairs.deep_view() == pv);
                assert(pairs@.len() == pv.len());
                assert(out.deep_view() =~~= oldout + mapped.subrange(0, 0));
            }
            while k < m
                invariant
                    m == pairs@.len(),
                    pairs.deep_view() == pv,
                    pv.len() == m,
                    mapped == pv.map_values(
                        |p: (Seq<char>, Seq<char>)|
                            crate::document::CrossRefView {
                                ref_type: p.0,
                                target: p.1,
                                text: None,
                                line_number: i as int + 1,
                            },
                    ),
                    k <= m,
                    i < n,
                    out.deep_view() == oldout + mapped.subrange(0, k as int),
                decreases m - k,
            {
                let ghost before = out.deep_view();
                let rt = pairs[k].0.clone();
                let tg = pairs[k].1.clone();
                let cr = CrossReference { ref_type: rt, target: tg, text: None, line_number: i + 1 };
                proof {
                    assert(pairs.deep_view()[k as int] == pairs@[k as int].deep_view());
                    assert(cr@ == mapped[k as int]);
                }
                out.push(cr);
                k += 1;
                proof {
                    assert(out.deep_view() =~~= before.push(mapped[k - 1]));
                    assert(before.push(mapped[k - 1]) =~~= oldout + mapped.subrange(0, k as int));
                }
            }
            i += 1;
            proof {
                assert(mapped.subrange(0, m as int) =~= mapped);
                assert(out.deep_view() =~~= oldnodes_help(oldout, mapped));
                assert(oldnodes_help(oldout, mapped) + spec_cross_refs(lv, i as int)
                    =~~= oldout + spec_cross_refs(lv, i - 1));
            }
        }
        proof {
            assert(spec_cross_refs(lv, i as int) =~= Seq::<crate::document::CrossRefView>::empty());
            assert(out.deep_view() =~= spec_cross_refs(lv, 0));
        }
        out
    }
}

/// Concatenation helper for the cross-reference proof.
pub open spec fn oldnodes_help(
    a: Seq<crate::document::CrossRefView>,
    b: Seq<crate::document::CrossRefView>,
) -> Seq<crate::document::CrossRefView> {
    a + b
}

// ---------------------------------------------------------------------------
// Titles and tables of contents (executable), Markdown, and whole documents.
// ---------------------------------------------------------------------------

/// The title of an RST AST: the first Title node's text.
fn extract_title_rst(ast: &Vec<RstNode>) -> (r: String)
    ensures
        r@ == spec_extract_title(ast.deep_view()),
{
    let ghost nv = ast.deep_view();
    let n = ast.len();
    let mut i: usize = 0;
    proof {
        assert(nv.subrange(i as int, nv.len() as int) =~= nv);
    }
    while i < n
        invariant
            nv == ast.deep_view(),
            n == ast@.len(),
            nv.len() == n,
            i <= n,
            spec_extract_title(nv) == spec_extract_title(nv.subrange(i as int, nv.len() as int)),
        decreases n - i,
    {
        let ghost rest = nv.subrange(i as int, nv.len() as int);
        proof {
            assert(nv[i as int] == ast@[i as int]@);
            assert(rest[0] == nv[i as int]);
            assert(rest.drop_first() =~= nv.subrange(i + 1, nv.len() as int));
        }
        match &ast[i] {
            RstNode::Title { text, level, line } => {
                proof {
                    assert(rest[0] == NodeView::Title {
                        text: text@,
                        level: *level as int,
                        line: *line as int,
                    });
                }
                return text.clone();
            },
            _ => {
                proof {
                    assert(!(rest[0] is Title));
                }
            },
        }
        i += 1;
    }
    untitled()
}

/// The title of a Markdown AST: the first level-1 heading's text.
fn extract_title_md(ast: &Vec<MarkdownNode>) -> (r: String)
    ensures
        r@ == spec_extract_title_md(ast.deep_view()),
{
    let ghost nv = ast.deep_view();
    let n = ast.len();
    let mut i: usize = 0;
    proof {
        assert(nv.subrange(i as int, nv.len() as int) =~= nv);
    }
    while i < n
        invariant
            nv == ast.deep_view(),
            n == ast@.len(),
            nv.len() == n,
            i <= n,
            spec_extract_title_md(nv) == spec_extract_title_md(
                nv.subrange(i as int, nv.len() as int),
            ),
        decreases n - i,
    {
        let ghost rest = nv.subrange(i as int, nv.len() as int);
        proof {
            assert(nv[i as int] == ast@[i as int]@);
            assert(rest[0] == nv[i as int]);
            assert(rest.drop_first() =~= nv.subrange(i + 1, nv.len() as int));
        }
        match &ast[i] {
            MarkdownNode::Heading { text, level, line } => {
                proof {
                    assert(rest[0] == MdNodeView::Heading {
                        text: text@,
                        level: *level as int,
                        line: *line as int,
                    });
                }
                if *level == 1 {
                    return text.clone();
                }
            },
            _ => {
                proof {
                    assert(!(rest[0] is Heading));
                }
            },
        }
        i += 1;
    }
    untitled()
}

/// The table of contents of an RST AST.
fn extract_toc_rst(ast: &Vec<RstNode>) -> (r: Vec<TocEntry>)
    ensures
        r.deep_view() == spec_toc(ast.deep_view()),
{
    let mut out: Vec<TocEntry> = Vec::new();
    let ghost nv = ast.deep_view();
    let n = ast.len();
    let mut i: usize = 0;
    proof {
        assert(out.deep_view() =~~= spec_toc(nv.subrange(0, 0)));
    }
    while i < n
        invariant
            nv == ast.deep_view(),
            n == ast@.len(),
            nv.len() == n,
            i <= n,
            out.deep_view() == spec_toc(nv.subrange(0, i as int)),
        decreases n - i,
    {
        let ghost before = out.deep_view();
        proof {
            assert(nv[i as int] == ast@[i as int]@);
            assert(nv.subrange(0, i + 1).drop_last() =~= nv.subrange(0, i as int));
            assert(nv.subrange(0, i + 1)[i as int] == nv[i as int]);
        }
        match &ast[i] {
            RstNode::Title { text, level, line } => {
                proof {
                    assert(nv[i as int] == NodeView::Title {
                        text: text@,
                        level: *level as int,
                        line: *line as int,
                    });
                }
                let lowered = lowercase_str(text.as_str());
                let lc = to_chars(lowered.as_str());
                let anch = replace_char(lc.as_slice(), ' ', '-');
                let entry = TocEntry::new(text.clone(), *level, from_chars(anch.as_slice()), *line);
                proof {
                    assert(entry@ == spec_toc(nv.subrange(0, i + 1)).last());
                }
                out.push(entry);
                proof {
                    assert(out.deep_view() =~~= spec_toc(nv.subrange(0, i + 1)));
                }
            },
            _ => {
                proof {
                    assert(!(nv[i as int] is Title));
                    assert(before + Seq::<crate::document::TocView>::empty() =~= before);
                }
            },
        }
        i += 1;
    }
    proof {
        assert(nv.subrange(0, n as int) =~= nv);
    }
    out
}

/// The table of contents of a Markdown AST.
fn extract_toc_md(ast: &Vec<MarkdownNode>) -> (r: Vec<TocEntry>)
    ensures
        r.deep_view() == spec_toc_md(ast.deep_view()),
{
    let mut out: Vec<TocEntry> = Vec::new();
    let ghost nv = ast.deep_view();
    let n = ast.len();
    let mut i: usize = 0;
    proof {
        assert(out.deep_view() =~~= spec_toc_md(nv.subrange(0, 0)));
    }
    while i < n
        invariant
            nv == ast.deep_view(),
            n == ast@.len(),
            nv.len() == n,
            i <= n,
            out.deep_view() == spec_toc_md(nv.subrange(0, i as int)),
        decreases n - i,
    {
        let ghost before = out.deep_view();
        proof {
            assert(nv[i as int] == ast@[i as int]@);
            assert(nv.subrange(0, i + 1).drop_last() =~= nv.subrange(0, i as int));
            assert(nv.subrange(0, i + 1)[i as int] == nv[i as int]);
        }
        match &ast[i] {
            MarkdownNode::Heading { text, level, line } => {
                proof {
                    assert(nv[i as int] == MdNodeView::Heading {
                        text: text@,
                        level: *level as int,
                        line: *line as int,
                    });
                }
                let lowered = lowercase_str(text.as_str());
                let lc = to_chars(lowered.as_str());
                let anch = replace_char(lc.as_slice(), ' ', '-');
                let entry = TocEntry::new(text.clone(), *level, from_chars(anch.as_slice()), *line);
                proof {
                    assert(entry@ == spec_toc_md(nv.subrange(0, i + 1)).last());
                }
                out.push(entry);
                proof {
                    assert(out.deep_view() =~~= spec_toc_md(nv.subrange(0, i + 1)));
                }
            },
            _ => {
                proof {
                    assert(!(nv[i as int] is Heading));
                    assert(before + Seq::<crate::document::TocView>::empty() =~= before);
                }
            },
        }
        i += 1;
    }
    proof {
        assert(nv.subrange(0, n as int) =~= nv);
    }
    out
}

impl Parser {
    /// The document title of parsed content.
    pub fn extract_title(&self, content: &DocumentContent) -> (r: String)
        ensures
            r@ == match content {
                DocumentContent::RestructuredText(rc) => spec_extract_title(rc.ast.deep_view()),
                DocumentContent::Markdown(mc) => spec_extract_title_md(mc.ast.deep_view()),
                DocumentContent::PlainText(_) => seq!['U', 'n', 't', 'i', 't', 'l', 'e', 'd'],
            },
    {
        match content {
            DocumentContent::RestructuredText(rc) => extract_title_rst(&rc.ast),
            DocumentContent::Markdown(mc) => extract_title_md(&mc.ast),
            DocumentContent::PlainText(_) => untitled(),
        }
    }

    /// The table of contents of parsed content: one entry per title.
    pub fn extract_toc(&self, content: &DocumentContent) -> (r: Vec<TocEntry>)
        ensures
            r.deep_view() == match content {
                DocumentContent::RestructuredText(rc) => spec_toc(rc.ast.deep_view()),
                DocumentContent::Markdown(mc) => spec_toc_md(mc.ast.deep_view()),
                DocumentContent::PlainText(_) => Seq::<crate::document::TocView>::empty(),
            },
    {
        match content {
            DocumentContent::RestructuredText(rc) => extract_toc_rst(&rc.ast),
            DocumentContent::Markdown(mc) => extract_toc_md(&mc.ast),
            DocumentContent::PlainText(_) => {
                let out: Vec<TocEntry> = Vec::new();
                proof {
                    assert(out.deep_view() =~~= Seq::<crate::document::TocView>::empty());
                }
                out
            },
        }
    }
}

/// The fallback document title.
fn untitled() -> (r: String)
    ensures
        r@ == seq!['U', 'n', 't', 'i', 't', 'l', 'e', 'd'],
{
    proof {
        reveal_strlit("Untitled");
        assert("Untitled"@ =~= seq!['U', 'n', 't', 'i', 't', 'l', 'e', 'd']);
    }
    String::from_str("Untitled")
}

// ---------------------------------------------------------------------------
// The Markdown path: minimal, paragraph-level only.
// ---------------------------------------------------------------------------

/// The text events that the Markdown event stream yields for a given input,
/// with a None entry for every other event.
pub uninterp spec fn md_event_texts(s: Seq<char>) -> Seq<Option<Seq<char>>>;

/// Relies on pulldown_cmark::Parser: the event stream is a function of the
/// input text alone.  Each text event's content is kept; every other event
/// becomes a None entry, so the verified caller does the selection.
#[verifier::external_body]
fn markdown_event_texts(content: &str) -> (r: Vec<Option<String>>)
    ensures
        r.deep_view() == md_event_texts(content@),
{
    let mut v: Vec<Option<String>> = Vec::new();
    for ev in pulldown_cmark::Parser::new(content) {
        v.push(match ev {
            pulldown_cmark::Event::Text(t) => Some(t.into_string()),
            _ => None,
        });
    }
    v
}

/// One paragraph node per Markdown text event.
pub open spec fn spec_md_nodes(evs: Seq<Option<Seq<char>>>) -> Seq<MdNodeView>
    decreases evs.len(),
{
    if evs.len() == 0 {
        Seq::empty()
    } else {
        spec_md_nodes(evs.drop_last()) + match evs[evs.len() - 1] {
            Some(t) => seq![MdNodeView::Paragraph { content: t, line: 1 }],
            None => Seq::empty(),
        }
    }
}

impl Parser {
    /// Scan Markdown text: the text events of the standard event stream
    /// become paragraph nodes; other structure is not captured.
    pub fn parse_markdown(&self, content: &str) -> (r: MarkdownContent)
        ensures
            r.raw@ == content@,
            r.ast.deep_view() == spec_md_nodes(md_event_texts(content@)),
            r.front_matter is None,
    {
        let evs = markdown_event_texts(content);
        let ghost ev = evs.deep_view();
        let n = evs.len();
        let mut nodes: Vec<MarkdownNode> = Vec::new();
        let mut i: usize = 0;
        proof {
            assert(ev.len() == n);
            assert(nodes.deep_view() =~~= spec_md_nodes(ev.subrange(0, 0)));
        }
        while i < n
            invariant
                ev == evs.deep_view(),
                n == evs@.len(),
                ev.len() == n,
                i <= n,
                nodes.deep_view() == spec_md_nodes(ev.subrange(0, i as int)),
            decreases n - i,
        {
            let ghost before = nodes.deep_view();
            proof {
                assert(ev[i as int] == evs@[i as int].deep_view());
                assert(ev.subrange(0, i + 1).drop_last() =~= ev.subrange(0, i as int));
                assert(ev.subrange(0, i + 1)[i as int] == ev[i as int]);
            }
            match &evs[i] {
                Some(t) => {
                    let nd = MarkdownNode::Paragraph { content: t.clone(), line: 1 };
                    proof {
                        assert(nd@ == spec_md_nodes(ev.subrange(0, i + 1)).last());
                    }
                    nodes.push(nd);
                    proof {
                        assert(nodes.deep_view() =~~= spec_md_nodes(ev.subrange(0, i + 1)));
                    }
                },
                None => {
                    proof {
                        assert(before + Seq::<MdNodeView>::empty() =~= before);
                    }
                },
            }
            i += 1;
        }
        proof {
            assert(ev.subrange(0, n as int) =~= ev);
        }
        let raw = String::from_str(content);
        MarkdownContent { raw, ast: nodes, front_matter: None }
    }
}

// ---------------------------------------------------------------------------
// Paths: extension detection and the output path.
// ---------------------------------------------------------------------------

/// Index of the last occurrence of `c` in `s`, or -1.
pub open spec fn spec_rfind(s: Seq<char>, c: char) -> int
    decreases s.len(),
{
    if s.len() == 0 {
        -1
    } else if s[s.len() - 1] == c {
        s.len() - 1
    } else {
        spec_rfind(s.drop_last(), c)
    }
}

pub proof fn lemma_rfind_at(s: Seq<char>, c: char, i: int)
    requires
        0 <= i < s.len(),
        s[i] == c,
        forall|j: int| i < j < s.len() ==> s[j] != c,
    ensures
        spec_rfind(s, c) == i,
    decreases s.len(),
{
    if i < s.len() - 1 {
        assert(s.drop_last()[i] == s[i]);
        lemma_rfind_at(s.drop_last(), c, i);
    }
}

pub proof fn lemma_rfind_none(s: Seq<char>, c: char)
    requires
        forall|j: int| 0 <= j < s.len() ==> s[j] != c,
    ensures
        spec_rfind(s, c) == -1,
    decreases s.len(),
{
    if s.len() > 0 {
        lemma_rfind_none(s.drop_last(), c);
    }
}

/// The extension of the file named by `p`: the part of its final component
/// after the last dot, none when there is no dot or only a leading one.
pub open spec fn spec_ext_of(p: Seq<char>) -> Option<Seq<char>> {
    let fs = spec_rfind(p, '/') + 1;
    let f = p.subrange(fs, p.len() as int);
    let d = spec_rfind(f, '.');
    if d <= 0 {
        None
    } else {
        Some(f.subrange(d + 1, f.len() as int))
    }
}

/// The output path: the source path with its extension replaced by `html`,
/// or with `.html` appended when it has none.
pub open spec fn spec_output_path(p: Seq<char>) -> Seq<char> {
    let fs = spec_rfind(p, '/') + 1;
    let f = p.subrange(fs, p.len() as int);
    let d = spec_rfind(f, '.');
    if d <= 0 {
        p + seq!['.', 'h', 't', 'm', 'l']
    } else {
        p.subrange(0, fs + d + 1) + seq!['h', 't', 'm', 'l']
    }
}

pub proof fn lemma_rfind_bounds_pub(s: Seq<char>, c: char)
    ensures
        -1 <= spec_rfind(s, c) < s.len(),
        spec_rfind(s, c) >= 0 ==> s[spec_rfind(s, c)] == c && forall|j: int|
            spec_rfind(s, c) < j < s.len() ==> s[j] != c,
        spec_rfind(s, c) < 0 ==> forall|j: int| 0 <= j < s.len() ==> s[j] != c,
    decreases s.len(),
{
    if s.len() > 0 && s[s.len() - 1] != c {
        lemma_rfind_bounds_pub(s.drop_last(), c);
        let r = spec_rfind(s.drop_last(), c);
        if r >= 0 {
            assert(s.drop_last()[r] == s[r]);
            assert forall|j: int| r < j < s.len() implies s[j] != c by {
                if j < s.len() - 1 {
                    assert(s.drop_last()[j] == s[j]);
                }
            }
        } else {
            assert forall|j: int| 0 <= j < s.len() implies s[j] != c by {
                if j < s.len() - 1 {
                    assert(s.drop_last()[j] == s[j]);
                }
            }
        }
    }
}

/// The start of the final path component: one past the last slash.
fn file_start(v: &[char]) -> (fs: usize)
    ensures
        fs as int == spec_rfind(v@, '/') + 1,
        fs <= v@.len(),
{
    let n = v.len();
    match crate::text::rfind_char(v, '/') {
        Some(i) => {
            proof {
                lemma_rfind_at(v@, '/', i as int);
            }
            i + 1
        },
        None => {
            proof {
                lemma_rfind_none(v@, '/');
            }
            0
        },
    }
}

/// The file extension of a path, as characters.
pub fn ext_of_pub(v: &[char]) -> (r: Option<Vec<char>>)
    ensures
        match r {
            Some(e) => spec_ext_of(v@) == Some(e@),
            None => spec_ext_of(v@) is None,
        },
{
    let n = v.len();
    let fs = file_start(v);
    let f = slice_range(v, fs, n);
    proof {
        assert(f@ =~= v@.subrange(spec_rfind(v@, '/') + 1, v@.len() as int));
    }
    match crate::text::rfind_char(f.as_slice(), '.') {
        None => {
            proof {
                lemma_rfind_none(f@, '.');
            }
            None
        },
        Some(d) => {
            proof {
                lemma_rfind_at(f@, '.', d as int);
            }
            if d == 0 {
                None
            } else {
                let e = slice_range(f.as_slice(), d + 1, f.len());
                Some(e)
            }
        },
    }
}

/// The output path for a source path.
fn output_path_chars(v: &[char]) -> (r: Vec<char>)
    ensures
        r@ == spec_output_path(v@),
{
    let n = v.len();
    let fs = file_start(v);
    let f = slice_range(v, fs, n);
    proof {
        assert(f@ =~= v@.subrange(spec_rfind(v@, '/') + 1, v@.len() as int));
    }
    let dot: Option<usize> = match crate::text::rfind_char(f.as_slice(), '.') {
        None => {
            proof {
                lemma_rfind_none(f@, '.');
            }
            None
        },
        Some(d) => {
            proof {
                lemma_rfind_at(f@, '.', d as int);
            }
            if d == 0 {
                None
            } else {
                Some(d)
            }
        },
    };
    match dot {
        None => {
            let mut out = slice_range(v, 0, n);
            out.push('.');
            out.push('h');
            out.push('t');
            out.push('m');
            out.push('l');
            proof {
                assert(v@.subrange(0, n as int) =~= v@);
                assert(out@ =~= v@ + seq!['.', 'h', 't', 'm', 'l']);
            }
            out
        },
        Some(d) => {
            let cut: usize = fs + d + 1;
            let mut out = slice_range(v, 0, cut);
            out.push('h');
            out.push('t');
            out.push('m');
            out.push('l');
            proof {
                assert(out@ =~= v@.subrange(0, cut as int) + seq!['h', 't', 'm', 'l']);
            }
            out
        },
    }
}

impl Parser {
    /// Parse a document: the extension picks the format, the first title
    /// names the document, and the output path carries the `html` extension.
    pub fn parse(&self, file_path: &str, content: &str) -> (doc: Document)
        ensures
            doc.source_path@ == file_path@,
            doc.output_path@ == spec_output_path(file_path@),
            doc.cross_refs.deep_view() == spec_cross_refs(spec_lines(content@), 0),
            spec_ext_of(file_path@) == Some(seq!['r', 's', 't']) ==> match doc.content {
                DocumentContent::RestructuredText(rc) => rc.raw@ == content@
                    && rc.ast.deep_view() == spec_parse_rst(spec_lines(content@), 0)
                    && rc.directives.deep_view() == spec_dirs_of(rc.ast.deep_view()) && doc.title@
                    == spec_extract_title(rc.ast.deep_view()) && doc.toc.deep_view() == spec_toc(
                    rc.ast.deep_view(),
                ) && forall|k: int|
                    0 <= k < rc.ast@.len() ==> crate::document::node_wf(#[trigger] rc.ast@[k]),
                _ => false,
            },
            spec_ext_of(file_path@) == Some(seq!['m', 'd']) ==> match doc.content {
                DocumentContent::Markdown(mc) => mc.raw@ == content@ && mc.ast.deep_view()
                    == spec_md_nodes(md_event_texts(content@)) && doc.title@
                    == spec_extract_title_md(mc.ast.deep_view()) && doc.toc.deep_view()
                    == spec_toc_md(mc.ast.deep_view()),
                _ => false,
            },
            (spec_ext_of(file_path@) != Some(seq!['r', 's', 't']) && spec_ext_of(file_path@)
                != Some(seq!['m', 'd'])) ==> match doc.content {
                DocumentContent::PlainText(t) => t@ == content@ && doc.title@ == seq![
                    'U',
                    'n',
                    't',
                    'i',
                    't',
                    'l',
                    'e',
                    'd',
                ] && doc.toc.deep_view() == Seq::<crate::document::TocView>::empty(),
                _ => false,
            },
    {
        let pv = to_chars(file_path);
        let out_path = output_path_chars(pv.as_slice());
        let source_path = String::from_str(file_path);
        let output_path = from_chars(out_path.as_slice());
        let ext = ext_of_pub(pv.as_slice());
        let is_rst: bool = match &ext {
            Some(e) => e.len() == 3 && e[0] == 'r' && e[1] == 's' && e[2] == 't',
            None => false,
        };
        let is_md: bool = match &ext {
            Some(e) => e.len() == 2 && e[0] == 'm' && e[1] == 'd',
            None => false,
        };
        proof {
            match ext {
                Some(e) => {
                    if is_rst {
                        assert(e@ =~= seq!['r', 's', 't']);
                    } else {
                        assert(e@ != seq!['r', 's', 't']) by {
                            if e@ == seq!['r', 's', 't'] {
                                assert(e@.len() == 3 && e@[0] == 'r' && e@[1] == 's' && e@[2]
                                    == 't');
                            }
                        }
                    }
                    if is_md {
                        assert(e@ =~= seq!['m', 'd']);
                    } else {
                        assert(e@ != seq!['m', 'd']) by {
                            if e@ == seq!['m', 'd'] {
                                assert(e@.len() == 2 && e@[0] == 'm' && e@[1] == 'd');
                            }
                        }
                    }
                },
                None => {},
            }
        }
        let doc_content: DocumentContent = if is_rst {
            DocumentContent::RestructuredText(self.parse_rst(content))
        } else if is_md {
            DocumentContent::Markdown(self.parse_markdown(content))
        } else {
            DocumentContent::PlainText(String::from_str(content))
        };
        let title = self.extract_title(&doc_content);
        let toc = self.extract_toc(&doc_content);
        let cross_refs = self.extract_cross_refs(content);
        Document { source_path, output_path, title, content: doc_content, toc, cross_refs }
    }
}

} // verus!
