//! The inline markup engine: roles, references, bare-word references,
//! HTML escaping, code spans, bold and italic, applied in this order.
//! Text produced by an earlier pass is held apart from later passes, so
//! resolved markup is never reprocessed.

use vstd::prelude::*;

use crate::parser::{lemma_rfind_at, lemma_rfind_none, spec_rfind};
use crate::text::{
    append_chars, append_str, char_alphanumeric, char_whitespace, chars_eq_str, escape_html,
    from_chars, join_chars, lower_of, lowercase_str, slice_range, spec_escape_char,
    spec_escape_html, spec_find_char, spec_join, spec_split_char, spec_trim, split_char, to_chars,
    trim_chars,
};

verus! {

// ---------------------------------------------------------------------------
// Counting helpers.
// ---------------------------------------------------------------------------

/// The number of leading characters of `s` that differ from `c`.
pub open spec fn spec_count_not(s: Seq<char>, c: char) -> int
    decreases s.len(),
{
    if s.len() > 0 && s[0] != c {
        1 + spec_count_not(s.drop_first(), c)
    } else {
        0
    }
}

pub proof fn lemma_count_not_bounds(s: Seq<char>, c: char)
    ensures
        0 <= spec_count_not(s, c) <= s.len(),
    decreases s.len(),
{
    if s.len() > 0 && s[0] != c {
        lemma_count_not_bounds(s.drop_first(), c);
    }
}

/// Count the characters of `v` from `i` on that differ from `c`.
pub fn count_not_from(v: &[char], c: char, i: usize) -> (r: usize)
    requires
        i <= v@.len(),
    ensures
        r == spec_count_not(v@.subrange(i as int, v@.len() as int), c),
        i + r <= v@.len(),
    decreases v@.len() - i,
{
    let ghost s = v@.subrange(i as int, v@.len() as int);
    if i < v.len() && v[i] != c {
        proof {
            assert(s[0] == v@[i as int]);
            assert(s.drop_first() =~= v@.subrange(i + 1, v@.len() as int));
        }
        let rest = count_not_from(v, c, i + 1);
        1 + rest
    } else {
        proof {
            if i < v.len() {
                assert(s[0] == v@[i as int]);
            }
        }
        0
    }
}

/// Whether `c` is an ASCII letter.
pub open spec fn spec_ascii_alpha(c: char) -> bool {
    ('a' <= c && c <= 'z') || ('A' <= c && c <= 'Z')
}

/// Whether `c` is an ASCII letter or digit.
pub open spec fn spec_ascii_alnum(c: char) -> bool {
    spec_ascii_alpha(c) || ('0' <= c && c <= '9')
}

/// Whether `c` may appear in a role name: ASCII alphanumeric, `_`, `:`
/// or `-`.
pub open spec fn spec_role_char(c: char) -> bool {
    spec_ascii_alnum(c) || c == '_' || c == ':' || c == '-'
}

/// Whether `c` may appear inside a bare-word reference: ASCII alphanumeric,
/// `_` or `.`.
pub open spec fn spec_bare_char(c: char) -> bool {
    spec_ascii_alnum(c) || c == '_' || c == '.'
}

/// Whether `c` counts as a word character for boundary checks.
pub open spec fn spec_word_char(c: char) -> bool {
    char_alphanumeric(c) || c == '_'
}

/// The number of leading role-name characters of `s`.
pub open spec fn spec_count_role(s: Seq<char>) -> int
    decreases s.len(),
{
    if s.len() > 0 && spec_role_char(s[0]) {
        1 + spec_count_role(s.drop_first())
    } else {
        0
    }
}

pub proof fn lemma_count_role_bounds(s: Seq<char>)
    ensures
        0 <= spec_count_role(s) <= s.len(),
    decreases s.len(),
{
    if s.len() > 0 && spec_role_char(s[0]) {
        lemma_count_role_bounds(s.drop_first());
    }
}

/// Count the role-name characters of `v` from `i` on.
fn count_role_from(v: &[char], i: usize) -> (r: usize)
    requires
        i <= v@.len(),
    ensures
        r == spec_count_role(v@.subrange(i as int, v@.len() as int)),
        i + r <= v@.len(),
    decreases v@.len() - i,
{
    let ghost s = v@.subrange(i as int, v@.len() as int);
    if i < v.len() && {
        let c = v[i];
        (c >= 'a' && c <= 'z') || (c >= 'A' && c <= 'Z') || (c >= '0' && c <= '9') || c == '_' || c
            == ':' || c == '-'
    } {
        proof {
            assert(s[0] == v@[i as int]);
            assert(s.drop_first() =~= v@.subrange(i + 1, v@.len() as int));
        }
        let rest = count_role_from(v, i + 1);
        1 + rest
    } else {
        proof {
            if i < v.len() {
                assert(s[0] == v@[i as int]);
            }
        }
        0
    }
}

/// The number of leading bare-word characters of `s`.
pub open spec fn spec_count_bare(s: Seq<char>) -> int
    decreases s.len(),
{
    if s.len() > 0 && spec_bare_char(s[0]) {
        1 + spec_count_bare(s.drop_first())
    } else {
        0
    }
}

pub proof fn lemma_count_bare_bounds(s: Seq<char>)
    ensures
        0 <= spec_count_bare(s) <= s.len(),
    decreases s.len(),
{
    if s.len() > 0 && spec_bare_char(s[0]) {
        lemma_count_bare_bounds(s.drop_first());
    }
}

/// Count the bare-word characters of `v` from `i` on.
fn count_bare_from(v: &[char], i: usize) -> (r: usize)
    requires
        i <= v@.len(),
    ensures
        r == spec_count_bare(v@.subrange(i as int, v@.len() as int)),
        i + r <= v@.len(),
    decreases v@.len() - i,
{
    let ghost s = v@.subrange(i as int, v@.len() as int);
    if i < v.len() && {
        let c = v[i];
        (c >= 'a' && c <= 'z') || (c >= 'A' && c <= 'Z') || (c >= '0' && c <= '9') || c == '_' || c
            == '.'
    } {
        proof {
            assert(s[0] == v@[i as int]);
            assert(s.drop_first() =~= v@.subrange(i + 1, v@.len() as int));
        }
        let rest = count_bare_from(v, i + 1);
        1 + rest
    } else {
        proof {
            if i < v.len() {
                assert(s[0] == v@[i as int]);
            }
        }
        0
    }
}

// ---------------------------------------------------------------------------
// Slugs.
// ---------------------------------------------------------------------------

/// Each character of a lower-cased text mapped for the slug: alphanumerics
/// stay, whitespace and `-`, `_`, `.` become hyphens, anything else drops.
pub open spec fn spec_slug_map(s: Seq<char>) -> Seq<char>
    decreases s.len(),
{
    if s.len() == 0 {
        Seq::empty()
    } else {
        spec_slug_map(s.drop_last()) + {
            let c = s[s.len() - 1];
            if char_alphanumeric(c) {
                seq![c]
            } else if char_whitespace(c) || c == '-' || c == '_' || c == '.' {
                seq!['-']
            } else {
                Seq::<char>::empty()
            }
        }
    }
}

/// The non-empty segments of a list.
pub open spec fn spec_filter_nonempty(ps: Seq<Seq<char>>) -> Seq<Seq<char>>
    decreases ps.len(),
{
    if ps.len() == 0 {
        Seq::empty()
    } else {
        spec_filter_nonempty(ps.drop_last()) + if ps[ps.len() - 1].len() > 0 {
            seq![ps[ps.len() - 1]]
        } else {
            Seq::<Seq<char>>::empty()
        }
    }
}

/// The slug of a text: lower-cased, separators turned into hyphens, other
/// punctuation dropped, repeated hyphens collapsed and trimmed.
pub open spec fn spec_slugify(s: Seq<char>) -> Seq<char> {
    spec_join(
        spec_filter_nonempty(spec_split_char(spec_slug_map(lower_of(s)), '-')),
        seq!['-'],
    )
}

/// Compute the slug of a text given as characters.
pub fn slugify_chars(v: &[char]) -> (r: Vec<char>)
    ensures
        r@ == spec_slugify(v@),
{
    let lowered = lowercase_str(from_chars(v).as_str());
    let lc = to_chars(lowered.as_str());
    let n = lc.len();
    let mut mapped: Vec<char> = Vec::new();
    let mut i: usize = 0;
    proof {
        assert(mapped@ =~= spec_slug_map(lc@.subrange(0, 0)));
    }
    while i < n
        invariant
            n == lc@.len(),
            i <= n,
            mapped@ == spec_slug_map(lc@.subrange(0, i as int)),
        decreases n - i,
    {
        proof {
            assert(lc@.subrange(0, i + 1).drop_last() =~= lc@.subrange(0, i as int));
            assert(lc@.subrange(0, i + 1)[i as int] == lc@[i as int]);
        }
        let c = lc[i];
        if crate::text::is_alphanumeric_char(c) {
            mapped.push(c);
            proof {
                assert(mapped@ =~= spec_slug_map(lc@.subrange(0, i + 1)));
            }
        } else if crate::text::is_whitespace_char(c) || c == '-' || c == '_' || c == '.' {
            mapped.push('-');
            proof {
                assert(mapped@ =~= spec_slug_map(lc@.subrange(0, i + 1)));
            }
        } else {
            proof {
                assert(mapped@ =~= spec_slug_map(lc@.subrange(0, i + 1)));
            }
        }
        i += 1;
    }
    proof {
        assert(lc@.subrange(0, n as int) =~= lc@);
    }
    let parts = split_char(mapped.as_slice(), '-');
    let m = parts.len();
    let mut kept: Vec<Vec<char>> = Vec::new();
    let ghost pv = parts.deep_view();
    let mut k: usize = 0;
    proof {
        assert(kept.deep_view() =~~= spec_filter_nonempty(pv.subrange(0, 0)));
    }
    while k < m
        invariant
            m == parts@.len(),
            pv == parts.deep_view(),
            pv.len() == m,
            k <= m,
            kept.deep_view() == spec_filter_nonempty(pv.subrange(0, k as int)),
        decreases m - k,
    {
        proof {
            assert(pv.subrange(0, k + 1).drop_last() =~= pv.subrange(0, k as int));
            assert(pv.subrange(0, k + 1)[k as int] == pv[k as int]);
            assert(pv[k as int] == parts@[k as int]@);
        }
        if parts[k].len() > 0 {
            let piece = slice_range(parts[k].as_slice(), 0, parts[k].len());
            proof {
                assert(piece@ =~= pv[k as int]);
            }
            kept.push(piece);
            proof {
                assert(kept.deep_view() =~~= spec_filter_nonempty(pv.subrange(0, k + 1)));
            }
        } else {
            proof {
                assert(kept.deep_view() =~~= spec_filter_nonempty(pv.subrange(0, k + 1)));
            }
        }
        k += 1;
    }
    proof {
        assert(pv.subrange(0, m as int) =~= pv);
    }
    let mut hyphen: Vec<char> = Vec::new();
    hyphen.push('-');
    proof {
        assert(hyphen@ =~= seq!['-']);
    }
    join_chars(&kept, hyphen.as_slice())
}

// ---------------------------------------------------------------------------
// Stage 8: italic.
// ---------------------------------------------------------------------------

/// A one-character-delimited span at `pos`: the delimiter, one or more other
/// characters, the delimiter.  Yields the content bounds.
pub open spec fn spec_span1_at(s: Seq<char>, pos: int, d: char) -> Option<(int, int)> {
    if pos < 0 || pos >= s.len() || s[pos] != d {
        None
    } else {
        let m = spec_count_not(s.subrange(pos + 1, s.len() as int), d);
        if m < 1 || pos + 1 + m >= s.len() {
            None
        } else {
            Some((pos + 1, pos + 1 + m))
        }
    }
}

/// The first one-character span at or after `pos`.
pub open spec fn spec_find_span1(s: Seq<char>, pos: int, d: char) -> Option<(int, int, int)>
    decreases s.len() - pos,
{
    if pos < 0 || pos >= s.len() {
        None
    } else {
        match spec_span1_at(s, pos, d) {
            Some((a, b)) => Some((pos, a, b)),
            None => spec_find_span1(s, pos + 1, d),
        }
    }
}

pub proof fn lemma_find_span1_bounds(s: Seq<char>, pos: int, d: char)
    requires
        0 <= pos,
    ensures
        match spec_find_span1(s, pos, d) {
            Some((st, a, b)) => pos <= st && st + 1 == a && a <= b && b + 1 <= s.len(),
            None => true,
        },
    decreases s.len() - pos,
{
    if pos < s.len() {
        if spec_span1_at(s, pos, d) is Some {
            lemma_count_not_bounds(s.subrange(pos + 1, s.len() as int), d);
        } else {
            lemma_find_span1_bounds(s, pos + 1, d);
        }
    }
}

/// Find the first one-character span of `v`.
pub fn find_span1_pub(v: &[char], d: char) -> (r: Option<(usize, usize, usize)>)
    ensures
        match r {
            Some((st, a, b)) => spec_find_span1(v@, 0, d) == Some((st as int, a as int, b as int))
                && st < a && a <= b && b < v@.len(),
            None => spec_find_span1(v@, 0, d) is None,
        },
{
    let n = v.len();
    let mut pos: usize = 0;
    while pos < n
        invariant
            n == v@.len(),
            pos <= n,
            spec_find_span1(v@, 0, d) == spec_find_span1(v@, pos as int, d),
        decreases n - pos,
    {
        if v[pos] == d {
            let m = count_not_from(v, d, pos + 1);
            if m >= 1 && pos + 1 + m < n {
                return Some((pos, pos + 1, pos + 1 + m));
            }
        }
        pos += 1;
    }
    None
}

/// Italic: each `*text*` becomes `<em>text</em>`.
pub open spec fn spec_stage_italic(s: Seq<char>) -> Seq<char>
    decreases s.len(),
    via spec_stage_italic_decreases
{
    match spec_find_span1(s, 0, '*') {
        None => s,
        Some((st, a, b)) => s.subrange(0, st) + "<em>"@ + s.subrange(a, b) + "</em>"@
            + spec_stage_italic(s.subrange(b + 1, s.len() as int)),
    }
}

#[via_fn]
proof fn spec_stage_italic_decreases(s: Seq<char>) {
    lemma_find_span1_bounds(s, 0, '*');
}

/// Render the italic pass.
pub fn stage_italic(v: &[char]) -> (r: Vec<char>)
    ensures
        r@ == spec_stage_italic(v@),
    decreases v@.len(),
{
    let n = v.len();
    match find_span1_pub(v, '*') {
        None => slice_range(v, 0, n),
        Some((st, a, b)) => {
            proof {
                assert(v@.subrange(0, v@.len() as int) =~= v@);
            }
            let mut out = slice_range(v, 0, st);
            append_str(&mut out, "<em>");
            append_chars(&mut out, slice_range(v, a, b).as_slice());
            append_str(&mut out, "</em>");
            let rest = slice_range(v, b + 1, n);
            let rendered = stage_italic(rest.as_slice());
            append_chars(&mut out, rendered.as_slice());
            proof {
                assert(out@ =~= spec_stage_italic(v@));
            }
            out
        },
    }
}

// ---------------------------------------------------------------------------
// Stage 7: bold.
// ---------------------------------------------------------------------------

/// A two-character-delimited span at `pos`: the doubled delimiter, one or
/// more other characters, the doubled delimiter.  Yields the content bounds.
pub open spec fn spec_span2_at(s: Seq<char>, pos: int, d: char) -> Option<(int, int)> {
    if pos < 0 || pos + 1 >= s.len() || s[pos] != d || s[pos + 1] != d {
        None
    } else {
        let m = spec_count_not(s.subrange(pos + 2, s.len() as int), d);
        if m < 1 || pos + 3 + m >= s.len() || s[pos + 2 + m] != d || s[pos + 3 + m] != d {
            None
        } else {
            Some((pos + 2, pos + 2 + m))
        }
    }
}

/// The first two-character span at or after `pos`.
pub open spec fn spec_find_span2(s: Seq<char>, pos: int, d: char) -> Option<(int, int, int)>
    decreases s.len() - pos,
{
    if pos < 0 || pos >= s.len() {
        None
    } else {
        match spec_span2_at(s, pos, d) {
            Some((a, b)) => Some((pos, a, b)),
            None => spec_find_span2(s, pos + 1, d),
        }
    }
}

pub proof fn lemma_find_span2_bounds(s: Seq<char>, pos: int, d: char)
    requires
        0 <= pos,
    ensures
        match spec_find_span2(s, pos, d) {
            Some((st, a, b)) => pos <= st && st + 2 == a && a <= b && b + 2 <= s.len(),
            None => true,
        },
    decreases s.len() - pos,
{
    if pos < s.len() {
        if spec_span2_at(s, pos, d) is Some {
            lemma_count_not_bounds(s.subrange(pos + 2, s.len() as int), d);
        } else {
            lemma_find_span2_bounds(s, pos + 1, d);
        }
    }
}

/// Find the first two-character span of `v`.
pub fn find_span2_pub(v: &[char], d: char) -> (r: Option<(usize, usize, usize)>)
    ensures
        match r {
            Some((st, a, b)) => spec_find_span2(v@, 0, d) == Some((st as int, a as int, b as int))
                && st + 2 == a && a <= b && b + 2 <= v@.len(),
            None => spec_find_span2(v@, 0, d) is None,
        },
{
    let n = v.len();
    let mut pos: usize = 0;
    while pos < n
        invariant
            n == v@.len(),
            pos <= n,
            spec_find_span2(v@, 0, d) == spec_find_span2(v@, pos as int, d),
        decreases n - pos,
    {
        if pos + 1 < n && v[pos] == d && v[pos + 1] == d {
            let m = count_not_from(v, d, pos + 2);
            if m >= 1 && n - (pos + 2 + m) >= 2 && v[pos + 2 + m] == d && v[pos + 3 + m] == d {
                return Some((pos, pos + 2, pos + 2 + m));
            }
        }
        pos += 1;
    }
    None
}

/// Bold: each `**text**` becomes `<strong>text</strong>`; the text inside
/// and the text between matches still go through the italic pass.
pub open spec fn spec_stage_bold(s: Seq<char>) -> Seq<char>
    decreases s.len(),
    via spec_stage_bold_decreases
{
    match spec_find_span2(s, 0, '*') {
        None => spec_stage_italic(s),
        Some((st, a, b)) => spec_stage_italic(s.subrange(0, st)) + "<strong>"@
            + spec_stage_italic(s.subrange(a, b)) + "</strong>"@ + spec_stage_bold(
            s.subrange(b + 2, s.len() as int),
        ),
    }
}

#[via_fn]
proof fn spec_stage_bold_decreases(s: Seq<char>) {
    lemma_find_span2_bounds(s, 0, '*');
}

/// Render the bold pass (and below).
pub fn stage_bold(v: &[char]) -> (r: Vec<char>)
    ensures
        r@ == spec_stage_bold(v@),
    decreases v@.len(),
{
    let n = v.len();
    match find_span2_pub(v, '*') {
        None => stage_italic(v),
        Some((st, a, b)) => {
            let mut out = stage_italic(slice_range(v, 0, st).as_slice());
            append_str(&mut out, "<strong>");
            let inner = stage_italic(slice_range(v, a, b).as_slice());
            append_chars(&mut out, inner.as_slice());
            append_str(&mut out, "</strong>");
            let rest = slice_range(v, b + 2, n);
            let rendered = stage_bold(rest.as_slice());
            append_chars(&mut out, rendered.as_slice());
            proof {
                assert(out@ =~= spec_stage_bold(v@));
            }
            out
        },
    }
}

// ---------------------------------------------------------------------------
// Stage 6: single-backtick code spans.
// ---------------------------------------------------------------------------

/// Single-backtick code: each `` `code` `` becomes a literal code element;
/// the code text is not reprocessed.
pub open spec fn spec_stage_scode(s: Seq<char>) -> Seq<char>
    decreases s.len(),
    via spec_stage_scode_decreases
{
    match spec_find_span1(s, 0, '`') {
        None => spec_stage_bold(s),
        Some((st, a, b)) => spec_stage_bold(s.subrange(0, st))
            + "<code class=\"code docutils literal notranslate\"><span class=\"pre\">"@
            + s.subrange(a, b) + "</span></code>"@ + spec_stage_scode(
            s.subrange(b + 1, s.len() as int),
        ),
    }
}

#[via_fn]
proof fn spec_stage_scode_decreases(s: Seq<char>) {
    lemma_find_span1_bounds(s, 0, '`');
}

/// Render the single-backtick pass (and below).
pub fn stage_scode(v: &[char]) -> (r: Vec<char>)
    ensures
        r@ == spec_stage_scode(v@),
    decreases v@.len(),
{
    let n = v.len();
    match find_span1_pub(v, '`') {
        None => stage_bold(v),
        Some((st, a, b)) => {
            let mut out = stage_bold(slice_range(v, 0, st).as_slice());
            append_str(&mut out, "<code class=\"code docutils literal notranslate\"><span class=\"pre\">");
            append_chars(&mut out, slice_range(v, a, b).as_slice());
            append_str(&mut out, "</span></code>");
            let rest = slice_range(v, b + 1, n);
            let rendered = stage_scode(rest.as_slice());
            append_chars(&mut out, rendered.as_slice());
            proof {
                assert(out@ =~= spec_stage_scode(v@));
            }
            out
        },
    }
}

// ---------------------------------------------------------------------------
// Stage 5: double-backtick code spans.
// ---------------------------------------------------------------------------

/// Double-backtick code: each ```` ``code`` ```` becomes `<code>code</code>`;
/// the code text is not reprocessed.
pub open spec fn spec_stage_dcode(s: Seq<char>) -> Seq<char>
    decreases s.len(),
    via spec_stage_dcode_decreases
{
    match spec_find_span2(s, 0, '`') {
        None => spec_stage_scode(s),
        Some((st, a, b)) => spec_stage_scode(s.subrange(0, st)) + "<code>"@ + s.subrange(a, b)
            + "</code>"@ + spec_stage_dcode(s.subrange(b + 2, s.len() as int)),
    }
}

#[via_fn]
proof fn spec_stage_dcode_decreases(s: Seq<char>) {
    lemma_find_span2_bounds(s, 0, '`');
}

/// Render the double-backtick pass (and below).
pub fn stage_dcode(v: &[char]) -> (r: Vec<char>)
    ensures
        r@ == spec_stage_dcode(v@),
    decreases v@.len(),
{
    let n = v.len();
    match find_span2_pub(v, '`') {
        None => stage_scode(v),
        Some((st, a, b)) => {
            let mut out = stage_scode(slice_range(v, 0, st).as_slice());
            append_str(&mut out, "<code>");
            append_chars(&mut out, slice_range(v, a, b).as_slice());
            append_str(&mut out, "</code>");
            let rest = slice_range(v, b + 2, n);
            let rendered = stage_dcode(rest.as_slice());
            append_chars(&mut out, rendered.as_slice());
            proof {
                assert(out@ =~= spec_stage_dcode(v@));
            }
            out
        },
    }
}

// ---------------------------------------------------------------------------
// Stage 4: HTML escaping of everything that is not yet rendered.
// ---------------------------------------------------------------------------

/// Escape the remaining text, then run the code/bold/italic passes on it.
pub open spec fn spec_stage_escape(s: Seq<char>) -> Seq<char> {
    spec_stage_dcode(spec_escape_html(s))
}

/// Render the escaping pass (and below).
pub fn stage_escape(v: &[char]) -> (r: Vec<char>)
    ensures
        r@ == spec_stage_escape(v@),
{
    let escaped = escape_html(v);
    stage_dcode(escaped.as_slice())
}

// ---------------------------------------------------------------------------
// Stage 3: bare-word references, such as Word_.
// ---------------------------------------------------------------------------

/// Whether position `j` can end a bare-word reference: an alphanumeric
/// character, an underscore after it, and a word boundary after that.
pub open spec fn spec_bare_cond(s: Seq<char>, j: int) -> bool {
    0 <= j && j + 1 < s.len() && spec_ascii_alnum(s[j]) && s[j + 1] == '_' && (j + 2 >= s.len()
        || !spec_word_char(s[j + 2]))
}

/// The largest ending position in `[pos, j]` for a bare-word reference, or
/// -1.
pub open spec fn spec_bare_best(s: Seq<char>, pos: int, j: int) -> int
    decreases j - pos + 1,
{
    if j < pos {
        -1
    } else if spec_bare_cond(s, j) {
        j
    } else {
        spec_bare_best(s, pos, j - 1)
    }
}

pub proof fn lemma_bare_best_bounds(s: Seq<char>, pos: int, j: int)
    ensures
        spec_bare_best(s, pos, j) >= 0 ==> pos <= spec_bare_best(s, pos, j) <= j
            && spec_bare_best(s, pos, j) + 1 < s.len(),
    decreases j - pos + 1,
{
    if j >= pos && !spec_bare_cond(s, j) {
        lemma_bare_best_bounds(s, pos, j - 1);
    }
}

/// Find the best ending position, scanning downward.
fn bare_best(v: &[char], pos: usize, j: usize) -> (r: Option<usize>)
    requires
        pos <= j + 1,
        j < v@.len() || j == 0,
        j <= v@.len(),
    ensures
        match r {
            Some(e) => spec_bare_best(v@, pos as int, j as int) == e as int && pos <= e <= j && e
                + 1 < v@.len(),
            None => spec_bare_best(v@, pos as int, j as int) == -1,
        },
    decreases j + 1 - pos,
{
    let n = v.len();
    if pos > j {
        return None;
    }
    let cond: bool = j + 1 < n && {
        let c = v[j];
        ((c >= 'a' && c <= 'z') || (c >= 'A' && c <= 'Z') || (c >= '0' && c <= '9')) && v[j + 1]
            == '_' && (j + 2 >= n || !(crate::text::is_alphanumeric_char(v[j + 2]) || v[j + 2]
            == '_'))
    };
    if cond {
        Some(j)
    } else if j == 0 {
        proof {
            assert(spec_bare_best(v@, pos as int, -1) == -1);
        }
        None
    } else {
        bare_best(v, pos, j - 1)
    }
}

/// A bare-word reference starting at `pos`: a word boundary, an ASCII
/// letter, then the longest run ending in an alphanumeric followed by `_`
/// and a boundary.  Yields the last word position.
pub open spec fn spec_bare_at(s: Seq<char>, pos: int) -> Option<int> {
    if pos < 0 || pos >= s.len() || !spec_ascii_alpha(s[pos]) {
        None
    } else if pos > 0 && spec_word_char(s[pos - 1]) {
        None
    } else {
        let e = spec_count_bare(s.subrange(pos + 1, s.len() as int));
        let j = spec_bare_best(s, pos, pos + e);
        if j < 0 {
            None
        } else {
            Some(j)
        }
    }
}

/// The first bare-word reference at or after `pos`.
pub open spec fn spec_find_bare(s: Seq<char>, pos: int) -> Option<(int, int)>
    decreases s.len() - pos,
{
    if pos < 0 || pos >= s.len() {
        None
    } else {
        match spec_bare_at(s, pos) {
            Some(j) => Some((pos, j)),
            None => spec_find_bare(s, pos + 1),
        }
    }
}

pub proof fn lemma_find_bare_bounds(s: Seq<char>, pos: int)
    requires
        0 <= pos,
    ensures
        match spec_find_bare(s, pos) {
            Some((st, j)) => pos <= st <= j && j + 1 < s.len(),
            None => true,
        },
    decreases s.len() - pos,
{
    if pos < s.len() {
        match spec_bare_at(s, pos) {
            Some(_) => {
                lemma_count_bare_bounds(s.subrange(pos + 1, s.len() as int));
                lemma_bare_best_bounds(
                    s,
                    pos,
                    pos + spec_count_bare(s.subrange(pos + 1, s.len() as int)),
                );
            },
            None => {
                lemma_find_bare_bounds(s, pos + 1);
            },
        }
    }
}

/// Find the first bare-word reference of `v`.
fn find_bare(v: &[char]) -> (r: Option<(usize, usize)>)
    ensures
        match r {
            Some((st, j)) => spec_find_bare(v@, 0) == Some((st as int, j as int)) && st <= j && j
                + 1 < v@.len(),
            None => spec_find_bare(v@, 0) is None,
        },
{
    let n = v.len();
    let mut pos: usize = 0;
    while pos < n
        invariant
            n == v@.len(),
            pos <= n,
            spec_find_bare(v@, 0) == spec_find_bare(v@, pos as int),
        decreases n - pos,
    {
        let c = v[pos];
        let is_alpha = (c >= 'a' && c <= 'z') || (c >= 'A' && c <= 'Z');
        let boundary: bool = pos == 0 || !(crate::text::is_alphanumeric_char(v[pos - 1]) || v[pos
            - 1] == '_');
        if is_alpha && boundary {
            let e = count_bare_from(v, pos + 1);
            proof {
                lemma_bare_best_bounds(v@, pos as int, pos + e);
            }
            match bare_best(v, pos, pos + e) {
                Some(j) => {
                    return Some((pos, j));
                },
                None => {},
            }
        }
        pos += 1;
    }
    None
}

/// The link for a bare-word reference.
pub open spec fn spec_bare_html(w: Seq<char>) -> Seq<char> {
    "<a class=\"reference internal\" href=\"#"@ + spec_slugify(w) + "\">"@ + spec_escape_html(w)
        + "</a>"@
}

/// Bare-word references: each `Word_` becomes an internal link.
pub open spec fn spec_stage_bare(s: Seq<char>) -> Seq<char>
    decreases s.len(),
    via spec_stage_bare_decreases
{
    match spec_find_bare(s, 0) {
        None => spec_stage_escape(s),
        Some((st, j)) => spec_stage_escape(s.subrange(0, st)) + spec_bare_html(
            s.subrange(st, j + 1),
        ) + spec_stage_bare(s.subrange(j + 2, s.len() as int)),
    }
}

#[via_fn]
proof fn spec_stage_bare_decreases(s: Seq<char>) {
    lemma_find_bare_bounds(s, 0);
}

/// Render the bare-word reference pass (and below).
pub fn stage_bare(v: &[char]) -> (r: Vec<char>)
    ensures
        r@ == spec_stage_bare(v@),
    decreases v@.len(),
{
    let n = v.len();
    match find_bare(v) {
        None => stage_escape(v),
        Some((st, j)) => {
            let word = slice_range(v, st, j + 1);
            let mut out = stage_escape(slice_range(v, 0, st).as_slice());
            append_str(&mut out, "<a class=\"reference internal\" href=\"#");
            append_chars(&mut out, slugify_chars(word.as_slice()).as_slice());
            append_str(&mut out, "\">");
            append_chars(&mut out, escape_html(word.as_slice()).as_slice());
            append_str(&mut out, "</a>");
            let rest = slice_range(v, j + 2, n);
            let rendered = stage_bare(rest.as_slice());
            append_chars(&mut out, rendered.as_slice());
            proof {
                assert(out@ =~= spec_stage_bare(v@));
            }
            out
        },
    }
}

// ---------------------------------------------------------------------------
// Stage 2: explicit references, `text`_ and `text <url>`_.
// ---------------------------------------------------------------------------

/// An explicit reference at `pos`: a backtick-quoted text followed by an
/// underscore.  Yields the content bounds and the end.
pub open spec fn spec_ref2_at(s: Seq<char>, pos: int) -> Option<(int, int, int)> {
    if pos < 0 || pos >= s.len() || s[pos] != '`' {
        None
    } else {
        let m = spec_count_not(s.subrange(pos + 1, s.len() as int), '`');
        if m < 1 || pos + 2 + m >= s.len() || s[pos + 1 + m] != '`' || s[pos + 2 + m] != '_' {
            None
        } else {
            Some((pos + 1, pos + 1 + m, pos + 3 + m))
        }
    }
}

/// The first explicit reference at or after `pos`.
pub open spec fn spec_find_ref2(s: Seq<char>, pos: int) -> Option<(int, int, int, int)>
    decreases s.len() - pos,
{
    if pos < 0 || pos >= s.len() {
        None
    } else {
        match spec_ref2_at(s, pos) {
            Some((a, b, e)) => Some((pos, a, b, e)),
            None => spec_find_ref2(s, pos + 1),
        }
    }
}

pub proof fn lemma_find_ref2_bounds(s: Seq<char>, pos: int)
    requires
        0 <= pos,
    ensures
        match spec_find_ref2(s, pos) {
            Some((st, a, b, e)) => pos <= st && st < a <= b && b < e && e <= s.len(),
            None => true,
        },
    decreases s.len() - pos,
{
    if pos < s.len() {
        if spec_ref2_at(s, pos) is Some {
            lemma_count_not_bounds(s.subrange(pos + 1, s.len() as int), '`');
        } else {
            lemma_find_ref2_bounds(s, pos + 1);
        }
    }
}

/// Find the first explicit reference of `v`.
fn find_ref2(v: &[char]) -> (r: Option<(usize, usize, usize, usize)>)
    ensures
        match r {
            Some((st, a, b, e)) => spec_find_ref2(v@, 0) == Some(
                (st as int, a as int, b as int, e as int),
            ) && st < a && a <= b && b < e && e <= v@.len(),
            None => spec_find_ref2(v@, 0) is None,
        },
{
    let n = v.len();
    let mut pos: usize = 0;
    while pos < n
        invariant
            n == v@.len(),
            pos <= n,
            spec_find_ref2(v@, 0) == spec_find_ref2(v@, pos as int),
        decreases n - pos,
    {
        if v[pos] == '`' {
            let m = count_not_from(v, '`', pos + 1);
            if m >= 1 && n - (pos + 1 + m) >= 2 && v[pos + 1 + m] == '`' && v[pos + 2 + m] == '_' {
                return Some((pos, pos + 1, pos + 1 + m, pos + 3 + m));
            }
        }
        pos += 1;
    }
    None
}

/// The link for an explicit reference: an external link when the text ends
/// with `<url>`, an internal anchor otherwise.
pub open spec fn spec_ref_html(t: Seq<char>) -> Seq<char> {
    let a = spec_rfind(t, '<');
    if a >= 0 && t.len() > 0 && t[t.len() - 1] == '>' && a < t.len() - 1 {
        "<a class=\"reference external\" href=\""@ + spec_escape_html(
            t.subrange(a + 1, t.len() - 1),
        ) + "\">"@ + spec_escape_html(spec_trim(t.subrange(0, a))) + "</a>"@
    } else {
        "<a class=\"reference internal\" href=\"#"@ + spec_slugify(t) + "\">"@ + spec_escape_html(
            t,
        ) + "</a>"@
    }
}

/// Build the link for an explicit reference text.
fn ref_html(t: &[char]) -> (r: Vec<char>)
    ensures
        r@ == spec_ref_html(t@),
{
    let n = t.len();
    proof {
        crate::parser::lemma_rfind_bounds_pub(t@, '<');
    }
    let apos: Option<usize> = match crate::text::rfind_char(t, '<') {
        Some(i) => {
            proof {
                lemma_rfind_at(t@, '<', i as int);
            }
            Some(i)
        },
        None => {
            proof {
                lemma_rfind_none(t@, '<');
            }
            None
        },
    };
    match apos {
        Some(a) if n > 0 && t[n - 1] == '>' && a < n - 1 => {
            let mut out: Vec<char> = Vec::new();
            append_str(&mut out, "<a class=\"reference external\" href=\"");
            let url = slice_range(t, a + 1, n - 1);
            append_chars(&mut out, escape_html(url.as_slice()).as_slice());
            append_str(&mut out, "\">");
            let display = trim_chars(slice_range(t, 0, a).as_slice());
            append_chars(&mut out, escape_html(display.as_slice()).as_slice());
            append_str(&mut out, "</a>");
            proof {
                assert(out@ =~= spec_ref_html(t@));
            }
            out
        },
        _ => {
            let mut out: Vec<char> = Vec::new();
            append_str(&mut out, "<a class=\"reference internal\" href=\"#");
            append_chars(&mut out, slugify_chars(t).as_slice());
            append_str(&mut out, "\">");
            append_chars(&mut out, escape_html(t).as_slice());
            append_str(&mut out, "</a>");
            proof {
                assert(out@ =~= spec_ref_html(t@));
            }
            out
        },
    }
}

/// Explicit references: each `` `text`_ `` becomes a link.
pub open spec fn spec_stage_ref2(s: Seq<char>) -> Seq<char>
    decreases s.len(),
    via spec_stage_ref2_decreases
{
    match spec_find_ref2(s, 0) {
        None => spec_stage_bare(s),
        Some((st, a, b, e)) => spec_stage_bare(s.subrange(0, st)) + spec_ref_html(
            s.subrange(a, b),
        ) + spec_stage_ref2(s.subrange(e, s.len() as int)),
    }
}

#[via_fn]
proof fn spec_stage_ref2_decreases(s: Seq<char>) {
    lemma_find_ref2_bounds(s, 0);
}

/// Render the explicit reference pass (and below).
pub fn stage_ref2(v: &[char]) -> (r: Vec<char>)
    ensures
        r@ == spec_stage_ref2(v@),
    decreases v@.len(),
{
    let n = v.len();
    match find_ref2(v) {
        None => stage_bare(v),
        Some((st, a, b, e)) => {
            let mut out = stage_bare(slice_range(v, 0, st).as_slice());
            let content = slice_range(v, a, b);
            append_chars(&mut out, ref_html(content.as_slice()).as_slice());
            let rest = slice_range(v, e, n);
            let rendered = stage_ref2(rest.as_slice());
            append_chars(&mut out, rendered.as_slice());
            proof {
                assert(out@ =~= spec_stage_ref2(v@));
            }
            out
        },
    }
}

// ---------------------------------------------------------------------------
// Stage 1: roles, :name:`target` and :name:`display <target>`.
// ---------------------------------------------------------------------------

/// A role at `pos`: a colon, a name whose run ends with a second colon,
/// then a backtick-quoted content.  Yields the name bounds, content bounds
/// and end.
pub open spec fn spec_role_at(s: Seq<char>, pos: int) -> Option<(int, int, int, int, int)> {
    if pos < 0 || pos >= s.len() || s[pos] != ':' {
        None
    } else {
        let rl = spec_count_role(s.subrange(pos + 1, s.len() as int));
        if rl < 2 || !spec_ascii_alpha(s[pos + 1]) || s[pos + rl] != ':' {
            None
        } else if pos + 1 + rl >= s.len() || s[pos + 1 + rl] != '`' {
            None
        } else {
            let m = spec_count_not(s.subrange(pos + 2 + rl, s.len() as int), '`');
            if m < 1 || pos + 2 + rl + m >= s.len() || s[pos + 2 + rl + m] != '`' {
                None
            } else {
                Some((pos + 1, pos + rl, pos + 2 + rl, pos + 2 + rl + m, pos + 3 + rl + m))
            }
        }
    }
}

/// The first role at or after `pos`.
pub open spec fn spec_find_role(s: Seq<char>, pos: int) -> Option<(int, int, int, int, int, int)>
    decreases s.len() - pos,
{
    if pos < 0 || pos >= s.len() {
        None
    } else {
        match spec_role_at(s, pos) {
            Some((na, nb, ca, cb, e)) => Some((pos, na, nb, ca, cb, e)),
            None => spec_find_role(s, pos + 1),
        }
    }
}

pub proof fn lemma_find_role_bounds(s: Seq<char>, pos: int)
    requires
        0 <= pos,
    ensures
        match spec_find_role(s, pos) {
            Some((st, na, nb, ca, cb, e)) => pos <= st && st < na <= nb && nb < ca <= cb && cb < e
                && e <= s.len(),
            None => true,
        },
    decreases s.len() - pos,
{
    if pos < s.len() {
        if spec_role_at(s, pos) is Some {
            lemma_count_role_bounds(s.subrange(pos + 1, s.len() as int));
            let rl = spec_count_role(s.subrange(pos + 1, s.len() as int));
            lemma_count_not_bounds(s.subrange(pos + 2 + rl, s.len() as int), '`');
        } else {
            lemma_find_role_bounds(s, pos + 1);
        }
    }
}

/// Find the first role of `v`.
fn find_role(v: &[char]) -> (r: Option<(usize, usize, usize, usize, usize, usize)>)
    ensures
        match r {
            Some((st, na, nb, ca, cb, e)) => spec_find_role(v@, 0) == Some(
                (st as int, na as int, nb as int, ca as int, cb as int, e as int),
            ) && st < na && na <= nb && nb < ca && ca <= cb && cb < e && e <= v@.len(),
            None => spec_find_role(v@, 0) is None,
        },
{
    let n = v.len();
    let mut pos: usize = 0;
    while pos < n
        invariant
            n == v@.len(),
            pos <= n,
            spec_find_role(v@, 0) == spec_find_role(v@, pos as int),
        decreases n - pos,
    {
        if v[pos] == ':' {
            let rl = count_role_from(v, pos + 1);
            if rl >= 2 && {
                let c = v[pos + 1];
                (c >= 'a' && c <= 'z') || (c >= 'A' && c <= 'Z')
            } && v[pos + rl] == ':' && pos + 1 + rl < n && v[pos + 1 + rl] == '`' {
                let m = count_not_from(v, '`', pos + 2 + rl);
                if m >= 1 && n - (pos + 2 + rl + m) >= 1 && v[pos + 2 + rl + m] == '`' {
                    return Some(
                        (pos, pos + 1, pos + rl, pos + 2 + rl, pos + 2 + rl + m, pos + 3 + rl + m),
                    );
                }
            }
        }
        pos += 1;
    }
    None
}

/// The display text and target of a role's content: `display <target>`
/// splits at the first angle bracket, anything else is its own target.
pub open spec fn spec_role_parts(c: Seq<char>) -> (Seq<char>, Seq<char>) {
    let ci = spec_find_char(c, '<');
    if ci >= 0 && c.len() > 0 && c[c.len() - 1] == '>' && ci < c.len() - 1 {
        (spec_trim(c.subrange(0, ci)), c.subrange(ci + 1, c.len() - 1))
    } else {
        (c, c)
    }
}

/// The rendered form of a role: `ref` and `doc` become internal links, any
/// other name an HTML comment.
pub open spec fn spec_role_html(name: Seq<char>, content: Seq<char>) -> Seq<char> {
    let p = spec_role_parts(content);
    if name == "ref"@ {
        "<a class=\"reference internal\" href=\""@ + spec_escape_html(p.1) + ".html#"@
            + spec_escape_html(p.1) + "\"><span class=\"std std-ref\">"@ + spec_escape_html(p.0)
            + "</span></a>"@
    } else if name == "doc"@ {
        "<a class=\"reference internal\" href=\""@ + spec_escape_html(p.1)
            + ".html\"><span class=\"doc\">"@ + spec_escape_html(p.0) + "</span></a>"@
    } else {
        "<!-- Unknown role: "@ + name + " -->"@
    }
}

/// Build the rendered form of a role.
fn role_html(name: &[char], content: &[char]) -> (r: Vec<char>)
    ensures
        r@ == spec_role_html(name@, content@),
{
    let n = content.len();
    let ghost cfi = spec_find_char(content@, '<');
    let fi: Option<usize> = match crate::text::find_char(content, '<', 0) {
        Some(i) => {
            proof {
                crate::text::lemma_find_char_at(content@, '<', i as int);
            }
            Some(i)
        },
        None => {
            proof {
                crate::text::lemma_find_char_none(content@, '<');
            }
            None
        },
    };
    let mut display: Vec<char>;
    let mut target: Vec<char>;
    match fi {
        Some(ci) if n > 0 && content[n - 1] == '>' && ci < n - 1 => {
            display = trim_chars(slice_range(content, 0, ci).as_slice());
            target = slice_range(content, ci + 1, n - 1);
        },
        _ => {
            display = slice_range(content, 0, n);
            target = slice_range(content, 0, n);
            proof {
                assert(display@ =~= content@);
                assert(target@ =~= content@);
            }
        },
    }
    let mut out: Vec<char> = Vec::new();
    if chars_eq_str(name, "ref") {
        append_str(&mut out, "<a class=\"reference internal\" href=\"");
        append_chars(&mut out, escape_html(target.as_slice()).as_slice());
        append_str(&mut out, ".html#");
        append_chars(&mut out, escape_html(target.as_slice()).as_slice());
        append_str(&mut out, "\"><span class=\"std std-ref\">");
        append_chars(&mut out, escape_html(display.as_slice()).as_slice());
        append_str(&mut out, "</span></a>");
        proof {
            assert(out@ =~= spec_role_html(name@, content@));
        }
    } else if chars_eq_str(name, "doc") {
        append_str(&mut out, "<a class=\"reference internal\" href=\"");
        append_chars(&mut out, escape_html(target.as_slice()).as_slice());
        append_str(&mut out, ".html\"><span class=\"doc\">");
        append_chars(&mut out, escape_html(display.as_slice()).as_slice());
        append_str(&mut out, "</span></a>");
        proof {
            assert(out@ =~= spec_role_html(name@, content@));
        }
    } else {
        append_str(&mut out, "<!-- Unknown role: ");
        append_chars(&mut out, name);
        append_str(&mut out, " -->");
        proof {
            assert(out@ =~= spec_role_html(name@, content@));
        }
    }
    out
}

/// Roles: each `:name:`content`` is resolved; the text between goes on to
/// the later passes.
pub open spec fn spec_stage_roles(s: Seq<char>) -> Seq<char>
    decreases s.len(),
    via spec_stage_roles_decreases
{
    match spec_find_role(s, 0) {
        None => spec_stage_ref2(s),
        Some((st, na, nb, ca, cb, e)) => spec_stage_ref2(s.subrange(0, st)) + spec_role_html(
            s.subrange(na, nb),
            s.subrange(ca, cb),
        ) + spec_stage_roles(s.subrange(e, s.len() as int)),
    }
}

#[via_fn]
proof fn spec_stage_roles_decreases(s: Seq<char>) {
    lemma_find_role_bounds(s, 0);
}

/// Render the role pass (and below).
pub fn stage_roles(v: &[char]) -> (r: Vec<char>)
    ensures
        r@ == spec_stage_roles(v@),
    decreases v@.len(),
{
    let n = v.len();
    match find_role(v) {
        None => stage_ref2(v),
        Some((st, na, nb, ca, cb, e)) => {
            let mut out = stage_ref2(slice_range(v, 0, st).as_slice());
            let name = slice_range(v, na, nb);
            let content = slice_range(v, ca, cb);
            append_chars(&mut out, role_html(name.as_slice(), content.as_slice()).as_slice());
            let rest = slice_range(v, e, n);
            let rendered = stage_roles(rest.as_slice());
            append_chars(&mut out, rendered.as_slice());
            proof {
                assert(out@ =~= spec_stage_roles(v@));
            }
            out
        },
    }
}

// ---------------------------------------------------------------------------
// The whole engine, and the navigation-title variant.
// ---------------------------------------------------------------------------

/// The inline markup engine: roles, references, bare-word references,
/// escaping, code spans, bold and italic, in that order.
pub open spec fn spec_render_inline(s: Seq<char>) -> Seq<char> {
    spec_stage_roles(s)
}

/// Render inline markup to HTML.
pub fn render_inline_chars(v: &[char]) -> (r: Vec<char>)
    ensures
        r@ == spec_render_inline(v@),
{
    stage_roles(v)
}

/// A navigation title: escaped, with single-backtick code spans rendered
/// and nothing else.
pub open spec fn spec_nav_code(s: Seq<char>) -> Seq<char>
    decreases s.len(),
    via spec_nav_code_decreases
{
    match spec_find_span1(s, 0, '`') {
        None => s,
        Some((st, a, b)) => s.subrange(0, st)
            + "<code class=\"code docutils literal notranslate\"><span class=\"pre\">"@
            + s.subrange(a, b) + "</span></code>"@ + spec_nav_code(
            s.subrange(b + 1, s.len() as int),
        ),
    }
}

#[via_fn]
proof fn spec_nav_code_decreases(s: Seq<char>) {
    lemma_find_span1_bounds(s, 0, '`');
}

/// The rendered form of a navigation title.
pub open spec fn spec_nav_title(s: Seq<char>) -> Seq<char> {
    spec_nav_code(spec_escape_html(s))
}

fn nav_code(v: &[char]) -> (r: Vec<char>)
    ensures
        r@ == spec_nav_code(v@),
    decreases v@.len(),
{
    let n = v.len();
    match find_span1_pub(v, '`') {
        None => slice_range(v, 0, n),
        Some((st, a, b)) => {
            proof {
                assert(v@.subrange(0, n as int) =~= v@);
            }
            let mut out = slice_range(v, 0, st);
            append_str(&mut out, "<code class=\"code docutils literal notranslate\"><span class=\"pre\">");
            append_chars(&mut out, slice_range(v, a, b).as_slice());
            append_str(&mut out, "</span></code>");
            let rest = slice_range(v, b + 1, n);
            let rendered = nav_code(rest.as_slice());
            append_chars(&mut out, rendered.as_slice());
            proof {
                assert(out@ =~= spec_nav_code(v@));
            }
            out
        },
    }
}

/// Render a navigation title.
pub fn render_nav_title(v: &[char]) -> (r: Vec<char>)
    ensures
        r@ == spec_nav_title(v@),
{
    let escaped = escape_html(v);
    nav_code(escaped.as_slice())
}

// ---------------------------------------------------------------------------
// Law: on markup-free text the engine is exactly the HTML escaping.
// ---------------------------------------------------------------------------

proof fn lemma_no_tick_no_role(s: Seq<char>, pos: int)
    requires
        !s.contains('`'),
        0 <= pos,
    ensures
        spec_find_role(s, pos) is None,
    decreases s.len() - pos,
{
    if pos < s.len() {
        if spec_role_at(s, pos) is Some {
            let rl = spec_count_role(s.subrange(pos + 1, s.len() as int));
            assert(s[pos + 1 + rl] == '`');
            assert(s.contains('`'));
        }
        lemma_no_tick_no_role(s, pos + 1);
    }
}

proof fn lemma_no_tick_no_ref2(s: Seq<char>, pos: int)
    requires
        !s.contains('`'),
        0 <= pos,
    ensures
        spec_find_ref2(s, pos) is None,
    decreases s.len() - pos,
{
    if pos < s.len() {
        if spec_ref2_at(s, pos) is Some {
            assert(s[pos] == '`');
            assert(s.contains('`'));
        }
        lemma_no_tick_no_ref2(s, pos + 1);
    }
}

proof fn lemma_bare_best_cond(s: Seq<char>, pos: int, k: int)
    ensures
        spec_bare_best(s, pos, k) >= 0 ==> spec_bare_cond(s, spec_bare_best(s, pos, k)),
    decreases k - pos + 1,
{
    if k >= pos && !spec_bare_cond(s, k) {
        lemma_bare_best_cond(s, pos, k - 1);
    }
}

proof fn lemma_no_underscore_no_bare(s: Seq<char>, pos: int)
    requires
        !s.contains('_'),
        0 <= pos,
    ensures
        spec_find_bare(s, pos) is None,
    decreases s.len() - pos,
{
    if pos < s.len() {
        if spec_bare_at(s, pos) is Some {
            let e = spec_count_bare(s.subrange(pos + 1, s.len() as int));
            let j = spec_bare_best(s, pos, pos + e);
            lemma_bare_best_bounds(s, pos, pos + e);
            lemma_bare_best_cond(s, pos, pos + e);
            assert(spec_bare_cond(s, j));
            assert(s[j + 1] == '_');
            assert(s.contains('_'));
        }
        lemma_no_underscore_no_bare(s, pos + 1);
    }
}

proof fn lemma_no_delim_no_span1(s: Seq<char>, pos: int, d: char)
    requires
        !s.contains(d),
        0 <= pos,
    ensures
        spec_find_span1(s, pos, d) is None,
    decreases s.len() - pos,
{
    if pos < s.len() {
        if spec_span1_at(s, pos, d) is Some {
            assert(s[pos] == d);
            assert(s.contains(d));
        }
        lemma_no_delim_no_span1(s, pos + 1, d);
    }
}

proof fn lemma_no_delim_no_span2(s: Seq<char>, pos: int, d: char)
    requires
        !s.contains(d),
        0 <= pos,
    ensures
        spec_find_span2(s, pos, d) is None,
    decreases s.len() - pos,
{
    if pos < s.len() {
        if spec_span2_at(s, pos, d) is Some {
            assert(s[pos] == d);
            assert(s.contains(d));
        }
        lemma_no_delim_no_span2(s, pos + 1, d);
    }
}

/// Escaping never introduces a character outside its entities, so a text
/// free of a marker character stays free of it.
proof fn lemma_escape_keeps_absent(s: Seq<char>, c: char)
    requires
        !s.contains(c),
        c != '&' && c != 'a' && c != 'm' && c != 'p' && c != ';' && c != 'l' && c != 't' && c
            != 'g',
    ensures
        !spec_escape_html(s).contains(c),
    decreases s.len(),
{
    if s.len() > 0 {
        assert(!s.drop_last().contains(c)) by {
            if s.drop_last().contains(c) {
                let i = choose|i: int|
                    0 <= i < s.drop_last().len() && s.drop_last()[i] == c;
                assert(s[i] == c);
            }
        }
        lemma_escape_keeps_absent(s.drop_last(), c);
        assert(s[s.len() - 1] != c);
        assert(!spec_escape_char(s[s.len() - 1]).contains(c));
        let e = spec_escape_html(s.drop_last()) + spec_escape_char(s[s.len() - 1]);
        assert(!e.contains(c)) by {
            if e.contains(c) {
                let i = choose|i: int| 0 <= i < e.len() && e[i] == c;
                if i < spec_escape_html(s.drop_last()).len() {
                    assert(spec_escape_html(s.drop_last())[i] == c);
                } else {
                    assert(spec_escape_char(s[s.len() - 1])[i - spec_escape_html(
                        s.drop_last(),
                    ).len()] == c);
                }
            }
        }
    }
}

/// On text with no asterisk, backtick or underscore, the inline markup
/// engine yields exactly the HTML escaping of the text: no pass finds
/// anything to rewrite, and the escaping introduces nothing they could.
pub proof fn lemma_render_inline_markup_free(s: Seq<char>)
    requires
        !s.contains('*'),
        !s.contains('`'),
        !s.contains('_'),
    ensures
        spec_render_inline(s) == spec_escape_html(s),
{
    lemma_no_tick_no_role(s, 0);
    assert(spec_stage_roles(s) == spec_stage_ref2(s));
    lemma_no_tick_no_ref2(s, 0);
    assert(spec_stage_ref2(s) == spec_stage_bare(s));
    lemma_no_underscore_no_bare(s, 0);
    assert(spec_stage_bare(s) == spec_stage_escape(s));
    let e = spec_escape_html(s);
    lemma_escape_keeps_absent(s, '`');
    lemma_escape_keeps_absent(s, '*');
    lemma_no_delim_no_span2(e, 0, '`');
    assert(spec_stage_dcode(e) == spec_stage_scode(e));
    lemma_no_delim_no_span1(e, 0, '`');
    assert(spec_stage_scode(e) == spec_stage_bold(e));
    lemma_no_delim_no_span2(e, 0, '*');
    assert(spec_stage_bold(e) == spec_stage_italic(e));
    lemma_no_delim_no_span1(e, 0, '*');
    assert(spec_stage_italic(e) == e);
}

// ---------------------------------------------------------------------------
// Markdown inline markup: code, bold, italic and links, on escaped text.
// ---------------------------------------------------------------------------

/// A Markdown link at `pos`: bracketed text, then a parenthesized address.
pub open spec fn spec_mdlink_at(s: Seq<char>, pos: int) -> Option<(int, int, int, int, int)> {
    if pos < 0 || pos >= s.len() || s[pos] != '[' {
        None
    } else {
        let m = spec_count_not(s.subrange(pos + 1, s.len() as int), ']');
        if m < 1 || pos + 2 + m >= s.len() || s[pos + 1 + m] != ']' || s[pos + 2 + m] != '(' {
            None
        } else {
            let k = spec_count_not(s.subrange(pos + 3 + m, s.len() as int), ')');
            if k < 1 || pos + 3 + m + k >= s.len() || s[pos + 3 + m + k] != ')' {
                None
            } else {
                Some((pos + 1, pos + 1 + m, pos + 3 + m, pos + 3 + m + k, pos + 4 + m + k))
            }
        }
    }
}

/// The first Markdown link at or after `pos`.
pub open spec fn spec_find_mdlink(s: Seq<char>, pos: int) -> Option<
    (int, int, int, int, int, int),
>
    decreases s.len() - pos,
{
    if pos < 0 || pos >= s.len() {
        None
    } else {
        match spec_mdlink_at(s, pos) {
            Some((ta, tb, ua, ub, e)) => Some((pos, ta, tb, ua, ub, e)),
            None => spec_find_mdlink(s, pos + 1),
        }
    }
}

pub proof fn lemma_find_mdlink_bounds(s: Seq<char>, pos: int)
    requires
        0 <= pos,
    ensures
        match spec_find_mdlink(s, pos) {
            Some((st, ta, tb, ua, ub, e)) => pos <= st && st < ta <= tb && tb < ua <= ub && ub
                < e && e <= s.len(),
            None => true,
        },
    decreases s.len() - pos,
{
    if pos < s.len() {
        if spec_mdlink_at(s, pos) is Some {
            let m = spec_count_not(s.subrange(pos + 1, s.len() as int), ']');
            lemma_count_not_bounds(s.subrange(pos + 1, s.len() as int), ']');
            let k = spec_count_not(s.subrange(pos + 3 + m, s.len() as int), ')');
            lemma_count_not_bounds(s.subrange(pos + 3 + m, s.len() as int), ')');
        } else {
            lemma_find_mdlink_bounds(s, pos + 1);
        }
    }
}

/// Find the first Markdown link.
fn find_mdlink(v: &[char]) -> (r: Option<(usize, usize, usize, usize, usize, usize)>)
    ensures
        match r {
            Some((st, ta, tb, ua, ub, e)) => spec_find_mdlink(v@, 0) == Some(
                (st as int, ta as int, tb as int, ua as int, ub as int, e as int),
            ) && st < ta && ta <= tb && tb < ua && ua <= ub && ub < e && e <= v@.len(),
            None => spec_find_mdlink(v@, 0) is None,
        },
{
    let n = v.len();
    let mut pos: usize = 0;
    while pos < n
        invariant
            n == v@.len(),
            pos <= n,
            spec_find_mdlink(v@, 0) == spec_find_mdlink(v@, pos as int),
        decreases n - pos,
    {
        if v[pos] == '[' {
            let m = count_not_from(v, ']', pos + 1);
            if m >= 1 && n - (pos + 1 + m) >= 2 && v[pos + 1 + m] == ']' && v[pos + 2 + m] == '(' {
                let k = count_not_from(v, ')', pos + 3 + m);
                if k >= 1 && n - (pos + 3 + m + k) >= 1 && v[pos + 3 + m + k] == ')' {
                    return Some(
                        (pos, pos + 1, pos + 1 + m, pos + 3 + m, pos + 3 + m + k, pos + 4 + m + k),
                    );
                }
            }
        }
        pos += 1;
    }
    None
}

/// Markdown links: each `[text](address)` becomes a link; the address is
/// escaped once more.
pub open spec fn spec_md_links(s: Seq<char>) -> Seq<char>
    decreases s.len(),
    via spec_md_links_decreases
{
    match spec_find_mdlink(s, 0) {
        None => s,
        Some((st, ta, tb, ua, ub, e)) => s.subrange(0, st) + "<a href=\""@ + spec_escape_html(
            s.subrange(ua, ub),
        ) + "\">"@ + s.subrange(ta, tb) + "</a>"@ + spec_md_links(
            s.subrange(e, s.len() as int),
        ),
    }
}

#[via_fn]
proof fn spec_md_links_decreases(s: Seq<char>) {
    lemma_find_mdlink_bounds(s, 0);
}

/// Render the Markdown link pass.
pub fn md_links(v: &[char]) -> (r: Vec<char>)
    ensures
        r@ == spec_md_links(v@),
    decreases v@.len(),
{
    let n = v.len();
    match find_mdlink(v) {
        None => slice_range(v, 0, n),
        Some((st, ta, tb, ua, ub, e)) => {
            proof {
                assert(v@.subrange(0, n as int) =~= v@);
            }
            let mut out = slice_range(v, 0, st);
            append_str(&mut out, "<a href=\"");
            append_chars(&mut out, escape_html(slice_range(v, ua, ub).as_slice()).as_slice());
            append_str(&mut out, "\">");
            append_chars(&mut out, slice_range(v, ta, tb).as_slice());
            append_str(&mut out, "</a>");
            let rest = slice_range(v, e, n);
            let rendered = md_links(rest.as_slice());
            append_chars(&mut out, rendered.as_slice());
            proof {
                assert(out@ =~= spec_md_links(v@));
            }
            out
        },
    }
}

/// Markdown italic with underscores.
pub open spec fn spec_md_italic_under(s: Seq<char>) -> Seq<char>
    decreases s.len(),
    via spec_md_italic_under_decreases
{
    match spec_find_span1(s, 0, '_') {
        None => spec_md_links(s),
        Some((st, a, b)) => spec_md_links(s.subrange(0, st)) + "<em>"@ + s.subrange(a, b)
            + "</em>"@ + spec_md_italic_under(s.subrange(b + 1, s.len() as int)),
    }
}

#[via_fn]
proof fn spec_md_italic_under_decreases(s: Seq<char>) {
    lemma_find_span1_bounds(s, 0, '_');
}

fn md_italic_under(v: &[char]) -> (r: Vec<char>)
    ensures
        r@ == spec_md_italic_under(v@),
    decreases v@.len(),
{
    let n = v.len();
    match find_span1_pub(v, '_') {
        None => md_links(v),
        Some((st, a, b)) => {
            let mut out = md_links(slice_range(v, 0, st).as_slice());
            append_str(&mut out, "<em>");
            append_chars(&mut out, slice_range(v, a, b).as_slice());
            append_str(&mut out, "</em>");
            let rest = slice_range(v, b + 1, n);
            let rendered = md_italic_under(rest.as_slice());
            append_chars(&mut out, rendered.as_slice());
            proof {
                assert(out@ =~= spec_md_italic_under(v@));
            }
            out
        },
    }
}

/// Markdown italic with asterisks.
pub open spec fn spec_md_italic_star(s: Seq<char>) -> Seq<char>
    decreases s.len(),
    via spec_md_italic_star_decreases
{
    match spec_find_span1(s, 0, '*') {
        None => spec_md_italic_under(s),
        Some((st, a, b)) => spec_md_italic_under(s.subrange(0, st)) + "<em>"@ + s.subrange(a, b)
            + "</em>"@ + spec_md_italic_star(s.subrange(b + 1, s.len() as int)),
    }
}

#[via_fn]
proof fn spec_md_italic_star_decreases(s: Seq<char>) {
    lemma_find_span1_bounds(s, 0, '*');
}

fn md_italic_star(v: &[char]) -> (r: Vec<char>)
    ensures
        r@ == spec_md_italic_star(v@),
    decreases v@.len(),
{
    let n = v.len();
    match find_span1_pub(v, '*') {
        None => md_italic_under(v),
        Some((st, a, b)) => {
            let mut out = md_italic_under(slice_range(v, 0, st).as_slice());
            append_str(&mut out, "<em>");
            append_chars(&mut out, slice_range(v, a, b).as_slice());
            append_str(&mut out, "</em>");
            let rest = slice_range(v, b + 1, n);
            let rendered = md_italic_star(rest.as_slice());
            append_chars(&mut out, rendered.as_slice());
            proof {
                assert(out@ =~= spec_md_italic_star(v@));
            }
            out
        },
    }
}

/// Markdown bold with underscores.
pub open spec fn spec_md_bold_under(s: Seq<char>) -> Seq<char>
    decreases s.len(),
    via spec_md_bold_under_decreases
{
    match spec_find_span2(s, 0, '_') {
        None => spec_md_italic_star(s),
        Some((st, a, b)) => spec_md_italic_star(s.subrange(0, st)) + "<strong>"@ + s.subrange(
            a,
            b,
        ) + "</strong>"@ + spec_md_bold_under(s.subrange(b + 2, s.len() as int)),
    }
}

#[via_fn]
proof fn spec_md_bold_under_decreases(s: Seq<char>) {
    lemma_find_span2_bounds(s, 0, '_');
}

fn md_bold_under(v: &[char]) -> (r: Vec<char>)
    ensures
        r@ == spec_md_bold_under(v@),
    decreases v@.len(),
{
    let n = v.len();
    match crate::inline::find_span2_pub(v, '_') {
        None => md_italic_star(v),
        Some((st, a, b)) => {
            let mut out = md_italic_star(slice_range(v, 0, st).as_slice());
            append_str(&mut out, "<strong>");
            append_chars(&mut out, slice_range(v, a, b).as_slice());
            append_str(&mut out, "</strong>");
            let rest = slice_range(v, b + 2, n);
            let rendered = md_bold_under(rest.as_slice());
            append_chars(&mut out, rendered.as_slice());
            proof {
                assert(out@ =~= spec_md_bold_under(v@));
            }
            out
        },
    }
}

/// Markdown bold with asterisks.
pub open spec fn spec_md_bold_star(s: Seq<char>) -> Seq<char>
    decreases s.len(),
    via spec_md_bold_star_decreases
{
    match spec_find_span2(s, 0, '*') {
        None => spec_md_bold_under(s),
        Some((st, a, b)) => spec_md_bold_under(s.subrange(0, st)) + "<strong>"@ + s.subrange(
            a,
            b,
        ) + "</strong>"@ + spec_md_bold_star(s.subrange(b + 2, s.len() as int)),
    }
}

#[via_fn]
proof fn spec_md_bold_star_decreases(s: Seq<char>) {
    lemma_find_span2_bounds(s, 0, '*');
}

fn md_bold_star(v: &[char]) -> (r: Vec<char>)
    ensures
        r@ == spec_md_bold_star(v@),
    decreases v@.len(),
{
    let n = v.len();
    match crate::inline::find_span2_pub(v, '*') {
        None => md_bold_under(v),
        Some((st, a, b)) => {
            let mut out = md_bold_under(slice_range(v, 0, st).as_slice());
            append_str(&mut out, "<strong>");
            append_chars(&mut out, slice_range(v, a, b).as_slice());
            append_str(&mut out, "</strong>");
            let rest = slice_range(v, b + 2, n);
            let rendered = md_bold_star(rest.as_slice());
            append_chars(&mut out, rendered.as_slice());
            proof {
                assert(out@ =~= spec_md_bold_star(v@));
            }
            out
        },
    }
}

/// Markdown code spans.
pub open spec fn spec_md_code(s: Seq<char>) -> Seq<char>
    decreases s.len(),
    via spec_md_code_decreases
{
    match spec_find_span1(s, 0, '`') {
        None => spec_md_bold_star(s),
        Some((st, a, b)) => spec_md_bold_star(s.subrange(0, st)) + "<code>"@ + s.subrange(a, b)
            + "</code>"@ + spec_md_code(s.subrange(b + 1, s.len() as int)),
    }
}

#[via_fn]
proof fn spec_md_code_decreases(s: Seq<char>) {
    lemma_find_span1_bounds(s, 0, '`');
}

fn md_code(v: &[char]) -> (r: Vec<char>)
    ensures
        r@ == spec_md_code(v@),
    decreases v@.len(),
{
    let n = v.len();
    match find_span1_pub(v, '`') {
        None => md_bold_star(v),
        Some((st, a, b)) => {
            let mut out = md_bold_star(slice_range(v, 0, st).as_slice());
            append_str(&mut out, "<code>");
            append_chars(&mut out, slice_range(v, a, b).as_slice());
            append_str(&mut out, "</code>");
            let rest = slice_range(v, b + 1, n);
            let rendered = md_code(rest.as_slice());
            append_chars(&mut out, rendered.as_slice());
            proof {
                assert(out@ =~= spec_md_code(v@));
            }
            out
        },
    }
}

/// The Markdown inline markup engine: escaping, then code, bold, italic
/// and links, in that order.
pub open spec fn spec_render_md_inline(s: Seq<char>) -> Seq<char> {
    spec_md_code(spec_escape_html(s))
}

/// Render Markdown inline markup.
pub fn render_md_inline_chars(v: &[char]) -> (r: Vec<char>)
    ensures
        r@ == spec_render_md_inline(v@),
{
    let escaped = escape_html(v);
    md_code(escaped.as_slice())
}

} // verus!
