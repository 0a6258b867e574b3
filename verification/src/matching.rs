//! Glob-style pattern matching support: translation of shell patterns into
//! anchored regular expressions, and path normalization.

use vstd::prelude::*;

use crate::text::{
    append_chars, append_str, from_chars, replace_char, slice_range, spec_replace_char, to_chars,
};

verus! {

/// The first index at or after `j` holding a closing bracket, or the length.
pub open spec fn spec_find_rb(s: Seq<char>, j: int) -> int
    decreases s.len() - j,
{
    if j < 0 || j >= s.len() {
        s.len() as int
    } else if s[j] == ']' {
        j
    } else {
        spec_find_rb(s, j + 1)
    }
}

pub proof fn lemma_find_rb_bounds(s: Seq<char>, j: int)
    requires
        0 <= j <= s.len(),
    ensures
        j <= spec_find_rb(s, j) <= s.len(),
    decreases s.len() - j,
{
    if j < s.len() && s[j] != ']' {
        lemma_find_rb_bounds(s, j + 1);
    }
}

/// Where the body of a character class is scanned from: past an optional
/// negation and an immediate closing bracket that counts as content.
pub open spec fn spec_class_scan_start(s: Seq<char>, i: int) -> int {
    let a = i + 1;
    let b = if a < s.len() && (s[a] == '!' || s[a] == '^') {
        a + 1
    } else {
        a
    };
    if b < s.len() && s[b] == ']' {
        b + 1
    } else {
        b
    }
}

/// The translated body of a character class between `k` and `j`, keeping
/// escape pairs together.
pub open spec fn spec_class_body(s: Seq<char>, k: int, j: int) -> Seq<char>
    decreases j - k,
{
    if k >= j || k < 0 || k >= s.len() {
        Seq::empty()
    } else if s[k] == '\\' && k + 1 < j && k + 1 < s.len() {
        seq!['\\', s[k + 1]] + spec_class_body(s, k + 2, j)
    } else {
        seq![s[k]] + spec_class_body(s, k + 1, j)
    }
}

/// The translation of the pattern from position `i` on.
pub open spec fn spec_translate(s: Seq<char>, i: int) -> Seq<char>
    decreases s.len() - i,
    via spec_translate_decreases
{
    if i < 0 || i >= s.len() {
        Seq::empty()
    } else {
        let c = s[i];
        if c == '*' {
            if i + 1 < s.len() && s[i + 1] == '*' {
                if i + 2 < s.len() && s[i + 2] == '/' {
                    "(?:[^/]+/)*"@ + spec_translate(s, i + 3)
                } else {
                    ".*"@ + spec_translate(s, i + 2)
                }
            } else {
                "[^/]*"@ + spec_translate(s, i + 1)
            }
        } else if c == '?' {
            "[^/]"@ + spec_translate(s, i + 1)
        } else if c == '[' {
            let j = spec_find_rb(s, spec_class_scan_start(s, i));
            if j >= s.len() {
                "\\["@ + spec_translate(s, i + 1)
            } else {
                let neg = i + 1 < s.len() && (s[i + 1] == '!' || s[i + 1] == '^');
                seq!['['] + (if neg {
                    seq!['^']
                } else {
                    Seq::<char>::empty()
                }) + spec_class_body(s, if neg {
                    i + 2
                } else {
                    i + 1
                }, j) + seq![']'] + spec_translate(s, j + 1)
            }
        } else if c == '\\' || c == '.' || c == '^' || c == '$' || c == '+' || c == '{' || c == '}'
            || c == '|' || c == '(' || c == ')' {
            seq!['\\', c] + spec_translate(s, i + 1)
        } else {
            seq![c] + spec_translate(s, i + 1)
        }
    }
}

#[via_fn]
proof fn spec_translate_decreases(s: Seq<char>, i: int) {
    if 0 <= i < s.len() && s[i] == '[' {
        lemma_find_rb_bounds(s, spec_class_scan_start(s, i));
    }
}

/// The whole translation: anchored at both ends.
pub open spec fn spec_translate_pattern(s: Seq<char>) -> Seq<char> {
    seq!['^'] + spec_translate(s, 0) + seq!['$']
}

/// Find the closing bracket at or after `j`.
fn find_rb(v: &[char], j: usize) -> (r: usize)
    requires
        j <= v@.len(),
    ensures
        r as int == spec_find_rb(v@, j as int),
        j <= r <= v@.len(),
    decreases v@.len() - j,
{
    if j >= v.len() {
        return v.len();
    }
    if v[j] == ']' {
        j
    } else {
        find_rb(v, j + 1)
    }
}

/// Translate the class body between `k` and `j`.
fn class_body(v: &[char], k: usize, j: usize) -> (r: Vec<char>)
    requires
        j <= v@.len(),
    ensures
        r@ == spec_class_body(v@, k as int, j as int),
    decreases j - k + 1,
{
    if k >= j || k >= v.len() {
        return Vec::new();
    }
    if v[k] == '\\' && k + 1 < j {
        let mut out: Vec<char> = Vec::new();
        out.push('\\');
        out.push(v[k + 1]);
        let rest = class_body(v, k + 2, j);
        append_chars(&mut out, rest.as_slice());
        proof {
            assert(out@ =~= spec_class_body(v@, k as int, j as int));
        }
        out
    } else {
        let mut out: Vec<char> = Vec::new();
        out.push(v[k]);
        let rest = class_body(v, k + 1, j);
        append_chars(&mut out, rest.as_slice());
        proof {
            assert(out@ =~= spec_class_body(v@, k as int, j as int));
        }
        out
    }
}

/// Translate the pattern from position `i` on.
fn translate_from(v: &[char], i: usize) -> (r: Vec<char>)
    requires
        i <= v@.len(),
    ensures
        r@ == spec_translate(v@, i as int),
    decreases v@.len() - i,
{
    let n = v.len();
    if i >= n {
        return Vec::new();
    }
    let c = v[i];
    let mut out: Vec<char> = Vec::new();
    if c == '*' {
        if i + 1 < n && v[i + 1] == '*' {
            if i + 2 < n && v[i + 2] == '/' {
                append_str(&mut out, "(?:[^/]+/)*");
                let rest = translate_from(v, i + 3);
                append_chars(&mut out, rest.as_slice());
                proof {
                    assert(out@ =~= spec_translate(v@, i as int));
                }
            } else {
                append_str(&mut out, ".*");
                let rest = translate_from(v, i + 2);
                append_chars(&mut out, rest.as_slice());
                proof {
                    assert(out@ =~= spec_translate(v@, i as int));
                }
            }
        } else {
            append_str(&mut out, "[^/]*");
            let rest = translate_from(v, i + 1);
            append_chars(&mut out, rest.as_slice());
            proof {
                assert(out@ =~= spec_translate(v@, i as int));
            }
        }
    } else if c == '?' {
        append_str(&mut out, "[^/]");
        let rest = translate_from(v, i + 1);
        append_chars(&mut out, rest.as_slice());
        proof {
            assert(out@ =~= spec_translate(v@, i as int));
        }
    } else if c == '[' {
        let a = i + 1;
        let b: usize = if a < n && (v[a] == '!' || v[a] == '^') {
            a + 1
        } else {
            a
        };
        let start: usize = if b < n && v[b] == ']' {
            b + 1
        } else {
            b
        };
        proof {
            assert(start as int == spec_class_scan_start(v@, i as int));
        }
        let j = find_rb(v, if start <= n {
            start
        } else {
            n
        });
        if j >= n {
            append_str(&mut out, "\\[");
            let rest = translate_from(v, i + 1);
            append_chars(&mut out, rest.as_slice());
            proof {
                assert(out@ =~= spec_translate(v@, i as int));
            }
        } else {
            let neg = i + 1 < n && (v[i + 1] == '!' || v[i + 1] == '^');
            out.push('[');
            if neg {
                out.push('^');
            }
            let body = class_body(v, if neg {
                i + 2
            } else {
                i + 1
            }, j);
            append_chars(&mut out, body.as_slice());
            out.push(']');
            let rest = translate_from(v, j + 1);
            append_chars(&mut out, rest.as_slice());
            proof {
                assert(out@ =~= spec_translate(v@, i as int));
            }
        }
    } else if c == '\\' || c == '.' || c == '^' || c == '$' || c == '+' || c == '{' || c == '}'
        || c == '|' || c == '(' || c == ')' {
        out.push('\\');
        out.push(c);
        let rest = translate_from(v, i + 1);
        append_chars(&mut out, rest.as_slice());
        proof {
            assert(out@ =~= spec_translate(v@, i as int));
        }
    } else {
        out.push(c);
        let rest = translate_from(v, i + 1);
        append_chars(&mut out, rest.as_slice());
        proof {
            assert(out@ =~= spec_translate(v@, i as int));
        }
    }
    out
}

/// Translate a shell-style glob pattern to an anchored regular expression:
/// `**` crosses directory separators, `*` and `?` do not, and character
/// classes pass through with their negation sign normalized.
pub fn translate_pattern(pattern: &str) -> (r: String)
    ensures
        r@ == spec_translate_pattern(pattern@),
{
    let v = to_chars(pattern);
    let mut out: Vec<char> = Vec::new();
    out.push('^');
    let body = translate_from(v.as_slice(), 0);
    append_chars(&mut out, body.as_slice());
    out.push('$');
    proof {
        assert(out@ =~= spec_translate_pattern(pattern@));
    }
    from_chars(out.as_slice())
}

/// Normalize a path to forward slashes for pattern matching.
pub fn normalize_path(path: &str) -> (r: String)
    ensures
        r@ == spec_replace_char(path@, '\\', '/'),
{
    let v = to_chars(path);
    from_chars(replace_char(v.as_slice(), '\\', '/').as_slice())
}

} // verus!
