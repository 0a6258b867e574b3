//! Verified text utilities: character-sequence conversions, equality,
//! trimming, searching, escaping and number parsing.
//!
//! All executable logic in the crate works over `Vec<char>` so that every
//! step is specified against the `Seq<char>` view of the input strings.

use vstd::prelude::*;

verus! {

// ---------------------------------------------------------------------------
// Trusted bridge to std: pushing a char onto a String.
// ---------------------------------------------------------------------------

/// Relies on String::push: appends the given character to the end of the
/// string.
pub assume_specification[ String::push ](s: &mut String, c: char)
    ensures
        final(s)@ == old(s)@.push(c),
;

// ---------------------------------------------------------------------------
// Trusted character classification (Unicode properties of std).
// ---------------------------------------------------------------------------

/// Whether the character has the Unicode White_Space property.
pub uninterp spec fn char_whitespace(c: char) -> bool;

/// Relies on char::is_whitespace: the White_Space property of the character
/// alone.  The space and tab characters are documented as whitespace.
#[verifier::external_body]
pub fn is_whitespace_char(c: char) -> (r: bool)
    ensures
        r == char_whitespace(c),
        c == ' ' ==> r,
        c == '\t' ==> r,
        c == '.' ==> !r,
{
    c.is_whitespace()
}

/// Whether the character is Unicode alphanumeric (Alphabetic or a number).
pub uninterp spec fn char_alphanumeric(c: char) -> bool;

/// Relies on char::is_alphanumeric: a property of the character alone.
/// ASCII letters and digits are alphanumeric; ASCII spaces and punctuation
/// are not.
#[verifier::external_body]
pub fn is_alphanumeric_char(c: char) -> (r: bool)
    ensures
        r == char_alphanumeric(c),
        ('a' <= c && c <= 'z') ==> r,
        ('A' <= c && c <= 'Z') ==> r,
        ('0' <= c && c <= '9') ==> r,
        (c == ' ' || c == '-' || c == '_' || c == '.') ==> !r,
{
    c.is_alphanumeric()
}

/// Whether the character is Unicode lowercase.
pub uninterp spec fn char_lowercase(c: char) -> bool;

/// Relies on char::is_lowercase: a property of the character alone.
#[verifier::external_body]
pub fn is_lowercase_char(c: char) -> (r: bool)
    ensures
        r == char_lowercase(c),
{
    c.is_lowercase()
}

/// Whether the character is Unicode uppercase.
pub uninterp spec fn char_uppercase(c: char) -> bool;

/// Relies on char::is_uppercase: a property of the character alone.
#[verifier::external_body]
pub fn is_uppercase_char(c: char) -> (r: bool)
    ensures
        r == char_uppercase(c),
{
    c.is_uppercase()
}

/// Whether the character is Unicode numeric.
pub uninterp spec fn char_numeric(c: char) -> bool;

/// Relies on char::is_numeric: a property of the character alone.
#[verifier::external_body]
pub fn is_numeric_char(c: char) -> (r: bool)
    ensures
        r == char_numeric(c),
{
    c.is_numeric()
}

/// The Unicode lowercase conversion of a sequence of characters.
pub uninterp spec fn lower_of(s: Seq<char>) -> Seq<char>;

/// Relies on str::to_lowercase: the result depends on the characters alone.
/// An empty string stays empty.
#[verifier::external_body]
pub fn lowercase_str(s: &str) -> (r: String)
    ensures
        r@ == lower_of(s@),
        s@.len() == 0 ==> r@.len() == 0,
{
    s.to_lowercase()
}

// ---------------------------------------------------------------------------
// Conversions between &str / String and Vec<char> (fully verified).
// ---------------------------------------------------------------------------

/// Collect the characters of a string slice into a vector.
pub fn to_chars(s: &str) -> (r: Vec<char>)
    ensures
        r@ == s@,
{
    let n = s.unicode_len();
    let mut r: Vec<char> = Vec::new();
    let mut i: usize = 0;
    while i < n
        invariant
            n == s@.len(),
            i <= n,
            r@ == s@.subrange(0, i as int),
        decreases n - i,
    {
        r.push(s.get_char(i));
        i += 1;
        proof {
            assert(r@ =~= s@.subrange(0, i as int));
        }
    }
    proof {
        assert(r@ =~= s@);
    }
    r
}

/// Build a String from a slice of characters.
pub fn from_chars(v: &[char]) -> (r: String)
    ensures
        r@ == v@,
{
    let mut r = String::new();
    let mut i: usize = 0;
    while i < v.len()
        invariant
            i <= v@.len(),
            r@ == v@.subrange(0, i as int),
        decreases v@.len() - i,
    {
        r.push(v[i]);
        i += 1;
        proof {
            assert(r@ =~= v@.subrange(0, i as int));
        }
    }
    proof {
        assert(r@ =~= v@);
    }
    r
}

/// Character-wise equality of two string slices.
pub fn str_eq(a: &str, b: &str) -> (r: bool)
    ensures
        r == (a@ == b@),
{
    let na = a.unicode_len();
    let nb = b.unicode_len();
    if na != nb {
        proof {
            assert(a@ != b@) by {
                if a@ == b@ {
                    assert(a@.len() == b@.len());
                }
            }
        }
        return false;
    }
    let mut i: usize = 0;
    while i < na
        invariant
            na == a@.len(),
            na == b@.len(),
            i <= na,
            forall|j: int| 0 <= j < i ==> a@[j] == b@[j],
        decreases na - i,
    {
        if a.get_char(i) != b.get_char(i) {
            return false;
        }
        i += 1;
    }
    proof {
        assert(a@ =~= b@);
    }
    true
}

/// Character-slice equality.
pub fn chars_eq(a: &[char], b: &[char]) -> (r: bool)
    ensures
        r == (a@ == b@),
{
    if a.len() != b.len() {
        proof {
            assert(a@ != b@) by {
                if a@ == b@ {
                    assert(a@.len() == b@.len());
                }
            }
        }
        return false;
    }
    let mut i: usize = 0;
    while i < a.len()
        invariant
            a@.len() == b@.len(),
            i <= a@.len(),
            forall|j: int| 0 <= j < i ==> a@[j] == b@[j],
        decreases a@.len() - i,
    {
        if a[i] != b[i] {
            return false;
        }
        i += 1;
    }
    proof {
        assert(a@ =~= b@);
    }
    true
}

/// Equality between a character slice and a string slice.
pub fn chars_eq_str(a: &[char], b: &str) -> (r: bool)
    ensures
        r == (a@ == b@),
{
    let bc = to_chars(b);
    chars_eq(a, bc.as_slice())
}

// ---------------------------------------------------------------------------
// Trimming (verified against recursive specifications).
// ---------------------------------------------------------------------------

/// The sequence with its leading whitespace removed.
pub open spec fn spec_trim_start(s: Seq<char>) -> Seq<char>
    decreases s.len(),
{
    if s.len() > 0 && char_whitespace(s[0]) {
        spec_trim_start(s.drop_first())
    } else {
        s
    }
}

/// The sequence with its trailing whitespace removed.
pub open spec fn spec_trim_end(s: Seq<char>) -> Seq<char>
    decreases s.len(),
{
    if s.len() > 0 && char_whitespace(s[s.len() - 1]) {
        spec_trim_end(s.drop_last())
    } else {
        s
    }
}

/// The sequence with whitespace removed from both ends.
pub open spec fn spec_trim(s: Seq<char>) -> Seq<char> {
    spec_trim_end(spec_trim_start(s))
}

/// A sequence is blank when it trims to nothing.
pub open spec fn spec_is_blank(s: Seq<char>) -> bool {
    spec_trim(s).len() == 0
}

pub proof fn lemma_trim_start_prefix(s: Seq<char>, i: int)
    requires
        0 <= i <= s.len(),
        forall|j: int| 0 <= j < i ==> char_whitespace(s[j]),
    ensures
        spec_trim_start(s) == spec_trim_start(s.subrange(i, s.len() as int)),
    decreases i,
{
    if i > 0 {
        assert(char_whitespace(s[0]));
        assert(s.drop_first() =~= s.subrange(1, s.len() as int));
        lemma_trim_start_prefix(s.drop_first(), i - 1);
        assert(s.drop_first().subrange(i - 1, s.drop_first().len() as int)
            =~= s.subrange(i, s.len() as int));
    } else {
        assert(s.subrange(0, s.len() as int) =~= s);
    }
}

pub proof fn lemma_trim_start_noop(s: Seq<char>)
    requires
        s.len() > 0 ==> !char_whitespace(s[0]),
    ensures
        spec_trim_start(s) == s,
{
}

pub proof fn lemma_trim_end_suffix(s: Seq<char>, j: int)
    requires
        0 <= j <= s.len(),
        forall|k: int| j <= k < s.len() ==> char_whitespace(s[k]),
    ensures
        spec_trim_end(s) == spec_trim_end(s.subrange(0, j)),
    decreases s.len() - j,
{
    if j < s.len() {
        assert(char_whitespace(s[s.len() - 1]));
        assert(s.drop_last() =~= s.subrange(0, s.len() - 1));
        lemma_trim_end_suffix(s.drop_last(), j);
        assert(s.drop_last().subrange(0, j) =~= s.subrange(0, j));
    } else {
        assert(s.subrange(0, s.len() as int) =~= s);
    }
}

pub proof fn lemma_trim_end_noop(s: Seq<char>)
    requires
        s.len() > 0 ==> !char_whitespace(s[s.len() - 1]),
    ensures
        spec_trim_end(s) == s,
{
}

/// Remove whitespace from both ends of a character vector.
pub fn trim_chars(v: &[char]) -> (r: Vec<char>)
    ensures
        r@ == spec_trim(v@),
{
    let n = v.len();
    let mut i: usize = 0;
    while i < n && is_whitespace_char(v[i])
        invariant
            n == v@.len(),
            i <= n,
            forall|j: int| 0 <= j < i ==> char_whitespace(v@[j]),
        decreases n - i,
    {
        i += 1;
    }
    let mut j: usize = n;
    while j > i && is_whitespace_char(v[j - 1])
        invariant
            n == v@.len(),
            i <= j <= n,
            forall|j2: int| 0 <= j2 < i ==> char_whitespace(v@[j2]),
            forall|k: int| j <= k < n ==> char_whitespace(v@[k]),
            i < n ==> !char_whitespace(v@[i as int]),
        decreases j,
    {
        j -= 1;
    }
    let mut r: Vec<char> = Vec::new();
    let mut k: usize = i;
    while k < j
        invariant
            n == v@.len(),
            i <= k <= j <= n,
            r@ == v@.subrange(i as int, k as int),
        decreases j - k,
    {
        r.push(v[k]);
        k += 1;
        proof {
            assert(r@ =~= v@.subrange(i as int, k as int));
        }
    }
    proof {
        assert(r@ =~= v@.subrange(i as int, j as int));
        let mid = v@.subrange(i as int, n as int);
        lemma_trim_start_prefix(v@, i as int);
        if i < n {
            assert(mid[0] == v@[i as int]);
            lemma_trim_start_noop(mid);
        } else {
            assert(mid.len() == 0);
            lemma_trim_start_noop(mid);
        }
        assert(spec_trim_start(v@) == mid);
        lemma_trim_end_suffix(mid, j - i);
        assert(mid.subrange(0, j - i) =~= v@.subrange(i as int, j as int));
        let cut = v@.subrange(i as int, j as int);
        if i < j {
            assert(cut[cut.len() - 1] == v@[j - 1]);
            lemma_trim_end_noop(cut);
        } else {
            lemma_trim_end_noop(cut);
        }
        assert(spec_trim(v@) == cut);
    }
    r
}

/// Remove whitespace from the start of a character vector.
pub fn trim_start_chars(v: &[char]) -> (r: Vec<char>)
    ensures
        r@ == spec_trim_start(v@),
{
    let n = v.len();
    let i = count_ws_from(v, 0);
    proof {
        lemma_count_ws_bounds(v@);
        assert(v@.subrange(0, n as int) =~= v@);
        lemma_trim_start_prefix(v@, i as int);
        let mid = v@.subrange(i as int, n as int);
        if i < n {
            assert(mid[0] == v@[i as int]);
            lemma_trim_start_noop(mid);
        } else {
            lemma_trim_start_noop(mid);
        }
    }
    slice_range(v, i, n)
}

/// Remove whitespace from the end of a character vector.
pub fn trim_end_chars(v: &[char]) -> (r: Vec<char>)
    ensures
        r@ == spec_trim_end(v@),
{
    let n = v.len();
    let mut j: usize = n;
    while j > 0 && is_whitespace_char(v[j - 1])
        invariant
            n == v@.len(),
            j <= n,
            forall|k: int| j <= k < n ==> char_whitespace(v@[k]),
        decreases j,
    {
        j -= 1;
    }
    let mut r: Vec<char> = Vec::new();
    let mut k: usize = 0;
    while k < j
        invariant
            k <= j <= n,
            n == v@.len(),
            r@ == v@.subrange(0, k as int),
        decreases j - k,
    {
        r.push(v[k]);
        k += 1;
        proof {
            assert(r@ =~= v@.subrange(0, k as int));
        }
    }
    proof {
        lemma_trim_end_suffix(v@, j as int);
        let cut = v@.subrange(0, j as int);
        if j > 0 {
            assert(cut[cut.len() - 1] == v@[j - 1]);
            lemma_trim_end_noop(cut);
        } else {
            lemma_trim_end_noop(cut);
        }
    }
    r
}

// ---------------------------------------------------------------------------
// Searching.
// ---------------------------------------------------------------------------

/// Whether `pat` occurs in `s` starting at position `i`.
pub open spec fn spec_occurs_at(s: Seq<char>, pat: Seq<char>, i: int) -> bool {
    0 <= i && i + pat.len() <= s.len() && s.subrange(i, i + pat.len()) == pat
}

/// Whether `pat` occurs anywhere in `s`.
pub open spec fn spec_contains(s: Seq<char>, pat: Seq<char>) -> bool {
    exists|i: int| spec_occurs_at(s, pat, i)
}

/// Whether `v` carries the characters of `pat` starting at position `from`.
pub fn occurs_at(v: &[char], pat: &[char], from: usize) -> (r: bool)
    ensures
        r == spec_occurs_at(v@, pat@, from as int),
{
    let n = v.len();
    let m = pat.len();
    if from > n || m > n - from {
        return false;
    }
    let mut k: usize = 0;
    while k < m
        invariant
            n == v@.len(),
            m == pat@.len(),
            from + m <= n,
            k <= m,
            forall|j: int| 0 <= j < k ==> v@[from + j] == pat@[j],
        decreases m - k,
    {
        if v[from + k] != pat[k] {
            proof {
                assert(v@.subrange(from as int, from + pat@.len())[k as int] == v@[from + k]);
            }
            return false;
        }
        k += 1;
    }
    proof {
        assert(v@.subrange(from as int, from + pat@.len()) =~= pat@);
    }
    true
}

/// Find the first occurrence of `pat` in `v` at or after `from`.
pub fn find_sub(v: &[char], pat: &[char], from: usize) -> (r: Option<usize>)
    ensures
        match r {
            Some(i) => from <= i && spec_occurs_at(v@, pat@, i as int) && forall|j: int|
                from <= j < i ==> !spec_occurs_at(v@, pat@, j),
            None => forall|j: int| from <= j ==> !spec_occurs_at(v@, pat@, j),
        },
{
    let n = v.len();
    let m = pat.len();
    if m > n || from > n - m {
        proof {
            assert(forall|j: int| from <= j ==> !spec_occurs_at(v@, pat@, j));
        }
        return None;
    }
    let bound = n - m;
    let mut i: usize = from;
    while i <= bound
        invariant
            n == v@.len(),
            m == pat@.len(),
            m <= n,
            bound == n - m,
            from <= i,
            forall|j: int| from <= j < i ==> !spec_occurs_at(v@, pat@, j),
        decreases bound + 1 - i,
    {
        if occurs_at(v, pat, i) {
            return Some(i);
        }
        if i == bound {
            proof {
                assert(forall|j: int| j > bound ==> !spec_occurs_at(v@, pat@, j));
            }
            return None;
        }
        i += 1;
    }
    proof {
        assert(forall|j: int| j > bound ==> !spec_occurs_at(v@, pat@, j));
    }
    None
}

/// Whether `pat` occurs anywhere in `v`.
pub fn contains_sub(v: &[char], pat: &[char]) -> (r: bool)
    ensures
        r == spec_contains(v@, pat@),
{
    match find_sub(v, pat, 0) {
        Some(_) => true,
        None => {
            proof {
                assert(forall|j: int| spec_occurs_at(v@, pat@, j) ==> j >= 0);
            }
            false
        },
    }
}

/// Find the first position of character `c` in `v` at or after `from`.
pub fn find_char(v: &[char], c: char, from: usize) -> (r: Option<usize>)
    ensures
        match r {
            Some(i) => from <= i < v@.len() && v@[i as int] == c && forall|j: int|
                from <= j < i ==> v@[j] != c,
            None => forall|j: int| from <= j < v@.len() ==> v@[j] != c,
        },
{
    let mut i: usize = from;
    while i < v.len()
        invariant
            from <= i,
            forall|j: int| from <= j < i && j < v@.len() ==> v@[j] != c,
        decreases v@.len() - i,
    {
        if v[i] == c {
            return Some(i);
        }
        i += 1;
    }
    None
}

/// Find the last position of character `c` in `v`.
pub fn rfind_char(v: &[char], c: char) -> (r: Option<usize>)
    ensures
        match r {
            Some(i) => i < v@.len() && v@[i as int] == c && forall|j: int|
                i < j < v@.len() ==> v@[j] != c,
            None => forall|j: int| 0 <= j < v@.len() ==> v@[j] != c,
        },
{
    let mut i: usize = v.len();
    while i > 0
        invariant
            i <= v@.len(),
            forall|j: int| i <= j < v@.len() ==> v@[j] != c,
        decreases i,
    {
        i -= 1;
        if v[i] == c {
            return Some(i);
        }
    }
    None
}

/// Whether `v` contains the character `c`.
pub fn contains_char(v: &[char], c: char) -> (r: bool)
    ensures
        r == v@.contains(c),
{
    match find_char(v, c, 0) {
        Some(_) => true,
        None => {
            proof {
                assert(!v@.contains(c)) by {
                    if v@.contains(c) {
                        let i = choose|i: int| 0 <= i < v@.len() && v@[i] == c;
                        assert(v@[i] == c);
                    }
                }
            }
            false
        },
    }
}

/// The number of occurrences of character `c` in `s`.
pub open spec fn spec_count_char(s: Seq<char>, c: char) -> int
    decreases s.len(),
{
    if s.len() == 0 {
        0
    } else {
        spec_count_char(s.drop_last(), c) + if s[s.len() - 1] == c {
            1int
        } else {
            0int
        }
    }
}

proof fn lemma_count_char_bound(s: Seq<char>, c: char)
    ensures
        0 <= spec_count_char(s, c) <= s.len(),
    decreases s.len(),
{
    if s.len() > 0 {
        lemma_count_char_bound(s.drop_last(), c);
    }
}

/// Count how many times `c` appears in `v`.
pub fn count_char(v: &[char], c: char) -> (r: usize)
    ensures
        r == spec_count_char(v@, c),
{
    let mut r: usize = 0;
    let mut i: usize = 0;
    proof {
        assert(v@.subrange(0, 0) =~= Seq::<char>::empty());
    }
    while i < v.len()
        invariant
            i <= v@.len(),
            r <= i,
            r == spec_count_char(v@.subrange(0, i as int), c),
        decreases v@.len() - i,
    {
        proof {
            let pre = v@.subrange(0, i + 1);
            assert(pre.drop_last() =~= v@.subrange(0, i as int));
            assert(pre[pre.len() - 1] == v@[i as int]);
        }
        if v[i] == c {
            r += 1;
        }
        i += 1;
    }
    proof {
        assert(v@.subrange(0, v@.len() as int) =~= v@);
    }
    r
}

// ---------------------------------------------------------------------------
// HTML escaping.
// ---------------------------------------------------------------------------

/// The HTML escaping of one character: `&`, `<` and `>` become entities.
pub open spec fn spec_escape_char(c: char) -> Seq<char> {
    if c == '&' {
        seq!['&', 'a', 'm', 'p', ';']
    } else if c == '<' {
        seq!['&', 'l', 't', ';']
    } else if c == '>' {
        seq!['&', 'g', 't', ';']
    } else {
        seq![c]
    }
}

/// The HTML escaping of a text: each `&`, `<` and `>` replaced by its entity.
pub open spec fn spec_escape_html(s: Seq<char>) -> Seq<char>
    decreases s.len(),
{
    if s.len() == 0 {
        Seq::empty()
    } else {
        spec_escape_html(s.drop_last()) + spec_escape_char(s[s.len() - 1])
    }
}

/// Escape `&`, `<` and `>` for use in HTML text.
pub fn escape_html(v: &[char]) -> (r: Vec<char>)
    ensures
        r@ == spec_escape_html(v@),
{
    let mut r: Vec<char> = Vec::new();
    let mut i: usize = 0;
    proof {
        assert(v@.subrange(0, 0) =~= Seq::<char>::empty());
    }
    while i < v.len()
        invariant
            i <= v@.len(),
            r@ == spec_escape_html(v@.subrange(0, i as int)),
        decreases v@.len() - i,
    {
        proof {
            let pre = v@.subrange(0, i + 1);
            assert(pre.drop_last() =~= v@.subrange(0, i as int));
            assert(pre[pre.len() - 1] == v@[i as int]);
        }
        let c = v[i];
        if c == '&' {
            r.push('&');
            r.push('a');
            r.push('m');
            r.push('p');
            r.push(';');
        } else if c == '<' {
            r.push('&');
            r.push('l');
            r.push('t');
            r.push(';');
        } else if c == '>' {
            r.push('&');
            r.push('g');
            r.push('t');
            r.push(';');
        } else {
            r.push(c);
        }
        proof {
            assert(r@ =~= spec_escape_html(v@.subrange(0, i + 1)));
        }
        i += 1;
    }
    proof {
        assert(v@.subrange(0, v@.len() as int) =~= v@);
    }
    r
}

// ---------------------------------------------------------------------------
// Splitting into lines and around separators.
// ---------------------------------------------------------------------------

/// Index of the first occurrence of `c` in `s`, or -1.
pub open spec fn spec_find_char(s: Seq<char>, c: char) -> int
    decreases s.len(),
{
    if s.len() == 0 {
        -1
    } else if s[0] == c {
        0
    } else {
        let r = spec_find_char(s.drop_first(), c);
        if r < 0 {
            -1
        } else {
            r + 1
        }
    }
}

pub proof fn lemma_find_char_at(s: Seq<char>, c: char, i: int)
    requires
        0 <= i < s.len(),
        s[i] == c,
        forall|j: int| 0 <= j < i ==> s[j] != c,
    ensures
        spec_find_char(s, c) == i,
    decreases i,
{
    if i > 0 {
        lemma_find_char_at(s.drop_first(), c, i - 1);
    }
}

pub proof fn lemma_find_char_none(s: Seq<char>, c: char)
    requires
        forall|j: int| 0 <= j < s.len() ==> s[j] != c,
    ensures
        spec_find_char(s, c) == -1,
    decreases s.len(),
{
    if s.len() > 0 {
        lemma_find_char_none(s.drop_first(), c);
    }
}

pub proof fn lemma_find_char_props(s: Seq<char>, c: char)
    ensures
        spec_find_char(s, c) >= 0 ==> spec_find_char(s, c) < s.len() && s[spec_find_char(s, c)]
            == c,
        spec_find_char(s, c) < 0 ==> spec_find_char(s, c) == -1,
    decreases s.len(),
{
    if s.len() > 0 && s[0] != c {
        lemma_find_char_props(s.drop_first(), c);
    }
}

/// A sequence with one trailing carriage return removed.
pub open spec fn spec_strip_cr(s: Seq<char>) -> Seq<char> {
    if s.len() > 0 && s[s.len() - 1] == '\r' {
        s.drop_last()
    } else {
        s
    }
}

/// The lines of a text, split at `\n`, with a `\r` before each split point
/// removed and no final empty line (the semantics of str::lines).
pub open spec fn spec_lines(s: Seq<char>) -> Seq<Seq<char>>
    decreases s.len(),
    via spec_lines_decreases
{
    if s.len() == 0 {
        Seq::empty()
    } else {
        let i = spec_find_char(s, '\n');
        if i < 0 {
            seq![s]
        } else {
            seq![spec_strip_cr(s.subrange(0, i))] + spec_lines(
                s.subrange(i + 1, s.len() as int),
            )
        }
    }
}

#[via_fn]
proof fn spec_lines_decreases(s: Seq<char>) {
    lemma_find_char_props(s, '\n');
}

/// Split a character vector into its lines.
pub fn split_lines(v: &[char]) -> (r: Vec<Vec<char>>)
    ensures
        r.deep_view() == spec_lines(v@),
{
    let mut out: Vec<Vec<char>> = Vec::new();
    let mut start: usize = 0;
    proof {
        assert(v@.subrange(0, v@.len() as int) =~= v@);
        assert(out.deep_view() + spec_lines(v@) =~~= spec_lines(v@));
    }
    while start < v.len()
        invariant
            start <= v@.len(),
            spec_lines(v@) == out.deep_view() + spec_lines(
                v@.subrange(start as int, v@.len() as int),
            ),
        decreases v@.len() - start,
    {
        let ghost rest = v@.subrange(start as int, v@.len() as int);
        let ghost oldout = out.deep_view();
        proof {
            assert(forall|j: int| 0 <= j < rest.len() ==> rest[j] == v@[start + j]);
        }
        match find_char(v, '\n', start) {
            None => {
                let mut seg: Vec<char> = Vec::new();
                let mut k: usize = start;
                while k < v.len()
                    invariant
                        start <= k <= v@.len(),
                        seg@ == v@.subrange(start as int, k as int),
                    decreases v@.len() - k,
                {
                    seg.push(v[k]);
                    k += 1;
                    proof {
                        assert(seg@ =~= v@.subrange(start as int, k as int));
                    }
                }
                proof {
                    assert(seg@ =~= rest);
                    lemma_find_char_none(rest, '\n');
                    assert(spec_lines(rest) == seq![rest]);
                }
                out.push(seg);
                start = v.len();
                proof {
                    assert(out.deep_view() =~~= oldout + seq![rest]);
                    assert(oldout + seq![rest] =~~= oldout + spec_lines(rest));
                    let tail = v@.subrange(v@.len() as int, v@.len() as int);
                    assert(tail.len() == 0);
                    assert(out.deep_view() + spec_lines(tail) =~~= out.deep_view());
                }
            },
            Some(i) => {
                let mut seg: Vec<char> = Vec::new();
                let stop: usize = if i > start && v[i - 1] == '\r' {
                    i - 1
                } else {
                    i
                };
                let mut k: usize = start;
                while k < stop
                    invariant
                        start <= k <= stop <= v@.len(),
                        seg@ == v@.subrange(start as int, k as int),
                    decreases stop - k,
                {
                    seg.push(v[k]);
                    k += 1;
                    proof {
                        assert(seg@ =~= v@.subrange(start as int, k as int));
                    }
                }
                proof {
                    let pre = rest.subrange(0, i - start);
                    assert(rest[i - start] == '\n');
                    lemma_find_char_at(rest, '\n', i - start);
                    assert(seg@ =~= spec_strip_cr(pre)) by {
                        if i > start && v@[i - 1] == '\r' {
                            assert(pre[pre.len() - 1] == '\r');
                            assert(seg@ =~= pre.drop_last());
                        } else {
                            if pre.len() > 0 {
                                assert(pre[pre.len() - 1] == v@[i - 1]);
                            }
                            assert(seg@ =~= pre);
                        }
                    }
                    assert(rest.subrange(i - start + 1, rest.len() as int) =~= v@.subrange(
                        i + 1,
                        v@.len() as int,
                    ));
                    assert(spec_lines(rest) == seq![seg@] + spec_lines(
                        v@.subrange(i + 1, v@.len() as int),
                    ));
                }
                out.push(seg);
                start = i + 1;
                proof {
                    let ghost segv = seg@;
                    assert(out.deep_view() =~~= oldout + seq![segv]);
                    assert(oldout + seq![segv] + spec_lines(
                        v@.subrange(start as int, v@.len() as int),
                    ) =~~= oldout + spec_lines(rest));
                }
            },
        }
    }
    proof {
        let tail = v@.subrange(start as int, v@.len() as int);
        assert(tail.len() == 0);
        assert(out.deep_view() + spec_lines(tail) =~~= out.deep_view());
    }
    out
}

/// The segments of `s` split around every occurrence of `c` (empty segments
/// kept, as str::split does).
pub open spec fn spec_split_char(s: Seq<char>, c: char) -> Seq<Seq<char>>
    decreases s.len(),
    via spec_split_char_decreases
{
    let i = spec_find_char(s, c);
    if i < 0 {
        seq![s]
    } else {
        seq![s.subrange(0, i)] + spec_split_char(s.subrange(i + 1, s.len() as int), c)
    }
}

#[via_fn]
proof fn spec_split_char_decreases(s: Seq<char>, c: char) {
    lemma_find_char_props(s, c);
}

/// Split a character vector around every occurrence of `c`.
pub fn split_char(v: &[char], c: char) -> (r: Vec<Vec<char>>)
    ensures
        r.deep_view() == spec_split_char(v@, c),
{
    let n = v.len();
    let mut out: Vec<Vec<char>> = Vec::new();
    let mut start: usize = 0;
    proof {
        assert(v@.subrange(0, v@.len() as int) =~= v@);
        assert(out.deep_view() + spec_split_char(v@, c) =~~= spec_split_char(v@, c));
    }
    loop
        invariant
            n == v@.len(),
            start <= v@.len(),
            spec_split_char(v@, c) == out.deep_view() + spec_split_char(
                v@.subrange(start as int, v@.len() as int),
                c,
            ),
        decreases v@.len() + 1 - start,
    {
        let ghost rest = v@.subrange(start as int, v@.len() as int);
        let ghost oldout = out.deep_view();
        proof {
            assert(forall|j: int| 0 <= j < rest.len() ==> rest[j] == v@[start + j]);
        }
        match find_char(v, c, start) {
            None => {
                let mut seg: Vec<char> = Vec::new();
                let mut k: usize = start;
                while k < v.len()
                    invariant
                        start <= k <= v@.len(),
                        seg@ == v@.subrange(start as int, k as int),
                    decreases v@.len() - k,
                {
                    seg.push(v[k]);
                    k += 1;
                    proof {
                        assert(seg@ =~= v@.subrange(start as int, k as int));
                    }
                }
                proof {
                    assert(seg@ =~= rest);
                    lemma_find_char_none(rest, c);
                    assert(spec_split_char(rest, c) == seq![rest]);
                }
                out.push(seg);
                proof {
                    assert(out.deep_view() =~~= oldout + seq![rest]);
                    assert(oldout + seq![rest] =~~= oldout + spec_split_char(rest, c));
                }
                return out;
            },
            Some(i) => {
                let mut seg: Vec<char> = Vec::new();
                let mut k: usize = start;
                while k < i
                    invariant
                        start <= k <= i <= v@.len(),
                        seg@ == v@.subrange(start as int, k as int),
                    decreases i - k,
                {
                    seg.push(v[k]);
                    k += 1;
                    proof {
                        assert(seg@ =~= v@.subrange(start as int, k as int));
                    }
                }
                proof {
                    assert(rest[i - start] == c);
                    lemma_find_char_at(rest, c, i - start);
                    assert(seg@ =~= rest.subrange(0, i - start));
                    assert(rest.subrange(i - start + 1, rest.len() as int) =~= v@.subrange(
                        i + 1,
                        v@.len() as int,
                    ));
                    assert(spec_split_char(rest, c) == seq![rest.subrange(0, i - start)]
                        + spec_split_char(v@.subrange(i + 1, v@.len() as int), c));
                }
                out.push(seg);
                start = i + 1;
                proof {
                    let ghost segv = seg@;
                    assert(out.deep_view() =~~= oldout + seq![segv]);
                    assert(oldout + seq![segv] + spec_split_char(
                        v@.subrange(start as int, v@.len() as int),
                        c,
                    ) =~~= oldout + spec_split_char(rest, c));
                }
            },
        }
    }
}

/// The concatenation of `parts` with `sep` between consecutive parts.
pub open spec fn spec_join(parts: Seq<Seq<char>>, sep: Seq<char>) -> Seq<char>
    decreases parts.len(),
{
    if parts.len() == 0 {
        Seq::empty()
    } else if parts.len() == 1 {
        parts[0]
    } else {
        parts[0] + sep + spec_join(parts.drop_first(), sep)
    }
}

/// Join character vectors with a separator.
pub fn join_chars(parts: &Vec<Vec<char>>, sep: &[char]) -> (r: Vec<char>)
    ensures
        r@ == spec_join(parts.deep_view(), sep@),
{
    let mut r: Vec<char> = Vec::new();
    let mut i: usize = 0;
    let ghost pv = parts.deep_view();
    while i < parts.len()
        invariant
            i <= parts@.len(),
            pv == parts.deep_view(),
            pv.len() == parts@.len(),
            r@ == spec_join_prefix(pv, sep@, i as int),
        decreases parts@.len() - i,
    {
        if i > 0 {
            let mut k: usize = 0;
            while k < sep.len()
                invariant
                    k <= sep@.len(),
                    r@ == spec_join_prefix(pv, sep@, i as int) + sep@.subrange(0, k as int),
                decreases sep@.len() - k,
            {
                r.push(sep[k]);
                k += 1;
                proof {
                    assert(r@ =~= spec_join_prefix(pv, sep@, i as int) + sep@.subrange(
                        0,
                        k as int,
                    ));
                }
            }
            proof {
                assert(sep@.subrange(0, sep@.len() as int) =~= sep@);
            }
        }
        let part = &parts[i];
        let mut k: usize = 0;
        proof {
            assert(parts@[i as int]@ == pv[i as int]);
            if i == 0 {
                assert(r@ + pv[i as int].subrange(0, 0) =~= r@);
            }
        }
        let ghost base = r@;
        while k < part.len()
            invariant
                k <= part@.len(),
                part@ == parts@[i as int]@,
                i < pv.len(),
                pv[i as int] == part@,
                r@ == base + pv[i as int].subrange(0, k as int),
            decreases part@.len() - k,
        {
            r.push(part[k]);
            k += 1;
            proof {
                assert(r@ =~= base + pv[i as int].subrange(0, k as int));
            }
        }
        proof {
            assert(pv[i as int].subrange(0, pv[i as int].len() as int) =~= pv[i as int]);
        }
        i += 1;
        proof {
            lemma_join_prefix_step(pv, sep@, i as int);
            assert(r@ =~= spec_join_prefix(pv, sep@, i as int));
        }
    }
    proof {
        lemma_join_prefix_full(pv, sep@);
    }
    r
}

/// The join of the first `n` parts.
pub open spec fn spec_join_prefix(parts: Seq<Seq<char>>, sep: Seq<char>, n: int) -> Seq<char>
    decreases n,
{
    if n <= 0 {
        Seq::empty()
    } else if n == 1 {
        parts[0]
    } else {
        spec_join_prefix(parts, sep, n - 1) + sep + parts[n - 1]
    }
}

proof fn lemma_join_prefix_step(parts: Seq<Seq<char>>, sep: Seq<char>, n: int)
    requires
        1 <= n <= parts.len(),
    ensures
        spec_join_prefix(parts, sep, n) == if n == 1 {
            parts[0]
        } else {
            spec_join_prefix(parts, sep, n - 1) + sep + parts[n - 1]
        },
{
}

proof fn lemma_join_prefix_full(parts: Seq<Seq<char>>, sep: Seq<char>)
    ensures
        spec_join_prefix(parts, sep, parts.len() as int) == spec_join(parts, sep),
    decreases parts.len(),
{
    if parts.len() > 1 {
        lemma_join_prefix_full(parts.drop_last(), sep);
        lemma_join_drop_last(parts, sep);
        assert(forall|k: int| 0 <= k < parts.len() - 1 ==> parts.drop_last()[k] == parts[k]);
        lemma_join_prefix_same(parts.drop_last(), parts, sep, parts.len() - 1);
    }
}

proof fn lemma_join_prefix_same(a: Seq<Seq<char>>, b: Seq<Seq<char>>, sep: Seq<char>, n: int)
    requires
        forall|k: int| 0 <= k < n ==> a[k] == b[k],
        n <= a.len(),
        n <= b.len(),
    ensures
        spec_join_prefix(a, sep, n) == spec_join_prefix(b, sep, n),
    decreases n,
{
    if n > 1 {
        lemma_join_prefix_same(a, b, sep, n - 1);
    }
}

proof fn lemma_join_drop_last(parts: Seq<Seq<char>>, sep: Seq<char>)
    requires
        parts.len() >= 2,
    ensures
        spec_join(parts, sep) == spec_join(parts.drop_last(), sep) + sep + parts[parts.len()
            - 1],
    decreases parts.len(),
{
    if parts.len() == 2 {
        assert(parts.drop_first() =~= seq![parts[1]]);
        assert(parts.drop_last() =~= seq![parts[0]]);
        assert(spec_join(seq![parts[1]], sep) == parts[1]);
        assert(spec_join(seq![parts[0]], sep) == parts[0]);
        assert(spec_join(parts, sep) =~= spec_join(parts.drop_last(), sep) + sep
            + parts[parts.len() - 1]);
    } else {
        lemma_join_drop_last(parts.drop_first(), sep);
        assert(parts.drop_first().drop_last() =~= parts.drop_last().drop_first());
        assert(parts.drop_last()[0] == parts[0]);
        assert(spec_join(parts.drop_last(), sep) == parts[0] + sep + spec_join(
            parts.drop_last().drop_first(),
            sep,
        ));
        assert(parts.drop_first()[parts.drop_first().len() - 1] == parts[parts.len() - 1]);
        assert((parts[0] + sep + (spec_join(parts.drop_first().drop_last(), sep) + sep
            + parts[parts.len() - 1])) =~= (parts[0] + sep + spec_join(
            parts.drop_first().drop_last(),
            sep,
        )) + sep + parts[parts.len() - 1]);
        assert(spec_join(parts, sep) =~= spec_join(parts.drop_last(), sep) + sep
            + parts[parts.len() - 1]);
    }
}

// ---------------------------------------------------------------------------
// Splitting on whitespace and on sets of characters.
// ---------------------------------------------------------------------------

/// Index of the first whitespace character in `s`, or -1.
pub open spec fn spec_find_ws(s: Seq<char>) -> int
    decreases s.len(),
{
    if s.len() == 0 {
        -1
    } else if char_whitespace(s[0]) {
        0
    } else {
        let r = spec_find_ws(s.drop_first());
        if r < 0 {
            -1
        } else {
            r + 1
        }
    }
}

pub proof fn lemma_find_ws_at(s: Seq<char>, i: int)
    requires
        0 <= i < s.len(),
        char_whitespace(s[i]),
        forall|j: int| 0 <= j < i ==> !char_whitespace(s[j]),
    ensures
        spec_find_ws(s) == i,
    decreases i,
{
    if i > 0 {
        lemma_find_ws_at(s.drop_first(), i - 1);
    }
}

pub proof fn lemma_find_ws_none(s: Seq<char>)
    requires
        forall|j: int| 0 <= j < s.len() ==> !char_whitespace(s[j]),
    ensures
        spec_find_ws(s) == -1,
    decreases s.len(),
{
    if s.len() > 0 {
        lemma_find_ws_none(s.drop_first());
    }
}

pub proof fn lemma_find_ws_props(s: Seq<char>)
    ensures
        spec_find_ws(s) >= 0 ==> spec_find_ws(s) < s.len() && char_whitespace(s[spec_find_ws(s)]),
        spec_find_ws(s) < 0 ==> spec_find_ws(s) == -1,
    decreases s.len(),
{
    if s.len() > 0 && !char_whitespace(s[0]) {
        lemma_find_ws_props(s.drop_first());
    }
}

/// The whitespace-separated words of `s`, with no empty words (the semantics
/// of str::split_whitespace).
pub open spec fn spec_split_ws(s: Seq<char>) -> Seq<Seq<char>>
    decreases s.len(),
    via spec_split_ws_decreases
{
    if s.len() == 0 {
        Seq::empty()
    } else if char_whitespace(s[0]) {
        spec_split_ws(s.drop_first())
    } else {
        let i = spec_find_ws(s);
        if i < 0 {
            seq![s]
        } else {
            seq![s.subrange(0, i)] + spec_split_ws(s.subrange(i, s.len() as int))
        }
    }
}

#[via_fn]
proof fn spec_split_ws_decreases(s: Seq<char>) {
    lemma_find_ws_props(s);
    if s.len() > 0 && !char_whitespace(s[0]) {
        let i = spec_find_ws(s);
        if i >= 0 {
            assert(i >= 1);
        }
    }
}

/// Build one `String` per word, keeping each character sequence intact.
pub fn strings_of_words(parts: &Vec<Vec<char>>) -> (r: Vec<String>)
    ensures
        r.deep_view() == parts.deep_view(),
{
    let mut out: Vec<String> = Vec::new();
    let mut i: usize = 0;
    while i < parts.len()
        invariant
            i <= parts.len(),
            out.len() == i,
            forall|k: int| #![auto] 0 <= k < i ==> out.deep_view()[k] == parts.deep_view()[k],
        decreases parts.len() - i,
    {
        out.push(from_chars(parts[i].as_slice()));
        i = i + 1;
    }
    proof {
        assert(out.deep_view() =~= parts.deep_view());
    }
    out
}

/// Split a character vector into whitespace-separated words.
pub fn split_whitespace_chars(v: &[char]) -> (r: Vec<Vec<char>>)
    ensures
        r.deep_view() == spec_split_ws(v@),
{
    let n = v.len();
    let mut out: Vec<Vec<char>> = Vec::new();
    let mut i: usize = 0;
    proof {
        assert(v@.subrange(0, n as int) =~= v@);
        assert(out.deep_view() + spec_split_ws(v@) =~~= spec_split_ws(v@));
    }
    while i < n
        invariant
            n == v@.len(),
            i <= n,
            spec_split_ws(v@) == out.deep_view() + spec_split_ws(
                v@.subrange(i as int, n as int),
            ),
        decreases n - i,
    {
        let ghost rest = v@.subrange(i as int, n as int);
        if is_whitespace_char(v[i]) {
            proof {
                assert(rest[0] == v@[i as int]);
                assert(rest.drop_first() =~= v@.subrange(i + 1, n as int));
            }
            i += 1;
        } else {
            let mut j: usize = i;
            let mut seg: Vec<char> = Vec::new();
            while j < n && !is_whitespace_char(v[j])
                invariant
                    n == v@.len(),
                    i <= j <= n,
                    seg@ == v@.subrange(i as int, j as int),
                    forall|k: int| i <= k < j ==> !char_whitespace(v@[k]),
                decreases n - j,
            {
                seg.push(v[j]);
                j += 1;
                proof {
                    assert(seg@ =~= v@.subrange(i as int, j as int));
                }
            }
            let ghost oldout = out.deep_view();
            proof {
                assert(forall|k: int| 0 <= k < rest.len() ==> rest[k] == v@[i + k]);
                assert(!char_whitespace(rest[0]));
                if j < n {
                    assert(char_whitespace(rest[j - i]));
                    lemma_find_ws_at(rest, j - i);
                    assert(seg@ =~= rest.subrange(0, j - i));
                    assert(rest.subrange(j - i, rest.len() as int) =~= v@.subrange(
                        j as int,
                        n as int,
                    ));
                    assert(spec_split_ws(rest) == seq![seg@] + spec_split_ws(
                        v@.subrange(j as int, n as int),
                    ));
                } else {
                    lemma_find_ws_none(rest);
                    assert(seg@ =~= rest);
                    assert(spec_split_ws(rest) == seq![rest]);
                }
            }
            out.push(seg);
            proof {
                let ghost segv = v@.subrange(i as int, j as int);
                assert(out.deep_view() =~~= oldout + seq![segv]);
                if j < n {
                    assert(oldout + seq![segv] + spec_split_ws(v@.subrange(j as int, n as int))
                        =~~= oldout + spec_split_ws(rest));
                } else {
                    let tail = v@.subrange(n as int, n as int);
                    assert(tail.len() == 0);
                    assert(oldout + seq![segv] + spec_split_ws(tail) =~~= oldout
                        + spec_split_ws(rest));
                }
            }
            i = j;
        }
    }
    proof {
        let tail = v@.subrange(i as int, n as int);
        assert(tail.len() == 0);
        assert(out.deep_view() + spec_split_ws(tail) =~~= out.deep_view());
    }
    out
}

/// Index of the first character of `s` that belongs to `cs`, or -1.
pub open spec fn spec_find_any(s: Seq<char>, cs: Seq<char>) -> int
    decreases s.len(),
{
    if s.len() == 0 {
        -1
    } else if cs.contains(s[0]) {
        0
    } else {
        let r = spec_find_any(s.drop_first(), cs);
        if r < 0 {
            -1
        } else {
            r + 1
        }
    }
}

pub proof fn lemma_find_any_at(s: Seq<char>, cs: Seq<char>, i: int)
    requires
        0 <= i < s.len(),
        cs.contains(s[i]),
        forall|j: int| 0 <= j < i ==> !cs.contains(s[j]),
    ensures
        spec_find_any(s, cs) == i,
    decreases i,
{
    if i > 0 {
        lemma_find_any_at(s.drop_first(), cs, i - 1);
    }
}

pub proof fn lemma_find_any_none(s: Seq<char>, cs: Seq<char>)
    requires
        forall|j: int| 0 <= j < s.len() ==> !cs.contains(s[j]),
    ensures
        spec_find_any(s, cs) == -1,
    decreases s.len(),
{
    if s.len() > 0 {
        lemma_find_any_none(s.drop_first(), cs);
    }
}

pub proof fn lemma_find_any_props(s: Seq<char>, cs: Seq<char>)
    ensures
        spec_find_any(s, cs) >= 0 ==> spec_find_any(s, cs) < s.len(),
        spec_find_any(s, cs) < 0 ==> spec_find_any(s, cs) == -1,
    decreases s.len(),
{
    if s.len() > 0 && !cs.contains(s[0]) {
        lemma_find_any_props(s.drop_first(), cs);
    }
}

/// The segments of `s` split around every character that belongs to `cs`
/// (empty segments kept).
pub open spec fn spec_split_any(s: Seq<char>, cs: Seq<char>) -> Seq<Seq<char>>
    decreases s.len(),
    via spec_split_any_decreases
{
    let i = spec_find_any(s, cs);
    if i < 0 {
        seq![s]
    } else {
        seq![s.subrange(0, i)] + spec_split_any(s.subrange(i + 1, s.len() as int), cs)
    }
}

#[via_fn]
proof fn spec_split_any_decreases(s: Seq<char>, cs: Seq<char>) {
    lemma_find_any_props(s, cs);
}

/// Split a character vector around every character that belongs to `cs`.
pub fn split_any(v: &[char], cs: &[char]) -> (r: Vec<Vec<char>>)
    ensures
        r.deep_view() == spec_split_any(v@, cs@),
{
    let n = v.len();
    let mut out: Vec<Vec<char>> = Vec::new();
    let mut start: usize = 0;
    proof {
        assert(v@.subrange(0, n as int) =~= v@);
        assert(out.deep_view() + spec_split_any(v@, cs@) =~~= spec_split_any(v@, cs@));
    }
    loop
        invariant
            n == v@.len(),
            start <= n,
            spec_split_any(v@, cs@) == out.deep_view() + spec_split_any(
                v@.subrange(start as int, n as int),
                cs@,
            ),
        decreases n + 1 - start,
    {
        let ghost rest = v@.subrange(start as int, n as int);
        let ghost oldout = out.deep_view();
        proof {
            assert(forall|j: int| 0 <= j < rest.len() ==> rest[j] == v@[start + j]);
        }
        let mut i: usize = start;
        let mut seg: Vec<char> = Vec::new();
        while i < n && !contains_char(cs, v[i])
            invariant
                n == v@.len(),
                start <= i <= n,
                seg@ == v@.subrange(start as int, i as int),
                forall|k: int| start <= k < i ==> !cs@.contains(v@[k]),
            decreases n - i,
        {
            seg.push(v[i]);
            i += 1;
            proof {
                assert(seg@ =~= v@.subrange(start as int, i as int));
            }
        }
        if i >= n {
            proof {
                lemma_find_any_none(rest, cs@);
                assert(seg@ =~= rest);
                assert(spec_split_any(rest, cs@) == seq![rest]);
            }
            out.push(seg);
            proof {
                assert(out.deep_view() =~~= oldout + seq![rest]);
                assert(oldout + seq![rest] =~~= oldout + spec_split_any(rest, cs@));
            }
            return out;
        }
        proof {
            assert(cs@.contains(rest[i - start]));
            lemma_find_any_at(rest, cs@, i - start);
            assert(seg@ =~= rest.subrange(0, i - start));
            assert(rest.subrange(i - start + 1, rest.len() as int) =~= v@.subrange(
                i + 1,
                n as int,
            ));
            assert(spec_split_any(rest, cs@) == seq![rest.subrange(0, i - start)]
                + spec_split_any(v@.subrange(i + 1, n as int), cs@));
        }
        let ghost segv = seg@;
        out.push(seg);
        start = i + 1;
        proof {
            assert(out.deep_view() =~~= oldout + seq![segv]);
            assert(oldout + seq![segv] + spec_split_any(
                v@.subrange(start as int, n as int),
                cs@,
            ) =~~= oldout + spec_split_any(rest, cs@));
        }
    }
}

// ---------------------------------------------------------------------------
// Unsigned number parsing (the grammar of u32/usize from_str).
// ---------------------------------------------------------------------------

/// Whether the character is an ASCII digit.
pub open spec fn spec_is_digit(c: char) -> bool {
    '0' <= c && c <= '9'
}

/// Whether every character of `s` is an ASCII digit.
pub open spec fn spec_all_digits(s: Seq<char>) -> bool {
    forall|j: int| 0 <= j < s.len() ==> spec_is_digit(#[trigger] s[j])
}

/// The numeric value of a sequence of ASCII digits.
pub open spec fn spec_digits_val(s: Seq<char>) -> int
    decreases s.len(),
{
    if s.len() == 0 {
        0
    } else {
        spec_digits_val(s.drop_last()) * 10 + (s[s.len() - 1] as u32 - '0' as u32)
    }
}

/// The digits of an unsigned decimal literal: the input with one optional
/// leading plus sign removed.
pub open spec fn spec_uint_digits(s: Seq<char>) -> Seq<char> {
    if s.len() > 0 && s[0] == '+' {
        s.drop_first()
    } else {
        s
    }
}

/// The value parsed from an unsigned decimal literal no greater than `max`,
/// as u32/usize from_str read it: an optional `+`, then one or more digits;
/// anything else, or a value over `max`, is rejected.
pub open spec fn spec_parse_uint(s: Seq<char>, max: int) -> Option<int> {
    let t = spec_uint_digits(s);
    if t.len() == 0 || !spec_all_digits(t) {
        None
    } else if spec_digits_val(t) > max {
        None
    } else {
        Some(spec_digits_val(t))
    }
}

proof fn lemma_digits_val_nonneg(s: Seq<char>)
    requires
        spec_all_digits(s),
    ensures
        spec_digits_val(s) >= 0,
    decreases s.len(),
{
    if s.len() > 0 {
        assert(spec_is_digit(s[s.len() - 1]));
        assert(spec_all_digits(s.drop_last())) by {
            assert(forall|j: int| 0 <= j < s.len() - 1 ==> s.drop_last()[j] == s[j]);
        }
        lemma_digits_val_nonneg(s.drop_last());
    }
}

proof fn lemma_digits_val_mono(s: Seq<char>, k: int)
    requires
        spec_all_digits(s),
        0 <= k <= s.len(),
    ensures
        spec_digits_val(s) >= spec_digits_val(s.subrange(0, k)),
    decreases s.len() - k,
{
    if k < s.len() {
        lemma_digits_val_mono(s, k + 1);
        let a = s.subrange(0, k);
        let b = s.subrange(0, k + 1);
        assert(b.drop_last() =~= a);
        assert(spec_all_digits(a)) by {
            assert(forall|j: int| 0 <= j < a.len() ==> a[j] == s[j]);
        }
        lemma_digits_val_nonneg(a);
        assert(spec_is_digit(b[b.len() - 1]));
        assert(spec_digits_val(b) == spec_digits_val(a) * 10 + (b[b.len() - 1] as u32
            - '0' as u32));
        assert(spec_digits_val(a) * 10 >= spec_digits_val(a)) by (nonlinear_arith)
            requires
                spec_digits_val(a) >= 0,
        ;
    } else {
        assert(s.subrange(0, k) =~= s);
    }
}

/// Parse an unsigned decimal literal into a usize.
pub fn parse_usize(v: &[char]) -> (r: Option<usize>)
    ensures
        match r {
            Some(x) => spec_parse_uint(v@, usize::MAX as int) == Some(x as int),
            None => spec_parse_uint(v@, usize::MAX as int) is None,
        },
{
    let n = v.len();
    let start: usize = if n > 0 && v[0] == '+' {
        1
    } else {
        0
    };
    let ghost t = spec_uint_digits(v@);
    proof {
        assert(t =~= v@.subrange(start as int, n as int));
    }
    if start >= n {
        proof {
            assert(t.len() == 0);
        }
        return None;
    }
    let mut val: usize = 0;
    let mut i: usize = start;
    proof {
        assert(t.subrange(0, 0) =~= Seq::<char>::empty());
    }
    while i < n
        invariant
            n == v@.len(),
            start <= i <= n,
            t == spec_uint_digits(v@),
            t == v@.subrange(start as int, n as int),
            t.len() == n - start,
            forall|j: int| 0 <= j < i - start ==> t[j] == v@[start + j],
            spec_all_digits(t.subrange(0, i - start)),
            val == spec_digits_val(t.subrange(0, i - start)),
        decreases n - i,
    {
        let c = v[i];
        if !(c >= '0' && c <= '9') {
            proof {
                assert(t[i - start] == c);
                assert(!spec_is_digit(t[i - start]));
                assert(!spec_all_digits(t)) by {
                    if spec_all_digits(t) {
                        assert(spec_is_digit(t[i - start]));
                    }
                }
            }
            return None;
        }
        let d: usize = (c as u32 as usize) - ('0' as u32 as usize);
        proof {
            assert(d <= 9);
        }
        let ghost prefix = t.subrange(0, i - start);
        let ghost prefix1 = t.subrange(0, i - start + 1);
        proof {
            assert(prefix1.drop_last() =~= prefix);
            assert(prefix1[prefix1.len() - 1] == t[i - start]);
            assert(t[i - start] == c);
            assert(spec_all_digits(prefix1));
            assert(spec_digits_val(prefix1) == spec_digits_val(prefix) * 10 + d);
        }
        if val > (usize::MAX - d) / 10 {
            proof {
                lemma_digits_val_nonneg(prefix);
                assert(spec_digits_val(prefix1) > usize::MAX) by (nonlinear_arith)
                    requires
                        spec_digits_val(prefix1) == spec_digits_val(prefix) * 10 + d,
                        spec_digits_val(prefix) == val,
                        val > (usize::MAX - d) / 10,
                        0 <= d <= 9,
                        val >= 0,
                ;
                assert(spec_all_digits(t) || !spec_all_digits(t));
                if spec_all_digits(t) {
                    lemma_digits_val_mono(t, i - start + 1);
                    assert(spec_digits_val(t) > usize::MAX);
                } else {
                    assert(spec_parse_uint(v@, usize::MAX as int) is None);
                }
            }
            return None;
        }
        proof {
            assert(val * 10 + d <= usize::MAX) by (nonlinear_arith)
                requires
                    val <= (usize::MAX - d) / 10,
                    0 <= d <= 9,
                    val >= 0,
            ;
        }
        val = val * 10 + d;
        i += 1;
    }
    proof {
        assert(t.subrange(0, n - start) =~= t);
        assert(spec_all_digits(t));
        assert(t.len() > 0);
    }
    Some(val)
}

/// Parse an unsigned decimal literal into a u32.
pub fn parse_u32(v: &[char]) -> (r: Option<u32>)
    ensures
        match r {
            Some(x) => spec_parse_uint(v@, u32::MAX as int) == Some(x as int),
            None => spec_parse_uint(v@, u32::MAX as int) is None,
        },
{
    let n = v.len();
    let start: usize = if n > 0 && v[0] == '+' {
        1
    } else {
        0
    };
    let ghost t = spec_uint_digits(v@);
    proof {
        assert(t =~= v@.subrange(start as int, n as int));
    }
    if start >= n {
        proof {
            assert(t.len() == 0);
        }
        return None;
    }
    let mut val: u32 = 0;
    let mut i: usize = start;
    proof {
        assert(t.subrange(0, 0) =~= Seq::<char>::empty());
    }
    while i < n
        invariant
            n == v@.len(),
            start <= i <= n,
            t == spec_uint_digits(v@),
            t == v@.subrange(start as int, n as int),
            t.len() == n - start,
            forall|j: int| 0 <= j < i - start ==> t[j] == v@[start + j],
            spec_all_digits(t.subrange(0, i - start)),
            val == spec_digits_val(t.subrange(0, i - start)),
        decreases n - i,
    {
        let c = v[i];
        if !(c >= '0' && c <= '9') {
            proof {
                assert(t[i - start] == c);
                assert(!spec_is_digit(t[i - start]));
                assert(!spec_all_digits(t)) by {
                    if spec_all_digits(t) {
                        assert(spec_is_digit(t[i - start]));
                    }
                }
            }
            return None;
        }
        let d: u32 = (c as u32) - ('0' as u32);
        proof {
            assert(d <= 9);
        }
        let ghost prefix = t.subrange(0, i - start);
        let ghost prefix1 = t.subrange(0, i - start + 1);
        proof {
            assert(prefix1.drop_last() =~= prefix);
            assert(prefix1[prefix1.len() - 1] == t[i - start]);
            assert(t[i - start] == c);
            assert(spec_all_digits(prefix1));
            assert(spec_digits_val(prefix1) == spec_digits_val(prefix) * 10 + d);
        }
        if val > (u32::MAX - d) / 10 {
            proof {
                lemma_digits_val_nonneg(prefix);
                assert(spec_digits_val(prefix1) > u32::MAX) by (nonlinear_arith)
                    requires
                        spec_digits_val(prefix1) == spec_digits_val(prefix) * 10 + d,
                        spec_digits_val(prefix) == val,
                        val > (u32::MAX - d) / 10,
                        0 <= d <= 9,
                        val >= 0,
                ;
                if spec_all_digits(t) {
                    lemma_digits_val_mono(t, i - start + 1);
                    assert(spec_digits_val(t) > u32::MAX);
                }
            }
            return None;
        }
        proof {
            assert(val * 10 + d <= u32::MAX) by (nonlinear_arith)
                requires
                    val <= (u32::MAX - d) / 10,
                    0 <= d <= 9,
                    val >= 0,
            ;
        }
        val = val * 10 + d;
        i += 1;
    }
    proof {
        assert(t.subrange(0, n - start) =~= t);
        assert(spec_all_digits(t));
        assert(t.len() > 0);
    }
    Some(val)
}

// ---------------------------------------------------------------------------
// Lexicographic ordering of character sequences (the order of str's Ord).
// ---------------------------------------------------------------------------

/// Lexicographic less-or-equal on character sequences by code point, which
/// is the order in which Rust compares string slices.
pub open spec fn spec_lex_le(a: Seq<char>, b: Seq<char>) -> bool
    decreases a.len(),
{
    if a.len() == 0 {
        true
    } else if b.len() == 0 {
        false
    } else if (a[0] as u32) < (b[0] as u32) {
        true
    } else if (a[0] as u32) > (b[0] as u32) {
        false
    } else {
        spec_lex_le(a.drop_first(), b.drop_first())
    }
}

/// Compare two character slices lexicographically.
pub fn lex_le(a: &[char], b: &[char]) -> (r: bool)
    ensures
        r == spec_lex_le(a@, b@),
{
    let na = a.len();
    let nb = b.len();
    let mut i: usize = 0;
    proof {
        assert(a@.subrange(0, na as int) =~= a@);
        assert(b@.subrange(0, nb as int) =~= b@);
    }
    while i < na && i < nb
        invariant
            na == a@.len(),
            nb == b@.len(),
            i <= na,
            i <= nb,
            spec_lex_le(a@, b@) == spec_lex_le(
                a@.subrange(i as int, na as int),
                b@.subrange(i as int, nb as int),
            ),
        decreases na - i,
    {
        let ca = a[i];
        let cb = b[i];
        let ghost ra = a@.subrange(i as int, na as int);
        let ghost rb = b@.subrange(i as int, nb as int);
        if (ca as u32) < (cb as u32) {
            proof {
                assert(ra[0] == ca && rb[0] == cb);
            }
            return true;
        }
        if (ca as u32) > (cb as u32) {
            proof {
                assert(ra[0] == ca && rb[0] == cb);
            }
            return false;
        }
        proof {
            assert(ra[0] == ca && rb[0] == cb);
            assert(ra.drop_first() =~= a@.subrange(i + 1, na as int));
            assert(rb.drop_first() =~= b@.subrange(i + 1, nb as int));
        }
        i += 1;
    }
    proof {
        let ra = a@.subrange(i as int, na as int);
        let rb = b@.subrange(i as int, nb as int);
        if i >= na {
            assert(ra.len() == 0);
        } else {
            assert(rb.len() == 0);
            assert(ra.len() > 0);
        }
    }
    i >= na
}

// ---------------------------------------------------------------------------
// The grammar of f32 from_str (used to test whether an option value would
// parse as a floating-point number, without any floating-point arithmetic).
// ---------------------------------------------------------------------------

/// The number of leading ASCII digits of `s`.
pub open spec fn spec_count_digits(s: Seq<char>) -> int
    decreases s.len(),
{
    if s.len() > 0 && spec_is_digit(s[0]) {
        1 + spec_count_digits(s.drop_first())
    } else {
        0
    }
}

pub proof fn lemma_count_digits_bounds(s: Seq<char>)
    ensures
        0 <= spec_count_digits(s) <= s.len(),
        forall|j: int| 0 <= j < spec_count_digits(s) ==> spec_is_digit(#[trigger] s[j]),
    decreases s.len(),
{
    if s.len() > 0 && spec_is_digit(s[0]) {
        lemma_count_digits_bounds(s.drop_first());
        assert forall|j: int| 0 <= j < spec_count_digits(s) implies spec_is_digit(
            #[trigger] s[j],
        ) by {
            if j >= 1 {
                assert(s.drop_first()[j - 1] == s[j]);
                assert(spec_is_digit(s.drop_first()[j - 1]));
            }
        }
    }
}

pub proof fn lemma_count_digits_all(s: Seq<char>)
    ensures
        (spec_count_digits(s) == s.len()) == spec_all_digits(s),
    decreases s.len(),
{
    if s.len() > 0 {
        lemma_count_digits_all(s.drop_first());
        lemma_count_digits_bounds(s.drop_first());
        if spec_is_digit(s[0]) {
            assert(spec_all_digits(s.drop_first()) == (spec_count_digits(s.drop_first())
                == s.len() - 1));
            if spec_all_digits(s.drop_first()) {
                assert forall|j: int| 0 <= j < s.len() implies spec_is_digit(
                    #[trigger] s[j],
                ) by {
                    if j >= 1 {
                        assert(s.drop_first()[j - 1] == s[j]);
                        assert(spec_is_digit(s.drop_first()[j - 1]));
                    }
                }
                assert(spec_all_digits(s));
            } else {
                let j = choose|j: int|
                    0 <= j < s.drop_first().len() && !spec_is_digit(
                        #[trigger] s.drop_first()[j],
                    );
                assert(s[j + 1] == s.drop_first()[j]);
                assert(!spec_all_digits(s));
            }
        } else {
            assert(!spec_all_digits(s)) by {
                if spec_all_digits(s) {
                    assert(spec_is_digit(s[0]));
                }
            }
        }
    }
}

/// The exponent part of a float literal: `e` or `E`, an optional sign, then
/// one or more digits.
pub open spec fn spec_exp_ok(s: Seq<char>) -> bool {
    s.len() >= 1 && (s[0] == 'e' || s[0] == 'E') && {
        let r = s.drop_first();
        let r2 = if r.len() > 0 && (r[0] == '+' || r[0] == '-') {
            r.drop_first()
        } else {
            r
        };
        r2.len() > 0 && spec_all_digits(r2)
    }
}

/// The number part of a float literal: digits, an optional point with more
/// digits and an optional exponent; or a point, digits and an optional
/// exponent.
pub open spec fn spec_number_ok(s: Seq<char>) -> bool {
    let k = spec_count_digits(s);
    if k > 0 {
        let r = s.subrange(k, s.len() as int);
        if r.len() == 0 {
            true
        } else if r[0] == '.' {
            let r2 = r.drop_first();
            let k2 = spec_count_digits(r2);
            let r3 = r2.subrange(k2, r2.len() as int);
            r3.len() == 0 || spec_exp_ok(r3)
        } else {
            spec_exp_ok(r)
        }
    } else {
        s.len() > 0 && s[0] == '.' && {
            let r2 = s.drop_first();
            let k2 = spec_count_digits(r2);
            let r3 = r2.subrange(k2, r2.len() as int);
            k2 > 0 && (r3.len() == 0 || spec_exp_ok(r3))
        }
    }
}

/// The lower-case form of the letters that can appear in `inf`, `infinity`
/// and `nan`.
pub open spec fn spec_lower_infnan(c: char) -> char {
    if c == 'I' {
        'i'
    } else if c == 'N' {
        'n'
    } else if c == 'F' {
        'f'
    } else if c == 'A' {
        'a'
    } else if c == 'T' {
        't'
    } else if c == 'Y' {
        'y'
    } else {
        c
    }
}

/// Whether `s` conforms to the grammar that f32/f64 from_str accepts: an
/// optional sign, then `inf`, `infinity` or `nan` (case-insensitive) or a
/// number with optional fraction and exponent.
pub open spec fn spec_float_literal(s: Seq<char>) -> bool {
    let b = if s.len() > 0 && (s[0] == '+' || s[0] == '-') {
        s.drop_first()
    } else {
        s
    };
    let l = b.map_values(|c: char| spec_lower_infnan(c));
    l == seq!['i', 'n', 'f'] || l == seq!['i', 'n', 'f', 'i', 'n', 'i', 't', 'y'] || l == seq![
        'n',
        'a',
        'n',
    ] || spec_number_ok(b)
}

/// Count the digits of `v` starting at position `i`.
fn count_digits_from(v: &[char], i: usize) -> (r: usize)
    requires
        i <= v@.len(),
    ensures
        r == spec_count_digits(v@.subrange(i as int, v@.len() as int)),
        i + r <= v@.len(),
    decreases v@.len() - i,
{
    let ghost s = v@.subrange(i as int, v@.len() as int);
    if i < v.len() && v[i] >= '0' && v[i] <= '9' {
        proof {
            assert(s[0] == v@[i as int]);
            assert(s.drop_first() =~= v@.subrange(i + 1, v@.len() as int));
        }
        let rest = count_digits_from(v, i + 1);
        1 + rest
    } else {
        proof {
            if i < v.len() {
                assert(s[0] == v@[i as int]);
            }
        }
        0
    }
}

/// Check the exponent part starting at position `i`.
fn exp_ok_from(v: &[char], i: usize) -> (r: bool)
    requires
        i <= v@.len(),
    ensures
        r == spec_exp_ok(v@.subrange(i as int, v@.len() as int)),
{
    let n = v.len();
    let ghost s = v@.subrange(i as int, n as int);
    if i >= n {
        return false;
    }
    proof {
        assert(s[0] == v@[i as int]);
    }
    let c = v[i];
    if !(c == 'e' || c == 'E') {
        return false;
    }
    let mut j: usize = i + 1;
    proof {
        assert(s.drop_first() =~= v@.subrange(i + 1, n as int));
    }
    let ghost r1 = s.drop_first();
    if j < n && (v[j] == '+' || v[j] == '-') {
        proof {
            assert(r1[0] == v@[j as int]);
            assert(r1.drop_first() =~= v@.subrange(j + 1, n as int));
        }
        j += 1;
    } else {
        proof {
            if r1.len() > 0 {
                assert(r1[0] == v@[j as int]);
            }
        }
    }
    let ghost r2 = v@.subrange(j as int, n as int);
    let k = count_digits_from(v, j);
    proof {
        lemma_count_digits_all(r2);
    }
    k > 0 && j + k == n
}

/// Whether the characters of `v` form a valid float literal.
pub fn is_float_literal(v: &[char]) -> (r: bool)
    ensures
        r == spec_float_literal(v@),
{
    let n = v.len();
    let start: usize = if n > 0 && (v[0] == '+' || v[0] == '-') {
        1
    } else {
        0
    };
    let ghost b = if v@.len() > 0 && (v@[0] == '+' || v@[0] == '-') {
        v@.drop_first()
    } else {
        v@
    };
    proof {
        assert(b =~= v@.subrange(start as int, n as int));
    }
    // Build the case-folded copy used for the inf/infinity/nan forms.
    let mut lowered: Vec<char> = Vec::new();
    let mut i: usize = start;
    while i < n
        invariant
            n == v@.len(),
            start <= i <= n,
            b == v@.subrange(start as int, n as int),
            lowered@.len() == i - start,
            forall|j: int| 0 <= j < i - start ==> lowered@[j] == spec_lower_infnan(b[j]),
        decreases n - i,
    {
        let c = v[i];
        let lc: char = if c == 'I' {
            'i'
        } else if c == 'N' {
            'n'
        } else if c == 'F' {
            'f'
        } else if c == 'A' {
            'a'
        } else if c == 'T' {
            't'
        } else if c == 'Y' {
            'y'
        } else {
            c
        };
        lowered.push(lc);
        i += 1;
    }
    proof {
        assert(lowered@ =~= b.map_values(|c: char| spec_lower_infnan(c)));
    }
    let mut lit_inf: Vec<char> = Vec::new();
    lit_inf.push('i');
    lit_inf.push('n');
    lit_inf.push('f');
    let mut lit_infinity: Vec<char> = Vec::new();
    lit_infinity.push('i');
    lit_infinity.push('n');
    lit_infinity.push('f');
    lit_infinity.push('i');
    lit_infinity.push('n');
    lit_infinity.push('i');
    lit_infinity.push('t');
    lit_infinity.push('y');
    let mut lit_nan: Vec<char> = Vec::new();
    lit_nan.push('n');
    lit_nan.push('a');
    lit_nan.push('n');
    proof {
        assert(lit_inf@ =~= seq!['i', 'n', 'f']);
        assert(lit_infinity@ =~= seq!['i', 'n', 'f', 'i', 'n', 'i', 't', 'y']);
        assert(lit_nan@ =~= seq!['n', 'a', 'n']);
    }
    if chars_eq(lowered.as_slice(), lit_inf.as_slice()) || chars_eq(
        lowered.as_slice(),
        lit_infinity.as_slice(),
    ) || chars_eq(lowered.as_slice(), lit_nan.as_slice()) {
        return true;
    }
    // The number form.
    let k = count_digits_from(v, start);
    proof {
        lemma_count_digits_bounds(b);
    }
    if k > 0 {
        let pos = start + k;
        let ghost r = b.subrange(k as int, b.len() as int);
        proof {
            assert(r =~= v@.subrange(pos as int, n as int));
        }
        if pos == n {
            return true;
        }
        proof {
            assert(r[0] == v@[pos as int]);
        }
        if v[pos] == '.' {
            let pos2 = pos + 1;
            let ghost r2 = r.drop_first();
            proof {
                assert(r2 =~= v@.subrange(pos2 as int, n as int));
            }
            let k2 = count_digits_from(v, pos2);
            let pos3 = pos2 + k2;
            let ghost r3 = r2.subrange(k2 as int, r2.len() as int);
            proof {
                assert(r3 =~= v@.subrange(pos3 as int, n as int));
            }
            if pos3 == n {
                return true;
            }
            return exp_ok_from(v, pos3);
        }
        return exp_ok_from(v, pos);
    }
    if start >= n {
        return false;
    }
    proof {
        assert(b[0] == v@[start as int]);
    }
    if v[start] != '.' {
        return false;
    }
    let pos2 = start + 1;
    let ghost r2 = b.drop_first();
    proof {
        assert(r2 =~= v@.subrange(pos2 as int, n as int));
    }
    let k2 = count_digits_from(v, pos2);
    if k2 == 0 {
        return false;
    }
    let pos3 = pos2 + k2;
    let ghost r3 = r2.subrange(k2 as int, r2.len() as int);
    proof {
        assert(r3 =~= v@.subrange(pos3 as int, n as int));
    }
    if pos3 == n {
        return true;
    }
    exp_ok_from(v, pos3)
}

// ---------------------------------------------------------------------------
// Building blocks for assembling output text.
// ---------------------------------------------------------------------------

/// Whether `s` starts with `p`.
pub open spec fn spec_starts_with(s: Seq<char>, p: Seq<char>) -> bool {
    p.len() <= s.len() && s.subrange(0, p.len() as int) == p
}

/// Whether `s` ends with `p`.
pub open spec fn spec_ends_with(s: Seq<char>, p: Seq<char>) -> bool {
    p.len() <= s.len() && s.subrange(s.len() - p.len(), s.len() as int) == p
}

/// Whether `v` starts with the characters of `p`.
pub fn starts_with_chars(v: &[char], p: &[char]) -> (r: bool)
    ensures
        r == spec_starts_with(v@, p@),
{
    occurs_at(v, p, 0)
}

/// Whether `v` starts with the characters of the string slice `p`.
pub fn starts_with_str(v: &[char], p: &str) -> (r: bool)
    ensures
        r == spec_starts_with(v@, p@),
{
    let pc = to_chars(p);
    occurs_at(v, pc.as_slice(), 0)
}

/// Whether `v` ends with the characters of the string slice `p`.
pub fn ends_with_str(v: &[char], p: &str) -> (r: bool)
    ensures
        r == spec_ends_with(v@, p@),
{
    let pc = to_chars(p);
    if pc.len() > v.len() {
        return false;
    }
    occurs_at(v, pc.as_slice(), v.len() - pc.len())
}

/// Append the characters of `src` to `dst`.
pub fn append_chars(dst: &mut Vec<char>, src: &[char])
    ensures
        final(dst)@ == old(dst)@ + src@,
{
    let ghost base = dst@;
    let mut i: usize = 0;
    proof {
        assert(dst@ =~= base + src@.subrange(0, 0));
    }
    while i < src.len()
        invariant
            i <= src@.len(),
            dst@ == base + src@.subrange(0, i as int),
        decreases src@.len() - i,
    {
        dst.push(src[i]);
        i += 1;
        proof {
            assert(dst@ =~= base + src@.subrange(0, i as int));
        }
    }
    proof {
        assert(dst@ =~= base + src@);
    }
}

/// Append the characters of the string slice `s` to `dst`.
pub fn append_str(dst: &mut Vec<char>, s: &str)
    ensures
        final(dst)@ == old(dst)@ + s@,
{
    let sc = to_chars(s);
    append_chars(dst, sc.as_slice());
}

/// Copy the characters of `v` between `a` and `b` into a fresh vector.
pub fn slice_range(v: &[char], a: usize, b: usize) -> (r: Vec<char>)
    requires
        a <= b <= v@.len(),
    ensures
        r@ == v@.subrange(a as int, b as int),
{
    let mut r: Vec<char> = Vec::new();
    let mut i: usize = a;
    while i < b
        invariant
            a <= i <= b <= v@.len(),
            r@ == v@.subrange(a as int, i as int),
        decreases b - i,
    {
        r.push(v[i]);
        i += 1;
        proof {
            assert(r@ =~= v@.subrange(a as int, i as int));
        }
    }
    r
}

/// Each occurrence of `a` replaced by `b`.
pub open spec fn spec_replace_char(s: Seq<char>, a: char, b: char) -> Seq<char> {
    s.map_values(|c: char| if c == a { b } else { c })
}

/// Replace every occurrence of character `a` with `b`.
pub fn replace_char(v: &[char], a: char, b: char) -> (r: Vec<char>)
    ensures
        r@ == spec_replace_char(v@, a, b),
{
    let mut r: Vec<char> = Vec::new();
    let mut i: usize = 0;
    while i < v.len()
        invariant
            i <= v@.len(),
            r@.len() == i,
            forall|j: int| 0 <= j < i ==> r@[j] == (if v@[j] == a { b } else { v@[j] }),
        decreases v@.len() - i,
    {
        let c = v[i];
        if c == a {
            r.push(b);
        } else {
            r.push(c);
        }
        i += 1;
    }
    proof {
        assert(r@ =~= spec_replace_char(v@, a, b));
    }
    r
}

/// The number of leading whitespace characters of `s`.
pub open spec fn spec_count_ws(s: Seq<char>) -> int
    decreases s.len(),
{
    if s.len() > 0 && char_whitespace(s[0]) {
        1 + spec_count_ws(s.drop_first())
    } else {
        0
    }
}

pub proof fn lemma_count_ws_bounds(s: Seq<char>)
    ensures
        0 <= spec_count_ws(s) <= s.len(),
        forall|j: int| 0 <= j < spec_count_ws(s) ==> char_whitespace(#[trigger] s[j]),
        spec_count_ws(s) < s.len() ==> !char_whitespace(s[spec_count_ws(s)]),
    decreases s.len(),
{
    if s.len() > 0 && char_whitespace(s[0]) {
        lemma_count_ws_bounds(s.drop_first());
        assert forall|j: int| 0 <= j < spec_count_ws(s) implies char_whitespace(
            #[trigger] s[j],
        ) by {
            if j >= 1 {
                assert(s.drop_first()[j - 1] == s[j]);
                assert(char_whitespace(s.drop_first()[j - 1]));
            }
        }
        if spec_count_ws(s) < s.len() {
            assert(s.drop_first()[spec_count_ws(s) - 1] == s[spec_count_ws(s)]);
        }
    }
}

/// Count the whitespace characters of `v` starting at position `i`.
pub fn count_ws_from(v: &[char], i: usize) -> (r: usize)
    requires
        i <= v@.len(),
    ensures
        r == spec_count_ws(v@.subrange(i as int, v@.len() as int)),
        i + r <= v@.len(),
    decreases v@.len() - i,
{
    let ghost s = v@.subrange(i as int, v@.len() as int);
    if i < v.len() && is_whitespace_char(v[i]) {
        proof {
            assert(s[0] == v@[i as int]);
            assert(s.drop_first() =~= v@.subrange(i + 1, v@.len() as int));
        }
        let rest = count_ws_from(v, i + 1);
        1 + rest
    } else {
        proof {
            if i < v.len() {
                assert(s[0] == v@[i as int]);
            }
        }
        0
    }
}

/// Whether `c` can appear in a directive or role name: alphanumeric, `_`
/// or `-`.
pub open spec fn spec_is_name_char(c: char) -> bool {
    char_alphanumeric(c) || c == '_' || c == '-'
}

/// Whether `c` can appear in a role word: alphanumeric or `_`.
pub open spec fn spec_is_word_char(c: char) -> bool {
    char_alphanumeric(c) || c == '_'
}

/// The number of leading name characters of `s`.
pub open spec fn spec_count_name(s: Seq<char>) -> int
    decreases s.len(),
{
    if s.len() > 0 && spec_is_name_char(s[0]) {
        1 + spec_count_name(s.drop_first())
    } else {
        0
    }
}

pub proof fn lemma_count_name_bounds(s: Seq<char>)
    ensures
        0 <= spec_count_name(s) <= s.len(),
    decreases s.len(),
{
    if s.len() > 0 && spec_is_name_char(s[0]) {
        lemma_count_name_bounds(s.drop_first());
    }
}

/// Count the name characters of `v` starting at position `i`.
pub fn count_name_from(v: &[char], i: usize) -> (r: usize)
    requires
        i <= v@.len(),
    ensures
        r == spec_count_name(v@.subrange(i as int, v@.len() as int)),
        i + r <= v@.len(),
    decreases v@.len() - i,
{
    let ghost s = v@.subrange(i as int, v@.len() as int);
    if i < v.len() && (is_alphanumeric_char(v[i]) || v[i] == '_' || v[i] == '-') {
        proof {
            assert(s[0] == v@[i as int]);
            assert(s.drop_first() =~= v@.subrange(i + 1, v@.len() as int));
        }
        let rest = count_name_from(v, i + 1);
        1 + rest
    } else {
        proof {
            if i < v.len() {
                assert(s[0] == v@[i as int]);
            }
        }
        0
    }
}

/// The number of leading word characters of `s`.
pub open spec fn spec_count_word(s: Seq<char>) -> int
    decreases s.len(),
{
    if s.len() > 0 && spec_is_word_char(s[0]) {
        1 + spec_count_word(s.drop_first())
    } else {
        0
    }
}

pub proof fn lemma_count_word_bounds(s: Seq<char>)
    ensures
        0 <= spec_count_word(s) <= s.len(),
    decreases s.len(),
{
    if s.len() > 0 && spec_is_word_char(s[0]) {
        lemma_count_word_bounds(s.drop_first());
    }
}

/// Count the word characters of `v` starting at position `i`.
pub fn count_word_from(v: &[char], i: usize) -> (r: usize)
    requires
        i <= v@.len(),
    ensures
        r == spec_count_word(v@.subrange(i as int, v@.len() as int)),
        i + r <= v@.len(),
    decreases v@.len() - i,
{
    let ghost s = v@.subrange(i as int, v@.len() as int);
    if i < v.len() && (is_alphanumeric_char(v[i]) || v[i] == '_') {
        proof {
            assert(s[0] == v@[i as int]);
            assert(s.drop_first() =~= v@.subrange(i + 1, v@.len() as int));
        }
        let rest = count_word_from(v, i + 1);
        1 + rest
    } else {
        proof {
            if i < v.len() {
                assert(s[0] == v@[i as int]);
            }
        }
        0
    }
}

/// The character view of an optional string.
pub open spec fn opt_view(o: Option<String>) -> Option<Seq<char>> {
    match o {
        Some(s) => Some(s@),
        None => None,
    }
}

} // verus!
