//! Glob patterns over paths.
//!
//! `*` matches a run of characters other than `/`, `**` a run of any
//! characters, `?` one character other than `/`, `[...]` one character of a
//! class (ranges `a-z`, negation by a leading `!` or `^`), and `{a,b}` any one
//! of its comma-separated alternatives. Every other character matches itself.
use vstd::prelude::*;

use crate::text::chars_of;

verus! {

/// The path separator, which `*`, `?` and classes never match.
pub open spec fn is_sep(c: char) -> bool {
    c == '/'
}

/// The first index at or after `i` at which `p` holds `c`, or `p.len()`.
pub open spec fn find_char(p: Seq<char>, i: int, c: char) -> int
    decreases p.len() - i,
{
    if i < 0 || i >= p.len() {
        p.len() as int
    } else if p[i] == c {
        i
    } else {
        find_char(p, i + 1, c)
    }
}

/// Whether one of the items of the class body `p[k..hi]` (single characters
/// and ranges `x-y`) covers `c`.
pub open spec fn class_items_cover(p: Seq<char>, k: int, hi: int, c: char) -> bool
    decreases hi - k,
{
    if k < 0 || k >= hi || hi > p.len() {
        false
    } else if k + 2 < hi && p[k + 1] == '-' {
        ((p[k] as u32) <= (c as u32) && (c as u32) <= (p[k + 2] as u32))
            || class_items_cover(p, k + 3, hi, c)
    } else {
        p[k] == c || class_items_cover(p, k + 1, hi, c)
    }
}

/// Whether the class body `p[lo..hi]` accepts `c`.
pub open spec fn class_accepts(p: Seq<char>, lo: int, hi: int, c: char) -> bool {
    if 0 <= lo < hi <= p.len() && (p[lo] == '!' || p[lo] == '^') {
        !class_items_cover(p, lo + 1, hi, c)
    } else {
        class_items_cover(p, lo, hi, c)
    }
}

/// The pattern made of the alternative `p[a..e]` followed by what comes after
/// the closing brace at `j`.
pub open spec fn with_alternative(p: Seq<char>, a: int, e: int, j: int) -> Seq<char> {
    p.subrange(a, e) + p.subrange(j + 1, p.len() as int)
}

/// Whether the pattern suffix `p[i..]` matches the text suffix `s[k..]`.
pub open spec fn matches_from(p: Seq<char>, i: int, s: Seq<char>, k: int) -> bool
    decreases p.len() - i, s.len() - k, p.len() - i,
{
    if i < 0 || k < 0 || k > s.len() {
        false
    } else if i >= p.len() {
        k == s.len()
    } else if p[i] == '*' {
        if i + 1 < p.len() && p[i + 1] == '*' {
            matches_from(p, i + 2, s, k) || (k < s.len() && matches_from(p, i, s, k + 1))
        } else {
            matches_from(p, i + 1, s, k) || (k < s.len() && !is_sep(s[k]) && matches_from(
                p,
                i,
                s,
                k + 1,
            ))
        }
    } else if p[i] == '?' {
        k < s.len() && !is_sep(s[k]) && matches_from(p, i + 1, s, k + 1)
    } else if p[i] == '[' && i + 2 <= find_char(p, i + 2, ']') < p.len() {
        let j = find_char(p, i + 2, ']');
        k < s.len() && !is_sep(s[k]) && class_accepts(p, i + 1, j, s[k]) && matches_from(
            p,
            j + 1,
            s,
            k + 1,
        )
    } else if p[i] == '{' && i + 1 <= find_char(p, i + 1, '}') < p.len() {
        let j = find_char(p, i + 1, '}');
        alternatives_match(p, i, i + 1, i + 1, j, s, k)
    } else {
        k < s.len() && s[k] == p[i] && matches_from(p, i + 1, s, k + 1)
    }
}

/// Whether one of the alternatives of the brace group `p[i..=j]`, from the
/// one that starts at `a` (and runs at least to `e`) on, followed by the rest
/// of the pattern, matches `s[k..]`.
pub open spec fn alternatives_match(
    p: Seq<char>,
    i: int,
    a: int,
    e: int,
    j: int,
    s: Seq<char>,
    k: int,
) -> bool
    decreases p.len() - i, s.len() - k, j - e,
{
    if 0 <= i < a && a <= e && e <= j && j < p.len() && 0 <= k <= s.len() {
        if e == j || p[e] == ',' {
            matches_from(with_alternative(p, a, e, j), 0, s, k) || (e < j && alternatives_match(
                p,
                i,
                e + 1,
                e + 1,
                j,
                s,
                k,
            ))
        } else {
            alternatives_match(p, i, a, e + 1, j, s, k)
        }
    } else {
        false
    }
}

/// Whether the whole of `p` matches the whole of `s`.
pub open spec fn glob_matches(p: Seq<char>, s: Seq<char>) -> bool {
    matches_from(p, 0, s, 0)
}

/// Index `k` starts a run of whole path components of `s`.
pub open spec fn component_start(s: Seq<char>, k: int) -> bool {
    0 <= k <= s.len() && (k == 0 || is_sep(s[k - 1]))
}

/// Whether `p` matches the whole path, or the path's trailing components from
/// some separator on (so `*.log` matches `logs/run.log`).
pub open spec fn path_matches(p: Seq<char>, s: Seq<char>) -> bool {
    exists|k: int| component_start(s, k) && #[trigger] matches_from(p, 0, s, k)
}

/// Whether `p` holds a character with a meaning in globs.
pub open spec fn has_glob_syntax(p: Seq<char>) -> bool {
    exists|i: int| 0 <= i < p.len() && is_glob_char(#[trigger] p[i])
}

/// The characters that open a wildcard, a class or a group of alternatives.
pub open spec fn is_glob_char(c: char) -> bool {
    c == '*' || c == '?' || c == '[' || c == '{'
}

fn find_char_exec(p: &Vec<char>, i: usize, c: char) -> (r: usize)
    requires
        i <= p@.len(),
    ensures
        r == find_char(p@, i as int, c),
        i <= r <= p@.len(),
        r < p@.len() ==> p@[r as int] == c,
{
    let mut x: usize = i;
    while x < p.len()
        invariant
            i <= x <= p@.len(),
            find_char(p@, i as int, c) == find_char(p@, x as int, c),
        decreases p@.len() - x,
    {
        if p[x] == c {
            return x;
        }
        x = x + 1;
    }
    x
}

fn class_items_cover_exec(p: &Vec<char>, k: usize, hi: usize, c: char) -> (r: bool)
    requires
        hi <= p@.len(),
    ensures
        r == class_items_cover(p@, k as int, hi as int, c),
    decreases hi - k,
{
    if k >= hi {
        false
    } else if hi - k > 2 && p[k + 1] == '-' {
        ((p[k] as u32) <= (c as u32) && (c as u32) <= (p[k + 2] as u32))
            || class_items_cover_exec(p, k + 3, hi, c)
    } else {
        p[k] == c || class_items_cover_exec(p, k + 1, hi, c)
    }
}

fn class_accepts_exec(p: &Vec<char>, lo: usize, hi: usize, c: char) -> (r: bool)
    requires
        hi <= p@.len(),
    ensures
        r == class_accepts(p@, lo as int, hi as int, c),
{
    if lo < hi && (p[lo] == '!' || p[lo] == '^') {
        !class_items_cover_exec(p, lo + 1, hi, c)
    } else {
        class_items_cover_exec(p, lo, hi, c)
    }
}

fn with_alternative_exec(p: &Vec<char>, a: usize, e: usize, j: usize) -> (r: Vec<char>)
    requires
        a <= e <= j < p@.len(),
    ensures
        r@ == with_alternative(p@, a as int, e as int, j as int),
{
    let n = p.len();
    let mut r: Vec<char> = Vec::new();
    let mut x: usize = a;
    while x < e
        invariant
            a <= x <= e <= j < p@.len(),
            r@ == p@.subrange(a as int, x as int),
        decreases e - x,
    {
        r.push(p[x]);
        x = x + 1;
        assert(r@ =~= p@.subrange(a as int, x as int));
    }
    let mut y: usize = j + 1;
    while y < n
        invariant
            n == p@.len(),
            a <= e <= j < y <= p@.len(),
            r@ == p@.subrange(a as int, e as int) + p@.subrange(j + 1, y as int),
        decreases p@.len() - y,
    {
        r.push(p[y]);
        y = y + 1;
        assert(r@ =~= p@.subrange(a as int, e as int) + p@.subrange(j + 1, y as int));
    }
    r
}

/// Whether the pattern suffix `p[i..]` matches the text suffix `s[k..]`.
pub fn matches_from_exec(p: &Vec<char>, i: usize, s: &Vec<char>, k: usize) -> (r: bool)
    requires
        i <= p@.len(),
        k <= s@.len(),
    ensures
        r == matches_from(p@, i as int, s@, k as int),
    decreases p@.len() - i, s@.len() - k, p@.len() - i,
{
    if i >= p.len() {
        k == s.len()
    } else if p[i] == '*' {
        if i + 1 < p.len() && p[i + 1] == '*' {
            matches_from_exec(p, i + 2, s, k) || (k < s.len() && matches_from_exec(p, i, s, k + 1))
        } else {
            matches_from_exec(p, i + 1, s, k) || (k < s.len() && s[k] != '/'
                && matches_from_exec(p, i, s, k + 1))
        }
    } else if p[i] == '?' {
        k < s.len() && s[k] != '/' && matches_from_exec(p, i + 1, s, k + 1)
    } else if p[i] == '[' && p.len() - i >= 2 && find_char_exec(p, i + 2, ']') < p.len() {
        let j = find_char_exec(p, i + 2, ']');
        k < s.len() && s[k] != '/' && class_accepts_exec(p, i + 1, j, s[k]) && matches_from_exec(
            p,
            j + 1,
            s,
            k + 1,
        )
    } else if p[i] == '{' && find_char_exec(p, i + 1, '}') < p.len() {
        let j = find_char_exec(p, i + 1, '}');
        alternatives_match_exec(p, i, i + 1, i + 1, j, s, k)
    } else {
        k < s.len() && s[k] == p[i] && matches_from_exec(p, i + 1, s, k + 1)
    }
}

fn alternatives_match_exec(
    p: &Vec<char>,
    i: usize,
    a: usize,
    e: usize,
    j: usize,
    s: &Vec<char>,
    k: usize,
) -> (r: bool)
    requires
        i < a <= e <= j < p@.len(),
        k <= s@.len(),
    ensures
        r == alternatives_match(p@, i as int, a as int, e as int, j as int, s@, k as int),
    decreases p@.len() - i, s@.len() - k, j - e,
{
    if e == j || p[e] == ',' {
        let q = with_alternative_exec(p, a, e, j);
        matches_from_exec(&q, 0, s, k) || (e < j && alternatives_match_exec(
            p,
            i,
            e + 1,
            e + 1,
            j,
            s,
            k,
        ))
    } else {
        alternatives_match_exec(p, i, a, e + 1, j, s, k)
    }
}

/// Whether `p` matches the whole path `s` or its trailing components from
/// some separator on.
pub fn path_matches_exec(p: &Vec<char>, s: &Vec<char>) -> (r: bool)
    ensures
        r == path_matches(p@, s@),
{
    let n = s.len();
    let mut k: usize = 0;
    while k < n
        invariant
            n == s@.len(),
            k <= n,
            forall|x: int| 0 <= x < k ==> !(component_start(s@, x) && #[trigger] matches_from(p@, 0, s@, x)),
        decreases n - k,
    {
        if (k == 0 || s[k - 1] == '/') && matches_from_exec(p, 0, s, k) {
            return true;
        }
        k = k + 1;
    }
    let last = (n == 0 || s[n - 1] == '/') && matches_from_exec(p, 0, s, n);
    if !last {
        assert forall|x: int| component_start(s@, x) implies !#[trigger] matches_from(p@, 0, s@, x) by {
            if x < n {
            }
        }
    }
    last
}

/// Whether `p` holds one of `*`, `?`, `[` or `{`.
pub fn has_glob_syntax_exec(p: &Vec<char>) -> (r: bool)
    ensures
        r == has_glob_syntax(p@),
{
    let mut i: usize = 0;
    while i < p.len()
        invariant
            i <= p@.len(),
            forall|x: int| 0 <= x < i ==> !is_glob_char(#[trigger] p@[x]),
        decreases p@.len() - i,
    {
        let c = p[i];
        if c == '*' || c == '?' || c == '[' || c == '{' {
            assert(is_glob_char(p@[i as int]));
            return true;
        }
        i = i + 1;
    }
    false
}

/// Whether the glob `pattern` matches the whole of `text`.
pub fn glob_match(pattern: &str, text: &str) -> (r: bool)
    ensures
        r == glob_matches(pattern@, text@),
{
    let p = chars_of(pattern);
    let s = chars_of(text);
    matches_from_exec(&p, 0, &s, 0)
}

/// Whether the glob `pattern` matches the path `path` or its trailing
/// components from some separator on.
pub fn path_match(pattern: &str, path: &str) -> (r: bool)
    ensures
        r == path_matches(pattern@, path@),
{
    let p = chars_of(pattern);
    let s = chars_of(path);
    path_matches_exec(&p, &s)
}

} // verus!
