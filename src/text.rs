//! Character-sequence helpers shared by the matcher, the rule resolver and the
//! serializer.
use vstd::prelude::*;

verus! {

/// The characters of `s`, one by one.
pub fn chars_of(s: &str) -> (r: Vec<char>)
    ensures
        r@ == s@,
{
    let mut r: Vec<char> = Vec::new();
    for c in it: s.chars()
        invariant
            it.seq() == s@,
            r@ == it.seq().take(it.index() as int),
    {
        r.push(c);
        assert(r@ =~= it.seq().take(it.index() + 1));
    }
    assert(r@ =~= s@);
    r
}

/// `t` occurs in `s` starting at index `k`.
pub open spec fn occurs_at(s: Seq<char>, t: Seq<char>, k: int) -> bool {
    0 <= k && k + t.len() <= s.len() && s.subrange(k, k + t.len()) == t
}

/// `t` occurs somewhere in `s`.
pub open spec fn contains(s: Seq<char>, t: Seq<char>) -> bool {
    exists|k: int| #[trigger] occurs_at(s, t, k)
}

/// `s` ends with `t`.
pub open spec fn ends_with(s: Seq<char>, t: Seq<char>) -> bool {
    t.len() <= s.len() && s.subrange(s.len() - t.len(), s.len() as int) == t
}

/// Whether `t` occurs in `s` at index `k`.
pub fn occurs_at_exec(s: &Vec<char>, t: &Vec<char>, k: usize) -> (r: bool)
    requires
        k + t@.len() <= s@.len(),
    ensures
        r == occurs_at(s@, t@, k as int),
{
    let n = s.len();
    let mut i: usize = 0;
    while i < t.len()
        invariant
            n == s@.len(),
            k + t@.len() <= s@.len(),
            i <= t@.len(),
            forall|x: int| 0 <= x < i ==> s@[k + x] == t@[x],
        decreases t@.len() - i,
    {
        if s[k + i] != t[i] {
            assert(s@.subrange(k as int, k + t@.len())[i as int] != t@[i as int]);
            return false;
        }
        i = i + 1;
    }
    assert(s@.subrange(k as int, k + t@.len()) =~= t@);
    true
}

/// Whether `t` occurs somewhere in `s`.
pub fn contains_exec(s: &Vec<char>, t: &Vec<char>) -> (r: bool)
    ensures
        r == contains(s@, t@),
{
    if t.len() > s.len() {
        return false;
    }
    let last = s.len() - t.len();
    let mut k: usize = 0;
    while k < last
        invariant
            last + t@.len() == s@.len(),
            k <= last,
            forall|x: int| 0 <= x < k ==> !#[trigger] occurs_at(s@, t@, x),
        decreases last - k,
    {
        if occurs_at_exec(s, t, k) {
            return true;
        }
        k = k + 1;
    }
    occurs_at_exec(s, t, last)
}

/// Whether `s` ends with `t`.
pub fn ends_with_exec(s: &Vec<char>, t: &Vec<char>) -> (r: bool)
    ensures
        r == ends_with(s@, t@),
{
    if t.len() > s.len() {
        return false;
    }
    occurs_at_exec(s, t, s.len() - t.len())
}

/// Relies on `String::push`: appends one character.
#[verifier::external_body]
pub(crate) fn push_char(s: &mut String, c: char)
    ensures
        final(s)@ == old(s)@.push(c),
{
    s.push(c);
}

/// The string of the characters `c[a..b]`.
pub fn string_of_range(c: &Vec<char>, a: usize, b: usize) -> (r: String)
    requires
        a <= b <= c@.len(),
    ensures
        r@ == c@.subrange(a as int, b as int),
{
    let mut r = String::new();
    let mut i: usize = a;
    while i < b
        invariant
            a <= i <= b <= c@.len(),
            r@ == c@.subrange(a as int, i as int),
        decreases b - i,
    {
        push_char(&mut r, c[i]);
        i = i + 1;
        assert(r@ =~= c@.subrange(a as int, i as int));
    }
    r
}

/// Appends the characters of `t` to `s`.
pub fn append_str(s: &mut String, t: &str)
    ensures
        final(s)@ == old(s)@ + t@,
{
    s.append(t);
}

/// Blank characters that surround an item of a list.
pub open spec fn is_blank(c: char) -> bool {
    c == ' ' || c == '\t' || c == '\r' || c == '\n'
}

/// The first index in `a..b` from which `s[..b]` holds no leading blank.
pub open spec fn skip_blanks(s: Seq<char>, a: int, b: int) -> int
    decreases b - a,
{
    if a < b && is_blank(s[a]) {
        skip_blanks(s, a + 1, b)
    } else {
        a
    }
}

/// The end of `s[a..b]` once trailing blanks are dropped.
pub open spec fn drop_blanks(s: Seq<char>, a: int, b: int) -> int
    decreases b - a,
{
    if a < b && is_blank(s[b - 1]) {
        drop_blanks(s, a, b - 1)
    } else {
        b
    }
}

/// `s[a..b]` without its leading and trailing blanks.
pub open spec fn trimmed(s: Seq<char>, a: int, b: int) -> Seq<char> {
    let lo = skip_blanks(s, a, b);
    s.subrange(lo, drop_blanks(s, lo, b))
}

/// The bounds of `trimmed(s, a, b)`.
pub fn trim_bounds(s: &Vec<char>, a: usize, b: usize) -> (r: (usize, usize))
    requires
        a <= b <= s@.len(),
    ensures
        r.0 == skip_blanks(s@, a as int, b as int),
        r.1 == drop_blanks(s@, r.0 as int, b as int),
        a <= r.0 <= r.1 <= b,
{
    let mut lo: usize = a;
    while lo < b && (s[lo] == ' ' || s[lo] == '\t' || s[lo] == '\r' || s[lo] == '\n')
        invariant
            a <= lo <= b <= s@.len(),
            skip_blanks(s@, a as int, b as int) == skip_blanks(s@, lo as int, b as int),
        decreases b - lo,
    {
        lo = lo + 1;
    }
    let mut hi: usize = b;
    while hi > lo && (s[hi - 1] == ' ' || s[hi - 1] == '\t' || s[hi - 1] == '\r' || s[hi - 1]
        == '\n')
        invariant
            a <= lo <= hi <= b <= s@.len(),
            drop_blanks(s@, lo as int, b as int) == drop_blanks(s@, lo as int, hi as int),
        decreases hi,
    {
        hi = hi - 1;
    }
    (lo, hi)
}

/// What the field `s[a..b]` contributes to a list: nothing when it is blank
/// or, with `comments`, when it starts with `#`; else the field trimmed.
pub open spec fn kept_field(s: Seq<char>, a: int, b: int, comments: bool) -> Seq<Seq<char>> {
    let t = trimmed(s, a, b);
    if t.len() == 0 || (comments && t[0] == '#') {
        seq![]
    } else {
        seq![t]
    }
}

/// The kept fields of `s`, separated by `sep`, from the field that starts at
/// `start` (scanned up to `i`) on.
pub open spec fn fields_from(s: Seq<char>, sep: char, comments: bool, start: int, i: int) -> Seq<
    Seq<char>,
>
    decreases s.len() - i,
{
    if start < 0 || i < start || i > s.len() {
        seq![]
    } else if i == s.len() {
        kept_field(s, start, i, comments)
    } else if s[i] == sep {
        kept_field(s, start, i, comments) + fields_from(s, sep, comments, i + 1, i + 1)
    } else {
        fields_from(s, sep, comments, start, i + 1)
    }
}

/// The kept fields of `s` separated by `sep`.
pub open spec fn fields(s: Seq<char>, sep: char, comments: bool) -> Seq<Seq<char>> {
    fields_from(s, sep, comments, 0, 0)
}

/// The views of a list of strings.
pub open spec fn views(v: Seq<String>) -> Seq<Seq<char>> {
    v.map_values(|x: String| x@)
}

fn push_kept_field(out: &mut Vec<String>, s: &Vec<char>, a: usize, b: usize, comments: bool)
    requires
        a <= b <= s@.len(),
    ensures
        views(final(out)@) == views(old(out)@) + kept_field(s@, a as int, b as int, comments),
{
    let (lo, hi) = trim_bounds(s, a, b);
    if lo == hi || (comments && s[lo] == '#') {
        assert(views(out@) =~= views(out@) + kept_field(s@, a as int, b as int, comments));
    } else {
        let t = string_of_range(s, lo, hi);
        out.push(t);
        assert(views(out@) =~= views(old(out)@) + kept_field(s@, a as int, b as int, comments));
    }
}

/// The fields of `text` separated by `sep`, trimmed, without blank ones and,
/// with `comments`, without those that start with `#`.
pub fn split_fields(text: &str, sep: char, comments: bool) -> (r: Vec<String>)
    ensures
        views(r@) == fields(text@, sep, comments),
{
    let s = chars_of(text);
    let n = s.len();
    let mut out: Vec<String> = Vec::new();
    let mut start: usize = 0;
    let mut i: usize = 0;
    while i < n
        invariant
            n == s@.len(),
            s@ == text@,
            start <= i <= n,
            views(out@) + fields_from(s@, sep, comments, start as int, i as int) == fields(
                s@,
                sep,
                comments,
            ),
        decreases n - i,
    {
        if s[i] == sep {
            let ghost before = views(out@);
            push_kept_field(&mut out, &s, start, i, comments);
            assert(before + fields_from(s@, sep, comments, start as int, i as int) == before
                + (kept_field(s@, start as int, i as int, comments) + fields_from(
                s@,
                sep,
                comments,
                i + 1,
                i + 1,
            )));
            assert(views(out@) + fields_from(s@, sep, comments, i + 1, i + 1) =~= before + (
            kept_field(s@, start as int, i as int, comments) + fields_from(
                s@,
                sep,
                comments,
                i + 1,
                i + 1,
            )));
            start = i + 1;
        }
        i = i + 1;
    }
    let ghost before = views(out@);
    push_kept_field(&mut out, &s, start, n, comments);
    assert(views(out@) =~= before + fields_from(s@, sep, comments, start as int, n as int));
    out
}

} // verus!
