//! Character-level helpers on strings, stated over `Seq<char>` views.

use vstd::prelude::*;

verus! {

/// The Unicode `White_Space` property, as `char::is_whitespace` documents it.
pub open spec fn is_ws(c: char) -> bool {
    c == '\t' || c == '\n' || c == '\u{0B}' || c == '\u{0C}' || c == '\r' || c == ' '
        || c == '\u{85}' || c == '\u{A0}' || c == '\u{1680}' || ('\u{2000}' <= c
        && c <= '\u{200A}') || c == '\u{2028}' || c == '\u{2029}' || c == '\u{202F}'
        || c == '\u{205F}' || c == '\u{3000}'
}

/// Is `c` whitespace (Unicode `White_Space`)?
pub fn is_whitespace_char(c: char) -> (r: bool)
    ensures
        r == is_ws(c),
{
    c == '\t' || c == '\n' || c == '\u{0B}' || c == '\u{0C}' || c == '\r' || c == ' '
        || c == '\u{85}' || c == '\u{A0}' || c == '\u{1680}' || ('\u{2000}' <= c
        && c <= '\u{200A}') || c == '\u{2028}' || c == '\u{2029}' || c == '\u{202F}'
        || c == '\u{205F}' || c == '\u{3000}'
}

/// Number of leading whitespace characters.
pub open spec fn leading_ws(s: Seq<char>) -> nat
    decreases s.len(),
{
    if s.len() > 0 && is_ws(s[0]) {
        1 + leading_ws(s.drop_first())
    } else {
        0
    }
}

/// Number of trailing whitespace characters.
pub open spec fn trailing_ws(s: Seq<char>) -> nat
    decreases s.len(),
{
    if s.len() > 0 && is_ws(s.last()) {
        1 + trailing_ws(s.drop_last())
    } else {
        0
    }
}

pub open spec fn trim_start(s: Seq<char>) -> Seq<char> {
    s.skip(leading_ws(s) as int)
}

pub open spec fn trim_end(s: Seq<char>) -> Seq<char> {
    s.take(s.len() - trailing_ws(s))
}

/// Whitespace removed at both ends.
pub open spec fn trim(s: Seq<char>) -> Seq<char> {
    trim_end(trim_start(s))
}

pub proof fn lemma_leading_ws(s: Seq<char>, i: int)
    requires
        0 <= i <= s.len(),
        forall|j: int| 0 <= j < i ==> is_ws(#[trigger] s[j]),
        i == s.len() || !is_ws(s[i]),
    ensures
        leading_ws(s) == i,
    decreases i,
{
    if i > 0 {
        lemma_leading_ws(s.drop_first(), i - 1);
    }
}

pub proof fn lemma_trailing_ws(s: Seq<char>, k: int)
    requires
        0 <= k <= s.len(),
        forall|j: int| s.len() - k <= j < s.len() ==> is_ws(#[trigger] s[j]),
        k == s.len() || !is_ws(s[s.len() - k - 1]),
    ensures
        trailing_ws(s) == k,
    decreases k,
{
    if k > 0 {
        lemma_trailing_ws(s.drop_last(), k - 1);
    }
}

/// The characters of `s`, in order.
pub fn chars_of(s: &str) -> (r: Vec<char>)
    ensures
        r@ == s@,
{
    let mut r: Vec<char> = Vec::new();
    for c in it: s.chars()
        invariant
            it.seq() == s@,
            r@ == it.seq().take(it.index() as int),
    {
        r.push(c);
    }
    assert(r@ =~= s@);
    r
}

/// Relies on `String::push`: appends one character at the end.
#[verifier::external_body]
pub fn push_char(s: &mut String, c: char)
    ensures
        final(s)@ == old(s)@.push(c),
{
    s.push(c);
}

/// Appends `v[from..to]` to `s`.
pub fn push_range(s: &mut String, v: &Vec<char>, from: usize, to: usize)
    requires
        from <= to <= v@.len(),
    ensures
        final(s)@ == old(s)@ + v@.subrange(from as int, to as int),
{
    let ghost start = s@;
    let mut i = from;
    while i < to
        invariant
            from <= i <= to <= v@.len(),
            s@ == start + v@.subrange(from as int, i as int),
        decreases to - i,
    {
        push_char(s, v[i]);
        assert(v@.subrange(from as int, i + 1) =~= v@.subrange(from as int, i as int).push(
            v@[i as int],
        ));
        i = i + 1;
    }
}

/// A new string holding `v[from..to]`.
pub fn string_of_range(v: &Vec<char>, from: usize, to: usize) -> (r: String)
    requires
        from <= to <= v@.len(),
    ensures
        r@ == v@.subrange(from as int, to as int),
{
    let mut r = String::new();
    push_range(&mut r, v, from, to);
    assert(r@ =~= v@.subrange(from as int, to as int));
    r
}

/// Appends `t` to `s`.
pub fn push_str(s: &mut String, t: &str)
    ensures
        final(s)@ == old(s)@ + t@,
{
    s.append(t);
}

/// The bounds `[b, e)` of `trim(v[from..to])` within `v`.
pub fn trim_bounds(v: &Vec<char>, from: usize, to: usize) -> (r: (usize, usize))
    requires
        from <= to <= v@.len(),
    ensures
        from <= r.0 <= r.1 <= to,
        v@.subrange(r.0 as int, r.1 as int) == trim(v@.subrange(from as int, to as int)),
{
    let ghost s = v@.subrange(from as int, to as int);
    let mut b = from;
    while b < to && is_whitespace_char(v[b])
        invariant
            from <= b <= to <= v@.len(),
            forall|j: int| from <= j < b ==> is_ws(#[trigger] v@[j]),
        decreases to - b,
    {
        b = b + 1;
    }
    proof {
        assert forall|j: int| 0 <= j < b - from implies is_ws(#[trigger] s[j]) by {
            assert(s[j] == v@[from + j]);
        }
        lemma_leading_ws(s, b - from);
    }
    let ghost t = trim_start(s);
    assert(t =~= v@.subrange(b as int, to as int));
    let mut e = to;
    while e > b && is_whitespace_char(v[e - 1])
        invariant
            from <= b <= e <= to <= v@.len(),
            forall|j: int| e <= j < to ==> is_ws(#[trigger] v@[j]),
        decreases e - b,
    {
        e = e - 1;
    }
    proof {
        assert forall|j: int| t.len() - (to - e) <= j < t.len() implies is_ws(#[trigger] t[j]) by {
            assert(t[j] == v@[b + j]);
        }
        lemma_trailing_ws(t, to - e);
    }
    assert(trim(s) =~= v@.subrange(b as int, e as int));
    (b, e)
}

/// `v[at..]` begins with `lit`.
pub open spec fn has_at(v: Seq<char>, at: int, lit: Seq<char>) -> bool {
    0 <= at && at + lit.len() <= v.len() && v.subrange(at, at + lit.len()) == lit
}

/// Does `v[at..]` begin with `lit`?
pub fn matches_at(v: &Vec<char>, at: usize, lit: &Vec<char>) -> (r: bool)
    ensures
        r == has_at(v@, at as int, lit@),
{
    if lit.len() > v.len() || at > v.len() - lit.len() {
        return false;
    }
    let mut i: usize = 0;
    while i < lit.len()
        invariant
            i <= lit@.len(),
            at + lit@.len() <= v.len(),
            forall|j: int| 0 <= j < i ==> v@[at + j] == lit@[j],
        decreases lit.len() - i,
    {
        if v[at + i] != lit[i] {
            assert(v@.subrange(at as int, at + lit@.len())[i as int] != lit@[i as int]);
            return false;
        }
        i = i + 1;
    }
    assert(v@.subrange(at as int, at + lit@.len()) =~= lit@);
    true
}

/// Are the characters `v[from..to]` exactly `lit`?
pub fn range_equals(v: &Vec<char>, from: usize, to: usize, lit: &str) -> (r: bool)
    requires
        from <= to <= v@.len(),
    ensures
        r == (v@.subrange(from as int, to as int) == lit@),
{
    let l = chars_of(lit);
    if to - from != l.len() {
        return false;
    }
    let r = matches_at(v, from, &l);
    r
}

} // verus!
