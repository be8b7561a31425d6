//! Substitution of named placeholders in a text template.
//!
//! A placeholder is `${name}` or `${{ name }}`; the double-brace form may
//! carry a fallback, `${{ name | fallback }}`. Names and fallbacks are
//! trimmed. A name found in the context is replaced by its value verbatim; a
//! name that is missing is replaced by its fallback, or else by nothing, and
//! is then reported. A `${` that never closes is ordinary text.

use vstd::prelude::*;
use crate::config::strings_view;
use crate::header::find_from;
use crate::text::{chars_of, push_char, push_str, string_of_range, trim, trim_bounds};

verus! {

/// Values by name. A later entry for a name replaces an earlier one.
pub struct TemplateContext {
    pub entries: Vec<(String, String)>,
}

pub open spec fn map_of(entries: Seq<(String, String)>) -> Map<Seq<char>, Seq<char>>
    decreases entries.len(),
{
    if entries.len() == 0 {
        Map::empty()
    } else {
        map_of(entries.drop_last()).insert(entries.last().0@, entries.last().1@)
    }
}

impl View for TemplateContext {
    type V = Map<Seq<char>, Seq<char>>;

    open spec fn view(&self) -> Map<Seq<char>, Seq<char>> {
        map_of(self.entries@)
    }
}

/// No entry at or after `i` has the name `k`: then `k` maps as it does in
/// the first `i` entries.
proof fn lemma_map_of_prefix(s: Seq<(String, String)>, i: int, k: Seq<char>)
    requires
        0 <= i <= s.len(),
        forall|j: int| i <= j < s.len() ==> (#[trigger] s[j]).0@ != k,
    ensures
        map_of(s).contains_key(k) == map_of(s.take(i)).contains_key(k),
        map_of(s).contains_key(k) ==> map_of(s)[k] == map_of(s.take(i))[k],
    decreases s.len() - i,
{
    if i < s.len() {
        assert(s.drop_last().take(i) =~= s.take(i));
        assert(forall|j: int|
            i <= j < s.drop_last().len() ==> (#[trigger] s.drop_last()[j]).0@ == s[j].0@);
        lemma_map_of_prefix(s.drop_last(), i, k);
    } else {
        assert(s.take(i) =~= s);
    }
}

impl TemplateContext {
    pub fn new() -> (r: TemplateContext)
        ensures
            r@ == Map::<Seq<char>, Seq<char>>::empty(),
    {
        TemplateContext { entries: Vec::new() }
    }

    /// Sets `key` to `value`, replacing any earlier value.
    pub fn insert(&mut self, key: String, value: String)
        ensures
            final(self)@ == old(self)@.insert(key@, value@),
    {
        let ghost before = self.entries@;
        self.entries.push((key, value));
        assert(self.entries@.drop_last() =~= before);
    }

    /// Sets `key` (given as text) to `value`.
    pub fn insert_str(&mut self, key: &str, value: String)
        ensures
            final(self)@ == old(self)@.insert(key@, value@),
    {
        self.insert(key.to_owned(), value);
    }

    /// The value of the name `v[from..to]`.
    pub fn lookup(&self, v: &Vec<char>, from: usize, to: usize) -> (r: Option<String>)
        requires
            from <= to <= v@.len(),
        ensures
            match r {
                Some(x) => self@.contains_key(v@.subrange(from as int, to as int)) && self@[v@.subrange(
                    from as int,
                    to as int,
                )] == x@,
                None => !self@.contains_key(v@.subrange(from as int, to as int)),
            },
    {
        let ghost k = v@.subrange(from as int, to as int);
        let mut i = self.entries.len();
        while i > 0
            invariant
                i <= self.entries@.len(),
                from <= to <= v@.len(),
                k == v@.subrange(from as int, to as int),
                forall|j: int| i <= j < self.entries@.len() ==> (#[trigger] self.entries@[j]).0@ != k,
            decreases i,
        {
            let name = chars_of(self.entries[i - 1].0.as_str());
            let same = name.len() == to - from && crate::text::matches_at(v, from, &name);
            assert(same == (self.entries@[i - 1].0@ == k)) by {
                if name@.len() == to - from {
                    assert(v@.subrange(from as int, from + name@.len()) == k);
                }
            }
            if same {
                proof {
                    lemma_map_of_prefix(self.entries@, i as int, k);
                    assert(self.entries@.take(i as int).drop_last() =~= self.entries@.take(i - 1));
                }
                return Some(self.entries[i - 1].1.clone());
            }
            i = i - 1;
        }
        proof {
            lemma_map_of_prefix(self.entries@, 0, k);
        }
        None
    }
}

/// Does a placeholder open at `i`?
pub open spec fn opens_at(t: Seq<char>, i: int) -> bool {
    0 <= i && i + 1 < t.len() && t[i] == '$' && t[i + 1] == '{'
}

/// Is the placeholder at `i` of the double-brace form?
pub open spec fn is_double(t: Seq<char>, i: int) -> bool {
    i + 2 < t.len() && t[i + 2] == '{'
}

/// Where the name of the placeholder at `i` begins.
pub open spec fn inner_start(t: Seq<char>, i: int) -> int {
    if is_double(t, i) {
        i + 3
    } else {
        i + 2
    }
}

pub open spec fn close_len(dbl: bool) -> int {
    if dbl {
        2
    } else {
        1
    }
}

/// Does the closing brace (or pair of braces) stand at `j`?
pub open spec fn closes_at(t: Seq<char>, j: int, dbl: bool) -> bool {
    0 <= j && j + close_len(dbl) <= t.len() && t[j] == '}' && (!dbl || t[j + 1] == '}')
}

/// The first closing position at or after `j`.
pub open spec fn find_close(t: Seq<char>, j: int, dbl: bool) -> Option<int>
    decreases t.len() - j,
{
    if j < 0 || j >= t.len() {
        None
    } else if closes_at(t, j, dbl) {
        Some(j)
    } else {
        find_close(t, j + 1, dbl)
    }
}

proof fn lemma_find_close_bounds(t: Seq<char>, j: int, dbl: bool)
    ensures
        find_close(t, j, dbl) matches Some(k) ==> j <= k && closes_at(t, k, dbl),
    decreases t.len() - j,
{
    if 0 <= j < t.len() && !closes_at(t, j, dbl) {
        lemma_find_close_bounds(t, j + 1, dbl);
    }
}

/// What a placeholder with the text `inner` between its braces becomes, and
/// the name it reports as missing, if any.
pub open spec fn resolve_placeholder(inner: Seq<char>, ctx: Map<Seq<char>, Seq<char>>) -> (
    Seq<char>,
    Seq<Seq<char>>,
) {
    match find_from(inner, '|', 0) {
        Some(p) => {
            let key = trim(inner.take(p));
            if ctx.contains_key(key) {
                (ctx[key], Seq::empty())
            } else {
                (trim(inner.skip(p + 1)), Seq::empty())
            }
        },
        None => {
            let key = trim(inner);
            if ctx.contains_key(key) {
                (ctx[key], Seq::empty())
            } else {
                (Seq::empty(), seq![key])
            }
        },
    }
}

/// The output and the missing names of the template `t` from position `i` on.
pub open spec fn render_from(t: Seq<char>, i: int, ctx: Map<Seq<char>, Seq<char>>) -> (
    Seq<char>,
    Seq<Seq<char>>,
)
    decreases t.len() - i via render_from_decreases
{
    if i < 0 || i >= t.len() {
        (Seq::empty(), Seq::empty())
    } else if opens_at(t, i) && find_close(t, inner_start(t, i), is_double(t, i)) is Some {
        let j = find_close(t, inner_start(t, i), is_double(t, i))->0;
        let here = resolve_placeholder(t.subrange(inner_start(t, i), j), ctx);
        let rest = render_from(t, j + close_len(is_double(t, i)), ctx);
        (here.0 + rest.0, here.1 + rest.1)
    } else {
        let rest = render_from(t, i + 1, ctx);
        (seq![t[i]] + rest.0, rest.1)
    }
}

#[via_fn]
proof fn render_from_decreases(t: Seq<char>, i: int, ctx: Map<Seq<char>, Seq<char>>) {
    if 0 <= i < t.len() {
        lemma_find_close_bounds(t, inner_start(t, i), is_double(t, i));
    }
}

/// The text that substitution makes of `template` under `ctx`.
pub open spec fn substituted(template: Seq<char>, ctx: Map<Seq<char>, Seq<char>>) -> Seq<char> {
    render_from(template, 0, ctx).0
}

/// The names, in order of appearance, that `ctx` lacks and that have no
/// fallback in `template`.
pub open spec fn unresolved(template: Seq<char>, ctx: Map<Seq<char>, Seq<char>>) -> Seq<
    Seq<char>,
> {
    render_from(template, 0, ctx).1
}

/// The first closing position at or after `j`, or `n` if none.
fn find_close_exec(v: &Vec<char>, j: usize, dbl: bool) -> (r: usize)
    requires
        j <= v@.len(),
    ensures
        j <= r <= v@.len(),
        find_close(v@, j as int, dbl) == (if r < v@.len() {
            Some(r as int)
        } else {
            None::<int>
        }),
{
    let n = v.len();
    let mut k = j;
    while k < n && !(v[k] == '}' && (!dbl || (k + 1 < n && v[k + 1] == '}')))
        invariant
            j <= k <= n == v@.len(),
            find_close(v@, j as int, dbl) == find_close(v@, k as int, dbl),
        decreases n - k,
    {
        k = k + 1;
    }
    k
}

/// Substitutes every placeholder of `v[from..to]` (the text between braces).
fn resolve_exec(v: &Vec<char>, from: usize, to: usize, ctx: &TemplateContext, out: &mut String, missing: &mut Vec<String>)
    requires
        from <= to <= v@.len(),
    ensures
        final(out)@ == old(out)@ + resolve_placeholder(v@.subrange(from as int, to as int), ctx@).0,
        strings_view(final(missing)@) == strings_view(old(missing)@) + resolve_placeholder(
            v@.subrange(from as int, to as int),
            ctx@,
        ).1,
{
    let ghost inner = v@.subrange(from as int, to as int);
    let ghost miss0 = strings_view(missing@);
    let mut p = from;
    while p < to && v[p] != '|'
        invariant
            from <= p <= to <= v@.len(),
            inner == v@.subrange(from as int, to as int),
            find_from(inner, '|', 0) == find_from(inner, '|', p - from),
        decreases to - p,
    {
        p = p + 1;
    }
    assert(inner.take(p - from) =~= v@.subrange(from as int, p as int));
    let (kb, ke) = if p < to {
        trim_bounds(v, from, p)
    } else {
        trim_bounds(v, from, to)
    };
    match ctx.lookup(v, kb, ke) {
        Some(val) => {
            push_str(out, val.as_str());
            assert(strings_view(missing@) =~= miss0 + Seq::<Seq<char>>::empty());
        },
        None => {
            if p < to {
                let (db, de) = trim_bounds(v, p + 1, to);
                assert(inner.skip(p - from + 1) =~= v@.subrange(p + 1, to as int));
                let fallback = string_of_range(v, db, de);
                push_str(out, fallback.as_str());
                assert(strings_view(missing@) =~= miss0 + Seq::<Seq<char>>::empty());
            } else {
                assert(inner =~= v@.subrange(from as int, to as int));
                let name = string_of_range(v, kb, ke);
                let ghost before = missing@;
                missing.push(name);
                assert(strings_view(missing@) =~= strings_view(before).push(name@));
                assert(old(out)@ + Seq::<char>::empty() =~= old(out)@);
                assert(strings_view(missing@) =~= miss0 + seq![name@]);
            }
        },
    }
}

/// Substitutes the placeholders of `template` with the values of `context`;
/// gives the output and the names that were missing, in order.
pub fn render_template(template: &str, context: &TemplateContext) -> (r: (String, Vec<String>))
    ensures
        r.0@ == substituted(template@, context@),
        strings_view(r.1@) == unresolved(template@, context@),
{
    let v = chars_of(template);
    let n = v.len();
    let ghost t = v@;
    let ghost whole = render_from(t, 0, context@);
    let mut out = String::new();
    let mut missing: Vec<String> = Vec::new();
    let mut i: usize = 0;
    assert(out@ + whole.0 =~= whole.0);
    assert(strings_view(missing@) + whole.1 =~= whole.1);
    while i < n
        invariant
            i <= n == v@.len(),
            t == v@,
            t == template@,
            whole == render_from(t, 0, context@),
            out@ + render_from(t, i as int, context@).0 == whole.0,
            strings_view(missing@) + render_from(t, i as int, context@).1 == whole.1,
        decreases n - i,
    {
        let ghost out0 = out@;
        let ghost miss0 = strings_view(missing@);
        let mut next = i + 1;
        let mut done = false;
        if i + 1 < n && v[i] == '$' && v[i + 1] == '{' {
            let dbl = i + 2 < n && v[i + 2] == '{';
            let start = if dbl {
                i + 3
            } else {
                i + 2
            };
            let j = find_close_exec(&v, start, dbl);
            if j < n {
                proof {
                    lemma_find_close_bounds(t, start as int, dbl);
                }
                resolve_exec(&v, start, j, context, &mut out, &mut missing);
                next = if dbl {
                    j + 2
                } else {
                    j + 1
                };
                done = true;
                let ghost here = resolve_placeholder(t.subrange(start as int, j as int), context@);
                let ghost rest = render_from(t, next as int, context@);
                assert(render_from(t, i as int, context@) == (here.0 + rest.0, here.1 + rest.1));
                assert(out0 + (here.0 + rest.0) =~= out@ + rest.0);
                assert(miss0 + (here.1 + rest.1) =~= strings_view(missing@) + rest.1);
            }
        }
        if !done {
            push_char(&mut out, v[i]);
            let ghost rest = render_from(t, i + 1, context@);
            assert(render_from(t, i as int, context@) == (seq![t[i as int]] + rest.0, rest.1));
            assert(out0 + (seq![t[i as int]] + rest.0) =~= out@ + rest.0);
        }
        i = next;
    }
    assert(out@ + Seq::<char>::empty() =~= out@);
    assert(strings_view(missing@) + Seq::<Seq<char>>::empty() =~= strings_view(missing@));
    (out, missing)
}

} // verus!
