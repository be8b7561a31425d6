//! Values derived from a post when its header leaves them unset: the
//! description excerpt and the URL-safe file name (slug).

use vstd::prelude::*;
use crate::config::strings_view;
use crate::text::{chars_of, is_whitespace_char, is_ws, lemma_leading_ws, push_char, push_str, string_of_range, trim_start};

verus! {

/// What `str::to_lowercase` makes of a string (Unicode lowercase mapping).
pub uninterp spec fn lower_of(s: Seq<char>) -> Seq<char>;

/// Relies on `str::to_lowercase`: the result depends on the characters alone.
#[verifier::external_body]
fn to_lowercase(s: &str) -> (r: String)
    ensures
        r@ == lower_of(s@),
{
    s.to_lowercase()
}

/// Index of the first blank line separator (`\n\n`) in `s` at or after `from`.
pub open spec fn find_blank_line(s: Seq<char>, from: int) -> Option<int>
    decreases s.len() - from,
{
    if from < 0 || from + 1 >= s.len() {
        None
    } else if s[from] == '\n' && s[from + 1] == '\n' {
        Some(from)
    } else {
        find_blank_line(s, from + 1)
    }
}

/// The first paragraph of `s`: everything before its first `\n\n`.
pub open spec fn first_paragraph(s: Seq<char>) -> Seq<char> {
    match find_blank_line(s, 0) {
        Some(j) => s.take(j),
        None => s,
    }
}

/// The description derived from a post body.
pub open spec fn description_of(body: Seq<char>) -> Seq<char> {
    first_paragraph(trim_start(body))
}

/// The excerpt of a post body (which holds no header): leading whitespace
/// dropped, then everything before the first blank line.
pub fn get_description(blog_text: &str) -> (r: Option<String>)
    ensures
        r matches Some(d) && d@ == description_of(blog_text@),
{
    let v = chars_of(blog_text);
    let n = v.len();
    let mut b: usize = 0;
    while b < n && is_whitespace_char(v[b])
        invariant
            b <= n == v@.len(),
            forall|j: int| 0 <= j < b ==> is_ws(#[trigger] v@[j]),
        decreases n - b,
    {
        b = b + 1;
    }
    proof {
        lemma_leading_ws(v@, b as int);
    }
    let ghost s = trim_start(v@);
    assert(s =~= v@.subrange(b as int, n as int));
    let mut j = b;
    while j < n && j + 1 < n && !(v[j] == '\n' && v[j + 1] == '\n')
        invariant
            b <= j <= n == v@.len(),
            s == v@.subrange(b as int, n as int),
            find_blank_line(s, 0) == find_blank_line(s, j - b),
        decreases n - j,
    {
        j = j + 1;
    }
    let end = if j < n && j + 1 < n {
        j
    } else {
        n
    };
    assert(first_paragraph(s) =~= v@.subrange(b as int, end as int));
    Some(string_of_range(&v, b, end))
}

/// Characters that may stand in a slug.
pub open spec fn is_slug_char(c: char) -> bool {
    ('a' <= c && c <= 'z') || ('0' <= c && c <= '9')
}

/// `word` with every character outside `[a-z0-9]` removed.
pub open spec fn valid_word_of(word: Seq<char>) -> Seq<char> {
    word.filter(|c: char| is_slug_char(c))
}

/// Keeps only the characters `[a-z0-9]` of `word`, in order.
pub fn replace_with_valid_word(word: &str) -> (r: String)
    ensures
        r@ == valid_word_of(word@),
{
    let v = chars_of(word);
    let mut out = String::new();
    let mut i: usize = 0;
    while i < v.len()
        invariant
            i <= v@.len(),
            out@ == valid_word_of(v@.take(i as int)),
        decreases v.len() - i,
    {
        let c = v[i];
        assert(v@.take(i + 1).drop_last() =~= v@.take(i as int));
        assert(v@.take(i + 1).last() == c);
        proof {
            reveal(Seq::filter);
        }
        assert(valid_word_of(v@.take(i + 1)) == if is_slug_char(c) {
            valid_word_of(v@.take(i as int)).push(c)
        } else {
            valid_word_of(v@.take(i as int))
        });
        if ('a' <= c && c <= 'z') || ('0' <= c && c <= '9') {
            push_char(&mut out, c);
        }
        i = i + 1;
    }
    assert(v@.take(v@.len() as int) =~= v@);
    out
}

/// The maximal runs of non-whitespace characters of `s`, in order.
pub open spec fn words_of(s: Seq<char>) -> Seq<Seq<char>>
    decreases s.len(),
{
    if s.len() == 0 {
        Seq::empty()
    } else {
        let w = words_of(s.drop_last());
        if is_ws(s.last()) {
            w
        } else if s.len() >= 2 && !is_ws(s[s.len() - 2]) {
            w.update(w.len() - 1, w.last().push(s.last()))
        } else {
            w.push(seq![s.last()])
        }
    }
}

/// Joins the non-empty pieces with `-`; empty pieces leave no trace.
pub open spec fn join_nonempty(pieces: Seq<Seq<char>>) -> Seq<char>
    decreases pieces.len(),
{
    if pieces.len() == 0 {
        Seq::empty()
    } else {
        let j = join_nonempty(pieces.drop_last());
        let w = pieces.last();
        if w.len() == 0 {
            j
        } else if j.len() == 0 {
            w
        } else {
            j + seq!['-'] + w
        }
    }
}

/// The slug of a title: each whitespace-separated word lower-cased and
/// reduced to `[a-z0-9]`, the non-empty results joined with `-`.
pub open spec fn slug_of(title: Seq<char>) -> Seq<char> {
    join_nonempty(words_of(title).map_values(|w: Seq<char>| valid_word_of(lower_of(w))))
}

/// The words of `title`.
fn split_words(v: &Vec<char>) -> (r: Vec<String>)
    ensures
        strings_view(r@) == words_of(v@),
{
    let mut done: Vec<String> = Vec::new();
    let mut start: usize = 0;
    let mut in_word = false;
    let mut i: usize = 0;
    assert(v@.take(0) =~= Seq::<char>::empty());
    while i < v.len()
        invariant
            i <= v@.len(),
            start <= i,
            in_word == (i > 0 && !is_ws(v@[i - 1])),
            in_word ==> strings_view(done@).push(v@.subrange(start as int, i as int)) == words_of(
                v@.take(i as int),
            ),
            !in_word ==> strings_view(done@) == words_of(v@.take(i as int)),
            in_word ==> start < i,
        decreases v.len() - i,
    {
        let c = v[i];
        let ghost before = strings_view(done@);
        assert(v@.take(i + 1).drop_last() =~= v@.take(i as int));
        assert(v@.take(i + 1).last() == c);
        if is_whitespace_char(c) {
            if in_word {
                let w = string_of_range(v, start, i);
                done.push(w);
                assert(strings_view(done@) =~= before.push(v@.subrange(start as int, i as int)));
            }
            in_word = false;
        } else {
            if !in_word {
                start = i;
                assert(v@.subrange(start as int, i + 1) =~= seq![c]);
            } else {
                assert(v@.take(i + 1)[i - 1] == v@[i - 1]);
                assert(v@.subrange(start as int, i + 1) =~= v@.subrange(start as int, i as int).push(c));
            }
            in_word = true;
        }
        i = i + 1;
    }
    if in_word {
        let w = string_of_range(v, start, i);
        done.push(w);
    }
    assert(v@.take(v@.len() as int) =~= v@);
    assert(strings_view(done@) =~= words_of(v@));
    done
}

/// The slug of a title, or none without a title.
pub fn get_blog_file_name(title: &Option<String>) -> (r: Option<String>)
    ensures
        match title {
            Some(t) => r matches Some(s) && s@ == slug_of(t@),
            None => r is None,
        },
{
    match title {
        Some(t) => {
            let v = chars_of(t.as_str());
            let words = split_words(&v);
            let ghost mapped = words_of(t@).map_values(|w: Seq<char>| valid_word_of(lower_of(w)));
            let mut out = String::new();
            let mut i: usize = 0;
            while i < words.len()
                invariant
                    i <= words@.len(),
                    strings_view(words@) == words_of(t@),
                    mapped == words_of(t@).map_values(|w: Seq<char>| valid_word_of(lower_of(w))),
                    out@ == join_nonempty(mapped.take(i as int)),
                decreases words.len() - i,
            {
                let lower = to_lowercase(words[i].as_str());
                let valid = replace_with_valid_word(lower.as_str());
                assert(mapped.take(i + 1).drop_last() =~= mapped.take(i as int));
                assert(strings_view(words@)[i as int] == words@[i as int]@);
                assert(mapped.take(i + 1).last() == valid@);
                let empty = valid.as_str().unicode_len() == 0;
                if !empty {
                    if out.as_str().unicode_len() != 0 {
                        push_char(&mut out, '-');
                    }
                    push_str(&mut out, valid.as_str());
                    assert(out@ =~= join_nonempty(mapped.take(i + 1)));
                }
                i = i + 1;
            }
            assert(mapped.take(mapped.len() as int) =~= mapped);
            Some(out)
        },
        None => None,
    }
}

} // verus!
