//! Commit facts of post files, read from `git log` output lines of the form
//! `<unix timestamp>,<author name>`, most recent first.

use vstd::prelude::*;
use crate::config::{BlogError, BlogFile, new_err, strings_view};
use crate::header::{find_from, split_on};
use crate::resolve::facts_in_range;
use crate::text::{chars_of, is_whitespace_char, is_ws, lemma_trailing_ws, string_of_range, trim, trim_bounds, trim_end};

verus! {

pub open spec fn is_digit(c: char) -> bool {
    '0' <= c && c <= '9'
}

pub open spec fn all_digits(s: Seq<char>) -> bool {
    forall|i: int| 0 <= i < s.len() ==> is_digit(#[trigger] s[i])
}

/// The value of a string of decimal digits.
pub open spec fn digits_value(s: Seq<char>) -> int
    decreases s.len(),
{
    if s.len() == 0 {
        0
    } else {
        digits_value(s.drop_last()) * 10 + (s.last() as int - '0' as int)
    }
}

/// The integer that `s` writes in decimal: an optional sign, then one or
/// more digits, nothing else; as `str::parse` reads an integer.
pub open spec fn decimal_of(s: Seq<char>) -> Option<int> {
    if s.len() > 0 && (s[0] == '+' || s[0] == '-') {
        let d = s.skip(1);
        if d.len() > 0 && all_digits(d) {
            Some(
                if s[0] == '-' {
                    -digits_value(d)
                } else {
                    digits_value(d)
                },
            )
        } else {
            None
        }
    } else if s.len() > 0 && all_digits(s) {
        Some(digits_value(s))
    } else {
        None
    }
}

/// `s` read as an `i64`, if it is a decimal integer in range.
pub open spec fn i64_of(s: Seq<char>) -> Option<i64> {
    match decimal_of(s) {
        Some(v) => if i64::MIN <= v <= i64::MAX {
            Some(v as i64)
        } else {
            None
        },
        None => None,
    }
}

proof fn lemma_digits_value_grows(s: Seq<char>, i: int)
    requires
        0 <= i <= s.len(),
        all_digits(s),
    ensures
        0 <= digits_value(s.take(i)) <= digits_value(s),
    decreases s.len(),
{
    if s.len() == 0 {
        assert(s.take(i) =~= s);
    } else {
        let k = if i < s.len() {
            i
        } else {
            s.len() - 1
        };
        assert(is_digit(s.last()));
        assert(forall|j: int| 0 <= j < s.drop_last().len() ==> s.drop_last()[j] == s[j]);
        lemma_digits_value_grows(s.drop_last(), k);
        assert(s.drop_last().take(k) =~= s.take(k));
        if i == s.len() {
            assert(s.take(i) =~= s);
            lemma_digits_value_grows(s.drop_last(), 0);
        }
    }
}

/// Reads `v[from..to]` as an `i64`.
pub fn parse_i64(v: &Vec<char>, from: usize, to: usize) -> (r: Option<i64>)
    requires
        from <= to <= v@.len(),
    ensures
        r == i64_of(v@.subrange(from as int, to as int)),
{
    let ghost s = v@.subrange(from as int, to as int);
    if from == to {
        return None;
    }
    let negative = v[from] == '-';
    let start = if v[from] == '+' || v[from] == '-' {
        from + 1
    } else {
        from
    };
    let ghost d = v@.subrange(start as int, to as int);
    assert(start > from ==> d =~= s.skip(1));
    assert(start == from ==> d =~= s);
    if start == to {
        return None;
    }
    let bound: i128 = 9_223_372_036_854_775_808;
    let mut acc: i128 = 0;
    let mut i = start;
    while i < to
        invariant
            from <= start <= i <= to <= v@.len(),
            start == from || start == from + 1,
            s == v@.subrange(from as int, to as int),
            start > from ==> d == s.skip(1),
            start == from ==> d == s,
            (start > from) == (s[0] == '+' || s[0] == '-'),
            negative == (s[0] == '-'),
            bound == 9_223_372_036_854_775_808,
            d == v@.subrange(start as int, to as int),
            all_digits(v@.subrange(start as int, i as int)),
            acc == digits_value(v@.subrange(start as int, i as int)),
            0 <= acc <= bound,
        decreases to - i,
    {
        let c = v[i];
        if !('0' <= c && c <= '9') {
            assert(d[i - start] == c);
            return None;
        }
        let ghost pre = v@.subrange(start as int, i + 1);
        assert(pre.drop_last() =~= v@.subrange(start as int, i as int));
        acc = acc * 10 + (c as u32 - '0' as u32) as i128;
        if acc > bound {
            proof {
                assert(pre =~= d.take(i + 1 - start));
                if all_digits(d) {
                    lemma_digits_value_grows(d, i + 1 - start);
                }
            }
            return None;
        }
        i = i + 1;
    }
    assert(v@.subrange(start as int, to as int) =~= d);
    if negative {
        let value: i128 = -acc;
        Some(value as i64)
    } else if acc == bound {
        None
    } else {
        Some(acc as i64)
    }
}

/// The timestamp and author of one `git log` line, split at its first comma;
/// the author is trimmed.
pub open spec fn update_line_of(line: Seq<char>) -> Option<(i64, Seq<char>)> {
    match find_from(line, ',', 0) {
        None => None,
        Some(c) => match i64_of(line.take(c)) {
            None => None,
            Some(ts) => Some((ts, trim(line.skip(c + 1)))),
        },
    }
}

/// Parses one `git log` line: `<unix timestamp>,<author name>`.
pub fn parse_git_update_line(update: &str) -> (r: Result<(i64, String), BlogError>)
    ensures
        match update_line_of(update@) {
            Some((ts, name)) => r matches Ok(p) && p.0 == ts && p.1@ == name,
            None => r matches Err(BlogError::Other(m)) && m@ == (if find_from(update@, ',', 0) is None {
                "Failed to parse output of git log"@
            } else {
                "Failed to parse timestamp from git log"@
            }),
        },
{
    let v = chars_of(update);
    let n = v.len();
    let mut c: usize = 0;
    while c < n && v[c] != ','
        invariant
            c <= n == v@.len(),
            find_from(v@, ',', 0) == find_from(v@, ',', c as int),
        decreases n - c,
    {
        c = c + 1;
    }
    if c == n {
        return Err(new_err("Failed to parse output of git log"));
    }
    assert(v@.take(c as int) =~= v@.subrange(0, c as int));
    let ts = match parse_i64(&v, 0, c) {
        Some(t) => t,
        None => return Err(new_err("Failed to parse timestamp from git log")),
    };
    let (b, e) = trim_bounds(&v, c + 1, n);
    assert(v@.skip(c + 1) =~= v@.subrange(c + 1, n as int));
    Ok((ts, string_of_range(&v, b, e)))
}

/// The commit facts of the post at `path` from its `git log` lines, most
/// recent first: the latest line gives the update time, the oldest the
/// written time; the author is that of the oldest line read.
pub open spec fn facts_of(path: Seq<char>, updates: Seq<Seq<char>>, f: BlogFile) -> bool {
    &&& f.path_from_root@ == path
    &&& if updates.len() == 0 {
        f.written == 0 && f.updated == 0 && f.git_author_name@ == Seq::<char>::empty()
    } else {
        let first = update_line_of(updates[0])->0;
        let last = update_line_of(updates.last())->0;
        f.updated == first.0 && f.written == last.0 && f.git_author_name@ == last.1
    }
}

/// The lines that are read, the latest and the oldest, parse.
pub open spec fn all_lines_parse(updates: Seq<Seq<char>>) -> bool {
    updates.len() == 0 || (update_line_of(updates[0]) is Some && update_line_of(updates.last()) is Some)
}

/// The commit facts of one post file from its `git log` lines.
pub fn blog_file_from_history(path: &str, updates: &Vec<String>) -> (r: Result<BlogFile, BlogError>)
    ensures
        all_lines_parse(strings_view(updates@)) <==> r is Ok,
        r matches Ok(f) ==> facts_of(path@, strings_view(updates@), f),
{
    let mut f = BlogFile {
        path_from_root: path.to_owned(),
        written: 0,
        updated: 0,
        git_author_name: String::new(),
    };
    let n = updates.len();
    if n == 0 {
        return Ok(f);
    }
    let ghost u = strings_view(updates@);
    match parse_git_update_line(updates[0].as_str()) {
        Ok((ts, name)) => {
            f.updated = ts;
            f.git_author_name = name;
        },
        Err(e) => return Err(e),
    }
    match parse_git_update_line(updates[n - 1].as_str()) {
        Ok((ts, name)) => {
            f.written = ts;
            f.git_author_name = name;
        },
        Err(e) => return Err(e),
    }
    assert(u.last() == updates@[n - 1]@);
    Ok(f)
}

/// Does `s` end with `suffix`?
pub open spec fn ends_with(s: Seq<char>, suffix: Seq<char>) -> bool {
    suffix.len() <= s.len() && s.skip(s.len() - suffix.len()) == suffix
}

fn ends_with_exec(s: &str, suffix: &Vec<char>) -> (r: bool)
    ensures
        r == ends_with(s@, suffix@),
{
    let v = chars_of(s);
    if suffix.len() > v.len() {
        return false;
    }
    let at = v.len() - suffix.len();
    let r = crate::text::matches_at(&v, at, suffix);
    assert(v@.subrange(at as int, at + suffix@.len()) =~= v@.skip(at as int));
    r
}

/// The paths, in order, that end with `blog_file_name`.
pub open spec fn blog_paths_of(files: Seq<Seq<char>>, blog_file_name: Seq<char>) -> Seq<Seq<char>> {
    files.filter(|p: Seq<char>| ends_with(p, blog_file_name))
}

/// The paths among `files` that name a post file: those ending with
/// `blog_file_name`, in their order.
pub fn select_blog_files(files: &Vec<String>, blog_file_name: &str) -> (r: Vec<String>)
    ensures
        strings_view(r@) == blog_paths_of(strings_view(files@), blog_file_name@),
{
    let suffix = chars_of(blog_file_name);
    let mut out: Vec<String> = Vec::new();
    let mut i: usize = 0;
    while i < files.len()
        invariant
            i <= files@.len(),
            suffix@ == blog_file_name@,
            strings_view(out@) == blog_paths_of(strings_view(files@).take(i as int), blog_file_name@),
        decreases files.len() - i,
    {
        let ghost before = strings_view(out@);
        let ghost pre = strings_view(files@).take(i + 1);
        assert(pre.drop_last() =~= strings_view(files@).take(i as int));
        assert(pre.last() == files@[i as int]@);
        proof {
            reveal(Seq::filter);
        }
        if ends_with_exec(files[i].as_str(), &suffix) {
            out.push(files[i].clone());
            assert(strings_view(out@) =~= before.push(files@[i as int]@));
        }
        i = i + 1;
    }
    assert(strings_view(files@).take(files@.len() as int) =~= strings_view(files@));
    out
}

/// The commit facts of each post file, from its `git log` lines
/// (`histories[i]` for `paths[i]`); fails on the first line that does not
/// parse.
pub fn get_blog_file_meta_info(paths: &Vec<String>, histories: &Vec<Vec<String>>) -> (r: Result<Vec<BlogFile>, BlogError>)
    requires
        paths@.len() == histories@.len(),
    ensures
        (forall|i: int| 0 <= i < paths@.len() ==> all_lines_parse(strings_view(#[trigger] histories@[i]@)))
            <==> r is Ok,
        r matches Ok(v) ==> v@.len() == paths@.len() && forall|i: int|
            0 <= i < paths@.len() ==> facts_of(
                #[trigger] paths@[i]@,
                strings_view(histories@[i]@),
                v@[i],
            ),
{
    let mut out: Vec<BlogFile> = Vec::new();
    let mut i: usize = 0;
    while i < paths.len()
        invariant
            i <= paths@.len() == histories@.len(),
            out@.len() == i,
            forall|j: int| 0 <= j < i ==> all_lines_parse(strings_view(#[trigger] histories@[j]@)),
            forall|j: int|
                0 <= j < i ==> facts_of(#[trigger] paths@[j]@, strings_view(histories@[j]@), out@[j]),
        decreases paths.len() - i,
    {
        match blog_file_from_history(paths[i].as_str(), &histories[i]) {
            Ok(f) => out.push(f),
            Err(e) => return Err(e),
        }
        i = i + 1;
    }
    Ok(out)
}

/// The lines of command output: trailing whitespace dropped, then split at
/// each newline.
pub open spec fn output_lines_of(out: Seq<char>) -> Seq<Seq<char>> {
    split_on(trim_end(out), '\n')
}

/// Splits command output into its lines.
pub fn output_lines(out: &str) -> (r: Vec<String>)
    ensures
        strings_view(r@) == output_lines_of(out@),
{
    let v = chars_of(out);
    let mut e = v.len();
    while e > 0 && is_whitespace_char(v[e - 1])
        invariant
            e <= v@.len(),
            forall|j: int| e <= j < v@.len() ==> is_ws(#[trigger] v@[j]),
        decreases e,
    {
        e = e - 1;
    }
    proof {
        lemma_trailing_ws(v@, v@.len() - e);
    }
    assert(trim_end(v@) =~= v@.subrange(0, e as int));
    crate::header::split_chars(&v, 0, e, '\n')
}

/// Can the date formatter take the timestamps of `f`?
pub fn facts_usable(f: &BlogFile) -> (r: bool)
    ensures
        r == facts_in_range(f),
{
    -crate::dates::MAX_TIMESTAMP <= f.written && f.written <= crate::dates::MAX_TIMESTAMP
        && -crate::dates::MAX_TIMESTAMP <= f.updated && f.updated <= crate::dates::MAX_TIMESTAMP
}

} // verus!
