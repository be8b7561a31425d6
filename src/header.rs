//! The optional `key: value` header block at the start of a post.

use vstd::prelude::*;
use crate::config::{BlogConfig, ConfigView, strings_view};
use crate::text::{chars_of, has_at, matches_at, range_equals, string_of_range, trim, trim_bounds};

verus! {

/// The pieces of `s` between occurrences of `sep`, in order; always at least
/// one piece.
pub open spec fn split_on(s: Seq<char>, sep: char) -> Seq<Seq<char>>
    decreases s.len(),
{
    if s.len() == 0 {
        seq![Seq::<char>::empty()]
    } else {
        let p = split_on(s.drop_last(), sep);
        if s.last() == sep {
            p.push(Seq::<char>::empty())
        } else {
            p.update(p.len() - 1, p.last().push(s.last()))
        }
    }
}

/// Index of the first `c` in `s` at or after `from`, if any.
pub open spec fn find_from(s: Seq<char>, c: char, from: int) -> Option<int>
    decreases s.len() - from,
{
    if from < 0 || from >= s.len() {
        None
    } else if s[from] == c {
        Some(from)
    } else {
        find_from(s, c, from + 1)
    }
}

/// Where the line that starts at `pos` ends: its newline, or the end of text.
pub open spec fn line_end(t: Seq<char>, pos: int) -> int {
    match find_from(t, '\n', pos) {
        Some(j) => j,
        None => t.len() as int,
    }
}

/// The effect of one header line on the metadata read so far. The line is
/// split at its first colon; key and value are trimmed; unknown keys and
/// lines without a colon change nothing.
pub open spec fn header_line_update(cfg: ConfigView, line: Seq<char>) -> ConfigView {
    match find_from(line, ':', 0) {
        None => cfg,
        Some(i) => {
            let key = trim(line.take(i));
            let value = trim(line.skip(i + 1));
            if key == "title"@ {
                ConfigView { title: Some(value), ..cfg }
            } else if key == "tags"@ {
                ConfigView { tags: Some(split_on(value, ',')), ..cfg }
            } else if key == "author"@ {
                ConfigView { author_name: Some(value), ..cfg }
            } else if key == "author_email"@ {
                ConfigView { author_email: Some(value), ..cfg }
            } else if key == "author_projects_url"@ {
                ConfigView { author_projects_url: Some(value), ..cfg }
            } else if key == "blog_home_url"@ {
                ConfigView { blog_home_url: Some(value), ..cfg }
            } else if key == "blog_name"@ {
                ConfigView { blog_name: Some(value), ..cfg }
            } else if key == "date"@ {
                ConfigView { date_written: Some(value), ..cfg }
            } else if key == "last_updated"@ {
                ConfigView { date_updated: Some(value), ..cfg }
            } else if key == "blog_file_name"@ {
                ConfigView { blog_file_name: Some(value), ..cfg }
            } else {
                cfg
            }
        },
    }
}

/// Reads header lines from `pos` on, up to and including the first line that
/// starts with `---`; gives the metadata and where the body begins.
pub open spec fn header_scan(t: Seq<char>, pos: int, cfg: ConfigView) -> (ConfigView, int)
    decreases t.len() - pos via header_scan_decreases
{
    if pos < 0 || pos >= t.len() {
        (cfg, t.len() as int)
    } else {
        let end = line_end(t, pos);
        let line = t.subrange(pos, end);
        if has_at(line, 0, "---"@) {
            (cfg, if end < t.len() { end + 1 } else { t.len() as int })
        } else if end >= t.len() {
            (header_line_update(cfg, line), t.len() as int)
        } else {
            header_scan(t, end + 1, header_line_update(cfg, line))
        }
    }
}

#[via_fn]
proof fn header_scan_decreases(t: Seq<char>, pos: int, cfg: ConfigView) {
    lemma_find_from_bounds(t, '\n', pos);
}

/// Header metadata of a raw post and where its body begins. Text that does
/// not start with `---` has no header; else the first line is skipped and
/// the header runs to the next line that starts with `---`, or to the end.
pub open spec fn header_of(t: Seq<char>) -> (ConfigView, int) {
    if !has_at(t, 0, "---"@) {
        (ConfigView::empty(), 0)
    } else {
        let first_end = line_end(t, 0);
        header_scan(t, first_end + 1, ConfigView::empty())
    }
}

/// The metadata that the header of `t` sets.
pub open spec fn parsed_header(t: Seq<char>) -> ConfigView {
    header_of(t).0
}

/// The body of `t`: everything after the header's closing line.
pub open spec fn parsed_body(t: Seq<char>) -> Seq<char> {
    t.skip(header_of(t).1)
}

/// Text that does not start with the `---` delimiter has no header: the
/// metadata is empty and the body is the whole text, unchanged.
pub proof fn lemma_no_header_no_change(t: Seq<char>)
    requires
        !has_at(t, 0, "---"@),
    ensures
        parsed_header(t) == ConfigView::empty(),
        parsed_body(t) == t,
{
    assert(t.skip(0) =~= t);
}

pub proof fn lemma_find_from_bounds(s: Seq<char>, c: char, from: int)
    ensures
        find_from(s, c, from) matches Some(j) ==> from <= j < s.len() && s[j] == c,
    decreases s.len() - from,
{
    if 0 <= from < s.len() && s[from] != c {
        lemma_find_from_bounds(s, c, from + 1);
    }
}

/// The first index `j >= from` with `v[j] == c` before `to`, or `to`.
fn find_char(v: &Vec<char>, c: char, from: usize, to: usize) -> (r: usize)
    requires
        from <= to <= v@.len(),
    ensures
        from <= r <= to,
        find_from(v@.subrange(0, to as int), c, from as int) == (if r < to {
            Some(r as int)
        } else {
            None::<int>
        }),
{
    let ghost s = v@.subrange(0, to as int);
    let mut j = from;
    while j < to && v[j] != c
        invariant
            from <= j <= to <= v@.len(),
            s == v@.subrange(0, to as int),
            find_from(s, c, from as int) == find_from(s, c, j as int),
        decreases to - j,
    {
        j = j + 1;
    }
    j
}

/// Splits `v[from..to]` at each `sep` into new strings.
pub(crate) fn split_chars(v: &Vec<char>, from: usize, to: usize, sep: char) -> (r: Vec<String>)
    requires
        from <= to <= v@.len(),
    ensures
        strings_view(r@) == split_on(v@.subrange(from as int, to as int), sep),
{
    let mut pieces: Vec<String> = Vec::new();
    let mut start = from;
    let mut i = from;
    assert(v@.subrange(from as int, from as int) =~= Seq::<char>::empty());
    assert(strings_view(pieces@).push(v@.subrange(from as int, from as int)) =~= split_on(
        v@.subrange(from as int, from as int),
        sep,
    ));
    while i < to
        invariant
            from <= start <= i <= to <= v@.len(),
            strings_view(pieces@).push(v@.subrange(start as int, i as int)) == split_on(
                v@.subrange(from as int, i as int),
                sep,
            ),
        decreases to - i,
    {
        let ghost s = v@.subrange(from as int, i + 1);
        assert(s.drop_last() =~= v@.subrange(from as int, i as int));
        let ghost before = strings_view(pieces@);
        let ghost old_start = start;
        if v[i] == sep {
            let piece = string_of_range(v, start, i);
            pieces.push(piece);
            start = i + 1;
            assert(strings_view(pieces@) =~= before.push(v@.subrange(old_start as int, i as int)));
            assert(v@.subrange(start as int, i + 1) =~= Seq::<char>::empty());
            assert(strings_view(pieces@).push(v@.subrange(start as int, i + 1)) =~= split_on(
                s,
                sep,
            ));
        } else {
            assert(v@.subrange(start as int, i + 1) =~= v@.subrange(start as int, i as int).push(
                v@[i as int],
            ));
            assert(strings_view(pieces@).push(v@.subrange(start as int, i + 1)) =~= split_on(
                s,
                sep,
            ));
        }
        i = i + 1;
    }
    let last = string_of_range(v, start, to);
    pieces.push(last);
    assert(strings_view(pieces@) =~= split_on(v@.subrange(from as int, to as int), sep));
    pieces
}

/// Applies the header line `v[from..to]` to `cfg`.
fn apply_header_line(v: &Vec<char>, from: usize, to: usize, cfg: &mut BlogConfig)
    requires
        from <= to <= v@.len(),
    ensures
        final(cfg)@ == header_line_update(old(cfg)@, v@.subrange(from as int, to as int)),
{
    let ghost line = v@.subrange(from as int, to as int);
    let colon = find_char(v, ':', from, to);
    proof {
        assert(line =~= v@.subrange(0, to as int).skip(from as int));
        lemma_find_from_shift(v@.subrange(0, to as int), from as int, ':', from as int);
    }
    if colon == to {
        return;
    }
    let (kb, ke) = trim_bounds(v, from, colon);
    let (vb, ve) = trim_bounds(v, colon + 1, to);
    assert(line.take(colon - from) =~= v@.subrange(from as int, colon as int));
    assert(line.skip(colon - from + 1) =~= v@.subrange(colon + 1, to as int));
    if range_equals(v, kb, ke, "title") {
        cfg.title = Some(string_of_range(v, vb, ve));
    } else if range_equals(v, kb, ke, "tags") {
        cfg.tags = Some(split_chars(v, vb, ve, ','));
    } else if range_equals(v, kb, ke, "author") {
        cfg.author_name = Some(string_of_range(v, vb, ve));
    } else if range_equals(v, kb, ke, "author_email") {
        cfg.author_email = Some(string_of_range(v, vb, ve));
    } else if range_equals(v, kb, ke, "author_projects_url") {
        cfg.author_projects_url = Some(string_of_range(v, vb, ve));
    } else if range_equals(v, kb, ke, "blog_home_url") {
        cfg.blog_home_url = Some(string_of_range(v, vb, ve));
    } else if range_equals(v, kb, ke, "blog_name") {
        cfg.blog_name = Some(string_of_range(v, vb, ve));
    } else if range_equals(v, kb, ke, "date") {
        cfg.date_written = Some(string_of_range(v, vb, ve));
    } else if range_equals(v, kb, ke, "last_updated") {
        cfg.date_updated = Some(string_of_range(v, vb, ve));
    } else if range_equals(v, kb, ke, "blog_file_name") {
        cfg.blog_file_name = Some(string_of_range(v, vb, ve));
    }
}

/// `find_from` within `s[base..]` is `find_from` within `s`, shifted.
proof fn lemma_find_from_shift(s: Seq<char>, base: int, c: char, k: int)
    requires
        0 <= base <= k <= s.len(),
    ensures
        find_from(s.skip(base), c, k - base) == (match find_from(s, c, k) {
            Some(j) => Some(j - base),
            None => None,
        }),
    decreases s.len() - k,
{
    if k < s.len() && s[k] != c {
        lemma_find_from_shift(s, base, c, k + 1);
    }
}

/// Applies one header line (`key: value`) to `blog_config`.
pub fn parse_blog_header_line(line: &str, blog_config: &mut BlogConfig)
    ensures
        final(blog_config)@ == header_line_update(old(blog_config)@, line@),
{
    let v = chars_of(line);
    assert(v@.subrange(0, v@.len() as int) =~= v@);
    apply_header_line(&v, 0, v.len(), blog_config);
}

/// Splits a raw post into its header metadata and its body. Text that does
/// not start with `---` comes back whole with empty metadata.
pub fn parse_blog_file_info(blog_file: &str) -> (r: Result<(BlogConfig, String), crate::config::BlogError>)
    ensures
        r matches Ok(p) && p.0@ == parsed_header(blog_file@) && p.1@ == parsed_body(blog_file@),
{
    let v = chars_of(blog_file);
    let n = v.len();
    let ghost t = v@;
    assert(t.subrange(0, n as int) =~= t);
    let mut config = BlogConfig::new();
    let dashes = chars_of("---");
    if !matches_at(&v, 0, &dashes) {
        assert(t.skip(0) =~= t);
        return Ok((config, string_of_range(&v, 0, n)));
    }
    let first_end = find_char(&v, '\n', 0, n);
    let mut pos = if first_end < n {
        first_end + 1
    } else {
        n
    };
    proof {
        reveal_strlit("---");
    }
    while pos < n
        invariant
            n == v@.len(),
            t == v@,
            t == blog_file@,
            t.subrange(0, n as int) == t,
            has_at(t, 0, "---"@),
            dashes@ == "---"@,
            header_scan(t, pos as int, config@) == header_of(t),
            pos >= 1,
        decreases n - pos,
    {
        let end = find_char(&v, '\n', pos, n);
        let ghost line = t.subrange(pos as int, end as int);
        assert(line_end(t, pos as int) == end);
        let l = end - pos;
        let closes = l >= 3 && matches_at(&v, pos, &dashes);
        assert(closes == has_at(line, 0, "---"@)) by {
            reveal_strlit("---");
            if l >= 3 {
                assert(line.subrange(0, 3) =~= t.subrange(pos as int, pos + 3));
            }
        }
        if closes {
            let body_start = if end < n {
                end + 1
            } else {
                n
            };
            assert(header_scan(t, pos as int, config@) == (config@, body_start as int));
            assert(t.skip(body_start as int) =~= v@.subrange(body_start as int, n as int));
            return Ok((config, string_of_range(&v, body_start, n)));
        }
        apply_header_line(&v, pos, end, &mut config);
        pos = if end < n {
            end + 1
        } else {
            n
        };
    }
    assert(t.skip(n as int) =~= v@.subrange(n as int, n as int));
    Ok((config, string_of_range(&v, n, n)))
}

} // verus!
