//! Resolution of one post's metadata: global configuration, then the post's
//! header, then values derived from the body and from commit history.

use vstd::prelude::*;
use crate::config::{BlogConfig, BlogError, BlogFile, ConfigView};
use crate::dates::{get_date_string_from_timestamp, rfc3339_of, timestamp_in_range, utc_format_of, HUMAN_DATE_FORMAT};
use crate::derive::{description_of, get_blog_file_name, get_description, slug_of};
use crate::header::{parse_blog_file_info, parsed_body, parsed_header};

verus! {

/// The commit facts are usable by the date formatter.
pub open spec fn facts_in_range(f: &BlogFile) -> bool {
    timestamp_in_range(f.written) && timestamp_in_range(f.updated)
}

/// Fills what `merged` leaves unset: description from the body, slug from
/// the title, author from the commits, dates from the commit timestamps.
pub open spec fn with_derived(merged: ConfigView, body: Seq<char>, facts: BlogFile) -> ConfigView {
    let c1 = if merged.description is None {
        ConfigView { description: Some(description_of(body)), ..merged }
    } else {
        merged
    };
    let c2 = if c1.blog_file_name is None {
        ConfigView { blog_file_name: Some(slug_of(c1.title->0)), ..c1 }
    } else {
        c1
    };
    let c3 = if c2.author_name is None {
        ConfigView { author_name: Some(facts.git_author_name@), ..c2 }
    } else {
        c2
    };
    let c4 = if c3.date_written is None {
        ConfigView {
            date_written: Some(utc_format_of(facts.written as int, HUMAN_DATE_FORMAT@)),
            published_time_iso: Some(rfc3339_of(facts.written as int)),
            modified_time_iso: Some(rfc3339_of(facts.written as int)),
            ..c3
        }
    } else {
        c3
    };
    if c4.date_updated is None && facts.updated != 0 {
        ConfigView {
            date_updated: Some(utc_format_of(facts.updated as int, HUMAN_DATE_FORMAT@)),
            modified_time_iso: Some(rfc3339_of(facts.updated as int)),
            ..c4
        }
    } else {
        c4
    }
}

/// The global configuration with the post's header laid over it.
pub open spec fn merged_of(global: ConfigView, raw: Seq<char>) -> ConfigView {
    global.overlay(parsed_header(raw))
}

/// What resolution of a post gives: its metadata and its body, or why not.
pub open spec fn resolution_ok(
    raw: Seq<char>,
    facts: BlogFile,
    global: ConfigView,
    r: Result<(BlogConfig, String), BlogError>,
) -> bool {
    let merged = merged_of(global, raw);
    if merged.title is None {
        r matches Err(BlogError::MissingTitle(p)) && p@ == facts.path_from_root@
    } else if facts.written == 0 {
        r matches Err(BlogError::MissingCommitHistory(p)) && p@ == facts.path_from_root@
    } else {
        r matches Ok(x) && x.0@ == with_derived(merged, parsed_body(raw), facts) && x.1@
            == parsed_body(raw)
    }
}

/// The header sets every field that a header line can carry.
pub open spec fn header_sets_all(h: ConfigView) -> bool {
    &&& h.title is Some
    &&& h.tags is Some
    &&& h.author_name is Some
    &&& h.author_email is Some
    &&& h.author_projects_url is Some
    &&& h.blog_home_url is Some
    &&& h.blog_name is Some
    &&& h.date_written is Some
    &&& h.date_updated is Some
    &&& h.blog_file_name is Some
}

/// A header that sets every field it can carry wins on each of them: the
/// resolved values come neither from the global configuration nor from the
/// commit facts.
pub proof fn lemma_full_header_wins(raw: Seq<char>, facts: BlogFile, global: ConfigView)
    requires
        header_sets_all(parsed_header(raw)),
    ensures
        ({
            let h = parsed_header(raw);
            let x = with_derived(merged_of(global, raw), parsed_body(raw), facts);
            &&& merged_of(global, raw).title is Some
            &&& x.title == h.title
            &&& x.tags == h.tags
            &&& x.author_name == h.author_name
            &&& x.author_email == h.author_email
            &&& x.author_projects_url == h.author_projects_url
            &&& x.blog_home_url == h.blog_home_url
            &&& x.blog_name == h.blog_name
            &&& x.date_written == h.date_written
            &&& x.date_updated == h.date_updated
            &&& x.blog_file_name == h.blog_file_name
        }),
{
}

/// The author: the header's, else the global configuration's, else the
/// one from the commit history.
pub proof fn lemma_author_precedence(raw: Seq<char>, facts: BlogFile, global: ConfigView)
    ensures
        with_derived(merged_of(global, raw), parsed_body(raw), facts).author_name == (
        match parsed_header(raw).author_name {
            Some(a) => Some(a),
            None => match global.author_name {
                Some(a) => Some(a),
                None => Some(facts.git_author_name@),
            },
        }),
{
}

/// A post without a commit (`written == 0`) that has a title fails with
/// `MissingCommitHistory`, whatever else it sets.
pub proof fn lemma_no_commit_fails(
    raw: Seq<char>,
    facts: BlogFile,
    global: ConfigView,
    r: Result<(BlogConfig, String), BlogError>,
)
    requires
        resolution_ok(raw, facts, global, r),
        facts.written == 0,
        merged_of(global, raw).title is Some,
    ensures
        r matches Err(BlogError::MissingCommitHistory(p)) && p@ == facts.path_from_root@,
{
}

/// Resolves the metadata of one post: the global configuration, overlaid
/// by the post's header, then completed from the body and the commit facts.
/// Fails without a title, then without a commit.
pub fn get_applied_blog_config(blog_file: &str, updated_blog: &BlogFile, blog_config: &BlogConfig) -> (r: Result<(BlogConfig, String), BlogError>)
    requires
        facts_in_range(updated_blog),
    ensures
        resolution_ok(blog_file@, *updated_blog, blog_config@, r),
{
    let (blog_info, rest) = match parse_blog_file_info(blog_file) {
        Ok(p) => p,
        Err(e) => return Err(e),
    };
    let mut info = blog_config.duplicate();
    info.apply(blog_info);
    let ghost merged = info@;
    if info.title.is_none() {
        return Err(BlogError::MissingTitle(updated_blog.path_from_root.clone()));
    }
    if updated_blog.written == 0 {
        return Err(BlogError::MissingCommitHistory(updated_blog.path_from_root.clone()));
    }
    if info.description.is_none() {
        info.description = get_description(rest.as_str());
    }
    if info.blog_file_name.is_none() {
        info.blog_file_name = get_blog_file_name(&info.title);
    }
    if info.author_name.is_none() {
        info.author_name = Some(updated_blog.git_author_name.clone());
    }
    if info.date_written.is_none() {
        let (human, iso) = get_date_string_from_timestamp(updated_blog.written);
        info.date_written = Some(human);
        info.published_time_iso = Some(iso.clone());
        info.modified_time_iso = Some(iso);
    }
    if info.date_updated.is_none() && updated_blog.updated != 0 {
        let (human, iso) = get_date_string_from_timestamp(updated_blog.updated);
        info.date_updated = Some(human);
        info.modified_time_iso = Some(iso);
    }
    assert(info@ == with_derived(merged, parsed_body(blog_file@), *updated_blog));
    Ok((info, rest))
}

} // verus!
