//! The RSS feed: one item per post, and the channel document around them.

use vstd::prelude::*;
use crate::config::{BlogConfig, BlogFile, ConfigView};
use crate::dates::{rss_date, timestamp_in_range, utc_format_of, RSS_DATE_FORMAT};
use crate::render::RSS_ENDING;
use crate::text::push_str;

verus! {

/// The reason a feed is skipped: the post and what it lacks.
pub open spec fn rss_err_of(path: Seq<char>, missing: Seq<char>) -> Seq<char> {
    "Blog post "@ + path + " is missing "@ + missing
}

pub fn rss_err(blog_file: &BlogFile, missing: &str) -> (r: String)
    ensures
        r@ == rss_err_of(blog_file.path_from_root@, missing@),
{
    let mut s = String::new();
    push_str(&mut s, "Blog post ");
    push_str(&mut s, blog_file.path_from_root.as_str());
    push_str(&mut s, " is missing ");
    push_str(&mut s, missing);
    assert(s@ =~= rss_err_of(blog_file.path_from_root@, missing@));
    s
}

pub open spec fn item_xml_of(title: Seq<char>, link: Seq<char>, date: Seq<char>, description: Seq<char>) -> Seq<char> {
    "\n    <item>\n    <title>"@ + title + "</title>\n    <link>"@ + link
        + "</link>\n    <pubDate>"@ + date + "</pubDate>\n    <guid>"@ + link
        + "</guid>\n    <description>"@ + description + "</description>\n    </item>"@
}

/// The feed item of a post, or the reason it cannot have one: the first of
/// title, blog home URL, slug, description and commit time that is missing.
pub open spec fn rss_item_of(c: ConfigView, f: BlogFile) -> Result<Seq<char>, Seq<char>> {
    let path = f.path_from_root@;
    if c.title is None {
        Err(rss_err_of(path, "title"@))
    } else if c.blog_home_url is None {
        Err(rss_err_of(path, "blog_home_url"@))
    } else if c.blog_file_name is None {
        Err(rss_err_of(path, "blog_file_name (this is supposed to be generated for you, but somehow we failed to parse the blog file name?)"@))
    } else if c.description is None {
        Err(rss_err_of(path, "description"@))
    } else if f.written == 0 {
        Err(rss_err_of(path, "a timestamp of when it was written. Are you sure this file was committed into git?"@))
    } else {
        Ok(
            item_xml_of(
                c.title->0,
                c.blog_home_url->0 + "/"@ + c.blog_file_name->0,
                utc_format_of(f.written as int, RSS_DATE_FORMAT@),
                c.description->0,
            ),
        )
    }
}

/// Builds the feed item of one post.
pub fn generate_rss_item(blog_config: &BlogConfig, blog_file: &BlogFile) -> (r: Result<String, String>)
    requires
        timestamp_in_range(blog_file.written),
    ensures
        match r {
            Ok(x) => rss_item_of(blog_config@, *blog_file) == Ok::<Seq<char>, Seq<char>>(x@),
            Err(m) => rss_item_of(blog_config@, *blog_file) == Err::<Seq<char>, Seq<char>>(m@),
        },
{
    let title = match &blog_config.title {
        Some(s) => s,
        None => return Err(rss_err(blog_file, "title")),
    };
    let blog_home_url = match &blog_config.blog_home_url {
        Some(s) => s,
        None => return Err(rss_err(blog_file, "blog_home_url")),
    };
    let blog_file_name = match &blog_config.blog_file_name {
        Some(s) => s,
        None => return Err(rss_err(
            blog_file,
            "blog_file_name (this is supposed to be generated for you, but somehow we failed to parse the blog file name?)",
        )),
    };
    let description = match &blog_config.description {
        Some(s) => s,
        None => return Err(rss_err(blog_file, "description")),
    };
    if blog_file.written == 0 {
        return Err(rss_err(
            blog_file,
            "a timestamp of when it was written. Are you sure this file was committed into git?",
        ));
    }
    let date = rss_date(blog_file.written);
    let mut link = blog_home_url.clone();
    push_str(&mut link, "/");
    push_str(&mut link, blog_file_name.as_str());
    let mut item = String::new();
    push_str(&mut item, "\n    <item>\n    <title>");
    push_str(&mut item, title.as_str());
    push_str(&mut item, "</title>\n    <link>");
    push_str(&mut item, link.as_str());
    push_str(&mut item, "</link>\n    <pubDate>");
    push_str(&mut item, date.as_str());
    push_str(&mut item, "</pubDate>\n    <guid>");
    push_str(&mut item, link.as_str());
    push_str(&mut item, "</guid>\n    <description>");
    push_str(&mut item, description.as_str());
    push_str(&mut item, "</description>\n    </item>");
    assert(item@ =~= item_xml_of(title@, link@, date@, description@));
    Ok(item)
}

pub open spec fn channel_xml_of(
    name: Seq<char>,
    home: Seq<char>,
    description: Seq<char>,
    date: Seq<char>,
    items: Seq<char>,
) -> Seq<char> {
    "\n    <rss xmlns:atom=\"http://www.w3.org/2005/Atom\" version=\"2.0\">\n    <channel>\n    <title>"@
        + name + "</title>\n    <link>"@ + home + "</link>\n    <description>"@ + description
        + "</description>\n    <generator>blog-updater</generator>\n    <lastBuildDate>"@ + date
        + "</lastBuildDate>\n    <atom:link href=\""@ + home + "/"@ + RSS_ENDING@
        + "\" rel=\"self\" type=\"application/rss+xml\"></atom:link>\n    "@ + items
        + "\n    </channel>\n    </rss>"@
}

/// The feed document, or the reason there is none: the first of blog name,
/// blog home URL and blog description that the configuration lacks. `now`
/// is the build time, in seconds since the epoch.
pub open spec fn rss_of(c: ConfigView, path: Seq<char>, items: Seq<char>, now: i64) -> Result<Seq<char>, Seq<char>> {
    if c.blog_name is None {
        Err(rss_err_of(path, "blog_name"@))
    } else if c.blog_home_url is None {
        Err(rss_err_of(path, "blog_home_url"@))
    } else if c.blog_description is None {
        Err(rss_err_of(path, "description"@))
    } else {
        Ok(
            channel_xml_of(
                c.blog_name->0,
                c.blog_home_url->0,
                c.blog_description->0,
                utc_format_of(now as int, RSS_DATE_FORMAT@),
                items,
            ),
        )
    }
}

/// Builds the feed document around the items `rss_items_xml`, dated `now`.
pub fn generate_rss(blog_config: &BlogConfig, blog_file: &BlogFile, rss_items_xml: &str, now: i64) -> (r: Result<String, String>)
    requires
        timestamp_in_range(now),
    ensures
        match r {
            Ok(x) => rss_of(blog_config@, blog_file.path_from_root@, rss_items_xml@, now) == Ok::<
                Seq<char>,
                Seq<char>,
            >(x@),
            Err(m) => rss_of(blog_config@, blog_file.path_from_root@, rss_items_xml@, now) == Err::<
                Seq<char>,
                Seq<char>,
            >(m@),
        },
{
    let title = match &blog_config.blog_name {
        Some(s) => s,
        None => return Err(rss_err(blog_file, "blog_name")),
    };
    let blog_home_url = match &blog_config.blog_home_url {
        Some(s) => s,
        None => return Err(rss_err(blog_file, "blog_home_url")),
    };
    let description = match &blog_config.blog_description {
        Some(s) => s,
        None => return Err(rss_err(blog_file, "description")),
    };
    let date = rss_date(now);
    let mut x = String::new();
    push_str(
        &mut x,
        "\n    <rss xmlns:atom=\"http://www.w3.org/2005/Atom\" version=\"2.0\">\n    <channel>\n    <title>",
    );
    push_str(&mut x, title.as_str());
    push_str(&mut x, "</title>\n    <link>");
    push_str(&mut x, blog_home_url.as_str());
    push_str(&mut x, "</link>\n    <description>");
    push_str(&mut x, description.as_str());
    push_str(&mut x, "</description>\n    <generator>blog-updater</generator>\n    <lastBuildDate>");
    push_str(&mut x, date.as_str());
    push_str(&mut x, "</lastBuildDate>\n    <atom:link href=\"");
    push_str(&mut x, blog_home_url.as_str());
    push_str(&mut x, "/");
    push_str(&mut x, RSS_ENDING);
    push_str(&mut x, "\" rel=\"self\" type=\"application/rss+xml\"></atom:link>\n    ");
    push_str(&mut x, rss_items_xml);
    push_str(&mut x, "\n    </channel>\n    </rss>");
    assert(x@ =~= channel_xml_of(title@, blog_home_url@, description@, date@, rss_items_xml@));
    Ok(x)
}

} // verus!
