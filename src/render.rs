//! Rendering of a post page, a post link and the homepage.

use vstd::prelude::*;
use crate::config::{BlogConfig, BlogError, BlogFile, ConfigView, opt_view, strings_view};
use crate::resolve::{facts_in_range, get_applied_blog_config, merged_of, with_derived};
use crate::header::parsed_body;
use crate::template::{TemplateContext, render_template, substituted, unresolved};
use crate::text::push_str;

verus! {

/// The HTML that pulldown-cmark renders from the markdown text `md`.
pub uninterp spec fn markdown_html_of(md: Seq<char>) -> Seq<char>;

/// Relies on pulldown-cmark's `Parser::new` and `html::push_html`, which
/// renders the parsed events of `md` as HTML, deterministically.
#[verifier::external_body]
fn markdown_to_html(md: &str) -> (r: String)
    ensures
        r@ == markdown_html_of(md@),
{
    let parser = pulldown_cmark::Parser::new(md);
    let mut out = String::new();
    pulldown_cmark::html::push_html(&mut out, parser);
    out
}

/// The value of `o`, or `dflt` when unset.
pub open spec fn or_text(o: Option<Seq<char>>, dflt: Seq<char>) -> Seq<char> {
    match o {
        Some(s) => s,
        None => dflt,
    }
}

/// The byline: author (linked to the author URL) and the written date, with
/// visible stand-ins for what is unset.
pub open spec fn name_and_date_of(c: ConfigView) -> Seq<char> {
    "<span style=\"color: #92979b; font-size: 16px\"><a style=\"font-weight: bold; color: #92979b\" href=\""@
        + or_text(c.author_url, "#"@) + "\">"@ + or_text(c.author_name, "AUTHORNAMENOTFOUND"@)
        + "</a> - "@ + or_text(c.date_written, "DATESTRINGNOTFOUND"@) + "</span>"@
}

/// The text of `o`, or `dflt` when unset.
fn text_or<'a>(o: &'a Option<String>, dflt: &'a str) -> (r: &'a str)
    ensures
        r@ == or_text(opt_view(*o), dflt@),
{
    match o {
        Some(s) => s.as_str(),
        None => dflt,
    }
}

pub fn get_name_and_date_html(blog_info: &BlogConfig) -> (r: String)
    ensures
        r@ == name_and_date_of(blog_info@),
{
    let mut s = String::new();
    push_str(
        &mut s,
        "<span style=\"color: #92979b; font-size: 16px\"><a style=\"font-weight: bold; color: #92979b\" href=\"",
    );
    push_str(&mut s, text_or(&blog_info.author_url, "#"));
    push_str(&mut s, "\">");
    push_str(&mut s, text_or(&blog_info.author_name, "AUTHORNAMENOTFOUND"));
    push_str(&mut s, "</a> - ");
    push_str(&mut s, text_or(&blog_info.date_written, "DATESTRINGNOTFOUND"));
    push_str(&mut s, "</span>");
    assert(s@ =~= name_and_date_of(blog_info@));
    s
}

/// `pre + value + post` when `o` is set, else nothing.
pub open spec fn line_if(pre: Seq<char>, o: Option<Seq<char>>, post: Seq<char>) -> Seq<char> {
    match o {
        Some(s) => pre + s + post,
        None => Seq::empty(),
    }
}

/// The "about me" block: one quoted line for each of author name, email,
/// projects URL and blog home URL that is set; nothing if none is.
pub open spec fn about_me_of(c: ConfigView) -> Seq<char> {
    if c.author_name is None && c.author_email is None && c.author_projects_url is None
        && c.blog_home_url is None {
        Seq::empty()
    } else {
        "About me:\n\n"@ + line_if("> I am "@, c.author_name, ".<br>\n"@) + line_if(
            "> Contact me via email: "@,
            c.author_email,
            ".<br>\n"@,
        ) + line_if("> Check out my projects: "@, c.author_projects_url, ".<br>\n"@) + line_if(
            "> Check out my other blog posts: "@,
            c.blog_home_url,
            ".<br>\n"@,
        )
    }
}

/// Appends `pre + value + post` when `o` is set.
fn push_line_if(s: &mut String, pre: &str, o: &Option<String>, post: &str)
    ensures
        final(s)@ == old(s)@ + line_if(pre@, opt_view(*o), post@),
{
    match o {
        Some(v) => {
            push_str(s, pre);
            push_str(s, v.as_str());
            push_str(s, post);
            assert(final(s)@ =~= old(s)@ + (pre@ + v@ + post@));
        },
        None => {
            assert(s@ =~= old(s)@ + Seq::<char>::empty());
        },
    }
}

pub fn get_about_me_markdown(blog_info: &BlogConfig) -> (r: String)
    ensures
        r@ == about_me_of(blog_info@),
{
    if blog_info.author_name.is_none() && blog_info.author_email.is_none()
        && blog_info.author_projects_url.is_none() && blog_info.blog_home_url.is_none() {
        return String::new();
    }
    let mut s = String::new();
    push_str(&mut s, "About me:\n\n");
    push_line_if(&mut s, "> I am ", &blog_info.author_name, ".<br>\n");
    push_line_if(&mut s, "> Contact me via email: ", &blog_info.author_email, ".<br>\n");
    push_line_if(&mut s, "> Check out my projects: ", &blog_info.author_projects_url, ".<br>\n");
    push_line_if(&mut s, "> Check out my other blog posts: ", &blog_info.blog_home_url, ".<br>\n");
    assert(s@ =~= about_me_of(blog_info@));
    s
}

/// File name of the feed, under the blog's home URL.
pub const RSS_ENDING: &'static str = "rss.xml";

/// One link of the links block.
pub open spec fn link_html_of(url: Seq<char>, label: Seq<char>) -> Seq<char> {
    "<a href=\""@ + url + "\" class=\"link\">"@ + label + "</a>\n"@
}

/// The links block of the homepage: author homepage, projects, and the
/// feed, each when known; nothing without a blog home URL.
pub open spec fn links_of(c: ConfigView) -> Seq<char> {
    match c.blog_home_url {
        None => Seq::empty(),
        Some(home) => (match c.author_url {
            Some(u) => link_html_of(u, "Homepage"@),
            None => Seq::empty(),
        }) + (match c.author_projects_url {
            Some(u) => link_html_of(u, "Code"@),
            None => Seq::empty(),
        }) + link_html_of(home + "/"@ + RSS_ENDING@, "RSS"@),
    }
}

/// Appends one link of the links block.
fn push_link(s: &mut String, url: &str, label: &str)
    ensures
        final(s)@ == old(s)@ + link_html_of(url@, label@),
{
    push_str(s, "<a href=\"");
    push_str(s, url);
    push_str(s, "\" class=\"link\">");
    push_str(s, label);
    push_str(s, "</a>\n");
    assert(final(s)@ =~= old(s)@ + link_html_of(url@, label@));
}

pub fn get_links_html(blog_config: &BlogConfig) -> (r: String)
    ensures
        r@ == links_of(blog_config@),
{
    let mut out = String::new();
    let home = match &blog_config.blog_home_url {
        Some(h) => h,
        None => return out,
    };
    if let Some(u) = &blog_config.author_url {
        push_link(&mut out, u.as_str(), "Homepage");
    }
    if let Some(u) = &blog_config.author_projects_url {
        push_link(&mut out, u.as_str(), "Code");
    }
    let mut rss_link = home.clone();
    push_str(&mut rss_link, "/");
    push_str(&mut rss_link, RSS_ENDING);
    push_link(&mut out, rss_link.as_str(), "RSS");
    assert(out@ =~= links_of(blog_config@));
    out
}

/// The `<meta>` tags that list a post's tags, one per line.
pub open spec fn meta_tags_of(tags: Seq<Seq<char>>) -> Seq<char>
    decreases tags.len(),
{
    if tags.len() == 0 {
        Seq::empty()
    } else {
        meta_tags_of(tags.drop_last()) + "<meta property=\"article:tag\" content=\""@
            + tags.last() + "\">\n"@
    }
}

/// The publisher `<meta>` tag for an author.
pub open spec fn publisher_tag_of(name: Seq<char>) -> Seq<char> {
    "<meta property=\"article:publisher\" content=\""@ + name + "\">"@
}

/// `m` with `k` set to the value of `o`, when `o` is set.
pub open spec fn put(m: Map<Seq<char>, Seq<char>>, k: Seq<char>, o: Option<Seq<char>>) -> Map<
    Seq<char>,
    Seq<char>,
> {
    match o {
        Some(v) => m.insert(k, v),
        None => m,
    }
}

/// The names a template can use for a record, each bound when its field is
/// set; `rendered_markdown` holds the rendered body when one is given.
pub open spec fn context_of(c: ConfigView, markdown: Option<Seq<char>>) -> Map<Seq<char>, Seq<char>> {
    let m0 = put(Map::empty(), "rendered_markdown"@, markdown);
    let m1 = put(m0, "title"@, c.title);
    let m2 = put(m1, "description"@, c.description);
    let m3 = put(
        m2,
        "meta_tags"@,
        match c.tags {
            Some(t) => Some(meta_tags_of(t)),
            None => None,
        },
    );
    let m4 = put(m3, "date_written"@, c.date_written);
    let m5 = put(m4, "date_updated"@, c.date_updated);
    let m6 = put(m5, "author_name"@, c.author_name);
    let m7 = put(
        m6,
        "publisher_tag"@,
        match c.author_name {
            Some(a) => Some(publisher_tag_of(a)),
            None => None,
        },
    );
    let m8 = put(m7, "author_url"@, c.author_url);
    let m9 = put(m8, "author_email"@, c.author_email);
    let m10 = put(m9, "author_projects_url"@, c.author_projects_url);
    let m11 = put(m10, "blog_name"@, c.blog_name);
    let m12 = put(m11, "blog_home_url"@, c.blog_home_url);
    let m13 = put(m12, "blog_file_name"@, c.blog_file_name);
    let m14 = put(m13, "blog_description"@, c.blog_description);
    let m15 = put(m14, "modified_time_iso"@, c.modified_time_iso);
    put(m15, "published_time_iso"@, c.published_time_iso)
}

/// Sets `key` in `ctx` to the value of `o`, when `o` is set.
fn put_exec(ctx: &mut TemplateContext, key: &str, o: &Option<String>)
    ensures
        final(ctx)@ == put(old(ctx)@, key@, opt_view(*o)),
{
    if let Some(v) = o {
        ctx.insert_str(key, v.clone());
    }
}

/// The `<meta>` tags of a post's tags.
fn meta_tags(tags: &Vec<String>) -> (r: String)
    ensures
        r@ == meta_tags_of(strings_view(tags@)),
{
    let mut out = String::new();
    let mut i: usize = 0;
    while i < tags.len()
        invariant
            i <= tags@.len(),
            out@ == meta_tags_of(strings_view(tags@).take(i as int)),
        decreases tags.len() - i,
    {
        let ghost before = out@;
        push_str(&mut out, "<meta property=\"article:tag\" content=\"");
        push_str(&mut out, tags[i].as_str());
        push_str(&mut out, "\">\n");
        assert(strings_view(tags@).take(i + 1).drop_last() =~= strings_view(tags@).take(i as int));
        assert(out@ =~= meta_tags_of(strings_view(tags@).take(i + 1)));
        i = i + 1;
    }
    assert(strings_view(tags@).take(tags@.len() as int) =~= strings_view(tags@));
    out
}

impl BlogConfig {
    /// The template context of this record, with the rendered body under
    /// `rendered_markdown` when given.
    pub fn to_hashmap_context(&self, markdown: &Option<String>) -> (r: TemplateContext)
        ensures
            r@ == context_of(self@, opt_view(*markdown)),
    {
        let mut ctx = TemplateContext::new();
        put_exec(&mut ctx, "rendered_markdown", markdown);
        put_exec(&mut ctx, "title", &self.title);
        put_exec(&mut ctx, "description", &self.description);
        if let Some(t) = &self.tags {
            ctx.insert_str("meta_tags", meta_tags(t));
        }
        put_exec(&mut ctx, "date_written", &self.date_written);
        put_exec(&mut ctx, "date_updated", &self.date_updated);
        put_exec(&mut ctx, "author_name", &self.author_name);
        if let Some(a) = &self.author_name {
            let mut tag = String::new();
            push_str(&mut tag, "<meta property=\"article:publisher\" content=\"");
            push_str(&mut tag, a.as_str());
            push_str(&mut tag, "\">");
            assert(tag@ =~= publisher_tag_of(a@));
            ctx.insert_str("publisher_tag", tag);
        }
        put_exec(&mut ctx, "author_url", &self.author_url);
        put_exec(&mut ctx, "author_email", &self.author_email);
        put_exec(&mut ctx, "author_projects_url", &self.author_projects_url);
        put_exec(&mut ctx, "blog_name", &self.blog_name);
        put_exec(&mut ctx, "blog_home_url", &self.blog_home_url);
        put_exec(&mut ctx, "blog_file_name", &self.blog_file_name);
        put_exec(&mut ctx, "blog_description", &self.blog_description);
        put_exec(&mut ctx, "modified_time_iso", &self.modified_time_iso);
        put_exec(&mut ctx, "published_time_iso", &self.published_time_iso);
        ctx
    }
}

/// The concatenation of `pre + k + post` over the names `keys`.
pub open spec fn wrapped_keys(pre: Seq<char>, keys: Seq<Seq<char>>, post: Seq<char>) -> Seq<char>
    decreases keys.len(),
{
    if keys.len() == 0 {
        Seq::empty()
    } else {
        wrapped_keys(pre, keys.drop_last(), post) + pre + keys.last() + post
    }
}

/// `pre + k + post` for each name `k` of `keys`, concatenated.
fn wrap_keys(pre: &str, keys: &Vec<String>, post: &str) -> (r: String)
    ensures
        r@ == wrapped_keys(pre@, strings_view(keys@), post@),
{
    let mut out = String::new();
    let mut i: usize = 0;
    while i < keys.len()
        invariant
            i <= keys@.len(),
            out@ == wrapped_keys(pre@, strings_view(keys@).take(i as int), post@),
        decreases keys.len() - i,
    {
        push_str(&mut out, pre);
        push_str(&mut out, keys[i].as_str());
        push_str(&mut out, post);
        assert(strings_view(keys@).take(i + 1).drop_last() =~= strings_view(keys@).take(i as int));
        assert(out@ =~= wrapped_keys(pre@, strings_view(keys@).take(i + 1), post@));
        i = i + 1;
    }
    assert(strings_view(keys@).take(keys@.len() as int) =~= strings_view(keys@));
    out
}

/// The markdown that is rendered for a post: title heading, byline, body,
/// and the "about me" block.
pub open spec fn page_markdown_of(c: ConfigView, body: Seq<char>) -> Seq<char> {
    "# "@ + or_text(c.title, "title"@) + "\n"@ + name_and_date_of(c) + "\n"@ + body + "\n\n\n"@
        + about_me_of(c)
}

/// The context of a post page: its resolved metadata and rendered body.
pub open spec fn page_context_of(c: ConfigView, body: Seq<char>) -> Map<Seq<char>, Seq<char>> {
    context_of(c, Some(markdown_html_of(page_markdown_of(c, body))))
}

/// What rendering a post gives: the page, the warnings about names the
/// template used that the context lacks, and the slug; or why not.
pub open spec fn post_render_ok(
    raw: Seq<char>,
    facts: BlogFile,
    template: Seq<char>,
    global: ConfigView,
    r: Result<(String, String, String), BlogError>,
) -> bool {
    let merged = merged_of(global, raw);
    if merged.title is None {
        r matches Err(BlogError::MissingTitle(p)) && p@ == facts.path_from_root@
    } else if facts.written == 0 {
        r matches Err(BlogError::MissingCommitHistory(p)) && p@ == facts.path_from_root@
    } else {
        let c = with_derived(merged, parsed_body(raw), facts);
        let ctx = page_context_of(c, parsed_body(raw));
        r matches Ok(x) && x.0@ == substituted(template, ctx) && x.1@ == wrapped_keys(
            "Failed to find key '"@,
            unresolved(template, ctx),
            "'\n"@,
        ) && x.2@ == c.blog_file_name->0
    }
}

/// Renders one post: resolves its metadata, renders its markdown (with
/// heading, byline and "about me" block) to HTML, and substitutes both into
/// `template`. Gives the page, the warnings, and the slug.
pub fn render_blog_actual(blog_file: &str, updated_blog: &BlogFile, template: &str, blog_config: &BlogConfig) -> (r: Result<(String, String, String), BlogError>)
    requires
        facts_in_range(updated_blog),
    ensures
        post_render_ok(blog_file@, *updated_blog, template@, blog_config@, r),
{
    let res = get_applied_blog_config(blog_file, updated_blog, blog_config);
    let (info, body) = match res {
        Ok(p) => p,
        Err(e) => return Err(e),
    };
    let name_and_date = get_name_and_date_html(&info);
    let about_me = get_about_me_markdown(&info);
    let mut page = String::new();
    push_str(&mut page, "# ");
    push_str(&mut page, text_or(&info.title, "title"));
    push_str(&mut page, "\n");
    push_str(&mut page, name_and_date.as_str());
    push_str(&mut page, "\n");
    push_str(&mut page, body.as_str());
    push_str(&mut page, "\n\n\n");
    push_str(&mut page, about_me.as_str());
    assert(page@ =~= page_markdown_of(info@, body@));
    let html = markdown_to_html(page.as_str());
    let ctx = info.to_hashmap_context(&Some(html));
    let (out, missing) = render_template(template, &ctx);
    let warnings = wrap_keys("Failed to find key '", &missing, "'\n");
    let slug = match &info.blog_file_name {
        Some(s) => s.clone(),
        None => String::new(),
    };
    Ok((out, warnings, slug))
}

/// The context of a post link on the homepage: the post's metadata, with an
/// empty rendered body.
pub open spec fn link_context_of(c: ConfigView) -> Map<Seq<char>, Seq<char>> {
    context_of(c, Some(Seq::empty()))
}

/// Renders the homepage link of one post; gives the link and the missing
/// names, each followed by `, `.
pub fn render_blogpost_link(this_post_config: &BlogConfig, template: &str) -> (r: (String, String))
    ensures
        r.0@ == substituted(template@, link_context_of(this_post_config@)),
        r.1@ == wrapped_keys(
            Seq::empty(),
            unresolved(template@, link_context_of(this_post_config@)),
            ", "@,
        ),
{
    let empty = Some(String::new());
    let ctx = this_post_config.to_hashmap_context(&empty);
    let (out, missing) = render_template(template, &ctx);
    let warnings = wrap_keys("", &missing, ", ");
    proof {
        reveal_strlit("");
        assert(""@ =~= Seq::<char>::empty());
    }
    (out, warnings)
}

/// The context of the homepage: the global configuration, the post links
/// and the links block.
pub open spec fn homepage_context_of(c: ConfigView, post_links: Seq<char>, links: Seq<char>) -> Map<
    Seq<char>,
    Seq<char>,
> {
    context_of(c, Some(Seq::empty())).insert("blog_post_links_html"@, post_links).insert(
        "links_html"@,
        links,
    )
}

/// Renders the homepage; gives the page and the missing names, each
/// followed by `, `.
pub fn render_blog_homepage(global_blog_config: &BlogConfig, blog_post_links_html: &str, links_html: &str, template: &str) -> (r: (String, String))
    ensures
        r.0@ == substituted(
            template@,
            homepage_context_of(global_blog_config@, blog_post_links_html@, links_html@),
        ),
        r.1@ == wrapped_keys(
            Seq::empty(),
            unresolved(
                template@,
                homepage_context_of(global_blog_config@, blog_post_links_html@, links_html@),
            ),
            ", "@,
        ),
{
    let empty = Some(String::new());
    let mut ctx = global_blog_config.to_hashmap_context(&empty);
    ctx.insert_str("blog_post_links_html", blog_post_links_html.to_owned());
    ctx.insert_str("links_html", links_html.to_owned());
    let (out, missing) = render_template(template, &ctx);
    let warnings = wrap_keys("", &missing, ", ");
    proof {
        reveal_strlit("");
        assert(""@ =~= Seq::<char>::empty());
    }
    (out, warnings)
}

} // verus!
