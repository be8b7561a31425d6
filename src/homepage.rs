//! The homepage and feed pass over every tracked post.

use vstd::prelude::*;
use crate::config::{BlogConfig, BlogError, BlogFile, ConfigView};
use crate::header::parsed_body;
use crate::render::{get_links_html, homepage_context_of, link_context_of, links_of, render_blog_homepage, render_blogpost_link, wrapped_keys};
use crate::resolve::{facts_in_range, get_applied_blog_config, merged_of, resolution_ok, with_derived};
use crate::rss::{generate_rss, generate_rss_item, rss_item_of, rss_of};
use crate::dates::timestamp_in_range;
use crate::template::{substituted, unresolved};
use crate::text::push_str;
use vstd::set_lib::{lemma_int_range, lemma_subset_equality, set_int_range};

verus! {

/// Post `a` comes before post `b` on the homepage: the more recently
/// written first, and among equals the one discovered first.
pub open spec fn comes_before(keys: Seq<i64>, a: int, b: int) -> bool {
    keys[a] > keys[b] || (keys[a] == keys[b] && a < b)
}

/// `order` lists every index of `keys` once, newest first, ties stable.
pub open spec fn is_newest_first(keys: Seq<i64>, order: Seq<usize>) -> bool {
    &&& order.len() == keys.len()
    &&& forall|i: int| 0 <= i < order.len() ==> (#[trigger] order[i]) < keys.len()
    &&& forall|i: int, j: int|
        0 <= i < j < order.len() ==> comes_before(keys, #[trigger] order[i] as int, #[trigger] order[j] as int)
}

pub open spec fn written_keys(posts: Seq<BlogFile>) -> Seq<i64> {
    posts.map_values(|p: BlogFile| p.written)
}

/// The indices of `posts`, most recently written first; posts written at
/// the same time keep their order.
pub fn newest_first_order(posts: &Vec<BlogFile>) -> (r: Vec<usize>)
    ensures
        is_newest_first(written_keys(posts@), r@),
{
    let ghost keys = written_keys(posts@);
    let n = posts.len();
    let mut r: Vec<usize> = Vec::new();
    let mut k: usize = 0;
    while k < n
        invariant
            k <= n == posts@.len() == keys.len(),
            keys == written_keys(posts@),
            r@.len() == k,
            forall|i: int| 0 <= i < r@.len() ==> (#[trigger] r@[i]) < k,
            forall|i: int, j: int|
                0 <= i < j < r@.len() ==> comes_before(keys, #[trigger] r@[i] as int, #[trigger] r@[j] as int),
        decreases n - k,
    {
        let w = posts[k].written;
        let mut p: usize = 0;
        while p < r.len() && posts[r[p]].written >= w
            invariant
                p <= r@.len() == k,
                k < n == posts@.len() == keys.len(),
                keys == written_keys(posts@),
                w == keys[k as int],
                forall|i: int| 0 <= i < r@.len() ==> (#[trigger] r@[i]) < k,
                forall|q: int| 0 <= q < p ==> keys[#[trigger] r@[q] as int] >= w,
            decreases k - p,
        {
            p = p + 1;
        }
        let ghost old_r = r@;
        r.insert(p, k);
        assert forall|i: int, j: int| 0 <= i < j < r@.len() implies comes_before(
            keys,
            #[trigger] r@[i] as int,
            #[trigger] r@[j] as int,
        ) by {
            if j < p {
                assert(r@[i] == old_r[i] && r@[j] == old_r[j]);
            } else if j == p {
                assert(r@[i] == old_r[i]);
            } else if i == p {
                assert(r@[j] == old_r[j - 1]);
                assert(keys[old_r[p as int] as int] < w);
                if j - 1 > p {
                    assert(comes_before(keys, old_r[p as int] as int, old_r[j - 1] as int));
                }
            } else if i < p {
                assert(r@[i] == old_r[i] && r@[j] == old_r[j - 1]);
            } else {
                assert(r@[i] == old_r[i - 1] && r@[j] == old_r[j - 1]);
            }
        }
        k = k + 1;
    }
    r
}

/// Every index of `keys` stands somewhere in a newest-first order.
proof fn lemma_order_covers(keys: Seq<i64>, order: Seq<usize>, x: int)
    requires
        is_newest_first(keys, order),
        0 <= x < keys.len(),
    ensures
        exists|i: int| 0 <= i < order.len() && order[i] == x,
{
    let n = keys.len() as int;
    let s = order.map_values(|v: usize| v as int);
    assert forall|i: int, j: int| 0 <= i < s.len() && 0 <= j < s.len() && i != j implies s[i]
        != s[j] by {
        if i < j {
            assert(comes_before(keys, order[i] as int, order[j] as int));
        } else {
            assert(comes_before(keys, order[j] as int, order[i] as int));
        }
    }
    assert(s.no_duplicates());
    s.unique_seq_to_set();
    lemma_int_range(0, n);
    assert forall|v: int| s.to_set().contains(v) implies set_int_range(0, n).contains(v) by {
        let i = choose|i: int| 0 <= i < s.len() && s[i] == v;
        assert(order[i] < keys.len());
    }
    lemma_subset_equality(s.to_set(), set_int_range(0, n));
    assert(set_int_range(0, n).contains(x));
    assert(s.to_set().contains(x));
    let i = choose|i: int| 0 <= i < s.len() && s[i] == x;
    assert(order[i] == x);
}

proof fn lemma_orders_agree_up_to(keys: Seq<i64>, a: Seq<usize>, b: Seq<usize>, i: int)
    requires
        is_newest_first(keys, a),
        is_newest_first(keys, b),
        0 <= i < keys.len(),
    ensures
        forall|j: int| 0 <= j <= i ==> a[j] == b[j],
    decreases i,
{
    if i > 0 {
        lemma_orders_agree_up_to(keys, a, b, i - 1);
    }
    lemma_order_covers(keys, b, a[i] as int);
    lemma_order_covers(keys, a, b[i] as int);
    let p = choose|p: int| 0 <= p < b.len() && b[p] == a[i];
    let q = choose|q: int| 0 <= q < a.len() && a[q] == b[i];
    if p < i {
        assert(a[p] == b[p]);
        assert(comes_before(keys, a[p] as int, a[i] as int));
    }
    if q < i {
        assert(a[q] == b[q]);
        assert(comes_before(keys, b[q] as int, b[i] as int));
    }
    if a[i] != b[i] {
        assert(comes_before(keys, b[i] as int, b[p] as int));
        assert(comes_before(keys, a[i] as int, a[q] as int));
    }
}

/// There is only one newest-first order of a list of posts.
pub proof fn lemma_newest_first_unique(keys: Seq<i64>, a: Seq<usize>, b: Seq<usize>)
    requires
        is_newest_first(keys, a),
        is_newest_first(keys, b),
    ensures
        a == b,
{
    if keys.len() > 0 {
        lemma_orders_agree_up_to(keys, a, b, keys.len() - 1);
    }
    assert(a =~= b);
}

/// The metadata a post resolves to, if it resolves.
pub open spec fn resolved_of(raw: Seq<char>, facts: BlogFile, global: ConfigView) -> Option<ConfigView> {
    let merged = merged_of(global, raw);
    if merged.title is None || facts.written == 0 {
        None
    } else {
        Some(with_derived(merged, parsed_body(raw), facts))
    }
}

/// What the pass has built after some posts: the post links, the names the
/// link template lacked, the feed items, and the reason the feed is
/// skipped, once there is one.
pub ghost struct PassState {
    pub links: Seq<char>,
    pub link_warnings: Seq<char>,
    pub items: Seq<char>,
    pub skip: Option<Seq<char>>,
}

/// The pass over `posts` (commit facts and raw text, in homepage order),
/// each of which resolves. Every post adds its link; while the feed is not
/// skipped, each adds its item, and the first that cannot have one skips
/// the feed.
pub open spec fn pass_over(
    posts: Seq<(BlogFile, Seq<char>)>,
    global: ConfigView,
    link_template: Seq<char>,
    skip0: Option<Seq<char>>,
) -> PassState
    decreases posts.len(),
{
    if posts.len() == 0 {
        PassState {
            links: Seq::empty(),
            link_warnings: Seq::empty(),
            items: Seq::empty(),
            skip: skip0,
        }
    } else {
        let s = pass_over(posts.drop_last(), global, link_template, skip0);
        let f = posts.last().0;
        let c = resolved_of(posts.last().1, f, global)->0;
        let link = substituted(link_template, link_context_of(c));
        let missing = wrapped_keys(
            Seq::empty(),
            unresolved(link_template, link_context_of(c)),
            ", "@,
        );
        let s2 = if s.skip is Some {
            s
        } else {
            match rss_item_of(c, f) {
                Ok(x) => PassState { items: s.items + x + "\n"@, ..s },
                Err(m) => PassState { skip: Some(m), ..s },
            }
        };
        PassState {
            links: s.links + link + "\n"@,
            link_warnings: s.link_warnings + missing,
            ..s2
        }
    }
}

/// The posts with their texts, in the order `order`.
pub open spec fn in_order(posts: Seq<BlogFile>, texts: Seq<String>, order: Seq<usize>) -> Seq<
    (BlogFile, Seq<char>),
> {
    order.map_values(|i: usize| (posts[i as int], texts[i as int]@))
}

/// Once some post (in homepage order) cannot have a feed item, the whole
/// feed is skipped: no item of any post, earlier or later, is published.
pub proof fn lemma_feed_abort_is_global(
    posts: Seq<(BlogFile, Seq<char>)>,
    global: ConfigView,
    link_template: Seq<char>,
    skip0: Option<Seq<char>>,
    k: int,
)
    requires
        0 <= k < posts.len(),
        rss_item_of(resolved_of(posts[k].1, posts[k].0, global)->0, posts[k].0) is Err,
    ensures
        pass_over(posts, global, link_template, skip0).skip is Some,
    decreases posts.len(),
{
    if k < posts.len() - 1 {
        assert(posts.drop_last()[k] == posts[k]);
        lemma_feed_abort_is_global(posts.drop_last(), global, link_template, skip0, k);
    }
}

/// The homepage, the names its template lacked, the names the post link
/// template lacked (post by post), and the feed (or the reason it is
/// skipped).
pub struct HomepageOutput {
    pub homepage: String,
    pub warnings: String,
    pub post_warnings: String,
    pub rss: Result<String, String>,
}

pub open spec fn result_view(r: Result<String, String>) -> Result<Seq<char>, Seq<char>> {
    match r {
        Ok(x) => Ok(x@),
        Err(m) => Err(m@),
    }
}

/// The reason given when the feed is turned off.
pub open spec fn no_rss_reason() -> Seq<char> {
    "user requested no RSS"@
}

/// What the pass gives for posts in the homepage order `sorted`, all of
/// which resolve.
pub open spec fn homepage_ok(
    sorted: Seq<(BlogFile, Seq<char>)>,
    global: ConfigView,
    link_template: Seq<char>,
    homepage_template: Seq<char>,
    no_rss: bool,
    now: i64,
    out: HomepageOutput,
) -> bool {
    let s = pass_over(
        sorted,
        global,
        link_template,
        if no_rss {
            Some(no_rss_reason())
        } else {
            None
        },
    );
    let ctx = homepage_context_of(global, s.links, links_of(global));
    &&& out.homepage@ == substituted(homepage_template, ctx)
    &&& out.warnings@ == wrapped_keys(Seq::empty(), unresolved(homepage_template, ctx), ", "@)
    &&& out.post_warnings@ == s.link_warnings
    &&& result_view(out.rss) == match s.skip {
        Some(m) => Err(m),
        None => rss_of(global, Seq::empty(), s.items, now),
    }
}

/// The outcome of the pass over posts in the homepage order `sorted`: the
/// error of the first post that does not resolve, or else the homepage and
/// the feed.
pub open spec fn outcome_ok(
    sorted: Seq<(BlogFile, Seq<char>)>,
    global: ConfigView,
    link_template: Seq<char>,
    homepage_template: Seq<char>,
    no_rss: bool,
    now: i64,
    r: Result<HomepageOutput, BlogError>,
) -> bool {
    match r {
        Ok(out) => (forall|j: int|
            0 <= j < sorted.len() ==> (#[trigger] resolved_of(sorted[j].1, sorted[j].0, global))
                is Some) && homepage_ok(
            sorted,
            global,
            link_template,
            homepage_template,
            no_rss,
            now,
            out,
        ),
        Err(e) => exists|k: int|
            0 <= k < sorted.len() && (forall|j: int|
                0 <= j < k ==> (#[trigger] resolved_of(sorted[j].1, sorted[j].0, global)) is Some)
                && resolution_ok(#[trigger] sorted[k].1, sorted[k].0, global, Err(e)),
    }
}

/// Renders the homepage and the feed from every tracked post (`posts`, with
/// their raw texts `texts`). Posts are taken newest first; a post that does
/// not resolve stops the pass with its error; a post that cannot have a feed
/// item skips the whole feed, while the homepage is still rendered. `now` is
/// the build time of the feed.
pub fn render_homepage_and_rss(
    posts: &Vec<BlogFile>,
    texts: &Vec<String>,
    link_template: &str,
    homepage_template: &str,
    blog_config: &BlogConfig,
    no_rss: bool,
    now: i64,
) -> (r: Result<HomepageOutput, BlogError>)
    requires
        posts@.len() == texts@.len(),
        forall|i: int| 0 <= i < posts@.len() ==> facts_in_range(&#[trigger] posts@[i]),
        timestamp_in_range(now),
    ensures
        forall|order: Seq<usize>|
            #[trigger] is_newest_first(written_keys(posts@), order) ==> outcome_ok(
                in_order(posts@, texts@, order),
                blog_config@,
                link_template@,
                homepage_template@,
                no_rss,
                now,
                r,
            ),
{
    let order = newest_first_order(posts);
    let r = render_in_order(posts, texts, &order, link_template, homepage_template, blog_config, no_rss, now);
    proof {
        assert forall|o: Seq<usize>| #[trigger] is_newest_first(written_keys(posts@), o) implies outcome_ok(
            in_order(posts@, texts@, o),
            blog_config@,
            link_template@,
            homepage_template@,
            no_rss,
            now,
            r,
        ) by {
            lemma_newest_first_unique(written_keys(posts@), o, order@);
        }
    }
    r
}

/// The pass over `posts` taken in the order `order`.
fn render_in_order(
    posts: &Vec<BlogFile>,
    texts: &Vec<String>,
    order: &Vec<usize>,
    link_template: &str,
    homepage_template: &str,
    blog_config: &BlogConfig,
    no_rss: bool,
    now: i64,
) -> (r: Result<HomepageOutput, BlogError>)
    requires
        posts@.len() == texts@.len(),
        is_newest_first(written_keys(posts@), order@),
        forall|i: int| 0 <= i < posts@.len() ==> facts_in_range(&#[trigger] posts@[i]),
        timestamp_in_range(now),
    ensures
        outcome_ok(
            in_order(posts@, texts@, order@),
            blog_config@,
            link_template@,
            homepage_template@,
            no_rss,
            now,
            r,
        ),
{
    let ghost sorted = in_order(posts@, texts@, order@);
    let ghost skip0: Option<Seq<char>> = if no_rss {
        Some(no_rss_reason())
    } else {
        None
    };
    let mut links = String::new();
    let mut link_warnings = String::new();
    let mut items = String::new();
    let mut skip: Option<String> = if no_rss {
        Some("user requested no RSS".to_owned())
    } else {
        None
    };
    let mut i: usize = 0;
    assert(sorted.take(0) =~= Seq::<(BlogFile, Seq<char>)>::empty());
    while i < order.len()
        invariant
            i <= order@.len() == posts@.len() == texts@.len(),
            is_newest_first(written_keys(posts@), order@),
            sorted == in_order(posts@, texts@, order@),
            sorted.len() == order@.len(),
            forall|q: int| 0 <= q < posts@.len() ==> facts_in_range(&#[trigger] posts@[q]),
            skip0 == (if no_rss {
                Some(no_rss_reason())
            } else {
                None
            }),
            forall|j: int|
                0 <= j < i ==> (#[trigger] resolved_of(sorted[j].1, sorted[j].0, blog_config@)) is Some,
            ({
                let s = pass_over(sorted.take(i as int), blog_config@, link_template@, skip0);
                &&& links@ == s.links
                &&& link_warnings@ == s.link_warnings
                &&& items@ == s.items
                &&& match skip {
                    Some(m) => s.skip == Some(m@),
                    None => s.skip is None,
                }
            }),
        decreases order@.len() - i,
    {
        let idx = order[i];
        assert(order@[i as int] < posts@.len());
        assert(sorted[i as int] == (posts@[idx as int], texts@[idx as int]@));
        let post = &posts[idx];
        let res = get_applied_blog_config(texts[idx].as_str(), post, blog_config);
        let info = match res {
            Ok((c, _)) => c,
            Err(e) => {
                assert(resolution_ok(sorted[i as int].1, sorted[i as int].0, blog_config@, Err(e)));
                return Err(e);
            },
        };
        let ghost prev = sorted.take(i as int);
        assert(sorted.take(i + 1).drop_last() =~= prev);
        assert(resolved_of(sorted[i as int].1, sorted[i as int].0, blog_config@) == Some(info@));
        if skip.is_none() {
            match generate_rss_item(&info, post) {
                Ok(x) => {
                    push_str(&mut items, x.as_str());
                    push_str(&mut items, "\n");
                },
                Err(m) => {
                    skip = Some(m);
                },
            }
        }
        let (link, missing) = render_blogpost_link(&info, link_template);
        push_str(&mut links, link.as_str());
        push_str(&mut links, "\n");
        push_str(&mut link_warnings, missing.as_str());
        i = i + 1;
    }
    assert(sorted.take(order@.len() as int) =~= sorted);
    let links_html = get_links_html(blog_config);
    let (homepage, warnings) = render_blog_homepage(
        blog_config,
        links.as_str(),
        links_html.as_str(),
        homepage_template,
    );
    let rss = match skip {
        Some(m) => Err(m),
        None => {
            let nowhere = BlogFile {
                path_from_root: String::new(),
                written: 0,
                updated: 0,
                git_author_name: String::new(),
            };
            generate_rss(blog_config, &nowhere, items.as_str(), now)
        },
    };
    let out = HomepageOutput { homepage, warnings, post_warnings: link_warnings, rss };
    assert(homepage_ok(sorted, blog_config@, link_template@, homepage_template@, no_rss, now, out));
    Ok(out)
}

} // verus!
