use blog_updater::branches::{get_main_reference_branch, MainBranchChoice};
use blog_updater::config::{new_err, BlogConfig, BlogError, BlogFile};
use blog_updater::dates::get_date_string_from_timestamp;
use blog_updater::derive::{get_blog_file_name, get_description, replace_with_valid_word};
use blog_updater::git_log::{
    blog_file_from_history, get_blog_file_meta_info, output_lines, parse_git_update_line,
    select_blog_files,
};
use blog_updater::header::{parse_blog_file_info, parse_blog_header_line};
use blog_updater::homepage::{newest_first_order, render_homepage_and_rss};
use blog_updater::render::{
    get_about_me_markdown, get_links_html, get_name_and_date_html, render_blog_actual,
    render_blogpost_link,
};
use blog_updater::resolve::get_applied_blog_config;
use blog_updater::rss::{generate_rss, generate_rss_item, rss_err};
use blog_updater::template::{render_template, TemplateContext};

fn post(path: &str, written: i64, updated: i64, author: &str) -> BlogFile {
    BlogFile {
        path_from_root: path.to_string(),
        written,
        updated,
        git_author_name: author.to_string(),
    }
}

#[test]
fn parse_blog_header_works() {
    let blog_file = "---\ntitle: hello\n---\nrest of blog file here";
    let (blog_config, rest_of_blog_file) = parse_blog_file_info(blog_file).unwrap();
    assert_eq!(blog_config.title, Some("hello".into()));
    assert_eq!(rest_of_blog_file, "rest of blog file here");
}

#[test]
fn text_without_header_is_unchanged() {
    let text = "# A post\n---\ntitle: not a header\n";
    let (cfg, body) = parse_blog_file_info(text).unwrap();
    assert_eq!(cfg.title, None);
    assert_eq!(cfg.tags, None);
    assert_eq!(body, text);
    let (cfg, body) = parse_blog_file_info("").unwrap();
    assert_eq!(cfg.title, None);
    assert_eq!(body, "");
}

#[test]
fn header_title_and_body() {
    let (cfg, body) = parse_blog_file_info("---\ntitle: hello\n---\nbody").unwrap();
    assert_eq!(cfg.title, Some("hello".to_string()));
    assert_eq!(cfg.author_name, None);
    assert_eq!(body, "body");
}

#[test]
fn header_keys_values_and_unknown_keys() {
    let text = "---\n  title :  A: B  \ntags: x, y,z\nauthor: Ann\nauthor_email: a@b.c\nauthor_projects_url: p\nblog_home_url: https://h\nblog_name: N\ndate: D1\nlast_updated: D2\nblog_file_name: f\nsomething: else\nno colon here\n---\nrest";
    let (cfg, body) = parse_blog_file_info(text).unwrap();
    assert_eq!(cfg.title, Some("A: B".to_string()));
    assert_eq!(
        cfg.tags,
        Some(vec!["x".to_string(), " y".to_string(), "z".to_string()])
    );
    assert_eq!(cfg.author_name, Some("Ann".to_string()));
    assert_eq!(cfg.author_email, Some("a@b.c".to_string()));
    assert_eq!(cfg.author_projects_url, Some("p".to_string()));
    assert_eq!(cfg.blog_home_url, Some("https://h".to_string()));
    assert_eq!(cfg.blog_name, Some("N".to_string()));
    assert_eq!(cfg.date_written, Some("D1".to_string()));
    assert_eq!(cfg.date_updated, Some("D2".to_string()));
    assert_eq!(cfg.blog_file_name, Some("f".to_string()));
    assert_eq!(cfg.description, None);
    assert_eq!(cfg.author_url, None);
    assert_eq!(body, "rest");
}

#[test]
fn header_without_closing_line_takes_everything() {
    let (cfg, body) = parse_blog_file_info("---\ntitle: t\nauthor: a").unwrap();
    assert_eq!(cfg.title, Some("t".to_string()));
    assert_eq!(cfg.author_name, Some("a".to_string()));
    assert_eq!(body, "");
    let (cfg, body) = parse_blog_file_info("---\ntitle: t\n---").unwrap();
    assert_eq!(cfg.title, Some("t".to_string()));
    assert_eq!(body, "");
    let (_, body) = parse_blog_file_info("---").unwrap();
    assert_eq!(body, "");
}

#[test]
fn header_with_crlf_lines() {
    let (cfg, body) = parse_blog_file_info("---\r\ntitle: t\r\n---\r\nbody\r\n").unwrap();
    assert_eq!(cfg.title, Some("t".to_string()));
    assert_eq!(body, "body\r\n");
}

#[test]
fn header_line_sets_one_field() {
    let mut cfg = BlogConfig::default();
    parse_blog_header_line("date : yesterday", &mut cfg);
    assert_eq!(cfg.date_written, Some("yesterday".to_string()));
    parse_blog_header_line("title", &mut cfg);
    assert_eq!(cfg.title, None);
}

#[test]
fn apply_overlays_only_set_fields() {
    let mut base = BlogConfig::default();
    base.author_name = Some("A".to_string());
    base.blog_name = Some("Blog".to_string());
    let mut top = BlogConfig::default();
    top.author_name = Some("B".to_string());
    top.title = Some("T".to_string());
    base.apply(top);
    assert_eq!(base.author_name, Some("B".to_string()));
    assert_eq!(base.title, Some("T".to_string()));
    assert_eq!(base.blog_name, Some("Blog".to_string()));
}

#[test]
fn full_header_wins_over_config_and_commits() {
    let text = "---\ntitle: T\ntags: a\nauthor: H\nauthor_email: he\nauthor_projects_url: hp\nblog_home_url: hh\nblog_name: hn\ndate: hd\nlast_updated: hu\nblog_file_name: hf\n---\nbody";
    let mut global = BlogConfig::default();
    global.title = Some("GT".to_string());
    global.author_name = Some("G".to_string());
    global.author_email = Some("ge".to_string());
    global.author_projects_url = Some("gp".to_string());
    global.blog_home_url = Some("gh".to_string());
    global.blog_name = Some("gn".to_string());
    let facts = post("p/BLOG.md", 1621897682, 1621897700, "C");
    let (c, body) = get_applied_blog_config(text, &facts, &global).unwrap();
    assert_eq!(c.title, Some("T".to_string()));
    assert_eq!(c.tags, Some(vec!["a".to_string()]));
    assert_eq!(c.author_name, Some("H".to_string()));
    assert_eq!(c.author_email, Some("he".to_string()));
    assert_eq!(c.author_projects_url, Some("hp".to_string()));
    assert_eq!(c.blog_home_url, Some("hh".to_string()));
    assert_eq!(c.blog_name, Some("hn".to_string()));
    assert_eq!(c.date_written, Some("hd".to_string()));
    assert_eq!(c.date_updated, Some("hu".to_string()));
    assert_eq!(c.blog_file_name, Some("hf".to_string()));
    assert_eq!(body, "body");
}

#[test]
fn author_falls_back_to_config_then_commits() {
    let text = "---\ntitle: T\n---\nbody";
    let facts = post("p/BLOG.md", 1621897682, 0, "B");
    let mut global = BlogConfig::default();
    global.author_name = Some("A".to_string());
    let (c, _) = get_applied_blog_config(text, &facts, &global).unwrap();
    assert_eq!(c.author_name, Some("A".to_string()));
    let (c, _) = get_applied_blog_config(text, &facts, &BlogConfig::default()).unwrap();
    assert_eq!(c.author_name, Some("B".to_string()));
}

#[test]
fn resolution_derives_description_slug_and_dates() {
    let text = "---\ntitle: Hello, World! 2024\n---\n\n  First para\nstill first\n\nsecond";
    let facts = post("p/BLOG.md", 1621897682, 0, "me");
    let (c, body) = get_applied_blog_config(text, &facts, &BlogConfig::default()).unwrap();
    assert_eq!(c.description, Some("First para\nstill first".to_string()));
    assert_eq!(c.blog_file_name, Some("hello-world-2024".to_string()));
    assert_eq!(c.date_written, Some("May 24, 2021".to_string()));
    assert_eq!(c.published_time_iso, Some("2021-05-24T23:08:02+00:00".to_string()));
    assert_eq!(c.modified_time_iso, Some("2021-05-24T23:08:02+00:00".to_string()));
    assert_eq!(c.date_updated, None);
    assert_eq!(body, "\n  First para\nstill first\n\nsecond");
}

#[test]
fn resolution_uses_update_time() {
    let text = "---\ntitle: T\n---\nbody";
    let facts = post("p/BLOG.md", 1621897682, 1621984082, "me");
    let (c, _) = get_applied_blog_config(text, &facts, &BlogConfig::default()).unwrap();
    assert_eq!(c.date_written, Some("May 24, 2021".to_string()));
    assert_eq!(c.date_updated, Some("May 25, 2021".to_string()));
    assert_eq!(c.published_time_iso, Some("2021-05-24T23:08:02+00:00".to_string()));
    assert_eq!(c.modified_time_iso, Some("2021-05-25T23:08:02+00:00".to_string()));
}

#[test]
fn missing_title_fails() {
    let facts = post("p/BLOG.md", 0, 0, "me");
    match get_applied_blog_config("no header", &facts, &BlogConfig::default()) {
        Err(BlogError::MissingTitle(p)) => assert_eq!(p, "p/BLOG.md"),
        other => panic!("unexpected: {:?}", other.map(|x| x.1)),
    }
}

#[test]
fn no_commit_fails_even_with_full_metadata() {
    let text = "---\ntitle: T\ntags: a\nauthor: H\nauthor_email: he\nauthor_projects_url: hp\nblog_home_url: hh\nblog_name: hn\ndate: hd\nlast_updated: hu\nblog_file_name: hf\n---\nbody";
    let facts = post("p/BLOG.md", 0, 1621897682, "me");
    match get_applied_blog_config(text, &facts, &BlogConfig::default()) {
        Err(BlogError::MissingCommitHistory(p)) => assert_eq!(p, "p/BLOG.md"),
        other => panic!("unexpected: {:?}", other.map(|x| x.1)),
    }
}

#[test]
fn slug_of_title() {
    assert_eq!(
        get_blog_file_name(&Some("Hello, World! 2024".to_string())),
        Some("hello-world-2024".to_string())
    );
    assert_eq!(
        get_blog_file_name(&Some("  ÉTÉ -- Über  x ".to_string())),
        Some("t-ber-x".to_string())
    );
    assert_eq!(get_blog_file_name(&Some("!!! ???".to_string())), Some(String::new()));
    assert_eq!(get_blog_file_name(&None), None);
}

#[test]
fn valid_word_keeps_lowercase_letters_and_digits() {
    assert_eq!(replace_with_valid_word("Ab-c9_Z!"), "bc9");
    assert_eq!(replace_with_valid_word(""), "");
}

#[test]
fn description_is_first_paragraph() {
    assert_eq!(get_description("\n\n  one\ntwo\n\nthree"), Some("one\ntwo".to_string()));
    assert_eq!(get_description("only"), Some("only".to_string()));
    assert_eq!(get_description("   "), Some(String::new()));
}

fn context(pairs: &[(&str, &str)]) -> TemplateContext {
    let mut ctx = TemplateContext::new();
    for (k, v) in pairs {
        ctx.insert_str(k, v.to_string());
    }
    ctx
}

#[test]
fn template_substitution_reports_missing_names() {
    let ctx = context(&[("name", "Bob")]);
    let (out, missing) = render_template("Hi ${name}, bye ${ghost}", &ctx);
    assert_eq!(out, "Hi Bob, bye ");
    assert_eq!(missing, vec!["ghost".to_string()]);
}

#[test]
fn template_double_braces_and_fallback() {
    let ctx = context(&[("a", "1"), ("a", "2"), ("b", "<b>")]);
    let (out, missing) = render_template("${{ a }}|${{b}}|${{ c | / }}|${{ d }}|${ b }", &ctx);
    assert_eq!(out, "2|<b>|/||<b>");
    assert_eq!(missing, vec!["d".to_string()]);
}

#[test]
fn template_unclosed_placeholder_is_text() {
    let ctx = context(&[("x", "X")]);
    let (out, missing) = render_template("cost: $5 ${x ${{ y", &ctx);
    assert_eq!(out, "cost: $5 ${x ${{ y");
    assert!(missing.is_empty());
    let (out, _) = render_template("", &ctx);
    assert_eq!(out, "");
}

#[test]
fn dates_of_a_timestamp() {
    let (human, iso) = get_date_string_from_timestamp(1621897682);
    assert_eq!(human, "May 24, 2021");
    assert_eq!(iso, "2021-05-24T23:08:02+00:00");
}

#[test]
fn byline_with_and_without_fields() {
    let mut c = BlogConfig::default();
    assert_eq!(
        get_name_and_date_html(&c),
        "<span style=\"color: #92979b; font-size: 16px\"><a style=\"font-weight: bold; color: #92979b\" href=\"#\">AUTHORNAMENOTFOUND</a> - DATESTRINGNOTFOUND</span>"
    );
    c.author_url = Some("u".to_string());
    c.author_name = Some("n".to_string());
    c.date_written = Some("d".to_string());
    assert_eq!(
        get_name_and_date_html(&c),
        "<span style=\"color: #92979b; font-size: 16px\"><a style=\"font-weight: bold; color: #92979b\" href=\"u\">n</a> - d</span>"
    );
}

#[test]
fn about_me_only_when_something_is_set() {
    let mut c = BlogConfig::default();
    assert_eq!(get_about_me_markdown(&c), "");
    c.author_email = Some("e@x".to_string());
    c.blog_home_url = Some("h".to_string());
    assert_eq!(
        get_about_me_markdown(&c),
        "About me:\n\n> Contact me via email: e@x.<br>\n> Check out my other blog posts: h.<br>\n"
    );
}

#[test]
fn links_block() {
    let mut c = BlogConfig::default();
    c.author_url = Some("a".to_string());
    assert_eq!(get_links_html(&c), "");
    c.blog_home_url = Some("https://h".to_string());
    assert_eq!(
        get_links_html(&c),
        "<a href=\"a\" class=\"link\">Homepage</a>\n<a href=\"https://h/rss.xml\" class=\"link\">RSS</a>\n"
    );
}

#[test]
fn post_page_rendering() {
    let text = "---\ntitle: m2title\ndescription: ignored\n---\nSome *text*.";
    let facts = post("p/BLOG.md", 1621897682, 1621897682, "me");
    let mut global = BlogConfig::default();
    global.tags = Some(vec!["abcxyz".to_string()]);
    let template = "<title>${{ title }}</title><meta name=\"description\" content=\"${{ description }}\">${{ meta_tags }}${{ published_time_iso }}|${{ date_written }}|${{ rendered_markdown }}|${{ nothing }}";
    let (page, warnings, slug) = render_blog_actual(text, &facts, template, &global).unwrap();
    assert!(page.contains("<title>m2title</title>"));
    assert!(page.contains("description\" content=\"Some *text*."));
    assert!(page.contains("<meta property=\"article:tag\" content=\"abcxyz\">"));
    assert!(page.contains("2021-05-24T23:08:02+00:00"));
    assert!(page.contains("May 24, 2021"));
    assert!(page.contains("<h1>m2title</h1>"));
    assert!(page.contains("<em>text</em>"));
    assert!(page.contains("I am me."));
    assert_eq!(warnings, "Failed to find key 'nothing'\n");
    assert_eq!(slug, "m2title");
}

#[test]
fn post_link_rendering() {
    let mut c = BlogConfig::default();
    c.title = Some("T".to_string());
    c.blog_file_name = Some("t".to_string());
    let (link, warnings) = render_blogpost_link(
        &c,
        "<a href=\"${{ blog_home_url | / }}/${{ blog_file_name }}\">${{ date_written }} - ${{ title }}</a>",
    );
    assert_eq!(link, "<a href=\"//t\"> - T</a>");
    assert_eq!(warnings, "date_written, ");
}

#[test]
fn rss_item_and_reasons() {
    let mut c = BlogConfig::default();
    let f = post("p/BLOG.md", 1621897682, 0, "me");
    assert_eq!(generate_rss_item(&c, &f), Err("Blog post p/BLOG.md is missing title".to_string()));
    c.title = Some("T".to_string());
    c.blog_home_url = Some("https://h".to_string());
    c.blog_file_name = Some("t".to_string());
    assert_eq!(
        generate_rss_item(&c, &f),
        Err("Blog post p/BLOG.md is missing description".to_string())
    );
    c.description = Some("D".to_string());
    assert_eq!(
        generate_rss_item(&c, &f),
        Ok("\n    <item>\n    <title>T</title>\n    <link>https://h/t</link>\n    <pubDate>Mon, 24 May 2021 23:08:02 +0000</pubDate>\n    <guid>https://h/t</guid>\n    <description>D</description>\n    </item>".to_string())
    );
    assert_eq!(rss_err(&f, "x"), "Blog post p/BLOG.md is missing x");
}

#[test]
fn rss_channel_needs_blog_fields() {
    let mut c = BlogConfig::default();
    let f = post("", 0, 0, "");
    c.blog_name = Some("N".to_string());
    assert_eq!(
        generate_rss(&c, &f, "", 1621897682),
        Err("Blog post  is missing blog_home_url".to_string())
    );
    c.blog_home_url = Some("https://h".to_string());
    c.blog_description = Some("D".to_string());
    let doc = generate_rss(&c, &f, "ITEMS", 1621897682).unwrap();
    assert!(doc.contains("<title>N</title>"));
    assert!(doc.contains("<lastBuildDate>Mon, 24 May 2021 23:08:02 +0000</lastBuildDate>"));
    assert!(doc.contains("<atom:link href=\"https://h/rss.xml\""));
    assert!(doc.contains("\n    ITEMS\n    </channel>"));
}

#[test]
fn newest_first_is_stable() {
    let posts = vec![
        post("a", 10, 0, ""),
        post("b", 30, 0, ""),
        post("c", 10, 0, ""),
        post("d", 20, 0, ""),
        post("e", 30, 0, ""),
    ];
    assert_eq!(newest_first_order(&posts), vec![1, 4, 3, 0, 2]);
    assert_eq!(newest_first_order(&vec![]), Vec::<usize>::new());
}

fn feed_config() -> BlogConfig {
    let mut c = BlogConfig::default();
    c.blog_name = Some("N".to_string());
    c.blog_home_url = Some("https://h".to_string());
    c.blog_description = Some("D".to_string());
    c
}

#[test]
fn complete_posts_make_a_feed() {
    let posts = vec![
        post("one/BLOG.md", 100, 0, "x"),
        post("two/BLOG.md", 300, 0, "x"),
        post("three/BLOG.md", 200, 0, "x"),
    ];
    let texts = vec![
        "---\ntitle: One\n---\nfirst".to_string(),
        "---\ntitle: Two\n---\nsecond".to_string(),
        "---\ntitle: Three\n---\nthird".to_string(),
    ];
    let out = render_homepage_and_rss(
        &posts,
        &texts,
        "${{ title }}${{ nope }}",
        "${{ blog_post_links_html }}|${{ links_html }}|${{ missing_one }}",
        &feed_config(),
        false,
        1621897682,
    )
    .unwrap();
    assert_eq!(
        out.homepage,
        "Two\nThree\nOne\n|<a href=\"https://h/rss.xml\" class=\"link\">RSS</a>\n|"
    );
    assert_eq!(out.warnings, "missing_one, ");
    assert_eq!(out.post_warnings, "nope, nope, nope, ");
    let feed = out.rss.unwrap();
    let two = feed.find("<title>Two</title>").unwrap();
    let three = feed.find("<title>Three</title>").unwrap();
    let one = feed.find("<title>One</title>").unwrap();
    assert!(two < three && three < one);
    assert!(feed.contains("<link>https://h/two</link>"));
    assert!(feed.contains("<description>first</description>"));
}

#[test]
fn feed_abort_when_a_post_lacks_a_field() {
    let posts = vec![
        post("one/BLOG.md", 300, 0, "x"),
        post("three/BLOG.md", 100, 0, "x"),
        post("two/BLOG.md", 200, 0, "x"),
    ];
    let texts = vec![
        "---\ntitle: One\n---\nfirst".to_string(),
        "---\ntitle: Three\n---\nthird".to_string(),
        "---\ntitle: Two\n---\nsecond".to_string(),
    ];
    let mut cfg = BlogConfig::default();
    cfg.blog_name = Some("N".to_string());
    cfg.blog_description = Some("D".to_string());
    // no blog home URL anywhere but in the header of the first two posts by date
    let texts_home = vec![
        "---\ntitle: One\nblog_home_url: https://h\n---\nfirst".to_string(),
        "---\ntitle: Three\n---\nthird".to_string(),
        "---\ntitle: Two\nblog_home_url: https://h\n---\nsecond".to_string(),
    ];
    let out = render_homepage_and_rss(&posts, &texts_home, "${{ title }}", "${{ blog_post_links_html }}", &cfg, false, 1621897682).unwrap();
    assert_eq!(out.homepage, "One\nTwo\nThree\n");
    assert_eq!(out.rss, Err("Blog post three/BLOG.md is missing blog_home_url".to_string()));
    let out = render_homepage_and_rss(&posts, &texts, "${{ title }}", "${{ blog_post_links_html }}", &cfg, true, 1621897682).unwrap();
    assert_eq!(out.rss, Err("user requested no RSS".to_string()));
}

#[test]
fn homepage_pass_stops_on_unresolvable_post() {
    let posts = vec![post("ok/BLOG.md", 100, 0, "x"), post("bad/BLOG.md", 200, 0, "x")];
    let texts = vec!["---\ntitle: Ok\n---\n".to_string(), "no title".to_string()];
    match render_homepage_and_rss(&posts, &texts, "", "", &BlogConfig::default(), false, 0) {
        Err(BlogError::MissingTitle(p)) => assert_eq!(p, "bad/BLOG.md"),
        _ => panic!("expected a missing title"),
    }
}

#[test]
fn git_update_lines() {
    let (ts, name) = parse_git_update_line("1621897682, Ann Lee ").unwrap();
    assert_eq!(ts, 1621897682);
    assert_eq!(name, "Ann Lee");
    assert_eq!(parse_git_update_line("-5,x").unwrap().0, -5);
    assert_eq!(parse_git_update_line("+5,x").unwrap().0, 5);
    assert_eq!(parse_git_update_line("9223372036854775807,x").unwrap().0, i64::MAX);
    assert_eq!(parse_git_update_line("-9223372036854775808,x").unwrap().0, i64::MIN);
    assert!(parse_git_update_line("9223372036854775808,x").is_err());
    assert!(parse_git_update_line("no comma").is_err());
    assert!(parse_git_update_line("12a,x").is_err());
    assert!(parse_git_update_line(",x").is_err());
    assert!(parse_git_update_line("-,x").is_err());
    assert!(parse_git_update_line(" 1,x").is_err());
}

#[test]
fn commit_history_to_facts() {
    let lines = vec!["300,Editor".to_string(), "200,Mid".to_string(), "100,Writer".to_string()];
    let f = blog_file_from_history("a/BLOG.md", &lines).unwrap();
    assert_eq!(f.path_from_root, "a/BLOG.md");
    assert_eq!(f.updated, 300);
    assert_eq!(f.written, 100);
    assert_eq!(f.git_author_name, "Writer");
    let f = blog_file_from_history("a/BLOG.md", &vec![]).unwrap();
    assert_eq!((f.written, f.updated, f.git_author_name.as_str()), (0, 0, ""));
    assert!(blog_file_from_history("a", &vec!["".to_string()]).is_err());
    let all = get_blog_file_meta_info(
        &vec!["a".to_string(), "b".to_string()],
        &vec![vec!["5,x".to_string()], vec!["7,y".to_string(), "6,z".to_string()]],
    )
    .unwrap();
    assert_eq!(all.len(), 2);
    assert_eq!((all[1].written, all[1].updated), (6, 7));
}

#[test]
fn selecting_post_files_and_output_lines() {
    let files = vec!["a/BLOG.md".to_string(), "b/README.md".to_string(), "BLOG.md".to_string()];
    assert_eq!(
        select_blog_files(&files, "BLOG.md"),
        vec!["a/BLOG.md".to_string(), "BLOG.md".to_string()]
    );
    assert_eq!(output_lines("x\ny\n\n"), vec!["x".to_string(), "y".to_string()]);
    assert_eq!(output_lines(""), vec!["".to_string()]);
}

fn names(list: &[&str]) -> Vec<String> {
    list.iter().map(|s| s.to_string()).collect()
}

#[test]
fn reference_branch_choice() {
    let both = names(&["blogs", "main", "master"]);
    match get_main_reference_branch(&None, &names(&["master", "x"]), true) {
        MainBranchChoice::Use(b) => assert_eq!(b, "master"),
        other => panic!("unexpected {:?}", other),
    }
    match get_main_reference_branch(&None, &both, false) {
        MainBranchChoice::Ask(q) => assert!(q.ends_with("Which one would you like to use as the main reference branch?")),
        other => panic!("unexpected {:?}", other),
    }
    match get_main_reference_branch(&None, &both, true) {
        MainBranchChoice::Fail(m) => assert!(m.starts_with("Looks like you have both master and main branches")),
        other => panic!("unexpected {:?}", other),
    }
    match get_main_reference_branch(&None, &names(&["dev"]), false) {
        MainBranchChoice::Fail(m) => assert_eq!(m, "Failed to find either master or main branch"),
        other => panic!("unexpected {:?}", other),
    }
    match get_main_reference_branch(&Some("dev".to_string()), &names(&["dev", "main"]), true) {
        MainBranchChoice::Use(b) => assert_eq!(b, "dev"),
        other => panic!("unexpected {:?}", other),
    }
    match get_main_reference_branch(&Some("trunk".to_string()), &both, true) {
        MainBranchChoice::Fail(m) => assert_eq!(m, "Failed to find the reference branch: trunk"),
        other => panic!("unexpected {:?}", other),
    }
}

#[test]
fn error_message_constructor() {
    match new_err("boom") {
        BlogError::Other(m) => assert_eq!(m, "boom"),
        other => panic!("unexpected {:?}", other),
    }
}

#[test]
fn context_of_a_record() {
    let mut c = BlogConfig::default();
    c.author_name = Some("Ann".to_string());
    c.tags = Some(vec!["a".to_string(), "b".to_string()]);
    let ctx = c.to_hashmap_context(&Some("<p>x</p>".to_string()));
    let (out, missing) = render_template(
        "${rendered_markdown}|${meta_tags}|${publisher_tag}|${author_name}|${title}",
        &ctx,
    );
    assert_eq!(
        out,
        "<p>x</p>|<meta property=\"article:tag\" content=\"a\">\n<meta property=\"article:tag\" content=\"b\">\n|<meta property=\"article:publisher\" content=\"Ann\">|Ann|"
    );
    assert_eq!(missing, vec!["title".to_string()]);
}
