use scribe::annotations::annotation_urls;
use scribe::link_meta::{annotation_meta_json, build_annotation_map, Annotation, AnnotationMap};
use scribe::autolink::{autolink_markdown, autolink_text, split_trailing_punctuation};
use scribe::commands::{new_post_content, new_post_filename, parse_letters};
use scribe::config::{Config, Theme};
use scribe::frontmatter::parse_frontmatter;
use scribe::generator::{SiteGenerator, SourceFile};
use scribe::initials::{image_data_uri, initial_prompt, plan_initials};
use scribe::links::{find_backlinks, rewrite_internal_links};
use scribe::loader::{parse_post, sort_posts};
use scribe::page_meta::{html_unescape, page_metadata};
use scribe::post::{Post, Timestamp};
use scribe::render::{generate_css, render_index, render_post};
use scribe::slug::sanitize_slug;
use scribe::url::{canonicalize_url, extract_url_from_line};

fn epoch() -> Timestamp {
    Timestamp { secs: 0, nanos: 0 }
}

fn post(content: &str, stem: &str) -> Post {
    parse_post(content, Some(stem), epoch())
}

fn entry<'a>(m: &'a AnnotationMap, key: &str) -> Option<&'a Annotation> {
    m.entries.iter().find(|(k, _)| k == key).map(|(_, a)| a)
}

#[test]
fn sanitize_examples() {
    assert_eq!(sanitize_slug("Hello World!"), "hello-world");
    assert_eq!(sanitize_slug("--A--B--"), "a-b");
    assert_eq!(sanitize_slug("My_First Post (2024)"), "my-first-post-2024");
    assert_eq!(sanitize_slug(""), "untitled");
    assert_eq!(sanitize_slug("!!!"), "untitled");
    assert_eq!(sanitize_slug("ÉTÉ été"), "t-t");
}

#[test]
fn sanitize_is_idempotent_on_examples() {
    for s in ["Hello World!", "--x--", "", "Ünïcödé", "a  b\tc", "already-a-slug", "UPPER_case-42"] {
        let once = sanitize_slug(s);
        assert_eq!(sanitize_slug(&once), once);
        assert!(!once.is_empty());
        assert!(!once.starts_with('-') && !once.ends_with('-'));
        assert!(!once.contains("--"));
        assert!(once.chars().all(|c| c.is_ascii_lowercase() || c.is_ascii_digit() || c == '-'));
    }
}

#[test]
fn slugs_are_stable_across_loads() {
    let a = parse_post("# One\n\nbody", Some("My Post"), epoch());
    let b = parse_post("other text", Some("My Post"), Timestamp { secs: 99, nanos: 0 });
    assert_eq!(a.slug, "my-post");
    assert_eq!(a.slug, b.slug);
    assert_eq!(a.original_slug, "My Post");
    let c = parse_post("x", None, epoch());
    assert_eq!(c.original_slug, "untitled");
    assert_eq!(c.slug, "untitled");
    assert_eq!(c.title, "Untitled");
}

#[test]
fn frontmatter_round_trip() {
    let raw = "---\ntitle: \"X\"\ndate: \"2024-01-20T00:00:00Z\"\nexcerpt: \"Y\"\n---\nZ";
    let p = post(raw, "file-name");
    assert_eq!(p.title, "X");
    assert_eq!(p.date, Timestamp { secs: 1705708800, nanos: 0 });
    assert_eq!(p.excerpt.as_deref(), Some("Y"));
    assert!(p.content.contains('Z'));
    assert_eq!(p.content, "Z");
    assert_eq!(p.frontmatter.len(), 3);
}

#[test]
fn frontmatter_bad_date_and_bad_yaml_fall_back() {
    let p = parse_post("---\ndate: not a date\n---\nbody", Some("s"), Timestamp { secs: 7, nanos: 3 });
    assert_eq!(p.date, Timestamp { secs: 7, nanos: 3 });
    assert_eq!(p.title, "s");
    assert_eq!(p.excerpt.as_deref(), Some("body"));
    let (meta, body) = parse_frontmatter("---\n: [unclosed\n---\nrest\nmore");
    assert!(meta.is_empty());
    assert_eq!(body, "rest\nmore");
}

#[test]
fn no_frontmatter_keeps_body() {
    let raw = "Just text\nwith http://a.com/x\n\n";
    let (meta, body) = parse_frontmatter(raw);
    assert!(meta.is_empty());
    assert_eq!(body, raw);
    let p = post(raw, "plain");
    assert!(p.frontmatter.is_empty());
    assert_eq!(p.content, raw);
    assert_eq!(p.excerpt.as_deref(), Some("Just text"));
}

#[test]
fn frontmatter_without_closing_marker() {
    let (meta, body) = parse_frontmatter("---\ntitle: T\n");
    assert_eq!(meta.len(), 1);
    assert_eq!(meta[0].key, "title");
    assert_eq!(meta[0].text.as_deref(), Some("T"));
    assert_eq!(body, "");
}

#[test]
fn autolink_bare_url_with_trailing_comma() {
    let out = autolink_markdown("see http://a.com/x, thanks");
    assert_eq!(out, "see [http://a.com/x](http://a.com/x), thanks");
}

#[test]
fn autolink_skips_fenced_code() {
    let md = "```\nhttp://a.com/x\n```\nafter http://b.com";
    assert_eq!(autolink_markdown(md), "```\nhttp://a.com/x\n```\nafter [http://b.com](http://b.com)");
}

#[test]
fn autolink_skips_inline_code_links_and_angles() {
    assert_eq!(
        autolink_markdown("`http://a.com` and http://b.com"),
        "`http://a.com` and [http://b.com](http://b.com)"
    );
    assert_eq!(autolink_text("[a](http://a.com)"), "[a](http://a.com)");
    assert_eq!(autolink_text("<http://a.com>"), "<http://a.com>");
    assert_eq!(autolink_text("(https://x.org/p)."), "([https://x.org/p](https://x.org/p)).");
    assert_eq!(autolink_text("no links here"), "no links here");
}

#[test]
fn trailing_punctuation_split() {
    let (core, rest) = split_trailing_punctuation("http://a.com/x).");
    assert_eq!(core, "http://a.com/x");
    assert_eq!(rest, ").");
    let (core, rest) = split_trailing_punctuation("plain");
    assert_eq!(core, "plain");
    assert_eq!(rest, "");
}

#[test]
fn shared_letter_is_generated_once() {
    let a = post("Apple pie", "a");
    let b = post("avocado toast", "b");
    let c = post("Banana", "c");
    assert_eq!(a.first_letter, Some('A'));
    assert_eq!(b.first_letter, Some('A'));
    let plan = plan_initials(&[a.clone(), b.clone(), c.clone()], &vec![]);
    assert_eq!(plan, vec!['A', 'B']);
    let plan = plan_initials(&[a, b, c], &vec!['A']);
    assert_eq!(plan, vec!['B']);
}

#[test]
fn first_letter_needs_a_paragraph() {
    let p = post("# Heading only", "h");
    assert_eq!(p.first_letter, None);
    let q = post("123 ébène", "e");
    assert_eq!(q.first_letter, Some('É'));
}

#[test]
fn failed_fetch_keeps_other_entries() {
    let mut m = AnnotationMap::new();
    m.register("http://a.com/x", Annotation { title: Some("T".to_string()), description: None });
    m.register("http://b.com/", Annotation::empty());
    assert_eq!(m.entries.len(), 4);
    assert_eq!(entry(&m, "http://a.com/x").unwrap().title.as_deref(), Some("T"));
    assert_eq!(entry(&m, "http://a.com/x/").unwrap().title.as_deref(), Some("T"));
    let b = entry(&m, "http://b.com").unwrap();
    assert!(b.title.is_none() && b.description.is_none());
    assert!(entry(&m, "http://b.com/").is_some());
}

#[test]
fn annotation_keys_cover_spellings() {
    let urls = vec!["HTTP://Example.com//Docs/?q=1#top".to_string()];
    let m = build_annotation_map(&urls, vec![Annotation { title: None, description: Some("D".to_string()) }]);
    assert!(entry(&m, "http://example.com/Docs/").is_some());
    assert!(entry(&m, "http://example.com/Docs").is_some());
    assert!(entry(&m, "HTTP://Example.com//Docs/?q=1#top").is_some());
    assert_eq!(m.entries.len(), 3);
}

#[test]
fn annotation_json_payload() {
    assert_eq!(annotation_meta_json(&AnnotationMap::new()), None);
    let mut m = AnnotationMap::new();
    m.register("http://a.com/x", Annotation { title: Some("T".to_string()), description: None });
    let json = annotation_meta_json(&m).unwrap();
    assert!(json.contains("\"http://a.com/x\""));
    assert!(json.contains("\"title\":\"T\""));
    assert!(!json.contains("description"));
}

#[test]
fn annotation_urls_from_blocks_lists_and_anchors() {
    let md = "Intro\n\n```links\n- [A](http://a.com/x)\nhttp://b.com/y extra\n```\n\nLinks:\n- http://c.com\n1. see http://d.com/z\n\nend";
    let urls = annotation_urls(md, "");
    assert_eq!(urls, vec!["http://a.com/x", "http://b.com/y", "http://c.com", "http://d.com/z"]);
    let html = "<p><a href=\"http://e.com/\">e</a> <a href='http://a.com/x'>dup</a></p>";
    let urls = annotation_urls(md, html);
    assert_eq!(urls, vec!["http://a.com/x", "http://b.com/y", "http://e.com/", "http://c.com", "http://d.com/z"]);
    assert!(annotation_urls("nothing here", "").is_empty());
}

#[test]
fn annotation_urls_are_capped() {
    let mut md = String::from("```anno\n");
    for i in 0..40 {
        md.push_str(&format!("http://site{}.com/\n", i));
    }
    md.push_str("```\n");
    let urls = annotation_urls(&md, "");
    assert_eq!(urls.len(), 32);
    assert_eq!(urls[0], "http://site0.com/");
    assert_eq!(urls[31], "http://site31.com/");
}

#[test]
fn url_from_reference_lines() {
    assert_eq!(extract_url_from_line("[Title](https://x.org/a) - desc").as_deref(), Some("https://x.org/a"));
    assert_eq!(extract_url_from_line("Title - https://y.org/b desc").as_deref(), Some("https://y.org/b"));
    assert_eq!(extract_url_from_line("nothing"), None);
    assert_eq!(extract_url_from_line("http:// nothing"), None);
}

#[test]
fn backlink_detection() {
    let a = post("Hello", "a-post");
    let b = post("See [A](../a-post/).", "b-post");
    let all = vec![a.clone(), b.clone()];
    let links = find_backlinks(&all, &a.slug, &a.original_slug);
    assert_eq!(links.len(), 1);
    assert_eq!(links[0].title, "b-post");
    assert_eq!(links[0].url, "../b-post/");
    assert!(find_backlinks(&all, &b.slug, &b.original_slug).is_empty());
    let selfish = post("[me](../self/)", "self");
    assert!(find_backlinks(&[selfish.clone()], &selfish.slug, &selfish.original_slug).is_empty());
}

#[test]
fn backlinks_by_original_slug() {
    let a = post("Hello", "Old_Post");
    let b = post("[x](/Old_Post.md)", "b");
    let links = find_backlinks(&[a.clone(), b], &a.slug, &a.original_slug);
    assert_eq!(links.len(), 1);
    assert_eq!(links[0].url, "../b/");
}

#[test]
fn canonical_forms() {
    assert_eq!(canonicalize_url("http://Example.com/Path/?x=1#y"), "http://example.com/Path/");
    assert_eq!(
        canonicalize_url("http://Example.com/Path/?x=1#y"),
        canonicalize_url("http://example.com/Path/")
    );
    assert_eq!(canonicalize_url("  HTTPS://A.com//x///y  "), "https://a.com/x/y");
    assert_eq!(canonicalize_url("http://example.com/"), "http://example.com/");
    assert_eq!(canonicalize_url("http://example.com"), "http://example.com");
    assert_eq!(canonicalize_url("no-scheme?q"), "no-scheme");
}

#[test]
fn internal_links_are_repointed() {
    let a = post("Hello", "Old_Post");
    assert_eq!(a.slug, "old-post");
    let all = vec![a];
    let html = "<a href=\"../Old_Post/\">x</a> <a href=\"/Old_Post.md\">y</a> <a href=\"Old_Post\">z</a>";
    assert_eq!(
        rewrite_internal_links(html, &all),
        "<a href=\"../old-post/\">x</a> <a href=\"/old-post/\">y</a> <a href=\"old-post/\">z</a>"
    );
}

#[test]
fn post_page_with_illustration() {
    let p = post("Hello world", "hello");
    let config = Config::default();
    let page = render_post(&config, &p, &[p.clone()], None, Some("data:x".to_string()));
    assert!(page.contains("<img src=\"data:x\" alt=\"Illuminated initial H\""));
    assert!(page.contains("<p>ello world</p>"));
    assert!(page.contains("<title>hello - Scribe</title>"));
    assert!(page.contains(">SCRIBE</a>"));
    let plain = render_post(&config, &p, &[p.clone()], None, None);
    assert!(plain.contains("<p>Hello world</p>"));
    assert!(!plain.contains("class=\"illuminated-initial\""));
    assert!(!plain.contains("class=\"backlinks\""));
    assert!(plain.contains("<meta name=\"description\" content=\"Hello world\">"));
    assert!(plain.contains("<meta property=\"article:published_time\" content=\"1970-01-01T00:00:00+00:00\">"));
}

#[test]
fn post_page_metadata_and_backlinks() {
    let a = post("Hello", "a-post");
    let b = post("See [A](../a-post/).", "b-post");
    let config = Config::default();
    let all = vec![a.clone(), b.clone()];
    let page = render_post(&config, &a, &all, Some("{\"k\":1}".to_string()), None);
    assert!(page.contains("<script id=\"annotation-meta\" type=\"application/json\">{\"k\":1}</script>"));
    assert!(page.contains("<h2>Backlinks</h2>"));
    assert!(page.contains("<li><a href=\"../b-post/\">b-post</a></li>"));
    let quiet = render_post(&config, &a, &all, Some(String::new()), None);
    assert!(!quiet.contains("id=\"annotation-meta\""));
}

#[test]
fn page_links_repointed_in_render() {
    let old = post("Old", "Old_Post");
    let b = post("[x](../Old_Post/)", "b");
    let page = render_post(&Config::default(), &b, &[old, b.clone()], None, None);
    assert!(page.contains("href=\"../old-post/\""));
}

#[test]
fn index_lists_posts_newest_first() {
    let older = post("---\ntitle: \"Old\"\ndate: \"2023-05-01T10:00:00Z\"\n---\nfirst", "old");
    let newer = post("---\ntitle: \"X\"\ndate: \"2024-01-20T00:00:00Z\"\nexcerpt: \"Y\"\n---\nZ", "new");
    let sorted = sort_posts(vec![older.clone(), newer.clone()]);
    assert_eq!(sorted[0].title, "X");
    assert_eq!(sorted[1].title, "Old");
    let page = render_index(&Config::default(), &sorted);
    assert!(page.contains("<a href=\"./new/\">X</a>"));
    assert!(page.contains("<time datetime=\"2024-01-20T00:00:00+00:00\">20/01/2024</time>"));
    assert!(page.contains("<p class=\"excerpt\">Y</p>"));
    assert!(page.find("./new/").unwrap() < page.find("./old/").unwrap());
    assert!(page.contains("<title>Scribe</title>"));
}

#[test]
fn generator_loads_and_sorts() {
    let mut g = SiteGenerator::new(Config::default());
    assert!(g.posts.is_empty());
    g.load_posts(vec![
        SourceFile { content: "a".to_string(), stem: Some("A".to_string()), fallback_date: Timestamp { secs: 5, nanos: 0 } },
        SourceFile { content: "b".to_string(), stem: Some("B".to_string()), fallback_date: Timestamp { secs: 9, nanos: 0 } },
        SourceFile { content: "c".to_string(), stem: Some("C".to_string()), fallback_date: Timestamp { secs: 9, nanos: 1 } },
    ]);
    let order: Vec<&str> = g.posts.iter().map(|p| p.slug.as_str()).collect();
    assert_eq!(order, vec!["c", "b", "a"]);
}

#[test]
fn entities_and_spaces() {
    assert_eq!(html_unescape("Tom &amp; Jerry\n\t &lt;3 &quot;q&quot; &#39;s&#39;"), "Tom & Jerry <3 \"q\" 's'");
    assert_eq!(html_unescape("&amp;lt;"), "<");
}

#[test]
fn page_title_and_description() {
    let html = "<html><head><title>Plain</title><meta content=\"OG T\" property=\"og:title\"><meta name=\"description\" content=\"D &amp; E\"></head></html>";
    let a = page_metadata(html);
    assert_eq!(a.title.as_deref(), Some("OG T"));
    assert_eq!(a.description.as_deref(), Some("D & E"));
    let b = page_metadata("<title lang=\"en\">  Only\n title </title>");
    assert_eq!(b.title.as_deref(), Some(" Only title "));
    assert_eq!(b.description, None);
    let c = page_metadata("<meta name='twitter:title' content='TW'><meta property=\"og:title\" content=\"OG\"><meta property=\"og:description\" content=\"ogd\">");
    assert_eq!(c.title.as_deref(), Some("TW"));
    assert_eq!(c.description.as_deref(), Some("ogd"));
}

#[test]
fn letters_from_command_line() {
    assert_eq!(parse_letters("a,b, c"), vec!['A', 'B', 'C']);
    assert_eq!(parse_letters("AbC1"), vec!['A', 'B', 'C']);
    assert_eq!(parse_letters(",,"), Vec::<char>::new());
    assert_eq!(parse_letters("ß"), vec!['S']);
}

#[test]
fn new_post_file() {
    assert_eq!(new_post_filename("Hello, World!"), "hello-world.md");
    assert_eq!(new_post_filename("Été 2024"), "été-2024.md");
    assert_eq!(
        new_post_content("Say \"hi\"", "2024-01-20", Some("E")),
        "---\ntitle: \"Say \\\"hi\\\"\"\ndate: \"2024-01-20\"\nexcerpt: \"E\"\n---\n\nWrite your post content here...\n\n"
    );
    assert_eq!(
        new_post_content("T", "d", None),
        "---\ntitle: \"T\"\ndate: \"d\"\n---\n\nWrite your post content here...\n\n"
    );
}

#[test]
fn illustration_texts() {
    let p = initial_prompt('Q');
    assert!(p.contains("illuminated initial 'Q' in the Italian Futurist style"));
    assert_eq!(image_data_uri("AAAA"), "data:image/png;base64,AAAA");
}

#[test]
fn defaults_and_style_sheet() {
    let c = Config::default();
    assert_eq!(c.title, "Scribe");
    assert_eq!(c.output_dir, "dist");
    assert_eq!(c.posts_dir, "posts");
    assert!(c.openai_api_key.is_none());
    let t = Theme::default();
    assert_eq!(t.background_color, "#0a0a0a");
    let css = generate_css(&c);
    assert!(css.starts_with("/* Reset and base styles */"));
    assert!(css.contains(".annotation-panel { display: none; }"));
}
