use sitegen::add_meta_to_post_html;
use sitegen::add_rss_meta;
use sitegen::date::Date;
use sitegen::expand;
use sitegen::frontmatter::parse_post;
use sitegen::post::plan_post;
use sitegen::substitute_feed;
use sitegen::Config;
use sitegen::HTMLError;
use sitegen::MdInfo;
use sitegen::PostIndex;
use sitegen::StrMap;

fn cache_with(entries: &[(&str, &str)]) -> StrMap {
    let mut m = StrMap::new();
    for (k, v) in entries {
        m.insert(k.to_string(), v.to_string());
    }
    m
}

#[test]
fn feed_round_trip() {
    let text = "---\ntitle: Example\ndate: Tuesday 16 September 2025\n---\nBody text.";
    let doc = parse_post("src/posts/a.md", text).unwrap();
    let cache = cache_with(&[("src/components/post.html", "<p>{TITLE} - {DATE}</p>")]);
    let posts = vec![doc];
    let out = expand(
        "<FEED with=\"post.html\" />",
        "src/components",
        &posts,
        "src/index.html",
        &cache,
    )
    .unwrap();
    assert_eq!(out, "<p>Example - Tuesday 16 September 2025</p>");
}

fn doc(y: u32, m: u32, d: u32, title: &str, content: &str, path: &str) -> MdInfo {
    MdInfo {
        date: Date { year: y, month: m, day: d },
        title: title.to_string(),
        content: content.to_string(),
        path: path.to_string(),
    }
}

#[test]
fn feed_entries_come_in_date_descending_order_joined_by_breaks() {
    let posts = vec![
        doc(2024, 1, 1, "Old", "o", "p/old.md"),
        doc(2025, 3, 2, "New", "n", "p/new.md"),
    ];
    let cache = cache_with(&[("c/post.html", "[{TITLE}]")]);
    let out = substitute_feed("x <FEED with=\"post.html\" /> y", "idx.html", "c", &cache, &posts)
        .unwrap();
    assert_eq!(out, "x [New]\n[Old] y");
}

#[test]
fn feed_with_no_documents_yields_empty_output() {
    let posts: Vec<MdInfo> = Vec::new();
    let cache = cache_with(&[("c/post.html", "[{TITLE}]")]);
    let out = substitute_feed("a<FEED with=\"post.html\" />b", "idx.html", "c", &cache, &posts)
        .unwrap();
    assert_eq!(out, "ab");
}

#[test]
fn feed_path_placeholder_is_relative_to_the_page() {
    let posts = vec![doc(2025, 1, 1, "T", "c", "src/posts/x.md")];
    let cache = cache_with(&[("src/components/post.html", "{PATH}")]);
    let out = expand(
        "<FEED with=\"post.html\" />",
        "src/components",
        &posts,
        "src/index.html",
        &cache,
    )
    .unwrap();
    assert_eq!(out, "posts/x.html");
}

#[test]
fn feed_content_placeholder_is_truncated() {
    let long = "x".repeat(200);
    let posts = vec![doc(2025, 1, 1, "T", &long, "p/a.md")];
    let cache = cache_with(&[("c/post.html", "{CONTENT}")]);
    let out = substitute_feed("<FEED with=\"post.html\" />", "idx.html", "c", &cache, &posts)
        .unwrap();
    assert_eq!(out, format!("{}...", "x".repeat(160)));
}

#[test]
fn feed_output_braces_are_not_reinterpreted() {
    let posts = vec![doc(2025, 1, 1, "{UNKNOWN}", "c", "p/a.md")];
    let cache = cache_with(&[("c/post.html", "{TITLE}")]);
    let out = expand("<FEED with=\"post.html\" />", "c", &posts, "idx.html", &cache).unwrap();
    assert_eq!(out, "{UNKNOWN}");
}

#[test]
fn feed_missing_with_attribute_fails() {
    let posts: Vec<MdInfo> = Vec::new();
    let cache = StrMap::new();
    let r = substitute_feed("<FEED class=\"x\" />", "idx.html", "c", &cache, &posts);
    match r {
        Err(HTMLError::UnresolvedTag { tag }) => assert_eq!(tag, "with"),
        other => panic!("{:?}", other),
    }
}

#[test]
fn hydrate_keeps_unknown_placeholders() {
    let mut fields = StrMap::new();
    fields.insert("TITLE".to_string(), "Hi".to_string());
    let out = sitegen::hydrate::hydrate_component("{TITLE} and {UNKNOWN}", &fields);
    assert_eq!(out, "Hi and {UNKNOWN}");
}

#[test]
fn hydrate_requires_letters_only_names() {
    let mut fields = StrMap::new();
    fields.insert("A".to_string(), "x".to_string());
    let out = sitegen::hydrate::hydrate_component("{A} {A1} {} {{A}", &fields);
    assert_eq!(out, "x {A1} {} {x");
}

#[test]
fn rss_meta_replaces_the_head_close() {
    let out = add_rss_meta("<head></head>", "https://site.example", "My Site");
    let expected = "<head>\n      <link rel=\"alternate\"\n        type=\"application/rss+xml\"\n        href=\"https://site.example/feed.xml\"\n        title=\"My Site\">\n    </head>";
    assert_eq!(out, expected);
}

#[test]
fn post_meta_carries_title_and_truncated_description() {
    let m = doc(2025, 1, 1, "A Title", "Some body\ntext", "p/a.md");
    let out = add_meta_to_post_html(
        "<html><head></head></html>".to_string(),
        &m,
        "https://s/p/a.html",
        "https://s/img.jpg",
        "Site",
    );
    assert!(out.contains("og:title\" content=\"A Title\""));
    assert!(out.contains("og:description\" content=\"Some body text...\""));
    assert!(out.contains("og:url\" content=\"https://s/p/a.html\""));
    assert!(out.ends_with("</head>\n    </html>"));
}

#[test]
fn post_index_caches_snapshots_per_root() {
    let mut index = PostIndex::new();
    assert!(index.lookup("src/posts").is_none());
    let posts = vec![doc(2025, 1, 1, "T", "c", "src/posts/a.md")];
    index.insert("src/posts".to_string(), posts);
    let got = index.lookup("src/posts").unwrap();
    assert_eq!(got.len(), 1);
    assert_eq!(got[0].path, "src/posts/a.md");
    // A second insert for the same root does not replace the snapshot.
    index.insert("src/posts".to_string(), Vec::new());
    assert_eq!(index.lookup("src/posts").unwrap().len(), 1);
}

#[test]
fn planned_post_has_dated_name_and_skeleton() {
    let d = Date { year: 2025, month: 9, day: 16 };
    let (name, content) = plan_post("Example Post!", &d);
    assert_eq!(name, "25_09_16_Example_Post.md");
    assert_eq!(content, "---\ntitle: Example Post!\ndate: Tuesday 16 September 2025\n---\n");
}

#[test]
fn planned_post_content_parses_back() {
    let d = Date { year: 2025, month: 9, day: 16 };
    let (_, content) = plan_post("Example", &d);
    let m = parse_post("p.md", &content).unwrap();
    assert_eq!(m.title, "Example");
    assert_eq!(m.date, d);
    assert_eq!(m.content, "");
}

#[test]
fn default_config_names_the_project_layout() {
    let c = Config::default();
    assert_eq!(c.styles_css, "src/styles.css");
    assert_eq!(c.components_dir, "src/components");
    assert_eq!(c.posts_dir, "src/posts");
    assert_eq!(c.site_name, "My Site");
}

#[test]
fn fragment_output_may_contain_a_feed_tag_for_the_second_pass() {
    let posts = vec![doc(2025, 1, 1, "T", "c", "p/a.md")];
    let cache = cache_with(&[
        ("c/outer.html", "<FEED with=\"post.html\" />"),
        ("c/post.html", "[{TITLE}]"),
    ]);
    let out = expand("<REPLACE with=\"outer.html\" />", "c", &posts, "idx.html", &cache).unwrap();
    assert_eq!(out, "[T]");
}

#[test]
fn several_feed_tags_each_get_the_whole_feed() {
    let posts = vec![doc(2025, 1, 1, "T", "c", "p/a.md")];
    let cache = cache_with(&[("c/post.html", "[{TITLE}]")]);
    let out = substitute_feed(
        "<FEED with=\"post.html\" /> and <FEED with=\"post.html\" />",
        "idx.html",
        "c",
        &cache,
        &posts,
    )
    .unwrap();
    assert_eq!(out, "[T] and [T]");
}

#[test]
fn weekdays_of_one_week_are_consecutive() {
    let names = [
        "Sunday", "Monday", "Tuesday", "Wednesday", "Thursday", "Friday", "Saturday",
    ];
    // 2025-09-14 was a Sunday.
    for (i, name) in names.iter().enumerate() {
        let d = Date { year: 2025, month: 9, day: 14 + i as u32 };
        let rendered = sitegen::date::format_date(&d);
        assert!(rendered.starts_with(name), "{}: {}", name, rendered);
    }
}

#[test]
fn planning_a_post_for_today_yields_a_parseable_skeleton() {
    let (name, content) = sitegen::post::plan_post_today("Fresh Note").unwrap();
    assert!(name.ends_with("_Fresh_Note.md"));
    let m = parse_post("p.md", &content).unwrap();
    assert_eq!(m.title, "Fresh Note");
    assert_eq!(m.content, "");
}
