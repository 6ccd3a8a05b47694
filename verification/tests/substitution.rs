use sitegen::paths::{html_path_of, join_path, parent_dir_of};
use sitegen::substitute_replace;
use sitegen::HTMLError;
use sitegen::StrMap;

fn cache_with(entries: &[(&str, &str)]) -> StrMap {
    let mut m = StrMap::new();
    for (k, v) in entries {
        m.insert(k.to_string(), v.to_string());
    }
    m
}

#[test]
fn page_without_tags_is_returned_unchanged() {
    let cache = StrMap::new();
    let page = "<html>\n<body>{TITLE} stays, so does <b>markup</b></body>\n</html>";
    let out = substitute_replace(page, "comps", &cache).unwrap();
    assert_eq!(out, page);
}

#[test]
fn replace_tag_splices_fragment_text() {
    let cache = cache_with(&[("comps/header.html", "<div>header</div>")]);
    let out = substitute_replace("a <REPLACE with=\"header.html\" /> b", "comps", &cache).unwrap();
    assert_eq!(out, "a <div>header</div> b");
}

#[test]
fn attribute_order_does_not_matter() {
    let cache = cache_with(&[("comps/header.html", "H")]);
    let a = substitute_replace("<REPLACE class=\"x\" with=\"header.html\" />", "comps", &cache)
        .unwrap();
    let b = substitute_replace("<REPLACE with=\"header.html\" class=\"x\" />", "comps", &cache)
        .unwrap();
    assert_eq!(a, b);
    assert_eq!(a, "H");
}

#[test]
fn missing_with_attribute_fails() {
    let cache = cache_with(&[("comps/header.html", "H")]);
    let r = substitute_replace("before <REPLACE class=\"x\" /> after", "comps", &cache);
    match r {
        Err(HTMLError::UnresolvedTag { tag }) => assert_eq!(tag, "with"),
        other => panic!("{:?}", other),
    }
}

#[test]
fn unknown_fragment_fails_with_its_path() {
    let cache = StrMap::new();
    let r = substitute_replace("<REPLACE with=\"gone.html\" />", "comps", &cache);
    match r {
        Err(HTMLError::UnresolvedTag { tag }) => assert_eq!(tag, "comps/gone.html"),
        other => panic!("{:?}", other),
    }
}

#[test]
fn several_tags_resolve_independently() {
    let cache = cache_with(&[("c/h.html", "H"), ("c/f.html", "F")]);
    let out = substitute_replace(
        "<REPLACE with=\"h.html\" />|<REPLACE with=\"f.html\" />|<REPLACE with=\"h.html\" />",
        "c",
        &cache,
    )
    .unwrap();
    assert_eq!(out, "H|F|H");
}

#[test]
fn last_with_attribute_wins() {
    let cache = cache_with(&[("c/b.html", "B")]);
    let out = substitute_replace("<REPLACE with=\"a.html\" with=\"b.html\" />", "c", &cache)
        .unwrap();
    assert_eq!(out, "B");
}

#[test]
fn tag_must_close_on_one_line() {
    let cache = cache_with(&[("c/h.html", "H")]);
    let page = "<REPLACE\nwith=\"h.html\" />";
    let out = substitute_replace(page, "c", &cache).unwrap();
    assert_eq!(out, page);
}

#[test]
fn tag_name_needs_a_word_boundary() {
    let cache = cache_with(&[("c/h.html", "H")]);
    let page = "<REPLACED with=\"h.html\" />";
    let out = substitute_replace(page, "c", &cache).unwrap();
    assert_eq!(out, page);
}

#[test]
fn substituted_text_is_not_rescanned_as_a_fragment_tag() {
    let cache = cache_with(&[
        ("c/outer.html", "<REPLACE with=\"inner.html\" />"),
    ]);
    let out = substitute_replace("<REPLACE with=\"outer.html\" />", "c", &cache).unwrap();
    assert_eq!(out, "<REPLACE with=\"inner.html\" />");
}

#[test]
fn join_path_handles_separators_and_absolute_names() {
    assert_eq!(join_path("a", "b.html"), "a/b.html");
    assert_eq!(join_path("a/", "b.html"), "a/b.html");
    assert_eq!(join_path("", "b.html"), "b.html");
    assert_eq!(join_path("a", "/abs.html"), "/abs.html");
}

#[test]
fn cache_returns_identical_text_and_loads_once() {
    let mut cache = StrMap::new();
    let mut io_calls: u32 = 0;
    let mut seen: Vec<String> = Vec::new();
    for _ in 0..2 {
        let text = match cache.lookup("c/h.html") {
            Some(t) => t,
            None => {
                io_calls += 1;
                let loaded = "<div>header</div>".to_string();
                cache.insert("c/h.html".to_string(), loaded.clone());
                loaded
            },
        };
        seen.push(text);
    }
    assert_eq!(io_calls, 1);
    assert_eq!(seen[0], seen[1]);
    assert_eq!(seen[0], "<div>header</div>");
}

#[test]
fn cache_never_replaces_a_stored_fragment() {
    let mut cache = StrMap::new();
    cache.insert("k".to_string(), "first".to_string());
    cache.insert("k".to_string(), "second".to_string());
    assert_eq!(cache.lookup("k"), Some("first".to_string()));
}

#[test]
fn parent_dir_and_html_path_follow_path_shape() {
    assert_eq!(parent_dir_of("src/posts/a.md"), "src/posts");
    assert_eq!(parent_dir_of("a.md"), "");
    assert_eq!(parent_dir_of("/a.md"), "/");
    assert_eq!(html_path_of("src/posts/a.md"), "src/posts/a.html");
    assert_eq!(html_path_of("notes.tar.gz"), "notes.tar.html");
    assert_eq!(html_path_of("plain"), "plain.html");
    assert_eq!(html_path_of("dir.v2/plain"), "dir.v2/plain.html");
    assert_eq!(html_path_of(".hidden"), ".hidden.html");
}

#[test]
fn value_may_be_empty_and_is_taken_verbatim() {
    let cache = cache_with(&[("c/", "E")]);
    let out = substitute_replace("<REPLACE with=\"\" />", "c", &cache).unwrap();
    assert_eq!(out, "E");
}
