use sitegen::date::{format_date, parse_date, Date};
use sitegen::text::truncate_content_strict;
use sitegen::frontmatter::parse_post;
use sitegen::index::MdError;
use sitegen::sort_documents;
use sitegen::truncate_content;
use sitegen::MdInfo;

fn date(year: u32, month: u32, day: u32) -> Date {
    Date { year, month, day }
}

#[test]
fn parses_full_date_shape() {
    assert_eq!(parse_date("Tuesday 16 September 2025"), Some(date(2025, 9, 16)));
}

#[test]
fn parses_short_date_shape() {
    assert_eq!(parse_date("16 September 2025"), Some(date(2025, 9, 16)));
}

#[test]
fn rejects_wrong_weekday() {
    assert_eq!(parse_date("Monday 16 September 2025"), None);
}

#[test]
fn rejects_other_date_shapes() {
    assert_eq!(parse_date("2025-09-16"), None);
    assert_eq!(parse_date("16 Sep 2025"), None);
    assert_eq!(parse_date(""), None);
    assert_eq!(parse_date("32 January 2025"), None);
    assert_eq!(parse_date("29 February 2025"), None);
}

#[test]
fn accepts_leap_day() {
    assert_eq!(parse_date("29 February 2024"), Some(date(2024, 2, 29)));
}

#[test]
fn formats_date_with_weekday_and_padding() {
    assert_eq!(format_date(&date(2025, 9, 16)), "Tuesday 16 September 2025");
    assert_eq!(format_date(&date(2024, 6, 1)), "Saturday 01 June 2024");
}

#[test]
fn format_then_parse_round_trips() {
    let d = date(2023, 12, 31);
    assert_eq!(parse_date(&format_date(&d)), Some(d));
}

#[test]
fn parses_document_with_front_matter() {
    let text = "---\ntitle: Example\ndate: Tuesday 16 September 2025\n---\nBody text.";
    let m = parse_post("src/posts/a.md", text).unwrap();
    assert_eq!(m.title, "Example");
    assert_eq!(m.date, date(2025, 9, 16));
    assert_eq!(m.content, "Body text.");
    assert_eq!(m.path, "src/posts/a.md");
}

#[test]
fn skips_one_blank_line_before_body() {
    let text = "---\ntitle: T\ndate: 16 September 2025\n---\n\nBody";
    let m = parse_post("p.md", text).unwrap();
    assert_eq!(m.content, "Body");
}

#[test]
fn missing_front_matter_fails() {
    let r = parse_post("p.md", "no front matter here");
    assert!(matches!(r, Err(MdError::MissingFrontMatter { .. })));
}

#[test]
fn unclosed_front_matter_fails() {
    let r = parse_post("p.md", "---\ntitle: T\ndate: 16 September 2025\n");
    assert!(matches!(r, Err(MdError::MissingFrontMatter { .. })));
}

#[test]
fn line_without_colon_fails() {
    let r = parse_post("p.md", "---\ntitle Example\ndate: 16 September 2025\n---\n");
    assert!(matches!(r, Err(MdError::FrontMatterSyntax { .. })));
}

#[test]
fn missing_title_fails() {
    let r = parse_post("p.md", "---\ndate: 16 September 2025\n---\n");
    assert!(matches!(r, Err(MdError::FrontMatterSyntax { .. })));
}

#[test]
fn bad_date_fails_with_the_text() {
    let r = parse_post("p.md", "---\ntitle: T\ndate: soon\n---\n");
    match r {
        Err(MdError::DateParse { path, date }) => {
            assert_eq!(path, "p.md");
            assert_eq!(date, "soon");
        },
        other => panic!("{:?}", other),
    }
}

fn doc(y: u32, m: u32, d: u32, path: &str) -> MdInfo {
    MdInfo {
        date: date(y, m, d),
        title: format!("t {}", path),
        content: "c".to_string(),
        path: path.to_string(),
    }
}

#[test]
fn sort_puts_recent_dates_first_and_ties_in_stable_order() {
    let posts = vec![
        doc(2024, 1, 1, "a.md"),
        doc(2024, 6, 1, "b.md"),
        doc(2024, 6, 1, "c.md"),
    ];
    let sorted = sort_documents(&posts);
    assert_eq!(sorted[0].date, date(2024, 6, 1));
    assert_eq!(sorted[1].date, date(2024, 6, 1));
    assert_eq!(sorted[2].date, date(2024, 1, 1));
    let again = sort_documents(&posts);
    assert_eq!(sorted[0].path, again[0].path);
    assert_eq!(sorted[1].path, again[1].path);
    // Ties are broken by the source path, ascending.
    assert_eq!(sorted[0].path, "b.md");
    assert_eq!(sorted[1].path, "c.md");
}

#[test]
fn sort_is_independent_of_input_order() {
    let a = vec![doc(2024, 6, 1, "c.md"), doc(2024, 6, 1, "b.md"), doc(2024, 1, 1, "a.md")];
    let b = vec![doc(2024, 1, 1, "a.md"), doc(2024, 6, 1, "c.md"), doc(2024, 6, 1, "b.md")];
    let sa = sort_documents(&a);
    let sb = sort_documents(&b);
    let pa: Vec<&str> = sa.iter().map(|m| m.path.as_str()).collect();
    let pb: Vec<&str> = sb.iter().map(|m| m.path.as_str()).collect();
    assert_eq!(pa, pb);
}

#[test]
fn truncate_cuts_flattens_and_appends_ellipsis() {
    assert_eq!(truncate_content("Hello\nWorld", 5), "Hello...");
}

#[test]
fn truncate_appends_ellipsis_even_when_nothing_was_cut() {
    assert_eq!(truncate_content("Hi", 50), "Hi...");
}

#[test]
fn truncate_replaces_breaks_inside_the_kept_prefix() {
    assert_eq!(truncate_content("a\nb\nc", 4), "a b ...");
    assert_eq!(truncate_content("", 10), "...");
}

#[test]
fn strict_truncation_marks_only_real_cuts() {
    assert_eq!(truncate_content_strict("Hello\nWorld", 5), "Hello...");
    assert_eq!(truncate_content_strict("Hi", 50), "Hi");
    assert_eq!(truncate_content_strict("a\nb", 50), "a b");
}
