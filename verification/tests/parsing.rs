use junkdrawer::bookmarks::{extract_description, extract_title, parse_metadata, BookmarkError};

#[test]
fn title_tag_wins_over_og_title() {
    let html = b"<head><meta property=\"og:title\" content=\"Social Title\">\
<title> Page Title </title></head>";
    assert_eq!(extract_title(html), Some(b"Page Title".to_vec()));
}

#[test]
fn og_title_is_used_when_no_title_tag() {
    let html = b"<head><meta property=\"og:title\" content=\" Social Title \"></head>";
    assert_eq!(extract_title(html), Some(b"Social Title".to_vec()));
}

#[test]
fn unclosed_title_tag_falls_back_to_og_title() {
    let html = b"<head><title>never closed <meta property=\"og:title\" content=\"Backup\">";
    assert_eq!(extract_title(html), Some(b"Backup".to_vec()));
}

#[test]
fn no_title_source_yields_none() {
    let html = b"<html><body><p>plain page</p></body></html>";
    assert_eq!(extract_title(html), None);
}

#[test]
fn description_meta_wins_over_og_description() {
    let html = b"<meta property=\"og:description\" content=\"og text\">\
<meta name=\"description\" content=\"meta text\">";
    assert_eq!(extract_description(html), Some(b"meta text".to_vec()));
}

#[test]
fn og_description_is_the_fallback() {
    let html = b"<meta property=\"og:description\" content=\"og text\">";
    assert_eq!(extract_description(html), Some(b"og text".to_vec()));
}

#[test]
fn parse_metadata_collects_title_description_and_url() {
    let html = b"<title>A page</title><meta name=\"description\" content=\"about it\">";
    let url = "https://example.org/a".to_string();
    let m = parse_metadata(&url, html).expect("title present");
    assert_eq!(m.title, b"A page".to_vec());
    assert_eq!(m.description, Some(b"about it".to_vec()));
    assert_eq!(m.url, "https://example.org/a");
    assert!(m.favicon_url.is_none());
}

#[test]
fn parse_metadata_without_title_is_no_title_error() {
    let url = "https://example.org/a".to_string();
    let r = parse_metadata(&url, b"<p>no sources</p>");
    assert!(matches!(r, Err(BookmarkError::NoTitle)));
}

#[test]
fn missing_description_is_not_an_error() {
    let url = "https://example.org/a".to_string();
    let m = parse_metadata(&url, b"<title>T</title>").expect("title present");
    assert!(m.description.is_none());
}
