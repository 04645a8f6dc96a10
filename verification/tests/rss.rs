use streambreak::content::rss::{item_from_entry, items_from_feed_body, FeedEntry};
use streambreak::content::feed_check::body_is_safe_exec;

const RSS: &str = r#"<?xml version="1.0"?>
<rss version="2.0">
  <channel>
    <title>Sample</title>
    <link>https://example.com/</link>
    <description>d</description>
    <item>
      <title>Hello</title>
      <link>https://example.com/a</link>
      <pubDate>Mon, 01 Jan 2024 00:00:00 GMT</pubDate>
    </item>
    <item>
      <link>https://example.com/b</link>
    </item>
  </channel>
</rss>"#;

#[test]
fn parses_rss_items() {
    let items = items_from_feed_body(RSS.as_bytes(), "Sample", "*").ok().unwrap();
    assert_eq!(items.len(), 2);
    assert_eq!(items[0].title, "Hello");
    assert_eq!(items[0].url, "https://example.com/a");
    assert_eq!(items[0].source, "Sample");
    assert_eq!(items[0].icon, "*");
    assert_eq!(items[0].published_at, "2024-01-01T00:00:00+00:00");
    assert_eq!(items[1].title, "Untitled");
    assert_eq!(items[1].published_at, "");
}

#[test]
fn empty_body_is_an_error() {
    let err = items_from_feed_body(b"", "x", "y").err().unwrap();
    assert!(err.is_empty_response());
}

#[test]
fn garbage_is_a_parse_error() {
    let err = items_from_feed_body(b"not a feed", "x", "y").err().unwrap();
    assert!(!err.is_empty_response());
}

#[test]
fn entry_falls_back_to_update_time_and_empty_link() {
    let e = FeedEntry {
        title: None,
        link_hrefs: vec![],
        published: None,
        updated: Some("2024-02-02T00:00:00+00:00".to_string()),
    };
    let it = item_from_entry(e, "src", "icon");
    assert_eq!(it.title, "Untitled");
    assert_eq!(it.url, "");
    assert_eq!(it.published_at, "2024-02-02T00:00:00+00:00");
    let e = FeedEntry {
        title: Some("T".to_string()),
        link_hrefs: vec!["first".to_string(), "second".to_string()],
        published: Some("p".to_string()),
        updated: Some("u".to_string()),
    };
    let it = item_from_entry(e, "src", "icon");
    assert_eq!(it.url, "first");
    assert_eq!(it.published_at, "p");
}

const MEDIA: &str = r#"<?xml version="1.0"?>
<rss version="2.0" xmlns:media="http://search.yahoo.com/mrss/">
  <channel>
    <title>Sample</title>
    <item>
      <title>With thumbnail</title>
      <link>https://example.com/m</link>
      <media:thumbnail url="https://example.com/t.png" time="12:05:35.5"/>
    </item>
  </channel>
</rss>"#;

#[test]
fn ordinary_media_times_are_parsed() {
    let items = items_from_feed_body(MEDIA.as_bytes(), "Sample", "*").ok().unwrap();
    assert_eq!(items.len(), 1);
    assert_eq!(items[0].title, "With thumbnail");
}

#[test]
fn overlong_media_time_is_refused() {
    let body = MEDIA.replace("12:05:35.5", "99999999999999999999999");
    let err = items_from_feed_body(body.as_bytes(), "Sample", "*").err().unwrap();
    assert!(!err.is_empty_response());
    assert_eq!(err.message().unwrap(), "Feed holds a media time value that cannot be read safely");
}

#[test]
fn non_ascii_digits_in_a_duration_are_refused() {
    let body = MEDIA.replace(
        "<media:thumbnail url=\"https://example.com/t.png\" time=\"12:05:35.5\"/>",
        "<itunes:duration>\u{0663}</itunes:duration>",
    );
    assert!(items_from_feed_body(body.as_bytes(), "Sample", "*").is_err());
}

#[test]
fn empty_body_message() {
    let err = items_from_feed_body(b"", "x", "y").err().unwrap();
    assert_eq!(err.message().unwrap(), "Empty response from feed");
}

const PODCAST: &str = r#"<?xml version="1.0"?>
<rss version="2.0" xmlns:itunes="http://www.itunes.com/dtds/podcast-1.0.dtd">
  <channel>
    <title>Cast</title>
    <item><title>Episode</title><itunes:duration>12:34</itunes:duration><link>https://example.com/e</link><category legend="R&amp;D">rd</category></item>
  </channel>
</rss>"#;

#[test]
fn podcast_durations_and_longer_attribute_names_are_read() {
    assert!(body_is_safe_exec(PODCAST.as_bytes()));
    let items = items_from_feed_body(PODCAST.as_bytes(), "Cast", "*").ok().unwrap();
    assert_eq!(items.len(), 1);
    assert_eq!(items[0].title, "Episode");
    assert_eq!(items[0].url, "https://example.com/e");
}

#[test]
fn a_prefixed_attribute_name_is_not_a_media_time() {
    let body = MEDIA.replace("time=\"12:05:35.5\"", "x:time=\"\u{0663}\"");
    assert!(body_is_safe_exec(body.as_bytes()));
    let items = items_from_feed_body(body.as_bytes(), "Sample", "*").ok().unwrap();
    assert_eq!(items.len(), 1);
}

#[test]
fn a_duration_followed_by_a_comment_is_refused() {
    let body = PODCAST.replace("12:34</itunes:duration>", "12<!-- c -->\u{0663}</itunes:duration>");
    assert!(!body_is_safe_exec(body.as_bytes()));
    let err = items_from_feed_body(body.as_bytes(), "Cast", "*").err().unwrap();
    assert_eq!(err.message().unwrap(), "Feed holds a media time value that cannot be read safely");
}
