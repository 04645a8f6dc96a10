use streambreak::config::Config;
use streambreak::content::sorting::sort_newest_first;
use streambreak::content::{ContentError, ContentItem, ContentManager};

fn make_item(title: &str) -> ContentItem {
    ContentItem {
        title: title.to_string(),
        url: format!("https://example.com/{title}"),
        source: "test".to_string(),
        icon: String::new(),
        published_at: String::new(),
    }
}

fn dated(title: &str, published_at: &str) -> ContentItem {
    ContentItem {
        title: title.to_string(),
        url: format!("https://example.com/{title}"),
        source: "test".to_string(),
        icon: String::new(),
        published_at: published_at.to_string(),
    }
}

fn titles(items: &[ContentItem]) -> Vec<String> {
    items.iter().map(|i| i.title.clone()).collect()
}

#[test]
fn test_new_default_empty() {
    let mgr = ContentManager::new_default();
    assert!(mgr.is_empty());
    assert_eq!(mgr.cursor(), 0);
}

#[test]
fn test_cursor_rotation() {
    let mut mgr = ContentManager::new_default();
    mgr.set_items(vec![make_item("a"), make_item("b"), make_item("c")]);

    let r0 = mgr.next_item().unwrap().unwrap();
    let r1 = mgr.next_item().unwrap().unwrap();
    let r2 = mgr.next_item().unwrap().unwrap();
    let r3 = mgr.next_item().unwrap().unwrap();

    assert_eq!(r0.title, "a");
    assert_eq!(r1.title, "b");
    assert_eq!(r2.title, "c");
    assert_eq!(r3.title, "a");
}

#[test]
fn next_item_on_fresh_manager_needs_a_config() {
    let mut mgr = ContentManager::new_default();
    assert!(!mgr.needs_fetch());
    let err = mgr.next_item().unwrap_err();
    assert_eq!(err.message(), "Config not set");
    assert!(mgr.is_empty());
    assert_eq!(mgr.cursor(), 0);
    assert_eq!(mgr.get_items().unwrap_err(), ContentError::ConfigNotSet);
}

#[test]
fn empty_manager_with_config_asks_for_a_fetch() {
    let mut mgr = ContentManager::new_default();
    mgr.update_config(Config::default());
    assert!(mgr.needs_fetch());
    assert!(matches!(mgr.next_item(), Ok(None)));
    assert!(mgr.get_items().unwrap().is_empty());
    mgr.set_items(vec![make_item("a")]);
    assert!(!mgr.needs_fetch());
}

#[test]
fn refresh_needs_a_config() {
    let mgr = ContentManager::new_default();
    let err = mgr.feeds_to_refresh().unwrap_err();
    assert_eq!(err, ContentError::ConfigNotSet);
    assert_eq!(err.message(), "Config not set");
}

#[test]
fn refresh_reads_feeds_of_the_language() {
    let mut mgr = ContentManager::new_default();
    let mut config = Config::default();
    mgr.update_config(config.clone());
    let feeds = mgr.feeds_to_refresh().unwrap();
    assert_eq!(feeds.len(), 2);
    assert_eq!(feeds[0].name, "Hacker News");
    config.general.language = "ko".to_string();
    mgr.update_config(config.clone());
    let feeds = mgr.feeds_to_refresh().unwrap();
    assert_eq!(feeds.len(), 1);
    assert_eq!(feeds[0].name, "GeekNews");
    config.general.language = "kor".to_string();
    mgr.update_config(config);
    assert_eq!(mgr.feeds_to_refresh().unwrap()[0].name, "Hacker News");
}

#[test]
fn sort_is_newest_first_and_stable() {
    let items = vec![
        dated("old", "2024-01-01T00:00:00+00:00"),
        dated("new1", "2024-03-01T00:00:00+00:00"),
        dated("none", ""),
        dated("mid", "2024-02-01T00:00:00+00:00"),
        dated("new2", "2024-03-01T00:00:00+00:00"),
    ];
    let sorted = sort_newest_first(items);
    assert_eq!(titles(&sorted), vec!["new1", "new2", "mid", "old", "none"]);
}

#[test]
fn finish_refresh_merges_sorts_and_cuts() {
    let mut mgr = ContentManager::new_default();
    let mut config = Config::default();
    config.content.news.max_items = 3;
    mgr.update_config(config);
    mgr.set_items(vec![make_item("x"), make_item("y")]);
    assert_eq!(mgr.next_item().unwrap().unwrap().title, "x");
    assert_eq!(mgr.cursor(), 1);
    let hn = vec![dated("h1", "2024-05-02"), dated("h2", "2024-05-01")];
    let tc = vec![dated("t1", "2024-05-03"), dated("t2", "2024-05-02"), dated("t3", "2024-04-30")];
    mgr.refresh(vec![hn, tc]).unwrap();
    assert_eq!(mgr.cursor(), 0);
    assert_eq!(titles(&mgr.get_items().unwrap()), vec!["t1", "h1", "t2"]);
    assert_eq!(mgr.next_item().unwrap().unwrap().title, "t1");
}

#[test]
fn finish_refresh_with_nothing_fetched_empties() {
    let mut mgr = ContentManager::new_default();
    mgr.update_config(Config::default());
    mgr.set_items(vec![make_item("x")]);
    mgr.refresh(vec![]).unwrap();
    assert!(mgr.is_empty());
    assert!(matches!(mgr.next_item(), Ok(None)));
}

#[test]
fn cloned_item_is_equal() {
    let a = dated("a", "2024");
    let b = a.clone();
    assert_eq!(a.title, b.title);
    assert_eq!(a.url, b.url);
    assert_eq!(a.published_at, b.published_at);
}

#[test]
fn refresh_without_config_is_an_error() {
    let mut mgr = ContentManager::new_default();
    mgr.set_items(vec![make_item("x")]);
    assert_eq!(mgr.refresh(vec![vec![make_item("y")]]), Err(ContentError::ConfigNotSet));
    assert_eq!(titles(&mgr.get_items().unwrap()), vec!["x"]);
}
