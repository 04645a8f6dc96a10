use streambreak::content::cache::{
    age_modifier_string, delete_old_statement, insert_statement, items_from_rows, schema_statement, unread_statement, upsert_arguments,
    Cache,
};
use streambreak::content::ContentItem;

fn item(title: &str, url: &str) -> ContentItem {
    ContentItem {
        title: title.to_string(),
        url: url.to_string(),
        source: "src".to_string(),
        icon: String::new(),
        published_at: String::new(),
    }
}

#[test]
fn test_upsert_and_read() {
    let cache = Cache::open_in_memory().unwrap();
    cache.upsert(&item("Hello", "https://example.com/1")).unwrap();
    let results = cache.get_unread(10).unwrap();
    assert_eq!(results.len(), 1);
    assert_eq!(results[0].title, "Hello");
    assert_eq!(results[0].url, "https://example.com/1");
}

#[test]
fn test_duplicate_url_ignored() {
    let cache = Cache::open_in_memory().unwrap();
    cache.upsert(&item("First", "https://example.com/dup")).unwrap();
    cache.upsert(&item("Second", "https://example.com/dup")).unwrap();
    let results = cache.get_unread(10).unwrap();
    assert_eq!(results.len(), 1);
}

#[test]
fn rows_keep_all_columns() {
    let cache = Cache::open_in_memory().unwrap();
    let it = ContentItem {
        title: "T".to_string(),
        url: "https://example.com/t".to_string(),
        source: "S".to_string(),
        icon: "I".to_string(),
        published_at: "2024-01-01T00:00:00+00:00".to_string(),
    };
    cache.upsert(&it).unwrap();
    let results = cache.get_unread(1).unwrap();
    assert_eq!(results[0].source, "S");
    assert_eq!(results[0].icon, "I");
    assert_eq!(results[0].published_at, "2024-01-01T00:00:00+00:00");
}

#[test]
fn unread_limit_is_applied() {
    let cache = Cache::open_in_memory().unwrap();
    for i in 0..5 {
        cache.upsert(&item("x", &format!("https://example.com/{i}"))).unwrap();
    }
    assert_eq!(cache.get_unread(3).unwrap().len(), 3);
    assert_eq!(cache.get_unread(10).unwrap().len(), 5);
}

#[test]
fn cleanup_keeps_fresh_items() {
    let cache = Cache::open_in_memory().unwrap();
    cache.upsert(&item("fresh", "https://example.com/f")).unwrap();
    cache.cleanup_old(30).unwrap();
    assert_eq!(cache.get_unread(10).unwrap().len(), 1);
}

#[test]
fn age_modifier_is_written_in_decimal() {
    assert_eq!(age_modifier_string(30), "-30 minutes");
    assert_eq!(age_modifier_string(0), "-0 minutes");
    assert_eq!(age_modifier_string(u64::MAX), format!("-{} minutes", u64::MAX));
}

#[test]
fn upsert_arguments_follow_the_columns() {
    let it = ContentItem {
        title: "T".to_string(),
        url: "U".to_string(),
        source: "S".to_string(),
        icon: "I".to_string(),
        published_at: "P".to_string(),
    };
    assert_eq!(upsert_arguments(&it), vec!["S", "T", "U", "I", "P"]);
}

#[test]
fn path_with_nul_cannot_be_opened() {
    assert!(Cache::open("cache\0.db").is_err());
}

#[test]
fn statements_are_the_cache_statements() {
    assert!(insert_statement().starts_with("INSERT OR IGNORE INTO items"));
    let (sql, bound) = unread_statement(3);
    assert!(sql.contains("WHERE read = 0 ORDER BY fetched_at DESC LIMIT ?1"));
    assert_eq!(bound, 3);
    assert_eq!(unread_statement(usize::MAX).1, -1);
    assert!(delete_old_statement().starts_with("DELETE FROM items"));
    assert!(schema_statement().contains("url TEXT NOT NULL UNIQUE"));
}

fn row(cols: [&str; 5]) -> Vec<String> {
    cols.iter().map(|c| c.to_string()).collect()
}

#[test]
fn rows_become_items_in_their_order() {
    let items = items_from_rows(vec![
        row(["T1", "https://a", "S1", "I1", "P1"]),
        row(["T2", "https://b", "S2", "I2", "P2"]),
    ]);
    assert_eq!(items.len(), 2);
    assert_eq!(items[0].title, "T1");
    assert_eq!(items[0].url, "https://a");
    assert_eq!(items[0].source, "S1");
    assert_eq!(items[0].icon, "I1");
    assert_eq!(items[0].published_at, "P1");
    assert_eq!(items[1].title, "T2");
    assert_eq!(items[1].url, "https://b");
    assert!(items_from_rows(vec![]).is_empty());
}

#[test]
fn unread_items_hold_every_stored_item() {
    let cache = Cache::open_in_memory().ok().unwrap();
    cache.upsert(&item("old", "https://old")).ok().unwrap();
    cache.upsert(&item("new", "https://new")).ok().unwrap();
    let items = cache.get_unread(10).ok().unwrap();
    assert_eq!(items.len(), 2);
    let titles: Vec<&str> = items.iter().map(|i| i.title.as_str()).collect();
    assert!(titles.contains(&"old") && titles.contains(&"new"));
}
