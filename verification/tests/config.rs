use streambreak::config::{default_opacity_bits, Config};

#[test]
fn test_default_config() {
    let c = Config::default();
    assert_eq!(c.general.threshold_seconds, 30);
    assert_eq!(c.general.language, "en");
    assert_eq!(c.popup.width, 400);
    assert_eq!(c.popup.height, 500);
    assert_eq!(c.content.rotation_seconds, 15);
    assert_eq!(c.content.news.max_items, 10);
    assert_eq!(c.content.news.feeds_en.len(), 2);
    assert_eq!(c.content.news.feeds_en[0].name, "Hacker News");
    assert_eq!(c.content.news.feeds_en[1].name, "TechCrunch");
    assert_eq!(c.content.news.feeds_ko.len(), 1);
    assert_eq!(c.content.news.feeds_ko[0].name, "GeekNews");
}

#[test]
fn default_config_other_values() {
    let c = Config::default();
    assert!(c.general.auto_hide_on_complete);
    assert_eq!(c.general.fade_out_delay_ms, 3000);
    assert_eq!(c.popup.position, "bottom-right");
    assert_eq!(f64::from_bits(c.popup.opacity_bits), 0.95);
    assert_eq!(default_opacity_bits(), 0.95f64.to_bits());
    assert_eq!(c.content.types, vec!["news".to_string(), "games".to_string()]);
    assert_eq!(c.content.news.cache_ttl_minutes, 30);
    assert_eq!(c.content.news.feeds_en[0].url, "https://hnrss.org/frontpage");
    assert_eq!(c.content.news.feeds_en[0].icon, "\u{1f525}");
    assert_eq!(c.content.news.feeds_en[1].url, "https://techcrunch.com/feed/");
    assert_eq!(c.content.news.feeds_en[1].icon, "\u{1f4a1}");
    assert_eq!(c.content.news.feeds_ko[0].url, "https://news.hada.io/rss/news");
    assert_eq!(c.content.news.feeds_ko[0].icon, "\u{1f4f0}");
}

#[test]
fn cloned_config_keeps_values() {
    let mut c = Config::default();
    c.general.language = "ko".to_string();
    let d = c.clone();
    assert_eq!(d.general.language, "ko");
    assert_eq!(d.content.news.feeds_ko[0].name, "GeekNews");
    assert_eq!(d.popup.opacity_bits, c.popup.opacity_bits);
}
