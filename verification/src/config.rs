//! The user configuration (`~/.streambreak/config.toml`) and its defaults.
//!
//! Reading and writing the file stays with the application; this module
//! holds the values and states what every default is.

use vstd::prelude::*;

verus! {

/// The whole configuration.
#[derive(Debug)]
pub struct Config {
    pub general: GeneralConfig,
    pub popup: PopupConfig,
    pub content: ContentConfig,
}

/// Idle threshold, auto-hide and language.
#[derive(Debug)]
pub struct GeneralConfig {
    pub threshold_seconds: u64,
    pub auto_hide_on_complete: bool,
    pub fade_out_delay_ms: u64,
    pub language: String,
}

/// Size, placement and opacity of the popup window.
#[derive(Debug)]
pub struct PopupConfig {
    pub width: u32,
    pub height: u32,
    pub position: String,
    /// The opacity, an `f64` in the file, held here as its IEEE 754 bit
    /// pattern (`f64::to_bits`), so that the library holds no float.
    pub opacity_bits: u64,
}

/// Which content to rotate and how often.
#[derive(Debug)]
pub struct ContentConfig {
    pub rotation_seconds: u64,
    pub types: Vec<String>,
    pub news: NewsConfig,
}

/// The news feeds per language and how many items to keep.
#[derive(Debug)]
pub struct NewsConfig {
    pub feeds_en: Vec<FeedSource>,
    pub feeds_ko: Vec<FeedSource>,
    pub max_items: usize,
    pub cache_ttl_minutes: u64,
}

/// One news feed.
#[derive(Debug)]
pub struct FeedSource {
    pub name: String,
    pub url: String,
    pub icon: String,
}

impl Clone for FeedSource {
    fn clone(&self) -> (r: Self)
        ensures
            r == *self,
    {
        FeedSource { name: self.name.clone(), url: self.url.clone(), icon: self.icon.clone() }
    }
}

impl Clone for GeneralConfig {
    fn clone(&self) -> (r: Self)
        ensures
            r == *self,
    {
        GeneralConfig {
            threshold_seconds: self.threshold_seconds,
            auto_hide_on_complete: self.auto_hide_on_complete,
            fade_out_delay_ms: self.fade_out_delay_ms,
            language: self.language.clone(),
        }
    }
}

impl Clone for PopupConfig {
    fn clone(&self) -> (r: Self)
        ensures
            r == *self,
    {
        PopupConfig {
            width: self.width,
            height: self.height,
            position: self.position.clone(),
            opacity_bits: self.opacity_bits,
        }
    }
}

/// The two news sections hold the same values.
pub open spec fn same_news(a: NewsConfig, b: NewsConfig) -> bool {
    &&& a.feeds_en@ == b.feeds_en@
    &&& a.feeds_ko@ == b.feeds_ko@
    &&& a.max_items == b.max_items
    &&& a.cache_ttl_minutes == b.cache_ttl_minutes
}

/// The two content sections hold the same values.
pub open spec fn same_content(a: ContentConfig, b: ContentConfig) -> bool {
    &&& a.rotation_seconds == b.rotation_seconds
    &&& a.types@ == b.types@
    &&& same_news(a.news, b.news)
}

/// The two configurations hold the same values.
pub open spec fn same_config(a: Config, b: Config) -> bool {
    a.general == b.general && a.popup == b.popup && same_content(a.content, b.content)
}

impl Clone for NewsConfig {
    fn clone(&self) -> (r: Self)
        ensures
            same_news(r, *self),
    {
        NewsConfig {
            feeds_en: self.feeds_en.clone(),
            feeds_ko: self.feeds_ko.clone(),
            max_items: self.max_items,
            cache_ttl_minutes: self.cache_ttl_minutes,
        }
    }
}

impl Clone for ContentConfig {
    fn clone(&self) -> (r: Self)
        ensures
            same_content(r, *self),
    {
        ContentConfig {
            rotation_seconds: self.rotation_seconds,
            types: self.types.clone(),
            news: self.news.clone(),
        }
    }
}

impl Clone for Config {
    fn clone(&self) -> (r: Self)
        ensures
            same_config(r, *self),
    {
        Config {
            general: self.general.clone(),
            popup: self.popup.clone(),
            content: self.content.clone(),
        }
    }
}

/// `f` is the feed with this name, address and icon.
pub open spec fn is_feed(f: FeedSource, name: Seq<char>, url: Seq<char>, icon: Seq<char>) -> bool {
    f.name@ == name && f.url@ == url && f.icon@ == icon
}

/// The default English feeds: Hacker News, then TechCrunch.
pub open spec fn is_default_feeds_en(s: Seq<FeedSource>) -> bool {
    &&& s.len() == 2
    &&& is_feed(s[0], "Hacker News"@, "https://hnrss.org/frontpage"@, "\u{1f525}"@)
    &&& is_feed(s[1], "TechCrunch"@, "https://techcrunch.com/feed/"@, "\u{1f4a1}"@)
}

/// The default Korean feeds: GeekNews.
pub open spec fn is_default_feeds_ko(s: Seq<FeedSource>) -> bool {
    &&& s.len() == 1
    &&& is_feed(s[0], "GeekNews"@, "https://news.hada.io/rss/news"@, "\u{1f4f0}"@)
}

/// The bit pattern of the default opacity, `0.95_f64`.
pub open spec fn default_opacity_bits_value() -> u64 {
    0x3FEE666666666666
}

/// The default general section.
pub open spec fn is_default_general(g: GeneralConfig) -> bool {
    &&& g.threshold_seconds == 30
    &&& g.auto_hide_on_complete
    &&& g.fade_out_delay_ms == 3000
    &&& g.language@ == "en"@
}

/// The default popup section.
pub open spec fn is_default_popup(p: PopupConfig) -> bool {
    &&& p.width == 400
    &&& p.height == 500
    &&& p.position@ == "bottom-right"@
    &&& p.opacity_bits == default_opacity_bits_value()
}

/// The default content types: news, then games.
pub open spec fn is_default_types(t: Seq<String>) -> bool {
    t.len() == 2 && t[0]@ == "news"@ && t[1]@ == "games"@
}

/// The default news section.
pub open spec fn is_default_news(n: NewsConfig) -> bool {
    &&& is_default_feeds_en(n.feeds_en@)
    &&& is_default_feeds_ko(n.feeds_ko@)
    &&& n.max_items == 10
    &&& n.cache_ttl_minutes == 30
}

/// The default content section.
pub open spec fn is_default_content(c: ContentConfig) -> bool {
    &&& c.rotation_seconds == 15
    &&& is_default_types(c.types@)
    &&& is_default_news(c.news)
}

/// The default configuration.
pub open spec fn is_default_config(c: Config) -> bool {
    is_default_general(c.general) && is_default_popup(c.popup) && is_default_content(c.content)
}

fn feed(name: &str, url: &str, icon: &str) -> (r: FeedSource)
    ensures
        is_feed(r, name@, url@, icon@),
{
    FeedSource { name: String::from_str(name), url: String::from_str(url), icon: String::from_str(icon) }
}

/// The general section used when the file has none.
pub fn default_general() -> (r: GeneralConfig)
    ensures
        is_default_general(r),
{
    GeneralConfig {
        threshold_seconds: default_threshold(),
        auto_hide_on_complete: default_true(),
        fade_out_delay_ms: default_fade_out(),
        language: default_language(),
    }
}

/// The popup section used when the file has none.
pub fn default_popup() -> (r: PopupConfig)
    ensures
        is_default_popup(r),
{
    PopupConfig {
        width: default_width(),
        height: default_height(),
        position: default_position(),
        opacity_bits: default_opacity_bits(),
    }
}

/// The content section used when the file has none.
pub fn default_content() -> (r: ContentConfig)
    ensures
        is_default_content(r),
{
    ContentConfig {
        rotation_seconds: default_rotation(),
        types: default_types(),
        news: NewsConfig::default(),
    }
}

impl Default for NewsConfig {
    fn default() -> (r: Self)
        ensures
            is_default_news(r),
    {
        NewsConfig {
            feeds_en: default_feeds_en(),
            feeds_ko: default_feeds_ko(),
            max_items: default_max_items(),
            cache_ttl_minutes: default_cache_ttl(),
        }
    }
}

/// Hacker News and TechCrunch.
pub fn default_feeds_en() -> (r: Vec<FeedSource>)
    ensures
        is_default_feeds_en(r@),
{
    let mut v = Vec::new();
    v.push(feed("Hacker News", "https://hnrss.org/frontpage", "\u{1f525}"));
    v.push(feed("TechCrunch", "https://techcrunch.com/feed/", "\u{1f4a1}"));
    v
}

/// GeekNews.
pub fn default_feeds_ko() -> (r: Vec<FeedSource>)
    ensures
        is_default_feeds_ko(r@),
{
    let mut v = Vec::new();
    v.push(feed("GeekNews", "https://news.hada.io/rss/news", "\u{1f4f0}"));
    v
}

/// 30 seconds of waiting before the popup.
pub fn default_threshold() -> (r: u64)
    ensures
        r == 30,
{
    30
}

/// `true`.
pub fn default_true() -> (r: bool)
    ensures
        r,
{
    true
}

/// 3000 ms of fading out.
pub fn default_fade_out() -> (r: u64)
    ensures
        r == 3000,
{
    3000
}

/// English.
pub fn default_language() -> (r: String)
    ensures
        r@ == "en"@,
{
    String::from_str("en")
}

/// 400 pixels wide.
pub fn default_width() -> (r: u32)
    ensures
        r == 400,
{
    400
}

/// 500 pixels high.
pub fn default_height() -> (r: u32)
    ensures
        r == 500,
{
    500
}

/// The bottom right corner.
pub fn default_position() -> (r: String)
    ensures
        r@ == "bottom-right"@,
{
    String::from_str("bottom-right")
}

/// The bit pattern of an opacity of `0.95`.
pub fn default_opacity_bits() -> (r: u64)
    ensures
        r == default_opacity_bits_value(),
{
    0x3FEE666666666666
}

/// 15 seconds per item.
pub fn default_rotation() -> (r: u64)
    ensures
        r == 15,
{
    15
}

/// News, then games.
pub fn default_types() -> (r: Vec<String>)
    ensures
        is_default_types(r@),
{
    let mut v = Vec::new();
    v.push(String::from_str("news"));
    v.push(String::from_str("games"));
    v
}

/// Ten news items at most.
pub fn default_max_items() -> (r: usize)
    ensures
        r == 10,
{
    10
}

/// Cached items live 30 minutes.
pub fn default_cache_ttl() -> (r: u64)
    ensures
        r == 30,
{
    30
}

impl Default for Config {
    fn default() -> (r: Self)
        ensures
            is_default_config(r),
    {
        Config { general: default_general(), popup: default_popup(), content: default_content() }
    }
}

} // verus!
