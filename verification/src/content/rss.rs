//! Turning the body of a news feed (RSS, Atom or JSON Feed) into items.
//!
//! Fetching the body over HTTP is left to the application; the parsing is
//! done by `feed_rs`, and what becomes of the parsed entries is stated here.

use vstd::prelude::*;
use crate::content::ContentItem;
use crate::content::feed_check::{body_is_safe, body_is_safe_exec};
use feed_rs::parser::ParseFeedError;

verus! {

/// Why a feed body gave no items.
#[verifier::external_type_specification]
#[verifier::external_body]
pub struct ExParseFeedError(ParseFeedError);

/// What the library reads of one parsed feed entry: the title text, the
/// addresses of its links in order, and its publication and update times
/// written in RFC 3339.
#[derive(Debug)]
pub struct FeedEntry {
    pub title: Option<String>,
    pub link_hrefs: Vec<String>,
    pub published: Option<String>,
    pub updated: Option<String>,
}

/// A feed entry as the contracts see it.
pub struct FeedEntryView {
    pub title: Option<Seq<char>>,
    pub link_hrefs: Seq<Seq<char>>,
    pub published: Option<Seq<char>>,
    pub updated: Option<Seq<char>>,
}

/// The text of an optional string.
pub open spec fn opt_view(s: Option<String>) -> Option<Seq<char>> {
    match s {
        Some(t) => Some(t@),
        None => None,
    }
}

impl View for FeedEntry {
    type V = FeedEntryView;

    open spec fn view(&self) -> FeedEntryView {
        FeedEntryView {
            title: opt_view(self.title),
            link_hrefs: self.link_hrefs@.map_values(|s: String| s@),
            published: opt_view(self.published),
            updated: opt_view(self.updated),
        }
    }
}

/// The entries that `feed_rs::parser::parse` finds in a body, as far as the
/// library reads them; `None` where it reports an error.
pub uninterp spec fn feed_entries_of(body: Seq<u8>) -> Option<Seq<FeedEntryView>>;

/// Calls `feed_rs::parser::parse` on the body and keeps, of each entry, the
/// title text, the link addresses, and the publication and update times in
/// RFC 3339 (`DateTime::to_rfc3339`). The contract claims only that the
/// outcome is determined by the bytes, under the name `feed_entries_of`:
/// the parser's behaviour is not restated. The parser panics on some media
/// time values (`parser::util::parse_npt`); `body_is_safe` leaves out every
/// body that could hold one (see `feed_check`).
#[verifier::external_body]
fn parse_feed(body: &[u8]) -> (r: Result<Vec<FeedEntry>, ParseFeedError>)
    requires
        body_is_safe(body@),
    ensures
        r matches Ok(v) ==> feed_entries_of(body@) == Some(v@.map_values(|e: FeedEntry| e@)),
        r is Err ==> feed_entries_of(body@) is None,
{
    let feed = feed_rs::parser::parse(body)?;
    Ok(feed.entries.into_iter().map(|e| FeedEntry {
        title: e.title.map(|t| t.content),
        link_hrefs: e.links.into_iter().map(|l| l.href).collect(),
        published: e.published.map(|d| d.to_rfc3339()),
        updated: e.updated.map(|d| d.to_rfc3339()),
    }).collect())
}

/// Why a feed gave no items.
pub enum FeedError {
    /// The body was empty.
    EmptyResponse,
    /// The body holds a media time value that the parser might not survive
    /// (see `feed_check`); it is not parsed.
    UnsafeTimeValue,
    /// The parser rejected the body.
    Parse(ParseFeedError),
}

impl FeedError {
    /// Whether the body was empty.
    pub fn is_empty_response(&self) -> (r: bool)
        ensures
            r == (*self is EmptyResponse),
    {
        match self {
            FeedError::EmptyResponse => true,
            _ => false,
        }
    }

    /// The message of the errors that the library finds itself; a parse
    /// error is described by the parser's own error.
    pub fn message(&self) -> (r: Option<String>)
        ensures
            *self is EmptyResponse ==> (r matches Some(m) && m@ == "Empty response from feed"@),
            *self is UnsafeTimeValue ==> (r matches Some(m) && m@ == "Feed holds a media time value that cannot be read safely"@),
            *self is Parse ==> r is None,
    {
        match self {
            FeedError::EmptyResponse => Some(String::from_str("Empty response from feed")),
            FeedError::UnsafeTimeValue => Some(String::from_str("Feed holds a media time value that cannot be read safely")),
            FeedError::Parse(_) => None,
        }
    }
}

/// The item for a feed entry from the named source: the title (or
/// `Untitled`), the first link (or nothing), and the publication time, else
/// the update time, else nothing.
pub open spec fn is_item_for(item: ContentItem, e: FeedEntryView, source: Seq<char>, icon: Seq<char>) -> bool {
    &&& item.title@ == (match e.title { Some(t) => t, None => "Untitled"@ })
    &&& item.url@ == (if e.link_hrefs.len() > 0 { e.link_hrefs[0] } else { Seq::empty() })
    &&& item.source@ == source
    &&& item.icon@ == icon
    &&& item.published_at@ == (match e.published {
        Some(p) => p,
        None => match e.updated {
            Some(u) => u,
            None => Seq::empty(),
        },
    })
}

/// `items` are the items for `entries`, one for one and in order.
pub open spec fn are_items_for(
    items: Seq<ContentItem>,
    entries: Seq<FeedEntryView>,
    source: Seq<char>,
    icon: Seq<char>,
) -> bool {
    &&& items.len() == entries.len()
    &&& forall|i: int| 0 <= i < items.len() ==> #[trigger] is_item_for(items[i], entries[i], source, icon)
}

/// The item for one feed entry.
pub fn item_from_entry(entry: FeedEntry, source_name: &str, icon: &str) -> (r: ContentItem)
    ensures
        is_item_for(r, entry@, source_name@, icon@),
{
    let ghost ev = entry@;
    let FeedEntry { title, link_hrefs, published, updated } = entry;
    let title = match title {
        Some(t) => t,
        None => String::from_str("Untitled"),
    };
    let url = if link_hrefs.len() > 0 {
        link_hrefs[0].clone()
    } else {
        String::new()
    };
    let published_at = match published {
        Some(p) => p,
        None => match updated {
            Some(u) => u,
            None => String::new(),
        },
    };
    ContentItem {
        title,
        url,
        source: String::from_str(source_name),
        icon: String::from_str(icon),
        published_at,
    }
}

/// The items for the feed entries, in order.
pub fn items_from_entries(entries: Vec<FeedEntry>, source_name: &str, icon: &str) -> (r: Vec<ContentItem>)
    ensures
        are_items_for(r@, entries@.map_values(|e: FeedEntry| e@), source_name@, icon@),
{
    let ghost orig = entries@;
    let ghost views = orig.map_values(|e: FeedEntry| e@);
    let mut rest = entries;
    let mut items: Vec<ContentItem> = Vec::new();
    let ghost mut i: int = 0;
    while rest.len() > 0
        invariant
            0 <= i <= orig.len(),
            rest@ == orig.skip(i),
            views == orig.map_values(|e: FeedEntry| e@),
            items@.len() == i,
            forall|k: int| 0 <= k < i ==> #[trigger] is_item_for(items@[k], views[k], source_name@, icon@),
        decreases rest.len(),
    {
        let e = rest.remove(0);
        proof {
            assert(e == orig[i]);
        }
        let item = item_from_entry(e, source_name, icon);
        items.push(item);
        proof {
            assert(rest@ =~= orig.skip(i + 1));
            i = i + 1;
        }
    }
    items
}

/// The items of a feed body from the named source: an error for an empty
/// body, for one that may hold a media time value the parser cannot
/// survive, or for one the parser rejects.
pub fn items_from_feed_body(body: &[u8], source_name: &str, icon: &str) -> (r: Result<Vec<ContentItem>, FeedError>)
    ensures
        body@.len() == 0 ==> r matches Err(FeedError::EmptyResponse),
        body@.len() > 0 && !body_is_safe(body@) ==> r matches Err(FeedError::UnsafeTimeValue),
        body@.len() > 0 && body_is_safe(body@) && feed_entries_of(body@) is None ==> r matches Err(FeedError::Parse(_)),
        body@.len() > 0 && body_is_safe(body@) && feed_entries_of(body@) is Some ==> (r matches Ok(items)
            && are_items_for(items@, feed_entries_of(body@)->0, source_name@, icon@)),
{
    if body.len() == 0 {
        return Err(FeedError::EmptyResponse);
    }
    if !body_is_safe_exec(body) {
        return Err(FeedError::UnsafeTimeValue);
    }
    match parse_feed(body) {
        Ok(entries) => Ok(items_from_entries(entries, source_name, icon)),
        Err(e) => Err(FeedError::Parse(e)),
    }
}

} // verus!
