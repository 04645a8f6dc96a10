//! News items and the manager that holds the current list of them.

pub mod cache;
pub mod feed_check;
pub mod rotation;
pub mod rss;
pub mod sorting;

use vstd::prelude::*;
use crate::config::{Config, FeedSource};
use crate::content::rotation::next_index;
use crate::content::sorting::{is_stable_newest_first, sort_newest_first};
use crate::text::str_equal;

verus! {

/// One news item, as shown in the popup.
#[derive(Debug)]
pub struct ContentItem {
    pub title: String,
    pub url: String,
    pub source: String,
    pub icon: String,
    pub published_at: String,
}

impl Clone for ContentItem {
    fn clone(&self) -> (r: Self)
        ensures
            r == *self,
    {
        ContentItem {
            title: self.title.clone(),
            url: self.url.clone(),
            source: self.source.clone(),
            icon: self.icon.clone(),
            published_at: self.published_at.clone(),
        }
    }
}


/// Why the manager could not start a refresh.
#[derive(Debug, PartialEq, Eq, Structural)]
pub enum ContentError {
    /// No configuration has been handed to the manager yet.
    ConfigNotSet,
}

impl ContentError {
    /// The message that the error is shown with.
    pub fn message(&self) -> (r: String)
        ensures
            r@ == "Config not set"@,
    {
        String::from_str("Config not set")
    }
}

/// All items of the fetched batches, batch after batch, each in its order.
pub open spec fn concat_batches(batches: Seq<Vec<ContentItem>>) -> Seq<ContentItem> {
    batches.map_values(|v: Vec<ContentItem>| v@).flatten()
}

/// The feeds that a refresh reads for a configuration: the Korean ones when
/// the language is exactly `ko`, else the English ones.
pub open spec fn feeds_for(config: Config) -> Seq<FeedSource> {
    if config.general.language@ == "ko"@ {
        config.content.news.feeds_ko@
    } else {
        config.content.news.feeds_en@
    }
}

/// What the manager holds: the configuration, the current items (newest
/// first) and the position of the next item to hand out.
pub struct ContentManager {
    config: Option<Config>,
    items: Vec<ContentItem>,
    cursor: usize,
}

impl ContentManager {
    /// The position of the next item always lies inside a non-empty list.
    #[verifier::type_invariant]
    spec fn cursor_in_range(&self) -> bool {
        self.items@.len() > 0 ==> self.cursor < self.items@.len()
    }

    /// The configuration last handed over, if any.
    pub closed spec fn config_view(&self) -> Option<Config> {
        self.config
    }

    /// The current items.
    pub closed spec fn items_view(&self) -> Seq<ContentItem> {
        self.items@
    }

    /// The position of the next item.
    pub closed spec fn cursor_view(&self) -> nat {
        self.cursor as nat
    }

    /// A manager with no configuration and no items.
    pub fn new_default() -> (r: Self)
        ensures
            r.config_view() is None,
            r.items_view().len() == 0,
            r.cursor_view() == 0,
    {
        ContentManager { config: None, items: Vec::new(), cursor: 0 }
    }

    /// Hands over a new configuration; the items stay as they are.
    pub fn update_config(&mut self, config: Config)
        ensures
            final(self).config_view() == Some(config),
            final(self).items_view() == old(self).items_view(),
            final(self).cursor_view() == old(self).cursor_view(),
    {
        proof {
            use_type_invariant(&*self);
        }
        self.config = Some(config);
    }

    /// The feeds that a refresh reads, in order; an error when no
    /// configuration has been handed over.
    pub fn feeds_to_refresh(&self) -> (r: Result<Vec<FeedSource>, ContentError>)
        ensures
            self.config_view() is None ==> r == Err::<Vec<FeedSource>, ContentError>(ContentError::ConfigNotSet),
            self.config_view() matches Some(c) ==> r matches Ok(v) && v@ == feeds_for(c),
    {
        match &self.config {
            None => Err(ContentError::ConfigNotSet),
            Some(config) => {
                if str_equal(config.general.language.as_str(), "ko") {
                    Ok(config.content.news.feeds_ko.clone())
                } else {
                    Ok(config.content.news.feeds_en.clone())
                }
            }
        }
    }

    /// Completes a refresh with the items fetched from each feed that
    /// answered, in feed order: they are sorted newest first (stably), cut
    /// to `max_items`, and the rotation starts again from the first of them.
    /// Without a configuration nothing changes and the error is returned.
    pub fn refresh(&mut self, fetched: Vec<Vec<ContentItem>>) -> (r: Result<(), ContentError>)
        ensures
            final(self).config_view() == old(self).config_view(),
            old(self).config_view() is None ==> r == Err::<(), ContentError>(ContentError::ConfigNotSet)
                && final(self).items_view() == old(self).items_view()
                && final(self).cursor_view() == old(self).cursor_view(),
            old(self).config_view() is Some ==> r is Ok && final(self).cursor_view() == 0
                && exists|sorted: Seq<ContentItem>|
                {
                    &&& is_stable_newest_first(sorted, concat_batches(fetched@))
                    &&& #[trigger] final(self).items_view() == sorted.take(
                        min_nat(
                            old(self).config_view()->0.content.news.max_items as nat,
                            sorted.len(),
                        ) as int,
                    )
                },
    {
        let max = match &self.config {
            Some(c) => c.content.news.max_items,
            None => return Err(ContentError::ConfigNotSet),
        };
        let ghost batches = fetched@;
        let mut rest = fetched;
        let mut all: Vec<ContentItem> = Vec::new();
        let ghost mut done: int = 0;
        while rest.len() > 0
            invariant
                0 <= done <= batches.len(),
                rest@ == batches.skip(done),
                all@ == concat_batches(batches.take(done)),
            decreases rest.len(),
        {
            let mut batch = rest.remove(0);
            proof {
                assert(batches.take(done + 1).map_values(|v: Vec<ContentItem>| v@)
                    =~= batches.take(done).map_values(|v: Vec<ContentItem>| v@).push(batch@));
                batches.take(done).map_values(|v: Vec<ContentItem>| v@).lemma_flatten_push(batch@);
                assert(rest@ =~= batches.skip(done + 1));
            }
            all.append(&mut batch);
            proof {
                done = done + 1;
            }
        }
        proof {
            assert(batches.take(done) =~= batches);
        }
        let mut sorted = sort_newest_first(all);
        let ghost full = sorted@;
        sorted.truncate(max);
        self.cursor = 0;
        self.items = sorted;
        proof {
            assert(self.items@ == full.take(min_nat(max as nat, full.len()) as int));
        }
        Ok(())
    }

    /// Whether the feeds must be fetched (and handed to `refresh`) before
    /// items are asked for: there are no items but there is a
    /// configuration to fetch by. With neither, asking for items gives
    /// `ConfigNotSet` without fetching anything.
    pub fn needs_fetch(&self) -> (r: bool)
        ensures
            r == (self.items_view().len() == 0 && self.config_view() is Some),
    {
        self.items.len() == 0 && self.config.is_some()
    }

    /// A copy of the current items; with no items and no configuration the
    /// refresh that would come first fails with `ConfigNotSet`.
    pub fn get_items(&self) -> (r: Result<Vec<ContentItem>, ContentError>)
        ensures
            self.items_view().len() == 0 && self.config_view() is None
                ==> r == Err::<Vec<ContentItem>, ContentError>(ContentError::ConfigNotSet),
            !(self.items_view().len() == 0 && self.config_view() is None)
                ==> (r matches Ok(v) && v@ == self.items_view()),
    {
        if self.items.len() == 0 && self.config.is_none() {
            return Err(ContentError::ConfigNotSet);
        }
        let r = self.items.clone();
        proof {
            assert(r@ =~= self.items@);
        }
        Ok(r)
    }

    /// Hands out the item at the cursor and moves the cursor on, back to
    /// the first item after the last; `None` when there are no items. With
    /// no items and no configuration the refresh that would come first fails
    /// with `ConfigNotSet`, and nothing changes.
    pub fn next_item(&mut self) -> (r: Result<Option<ContentItem>, ContentError>)
        ensures
            final(self).config_view() == old(self).config_view(),
            final(self).items_view() == old(self).items_view(),
            final(self).cursor_view() == next_index(old(self).cursor_view(), old(self).items_view().len()),
            old(self).items_view().len() == 0 && old(self).config_view() is None
                ==> r == Err::<Option<ContentItem>, ContentError>(ContentError::ConfigNotSet),
            old(self).items_view().len() == 0 && old(self).config_view() is Some
                ==> r == Ok::<Option<ContentItem>, ContentError>(None),
            old(self).items_view().len() > 0
                ==> r == Ok::<Option<ContentItem>, ContentError>(Some(old(self).items_view()[old(self).cursor_view() as int])),
    {
        proof {
            use_type_invariant(&*self);
        }
        if self.items.len() == 0 {
            if self.config.is_none() {
                return Err(ContentError::ConfigNotSet);
            }
            return Ok(None);
        }
        let item = self.items[self.cursor].clone();
        self.cursor = (self.cursor + 1) % self.items.len();
        Ok(Some(item))
    }

    /// Whether there are no items.
    pub fn is_empty(&self) -> (r: bool)
        ensures
            r == (self.items_view().len() == 0),
    {
        self.items.len() == 0
    }

    /// The position of the next item.
    pub fn cursor(&self) -> (r: usize)
        ensures
            r == self.cursor_view(),
    {
        self.cursor
    }

    /// Replaces the items and keeps the cursor, which must still point into
    /// the new list when that list is not empty.
    pub fn set_items(&mut self, items: Vec<ContentItem>)
        requires
            items@.len() > 0 ==> old(self).cursor_view() < items@.len(),
        ensures
            final(self).items_view() == items@,
            final(self).cursor_view() == old(self).cursor_view(),
            final(self).config_view() == old(self).config_view(),
    {
        self.items = items;
    }
}

/// The smaller of two natural numbers.
pub open spec fn min_nat(a: nat, b: nat) -> nat {
    if a <= b { a } else { b }
}

} // verus!
