//! The clipboard manager: turns capture events into store inserts (with the
//! pre-insert retention eviction), and serves history, search, tagging,
//! retention and settings requests.

use vstd::prelude::*;
use crate::hasher::{content_hash, content_hash_of};
use crate::models::{
    AppSettings, ClearHistoryRequest, ClipboardContentType, ClipboardItem, ClipboardMetadata,
    GetHistoryRequest, ItemView, SearchRequest, opt_metadata, opt_text, opt_texts, same_settings,
    texts, views,
};
use crate::storage::{
    Database, StoreError, StoreView, add_outcome, cleared, most_recent, now_micros, page,
    search_result, stored,
};

verus! {

/// Page size used when a history or search request gives no limit.
pub const DEFAULT_LIMIT: i64 = 100;

/// How many of the most recent rows an export holds.
pub const EXPORT_LIMIT: i64 = 10000;

/// The store after the pre-insert eviction: when it holds `max` rows or
/// more (and `max` is at least 1), only the `max - 1` most recent remain.
pub open spec fn evicted(s: StoreView, max: i64) -> StoreView {
    if max >= 1 && s.rows.len() >= max {
        StoreView { rows: most_recent(s.rows, (max - 1) as i64), ..s }
    } else {
        s
    }
}

/// A capture: the pre-insert eviction, then the deduplicating insert.
pub open spec fn capture_outcome(s: StoreView, max: i64, item: ItemView, auto_sort: bool) -> (StoreView, Result<i64, StoreError>) {
    add_outcome(evicted(s, max), item, auto_sort)
}

/// The item that a capture builds, before it has an id.
pub open spec fn new_item(
    content_type: ClipboardContentType,
    content: Seq<char>,
    file_paths: Option<Seq<Seq<char>>>,
    thumbnail_path: Option<Seq<char>>,
    metadata: Option<crate::models::MetadataView>,
    now: i64,
) -> ItemView {
    ItemView {
        id: 0,
        content_type: content_type,
        content: content,
        created_at: now,
        content_hash: content_hash_of(content, match file_paths { Some(p) => p, None => Seq::empty() }),
        metadata: metadata,
        file_paths: file_paths,
        thumbnail_path: thumbnail_path,
        tags: None,
    }
}

/// What a capture returns: the item under the id that the store gave it.
pub open spec fn capture_result(
    r: Result<Option<ClipboardItem>, String>,
    outcome: Result<i64, StoreError>,
    item: ItemView,
) -> bool {
    match outcome {
        Ok(id) => r is Ok && r->Ok_0 is Some && r->Ok_0->Some_0@ == stored(item, id),
        Err(_) => r is Err,
    }
}

/// The content type and content of a text capture: the HTML when there is
/// some, else the plain text.
pub open spec fn text_capture_content(text: Seq<char>, html: Option<String>) -> (ClipboardContentType, Seq<char>) {
    match html {
        Some(h) => (ClipboardContentType::Html, h@),
        None => (ClipboardContentType::Text, text),
    }
}

/// The item that a text capture at time `now` builds.
pub open spec fn text_item(text: Seq<char>, html: Option<String>, now: i64) -> ItemView {
    let (ct, content) = text_capture_content(text, html);
    new_item(ct, content, None, None, None, now)
}

/// The effect of importing items one after the other, each inserted with
/// `auto_sort` on: the final store and how many inserts succeeded.
pub open spec fn import_outcome(s: StoreView, items: Seq<ItemView>) -> (StoreView, int)
    decreases items.len(),
{
    if items.len() == 0 {
        (s, 0)
    } else {
        let before = import_outcome(s, items.drop_last());
        let step = add_outcome(before.0, items.last(), true);
        (step.0, before.1 + if step.1 is Ok { 1int } else { 0int })
    }
}

/// Drives the store for the user interface.
pub struct ClipboardManager {
    database: Database,
    settings: AppSettings,
}

impl ClipboardManager {
    /// The store's value.
    pub closed spec fn store(&self) -> StoreView {
        self.database@
    }

    /// The settings that captures read.
    pub closed spec fn current_settings(&self) -> AppSettings {
        self.settings
    }

    pub fn new(database: Database, settings: AppSettings) -> (r: ClipboardManager)
        ensures
            r.store() == database@,
            r.current_settings() == settings,
    {
        ClipboardManager { database, settings }
    }

    /// The store, for reading.
    pub fn database(&self) -> (r: &Database)
        ensures
            r@ == self.store(),
    {
        &self.database
    }

    /// The store, given back.
    pub fn into_database(self) -> (r: Database)
        ensures
            r@ == self.store(),
    {
        self.database
    }

    /// Evicts if the store is full, then inserts `item` with the current
    /// `auto_sort` setting, and returns the item under its id.
    fn capture(&mut self, item: ClipboardItem) -> (r: Result<Option<ClipboardItem>, String>)
        ensures
            final(self).current_settings() == old(self).current_settings(),
            final(self).store() == capture_outcome(old(self).store(), old(self).current_settings().max_history_count, item@, old(self).current_settings().auto_sort).0,
            capture_result(r, capture_outcome(old(self).store(), old(self).current_settings().max_history_count, item@, old(self).current_settings().auto_sort).1, item@),
    {
        let max = self.settings.max_history_count;
        let auto_sort = self.settings.auto_sort;
        let count = self.database.get_count();
        if max >= 1 && count >= max {
            let cleanup = ClearHistoryRequest { keep_count: Some(max - 1), keep_days: None };
            // a count-based clearing does not read the time
            self.database.clear_history_at(&cleanup, 0);
        }
        match self.database.add_clipboard_item(&item, auto_sort) {
            Ok(id) => {
                let mut item_with_id = item;
                item_with_id.id = id;
                Ok(Some(item_with_id))
            },
            Err(_) => Err(String::from_str("every row id is in use")),
        }
    }

    /// Records a capture of any content type at time `now` (microseconds
    /// since the epoch). The fingerprint covers the content and then each
    /// file path.
    pub fn handle_clipboard_change_extended_at(
        &mut self,
        content_type: ClipboardContentType,
        content: String,
        file_paths: Option<Vec<String>>,
        thumbnail_path: Option<String>,
        metadata: Option<ClipboardMetadata>,
        now: i64,
    ) -> (r: Result<Option<ClipboardItem>, String>)
        ensures
            ({
                let item = new_item(content_type, content@, opt_texts(file_paths), opt_text(thumbnail_path), opt_metadata(metadata), now);
                let out = capture_outcome(old(self).store(), old(self).current_settings().max_history_count, item, old(self).current_settings().auto_sort);
                &&& final(self).store() == out.0
                &&& capture_result(r, out.1, item)
            }),
            final(self).current_settings() == old(self).current_settings(),
    {
        let empty: Vec<String> = Vec::new();
        let hash = match &file_paths {
            Some(paths) => content_hash(content.as_str(), paths),
            None => content_hash(content.as_str(), &empty),
        };
        proof {
            assert(texts(empty@) =~= Seq::<Seq<char>>::empty());
        }
        let item = ClipboardItem {
            id: 0,
            content_type,
            content,
            created_at: now,
            content_hash: hash,
            metadata,
            file_paths,
            thumbnail_path,
            tags: None,
        };
        self.capture(item)
    }

    /// Records a text capture at time `now`: the HTML form when there is
    /// one, else the plain text.
    pub fn handle_clipboard_change_at(&mut self, text: String, html: Option<String>, now: i64) -> (r: Result<Option<ClipboardItem>, String>)
        ensures
            ({
                let item = text_item(text@, html, now);
                let out = capture_outcome(old(self).store(), old(self).current_settings().max_history_count, item, old(self).current_settings().auto_sort);
                &&& final(self).store() == out.0
                &&& capture_result(r, out.1, item)
            }),
            final(self).current_settings() == old(self).current_settings(),
    {
        let (content_type, content) = match html {
            Some(h) => (ClipboardContentType::Html, h),
            None => (ClipboardContentType::Text, text),
        };
        self.handle_clipboard_change_extended_at(content_type, content, None, None, None, now)
    }

    /// Records a text capture at the current time.
    pub fn handle_clipboard_change(&mut self, text: String, html: Option<String>) -> (r: Result<Option<ClipboardItem>, String>)
        ensures
            exists|now: i64| {
                let item = #[trigger] text_item(text@, html, now);
                let out = capture_outcome(old(self).store(), old(self).current_settings().max_history_count, item, old(self).current_settings().auto_sort);
                &&& final(self).store() == out.0
                &&& capture_result(r, out.1, item)
            },
            final(self).current_settings() == old(self).current_settings(),
    {
        let now = now_micros();
        self.handle_clipboard_change_at(text, html, now)
    }

    /// Records a capture of any content type at the current time.
    pub fn handle_clipboard_change_extended(
        &mut self,
        content_type: ClipboardContentType,
        content: String,
        file_paths: Option<Vec<String>>,
        thumbnail_path: Option<String>,
        metadata: Option<ClipboardMetadata>,
    ) -> (r: Result<Option<ClipboardItem>, String>)
        ensures
            exists|now: i64| {
                let item = #[trigger] new_item(content_type, content@, opt_texts(file_paths), opt_text(thumbnail_path), opt_metadata(metadata), now);
                let out = capture_outcome(old(self).store(), old(self).current_settings().max_history_count, item, old(self).current_settings().auto_sort);
                &&& final(self).store() == out.0
                &&& capture_result(r, out.1, item)
            },
            final(self).current_settings() == old(self).current_settings(),
    {
        let now = now_micros();
        self.handle_clipboard_change_extended_at(content_type, content, file_paths, thumbnail_path, metadata, now)
    }

    /// A page of history; the limit defaults to 100 and the offset to 0.
    pub fn get_history(&self, request: GetHistoryRequest) -> (r: Result<Vec<ClipboardItem>, String>)
        ensures
            r is Ok,
            views(r->Ok_0@) == page(
                self.store().rows,
                match request.limit { Some(l) => l, None => DEFAULT_LIMIT },
                match request.offset { Some(o) => o, None => 0 },
            ),
    {
        let limit = match request.limit {
            Some(l) => l,
            None => DEFAULT_LIMIT,
        };
        let offset = match request.offset {
            Some(o) => o,
            None => 0,
        };
        Ok(self.database.get_history(limit, offset))
    }

    /// A search; the limit defaults to 100.
    pub fn search_history(&self, request: SearchRequest) -> (r: Result<Vec<ClipboardItem>, String>)
        ensures
            r is Ok,
            views(r->Ok_0@) == search_result(
                self.store().rows,
                request.query@,
                match request.limit { Some(l) => l, None => DEFAULT_LIMIT },
            ),
    {
        let limit = match request.limit {
            Some(l) => l,
            None => DEFAULT_LIMIT,
        };
        Ok(self.database.search_history(request.query.as_str(), limit))
    }

    /// Removes the row with this id, if any.
    pub fn delete_item(&mut self, id: i64) -> (r: Result<(), String>)
        ensures
            r is Ok,
            final(self).store() == (StoreView {
                rows: if crate::storage::has_id(old(self).store().rows, id) {
                    old(self).store().rows.remove(crate::storage::id_index(old(self).store().rows, id))
                } else {
                    old(self).store().rows
                },
                ..old(self).store()
            }),
            final(self).current_settings() == old(self).current_settings(),
    {
        self.database.delete_item(id);
        Ok(())
    }

    /// Retention eviction at the current time; returns how many rows went.
    pub fn clear_history(&mut self, request: ClearHistoryRequest) -> (r: Result<i64, String>)
        ensures
            r is Ok,
            exists|now: i64| final(self).store() == (StoreView {
                rows: #[trigger] cleared(old(self).store().rows, request.keep_count, request.keep_days, now),
                ..old(self).store()
            }),
            r->Ok_0 == old(self).store().rows.len() - final(self).store().rows.len(),
            final(self).current_settings() == old(self).current_settings(),
    {
        let ghost before = self.store();
        let n = self.database.clear_history(&request);
        proof {
            let now = choose|now: i64| self.database@ == (StoreView {
                rows: #[trigger] cleared(before.rows, request.keep_count, request.keep_days, now),
                ..before
            });
            assert(self.store() == (StoreView {
                rows: cleared(before.rows, request.keep_count, request.keep_days, now),
                ..before
            }));
        }
        Ok(n)
    }

    /// Replaces the tags of the row with this id, if any.
    pub fn update_tags(&mut self, id: i64, tags: Option<Vec<String>>) -> (r: Result<(), String>)
        ensures
            r is Ok,
            final(self).store() == (StoreView {
                rows: if crate::storage::has_id(old(self).store().rows, id) {
                    old(self).store().rows.update(
                        crate::storage::id_index(old(self).store().rows, id),
                        crate::storage::retagged(old(self).store().rows[crate::storage::id_index(old(self).store().rows, id)], opt_texts(tags)),
                    )
                } else {
                    old(self).store().rows
                },
                ..old(self).store()
            }),
            final(self).current_settings() == old(self).current_settings(),
    {
        self.database.update_tags(id, &tags);
        Ok(())
    }

    /// Every tag in use with its usage count, most used first.
    pub fn get_all_tags(&self) -> (r: Result<Vec<(String, i64)>, String>)
        ensures
            r is Ok,
            crate::storage::lists_tags(self.store().rows, r->Ok_0@),
    {
        Ok(self.database.get_all_tags())
    }

    /// The settings stored in the table (see `Database::get_settings`).
    pub fn get_settings(&self) -> (r: Result<AppSettings, String>)
        ensures
            r is Ok,
            crate::storage::settings_read(r->Ok_0, self.store().settings),
    {
        Ok(self.database.get_settings())
    }

    /// Makes `new_settings` current for later captures and writes them into
    /// the table.
    pub fn save_settings(&mut self, new_settings: &AppSettings) -> (r: Result<(), String>)
        ensures
            r is Ok,
            same_settings(final(self).current_settings(), *new_settings),
            final(self).store() == (StoreView {
                settings: crate::storage::saved_table(old(self).store().settings, *new_settings),
                ..old(self).store()
            }),
    {
        self.settings = new_settings.copy();
        self.database.save_settings(new_settings);
        Ok(())
    }

    /// The rows that an export holds: the most recent ones, up to
    /// `EXPORT_LIMIT`, newest first.
    pub fn export_items(&self) -> (r: Vec<ClipboardItem>)
        ensures
            views(r@) == page(self.store().rows, EXPORT_LIMIT, 0),
    {
        self.database.get_history(EXPORT_LIMIT, 0)
    }

    /// Inserts each item in turn with `auto_sort` on, so that a duplicate
    /// moves to the item's capture time instead of being skipped. Returns how
    /// many inserts succeeded.
    pub fn import_items(&mut self, items: &Vec<ClipboardItem>) -> (r: i64)
        requires
            items@.len() <= i64::MAX,
        ensures
            (final(self).store(), r as int) == import_outcome(old(self).store(), views(items@)),
            final(self).current_settings() == old(self).current_settings(),
    {
        let mut count: i64 = 0;
        let mut i: usize = 0;
        while i < items.len()
            invariant
                i <= items@.len() <= i64::MAX,
                0 <= count <= i,
                (self.store(), count as int) == import_outcome(old(self).store(), views(items@.subrange(0, i as int))),
                self.current_settings() == old(self).current_settings(),
            decreases items@.len() - i,
        {
            let r = self.database.add_clipboard_item(&items[i], true);
            proof {
                let p = views(items@.subrange(0, i + 1));
                assert(p.drop_last() =~= views(items@.subrange(0, i as int)));
                assert(p.last() == items@[i as int]@);
            }
            if r.is_ok() {
                count = count + 1;
            }
            i = i + 1;
        }
        assert(items@.subrange(0, items@.len() as int) =~= items@);
        count
    }
}

} // verus!
