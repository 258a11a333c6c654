//! The clipboard store: the table of history rows, newest first, with the
//! deduplicating insert, paging, search, tagging and retention eviction, and
//! the key/value settings table.

use vstd::prelude::*;
use crate::decimal::{decimal_in, decimal_text, format_decimal, parse_decimal};
use crate::fuzzy_search::{fuzzy_match, fuzzy_matches};
use crate::models::{AppSettings, ClearHistoryRequest, ClipboardItem, ItemView, copy_opt_texts, opt_texts, texts, views};

verus! {

/// Rows are ordered by `created_at`, newest first, and by `id`, highest
/// first, among rows captured at the same instant.
pub open spec fn newer(a: ItemView, b: ItemView) -> bool {
    a.created_at > b.created_at || (a.created_at == b.created_at && a.id > b.id)
}

pub open spec fn sorted_newest_first(rows: Seq<ItemView>) -> bool {
    forall|i: int, j: int| #![trigger rows[i], rows[j]] 0 <= i < j < rows.len() ==> newer(rows[i], rows[j])
}

/// No two rows share a content hash.
pub open spec fn unique_hashes(rows: Seq<ItemView>) -> bool {
    forall|i: int, j: int|
        0 <= i < rows.len() && 0 <= j < rows.len() && i != j ==> rows[i].content_hash
            != rows[j].content_hash
}

/// No two rows share an id.
pub open spec fn unique_ids(rows: Seq<ItemView>) -> bool {
    forall|i: int, j: int|
        0 <= i < rows.len() && 0 <= j < rows.len() && i != j ==> rows[i].id != rows[j].id
}

pub open spec fn has_hash(rows: Seq<ItemView>, h: Seq<char>) -> bool {
    exists|i: int| 0 <= i < rows.len() && rows[i].content_hash == h
}

/// The position of the row with content hash `h` (meaningful when there is one).
pub open spec fn hash_index(rows: Seq<ItemView>, h: Seq<char>) -> int {
    choose|i: int| 0 <= i < rows.len() && rows[i].content_hash == h
}

pub open spec fn has_id(rows: Seq<ItemView>, id: i64) -> bool {
    exists|i: int| 0 <= i < rows.len() && rows[i].id == id
}

/// The position of the row with id `id` (meaningful when there is one).
pub open spec fn id_index(rows: Seq<ItemView>, id: i64) -> int {
    choose|i: int| 0 <= i < rows.len() && rows[i].id == id
}

/// `x` put into newest-first `rows` at its place in the order.
pub open spec fn insert_sorted(rows: Seq<ItemView>, x: ItemView) -> Seq<ItemView>
    decreases rows.len(),
{
    if rows.len() == 0 {
        seq![x]
    } else if newer(rows[0], x) {
        seq![rows[0]] + insert_sorted(rows.drop_first(), x)
    } else {
        seq![x] + rows
    }
}

/// A row brought to capture time `t`.
pub open spec fn promoted(row: ItemView, t: i64) -> ItemView {
    ItemView { created_at: t, ..row }
}

/// An item as stored under id `id`.
pub open spec fn stored(item: ItemView, id: i64) -> ItemView {
    ItemView { id: id, ..item }
}

/// Why the store refused an operation.
#[derive(Debug, Clone, Copy, PartialEq, Eq, Structural)]
pub enum StoreError {
    /// Every id up to the largest `i64` has been handed out.
    IdsExhausted,
}

/// The mathematical value of the store: its rows, newest first, the id that
/// the next new row gets, and the settings table.
pub ghost struct StoreView {
    pub rows: Seq<ItemView>,
    pub next_id: i64,
    pub settings: Map<Seq<char>, Seq<char>>,
}

impl StoreView {
    /// Rows are in order, unique by hash and by id, and every id is below
    /// `next_id`.
    pub open spec fn wf(self) -> bool {
        &&& sorted_newest_first(self.rows)
        &&& unique_hashes(self.rows)
        &&& unique_ids(self.rows)
        &&& forall|i: int| 0 <= i < self.rows.len() ==> 1 <= #[trigger] self.rows[i].id < self.next_id
        &&& 1 <= self.next_id
        &&& self.rows.len() < self.next_id
    }
}

/// What inserting `item` does: a row with the same content hash is kept
/// (and, with `auto_sort`, brought to the item's capture time) and its id
/// returned; otherwise the item is stored under a fresh id.
pub open spec fn add_outcome(s: StoreView, item: ItemView, auto_sort: bool) -> (StoreView, Result<i64, StoreError>) {
    if has_hash(s.rows, item.content_hash) {
        let i = hash_index(s.rows, item.content_hash);
        let row = s.rows[i];
        if auto_sort {
            (StoreView { rows: insert_sorted(s.rows.remove(i), promoted(row, item.created_at)), ..s }, Ok(row.id))
        } else {
            (s, Ok(row.id))
        }
    } else if s.next_id < i64::MAX {
        (
            StoreView {
                rows: insert_sorted(s.rows, stored(item, s.next_id)),
                next_id: (s.next_id + 1) as i64,
                ..s
            },
            Ok(s.next_id),
        )
    } else {
        (s, Err(StoreError::IdsExhausted))
    }
}

/// The page of `rows` that `limit` and `offset` select. A negative offset
/// counts as zero and a negative limit as no limit.
pub open spec fn page(rows: Seq<ItemView>, limit: i64, offset: i64) -> Seq<ItemView> {
    let n = rows.len() as int;
    let start = if offset < 0 { 0 } else if offset > n { n } else { offset as int };
    let end = if limit < 0 || start + limit > n { n } else { start + limit };
    rows.subrange(start, end)
}

/// How many of the most recent rows a search looks at.
pub const SEARCH_WINDOW: usize = 1000;

/// A row matches a query through its content or through any of its tags.
pub open spec fn item_matches(q: Seq<char>, r: ItemView) -> bool {
    fuzzy_matches(q, r.content) || match r.tags {
        Some(ts) => some_tag_matches(q, ts),
        None => false,
    }
}

/// Some tag of `ts` matches the query.
pub open spec fn some_tag_matches(q: Seq<char>, ts: Seq<Seq<char>>) -> bool {
    exists|k: int| 0 <= k < ts.len() && fuzzy_matches(q, #[trigger] ts[k])
}

pub open spec fn matcher(q: Seq<char>) -> spec_fn(ItemView) -> bool {
    |r: ItemView| item_matches(q, r)
}

/// The rows a search looks at: the most recent ones, up to the window.
pub open spec fn search_window(rows: Seq<ItemView>) -> Seq<ItemView> {
    if rows.len() > SEARCH_WINDOW {
        rows.subrange(0, SEARCH_WINDOW as int)
    } else {
        rows
    }
}

/// What a search returns: the matching rows of the window, in order, at
/// most `limit` of them (a negative limit is no limit).
pub open spec fn search_result(rows: Seq<ItemView>, q: Seq<char>, limit: i64) -> Seq<ItemView> {
    let found = search_window(rows).filter(matcher(q));
    if limit < 0 || limit >= found.len() {
        found
    } else {
        found.subrange(0, limit as int)
    }
}

/// A day, in microseconds.
pub const MICROS_PER_DAY: i64 = 86_400_000_000;

/// The oldest capture time that a `keep_days` clearing at time `now` keeps.
pub open spec fn age_cutoff(now: i64, days: i64) -> int {
    now - days * MICROS_PER_DAY
}

pub open spec fn captured_since(cutoff: int) -> spec_fn(ItemView) -> bool {
    |r: ItemView| r.created_at >= cutoff
}

/// The `n` most recent rows (all of them when `n` is negative or not below
/// the row count).
pub open spec fn most_recent(rows: Seq<ItemView>, n: i64) -> Seq<ItemView> {
    if n < 0 || n >= rows.len() {
        rows
    } else {
        rows.subrange(0, n as int)
    }
}

/// The rows left by a retention request at time `now`: by count if one is
/// given, else by age if that is given, else none.
pub open spec fn cleared(rows: Seq<ItemView>, keep_count: Option<i64>, keep_days: Option<i64>, now: i64) -> Seq<ItemView> {
    match keep_count {
        Some(n) => most_recent(rows, n),
        None => match keep_days {
            Some(d) => rows.filter(captured_since(age_cutoff(now, d))),
            None => Seq::empty(),
        },
    }
}

/// A row with its tags replaced.
pub open spec fn retagged(row: ItemView, tags: Option<Seq<Seq<char>>>) -> ItemView {
    ItemView { tags: tags, ..row }
}

/// Relies on `chrono::Utc::now` and `DateTime::timestamp_micros`: the
/// current time in microseconds since the Unix epoch. Nothing is known of
/// its value.
#[verifier::external_body]
pub(crate) fn now_micros() -> (r: i64) {
    chrono::Utc::now().timestamp_micros()
}

proof fn lemma_filter_grows<T>(s: Seq<T>, p: spec_fn(T) -> bool, i: int, j: int)
    requires
        0 <= i <= j <= s.len(),
    ensures
        s.subrange(0, i).filter(p).len() <= s.subrange(0, j).filter(p).len(),
        s.subrange(0, j).filter(p).subrange(0, s.subrange(0, i).filter(p).len() as int)
            == s.subrange(0, i).filter(p),
    decreases j - i,
{
    broadcast use Seq::lemma_filter_push;
    if i == j {
        assert(s.subrange(0, j).filter(p).subrange(0, s.subrange(0, i).filter(p).len() as int)
            =~= s.subrange(0, i).filter(p));
    } else {
        lemma_filter_grows(s, p, i, j - 1);
        assert(s.subrange(0, j) =~= s.subrange(0, j - 1).push(s[j - 1]));
        let a = s.subrange(0, i).filter(p);
        let b = s.subrange(0, j - 1).filter(p);
        let c = s.subrange(0, j).filter(p);
        if p(s[j - 1]) {
            assert(c == b.push(s[j - 1]));
            assert(c.subrange(0, a.len() as int) =~= b.subrange(0, a.len() as int));
        } else {
            assert(c == b);
        }
    }
}

proof fn lemma_filter_order(s: Seq<ItemView>, p: spec_fn(ItemView) -> bool, a: int, b: int)
    requires
        sorted_newest_first(s),
        0 <= a < b < s.filter(p).len(),
    ensures
        newer(s.filter(p)[a], s.filter(p)[b]),
    decreases s.len(),
{
    broadcast use Seq::lemma_filter_push;
    broadcast use Seq::lemma_filter_contains;
    let d = s.drop_last();
    assert(s =~= d.push(s.last()));
    assert(sorted_newest_first(d));
    if p(s.last()) && b == s.filter(p).len() - 1 {
        assert(s.filter(p)[b] == s.last());
        let x = s.filter(p)[a];
        assert(x == d.filter(p)[a]);
        assert(d.filter(p).contains(x));
        d.lemma_filter_contains_rev(p, x);
        let m = choose|m: int| 0 <= m < d.len() && d[m] == x;
        assert(s[m] == x);
        assert(newer(s[m], s[s.len() - 1]));
    } else {
        lemma_filter_order(d, p, a, b);
    }
}

proof fn lemma_views_in_time_order(v: Seq<ClipboardItem>)
    requires
        sorted_newest_first(views(v)),
    ensures
        forall|i: int, j: int| 0 <= i < j < v.len() ==> v[i].created_at >= v[j].created_at,
{
    assert forall|i: int, j: int| 0 <= i < j < v.len() implies v[i].created_at >= v[j].created_at by {
        assert(views(v)[i] == v[i]@);
        assert(views(v)[j] == v[j]@);
    }
}

proof fn lemma_filter_is_prefix<T>(s: Seq<T>, p: spec_fn(T) -> bool, k: int)
    requires
        0 <= k <= s.len(),
        forall|i: int| 0 <= i < k ==> p(s[i]),
        forall|i: int| k <= i < s.len() ==> !p(s[i]),
    ensures
        s.filter(p) == s.subrange(0, k),
    decreases s.len(),
{
    broadcast use Seq::lemma_filter_push;
    if s.len() == 0 {
        assert(s.filter(p) =~= s.subrange(0, k));
    } else {
        let d = s.drop_last();
        assert(s =~= d.push(s.last()));
        if k == s.len() {
            lemma_filter_is_prefix(d, p, k - 1);
            assert(d.subrange(0, k - 1).push(s.last()) =~= s.subrange(0, k));
        } else {
            lemma_filter_is_prefix(d, p, k);
            assert(d.subrange(0, k) =~= s.subrange(0, k));
        }
    }
}

pub proof fn lemma_prefix_wf(s: StoreView, n: int)
    requires
        s.wf(),
        0 <= n <= s.rows.len(),
    ensures
        (StoreView { rows: s.rows.subrange(0, n), ..s }).wf(),
{
    let u = s.rows.subrange(0, n);
    assert forall|a: int| 0 <= a < u.len() implies #[trigger] u[a] == s.rows[a] by {}
}

proof fn lemma_remove_wf(s: StoreView, i: int)
    requires
        s.wf(),
        0 <= i < s.rows.len(),
    ensures
        (StoreView { rows: s.rows.remove(i), ..s }).wf(),
{
    let u = s.rows.remove(i);
    assert forall|a: int| 0 <= a < u.len() implies #[trigger] u[a] == s.rows[if a < i { a } else { a + 1 }] by {}
}

proof fn lemma_update_wf(s: StoreView, i: int, x: ItemView)
    requires
        s.wf(),
        0 <= i < s.rows.len(),
        x == retagged(s.rows[i], x.tags),
    ensures
        (StoreView { rows: s.rows.update(i, x), ..s }).wf(),
{
    let u = s.rows.update(i, x);
    assert forall|a: int| 0 <= a < u.len() implies #[trigger] u[a].id == s.rows[a].id
        && u[a].created_at == s.rows[a].created_at && u[a].content_hash == s.rows[a].content_hash by {}
}

/// The tags of a row (none when it has no tag list).
pub open spec fn tag_list(r: ItemView) -> Seq<Seq<char>> {
    match r.tags {
        Some(ts) => ts,
        None => Seq::empty(),
    }
}

/// Tag `t` is used by some row.
pub open spec fn is_tag(rows: Seq<ItemView>, t: Seq<char>) -> bool {
    exists|i: int| 0 <= i < rows.len() && #[trigger] tag_list(rows[i]).contains(t)
}

/// How many rows carry tag `t` (a row that lists it twice counts once).
pub open spec fn tag_usage(rows: Seq<ItemView>, t: Seq<char>) -> int
    decreases rows.len(),
{
    if rows.len() == 0 {
        0
    } else {
        tag_usage(rows.drop_last(), t) + if tag_list(rows.last()).contains(t) { 1int } else { 0int }
    }
}

proof fn lemma_tag_usage_bound(rows: Seq<ItemView>, t: Seq<char>)
    ensures
        0 <= tag_usage(rows, t) <= rows.len(),
    decreases rows.len(),
{
    if rows.len() > 0 {
        lemma_tag_usage_bound(rows.drop_last(), t);
    }
}

proof fn lemma_tag_usage_positive(rows: Seq<ItemView>, t: Seq<char>, i: int)
    requires
        0 <= i < rows.len(),
        tag_list(rows[i]).contains(t),
    ensures
        tag_usage(rows, t) >= 1,
    decreases rows.len(),
{
    lemma_tag_usage_bound(rows.drop_last(), t);
    if i < rows.len() - 1 {
        lemma_tag_usage_positive(rows.drop_last(), t, i);
    }
}

/// `v` lists every tag in use exactly once, each with its usage count,
/// most used first.
pub open spec fn lists_tags(rows: Seq<ItemView>, v: Seq<(String, i64)>) -> bool {
    &&& forall|a: int, b: int| 0 <= a < v.len() && 0 <= b < v.len() && a != b ==> v[a].0@ != v[b].0@
    &&& forall|a: int| 0 <= a < v.len() ==> is_tag(rows, #[trigger] v[a].0@) && v[a].1 == tag_usage(rows, v[a].0@)
    &&& forall|t: Seq<char>| is_tag(rows, t) ==> exists|a: int| 0 <= a < v.len() && #[trigger] v[a].0@ == t
    &&& forall|a: int, b: int| 0 <= a < b < v.len() ==> v[a].1 >= v[b].1
}

/// Position of `t` in `names`, if it is there.
fn position_of(names: &Vec<String>, t: &String) -> (r: Option<usize>)
    ensures
        match r {
            Some(a) => a < names@.len() && names@[a as int]@ == t@,
            None => !texts(names@).contains(t@),
        },
{
    let mut a: usize = 0;
    while a < names.len()
        invariant
            a <= names@.len(),
            forall|b: int| 0 <= b < a ==> names@[b]@ != t@,
        decreases names@.len() - a,
    {
        if names[a] == *t {
            return Some(a);
        }
        a = a + 1;
    }
    assert forall|b: int| 0 <= b < names@.len() implies texts(names@)[b] != t@ by {
        assert(texts(names@)[b] == names@[b]@);
    }
    None
}

/// Whether the row carries tag `t`.
fn row_has_tag(row: &ClipboardItem, t: &String) -> (r: bool)
    ensures
        r == tag_list(row@).contains(t@),
{
    match &row.tags {
        Some(tags) => match position_of(tags, t) {
            Some(a) => {
                assert(texts(tags@)[a as int] == t@);
                true
            },
            None => false,
        },
        None => false,
    }
}

proof fn lemma_insert_keeps_order(rows: Seq<ItemView>, x: ItemView, k: int)
    requires
        sorted_newest_first(rows),
        0 <= k <= rows.len(),
        forall|j: int| 0 <= j < k ==> newer(rows[j], x),
        k < rows.len() ==> !newer(rows[k], x),
        forall|j: int| 0 <= j < rows.len() ==> #[trigger] rows[j].id != x.id,
    ensures
        sorted_newest_first(rows.insert(k, x)),
{
    let s = rows.insert(k, x);
    assert forall|i: int, j: int| 0 <= i < j < s.len() implies newer(s[i], s[j]) by {
        if j < k {
        } else if j == k {
        } else if i < k {
            assert(newer(rows[i], x));
        } else if i == k {
            assert(rows[j - 1].id != x.id);
            assert(!newer(rows[k], x));
            if j - 1 > k {
                assert(newer(rows[k], rows[j - 1]));
            }
        } else {
        }
    }
}

pub proof fn lemma_insert_sorted_place(rows: Seq<ItemView>, x: ItemView) -> (k: int)
    ensures
        0 <= k <= rows.len(),
        forall|j: int| 0 <= j < k ==> newer(rows[j], x),
        k < rows.len() ==> !newer(rows[k], x),
        insert_sorted(rows, x) == rows.insert(k, x),
    decreases rows.len(),
{
    if rows.len() == 0 || !newer(rows[0], x) {
        lemma_insert_sorted_at(rows, x, 0);
        0
    } else {
        let k0 = lemma_insert_sorted_place(rows.drop_first(), x);
        assert forall|j: int| 0 <= j < k0 + 1 implies newer(rows[j], x) by {
            if j > 0 {
                assert(rows[j] == rows.drop_first()[j - 1]);
            }
        }
        lemma_insert_sorted_at(rows, x, k0 + 1);
        k0 + 1
    }
}

/// Inserting keeps the store well formed.
pub proof fn lemma_add_keeps_wf(s: StoreView, item: ItemView, auto_sort: bool)
    requires
        s.wf(),
    ensures
        add_outcome(s, item, auto_sort).0.wf(),
{
    if has_hash(s.rows, item.content_hash) {
        let i = hash_index(s.rows, item.content_hash);
        if auto_sort {
            lemma_removed_ids(s, i);
            let t = s.rows.remove(i);
            let x = promoted(s.rows[i], item.created_at);
            let k = lemma_insert_sorted_place(t, x);
            lemma_insert_keeps_order(t, x, k);
            lemma_promoted_wf(s, i, k, item.created_at);
        }
    } else if s.next_id < i64::MAX {
        let x = stored(item, s.next_id);
        let k = lemma_insert_sorted_place(s.rows, x);
        lemma_insert_keeps_order(s.rows, x, k);
        lemma_stored_wf(s, item, k);
    }
}

/// A list of key/value pairs as a map (a later pair wins, though keys are
/// kept unique).
pub open spec fn table_map(v: Seq<(String, String)>) -> Map<Seq<char>, Seq<char>>
    decreases v.len(),
{
    if v.len() == 0 {
        Map::empty()
    } else {
        table_map(v.drop_last()).insert(v.last().0@, v.last().1@)
    }
}

pub open spec fn keys_unique(v: Seq<(String, String)>) -> bool {
    forall|a: int, b: int| 0 <= a < v.len() && 0 <= b < v.len() && a != b ==> v[a].0@ != v[b].0@
}

proof fn lemma_table_has(v: Seq<(String, String)>, i: int)
    requires
        keys_unique(v),
        0 <= i < v.len(),
    ensures
        table_map(v).contains_key(v[i].0@),
        table_map(v)[v[i].0@] == v[i].1@,
    decreases v.len(),
{
    if i < v.len() - 1 {
        lemma_table_has(v.drop_last(), i);
    }
}

proof fn lemma_table_lacks(v: Seq<(String, String)>, k: Seq<char>)
    requires
        forall|a: int| 0 <= a < v.len() ==> #[trigger] v[a].0@ != k,
    ensures
        !table_map(v).contains_key(k),
    decreases v.len(),
{
    if v.len() > 0 {
        lemma_table_lacks(v.drop_last(), k);
    }
}

proof fn lemma_table_replace(v: Seq<(String, String)>, i: int, p: (String, String))
    requires
        keys_unique(v),
        0 <= i < v.len(),
        p.0@ == v[i].0@,
    ensures
        keys_unique(v.update(i, p)),
        table_map(v.update(i, p)) == table_map(v).insert(p.0@, p.1@),
    decreases v.len(),
{
    let u = v.update(i, p);
    assert forall|a: int, b: int| 0 <= a < u.len() && 0 <= b < u.len() && a != b implies u[a].0@ != u[b].0@ by {
        assert(u[a].0@ == v[a].0@ && u[b].0@ == v[b].0@);
    }
    if i == v.len() - 1 {
        assert(u.drop_last() =~= v.drop_last());
        assert(table_map(u) =~= table_map(v).insert(p.0@, p.1@));
    } else {
        assert(u.drop_last() =~= v.drop_last().update(i, p));
        lemma_table_replace(v.drop_last(), i, p);
        assert(v.last().0@ != p.0@);
        assert(table_map(u) =~= table_map(v).insert(p.0@, p.1@));
    }
}

proof fn lemma_table_same(a: Seq<(String, String)>, b: Seq<(String, String)>)
    requires
        a.len() == b.len(),
        forall|j: int| 0 <= j < a.len() ==> a[j].0@ == b[j].0@ && a[j].1@ == b[j].1@,
    ensures
        table_map(a) == table_map(b),
    decreases a.len(),
{
    if a.len() > 0 {
        lemma_table_same(a.drop_last(), b.drop_last());
    }
}

/// Position of the pair whose key is `k`, if any.
fn setting_index(v: &Vec<(String, String)>, k: &String) -> (r: Option<usize>)
    ensures
        match r {
            Some(i) => i < v@.len() && v@[i as int].0@ == k@,
            None => forall|a: int| 0 <= a < v@.len() ==> #[trigger] v@[a].0@ != k@,
        },
{
    let mut i: usize = 0;
    while i < v.len()
        invariant
            i <= v@.len(),
            forall|a: int| 0 <= a < i ==> #[trigger] v@[a].0@ != k@,
        decreases v@.len() - i,
    {
        if v[i].0 == *k {
            return Some(i);
        }
        i = i + 1;
    }
    None
}

/// The settings table of a new store.
pub open spec fn default_table() -> Map<Seq<char>, Seq<char>> {
    Map::<Seq<char>, Seq<char>>::empty().insert("max_history_count"@, "5000"@).insert("auto_cleanup_days"@, "30"@).insert("window_position"@, "remember"@).insert("window_pos_x"@, ""@).insert("window_pos_y"@, ""@).insert("smart_activate"@, "true"@).insert("copy_sound"@, "false"@).insert("search_position"@, "bottom"@).insert("auto_focus_search"@, "true"@).insert("click_action"@, "copy"@).insert("double_click_action"@, "paste"@).insert("paste_shortcut"@, "ctrl_v"@).insert("image_ocr"@, "false"@).insert("copy_as_plain_text"@, "false"@).insert("paste_as_plain_text"@, "true"@).insert("confirm_delete"@, "true"@).insert("auto_sort"@, "false"@).insert("hotkey"@, "Alt+V"@).insert("auto_start"@, "false"@).insert("app_initialized"@, "false"@)
}

/// The text of a boolean setting.
pub open spec fn bool_text(b: bool) -> Seq<char> {
    if b { "true"@ } else { "false"@ }
}

/// The boolean that a setting's text spells, if any.
pub open spec fn bool_of(s: Seq<char>) -> Option<bool> {
    if s == "true"@ {
        Some(true)
    } else if s == "false"@ {
        Some(false)
    } else {
        None
    }
}

/// The text of an optional window coordinate: empty when there is none.
pub open spec fn position_text(p: Option<i32>) -> Seq<char> {
    match p {
        Some(v) => decimal_text(v as int),
        None => Seq::empty(),
    }
}

/// An integer setting: the stored value when it parses as an `i64`.
pub open spec fn int_setting(t: Map<Seq<char>, Seq<char>>, key: Seq<char>, default: i64) -> i64 {
    if t.contains_key(key) && decimal_in(t[key], i64::MIN as int, i64::MAX as int) is Some {
        decimal_in(t[key], i64::MIN as int, i64::MAX as int)->Some_0 as i64
    } else {
        default
    }
}

/// A window coordinate: the stored value when it parses as an `i32`.
pub open spec fn position_setting(t: Map<Seq<char>, Seq<char>>, key: Seq<char>) -> Option<i32> {
    if t.contains_key(key) && decimal_in(t[key], i32::MIN as int, i32::MAX as int) is Some {
        Some(decimal_in(t[key], i32::MIN as int, i32::MAX as int)->Some_0 as i32)
    } else {
        None
    }
}

/// A boolean setting: the stored value when it is `true` or `false`.
pub open spec fn bool_setting(t: Map<Seq<char>, Seq<char>>, key: Seq<char>, default: bool) -> bool {
    if t.contains_key(key) && bool_of(t[key]) is Some {
        bool_of(t[key])->Some_0
    } else {
        default
    }
}

/// A text setting: the stored value, if any.
pub open spec fn text_setting(t: Map<Seq<char>, Seq<char>>, key: Seq<char>, default: Seq<char>) -> Seq<char> {
    if t.contains_key(key) {
        t[key]
    } else {
        default
    }
}

/// `s` is what reading the settings table `t` gives.
pub open spec fn settings_read(s: AppSettings, t: Map<Seq<char>, Seq<char>>) -> bool {
    &&& s.max_history_count == int_setting(t, "max_history_count"@, 5000)
    &&& s.auto_cleanup_days == int_setting(t, "auto_cleanup_days"@, 30)
    &&& s.window_position@ == text_setting(t, "window_position"@, "remember"@)
    &&& s.window_pos_x == position_setting(t, "window_pos_x"@)
    &&& s.window_pos_y == position_setting(t, "window_pos_y"@)
    &&& s.smart_activate == bool_setting(t, "smart_activate"@, true)
    &&& s.copy_sound == bool_setting(t, "copy_sound"@, false)
    &&& s.search_position@ == text_setting(t, "search_position"@, "top"@)
    &&& s.focus_search_on_activate == bool_setting(t, "auto_focus_search"@, false)
    &&& s.click_action@ == text_setting(t, "click_action"@, "copy"@)
    &&& s.double_click_action@ == text_setting(t, "double_click_action"@, "paste"@)
    &&& s.paste_shortcut@ == text_setting(t, "paste_shortcut"@, "ctrl_v"@)
    &&& s.hide_window_after_copy == bool_setting(t, "hide_window_after_copy"@, false)
    &&& s.image_ocr == bool_setting(t, "image_ocr"@, false)
    &&& s.copy_as_plain_text == bool_setting(t, "copy_as_plain_text"@, false)
    &&& s.paste_as_plain_text == bool_setting(t, "paste_as_plain_text"@, true)
    &&& s.confirm_delete == bool_setting(t, "confirm_delete"@, true)
    &&& s.auto_sort == bool_setting(t, "auto_sort"@, false)
    &&& s.hotkey@ == text_setting(t, "hotkey"@, "Alt+V"@)
    &&& s.auto_start == bool_setting(t, "auto_start"@, false)
    &&& s.number_key_shortcut@ == text_setting(t, "number_key_shortcut"@, "ctrl"@)
}

/// The settings table after saving `s` into `t`.
pub open spec fn saved_table(t: Map<Seq<char>, Seq<char>>, s: AppSettings) -> Map<Seq<char>, Seq<char>> {
    t.insert("max_history_count"@, decimal_text(s.max_history_count as int)).insert("auto_cleanup_days"@, decimal_text(s.auto_cleanup_days as int)).insert("window_position"@, s.window_position@).insert("window_pos_x"@, position_text(s.window_pos_x)).insert("window_pos_y"@, position_text(s.window_pos_y)).insert("smart_activate"@, bool_text(s.smart_activate)).insert("copy_sound"@, bool_text(s.copy_sound)).insert("search_position"@, s.search_position@).insert("auto_focus_search"@, bool_text(s.focus_search_on_activate)).insert("click_action"@, s.click_action@).insert("double_click_action"@, s.double_click_action@).insert("paste_shortcut"@, s.paste_shortcut@).insert("hide_window_after_copy"@, bool_text(s.hide_window_after_copy)).insert("image_ocr"@, bool_text(s.image_ocr)).insert("copy_as_plain_text"@, bool_text(s.copy_as_plain_text)).insert("paste_as_plain_text"@, bool_text(s.paste_as_plain_text)).insert("confirm_delete"@, bool_text(s.confirm_delete)).insert("auto_sort"@, bool_text(s.auto_sort)).insert("hotkey"@, s.hotkey@).insert("auto_start"@, bool_text(s.auto_start)).insert("number_key_shortcut"@, s.number_key_shortcut@)
}

/// Whether `s` spells `w`.
pub(crate) fn is_text(s: &str, w: &str) -> (r: bool)
    ensures
        r == (s@ == w@),
{
    let a = crate::text::chars_of(s);
    let b = crate::text::chars_of(w);
    if a.len() != b.len() {
        return false;
    }
    let mut i: usize = 0;
    while i < a.len()
        invariant
            i <= a@.len() == b@.len(),
            a@ == s@,
            b@ == w@,
            forall|j: int| 0 <= j < i ==> a@[j] == b@[j],
        decreases a@.len() - i,
    {
        if a[i] != b[i] {
            return false;
        }
        i = i + 1;
    }
    assert(a@ =~= b@);
    true
}

fn parse_bool(s: &str) -> (r: Option<bool>)
    ensures
        r == bool_of(s@),
{
    if is_text(s, "true") {
        Some(true)
    } else if is_text(s, "false") {
        Some(false)
    } else {
        None
    }
}

fn format_bool(b: bool) -> (r: String)
    ensures
        r@ == bool_text(b),
{
    if b {
        String::from_str("true")
    } else {
        String::from_str("false")
    }
}

fn format_position(p: Option<i32>) -> (r: String)
    ensures
        r@ == position_text(p),
{
    match p {
        Some(v) => format_decimal(v as i64),
        None => String::new(),
    }
}

proof fn lemma_insert_sorted_at(rows: Seq<ItemView>, x: ItemView, k: int)
    requires
        0 <= k <= rows.len(),
        forall|j: int| 0 <= j < k ==> newer(rows[j], x),
        k < rows.len() ==> !newer(rows[k], x),
    ensures
        insert_sorted(rows, x) == rows.insert(k, x),
    decreases k,
{
    if k == 0 {
        if rows.len() == 0 {
            assert(rows.insert(0, x) =~= seq![x]);
        } else {
            assert(rows.insert(0, x) =~= seq![x] + rows);
        }
    } else {
        let rest = rows.drop_first();
        assert forall|j: int| 0 <= j < k - 1 implies newer(rest[j], x) by {
            assert(rest[j] == rows[j + 1]);
        }
        lemma_insert_sorted_at(rest, x, k - 1);
        assert(seq![rows[0]] + rest.insert(k - 1, x) =~= rows.insert(k, x));
    }
}

/// Puts `row` at its place in newest-first `rows`; returns that place.
fn insert_row(rows: &mut Vec<ClipboardItem>, row: ClipboardItem) -> (k: usize)
    requires
        sorted_newest_first(views(old(rows)@)),
        forall|i: int| 0 <= i < old(rows)@.len() ==> #[trigger] views(old(rows)@)[i].id != row@.id,
    ensures
        k <= old(rows)@.len(),
        views(final(rows)@) == views(old(rows)@).insert(k as int, row@),
        views(final(rows)@) == insert_sorted(views(old(rows)@), row@),
        sorted_newest_first(views(final(rows)@)),
{
    let ghost old_rows = views(rows@);
    let mut k: usize = 0;
    while k < rows.len() && (rows[k].created_at > row.created_at || (rows[k].created_at
        == row.created_at && rows[k].id > row.id))
        invariant
            k <= rows@.len(),
            old_rows == views(rows@),
            forall|j: int| 0 <= j < k ==> newer(old_rows[j], row@),
        decreases rows@.len() - k,
    {
        k = k + 1;
    }
    proof {
        lemma_insert_sorted_at(old_rows, row@, k as int);
    }
    let ghost x = row@;
    rows.insert(k, row);
    assert(views(rows@) =~= old_rows.insert(k as int, x));
    proof {
        lemma_insert_keeps_order(old_rows, x, k as int);
    }
    k
}

/// The clipboard store. Rows are kept newest first; see `StoreView::wf`.
pub struct Database {
    rows: Vec<ClipboardItem>,
    next_id: i64,
    settings: Vec<(String, String)>,
}

impl View for Database {
    type V = StoreView;

    closed spec fn view(&self) -> StoreView {
        StoreView { rows: views(self.rows@), next_id: self.next_id, settings: table_map(self.settings@) }
    }
}

impl Database {
    #[verifier::type_invariant]
    closed spec fn inv(&self) -> bool {
        self@.wf() && keys_unique(self.settings@)
    }

    /// An empty store whose settings table holds the defaults.
    pub fn new() -> (r: Database)
        ensures
            r@.rows.len() == 0,
            r@.next_id == 1,
            r@.settings == default_table(),
    {
        let mut db = Database { rows: Vec::new(), next_id: 1, settings: Vec::new() };
        assert(table_map(db.settings@) =~= Map::<Seq<char>, Seq<char>>::empty());
        db.put_setting("max_history_count", String::from_str("5000"));
        db.put_setting("auto_cleanup_days", String::from_str("30"));
        db.put_setting("window_position", String::from_str("remember"));
        db.put_setting("window_pos_x", String::from_str(""));
        db.put_setting("window_pos_y", String::from_str(""));
        db.put_setting("smart_activate", String::from_str("true"));
        db.put_setting("copy_sound", String::from_str("false"));
        db.put_setting("search_position", String::from_str("bottom"));
        db.put_setting("auto_focus_search", String::from_str("true"));
        db.put_setting("click_action", String::from_str("copy"));
        db.put_setting("double_click_action", String::from_str("paste"));
        db.put_setting("paste_shortcut", String::from_str("ctrl_v"));
        db.put_setting("image_ocr", String::from_str("false"));
        db.put_setting("copy_as_plain_text", String::from_str("false"));
        db.put_setting("paste_as_plain_text", String::from_str("true"));
        db.put_setting("confirm_delete", String::from_str("true"));
        db.put_setting("auto_sort", String::from_str("false"));
        db.put_setting("hotkey", String::from_str("Alt+V"));
        db.put_setting("auto_start", String::from_str("false"));
        db.put_setting("app_initialized", String::from_str("false"));
        db
    }

    /// The stored value of setting `key`, if any.
    pub fn setting(&self, key: &str) -> (r: Option<String>)
        ensures
            match r {
                Some(v) => self@.settings.contains_key(key@) && self@.settings[key@] == v@,
                None => !self@.settings.contains_key(key@),
            },
    {
        proof { use_type_invariant(self); }
        let k = String::from_str(key);
        match setting_index(&self.settings, &k) {
            Some(i) => {
                proof { lemma_table_has(self.settings@, i as int); }
                Some(self.settings[i].1.clone())
            },
            None => {
                proof { lemma_table_lacks(self.settings@, key@); }
                None
            },
        }
    }

    /// Stores `value` under setting `key`, replacing what was there.
    pub fn put_setting(&mut self, key: &str, value: String)
        ensures
            final(self)@ == (StoreView { settings: old(self)@.settings.insert(key@, value@), ..old(self)@ }),
    {
        proof { use_type_invariant(&*self); }
        let k = String::from_str(key);
        let mut table: Vec<(String, String)> = Vec::new();
        std::mem::swap(&mut table, &mut self.settings);
        let ghost t = table@;
        match setting_index(&table, &k) {
            Some(i) => {
                let ghost pair = (k, value);
                table.set(i, (k, value));
                proof { lemma_table_replace(t, i as int, pair); }
            },
            None => {
                table.push((k, value));
                proof {
                    assert(table@.drop_last() =~= t);
                    assert forall|a: int, b: int| 0 <= a < table@.len() && 0 <= b < table@.len() && a != b implies table@[a].0@ != table@[b].0@ by {
                        if a < t.len() && b < t.len() {
                            assert(table@[a] == t[a] && table@[b] == t[b]);
                        } else if a < t.len() {
                            assert(table@[a] == t[a]);
                        } else {
                            assert(table@[b] == t[b]);
                        }
                    }
                }
            },
        }
        self.settings = table;
    }

    fn int_value(&self, key: &str, default: i64) -> (r: i64)
        ensures
            r == int_setting(self@.settings, key@, default),
    {
        match self.setting(key) {
            Some(v) => match parse_decimal(v.as_str(), i64::MIN, i64::MAX) {
                Some(x) => x,
                None => default,
            },
            None => default,
        }
    }

    fn position_value(&self, key: &str) -> (r: Option<i32>)
        ensures
            r == position_setting(self@.settings, key@),
    {
        match self.setting(key) {
            Some(v) => match parse_decimal(v.as_str(), i32::MIN as i64, i32::MAX as i64) {
                Some(x) => Some(x as i32),
                None => None,
            },
            None => None,
        }
    }

    fn bool_value(&self, key: &str, default: bool) -> (r: bool)
        ensures
            r == bool_setting(self@.settings, key@, default),
    {
        match self.setting(key) {
            Some(v) => match parse_bool(v.as_str()) {
                Some(x) => x,
                None => default,
            },
            None => default,
        }
    }

    fn text_value(&self, key: &str, default: &str) -> (r: String)
        ensures
            r@ == text_setting(self@.settings, key@, default@),
    {
        match self.setting(key) {
            Some(v) => v,
            None => String::from_str(default),
        }
    }

    /// The settings, read from the table: each one takes its stored value
    /// when there is one that parses, and its default otherwise; keys that
    /// no setting reads are ignored.
    pub fn get_settings(&self) -> (r: AppSettings)
        ensures
            settings_read(r, self@.settings),
    {
        AppSettings {
            max_history_count: self.int_value("max_history_count", 5000),
            auto_cleanup_days: self.int_value("auto_cleanup_days", 30),
            window_position: self.text_value("window_position", "remember"),
            window_pos_x: self.position_value("window_pos_x"),
            window_pos_y: self.position_value("window_pos_y"),
            smart_activate: self.bool_value("smart_activate", true),
            copy_sound: self.bool_value("copy_sound", false),
            search_position: self.text_value("search_position", "top"),
            focus_search_on_activate: self.bool_value("auto_focus_search", false),
            click_action: self.text_value("click_action", "copy"),
            double_click_action: self.text_value("double_click_action", "paste"),
            paste_shortcut: self.text_value("paste_shortcut", "ctrl_v"),
            hide_window_after_copy: self.bool_value("hide_window_after_copy", false),
            image_ocr: self.bool_value("image_ocr", false),
            copy_as_plain_text: self.bool_value("copy_as_plain_text", false),
            paste_as_plain_text: self.bool_value("paste_as_plain_text", true),
            confirm_delete: self.bool_value("confirm_delete", true),
            auto_sort: self.bool_value("auto_sort", false),
            hotkey: self.text_value("hotkey", "Alt+V"),
            auto_start: self.bool_value("auto_start", false),
            number_key_shortcut: self.text_value("number_key_shortcut", "ctrl"),
        }
    }

    /// Writes every setting into the table.
    pub fn save_settings(&mut self, settings: &AppSettings)
        ensures
            final(self)@ == (StoreView { settings: saved_table(old(self)@.settings, *settings), ..old(self)@ }),
    {
        self.put_setting("max_history_count", format_decimal(settings.max_history_count));
        self.put_setting("auto_cleanup_days", format_decimal(settings.auto_cleanup_days));
        self.put_setting("window_position", settings.window_position.clone());
        self.put_setting("window_pos_x", format_position(settings.window_pos_x));
        self.put_setting("window_pos_y", format_position(settings.window_pos_y));
        self.put_setting("smart_activate", format_bool(settings.smart_activate));
        self.put_setting("copy_sound", format_bool(settings.copy_sound));
        self.put_setting("search_position", settings.search_position.clone());
        self.put_setting("auto_focus_search", format_bool(settings.focus_search_on_activate));
        self.put_setting("click_action", settings.click_action.clone());
        self.put_setting("double_click_action", settings.double_click_action.clone());
        self.put_setting("paste_shortcut", settings.paste_shortcut.clone());
        self.put_setting("hide_window_after_copy", format_bool(settings.hide_window_after_copy));
        self.put_setting("image_ocr", format_bool(settings.image_ocr));
        self.put_setting("copy_as_plain_text", format_bool(settings.copy_as_plain_text));
        self.put_setting("paste_as_plain_text", format_bool(settings.paste_as_plain_text));
        self.put_setting("confirm_delete", format_bool(settings.confirm_delete));
        self.put_setting("auto_sort", format_bool(settings.auto_sort));
        self.put_setting("hotkey", settings.hotkey.clone());
        self.put_setting("auto_start", format_bool(settings.auto_start));
        self.put_setting("number_key_shortcut", settings.number_key_shortcut.clone());
    }

    /// The settings table as key/value pairs, each key once.
    pub fn settings_entries(&self) -> (r: Vec<(String, String)>)
        ensures
            table_map(r@) == self@.settings,
            keys_unique(r@),
    {
        proof { use_type_invariant(self); }
        let mut out: Vec<(String, String)> = Vec::new();
        let mut i: usize = 0;
        while i < self.settings.len()
            invariant
                i <= self.settings@.len(),
                keys_unique(self.settings@),
                out@.len() == i,
                forall|j: int| 0 <= j < i ==> out@[j].0@ == self.settings@[j].0@ && out@[j].1@ == self.settings@[j].1@,
            decreases self.settings@.len() - i,
        {
            out.push((self.settings[i].0.clone(), self.settings[i].1.clone()));
            i = i + 1;
        }
        proof { lemma_table_same(out@, self.settings@); }
        out
    }

    /// Puts back a row that was stored before, under its own id. Refused
    /// (returning false, with the store unchanged) when the id is not in
    /// `1..i64::MAX`, or is already used, or the content hash is, or no id
    /// would be left for new rows.
    pub fn restore_item(&mut self, item: &ClipboardItem) -> (r: bool)
        ensures
            r == (1 <= item.id < i64::MAX && old(self)@.next_id < i64::MAX
                && !has_id(old(self)@.rows, item.id) && !has_hash(old(self)@.rows, item@.content_hash)),
            r ==> final(self)@ == (StoreView {
                rows: insert_sorted(old(self)@.rows, item@),
                next_id: (if item.id < old(self)@.next_id { old(self)@.next_id } else { item.id } + 1) as i64,
                ..old(self)@
            }),
            !r ==> final(self)@ == old(self)@,
    {
        proof { use_type_invariant(&*self); }
        if item.id < 1 || item.id == i64::MAX || self.next_id == i64::MAX {
            return false;
        }
        if self.find_id(item.id).is_some() {
            return false;
        }
        if self.find_hash(&item.content_hash).is_some() {
            return false;
        }
        let ghost s = self@;
        let next = if item.id < self.next_id { self.next_id } else { item.id } + 1;
        let row = item.copy();
        let mut rows: Vec<ClipboardItem> = Vec::new();
        std::mem::swap(&mut rows, &mut self.rows);
        self.next_id = next;
        assert forall|j: int| 0 <= j < rows@.len() implies #[trigger] views(rows@)[j].id != item.id by {
            assert(views(rows@)[j] == s.rows[j]);
        }
        let k = insert_row(&mut rows, row);
        proof {
            let u = views(rows@);
            assert forall|a: int| 0 <= a < u.len() && a != k implies #[trigger] u[a] == s.rows[if a < k { a } else { a - 1 }] by {}
            assert(u[k as int] == item@);
        }
        self.rows = rows;
        true
    }

    /// Whether the application has not been marked as initialized yet.
    pub fn is_first_run(&self) -> (r: bool)
        ensures
            r == !(self@.settings.contains_key("app_initialized"@) && self@.settings["app_initialized"@] == "true"@),
    {
        match self.setting("app_initialized") {
            Some(v) => !is_text(v.as_str(), "true"),
            None => true,
        }
    }

    /// Marks the application as initialized.
    pub fn mark_app_initialized(&mut self)
        ensures
            final(self)@ == (StoreView { settings: old(self)@.settings.insert("app_initialized"@, "true"@), ..old(self)@ }),
    {
        self.put_setting("app_initialized", String::from_str("true"));
    }

    /// The number of live rows.
    pub fn get_count(&self) -> (r: i64)
        ensures
            r == self@.rows.len(),
    {
        proof { use_type_invariant(self); }
        self.rows.len() as i64
    }

    /// Position of the row whose content hash is `h`, if any.
    fn find_hash(&self, h: &String) -> (r: Option<usize>)
        ensures
            match r {
                Some(i) => i < self@.rows.len() && self@.rows[i as int].content_hash == h@,
                None => !has_hash(self@.rows, h@),
            },
    {
        let mut i: usize = 0;
        while i < self.rows.len()
            invariant
                i <= self.rows@.len(),
                forall|j: int| 0 <= j < i ==> self@.rows[j].content_hash != h@,
            decreases self.rows@.len() - i,
        {
            if self.rows[i].content_hash == *h {
                return Some(i);
            }
            i = i + 1;
        }
        None
    }

    /// Inserts `item` unless a row has its content hash. On a duplicate the
    /// existing row is kept, and with `auto_sort` its `created_at` becomes
    /// the item's; its id is returned. Otherwise the item is stored under the
    /// next id, which is returned. The item's own `id` is ignored.
    pub fn add_clipboard_item(&mut self, item: &ClipboardItem, auto_sort: bool) -> (r: Result<i64, StoreError>)
        ensures
            (final(self)@, r) == add_outcome(old(self)@, item@, auto_sort),
            final(self)@.wf(),
    {
        proof { use_type_invariant(&*self); }
        let ghost s = self@;
        let found = self.find_hash(&item.content_hash);
        match found {
            Some(i) => {
                let id = self.rows[i].id;
                proof {
                    let j = hash_index(s.rows, item@.content_hash);
                    assert(i as int == j);
                }
                if auto_sort {
                    let mut rows: Vec<ClipboardItem> = Vec::new();
                    std::mem::swap(&mut rows, &mut self.rows);
                    let mut row = rows.remove(i);
                    assert(views(rows@) =~= s.rows.remove(i as int));
                    row.created_at = item.created_at;
                    proof { lemma_removed_ids(s, i as int); }
                    let k = insert_row(&mut rows, row);
                    proof { lemma_promoted_wf(s, i as int, k as int, item.created_at); }
                    self.rows = rows;
                }
                Ok(id)
            },
            None => {
                if self.next_id == i64::MAX {
                    return Err(StoreError::IdsExhausted);
                }
                let id = self.next_id;
                let mut row = item.copy();
                row.id = id;
                let mut rows: Vec<ClipboardItem> = Vec::new();
                std::mem::swap(&mut rows, &mut self.rows);
                self.next_id = id + 1;
                assert forall|j: int| 0 <= j < rows@.len() implies #[trigger] views(rows@)[j].id != id by {
                    assert(views(rows@)[j] == s.rows[j]);
                }
                let k = insert_row(&mut rows, row);
                proof { lemma_stored_wf(s, item@, k as int); }
                self.rows = rows;
                Ok(id)
            },
        }
    }

    /// Position of the row whose id is `id`, if any.
    fn find_id(&self, id: i64) -> (r: Option<usize>)
        ensures
            match r {
                Some(i) => i < self@.rows.len() && self@.rows[i as int].id == id,
                None => !has_id(self@.rows, id),
            },
    {
        let mut i: usize = 0;
        while i < self.rows.len()
            invariant
                i <= self.rows@.len(),
                forall|j: int| 0 <= j < i ==> self@.rows[j].id != id,
            decreases self.rows@.len() - i,
        {
            if self.rows[i].id == id {
                return Some(i);
            }
            i = i + 1;
        }
        None
    }

    /// A page of history, newest first: the rows from position `offset` on,
    /// at most `limit` of them. A negative offset counts as zero and a
    /// negative limit as no limit; an offset past the end gives nothing.
    pub fn get_history(&self, limit: i64, offset: i64) -> (r: Vec<ClipboardItem>)
        ensures
            views(r@) == page(self@.rows, limit, offset),
            forall|i: int, j: int| 0 <= i < j < r@.len() ==> r@[i].created_at >= r@[j].created_at,
    {
        proof { use_type_invariant(self); }
        let n = self.rows.len();
        let start: usize = if offset < 0 {
            0
        } else if offset as u64 > n as u64 {
            n
        } else {
            offset as usize
        };
        let end: usize = if limit < 0 || limit as u64 > (n - start) as u64 {
            n
        } else {
            start + limit as usize
        };
        let mut out: Vec<ClipboardItem> = Vec::new();
        let mut i: usize = start;
        while i < end
            invariant
                start <= i <= end <= n,
                n == self.rows@.len(),
                views(out@) == self@.rows.subrange(start as int, i as int),
            decreases end - i,
        {
            let ghost before = out@;
            let c = self.rows[i].copy();
            assert(c@ == self@.rows[i as int]);
            out.push(c);
            assert(views(out@) =~= views(before).push(self@.rows[i as int]));
            assert(views(out@) =~= self@.rows.subrange(start as int, i + 1));
            i = i + 1;
        }
        proof {
            assert(views(out@) =~= page(self@.rows, limit, offset));
            let u = views(out@);
            assert forall|a: int, b: int| 0 <= a < b < u.len() implies newer(u[a], u[b]) by {
                assert(u[a] == self@.rows[start + a]);
                assert(u[b] == self@.rows[start + b]);
            }
            lemma_views_in_time_order(out@);
        }
        out
    }

    /// Whether the row matches the query through its content or a tag.
    fn row_matches(query: &str, row: &ClipboardItem) -> (r: bool)
        ensures
            r == item_matches(query@, row@),
    {
        if fuzzy_match(query, row.content.as_str()) {
            return true;
        }
        match &row.tags {
            Some(tags) => {
                let mut k: usize = 0;
                while k < tags.len()
                    invariant
                        k <= tags@.len(),
                        row@.tags == Some(crate::models::texts(tags@)),
                        forall|m: int| 0 <= m < k ==> !fuzzy_matches(query@, #[trigger] tags@[m]@),
                    decreases tags@.len() - k,
                {
                    if fuzzy_match(query, tags[k].as_str()) {
                        assert(crate::models::texts(tags@)[k as int] == tags@[k as int]@);
                        assert(fuzzy_matches(query@, crate::models::texts(tags@)[k as int]));
                        let ghost ts = crate::models::texts(tags@);
                        assert(row@.tags == Some(ts));
                        assert(0 <= k < ts.len());
                        assert(0 <= (k as int) < ts.len() && fuzzy_matches(query@, ts[k as int]));
                        assert(some_tag_matches(query@, ts));
                        return true;
                    }
                    k = k + 1;
                }
                assert forall|m: int| 0 <= m < tags@.len() implies !fuzzy_matches(query@, #[trigger] crate::models::texts(tags@)[m]) by {
                    assert(crate::models::texts(tags@)[m] == tags@[m]@);
                }
                false
            },
            None => false,
        }
    }

    /// Search: among the most recent rows (up to `SEARCH_WINDOW` of them),
    /// those whose content or one of whose tags matches `query`, newest
    /// first, at most `limit` of them (a negative limit is no limit). Rows
    /// outside the window are never found.
    pub fn search_history(&self, query: &str, limit: i64) -> (r: Vec<ClipboardItem>)
        ensures
            views(r@) == search_result(self@.rows, query@, limit),
            forall|i: int, j: int| 0 <= i < j < r@.len() ==> r@[i].created_at >= r@[j].created_at,
    {
        proof { use_type_invariant(self); }
        let ghost w = search_window(self@.rows);
        let ghost p = matcher(query@);
        let n: usize = if self.rows.len() > SEARCH_WINDOW { SEARCH_WINDOW } else { self.rows.len() };
        assert(w =~= self@.rows.subrange(0, n as int));
        let mut out: Vec<ClipboardItem> = Vec::new();
        let mut i: usize = 0;
        while i < n && (limit < 0 || (out.len() as u64) < limit as u64)
            invariant
                i <= n <= self.rows@.len(),
                w == self@.rows.subrange(0, n as int),
                p == matcher(query@),
                views(out@) == w.subrange(0, i as int).filter(p),
                limit >= 0 ==> out@.len() <= limit,
                forall|a: int| 0 <= a < out@.len() ==> exists|b: int| 0 <= b < i && #[trigger] out@[a]@ == w[b],
            decreases n - i,
        {
            broadcast use Seq::lemma_filter_push;
            assert(w.subrange(0, i + 1) =~= w.subrange(0, i as int).push(w[i as int]));
            let hit = Database::row_matches(query, &self.rows[i]);
            assert(w[i as int] == self.rows@[i as int]@);
            assert(matcher(query@)(w[i as int]) == item_matches(query@, w[i as int]));
            assert(hit == p(w[i as int]));
            if hit {
                let ghost before = out@;
                let c = self.rows[i].copy();
                out.push(c);
                assert(views(out@) =~= views(before).push(w[i as int]));
                assert forall|a: int| 0 <= a < out@.len() implies exists|b: int| 0 <= b < i + 1 && #[trigger] out@[a]@ == w[b] by {
                    if a == out@.len() - 1 {
                        assert(out@[a]@ == w[i as int]);
                    } else {
                        assert(out@[a] == before[a]);
                    }
                }
            }
            i = i + 1;
        }
        proof {
            lemma_filter_grows(w, p, i as int, n as int);
            assert(w.subrange(0, n as int) =~= w);
            if i < n {
                assert(views(out@) =~= w.filter(p).subrange(0, limit as int));
            }
            let ws = w.subrange(0, i as int);
            assert forall|a: int, b: int| 0 <= a < b < ws.len() implies newer(ws[a], ws[b]) by {
                assert(ws[a] == self@.rows[a]);
                assert(ws[b] == self@.rows[b]);
            }
            assert forall|a: int, b: int| 0 <= a < b < ws.filter(p).len() implies newer(ws.filter(p)[a], ws.filter(p)[b]) by {
                lemma_filter_order(ws, p, a, b);
            }
            lemma_views_in_time_order(out@);
        }
        out
    }

    /// Removes the row with id `id`, if there is one.
    pub fn delete_item(&mut self, id: i64)
        ensures
            final(self)@ == (StoreView {
                rows: if has_id(old(self)@.rows, id) { old(self)@.rows.remove(id_index(old(self)@.rows, id)) } else { old(self)@.rows },
                ..old(self)@
            }),
            final(self)@.wf(),
    {
        proof { use_type_invariant(&*self); }
        match self.find_id(id) {
            Some(i) => {
                proof {
                    assert(id_index(self@.rows, id) == i as int);
                    lemma_remove_wf(self@, i as int);
                }
                let ghost s = self@;
                let mut rows: Vec<ClipboardItem> = Vec::new();
                std::mem::swap(&mut rows, &mut self.rows);
                rows.remove(i);
                assert(views(rows@) =~= s.rows.remove(i as int));
                self.rows = rows;
            },
            None => {},
        }
    }

    /// Replaces the tags of the row with id `id`, if there is one.
    pub fn update_tags(&mut self, id: i64, tags: &Option<Vec<String>>)
        ensures
            final(self)@ == (StoreView {
                rows: if has_id(old(self)@.rows, id) {
                    old(self)@.rows.update(id_index(old(self)@.rows, id), retagged(old(self)@.rows[id_index(old(self)@.rows, id)], opt_texts(*tags)))
                } else {
                    old(self)@.rows
                },
                ..old(self)@
            }),
            final(self)@.wf(),
    {
        proof { use_type_invariant(&*self); }
        match self.find_id(id) {
            Some(i) => {
                let ghost s = self@;
                let mut row = self.rows[i].copy();
                row.tags = copy_opt_texts(tags);
                proof {
                    assert(id_index(s.rows, id) == i as int);
                    lemma_update_wf(s, i as int, row@);
                }
                let mut rows: Vec<ClipboardItem> = Vec::new();
                std::mem::swap(&mut rows, &mut self.rows);
                let ghost x = row@;
                rows.set(i, row);
                assert(views(rows@) =~= s.rows.update(i as int, x));
                self.rows = rows;
            },
            None => {},
        }
    }

    /// Every tag in use, once each, with the number of rows that carry it,
    /// most used first (tags used equally often come in the order in which
    /// they first appear, newest row first).
    pub fn get_all_tags(&self) -> (r: Vec<(String, i64)>)
        ensures
            lists_tags(self@.rows, r@),
    {
        proof { use_type_invariant(self); }
        let ghost rows = self@.rows;
        let n = self.rows.len();
        // the distinct tags, in order of first appearance
        let mut names: Vec<String> = Vec::new();
        let mut i: usize = 0;
        while i < n
            invariant
                n == rows.len() == self.rows@.len(),
                rows == self@.rows,
                i <= n,
                forall|a: int, b: int| 0 <= a < names@.len() && 0 <= b < names@.len() && a != b ==> names@[a]@ != names@[b]@,
                forall|a: int| 0 <= a < names@.len() ==> is_tag(rows, #[trigger] names@[a]@),
                forall|j: int, t: Seq<char>| 0 <= j < i && #[trigger] tag_list(rows[j]).contains(t) ==> texts(names@).contains(t),
            decreases n - i,
        {
            assert(rows[i as int] == self.rows@[i as int]@);
            match &self.rows[i].tags {
                Some(tags) => {
                    let mut k: usize = 0;
                    while k < tags.len()
                        invariant
                            n == rows.len() == self.rows@.len(),
                            rows == self@.rows,
                            i < n,
                            k <= tags@.len(),
                            tag_list(rows[i as int]) == texts(tags@),
                            forall|a: int, b: int| 0 <= a < names@.len() && 0 <= b < names@.len() && a != b ==> names@[a]@ != names@[b]@,
                            forall|a: int| 0 <= a < names@.len() ==> is_tag(rows, #[trigger] names@[a]@),
                            forall|j: int, t: Seq<char>| 0 <= j < i && #[trigger] tag_list(rows[j]).contains(t) ==> texts(names@).contains(t),
                            forall|m: int| 0 <= m < k ==> texts(names@).contains(#[trigger] texts(tags@)[m]),
                        decreases tags@.len() - k,
                    {
                        assert(texts(tags@)[k as int] == tags@[k as int]@);
                        match position_of(&names, &tags[k]) {
                            Some(a) => {
                                assert(texts(names@)[a as int] == names@[a as int]@);
                            },
                            None => {
                                let ghost before = names@;
                                assert(tag_list(rows[i as int]).contains(tags@[k as int]@));
                                assert forall|a: int| 0 <= a < before.len() implies before[a]@ != tags@[k as int]@ by {
                                    assert(texts(before)[a] == before[a]@);
                                }
                                names.push(tags[k].clone());
                                proof {
                                    assert(texts(names@) =~= texts(before).push(tags@[k as int]@));
                                    assert forall|a: int| 0 <= a < before.len() implies names@[a] == before[a] by {}
                                    assert forall|m: int| 0 <= m <= k implies texts(names@).contains(#[trigger] texts(tags@)[m]) by {
                                        if m < k {
                                            let w = choose|w: int| 0 <= w < texts(before).len() && texts(before)[w] == texts(tags@)[m];
                                            assert(texts(names@)[w] == texts(before)[w]);
                                        } else {
                                            assert(texts(names@)[before.len() as int] == tags@[k as int]@);
                                        }
                                    }
                                    assert forall|j: int, t: Seq<char>| 0 <= j < i && #[trigger] tag_list(rows[j]).contains(t) implies texts(names@).contains(t) by {
                                        let w = choose|w: int| 0 <= w < texts(before).len() && texts(before)[w] == t;
                                        assert(texts(names@)[w] == texts(before)[w]);
                                    }
                                    assert(is_tag(rows, tags@[k as int]@));
                                }
                            },
                        }
                        k = k + 1;
                    }
                    proof {
                        assert forall|j: int, t: Seq<char>| 0 <= j < i + 1 && #[trigger] tag_list(rows[j]).contains(t) implies texts(names@).contains(t) by {
                            if j == i {
                                let m = choose|m: int| 0 <= m < texts(tags@).len() && texts(tags@)[m] == t;
                            }
                        }
                    }
                },
                None => {
                    assert(tag_list(rows[i as int]) =~= Seq::<Seq<char>>::empty());
                },
            }
            i = i + 1;
        }
        // how many rows carry each of them
        let mut counts: Vec<i64> = Vec::new();
        let mut a: usize = 0;
        while a < names.len()
            invariant
                n == rows.len() == self.rows@.len(),
                rows == self@.rows,
                self@.wf(),
                a <= names@.len(),
                counts@.len() == a,
                forall|b: int| 0 <= b < a ==> #[trigger] counts@[b] == tag_usage(rows, names@[b]@),
            decreases names@.len() - a,
        {
            let mut c: i64 = 0;
            let mut j: usize = 0;
            while j < n
                invariant
                    n == rows.len() == self.rows@.len(),
                    rows == self@.rows,
                    self@.wf(),
                    a < names@.len(),
                    j <= n,
                    c == tag_usage(rows.subrange(0, j as int), names@[a as int]@),
                decreases n - j,
            {
                proof { lemma_tag_usage_bound(rows.subrange(0, j as int), names@[a as int]@); }
                assert(rows.subrange(0, j + 1).drop_last() =~= rows.subrange(0, j as int));
                assert(rows[j as int] == self.rows@[j as int]@);
                if row_has_tag(&self.rows[j], &names[a]) {
                    c = c + 1;
                }
                j = j + 1;
            }
            assert(rows.subrange(0, n as int) =~= rows);
            counts.push(c);
            a = a + 1;
        }
        // emitted by decreasing usage
        proof {
            assert forall|b: int| 0 <= b < names@.len() implies #[trigger] counts@[b] <= n by {
                lemma_tag_usage_bound(rows, names@[b]@);
            }
        }
        let mut out: Vec<(String, i64)> = Vec::new();
        let mut c: i64 = n as i64;
        while c >= 1
            invariant
                n == rows.len() == self.rows@.len(),
                rows == self@.rows,
                self@.wf(),
                0 <= c <= n,
                counts@.len() == names@.len(),
                forall|b: int| 0 <= b < names@.len() ==> #[trigger] counts@[b] == tag_usage(rows, names@[b]@),
                forall|a: int, b: int| 0 <= a < names@.len() && 0 <= b < names@.len() && a != b ==> names@[a]@ != names@[b]@,
                forall|a: int| 0 <= a < names@.len() ==> is_tag(rows, #[trigger] names@[a]@),
                forall|a: int, b: int| 0 <= a < out@.len() && 0 <= b < out@.len() && a != b ==> out@[a].0@ != out@[b].0@,
                forall|a: int| #![trigger out@[a]] 0 <= a < out@.len() ==> is_tag(rows, out@[a].0@) && out@[a].1 == tag_usage(rows, out@[a].0@) && out@[a].1 > c,
                forall|b: int| 0 <= b < names@.len() && counts@[b] > c ==> exists|a: int| 0 <= a < out@.len() && #[trigger] out@[a].0@ == names@[b]@,
                forall|a: int, b: int| 0 <= a < b < out@.len() ==> out@[a].1 >= out@[b].1,
            decreases c,
        {
            let mut b: usize = 0;
            while b < names.len()
                invariant
                    n == rows.len() == self.rows@.len(),
                    rows == self@.rows,
                    1 <= c <= n,
                    b <= names@.len(),
                    counts@.len() == names@.len(),
                    forall|b2: int| 0 <= b2 < names@.len() ==> #[trigger] counts@[b2] == tag_usage(rows, names@[b2]@),
                    forall|a: int, b2: int| 0 <= a < names@.len() && 0 <= b2 < names@.len() && a != b2 ==> names@[a]@ != names@[b2]@,
                    forall|a: int| 0 <= a < names@.len() ==> is_tag(rows, #[trigger] names@[a]@),
                    forall|a: int, b2: int| 0 <= a < out@.len() && 0 <= b2 < out@.len() && a != b2 ==> out@[a].0@ != out@[b2].0@,
                    forall|a: int| #![trigger out@[a]] 0 <= a < out@.len() ==> is_tag(rows, out@[a].0@) && out@[a].1 == tag_usage(rows, out@[a].0@) && out@[a].1 >= c,
                    forall|a: int| 0 <= a < out@.len() && out@[a].1 == c ==> exists|b2: int| 0 <= b2 < b && #[trigger] names@[b2]@ == out@[a].0@,
                    forall|b2: int| 0 <= b2 < names@.len() && (counts@[b2] > c || (counts@[b2] == c && b2 < b)) ==> exists|a: int| 0 <= a < out@.len() && #[trigger] out@[a].0@ == names@[b2]@,
                    forall|a: int, b2: int| 0 <= a < b2 < out@.len() ==> out@[a].1 >= out@[b2].1,
                decreases names@.len() - b,
            {
                if counts[b] == c {
                    let ghost before = out@;
                    out.push((names[b].clone(), c));
                    proof {
                        let last = before.len() as int;
                        assert(out@[last].0@ == names@[b as int]@);
                        assert forall|a: int| 0 <= a < last implies out@[a] == before[a] by {}
                        assert forall|a: int| 0 <= a < last implies out@[a].0@ != names@[b as int]@ by {
                            if before[a].1 == c {
                                let b2 = choose|b2: int| 0 <= b2 < b && #[trigger] names@[b2]@ == before[a].0@;
                            }
                        }
                        assert forall|b2: int| 0 <= b2 < names@.len() && (counts@[b2] > c || (counts@[b2] == c && b2 < b + 1)) implies exists|a: int| 0 <= a < out@.len() && #[trigger] out@[a].0@ == names@[b2]@ by {
                            if b2 == b {
                                assert(out@[last].0@ == names@[b2]@);
                            } else {
                                let a = choose|a: int| 0 <= a < before.len() && #[trigger] before[a].0@ == names@[b2]@;
                                assert(out@[a].0@ == names@[b2]@);
                            }
                        }
                        assert forall|a: int| 0 <= a < out@.len() && out@[a].1 == c implies exists|b3: int| 0 <= b3 < b + 1 && #[trigger] names@[b3]@ == out@[a].0@ by {
                            if a == last {
                                assert(names@[b as int]@ == out@[a].0@);
                            } else {
                                let b3 = choose|b3: int| 0 <= b3 < b && #[trigger] names@[b3]@ == before[a].0@;
                                assert(names@[b3]@ == out@[a].0@);
                            }
                        }
                    }
                }
                b = b + 1;
            }
            c = c - 1;
        }
        proof {
            assert forall|t: Seq<char>| is_tag(rows, t) implies exists|a: int| 0 <= a < out@.len() && #[trigger] out@[a].0@ == t by {
                let i = choose|i: int| 0 <= i < rows.len() && #[trigger] tag_list(rows[i]).contains(t);
                let w = choose|w: int| 0 <= w < texts(names@).len() && texts(names@)[w] == t;
                assert(texts(names@)[w] == names@[w]@);
                lemma_tag_usage_positive(rows, t, i);
                assert(counts@[w] > 0);
            }
        }
        out
    }

    /// Retention eviction at time `now` (microseconds since the epoch):
    /// with `keep_count = n`, keeps the `n` most recent rows (all of them
    /// when `n` is negative); else with `keep_days = d`, keeps the rows
    /// captured at or after `now - d` days; with neither, removes every row.
    /// Returns how many rows were removed.
    pub fn clear_history_at(&mut self, request: &ClearHistoryRequest, now: i64) -> (r: i64)
        ensures
            final(self)@ == (StoreView {
                rows: cleared(old(self)@.rows, request.keep_count, request.keep_days, now),
                ..old(self)@
            }),
            r == old(self)@.rows.len() - final(self)@.rows.len(),
            final(self)@.wf(),
    {
        proof { use_type_invariant(&*self); }
        let ghost s = self@;
        let n = self.rows.len();
        let k: usize = match request.keep_count {
            Some(c) => {
                if c < 0 || c as u64 >= n as u64 {
                    n
                } else {
                    c as usize
                }
            },
            None => match request.keep_days {
                Some(d) => {
                    let cutoff: i128 = now as i128 - (d as i128) * (MICROS_PER_DAY as i128);
                    let mut k: usize = 0;
                    while k < n && self.rows[k].created_at as i128 >= cutoff
                        invariant
                            self@ == s,
                            k <= n == self.rows@.len(),
                            cutoff == age_cutoff(now, d),
                            forall|j: int| 0 <= j < k ==> captured_since(cutoff as int)(s.rows[j]),
                        decreases n - k,
                    {
                        assert(self.rows@[k as int]@ == s.rows[k as int]);
                        k = k + 1;
                    }
                    proof {
                        if k < n {
                            assert(self.rows@[k as int]@ == s.rows[k as int]);
                        }
                        assert forall|j: int| k <= j < n implies !captured_since(cutoff as int)(s.rows[j]) by {
                            if j > k {
                                assert(newer(s.rows[k as int], s.rows[j]));
                            }
                        }
                        lemma_filter_is_prefix(s.rows, captured_since(cutoff as int), k as int);
                    }
                    k
                },
                None => 0,
            },
        };
        proof {
            lemma_prefix_wf(s, k as int);
            assert(s.rows.subrange(0, n as int) =~= s.rows);
            assert(s.rows.subrange(0, 0) =~= Seq::<ItemView>::empty());
            assert(s.rows.subrange(0, k as int) == cleared(s.rows, request.keep_count, request.keep_days, now));
        }
        let mut rows: Vec<ClipboardItem> = Vec::new();
        std::mem::swap(&mut rows, &mut self.rows);
        rows.truncate(k);
        assert(views(rows@) =~= s.rows.subrange(0, k as int));
        self.rows = rows;
        (n - k) as i64
    }

    /// Retention eviction at the current time; see `clear_history_at`.
    pub fn clear_history(&mut self, request: &ClearHistoryRequest) -> (r: i64)
        ensures
            exists|now: i64| final(self)@ == (StoreView {
                rows: #[trigger] cleared(old(self)@.rows, request.keep_count, request.keep_days, now),
                ..old(self)@
            }),
            r == old(self)@.rows.len() - final(self)@.rows.len(),
    {
        let now = now_micros();
        self.clear_history_at(request, now)
    }
}

proof fn lemma_removed_ids(s: StoreView, i: int)
    requires
        s.wf(),
        0 <= i < s.rows.len(),
    ensures
        forall|j: int| 0 <= j < s.rows.len() - 1 ==> #[trigger] s.rows.remove(i)[j].id != s.rows[i].id,
        sorted_newest_first(s.rows.remove(i)),
{
    let t = s.rows.remove(i);
    assert forall|j: int| 0 <= j < s.rows.len() - 1 implies #[trigger] t[j].id != s.rows[i].id by {
        let j1 = if j < i { j } else { j + 1 };
        assert(t[j] == s.rows[j1]);
    }
    assert forall|a: int, b: int| 0 <= a < b < t.len() implies newer(t[a], t[b]) by {
        let a1 = if a < i { a } else { a + 1 };
        let b1 = if b < i { b } else { b + 1 };
        assert(t[a] == s.rows[a1]);
        assert(t[b] == s.rows[b1]);
    }
}

proof fn lemma_promoted_wf(s: StoreView, i: int, k: int, t: i64)
    requires
        s.wf(),
        0 <= i < s.rows.len(),
        0 <= k < s.rows.len(),
        sorted_newest_first(s.rows.remove(i).insert(k, promoted(s.rows[i], t))),
    ensures
        (StoreView { rows: s.rows.remove(i).insert(k, promoted(s.rows[i], t)), ..s }).wf(),
{
    let u = s.rows.remove(i).insert(k, promoted(s.rows[i], t));
    assert forall|a: int| 0 <= a < u.len() implies #[trigger] u[a].id == s.rows[
        if a < k { if a < i { a } else { a + 1 } } else if a == k { i } else { if a - 1 < i { a - 1 } else { a } }
    ].id && u[a].content_hash == s.rows[
        if a < k { if a < i { a } else { a + 1 } } else if a == k { i } else { if a - 1 < i { a - 1 } else { a } }
    ].content_hash by {
    }
}

proof fn lemma_stored_wf(s: StoreView, item: ItemView, k: int)
    requires
        s.wf(),
        s.next_id < i64::MAX,
        !has_hash(s.rows, item.content_hash),
        0 <= k <= s.rows.len(),
        sorted_newest_first(s.rows.insert(k, stored(item, s.next_id))),
    ensures
        (StoreView {
            rows: s.rows.insert(k, stored(item, s.next_id)),
            next_id: (s.next_id + 1) as i64,
            ..s
        }).wf(),
{
    let u = s.rows.insert(k, stored(item, s.next_id));
    assert forall|a: int| 0 <= a < u.len() && a != k implies #[trigger] u[a] == s.rows[
        if a < k { a } else { a - 1 }
    ] by {
    }
    assert(u[k] == stored(item, s.next_id));
}

} // verus!
