//! Properties of the store that hold across calls: deduplication over any
//! sequence of captures, the promotion law, the retention bound, and that
//! re-importing an export adds no rows.

use vstd::prelude::*;
use crate::clipboard::{EXPORT_LIMIT, capture_outcome, evicted, import_outcome};
use crate::decimal::{all_digits, decimal_in, decimal_of, decimal_text, digit_char, digits_text, digits_value};
use crate::models::{AppSettings, ItemView, same_settings};
use crate::storage::{
    StoreView, add_outcome, has_hash, hash_index, lemma_add_keeps_wf, lemma_insert_sorted_place,
    lemma_prefix_wf, page, promoted, unique_hashes, bool_of, bool_text, saved_table, settings_read,
    position_text,
};

verus! {

/// The store after capturing `items` in order, with fixed settings.
pub open spec fn after_captures(s: StoreView, max: i64, items: Seq<ItemView>, auto_sort: bool) -> StoreView
    decreases items.len(),
{
    if items.len() == 0 {
        s
    } else {
        capture_outcome(after_captures(s, max, items.drop_last(), auto_sort), max, items.last(), auto_sort).0
    }
}

/// The pre-insert eviction keeps the store well formed.
pub proof fn lemma_evicted_wf(s: StoreView, max: i64)
    requires
        s.wf(),
    ensures
        evicted(s, max).wf(),
{
    if max >= 1 && s.rows.len() >= max {
        lemma_prefix_wf(s, max - 1);
    }
}

/// Deduplication: after any sequence of captures into a well-formed store,
/// no two rows share a content hash (and the store stays well formed).
pub proof fn lemma_captures_keep_hashes_unique(s: StoreView, max: i64, items: Seq<ItemView>, auto_sort: bool)
    requires
        s.wf(),
    ensures
        after_captures(s, max, items, auto_sort).wf(),
        unique_hashes(after_captures(s, max, items, auto_sort).rows),
    decreases items.len(),
{
    if items.len() > 0 {
        lemma_captures_keep_hashes_unique(s, max, items.drop_last(), auto_sort);
        let before = after_captures(s, max, items.drop_last(), auto_sort);
        lemma_evicted_wf(before, max);
        lemma_add_keeps_wf(evicted(before, max), items.last(), auto_sort);
    }
}

/// Promotion: inserting an item whose content hash is already stored
/// creates no row and returns the stored row's id. With `auto_sort` that
/// row (same id, same hash) now carries the item's capture time; without
/// it the store is unchanged.
pub proof fn lemma_promotion(s: StoreView, item: ItemView, auto_sort: bool)
    requires
        s.wf(),
        has_hash(s.rows, item.content_hash),
    ensures
        ({
            let (t, r) = add_outcome(s, item, auto_sort);
            let old_row = s.rows[hash_index(s.rows, item.content_hash)];
            &&& t.rows.len() == s.rows.len()
            &&& r == Ok::<i64, crate::storage::StoreError>(old_row.id)
            &&& auto_sort ==> exists|j: int| 0 <= j < t.rows.len() && #[trigger] t.rows[j] == promoted(old_row, item.created_at)
            &&& !auto_sort ==> t == s
        }),
{
    let i = hash_index(s.rows, item.content_hash);
    if auto_sort {
        let x = promoted(s.rows[i], item.created_at);
        let k = lemma_insert_sorted_place(s.rows.remove(i), x);
        let t = add_outcome(s, item, auto_sort).0;
        assert(t.rows[k] == x);
    }
}

/// Inserting adds at most one row.
pub proof fn lemma_add_grows_by_at_most_one(s: StoreView, item: ItemView, auto_sort: bool)
    ensures
        add_outcome(s, item, auto_sort).0.rows.len() <= s.rows.len() + 1,
{
    if has_hash(s.rows, item.content_hash) {
        if auto_sort {
            let i = hash_index(s.rows, item.content_hash);
            lemma_insert_sorted_place(s.rows.remove(i), promoted(s.rows[i], item.created_at));
        }
    } else if s.next_id < i64::MAX {
        lemma_insert_sorted_place(s.rows, crate::storage::stored(item, s.next_id));
    }
}

/// Retention bound: with `max_history_count` at least 1, a capture leaves
/// at most `max_history_count` rows, however many there were before.
pub proof fn lemma_capture_respects_limit(s: StoreView, max: i64, item: ItemView, auto_sort: bool)
    requires
        max >= 1,
    ensures
        capture_outcome(s, max, item, auto_sort).0.rows.len() <= max,
{
    lemma_add_grows_by_at_most_one(evicted(s, max), item, auto_sort);
}

/// A duplicate insert with `auto_sort` keeps every stored hash and the row
/// count.
proof fn lemma_promotion_keeps_hashes(s: StoreView, item: ItemView)
    requires
        s.wf(),
        has_hash(s.rows, item.content_hash),
    ensures
        add_outcome(s, item, true).0.rows.len() == s.rows.len(),
        forall|h: Seq<char>| has_hash(s.rows, h) ==> has_hash(add_outcome(s, item, true).0.rows, h),
{
    let i = hash_index(s.rows, item.content_hash);
    let x = promoted(s.rows[i], item.created_at);
    let r = s.rows.remove(i);
    let k = lemma_insert_sorted_place(r, x);
    let t = add_outcome(s, item, true).0.rows;
    assert(t == r.insert(k, x));
    assert forall|h: Seq<char>| has_hash(s.rows, h) implies has_hash(t, h) by {
        let j = choose|j: int| 0 <= j < s.rows.len() && s.rows[j].content_hash == h;
        if j == i {
            assert(t[k].content_hash == h);
        } else {
            let j1 = if j < i { j } else { j - 1 };
            assert(r[j1] == s.rows[j]);
            let j2 = if j1 < k { j1 } else { j1 + 1 };
            assert(t[j2] == r[j1]);
        }
    }
}

/// Importing items whose hashes are all stored already changes no row
/// count and keeps every stored hash.
pub proof fn lemma_import_of_stored_keeps_count(s: StoreView, items: Seq<ItemView>)
    requires
        s.wf(),
        forall|j: int| 0 <= j < items.len() ==> has_hash(s.rows, #[trigger] items[j].content_hash),
    ensures
        import_outcome(s, items).0.wf(),
        import_outcome(s, items).0.rows.len() == s.rows.len(),
        forall|h: Seq<char>| has_hash(s.rows, h) ==> has_hash(import_outcome(s, items).0.rows, h),
    decreases items.len(),
{
    if items.len() > 0 {
        let d = items.drop_last();
        assert forall|j: int| 0 <= j < d.len() implies has_hash(s.rows, #[trigger] d[j].content_hash) by {
            assert(d[j] == items[j]);
        }
        lemma_import_of_stored_keeps_count(s, d);
        let before = import_outcome(s, d).0;
        assert(has_hash(s.rows, items[items.len() - 1].content_hash));
        lemma_promotion_keeps_hashes(before, items.last());
        lemma_add_keeps_wf(before, items.last(), true);
    }
}

/// Re-importing an export of a store, with no capture in between, leaves
/// the row count as it was.
pub proof fn lemma_reimport_of_export_keeps_count(s: StoreView)
    requires
        s.wf(),
    ensures
        import_outcome(s, page(s.rows, EXPORT_LIMIT, 0)).0.rows.len() == s.rows.len(),
{
    let e = page(s.rows, EXPORT_LIMIT, 0);
    assert forall|j: int| 0 <= j < e.len() implies has_hash(s.rows, #[trigger] e[j].content_hash) by {
        assert(e[j] == s.rows[j]);
    }
    lemma_import_of_stored_keeps_count(s, e);
}

proof fn lemma_digits_text(n: nat)
    ensures
        digits_text(n).len() >= 1,
        all_digits(digits_text(n)),
        digits_value(digits_text(n)) == n,
    decreases n,
{
    if n >= 10 {
        lemma_digits_text(n / 10);
        let d = digits_text(n / 10);
        assert(digits_text(n).drop_last() == d);
        assert(digits_text(n).last() == digit_char((n % 10) as nat));
        assert(digit_char((n % 10) as nat) as int == n % 10 + 48);
        assert(n == (n / 10) * 10 + n % 10);
        assert(digits_value(digits_text(n)) == digits_value(d) * 10 + (digits_text(n).last() as int - 48));
        assert(digits_value(d) == n / 10);
        assert(digits_text(n).last() as int - 48 == n % 10);
        assert(digits_value(digits_text(n)) == n);
        assert forall|i: int| 0 <= i < digits_text(n).len() implies crate::decimal::is_digit(#[trigger] digits_text(n)[i]) by {
            if i < d.len() {
                assert(digits_text(n)[i] == d[i]);
            }
        }
    } else {
        assert(seq![digit_char(n)].drop_last() =~= Seq::<char>::empty());
        assert(digit_char(n) as int == n + 48);
        assert(digits_value(seq![digit_char(n)]) == digits_value(Seq::<char>::empty()) * 10 + (digit_char(n) as int - 48));
    }
}

/// Decimal text reads back as the integer it was made from.
pub proof fn lemma_decimal_round_trip(v: int)
    ensures
        decimal_of(decimal_text(v)) == Some(v),
{
    if v < 0 {
        lemma_digits_text((-v) as nat);
        let s = decimal_text(v);
        assert(s.drop_first() =~= digits_text((-v) as nat));
    } else {
        lemma_digits_text(v as nat);
        assert(crate::decimal::is_digit(digits_text(v as nat)[0]));
    }
}

/// What tells the setting keys apart: their lengths and a few characters.
proof fn lemma_setting_keys()
    ensures
        "max_history_count"@.len() == 17,
        "max_history_count"@[0] == 'm',
        "max_history_count"@[5] == 'i',
        "max_history_count"@[11] == '_',
        "auto_cleanup_days"@.len() == 17,
        "auto_cleanup_days"@[0] == 'a',
        "auto_cleanup_days"@[5] == 'c',
        "auto_cleanup_days"@[11] == 'p',
        "window_position"@.len() == 15,
        "window_position"@[0] == 'w',
        "window_position"@[5] == 'w',
        "window_position"@[11] == 't',
        "window_pos_x"@.len() == 12,
        "window_pos_x"@[0] == 'w',
        "window_pos_x"@[5] == 'w',
        "window_pos_x"@[11] == 'x',
        "window_pos_y"@.len() == 12,
        "window_pos_y"@[0] == 'w',
        "window_pos_y"@[5] == 'w',
        "window_pos_y"@[11] == 'y',
        "smart_activate"@.len() == 14,
        "smart_activate"@[0] == 's',
        "smart_activate"@[5] == '_',
        "smart_activate"@[11] == 'a',
        "copy_sound"@.len() == 10,
        "copy_sound"@[0] == 'c',
        "copy_sound"@[5] == 's',
        "search_position"@.len() == 15,
        "search_position"@[0] == 's',
        "search_position"@[5] == 'h',
        "search_position"@[11] == 't',
        "auto_focus_search"@.len() == 17,
        "auto_focus_search"@[0] == 'a',
        "auto_focus_search"@[5] == 'f',
        "auto_focus_search"@[11] == 's',
        "click_action"@.len() == 12,
        "click_action"@[0] == 'c',
        "click_action"@[5] == '_',
        "click_action"@[11] == 'n',
        "double_click_action"@.len() == 19,
        "double_click_action"@[0] == 'd',
        "double_click_action"@[5] == 'e',
        "double_click_action"@[11] == 'k',
        "paste_shortcut"@.len() == 14,
        "paste_shortcut"@[0] == 'p',
        "paste_shortcut"@[5] == '_',
        "paste_shortcut"@[11] == 'c',
        "hide_window_after_copy"@.len() == 22,
        "hide_window_after_copy"@[0] == 'h',
        "hide_window_after_copy"@[5] == 'w',
        "hide_window_after_copy"@[11] == '_',
        "image_ocr"@.len() == 9,
        "image_ocr"@[0] == 'i',
        "image_ocr"@[5] == '_',
        "copy_as_plain_text"@.len() == 18,
        "copy_as_plain_text"@[0] == 'c',
        "copy_as_plain_text"@[5] == 'a',
        "copy_as_plain_text"@[11] == 'i',
        "paste_as_plain_text"@.len() == 19,
        "paste_as_plain_text"@[0] == 'p',
        "paste_as_plain_text"@[5] == '_',
        "paste_as_plain_text"@[11] == 'a',
        "confirm_delete"@.len() == 14,
        "confirm_delete"@[0] == 'c',
        "confirm_delete"@[5] == 'r',
        "confirm_delete"@[11] == 'e',
        "auto_sort"@.len() == 9,
        "auto_sort"@[0] == 'a',
        "auto_sort"@[5] == 's',
        "hotkey"@.len() == 6,
        "hotkey"@[0] == 'h',
        "hotkey"@[5] == 'y',
        "auto_start"@.len() == 10,
        "auto_start"@[0] == 'a',
        "auto_start"@[5] == 's',
        "number_key_shortcut"@.len() == 19,
        "number_key_shortcut"@[0] == 'n',
        "number_key_shortcut"@[5] == 'r',
        "number_key_shortcut"@[11] == 's',
{
    reveal_strlit("max_history_count");
    reveal_strlit("auto_cleanup_days");
    reveal_strlit("window_position");
    reveal_strlit("window_pos_x");
    reveal_strlit("window_pos_y");
    reveal_strlit("smart_activate");
    reveal_strlit("copy_sound");
    reveal_strlit("search_position");
    reveal_strlit("auto_focus_search");
    reveal_strlit("click_action");
    reveal_strlit("double_click_action");
    reveal_strlit("paste_shortcut");
    reveal_strlit("hide_window_after_copy");
    reveal_strlit("image_ocr");
    reveal_strlit("copy_as_plain_text");
    reveal_strlit("paste_as_plain_text");
    reveal_strlit("confirm_delete");
    reveal_strlit("auto_sort");
    reveal_strlit("hotkey");
    reveal_strlit("auto_start");
    reveal_strlit("number_key_shortcut");
}

proof fn lemma_saved_max_history_count(t: Map<Seq<char>, Seq<char>>, s: AppSettings)
    ensures
        saved_table(t, s).contains_key("max_history_count"@),
        saved_table(t, s)["max_history_count"@] == decimal_text(s.max_history_count as int),
{
    lemma_setting_keys();
}

proof fn lemma_saved_auto_cleanup_days(t: Map<Seq<char>, Seq<char>>, s: AppSettings)
    ensures
        saved_table(t, s).contains_key("auto_cleanup_days"@),
        saved_table(t, s)["auto_cleanup_days"@] == decimal_text(s.auto_cleanup_days as int),
{
    lemma_setting_keys();
}

proof fn lemma_saved_window_position(t: Map<Seq<char>, Seq<char>>, s: AppSettings)
    ensures
        saved_table(t, s).contains_key("window_position"@),
        saved_table(t, s)["window_position"@] == s.window_position@,
{
    lemma_setting_keys();
}

proof fn lemma_saved_window_pos_x(t: Map<Seq<char>, Seq<char>>, s: AppSettings)
    ensures
        saved_table(t, s).contains_key("window_pos_x"@),
        saved_table(t, s)["window_pos_x"@] == position_text(s.window_pos_x),
{
    lemma_setting_keys();
}

proof fn lemma_saved_window_pos_y(t: Map<Seq<char>, Seq<char>>, s: AppSettings)
    ensures
        saved_table(t, s).contains_key("window_pos_y"@),
        saved_table(t, s)["window_pos_y"@] == position_text(s.window_pos_y),
{
    lemma_setting_keys();
}

proof fn lemma_saved_smart_activate(t: Map<Seq<char>, Seq<char>>, s: AppSettings)
    ensures
        saved_table(t, s).contains_key("smart_activate"@),
        saved_table(t, s)["smart_activate"@] == bool_text(s.smart_activate),
{
    lemma_setting_keys();
}

proof fn lemma_saved_copy_sound(t: Map<Seq<char>, Seq<char>>, s: AppSettings)
    ensures
        saved_table(t, s).contains_key("copy_sound"@),
        saved_table(t, s)["copy_sound"@] == bool_text(s.copy_sound),
{
    lemma_setting_keys();
}

proof fn lemma_saved_search_position(t: Map<Seq<char>, Seq<char>>, s: AppSettings)
    ensures
        saved_table(t, s).contains_key("search_position"@),
        saved_table(t, s)["search_position"@] == s.search_position@,
{
    lemma_setting_keys();
}

proof fn lemma_saved_focus_search_on_activate(t: Map<Seq<char>, Seq<char>>, s: AppSettings)
    ensures
        saved_table(t, s).contains_key("auto_focus_search"@),
        saved_table(t, s)["auto_focus_search"@] == bool_text(s.focus_search_on_activate),
{
    lemma_setting_keys();
}

proof fn lemma_saved_click_action(t: Map<Seq<char>, Seq<char>>, s: AppSettings)
    ensures
        saved_table(t, s).contains_key("click_action"@),
        saved_table(t, s)["click_action"@] == s.click_action@,
{
    lemma_setting_keys();
}

proof fn lemma_saved_double_click_action(t: Map<Seq<char>, Seq<char>>, s: AppSettings)
    ensures
        saved_table(t, s).contains_key("double_click_action"@),
        saved_table(t, s)["double_click_action"@] == s.double_click_action@,
{
    lemma_setting_keys();
}

proof fn lemma_saved_paste_shortcut(t: Map<Seq<char>, Seq<char>>, s: AppSettings)
    ensures
        saved_table(t, s).contains_key("paste_shortcut"@),
        saved_table(t, s)["paste_shortcut"@] == s.paste_shortcut@,
{
    lemma_setting_keys();
}

proof fn lemma_saved_hide_window_after_copy(t: Map<Seq<char>, Seq<char>>, s: AppSettings)
    ensures
        saved_table(t, s).contains_key("hide_window_after_copy"@),
        saved_table(t, s)["hide_window_after_copy"@] == bool_text(s.hide_window_after_copy),
{
    lemma_setting_keys();
}

proof fn lemma_saved_image_ocr(t: Map<Seq<char>, Seq<char>>, s: AppSettings)
    ensures
        saved_table(t, s).contains_key("image_ocr"@),
        saved_table(t, s)["image_ocr"@] == bool_text(s.image_ocr),
{
    lemma_setting_keys();
}

proof fn lemma_saved_copy_as_plain_text(t: Map<Seq<char>, Seq<char>>, s: AppSettings)
    ensures
        saved_table(t, s).contains_key("copy_as_plain_text"@),
        saved_table(t, s)["copy_as_plain_text"@] == bool_text(s.copy_as_plain_text),
{
    lemma_setting_keys();
}

proof fn lemma_saved_paste_as_plain_text(t: Map<Seq<char>, Seq<char>>, s: AppSettings)
    ensures
        saved_table(t, s).contains_key("paste_as_plain_text"@),
        saved_table(t, s)["paste_as_plain_text"@] == bool_text(s.paste_as_plain_text),
{
    lemma_setting_keys();
}

proof fn lemma_saved_confirm_delete(t: Map<Seq<char>, Seq<char>>, s: AppSettings)
    ensures
        saved_table(t, s).contains_key("confirm_delete"@),
        saved_table(t, s)["confirm_delete"@] == bool_text(s.confirm_delete),
{
    lemma_setting_keys();
}

proof fn lemma_saved_auto_sort(t: Map<Seq<char>, Seq<char>>, s: AppSettings)
    ensures
        saved_table(t, s).contains_key("auto_sort"@),
        saved_table(t, s)["auto_sort"@] == bool_text(s.auto_sort),
{
    lemma_setting_keys();
}

proof fn lemma_saved_hotkey(t: Map<Seq<char>, Seq<char>>, s: AppSettings)
    ensures
        saved_table(t, s).contains_key("hotkey"@),
        saved_table(t, s)["hotkey"@] == s.hotkey@,
{
    lemma_setting_keys();
}

proof fn lemma_saved_auto_start(t: Map<Seq<char>, Seq<char>>, s: AppSettings)
    ensures
        saved_table(t, s).contains_key("auto_start"@),
        saved_table(t, s)["auto_start"@] == bool_text(s.auto_start),
{
    lemma_setting_keys();
}

proof fn lemma_saved_number_key_shortcut(t: Map<Seq<char>, Seq<char>>, s: AppSettings)
    ensures
        saved_table(t, s).contains_key("number_key_shortcut"@),
        saved_table(t, s)["number_key_shortcut"@] == s.number_key_shortcut@,
{
    lemma_setting_keys();
}

proof fn lemma_bool_round_trip(b: bool)
    ensures
        bool_of(bool_text(b)) == Some(b),
{
    reveal_strlit("true");
    reveal_strlit("false");
    assert("true"@.len() == 4);
    assert("false"@.len() == 5);
    assert("true"@ != "false"@);
}

/// Saving settings and reading them back gives the same settings.
pub proof fn lemma_settings_round_trip(t: Map<Seq<char>, Seq<char>>, s: AppSettings, r: AppSettings)
    requires
        settings_read(r, saved_table(t, s)),
    ensures
        same_settings(r, s),
{
    lemma_saved_max_history_count(t, s);
    lemma_saved_auto_cleanup_days(t, s);
    lemma_saved_window_position(t, s);
    lemma_saved_window_pos_x(t, s);
    lemma_saved_window_pos_y(t, s);
    lemma_saved_smart_activate(t, s);
    lemma_saved_copy_sound(t, s);
    lemma_saved_search_position(t, s);
    lemma_saved_focus_search_on_activate(t, s);
    lemma_saved_click_action(t, s);
    lemma_saved_double_click_action(t, s);
    lemma_saved_paste_shortcut(t, s);
    lemma_saved_hide_window_after_copy(t, s);
    lemma_saved_image_ocr(t, s);
    lemma_saved_copy_as_plain_text(t, s);
    lemma_saved_paste_as_plain_text(t, s);
    lemma_saved_confirm_delete(t, s);
    lemma_saved_auto_sort(t, s);
    lemma_saved_hotkey(t, s);
    lemma_saved_auto_start(t, s);
    lemma_saved_number_key_shortcut(t, s);
    lemma_decimal_round_trip(s.max_history_count as int);
    lemma_decimal_round_trip(s.auto_cleanup_days as int);
    match s.window_pos_x {
        Some(x) => lemma_decimal_round_trip(x as int),
        None => {},
    }
    match s.window_pos_y {
        Some(y) => lemma_decimal_round_trip(y as int),
        None => {},
    }
    lemma_bool_round_trip(s.smart_activate);
    lemma_bool_round_trip(s.copy_sound);
    lemma_bool_round_trip(s.focus_search_on_activate);
    lemma_bool_round_trip(s.hide_window_after_copy);
    lemma_bool_round_trip(s.image_ocr);
    lemma_bool_round_trip(s.copy_as_plain_text);
    lemma_bool_round_trip(s.paste_as_plain_text);
    lemma_bool_round_trip(s.confirm_delete);
    lemma_bool_round_trip(s.auto_sort);
    lemma_bool_round_trip(s.auto_start);
}

} // verus!
