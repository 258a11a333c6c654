use clipboard_history::clipboard::ClipboardManager;
use clipboard_history::models::{
    AppSettings, ClearHistoryRequest, ClipboardContentType, ClipboardItem, GetHistoryRequest,
    SearchRequest,
};
use clipboard_history::storage::{Database, StoreError, MICROS_PER_DAY};

fn settings(max: i64, auto_sort: bool) -> AppSettings {
    let mut s = AppSettings::default();
    s.max_history_count = max;
    s.auto_sort = auto_sort;
    s
}

fn manager(max: i64, auto_sort: bool) -> ClipboardManager {
    ClipboardManager::new(Database::new(), settings(max, auto_sort))
}

fn capture(m: &mut ClipboardManager, text: &str, now: i64) -> ClipboardItem {
    m.handle_clipboard_change_at(text.to_string(), None, now).unwrap().unwrap()
}

fn history(m: &ClipboardManager) -> Vec<ClipboardItem> {
    m.get_history(GetHistoryRequest { limit: Some(-1), offset: None }).unwrap()
}

fn item(text: &str, created_at: i64) -> ClipboardItem {
    ClipboardItem {
        id: 0,
        content_type: ClipboardContentType::Text,
        content: text.to_string(),
        created_at,
        content_hash: format!("hash-{}", text),
        metadata: None,
        file_paths: None,
        thumbnail_path: None,
        tags: None,
    }
}

#[test]
fn repeated_capture_without_auto_sort_keeps_one_row() {
    let mut m = manager(100, false);
    let first = capture(&mut m, "hello", 10);
    let second = capture(&mut m, "hello", 20);
    let rows = history(&m);
    assert_eq!(rows.len(), 1);
    assert_eq!(first.content_hash, second.content_hash);
    assert_eq!(first.id, second.id);
    assert_eq!(rows[0].created_at, 10);
}

#[test]
fn repeated_capture_with_auto_sort_promotes() {
    let mut m = manager(100, true);
    capture(&mut m, "hello", 10);
    capture(&mut m, "world", 20);
    let third = capture(&mut m, "hello", 30);
    let rows = history(&m);
    assert_eq!(rows.len(), 2);
    assert_eq!(rows[0].content, "hello");
    assert_eq!(rows[0].created_at, 30);
    assert_eq!(rows[0].created_at, third.created_at);
    assert_eq!(rows[1].content, "world");
}

#[test]
fn capture_evicts_oldest_at_limit() {
    let mut m = manager(3, false);
    for (i, t) in ["A", "B", "C", "D"].iter().enumerate() {
        capture(&mut m, t, 10 * (i as i64 + 1));
    }
    let rows = history(&m);
    let texts: Vec<&str> = rows.iter().map(|r| r.content.as_str()).collect();
    assert_eq!(texts, vec!["D", "C", "B"]);
    assert_eq!(m.into_database().get_count(), 3);
}

#[test]
fn html_capture_stores_markup() {
    let mut m = manager(10, false);
    let it = m.handle_clipboard_change_at("plain".to_string(), Some("<b>x</b>".to_string()), 5).unwrap().unwrap();
    assert_eq!(it.content_type, ClipboardContentType::Html);
    assert_eq!(it.content, "<b>x</b>");
    assert_eq!(it.id, 1);
}

#[test]
fn extended_capture_hashes_paths() {
    let mut m = manager(10, false);
    let a = m
        .handle_clipboard_change_extended_at(ClipboardContentType::File, "f".to_string(), Some(vec!["/a".to_string()]), None, None, 1)
        .unwrap()
        .unwrap();
    let b = m
        .handle_clipboard_change_extended_at(ClipboardContentType::File, "f".to_string(), Some(vec!["/b".to_string()]), None, None, 2)
        .unwrap()
        .unwrap();
    assert_ne!(a.content_hash, b.content_hash);
    assert_ne!(a.id, b.id);
    assert_eq!(history(&m).len(), 2);
}

#[test]
fn capture_with_clock() {
    let mut m = manager(10, false);
    let it = m.handle_clipboard_change("now".to_string(), None).unwrap().unwrap();
    assert!(it.created_at > 0);
    assert_eq!(history(&m).len(), 1);
}

#[test]
fn search_finds_native_text_by_initials() {
    let mut m = manager(100, false);
    capture(&mut m, "工学", 10);
    capture(&mut m, "other", 20);
    let found = m.search_history(SearchRequest { query: "gx".to_string(), limit: Some(10) }).unwrap();
    assert_eq!(found.len(), 1);
    assert_eq!(found[0].content, "工学");
}

#[test]
fn search_matches_tags_and_keeps_order() {
    let mut db = Database::new();
    let a = db.add_clipboard_item(&item("alpha", 1), false).unwrap();
    db.add_clipboard_item(&item("beta", 2), false).unwrap();
    db.add_clipboard_item(&item("gamma alp", 3), false).unwrap();
    db.update_tags(a, &Some(vec!["work".to_string()]));
    let found = db.search_history("alp", -1);
    let texts: Vec<&str> = found.iter().map(|r| r.content.as_str()).collect();
    assert_eq!(texts, vec!["gamma alp", "alpha"]);
    let by_tag = db.search_history("work", 10);
    assert_eq!(by_tag.len(), 1);
    assert_eq!(by_tag[0].id, a);
    assert_eq!(db.search_history("alp", 1).len(), 1);
}

#[test]
fn clear_by_age_keeps_recent_rows() {
    let now = 1_000 * MICROS_PER_DAY;
    let mut db = Database::new();
    db.add_clipboard_item(&item("old", now - 8 * MICROS_PER_DAY), false).unwrap();
    db.add_clipboard_item(&item("new", now - MICROS_PER_DAY), false).unwrap();
    let removed = db.clear_history_at(&ClearHistoryRequest { keep_count: None, keep_days: Some(7) }, now);
    assert_eq!(removed, 1);
    let rows = db.get_history(-1, 0);
    assert_eq!(rows.len(), 1);
    assert_eq!(rows[0].content, "new");
}

#[test]
fn clear_by_age_keeps_row_at_cutoff() {
    let now = 1_000 * MICROS_PER_DAY;
    let mut db = Database::new();
    db.add_clipboard_item(&item("edge", now - 7 * MICROS_PER_DAY), false).unwrap();
    let removed = db.clear_history_at(&ClearHistoryRequest { keep_count: None, keep_days: Some(7) }, now);
    assert_eq!(removed, 0);
}

#[test]
fn clear_by_count_and_all() {
    let mut db = Database::new();
    for i in 0..5 {
        db.add_clipboard_item(&item(&format!("t{}", i), i), false).unwrap();
    }
    assert_eq!(db.clear_history_at(&ClearHistoryRequest { keep_count: Some(2), keep_days: Some(0) }, 0), 3);
    let rows = db.get_history(-1, 0);
    assert_eq!(rows.iter().map(|r| r.created_at).collect::<Vec<_>>(), vec![4, 3]);
    assert_eq!(db.clear_history_at(&ClearHistoryRequest { keep_count: Some(-1), keep_days: None }, 0), 0);
    assert_eq!(db.clear_history_at(&ClearHistoryRequest { keep_count: None, keep_days: None }, 0), 2);
    assert_eq!(db.get_count(), 0);
}

#[test]
fn equal_times_break_ties_by_id() {
    let mut db = Database::new();
    let a = db.add_clipboard_item(&item("a", 5), false).unwrap();
    let b = db.add_clipboard_item(&item("b", 5), false).unwrap();
    let rows = db.get_history(-1, 0);
    assert_eq!(rows[0].id, b);
    assert_eq!(rows[1].id, a);
    db.clear_history_at(&ClearHistoryRequest { keep_count: Some(1), keep_days: None }, 0);
    assert_eq!(db.get_history(-1, 0)[0].id, b);
}

#[test]
fn history_pages() {
    let mut db = Database::new();
    for i in 0..5 {
        db.add_clipboard_item(&item(&format!("t{}", i), i * 10), false).unwrap();
    }
    let page = db.get_history(2, 1);
    assert_eq!(page.iter().map(|r| r.created_at).collect::<Vec<_>>(), vec![30, 20]);
    assert_eq!(db.get_history(2, -3).len(), 2);
    assert_eq!(db.get_history(10, 7).len(), 0);
    assert_eq!(db.get_history(0, 0).len(), 0);
    let all = db.get_history(-5, 0);
    assert!(all.windows(2).all(|w| w[0].created_at >= w[1].created_at));
    assert_eq!(all.len(), 5);
}

#[test]
fn history_request_defaults() {
    let mut m = manager(1000, false);
    for i in 0..120 {
        capture(&mut m, &format!("x{}", i), i);
    }
    let rows = m.get_history(GetHistoryRequest { limit: None, offset: None }).unwrap();
    assert_eq!(rows.len(), 100);
    assert_eq!(rows[0].content, "x119");
}

#[test]
fn delete_is_idempotent() {
    let mut db = Database::new();
    let a = db.add_clipboard_item(&item("a", 1), false).unwrap();
    db.add_clipboard_item(&item("b", 2), false).unwrap();
    db.delete_item(a);
    assert_eq!(db.get_count(), 1);
    db.delete_item(a);
    db.delete_item(99);
    assert_eq!(db.get_count(), 1);
}

#[test]
fn tags_are_replaced_and_counted() {
    let mut db = Database::new();
    let a = db.add_clipboard_item(&item("a", 1), false).unwrap();
    let b = db.add_clipboard_item(&item("b", 2), false).unwrap();
    let c = db.add_clipboard_item(&item("c", 3), false).unwrap();
    db.update_tags(a, &Some(vec!["x".to_string(), "y".to_string()]));
    db.update_tags(b, &Some(vec!["y".to_string()]));
    db.update_tags(c, &Some(vec!["z".to_string(), "y".to_string(), "y".to_string()]));
    db.update_tags(42, &Some(vec!["never".to_string()]));
    let tags = db.get_all_tags();
    assert_eq!(tags[0], ("y".to_string(), 3));
    assert_eq!(tags.len(), 3);
    assert!(tags.contains(&("x".to_string(), 1)));
    assert!(tags.contains(&("z".to_string(), 1)));
    db.update_tags(c, &None);
    assert_eq!(db.get_all_tags()[0], ("y".to_string(), 2));
}

#[test]
fn export_then_import_adds_no_rows() {
    let mut m = manager(100, false);
    capture(&mut m, "one", 1);
    capture(&mut m, "two", 2);
    capture(&mut m, "three", 3);
    let exported = m.export_items();
    assert_eq!(exported.len(), 3);
    let imported = m.import_items(&exported);
    assert_eq!(imported, 3);
    assert_eq!(history(&m).len(), 3);
}

#[test]
fn import_promotes_duplicates() {
    let mut m = manager(100, false);
    capture(&mut m, "one", 1);
    let mut again = history(&m)[0].clone();
    again.created_at = 50;
    assert_eq!(m.import_items(&vec![again, item("fresh", 2)]), 2);
    let rows = history(&m);
    assert_eq!(rows.len(), 2);
    assert_eq!(rows[0].content, "one");
    assert_eq!(rows[0].created_at, 50);
}

#[test]
fn ids_run_out() {
    let mut db = Database::new();
    let mut last = item("last", 1);
    last.id = i64::MAX - 1;
    assert!(db.restore_item(&last));
    assert_eq!(db.add_clipboard_item(&item("more", 2), false), Err(StoreError::IdsExhausted));
    assert_eq!(db.add_clipboard_item(&item("last", 3), true), Ok(i64::MAX - 1));
}

#[test]
fn restore_keeps_ids() {
    let mut db = Database::new();
    let mut r = item("r", 7);
    r.id = 40;
    assert!(db.restore_item(&r));
    assert!(!db.restore_item(&r));
    let mut dup_hash = item("r", 8);
    dup_hash.id = 41;
    assert!(!db.restore_item(&dup_hash));
    assert_eq!(db.add_clipboard_item(&item("s", 9), false), Ok(41));
}

#[test]
fn default_settings_table() {
    let db = Database::new();
    let s = db.get_settings();
    assert_eq!(s.max_history_count, 5000);
    assert_eq!(s.search_position, "bottom");
    assert!(s.focus_search_on_activate);
    assert_eq!(s.hotkey, "Alt+V");
    assert_eq!(s.window_pos_x, None);
    assert!(db.is_first_run());
}

#[test]
fn settings_round_trip() {
    let mut db = Database::new();
    let mut s = AppSettings::default();
    s.max_history_count = 42;
    s.window_pos_x = Some(-15);
    s.auto_sort = true;
    s.hotkey = "Ctrl+Shift+V".to_string();
    db.save_settings(&s);
    let back = db.get_settings();
    assert_eq!(back.max_history_count, 42);
    assert_eq!(back.window_pos_x, Some(-15));
    assert_eq!(back.window_pos_y, None);
    assert!(back.auto_sort);
    assert_eq!(back.hotkey, "Ctrl+Shift+V");
    assert_eq!(db.setting("max_history_count"), Some("42".to_string()));
}

#[test]
fn bad_setting_values_keep_defaults() {
    let mut db = Database::new();
    db.put_setting("max_history_count", "lots".to_string());
    db.put_setting("auto_sort", "yes".to_string());
    db.put_setting("blacklist_apps", "x".to_string());
    let s = db.get_settings();
    assert_eq!(s.max_history_count, 5000);
    assert!(!s.auto_sort);
}

#[test]
fn first_run_flag() {
    let mut db = Database::new();
    assert!(db.is_first_run());
    db.mark_app_initialized();
    assert!(!db.is_first_run());
}

#[test]
fn manager_settings_drive_captures() {
    let mut m = manager(100, false);
    m.save_settings(&settings(2, true)).unwrap();
    capture(&mut m, "a", 1);
    capture(&mut m, "b", 2);
    capture(&mut m, "c", 3);
    assert_eq!(history(&m).len(), 2);
    assert_eq!(m.get_settings().unwrap().max_history_count, 2);
    assert_eq!(m.clear_history(ClearHistoryRequest { keep_count: Some(1), keep_days: None }).unwrap(), 1);
    m.update_tags(3, Some(vec!["k".to_string()])).unwrap();
    assert_eq!(m.get_all_tags().unwrap(), vec![("k".to_string(), 1)]);
    m.delete_item(3).unwrap();
    assert_eq!(history(&m).len(), 0);
}
