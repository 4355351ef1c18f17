use paste_bridge::desktop::history_view::{history_rows, history_for_query};
use paste_bridge::desktop::list_actions::{
    entry_text, copy_target, selected_texts, add_to_favorite, favorite_rows, create_favorite_folder, CopyTarget,
    RefreshGuard,
};
use paste_bridge::desktop::clipboard_watch::decode_for_clipboard;
use paste_bridge::shared::database::{Database, ItemRow, ConfigRow};
use paste_bridge::shared::migration::{thumbnail_path, needs_blob_migration};
use paste_bridge::desktop::history_view::{format_timestamp_inner, format_timestamp_at};
use paste_bridge::shared::models::ContentType;
use paste_bridge::shared::state::AppState;

fn filled() -> AppState {
    let mut s = AppState::new(Database::new(), 10, "d".to_string());
    s.push_clipboard("first".to_string(), 1);
    s.push_image(&[1, 2], &[], "image/png", 1, 1, 2);
    s.push_clipboard("third".to_string(), 3);
    s
}

#[test]
fn rows_lead_back_to_their_records() {
    let s = filled();
    let (entries, _) = history_rows(&s.get_history(false), true);
    assert_eq!(entry_text(&s, &entries, 0).as_deref(), Some("third"));
    assert_eq!(entry_text(&s, &entries, 1), None);
    assert_eq!(entry_text(&s, &entries, 9), None);
    match copy_target(&s, &entries, 1) {
        Some(CopyTarget::Image(id)) => assert_eq!(id, 2),
        _ => panic!("image expected"),
    }
    match copy_target(&s, &entries, 2) {
        Some(CopyTarget::Text(t)) => assert_eq!(t, "first"),
        _ => panic!("text expected"),
    }
    assert!(copy_target(&s, &entries, 3).is_none());
    let marks = vec![true, true, true, true];
    assert_eq!(selected_texts(&s, &entries, &marks), vec!["third".to_string(), "first".to_string()]);
    assert_eq!(selected_texts(&s, &entries, &vec![false, false, true]), vec!["first".to_string()]);
}

#[test]
fn dragged_text_is_filed_alone_or_with_the_selection() {
    let mut s = filled();
    assert!(create_favorite_folder(&mut s, "f", 4));
    assert_eq!(add_to_favorite(&mut s, 0, "", false, &vec![], 5), None);
    assert_eq!(add_to_favorite(&mut s, 0, "x", false, &vec![], 5), Some(1));
    let sel = vec!["a".to_string(), "b".to_string()];
    assert_eq!(add_to_favorite(&mut s, 0, "x", true, &sel, 6), Some(2));
    assert_eq!(add_to_favorite(&mut s, 0, "y", true, &vec![], 7), Some(1));
    assert_eq!(favorite_rows(&s)[0].count, 4);
    let mut g = RefreshGuard::new();
    assert!(g.try_begin());
    assert!(!g.try_begin());
    g.finish();
    assert!(g.try_begin());
}

#[test]
fn search_text_chooses_history_or_matches() {
    let s = filled();
    let (all, any) = history_for_query(&s, "", false);
    assert_eq!(all.len(), 3);
    assert!(any);
    let (hits, any) = history_for_query(&s, "thi", false);
    assert_eq!(hits.len(), 1);
    assert!(any);
    let (none, any) = history_for_query(&s, "zzz", false);
    assert!(none.is_empty());
    assert!(!any);
}

#[test]
fn stored_images_decode_for_the_clipboard() {
    assert!(decode_for_clipboard(b"not an image").is_err());
    let mut s = AppState::new(Database::new(), 10, "d".to_string());
    let rgba = vec![10u8, 20, 30, 255, 40, 50, 60, 255];
    assert!(paste_bridge::desktop::clipboard_watch::store_clipboard_image(&mut s, rgba.clone(), 2, 1, 1));
    let (png, _) = s.get_image_data(1).unwrap();
    let (w, h, px) = decode_for_clipboard(&png).unwrap();
    assert_eq!((w, h), (2, 1));
    assert_eq!(px, rgba);
}

#[test]
fn thumbnail_files_sit_beside_their_images() {
    assert_eq!(thumbnail_path("images/abc.png").as_deref(), Some("images/thumb_abc.png"));
    assert_eq!(thumbnail_path("a/b/c.png").as_deref(), Some("a/b/thumb_c.png"));
    assert_eq!(thumbnail_path("plain.png"), None);
}

fn row(id: i64, hash: &str) -> ItemRow {
    ItemRow {
        id,
        content_type: ContentType::Text,
        content_text: Some(hash.to_string()),
        content_blob: None,
        thumbnail_blob: None,
        content_hash: hash.to_string(),
        mime_type: None,
        file_size: None,
        width: None,
        height: None,
        source_ip: None,
        created_at: 0,
        is_favorite: false,
        is_deleted: false,
    }
}

#[test]
fn stores_read_back_are_checked() {
    let mut db = Database::new();
    assert!(db.check_wf());
    db.items.push(row(1, "a"));
    db.items.push(row(2, "b"));
    db.item_seq = 2;
    assert!(db.check_wf());
    db.items.push(row(3, "a"));
    db.item_seq = 3;
    assert!(!db.check_wf());
    db.items.pop();
    db.item_seq = 1;
    assert!(!db.check_wf());
    db.item_seq = 2;
    db.config.push(ConfigRow { key: "k".to_string(), value: "1".to_string(), updated_at: 0 });
    db.config.push(ConfigRow { key: "k".to_string(), value: "2".to_string(), updated_at: 0 });
    assert!(!db.check_wf());
}

#[test]
fn only_tables_with_paths_and_no_blobs_are_migrated() {

    assert!(needs_blob_migration(0, 1));
    assert!(!needs_blob_migration(1, 1));
    assert!(!needs_blob_migration(0, 0));
    assert!(!needs_blob_migration(1, 0));
}

#[test]
fn times_outside_chronos_range_show_nothing() {

    let lo: i64 = -8_334_601_228_800_000;
    let hi: i64 = 8_210_266_876_799_999;
    assert!(chrono::DateTime::from_timestamp_millis(lo).is_some());
    assert!(chrono::DateTime::from_timestamp_millis(lo - 1).is_none());
    assert!(chrono::DateTime::from_timestamp_millis(hi).is_some());
    assert!(chrono::DateTime::from_timestamp_millis(hi + 1).is_none());
    assert_eq!(format_timestamp_inner(lo - 1, 0), "");
    assert_eq!(format_timestamp_inner(hi + 1, 0), "");
    let first = format_timestamp_inner(lo, 0);
    assert!(first == "01-01" || first.is_empty());
    assert_eq!(format_timestamp_inner(hi, 0), "刚刚");
    assert_eq!(format_timestamp_at(lo, 0, 0), "01-01");
    assert_eq!(format_timestamp_at(lo, 0, -1), "");
    let late = hi + 31 * 86_400_000;
    assert_eq!(format_timestamp_at(hi, late, 0), "12-31");
    assert_eq!(format_timestamp_at(hi, late, 1), "");
}

#[test]
fn old_records_show_the_local_month_and_day() {
    let now = 1_700_000_000_000i64;
    let created = now - 86_400_000 * 40;
    assert_eq!(format_timestamp_at(created, now, 0), "10-05");
    assert_eq!(format_timestamp_at(created, now, 8 * 3600), "10-06");
    assert_eq!(format_timestamp_at(created, now, -23 * 3600), "10-04");
    assert_eq!(format_timestamp_at(now - 120_000, now, 8 * 3600), "2分钟前");
    let shown = format_timestamp_inner(created, now);
    assert!(["10-04", "10-05", "10-06"].contains(&shown.as_str()));
}
