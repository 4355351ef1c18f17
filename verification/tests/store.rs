use paste_bridge::shared::database::{Database, StoreError, keep_ditto_rows, ditto_time_exec};
use paste_bridge::shared::models::{ContentType, PasteBridgeError};
use paste_bridge::shared::state::AppState;
use paste_bridge::shared::mock_data::{rand_simple, mock_text_exec};

fn state() -> AppState {
    AppState::new(Database::new(), 100, "dev".to_string())
}

#[test]
fn fingerprint_is_sha256_hex() {
    assert_eq!(
        Database::compute_hash(b"abc"),
        "ba7816bf8f01cfea414140de5dae2223b00361a396177a9cb410ff61f20015ad"
    );
    assert_eq!(
        Database::compute_hash(b""),
        "e3b0c44298fc1c149afbf4c8996fb92427ae41e4649b934ca495991b7852b855"
    );
}

#[test]
fn same_text_keeps_its_record_and_takes_the_new_time() {
    let mut db = Database::new();
    let a = db.insert_text("hello", 1000).unwrap();
    let b = db.insert_text("world", 2000).unwrap();
    let a2 = db.insert_text("hello", 3000).unwrap();
    assert_eq!(a, 1);
    assert_eq!(b, 2);
    assert_eq!(a2, a);
    assert_eq!(db.count().unwrap(), 2);
    let item = db.get_item(a).unwrap().unwrap();
    assert_eq!(item.created_at, 3000);
    assert_eq!(item.content_text.as_deref(), Some("hello"));
    assert_eq!(item.content_type, ContentType::Text);
}

#[test]
fn history_is_newest_first_and_limited() {
    let mut db = Database::new();
    db.insert_text("a", 10).unwrap();
    db.insert_text("b", 30).unwrap();
    db.insert_text("c", 20).unwrap();
    let h: Vec<String> = db.get_history(2, false).unwrap().into_iter().map(|i| i.content_text.unwrap()).collect();
    assert_eq!(h, vec!["b".to_string(), "c".to_string()]);
    let asc: Vec<String> = db.get_history(10, true).unwrap().into_iter().map(|i| i.content_text.unwrap()).collect();
    assert_eq!(asc, vec!["a".to_string(), "c".to_string(), "b".to_string()]);
}

#[test]
fn copying_a_deleted_text_shows_it_again() {
    let mut db = Database::new();
    let id = db.insert_text("again", 1).unwrap();
    db.delete(id).unwrap();
    assert_eq!(db.insert_text("again", 9), Ok(id));
    let item = db.get_item(id).unwrap().unwrap();
    assert_eq!(item.created_at, 9);
    assert_eq!(db.count().unwrap(), 1);
    assert_eq!(db.get_history(10, false).unwrap().len(), 1);
}

#[test]
fn deleted_records_are_hidden() {
    let mut db = Database::new();
    let id = db.insert_text("gone", 1).unwrap();
    db.delete(id).unwrap();
    assert!(db.get_item(id).unwrap().is_none());
    assert_eq!(db.count().unwrap(), 0);
    assert!(db.get_history(10, false).unwrap().is_empty());
}

#[test]
fn favorite_toggles_and_survives_clearing() {
    let mut db = Database::new();
    let keep = db.insert_text("keep", 1).unwrap();
    db.insert_text("drop", 2).unwrap();
    assert_eq!(db.toggle_favorite(keep), Ok(true));
    assert_eq!(db.clear_non_favorites(), Ok(1));
    assert_eq!(db.count().unwrap(), 1);
    assert_eq!(db.toggle_favorite(keep), Ok(false));
    assert_eq!(db.toggle_favorite(99), Err(StoreError::NoSuchRow));
}

#[test]
fn settings_read_back() {
    let mut db = Database::new();
    assert_eq!(db.get_config("theme").unwrap(), None);
    db.set_config("theme", "dark", 1).unwrap();
    db.set_config("theme", "light", 2).unwrap();
    db.set_config("pinned", "true", 3).unwrap();
    assert_eq!(db.get_config("theme").unwrap().as_deref(), Some("light"));
    assert_eq!(db.get_config("pinned").unwrap().as_deref(), Some("true"));
}

#[test]
fn search_matches_text_and_image_sizes() {
    let mut db = Database::new();
    db.insert_text("Hello World", 1).unwrap();
    db.insert_text("other", 2).unwrap();
    db.insert_image(&[1, 2, 3], &[9], "image/png", 640, 480, 3).unwrap();
    let t: Vec<i64> = db.search_history("hello", 10, false).unwrap().into_iter().map(|i| i.id).collect();
    assert_eq!(t, vec![1]);
    let s: Vec<i64> = db.search_history("640x480", 10, false).unwrap().into_iter().map(|i| i.id).collect();
    assert_eq!(s, vec![3]);
    let all = db.search_history("", 10, true).unwrap();
    assert_eq!(all.len(), 3);
    let under = db.search_history("o_h", 10, false).unwrap();
    assert_eq!(under.len(), 1);
}

#[test]
fn too_long_search_pattern_is_refused() {
    let mut db = Database::new();
    db.insert_text("x", 1).unwrap();
    let q = "a".repeat(50_000);
    assert_eq!(db.search_history(&q, 10, false).unwrap_err(), StoreError::PatternTooComplex);
    assert_eq!(StoreError::PatternTooComplex.message(), "LIKE or GLOB pattern too complex");
}

#[test]
fn images_are_deduplicated_and_kept_apart_from_text() {
    let mut db = Database::new();
    let a = db.insert_image(&[1, 2, 3], &[7], "image/png", 2, 1, 5).unwrap();
    let b = db.insert_image(&[1, 2, 3], &[8], "image/png", 2, 1, 6).unwrap();
    assert_eq!(a, b);
    assert_eq!(db.get_image_data(a).unwrap(), Some((vec![1, 2, 3], "image/png".to_string())));
    assert_eq!(db.get_thumbnail_data(a).unwrap(), Some(vec![7]));
    let item = db.get_item(a).unwrap().unwrap();
    assert_eq!(item.file_size, Some(3));
    assert_eq!(item.width, Some(2));
}

#[test]
fn folders_are_created_renamed_reordered_and_deleted() {
    let mut db = Database::new();
    db.init_default_favorite_folders(1).unwrap();
    let folders = db.get_favorite_folders().unwrap();
    assert_eq!(folders.len(), 12);
    assert_eq!(folders[0].name, "工作");
    assert_eq!(folders[11].name, "学习资料");
    db.init_default_favorite_folders(2).unwrap();
    assert_eq!(db.get_favorite_folder_count().unwrap(), 12);
    let id = db.insert_favorite_folder("mine", 3).unwrap();
    db.rename_favorite_folder(id, "renamed").unwrap();
    db.reorder_favorite_folders(12, 0).unwrap();
    let after = db.get_favorite_folders().unwrap();
    assert_eq!(after[0].name, "renamed");
    assert_eq!(after[1].name, "工作");
    let orders: Vec<i32> = after.iter().map(|f| f.sort_order).collect();
    assert_eq!(orders, (0..13).collect::<Vec<i32>>());
    db.delete_favorite_folder(id).unwrap();
    assert_eq!(db.get_favorite_folder_count().unwrap(), 12);
}

#[test]
fn filing_twice_files_once() {
    let mut db = Database::new();
    db.insert_favorite_folder("f", 1).unwrap();
    let a = db.insert_text("a", 1).unwrap();
    let b = db.insert_text("b", 2).unwrap();
    assert_eq!(db.add_item_to_favorite_folder(0, a, 3), Ok(true));
    assert_eq!(db.add_item_to_favorite_folder(0, a, 4), Ok(false));
    assert_eq!(db.add_item_to_favorite_folder(0, b, 5), Ok(true));
    let fid = db.get_favorite_folders().unwrap()[0].id;
    assert_eq!(db.get_favorite_folder_item_count(fid).unwrap(), 2);
    let items: Vec<i64> = db.get_favorite_folder_items(0).unwrap().into_iter().map(|i| i.id).collect();
    assert_eq!(items, vec![b, a]);
    assert_eq!(db.add_item_to_favorite_folder(5, a, 6), Err(StoreError::NoSuchRow));
    assert!(matches!(db.get_favorite_folder_items(5), Err(StoreError::NoSuchRow)));
}

#[test]
fn ditto_import_converts_seconds_and_skips_known_texts() {
    let mut db = Database::new();
    db.insert_text("known", 1).unwrap();
    let entries = vec![
        ("known".to_string(), 5),
        ("new".to_string(), 1_600_000_000),
        ("later".to_string(), 1_700_000_000_000),
        ("undated".to_string(), 0),
        ("new".to_string(), 7),
    ];
    assert_eq!(db.import_ditto_entries(&entries, 42), Ok(3));
    let h = db.get_history(10, false).unwrap();
    let find = |t: &str| h.iter().find(|i| i.content_text.as_deref() == Some(t)).unwrap().created_at;
    assert_eq!(find("new"), 1_600_000_000_000);
    assert_eq!(find("later"), 1_700_000_000_000);
    assert_eq!(find("undated"), 42);
    assert_eq!(db.import_ditto_entries(&entries, 43), Ok(0));
    assert_eq!(ditto_time_exec(-3, 9), 9);
}

#[test]
fn ditto_rows_drop_blank_text() {
    let rows = vec![("a".to_string(), 1), ("  \n\t".to_string(), 2), ("".to_string(), 3), (" b ".to_string(), 4)];
    assert_eq!(keep_ditto_rows(rows), vec![("a".to_string(), 1), (" b ".to_string(), 4)]);
}

#[test]
fn import_outcomes() {
    let mut s = state();
    let r = s.import_from_ditto(vec![], 0, "无法打开 Ditto 数据库: x".to_string(), 1);
    assert_eq!(r, (0, 0, "无法打开 Ditto 数据库: x".to_string()));
    let r = s.import_from_ditto(vec![], 0, String::new(), 1);
    assert_eq!(r, (0, 0, "Ditto 数据库中无文本条目".to_string()));
    let r = s.import_from_ditto(vec![("x".to_string(), 0)], 1, String::new(), 1);
    assert_eq!(r, (1, 1, String::new()));
    s.push_image(&[1], &[], "image/png", 1, 1, 2);
    let img_hash = Database::compute_hash(b"\x01");
    assert!(!img_hash.is_empty());
}

#[test]
fn sample_records_use_article_words_or_numbers() {
    assert_eq!(rand_simple(0), rand_simple(1));
    let mut x: u64 = 1;
    x ^= x << 13;
    x ^= x >> 7;
    x ^= x << 17;
    assert_eq!(rand_simple(1), x);
    assert_eq!(mock_text_exec(7, 0, &vec![]), "Mock data #7");
    let words: Vec<String> = vec!["alpha".to_string(), "beta".to_string(), "gamma".to_string()];
    let t = mock_text_exec(1, 0, &words);
    assert!(!t.is_empty());
    assert!(t.split(' ').all(|w| words.iter().any(|x| x == w)));
    let mut s = state();
    let added = s.add_mock_data(3, 200_000_000, "");
    assert_eq!(added, 3);
    let h = s.get_history(false);
    let mut texts: Vec<String> = h.iter().map(|i| i.content_text.clone().unwrap()).collect();
    texts.sort();
    assert_eq!(texts, vec!["Mock data #1", "Mock data #2", "Mock data #3"]);
    assert!(h.iter().all(|i| i.created_at <= 200_000_000 && i.created_at > 200_000_000 - 172_800_000));
    assert_eq!(s.add_mock_data(2, 200_000_000, "one two three four five six"), 2);
}

#[test]
fn app_state_answers() {
    let mut s = state();
    assert_eq!(s.add_item("t", 5), 1);
    assert_eq!(s.push_clipboard("t".to_string(), 6), Some(1));
    assert_eq!(s.count(), 1);
    assert!(s.toggle_favorite(1));
    assert!(!s.toggle_favorite(2));
    assert!(s.set_config("k", "v", 1));
    assert_eq!(s.get_config("k").as_deref(), Some("v"));
    s.set_window_visible(true);
    assert!(s.is_window_visible());
    assert_eq!(s.get_device_id(), "dev");
    assert!(s.init_default_favorite_folders(1).is_ok());
    let wc = s.get_favorite_folders_with_count();
    assert_eq!(wc.len(), 12);
    assert!(s.add_item_to_favorite_folder(0, 1, 2));
    assert!(!s.add_item_to_favorite_folder(0, 1, 3));
    assert_eq!(s.get_favorite_folders_with_count()[0].1, 1);
    assert_eq!(PasteBridgeError::generic("boom".to_string()).to_string(), "boom");
    let e: PasteBridgeError = String::from("x").into();
    assert_eq!(e.to_string(), "x");
}
