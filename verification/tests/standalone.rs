use paste_bridge::standalone::store::{Database, ContentType, extension_for};
use paste_bridge::standalone::state::AppState;
use paste_bridge::standalone::api::{handle_request, handle_copy, ReplyBody, ApiServer};
use paste_bridge::standalone::window::{
    WindowConfig, calculate_center_position, calculate_hidden_position, toggle_window_visibility, Toggle,
    centered_x, caret_side_position, caret_screen_position, fade_alphas,
};
use paste_bridge::standalone::windows_window::WindowsWindow;
use paste_bridge::standalone::hotkey::{register_hotkey, unregister_hotkey, HotkeyId};
use paste_bridge::standalone::tray::{TrayVisibility, TrayAction, TrayEvent};
use paste_bridge::standalone::tooltip;
use paste_bridge::standalone::clipboard::{TextWatch, ClipboardEvent, ContentWatch};

fn state() -> AppState {
    AppState::new(Database::new(), 50, "dev".to_string())
}

#[test]
fn images_are_named_by_fingerprint_and_type() {
    let mut db = Database::new();
    let data = [1u8, 2, 3];
    let hash = Database::compute_hash(&data);
    let a = db.insert_image(&data, "image/jpeg", 4, 5, 10);
    let name = format!("{}.jpg", &hash[..16]);
    assert_eq!(a.file_name.as_deref(), Some(name.as_str()));
    let (id, path) = a.result.unwrap();
    assert_eq!(path, format!("images/{}", name));
    let b = db.insert_image(&data, "image/jpeg", 4, 5, 11);
    assert!(b.file_name.is_none());
    assert_eq!(b.result.unwrap(), (id, path.clone()));
    let item = db.get_item(id).unwrap().unwrap();
    assert_eq!(item.content_type, ContentType::Image);
    assert_eq!(item.content_path.as_deref(), Some(path.as_str()));
    assert_eq!(item.file_size, Some(3));
    assert_eq!(extension_for("image/png"), "png");
    assert_eq!(extension_for("image/jpg"), "jpg");
    assert_eq!(extension_for("image/gif"), "gif");
    assert_eq!(extension_for("image/webp"), "webp");
    assert_eq!(extension_for("text/plain"), "bin");
}

#[test]
fn image_with_the_fingerprint_of_a_text_is_refused() {
    let mut db = Database::new();
    db.insert_text("abc", 1).unwrap();
    let r = db.insert_image(b"abc", "image/png", 1, 1, 2);
    assert!(r.file_name.is_some());
    assert!(r.result.is_err());
}

#[test]
fn history_text_is_cut_to_2000_characters() {
    let mut s = state();
    let long = "é".repeat(2500);
    s.push_clipboard(long.clone(), 1);
    let h = s.get_history();
    assert_eq!(h[0].content_text.as_deref().unwrap().chars().count(), 2000);
    let full = s.get_item(h[0].id).unwrap();
    assert_eq!(full.content_text.unwrap(), long);
}

#[test]
fn clearing_names_the_files_to_delete() {
    let mut s = state();
    let (_, kept) = s.push_image(&[1], "image/png", 1, 1, 1);
    let (id, _) = kept.unwrap();
    let (_, gone) = s.push_image(&[2], "image/gif", 1, 1, 2);
    let (_, gone_path) = gone.unwrap();
    s.push_clipboard("t".to_string(), 3);
    assert!(s.toggle_favorite(id));
    let (n, files) = s.clear_history();
    assert_eq!(n, 2);
    assert_eq!(files, vec![gone_path]);
    assert_eq!(s.count(), 1);
    assert!(s.delete_item(id));
    assert_eq!(s.count(), 0);
}

#[test]
fn standalone_copy_request_adds_empty_text() {
    let mut s = state();
    let (r, files) = handle_request("POST", "/clipboard/copy", &mut s, 5);
    assert_eq!(r.status, 200);
    assert!(files.is_empty());
    assert_eq!(r.set_clipboard.as_deref(), Some(""));
    assert_eq!(s.count(), 1);
    assert_eq!(handle_copy(&mut s, b"x", 6).unwrap(), "x");
    let (r, _) = handle_request("GET", "/window/visible", &mut s, 7);
    match r.body {
        ReplyBody::Json(j) => assert_eq!(j, b"false".to_vec()),
        _ => panic!(),
    }
    let (r, _) = handle_request("GET", "/nothing", &mut s, 8);
    assert_eq!(r.status, 404);
    let mut server = ApiServer::new(8080);
    server.stop();
    assert_eq!(server.port(), 8080);
}

#[test]
fn window_rules() {
    let c = WindowConfig::default();
    assert_eq!((c.width, c.height), (280, 396));
    assert_eq!(calculate_center_position(&c, 1920, 1080), (820, 516));
    assert_eq!(calculate_center_position(&c, 0, 0), (-140, -151));
    for (sw, sh) in [(1920, 1080), (1366, 768), (2560, 1440), (100, 50)] {
        let y = ((sh as f64) * 0.618 - (c.height as f64) * 0.382) as i32;
        assert_eq!(calculate_center_position(&c, sw, sh), ((sw - c.width) / 2, y));
    }
    assert_eq!(WindowsWindow::new().show_at_center(1920, 1080), (820, 516));
    assert_eq!(calculate_hidden_position(), (-10000, -10000));
    assert_eq!(WindowsWindow::hide_position(), (-10000, -10000));
    assert_eq!(WindowsWindow::new().config.width, 280);
    let mut s = state();
    assert_eq!(toggle_window_visibility(&mut s), Toggle::Show);
    assert!(s.is_window_visible());
    assert_eq!(toggle_window_visibility(&mut s), Toggle::Hide);
    assert_eq!(centered_x(1920, 280), 820);
    assert_eq!(centered_x(100, 281), -90);
    assert_eq!(caret_side_position(5, 6), (15, 6));
    assert_eq!(caret_screen_position(100, 200, 3, 4), (103, 204));
    let up = fade_alphas(true);
    assert_eq!(up.len(), 16);
    assert_eq!((up[0], up[1], up[15]), (0, 17, 255));
    let down = fade_alphas(false);
    assert_eq!((down[0], down[15]), (255, 0));
}

#[test]
fn hotkeys_and_tray() {
    assert_eq!(register_hotkey("V", &["Ctrl"]), Err("Not implemented".to_string()));
    assert_eq!(unregister_hotkey(HotkeyId(3)), Ok(()));
    let mut t = TrayVisibility::new();
    assert!(t.is_visible());
    assert_eq!(t.on_hotkey(1, true, 1, 0), TrayAction::Nothing);
    assert_eq!(t.on_hotkey(1, true, 1, 9), TrayAction::HideWindow(9));
    assert_eq!(t.on_hotkey(2, true, 1, 9), TrayAction::Nothing);
    assert_eq!(t.on_menu("show", "show", "quit", 9), TrayAction::ShowWindow(9));
    assert_eq!(t.on_menu("quit", "show", "quit", 9), TrayAction::Quit);
    t.set_visible(false);
    assert!(!t.is_visible());
    assert_eq!(TrayEvent::Quit, TrayEvent::Quit);
}

#[test]
fn tooltip_entry_points_do_nothing() {
    tooltip::ensure_tooltip_always_on_top();
    tooltip::start_tooltip_zorder_monitor();
    tooltip::start_tooltip();
    tooltip::create_tooltip_window();
    tooltip::set_tooltip_content("a", "b");
    tooltip::show_tooltip_at(1, 2, "c");
    tooltip::hide_tooltip();
    tooltip::destroy_tooltip_window();
    tooltip::destroy_hover_tooltip_window();
    assert_eq!(tooltip::get_cursor_pos(), (0, 0));
    tooltip::start_hover_detection();
    tooltip::update_hover_state(1, 2);
    tooltip::set_hover_callback(|_x: i32, _y: i32| -> Option<String> { None });
    tooltip::show_hover_tooltip_at(1, 2, "x".to_string(), "y".to_string());
    tooltip::hide_hover_tooltip();
}

#[test]
fn text_watch_reports_changes() {
    let mut w = TextWatch::new(&Some("a".to_string()));
    assert!(w.look(Some("a".to_string())).is_none());
    let e: ClipboardEvent = w.look(Some("b".to_string())).unwrap();
    assert_eq!(e.text, "b");
    assert!(w.look(Some(String::new())).is_none());
    assert!(w.look(None).is_none());
    assert!(w.look(Some("b".to_string())).is_none());
}

#[test]
fn content_watch_compares_whole_texts() {

    let mut w = ContentWatch::new(Some("a".to_string()));
    assert_eq!(w.look(Some("a".to_string())), None);
    assert_eq!(w.look(Some("b".to_string())).as_deref(), Some("b"));
    assert_eq!(w.look(Some(String::new())), None);
    assert_eq!(w.look(None), None);
    assert_eq!(w.last_content, "b");
}
