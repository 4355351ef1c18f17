use paste_bridge::desktop::focus::{
    CaretRect, CaretProbe, get_focused_caret_screen_pos, FocusState, HoverInput, HoverAction, HoverToggle,
};
use paste_bridge::desktop::drag_out::{
    guid_eq, iid_iunknown, iid_idataobject, iid_idropsource, query_interface_answer, query_get_data, get_data_refusal,
    utf16_with_nul, bytes_with_nul, DragState, ReentryProbe, give_feedback, mouse_lparam, add_ref, release, S_OK,
    S_FALSE, E_NOINTERFACE, DV_E_FORMATETC, DV_E_DVASPECT, DRAGDROP_S_DROP, DRAGDROP_S_CANCEL,
    DRAGDROP_S_USEDEFAULTCURSORS,
};
use paste_bridge::desktop::drag_out::{get_data_payload, canonical_format, FormatEtc, DATA_S_SAMEFORMATETC};
use paste_bridge::desktop::drag_out::{drag_poll, after_outside_drag, DragPoll, AfterDrag};
use paste_bridge::desktop::clipboard_watch::{ClipboardWatch, thumbnail_size, store_clipboard_image, content_hash};
use paste_bridge::desktop::history_view::{
    truncate_for_display, history_rows, relative_time_label, format_timestamp_inner, TimestampCache,
};
use paste_bridge::desktop::window_position::{caret_window_position, calc_window_position, WindowPlacement};
use paste_bridge::desktop::settings::{
    parse_i32, parse_flag, parse_theme, SizeWatch, save_window_size, reset_window_size, save_pinned,
};
use paste_bridge::desktop::peers::PeerList;
use paste_bridge::desktop::list_actions::{
    favorite_rows, reorder_favorite_rows, bump_favorite_count, add_text_to_favorite, add_texts_to_favorite,
    create_favorite_folder, delete_favorite_folder_at, folder_texts, select_only, toggle_selection, CopyGuard,
    FavoriteRow,
};
use paste_bridge::desktop::net::list_local_ipv4;
use paste_bridge::desktop::animation::{fade_window_out, fade_window_in, startup_window_fade_in};
use paste_bridge::desktop::platform::{tray_icon_rgba, WindowsTray};
use paste_bridge::shared::database::Database;
use paste_bridge::shared::discovery::DiscoveredPeer;
use paste_bridge::shared::models::{ClipboardItem, ContentType};
use paste_bridge::shared::state::AppState;

fn rect(l: i32, t: i32, r: i32, b: i32) -> CaretRect {
    CaretRect { left: l, top: t, right: r, bottom: b }
}

#[test]
fn caret_comes_from_accessibility_then_the_gui_thread() {
    let p = CaretProbe {
        foreground: 5,
        app_hwnd: 9,
        accessible: Some((10, 20, 2, 16)),
        thread_caret: None,
        thread_caret_on_screen: None,
    };
    let c = get_focused_caret_screen_pos(&p).unwrap();
    assert_eq!((c.left, c.top, c.right, c.bottom), (10, 20, 12, 36));
    let p = CaretProbe { accessible: Some((10, 20, 0, 0)), thread_caret: Some(rect(1, 1, 2, 3)), thread_caret_on_screen: Some(rect(101, 101, 102, 103)), ..p };
    assert_eq!(get_focused_caret_screen_pos(&p).unwrap().left, 101);
    let p = CaretProbe { thread_caret: Some(rect(5, 1, 2, 3)), ..p };
    assert!(get_focused_caret_screen_pos(&p).is_none());
    let p = CaretProbe { foreground: 9, ..p };
    assert!(get_focused_caret_screen_pos(&p).is_none());
    let p = CaretProbe { foreground: 0, ..p };
    assert!(get_focused_caret_screen_pos(&p).is_none());
}

#[test]
fn focus_is_remembered_and_given_back() {
    let mut f = FocusState::new();
    assert!(f.get_restore_focus_enabled());
    assert!(!f.get_mouse_hover_focus_enabled());
    f.track_focus(Some(rect(1, 2, 3, 4)), 77, 9);
    assert_eq!(f.get_cached_focus_pos().unwrap().left, 1);
    assert_eq!(f.restore_previous_focus(9), Some(77));
    assert_eq!(f.restore_previous_focus(77), None);
    f.track_focus(None, 9, 9);
    assert!(f.get_cached_focus_pos().is_none());
    assert_eq!(f.last_focus_hwnd, 77);
    f.set_restore_focus_enabled(false);
    assert_eq!(f.restore_previous_focus(9), None);
}

#[test]
fn hovering_takes_and_gives_back_focus() {
    let mut f = FocusState::new();
    assert_eq!(f.set_mouse_hover_focus_enabled(true), HoverToggle::StartMonitor);
    assert_eq!(f.set_mouse_hover_focus_enabled(true), HoverToggle::Nothing);
    let win = rect(100, 100, 400, 500);
    let enter = HoverInput { cursor_x: 200, cursor_y: 300, window: win, left_button_pressed: false, foreground: 42 };
    assert_eq!(f.hover_step(&enter, 0), HoverAction::Wait);
    assert_eq!(f.hover_step(&enter, 9), HoverAction::Focus(9));
    let leave = HoverInput { cursor_x: 50, cursor_y: 50, window: win, left_button_pressed: false, foreground: 9 };
    assert_eq!(f.hover_step(&leave, 9), HoverAction::Focus(42));
    let edge = HoverInput { cursor_x: 105, cursor_y: 300, window: win, left_button_pressed: true, foreground: 9 };
    assert_eq!(f.hover_step(&edge, 9), HoverAction::Resizing);
    assert!(!f.mouse_inside);
    f.hover_step(&enter, 9);
    assert_eq!(f.set_mouse_hover_focus_enabled(false), HoverToggle::StoppedRestoreFocus);
    assert!(!f.hover_monitor_running());
}

#[test]
fn drag_answers() {
    let a = iid_iunknown();
    let d = iid_idataobject();
    let s = iid_idropsource();
    assert!(guid_eq(&a, &a));
    assert!(!guid_eq(&a, &d));
    assert_eq!(query_interface_answer(&d, &d), S_OK);
    assert_eq!(query_interface_answer(&a, &s), S_OK);
    assert_eq!(query_interface_answer(&s, &d), E_NOINTERFACE);
    assert_eq!(query_get_data(13), S_OK);
    assert_eq!(query_get_data(1), S_OK);
    assert_eq!(query_get_data(2), S_FALSE);
    assert_eq!(get_data_refusal(8, 1), Some(DV_E_FORMATETC));
    assert_eq!(get_data_refusal(13, 4), Some(DV_E_DVASPECT));
    assert_eq!(get_data_refusal(1, 1), None);
    assert_eq!(give_feedback(1), DRAGDROP_S_USEDEFAULTCURSORS);
    assert_eq!(mouse_lparam(3, 5), (5 << 16) | 3);
    assert_eq!(mouse_lparam(-1, -2), (0xFFFE << 16) | 0xFFFF);
    assert_eq!(add_ref(1), 2);
    assert_eq!(release(2), (1, false));
    assert_eq!(release(1), (0, true));
}

#[test]
fn drag_data_encodings() {
    let t = "a\u{1F600}é";
    let mut want: Vec<u16> = t.encode_utf16().collect();
    want.push(0);
    assert_eq!(utf16_with_nul(t), want);
    let mut b = t.as_bytes().to_vec();
    b.push(0);
    assert_eq!(bytes_with_nul(t), b);
}

#[test]
fn return_of_the_mouse_cancels_the_drag() {
    let mut d = DragState::new();
    let inside = ReentryProbe { client_x: 5, client_y: 5, client_width: 10, client_height: 10 };
    assert_eq!(d.query_continue_drag(0, 1, Some(ReentryProbe { ..inside })), S_OK);
    d.set_app_hwnd(7);
    assert_eq!(d.query_continue_drag(1, 1, Some(ReentryProbe { ..inside })), DRAGDROP_S_CANCEL);
    assert!(!d.was_reentry_cancelled());
    assert_eq!(d.query_continue_drag(0, 2, None), DRAGDROP_S_CANCEL);
    assert_eq!(d.query_continue_drag(0, 0x10, None), DRAGDROP_S_CANCEL);
    assert_eq!(d.query_continue_drag(0, 1, Some(inside)), DRAGDROP_S_CANCEL);
    assert!(d.was_reentry_cancelled());
    d.clear_reentry_flag();
    let outside = ReentryProbe { client_x: 10, client_y: 5, client_width: 10, client_height: 10 };
    assert_eq!(d.query_continue_drag(0, 0, Some(outside)), DRAGDROP_S_DROP);
    assert!(!d.was_reentry_cancelled());
}

#[test]
fn clipboard_watch_reports_new_content_once() {
    let mut w = ClipboardWatch::new();
    w.prime(&Some("start".to_string()), &None);
    assert_eq!(w.look(&Some("start".to_string()), &None), (false, false));
    assert_eq!(w.look(&Some("next".to_string()), &None), (false, true));
    assert_eq!(w.look(&Some("next".to_string()), &None), (false, false));
    assert_eq!(w.look(&Some(String::new()), &None), (false, false));
    let img = Some(vec![1u8, 2, 3, 4]);
    assert_eq!(w.look(&Some("next".to_string()), &img), (true, false));
    assert_eq!(w.look(&Some("next".to_string()), &img), (false, false));
    w.skip_next_text_detect();
    assert_eq!(w.look(&Some("mine".to_string()), &img), (false, false));
    assert!(!w.skip_next_text);
    w.expect_image(&[9, 9]);
    w.skip_next_image_detect();
    assert_eq!(w.look(&Some("mine".to_string()), &Some(vec![9, 9])), (false, false));
    assert_eq!(w.last_image_hash, content_hash(&[9, 9]));
    assert_eq!(w.expected_image_size, 0);
    assert!(w.sequence_changed(5));
    assert!(!w.sequence_changed(5));
}

#[test]
fn thumbnail_sizes() {
    assert_eq!(thumbnail_size(400, 100), (200, 50));
    assert_eq!(thumbnail_size(100, 400), (50, 200));
    assert_eq!(thumbnail_size(300, 299), (200, 199));
    assert_eq!(thumbnail_size(0, 0), (0, 200));
    for (w, h) in [(1920u32, 1080u32), (1080, 1920), (7, 3), (3, 7), (1, 1), (4000, 1)] {
        let f = if w > h {
            (200, (200f64 * h as f64 / w as f64) as u32)
        } else {
            ((200f64 * w as f64 / h as f64) as u32, 200)
        };
        assert_eq!(thumbnail_size(w, h), f);
    }
}

#[test]
fn clipboard_images_are_stored_as_png() {
    let mut s = AppState::new(Database::new(), 10, "d".to_string());
    let rgba: Vec<u8> = vec![255, 0, 0, 255, 0, 255, 0, 255];
    assert!(store_clipboard_image(&mut s, rgba, 2, 1, 5));
    let h = s.get_history(false);
    assert_eq!(h.len(), 1);
    assert_eq!(h[0].mime_type.as_deref(), Some("image/png"));
    let (png, mime) = s.get_image_data(h[0].id).unwrap();
    assert_eq!(mime, "image/png");
    assert_eq!(&png[1..4], b"PNG");
    let thumb = s.get_thumbnail_data(h[0].id).unwrap();
    assert_eq!(&thumb[1..4], b"PNG");
    assert!(!store_clipboard_image(&mut s, vec![1, 2, 3], 2, 2, 6));
    assert_eq!(s.count(), 1);
}

#[test]
fn display_text_is_cut_at_a_line_or_marked() {
    assert_eq!(truncate_for_display("short", 10), "short");
    assert_eq!(truncate_for_display("abcdefghij", 4), "abcd...");
    assert_eq!(truncate_for_display("ab\ncdefgh", 6), "ab\n...");
    assert_eq!(truncate_for_display("日本語", 4), "日...");
    assert_eq!(truncate_for_display("日本語", 9), "日本語");
    assert_eq!(truncate_for_display("\nabc", 2), "\n...");
}

#[test]
fn rows_of_the_history_list() {
    let items = vec![
        ClipboardItem { id: 1, content_type: ContentType::Text, content_text: Some("x".repeat(2100)), content_hash: "h".to_string(), mime_type: None, file_size: None, width: None, height: None, source_ip: None, created_at: 0, is_favorite: false },
        ClipboardItem { id: 2, content_type: ContentType::Image, content_text: None, content_hash: "i".to_string(), mime_type: Some("image/png".to_string()), file_size: Some(10), width: Some(3), height: Some(4), source_ip: None, created_at: 0, is_favorite: false },
    ];
    let (entries, rows) = history_rows(&items, true);
    assert_eq!(entries[0].text.len(), 2100);
    assert_eq!(entries[0].image_id, 0);
    assert_eq!(entries[1].image_id, 2);
    assert_eq!(rows[0].text, format!("{}...", "x".repeat(2000)));
    assert!(rows[0].image_loaded);
    assert!(!rows[1].image_loaded);
    assert_eq!((rows[1].width, rows[1].height, rows[1].file_size, rows[1].image_id), (3, 4, 10, 2));
    let (_, rows) = history_rows(&items, false);
    assert!(!rows[0].image_loaded);
}

#[test]
fn relative_times() {
    let now = 1_700_000_000_000i64;
    assert_eq!(relative_time_label(now - 59_999, now).as_deref(), Some("刚刚"));
    assert_eq!(relative_time_label(now + 5_000, now).as_deref(), Some("刚刚"));
    assert_eq!(relative_time_label(now - 60_000, now).as_deref(), Some("1分钟前"));
    assert_eq!(relative_time_label(now - 59 * 60_000 - 59_999, now).as_deref(), Some("59分钟前"));
    assert_eq!(relative_time_label(now - 3_600_000, now).as_deref(), Some("1小时前"));
    assert_eq!(relative_time_label(now - 86_400_000 * 2, now).as_deref(), Some("2天前"));
    assert_eq!(relative_time_label(now - 86_400_000 * 30, now), None);
    let date = format_timestamp_inner(now - 86_400_000 * 40, now);
    assert_eq!(date.len(), 5);
    assert_eq!(&date[2..3], "-");
    assert_eq!(format_timestamp_inner(now - 120_000, now), "2分钟前");
    let mut c = TimestampCache::new();
    let a = c.format_timestamp_cached(1, now - 120_000, now);
    let b = c.format_timestamp_cached(1, now - 120_000, now + 30_000);
    assert_eq!(a, "2分钟前");
    assert_eq!(b, a);
    assert_eq!(c.entries.len(), 1);
}

#[test]
fn window_opens_under_the_caret() {
    let c = rect(100, 200, 102, 220);
    assert_eq!(caret_window_position(c, 280, 396, 1920, 1080), (100, 234));
    let right = rect(1800, 200, 1802, 220);
    assert_eq!(caret_window_position(right, 280, 396, 1920, 1080), (1522, 234));
    let low = rect(100, 900, 102, 920);
    assert_eq!(caret_window_position(low, 280, 396, 1920, 1080), (100, 490));
    let corner = rect(-5, 5, 10, 20);
    assert_eq!(caret_window_position(corner, 280, 396, 100, 100), (0, 0));
    assert_eq!(calc_window_position(None, Some(c), 0, 280, 396, 1920, 1080, (0, 0)), WindowPlacement::At(100, 234));
    assert_eq!(calc_window_position(Some(low), Some(c), 0, 280, 396, 1920, 1080, (0, 0)), WindowPlacement::At(100, 490));
    assert_eq!(calc_window_position(None, None, 0, 280, 396, 1920, 1080, (0, 0)), WindowPlacement::GoldenSection);
    assert_eq!(calc_window_position(None, None, 1, 280, 396, 1920, 1080, (500, 500)), WindowPlacement::At(360, 302));
}

#[test]
fn saved_settings_read_back() {
    assert_eq!(parse_i32("0"), Some(0));
    assert_eq!(parse_i32("-17"), Some(-17));
    assert_eq!(parse_i32("+8"), Some(8));
    assert_eq!(parse_i32("2147483647"), Some(i32::MAX));
    assert_eq!(parse_i32("-2147483648"), Some(i32::MIN));
    for bad in ["", "-", "+", "2147483648", "-2147483649", "1 ", " 1", "1a", "99999999999999999999"] {
        assert_eq!(parse_i32(bad), bad.parse::<i32>().ok(), "{:?}", bad);
    }
    for n in [0, 1, -1, 42, i32::MAX, i32::MIN] {
        assert_eq!(parse_i32(&n.to_string()), Some(n));
    }
    assert_eq!(parse_flag("true"), Some(true));
    assert_eq!(parse_flag("1"), Some(true));
    assert_eq!(parse_flag("0"), Some(false));
    assert_eq!(parse_flag("false"), Some(false));
    assert_eq!(parse_flag("yes"), None);
    assert_eq!(parse_theme("dark"), Some(true));
    assert_eq!(parse_theme("light"), Some(false));
    assert_eq!(parse_theme("blue"), None);
}

#[test]
fn window_size_is_saved_when_it_changes() {
    let mut w = SizeWatch::new();
    assert_eq!(w.observe(true, 300, 400), Some((300, 400)));
    assert_eq!(w.observe(true, 300, 400), None);
    assert_eq!(w.observe(true, 0, 0), None);
    assert_eq!(w.observe(true, 301, 400), Some((301, 400)));
    assert_eq!(w.observe(false, 301, 400), None);
    assert_eq!(w.observe(true, 301, 400), Some((301, 400)));
    let mut s = AppState::new(Database::new(), 10, "d".to_string());
    save_window_size(&mut s, 301, 400, 1);
    assert_eq!(s.get_config("window-width").as_deref(), Some("301"));
    assert_eq!(s.get_config("window-height").as_deref(), Some("400"));
    reset_window_size(&mut s, 2);
    assert_eq!(s.get_config("window-width").as_deref(), Some("280"));
    assert_eq!(s.get_config("window-height").as_deref(), Some("396"));
    save_pinned(&mut s, true, 3);
    assert_eq!(s.get_config("pinned").as_deref(), Some("true"));
}

fn peer(name: &str, addr: Option<&str>) -> DiscoveredPeer {
    DiscoveredPeer {
        device_id: format!("id-{}", name),
        platform: "desktop".to_string(),
        addresses: addr.map(|a| vec![a.to_string()]).unwrap_or_default(),
        port: 18792,
        fullname: name.to_string(),
    }
}

#[test]
fn devices_are_listed_once() {
    let mut l = PeerList::new();
    assert!(l.on_discovered(peer("a", Some("1.1.1.1"))));
    assert!(!l.on_discovered(peer("a", Some("2.2.2.2"))));
    assert!(l.on_discovered(peer("b", None)));
    let rows = l.device_rows();
    assert_eq!(rows.len(), 2);
    assert_eq!(rows[0].address, "1.1.1.1");
    assert_eq!(rows[1].address, "");
    assert_eq!(rows[1].port, 18792);
    l.on_lost(&"a".to_string());
    assert_eq!(l.peers.len(), 1);
    assert_eq!(l.peers[0].fullname, "b");
}

#[test]
fn favorite_list_actions() {
    let mut s = AppState::new(Database::new(), 10, "d".to_string());
    assert!(!create_favorite_folder(&mut s, "   ", 1));
    assert!(create_favorite_folder(&mut s, "  work ", 1));
    assert!(create_favorite_folder(&mut s, "fun", 2));
    let rows = favorite_rows(&s);
    assert_eq!(rows.iter().map(|r| r.name.clone()).collect::<Vec<_>>(), vec!["work", "fun"]);
    assert!(add_text_to_favorite(&mut s, 0, "note", 3));
    assert!(!add_text_to_favorite(&mut s, 0, "note", 4));
    assert!(!add_text_to_favorite(&mut s, 5, "x", 4));
    let texts = vec!["a".to_string(), String::new(), "b".to_string(), "note".to_string()];
    assert_eq!(add_texts_to_favorite(&mut s, 1, &texts, 5), 3);
    let rows = favorite_rows(&s);
    assert_eq!((rows[0].count, rows[1].count), (1, 3));
    let items = s.get_favorite_folder_items(1);
    let mut t = folder_texts(&items);
    t.sort();
    assert_eq!(t, vec!["a", "b", "note"]);
    let moved = reorder_favorite_rows(rows, 0, 2);
    assert_eq!(moved.iter().map(|r| r.name.clone()).collect::<Vec<_>>(), vec!["fun", "work"]);
    let same = reorder_favorite_rows(moved, 5, 0);
    assert_eq!(same[0].name, "fun");
    let mut r = vec![FavoriteRow { id: 1, name: "x".to_string(), count: 2 }];
    bump_favorite_count(&mut r, 0, 3);
    bump_favorite_count(&mut r, 4, 3);
    assert_eq!(r[0].count, 5);
    assert!(delete_favorite_folder_at(&mut s, 0));
    assert!(!delete_favorite_folder_at(&mut s, 3));
    assert_eq!(favorite_rows(&s).len(), 1);
}

#[test]
fn selecting_several_rows() {
    let (states, count) = select_only(3, 1);
    assert_eq!(states, vec![false, true, false]);
    assert_eq!(count, 1);
    let (states, count, on) = toggle_selection(states, 2);
    assert_eq!((states.clone(), count, on), (vec![false, true, true], 2, true));
    let (states, _, _) = toggle_selection(states, 1);
    let (states, count, on) = toggle_selection(states, 2);
    assert_eq!((states, count, on), (vec![], 0, false));
    let (_, count) = select_only(2, 5);
    assert_eq!(count, 1);
    let mut g = CopyGuard::new();
    assert!(g.try_begin(4));
    assert!(!g.try_begin(5));
    g.finish();
    assert!(g.try_begin(5));
}

#[test]
fn local_addresses_leave_out_loopback_and_are_ordered() {
    let ifaces = vec![
        ("wlan".to_string(), "192.168.1.5".to_string()),
        ("lo".to_string(), "127.0.0.1".to_string()),
        ("eth".to_string(), "10.0.0.9".to_string()),
        ("eth".to_string(), "10.0.0.10".to_string()),
        ("docker".to_string(), "172.17.0.1".to_string()),
    ];
    assert_eq!(list_local_ipv4(ifaces), vec!["172.17.0.1", "10.0.0.10", "10.0.0.9", "192.168.1.5"]);
    assert!(list_local_ipv4(vec![]).is_empty());
}

#[test]
fn fades_need_a_known_window() {
    assert_eq!(fade_window_out(0), None);
    assert_eq!(fade_window_out(5), Some(5));
    assert_eq!(fade_window_in(6), Some(6));
    assert_eq!(startup_window_fade_in(0), None);
    let px = tray_icon_rgba();
    assert_eq!(px.len(), 1024);
    assert_eq!(&px[0..4], &[150, 150, 150, 255]);
    let _ = WindowsTray::new();
}

#[test]
fn get_data_hands_over_text_with_a_terminator() {
    let t = "hé😀";
    let mut want: Vec<u8> = t.encode_utf16().chain(std::iter::once(0)).flat_map(|u| u.to_le_bytes()).collect();
    assert_eq!(get_data_payload(13, 1, t), Ok(want.clone()));
    want = t.as_bytes().to_vec();
    want.push(0);
    assert_eq!(get_data_payload(1, 1, t), Ok(want));
    assert_eq!(get_data_payload(2, 1, t), Err(DV_E_FORMATETC));
    assert_eq!(get_data_payload(13, 2, t), Err(DV_E_DVASPECT));
    let (f, code) = canonical_format();
    assert_eq!(f, FormatEtc::default());
    assert_eq!((f.cf_format, f.aspect, f.lindex, f.tymed), (0, 1, -1, 1));
    assert_eq!(code, DATA_S_SAMEFORMATETC);
}

#[test]
fn dragging_out_and_back() {
    let mut d = DragState::new();
    assert_eq!(drag_poll(&mut d, false, 5, true, true), DragPoll::Stop);
    assert_eq!(drag_poll(&mut d, true, 0, true, true), DragPoll::Stop);
    assert_eq!(drag_poll(&mut d, true, 5, false, true), DragPoll::Continue);
    assert_eq!(drag_poll(&mut d, true, 5, false, false), DragPoll::Released);
    assert_eq!(drag_poll(&mut d, true, 5, true, true), DragPoll::StartOutsideDrag);
    assert_eq!(d.app_hwnd, 5);
    let back = ReentryProbe { client_x: 1, client_y: 1, client_width: 10, client_height: 10 };
    assert_eq!(d.query_continue_drag(0, 1, Some(back)), DRAGDROP_S_CANCEL);
    assert_eq!(after_outside_drag(&mut d, true), AfterDrag::DragInside);
    assert!(!d.was_reentry_cancelled());
    assert_eq!(after_outside_drag(&mut d, true), AfterDrag::ResetMouse);
}

#[test]
fn caret_figures_unused_may_be_anything() {
    let p = CaretProbe {
        foreground: 0,
        app_hwnd: 9,
        accessible: Some((i32::MAX, i32::MAX, 5, 5)),
        thread_caret: Some(rect(i32::MIN, 0, i32::MAX, 0)),
        thread_caret_on_screen: None,
    };
    assert!(get_focused_caret_screen_pos(&p).is_none());
    let q = CaretProbe { foreground: 5, accessible: Some((1, 1, 2, 2)), ..p };
    assert_eq!(get_focused_caret_screen_pos(&q).unwrap().right, 3);
}
