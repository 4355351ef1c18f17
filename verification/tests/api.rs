use std::cell::RefCell;
use paste_bridge::shared::api::{
    route, Route, handle_request, handle_request_cb, ReplyBody, ClipboardApiCallback, ApiServer, handle_get_visible,
    handle_copy, handle_copy_cb, handle_get_visible_cb, handle_window_show_cb, handle_window_hide_cb, handle_clear_cb,
    handle_get_history_cb, error_reply,
};
use paste_bridge::shared::database::Database;
use paste_bridge::shared::models::PasteBridgeError;
use paste_bridge::shared::state::AppState;

struct Phone {
    visible: RefCell<bool>,
    copied: RefCell<Vec<String>>,
    refuse: bool,
}

impl ClipboardApiCallback for Phone {
    fn get_history_json(&self) -> Vec<u8> {
        b"[]".to_vec()
    }
    fn on_remote_copy(&self, text: String) -> Result<(), PasteBridgeError> {
        if self.refuse {
            return Err(PasteBridgeError::generic("busy".to_string()));
        }
        self.copied.borrow_mut().push(text);
        Ok(())
    }
    fn set_window_visible(&self, visible: bool) {
        *self.visible.borrow_mut() = visible;
    }
    fn is_window_visible(&self) -> bool {
        *self.visible.borrow()
    }
}

fn phone(refuse: bool) -> Phone {
    Phone { visible: RefCell::new(false), copied: RefCell::new(vec![]), refuse }
}

fn text_of(body: &ReplyBody) -> String {
    match body {
        ReplyBody::Text(t) => t.clone(),
        _ => panic!("not text"),
    }
}

#[test]
fn routes_match_method_and_path_exactly() {
    assert_eq!(route("GET", "/clipboard/history"), Route::GetHistory);
    assert_eq!(route("POST", "/clipboard/copy"), Route::Copy);
    assert_eq!(route("POST", "/clipboard/clear"), Route::Clear);
    assert_eq!(route("GET", "/window/visible"), Route::GetVisible);
    assert_eq!(route("POST", "/window/show"), Route::Show);
    assert_eq!(route("POST", "/window/hide"), Route::Hide);
    assert_eq!(route("GET", "/clipboard/copy"), Route::NotFound);
    assert_eq!(route("POST", "/clipboard/history/"), Route::NotFound);
    assert_eq!(route("get", "/clipboard/history"), Route::NotFound);
}

#[test]
fn requests_over_the_state() {
    let mut s = AppState::new(Database::new(), 10, "d".to_string());
    let r = handle_request("POST", "/clipboard/copy", "héllo".as_bytes(), &mut s, 5);
    assert_eq!(r.status, 200);
    assert_eq!(text_of(&r.body), "OK");
    assert_eq!(r.set_clipboard.as_deref(), Some("héllo"));
    let r = handle_request("GET", "/clipboard/history", &[], &mut s, 6);
    match r.body {
        ReplyBody::History(h) => {
            assert_eq!(h.len(), 1);
            assert_eq!(h[0].content_text.as_deref(), Some("héllo"));
        },
        _ => panic!("history expected"),
    }
    let r = handle_request("POST", "/window/show", &[], &mut s, 7);
    assert_eq!(text_of(&r.body), "OK");
    let r = handle_request("GET", "/window/visible", &[], &mut s, 8);
    match r.body {
        ReplyBody::Json(j) => assert_eq!(j, b"true".to_vec()),
        _ => panic!("json expected"),
    }
    handle_request("POST", "/window/hide", &[], &mut s, 9);
    assert_eq!(handle_get_visible(&s), b"false".to_vec());
    let r = handle_request("POST", "/clipboard/clear", &[], &mut s, 10);
    assert_eq!(text_of(&r.body), "OK");
    assert_eq!(s.count(), 0);
    let r = handle_request("DELETE", "/clipboard/history", &[], &mut s, 11);
    assert_eq!(r.status, 404);
    assert_eq!(text_of(&r.body), "Not Found");
}

#[test]
fn pushed_bytes_are_read_lossily() {
    let mut s = AppState::new(Database::new(), 10, "d".to_string());
    let text = handle_copy(&mut s, &[0x61, 0xff, 0x62], 1).unwrap();
    assert_eq!(text, "a\u{fffd}b");
    assert_eq!(s.get_history(false)[0].content_text.as_deref(), Some("a\u{fffd}b"));
}

#[test]
fn requests_through_callbacks() {
    let p = phone(false);
    let r = handle_request_cb("POST", "/clipboard/copy", b"hi", &p);
    assert_eq!(r.status, 200);
    assert_eq!(p.copied.borrow().clone(), vec!["hi".to_string()]);
    let r = handle_request_cb("POST", "/window/show", &[], &p);
    assert_eq!(text_of(&r.body), "OK");
    assert!(p.is_window_visible());
    assert_eq!(handle_get_visible_cb(&p), b"true".to_vec());
    assert!(handle_window_hide_cb(&p).is_ok());
    assert_eq!(handle_get_visible_cb(&p), b"false".to_vec());
    assert!(handle_window_show_cb(&p).is_ok());
    assert!(handle_clear_cb(&p).is_ok());
    assert_eq!(handle_get_history_cb(&p), b"[]".to_vec());
    let r = handle_request_cb("GET", "/clipboard/history", &[], &p);
    match r.body {
        ReplyBody::Json(j) => assert_eq!(j, b"[]".to_vec()),
        _ => panic!("json expected"),
    }
    let r = handle_request_cb("PUT", "/x", &[], &p);
    assert_eq!(r.status, 404);
}

#[test]
fn refused_copy_is_reported_with_status_400() {
    let p = phone(true);
    assert!(handle_copy_cb(&p, b"x").is_err());
    let r = handle_request_cb("POST", "/clipboard/copy", b"x", &p);
    assert_eq!(r.status, 400);
    assert_eq!(text_of(&r.body), "Error: busy");
    let e = error_reply(&PasteBridgeError::generic("m".to_string()));
    assert_eq!(text_of(&e.body), "Error: m");
}

#[test]
fn server_port_and_stop() {
    let mut s = ApiServer::new(18792);
    assert_eq!(s.port(), 18792);
    let (tx, rx) = std::sync::mpsc::channel::<()>();
    s.attach_stop_channel(tx);
    s.stop();
    assert!(rx.try_recv().is_ok());
    s.stop();
    assert_eq!(s.port(), 18792);
}
