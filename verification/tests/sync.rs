use paste_bridge::shared::sync_device::{
    SyncReport, SyncLoop, SyncAction, base_url, history_url, copy_url, request_error, status_error, body_error,
    decode_error, check_history_status, latest_local_text, pull_remote_items, push_payload, push_outcome, sync_pull,
    finish_sync,
};
use paste_bridge::shared::discovery::DiscoveredPeer;
use paste_bridge::shared::database::Database;
use paste_bridge::shared::models::{ClipboardItem, ContentType};
use paste_bridge::shared::state::AppState;

fn item(id: i64, kind: ContentType, text: Option<&str>, hash: &str) -> ClipboardItem {
    ClipboardItem {
        id,
        content_type: kind,
        content_text: text.map(|t| t.to_string()),
        content_hash: hash.to_string(),
        mime_type: None,
        file_size: None,
        width: None,
        height: None,
        source_ip: None,
        created_at: id,
        is_favorite: false,
    }
}

fn peer(addresses: Vec<&str>) -> DiscoveredPeer {
    DiscoveredPeer {
        device_id: "peer-1".to_string(),
        platform: "android".to_string(),
        addresses: addresses.into_iter().map(|a| a.to_string()).collect(),
        port: 18792,
        fullname: "p._pastebridge._tcp.local.".to_string(),
    }
}

#[test]
fn report_ok_has_no_error() {
    let r = SyncReport::ok("p".to_string(), 5, 2, 1);
    assert_eq!(r.pulled_total, 5);
    assert_eq!(r.pulled_added, 2);
    assert_eq!(r.pushed, 1);
    assert!(r.error.is_none());
}

#[test]
fn urls_and_error_texts() {
    let b = base_url("192.168.1.9", 18792);
    assert_eq!(b, "http://192.168.1.9:18792");
    assert_eq!(history_url(&b), "http://192.168.1.9:18792/clipboard/history");
    assert_eq!(copy_url(&b), "http://192.168.1.9:18792/clipboard/copy");
    assert_eq!(request_error("GET", "u", "refused"), "GET u: refused");
    assert_eq!(status_error("POST", "u", 500), "POST u -> status 500");
    assert_eq!(body_error("u", "eof"), "read body from u: eof");
    assert_eq!(decode_error("bad"), "decode history: bad");
    assert!(check_history_status("u", 200).is_ok());
    assert_eq!(check_history_status("u", 404).unwrap_err(), "GET u -> status 404");
}

#[test]
fn latest_text_is_the_first_text_record() {
    let h = vec![
        item(3, ContentType::Image, None, "i"),
        item(2, ContentType::Text, Some("newest"), "a"),
        item(1, ContentType::Text, Some("older"), "b"),
    ];
    assert_eq!(latest_local_text(&h).as_deref(), Some("newest"));
    let empty_first = vec![item(2, ContentType::Text, Some(""), "a"), item(1, ContentType::Text, Some("x"), "b")];
    assert_eq!(latest_local_text(&empty_first), None);
    assert_eq!(latest_local_text(&vec![]), None);
}

#[test]
fn pull_adds_new_texts_only() {
    let mut s = AppState::new(Database::new(), 100, "me".to_string());
    s.push_clipboard("mine".to_string(), 1);
    let mine_hash = Database::compute_hash(b"mine");
    let remote = vec![
        item(1, ContentType::Text, Some("mine"), &mine_hash),
        item(2, ContentType::Text, Some("theirs"), "h2"),
        item(3, ContentType::Image, None, "h3"),
        item(4, ContentType::Text, Some(""), "h4"),
        item(5, ContentType::Text, None, "h5"),
    ];
    assert_eq!(pull_remote_items(&mut s, &remote, 10), 1);
    assert_eq!(s.count(), 2);
}

#[test]
fn pull_plan_takes_latest_text_before_pulling() {
    let mut s = AppState::new(Database::new(), 100, "me".to_string());
    s.push_clipboard("mine".to_string(), 1);
    let remote = vec![item(7, ContentType::Text, Some("theirs"), &Database::compute_hash(b"theirs"))];
    let plan = sync_pull(&mut s, &remote, 5);
    assert_eq!((plan.pulled_total, plan.pulled_added), (1, 1));
    assert_eq!(plan.payload.as_deref(), Some("mine"));
    let report = finish_sync("p".to_string(), &plan, Ok(1)).unwrap();
    assert_eq!((report.pulled_total, report.pulled_added, report.pushed), (1, 1, 1));
    assert_eq!(finish_sync("p".to_string(), &plan, Err("e".to_string())).unwrap_err(), "e");
    let known = vec![
        item(1, ContentType::Text, Some("mine"), &Database::compute_hash(b"mine")),
        item(2, ContentType::Text, Some("theirs"), &Database::compute_hash(b"theirs")),
    ];
    let plan = sync_pull(&mut s, &known, 6);
    assert_eq!(plan.payload, None);
    assert_eq!(plan.pulled_added, 0);
}

#[test]
fn push_decisions() {
    let remote = vec![item(1, ContentType::Text, Some("y"), &Database::compute_hash(b"y"))];
    assert_eq!(push_payload(None, &remote), None);
    assert_eq!(push_payload(Some(String::new()), &remote), None);
    assert_eq!(push_payload(Some("x".to_string()), &remote).as_deref(), Some("x"));
    assert_eq!(push_payload(Some("y".to_string()), &remote), None);
    assert_eq!(push_outcome("u", Ok(200)), Ok(1));
    assert_eq!(push_outcome("u", Ok(503)), Err("POST u -> status 503".to_string()));
    assert_eq!(push_outcome("u", Err("timeout".to_string())), Err("POST u: timeout".to_string()));
}

#[test]
fn addresses_are_tried_in_turn() {
    let p = peer(vec![]);
    let (_, a) = SyncLoop::begin(&p);
    match a {
        SyncAction::Finish(r) => assert_eq!(r.error.as_deref(), Some("peer has no address")),
        _ => panic!("finish expected"),
    }
    let p = peer(vec!["10.0.0.1", "10.0.0.2"]);
    let (mut l, a) = SyncLoop::begin(&p);
    match a {
        SyncAction::Try(b) => assert_eq!(b, "http://10.0.0.1:18792"),
        _ => panic!("try expected"),
    }
    match l.on_result(&p, Err("e1".to_string())) {
        SyncAction::Try(b) => assert_eq!(b, "http://10.0.0.2:18792"),
        _ => panic!("try expected"),
    }
    match l.on_result(&p, Err("e2".to_string())) {
        SyncAction::Finish(r) => {
            assert_eq!(r.error.as_deref(), Some("e2"));
            assert_eq!(r.peer_device_id, "peer-1");
        },
        _ => panic!("finish expected"),
    }
    let (mut l, _) = SyncLoop::begin(&p);
    match l.on_result(&p, Ok(SyncReport::ok("peer-1".to_string(), 3, 1, 1))) {
        SyncAction::Finish(r) => assert_eq!(r.pulled_added, 1),
        _ => panic!("finish expected"),
    }
}
