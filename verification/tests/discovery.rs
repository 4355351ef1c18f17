use paste_bridge::shared::discovery::{
    sanitize_label, service_name, resolve_hostname, address_arg, registration, peer_from_resolved, SERVICE_TYPE,
};

#[test]
fn sanitize_label_strips_special_chars() {
    assert_eq!(sanitize_label("a1b2:c3-d4"), "a1b2c3-d4");
    assert_eq!(sanitize_label(""), "device");
    assert_eq!(sanitize_label("@@@"), "device");
}

#[test]
fn resolve_hostname_is_non_empty() {
    let h = resolve_hostname(None, None);
    assert!(!h.is_empty());
}

#[test]
fn hostname_prefers_computer_name_and_adds_local_suffix() {
    assert_eq!(resolve_hostname(Some("DESKTOP-1".to_string()), Some("other".to_string())), "DESKTOP-1.local.");
    assert_eq!(resolve_hostname(Some(String::new()), Some("box".to_string())), "box.local.");
    assert_eq!(resolve_hostname(None, None), "pastebridge.local.");
    assert_eq!(resolve_hostname(Some("host.local.".to_string()), None), "host.local.");
}

#[test]
fn service_name_uses_first_eight_characters_and_port() {
    assert_eq!(service_name("0123456789abcdef", 18792), "PasteBridge-01234567-18792");
    assert_eq!(service_name("ab:cd:ef:gh", 5), "PasteBridge-abcdef-5");
    assert_eq!(service_name("a:b", 1), "PasteBridge-ab-1");
    assert_eq!(service_name("", 80), "PasteBridge-device-80");
}

#[test]
fn address_argument_joins_with_commas() {
    assert_eq!(address_arg(&[]), "0.0.0.0");
    assert_eq!(address_arg(&["10.0.0.2".to_string()]), "10.0.0.2");
    assert_eq!(address_arg(&["10.0.0.2".to_string(), "192.168.1.4".to_string()]), "10.0.0.2,192.168.1.4");
}

#[test]
fn registration_carries_text_records() {
    let r = registration("dev-1", "desktop", 18792, &["10.0.0.2".to_string()], "h.local.".to_string());
    assert_eq!(r.service_name, "PasteBridge-dev-1-18792");
    assert_eq!(r.host, "h.local.");
    assert_eq!(r.ip_arg, "10.0.0.2");
    assert_eq!(r.port, 18792);
    assert_eq!(r.properties, vec![
        ("device_id".to_string(), "dev-1".to_string()),
        ("platform".to_string(), "desktop".to_string()),
    ]);
    assert_eq!(SERVICE_TYPE, "_pastebridge._tcp.local.");
}

#[test]
fn peer_falls_back_to_full_name() {
    let p = peer_from_resolved("svc._pastebridge._tcp.local.".to_string(), 7, None, None, vec![]);
    assert_eq!(p.device_id, "svc._pastebridge._tcp.local.");
    assert_eq!(p.platform, "");
    let q = peer_from_resolved("svc".to_string(), 7, Some("id".to_string()), Some("android".to_string()), vec!["1.2.3.4".to_string()]);
    assert_eq!(q.device_id, "id");
    assert_eq!(q.platform, "android");
    assert_eq!(q.addresses, vec!["1.2.3.4".to_string()]);
    let d = peer_from_resolved("s".to_string(), 1, None, None, vec!["a".to_string(), "b".to_string(), "a".to_string(), "c".to_string(), "b".to_string()]);
    assert_eq!(d.addresses, vec!["a".to_string(), "b".to_string(), "c".to_string()]);
    assert_eq!(q.port, 7);
}
