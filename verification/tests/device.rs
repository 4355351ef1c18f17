use paste_bridge::shared::device::{stored_device_id, parse_machine_guid, rand_simple, generate_fallback_uuid, settle_device_id};
use paste_bridge::shared::memory::MemoryMonitor;

#[test]
fn stored_identifier_is_trimmed() {
    assert_eq!(stored_device_id("  abc-123 \r\n").as_deref(), Some("abc-123"));
    assert_eq!(stored_device_id(" \n "), None);
    assert_eq!(stored_device_id(""), None);
}

#[test]
fn machine_guid_is_read_from_registry_output() {
    let out = "\r\nHKEY_LOCAL_MACHINE\\SOFTWARE\\Microsoft\\Cryptography\r\n    MachineGuid    REG_SZ    1234-abcd\r\n\r\n";
    assert_eq!(parse_machine_guid(out).as_deref(), Some("1234-abcd"));
    assert_eq!(parse_machine_guid("MachineGuid only\nnothing"), None);
    assert_eq!(parse_machine_guid(""), None);
}

#[test]
fn random_number_follows_the_formula() {
    let nanos: u128 = 1_700_000_000_123_456_789;
    let mut x = (nanos as u32).wrapping_mul(747796405);
    x ^= x >> 17;
    x ^= x << 5;
    x ^= x >> 13;
    assert_eq!(rand_simple(nanos), x);
}

#[test]
fn fallback_identifier_has_uuid_shape() {
    let now: u128 = 1_700_000_000_123_456_789;
    let random: u32 = 0xdead_beef;
    let expected = format!(
        "{:08x}-{:04x}-{:04x}-{:04x}-{:012x}",
        (now & 0xFFFFFFFF) as u32,
        ((now >> 32) & 0xFFFF) as u16,
        (((now >> 48) & 0x0FFF) as u16) | 0x4000,
        ((random & 0x3FFF) | 0x8000),
        (now % 0xFFFFFFFFFFFF) as u64
    );
    let id = generate_fallback_uuid(now, random);
    assert_eq!(id, expected);
    assert_eq!(id.len(), 36);
    assert_eq!(&id[14..15], "4");
    assert!(matches!(&id[19..20], "8" | "9" | "a" | "b"));
    assert_eq!(generate_fallback_uuid(0, 0), "00000000-0000-4000-8000-000000000000");
}

fn float_text(bytes: u64) -> String {
    let kb = 1024.0;
    let mb = kb * 1024.0;
    let gb = mb * 1024.0;
    let b = bytes as f64;
    if b >= gb {
        format!("{:.2} GB", b / gb)
    } else if b >= mb {
        format!("{:.2} MB", b / mb)
    } else if b >= kb {
        format!("{:.2} KB", b / kb)
    } else {
        format!("{} B", bytes)
    }
}

#[test]
fn memory_text_matches_float_formatting() {
    assert_eq!(MemoryMonitor::format_memory(0), "0 B");
    assert_eq!(MemoryMonitor::format_memory(1023), "1023 B");
    assert_eq!(MemoryMonitor::format_memory(1024), "1.00 KB");
    assert_eq!(MemoryMonitor::format_memory(1536), "1.50 KB");
    assert_eq!(MemoryMonitor::format_memory(5 * 1024 * 1024), "5.00 MB");
    assert_eq!(MemoryMonitor::format_memory(3 * 1024 * 1024 * 1024 / 2), "1.50 GB");
    let mut samples: Vec<u64> = vec![1152, 1151, 1153, 2047, 1048575, 1048576, 1073741823, 1073741824, u64::MAX, u64::MAX - 1,
        (1u64 << 53) + 1, (1u64 << 60) + 12345, 9_007_199_254_740_993, 123_456_789_012];
    let mut x: u64 = 88172645463325252;
    for _ in 0..3000 {
        x ^= x << 13;
        x ^= x >> 7;
        x ^= x << 17;
        samples.push(x >> (x % 64));
    }
    for k in 0..4000u64 {
        samples.push(1024 + k * 7);
        samples.push(1048576 + k * 5243);
    }
    for b in samples {
        assert_eq!(MemoryMonitor::format_memory(b), float_text(b), "bytes = {}", b);
    }
}

#[test]
fn monitor_keeps_current_peak_and_count() {
    let mut m = MemoryMonitor::new();
    assert_eq!(m.get_update_count(), 0);
    assert_eq!(m.update(500), 500);
    assert_eq!(m.update(300), 300);
    assert_eq!(m.get_current_memory(), 300);
    assert_eq!(m.get_peak_memory(), 500);
    assert_eq!(m.get_update_count(), 2);
    assert_eq!(m.trim_working_set(false, 10), None);
    assert_eq!(m.get_current_memory(), 300);
    assert_eq!(m.trim_working_set(true, 100), Some(200));
    assert_eq!(m.trim_working_set(true, 400), Some(0));
    assert_eq!(m.get_peak_memory(), 500);
    assert!(MemoryMonitor::minimize_working_set(true));
    let _ = m.get_uptime();
}

#[test]
fn settled_identifier_reads_back() {
    let id = generate_fallback_uuid(1_700_000_000_000_000_000, 7);
    assert_eq!(stored_device_id(&id).as_deref(), Some(id.as_str()));
    let guid = parse_machine_guid("    MachineGuid    REG_SZ    abc-123\r\n").unwrap();
    assert_eq!(stored_device_id(&guid).as_deref(), Some("abc-123"));
    let trimmed = stored_device_id("  x y \n").unwrap();
    assert_eq!(stored_device_id(&trimmed).as_deref(), Some("x y"));
}

#[test]
fn peak_is_the_largest_reading() {
    let mut m = MemoryMonitor::new();
    assert_eq!((m.get_peak_memory(), m.get_current_memory(), m.get_update_count()), (0, 0, 0));
    let readings = [5u64, 9, 3, 9, 1, 12, 0];
    let mut max = 0;
    for (k, r) in readings.iter().enumerate() {
        m.update(*r);
        max = max.max(*r);
        assert_eq!(m.get_peak_memory(), max);
        assert!(m.get_peak_memory() >= m.get_current_memory());
        assert_eq!(m.get_update_count(), k + 1);
    }
}

#[test]
fn device_identifier_is_settled_and_kept() {

    assert_eq!(settle_device_id(Some("  kept \n"), Some("MachineGuid REG_SZ g"), 1, 2), ("kept".to_string(), false));
    let (guid, write) = settle_device_id(Some("  "), Some("x\n    MachineGuid    REG_SZ    1234-abcd\r\n"), 1, 2);
    assert_eq!(guid, "1234-abcd");
    assert!(write);
    assert_eq!(settle_device_id(Some(&guid), None, 9, 9), (guid.clone(), false));
    let (made, write) = settle_device_id(None, None, 0, 0);
    assert_eq!(made, generate_fallback_uuid(0, 0));
    assert!(write);
    assert_eq!(settle_device_id(Some(&made), None, 5, 5), (made.clone(), false));
}

#[test]
fn a_second_start_reads_the_written_identifier() {
    let mut file: Option<String> = None;
    let (first, write) = settle_device_id(file.as_deref(), None, 7, 11);
    if write {
        file = Some(first.clone());
    }
    let (second, write2) = settle_device_id(file.as_deref(), Some("MachineGuid REG_SZ other"), 8, 12);
    assert_eq!(second, first);
    assert!(!write2);
}
