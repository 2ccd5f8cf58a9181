use mcpfile::bridge::{
    bridge_args, bridge_container_name, bridge_failed_message, bridge_log_path,
    bridge_socket_path, bridge_suffix, bridge_wait, WaitAction, BRIDGE_CHECKS,
};
use mcpfile::strmap::StrMap;
use mcpfile::text::{
    compare_text, contains_text, hex8, i64_decimal, padded, parse_u16, same_text, split_first,
    trim, trim_start_matches, u64_decimal, Order,
};

#[test]
fn decimal_rendering() {
    assert_eq!(u64_decimal(0), "0");
    assert_eq!(u64_decimal(54321), "54321");
    assert_eq!(u64_decimal(u64::MAX), u64::MAX.to_string());
    assert_eq!(i64_decimal(-42), "-42");
    assert_eq!(i64_decimal(i64::MIN), i64::MIN.to_string());
    assert_eq!(i64_decimal(7), "7");
}

#[test]
fn hex_rendering() {
    assert_eq!(hex8(0), "00000000");
    assert_eq!(hex8(0xdead_beef), "deadbeef");
    assert_eq!(hex8(0x1234_5678_0000_00ab), "000000ab");
    assert_eq!(hex8(0xabc), format!("{:08x}", 0xabcu64 & 0xFFFF_FFFF));
}

#[test]
fn port_parsing_matches_std() {
    for s in ["", "+", "-1", "0", "65535", "65536", "+80", "8080", "08", "1a", " 1", "99999999999"] {
        assert_eq!(parse_u16(s), s.parse::<u16>().ok(), "input {:?}", s);
    }
}

#[test]
fn splitting_and_trimming() {
    assert_eq!(split_first("8080/tcp", '/'), "8080");
    assert_eq!(split_first("8080", '/'), "8080");
    assert_eq!(split_first("/x", '/'), "");
    assert_eq!(trim_start_matches("//name/", '/'), "name/");
    assert_eq!(trim(" \t value \n"), "value");
    assert_eq!(trim("\u{3000}x\u{a0}"), "x");
    assert_eq!(trim("   "), "");
}

#[test]
fn searching_and_comparing() {
    assert!(contains_text("An ExpiredToken error", "ExpiredToken"));
    assert!(!contains_text("short", "longer text"));
    assert!(contains_text("abc", ""));
    assert_eq!(compare_text("A_VAR", "Z_VAR"), Order::Less);
    assert_eq!(compare_text("ab", "a"), Order::Greater);
    assert_eq!(compare_text("same", "same"), Order::Equal);
    assert!(same_text("x", "x"));
    assert!(!same_text("x", "y"));
}

#[test]
fn padding_like_format() {
    assert_eq!(padded("SERVICE", 15), format!("{:<15}", "SERVICE"));
    assert_eq!(padded("a-very-long-service-name", 15), "a-very-long-service-name");
}

#[test]
fn strmap_orders_and_replaces() {
    let mut m: StrMap<String> = StrMap::new();
    m.insert("b".to_string(), "1".to_string());
    m.insert("a".to_string(), "2".to_string());
    m.insert("b".to_string(), "3".to_string());
    assert_eq!(m.len(), 2);
    assert_eq!(m.key_at(0), "a");
    assert_eq!(m.key_at(1), "b");
    assert_eq!(m.get("b").unwrap(), "3");
    assert!(m.contains_key("a"));
    assert!(m.get("c").is_none());
    let n = StrMap::from_pairs(vec![("k".to_string(), 1), ("k".to_string(), 2)]);
    assert_eq!(n.len(), 1);
    assert_eq!(*n.get("k").unwrap(), 2);
}

#[test]
fn bridge_names() {
    let suffix = bridge_suffix(0x1_a1b2_c3d4);
    assert_eq!(suffix, "a1b2c3d4");
    assert_eq!(bridge_container_name("tldv", &suffix), "mcpfile-tldv-a1b2c3d4");
    assert_eq!(bridge_socket_path("/tmp", "tldv", &suffix), "/tmp/mcpfile-tldv-a1b2c3d4.sock");
    assert_eq!(bridge_log_path("/tmp/", "tldv", &suffix), "/tmp/mcpfile-tldv-a1b2c3d4.log");
    assert_eq!(
        bridge_failed_message("/tmp/x.log"),
        "bridge failed to start — check /tmp/x.log"
    );
}

#[test]
fn bridge_arguments() {
    assert_eq!(
        bridge_args(Some("/c.toml"), "tldv", "/tmp/s.sock", "mcpfile-tldv-1"),
        vec![
            "-c",
            "/c.toml",
            "up",
            "tldv",
            "--bridge-socket",
            "/tmp/s.sock",
            "--bridge-name",
            "mcpfile-tldv-1"
        ]
    );
    assert_eq!(
        bridge_args(None, "t", "s", "c"),
        vec!["up", "t", "--bridge-socket", "s", "--bridge-name", "c"]
    );
}

#[test]
fn bridge_waits_at_most_fifty_looks() {
    assert_eq!(BRIDGE_CHECKS, 50);
    assert_eq!(bridge_wait(1, true), WaitAction::Ready);
    assert_eq!(bridge_wait(1, false), WaitAction::SleepThenCheck);
    assert_eq!(bridge_wait(49, false), WaitAction::SleepThenCheck);
    assert_eq!(bridge_wait(50, false), WaitAction::SleepThenGiveUp);
    assert_eq!(bridge_wait(50, true), WaitAction::Ready);
}
