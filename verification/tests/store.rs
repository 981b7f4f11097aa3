use nishack::models::{Timestamp, Violation, ViolationKind};
use nishack::store::{
    agent_entry, agents_key, ban_config_key, detail, heartbeat_key, keep_strings, key,
    parse_ban_config, payload_members, rule, screenshot_history_key, screenshot_key,
    screenshot_members, screenshot_payload, server_ip_key, severity,
    teacher_address, teacher_violation_url, violation_count_key, violation_payload,
    violations_key, HEARTBEAT_TTL_SECS, SCREENSHOT_HISTORY_LEN, SCREENSHOT_TTL_SECS, TEACHER_PORT,
    VIOLATION_HISTORY_LEN,
};
use nishack::json::JsonMember;
use nishack::text::{decimal, first_label, fold_names, holds_text, keep_first, lowercase_all};

fn violation(kind: ViolationKind, target: &str, action_taken: bool) -> Violation {
    Violation {
        hostname: "pc-7".to_string(),
        target: target.to_string(),
        kind,
        action_taken,
        username: "alice".to_string(),
        timestamp: Timestamp { secs: 1_431_648_000, nanos: 0 },
    }
}

#[test]
fn key_joins_prefix_and_parts_with_colons() {
    assert_eq!(key("school", &vec!["heartbeat", "pc-7"]), "school:heartbeat:pc-7");
    assert_eq!(key("school", &vec![]), "school");
    assert_eq!(key("", &vec!["a", "", "b"]), ":a::b");
}

#[test]
fn keys_of_the_store() {
    assert_eq!(heartbeat_key("nis", "pc-7"), "nis:heartbeat:pc-7");
    assert_eq!(violations_key("nis", "pc-7"), "nis:violations:pc-7");
    assert_eq!(violation_count_key("nis", "pc-7"), "nis:violation_count:pc-7");
    assert_eq!(agents_key("nis"), "nis:agents");
    assert_eq!(screenshot_key("nis", "pc-7"), "nis:screenshot:pc-7");
    assert_eq!(screenshot_history_key("nis", "pc-7"), "nis:screenshot_history:pc-7");
    assert_eq!(ban_config_key("nis"), "nis:ban_config");
    assert_eq!(server_ip_key("nis"), "nis:server:ip");
}

#[test]
fn limits_of_the_store() {
    assert_eq!(HEARTBEAT_TTL_SECS, 90);
    assert_eq!(SCREENSHOT_TTL_SECS, 120);
    assert_eq!(SCREENSHOT_HISTORY_LEN, 10);
    assert_eq!(VIOLATION_HISTORY_LEN, 1000);
    assert_eq!(TEACHER_PORT, 8080);
}

#[test]
fn rule_and_severity_by_kind() {
    assert_eq!(rule(ViolationKind::Process), "banned_process");
    assert_eq!(rule(ViolationKind::Domain), "banned_domain");
    assert_eq!(severity(ViolationKind::Process), "high");
    assert_eq!(severity(ViolationKind::Domain), "medium");
}

#[test]
fn detail_describes_target_and_outcome() {
    assert_eq!(
        detail(&violation(ViolationKind::Process, "chrome.exe", true)),
        "Запрещённый процесс: chrome.exe (заблокировано)"
    );
    assert_eq!(
        detail(&violation(ViolationKind::Process, "chrome.exe", false)),
        "Запрещённый процесс: chrome.exe (не удалось заблокировать)"
    );
    assert_eq!(
        detail(&violation(ViolationKind::Domain, "roblox.com", false)),
        "Запрещённый домен: roblox.com (не удалось заблокировать)"
    );
}

#[test]
fn payload_is_a_json_object_in_the_backend_schema() {
    let payload = violation_payload(&violation(ViolationKind::Process, "chrome.exe", true));
    assert_eq!(
        payload.unwrap(),
        "{\"detail\":\"Запрещённый процесс: chrome.exe (заблокировано)\",\
         \"hostname\":\"pc-7\",\"rule\":\"banned_process\",\"severity\":\"high\",\
         \"timestamp\":\"2015-05-15T00:00:00+00:00\"}"
    );
}

#[test]
fn payload_members_in_the_order_of_the_schema() {
    let members = payload_members(
        &violation(ViolationKind::Domain, "roblox.com", false),
        "2015-05-15T00:00:00+00:00".to_string(),
    );
    let expected: Vec<(String, JsonMember)> = [
        ("hostname", "pc-7"),
        ("rule", "banned_domain"),
        ("detail", "Запрещённый домен: roblox.com (не удалось заблокировать)"),
        ("severity", "medium"),
        ("timestamp", "2015-05-15T00:00:00+00:00"),
    ]
    .iter()
    .map(|(name, text)| (name.to_string(), JsonMember::Text(text.to_string())))
    .collect();
    assert_eq!(members, expected);
}

#[test]
fn screenshot_payload_holds_host_time_data_and_size() {
    let at = Timestamp { secs: 1_431_648_000, nanos: 0 };
    assert_eq!(
        screenshot_payload("pc-7", "/9j/4AAQ", at).unwrap(),
        "{\"data\":\"/9j/4AAQ\",\"hostname\":\"pc-7\",\"size\":8,\
         \"timestamp\":\"2015-05-15T00:00:00Z\"}"
    );
    let later = Timestamp { secs: 0, nanos: 250_000_000 };
    let payload = screenshot_payload("h", "", later).unwrap();
    assert_eq!(
        payload,
        "{\"data\":\"\",\"hostname\":\"h\",\"size\":0,\"timestamp\":\"1970-01-01T00:00:00.250Z\"}"
    );
}

#[test]
fn screenshot_size_counts_bytes() {
    let members =
        screenshot_members("pc-7", "äb", "2015-05-15T00:00:00Z".to_string());
    assert_eq!(
        members,
        vec![
            ("hostname".to_string(), JsonMember::Text("pc-7".to_string())),
            ("timestamp".to_string(), JsonMember::Text("2015-05-15T00:00:00Z".to_string())),
            ("data".to_string(), JsonMember::Text("äb".to_string())),
            ("size".to_string(), JsonMember::Number(3)),
        ]
    );
}

#[test]
fn screenshot_payload_needs_a_time_that_is_a_date() {
    assert_eq!(screenshot_payload("h", "x", Timestamp { secs: 0, nanos: 2_000_000_000 }), None);
}

#[test]
fn payload_writes_the_time_with_its_fraction() {
    let mut v = violation(ViolationKind::Domain, "roblox.com", false);
    v.timestamp = Timestamp { secs: 0, nanos: 250_000_000 };
    let payload = violation_payload(&v).unwrap();
    assert!(payload.contains("\"timestamp\":\"1970-01-01T00:00:00.250+00:00\""));
    assert!(payload.contains("\"severity\":\"medium\""));
    assert!(payload.contains("\"rule\":\"banned_domain\""));
}

#[test]
fn payload_needs_a_time_that_is_a_date() {
    let mut v = violation(ViolationKind::Domain, "roblox.com", false);
    v.timestamp = Timestamp { secs: 0, nanos: 2_000_000_000 };
    assert_eq!(violation_payload(&v), None);
    v.timestamp = Timestamp { secs: i64::MAX, nanos: 0 };
    assert_eq!(violation_payload(&v), None);
}

#[test]
fn agent_entry_joins_with_bars() {
    assert_eq!(agent_entry("pc-7", "10.0.0.5", 8081), "pc-7|10.0.0.5|8081");
    assert_eq!(agent_entry("", "", 0), "||0");
    assert_eq!(agent_entry("h", "::1", 65535), "h|::1|65535");
}

#[test]
fn decimal_writes_digits_without_leading_zeros() {
    assert_eq!(decimal(0), "0");
    assert_eq!(decimal(7), "7");
    assert_eq!(decimal(10), "10");
    assert_eq!(decimal(8080), "8080");
    assert_eq!(decimal(1_234_567_890), "1234567890");
    assert_eq!(decimal(u64::MAX), "18446744073709551615");
}

#[test]
fn teacher_address_and_url() {
    assert_eq!(teacher_address("192.168.8.151"), "192.168.8.151:8080");
    assert_eq!(
        teacher_violation_url("192.168.8.151:8080"),
        "http://192.168.8.151:8080/api/agent/violation"
    );
}

#[test]
fn ban_config_is_read_from_json() {
    let text = r#"{"banned_processes": ["Steam", "chrome.exe"], "banned_domains": ["roblox.com"],
                   "updated": 5}"#;
    assert_eq!(
        parse_ban_config(text),
        Some((
            vec!["Steam".to_string(), "chrome.exe".to_string()],
            vec!["roblox.com".to_string()]
        ))
    );
    assert_eq!(
        parse_ban_config(r#"{"banned_processes": [], "banned_domains": []}"#),
        Some((vec![], vec![]))
    );
}

#[test]
fn ban_config_leaves_out_what_is_no_string() {
    let text = r#"{"banned_processes": ["a", 5, null, "b", ["c"], {"d": 1}, true],
                   "banned_domains": [1, "x.y"]}"#;
    assert_eq!(
        parse_ban_config(text),
        Some((vec!["a".to_string(), "b".to_string()], vec!["x.y".to_string()]))
    );
}

#[test]
fn ban_config_needs_both_arrays() {
    assert_eq!(parse_ban_config(r#"{"banned_processes": ["a"]}"#), None);
    assert_eq!(parse_ban_config(r#"{"banned_domains": ["a"]}"#), None);
    assert_eq!(parse_ban_config(r#"{"banned_processes": "a", "banned_domains": []}"#), None);
    assert_eq!(parse_ban_config(r#"{"banned_processes": [], "banned_domains": {}}"#), None);
    assert_eq!(parse_ban_config(r#"["banned_processes", "banned_domains"]"#), None);
    assert_eq!(parse_ban_config("not json"), None);
    assert_eq!(parse_ban_config(""), None);
}

#[test]
fn keep_strings_keeps_order() {
    let items = vec![None, Some("b".to_string()), None, Some("a".to_string())];
    assert_eq!(keep_strings(&items), vec!["b".to_string(), "a".to_string()]);
    assert_eq!(keep_strings(&vec![]), Vec::<String>::new());
    assert_eq!(keep_strings(&vec![None, None]), Vec::<String>::new());
}

#[test]
fn first_label_is_what_stands_before_the_first_dot() {
    assert_eq!(first_label("roblox.com"), "roblox");
    assert_eq!(first_label("quiz.roblox.com"), "quiz");
    assert_eq!(first_label("localhost"), "localhost");
    assert_eq!(first_label(".com"), "");
    assert_eq!(first_label(""), "");
    assert_eq!(first_label("a."), "a");
}

#[test]
fn fold_names_lowercases_and_keeps_the_first_of_equals() {
    let names: Vec<String> =
        ["Steam", "chrome", "STEAM", "Chrome", "ÄB"].iter().map(|s| s.to_string()).collect();
    assert_eq!(
        fold_names(&names),
        vec!["steam".to_string(), "chrome".to_string(), "äb".to_string()]
    );
    assert_eq!(fold_names(&vec![]), Vec::<String>::new());
}

#[test]
fn lowercase_all_keeps_order_and_repetitions() {
    let names: Vec<String> = ["B", "a", "b"].iter().map(|s| s.to_string()).collect();
    assert_eq!(lowercase_all(&names), vec!["b".to_string(), "a".to_string(), "b".to_string()]);
}

#[test]
fn keep_first_drops_repetitions() {
    let items: Vec<String> = ["b", "a", "b", "B", "a"].iter().map(|s| s.to_string()).collect();
    assert_eq!(keep_first(&items), vec!["b".to_string(), "a".to_string(), "B".to_string()]);
    assert_eq!(keep_first(&vec![]), Vec::<String>::new());
}

#[test]
fn holds_text_compares_whole_strings() {
    let list = vec!["steam".to_string(), "chrome".to_string()];
    assert!(holds_text(&list, "chrome"));
    assert!(!holds_text(&list, "chrom"));
    assert!(!holds_text(&list, "Chrome"));
    assert!(!holds_text(&vec![], ""));
}
