use netvan::numfmt::{dec_chars, is_float_chars, parse_u32_chars, parse_u64_chars, parse_u8_chars};
use netvan::settings::{AppSettings, CaptureMode};
use netvan::settings_store::{json_decode_strings, json_encode_strings, parse_json_vec, StoredSettings};

fn chars(s: &str) -> Vec<char> {
    s.chars().collect()
}

fn strings(v: &[&str]) -> Vec<String> {
    v.iter().map(|s| s.to_string()).collect()
}

fn empty_stored() -> StoredSettings {
    StoredSettings::from_rows(&Vec::new())
}

#[test]
fn capture_mode_text_and_parse() {
    assert_eq!(CaptureMode::Process.as_str(), "process");
    assert_eq!(CaptureMode::Full.as_str(), "full");
    assert_eq!(CaptureMode::parse("full"), CaptureMode::Full);
    assert_eq!(CaptureMode::parse("process"), CaptureMode::Process);
    assert_eq!(CaptureMode::parse("FULL"), CaptureMode::Process);
    assert_eq!(CaptureMode::parse(" full"), CaptureMode::Process);
    assert_eq!(CaptureMode::parse(""), CaptureMode::Process);
    for m in [CaptureMode::Process, CaptureMode::Full] {
        assert_eq!(CaptureMode::parse(m.as_str()), m);
    }
}

#[test]
fn default_settings_values() {
    let s = AppSettings::default();
    assert_eq!(s.capture_mode, CaptureMode::Process);
    assert_eq!(s.ping_targets, strings(&["8.8.8.8", "1.1.1.1"]));
    assert_eq!(
        s.http_targets,
        strings(&["https://www.cloudflare.com/cdn-cgi/trace", "https://www.google.com/generate_204"])
    );
    assert_eq!(s.ping_interval_secs, 5);
    assert_eq!(s.http_interval_secs, 30);
    assert_eq!(s.bandwidth_interval_ms, 1000);
    assert_eq!(s.retention_raw_days, 14);
    assert!(!s.start_ui_with_windows);
    assert_eq!(s.speedtest_cli_path, None);
    assert!(!s.speedtest_eula_accepted);
    assert_eq!(s.default_nic_id, None);
}

#[test]
fn empty_table_reads_defaults() {
    let s = AppSettings::from_stored(&empty_stored());
    let d = AppSettings::default();
    assert_eq!(s.ping_targets, d.ping_targets);
    assert_eq!(s.http_targets, d.http_targets);
    assert_eq!(s.ping_interval_secs, 5);
    assert_eq!(s.retention_raw_days, 14);
    assert_eq!(s.capture_mode, CaptureMode::Process);
}

#[test]
fn saved_entries_in_order() {
    let mut s = AppSettings::default();
    s.capture_mode = CaptureMode::Full;
    s.ping_interval_secs = 7;
    s.start_ui_with_windows = true;
    let e = s.to_stored_entries();
    let keys: Vec<&str> = e.iter().map(|(k, _)| k.as_str()).collect();
    assert_eq!(
        keys,
        vec![
            "capture_mode",
            "ping_targets",
            "http_targets",
            "ping_interval_secs",
            "http_interval_secs",
            "bandwidth_interval_ms",
            "retention_raw_days",
            "start_ui_with_windows",
            "speedtest_eula_accepted",
        ]
    );
    assert_eq!(e[0].1, "full");
    assert_eq!(e[1].1, "[\"8.8.8.8\",\"1.1.1.1\"]");
    assert_eq!(e[3].1, "7");
    assert_eq!(e[6].1, "14");
    assert_eq!(e[7].1, "1");
    assert_eq!(e[8].1, "0");
}

#[test]
fn settings_round_trip_through_table() {
    let s = AppSettings {
        capture_mode: CaptureMode::Full,
        ping_targets: strings(&["9.9.9.9", "a \"quoted\" \\ name", "ünïcode"]),
        http_targets: Vec::new(),
        ping_interval_secs: u64::MAX,
        http_interval_secs: 0,
        bandwidth_interval_ms: 250,
        retention_raw_days: u32::MAX,
        start_ui_with_windows: true,
        speedtest_cli_path: Some("C:\\tools\\speedtest.exe".into()),
        speedtest_eula_accepted: true,
        default_nic_id: Some("{nic-1}".into()),
    };
    let rows = s.to_stored_entries();
    let back = AppSettings::from_stored(&StoredSettings::from_rows(&rows));
    assert_eq!(back.capture_mode, s.capture_mode);
    assert_eq!(back.ping_targets, s.ping_targets);
    assert_eq!(back.http_targets, s.http_targets);
    assert_eq!(back.ping_interval_secs, s.ping_interval_secs);
    assert_eq!(back.http_interval_secs, s.http_interval_secs);
    assert_eq!(back.bandwidth_interval_ms, s.bandwidth_interval_ms);
    assert_eq!(back.retention_raw_days, s.retention_raw_days);
    assert_eq!(back.start_ui_with_windows, s.start_ui_with_windows);
    assert_eq!(back.speedtest_cli_path, s.speedtest_cli_path);
    assert_eq!(back.speedtest_eula_accepted, s.speedtest_eula_accepted);
    assert_eq!(back.default_nic_id, s.default_nic_id);
}

#[test]
fn unset_optional_setting_keeps_old_value() {
    let old = vec![
        ("speedtest_cli_path".to_string(), "D:\\old\\speedtest.exe".to_string()),
        ("default_nic_id".to_string(), "old-nic".to_string()),
    ];
    let s = AppSettings::default();
    let mut rows = old.clone();
    rows.extend(s.to_stored_entries());
    let back = AppSettings::from_stored(&StoredSettings::from_rows(&rows));
    assert_eq!(back.speedtest_cli_path.as_deref(), Some("D:\\old\\speedtest.exe"));
    assert_eq!(back.default_nic_id.as_deref(), Some("old-nic"));
}

#[test]
fn later_rows_replace_earlier() {
    let rows = vec![
        ("retention_raw_days".to_string(), "3".to_string()),
        ("retention_raw_days".to_string(), "30".to_string()),
    ];
    let st = StoredSettings::from_rows(&rows);
    assert_eq!(st.retention_raw_days.as_deref(), Some("30"));
    assert_eq!(AppSettings::from_stored(&st).retention_raw_days, 30);
}

#[test]
fn unreadable_values_keep_defaults() {
    let rows = vec![
        ("ping_targets".to_string(), "not json".to_string()),
        ("ping_interval_secs".to_string(), "-3".to_string()),
        ("http_interval_secs".to_string(), "+12".to_string()),
        ("retention_raw_days".to_string(), "4294967296".to_string()),
        ("bandwidth_interval_ms".to_string(), "".to_string()),
        ("start_ui_with_windows".to_string(), "true".to_string()),
        ("speedtest_eula_accepted".to_string(), "yes".to_string()),
        ("capture_mode".to_string(), "Full".to_string()),
        ("unknown_key".to_string(), "x".to_string()),
    ];
    let s = AppSettings::from_stored(&StoredSettings::from_rows(&rows));
    assert_eq!(s.ping_targets, strings(&["8.8.8.8", "1.1.1.1"]));
    assert_eq!(s.ping_interval_secs, 5);
    assert_eq!(s.http_interval_secs, 12);
    assert_eq!(s.retention_raw_days, 14);
    assert_eq!(s.bandwidth_interval_ms, 1000);
    assert!(s.start_ui_with_windows);
    assert!(!s.speedtest_eula_accepted);
    assert_eq!(s.capture_mode, CaptureMode::Process);
}

#[test]
fn json_wrappers() {
    let v = strings(&["a", "b\"c"]);
    let t = json_encode_strings(&v);
    assert_eq!(t, "[\"a\",\"b\\\"c\"]");
    assert_eq!(json_decode_strings(&t), Some(v));
    assert_eq!(json_decode_strings("[1,2]"), None);
    assert_eq!(json_decode_strings("[]"), Some(Vec::new()));
    assert_eq!(parse_json_vec(Some("[\"x\"]".into())), strings(&["x"]));
    assert_eq!(parse_json_vec(Some("oops".into())), Vec::<String>::new());
    assert_eq!(parse_json_vec(None), Vec::<String>::new());
}

#[test]
fn decimal_text_and_parsing() {
    assert_eq!(dec_chars(0), chars("0"));
    assert_eq!(dec_chars(1234567890), chars("1234567890"));
    assert_eq!(dec_chars(u64::MAX), chars("18446744073709551615"));
    assert_eq!(parse_u64_chars(&chars("18446744073709551615")), Some(u64::MAX));
    assert_eq!(parse_u64_chars(&chars("18446744073709551616")), None);
    assert_eq!(parse_u64_chars(&chars("+42")), Some(42));
    assert_eq!(parse_u64_chars(&chars("0042")), Some(42));
    assert_eq!(parse_u64_chars(&chars("+")), None);
    assert_eq!(parse_u64_chars(&chars("")), None);
    assert_eq!(parse_u64_chars(&chars("-1")), None);
    assert_eq!(parse_u64_chars(&chars("1 ")), None);
    assert_eq!(parse_u32_chars(&chars("4294967295")), Some(u32::MAX));
    assert_eq!(parse_u32_chars(&chars("4294967296")), None);
    assert_eq!(parse_u8_chars(&chars("255")), Some(255));
    assert_eq!(parse_u8_chars(&chars("256")), None);
    for n in [0u64, 9, 10, 99, 100, 65535, u64::MAX] {
        let text: String = dec_chars(n).into_iter().collect();
        assert_eq!(text, n.to_string());
        assert_eq!(parse_u64_chars(&dec_chars(n)), Some(n));
    }
}

#[test]
fn float_texts_agree_with_std() {
    let cases = [
        "1", "1.", ".5", ".", "", "1e5", "1E-5", "1e", "1e+", "e5", "inf", "+InFinity", "-NaN",
        "infin", "1.2.3", "12ms", "<1", "0.25", "+", "-", "1_0", " 1", "1e5.0", "nan1",
    ];
    for c in cases {
        assert_eq!(is_float_chars(&chars(c)), c.parse::<f64>().is_ok(), "case {c:?}");
    }
}
