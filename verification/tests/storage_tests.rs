use netvan::clock::{now_timestamp, timestamp_of};
use netvan::paths::{data_dir, data_dir_from, db_path, db_path_in, path_join};
use netvan::queries::{
    app_usage_query, append_range, history_query, hour_bucket, prune_cutoff, prune_statements,
    remote_ip_of, usage_row, History, SqlParam, TimeRange,
};
use netvan::service::{sc_control_args, sc_create_args, sc_description_args, sc_failure_args, ServiceControl};
use netvan::speedtest::{
    choose_cli_path, cli_candidates, first_listed_path, number_of_leaf, resolve_cli_path,
    speedtest_args, speedtest_output_unusable, speedtest_report, string_of_leaf, unquoted_of_leaf,
    JsonLeaf, SpeedtestFailure,
};
use netvan::traffic_process::TrafficFlow;

fn ints(p: &[SqlParam]) -> Vec<String> {
    p.iter()
        .map(|x| match x {
            SqlParam::Text(t) => format!("t:{t}"),
            SqlParam::Int(n) => format!("i:{n}"),
        })
        .collect()
}

const SEP: char = std::path::MAIN_SEPARATOR;

#[test]
fn hourly_buckets() {
    assert_eq!(hour_bucket(0), 0);
    assert_eq!(hour_bucket(3599), 0);
    assert_eq!(hour_bucket(3600), 3600);
    assert_eq!(hour_bucket(7201), 7200);
    assert_eq!(hour_bucket(-1), 0);
    assert_eq!(hour_bucket(-3601), -3600);
    assert_eq!(hour_bucket(i64::MIN), i64::MIN - i64::MIN % 3600);
}

#[test]
fn range_filters() {
    let mut sql = String::from("X");
    let mut p = Vec::new();
    append_range(&mut sql, &mut p, &TimeRange { start_ts: Some(5), end_ts: Some(9) });
    assert_eq!(sql, "X AND ts >= ? AND ts <= ?");
    assert_eq!(ints(&p), vec!["i:5", "i:9"]);
    let mut sql = String::new();
    let mut p = Vec::new();
    append_range(&mut sql, &mut p, &TimeRange { start_ts: None, end_ts: Some(2) });
    assert_eq!(sql, " AND ts <= ?");
    assert_eq!(ints(&p), vec!["i:2"]);
}

#[test]
fn history_queries() {
    let all = TimeRange { start_ts: None, end_ts: None };
    let (sql, p) = history_query(History::Bandwidth, Some("nic1"), &TimeRange { start_ts: Some(100), end_ts: None });
    assert_eq!(sql, "SELECT ts, rx_bytes, tx_bytes FROM nic_bandwidth_samples WHERE 1=1 AND nic_id = ? AND ts >= ? ORDER BY ts ASC LIMIT 5000");
    assert_eq!(ints(&p), vec!["t:nic1", "i:100"]);
    let (sql, p) = history_query(History::LinkEvents, None, &all);
    assert_eq!(sql, "SELECT nic_id, ts, event, detail FROM nic_link_events WHERE 1=1 ORDER BY ts DESC LIMIT 2000");
    assert!(p.is_empty());
    let (sql, p) = history_query(History::Speedtest, Some("nic1"), &all);
    assert!(sql.ends_with("FROM speedtest_runs WHERE 1=1 ORDER BY ts DESC LIMIT 500"));
    assert!(p.is_empty());
    let (sql, _) = history_query(History::Ping, None, &all);
    assert_eq!(sql, "SELECT nic_id, target, ts, rtt_ms, success, error FROM ping_samples WHERE 1=1 ORDER BY ts ASC LIMIT 5000");
    let (sql, _) = history_query(History::HttpLatency, None, &all);
    assert!(sql.starts_with("SELECT nic_id, url, ts, dns_ms"));
}

#[test]
fn app_usage_queries() {
    let r = TimeRange { start_ts: Some(1), end_ts: Some(2) };
    let (sql, p) = app_usage_query(&r, "ip");
    assert_eq!(sql, "SELECT remote_ip as process_name, NULL as process_path, remote_ip, NULL as host, SUM(bytes_in), SUM(bytes_out), nic_id FROM app_usage_hourly WHERE 1=1 AND hour_ts >= ? AND hour_ts <= ? GROUP BY remote_ip, nic_id ORDER BY SUM(bytes_in)+SUM(bytes_out) DESC LIMIT 200");
    assert_eq!(ints(&p), vec!["i:1", "i:2"]);
    let (h1, _) = app_usage_query(&r, "url");
    let (h2, _) = app_usage_query(&r, "host");
    assert_eq!(h1, h2);
    assert!(h1.contains("GROUP BY host, nic_id"));
    let (a, _) = app_usage_query(&TimeRange { start_ts: None, end_ts: None }, "app");
    assert_eq!(a, "SELECT process_name, NULL as process_path, NULL as remote_ip, NULL as host, SUM(bytes_in), SUM(bytes_out), nic_id FROM app_usage_hourly WHERE 1=1 GROUP BY process_name, nic_id ORDER BY SUM(bytes_in)+SUM(bytes_out) DESC LIMIT 200");
}

#[test]
fn pruning() {
    assert_eq!(prune_cutoff(1_000_000, 2), 1_000_000 - 172_800);
    assert_eq!(prune_cutoff(0, 0), 0);
    let st = prune_statements();
    assert_eq!(st.len(), 6);
    assert_eq!(st[0], "DELETE FROM nic_bandwidth_samples WHERE ts < ?1");
    assert_eq!(st[5], "DELETE FROM http_hosts WHERE ts < ?1");
}

#[test]
fn usage_rows_of_flows() {
    assert_eq!(remote_ip_of("1.2.3.4:443"), "1.2.3.4");
    assert_eq!(remote_ip_of("nocolon"), "nocolon");
    assert_eq!(remote_ip_of(":80"), "");
    assert_eq!(remote_ip_of("2001:db8::1"), "2001");
    let f = TrafficFlow {
        ts: 7205,
        process_name: "a.exe".into(),
        process_path: None,
        pid: None,
        local_addr: "l".into(),
        remote_addr: "9.9.9.9:53".into(),
        protocol: "TCP".into(),
        bytes_in: 3,
        bytes_out: 4,
        nic_id: Some("nic".into()),
        host: None,
    };
    let u = usage_row(&f);
    assert_eq!(u.hour_ts, 7200);
    assert_eq!(u.remote_ip, "9.9.9.9");
    assert_eq!(u.host, "");
    assert_eq!(u.nic_id, "nic");
    assert_eq!((u.bytes_in, u.bytes_out), (3, 4));
}

#[test]
fn data_locations() {
    assert_eq!(data_dir_from(Some("/x/y".into()), Some("netvan".into())), format!("/x/y{SEP}netvan"));
    assert_eq!(
        data_dir_from(Some("C:\\Users\\Alice\\AppData\\Roaming".into()), Some("Netvan\\Netvan".into())),
        format!("C:\\Users\\Alice\\AppData\\Roaming{SEP}Netvan\\Netvan")
    );
    assert_eq!(data_dir_from(None, Some("netvan".into())), format!(".{SEP}netvan-data"));
    assert_eq!(data_dir_from(Some("/x/y".into()), None), format!(".{SEP}netvan-data"));
    assert_eq!(data_dir_from(None, None), format!(".{SEP}netvan-data"));
    assert_eq!(db_path_in("dir"), format!("dir{SEP}netvan.db"));
    assert_eq!(path_join("a", "b"), format!("a{SEP}b"));
    assert!(db_path().ends_with("netvan.db"));
    assert!(!data_dir().is_empty());
}

#[test]
fn speedtest_tool() {
    let c = cli_candidates("d");
    assert_eq!(c[0], format!("d{SEP}speedtest.exe"));
    assert_eq!(c[1], format!("d{SEP}ookla{SEP}speedtest.exe"));
    assert_eq!(c[2], "speedtest.exe");
    assert_eq!(c[3], "C:\\Program Files\\Ookla\\Speedtest CLI\\speedtest.exe");
    let cands = vec!["a".to_string(), "b".to_string(), "c".to_string()];
    assert_eq!(choose_cli_path(Some("cfg"), true, &cands, &vec![true, true, true]), "cfg");
    assert_eq!(choose_cli_path(Some("cfg"), false, &cands, &vec![false, true, true]), "b");
    assert_eq!(choose_cli_path(None, false, &cands, &vec![false, false, false]), "speedtest");
    assert_eq!(resolve_cli_path(Some("/definitely/not/here/speedtest.exe")), resolve_cli_path(None));
    assert_eq!(
        speedtest_args(true, Some("1234".into())),
        vec!["--format=json", "--progress=no", "--accept-license", "--accept-gdpr", "--server-id", "1234"]
    );
    assert_eq!(speedtest_args(false, None), vec!["--format=json", "--progress=no"]);
    assert!(speedtest_output_unusable(false, " \r\n"));
    assert!(!speedtest_output_unusable(false, "{}"));
    assert!(!speedtest_output_unusable(true, ""));
    assert_eq!(first_listed_path("C:\\bin\\speedtest.exe\r\nD:\\other.exe\r\n").as_deref(), Some("C:\\bin\\speedtest.exe"));
    assert_eq!(first_listed_path("   \nx"), None);
    assert_eq!(first_listed_path(""), None);
}

#[test]
fn service_commands() {
    assert_eq!(
        sc_create_args("C:\\Netvan\\netvan-service.exe"),
        vec!["create", "NetvanService", "binPath= \"C:\\Netvan\\netvan-service.exe\" run", "start= auto", "DisplayName= Netvan Network Monitor"]
    );
    assert_eq!(sc_description_args()[2], "Collects NIC, latency, traffic metrics for Netvan");
    assert_eq!(sc_failure_args(), vec!["failure", "NetvanService", "reset= 86400", "actions= restart/5000/restart/5000/restart/5000"]);
    assert_eq!(sc_control_args(ServiceControl::Stop), vec!["stop", "NetvanService"]);
    assert_eq!(sc_control_args(ServiceControl::Delete), vec!["delete", "NetvanService"]);
    assert_eq!(sc_control_args(ServiceControl::Start), vec!["start", "NetvanService"]);
}

#[test]
fn clock_reads_current_time() {
    assert!(now_timestamp() > 1_600_000_000);
}

#[test]
fn clock_rounds_down_to_whole_seconds() {
    assert_eq!(timestamp_of(Ok((1_700_000_000, 999_999_999))), 1_700_000_000);
    assert_eq!(timestamp_of(Ok((0, 0))), 0);
    assert_eq!(timestamp_of(Err((5, 0))), -5);
    assert_eq!(timestamp_of(Err((5, 1))), -6);
    assert_eq!(timestamp_of(Ok((u64::MAX, 0))), i64::MAX);
    assert_eq!(timestamp_of(Err((u64::MAX, 7))), i64::MIN);
}

const SPEEDTEST_JSON: &str = r#"{"type":"result","ping":{"jitter":0.5,"latency":12.25},"download":{"bandwidth":12500000,"bytes":1},"upload":{"bandwidth":2500000},"packetLoss":0,"server":{"id":1234,"name":"Example ISP"}}"#;

#[test]
fn speedtest_report_fields() {
    let out = format!("  {SPEEDTEST_JSON}\r\n");
    let r = speedtest_report(true, &out).ok().unwrap();
    assert_eq!(r.raw_json, SPEEDTEST_JSON);
    let f = r.fields;
    assert_eq!(f.download_bandwidth.as_deref(), Some("12500000"));
    assert_eq!(f.upload_bandwidth.as_deref(), Some("2500000"));
    assert_eq!(f.ping_latency.as_deref(), Some("12.25"));
    assert_eq!(f.ping_jitter.as_deref(), Some("0.5"));
    assert_eq!(f.packet_loss.as_deref(), Some("0"));
    assert_eq!(f.server_id.as_deref(), Some("1234"));
    assert_eq!(f.server_name.as_deref(), Some("Example ISP"));
    let mbps: f64 = f.download_bandwidth.unwrap().parse::<f64>().unwrap() * 8.0 / 1_000_000.0;
    assert_eq!(mbps, 100.0);
}

#[test]
fn speedtest_report_partial_and_refused() {
    let r = speedtest_report(false, r#"{"server":{"id":"77","name":5},"download":{"bandwidth":"fast"}}"#).ok().unwrap();
    assert_eq!(r.fields.server_id.as_deref(), Some("77"));
    assert_eq!(r.fields.server_name, None);
    assert_eq!(r.fields.download_bandwidth, None);
    assert_eq!(r.fields.upload_bandwidth, None);
    assert_eq!(r.fields.packet_loss, None);
    assert_eq!(speedtest_report(false, " \n").err(), Some(SpeedtestFailure::Unusable));
    assert_eq!(speedtest_report(true, "").err(), Some(SpeedtestFailure::Unreadable));
    assert_eq!(speedtest_report(true, "not json").err(), Some(SpeedtestFailure::Unreadable));
    assert_eq!(speedtest_report(false, "{").err(), Some(SpeedtestFailure::Unreadable));
}

#[test]
fn speedtest_leaves() {
    let leaf = |json: &str, number: bool, text: Option<&str>| {
        Some(JsonLeaf { json: json.to_string(), number, text: text.map(|t| t.to_string()) })
    };
    assert_eq!(number_of_leaf(leaf("3.5", true, None)).as_deref(), Some("3.5"));
    assert_eq!(number_of_leaf(leaf("\"3.5\"", false, Some("3.5"))), None);
    assert_eq!(number_of_leaf(None), None);
    assert_eq!(unquoted_of_leaf(leaf("\"abc\"", false, Some("abc"))).as_deref(), Some("abc"));
    assert_eq!(unquoted_of_leaf(leaf("\"\"\"", false, Some("\""))).as_deref(), Some(""));
    assert_eq!(unquoted_of_leaf(leaf("42", true, None)).as_deref(), Some("42"));
    assert_eq!(unquoted_of_leaf(None), None);
    assert_eq!(string_of_leaf(leaf("\"abc\"", false, Some("abc"))).as_deref(), Some("abc"));
    assert_eq!(string_of_leaf(leaf("42", true, None)), None);
}
