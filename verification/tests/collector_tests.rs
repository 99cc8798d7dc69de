use netvan::engine::{
    host_of_record, nic_lookup, plan_pings, schedule, service_status, speedtest_gate, traceroute_hops,
    with_capture_mode, with_eula_accepted, LinkTracker, NicState, SpeedtestGate,
};
use netvan::settings::{AppSettings, CaptureMode};
use netvan::traffic_full::{windivert_choice, windivert_status, DnsQueryRecord, FullTrafficCollector};
use netvan::traffic_process::{
    aggregate_flows, connection_endpoints, connection_flow, estimate_bytes, format_ipv4_port,
    TcpConnection, TrafficFlow,
};

fn addr(a: u8, b: u8, c: u8, d: u8) -> u32 {
    u32::from_le_bytes([a, b, c, d])
}

fn port(p: u16) -> u32 {
    u16::from_le_bytes(p.to_be_bytes()) as u32
}

fn flow(name: &str, remote: &str, bytes_in: u64, bytes_out: u64) -> TrafficFlow {
    TrafficFlow {
        ts: 10,
        process_name: name.into(),
        process_path: None,
        pid: Some(1),
        local_addr: "10.0.0.2:5000".into(),
        remote_addr: remote.into(),
        protocol: "TCP".into(),
        bytes_in,
        bytes_out,
        nic_id: None,
        host: None,
    }
}

#[test]
fn endpoint_text_from_table_layout() {
    assert_eq!(format_ipv4_port(addr(192, 168, 1, 10), port(443)), "192.168.1.10:443");
    assert_eq!(format_ipv4_port(0, 0), "0.0.0.0:0");
    assert_eq!(format_ipv4_port(u32::MAX, u32::MAX), "255.255.255.255:65535");
    assert_eq!(format_ipv4_port(addr(8, 8, 4, 4), port(53) | 0xABCD_0000), "8.8.4.4:53");
    assert_eq!(estimate_bytes(24), 1024);
}

#[test]
fn counted_connections() {
    let row = TcpConnection {
        local_addr: addr(10, 0, 0, 2),
        local_port: port(50000),
        remote_addr: addr(140, 82, 112, 3),
        remote_port: port(443),
        pid: 4242,
    };
    let (l, r) = connection_endpoints(&row).unwrap();
    assert_eq!(l, "10.0.0.2:50000");
    assert_eq!(r, "140.82.112.3:443");
    assert!(connection_endpoints(&TcpConnection { pid: 0, ..row }).is_none());
    assert!(connection_endpoints(&TcpConnection { remote_addr: 0, ..row }).is_none());
    assert!(connection_endpoints(&TcpConnection { remote_addr: addr(127, 0, 0, 1), ..row }).is_none());
    assert!(connection_endpoints(&TcpConnection { remote_addr: addr(12, 7, 0, 1), ..row }).is_some());
    let f = connection_flow(5, 4242, l, r, "app.exe".into(), Some("C:\\app.exe".into()), 24);
    assert_eq!(f.protocol, "TCP");
    assert_eq!(f.bytes_in, 0);
    assert_eq!(f.bytes_out, 1024);
    assert_eq!(f.pid, Some(4242));
    assert_eq!(f.process_path.as_deref(), Some("C:\\app.exe"));
    assert!(f.nic_id.is_none() && f.host.is_none());
}

#[test]
fn flows_rolled_up_per_process_and_remote() {
    let flows = vec![
        flow("a.exe", "1.1.1.1:443", 1, 10),
        flow("b.exe", "1.1.1.1:443", 2, 20),
        flow("a.exe", "1.1.1.1:443", 3, 30),
        flow("a.exe", "2.2.2.2:443", 4, 40),
        flow("b.exe", "1.1.1.1:443", u64::MAX, 5),
    ];
    let r = aggregate_flows(&flows);
    assert_eq!(r.len(), 3);
    assert_eq!((r[0].process_name.as_str(), r[0].remote_addr.as_str()), ("a.exe", "1.1.1.1:443"));
    assert_eq!((r[0].bytes_in, r[0].bytes_out), (4, 40));
    assert_eq!((r[1].process_name.as_str(), r[1].bytes_in, r[1].bytes_out), ("b.exe", u64::MAX, 25));
    assert_eq!((r[2].remote_addr.as_str(), r[2].bytes_in), ("2.2.2.2:443", 4));
    let total_out: u64 = r.iter().map(|f| f.bytes_out).sum();
    assert_eq!(total_out, 105);
    assert!(aggregate_flows(&Vec::new()).is_empty());
}

#[test]
fn windivert_status_messages() {
    let s = windivert_status(Some("C:\\Windows\\System32\\WinDivert.dll"));
    assert!(s.available);
    assert_eq!(s.message, "WinDivert found at C:\\Windows\\System32\\WinDivert.dll");
    let m = windivert_status(None);
    assert!(!m.available);
    assert!(m.message.starts_with("Mode B requires WinDivert (admin). Install WinDivert.dll next to the service or in System32."));
    assert!(m.message.ends_with("when Full mode is selected."));
}

#[test]
fn full_collector_enabled_only_when_available() {
    let mut c = FullTrafficCollector::with_status(windivert_status(None));
    c.set_enabled(true);
    assert!(!c.status().available);
    let (flows, dns) = c.sample(None, &Vec::new());
    assert!(flows.is_empty() && dns.is_empty());
    let mut d = FullTrafficCollector::with_status(windivert_status(Some("WinDivert.dll")));
    d.set_enabled(false);
    assert!(d.status().available);
    let text = "Record Name:a.test\n1.2.3.4\n";
    let (flows, dns) = d.sample(Some(text), &vec![false, true]);
    assert!(flows.is_empty());
    assert_eq!(dns.len(), 1);
    assert_eq!(dns[0].name, "a.test");
    let probed = FullTrafficCollector::new();
    let st = probed.status();
    assert_eq!(st.available, st.message.starts_with("WinDivert found at "));
}

#[test]
fn background_schedule() {
    let mut s = AppSettings::default();
    let d = schedule(&s);
    assert_eq!((d.bandwidth_ms, d.ping_secs, d.http_secs, d.traffic_secs, d.prune_secs), (1000, 5, 30, 5, 3600));
    s.bandwidth_interval_ms = 10;
    s.ping_interval_secs = 0;
    s.http_interval_secs = 4;
    let d = schedule(&s);
    assert_eq!((d.bandwidth_ms, d.ping_secs, d.http_secs), (500, 2, 5));
}

#[test]
fn link_events_on_status_change() {
    let mut t = LinkTracker::new();
    assert!(t.observe("nic1", "Up", 1).is_none());
    assert!(t.observe("nic1", "Up", 2).is_none());
    let e = t.observe("nic1", "Down", 3).unwrap();
    assert_eq!(e.nic_id, "nic1");
    assert_eq!(e.ts, 3);
    assert_eq!(e.event, "disconnected");
    assert_eq!(e.detail.as_deref(), Some("Up -> Down"));
    assert!(t.observe("nic2", "Down", 4).is_none());
    let e = t.observe("nic1", "Up", 5).unwrap();
    assert_eq!(e.event, "connected");
    assert_eq!(e.detail.as_deref(), Some("Down -> Up"));
    let e = t.observe("nic2", "Dormant", 6).unwrap();
    assert_eq!(e.event, "disconnected");
}

fn nic(id: &str, status: &str, media: &str, ip: Option<&str>) -> NicState {
    NicState { id: id.into(), oper_status: status.into(), media_type: media.into(), first_ipv4: ip.map(|s| s.into()) }
}

#[test]
fn ping_plan_per_target_and_interface() {
    let targets = vec!["8.8.8.8".to_string(), "1.1.1.1".to_string()];
    let nics = vec![
        nic("eth", "Up", "Ethernet", Some("10.0.0.2")),
        nic("lo", "Up", "Loopback", Some("127.0.0.1")),
        nic("wifi", "Down", "Wireless", None),
        nic("vpn", "Up", "Tunnel", None),
    ];
    let jobs = plan_pings(&targets, &nics);
    let got: Vec<(&str, Option<&str>, Option<&str>)> = jobs
        .iter()
        .map(|j| (j.target.as_str(), j.nic_id.as_deref(), j.source_ip.as_deref()))
        .collect();
    assert_eq!(
        got,
        vec![
            ("8.8.8.8", Some("eth"), Some("10.0.0.2")),
            ("8.8.8.8", Some("vpn"), None),
            ("1.1.1.1", Some("eth"), Some("10.0.0.2")),
            ("1.1.1.1", Some("vpn"), None),
        ]
    );
    let unbound = plan_pings(&targets, &vec![nic("wifi", "Down", "Wireless", None)]);
    assert_eq!(unbound.len(), 2);
    assert!(unbound.iter().all(|j| j.nic_id.is_none() && j.source_ip.is_none()));
    assert!(plan_pings(&Vec::new(), &nics).is_empty());
}

#[test]
fn status_report() {
    let full = windivert_status(None);
    let s = service_status(CaptureMode::Process, &full, true);
    assert!(s.running && s.pipe_connected);
    assert_eq!(s.capture_mode, "process");
    assert_eq!(s.message, "Process capture mode");
    let f = service_status(CaptureMode::Full, &full, false);
    assert!(!f.running);
    assert_eq!(f.capture_mode, "full");
    assert_eq!(f.message, full.message);
}

#[test]
fn settings_requests() {
    let s = AppSettings::default();
    let f = with_capture_mode(&s, CaptureMode::Full);
    assert_eq!(f.capture_mode, CaptureMode::Full);
    assert_eq!(f.ping_targets, s.ping_targets);
    let a = with_eula_accepted(&s);
    assert!(a.speedtest_eula_accepted);
    assert_eq!(traceroute_hops(None), 30);
    assert_eq!(traceroute_hops(Some(5)), 5);
}

#[test]
fn speedtest_needs_licence() {
    let mut s = AppSettings::default();
    s.speedtest_cli_path = Some("C:\\st.exe".into());
    match speedtest_gate(&s, false) {
        SpeedtestGate::Refuse(m) => assert_eq!(m, "Accept Ookla Speedtest EULA/GDPR first"),
        _ => panic!("expected a refusal"),
    }
    match speedtest_gate(&s, true) {
        SpeedtestGate::Run { save: Some(n), cli_path } => {
            assert!(n.speedtest_eula_accepted);
            assert_eq!(cli_path.as_deref(), Some("C:\\st.exe"));
        }
        _ => panic!("expected a run saving the acceptance"),
    }
    s.speedtest_eula_accepted = true;
    match speedtest_gate(&s, false) {
        SpeedtestGate::Run { save: None, cli_path } => assert_eq!(cli_path.as_deref(), Some("C:\\st.exe")),
        _ => panic!("expected a run"),
    }
}

#[test]
fn dns_host_records() {
    let d = DnsQueryRecord { ts: 1, name: "a.test".into(), resolved_ips: vec!["1.2.3.4".into(), "5.6.7.8".into()], process_name: None };
    assert_eq!(host_of_record(&d), Some(("a.test".to_string(), "1.2.3.4".to_string())));
    let e = DnsQueryRecord { resolved_ips: Vec::new(), ..d };
    assert_eq!(host_of_record(&e), None);
}

#[test]
fn windivert_first_place_found_wins() {
    let none = windivert_choice(&vec![false, false, false]);
    assert!(!none.available);
    assert!(none.message.starts_with("Mode B requires WinDivert"));
    let first = windivert_choice(&vec![true, true, true]);
    assert!(first.available);
    assert_eq!(first.message, "WinDivert found at WinDivert.dll");
    let second = windivert_choice(&vec![false, true, true]);
    assert_eq!(second.message, "WinDivert found at C:\\Windows\\System32\\WinDivert.dll");
    let third = windivert_choice(&vec![false, false, true]);
    assert!(third.available);
    assert_eq!(third.message, "WinDivert found at .\\WinDivert.dll");
}

#[test]
fn nic_lookup_by_id() {
    let ids = vec!["eth0".to_string(), "wifi".to_string(), "wifi".to_string()];
    assert_eq!(nic_lookup(&ids, "wifi"), Ok(1));
    assert_eq!(nic_lookup(&ids, "eth0"), Ok(0));
    assert_eq!(nic_lookup(&ids, "lan"), Err("NIC not found: lan".to_string()));
    assert_eq!(nic_lookup(&Vec::new(), ""), Err("NIC not found: ".to_string()));
}
