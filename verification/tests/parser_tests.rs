use netvan::ping::{parse_rtt_ms, ping_args, ping_outcome};
use netvan::text::{chars_of, lines_of, trim_chars, words_of};
use netvan::traceroute::{parse_tracert, traceroute_result, tracert_args};
use netvan::traffic_full::{display_dns_candidates, parse_display_dns, parse_display_dns_at};

fn chars(s: &str) -> Vec<char> {
    s.chars().collect()
}

fn rows(v: &[&str]) -> Vec<Vec<char>> {
    v.iter().map(|s| chars(s)).collect()
}

#[test]
fn lines_follow_str_lines() {
    for text in ["", "a", "a\n", "a\r\nb", "a\r", "\n\n", "x\r\r\ny", " a \n\tb\n"] {
        let expected: Vec<Vec<char>> = text.lines().map(|l| l.chars().collect()).collect();
        assert_eq!(lines_of(&chars(text)), expected, "text {text:?}");
    }
    assert_eq!(lines_of(&chars("a\r\nb\n")), rows(&["a", "b"]));
}

#[test]
fn words_and_trim_follow_str() {
    for text in ["", "  ", " a  b\tc\u{3000}d\u{a0}", "x", "\u{2003}y\u{2003}"] {
        let expected: Vec<Vec<char>> = text.split_whitespace().map(|w| w.chars().collect()).collect();
        assert_eq!(words_of(&chars(text)), expected, "text {text:?}");
        assert_eq!(trim_chars(&chars(text)), chars(text.trim()), "text {text:?}");
    }
    assert_eq!(chars_of("héllo"), chars("héllo"));
}

const TRACERT: &str = "\r\nTracing route to 8.8.8.8 over a maximum of 30 hops\r\n\r\n  1    <1 ms    <1 ms    <1 ms  192.168.1.1 \r\n  2     8ms     9ms    12ms  10.0.0.1 \r\n  3     *        *        *     Request timed out.\r\n  4    <1ms    15 ms     2.5ms  2001:db8::1 \r\n300    1ms  1.2.3.4\r\n\r\nTrace complete.\r\n";

#[test]
fn tracert_output_hops() {
    let hops = parse_tracert(TRACERT);
    assert_eq!(hops.len(), 4);
    assert_eq!(hops[0].hop, 1);
    assert_eq!(hops[0].address.as_deref(), Some("192.168.1.1"));
    assert_eq!(hops[0].rtt_ms.as_deref(), Some("1"));
    assert_eq!(hops[1].hop, 2);
    assert_eq!(hops[1].address.as_deref(), Some("10.0.0.1"));
    assert_eq!(hops[1].rtt_ms.as_deref(), Some("12"));
    assert_eq!(hops[2].hop, 3);
    assert_eq!(hops[2].address.as_deref(), Some("out."));
    assert_eq!(hops[2].rtt_ms, None);
    assert_eq!(hops[3].hop, 4);
    assert_eq!(hops[3].address.as_deref(), Some("2001:db8::1"));
    assert_eq!(hops[3].rtt_ms.as_deref(), Some("2.5"));
    assert!(hops.iter().all(|h| h.hostname.is_none()));
    for h in &hops {
        if let Some(r) = &h.rtt_ms {
            assert!(r.parse::<f64>().is_ok());
        }
    }
}

#[test]
fn tracert_times_with_separate_unit() {
    let hops = parse_tracert("  2    12 ms    11 ms    13 ms  10.0.0.1");
    assert_eq!(hops.len(), 1);
    assert_eq!(hops[0].hop, 2);
    assert_eq!(hops[0].address.as_deref(), Some("10.0.0.1"));
    assert_eq!(hops[0].hostname, None);
    assert_eq!(hops[0].rtt_ms.as_deref(), Some("13"));
    let odd = parse_tracert("5 ms 7 abc ms 9\n6 <1 ms x\n");
    assert_eq!(odd.len(), 2);
    assert_eq!(odd[0].rtt_ms, None);
    assert_eq!(odd[1].rtt_ms.as_deref(), Some("1"));
}

#[test]
fn tracert_edge_tokens() {
    let hops = parse_tracert("+7 12msms <<3ms 5e1ms host\n 08 abcms\nx 1ms 1.1.1.1\n");
    assert_eq!(hops.len(), 2);
    assert_eq!(hops[0].hop, 7);
    assert_eq!(hops[0].rtt_ms.as_deref(), Some("5e1"));
    assert_eq!(hops[0].address, None);
    assert_eq!(hops[1].hop, 8);
    assert_eq!(hops[1].rtt_ms, None);
    assert!(parse_tracert("").is_empty());
}

#[test]
fn tracert_command_and_result() {
    assert_eq!(tracert_args("example.com", 30), vec!["-d", "-h", "30", "-w", "2000", "example.com"]);
    assert_eq!(tracert_args("h", 0)[2], "0");
    let r = traceroute_result("8.8.8.8", Some("nic".into()), 77, Some(TRACERT));
    assert_eq!(r.id, 0);
    assert_eq!(r.target, "8.8.8.8");
    assert_eq!(r.ts, 77);
    assert_eq!(r.nic_id.as_deref(), Some("nic"));
    assert_eq!(r.hops.len(), 4);
    let none = traceroute_result("x", None, 1, None);
    assert!(none.hops.is_empty());
}

#[test]
fn ping_rtt_reading() {
    let out = "\r\nPinging 8.8.8.8 with 32 bytes of data:\r\nReply from 8.8.8.8: bytes=32 time=12ms TTL=117\r\n\r\nPing statistics for 8.8.8.8:\r\n";
    assert_eq!(parse_rtt_ms(out).as_deref(), Some("12"));
    assert_eq!(parse_rtt_ms("Reply from 1.1.1.1: bytes=32 time<1ms TTL=58").as_deref(), Some("1"));
    assert_eq!(parse_rtt_ms("Reply: TIME=3.5ms").as_deref(), Some("3.5"));
    assert_eq!(parse_rtt_ms("Reply: time=<1ms").as_deref(), Some("1"));
    assert_eq!(parse_rtt_ms("Request timed out.\nGeneral failure."), None);
    assert_eq!(parse_rtt_ms("time=abc\ntime=7ms"), Some("7".to_string()));
    assert_eq!(parse_rtt_ms("time=1.2.3ms"), None);
    assert_eq!(parse_rtt_ms(""), None);
    let v: f64 = parse_rtt_ms("time=0.25ms").unwrap().parse().unwrap();
    assert_eq!(v, 0.25);
}

#[test]
fn ping_rtt_from_statistics() {
    let stats = "Approximate round trip times in milli-seconds:\r\n    Minimum = 11ms, Maximum = 13ms, Average = 12ms\r\n";
    assert_eq!(parse_rtt_ms(stats).as_deref(), Some("12"));
    assert_eq!(parse_rtt_ms("Reply: time=9ms\nMinimum = 9ms, Maximum = 9ms, Average = 9ms").as_deref(), Some("9"));
    assert_eq!(parse_rtt_ms("AVERAGE = 4.5ms"), Some("4.5".to_string()));
    assert_eq!(parse_rtt_ms("Average = ms"), None);
}

#[test]
fn ping_command_line() {
    assert_eq!(ping_args("8.8.8.8", None), vec!["-n", "1", "-w", "3000", "8.8.8.8"]);
    assert_eq!(
        ping_args("8.8.8.8", Some("192.168.1.5")),
        vec!["-n", "1", "-w", "3000", "-S", "192.168.1.5", "8.8.8.8"]
    );
}

const DISPLAY_DNS: &str = "\r\nWindows IP Configuration\r\n\r\n    example.com\r\n    ----------------------------------------\r\n    Record Name . . . . . : example.com\r\n    Record Type . . . . . : 1\r\n    Time To Live  . . . . : 3600\r\n    Data Length . . . . . : 4\r\n    Section . . . . . . . : Answer\r\n    A (Host) Record . . . : 93.184.216.34\r\n\r\n    Record Name . . . . . : cdn.test\r\n    AAAA Record . . . . . : 2606:2800:220:1::1\r\n    A (Host) Record . . . : 10.0.0.8\r\n    Record Name . . . . . : empty.test\r\n    Record Name . . . . . :\r\n";

fn ip_marks(text: &str) -> Vec<bool> {
    display_dns_candidates(text)
        .iter()
        .map(|l| {
            !l.is_empty()
                && (l.contains('.') || l.contains(':'))
                && l.chars().all(|c| c.is_ascii_hexdigit() || c == '.' || c == ':')
        })
        .collect()
}

#[test]
fn display_dns_records() {
    let marks = ip_marks(DISPLAY_DNS);
    let recs = parse_display_dns_at(DISPLAY_DNS, &marks, 99);
    assert_eq!(recs.len(), 2);
    assert_eq!(recs[0].name, "example.com");
    assert_eq!(recs[0].resolved_ips, vec!["93.184.216.34"]);
    assert_eq!(recs[0].ts, 99);
    assert_eq!(recs[1].name, "cdn.test");
    assert_eq!(recs[1].resolved_ips, vec!["2606:2800:220:1::1", "10.0.0.8"]);
    assert!(recs.iter().all(|r| r.process_name.is_none()));
    let now = parse_display_dns(DISPLAY_DNS, &marks);
    assert_eq!(now.len(), 2);
    assert!(now[0].ts > 0);
}

#[test]
fn display_dns_english_entry() {
    let text = "    Record Name . . . . . : example.com\n    Record Type . . . . . : 1\n    A (Host) Record . . . : 93.184.216.34\n";
    let marks = ip_marks(text);
    assert_eq!(marks, vec![false, false, true]);
    let recs = parse_display_dns_at(text, &marks, 3);
    assert_eq!(recs.len(), 1);
    assert_eq!(recs[0].name, "example.com");
    assert_eq!(recs[0].resolved_ips, vec!["93.184.216.34"]);
    assert_eq!(recs[0].process_name, None);
}

#[test]
fn display_dns_candidates_are_trimmed_values() {
    let ls = display_dns_candidates("  a \r\n\tb\n  A (Host) Record . : 1.2.3.4 \nAAAA Record: ::1\nAAAA\n");
    assert_eq!(ls, vec!["a", "b", "1.2.3.4", "::1", ""]);
    let recs = parse_display_dns_at("Record Name:: . .x.test \n  1.2.3.4\n", &vec![false, true], 5);
    assert_eq!(recs[0].name, "x.test");
    assert_eq!(recs[0].resolved_ips, vec!["1.2.3.4"]);
}

#[test]
fn display_dns_keeps_at_most_fifty() {
    let mut text = String::new();
    for i in 0..60 {
        text.push_str(&format!("Record Name: .host{i}.test\n10.0.0.{i}\n"));
    }
    let recs = parse_display_dns_at(&text, &ip_marks(&text), 1);
    assert_eq!(recs.len(), 50);
    assert_eq!(recs[0].name, "host0.test");
    assert_eq!(recs[49].name, "host49.test");
    assert_eq!(recs[49].resolved_ips, vec!["10.0.0.49"]);
}

#[test]
fn ping_run_judgement() {
    let ok = ping_outcome(true, "Reply from 1.1.1.1: bytes=32 time=9ms TTL=58", "");
    assert!(ok.success && !ok.use_elapsed);
    assert_eq!(ok.rtt_text.as_deref(), Some("9"));
    assert_eq!(ok.error, None);
    let timed = ping_outcome(true, "Reply received", "");
    assert!(timed.success && timed.use_elapsed);
    assert_eq!(timed.rtt_text, None);
    let failed = ping_outcome(false, "Request timed out.", "  General failure. \r\n");
    assert!(!failed.success && !failed.use_elapsed);
    assert_eq!(failed.error.as_deref(), Some("General failure."));
    let odd = ping_outcome(false, "time=4ms", "");
    assert!(!odd.success);
    assert_eq!(odd.rtt_text.as_deref(), Some("4"));
    assert_eq!(odd.error.as_deref(), Some(""));
}
