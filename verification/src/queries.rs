//! The storage queries whose text depends on the request: filters for a
//! device and a time range, the grouping of application usage, pruning of
//! old samples, and the hourly buckets usage is summed into.

use vstd::prelude::*;
use crate::text::{chars_of, concat, opt_view, string_of};
use crate::traffic_process::TrafficFlow;

verus! {

/// Seconds in an hour.
pub const HOUR_SECS: i64 = 3600;

/// The start of the hour a timestamp falls in, as `ts - ts % 3600` with the
/// remainder truncated towards zero.
pub open spec fn hour_of(ts: i64) -> int {
    ts - (if ts >= 0 {
        (ts as int) % 3600
    } else {
        -((-(ts as int)) % 3600)
    })
}

pub fn hour_bucket(ts: i64) -> (r: i64)
    ensures
        r == hour_of(ts),
{
    ts - ts % HOUR_SECS
}

/// A parameter bound to a `?` of a query.
#[derive(Debug)]
pub enum SqlParam {
    Text(String),
    Int(i64),
}

pub enum ParamView {
    Text(Seq<char>),
    Int(i64),
}

impl View for SqlParam {
    type V = ParamView;

    open spec fn view(&self) -> ParamView {
        match self {
            SqlParam::Text(t) => ParamView::Text(t@),
            SqlParam::Int(n) => ParamView::Int(*n),
        }
    }
}

pub open spec fn params_view(v: Seq<SqlParam>) -> Seq<ParamView> {
    v.map_values(|p: SqlParam| p@)
}

/// A time window; an absent bound leaves that side open.
#[derive(Debug, Clone, Copy)]
pub struct TimeRange {
    pub start_ts: Option<i64>,
    pub end_ts: Option<i64>,
}

/// The condition text a time window adds on the column `col`.
pub open spec fn range_sql(col: Seq<char>, r: TimeRange) -> Seq<char> {
    (match r.start_ts {
        Some(_) => " AND "@ + col + " >= ?"@,
        None => seq![],
    }) + (match r.end_ts {
        Some(_) => " AND "@ + col + " <= ?"@,
        None => seq![],
    })
}

/// The parameters a time window binds, in order.
pub open spec fn range_params(r: TimeRange) -> Seq<ParamView> {
    (match r.start_ts {
        Some(s) => seq![ParamView::Int(s)],
        None => seq![],
    }) + (match r.end_ts {
        Some(e) => seq![ParamView::Int(e)],
        None => seq![],
    })
}

fn push_text(sql: &mut String, t: &str)
    ensures
        final(sql)@ == old(sql)@ + t@,
{
    let s = concat(sql.as_str(), t);
    *sql = s;
}

fn push_range(sql: &mut String, params: &mut Vec<SqlParam>, col: &str, range: &TimeRange)
    ensures
        final(sql)@ == old(sql)@ + range_sql(col@, *range),
        params_view(final(params)@) == params_view(old(params)@) + range_params(*range),
{
    let ghost s0 = sql@;
    let ghost p0 = params_view(params@);
    if let Some(start) = range.start_ts {
        push_text(sql, " AND ");
        push_text(sql, col);
        push_text(sql, " >= ?");
        params.push(SqlParam::Int(start));
    }
    let ghost s1 = sql@;
    let ghost p1 = params_view(params@);
    assert(s1 == s0 + match range.start_ts {
        Some(_) => " AND "@ + col@ + " >= ?"@,
        None => Seq::<char>::empty(),
    }) by {
        if range.start_ts is None {
            assert(s0 + Seq::<char>::empty() =~= s0);
        } else {
            assert(s1 =~= s0 + (" AND "@ + col@ + " >= ?"@));
        }
    }
    if let Some(end) = range.end_ts {
        push_text(sql, " AND ");
        push_text(sql, col);
        push_text(sql, " <= ?");
        params.push(SqlParam::Int(end));
    }
    assert(sql@ =~= s0 + range_sql(col@, *range));
    assert(params_view(params@) =~= p0 + range_params(*range));
}

/// `append_range`: the condition and parameters of a time window on `ts`.
pub fn append_range(sql: &mut String, params: &mut Vec<SqlParam>, range: &TimeRange)
    ensures
        final(sql)@ == old(sql)@ + range_sql("ts"@, *range),
        params_view(final(params)@) == params_view(old(params)@) + range_params(*range),
{
    push_range(sql, params, "ts", range);
}

/// The histories kept over time.
#[derive(Debug, Clone, Copy, PartialEq, Eq, Structural)]
pub enum History {
    Bandwidth,
    Ping,
    HttpLatency,
    LinkEvents,
    Speedtest,
}

/// The selection a history query starts with.
pub open spec fn history_select(h: History) -> Seq<char> {
    match h {
        History::Bandwidth => "SELECT ts, rx_bytes, tx_bytes FROM nic_bandwidth_samples WHERE 1=1"@,
        History::Ping => "SELECT nic_id, target, ts, rtt_ms, success, error FROM ping_samples WHERE 1=1"@,
        History::HttpLatency => "SELECT nic_id, url, ts, dns_ms, connect_ms, tls_ms, ttfb_ms, total_ms, status_code, success, error FROM http_latency_samples WHERE 1=1"@,
        History::LinkEvents => "SELECT nic_id, ts, event, detail FROM nic_link_events WHERE 1=1"@,
        History::Speedtest => "SELECT id, nic_id, ts, server_id, server_name, download_mbps, upload_mbps, ping_ms, jitter_ms, packet_loss, raw_json FROM speedtest_runs WHERE 1=1"@,
    }
}

/// The order and the row limit of a history query: oldest first for the
/// samples, newest first for link events and speed tests.
pub open spec fn history_tail(h: History) -> Seq<char> {
    match h {
        History::LinkEvents => " ORDER BY ts DESC LIMIT 2000"@,
        History::Speedtest => " ORDER BY ts DESC LIMIT 500"@,
        _ => " ORDER BY ts ASC LIMIT 5000"@,
    }
}

/// Whether a history is kept per network interface.
pub open spec fn per_device(h: History) -> bool {
    h != History::Speedtest
}

fn select_text(h: History) -> (r: &'static str)
    ensures
        r@ == history_select(h),
{
    match h {
        History::Bandwidth => "SELECT ts, rx_bytes, tx_bytes FROM nic_bandwidth_samples WHERE 1=1",
        History::Ping => "SELECT nic_id, target, ts, rtt_ms, success, error FROM ping_samples WHERE 1=1",
        History::HttpLatency => "SELECT nic_id, url, ts, dns_ms, connect_ms, tls_ms, ttfb_ms, total_ms, status_code, success, error FROM http_latency_samples WHERE 1=1",
        History::LinkEvents => "SELECT nic_id, ts, event, detail FROM nic_link_events WHERE 1=1",
        History::Speedtest => "SELECT id, nic_id, ts, server_id, server_name, download_mbps, upload_mbps, ping_ms, jitter_ms, packet_loss, raw_json FROM speedtest_runs WHERE 1=1",
    }
}

fn tail_text(h: History) -> (r: &'static str)
    ensures
        r@ == history_tail(h),
{
    match h {
        History::LinkEvents => " ORDER BY ts DESC LIMIT 2000",
        History::Speedtest => " ORDER BY ts DESC LIMIT 500",
        _ => " ORDER BY ts ASC LIMIT 5000",
    }
}

/// The query text of a history, filtered to one interface when asked (for
/// the histories kept per interface) and to the time window.
pub open spec fn history_sql(h: History, nic_id: Option<Seq<char>>, r: TimeRange) -> Seq<char> {
    history_select(h) + (if per_device(h) && nic_id is Some {
        " AND nic_id = ?"@
    } else {
        seq![]
    }) + range_sql("ts"@, r) + history_tail(h)
}

pub open spec fn history_params(h: History, nic_id: Option<Seq<char>>, r: TimeRange) -> Seq<
    ParamView,
> {
    (match nic_id {
        Some(id) if per_device(h) => seq![ParamView::Text(id)],
        _ => seq![],
    }) + range_params(r)
}

/// The query reading a history and its parameters.
pub fn history_query(h: History, nic_id: Option<&str>, range: &TimeRange) -> (r: (
    String,
    Vec<SqlParam>,
))
    ensures
        r.0@ == history_sql(
            h,
            match nic_id {
                Some(i) => Some(i@),
                None => None,
            },
            *range,
        ),
        params_view(r.1@) == history_params(
            h,
            match nic_id {
                Some(i) => Some(i@),
                None => None,
            },
            *range,
        ),
{
    let ghost nid = match nic_id {
        Some(i) => Some(i@),
        None => None,
    };
    let mut sql = select_text(h).to_owned();
    let mut params: Vec<SqlParam> = Vec::new();
    if h != History::Speedtest {
        if let Some(id) = nic_id {
            push_text(&mut sql, " AND nic_id = ?");
            params.push(SqlParam::Text(id.to_owned()));
        }
    }
    let ghost s1 = sql@;
    let ghost p1 = params_view(params@);
    assert(s1 =~= history_select(h) + (if per_device(h) && nid is Some {
        " AND nic_id = ?"@
    } else {
        seq![]
    }));
    assert(p1 =~= match nid {
        Some(id) if per_device(h) => seq![ParamView::Text(id)],
        _ => seq![],
    });
    append_range(&mut sql, &mut params, range);
    push_text(&mut sql, tail_text(h));
    assert(sql@ =~= history_sql(h, nid, *range));
    (sql, params)
}

/// The interface filter of a history query: for every history but the
/// speed tests, asking for one interface puts ` AND nic_id = ?` right after
/// the selection and binds the interface's id first, before the time
/// window's bounds; without an interface, and for the speed tests, the
/// selection is followed by the time window alone and only its bounds are bound.
pub proof fn lemma_history_nic_filter(h: History, id: Seq<char>, r: TimeRange)
    ensures
        h != History::Speedtest ==> crate::text::starts_with(
            history_sql(h, Some(id), r),
            history_select(h) + " AND nic_id = ?"@,
        ),
        h != History::Speedtest ==> history_params(h, Some(id), r) == seq![ParamView::Text(id)]
            + range_params(r),
        h == History::Speedtest ==> history_sql(h, Some(id), r) == history_select(h) + range_sql(
            "ts"@,
            r,
        ) + history_tail(h),
        h == History::Speedtest ==> history_params(h, Some(id), r) == range_params(r),
        history_sql(h, None, r) == history_select(h) + range_sql("ts"@, r) + history_tail(h),
        history_params(h, None, r) == range_params(r),
{
    let f = history_select(h) + " AND nic_id = ?"@;
    if h != History::Speedtest {
        assert(history_sql(h, Some(id), r) =~= f + (range_sql("ts"@, r) + history_tail(h)));
        assert(history_sql(h, Some(id), r).take(f.len() as int) =~= f);
    } else {
        assert(history_sql(h, Some(id), r) =~= history_select(h) + range_sql("ts"@, r)
            + history_tail(h));
        assert(history_params(h, Some(id), r) =~= range_params(r));
    }
    assert(history_sql(h, None, r) =~= history_select(h) + range_sql("ts"@, r) + history_tail(h));
    assert(history_params(h, None, r) =~= range_params(r));
}

/// How application usage is grouped: by remote address (`ip`), by host
/// name (`url` or `host`), or else by process.
pub open spec fn usage_select(group_by: Seq<char>) -> Seq<char> {
    if group_by == "ip"@ {
        "remote_ip as process_name, NULL as process_path, remote_ip, NULL as host, SUM(bytes_in), SUM(bytes_out), nic_id"@
    } else if group_by == "url"@ || group_by == "host"@ {
        "COALESCE(host,'(unknown)') as process_name, NULL, NULL, host, SUM(bytes_in), SUM(bytes_out), nic_id"@
    } else {
        "process_name, NULL as process_path, NULL as remote_ip, NULL as host, SUM(bytes_in), SUM(bytes_out), nic_id"@
    }
}

pub open spec fn usage_group(group_by: Seq<char>) -> Seq<char> {
    if group_by == "ip"@ {
        "remote_ip, nic_id"@
    } else if group_by == "url"@ || group_by == "host"@ {
        "host, nic_id"@
    } else {
        "process_name, nic_id"@
    }
}

/// The query of application usage over the hourly roll-up: the heaviest 200
/// groups in the time window, by bytes in and out.
pub open spec fn app_usage_sql(r: TimeRange, group_by: Seq<char>) -> Seq<char> {
    "SELECT "@ + usage_select(group_by) + " FROM app_usage_hourly WHERE 1=1"@ + range_sql(
        "hour_ts"@,
        r,
    ) + " GROUP BY "@ + usage_group(group_by)
        + " ORDER BY SUM(bytes_in)+SUM(bytes_out) DESC LIMIT 200"@
}

fn same_text(a: &str, b: &str) -> (r: bool)
    ensures
        r == (a@ == b@),
{
    crate::text::chars_eq(&chars_of(a), &chars_of(b))
}

/// The query of application usage and its parameters.
pub fn app_usage_query(range: &TimeRange, group_by: &str) -> (r: (String, Vec<SqlParam>))
    ensures
        r.0@ == app_usage_sql(*range, group_by@),
        params_view(r.1@) == range_params(*range),
{
    let (select, group) = if same_text(group_by, "ip") {
        (
            "remote_ip as process_name, NULL as process_path, remote_ip, NULL as host, SUM(bytes_in), SUM(bytes_out), nic_id",
            "remote_ip, nic_id",
        )
    } else if same_text(group_by, "url") || same_text(group_by, "host") {
        (
            "COALESCE(host,'(unknown)') as process_name, NULL, NULL, host, SUM(bytes_in), SUM(bytes_out), nic_id",
            "host, nic_id",
        )
    } else {
        (
            "process_name, NULL as process_path, NULL as remote_ip, NULL as host, SUM(bytes_in), SUM(bytes_out), nic_id",
            "process_name, nic_id",
        )
    };
    let mut sql = "SELECT ".to_owned();
    push_text(&mut sql, select);
    push_text(&mut sql, " FROM app_usage_hourly WHERE 1=1");
    let mut params: Vec<SqlParam> = Vec::new();
    push_range(&mut sql, &mut params, "hour_ts", range);
    push_text(&mut sql, " GROUP BY ");
    push_text(&mut sql, group);
    push_text(&mut sql, " ORDER BY SUM(bytes_in)+SUM(bytes_out) DESC LIMIT 200");
    assert(params_view(params@) =~= range_params(*range));
    (sql, params)
}

/// The tables of raw samples that pruning removes old rows from.
pub open spec fn raw_tables() -> Seq<Seq<char>> {
    seq![
        "nic_bandwidth_samples"@,
        "ping_samples"@,
        "http_latency_samples"@,
        "traffic_flows"@,
        "dns_queries"@,
        "http_hosts"@,
    ]
}

/// The oldest time kept when keeping `days` days back from `now`.
pub fn prune_cutoff(now: i64, days: u32) -> (r: i64)
    requires
        now - days * 86400 >= i64::MIN,
    ensures
        r == now - days * 86400,
{
    now - (days as i64) * 86400
}

/// The statements pruning the raw samples older than the cutoff bound to `?1`.
pub fn prune_statements() -> (r: Vec<String>)
    ensures
        r@.len() == raw_tables().len(),
        forall|i: int|
            0 <= i < r@.len() ==> #[trigger] r@[i]@ == "DELETE FROM "@ + raw_tables()[i]
                + " WHERE ts < ?1"@,
{
    let mut v: Vec<String> = Vec::new();
    v.push(concat("DELETE FROM nic_bandwidth_samples", " WHERE ts < ?1"));
    v.push(concat("DELETE FROM ping_samples", " WHERE ts < ?1"));
    v.push(concat("DELETE FROM http_latency_samples", " WHERE ts < ?1"));
    v.push(concat("DELETE FROM traffic_flows", " WHERE ts < ?1"));
    v.push(concat("DELETE FROM dns_queries", " WHERE ts < ?1"));
    v.push(concat("DELETE FROM http_hosts", " WHERE ts < ?1"));
    proof {
        reveal_strlit("DELETE FROM ");
        reveal_strlit("nic_bandwidth_samples");
        reveal_strlit("DELETE FROM nic_bandwidth_samples");
        reveal_strlit("ping_samples");
        reveal_strlit("DELETE FROM ping_samples");
        reveal_strlit("http_latency_samples");
        reveal_strlit("DELETE FROM http_latency_samples");
        reveal_strlit("traffic_flows");
        reveal_strlit("DELETE FROM traffic_flows");
        reveal_strlit("dns_queries");
        reveal_strlit("DELETE FROM dns_queries");
        reveal_strlit("http_hosts");
        reveal_strlit("DELETE FROM http_hosts");
        assert("DELETE FROM nic_bandwidth_samples"@ =~= "DELETE FROM "@ + "nic_bandwidth_samples"@);
        assert("DELETE FROM ping_samples"@ =~= "DELETE FROM "@ + "ping_samples"@);
        assert("DELETE FROM http_latency_samples"@ =~= "DELETE FROM "@ + "http_latency_samples"@);
        assert("DELETE FROM traffic_flows"@ =~= "DELETE FROM "@ + "traffic_flows"@);
        assert("DELETE FROM dns_queries"@ =~= "DELETE FROM "@ + "dns_queries"@);
        assert("DELETE FROM http_hosts"@ =~= "DELETE FROM "@ + "http_hosts"@);
    }
    v
}

/// The address part of an endpoint text: what precedes its first `:`, or all of it.
pub open spec fn address_part(s: Seq<char>) -> Seq<char>
    decreases s.len(),
{
    if s.len() == 0 {
        seq![]
    } else if s[0] == ':' {
        seq![]
    } else {
        seq![s[0]] + address_part(s.drop_first())
    }
}

/// `remote_addr.split(':').next()`.
pub fn remote_ip_of(remote_addr: &str) -> (r: String)
    ensures
        r@ == address_part(remote_addr@),
{
    let cs = chars_of(remote_addr);
    let mut j: usize = 0;
    assert(cs@.take(0) + address_part(cs@.skip(0)) =~= address_part(cs@)) by {
        assert(cs@.skip(0) =~= cs@);
    }
    while j < cs.len() && cs[j] != ':'
        invariant
            j <= cs@.len(),
            address_part(cs@) == cs@.take(j as int) + address_part(cs@.skip(j as int)),
        decreases cs.len() - j,
    {
        proof {
            let t = cs@.skip(j as int);
            assert(t.drop_first() =~= cs@.skip(j + 1));
            assert(cs@.take(j as int) + seq![t[0]] =~= cs@.take(j + 1));
        }
        j = j + 1;
    }
    proof {
        assert(cs@.take(0) =~= Seq::<char>::empty());
        assert(address_part(cs@.skip(j as int)) =~= Seq::<char>::empty());
    }
    let r = crate::text::slice_chars(&cs, 0, j);
    assert(r@ =~= cs@.take(j as int));
    string_of(&r)
}

/// The row of the hourly application-usage roll-up a flow is added to.
#[derive(Debug)]
pub struct UsageRow {
    pub hour_ts: i64,
    pub process_name: String,
    pub remote_ip: String,
    pub host: String,
    pub nic_id: String,
    pub bytes_in: u64,
    pub bytes_out: u64,
}

pub open spec fn or_empty(o: Option<Seq<char>>) -> Seq<char> {
    match o {
        Some(s) => s,
        None => seq![],
    }
}

fn text_or_empty(o: &Option<String>) -> (r: String)
    ensures
        r@ == or_empty(opt_view(*o)),
{
    match o {
        Some(s) => s.clone(),
        None => String::new(),
    }
}

/// The roll-up row of a flow: its hour, its process, the address part of
/// its remote endpoint, its host and interface (empty when unknown), and its bytes.
pub fn usage_row(f: &TrafficFlow) -> (r: UsageRow)
    ensures
        r.hour_ts == hour_of(f.ts),
        r.process_name@ == f.process_name@,
        r.remote_ip@ == address_part(f.remote_addr@),
        r.host@ == or_empty(opt_view(f.host)),
        r.nic_id@ == or_empty(opt_view(f.nic_id)),
        r.bytes_in == f.bytes_in,
        r.bytes_out == f.bytes_out,
{
    UsageRow {
        hour_ts: hour_bucket(f.ts),
        process_name: f.process_name.clone(),
        remote_ip: remote_ip_of(f.remote_addr.as_str()),
        host: text_or_empty(&f.host),
        nic_id: text_or_empty(&f.nic_id),
        bytes_in: f.bytes_in,
        bytes_out: f.bytes_out,
    }
}

} // verus!
