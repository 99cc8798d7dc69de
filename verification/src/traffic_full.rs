//! Full capture mode. Packet diversion needs the WinDivert driver; until it
//! is present this mode enriches traffic with the names in the DNS cache
//! (`ipconfig /displaydns`) and reports why deeper capture is unavailable.

use vstd::prelude::*;
use crate::clock::now_timestamp;
use crate::paths::{first_found, path_exists};
use crate::text::{
    chars_of, concat, has_prefix, lines, lines_of, rows, string_of, strings_view, trim,
    trim_chars, starts_with, slice_chars, is_ws,
};
use crate::traffic_process::TrafficFlow;

verus! {

/// Whether full capture can run, and the message shown about it.
#[derive(Debug)]
pub struct FullCaptureStatus {
    pub available: bool,
    pub message: String,
}

impl FullCaptureStatus {
    /// A copy of this status.
    pub fn duplicate(&self) -> (r: FullCaptureStatus)
        ensures
            r.available == self.available,
            r.message@ == self.message@,
    {
        FullCaptureStatus { available: self.available, message: self.message.clone() }
    }
}

/// A name found in the DNS cache with the addresses it resolved to.
#[derive(Debug)]
pub struct DnsQueryRecord {
    pub ts: i64,
    pub name: String,
    pub resolved_ips: Vec<String>,
    pub process_name: Option<String>,
}

pub struct DnsRecordView {
    pub ts: i64,
    pub name: Seq<char>,
    pub resolved_ips: Seq<Seq<char>>,
    pub process_name: Option<Seq<char>>,
}

impl View for DnsQueryRecord {
    type V = DnsRecordView;

    open spec fn view(&self) -> DnsRecordView {
        DnsRecordView {
            ts: self.ts,
            name: self.name@,
            resolved_ips: strings_view(self.resolved_ips@),
            process_name: crate::text::opt_view(self.process_name),
        }
    }
}

pub open spec fn records_view(v: Seq<DnsQueryRecord>) -> Seq<DnsRecordView> {
    v.map_values(|r: DnsQueryRecord| r@)
}

/// Where the WinDivert library is looked for, in order.
pub open spec fn dll_candidates() -> Seq<Seq<char>> {
    seq!["WinDivert.dll"@, "C:\\Windows\\System32\\WinDivert.dll"@, ".\\WinDivert.dll"@]
}

pub open spec fn found_message(path: Seq<char>) -> Seq<char> {
    "WinDivert found at "@ + path
}

pub open spec fn missing_message() -> Seq<char> {
    "Mode B requires WinDivert (admin). Install WinDivert.dll next to the service or in System32. Until then, use Process mode for app+IP usage; hostnames still enrich from DNS cache when Full mode is selected."@
}

/// The status of full capture, given the WinDivert library found, if any.
pub fn windivert_status(found: Option<&str>) -> (r: FullCaptureStatus)
    ensures
        r.available == found is Some,
        match found {
            Some(p) => r.message@ == found_message(p@),
            None => r.message@ == missing_message(),
        },
{
    match found {
        Some(p) => FullCaptureStatus { available: true, message: concat("WinDivert found at ", p) },
        None => FullCaptureStatus {
            available: false,
            message: "Mode B requires WinDivert (admin). Install WinDivert.dll next to the service or in System32. Until then, use Process mode for app+IP usage; hostnames still enrich from DNS cache when Full mode is selected.".to_owned(),
        },
    }
}

/// The status of full capture given which candidate places hold the
/// WinDivert library: found at the first place that holds it, in order,
/// else missing.
pub open spec fn windivert_outcome(found: Seq<bool>, available: bool, message: Seq<char>) -> bool {
    match first_found(found, 0) {
        Some(i) => available && message == found_message(dll_candidates()[i]),
        None => !available && message == missing_message(),
    }
}

/// Chooses the status from which of the three candidate places hold the library.
pub fn windivert_choice(found: &Vec<bool>) -> (r: FullCaptureStatus)
    requires
        found@.len() == 3,
    ensures
        windivert_outcome(found@, r.available, r.message@),
{
    let ghost f = found@;
    if found[0] {
        assert(first_found(f, 0) == Some(0int));
        windivert_status(Some("WinDivert.dll"))
    } else if found[1] {
        assert(first_found(f, 1) == Some(1int));
        assert(first_found(f, 0) == Some(1int));
        windivert_status(Some("C:\\Windows\\System32\\WinDivert.dll"))
    } else if found[2] {
        assert(first_found(f, 2) == Some(2int));
        assert(first_found(f, 1) == Some(2int));
        assert(first_found(f, 0) == Some(2int));
        windivert_status(Some(".\\WinDivert.dll"))
    } else {
        assert(first_found(f, 3) is None);
        assert(first_found(f, 2) is None);
        assert(first_found(f, 1) is None);
        assert(first_found(f, 0) is None);
        windivert_status(None)
    }
}

/// Looks for the WinDivert library at each candidate place, in order (see
/// `windivert_choice`); what is there the file system decides.
pub fn probe_windivert() -> (r: FullCaptureStatus)
    ensures
        exists|found: Seq<bool>| found.len() == 3 && windivert_outcome(found, r.available, r.message@),
{
    let mut found: Vec<bool> = Vec::new();
    found.push(path_exists("WinDivert.dll"));
    found.push(path_exists("C:\\Windows\\System32\\WinDivert.dll"));
    found.push(path_exists(".\\WinDivert.dll"));
    let r = windivert_choice(&found);
    assert(found@.len() == 3 && windivert_outcome(found@, r.available, r.message@));
    r
}

/// The collector of full capture mode. It is enabled only while WinDivert
/// is available.
pub struct FullTrafficCollector {
    enabled: bool,
    last_status: FullCaptureStatus,
}

impl FullTrafficCollector {
    #[verifier::type_invariant]
    spec fn inv(self) -> bool {
        self.enabled ==> self.last_status.available
    }

    pub closed spec fn spec_enabled(self) -> bool {
        self.enabled
    }

    pub closed spec fn spec_available(self) -> bool {
        self.last_status.available
    }

    pub closed spec fn spec_message(self) -> Seq<char> {
        self.last_status.message@
    }

    /// A collector for the given status, enabled when capture is available.
    pub fn with_status(status: FullCaptureStatus) -> (r: Self)
        ensures
            r.spec_enabled() == status.available,
            r.spec_available() == status.available,
            r.spec_message() == status.message@,
    {
        FullTrafficCollector { enabled: status.available, last_status: status }
    }

    /// A collector for the status found by probing for WinDivert.
    pub fn new() -> (r: Self)
        ensures
            r.spec_enabled() == r.spec_available(),
            exists|found: Seq<bool>|
                found.len() == 3 && windivert_outcome(found, r.spec_available(), r.spec_message()),
    {
        Self::with_status(probe_windivert())
    }

    pub fn status(&self) -> (r: FullCaptureStatus)
        ensures
            r.available == self.spec_available(),
            r.message@ == self.spec_message(),
    {
        self.last_status.duplicate()
    }

    /// Asks for full capture on or off; it is on only where it is available.
    pub fn set_enabled(&mut self, enabled: bool)
        ensures
            final(self).spec_enabled() == (enabled && old(self).spec_available()),
            final(self).spec_available() == old(self).spec_available(),
            final(self).spec_message() == old(self).spec_message(),
    {
        self.enabled = enabled && self.last_status.available;
    }

    /// One sample: no flows until packet diversion is in place, and the DNS
    /// cache entries read from the output of `ipconfig /displaydns` when
    /// there is one (`is_ip` marks its trimmed lines that are IP addresses).
    pub fn sample(&mut self, display_dns: Option<&str>, is_ip: &Vec<bool>) -> (r: (
        Vec<TrafficFlow>,
        Vec<DnsQueryRecord>,
    ))
        requires
            display_dns matches Some(t) ==> is_ip@.len() == lines(t@).len(),
        ensures
            r.0@.len() == 0,
            match display_dns {
                Some(t) => exists|ts: i64| records_view(r.1@) == display_dns_records(lines(t@), is_ip@, ts),
                None => r.1@.len() == 0,
            },
            final(self).spec_enabled() == old(self).spec_enabled(),
            final(self).spec_available() == old(self).spec_available(),
            final(self).spec_message() == old(self).spec_message(),
    {
        let dns = match display_dns {
            Some(t) => parse_display_dns(t, is_ip),
            None => Vec::new(),
        };
        (Vec::new(), dns)
    }
}

/// The state of reading the DNS cache listing: the records done, the name
/// being read and the addresses collected for it.
pub struct DnsScan {
    pub out: Seq<DnsRecordView>,
    pub current: Option<Seq<char>>,
    pub ips: Seq<Seq<char>>,
}

pub open spec fn record_of(ts: i64, name: Seq<char>, ips: Seq<Seq<char>>) -> DnsRecordView {
    DnsRecordView { ts: ts, name: name, resolved_ips: ips, process_name: None }
}

/// A character of the leader between a label and its value (`. . . :`).
pub open spec fn is_leader(c: char) -> bool {
    c == '.' || c == ':' || is_ws(c)
}

/// `s` without its leading leader characters.
pub open spec fn trim_leader(s: Seq<char>) -> Seq<char>
    decreases s.len(),
{
    if s.len() > 0 && is_leader(s[0]) {
        trim_leader(s.drop_first())
    } else {
        s
    }
}

/// The name on a `Record Name . . . : name` line, from the text after the
/// label: the dot leader and the colon skipped, the rest trimmed.
pub open spec fn record_name(rest: Seq<char>) -> Seq<char> {
    trim(trim_leader(rest))
}

/// The text after the first `:` of `s`, or nothing where there is none.
pub open spec fn after_colon(s: Seq<char>) -> Seq<char>
    decreases s.len(),
{
    if s.len() == 0 {
        s
    } else if s[0] == ':' {
        s.drop_first()
    } else {
        after_colon(s.drop_first())
    }
}

/// A line giving an address record: `A (Host) Record . . . : address` or
/// `AAAA Record . . . : address`.
pub open spec fn is_address_line(t: Seq<char>) -> bool {
    starts_with(t, "A (Host) Record"@) || starts_with(t, "AAAA"@)
}

/// The text of a trimmed line that may be an address: the value of an
/// address record line, else the whole line. The IP marks given to the
/// parser say which of these are IP addresses.
pub open spec fn address_candidate(t: Seq<char>) -> Seq<char> {
    if is_address_line(t) {
        trim(after_colon(t))
    } else {
        t
    }
}

/// Reading one trimmed line `t` of the listing.
pub open spec fn dns_step(ts: i64, st: DnsScan, t: Seq<char>, is_ip: bool) -> DnsScan {
    if starts_with(t, "Record Name"@) {
        let flushed = if st.current is Some && st.ips.len() > 0 {
            DnsScan {
                out: st.out.push(record_of(ts, st.current->0, st.ips)),
                current: None,
                ips: seq![],
            }
        } else {
            st
        };
        let name = record_name(t.skip("Record Name"@.len() as int));
        if name.len() > 0 {
            DnsScan { current: Some(name), ..flushed }
        } else {
            flushed
        }
    } else if is_ip {
        DnsScan { ips: st.ips.push(address_candidate(t)), ..st }
    } else {
        st
    }
}

/// The state after reading the lines `ls` (trimmed here) with their IP marks.
pub open spec fn dns_scan(ts: i64, ls: Seq<Seq<char>>, is_ip: Seq<bool>) -> DnsScan
    decreases ls.len(),
{
    if ls.len() == 0 || is_ip.len() < ls.len() {
        DnsScan { out: seq![], current: None, ips: seq![] }
    } else {
        dns_step(
            ts,
            dns_scan(ts, ls.drop_last(), is_ip.take(ls.len() - 1)),
            trim(ls.last()),
            is_ip[ls.len() - 1],
        )
    }
}

/// The records of a DNS cache listing: each name with the addresses listed
/// under it, the last name flushed at the end, at most 50 records.
pub open spec fn display_dns_records(ls: Seq<Seq<char>>, is_ip: Seq<bool>, ts: i64) -> Seq<
    DnsRecordView,
> {
    let st = dns_scan(ts, ls, is_ip);
    let all = if st.current is Some && st.ips.len() > 0 {
        st.out.push(record_of(ts, st.current->0, st.ips))
    } else {
        st.out
    };
    if all.len() > 50 {
        all.take(50)
    } else {
        all
    }
}

pub open spec fn well_formed_record(r: DnsRecordView, ts: i64) -> bool {
    r.name.len() > 0 && r.resolved_ips.len() > 0 && r.ts == ts && r.process_name is None
}

proof fn lemma_scan_records(ts: i64, ls: Seq<Seq<char>>, is_ip: Seq<bool>)
    ensures
        forall|i: int|
            0 <= i < dns_scan(ts, ls, is_ip).out.len() ==> well_formed_record(
                #[trigger] dns_scan(ts, ls, is_ip).out[i],
                ts,
            ),
        dns_scan(ts, ls, is_ip).current matches Some(n) ==> n.len() > 0,
    decreases ls.len(),
{
    if ls.len() > 0 && is_ip.len() >= ls.len() {
        lemma_scan_records(ts, ls.drop_last(), is_ip.take(ls.len() - 1));
    }
}

/// The records of a DNS cache listing are at most 50, each with a non-empty
/// name and at least one address, stamped with the time of the reading and with no process.
pub proof fn lemma_display_dns_records_shape(ls: Seq<Seq<char>>, is_ip: Seq<bool>, ts: i64)
    ensures
        display_dns_records(ls, is_ip, ts).len() <= 50,
        forall|i: int|
            0 <= i < display_dns_records(ls, is_ip, ts).len() ==> well_formed_record(
                #[trigger] display_dns_records(ls, is_ip, ts)[i],
                ts,
            ),
{
    lemma_scan_records(ts, ls, is_ip);
}

fn trim_leader_chars(s: &Vec<char>) -> (r: Vec<char>)
    ensures
        r@ == trim_leader(s@),
{
    let mut i: usize = 0;
    assert(s@.skip(0) =~= s@);
    while i < s.len() && (s[i] == '.' || s[i] == ':' || crate::text::is_whitespace(s[i]))
        invariant
            i <= s@.len(),
            trim_leader(s@) == trim_leader(s@.skip(i as int)),
        decreases s.len() - i,
    {
        proof {
            let t = s@.skip(i as int);
            assert(t.drop_first() =~= s@.skip(i + 1));
        }
        i = i + 1;
    }
    let r = slice_chars(s, i, s.len());
    assert(r@ =~= s@.skip(i as int));
    r
}

fn after_colon_chars(s: &Vec<char>) -> (r: Vec<char>)
    ensures
        r@ == after_colon(s@),
{
    let mut i: usize = 0;
    assert(s@.skip(0) =~= s@);
    while i < s.len() && s[i] != ':'
        invariant
            i <= s@.len(),
            after_colon(s@) == after_colon(s@.skip(i as int)),
        decreases s.len() - i,
    {
        proof {
            let t = s@.skip(i as int);
            assert(t.drop_first() =~= s@.skip(i + 1));
        }
        i = i + 1;
    }
    if i == s.len() {
        assert(s@.skip(i as int) =~= Seq::<char>::empty());
        return Vec::new();
    }
    let r = slice_chars(s, i + 1, s.len());
    assert(r@ =~= s@.skip(i as int).drop_first());
    r
}

fn candidate_chars(t: &Vec<char>, host_a: &Vec<char>, aaaa: &Vec<char>) -> (r: Vec<char>)
    requires
        host_a@ == "A (Host) Record"@,
        aaaa@ == "AAAA"@,
    ensures
        r@ == address_candidate(t@),
{
    if has_prefix(t, host_a) || has_prefix(t, aaaa) {
        trim_chars(&after_colon_chars(t))
    } else {
        slice_chars(t, 0, t.len())
    }
}

fn make_record(ts: i64, name: &Vec<char>, ips: Vec<String>) -> (r: DnsQueryRecord)
    ensures
        r@ == record_of(ts, name@, strings_view(ips@)),
{
    DnsQueryRecord { ts, name: string_of(name), resolved_ips: ips, process_name: None }
}

/// Reads the records of a DNS cache listing stamped with the time `ts`.
pub fn parse_display_dns_at(text: &str, is_ip: &Vec<bool>, ts: i64) -> (r: Vec<DnsQueryRecord>)
    requires
        is_ip@.len() == lines(text@).len(),
    ensures
        records_view(r@) == display_dns_records(lines(text@), is_ip@, ts),
{
    let ls = lines_of(&chars_of(text));
    let label = chars_of("Record Name");
    let host_a = chars_of("A (Host) Record");
    let aaaa = chars_of("AAAA");
    let mut out: Vec<DnsQueryRecord> = Vec::new();
    let mut current: Option<Vec<char>> = None;
    let mut ips: Vec<String> = Vec::new();
    let ghost all = rows(ls@);
    let mut i: usize = 0;
    assert(all.take(0) =~= Seq::<Seq<char>>::empty());
    assert(records_view(out@) =~= Seq::<DnsRecordView>::empty());
    assert(strings_view(ips@) =~= Seq::<Seq<char>>::empty());
    while i < ls.len()
        invariant
            i <= ls@.len(),
            all == rows(ls@),
            all == lines(text@),
            is_ip@.len() == all.len(),
            label@ == "Record Name"@,
            host_a@ == "A (Host) Record"@,
            aaaa@ == "AAAA"@,
            dns_scan(ts, all.take(i as int), is_ip@.take(i as int)) == (DnsScan {
                out: records_view(out@),
                current: match current {
                    Some(c) => Some(c@),
                    None => None,
                },
                ips: strings_view(ips@),
            }),
        decreases ls.len() - i,
    {
        proof {
            let lt = all.take(i + 1);
            assert(lt.drop_last() =~= all.take(i as int));
            assert(is_ip@.take(i + 1).take(i as int) =~= is_ip@.take(i as int));
            assert(lt.last() == ls@[i as int]@);
        }
        let t = trim_chars(&ls[i]);
        if has_prefix(&t, &label) {
            if current.is_some() && ips.len() > 0 {
                let name = match current {
                    Some(c) => c,
                    None => Vec::new(),
                };
                let ghost before = records_view(out@);
                let rec = make_record(ts, &name, ips);
                out.push(rec);
                assert(records_view(out@) =~= before.push(rec@));
                current = None;
                ips = Vec::new();
                assert(strings_view(ips@) =~= Seq::<Seq<char>>::empty());
            }
            let rest = slice_chars(&t, label.len(), t.len());
            assert(rest@ =~= t@.skip("Record Name"@.len() as int));
            let name = trim_chars(&trim_leader_chars(&rest));
            if name.len() > 0 {
                current = Some(name);
            }
        } else if is_ip[i] {
            let cand = candidate_chars(&t, &host_a, &aaaa);
            let ghost before = strings_view(ips@);
            ips.push(string_of(&cand));
            assert(strings_view(ips@) =~= before.push(address_candidate(t@)));
        }
        i = i + 1;
    }
    assert(all.take(ls@.len() as int) =~= all);
    assert(is_ip@.take(ls@.len() as int) =~= is_ip@);
    if current.is_some() && ips.len() > 0 {
        let name = match current {
            Some(c) => c,
            None => Vec::new(),
        };
        let ghost before = records_view(out@);
        let rec = make_record(ts, &name, ips);
        out.push(rec);
        assert(records_view(out@) =~= before.push(rec@));
    }
    if out.len() > 50 {
        let ghost before = out@;
        out.truncate(50);
        assert(records_view(out@) =~= records_view(before).take(50));
    }
    out
}

/// Reads the records of a DNS cache listing, stamped with the current time.
pub fn parse_display_dns(text: &str, is_ip: &Vec<bool>) -> (r: Vec<DnsQueryRecord>)
    requires
        is_ip@.len() == lines(text@).len(),
    ensures
        exists|ts: i64| records_view(r@) == display_dns_records(lines(text@), is_ip@, ts),
{
    let ts = now_timestamp();
    parse_display_dns_at(text, is_ip, ts)
}

/// The address candidate of each line of a DNS cache listing (see
/// `address_candidate`); the IP marks given to `parse_display_dns` say which
/// of them are IP addresses.
pub fn display_dns_candidates(text: &str) -> (r: Vec<String>)
    ensures
        r@.len() == lines(text@).len(),
        forall|i: int|
            0 <= i < r@.len() ==> #[trigger] r@[i]@ == address_candidate(trim(lines(text@)[i])),
{
    let host_a = chars_of("A (Host) Record");
    let aaaa = chars_of("AAAA");
    let ls = lines_of(&chars_of(text));
    let mut out: Vec<String> = Vec::new();
    let mut i: usize = 0;
    while i < ls.len()
        invariant
            i <= ls@.len(),
            rows(ls@) == lines(text@),
            out@.len() == i,
            host_a@ == "A (Host) Record"@,
            aaaa@ == "AAAA"@,
            forall|k: int|
                0 <= k < i ==> #[trigger] out@[k]@ == address_candidate(trim(lines(text@)[k])),
        decreases ls.len() - i,
    {
        assert(rows(ls@)[i as int] == ls@[i as int]@);
        out.push(string_of(&candidate_chars(&trim_chars(&ls[i]), &host_a, &aaaa)));
        i = i + 1;
    }
    out
}

} // verus!
