//! Process capture mode: connections from the TCP table attributed to the
//! processes that own them, rolled up per process and remote endpoint.

use vstd::prelude::*;
use crate::numfmt::{dec, dec_chars};
use crate::settings::clone_opt_string;
use crate::text::{chars_of, has_prefix, opt_view, starts_with, string_of};

verus! {

/// Traffic attributed to a process and a remote endpoint.
#[derive(Debug)]
pub struct TrafficFlow {
    pub ts: i64,
    pub process_name: String,
    pub process_path: Option<String>,
    pub pid: Option<u32>,
    pub local_addr: String,
    pub remote_addr: String,
    pub protocol: String,
    pub bytes_in: u64,
    pub bytes_out: u64,
    pub nic_id: Option<String>,
    pub host: Option<String>,
}

pub struct FlowView {
    pub ts: i64,
    pub process_name: Seq<char>,
    pub process_path: Option<Seq<char>>,
    pub pid: Option<u32>,
    pub local_addr: Seq<char>,
    pub remote_addr: Seq<char>,
    pub protocol: Seq<char>,
    pub bytes_in: u64,
    pub bytes_out: u64,
    pub nic_id: Option<Seq<char>>,
    pub host: Option<Seq<char>>,
}

impl View for TrafficFlow {
    type V = FlowView;

    open spec fn view(&self) -> FlowView {
        FlowView {
            ts: self.ts,
            process_name: self.process_name@,
            process_path: opt_view(self.process_path),
            pid: self.pid,
            local_addr: self.local_addr@,
            remote_addr: self.remote_addr@,
            protocol: self.protocol@,
            bytes_in: self.bytes_in,
            bytes_out: self.bytes_out,
            nic_id: opt_view(self.nic_id),
            host: opt_view(self.host),
        }
    }
}

pub open spec fn flows_view(v: Seq<TrafficFlow>) -> Seq<FlowView> {
    v.map_values(|f: TrafficFlow| f@)
}

/// A row of the TCP connection table, with its owning process.
#[derive(Debug, Clone, Copy)]
pub struct TcpConnection {
    pub local_addr: u32,
    pub local_port: u32,
    pub remote_addr: u32,
    pub remote_port: u32,
    pub pid: u32,
}

/// The bytes attributed to one open connection in a sample: a nominal
/// weight, since the table carries no byte counters.
pub fn estimate_bytes(hint: u64) -> (r: u64)
    ensures
        r == 1024,
{
    1024
}

/// The octets of an address as the table lays it out in memory, first
/// octet in the lowest byte.
pub open spec fn octet(addr: u32, i: nat) -> nat {
    ((addr as nat) / pow256(i)) % 256
}

pub open spec fn pow256(i: nat) -> nat
    decreases i,
{
    if i == 0 {
        1
    } else {
        256 * pow256((i - 1) as nat)
    }
}

/// The port, held in network byte order in the low two bytes.
pub open spec fn port_number(port: u32) -> nat {
    ((port as nat) % 256) * 256 + ((port as nat) / 256) % 256
}

/// `a.b.c.d:port`.
pub open spec fn endpoint_text(addr: u32, port: u32) -> Seq<char> {
    dec(octet(addr, 0)) + "."@ + dec(octet(addr, 1)) + "."@ + dec(octet(addr, 2)) + "."@ + dec(
        octet(addr, 3),
    ) + ":"@ + dec(port_number(port))
}

fn append(v: &mut Vec<char>, w: &Vec<char>)
    ensures
        final(v)@ == old(v)@ + w@,
{
    let mut i: usize = 0;
    let ghost v0 = v@;
    while i < w.len()
        invariant
            i <= w@.len(),
            v@ == v0 + w@.take(i as int),
        decreases w.len() - i,
    {
        v.push(w[i]);
        assert(v@ =~= v0 + w@.take(i + 1));
        i = i + 1;
    }
    assert(w@.take(w@.len() as int) =~= w@);
}

/// The text `a.b.c.d:port` of an IPv4 endpoint from the TCP table, which
/// holds the address and the port in network byte order; this reads them as
/// they lie in memory on the little-endian targets of the collector.
pub fn format_ipv4_port(addr: u32, port: u32) -> (r: String)
    ensures
        r@ == endpoint_text(addr, port),
{
    let dot = chars_of(".");
    let colon = chars_of(":");
    let a0 = addr % 256;
    let a1 = (addr / 256) % 256;
    let a2 = (addr / 65536) % 256;
    let a3 = (addr / 16777216) % 256;
    let p = (port % 256) * 256 + (port / 256) % 256;
    proof {
        assert(pow256(0) == 1);
        assert(pow256(1) == 256);
        assert(pow256(2) == 65536);
        assert(pow256(3) == 16777216);
    }
    let mut v = dec_chars(a0 as u64);
    append(&mut v, &dot);
    append(&mut v, &dec_chars(a1 as u64));
    append(&mut v, &dot);
    append(&mut v, &dec_chars(a2 as u64));
    append(&mut v, &dot);
    append(&mut v, &dec_chars(a3 as u64));
    append(&mut v, &colon);
    append(&mut v, &dec_chars(p as u64));
    string_of(&v)
}

/// A connection the collector counts: owned by a process (not pid 0), to a
/// remote endpoint that is neither unspecified (`0.0.0.0`) nor loopback (`127.`).
pub open spec fn counted(row: TcpConnection) -> bool {
    row.pid != 0 && !starts_with(endpoint_text(row.remote_addr, row.remote_port), "0.0.0.0"@)
        && !starts_with(endpoint_text(row.remote_addr, row.remote_port), "127."@)
}

/// The local and remote endpoint texts of a counted connection.
pub fn connection_endpoints(row: &TcpConnection) -> (r: Option<(String, String)>)
    ensures
        match r {
            Some((l, rem)) => counted(*row) && l@ == endpoint_text(row.local_addr, row.local_port)
                && rem@ == endpoint_text(row.remote_addr, row.remote_port),
            None => !counted(*row),
        },
{
    if row.pid == 0 {
        return None;
    }
    let local = format_ipv4_port(row.local_addr, row.local_port);
    let remote = format_ipv4_port(row.remote_addr, row.remote_port);
    let rc = chars_of(remote.as_str());
    if has_prefix(&rc, &chars_of("0.0.0.0")) || has_prefix(&rc, &chars_of("127.")) {
        return None;
    }
    Some((local, remote))
}

/// The flow sampled for a counted connection owned by process `pid`.
pub fn connection_flow(
    ts: i64,
    pid: u32,
    local: String,
    remote: String,
    process_name: String,
    process_path: Option<String>,
    row_size: u64,
) -> (r: TrafficFlow)
    ensures
        r@ == (FlowView {
            ts: ts,
            process_name: process_name@,
            process_path: opt_view(process_path),
            pid: Some(pid),
            local_addr: local@,
            remote_addr: remote@,
            protocol: "TCP"@,
            bytes_in: 0,
            bytes_out: 1024,
            nic_id: None,
            host: None,
        }),
{
    TrafficFlow {
        ts,
        process_name,
        process_path,
        pid: Some(pid),
        local_addr: local,
        remote_addr: remote,
        protocol: "TCP".to_owned(),
        bytes_in: 0,
        bytes_out: estimate_bytes(row_size),
        nic_id: None,
        host: None,
    }
}

/// `a + b`, or the largest value where that overflows (`u64::saturating_add`).
pub open spec fn sat_add(a: u64, b: u64) -> u64 {
    if a + b > u64::MAX {
        u64::MAX
    } else {
        (a + b) as u64
    }
}

pub open spec fn same_key(f: FlowView, g: FlowView) -> bool {
    f.process_name == g.process_name && f.remote_addr == g.remote_addr
}

/// The first position at or after `i` of a flow with the key of `f`.
pub open spec fn key_index_from(a: Seq<FlowView>, f: FlowView, i: int) -> Option<int>
    decreases a.len() - i,
{
    if i < 0 || i >= a.len() {
        None
    } else if same_key(a[i], f) {
        Some(i)
    } else {
        key_index_from(a, f, i + 1)
    }
}

/// `g` with the bytes of `f` added.
pub open spec fn merged(g: FlowView, f: FlowView) -> FlowView {
    FlowView {
        bytes_in: sat_add(g.bytes_in, f.bytes_in),
        bytes_out: sat_add(g.bytes_out, f.bytes_out),
        ..g
    }
}

/// The roll-up of the flows: one flow per process name and remote address,
/// in order of first occurrence, the first flow of its key with the bytes
/// of all flows of that key added, saturating.
pub open spec fn rollup(fs: Seq<FlowView>) -> Seq<FlowView>
    decreases fs.len(),
{
    if fs.len() == 0 {
        seq![]
    } else {
        let a = rollup(fs.drop_last());
        let f = fs.last();
        match key_index_from(a, f, 0) {
            Some(j) => a.update(j, merged(a[j], f)),
            None => a.push(f),
        }
    }
}

pub open spec fn total_in(s: Seq<FlowView>) -> nat
    decreases s.len(),
{
    if s.len() == 0 {
        0
    } else {
        total_in(s.drop_last()) + s.last().bytes_in as nat
    }
}

pub open spec fn total_out(s: Seq<FlowView>) -> nat
    decreases s.len(),
{
    if s.len() == 0 {
        0
    } else {
        total_out(s.drop_last()) + s.last().bytes_out as nat
    }
}

proof fn lemma_key_index(a: Seq<FlowView>, f: FlowView, from: int)
    requires
        0 <= from,
    ensures
        key_index_from(a, f, from) matches Some(j) ==> from <= j < a.len() && same_key(a[j], f),
        key_index_from(a, f, from) is None ==> forall|k: int|
            from <= k < a.len() ==> !same_key(#[trigger] a[k], f),
    decreases a.len() - from,
{
    if from < a.len() && !same_key(a[from], f) {
        lemma_key_index(a, f, from + 1);
    }
}

proof fn lemma_total_update(a: Seq<FlowView>, j: int, x: FlowView)
    requires
        0 <= j < a.len(),
    ensures
        total_in(a.update(j, x)) == total_in(a) - a[j].bytes_in + x.bytes_in,
        total_out(a.update(j, x)) == total_out(a) - a[j].bytes_out + x.bytes_out,
        total_in(a) >= a[j].bytes_in,
        total_out(a) >= a[j].bytes_out,
    decreases a.len(),
{
    let b = a.update(j, x);
    if j == a.len() - 1 {
        assert(b.drop_last() =~= a.drop_last());
    } else {
        lemma_total_update(a.drop_last(), j, x);
        assert(b.drop_last() =~= a.drop_last().update(j, x));
    }
}

proof fn lemma_total_push(a: Seq<FlowView>, x: FlowView)
    ensures
        total_in(a.push(x)) == total_in(a) + x.bytes_in,
        total_out(a.push(x)) == total_out(a) + x.bytes_out,
{
    assert(a.push(x).drop_last() =~= a);
}

/// No two flows of a roll-up share a process name and remote address.
pub proof fn lemma_rollup_keys_distinct(fs: Seq<FlowView>)
    ensures
        forall|i: int, j: int|
            0 <= i < j < rollup(fs).len() ==> !same_key(#[trigger] rollup(fs)[i], #[trigger] rollup(fs)[j]),
    decreases fs.len(),
{
    if fs.len() > 0 {
        lemma_rollup_keys_distinct(fs.drop_last());
        let a = rollup(fs.drop_last());
        let f = fs.last();
        lemma_key_index(a, f, 0);
        match key_index_from(a, f, 0) {
            Some(j) => {
                let b = a.update(j, merged(a[j], f));
                assert forall|p: int, q: int| 0 <= p < q < b.len() implies !same_key(#[trigger] b[p], #[trigger] b[q]) by {
                    assert(same_key(b[p], a[p]) && same_key(b[q], a[q]));
                    assert(!same_key(a[p], a[q]));
                }
            },
            None => {
                let b = a.push(f);
                assert forall|p: int, q: int| 0 <= p < q < b.len() implies !same_key(#[trigger] b[p], #[trigger] b[q]) by {
                    if q == a.len() {
                        assert(!same_key(a[p], f));
                    } else {
                        assert(!same_key(a[p], a[q]));
                    }
                }
            },
        }
    }
}

/// Every flow of the sample has its key in the roll-up.
pub proof fn lemma_rollup_covers(fs: Seq<FlowView>)
    ensures
        forall|i: int| 0 <= i < fs.len() ==> exists|j: int|
            0 <= j < rollup(fs).len() && same_key(#[trigger] rollup(fs)[j], #[trigger] fs[i]),
    decreases fs.len(),
{
    if fs.len() > 0 {
        lemma_rollup_covers(fs.drop_last());
        let a = rollup(fs.drop_last());
        let f = fs.last();
        lemma_key_index(a, f, 0);
        let b = rollup(fs);
        assert forall|i: int| 0 <= i < fs.len() implies exists|j: int|
            0 <= j < b.len() && same_key(#[trigger] b[j], #[trigger] fs[i]) by {
            if i == fs.len() - 1 {
                match key_index_from(a, f, 0) {
                    Some(j) => {
                        assert(same_key(b[j], fs[i]));
                    },
                    None => {
                        assert(same_key(b[a.len() as int], fs[i]));
                    },
                }
            } else {
                assert(fs[i] == fs.drop_last()[i]);
                let j = choose|j: int| 0 <= j < a.len() && same_key(#[trigger] a[j], fs.drop_last()[i]);
                assert(same_key(b[j], a[j]));
                assert(same_key(b[j], fs[i]));
            }
        }
    }
}

/// Rolling up loses no bytes where the totals of the sample fit in `u64`.
pub proof fn lemma_rollup_conserves_bytes(fs: Seq<FlowView>)
    requires
        total_in(fs) <= u64::MAX,
        total_out(fs) <= u64::MAX,
    ensures
        total_in(rollup(fs)) == total_in(fs),
        total_out(rollup(fs)) == total_out(fs),
    decreases fs.len(),
{
    if fs.len() > 0 {
        lemma_rollup_conserves_bytes(fs.drop_last());
        let a = rollup(fs.drop_last());
        let f = fs.last();
        lemma_key_index(a, f, 0);
        match key_index_from(a, f, 0) {
            Some(j) => {
                lemma_total_update(a, j, merged(a[j], f));
            },
            None => {
                lemma_total_push(a, f);
            },
        }
    }
}

/// Every flow of a roll-up has the process name and remote address of some
/// flow of the sample.
proof fn lemma_rollup_keys_from_sample(fs: Seq<FlowView>)
    ensures
        forall|j: int| 0 <= j < rollup(fs).len() ==> exists|i: int|
            0 <= i < fs.len() && (#[trigger] rollup(fs)[j]).process_name == fs[i].process_name
                && rollup(fs)[j].remote_addr == fs[i].remote_addr,
    decreases fs.len(),
{
    if fs.len() > 0 {
        let d = fs.drop_last();
        lemma_rollup_keys_from_sample(d);
        let a = rollup(d);
        let f = fs.last();
        lemma_key_index(a, f, 0);
        let b = rollup(fs);
        assert forall|j: int| 0 <= j < b.len() implies exists|i: int|
            0 <= i < fs.len() && (#[trigger] b[j]).process_name == fs[i].process_name
                && b[j].remote_addr == fs[i].remote_addr by {
            if j < a.len() {
                let i = choose|i: int|
                    0 <= i < d.len() && (#[trigger] a[j]).process_name == d[i].process_name
                        && a[j].remote_addr == d[i].remote_addr;
                assert(fs[i] == d[i]);
                assert(b[j].process_name == a[j].process_name && b[j].remote_addr == a[j].remote_addr);
            } else {
                assert(b[j] == f);
                assert(fs[fs.len() - 1] == f);
            }
        }
    }
}

proof fn lemma_rollup_distinct_fields(fs: Seq<FlowView>)
    ensures
        forall|i: int, j: int|
            0 <= i < j < rollup(fs).len() ==> (#[trigger] rollup(fs)[i]).process_name != (
            #[trigger] rollup(fs)[j]).process_name || rollup(fs)[i].remote_addr
                != rollup(fs)[j].remote_addr,
{
    lemma_rollup_keys_distinct(fs);
}

proof fn lemma_rollup_covers_fields(fs: Seq<FlowView>)
    ensures
        forall|i: int| 0 <= i < fs.len() ==> exists|j: int|
            0 <= j < rollup(fs).len() && (#[trigger] rollup(fs)[j]).process_name
                == (#[trigger] fs[i]).process_name && rollup(fs)[j].remote_addr == fs[i].remote_addr,
{
    lemma_rollup_covers(fs);
    let r = rollup(fs);
    assert forall|i: int| 0 <= i < fs.len() implies exists|j: int|
        0 <= j < r.len() && (#[trigger] r[j]).process_name == (#[trigger] fs[i]).process_name
            && r[j].remote_addr == fs[i].remote_addr by {
        let j = choose|j: int| 0 <= j < r.len() && same_key(#[trigger] r[j], #[trigger] fs[i]);
        assert(r[j].process_name == fs[i].process_name && r[j].remote_addr == fs[i].remote_addr);
    }
}

/// A roll-up holds exactly one flow per process name and remote address of
/// the sample: no two of its flows agree on both, every flow of the sample
/// has one that agrees with it on both (whatever its local address, process
/// id or time), and each has the process name and remote address of a flow
/// of the sample.
pub proof fn lemma_rollup_one_flow_per_process_and_remote(fs: Seq<FlowView>)
    ensures
        forall|i: int, j: int|
            0 <= i < j < rollup(fs).len() ==> (#[trigger] rollup(fs)[i]).process_name != (
            #[trigger] rollup(fs)[j]).process_name || rollup(fs)[i].remote_addr
                != rollup(fs)[j].remote_addr,
        forall|i: int| 0 <= i < fs.len() ==> exists|j: int|
            0 <= j < rollup(fs).len() && (#[trigger] rollup(fs)[j]).process_name
                == (#[trigger] fs[i]).process_name && rollup(fs)[j].remote_addr == fs[i].remote_addr,
        forall|j: int| 0 <= j < rollup(fs).len() ==> exists|i: int|
            0 <= i < fs.len() && (#[trigger] rollup(fs)[j]).process_name == fs[i].process_name
                && rollup(fs)[j].remote_addr == fs[i].remote_addr,
{
    lemma_rollup_distinct_fields(fs);
    lemma_rollup_covers_fields(fs);
    lemma_rollup_keys_from_sample(fs);
}

/// The bytes received by the flows of `fs` of the process `name` with the
/// remote address `remote`, added up.
pub open spec fn bytes_in_of(fs: Seq<FlowView>, name: Seq<char>, remote: Seq<char>) -> nat
    decreases fs.len(),
{
    if fs.len() == 0 {
        0
    } else {
        bytes_in_of(fs.drop_last(), name, remote) + if fs.last().process_name == name
            && fs.last().remote_addr == remote {
            fs.last().bytes_in as nat
        } else {
            0nat
        }
    }
}

/// The bytes sent by the flows of `fs` of the process `name` with the
/// remote address `remote`, added up.
pub open spec fn bytes_out_of(fs: Seq<FlowView>, name: Seq<char>, remote: Seq<char>) -> nat
    decreases fs.len(),
{
    if fs.len() == 0 {
        0
    } else {
        bytes_out_of(fs.drop_last(), name, remote) + if fs.last().process_name == name
            && fs.last().remote_addr == remote {
            fs.last().bytes_out as nat
        } else {
            0nat
        }
    }
}

/// `x`, or the largest `u64` where it is larger.
pub open spec fn capped(x: nat) -> int {
    if x > u64::MAX {
        u64::MAX as int
    } else {
        x as int
    }
}

proof fn lemma_no_flow_of_key(fs: Seq<FlowView>, name: Seq<char>, remote: Seq<char>)
    requires
        forall|i: int|
            0 <= i < fs.len() ==> (#[trigger] fs[i]).process_name != name || fs[i].remote_addr != remote,
    ensures
        bytes_in_of(fs, name, remote) == 0,
        bytes_out_of(fs, name, remote) == 0,
    decreases fs.len(),
{
    if fs.len() > 0 {
        let d = fs.drop_last();
        assert forall|i: int| 0 <= i < d.len() implies (#[trigger] d[i]).process_name != name
            || d[i].remote_addr != remote by {
            assert(d[i] == fs[i]);
        }
        lemma_no_flow_of_key(d, name, remote);
        assert(fs.last() == fs[fs.len() - 1]);
    }
}

/// The bytes of each flow of a roll-up are those of all flows of the sample
/// with its process name and remote address, added up (held to the largest
/// `u64` where the sum exceeds it).
pub proof fn lemma_rollup_bytes_per_key(fs: Seq<FlowView>)
    ensures
        forall|j: int|
            0 <= j < rollup(fs).len() ==> (#[trigger] rollup(fs)[j]).bytes_in == capped(
                bytes_in_of(fs, rollup(fs)[j].process_name, rollup(fs)[j].remote_addr),
            ) && rollup(fs)[j].bytes_out == capped(
                bytes_out_of(fs, rollup(fs)[j].process_name, rollup(fs)[j].remote_addr),
            ),
    decreases fs.len(),
{
    if fs.len() > 0 {
        let d = fs.drop_last();
        lemma_rollup_bytes_per_key(d);
        lemma_rollup_keys_distinct(d);
        lemma_rollup_covers(d);
        let a = rollup(d);
        let f = fs.last();
        lemma_key_index(a, f, 0);
        let b = rollup(fs);
        match key_index_from(a, f, 0) {
            Some(k) => {
                assert forall|j: int| 0 <= j < b.len() implies (#[trigger] b[j]).bytes_in == capped(
                    bytes_in_of(fs, b[j].process_name, b[j].remote_addr),
                ) && b[j].bytes_out == capped(
                    bytes_out_of(fs, b[j].process_name, b[j].remote_addr),
                ) by {
                    if j == k {
                        assert(b[j] == merged(a[k], f));
                        assert(b[j].process_name == f.process_name && b[j].remote_addr == f.remote_addr);
                    } else {
                        assert(b[j] == a[j]);
                        if j < k {
                            assert(!same_key(a[j], a[k]));
                        } else {
                            assert(!same_key(a[k], a[j]));
                        }
                    }
                }
            },
            None => {
                assert forall|i: int| 0 <= i < d.len() implies (#[trigger] d[i]).process_name
                    != f.process_name || d[i].remote_addr != f.remote_addr by {
                    let j = choose|j: int| 0 <= j < a.len() && same_key(#[trigger] a[j], #[trigger] d[i]);
                    assert(!same_key(a[j], f));
                }
                lemma_no_flow_of_key(d, f.process_name, f.remote_addr);
                assert forall|j: int| 0 <= j < b.len() implies (#[trigger] b[j]).bytes_in == capped(
                    bytes_in_of(fs, b[j].process_name, b[j].remote_addr),
                ) && b[j].bytes_out == capped(
                    bytes_out_of(fs, b[j].process_name, b[j].remote_addr),
                ) by {
                    if j == a.len() {
                        assert(b[j] == f);
                    } else {
                        assert(b[j] == a[j]);
                        assert(!same_key(a[j], f));
                    }
                }
            },
        }
    }
}

/// `f` with the byte counts `bytes_in` and `bytes_out`.
pub open spec fn with_bytes(f: FlowView, bytes_in: u64, bytes_out: u64) -> FlowView {
    FlowView { bytes_in: bytes_in, bytes_out: bytes_out, ..f }
}

/// The flow at `i` is the first of `fs` of the process `name` with the
/// remote address `remote`.
pub open spec fn first_of_key(fs: Seq<FlowView>, i: int, name: Seq<char>, remote: Seq<char>) -> bool {
    &&& 0 <= i < fs.len()
    &&& fs[i].process_name == name && fs[i].remote_addr == remote
    &&& forall|m: int| 0 <= m < i ==> (#[trigger] fs[m]).process_name != name || fs[m].remote_addr != remote
}

/// Apart from its byte counts, each flow of a roll-up is the first flow of
/// the sample with its process name and remote address: its time, process
/// id and path, local address, protocol, interface and host are that flow's.
#[verifier::rlimit(30)]
pub proof fn lemma_rollup_keeps_first_flow(fs: Seq<FlowView>)
    ensures
        forall|j: int| 0 <= j < rollup(fs).len() ==> exists|i: int|
            #[trigger] first_of_key(fs, i, rollup(fs)[j].process_name, rollup(fs)[j].remote_addr)
                && rollup(fs)[j] == with_bytes(
                fs[i],
                (#[trigger] rollup(fs)[j]).bytes_in,
                rollup(fs)[j].bytes_out,
            ),
    decreases fs.len(),
{
    if fs.len() > 0 {
        let d = fs.drop_last();
        lemma_rollup_keeps_first_flow(d);
        let a = rollup(d);
        let f = fs.last();
        lemma_key_index(a, f, 0);
        let b = rollup(fs);
        assert forall|j: int| 0 <= j < b.len() implies exists|i: int|
            #[trigger] first_of_key(fs, i, b[j].process_name, b[j].remote_addr) && b[j] == with_bytes(
                fs[i],
                (#[trigger] b[j]).bytes_in,
                b[j].bytes_out,
            ) by {
            if j < a.len() {
                let i = choose|i: int|
                    #[trigger] first_of_key(d, i, a[j].process_name, a[j].remote_addr) && a[j] == with_bytes(
                        d[i],
                        a[j].bytes_in,
                        a[j].bytes_out,
                    );
                assert(fs[i] == d[i]);
                assert forall|m: int| 0 <= m < i implies (#[trigger] fs[m]).process_name != a[j].process_name
                    || fs[m].remote_addr != a[j].remote_addr by {
                    assert(fs[m] == d[m]);
                }
                assert(b[j].process_name == a[j].process_name && b[j].remote_addr == a[j].remote_addr);
                assert(first_of_key(fs, i, b[j].process_name, b[j].remote_addr));
                assert(b[j] == with_bytes(fs[i], b[j].bytes_in, b[j].bytes_out));
            } else {
                lemma_rollup_covers(d);
                let i = fs.len() - 1;
                assert(b[j] == f);
                assert(fs[i] == f);
                assert forall|m: int| 0 <= m < i implies (#[trigger] fs[m]).process_name != f.process_name
                    || fs[m].remote_addr != f.remote_addr by {
                    assert(fs[m] == d[m]);
                    let q = choose|q: int| 0 <= q < a.len() && same_key(#[trigger] a[q], #[trigger] d[m]);
                    assert(!same_key(a[q], f));
                }
                assert(first_of_key(fs, i, b[j].process_name, b[j].remote_addr));
                assert(b[j] == with_bytes(fs[i], b[j].bytes_in, b[j].bytes_out));
            }
        }
    }
}

fn copy_flow(f: &TrafficFlow) -> (r: TrafficFlow)
    ensures
        r@ == f@,
{
    TrafficFlow {
        ts: f.ts,
        process_name: f.process_name.clone(),
        process_path: clone_opt_string(&f.process_path),
        pid: f.pid,
        local_addr: f.local_addr.clone(),
        remote_addr: f.remote_addr.clone(),
        protocol: f.protocol.clone(),
        bytes_in: f.bytes_in,
        bytes_out: f.bytes_out,
        nic_id: clone_opt_string(&f.nic_id),
        host: clone_opt_string(&f.host),
    }
}

fn string_eq(a: &String, b: &String) -> (r: bool)
    ensures
        r == (a@ == b@),
{
    crate::text::chars_eq(&chars_of(a.as_str()), &chars_of(b.as_str()))
}

fn find_key(out: &Vec<TrafficFlow>, f: &TrafficFlow) -> (r: Option<usize>)
    ensures
        match r {
            Some(j) => key_index_from(flows_view(out@), f@, 0) == Some(j as int) && j < out@.len(),
            None => key_index_from(flows_view(out@), f@, 0) is None,
        },
{
    let ghost a = flows_view(out@);
    let mut j: usize = 0;
    while j < out.len()
        invariant
            j <= out@.len(),
            a == flows_view(out@),
            key_index_from(a, f@, 0) == key_index_from(a, f@, j as int),
        decreases out.len() - j,
    {
        if string_eq(&out[j].process_name, &f.process_name) && string_eq(
            &out[j].remote_addr,
            &f.remote_addr,
        ) {
            return Some(j);
        }
        j = j + 1;
    }
    None
}

/// Rolls the flows of a sample up per process name and remote address (see `rollup`).
pub fn aggregate_flows(flows: &Vec<TrafficFlow>) -> (r: Vec<TrafficFlow>)
    ensures
        flows_view(r@) == rollup(flows_view(flows@)),
{
    let ghost fs = flows_view(flows@);
    let mut out: Vec<TrafficFlow> = Vec::new();
    let mut i: usize = 0;
    assert(fs.take(0) =~= Seq::<FlowView>::empty());
    assert(flows_view(out@) =~= Seq::<FlowView>::empty());
    while i < flows.len()
        invariant
            i <= flows@.len(),
            fs == flows_view(flows@),
            flows_view(out@) == rollup(fs.take(i as int)),
        decreases flows.len() - i,
    {
        let f = &flows[i];
        let ghost a = flows_view(out@);
        proof {
            assert(fs.take(i + 1).drop_last() =~= fs.take(i as int));
            assert(fs.take(i + 1).last() == f@);
        }
        let pos = find_key(&out, f);
        if let Some(j) = pos {
            let g = &out[j];
            let nf = TrafficFlow {
                ts: g.ts,
                process_name: g.process_name.clone(),
                process_path: clone_opt_string(&g.process_path),
                pid: g.pid,
                local_addr: g.local_addr.clone(),
                remote_addr: g.remote_addr.clone(),
                protocol: g.protocol.clone(),
                bytes_in: g.bytes_in.saturating_add(f.bytes_in),
                bytes_out: g.bytes_out.saturating_add(f.bytes_out),
                nic_id: clone_opt_string(&g.nic_id),
                host: clone_opt_string(&g.host),
            };
            out.set(j, nf);
            assert(flows_view(out@) =~= a.update(j as int, merged(a[j as int], f@)));
        } else {
            out.push(copy_flow(f));
            assert(flows_view(out@) =~= a.push(f@));
        }
        i = i + 1;
    }
    assert(fs.take(flows@.len() as int) =~= fs);
    out
}

} // verus!
