//! The decisions of the collector engine: how often each background loop
//! runs, which probes a tick sends, when a network interface changed link
//! state, what the service reports, and how requests change the settings.

use vstd::prelude::*;
use crate::settings::{AppSettings, CaptureMode, capture_mode_text};
use crate::text::{chars_eq, chars_of, concat, opt_view, string_of, strings_view};
use crate::traffic_full::{DnsQueryRecord, FullCaptureStatus};

verus! {

/// How long each background loop waits between rounds.
#[derive(Debug, Clone, Copy)]
pub struct Schedule {
    pub bandwidth_ms: u64,
    pub ping_secs: u64,
    pub http_secs: u64,
    pub traffic_secs: u64,
    pub prune_secs: u64,
}

pub open spec fn at_least(v: u64, floor: u64) -> u64 {
    if v < floor {
        floor
    } else {
        v
    }
}

/// The waits for the given settings: the configured intervals, raised to
/// 500 ms for bandwidth, 2 s for ping and 5 s for HTTP probes; traffic every
/// 5 s and pruning every hour.
pub fn schedule(settings: &AppSettings) -> (r: Schedule)
    ensures
        r.bandwidth_ms == at_least(settings.bandwidth_interval_ms, 500),
        r.ping_secs == at_least(settings.ping_interval_secs, 2),
        r.http_secs == at_least(settings.http_interval_secs, 5),
        r.traffic_secs == 5,
        r.prune_secs == 3600,
{
    Schedule {
        bandwidth_ms: if settings.bandwidth_interval_ms < 500 {
            500
        } else {
            settings.bandwidth_interval_ms
        },
        ping_secs: if settings.ping_interval_secs < 2 {
            2
        } else {
            settings.ping_interval_secs
        },
        http_secs: if settings.http_interval_secs < 5 {
            5
        } else {
            settings.http_interval_secs
        },
        traffic_secs: 5,
        prune_secs: 3600,
    }
}

/// A change of link state of a network interface.
#[derive(Debug)]
pub struct LinkEvent {
    pub nic_id: String,
    pub ts: i64,
    pub event: String,
    pub detail: Option<String>,
}

/// The last operational status seen of each network interface.
pub struct LinkTracker {
    entries: Vec<(String, String)>,
}

pub open spec fn entry_keys_unique(e: Seq<(String, String)>) -> bool {
    forall|i: int, j: int| 0 <= i < j < e.len() ==> #[trigger] e[i].0@ != #[trigger] e[j].0@
}

pub open spec fn entries_map(e: Seq<(String, String)>) -> Map<Seq<char>, Seq<char>>
    decreases e.len(),
{
    if e.len() == 0 {
        Map::empty()
    } else {
        entries_map(e.drop_last()).insert(e.last().0@, e.last().1@)
    }
}

/// The event a status change gives: `connected` when the new status is
/// `Up`, else `disconnected`, with the detail `old -> new`.
pub open spec fn link_event_kind(status: Seq<char>) -> Seq<char> {
    if status == "Up"@ {
        "connected"@
    } else {
        "disconnected"@
    }
}

pub open spec fn link_detail(prev: Seq<char>, status: Seq<char>) -> Seq<char> {
    prev + " -> "@ + status
}

impl LinkTracker {
    #[verifier::type_invariant]
    spec fn inv(self) -> bool {
        entry_keys_unique(self.entries@)
    }

    /// The last status of each interface seen.
    pub closed spec fn view(self) -> Map<Seq<char>, Seq<char>> {
        entries_map(self.entries@)
    }

    pub fn new() -> (r: Self)
        ensures
            r.view() == Map::<Seq<char>, Seq<char>>::empty(),
    {
        LinkTracker { entries: Vec::new() }
    }

    proof fn lemma_map_index(e: Seq<(String, String)>, i: int)
        requires
            entry_keys_unique(e),
            0 <= i < e.len(),
        ensures
            entries_map(e).contains_key(e[i].0@),
            entries_map(e)[e[i].0@] == e[i].1@,
        decreases e.len(),
    {
        if i < e.len() - 1 {
            Self::lemma_map_index(e.drop_last(), i);
            assert(e.drop_last()[i] == e[i]);
        }
    }

    proof fn lemma_map_absent(e: Seq<(String, String)>, k: Seq<char>)
        requires
            forall|i: int| 0 <= i < e.len() ==> #[trigger] e[i].0@ != k,
        ensures
            !entries_map(e).contains_key(k),
        decreases e.len(),
    {
        if e.len() > 0 {
            assert forall|i: int| 0 <= i < e.len() - 1 implies #[trigger] e.drop_last()[i].0@ != k by {
                assert(e.drop_last()[i] == e[i]);
            }
            Self::lemma_map_absent(e.drop_last(), k);
        }
    }

    proof fn lemma_map_update(e: Seq<(String, String)>, i: int, v: (String, String))
        requires
            entry_keys_unique(e),
            0 <= i < e.len(),
            v.0@ == e[i].0@,
        ensures
            entries_map(e.update(i, v)) == entries_map(e).insert(v.0@, v.1@),
            entry_keys_unique(e.update(i, v)),
        decreases e.len(),
    {
        let u = e.update(i, v);
        if i == e.len() - 1 {
            assert(u.drop_last() =~= e.drop_last());
            assert(entries_map(u) =~= entries_map(e).insert(v.0@, v.1@));
        } else {
            Self::lemma_map_update(e.drop_last(), i, v);
            assert(u.drop_last() =~= e.drop_last().update(i, v));
            assert(e.last().0@ != v.0@);
            assert(entries_map(u) =~= entries_map(e).insert(v.0@, v.1@));
        }
        assert forall|p: int, q: int| 0 <= p < q < u.len() implies #[trigger] u[p].0@ != #[trigger] u[q].0@ by {
            if p == i {
                assert(e[q].0@ != e[i].0@);
            } else if q == i {
                assert(e[p].0@ != e[i].0@);
            } else {
                assert(e[p].0@ != e[q].0@);
            }
        }
    }

    fn find(&self, nic_id: &Vec<char>) -> (r: Option<usize>)
        ensures
            match r {
                Some(i) => i < self.entries@.len() && self.entries@[i as int].0@ == nic_id@,
                None => forall|i: int|
                    0 <= i < self.entries@.len() ==> #[trigger] self.entries@[i].0@ != nic_id@,
            },
    {
        let mut i: usize = 0;
        while i < self.entries.len()
            invariant
                i <= self.entries@.len(),
                forall|k: int| 0 <= k < i ==> #[trigger] self.entries@[k].0@ != nic_id@,
            decreases self.entries.len() - i,
        {
            if chars_eq(&chars_of(self.entries[i].0.as_str()), nic_id) {
                return Some(i);
            }
            i = i + 1;
        }
        None
    }

    /// Records the status just read of an interface. When a different status
    /// was seen before, the change is returned as an event at time `ts`.
    pub fn observe(&mut self, nic_id: &str, status: &str, ts: i64) -> (r: Option<LinkEvent>)
        ensures
            final(self).view() == old(self).view().insert(nic_id@, status@),
            match r {
                Some(e) => old(self).view().contains_key(nic_id@) && old(self).view()[nic_id@]
                    != status@ && e.nic_id@ == nic_id@ && e.ts == ts && e.event@
                    == link_event_kind(status@) && e.detail == Some(e.detail->0)
                    && e.detail->0@ == link_detail(old(self).view()[nic_id@], status@),
                None => !old(self).view().contains_key(nic_id@) || old(self).view()[nic_id@]
                    == status@,
            },
    {
        proof {
            use_type_invariant(&*self);
        }
        let id = chars_of(nic_id);
        let st = chars_of(status);
        match self.find(&id) {
            Some(i) => {
                proof {
                    Self::lemma_map_index(self.entries@, i as int);
                }
                let prev = self.entries[i].1.clone();
                let changed = !chars_eq(&chars_of(prev.as_str()), &st);
                let ev = if changed {
                    let kind = if chars_eq(&st, &chars_of("Up")) {
                        "connected"
                    } else {
                        "disconnected"
                    };
                    let with_arrow = concat(prev.as_str(), " -> ");
                    Some(
                        LinkEvent {
                            nic_id: nic_id.to_owned(),
                            ts,
                            event: kind.to_owned(),
                            detail: Some(concat(with_arrow.as_str(), status)),
                        },
                    )
                } else {
                    None
                };
                let ghost e0 = self.entries@;
                let new_entry = (nic_id.to_owned(), status.to_owned());
                assert(new_entry.0@ == e0[i as int].0@);
                proof {
                    Self::lemma_map_update(e0, i as int, new_entry);
                }
                let mut e: Vec<(String, String)> = Vec::new();
                std::mem::swap(&mut e, &mut self.entries);
                e.set(i, new_entry);
                self.entries = e;
                ev
            },
            None => {
                proof {
                    Self::lemma_map_absent(self.entries@, nic_id@);
                }
                let ghost e0 = self.entries@;
                let mut e: Vec<(String, String)> = Vec::new();
                std::mem::swap(&mut e, &mut self.entries);
                e.push((nic_id.to_owned(), status.to_owned()));
                proof {
                    let e1 = e@;
                    assert(e1.drop_last() =~= e0);
                    assert forall|p: int, q: int| 0 <= p < q < e1.len() implies #[trigger] e1[p].0@
                        != #[trigger] e1[q].0@ by {
                        if q == e0.len() {
                            assert(e0[p].0@ != nic_id@);
                        } else {
                            assert(e0[p].0@ != e0[q].0@);
                        }
                    }
                }
                self.entries = e;
                None
            },
        }
    }
}

/// What the collector needs to know of a network interface to probe through it.
#[derive(Debug)]
pub struct NicState {
    pub id: String,
    pub oper_status: String,
    pub media_type: String,
    pub first_ipv4: Option<String>,
}

pub struct NicView {
    pub id: Seq<char>,
    pub oper_status: Seq<char>,
    pub media_type: Seq<char>,
    pub first_ipv4: Option<Seq<char>>,
}

impl View for NicState {
    type V = NicView;

    open spec fn view(&self) -> NicView {
        NicView {
            id: self.id@,
            oper_status: self.oper_status@,
            media_type: self.media_type@,
            first_ipv4: opt_view(self.first_ipv4),
        }
    }
}

/// One ICMP probe: the target, and the interface and source address it is sent through.
#[derive(Debug)]
pub struct PingJob {
    pub target: String,
    pub nic_id: Option<String>,
    pub source_ip: Option<String>,
}

pub struct PingJobView {
    pub target: Seq<char>,
    pub nic_id: Option<Seq<char>>,
    pub source_ip: Option<Seq<char>>,
}

impl View for PingJob {
    type V = PingJobView;

    open spec fn view(&self) -> PingJobView {
        PingJobView {
            target: self.target@,
            nic_id: opt_view(self.nic_id),
            source_ip: opt_view(self.source_ip),
        }
    }
}

/// An interface that is up and not a loopback one.
pub open spec fn probe_capable(n: NicView) -> bool {
    n.oper_status == "Up"@ && n.media_type != "Loopback"@
}

/// The interfaces that probes go through, in order.
pub open spec fn capable_nics(ns: Seq<NicView>) -> Seq<NicView>
    decreases ns.len(),
{
    if ns.len() == 0 {
        seq![]
    } else if probe_capable(ns.last()) {
        capable_nics(ns.drop_last()).push(ns.last())
    } else {
        capable_nics(ns.drop_last())
    }
}

/// The probes towards one target: one through each capable interface from
/// its first IPv4 address, or a single unbound one when there is none.
pub open spec fn target_jobs(t: Seq<char>, ups: Seq<NicView>) -> Seq<PingJobView> {
    if ups.len() == 0 {
        seq![PingJobView { target: t, nic_id: None, source_ip: None }]
    } else {
        bound_jobs(t, ups)
    }
}

/// The probes towards `t`, one through each of the interfaces `ups`.
pub open spec fn bound_jobs(t: Seq<char>, ups: Seq<NicView>) -> Seq<PingJobView> {
    ups.map_values(|n: NicView| PingJobView { target: t, nic_id: Some(n.id), source_ip: n.first_ipv4 })
}

/// The probes of a ping tick: for each target in order, its probes.
pub open spec fn ping_plan(ts: Seq<Seq<char>>, ups: Seq<NicView>) -> Seq<PingJobView>
    decreases ts.len(),
{
    if ts.len() == 0 {
        seq![]
    } else {
        ping_plan(ts.drop_last(), ups) + target_jobs(ts.last(), ups)
    }
}

proof fn lemma_capable_nics(ns: Seq<NicView>)
    ensures
        forall|j: int|
            0 <= j < capable_nics(ns).len() ==> probe_capable(#[trigger] capable_nics(ns)[j])
                && ns.contains(capable_nics(ns)[j]),
        forall|k: int|
            0 <= k < ns.len() && probe_capable(#[trigger] ns[k]) ==> capable_nics(ns).contains(ns[k]),
    decreases ns.len(),
{
    if ns.len() > 0 {
        let d = ns.drop_last();
        lemma_capable_nics(d);
        let a = capable_nics(d);
        let c = capable_nics(ns);
        assert forall|j: int| 0 <= j < c.len() implies probe_capable(#[trigger] c[j]) && ns.contains(
            c[j],
        ) by {
            if j < a.len() {
                assert(c[j] == a[j]);
                assert(d.contains(a[j]));
                let k = choose|k: int| 0 <= k < d.len() && d[k] == a[j];
                assert(ns[k] == d[k]);
            } else {
                assert(c[j] == ns[ns.len() - 1]);
            }
        }
        assert forall|k: int| 0 <= k < ns.len() && probe_capable(#[trigger] ns[k]) implies c.contains(
            ns[k],
        ) by {
            if k < d.len() {
                assert(ns[k] == d[k]);
                assert(probe_capable(d[k]));
                assert(a.contains(d[k]));
                let j = choose|j: int| 0 <= j < a.len() && a[j] == d[k];
                assert(c[j] == a[j]);
            } else {
                assert(c[a.len() as int] == ns[k]);
            }
        }
    }
}

/// The probe towards `t` through the interface `n`, from its first IPv4 address.
pub open spec fn probe_through(t: Seq<char>, n: NicView) -> PingJobView {
    PingJobView { target: t, nic_id: Some(n.id), source_ip: n.first_ipv4 }
}

/// A probe bound to an interface goes through one of `ups`, from its first
/// IPv4 address; an unbound one only where `ups` is empty.
spec fn bound_through_one_of(job: PingJobView, ups: Seq<NicView>) -> bool {
    match job.nic_id {
        Some(id) => exists|j: int|
            0 <= j < ups.len() && (#[trigger] ups[j]).id == id && job.source_ip == ups[j].first_ipv4,
        None => ups.len() == 0,
    }
}

proof fn lemma_ping_plan_origin(ts: Seq<Seq<char>>, ups: Seq<NicView>)
    ensures
        forall|i: int|
            0 <= i < ping_plan(ts, ups).len() ==> ts.contains((#[trigger] ping_plan(ts, ups)[i]).target)
                && bound_through_one_of(ping_plan(ts, ups)[i], ups),
    decreases ts.len(),
{
    if ts.len() > 0 {
        let d = ts.drop_last();
        lemma_ping_plan_origin(d, ups);
        let a = ping_plan(d, ups);
        let b = target_jobs(ts.last(), ups);
        let p = ping_plan(ts, ups);
        assert(p == a + b);
        assert forall|i: int| 0 <= i < p.len() implies ts.contains((#[trigger] p[i]).target)
            && bound_through_one_of(p[i], ups) by {
            if i < a.len() {
                assert(p[i] == a[i]);
                assert(d.contains(a[i].target));
                let t = choose|t: int| 0 <= t < d.len() && d[t] == a[i].target;
                assert(ts[t] == d[t]);
            } else {
                let q = i - a.len();
                assert(p[i] == b[q]);
                assert(ts[ts.len() - 1] == ts.last());
                if ups.len() > 0 {
                    assert(b[q] == probe_through(ts.last(), ups[q]));
                    assert(ups[q].id == ups[q].id);
                }
            }
        }
    }
}

proof fn lemma_ping_plan_complete(ts: Seq<Seq<char>>, ups: Seq<NicView>)
    ensures
        forall|t: int, j: int|
            0 <= t < ts.len() && 0 <= j < ups.len() ==> ping_plan(ts, ups).contains(
                probe_through(#[trigger] ts[t], #[trigger] ups[j]),
            ),
    decreases ts.len(),
{
    if ts.len() > 0 {
        let d = ts.drop_last();
        lemma_ping_plan_complete(d, ups);
        let a = ping_plan(d, ups);
        let b = target_jobs(ts.last(), ups);
        let p = ping_plan(ts, ups);
        assert(p == a + b);
        assert forall|t: int, j: int| 0 <= t < ts.len() && 0 <= j < ups.len() implies p.contains(
            probe_through(#[trigger] ts[t], #[trigger] ups[j]),
        ) by {
            if t < d.len() {
                assert(ts[t] == d[t]);
                assert(a.contains(probe_through(d[t], ups[j])));
                let i = choose|i: int| 0 <= i < a.len() && a[i] == probe_through(d[t], ups[j]);
                assert(p[i] == a[i]);
            } else {
                assert(p[a.len() + j] == b[j]);
                assert(b[j] == probe_through(ts.last(), ups[j]));
            }
        }
    }
}

proof fn lemma_ping_plan_unbound(ts: Seq<Seq<char>>, ups: Seq<NicView>)
    requires
        ups.len() == 0,
    ensures
        ping_plan(ts, ups).len() == ts.len(),
        forall|i: int|
            0 <= i < ts.len() ==> (#[trigger] ping_plan(ts, ups)[i]).target == ts[i] && ping_plan(
                ts,
                ups,
            )[i].nic_id is None && ping_plan(ts, ups)[i].source_ip is None,
    decreases ts.len(),
{
    if ts.len() > 0 {
        let d = ts.drop_last();
        lemma_ping_plan_unbound(d, ups);
        let p = ping_plan(ts, ups);
        let a = ping_plan(d, ups);
        assert(p == a + target_jobs(ts.last(), ups));
        assert forall|i: int| 0 <= i < ts.len() implies (#[trigger] p[i]).target == ts[i] && p[i].nic_id is None
            && p[i].source_ip is None by {
            if i < d.len() {
                assert(p[i] == a[i]);
                assert(d[i] == ts[i]);
            }
        }
    }
}

/// Where no interface is up (or only loopback ones are), a ping tick sends
/// one unbound probe towards each target, in order.
pub proof fn lemma_pings_unbound_without_up_interfaces(ts: Seq<Seq<char>>, ns: Seq<NicView>)
    requires
        forall|k: int|
            0 <= k < ns.len() ==> (#[trigger] ns[k]).oper_status != "Up"@ || ns[k].media_type == "Loopback"@,
    ensures
        ping_plan(ts, capable_nics(ns)).len() == ts.len(),
        forall|i: int|
            0 <= i < ts.len() ==> (#[trigger] ping_plan(ts, capable_nics(ns))[i]).target == ts[i]
                && ping_plan(ts, capable_nics(ns))[i].nic_id is None && ping_plan(
                ts,
                capable_nics(ns),
            )[i].source_ip is None,
{
    lemma_capable_nics(ns);
    let c = capable_nics(ns);
    if c.len() > 0 {
        assert(probe_capable(c[0]) && ns.contains(c[0]));
        let k = choose|k: int| 0 <= k < ns.len() && ns[k] == c[0];
        assert(ns[k].oper_status != "Up"@ || ns[k].media_type == "Loopback"@);
    }
    lemma_ping_plan_unbound(ts, c);
}

/// A ping tick probes only through interfaces that are up: every probe
/// bound to an interface names one of the given interfaces whose status is
/// exactly `Up` and whose medium is not `Loopback`, and is sent from its
/// first IPv4 address; every such interface gets a probe towards every
/// target; and every probe goes towards one of the targets.
pub proof fn lemma_pings_only_through_up_interfaces(ts: Seq<Seq<char>>, ns: Seq<NicView>)
    ensures
        forall|i: int|
            0 <= i < ping_plan(ts, capable_nics(ns)).len() && (#[trigger] ping_plan(
                ts,
                capable_nics(ns),
            )[i]).nic_id is Some ==> exists|k: int|
                0 <= k < ns.len() && Some(ns[k].id) == ping_plan(ts, capable_nics(ns))[i].nic_id
                    && ns[k].oper_status == "Up"@ && ns[k].media_type != "Loopback"@ && ping_plan(
                    ts,
                    capable_nics(ns),
                )[i].source_ip == ns[k].first_ipv4,
        forall|t: int, k: int|
            0 <= t < ts.len() && 0 <= k < ns.len() && (#[trigger] ns[k]).oper_status == "Up"@
                && ns[k].media_type != "Loopback"@ ==> ping_plan(ts, capable_nics(ns)).contains(
                probe_through(#[trigger] ts[t], ns[k]),
            ),
        forall|i: int|
            0 <= i < ping_plan(ts, capable_nics(ns)).len() ==> ts.contains(
                (#[trigger] ping_plan(ts, capable_nics(ns))[i]).target,
            ),
{
    let ups = capable_nics(ns);
    let p = ping_plan(ts, ups);
    lemma_capable_nics(ns);
    lemma_ping_plan_origin(ts, ups);
    lemma_ping_plan_complete(ts, ups);
    assert forall|i: int| 0 <= i < p.len() && (#[trigger] p[i]).nic_id is Some implies exists|k: int|
        0 <= k < ns.len() && Some(ns[k].id) == p[i].nic_id && ns[k].oper_status == "Up"@
            && ns[k].media_type != "Loopback"@ && p[i].source_ip == ns[k].first_ipv4 by {
        assert(bound_through_one_of(p[i], ups));
        let id = p[i].nic_id->0;
        let j = choose|j: int|
            0 <= j < ups.len() && (#[trigger] ups[j]).id == id && p[i].source_ip == ups[j].first_ipv4;
        assert(probe_capable(ups[j]) && ns.contains(ups[j]));
        let k = choose|k: int| 0 <= k < ns.len() && ns[k] == ups[j];
        assert(ns[k].id == id);
    }
    assert forall|t: int, k: int|
        0 <= t < ts.len() && 0 <= k < ns.len() && (#[trigger] ns[k]).oper_status == "Up"@
            && ns[k].media_type != "Loopback"@ implies p.contains(probe_through(#[trigger] ts[t], ns[k])) by {
        assert(probe_capable(ns[k]));
        assert(ups.contains(ns[k]));
        let j = choose|j: int| 0 <= j < ups.len() && ups[j] == ns[k];
        assert(p.contains(probe_through(ts[t], ups[j])));
    }
}

pub open spec fn nics_view(v: Seq<NicState>) -> Seq<NicView> {
    v.map_values(|n: NicState| n@)
}

pub open spec fn jobs_view(v: Seq<PingJob>) -> Seq<PingJobView> {
    v.map_values(|j: PingJob| j@)
}

fn is_probe_capable(n: &NicState) -> (r: bool)
    ensures
        r == probe_capable(n@),
{
    let st = chars_of(n.oper_status.as_str());
    let mt = chars_of(n.media_type.as_str());
    chars_eq(&st, &chars_of("Up")) && !chars_eq(&mt, &chars_of("Loopback"))
}

/// The probes of one ping tick over the targets and the interfaces.
pub fn plan_pings(targets: &Vec<String>, nics: &Vec<NicState>) -> (r: Vec<PingJob>)
    ensures
        jobs_view(r@) == ping_plan(strings_view(targets@), capable_nics(nics_view(nics@))),
{
    let ghost nv = nics_view(nics@);
    let mut ups: Vec<usize> = Vec::new();
    let mut i: usize = 0;
    assert(nv.take(0) =~= Seq::<NicView>::empty());
    while i < nics.len()
        invariant
            i <= nics@.len(),
            nv == nics_view(nics@),
            forall|k: int| 0 <= k < ups@.len() ==> #[trigger] ups@[k] < nics@.len(),
            ups@.map_values(|k: usize| nv[k as int]) == capable_nics(nv.take(i as int)),
        decreases nics.len() - i,
    {
        assert(nv.take(i + 1).drop_last() =~= nv.take(i as int));
        assert(nv.take(i + 1).last() == nics@[i as int]@);
        let ghost before = ups@;
        if is_probe_capable(&nics[i]) {
            ups.push(i);
            assert(ups@.map_values(|k: usize| nv[k as int]) =~= before.map_values(
                |k: usize| nv[k as int],
            ).push(nv[i as int]));
        }
        i = i + 1;
    }
    assert(nv.take(nics@.len() as int) =~= nv);
    let ghost upv = capable_nics(nv);
    let ghost tv = strings_view(targets@);
    let mut jobs: Vec<PingJob> = Vec::new();
    let mut t: usize = 0;
    assert(tv.take(0) =~= Seq::<Seq<char>>::empty());
    assert(jobs_view(jobs@) =~= Seq::<PingJobView>::empty());
    while t < targets.len()
        invariant
            t <= targets@.len(),
            tv == strings_view(targets@),
            nv == nics_view(nics@),
            forall|k: int| 0 <= k < ups@.len() ==> #[trigger] ups@[k] < nics@.len(),
            ups@.map_values(|k: usize| nv[k as int]) == upv,
            jobs_view(jobs@) == ping_plan(tv.take(t as int), upv),
        decreases targets.len() - t,
    {
        assert(tv.take(t + 1).drop_last() =~= tv.take(t as int));
        assert(tv.take(t + 1).last() == targets@[t as int]@);
        let ghost before = jobs_view(jobs@);
        let target = &targets[t];
        if ups.len() == 0 {
            jobs.push(PingJob { target: target.clone(), nic_id: None, source_ip: None });
            assert(jobs_view(jobs@) =~= before + target_jobs(target@, upv));
        } else {
            let mut u: usize = 0;
            assert(bound_jobs(target@, upv.take(0)) =~= Seq::<PingJobView>::empty());
            assert(jobs_view(jobs@) =~= before + bound_jobs(target@, upv.take(0)));
            while u < ups.len()
                invariant
                    u <= ups@.len(),
                    ups@.len() > 0,
                    nv == nics_view(nics@),
                    forall|k: int| 0 <= k < ups@.len() ==> #[trigger] ups@[k] < nics@.len(),
                    ups@.map_values(|k: usize| nv[k as int]) == upv,
                    jobs_view(jobs@) == before + bound_jobs(target@, upv.take(u as int)),
                decreases ups.len() - u,
            {
                let n = &nics[ups[u]];
                let ghost prev = jobs_view(jobs@);
                assert(upv[u as int] == n@);
                jobs.push(
                    PingJob {
                        target: target.clone(),
                        nic_id: Some(n.id.clone()),
                        source_ip: crate::settings::clone_opt_string(&n.first_ipv4),
                    },
                );
                let ghost job = PingJobView {
                    target: target@,
                    nic_id: Some(n.id@),
                    source_ip: opt_view(n.first_ipv4),
                };
                assert(jobs_view(jobs@) =~= prev.push(job));
                assert(bound_jobs(target@, upv.take(u + 1)) =~= bound_jobs(target@, upv.take(u as int)).push(job));
                assert(jobs_view(jobs@) =~= before + bound_jobs(target@, upv.take(u + 1)));
                u = u + 1;
            }
            assert(upv.take(ups@.len() as int) =~= upv);
        }
        t = t + 1;
    }
    assert(tv.take(targets@.len() as int) =~= tv);
    jobs
}

/// What the service reports of itself.
#[derive(Debug)]
pub struct ServiceStatus {
    pub running: bool,
    pub pipe_connected: bool,
    pub capture_mode: String,
    pub message: String,
}

/// The status reported: running or stopped, the capture mode, and the
/// message of full capture in full mode, else a note on process capture.
pub fn service_status(mode: CaptureMode, full: &FullCaptureStatus, running: bool) -> (r:
    ServiceStatus)
    ensures
        r.running == running,
        r.pipe_connected,
        r.capture_mode@ == capture_mode_text(mode),
        r.message@ == (if mode == CaptureMode::Full {
            full.message@
        } else {
            "Process capture mode"@
        }),
{
    let message = if mode == CaptureMode::Full {
        full.message.clone()
    } else {
        "Process capture mode".to_owned()
    };
    ServiceStatus {
        running,
        pipe_connected: true,
        capture_mode: mode.as_str().to_owned(),
        message,
    }
}

/// The settings with another capture mode.
pub fn with_capture_mode(s: &AppSettings, mode: CaptureMode) -> (r: AppSettings)
    ensures
        r@ == (crate::settings::SettingsView { capture_mode: mode, ..s@ }),
{
    let mut r = s.duplicate();
    r.capture_mode = mode;
    r
}

/// The settings with the speed-test licence accepted.
pub fn with_eula_accepted(s: &AppSettings) -> (r: AppSettings)
    ensures
        r@ == (crate::settings::SettingsView { speedtest_eula_accepted: true, ..s@ }),
{
    let mut r = s.duplicate();
    r.speedtest_eula_accepted = true;
    r
}

/// What a speed-test request leads to.
#[derive(Debug)]
pub enum SpeedtestGate {
    /// Refused with this message: the licence has not been accepted.
    Refuse(String),
    /// Run the tool (with the licence flags) at the configured path, after
    /// saving the settings given, if any.
    Run { save: Option<AppSettings>, cli_path: Option<String> },
}

/// A speed test runs once the licence has been accepted, earlier or with
/// this request; accepting with the request saves the acceptance first.
pub fn speedtest_gate(s: &AppSettings, accept_eula: bool) -> (r: SpeedtestGate)
    ensures
        match r {
            SpeedtestGate::Refuse(m) => !s.speedtest_eula_accepted && !accept_eula && m@
                == "Accept Ookla Speedtest EULA/GDPR first"@,
            SpeedtestGate::Run { save, cli_path } => (s.speedtest_eula_accepted || accept_eula)
                && opt_view(cli_path) == opt_view(s.speedtest_cli_path) && match save {
                Some(n) => accept_eula && n@ == (crate::settings::SettingsView {
                    speedtest_eula_accepted: true,
                    ..s@
                }),
                None => !accept_eula,
            },
        },
{
    if accept_eula {
        let n = with_eula_accepted(s);
        let cli = crate::settings::clone_opt_string(&n.speedtest_cli_path);
        return SpeedtestGate::Run { save: Some(n), cli_path: cli };
    }
    if !s.speedtest_eula_accepted {
        return SpeedtestGate::Refuse("Accept Ookla Speedtest EULA/GDPR first".to_owned());
    }
    SpeedtestGate::Run { save: None, cli_path: crate::settings::clone_opt_string(&s.speedtest_cli_path) }
}

/// The hop limit of a traceroute request: 30 unless one is given.
pub fn traceroute_hops(max_hops: Option<u8>) -> (r: u8)
    ensures
        r == match max_hops {
            Some(h) => h,
            None => 30u8,
        },
{
    match max_hops {
        Some(h) => h,
        None => 30,
    }
}

/// The host record a DNS cache entry adds: its name with its first address.
pub fn host_of_record(d: &DnsQueryRecord) -> (r: Option<(String, String)>)
    ensures
        match r {
            Some((h, ip)) => d.resolved_ips@.len() > 0 && h@ == d.name@ && ip@
                == d.resolved_ips@[0]@,
            None => d.resolved_ips@.len() == 0,
        },
{
    if d.resolved_ips.len() > 0 {
        Some((d.name.clone(), d.resolved_ips[0].clone()))
    } else {
        None
    }
}

/// Finds an interface among those known by its id: the first with that id,
/// or the error message naming the id.
pub fn nic_lookup(ids: &Vec<String>, nic_id: &str) -> (r: Result<usize, String>)
    ensures
        match r {
            Ok(i) => i < ids@.len() && ids@[i as int]@ == nic_id@ && forall|k: int|
                0 <= k < i ==> #[trigger] ids@[k]@ != nic_id@,
            Err(m) => m@ == "NIC not found: "@ + nic_id@ && forall|k: int|
                0 <= k < ids@.len() ==> #[trigger] ids@[k]@ != nic_id@,
        },
{
    let id = chars_of(nic_id);
    let mut i: usize = 0;
    while i < ids.len()
        invariant
            i <= ids@.len(),
            id@ == nic_id@,
            forall|k: int| 0 <= k < i ==> #[trigger] ids@[k]@ != nic_id@,
        decreases ids.len() - i,
    {
        if chars_eq(&chars_of(ids[i].as_str()), &id) {
            return Ok(i);
        }
        i = i + 1;
    }
    Err(concat("NIC not found: ", nic_id))
}

} // verus!
