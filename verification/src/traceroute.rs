//! Traceroute: the command line given to `tracert` and the parser of its output.

use vstd::prelude::*;
use crate::numfmt::{dec, dec_chars, is_float_chars, is_float_text, parse_u8_chars, parse_unsigned};
use crate::text::{
    chars_eq, chars_of, contains_char, ends_with, has_suffix, lines, lines_of, opt_view,
    remove_char, remove_char_chars, rows, string_of, strings_view, trim, trim_chars,
    trim_end_str, trim_end_str_chars, words, words_of,
};

verus! {

/// One hop of a traceroute. The round-trip time is kept as the text of the
/// number `tracert` printed; `str::parse::<f64>` accepts every such text.
#[derive(Debug)]
pub struct TracerouteHop {
    pub hop: u8,
    pub address: Option<String>,
    pub hostname: Option<String>,
    pub rtt_ms: Option<String>,
}

pub struct HopView {
    pub hop: u8,
    pub address: Option<Seq<char>>,
    pub hostname: Option<Seq<char>>,
    pub rtt_ms: Option<Seq<char>>,
}

impl View for TracerouteHop {
    type V = HopView;

    open spec fn view(&self) -> HopView {
        HopView {
            hop: self.hop,
            address: opt_view(self.address),
            hostname: opt_view(self.hostname),
            rtt_ms: opt_view(self.rtt_ms),
        }
    }
}

/// A traceroute run towards `target`.
#[derive(Debug)]
pub struct TracerouteResult {
    pub id: i64,
    pub nic_id: Option<String>,
    pub target: String,
    pub ts: i64,
    pub hops: Vec<TracerouteHop>,
}

pub open spec fn hops_view(v: Seq<TracerouteHop>) -> Seq<HopView> {
    v.map_values(|h: TracerouteHop| h@)
}

/// The number a round-trip token such as `12ms` or `<1ms` carries.
pub open spec fn rtt_candidate(p: Seq<char>) -> Seq<char> {
    remove_char(trim_end_str(p, "ms"@), '<')
}

/// The round-trip time the token at position `k` of `parts` gives: a
/// token such as `12ms` or `<1ms` carries it, and so does a number such as
/// `12` or `<1` followed by a separate `ms` token.
pub open spec fn token_rtt(parts: Seq<Seq<char>>, k: int) -> Option<Seq<char>> {
    let p = parts[k];
    if ends_with(p, "ms"@) {
        if is_float_text(rtt_candidate(p)) {
            Some(rtt_candidate(p))
        } else {
            None
        }
    } else if k + 1 < parts.len() && parts[k + 1] == "ms"@ && is_float_text(remove_char(p, '<')) {
        Some(remove_char(p, '<'))
    } else {
        None
    }
}

/// The token at position `k` is the hop's address: it is no time, no `*`,
/// and holds a `.` or a `:`.
pub open spec fn token_address(parts: Seq<Seq<char>>, k: int) -> bool {
    let p = parts[k];
    &&& token_rtt(parts, k) is None
    &&& !(p == "*"@ || p == "<1"@ || ends_with(p, "ms"@))
    &&& (p.contains('.') || p.contains(':'))
}

/// Round-trip time and address after reading the first `n` tokens of `parts`;
/// the last of each wins.
pub open spec fn fields_upto(parts: Seq<Seq<char>>, n: int) -> (Option<Seq<char>>, Option<Seq<char>>)
    decreases n,
{
    if n <= 0 {
        (None, None)
    } else {
        let (rtt, address) = fields_upto(parts, n - 1);
        (
            match token_rtt(parts, n - 1) {
                Some(t) => Some(t),
                None => rtt,
            },
            if token_address(parts, n - 1) {
                Some(parts[n - 1])
            } else {
                address
            },
        )
    }
}

/// Round-trip time and address of a hop line, from its tokens after the hop number.
pub open spec fn hop_fields(parts: Seq<Seq<char>>) -> (Option<Seq<char>>, Option<Seq<char>>) {
    fields_upto(parts, parts.len() as int)
}

/// The hop a line of `tracert` output describes, if its first token is a hop number.
pub open spec fn line_hop(line: Seq<char>) -> Option<HopView> {
    let parts = words(trim(line));
    if parts.len() == 0 {
        None
    } else {
        match parse_unsigned(parts[0], 255) {
            Some(h) => {
                let (rtt, address) = hop_fields(parts.drop_first());
                Some(HopView { hop: h as u8, address: address, hostname: None, rtt_ms: rtt })
            },
            None => None,
        }
    }
}

/// The hops of the given lines, in order.
pub open spec fn hops_of_lines(ls: Seq<Seq<char>>) -> Seq<HopView>
    decreases ls.len(),
{
    if ls.len() == 0 {
        seq![]
    } else {
        match line_hop(ls.last()) {
            Some(h) => hops_of_lines(ls.drop_last()).push(h),
            None => hops_of_lines(ls.drop_last()),
        }
    }
}

/// What `parse_tracert` returns for the output `text`.
pub open spec fn tracert_hops(text: Seq<char>) -> Seq<HopView> {
    hops_of_lines(lines(text))
}

pub open spec fn rtt_is_number(h: HopView) -> bool {
    match h.rtt_ms {
        Some(t) => is_float_text(t),
        None => true,
    }
}

proof fn lemma_fields_numbers(parts: Seq<Seq<char>>, n: int)
    ensures
        fields_upto(parts, n).0 matches Some(t) ==> is_float_text(t),
    decreases n,
{
    if n > 0 {
        lemma_fields_numbers(parts, n - 1);
    }
}

proof fn lemma_hop_fields_numbers(parts: Seq<Seq<char>>)
    ensures
        hop_fields(parts).0 matches Some(t) ==> is_float_text(t),
{
    lemma_fields_numbers(parts, parts.len() as int);
}

/// Every round-trip time `parse_tracert` reports is a text that
/// `str::parse::<f64>` accepts.
pub proof fn lemma_tracert_rtts_are_numbers(text: Seq<char>)
    ensures
        forall|i: int|
            0 <= i < tracert_hops(text).len() ==> rtt_is_number(#[trigger] tracert_hops(text)[i]),
{
    lemma_hops_numbers(lines(text));
}

proof fn lemma_star_no_time(parts: Seq<Seq<char>>, k: int)
    requires
        0 <= k < parts.len(),
        parts[k] == "*"@,
    ensures
        token_rtt(parts, k) is None,
{
    reveal_strlit("*");
    reveal_strlit("ms");
    let st = "*"@;
    assert(st.len() == 1 && st[0] == '*');
    assert(!ends_with(st, "ms"@));
    let e = Seq::<char>::empty();
    assert(st.drop_last() =~= e);
    assert(remove_char(e, '<') == e);
    assert(st.last() == '*');
    assert(remove_char(st, '<') == remove_char(e, '<').push('*'));
    assert(e.push('*') =~= st);
    assert(remove_char(st, '<') =~= st);
    assert(crate::numfmt::strip_sign(st) =~= st);
    assert(st.drop_first() =~= e);
    assert(crate::numfmt::exp_pos(e) == 0);
    assert(crate::numfmt::exp_pos(st) == 1);
    assert(st.take(1) =~= st);
    assert(!crate::numfmt::is_digit(st[0]));
    assert(!crate::numfmt::is_mantissa(st.take(1)));
    assert(!crate::numfmt::eq_ignore_case(st, seq!['n', 'a', 'n']));
    assert(!is_float_text(st));
}

proof fn lemma_fields_time(parts: Seq<Seq<char>>, n: int)
    requires
        0 <= n <= parts.len(),
    ensures
        (forall|m: int| 0 <= m < n ==> #[trigger] token_rtt(parts, m) is None) ==> fields_upto(
            parts,
            n,
        ).0 is None,
        forall|k: int|
            0 <= k < n && (#[trigger] token_rtt(parts, k)) is Some && (forall|m: int|
                k < m < n ==> #[trigger] token_rtt(parts, m) is None) ==> fields_upto(parts, n).0
                == token_rtt(parts, k),
    decreases n,
{
    if n > 0 {
        lemma_fields_time(parts, n - 1);
    }
}

/// The time of a hop is that of the last of its tokens that carries one (a
/// token such as `12ms` or `<1ms`, or a number followed by `ms`), and none
/// where no token carries one; a `*`, a probe that timed out, carries none,
/// so it never changes the time read before or after it.
pub proof fn lemma_hop_time_is_last_timed_token(parts: Seq<Seq<char>>)
    ensures
        forall|k: int| 0 <= k < parts.len() && parts[k] == "*"@ ==> #[trigger] token_rtt(parts, k) is None,
        (forall|m: int| 0 <= m < parts.len() ==> #[trigger] token_rtt(parts, m) is None)
            ==> hop_fields(parts).0 is None,
        forall|k: int|
            0 <= k < parts.len() && (#[trigger] token_rtt(parts, k)) is Some && (forall|m: int|
                k < m < parts.len() ==> #[trigger] token_rtt(parts, m) is None) ==> hop_fields(parts).0
                == token_rtt(parts, k),
{
    lemma_fields_time(parts, parts.len() as int);
    assert forall|k: int| 0 <= k < parts.len() && parts[k] == "*"@ implies #[trigger] token_rtt(parts, k) is None by {
        lemma_star_no_time(parts, k);
    }
}

proof fn lemma_hops_numbers(ls: Seq<Seq<char>>)
    ensures
        forall|i: int|
            0 <= i < hops_of_lines(ls).len() ==> rtt_is_number(#[trigger] hops_of_lines(ls)[i]),
    decreases ls.len(),
{
    if ls.len() > 0 {
        lemma_hops_numbers(ls.drop_last());
        let parts = words(trim(ls.last()));
        if parts.len() > 0 {
            lemma_hop_fields_numbers(parts.drop_first());
        }
        let prev = hops_of_lines(ls.drop_last());
        match line_hop(ls.last()) {
            Some(h) => {
                assert(rtt_is_number(h));
                assert forall|i: int| 0 <= i < prev.push(h).len() implies rtt_is_number(
                    #[trigger] prev.push(h)[i],
                ) by {
                    if i < prev.len() {
                        assert(prev.push(h)[i] == prev[i]);
                    }
                }
            },
            None => {},
        }
    }
}

fn hop_of_line(line: &Vec<char>) -> (r: Option<TracerouteHop>)
    ensures
        match r {
            Some(h) => line_hop(line@) == Some(h@),
            None => line_hop(line@) is None,
        },
{
    let t = trim_chars(line);
    let parts = words_of(&t);
    if parts.len() == 0 {
        return None;
    }
    let hop = match parse_u8_chars(&parts[0]) {
        Some(h) => h,
        None => return None,
    };
    let star = chars_of("*");
    let lt1 = chars_of("<1");
    let ms = chars_of("ms");
    proof {
        reveal_strlit("ms");
    }
    let mut rtt: Option<Vec<char>> = None;
    let mut address: Option<Vec<char>> = None;
    let ghost rest = rows(parts@).drop_first();
    let mut i: usize = 1;
    while i < parts.len()
        invariant
            1 <= i <= parts@.len(),
            rest == rows(parts@).drop_first(),
            star@ == "*"@,
            lt1@ == "<1"@,
            ms@ == "ms"@,
            ms@.len() > 0,
            (match rtt {
                Some(v) => Some(v@),
                None => None,
            }, match address {
                Some(v) => Some(v@),
                None => None,
            }) == fields_upto(rest, i - 1),
        decreases parts.len() - i,
    {
        let p = &parts[i];
        let ghost k = i - 1;
        assert(rest[k] == p@);
        let ends_ms = has_suffix(p, &ms);
        let mut tok: Option<Vec<char>> = None;
        if ends_ms {
            let trimmed = trim_end_str_chars(p, &ms);
            let num = remove_char_chars(&trimmed, '<');
            if is_float_chars(&num) {
                tok = Some(num);
            }
        } else if i + 1 < parts.len() && chars_eq(&parts[i + 1], &ms) {
            assert(rest[k + 1] == parts@[i + 1]@);
            let num = remove_char_chars(p, '<');
            if is_float_chars(&num) {
                tok = Some(num);
            }
        } else {
            assert(!(k + 1 < rest.len() && rest[k + 1] == "ms"@) || ends_ms) by {
                if k + 1 < rest.len() {
                    assert(rest[k + 1] == parts@[i + 1]@);
                }
            }
        }
        assert(match tok {
            Some(v) => Some(v@),
            None => None,
        } == token_rtt(rest, k));
        match tok {
            Some(v) => {
                rtt = Some(v);
            },
            None => {
                if !(chars_eq(p, &star) || chars_eq(p, &lt1) || ends_ms) && (contains_char(p, '.')
                    || contains_char(p, ':')) {
                    address = Some(slice_all(p));
                }
            },
        }
        i = i + 1;
    }
    let rtt_s = match rtt {
        Some(v) => Some(string_of(&v)),
        None => None,
    };
    let address_s = match address {
        Some(v) => Some(string_of(&v)),
        None => None,
    };
    Some(TracerouteHop { hop, address: address_s, hostname: None, rtt_ms: rtt_s })
}

fn slice_all(v: &Vec<char>) -> (r: Vec<char>)
    ensures
        r@ == v@,
{
    let r = crate::text::slice_chars(v, 0, v.len());
    assert(r@ =~= v@);
    r
}

/// Parses the output of `tracert -d`: every line whose first token is a hop
/// number gives a hop; a token such as `12ms`, or a number followed by a
/// separate `ms` token as in `12 ms` or `<1 ms`, gives the round-trip time;
/// another token with `.` or `:` the address (the last of each wins).
pub fn parse_tracert(text: &str) -> (r: Vec<TracerouteHop>)
    ensures
        hops_view(r@) == tracert_hops(text@),
{
    let cs = chars_of(text);
    let ls = lines_of(&cs);
    let mut hops: Vec<TracerouteHop> = Vec::new();
    let mut i: usize = 0;
    assert(rows(ls@).take(0) =~= Seq::<Seq<char>>::empty());
    while i < ls.len()
        invariant
            i <= ls@.len(),
            rows(ls@) == lines(text@),
            hops_view(hops@) == hops_of_lines(rows(ls@).take(i as int)),
        decreases ls.len() - i,
    {
        assert(rows(ls@).take(i + 1).drop_last() =~= rows(ls@).take(i as int));
        assert(rows(ls@)[i as int] == ls@[i as int]@);
        match hop_of_line(&ls[i]) {
            Some(h) => {
                let ghost before = hops_view(hops@);
                hops.push(h);
                assert(hops_view(hops@) =~= before.push(h@));
            },
            None => {},
        }
        i = i + 1;
    }
    assert(rows(ls@).take(ls@.len() as int) =~= rows(ls@));
    hops
}

/// The arguments given to `tracert`: numeric output, at most `max_hops` hops,
/// a 2000 ms wait per reply, then the target.
pub fn tracert_args(target: &str, max_hops: u8) -> (r: Vec<String>)
    ensures
        strings_view(r@) == seq!["-d"@, "-h"@, dec(max_hops as nat), "-w"@, "2000"@, target@],
{
    let mut v: Vec<String> = Vec::new();
    v.push("-d".to_owned());
    v.push("-h".to_owned());
    v.push(string_of(&dec_chars(max_hops as u64)));
    v.push("-w".to_owned());
    v.push("2000".to_owned());
    v.push(target.to_owned());
    assert(strings_view(v@) =~= seq!["-d"@, "-h"@, dec(max_hops as nat), "-w"@, "2000"@, target@]);
    v
}

/// The result of a traceroute run from the output `tracert` gave, or none
/// when it could not be started.
pub fn traceroute_result(target: &str, nic_id: Option<String>, ts: i64, output: Option<&str>) -> (r:
    TracerouteResult)
    ensures
        r.id == 0,
        r.nic_id == nic_id,
        r.target@ == target@,
        r.ts == ts,
        hops_view(r.hops@) == (match output {
            Some(o) => tracert_hops(o@),
            None => seq![],
        }),
{
    let hops = match output {
        Some(o) => parse_tracert(o),
        None => {
            let v: Vec<TracerouteHop> = Vec::new();
            assert(hops_view(v@) =~= Seq::<HopView>::empty());
            v
        },
    };
    TracerouteResult { id: 0, nic_id, target: target.to_owned(), ts, hops }
}

} // verus!
