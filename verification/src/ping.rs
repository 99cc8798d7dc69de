//! ICMP ping through the system `ping` command: its command line and the
//! reading of the round-trip time from its output.

use vstd::prelude::*;
use crate::numfmt::{ascii_lower, is_digit, is_float_chars, is_float_text};
use crate::text::{chars_of, lines, lines_of, rows, slice_chars, string_of, strings_view};

verus! {

/// `pat` (lower case) occurs at position `i` of `s` when ASCII letters of `s` are lowered.
pub open spec fn matches_at(s: Seq<char>, i: int, pat: Seq<char>) -> bool {
    0 <= i && i + pat.len() <= s.len() && forall|k: int|
        0 <= k < pat.len() ==> ascii_lower(#[trigger] s[i + k]) == pat[k]
}

/// The first position at or after `from` where `pat` occurs, ignoring ASCII case.
pub open spec fn find_from(s: Seq<char>, pat: Seq<char>, from: int) -> Option<int>
    decreases s.len() - from,
{
    if from < 0 || from + pat.len() > s.len() {
        None
    } else if matches_at(s, from, pat) {
        Some(from)
    } else {
        find_from(s, pat, from + 1)
    }
}

/// The leading run of ASCII digits and dots of `s`.
pub open spec fn number_run(s: Seq<char>) -> Seq<char>
    decreases s.len(),
{
    if s.len() > 0 && (is_digit(s[0]) || s[0] == '.') {
        seq![s[0]] + number_run(s.drop_first())
    } else {
        seq![]
    }
}

/// The round-trip time a line of `ping` output reports: the number after
/// `time=` (in any case), or one millisecond for `time=<` and `time<`, or
/// else the number after `Average = ` of the statistics.
pub open spec fn line_rtt(line: Seq<char>) -> Option<Seq<char>> {
    let after_eq = match find_from(line, "time="@, 0) {
        Some(i) => {
            let rest = line.skip(i + 5);
            if is_float_text(number_run(rest)) {
                Some(number_run(rest))
            } else if rest.len() > 0 && rest[0] == '<' {
                Some("1"@)
            } else {
                None
            }
        },
        None => None,
    };
    match after_eq {
        Some(v) => Some(v),
        None => match find_from(line, "time<"@, 0) {
            Some(_) => Some("1"@),
            None => average_rtt(line),
        },
    }
}

/// The number after `average = ` (in any case) in a line, if there is one.
pub open spec fn average_rtt(line: Seq<char>) -> Option<Seq<char>> {
    match find_from(line, "average = "@, 0) {
        Some(i) => if is_float_text(number_run(line.skip(i + 10))) {
            Some(number_run(line.skip(i + 10)))
        } else {
            None
        },
        None => None,
    }
}

/// The first round-trip time reported by any of the lines.
pub open spec fn lines_rtt(ls: Seq<Seq<char>>) -> Option<Seq<char>>
    decreases ls.len(),
{
    if ls.len() == 0 {
        None
    } else {
        match line_rtt(ls[0]) {
            Some(v) => Some(v),
            None => lines_rtt(ls.drop_first()),
        }
    }
}

fn find_ci(s: &Vec<char>, pat: &Vec<char>) -> (r: Option<usize>)
    ensures
        match r {
            Some(i) => find_from(s@, pat@, 0) == Some(i as int),
            None => find_from(s@, pat@, 0) is None,
        },
{
    if pat.len() > s.len() {
        return None;
    }
    let mut i: usize = 0;
    while i <= s.len() - pat.len()
        invariant
            pat@.len() <= s@.len(),
            s@.len() <= usize::MAX,
            i <= s@.len(),
            find_from(s@, pat@, 0) == find_from(s@, pat@, i as int),
        decreases s.len() - i,
    {
        let mut k: usize = 0;
        let mut ok = true;
        while k < pat.len()
            invariant
                i + pat@.len() <= s@.len(),
                s@.len() <= usize::MAX,
                k <= pat@.len(),
                ok == forall|q: int| 0 <= q < k ==> ascii_lower(#[trigger] s@[i + q]) == pat@[q],
            decreases pat.len() - k,
        {
            let c = s[i + k];
            let lc = if 'A' <= c && c <= 'Z' {
                ((c as u8) + 32u8) as char
            } else {
                c
            };
            if lc != pat[k] {
                ok = false;
            }
            k = k + 1;
        }
        if ok {
            return Some(i);
        }
        i = i + 1;
    }
    None
}

fn number_run_from(s: &Vec<char>, from: usize) -> (r: Vec<char>)
    requires
        from <= s@.len(),
    ensures
        r@ == number_run(s@.skip(from as int)),
{
    let mut j: usize = from;
    while j < s.len() && (('0' <= s[j] && s[j] <= '9') || s[j] == '.')
        invariant
            from <= j <= s@.len(),
            number_run(s@.skip(from as int)) == s@.subrange(from as int, j as int) + number_run(
                s@.skip(j as int),
            ),
        decreases s.len() - j,
    {
        proof {
            let t = s@.skip(j as int);
            assert(t.drop_first() =~= s@.skip(j + 1));
            assert(s@.subrange(from as int, j as int) + seq![t[0]] =~= s@.subrange(
                from as int,
                j + 1,
            ));
        }
        j = j + 1;
    }
    assert(s@.subrange(from as int, from as int) =~= Seq::<char>::empty());
    let r = slice_chars(s, from, j);
    assert(number_run(s@.skip(j as int)) =~= Seq::<char>::empty());
    assert(r@ =~= number_run(s@.skip(from as int)));
    r
}

proof fn lemma_find_from_matches(s: Seq<char>, pat: Seq<char>, from: int)
    ensures
        find_from(s, pat, from) matches Some(i) ==> matches_at(s, i, pat) && from <= i,
    decreases s.len() - from,
{
    if from >= 0 && from + pat.len() <= s.len() && !matches_at(s, from, pat) {
        lemma_find_from_matches(s, pat, from + 1);
    }
}

fn rtt_of_line(line: &Vec<char>) -> (r: Option<Vec<char>>)
    ensures
        match r {
            Some(v) => line_rtt(line@) == Some(v@),
            None => line_rtt(line@) is None,
        },
{
    let time_eq = chars_of("time=");
    let time_lt = chars_of("time<");
    let one = chars_of("1");
    proof {
        reveal_strlit("time=");
        assert(time_eq@.len() == 5);
    }
    let n = line.len();
    if let Some(idx) = find_ci(line, &time_eq) {
        proof {
            lemma_find_from_matches(line@, time_eq@, 0);
            assert(matches_at(line@, idx as int, time_eq@));
            assert(idx + 5 <= line@.len());
        }
        let num = number_run_from(line, idx + 5);
        assert(line@.skip(idx + 5) =~= line@.skip(idx as int + 5));
        if is_float_chars(&num) {
            return Some(num);
        }
        if idx + 5 < line.len() && line[idx + 5] == '<' {
            return Some(one);
        }
    }
    if let Some(_) = find_ci(line, &time_lt) {
        return Some(one);
    }
    let average = chars_of("average = ");
    proof {
        reveal_strlit("average = ");
        assert(average@.len() == 10);
    }
    if let Some(idx) = find_ci(line, &average) {
        proof {
            lemma_find_from_matches(line@, average@, 0);
            assert(matches_at(line@, idx as int, average@));
        }
        let num = number_run_from(line, idx + 10);
        assert(line@.skip(idx + 10) =~= line@.skip(idx as int + 10));
        if is_float_chars(&num) {
            return Some(num);
        }
    }
    None
}

/// Reads the round-trip time from the output of `ping`: the first line
/// that reports one decides. The time is the text of the number in
/// milliseconds, which `str::parse::<f64>` accepts.
pub fn parse_rtt_ms(text: &str) -> (r: Option<String>)
    ensures
        opt_seq(r) == lines_rtt(lines(text@)),
        r matches Some(v) ==> is_float_text(v@),
{
    let cs = chars_of(text);
    let ls = lines_of(&cs);
    let mut i: usize = 0;
    assert(rows(ls@).skip(0) =~= rows(ls@));
    while i < ls.len()
        invariant
            i <= ls@.len(),
            rows(ls@) == lines(text@),
            lines_rtt(lines(text@)) == lines_rtt(rows(ls@).skip(i as int)),
        decreases ls.len() - i,
    {
        let ghost rest = rows(ls@).skip(i as int);
        assert(rest[0] == ls@[i as int]@);
        assert(rest.drop_first() =~= rows(ls@).skip(i + 1));
        match rtt_of_line(&ls[i]) {
            Some(v) => {
                proof {
                    lemma_line_rtt_float(ls@[i as int]@);
                }
                return Some(string_of(&v));
            },
            None => {},
        }
        i = i + 1;
    }
    None
}

pub open spec fn opt_seq(o: Option<String>) -> Option<Seq<char>> {
    match o {
        Some(s) => Some(s@),
        None => None,
    }
}

proof fn lemma_line_rtt_float(line: Seq<char>)
    ensures
        line_rtt(line) matches Some(v) ==> is_float_text(v),
{
    reveal_strlit("1");
    let one = "1"@;
    assert(one =~= seq!['1']);
    assert(crate::numfmt::strip_sign(one) =~= one);
    let e = Seq::<char>::empty();
    assert(one.drop_first() =~= e);
    assert(one.drop_last() =~= e);
    assert(crate::numfmt::exp_pos(e) == 0);
    assert(crate::numfmt::exp_pos(one) == 1);
    assert(one.take(1) =~= one);
    assert(is_digit(one[0]));
    assert(crate::numfmt::count_char(e, '.') == 0);
    assert(crate::numfmt::count_char(one, '.') == 0);
}

/// What one run of `ping` gave, apart from the time it took.
#[derive(Debug)]
pub struct PingOutcome {
    /// The round-trip time read from the output, as text.
    pub rtt_text: Option<String>,
    /// No time could be read but `ping` succeeded: the round-trip time is the
    /// time the command took.
    pub use_elapsed: bool,
    pub success: bool,
    /// The trimmed error output, for a failed probe.
    pub error: Option<String>,
}

/// Judges a finished run of `ping` from its exit status and its output: it
/// succeeds exactly when the command does; the time is read from the output,
/// or else measured; a failure carries the trimmed error output.
pub fn ping_outcome(status_ok: bool, stdout: &str, stderr: &str) -> (r: PingOutcome)
    ensures
        opt_seq(r.rtt_text) == lines_rtt(lines(stdout@)),
        r.use_elapsed == (lines_rtt(lines(stdout@)) is None && status_ok),
        r.success == status_ok,
        match r.error {
            Some(e) => !status_ok && e@ == crate::text::trim(stderr@),
            None => status_ok,
        },
{
    let rtt_text = parse_rtt_ms(stdout);
    let use_elapsed = rtt_text.is_none() && status_ok;
    let success = (rtt_text.is_some() || use_elapsed) && status_ok;
    let error = if success {
        None
    } else {
        Some(string_of(&crate::text::trim_chars(&chars_of(stderr))))
    };
    PingOutcome { rtt_text, use_elapsed, success, error }
}

/// The arguments given to `ping`: one echo request, a 3000 ms timeout, the
/// source address when one is given, then the target.
pub fn ping_args(target: &str, source_ip: Option<&str>) -> (r: Vec<String>)
    ensures
        strings_view(r@) == seq!["-n"@, "1"@, "-w"@, "3000"@] + (match source_ip {
            Some(s) => seq!["-S"@, s@],
            None => seq![],
        }) + seq![target@],
{
    let mut v: Vec<String> = Vec::new();
    v.push("-n".to_owned());
    v.push("1".to_owned());
    v.push("-w".to_owned());
    v.push("3000".to_owned());
    if let Some(s) = source_ip {
        v.push("-S".to_owned());
        v.push(s.to_owned());
    }
    v.push(target.to_owned());
    assert(strings_view(v@) =~= seq!["-n"@, "1"@, "-w"@, "3000"@] + (match source_ip {
        Some(s) => seq!["-S"@, s@],
        None => seq![],
    }) + seq![target@]);
    v
}

} // verus!
