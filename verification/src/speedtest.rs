//! The Ookla Speedtest command-line tool: where it is looked for, the
//! arguments it is run with, and when its output cannot be used.

use vstd::prelude::*;
use crate::paths::{
    data_dir, extendable_base, first_found, join_outcome, joined, path_exists, path_join,
};
use crate::text::{chars_of, ends_with, lines, lines_of, opt_str_view, opt_view, string_of, strings_view, trim, trim_char,
    trim_char_chars, trim_chars,
};

verus! {

/// The candidate places of the tool for the data directory `dir`, in
/// order: `speedtest.exe` in `dir`, in `dir`'s `ookla` subdirectory, in the
/// working directory, and where its installer puts it.
pub open spec fn cli_candidates_of(dir: Seq<char>, c: Seq<Seq<char>>) -> bool {
    &&& c.len() == 4
    &&& join_outcome(dir, "speedtest.exe"@, c[0])
    &&& exists|ookla: Seq<char>|
        join_outcome(dir, "ookla"@, ookla) && join_outcome(ookla, "speedtest.exe"@, c[1])
    &&& c[2] == "speedtest.exe"@
    &&& c[3] == "C:\\Program Files\\Ookla\\Speedtest CLI\\speedtest.exe"@
}

/// For a data directory the separator extends, the first two candidates are
/// `dir/speedtest.exe` and `dir/ookla/speedtest.exe`, with the platform's separator.
pub proof fn lemma_cli_candidates_exact(dir: Seq<char>, c: Seq<Seq<char>>)
    requires
        cli_candidates_of(dir, c),
        extendable_base(dir),
    ensures
        exists|sep: char| (sep == '/' || sep == '\\') && c[0] == joined(dir, sep, "speedtest.exe"@),
        exists|s1: char, s2: char|
            (s1 == '/' || s1 == '\\') && (s2 == '/' || s2 == '\\') && c[1] == joined(
                joined(dir, s1, "ookla"@),
                s2,
                "speedtest.exe"@,
            ),
{
    crate::paths::lemma_literals();
    let ookla = choose|ookla: Seq<char>|
        join_outcome(dir, "ookla"@, ookla) && join_outcome(ookla, "speedtest.exe"@, c[1]);
    let s1 = choose|sep: char| (sep == '/' || sep == '\\') && ookla == joined(dir, sep, "ookla"@);
    reveal_strlit("ookla");
    assert(ookla.last() == 'a');
    assert(extendable_base(ookla));
    let s2 = choose|sep: char|
        (sep == '/' || sep == '\\') && c[1] == joined(ookla, sep, "speedtest.exe"@);
    assert(c[1] == joined(joined(dir, s1, "ookla"@), s2, "speedtest.exe"@));
}

/// Where the tool is looked for when no configured path exists (see `cli_candidates_of`).
pub fn cli_candidates(data_dir: &str) -> (r: Vec<String>)
    ensures
        cli_candidates_of(data_dir@, strings_view(r@)),
        forall|i: int| 0 <= i < 4 ==> ends_with(#[trigger] r@[i]@, "speedtest.exe"@),
{
    proof {
        crate::paths::lemma_literals();
        reveal_strlit("speedtest.exe");
        reveal_strlit("C:\\Program Files\\Ookla\\Speedtest CLI\\speedtest.exe");
        let e = "speedtest.exe"@;
        let f = "C:\\Program Files\\Ookla\\Speedtest CLI\\speedtest.exe"@;
        assert(e.skip(0) =~= e);
        assert(f.skip(f.len() - e.len()) =~= e);
    }
    let mut v: Vec<String> = Vec::new();
    v.push(path_join(data_dir, "speedtest.exe"));
    let ookla = path_join(data_dir, "ookla");
    v.push(path_join(ookla.as_str(), "speedtest.exe"));
    v.push("speedtest.exe".to_owned());
    v.push("C:\\Program Files\\Ookla\\Speedtest CLI\\speedtest.exe".to_owned());
    assert(strings_view(v@)[1] == v@[1]@);
    assert(join_outcome(data_dir@, "ookla"@, ookla@) && join_outcome(ookla@, "speedtest.exe"@, strings_view(v@)[1]));
    v
}

/// The path chosen for the tool: the configured path if it exists, else the
/// first candidate that exists, else plain `speedtest`, left to the search path.
pub open spec fn chosen_cli_path(
    configured: Option<Seq<char>>,
    configured_exists: bool,
    candidates: Seq<Seq<char>>,
    found: Seq<bool>,
) -> Seq<char> {
    match configured {
        Some(c) if configured_exists => c,
        _ => match first_found(found, 0) {
            Some(i) => candidates[i],
            None => "speedtest"@,
        },
    }
}

/// Chooses the path of the tool from what was found on disk.
pub fn choose_cli_path(
    configured: Option<&str>,
    configured_exists: bool,
    candidates: &Vec<String>,
    found: &Vec<bool>,
) -> (r: String)
    requires
        candidates@.len() == found@.len(),
    ensures
        r@ == chosen_cli_path(
            match configured {
                Some(c) => Some(c@),
                None => None,
            },
            configured_exists,
            strings_view(candidates@),
            found@,
        ),
{
    if let Some(c) = configured {
        if configured_exists {
            return c.to_owned();
        }
    }
    let mut i: usize = 0;
    while i < found.len()
        invariant
            i <= found@.len(),
            candidates@.len() == found@.len(),
            first_found(found@, 0) == first_found(found@, i as int),
            configured is Some ==> !configured_exists,
        decreases found.len() - i,
    {
        if found[i] {
            return candidates[i].clone();
        }
        i = i + 1;
    }
    "speedtest".to_owned()
}

/// One way the tool's path `r` comes out of the machine's state: the data
/// directory `dir`, its candidates `cands`, whether the configured path exists,
/// and which candidates exist (`found`).
pub open spec fn cli_resolution(
    configured: Option<Seq<char>>,
    configured_exists: bool,
    dir: Seq<char>,
    cands: Seq<Seq<char>>,
    found: Seq<bool>,
    r: Seq<char>,
) -> bool {
    &&& cli_candidates_of(dir, cands)
    &&& found.len() == 4
    &&& (configured is None ==> !configured_exists)
    &&& r == chosen_cli_path(configured, configured_exists, cands, found)
}

/// Resolves the path of the tool on this machine (see `choose_cli_path`):
/// the configured path if it exists, else the first of `cli_candidates` of the
/// data directory that exists, else plain `speedtest`; what exists the file
/// system decides.
pub fn resolve_cli_path(configured: Option<&str>) -> (r: String)
    ensures
        exists|configured_exists: bool, dir: Seq<char>, cands: Seq<Seq<char>>, found: Seq<bool>|
            #[trigger] cli_resolution(
                opt_str_view(configured),
                configured_exists,
                dir,
                cands,
                found,
                r@,
            ),
        (configured matches Some(c) && r@ == c@) || ends_with(r@, "speedtest.exe"@) || r@
            == "speedtest"@,
{
    let configured_exists = match configured {
        Some(c) => path_exists(c),
        None => false,
    };
    let dir = data_dir();
    let candidates = cli_candidates(dir.as_str());
    let mut found: Vec<bool> = Vec::new();
    let mut i: usize = 0;
    while i < candidates.len()
        invariant
            i <= candidates@.len(),
            found@.len() == i,
        decreases candidates.len() - i,
    {
        found.push(path_exists(candidates[i].as_str()));
        i = i + 1;
    }
    proof {
        crate::paths::lemma_first_found(found@, 0);
        if let Some(i) = first_found(found@, 0) {
            assert(strings_view(candidates@)[i] == candidates@[i]@);
        }
    }
    let r = choose_cli_path(configured, configured_exists, &candidates, &found);
    assert(cli_resolution(
        opt_str_view(configured),
        configured_exists,
        dir@,
        strings_view(candidates@),
        found@,
        r@,
    ));
    r
}

/// The arguments the tool runs with: JSON output, no progress display, the
/// licence and GDPR acceptances when accepted, and the server when one is chosen.
pub fn speedtest_args(accept_eula: bool, server_id: Option<String>) -> (r: Vec<String>)
    ensures
        strings_view(r@) == seq!["--format=json"@, "--progress=no"@] + (if accept_eula {
            seq!["--accept-license"@, "--accept-gdpr"@]
        } else {
            seq![]
        }) + (match server_id {
            Some(id) => seq!["--server-id"@, id@],
            None => seq![],
        }),
{
    let mut v: Vec<String> = Vec::new();
    v.push("--format=json".to_owned());
    v.push("--progress=no".to_owned());
    if accept_eula {
        v.push("--accept-license".to_owned());
        v.push("--accept-gdpr".to_owned());
    }
    let ghost sid = server_id;
    if let Some(id) = server_id {
        v.push("--server-id".to_owned());
        v.push(id);
    }
    assert(strings_view(v@) =~= seq!["--format=json"@, "--progress=no"@] + (if accept_eula {
        seq!["--accept-license"@, "--accept-gdpr"@]
    } else {
        seq![]
    }) + (match sid {
        Some(id) => seq!["--server-id"@, id@],
        None => seq![],
    }));
    v
}

/// The run failed with nothing to read: the tool exited unsuccessfully and
/// printed nothing but whitespace.
pub fn speedtest_output_unusable(success: bool, stdout: &str) -> (r: bool)
    ensures
        r == (!success && trim(stdout@).len() == 0),
{
    !success && trim_chars(&chars_of(stdout)).len() == 0
}

/// The path the `where` command printed first: its first line, trimmed,
/// unless that is empty.
pub fn first_listed_path(stdout: &str) -> (r: Option<String>)
    ensures
        match r {
            Some(p) => lines(stdout@).len() > 0 && p@ == trim(lines(stdout@)[0]) && p@.len() > 0,
            None => lines(stdout@).len() == 0 || trim(lines(stdout@)[0]).len() == 0,
        },
{
    let ls = lines_of(&chars_of(stdout));
    if ls.len() == 0 {
        return None;
    }
    let t = trim_chars(&ls[0]);
    if t.len() == 0 {
        None
    } else {
        Some(string_of(&t))
    }
}


/// What a JSON document holds at a JSON pointer: the value's JSON text,
/// whether it is a number, and its contents where it is a string.
pub uninterp spec fn json_leaf_at(text: Seq<char>, pointer: Seq<char>) -> Option<
    (Seq<char>, bool, Option<Seq<char>>),
>;

/// A value read out of a JSON document: its JSON text, whether it is a
/// number, and its contents where it is a string.
pub struct JsonLeaf {
    pub json: String,
    pub number: bool,
    pub text: Option<String>,
}

pub open spec fn leaf_view(l: Option<JsonLeaf>) -> Option<(Seq<char>, bool, Option<Seq<char>>)> {
    match l {
        Some(v) => Some((v.json@, v.number, opt_view(v.text))),
        None => None,
    }
}

/// `serde_json::from_str` into a `Value`, then `Value::pointer`: the value at
/// `pointer` in the document `text`, given by `Value::to_string`,
/// `Value::is_number` and `Value::as_str`; `None` where `text` is no JSON
/// document or holds nothing at `pointer` (the empty pointer is the whole
/// document). The outcome depends on the two texts alone and is named
/// `json_leaf_at`; what the parser makes of a text is not stated.
#[verifier::external_body]
fn json_leaf(text: &str, pointer: &str) -> (r: Option<JsonLeaf>)
    ensures
        leaf_view(r) == json_leaf_at(text@, pointer@),
{
    let doc: serde_json::Value = serde_json::from_str(text).ok()?;
    let v = doc.pointer(pointer)?;
    Some(JsonLeaf { json: v.to_string(), number: v.is_number(), text: v.as_str().map(|t| t.to_string()) })
}

/// The JSON text of a leaf that is a number.
pub open spec fn number_leaf(l: Option<(Seq<char>, bool, Option<Seq<char>>)>) -> Option<Seq<char>> {
    match l {
        Some((j, true, _)) => Some(j),
        _ => None,
    }
}

/// The JSON text of a leaf with its quotes trimmed off both ends.
pub open spec fn unquoted_leaf(l: Option<(Seq<char>, bool, Option<Seq<char>>)>) -> Option<Seq<char>> {
    match l {
        Some((j, _, _)) => Some(trim_char(j, '"')),
        None => None,
    }
}

/// The contents of a leaf that is a string.
pub open spec fn string_leaf(l: Option<(Seq<char>, bool, Option<Seq<char>>)>) -> Option<Seq<char>> {
    match l {
        Some((_, _, t)) => t,
        None => None,
    }
}

/// A figure of the report, as the JSON text of a number, if the leaf is one.
pub fn number_of_leaf(l: Option<JsonLeaf>) -> (r: Option<String>)
    ensures
        opt_view(r) == number_leaf(leaf_view(l)),
{
    match l {
        Some(v) => if v.number {
            Some(v.json)
        } else {
            None
        },
        None => None,
    }
}

/// An identifier of the report: the leaf's JSON text without its quotes, so
/// that a string and a number read alike.
pub fn unquoted_of_leaf(l: Option<JsonLeaf>) -> (r: Option<String>)
    ensures
        opt_view(r) == unquoted_leaf(leaf_view(l)),
{
    match l {
        Some(v) => {
            let t = trim_char_chars(&chars_of(v.json.as_str()), '"');
            Some(string_of(&t))
        },
        None => None,
    }
}

/// A name of the report: the leaf's contents, if it is a string.
pub fn string_of_leaf(l: Option<JsonLeaf>) -> (r: Option<String>)
    ensures
        opt_view(r) == string_leaf(leaf_view(l)),
{
    match l {
        Some(v) => v.text,
        None => None,
    }
}

/// The figures the tool's JSON report gives: bandwidths in bytes per second,
/// latency and jitter in milliseconds and packet loss, each as the JSON text
/// of a number; the server's identifier and name.
pub struct SpeedtestFields {
    pub download_bandwidth: Option<String>,
    pub upload_bandwidth: Option<String>,
    pub ping_latency: Option<String>,
    pub ping_jitter: Option<String>,
    pub packet_loss: Option<String>,
    pub server_id: Option<String>,
    pub server_name: Option<String>,
}

/// The fields `f` are those the JSON document `t` gives.
pub open spec fn fields_of_report(f: SpeedtestFields, t: Seq<char>) -> bool {
    &&& opt_view(f.download_bandwidth) == number_leaf(json_leaf_at(t, "/download/bandwidth"@))
    &&& opt_view(f.upload_bandwidth) == number_leaf(json_leaf_at(t, "/upload/bandwidth"@))
    &&& opt_view(f.ping_latency) == number_leaf(json_leaf_at(t, "/ping/latency"@))
    &&& opt_view(f.ping_jitter) == number_leaf(json_leaf_at(t, "/ping/jitter"@))
    &&& opt_view(f.packet_loss) == number_leaf(json_leaf_at(t, "/packetLoss"@))
    &&& opt_view(f.server_id) == unquoted_leaf(json_leaf_at(t, "/server/id"@))
    &&& opt_view(f.server_name) == string_leaf(json_leaf_at(t, "/server/name"@))
}

/// A run of the tool that could be read: its figures, and the JSON report.
pub struct SpeedtestReport {
    pub fields: SpeedtestFields,
    pub raw_json: String,
}

/// Why the output of a run could not be read.
#[derive(PartialEq, Eq, Structural, Debug, Clone, Copy)]
pub enum SpeedtestFailure {
    /// The tool failed and printed nothing.
    Unusable,
    /// The output is no JSON document.
    Unreadable,
}

/// Reads the output of a run: refused where the run failed with nothing to
/// read, or where the trimmed output is no JSON document; otherwise the
/// trimmed output and the figures it gives.
pub fn speedtest_report(success: bool, stdout: &str) -> (r: Result<SpeedtestReport, SpeedtestFailure>)
    ensures
        (r matches Err(SpeedtestFailure::Unusable)) <==> (!success && trim(stdout@).len() == 0),
        (r matches Err(SpeedtestFailure::Unreadable)) <==> (!(!success && trim(stdout@).len() == 0)
            && json_leaf_at(trim(stdout@), ""@) is None),
        r matches Ok(rep) ==> rep.raw_json@ == trim(stdout@) && fields_of_report(
            rep.fields,
            trim(stdout@),
        ),
{
    if speedtest_output_unusable(success, stdout) {
        return Err(SpeedtestFailure::Unusable);
    }
    let t = string_of(&trim_chars(&chars_of(stdout)));
    let doc = json_leaf(t.as_str(), "");
    if doc.is_none() {
        return Err(SpeedtestFailure::Unreadable);
    }
    let fields = SpeedtestFields {
        download_bandwidth: number_of_leaf(json_leaf(t.as_str(), "/download/bandwidth")),
        upload_bandwidth: number_of_leaf(json_leaf(t.as_str(), "/upload/bandwidth")),
        ping_latency: number_of_leaf(json_leaf(t.as_str(), "/ping/latency")),
        ping_jitter: number_of_leaf(json_leaf(t.as_str(), "/ping/jitter")),
        packet_loss: number_of_leaf(json_leaf(t.as_str(), "/packetLoss")),
        server_id: unquoted_of_leaf(json_leaf(t.as_str(), "/server/id")),
        server_name: string_of_leaf(json_leaf(t.as_str(), "/server/name")),
    };
    Ok(SpeedtestReport { fields, raw_json: t })
}

} // verus!
