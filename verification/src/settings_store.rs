//! How settings are kept in the key/value `settings` table: the entries
//! written when settings are saved, and the settings read back from the
//! values stored under each key.

use vstd::prelude::*;
use crate::numfmt::{dec, dec_chars, lemma_parse_dec, parse_u32_chars, parse_u64_chars, parse_unsigned};
use crate::settings::{
    AppSettings, CaptureMode, SettingsView, capture_mode_of, capture_mode_text,
    default_http_target_list, default_http_targets, default_ping_target_list, default_settings,
    default_ping_targets, lemma_capture_mode_roundtrip,
};
use crate::text::{chars_eq, chars_of, opt_view, string_of, strings_view};

verus! {

/// The JSON text `serde_json::to_string` writes for a list of strings.
pub uninterp spec fn json_of_strings(v: Seq<Seq<char>>) -> Seq<char>;

/// What `serde_json::from_str::<Vec<String>>` reads from a text, if it reads a list.
pub uninterp spec fn strings_of_json(s: Seq<char>) -> Option<Seq<Seq<char>>>;

pub open spec fn opt_strings_view(o: Option<Vec<String>>) -> Option<Seq<Seq<char>>> {
    match o {
        Some(v) => Some(strings_view(v@)),
        None => None,
    }
}

/// `serde_json::to_string` on a list of strings. Serialising strings into
/// an in-memory buffer cannot fail, so the text is always produced.
#[verifier::external_body]
pub fn json_encode_strings(v: &Vec<String>) -> (r: String)
    ensures
        r@ == json_of_strings(strings_view(v@)),
{
    serde_json::to_string(v).unwrap_or_default()
}

/// `serde_json::from_str::<Vec<String>>`, `None` where it returns an error.
/// Reading the text that `serde_json::to_string` wrote for a list gives the list back.
#[verifier::external_body]
pub fn json_decode_strings(s: &str) -> (r: Option<Vec<String>>)
    ensures
        opt_strings_view(r) == strings_of_json(s@),
        forall|v: Seq<Seq<char>>| s@ == json_of_strings(v) ==> opt_strings_view(r) == Some(v),
{
    serde_json::from_str::<Vec<String>>(s).ok()
}

/// A JSON list of strings kept in a table column; an absent or unreadable
/// value reads as the empty list.
pub fn parse_json_vec(s: Option<String>) -> (r: Vec<String>)
    ensures
        strings_view(r@) == (match opt_view(s) {
            Some(t) => match strings_of_json(t) {
                Some(v) => v,
                None => seq![],
            },
            None => seq![],
        }),
{
    match s {
        Some(j) => match json_decode_strings(j.as_str()) {
            Some(v) => v,
            None => {
                let v: Vec<String> = Vec::new();
                assert(strings_view(v@) =~= Seq::<Seq<char>>::empty());
                v
            },
        },
        None => {
            let v: Vec<String> = Vec::new();
            assert(strings_view(v@) =~= Seq::<Seq<char>>::empty());
            v
        },
    }
}

/// The values the settings table holds under each settings key.
#[derive(Debug)]
pub struct StoredSettings {
    pub capture_mode: Option<String>,
    pub ping_targets: Option<String>,
    pub http_targets: Option<String>,
    pub ping_interval_secs: Option<String>,
    pub http_interval_secs: Option<String>,
    pub bandwidth_interval_ms: Option<String>,
    pub retention_raw_days: Option<String>,
    pub start_ui_with_windows: Option<String>,
    pub speedtest_cli_path: Option<String>,
    pub speedtest_eula_accepted: Option<String>,
    pub default_nic_id: Option<String>,
}

pub struct StoredView {
    pub capture_mode: Option<Seq<char>>,
    pub ping_targets: Option<Seq<char>>,
    pub http_targets: Option<Seq<char>>,
    pub ping_interval_secs: Option<Seq<char>>,
    pub http_interval_secs: Option<Seq<char>>,
    pub bandwidth_interval_ms: Option<Seq<char>>,
    pub retention_raw_days: Option<Seq<char>>,
    pub start_ui_with_windows: Option<Seq<char>>,
    pub speedtest_cli_path: Option<Seq<char>>,
    pub speedtest_eula_accepted: Option<Seq<char>>,
    pub default_nic_id: Option<Seq<char>>,
}

impl View for StoredSettings {
    type V = StoredView;

    open spec fn view(&self) -> StoredView {
        StoredView {
            capture_mode: opt_view(self.capture_mode),
            ping_targets: opt_view(self.ping_targets),
            http_targets: opt_view(self.http_targets),
            ping_interval_secs: opt_view(self.ping_interval_secs),
            http_interval_secs: opt_view(self.http_interval_secs),
            bandwidth_interval_ms: opt_view(self.bandwidth_interval_ms),
            retention_raw_days: opt_view(self.retention_raw_days),
            start_ui_with_windows: opt_view(self.start_ui_with_windows),
            speedtest_cli_path: opt_view(self.speedtest_cli_path),
            speedtest_eula_accepted: opt_view(self.speedtest_eula_accepted),
            default_nic_id: opt_view(self.default_nic_id),
        }
    }
}

/// The settings table, a map from key to value.
pub type SettingsTable = Map<Seq<char>, Seq<char>>;

pub open spec fn lookup(m: SettingsTable, k: Seq<char>) -> Option<Seq<char>> {
    if m.dom().contains(k) {
        Some(m[k])
    } else {
        None
    }
}

/// What the table holds under each settings key.
pub open spec fn stored_of_table(m: SettingsTable) -> StoredView {
    StoredView {
        capture_mode: lookup(m, "capture_mode"@),
        ping_targets: lookup(m, "ping_targets"@),
        http_targets: lookup(m, "http_targets"@),
        ping_interval_secs: lookup(m, "ping_interval_secs"@),
        http_interval_secs: lookup(m, "http_interval_secs"@),
        bandwidth_interval_ms: lookup(m, "bandwidth_interval_ms"@),
        retention_raw_days: lookup(m, "retention_raw_days"@),
        start_ui_with_windows: lookup(m, "start_ui_with_windows"@),
        speedtest_cli_path: lookup(m, "speedtest_cli_path"@),
        speedtest_eula_accepted: lookup(m, "speedtest_eula_accepted"@),
        default_nic_id: lookup(m, "default_nic_id"@),
    }
}

/// The table after writing the entries in order, each replacing what its key held.
pub open spec fn apply_entries(m: SettingsTable, e: Seq<(Seq<char>, Seq<char>)>) -> SettingsTable
    decreases e.len(),
{
    if e.len() == 0 {
        m
    } else {
        apply_entries(m, e.drop_last()).insert(e.last().0, e.last().1)
    }
}

pub open spec fn flag_text(b: bool) -> Seq<char> {
    if b {
        "1"@
    } else {
        "0"@
    }
}

/// A stored flag is set by `1` or `true`.
pub open spec fn read_flag(v: Option<Seq<char>>) -> bool {
    match v {
        Some(t) => t == "1"@ || t == "true"@,
        None => false,
    }
}

pub open spec fn read_number(v: Option<Seq<char>>, max: nat, default: nat) -> nat {
    match v {
        Some(t) => match parse_unsigned(t, max) {
            Some(n) => n,
            None => default,
        },
        None => default,
    }
}

pub open spec fn read_list(v: Option<Seq<char>>, default: Seq<Seq<char>>) -> Seq<Seq<char>> {
    match v {
        Some(t) => match strings_of_json(t) {
            Some(l) => l,
            None => default,
        },
        None => default,
    }
}

/// The settings read from stored values: each key that holds a readable
/// value overrides the default, the others keep it.
pub open spec fn settings_from_stored(st: StoredView) -> SettingsView {
    SettingsView {
        capture_mode: match st.capture_mode {
            Some(t) => capture_mode_of(t),
            None => CaptureMode::Process,
        },
        ping_targets: read_list(st.ping_targets, default_ping_targets()),
        http_targets: read_list(st.http_targets, default_http_targets()),
        ping_interval_secs: read_number(st.ping_interval_secs, u64::MAX as nat, 5) as u64,
        http_interval_secs: read_number(st.http_interval_secs, u64::MAX as nat, 30) as u64,
        bandwidth_interval_ms: read_number(st.bandwidth_interval_ms, u64::MAX as nat, 1000) as u64,
        retention_raw_days: read_number(st.retention_raw_days, u32::MAX as nat, 14) as u32,
        start_ui_with_windows: read_flag(st.start_ui_with_windows),
        speedtest_cli_path: st.speedtest_cli_path,
        speedtest_eula_accepted: read_flag(st.speedtest_eula_accepted),
        default_nic_id: st.default_nic_id,
    }
}

/// The entries written when saving `s`, in order: every setting, except the
/// two optional ones when they are unset.
pub open spec fn settings_entries(s: SettingsView) -> Seq<(Seq<char>, Seq<char>)> {
    seq![
        ("capture_mode"@, capture_mode_text(s.capture_mode)),
        ("ping_targets"@, json_of_strings(s.ping_targets)),
        ("http_targets"@, json_of_strings(s.http_targets)),
        ("ping_interval_secs"@, dec(s.ping_interval_secs as nat)),
        ("http_interval_secs"@, dec(s.http_interval_secs as nat)),
        ("bandwidth_interval_ms"@, dec(s.bandwidth_interval_ms as nat)),
        ("retention_raw_days"@, dec(s.retention_raw_days as nat)),
        ("start_ui_with_windows"@, flag_text(s.start_ui_with_windows)),
    ] + (match s.speedtest_cli_path {
        Some(p) => seq![("speedtest_cli_path"@, p)],
        None => seq![],
    }) + seq![("speedtest_eula_accepted"@, flag_text(s.speedtest_eula_accepted))] + (
    match s.default_nic_id {
        Some(id) => seq![("default_nic_id"@, id)],
        None => seq![],
    })
}

/// What reading the settings gives after saving `s` over the table `m`:
/// `s` itself, but an unset optional setting reads as what the table held
/// before, since saving leaves that key alone.
pub open spec fn reloaded(s: SettingsView, m: SettingsTable) -> SettingsView {
    SettingsView {
        speedtest_cli_path: match s.speedtest_cli_path {
            Some(p) => Some(p),
            None => lookup(m, "speedtest_cli_path"@),
        },
        default_nic_id: match s.default_nic_id {
            Some(id) => Some(id),
            None => lookup(m, "default_nic_id"@),
        },
        ..s
    }
}

/// Reading a table: an empty table (a first start) gives the default
/// settings; a setting whose key is absent, or holds a value that does not
/// read as one, keeps its default, so the speed-test licence and the start
/// with Windows read as off; and either flag reads as on only where its key
/// holds `1` or `true`.
pub proof fn lemma_absent_keys_read_as_defaults(m: SettingsTable)
    ensures
        settings_from_stored(stored_of_table(Map::empty())) == default_settings(),
        !m.dom().contains("speedtest_eula_accepted"@) ==> !settings_from_stored(
            stored_of_table(m),
        ).speedtest_eula_accepted,
        !m.dom().contains("start_ui_with_windows"@) ==> !settings_from_stored(
            stored_of_table(m),
        ).start_ui_with_windows,
        settings_from_stored(stored_of_table(m)).speedtest_eula_accepted ==> m.dom().contains(
            "speedtest_eula_accepted"@,
        ) && (m["speedtest_eula_accepted"@] == "1"@ || m["speedtest_eula_accepted"@] == "true"@),
        settings_from_stored(stored_of_table(m)).start_ui_with_windows ==> m.dom().contains(
            "start_ui_with_windows"@,
        ) && (m["start_ui_with_windows"@] == "1"@ || m["start_ui_with_windows"@] == "true"@),
        !m.dom().contains("capture_mode"@) ==> settings_from_stored(stored_of_table(m)).capture_mode
            == CaptureMode::Process,
        !m.dom().contains("ping_interval_secs"@) ==> settings_from_stored(
            stored_of_table(m),
        ).ping_interval_secs == 5,
        !m.dom().contains("retention_raw_days"@) ==> settings_from_stored(
            stored_of_table(m),
        ).retention_raw_days == 14,
        !m.dom().contains("speedtest_cli_path"@) ==> settings_from_stored(
            stored_of_table(m),
        ).speedtest_cli_path is None,
        !m.dom().contains("default_nic_id"@) ==> settings_from_stored(
            stored_of_table(m),
        ).default_nic_id is None,
        !m.dom().contains("http_interval_secs"@) ==> settings_from_stored(
            stored_of_table(m),
        ).http_interval_secs == 30,
        !m.dom().contains("bandwidth_interval_ms"@) ==> settings_from_stored(
            stored_of_table(m),
        ).bandwidth_interval_ms == 1000,
        !m.dom().contains("ping_targets"@) ==> settings_from_stored(stored_of_table(m)).ping_targets
            == default_ping_targets(),
        !m.dom().contains("http_targets"@) ==> settings_from_stored(stored_of_table(m)).http_targets
            == default_http_targets(),
        m.dom().contains("ping_interval_secs"@) && parse_unsigned(
            m["ping_interval_secs"@],
            u64::MAX as nat,
        ) is None ==> settings_from_stored(stored_of_table(m)).ping_interval_secs == 5,
        m.dom().contains("retention_raw_days"@) && parse_unsigned(
            m["retention_raw_days"@],
            u32::MAX as nat,
        ) is None ==> settings_from_stored(stored_of_table(m)).retention_raw_days == 14,
        m.dom().contains("ping_targets"@) && strings_of_json(m["ping_targets"@]) is None
            ==> settings_from_stored(stored_of_table(m)).ping_targets == default_ping_targets(),
{
    let e = settings_from_stored(stored_of_table(Map::<Seq<char>, Seq<char>>::empty()));
    assert(e =~= default_settings());
}

pub open spec fn pairs_view(v: Seq<(String, String)>) -> Seq<(Seq<char>, Seq<char>)> {
    v.map_values(|p: (String, String)| (p.0@, p.1@))
}

proof fn lemma_apply_concat(
    m: SettingsTable,
    a: Seq<(Seq<char>, Seq<char>)>,
    b: Seq<(Seq<char>, Seq<char>)>,
)
    ensures
        apply_entries(m, a + b) == apply_entries(apply_entries(m, a), b),
    decreases b.len(),
{
    if b.len() == 0 {
        assert(a + b =~= a);
    } else {
        assert((a + b).drop_last() =~= a + b.drop_last());
        lemma_apply_concat(m, a, b.drop_last());
    }
}

proof fn lemma_apply_one(m: SettingsTable, k: Seq<char>, v: Seq<char>)
    ensures
        apply_entries(m, seq![(k, v)]) == m.insert(k, v),
{
    assert(seq![(k, v)].drop_last() =~= Seq::<(Seq<char>, Seq<char>)>::empty());
    assert(apply_entries(m, Seq::<(Seq<char>, Seq<char>)>::empty()) == m);
}

proof fn lemma_apply_step(m: SettingsTable, e: Seq<(Seq<char>, Seq<char>)>, j: int)
    requires
        0 <= j < e.len(),
    ensures
        apply_entries(m, e.take(j + 1)) == apply_entries(m, e.take(j)).insert(e[j].0, e[j].1),
{
    assert(e.take(j + 1).drop_last() =~= e.take(j));
    assert(e.take(j + 1).last() == e[j]);
}

proof fn lemma_apply_seq(m: SettingsTable, e: Seq<(Seq<char>, Seq<char>)>)
    ensures
        e.len() == 0 ==> apply_entries(m, e) == m,
        e.len() == 1 ==> apply_entries(m, e) == m.insert(e[0].0, e[0].1),
{
    if e.len() == 1 {
        assert(e =~= seq![(e[0].0, e[0].1)]);
        lemma_apply_one(m, e[0].0, e[0].1);
    }
}

proof fn lemma_keys_distinct()
    ensures
        "capture_mode"@ != "ping_targets"@,
        "capture_mode"@ != "http_targets"@,
        "ping_targets"@ != "http_targets"@,
        "ping_interval_secs"@ != "http_interval_secs"@,
        "ping_interval_secs"@ != "retention_raw_days"@,
        "ping_interval_secs"@ != "speedtest_cli_path"@,
        "http_interval_secs"@ != "retention_raw_days"@,
        "http_interval_secs"@ != "speedtest_cli_path"@,
        "retention_raw_days"@ != "speedtest_cli_path"@,
        "bandwidth_interval_ms"@ != "start_ui_with_windows"@,
        "1"@ != "0"@,
        "0"@ != "true"@,
        // keys of different lengths
        "capture_mode"@.len() == 12,
        "ping_targets"@.len() == 12,
        "http_targets"@.len() == 12,
        "ping_interval_secs"@.len() == 18,
        "http_interval_secs"@.len() == 18,
        "bandwidth_interval_ms"@.len() == 21,
        "retention_raw_days"@.len() == 18,
        "start_ui_with_windows"@.len() == 21,
        "speedtest_cli_path"@.len() == 18,
        "speedtest_eula_accepted"@.len() == 23,
        "default_nic_id"@.len() == 14,
{
    reveal_strlit("capture_mode");
    reveal_strlit("ping_targets");
    reveal_strlit("http_targets");
    reveal_strlit("ping_interval_secs");
    reveal_strlit("http_interval_secs");
    reveal_strlit("bandwidth_interval_ms");
    reveal_strlit("retention_raw_days");
    reveal_strlit("start_ui_with_windows");
    reveal_strlit("speedtest_cli_path");
    reveal_strlit("speedtest_eula_accepted");
    reveal_strlit("default_nic_id");
    reveal_strlit("1");
    reveal_strlit("0");
    reveal_strlit("true");
    assert("capture_mode"@[0] != "ping_targets"@[0]);
    assert("capture_mode"@[0] != "http_targets"@[0]);
    assert("ping_targets"@[0] != "http_targets"@[0]);
    assert("ping_interval_secs"@[0] != "http_interval_secs"@[0]);
    assert("ping_interval_secs"@[0] != "retention_raw_days"@[0]);
    assert("ping_interval_secs"@[0] != "speedtest_cli_path"@[0]);
    assert("http_interval_secs"@[0] != "retention_raw_days"@[0]);
    assert("http_interval_secs"@[0] != "speedtest_cli_path"@[0]);
    assert("retention_raw_days"@[0] != "speedtest_cli_path"@[0]);
    assert("bandwidth_interval_ms"@[0] != "start_ui_with_windows"@[0]);
    assert("1"@[0] != "0"@[0]);
}

/// Saving `s` over the table `m` and reading each key back gives the
/// stored values that `s` writes, and the old ones for the keys it leaves alone.
pub proof fn lemma_saved_values(m: SettingsTable, s: SettingsView)
    ensures
        stored_of_table(apply_entries(m, settings_entries(s))) == (StoredView {
            capture_mode: Some(capture_mode_text(s.capture_mode)),
            ping_targets: Some(json_of_strings(s.ping_targets)),
            http_targets: Some(json_of_strings(s.http_targets)),
            ping_interval_secs: Some(dec(s.ping_interval_secs as nat)),
            http_interval_secs: Some(dec(s.http_interval_secs as nat)),
            bandwidth_interval_ms: Some(dec(s.bandwidth_interval_ms as nat)),
            retention_raw_days: Some(dec(s.retention_raw_days as nat)),
            start_ui_with_windows: Some(flag_text(s.start_ui_with_windows)),
            speedtest_cli_path: match s.speedtest_cli_path {
                Some(p) => Some(p),
                None => lookup(m, "speedtest_cli_path"@),
            },
            speedtest_eula_accepted: Some(flag_text(s.speedtest_eula_accepted)),
            default_nic_id: match s.default_nic_id {
                Some(id) => Some(id),
                None => lookup(m, "default_nic_id"@),
            },
        }),
{
    lemma_keys_distinct();
    let a = seq![
        ("capture_mode"@, capture_mode_text(s.capture_mode)),
        ("ping_targets"@, json_of_strings(s.ping_targets)),
        ("http_targets"@, json_of_strings(s.http_targets)),
        ("ping_interval_secs"@, dec(s.ping_interval_secs as nat)),
        ("http_interval_secs"@, dec(s.http_interval_secs as nat)),
        ("bandwidth_interval_ms"@, dec(s.bandwidth_interval_ms as nat)),
        ("retention_raw_days"@, dec(s.retention_raw_days as nat)),
        ("start_ui_with_windows"@, flag_text(s.start_ui_with_windows)),
    ];
    let b = match s.speedtest_cli_path {
        Some(p) => seq![("speedtest_cli_path"@, p)],
        None => seq![],
    };
    let c = seq![("speedtest_eula_accepted"@, flag_text(s.speedtest_eula_accepted))];
    let d = match s.default_nic_id {
        Some(id) => seq![("default_nic_id"@, id)],
        None => seq![],
    };
    lemma_apply_concat(m, a + b + c, d);
    lemma_apply_concat(m, a + b, c);
    lemma_apply_concat(m, a, b);
    let ma = apply_entries(m, a);
    assert(a.take(0) =~= Seq::<(Seq<char>, Seq<char>)>::empty());
    assert(apply_entries(m, a.take(0)) == m);
    lemma_apply_step(m, a, 0);
    lemma_apply_step(m, a, 1);
    lemma_apply_step(m, a, 2);
    lemma_apply_step(m, a, 3);
    lemma_apply_step(m, a, 4);
    lemma_apply_step(m, a, 5);
    lemma_apply_step(m, a, 6);
    lemma_apply_step(m, a, 7);
    assert(a.take(8) =~= a);
    let ma_expected = m.insert("capture_mode"@, capture_mode_text(s.capture_mode)).insert(
        "ping_targets"@,
        json_of_strings(s.ping_targets),
    ).insert("http_targets"@, json_of_strings(s.http_targets)).insert(
        "ping_interval_secs"@,
        dec(s.ping_interval_secs as nat),
    ).insert("http_interval_secs"@, dec(s.http_interval_secs as nat)).insert(
        "bandwidth_interval_ms"@,
        dec(s.bandwidth_interval_ms as nat),
    ).insert("retention_raw_days"@, dec(s.retention_raw_days as nat)).insert(
        "start_ui_with_windows"@,
        flag_text(s.start_ui_with_windows),
    );
    assert(ma == ma_expected);
    lemma_apply_seq(ma, b);
    let mb = apply_entries(ma, b);
    lemma_apply_seq(mb, c);
    let mc = apply_entries(mb, c);
    lemma_apply_seq(mc, d);
}

fn text(s: &str) -> (r: String)
    ensures
        r@ == s@,
{
    s.to_owned()
}

fn flag_string(b: bool) -> (r: String)
    ensures
        r@ == flag_text(b),
{
    if b {
        text("1")
    } else {
        text("0")
    }
}

fn number_string(n: u64) -> (r: String)
    ensures
        r@ == dec(n as nat),
{
    string_of(&dec_chars(n))
}

fn read_flag_value(v: &Option<String>) -> (r: bool)
    ensures
        r == read_flag(opt_view(*v)),
{
    match v {
        Some(t) => {
            let cs = chars_of(t.as_str());
            chars_eq(&cs, &chars_of("1")) || chars_eq(&cs, &chars_of("true"))
        },
        None => false,
    }
}

fn read_u64_value(v: &Option<String>, default: u64) -> (r: u64)
    ensures
        r as nat == read_number(opt_view(*v), u64::MAX as nat, default as nat),
{
    match v {
        Some(t) => match parse_u64_chars(&chars_of(t.as_str())) {
            Some(n) => n,
            None => default,
        },
        None => default,
    }
}

fn read_u32_value(v: &Option<String>, default: u32) -> (r: u32)
    ensures
        r as nat == read_number(opt_view(*v), u32::MAX as nat, default as nat),
{
    match v {
        Some(t) => match parse_u32_chars(&chars_of(t.as_str())) {
            Some(n) => n,
            None => default,
        },
        None => default,
    }
}

fn read_list_value(v: &Option<String>, default: Vec<String>) -> (r: Vec<String>)
    ensures
        strings_view(r@) == read_list(opt_view(*v), strings_view(default@)),
        forall|l: Seq<Seq<char>>|
            opt_view(*v) == Some(json_of_strings(l)) ==> strings_view(r@) == l,
{
    match v {
        Some(t) => match json_decode_strings(t.as_str()) {
            Some(l) => l,
            None => default,
        },
        None => default,
    }
}

fn key_is(k: &Vec<char>, name: &str) -> (r: bool)
    ensures
        r == (k@ == name@),
{
    chars_eq(k, &chars_of(name))
}

fn copy_string(s: &String) -> (r: String)
    ensures
        r@ == s@,
{
    s.clone()
}

impl StoredSettings {
    /// The values under each settings key, given the rows `(key, value)` of
    /// the settings table; where a key occurs more than once the last row counts.
    pub fn from_rows(rows: &Vec<(String, String)>) -> (r: StoredSettings)
        ensures
            r@ == stored_of_table(apply_entries(Map::empty(), pairs_view(rows@))),
    {
        let mut st = StoredSettings {
            capture_mode: None,
            ping_targets: None,
            http_targets: None,
            ping_interval_secs: None,
            http_interval_secs: None,
            bandwidth_interval_ms: None,
            retention_raw_days: None,
            start_ui_with_windows: None,
            speedtest_cli_path: None,
            speedtest_eula_accepted: None,
            default_nic_id: None,
        };
        let ghost e = pairs_view(rows@);
        let mut i: usize = 0;
        assert(e.take(0) =~= Seq::<(Seq<char>, Seq<char>)>::empty());
        while i < rows.len()
            invariant
                i <= rows@.len(),
                e == pairs_view(rows@),
                st@ == stored_of_table(apply_entries(Map::empty(), e.take(i as int))),
            decreases rows.len() - i,
        {
            proof {
                lemma_apply_step(Map::empty(), e, i as int);
            }
            let k = chars_of(rows[i].0.as_str());
            let v = &rows[i].1;
            assert(e[i as int] == (k@, v@));
            if key_is(&k, "capture_mode") {
                st.capture_mode = Some(copy_string(v));
            } else if key_is(&k, "ping_targets") {
                st.ping_targets = Some(copy_string(v));
            } else if key_is(&k, "http_targets") {
                st.http_targets = Some(copy_string(v));
            } else if key_is(&k, "ping_interval_secs") {
                st.ping_interval_secs = Some(copy_string(v));
            } else if key_is(&k, "http_interval_secs") {
                st.http_interval_secs = Some(copy_string(v));
            } else if key_is(&k, "bandwidth_interval_ms") {
                st.bandwidth_interval_ms = Some(copy_string(v));
            } else if key_is(&k, "retention_raw_days") {
                st.retention_raw_days = Some(copy_string(v));
            } else if key_is(&k, "start_ui_with_windows") {
                st.start_ui_with_windows = Some(copy_string(v));
            } else if key_is(&k, "speedtest_cli_path") {
                st.speedtest_cli_path = Some(copy_string(v));
            } else if key_is(&k, "speedtest_eula_accepted") {
                st.speedtest_eula_accepted = Some(copy_string(v));
            } else if key_is(&k, "default_nic_id") {
                st.default_nic_id = Some(copy_string(v));
            }
            proof {
                lemma_keys_distinct();
            }
            i = i + 1;
        }
        assert(e.take(rows@.len() as int) =~= e);
        st
    }
}

impl AppSettings {
    /// The settings read from the stored values (the reading half of the
    /// settings table). Reading what saving `s` wrote over any table gives
    /// `s` back, but for an unset optional setting, which keeps the value
    /// the table held before.
    pub fn from_stored(stored: &StoredSettings) -> (r: AppSettings)
        ensures
            r@ == settings_from_stored(stored@),
            forall|s: SettingsView, m: SettingsTable|
                stored@ == stored_of_table(apply_entries(m, settings_entries(s))) ==> r@
                    == reloaded(s, m),
    {
        let capture_mode = match &stored.capture_mode {
            Some(t) => CaptureMode::parse(t.as_str()),
            None => CaptureMode::Process,
        };
        let r = AppSettings {
            capture_mode,
            ping_targets: read_list_value(&stored.ping_targets, default_ping_target_list()),
            http_targets: read_list_value(&stored.http_targets, default_http_target_list()),
            ping_interval_secs: read_u64_value(&stored.ping_interval_secs, 5),
            http_interval_secs: read_u64_value(&stored.http_interval_secs, 30),
            bandwidth_interval_ms: read_u64_value(&stored.bandwidth_interval_ms, 1000),
            retention_raw_days: read_u32_value(&stored.retention_raw_days, 14),
            start_ui_with_windows: read_flag_value(&stored.start_ui_with_windows),
            speedtest_cli_path: crate::settings::clone_opt_string(&stored.speedtest_cli_path),
            speedtest_eula_accepted: read_flag_value(&stored.speedtest_eula_accepted),
            default_nic_id: crate::settings::clone_opt_string(&stored.default_nic_id),
        };
        assert forall|s: SettingsView, m: SettingsTable|
            stored@ == stored_of_table(apply_entries(m, settings_entries(s))) implies r@
            == reloaded(s, m) by {
            lemma_saved_values(m, s);
            lemma_keys_distinct();
            lemma_capture_mode_roundtrip(s.capture_mode);
            lemma_parse_dec(s.ping_interval_secs as nat, u64::MAX as nat);
            lemma_parse_dec(s.http_interval_secs as nat, u64::MAX as nat);
            lemma_parse_dec(s.bandwidth_interval_ms as nat, u64::MAX as nat);
            lemma_parse_dec(s.retention_raw_days as nat, u32::MAX as nat);
        }
        r
    }

    /// The key/value entries saving these settings writes, in order (the
    /// writing half of the settings table).
    pub fn to_stored_entries(&self) -> (r: Vec<(String, String)>)
        ensures
            pairs_view(r@) == settings_entries(self@),
    {
        let mut v: Vec<(String, String)> = Vec::new();
        v.push((text("capture_mode"), text(self.capture_mode.as_str())));
        v.push((text("ping_targets"), json_encode_strings(&self.ping_targets)));
        v.push((text("http_targets"), json_encode_strings(&self.http_targets)));
        v.push((text("ping_interval_secs"), number_string(self.ping_interval_secs)));
        v.push((text("http_interval_secs"), number_string(self.http_interval_secs)));
        v.push((text("bandwidth_interval_ms"), number_string(self.bandwidth_interval_ms)));
        v.push((text("retention_raw_days"), number_string(self.retention_raw_days as u64)));
        v.push((text("start_ui_with_windows"), flag_string(self.start_ui_with_windows)));
        if let Some(p) = &self.speedtest_cli_path {
            v.push((text("speedtest_cli_path"), p.clone()));
        }
        v.push((text("speedtest_eula_accepted"), flag_string(self.speedtest_eula_accepted)));
        if let Some(id) = &self.default_nic_id {
            v.push((text("default_nic_id"), id.clone()));
        }
        assert(pairs_view(v@) =~= settings_entries(self@));
        v
    }
}

} // verus!
