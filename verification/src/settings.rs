//! Application settings and the capture mode.

use vstd::prelude::*;
use crate::text::{chars_eq, chars_of, opt_view, strings_view};

verus! {

/// How traffic is captured: per-process connection tables, or full capture.
#[derive(Debug, Clone, Copy, PartialEq, Eq, Structural)]
pub enum CaptureMode {
    Process,
    Full,
}

/// The text a capture mode is stored and shown as.
pub open spec fn capture_mode_text(m: CaptureMode) -> Seq<char> {
    match m {
        CaptureMode::Process => "process"@,
        CaptureMode::Full => "full"@,
    }
}

/// The mode a stored text stands for: only the exact text `full` selects
/// full capture, every other text process capture.
pub open spec fn capture_mode_of(s: Seq<char>) -> CaptureMode {
    if s == "full"@ {
        CaptureMode::Full
    } else {
        CaptureMode::Process
    }
}

/// Reading back the text of a mode gives the mode again.
pub proof fn lemma_capture_mode_roundtrip(m: CaptureMode)
    ensures
        capture_mode_of(capture_mode_text(m)) == m,
{
    reveal_strlit("process");
    reveal_strlit("full");
    if m == CaptureMode::Process {
        assert("process"@.len() != "full"@.len());
    }
}

impl CaptureMode {
    pub fn as_str(&self) -> (r: &'static str)
        ensures
            r@ == capture_mode_text(*self),
    {
        match self {
            CaptureMode::Process => "process",
            CaptureMode::Full => "full",
        }
    }

    pub fn parse(s: &str) -> (r: CaptureMode)
        ensures
            r == capture_mode_of(s@),
    {
        if chars_eq(&chars_of(s), &chars_of("full")) {
            CaptureMode::Full
        } else {
            CaptureMode::Process
        }
    }
}

/// The settings of the collectors and of the user interface.
#[derive(Debug)]
pub struct AppSettings {
    pub capture_mode: CaptureMode,
    pub ping_targets: Vec<String>,
    pub http_targets: Vec<String>,
    pub ping_interval_secs: u64,
    pub http_interval_secs: u64,
    pub bandwidth_interval_ms: u64,
    pub retention_raw_days: u32,
    pub start_ui_with_windows: bool,
    pub speedtest_cli_path: Option<String>,
    pub speedtest_eula_accepted: bool,
    pub default_nic_id: Option<String>,
}

/// The settings as mathematical values.
pub struct SettingsView {
    pub capture_mode: CaptureMode,
    pub ping_targets: Seq<Seq<char>>,
    pub http_targets: Seq<Seq<char>>,
    pub ping_interval_secs: u64,
    pub http_interval_secs: u64,
    pub bandwidth_interval_ms: u64,
    pub retention_raw_days: u32,
    pub start_ui_with_windows: bool,
    pub speedtest_cli_path: Option<Seq<char>>,
    pub speedtest_eula_accepted: bool,
    pub default_nic_id: Option<Seq<char>>,
}

impl View for AppSettings {
    type V = SettingsView;

    open spec fn view(&self) -> SettingsView {
        SettingsView {
            capture_mode: self.capture_mode,
            ping_targets: strings_view(self.ping_targets@),
            http_targets: strings_view(self.http_targets@),
            ping_interval_secs: self.ping_interval_secs,
            http_interval_secs: self.http_interval_secs,
            bandwidth_interval_ms: self.bandwidth_interval_ms,
            retention_raw_days: self.retention_raw_days,
            start_ui_with_windows: self.start_ui_with_windows,
            speedtest_cli_path: opt_view(self.speedtest_cli_path),
            speedtest_eula_accepted: self.speedtest_eula_accepted,
            default_nic_id: opt_view(self.default_nic_id),
        }
    }
}

pub open spec fn default_ping_targets() -> Seq<Seq<char>> {
    seq!["8.8.8.8"@, "1.1.1.1"@]
}

pub open spec fn default_http_targets() -> Seq<Seq<char>> {
    seq!["https://www.cloudflare.com/cdn-cgi/trace"@, "https://www.google.com/generate_204"@]
}

/// The settings a fresh installation starts with.
pub open spec fn default_settings() -> SettingsView {
    SettingsView {
        capture_mode: CaptureMode::Process,
        ping_targets: default_ping_targets(),
        http_targets: default_http_targets(),
        ping_interval_secs: 5,
        http_interval_secs: 30,
        bandwidth_interval_ms: 1000,
        retention_raw_days: 14,
        start_ui_with_windows: false,
        speedtest_cli_path: None,
        speedtest_eula_accepted: false,
        default_nic_id: None,
    }
}

pub fn default_ping_target_list() -> (r: Vec<String>)
    ensures
        strings_view(r@) == default_ping_targets(),
{
    let mut v: Vec<String> = Vec::new();
    v.push("8.8.8.8".to_owned());
    v.push("1.1.1.1".to_owned());
    assert(strings_view(v@) =~= default_ping_targets());
    v
}

pub fn default_http_target_list() -> (r: Vec<String>)
    ensures
        strings_view(r@) == default_http_targets(),
{
    let mut v: Vec<String> = Vec::new();
    v.push("https://www.cloudflare.com/cdn-cgi/trace".to_owned());
    v.push("https://www.google.com/generate_204".to_owned());
    assert(strings_view(v@) =~= default_http_targets());
    v
}

impl Default for AppSettings {
    fn default() -> (r: Self)
        ensures
            r@ == default_settings(),
    {
        AppSettings {
            capture_mode: CaptureMode::Process,
            ping_targets: default_ping_target_list(),
            http_targets: default_http_target_list(),
            ping_interval_secs: 5,
            http_interval_secs: 30,
            bandwidth_interval_ms: 1000,
            retention_raw_days: 14,
            start_ui_with_windows: false,
            speedtest_cli_path: None,
            speedtest_eula_accepted: false,
            default_nic_id: None,
        }
    }
}

pub fn clone_strings(v: &Vec<String>) -> (r: Vec<String>)
    ensures
        r@ == v@,
{
    let mut out: Vec<String> = Vec::new();
    let mut i: usize = 0;
    while i < v.len()
        invariant
            i <= v@.len(),
            out@ == v@.take(i as int),
        decreases v.len() - i,
    {
        out.push(v[i].clone());
        assert(out@ =~= v@.take(i + 1));
        i = i + 1;
    }
    assert(v@.take(v@.len() as int) =~= v@);
    out
}

pub fn clone_opt_string(o: &Option<String>) -> (r: Option<String>)
    ensures
        r == *o,
{
    match o {
        Some(s) => Some(s.clone()),
        None => None,
    }
}

impl AppSettings {
    /// A copy of these settings.
    pub fn duplicate(&self) -> (r: AppSettings)
        ensures
            r@ == self@,
    {
        AppSettings {
            capture_mode: self.capture_mode,
            ping_targets: clone_strings(&self.ping_targets),
            http_targets: clone_strings(&self.http_targets),
            ping_interval_secs: self.ping_interval_secs,
            http_interval_secs: self.http_interval_secs,
            bandwidth_interval_ms: self.bandwidth_interval_ms,
            retention_raw_days: self.retention_raw_days,
            start_ui_with_windows: self.start_ui_with_windows,
            speedtest_cli_path: clone_opt_string(&self.speedtest_cli_path),
            speedtest_eula_accepted: self.speedtest_eula_accepted,
            default_nic_id: clone_opt_string(&self.default_nic_id),
        }
    }
}

} // verus!
