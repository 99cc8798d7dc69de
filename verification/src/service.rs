//! Registration of the Windows service through `sc.exe`: the arguments of
//! each command.

use vstd::prelude::*;
use crate::text::{concat, strings_view};

verus! {

pub open spec fn service_name() -> Seq<char> {
    "NetvanService"@
}

/// `sc create`: the service runs this program with `run`, starts
/// automatically and is shown under its display name.
pub fn sc_create_args(bin: &str) -> (r: Vec<String>)
    ensures
        strings_view(r@) == seq![
            "create"@,
            service_name(),
            "binPath= \""@ + bin@ + "\" run"@,
            "start= auto"@,
            "DisplayName= Netvan Network Monitor"@,
        ],
{
    let mut v: Vec<String> = Vec::new();
    v.push("create".to_owned());
    v.push("NetvanService".to_owned());
    let head = concat("binPath= \"", bin);
    v.push(concat(head.as_str(), "\" run"));
    v.push("start= auto".to_owned());
    v.push("DisplayName= Netvan Network Monitor".to_owned());
    assert(strings_view(v@) =~= seq![
        "create"@,
        service_name(),
        "binPath= \""@ + bin@ + "\" run"@,
        "start= auto"@,
        "DisplayName= Netvan Network Monitor"@,
    ]);
    v
}

/// `sc description`: what the service collects.
pub fn sc_description_args() -> (r: Vec<String>)
    ensures
        strings_view(r@) == seq![
            "description"@,
            service_name(),
            "Collects NIC, latency, traffic metrics for Netvan"@,
        ],
{
    let mut v: Vec<String> = Vec::new();
    v.push("description".to_owned());
    v.push("NetvanService".to_owned());
    v.push("Collects NIC, latency, traffic metrics for Netvan".to_owned());
    assert(strings_view(v@) =~= seq![
        "description"@,
        service_name(),
        "Collects NIC, latency, traffic metrics for Netvan"@,
    ]);
    v
}

/// `sc failure`: restart after 5 s on each of three failures, the count
/// reset after a day.
pub fn sc_failure_args() -> (r: Vec<String>)
    ensures
        strings_view(r@) == seq![
            "failure"@,
            service_name(),
            "reset= 86400"@,
            "actions= restart/5000/restart/5000/restart/5000"@,
        ],
{
    let mut v: Vec<String> = Vec::new();
    v.push("failure".to_owned());
    v.push("NetvanService".to_owned());
    v.push("reset= 86400".to_owned());
    v.push("actions= restart/5000/restart/5000/restart/5000".to_owned());
    assert(strings_view(v@) =~= seq![
        "failure"@,
        service_name(),
        "reset= 86400"@,
        "actions= restart/5000/restart/5000/restart/5000"@,
    ]);
    v
}

/// The control commands given to `sc` for the service.
#[derive(Debug, Clone, Copy, PartialEq, Eq, Structural)]
pub enum ServiceControl {
    Delete,
    Start,
    Stop,
}

pub open spec fn control_verb(c: ServiceControl) -> Seq<char> {
    match c {
        ServiceControl::Delete => "delete"@,
        ServiceControl::Start => "start"@,
        ServiceControl::Stop => "stop"@,
    }
}

/// `sc delete|start|stop NetvanService`.
pub fn sc_control_args(c: ServiceControl) -> (r: Vec<String>)
    ensures
        strings_view(r@) == seq![control_verb(c), service_name()],
{
    let verb = match c {
        ServiceControl::Delete => "delete",
        ServiceControl::Start => "start",
        ServiceControl::Stop => "stop",
    };
    let mut v: Vec<String> = Vec::new();
    v.push(verb.to_owned());
    v.push("NetvanService".to_owned());
    assert(strings_view(v@) =~= seq![control_verb(c), service_name()]);
    v
}

} // verus!
