//! Combining registry entries with live status queries into display-ready
//! session views, isolating per-session failures: aggregation returns
//! exactly one view per live entry, however many status calls failed.

use vstd::prelude::*;

use crate::scan::{last_occurrence, lemma_last_occurrence, rfind_char};
use crate::types::{session_wf, ProxySessionEntry, SessionInfo, StatusResponse};

verus! {

/// Outcome of one session's status query: a parsed status response, or no
/// status together with the verdict of the fallback health probe.
#[derive(Debug, Clone, PartialEq)]
pub enum StatusOutcome {
    Status(StatusResponse),
    NoStatus { reachable: bool },
}

/// The last `/`-separated segment of the working directory, or the fixed
/// placeholder for an absent one.
pub open spec fn project_name_spec(cwd: Option<String>) -> Seq<char> {
    match cwd {
        Option::Some(p) => p@.skip(last_occurrence(p@, '/') + 1),
        Option::None => "unknown"@,
    }
}

/// Derive the project name shown for a session from its working directory.
pub fn project_name_of(cwd: &Option<String>) -> (r: String)
    ensures
        r@ == project_name_spec(*cwd),
{
    match cwd {
        Option::Some(p) => {
            proof {
                lemma_last_occurrence(p@, '/');
            }
            let n = p.as_str().unicode_len();
            match rfind_char(p.as_str(), '/') {
                Option::Some(k) => {
                    let sub = p.as_str().substring_char(k + 1, n);
                    String::from_str(sub)
                },
                Option::None => {
                    proof {
                        assert(p@.skip(0) =~= p@);
                    }
                    p.clone()
                },
            }
        },
        Option::None => String::from_str("unknown"),
    }
}

/// Clone an optional string, keeping its value exactly.
fn clone_opt_string(o: &Option<String>) -> (r: Option<String>)
    ensures
        r == *o,
{
    match o {
        Option::Some(s) => Option::Some(s.clone()),
        Option::None => Option::None,
    }
}

/// How a view must relate to the registry entry and status outcome it was
/// built from: entry fields carried over unchanged, the project name
/// derived from the working directory, and the status fields taken from the
/// response when there is one, else cleared with only reachability kept.
pub open spec fn view_matches(v: SessionInfo, e: ProxySessionEntry, o: StatusOutcome) -> bool {
    &&& v.session_id == e.session_id
    &&& v.port == e.port
    &&& v.control_port == e.control_port
    &&& v.pid == e.pid
    &&& v.started_at == e.started_at
    &&& v.cwd == e.cwd
    &&& v.project_name@ == project_name_spec(e.cwd)
    &&& match o {
        StatusOutcome::Status(st) => v.switched == st.switched && v.provider == st.provider
            && v.model == st.model && v.healthy,
        StatusOutcome::NoStatus { reachable } => !v.switched && v.provider is None
            && v.model is None && v.healthy == reachable,
    }
}

/// Build the view of one live session from its registry entry and the
/// outcome of its status query.
pub fn build_session_view(entry: &ProxySessionEntry, outcome: &StatusOutcome) -> (v: SessionInfo)
    ensures
        view_matches(v, *entry, *outcome),
        session_wf(v),
{
    let project_name = project_name_of(&entry.cwd);
    match outcome {
        StatusOutcome::Status(st) => SessionInfo {
            session_id: entry.session_id.clone(),
            port: entry.port,
            control_port: entry.control_port,
            pid: entry.pid,
            started_at: entry.started_at,
            cwd: clone_opt_string(&entry.cwd),
            project_name,
            switched: st.switched,
            provider: clone_opt_string(&st.provider),
            model: clone_opt_string(&st.model),
            healthy: true,
        },
        StatusOutcome::NoStatus { reachable } => SessionInfo {
            session_id: entry.session_id.clone(),
            port: entry.port,
            control_port: entry.control_port,
            pid: entry.pid,
            started_at: entry.started_at,
            cwd: clone_opt_string(&entry.cwd),
            project_name,
            switched: false,
            provider: Option::None,
            model: Option::None,
            healthy: *reachable,
        },
    }
}

/// Combine live registry entries with the outcomes of their status queries:
/// exactly one view per entry, in order, each built as `view_matches` says.
/// No outcome, however bad, removes or disturbs another entry's view.
pub fn aggregate_sessions(entries: &Vec<ProxySessionEntry>, outcomes: &Vec<StatusOutcome>) -> (views:
    Vec<SessionInfo>)
    requires
        entries@.len() == outcomes@.len(),
    ensures
        views@.len() == entries@.len(),
        forall|i: int|
            0 <= i < views@.len() ==> view_matches(
                #[trigger] views@[i],
                entries@[i],
                outcomes@[i],
            ) && session_wf(views@[i]),
{
    let mut views: Vec<SessionInfo> = Vec::new();
    let mut i: usize = 0;
    while i < entries.len()
        invariant
            i <= entries.len(),
            entries@.len() == outcomes@.len(),
            views@.len() == i,
            forall|j: int|
                0 <= j < i ==> view_matches(#[trigger] views@[j], entries@[j], outcomes@[j])
                    && session_wf(views@[j]),
        decreases entries.len() - i,
    {
        let v = build_session_view(&entries[i], &outcomes[i]);
        views.push(v);
        i += 1;
    }
    views
}

} // verus!
