//! Plain data carried through the control plane: registry entries, enriched
//! session views, and the bodies of the four control-API operations.

use vstd::prelude::*;

verus! {

/// One entry of the externally maintained session registry. Written by an
/// external process when a session starts; this system only reads it.
#[derive(Debug, Clone, PartialEq)]
pub struct ProxySessionEntry {
    pub session_id: String,
    pub port: u16,
    pub control_port: u16,
    pub pid: u32,
    pub started_at: u64,
    pub cwd: Option<String>,
}

/// A registry entry enriched with live status: the display-ready view of one
/// session, recomputed on every reconciliation pass.
#[derive(Debug, Clone, PartialEq)]
pub struct SessionInfo {
    pub session_id: String,
    pub port: u16,
    pub control_port: u16,
    pub pid: u32,
    pub started_at: u64,
    pub cwd: Option<String>,
    pub project_name: String,
    pub switched: bool,
    pub provider: Option<String>,
    pub model: Option<String>,
    pub healthy: bool,
}

/// Response body of the health operation of the control API.
#[derive(Debug, Clone, PartialEq)]
pub struct HealthResponse {
    pub status: String,
    pub uptime: Option<u64>,
    pub uptime_human: Option<String>,
    pub request_count: Option<u64>,
    pub active_sessions: Option<u32>,
}

/// Response body of the status operation of the control API.
#[derive(Debug, Clone, PartialEq)]
pub struct StatusResponse {
    pub switched: bool,
    pub provider: Option<String>,
    pub model: Option<String>,
    pub switched_at: Option<u64>,
    pub session_id: Option<String>,
}

/// Request body of the switch operation of the control API.
#[derive(Debug, Clone, PartialEq)]
pub struct SwitchRequest {
    pub provider: String,
    pub model: String,
}

/// Response body of the switch and revert operations of the control API.
#[derive(Debug, Clone, PartialEq)]
pub struct SwitchResponse {
    pub switched: bool,
    pub provider: Option<String>,
    pub model: Option<String>,
    pub session_id: Option<String>,
    pub message: Option<String>,
    pub warning: Option<String>,
}

/// One switchable provider and its models, as offered in the menu.
#[derive(Debug, Clone, PartialEq)]
pub struct ProviderInfo {
    pub name: String,
    pub models: Vec<ModelInfo>,
}

/// One model of a provider: its wire identifier and its display label.
#[derive(Debug, Clone, PartialEq)]
pub struct ModelInfo {
    pub id: String,
    pub label: String,
}

/// The characters an optional string contributes where an absent value
/// contributes nothing.
pub open spec fn opt_str(o: Option<String>) -> Seq<char> {
    match o {
        Option::Some(s) => s@,
        Option::None => Seq::empty(),
    }
}

/// An unhealthy session carries no status claims: `healthy == false` forces
/// `switched == false` and absent provider and model.
pub open spec fn session_wf(s: SessionInfo) -> bool {
    !s.healthy ==> (!s.switched && s.provider is None && s.model is None)
}

} // verus!
