//! Session-state reconciliation and menu-diffing engine for a menu-bar
//! control-plane client.
//!
//! The library discovers live proxy sessions, aggregates per-session status
//! under partial failure, decides whether the visible menu must be rebuilt,
//! allocates process-unique menu identifiers, and decodes clicked identifiers
//! back into typed actions. All I/O (registry file, liveness probes, HTTP,
//! the native menu toolkit) lives outside; this crate works on plain values.

pub mod aggregate;
pub mod catalog;
pub mod client;
pub mod fingerprint;
pub mod ident;
pub mod menu;
pub mod numeral;
pub mod registry;
pub mod router;
pub mod scan;
pub mod types;

pub use aggregate::{aggregate_sessions, build_session_view, project_name_of, StatusOutcome};
pub use catalog::get_providers_inner;
pub use client::{health_url, revert_url, status_url, switch_url};
pub use fingerprint::compute_fingerprint;
pub use menu::{menu_budget, CatalogPair, MenuEntry, MenuNode, MenuStateEngine, MenuTree};
pub use numeral::u64_to_string;
pub use registry::filter_live;
pub use router::{dispatch, strip_counter_suffix, MenuAction};
pub use types::{
    HealthResponse, ModelInfo, ProviderInfo, ProxySessionEntry, SessionInfo, StatusResponse,
    SwitchRequest, SwitchResponse,
};
