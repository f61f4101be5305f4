//! The control-API endpoints of one session, as URL strings over loopback
//! HTTP. The transport that sends the requests lives outside; these
//! builders pin down exactly which URL each operation addresses.

use vstd::prelude::*;

use crate::numeral::dec;
use crate::u64_to_string;

verus! {

/// The URL of the health operation on a control port.
pub open spec fn health_url_spec(control_port: u16) -> Seq<char> {
    "http://localhost:"@ + dec(control_port as nat) + "/health"@
}

/// The URL of the status operation for one session on a control port.
pub open spec fn status_url_spec(control_port: u16, session_id: Seq<char>) -> Seq<char> {
    "http://localhost:"@ + dec(control_port as nat) + "/status?session="@ + session_id
}

/// The URL of the switch operation for one session on a control port.
pub open spec fn switch_url_spec(control_port: u16, session_id: Seq<char>) -> Seq<char> {
    "http://localhost:"@ + dec(control_port as nat) + "/switch?session="@ + session_id
}

/// The URL of the revert operation for one session on a control port.
pub open spec fn revert_url_spec(control_port: u16, session_id: Seq<char>) -> Seq<char> {
    "http://localhost:"@ + dec(control_port as nat) + "/revert?session="@ + session_id
}

/// Build the health URL for a control port.
pub fn health_url(control_port: u16) -> (r: String)
    ensures
        r@ == health_url_spec(control_port),
{
    let mut u = String::from_str("http://localhost:");
    let d = u64_to_string(control_port as u64);
    u.append(d.as_str());
    u.append("/health");
    proof {
        assert(u@ =~= health_url_spec(control_port));
    }
    u
}

/// Build the URL of one operation addressed to one session: the host, the
/// port, the operation's path and query prefix, then the session
/// identifier.
fn session_url(control_port: u16, path: &str, session_id: &str) -> (r: String)
    ensures
        r@ == "http://localhost:"@ + dec(control_port as nat) + path@ + session_id@,
{
    let mut u = String::from_str("http://localhost:");
    let d = u64_to_string(control_port as u64);
    u.append(d.as_str());
    u.append(path);
    u.append(session_id);
    proof {
        assert(u@ =~= "http://localhost:"@ + dec(control_port as nat) + path@ + session_id@);
    }
    u
}

/// Build the status URL for one session on a control port.
pub fn status_url(control_port: u16, session_id: &str) -> (r: String)
    ensures
        r@ == status_url_spec(control_port, session_id@),
{
    session_url(control_port, "/status?session=", session_id)
}

/// Build the switch URL for one session on a control port.
pub fn switch_url(control_port: u16, session_id: &str) -> (r: String)
    ensures
        r@ == switch_url_spec(control_port, session_id@),
{
    session_url(control_port, "/switch?session=", session_id)
}

/// Build the revert URL for one session on a control port.
pub fn revert_url(control_port: u16, session_id: &str) -> (r: String)
    ensures
        r@ == revert_url_spec(control_port, session_id@),
{
    session_url(control_port, "/revert?session=", session_id)
}

} // verus!
