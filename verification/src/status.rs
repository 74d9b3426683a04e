//! The application status shown by the user interface.
use vstd::prelude::*;

use crate::client::ConnectionState;

verus! {

/// Status for the front end.
#[derive(Debug, Clone)]
pub struct AppStatus {
    /// "idle", "host" or "client".
    pub mode: String,
    pub host_port: u16,
    pub client_addr: String,
    pub connection_state: String,
    pub display_width: u32,
    pub display_height: u32,
}

/// The name of a connection state in the status.
pub open spec fn spec_state_name(s: ConnectionState) -> Seq<char> {
    match s {
        ConnectionState::Disconnected => "disconnected"@,
        ConnectionState::Connecting => "connecting"@,
        ConnectionState::Connected { .. } => "connected"@,
        ConnectionState::Error(_) => "error"@,
    }
}

/// The status when a host session runs (`has_host`), else when a client
/// session exists (its state and display size), else idle.
pub fn app_status(has_host: bool, client: Option<(&ConnectionState, Option<(u32, u32)>)>) -> (res: AppStatus)
    ensures
        res.host_port == 9000,
        res.client_addr@ == Seq::<char>::empty(),
        has_host ==> res.mode@ == "host"@ && res.connection_state@ == "listening"@ && res.display_width == 0
            && res.display_height == 0,
        !has_host ==> match client {
            Some((s, size)) => {
                &&& res.mode@ == "client"@
                &&& res.connection_state@ == spec_state_name(*s)
                &&& match size {
                    Some((w, h)) => res.display_width == w && res.display_height == h,
                    None => res.display_width == 0 && res.display_height == 0,
                }
            },
            None => res.mode@ == "idle"@ && res.connection_state@ == "disconnected"@ && res.display_width == 0
                && res.display_height == 0,
        },
{
    let (mode, conn_state, w, h) = if has_host {
        ("host", "listening", 0u32, 0u32)
    } else {
        match client {
            Some((s, size)) => {
                let (cw, ch) = match size {
                    Some((a, b)) => (a, b),
                    None => (0u32, 0u32),
                };
                let name = match s {
                    ConnectionState::Disconnected => "disconnected",
                    ConnectionState::Connecting => "connecting",
                    ConnectionState::Connected { .. } => "connected",
                    ConnectionState::Error(_) => "error",
                };
                ("client", name, cw, ch)
            },
            None => ("idle", "disconnected", 0u32, 0u32),
        }
    };
    AppStatus {
        mode: String::from_str(mode),
        host_port: 9000,
        client_addr: String::new(),
        connection_state: String::from_str(conn_state),
        display_width: w,
        display_height: h,
    }
}

} // verus!
