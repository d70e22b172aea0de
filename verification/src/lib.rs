//! Enumerates TCP sockets in the LISTEN state and correlates each with the
//! process that owns it, producing enriched records (port, owning process,
//! working directory, user, well-known service name).

pub mod correlate;
pub mod output;
pub mod records;
pub mod scan;
pub mod services;
pub mod text;
pub mod ui_state;

use vstd::prelude::*;

verus! {

/// A listening port is privileged when it lies below this bound.
pub const PRIVILEGED_PORT_BOUND: u16 = 1024;

/// Whether a port requires elevated rights to bind.
pub fn is_privileged_port(port: u16) -> (r: bool)
    ensures
        r == (port < PRIVILEGED_PORT_BOUND),
{
    port < PRIVILEGED_PORT_BOUND
}

} // verus!
