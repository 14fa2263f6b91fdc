//! Server configuration.

use vstd::prelude::*;

verus! {

/// Configuration for the TCP server.
pub struct ServerConfig {
    /// TCP port to listen on.
    pub port: u16,
    /// Maximum number of simultaneous client connections.
    pub max_clients: usize,
}

impl Default for ServerConfig {
    /// Port 9900, at most 10 clients.
    fn default() -> (r: Self)
        ensures
            r.port == 9900,
            r.max_clients == 10,
    {
        ServerConfig { port: 9900, max_clients: 10 }
    }
}

} // verus!
