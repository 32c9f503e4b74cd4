use vstd::prelude::*;

verus! {

/// The server's own configuration: how often the simulation ticks, where
/// the transport binds, and how long a silent client lives.
pub struct ServerConfig {
    pub tick_rate: u64,
    pub bind_address: String,
    pub client_ttl_ms: u64,
}

impl ServerConfig {
    /// The length of one tick in milliseconds, from the rate in ticks per
    /// second. A rate of zero is rejected before the server starts.
    pub fn tick_length_ms(&self) -> (r: u64)
        requires
            self.tick_rate > 0,
        ensures
            r == 1000u64 / self.tick_rate,
    {
        1000 / self.tick_rate
    }
}

impl Default for ServerConfig {
    /// Sixty ticks a second, the loopback bind, half a second of grace.
    fn default() -> (r: ServerConfig)
        ensures
            r.tick_rate == 60,
            r.bind_address@ == "127.0.0.1:6142"@,
            r.client_ttl_ms == 500,
    {
        ServerConfig {
            tick_rate: 60,
            bind_address: "127.0.0.1:6142".to_owned(),
            client_ttl_ms: 500,
        }
    }
}

} // verus!
