use vstd::prelude::*;

verus! {

/// Port the metrics endpoint listens on unless configured otherwise.
pub const DEFAULT_SERVER_PORT: u16 = 8080;

/// Configuration of the latency tracer.
#[derive(Debug)]
pub struct Settings {
    pub server_port: u16,
}

impl Default for Settings {
    fn default() -> (r: Settings)
        ensures
            r.server_port == DEFAULT_SERVER_PORT,
    {
        Settings { server_port: DEFAULT_SERVER_PORT }
    }
}

impl Settings {
    /// Applies the `server-port` parameter, when one was given. The value
    /// is kept modulo 2^16, as a cast to a port number does.
    pub fn update_server_port(&mut self, server_port: Option<u32>)
        ensures
            match server_port {
                Some(v) => final(self).server_port == (v % 65536) as u16,
                None => final(self).server_port == old(self).server_port,
            },
    {
        if let Some(v) = server_port {
            self.server_port = (v % 65536) as u16;
        }
    }
}

/// Whether a newly created element should start the metrics endpoint: only
/// a pipeline does, only with a port configured, and only once per process.
pub fn should_start_metrics_server(is_pipeline: bool, port: u16, already_started: bool) -> (r: bool)
    ensures
        r == (is_pipeline && port > 0 && !already_started),
{
    is_pipeline && port > 0 && !already_started
}

} // verus!
