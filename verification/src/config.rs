//! The orchestrator's options.

use vstd::prelude::*;

verus! {

/// Options of the orchestrator. Every option is explicit; none is read from
/// the environment.
#[derive(Debug, Clone, Copy, PartialEq, Eq)]
pub struct Config {
    /// Seconds after which a sighting that was not refreshed is stale.
    pub scan_ttl_seconds: u64,
    /// Bound, in milliseconds, on one backend's start attempt.
    pub backend_start_timeout_ms: u64,
    /// Bound, in milliseconds, on one backend's stop attempt.
    pub backend_stop_timeout_ms: u64,
    /// Whether sightings of one identity by different transports are merged
    /// into one peer.
    pub dedupe_window: bool,
}

impl Default for Config {
    /// A freshness window of 30 seconds, 5 seconds to start, 2 seconds to
    /// stop, with cross-transport merging.
    fn default() -> (r: Config)
        ensures
            r.scan_ttl_seconds == 30,
            r.backend_start_timeout_ms == 5000,
            r.backend_stop_timeout_ms == 2000,
            r.dedupe_window,
    {
        Config {
            scan_ttl_seconds: 30,
            backend_start_timeout_ms: 5000,
            backend_stop_timeout_ms: 2000,
            dedupe_window: true,
        }
    }
}

impl Config {
    /// The options with another freshness window.
    pub fn with_scan_ttl_seconds(self, seconds: u64) -> (r: Config)
        ensures
            r == (Config { scan_ttl_seconds: seconds, ..self }),
    {
        Config { scan_ttl_seconds: seconds, ..self }
    }

    /// The options with another bound on a start attempt.
    pub fn with_backend_start_timeout_ms(self, millis: u64) -> (r: Config)
        ensures
            r == (Config { backend_start_timeout_ms: millis, ..self }),
    {
        Config { backend_start_timeout_ms: millis, ..self }
    }

    /// The options with another bound on a stop attempt.
    pub fn with_backend_stop_timeout_ms(self, millis: u64) -> (r: Config)
        ensures
            r == (Config { backend_stop_timeout_ms: millis, ..self }),
    {
        Config { backend_stop_timeout_ms: millis, ..self }
    }

    /// The options with cross-transport merging switched on or off.
    pub fn with_dedupe_window(self, enabled: bool) -> (r: Config)
        ensures
            r == (Config { dedupe_window: enabled, ..self }),
    {
        Config { dedupe_window: enabled, ..self }
    }
}

} // verus!
