//! The per-host outcome of one probe round, the fixed target set, and the
//! display bands derived from a probe's latency and from availability.
//!
//! Latency is carried in whole microseconds; the probe backend's
//! floating-point milliseconds are converted once at the edge.

use vstd::prelude::*;

verus! {

/// Latency above this many microseconds draws a warning.
pub const LATENCY_WARN_US: u64 = 100_000;

/// Latency below this many microseconds is considered good.
pub const LATENCY_GOOD_US: u64 = 50_000;

/// Seconds each probe round is given before a host counts as dropped.
pub const PROBE_TIMEOUT_SECS: u64 = 2;

/// Seconds between two probe rounds.
pub const POLL_INTERVAL_SECS: u64 = 1;

/// One host's outcome in a probe round: whether the echo was dropped and,
/// when it was answered, the observed latency in microseconds.
pub struct PingResponse {
    pub hostname: String,
    pub dropped: bool,
    pub latency_us: u64,
}

/// A semantic color class for the dashboard: good, worth a warning, or bad.
#[derive(Clone, Copy, Debug, PartialEq, Eq, Structural)]
pub enum Band {
    Good,
    Warn,
    Bad,
}

impl PingResponse {
    /// Packs one host's outcome.
    pub fn new(hostname: String, dropped: bool, latency_us: u64) -> (r: PingResponse)
        ensures
            r.hostname@ == hostname@,
            r.dropped == dropped,
            r.latency_us == latency_us,
    {
        PingResponse { hostname, dropped, latency_us }
    }

    /// True when the host answered but slower than the warning threshold.
    pub fn latency_warning(&self) -> (w: bool)
        ensures
            w == (!self.dropped && self.latency_us > LATENCY_WARN_US),
    {
        !self.dropped && self.latency_us > LATENCY_WARN_US
    }
}

/// The color class of an answered probe's latency: good below the good
/// threshold, bad above the warning threshold, a warning in between.
pub fn latency_band(latency_us: u64) -> (b: Band)
    ensures
        latency_us < LATENCY_GOOD_US ==> b == Band::Good,
        LATENCY_GOOD_US <= latency_us && latency_us <= LATENCY_WARN_US ==> b == Band::Warn,
        latency_us > LATENCY_WARN_US ==> b == Band::Bad,
{
    if latency_us < LATENCY_GOOD_US {
        Band::Good
    } else if latency_us <= LATENCY_WARN_US {
        Band::Warn
    } else {
        Band::Bad
    }
}

/// The color class of an availability figure given in hundredths of a
/// percent: bad up to 50%, a warning up to 80%, good above.
pub fn availability_band(basis_points: u64) -> (b: Band)
    ensures
        basis_points <= 5000 ==> b == Band::Bad,
        5000 < basis_points && basis_points <= 8000 ==> b == Band::Warn,
        basis_points > 8000 ==> b == Band::Good,
{
    if basis_points <= 5000 {
        Band::Bad
    } else if basis_points <= 8000 {
        Band::Warn
    } else {
        Band::Good
    }
}

/// The fixed probe targets: two public DNS resolvers and one open resolver.
pub fn target_hosts() -> (v: Vec<&'static str>)
    ensures
        v@.len() == 3,
        v@[0]@ == "8.8.8.8"@,
        v@[1]@ == "4.2.2.2"@,
        v@[2]@ == "208.67.222.222"@,
{
    let mut v: Vec<&'static str> = Vec::new();
    v.push("8.8.8.8");
    v.push("4.2.2.2");
    v.push("208.67.222.222");
    v
}

} // verus!
