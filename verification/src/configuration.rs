//! Composed policy for the two legs of a tunnel: the client-facing
//! connection (handshake deadline and relay policy) and the target-facing
//! connection (DNS cache TTL, allow-list, connect timeout and relay policy),
//! plus the mode the proxy runs in. Loading these from the command line or a
//! configuration file is an outside concern; this module holds the values
//! and their defaults.

use crate::matcher::TargetMatcher;
use crate::relay::RelayPolicy;
use crate::relay::NO_BANDWIDTH_LIMIT;
use crate::relay::NO_TIMEOUT_MS;
use vstd::prelude::*;

verus! {

/// Policy of the client-facing leg: how long the handshake may take, and the
/// relay policy applied to the client-facing half. Durations in milliseconds.
pub struct ClientConnectionConfig {
    pub initiation_timeout: u64,
    pub relay_policy: RelayPolicy,
}

/// Policy of the target-facing leg: DNS cache TTL, the allow-list pattern
/// for target addresses, the outbound connect timeout, and the relay policy
/// for the established tunnel. Durations in milliseconds.
pub struct TargetConnectionConfig {
    pub dns_cache_ttl: u64,
    pub allowed_targets: TargetMatcher,
    pub connection_timeout: u64,
    pub relay_policy: RelayPolicy,
}

/// The composed per-process tunnel policy, loaded once and then read-only.
pub struct TunnelConfig {
    pub client_connection: ClientConnectionConfig,
    pub target_connection: TargetConnectionConfig,
}

impl TunnelConfig {
    /// Both relay policies are well-formed.
    pub open spec fn wf(&self) -> bool {
        self.client_connection.relay_policy.wf() && self.target_connection.relay_policy.wf()
    }

    pub fn validate(&self) -> (r: bool)
        ensures
            r == self.wf(),
    {
        self.client_connection.relay_policy.idle_timeout > 0
            && self.client_connection.relay_policy.max_rate_bps > 0
            && self.target_connection.relay_policy.idle_timeout > 0
            && self.target_connection.relay_policy.max_rate_bps > 0
    }
}

impl Default for TunnelConfig {
    /// The policy used when no configuration file is given: every timeout is
    /// the no-timeout sentinel, no rate bound is enforced (no ceiling, no
    /// floor), and every target address is allowed.
    fn default() -> (r: TunnelConfig)
        ensures
            r.client_connection.initiation_timeout == NO_TIMEOUT_MS,
            r.client_connection.relay_policy == (RelayPolicy {
                idle_timeout: NO_TIMEOUT_MS,
                min_rate_bpm: 0,
                max_rate_bps: NO_BANDWIDTH_LIMIT,
            }),
            r.target_connection.dns_cache_ttl == NO_TIMEOUT_MS,
            r.target_connection.connection_timeout == NO_TIMEOUT_MS,
            r.target_connection.relay_policy == (RelayPolicy {
                idle_timeout: NO_TIMEOUT_MS,
                min_rate_bpm: 0,
                max_rate_bps: NO_BANDWIDTH_LIMIT,
            }),
            r.target_connection.allowed_targets.pattern() == ".*"@,
            r.wf(),
    {
        TunnelConfig {
            client_connection: ClientConnectionConfig {
                initiation_timeout: NO_TIMEOUT_MS,
                relay_policy: RelayPolicy {
                    idle_timeout: NO_TIMEOUT_MS,
                    min_rate_bpm: 0,
                    max_rate_bps: NO_BANDWIDTH_LIMIT,
                },
            },
            target_connection: TargetConnectionConfig {
                dns_cache_ttl: NO_TIMEOUT_MS,
                allowed_targets: TargetMatcher::match_all(),
                connection_timeout: NO_TIMEOUT_MS,
                relay_policy: RelayPolicy {
                    idle_timeout: NO_TIMEOUT_MS,
                    min_rate_bpm: 0,
                    max_rate_bps: NO_BANDWIDTH_LIMIT,
                },
            },
        }
    }
}

/// A loaded TLS server identity, as the plain material the TLS layer needs:
/// the PKCS#12 archive bytes and the password protecting it. Turning these
/// into a live credential is the TLS layer's work, outside the library.
pub struct TlsIdentity {
    pub pkcs12_der: Vec<u8>,
    pub password: String,
}

/// The protocol behavior of the process: plain HTTP CONNECT, CONNECT with
/// TLS termination (carrying the server identity), or raw TCP forwarding to
/// a fixed destination, bypassing the codec entirely.
pub enum ProxyMode {
    Http,
    Https(TlsIdentity),
    Tcp(String),
}

/// Everything the server needs to run: the mode, the address to bind, and
/// the tunnel policy.
pub struct ProxyConfiguration {
    pub mode: ProxyMode,
    pub bind_address: String,
    pub tunnel_config: TunnelConfig,
}

impl ProxyConfiguration {
    pub fn new(mode: ProxyMode, bind_address: String, tunnel_config: TunnelConfig) -> (r:
        ProxyConfiguration)
        ensures
            r.mode == mode,
            r.bind_address == bind_address,
            r.tunnel_config == tunnel_config,
    {
        ProxyConfiguration { mode, bind_address, tunnel_config }
    }
}

} // verus!
