//! A TLS-terminating / plain-TCP tunneling proxy core: the CONNECT handshake
//! codec, the caching DNS resolution layer, and the relay policy engine that
//! enforces idle-timeout and bandwidth bounds on established tunnels.
//!
//! The surrounding process (socket accept loops, TLS termination, the actual
//! byte shuffling) lives outside this library and drives it with plain values:
//! buffered request bytes in, validated targets and wire responses out, and
//! clock readings for every time-dependent policy decision.

pub mod configuration;
pub mod http_tunnel_codec;
pub mod matcher;
pub mod proxy_target;
pub mod relay;
pub mod tunnel;
