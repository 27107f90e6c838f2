//! Per-connection correlation context and the outcome of a handshake attempt.

use vstd::prelude::*;

verus! {

/// Correlation id for one connection's lifetime. Generated once at accept
/// time (from a random source owned by the caller) and never used for
/// routing decisions.
#[derive(Copy, Clone, Debug, PartialEq, Eq, Structural)]
pub struct TunnelCtx {
    pub id: u128,
}

impl TunnelCtx {
    pub fn new(id: u128) -> (r: TunnelCtx)
        ensures
            r.id == id,
    {
        TunnelCtx { id }
    }
}

/// Outcome of the handshake phase. Exactly one variant per attempt; it drives
/// both the wire response code and whether the connection proceeds to relay.
#[derive(Copy, Clone, Debug, PartialEq, Eq, Structural)]
pub enum EstablishTunnelResult {
    Okay,
    OkWithNugget,
    BadRequest,
    Forbidden,
    OperationNotAllowed,
    RequestTimeout,
    BadGateway,
    GatewayTimeout,
    TooManyRequest,
    ServerError,
}

impl EstablishTunnelResult {
    /// The HTTP status code this outcome maps to on the wire.
    /// `OkWithNugget` has no wire encoding (no handshake response is sent);
    /// it shares code 200 here only so that every variant has a number.
    pub open spec fn spec_status_code(self) -> u16 {
        match self {
            EstablishTunnelResult::Okay => 200,
            EstablishTunnelResult::OkWithNugget => 200,
            EstablishTunnelResult::BadRequest => 400,
            EstablishTunnelResult::Forbidden => 403,
            EstablishTunnelResult::OperationNotAllowed => 405,
            EstablishTunnelResult::RequestTimeout => 408,
            EstablishTunnelResult::TooManyRequest => 429,
            EstablishTunnelResult::ServerError => 500,
            EstablishTunnelResult::BadGateway => 502,
            EstablishTunnelResult::GatewayTimeout => 504,
        }
    }

    pub fn status_code(&self) -> (r: u16)
        ensures
            r == self.spec_status_code(),
    {
        match self {
            EstablishTunnelResult::Okay => 200,
            EstablishTunnelResult::OkWithNugget => 200,
            EstablishTunnelResult::BadRequest => 400,
            EstablishTunnelResult::Forbidden => 403,
            EstablishTunnelResult::OperationNotAllowed => 405,
            EstablishTunnelResult::RequestTimeout => 408,
            EstablishTunnelResult::TooManyRequest => 429,
            EstablishTunnelResult::ServerError => 500,
            EstablishTunnelResult::BadGateway => 502,
            EstablishTunnelResult::GatewayTimeout => 504,
        }
    }

    /// Whether the connection may proceed to the relay phase after this
    /// handshake outcome. Every failure produces a response and closes;
    /// it never proceeds to relay.
    pub fn proceed_to_relay(&self) -> (r: bool)
        ensures
            r == (self is Okay || self is OkWithNugget),
    {
        match self {
            EstablishTunnelResult::Okay => true,
            EstablishTunnelResult::OkWithNugget => true,
            _ => false,
        }
    }
}

} // verus!
