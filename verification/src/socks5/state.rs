use vstd::prelude::*;

verus! {

/// Phase of a SOCKS5 session.
#[derive(Debug, Clone, Copy, PartialEq, Eq, Structural)]
pub enum ClientState {
    /// Waiting for the client's greeting.
    Handshake,
    /// Greeting answered; waiting for the CONNECT request.
    Request,
    /// A DNS query for the requested domain is in flight.
    Resolving,
    /// The outbound connect has been started and has not completed yet.
    Connecting,
    /// Bytes are relayed verbatim in both directions.
    Tunneling,
}

} // verus!
