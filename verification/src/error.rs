//! Why a session is torn down.

use vstd::prelude::*;

verus! {

/// The failures that end a SOCKS5 session.
#[derive(Debug, Clone, Copy, PartialEq, Eq, Structural)]
pub enum ProxyError {
    /// A frame did not start with the SOCKS5 version byte.
    InvalidVersion,
    /// The request carried a command other than CONNECT.
    UnsupportedCommand,
    /// The request carried an address type other than IPv4 or domain name.
    UnsupportedAddressType,
    /// The requested host is not a well-formed domain name.
    InvalidDomain,
    /// The DNS query could not be put on the wire format.
    DnsEncode,
    /// No reactor token is left for the outbound socket.
    TokensExhausted,
    /// A socket operation failed with something other than would-block.
    Io,
}

/// The broad classes of failure that the proxy tells apart.
#[derive(Debug, Clone, Copy, PartialEq, Eq, Structural)]
pub enum ErrorKind {
    /// Malformed or unsupported SOCKS5 bytes.
    Protocol,
    /// The target could not be reached.
    UpstreamUnreachable,
    /// Name resolution did not produce an address.
    DnsFailure,
    /// A socket failed underneath an established session.
    Transport,
}

impl ProxyError {
    pub open spec fn spec_kind(self) -> ErrorKind {
        match self {
            ProxyError::InvalidVersion => ErrorKind::Protocol,
            ProxyError::UnsupportedCommand => ErrorKind::Protocol,
            ProxyError::UnsupportedAddressType => ErrorKind::Protocol,
            ProxyError::InvalidDomain => ErrorKind::DnsFailure,
            ProxyError::DnsEncode => ErrorKind::DnsFailure,
            ProxyError::TokensExhausted => ErrorKind::UpstreamUnreachable,
            ProxyError::Io => ErrorKind::Transport,
        }
    }

    /// The class this failure belongs to.
    #[verifier::when_used_as_spec(spec_kind)]
    pub fn kind(self) -> (r: ErrorKind)
        ensures
            r == self.spec_kind(),
    {
        match self {
            ProxyError::InvalidVersion => ErrorKind::Protocol,
            ProxyError::UnsupportedCommand => ErrorKind::Protocol,
            ProxyError::UnsupportedAddressType => ErrorKind::Protocol,
            ProxyError::InvalidDomain => ErrorKind::DnsFailure,
            ProxyError::DnsEncode => ErrorKind::DnsFailure,
            ProxyError::TokensExhausted => ErrorKind::UpstreamUnreachable,
            ProxyError::Io => ErrorKind::Transport,
        }
    }

    pub open spec fn spec_message(self) -> Seq<char> {
        match self {
            ProxyError::InvalidVersion => "Invalid version"@,
            ProxyError::UnsupportedCommand => "Only CONNECT supported"@,
            ProxyError::UnsupportedAddressType => "Unsupported address type"@,
            ProxyError::InvalidDomain => "Invalid domain name"@,
            ProxyError::DnsEncode => "Failed to encode DNS message"@,
            ProxyError::TokensExhausted => "No reactor token left"@,
            ProxyError::Io => "Socket error"@,
        }
    }

    /// A short description for logs.
    pub fn message(self) -> (r: &'static str)
        ensures
            r@ == self.spec_message(),
    {
        match self {
            ProxyError::InvalidVersion => "Invalid version",
            ProxyError::UnsupportedCommand => "Only CONNECT supported",
            ProxyError::UnsupportedAddressType => "Unsupported address type",
            ProxyError::InvalidDomain => "Invalid domain name",
            ProxyError::DnsEncode => "Failed to encode DNS message",
            ProxyError::TokensExhausted => "No reactor token left",
            ProxyError::Io => "Socket error",
        }
    }
}

} // verus!
