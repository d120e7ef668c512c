//! The SOCKS5 subset spoken by the proxy: no-auth negotiation and CONNECT.

pub mod protocol;
pub mod state;
