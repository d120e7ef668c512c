//! Frames of the SOCKS5 subset: greeting, CONNECT request, and replies.

use crate::error::ProxyError;
use crate::net::{IpAddress, SocketAddress};
use crate::text::{decimal, decimal_string, lossy_string, lossy_text};
use vstd::prelude::*;
use vstd::slice::slice_subrange;
use vstd::string::*;

verus! {

pub const SOCKS_VERSION: u8 = 0x05;

pub const NO_AUTH: u8 = 0x00;

pub const CMD_CONNECT: u8 = 0x01;

pub const ATYP_IPV4: u8 = 0x01;

pub const ATYP_DOMAIN: u8 = 0x03;

pub const REP_SUCCESS: u8 = 0x00;

pub const REP_CONN_REFUSED: u8 = 0x05;

/// Capacity of each relay buffer, and the most a single read may take.
pub const BUFFER_SIZE: usize = 8192;

/// The longest greeting: version, method count, and 255 methods.
pub const MAX_GREETING_SIZE: usize = 257;

/// Capacity of the scratch buffer in which a request is assembled.
pub const REQUEST_SCRATCH_SIZE: usize = 512;

/// The target named by a CONNECT request.
#[derive(Debug, PartialEq, Eq)]
pub enum RequestInfo {
    /// A literal address that can be connected to at once.
    Resolved { addr: SocketAddress, display: String },
    /// A host name that has to be looked up first.
    NeedsResolution { domain: String, port: u16 },
}

/// Mathematical value of a [`RequestInfo`].
pub enum RequestInfoView {
    Resolved { addr: SocketAddress, display: Seq<char> },
    NeedsResolution { domain: Seq<char>, port: u16 },
}

impl View for RequestInfo {
    type V = RequestInfoView;

    open spec fn view(&self) -> RequestInfoView {
        match *self {
            RequestInfo::Resolved { addr, display } => RequestInfoView::Resolved {
                addr,
                display: display@,
            },
            RequestInfo::NeedsResolution { domain, port } => RequestInfoView::NeedsResolution {
                domain: domain@,
                port,
            },
        }
    }
}

/// The 16-bit integer whose big-endian encoding is `hi lo`.
pub open spec fn be16(hi: u8, lo: u8) -> u16 {
    (hi as int * 256 + lo as int) as u16
}

/// `a.b.c.d:port`, every number in decimal.
pub open spec fn ipv4_display(a: u8, b: u8, c: u8, d: u8, port: u16) -> Seq<char> {
    decimal(a as nat) + seq!['.'] + decimal(b as nat) + seq!['.'] + decimal(c as nat) + seq!['.']
        + decimal(d as nat) + seq![':'] + decimal(port as nat)
}

/// `host:port`, the port in decimal.
pub open spec fn host_display(host: Seq<char>, port: u16) -> Seq<char> {
    host + seq![':'] + decimal(port as nat)
}

/// Whether `buf` starts with a whole greeting and, if so, whether it is
/// acceptable. `Ok(false)` asks for more bytes. The version byte is judged
/// only once the method list it announces is complete; the methods themselves
/// are never looked at.
pub open spec fn parse_greeting_spec(buf: Seq<u8>) -> Result<bool, ProxyError> {
    if buf.len() < 2 || buf.len() < 2 + buf[1] as int {
        Ok(false)
    } else if buf[0] != SOCKS_VERSION {
        Err(ProxyError::InvalidVersion)
    } else {
        Ok(true)
    }
}

/// The request `VER CMD RSV 0x01 A B C D PORT` once its ten bytes are there.
pub open spec fn parse_ipv4_request_spec(buf: Seq<u8>) -> Result<
    Option<RequestInfoView>,
    ProxyError,
> {
    if buf.len() < 10 {
        Ok(None)
    } else {
        let port = be16(buf[8], buf[9]);
        Ok(
            Some(
                RequestInfoView::Resolved {
                    addr: SocketAddress { ip: IpAddress::V4(buf[4], buf[5], buf[6], buf[7]), port },
                    display: ipv4_display(buf[4], buf[5], buf[6], buf[7], port),
                },
            ),
        )
    }
}

/// The request `VER CMD RSV 0x03 LEN NAME PORT` once `LEN`, the name and the
/// port are all there. The name is decoded leniently.
pub open spec fn parse_domain_request_spec(buf: Seq<u8>) -> Result<
    Option<RequestInfoView>,
    ProxyError,
> {
    if buf.len() < 5 || buf.len() < 5 + buf[4] as int + 2 {
        Ok(None)
    } else {
        let len = buf[4] as int;
        Ok(
            Some(
                RequestInfoView::NeedsResolution {
                    domain: lossy_text(buf.subrange(5, 5 + len)),
                    port: be16(buf[5 + len], buf[5 + len + 1]),
                },
            ),
        )
    }
}

/// Meaning of the bytes received so far as a CONNECT request: `Ok(None)`
/// while a field is still short, the target once the frame is whole, and an
/// error as soon as the version, the command or the address type is seen to
/// be unacceptable. The reserved byte and anything after the frame are
/// ignored.
pub open spec fn parse_request_spec(buf: Seq<u8>) -> Result<Option<RequestInfoView>, ProxyError> {
    if buf.len() < 4 {
        Ok(None)
    } else if buf[0] != SOCKS_VERSION {
        Err(ProxyError::InvalidVersion)
    } else if buf[1] != CMD_CONNECT {
        Err(ProxyError::UnsupportedCommand)
    } else if buf[3] == ATYP_IPV4 {
        parse_ipv4_request_spec(buf)
    } else if buf[3] == ATYP_DOMAIN {
        parse_domain_request_spec(buf)
    } else {
        Err(ProxyError::UnsupportedAddressType)
    }
}

/// How a parse result relates to its specification: same outcome, and the
/// same target up to the view.
pub open spec fn request_matches(
    r: Result<Option<RequestInfo>, ProxyError>,
    expected: Result<Option<RequestInfoView>, ProxyError>,
) -> bool {
    match r {
        Ok(Some(info)) => expected == Ok::<Option<RequestInfoView>, ProxyError>(Some(info@)),
        Ok(None) => expected == Ok::<Option<RequestInfoView>, ProxyError>(None),
        Err(e) => expected == Err::<Option<RequestInfoView>, ProxyError>(e),
    }
}

fn read_be16(hi: u8, lo: u8) -> (r: u16)
    ensures
        r == be16(hi, lo),
{
    (hi as u16) * 256 + (lo as u16)
}

/// Renders `a.b.c.d:port`.
pub fn format_ipv4_endpoint(a: u8, b: u8, c: u8, d: u8, port: u16) -> (r: String)
    ensures
        r@ == ipv4_display(a, b, c, d, port),
{
    proof {
        reveal_strlit(".");
        reveal_strlit(":");
    }
    let s = decimal_string(a as u16).concat(".");
    let s = s.concat(decimal_string(b as u16).as_str()).concat(".");
    let s = s.concat(decimal_string(c as u16).as_str()).concat(".");
    let s = s.concat(decimal_string(d as u16).as_str()).concat(":");
    s.concat(decimal_string(port).as_str())
}

/// Renders `host:port`.
pub fn format_host_endpoint(host: &str, port: u16) -> (r: String)
    ensures
        r@ == host_display(host@, port),
{
    proof {
        reveal_strlit(":");
    }
    String::from_str(host).concat(":").concat(decimal_string(port).as_str())
}

/// Judges the bytes received so far as a greeting.
pub fn parse_greeting(buf: &[u8]) -> (r: Result<bool, ProxyError>)
    ensures
        r == parse_greeting_spec(buf@),
{
    if buf.len() < 2 {
        return Ok(false);
    }
    let nmethods = buf[1] as usize;
    if buf.len() < 2 + nmethods {
        return Ok(false);
    }
    if buf[0] != SOCKS_VERSION {
        return Err(ProxyError::InvalidVersion);
    }
    Ok(true)
}

/// Parses the bytes received so far as a CONNECT request.
pub fn parse_request(buf: &[u8]) -> (r: Result<Option<RequestInfo>, ProxyError>)
    ensures
        request_matches(r, parse_request_spec(buf@)),
{
    if buf.len() < 4 {
        return Ok(None);
    }
    let version = buf[0];
    let cmd = buf[1];
    let atyp = buf[3];

    if version != SOCKS_VERSION {
        return Err(ProxyError::InvalidVersion);
    }
    if cmd != CMD_CONNECT {
        return Err(ProxyError::UnsupportedCommand);
    }
    if atyp == ATYP_IPV4 {
        parse_ipv4_request(buf)
    } else if atyp == ATYP_DOMAIN {
        parse_domain_request(buf)
    } else {
        Err(ProxyError::UnsupportedAddressType)
    }
}

/// Parses a request whose address type is IPv4.
pub fn parse_ipv4_request(buf: &[u8]) -> (r: Result<Option<RequestInfo>, ProxyError>)
    ensures
        request_matches(r, parse_ipv4_request_spec(buf@)),
{
    if buf.len() < 10 {
        return Ok(None);
    }
    let port = read_be16(buf[8], buf[9]);
    let display = format_ipv4_endpoint(buf[4], buf[5], buf[6], buf[7], port);
    Ok(
        Some(
            RequestInfo::Resolved {
                addr: SocketAddress { ip: IpAddress::V4(buf[4], buf[5], buf[6], buf[7]), port },
                display,
            },
        ),
    )
}

/// Parses a request whose address type is a domain name.
pub fn parse_domain_request(buf: &[u8]) -> (r: Result<Option<RequestInfo>, ProxyError>)
    ensures
        request_matches(r, parse_domain_request_spec(buf@)),
{
    if buf.len() < 5 {
        return Ok(None);
    }
    let len = buf[4] as usize;
    if buf.len() < 5 + len + 2 {
        return Ok(None);
    }
    let domain = lossy_string(slice_subrange(buf, 5, 5 + len));
    let port = read_be16(buf[5 + len], buf[5 + len + 1]);
    Ok(Some(RequestInfo::NeedsResolution { domain, port }))
}

/// The ten bytes of a reply frame carrying reply code `rep`: version, code,
/// reserved, address type IPv4, and an all-zero bound address and port.
pub open spec fn reply_frame(rep: u8) -> Seq<u8> {
    seq![SOCKS_VERSION, rep, 0x00u8, ATYP_IPV4, 0u8, 0u8, 0u8, 0u8, 0u8, 0u8]
}

/// The two bytes that answer a greeting: version, then the no-auth method.
pub open spec fn auth_frame() -> Seq<u8> {
    seq![SOCKS_VERSION, NO_AUTH]
}

pub fn create_success_response() -> (r: [u8; 10])
    ensures
        r@ == reply_frame(REP_SUCCESS),
{
    [SOCKS_VERSION, REP_SUCCESS, 0x00, 0x01, 0, 0, 0, 0, 0, 0]
}

pub fn create_refused_response() -> (r: [u8; 10])
    ensures
        r@ == reply_frame(REP_CONN_REFUSED),
{
    [SOCKS_VERSION, REP_CONN_REFUSED, 0x00, 0x01, 0, 0, 0, 0, 0, 0]
}

pub fn create_auth_response() -> (r: [u8; 2])
    ensures
        r@ == auth_frame(),
{
    [SOCKS_VERSION, NO_AUTH]
}

} // verus!
