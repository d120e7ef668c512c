use netkit::error::{ErrorKind, ProxyError};
use netkit::event::Reply;
use netkit::net::{IpAddress, SocketAddress};
use netkit::socks5::protocol::{
    create_auth_response, create_refused_response, create_success_response, format_host_endpoint,
    format_ipv4_endpoint, parse_domain_request, parse_greeting, parse_ipv4_request, parse_request,
    RequestInfo, ATYP_DOMAIN, ATYP_IPV4, BUFFER_SIZE, CMD_CONNECT, NO_AUTH, REP_CONN_REFUSED,
    REP_SUCCESS, SOCKS_VERSION,
};
use netkit::text::decimal_string;

#[test]
fn constants_have_their_wire_values() {
    assert_eq!(SOCKS_VERSION, 0x05);
    assert_eq!(NO_AUTH, 0x00);
    assert_eq!(CMD_CONNECT, 0x01);
    assert_eq!(ATYP_IPV4, 0x01);
    assert_eq!(ATYP_DOMAIN, 0x03);
    assert_eq!(REP_SUCCESS, 0x00);
    assert_eq!(REP_CONN_REFUSED, 0x05);
    assert_eq!(BUFFER_SIZE, 8192);
}

#[test]
fn success_response_is_ten_fixed_bytes() {
    assert_eq!(create_success_response(), [0x05, 0x00, 0x00, 0x01, 0, 0, 0, 0, 0, 0]);
}

#[test]
fn refused_response_differs_in_the_second_byte_only() {
    assert_eq!(create_refused_response(), [0x05, 0x05, 0x00, 0x01, 0, 0, 0, 0, 0, 0]);
}

#[test]
fn auth_response_selects_no_auth() {
    assert_eq!(create_auth_response(), [0x05, 0x00]);
}

#[test]
fn reply_bytes_match_the_frames() {
    assert_eq!(Reply::Auth.bytes(), vec![0x05, 0x00]);
    assert_eq!(Reply::Success.bytes(), vec![0x05, 0x00, 0x00, 0x01, 0, 0, 0, 0, 0, 0]);
    assert_eq!(Reply::Refused.bytes(), vec![0x05, 0x05, 0x00, 0x01, 0, 0, 0, 0, 0, 0]);
}

#[test]
fn decimal_string_renders_without_padding() {
    assert_eq!(decimal_string(0), "0");
    assert_eq!(decimal_string(7), "7");
    assert_eq!(decimal_string(10), "10");
    assert_eq!(decimal_string(255), "255");
    assert_eq!(decimal_string(1080), "1080");
    assert_eq!(decimal_string(65535), "65535");
}

#[test]
fn endpoints_are_rendered_as_host_colon_port() {
    assert_eq!(format_ipv4_endpoint(127, 0, 0, 1, 9), "127.0.0.1:9");
    assert_eq!(format_ipv4_endpoint(255, 255, 255, 255, 65535), "255.255.255.255:65535");
    assert_eq!(format_ipv4_endpoint(0, 0, 0, 0, 0), "0.0.0.0:0");
    assert_eq!(format_host_endpoint("x.test", 9), "x.test:9");
    assert_eq!(format_host_endpoint("", 443), ":443");
}

#[test]
fn greeting_needs_two_bytes_and_all_methods() {
    assert_eq!(parse_greeting(&[]), Ok(false));
    assert_eq!(parse_greeting(&[0x05]), Ok(false));
    assert_eq!(parse_greeting(&[0x05, 0x02, 0x00]), Ok(false));
    assert_eq!(parse_greeting(&[0x05, 0x02, 0x00, 0x01]), Ok(true));
    assert_eq!(parse_greeting(&[0x05, 0x00]), Ok(true));
}

#[test]
fn greeting_ignores_the_methods_offered() {
    assert_eq!(parse_greeting(&[0x05, 0x01, 0x00]), Ok(true));
    assert_eq!(parse_greeting(&[0x05, 0x01, 0x02]), Ok(true));
    assert_eq!(parse_greeting(&[0x05, 0x03, 0xff, 0x80, 0x7f]), Ok(true));
    let mut longest = vec![0x05, 0xff];
    longest.extend(std::iter::repeat(0xaa).take(255));
    assert_eq!(longest.len(), 257);
    assert_eq!(parse_greeting(&longest), Ok(true));
    assert_eq!(parse_greeting(&longest[..256]), Ok(false));
}

#[test]
fn greeting_version_is_judged_once_the_frame_is_whole() {
    assert_eq!(parse_greeting(&[0x04, 0x01]), Ok(false));
    assert_eq!(parse_greeting(&[0x04, 0x01, 0x00]), Err(ProxyError::InvalidVersion));
    assert_eq!(parse_greeting(&[0x00, 0x00]), Err(ProxyError::InvalidVersion));
}

#[test]
fn request_with_ipv4_address_is_resolved() {
    let frame = [0x05, 0x01, 0x00, 0x01, 0x7f, 0x00, 0x00, 0x01, 0x00, 0x09];
    assert_eq!(
        parse_request(&frame),
        Ok(Some(RequestInfo::Resolved {
            addr: SocketAddress { ip: IpAddress::V4(127, 0, 0, 1), port: 9 },
            display: "127.0.0.1:9".to_string(),
        }))
    );
}

#[test]
fn request_port_is_big_endian() {
    let frame = [0x05, 0x01, 0x00, 0x01, 10, 20, 30, 40, 0x1f, 0x90];
    assert_eq!(
        parse_request(&frame),
        Ok(Some(RequestInfo::Resolved {
            addr: SocketAddress::v4(10, 20, 30, 40, 8080),
            display: "10.20.30.40:8080".to_string(),
        }))
    );
}

#[test]
fn request_with_domain_needs_resolution() {
    let mut frame = vec![0x05, 0x01, 0x00, 0x03, 0x06];
    frame.extend_from_slice(b"x.test");
    frame.extend_from_slice(&[0x00, 0x09]);
    assert_eq!(
        parse_request(&frame),
        Ok(Some(RequestInfo::NeedsResolution { domain: "x.test".to_string(), port: 9 }))
    );
}

#[test]
fn request_with_empty_domain_is_whole_after_the_port() {
    let frame = [0x05, 0x01, 0x00, 0x03, 0x00, 0x01, 0xbb];
    assert_eq!(
        parse_request(&frame),
        Ok(Some(RequestInfo::NeedsResolution { domain: String::new(), port: 443 }))
    );
}

#[test]
fn request_domain_is_decoded_leniently() {
    let frame = [0x05, 0x01, 0x00, 0x03, 0x03, b'a', 0xff, b'b', 0x00, 0x50];
    assert_eq!(
        parse_request(&frame),
        Ok(Some(RequestInfo::NeedsResolution { domain: "a\u{fffd}b".to_string(), port: 80 }))
    );
}

#[test]
fn request_that_is_short_is_incomplete() {
    assert_eq!(parse_request(&[]), Ok(None));
    assert_eq!(parse_request(&[0x05, 0x01, 0x00]), Ok(None));
    assert_eq!(parse_request(&[0x05, 0x01, 0x00, 0x01, 127, 0, 0, 1, 0]), Ok(None));
    assert_eq!(parse_request(&[0x05, 0x01, 0x00, 0x03]), Ok(None));
    assert_eq!(parse_request(&[0x05, 0x01, 0x00, 0x03, 0x02, b'a', b'b', 0x00]), Ok(None));
}

#[test]
fn request_short_of_four_bytes_is_not_judged() {
    assert_eq!(parse_request(&[0x04, 0x02, 0x00]), Ok(None));
}

#[test]
fn request_with_wrong_version_is_an_error() {
    let frame = [0x04, 0x01, 0x00, 0x01, 127, 0, 0, 1, 0, 9];
    assert_eq!(parse_request(&frame), Err(ProxyError::InvalidVersion));
}

#[test]
fn request_with_other_command_is_an_error() {
    let bind = [0x05, 0x02, 0x00, 0x01, 127, 0, 0, 1, 0, 9];
    assert_eq!(parse_request(&bind), Err(ProxyError::UnsupportedCommand));
    let udp = [0x05, 0x03, 0x00, 0x01];
    assert_eq!(parse_request(&udp), Err(ProxyError::UnsupportedCommand));
}

#[test]
fn request_with_ipv6_address_type_is_an_error() {
    let frame = [0x05, 0x01, 0x00, 0x04, 0, 0, 0, 0];
    assert_eq!(parse_request(&frame), Err(ProxyError::UnsupportedAddressType));
    assert_eq!(parse_request(&[0x05, 0x01, 0x00, 0x00]), Err(ProxyError::UnsupportedAddressType));
}

#[test]
fn version_is_checked_before_command_and_address_type() {
    assert_eq!(parse_request(&[0x06, 0x09, 0x00, 0x09]), Err(ProxyError::InvalidVersion));
    assert_eq!(parse_request(&[0x05, 0x09, 0x00, 0x09]), Err(ProxyError::UnsupportedCommand));
}

#[test]
fn request_ignores_reserved_byte_and_trailing_bytes() {
    let frame = [0x05, 0x01, 0x7e, 0x01, 1, 2, 3, 4, 0, 80, 0xde, 0xad];
    assert_eq!(
        parse_request(&frame),
        Ok(Some(RequestInfo::Resolved {
            addr: SocketAddress::v4(1, 2, 3, 4, 80),
            display: "1.2.3.4:80".to_string(),
        }))
    );
}

#[test]
fn address_specific_parsers_agree_with_the_dispatcher() {
    let v4 = [0x05, 0x01, 0x00, 0x01, 8, 8, 4, 4, 0, 53];
    assert_eq!(parse_ipv4_request(&v4), parse_request(&v4));
    assert_eq!(parse_ipv4_request(&v4[..9]), Ok(None));
    let name = [0x05, 0x01, 0x00, 0x03, 0x01, b'h', 0x01, 0x00];
    assert_eq!(parse_domain_request(&name), parse_request(&name));
    assert_eq!(
        parse_domain_request(&name),
        Ok(Some(RequestInfo::NeedsResolution { domain: "h".to_string(), port: 256 }))
    );
    assert_eq!(parse_domain_request(&name[..7]), Ok(None));
}

#[test]
fn socket_address_tells_its_family() {
    assert!(SocketAddress::v4(1, 2, 3, 4, 5).is_ipv4());
    assert!(!SocketAddress { ip: IpAddress::V6(1), port: 53 }.is_ipv4());
}

#[test]
fn errors_have_a_kind_and_a_message() {
    assert_eq!(ProxyError::InvalidVersion.kind(), ErrorKind::Protocol);
    assert_eq!(ProxyError::UnsupportedCommand.kind(), ErrorKind::Protocol);
    assert_eq!(ProxyError::UnsupportedAddressType.kind(), ErrorKind::Protocol);
    assert_eq!(ProxyError::TokensExhausted.kind(), ErrorKind::UpstreamUnreachable);
    assert_eq!(ProxyError::InvalidDomain.kind(), ErrorKind::DnsFailure);
    assert_eq!(ProxyError::DnsEncode.kind(), ErrorKind::DnsFailure);
    assert_eq!(ProxyError::Io.kind(), ErrorKind::Transport);
    assert_eq!(ProxyError::InvalidVersion.message(), "Invalid version");
    assert_eq!(ProxyError::UnsupportedCommand.message(), "Only CONNECT supported");
    assert_eq!(ProxyError::UnsupportedAddressType.message(), "Unsupported address type");
    assert_eq!(ProxyError::InvalidDomain.message(), "Invalid domain name");
    assert_eq!(ProxyError::DnsEncode.message(), "Failed to encode DNS message");
    assert_eq!(ProxyError::TokensExhausted.message(), "No reactor token left");
    assert_eq!(ProxyError::Io.message(), "Socket error");
}
