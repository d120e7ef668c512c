use hickory_proto::op::{Message, MessageType, OpCode, Query, ResponseCode};
use hickory_proto::rr::rdata::A;
use hickory_proto::rr::{Name, RData, Record, RecordType};
use hickory_proto::serialize::binary::BinEncodable;
use netkit::connection::{Connection, EndpointKind};
use netkit::dns::{Datagram, DnsEvent};
use netkit::event::{Action, Interest, ReadOutcome, Readiness, Reply, WriteOutcome};
use netkit::net::SocketAddress;
use netkit::server::{Accepted, Server, DNS, FIRST_CONNECTION_ID, FIRST_TOKEN, SERVER};
use netkit::socks5::state::ClientState;

const READ_ONLY: Interest = Interest { readable: true, writable: false };
const READ_WRITE: Interest = Interest { readable: true, writable: true };
const READABLE: Readiness = Readiness { readable: true, writable: false, error: false };
const WRITABLE: Readiness = Readiness { readable: false, writable: true, error: false };

fn upstream() -> SocketAddress {
    SocketAddress::v4(192, 0, 2, 53, 53)
}

fn peer(port: u16) -> SocketAddress {
    SocketAddress::v4(198, 51, 100, 7, port)
}

fn data(bytes: &[u8]) -> ReadOutcome {
    ReadOutcome::Data(bytes.to_vec())
}

fn watch(token: usize, interest: Interest) -> Action {
    Action::Reregister { token, interest }
}

fn answer(id: u16, host: &str, code: ResponseCode, addresses: &[(u8, u8, u8, u8)]) -> Datagram {
    let name = Name::from_utf8(host).unwrap();
    let mut msg = Message::new();
    msg.set_id(id)
        .set_message_type(MessageType::Response)
        .set_op_code(OpCode::Query)
        .set_response_code(code);
    msg.add_query(Query::query(name.clone(), RecordType::A));
    for (a, b, c, d) in addresses {
        msg.add_answer(Record::from_rdata(name.clone(), 30, RData::A(A::new(*a, *b, *c, *d))));
    }
    Datagram { data: msg.to_bytes().unwrap(), from: upstream() }
}

fn open_session(server: &mut Server) -> Accepted {
    server.accept_connection(peer(40000)).unwrap()
}

fn greeted(server: &mut Server) -> Accepted {
    let accepted = open_session(server);
    let actions = server.handle_read(accepted.token, &data(&[0x05, 0x01, 0x00]), 0);
    assert_eq!(
        actions,
        vec![
            Action::Send { token: accepted.token, reply: Reply::Auth },
            watch(accepted.token, READ_ONLY),
        ]
    );
    accepted
}

fn state_of(server: &Server, conn_id: usize) -> Option<ClientState> {
    server.connection(conn_id).map(|c| c.state)
}

fn connecting_to_echo(server: &mut Server) -> (Accepted, usize) {
    let accepted = greeted(server);
    let request = [0x05, 0x01, 0x00, 0x01, 0x7f, 0x00, 0x00, 0x01, 0x00, 0x09];
    let actions = server.handle_read(accepted.token, &data(&request), 0);
    let target = accepted.token + 1;
    assert_eq!(
        actions,
        vec![
            Action::Connect { token: target, addr: SocketAddress::v4(127, 0, 0, 1, 9) },
            watch(accepted.token, READ_ONLY),
            watch(target, READ_WRITE),
        ]
    );
    (accepted, target)
}

fn tunneling(server: &mut Server) -> (Accepted, usize) {
    let (accepted, target) = connecting_to_echo(server);
    let actions = server.handle_connection_event(target, WRITABLE);
    assert_eq!(
        actions,
        vec![
            Action::Send { token: accepted.token, reply: Reply::Success },
            watch(accepted.token, READ_ONLY),
            watch(target, READ_ONLY),
        ]
    );
    assert_eq!(state_of(server, accepted.conn_id), Some(ClientState::Tunneling));
    (accepted, target)
}

fn resolving(server: &mut Server, now: u64) -> (Accepted, u16) {
    let accepted = greeted(server);
    let mut request = vec![0x05, 0x01, 0x00, 0x03, 0x06];
    request.extend_from_slice(b"x.test");
    request.extend_from_slice(&[0x00, 0x09]);
    let mut actions = server.handle_read(accepted.token, &data(&request), now);
    assert_eq!(actions.len(), 2);
    assert_eq!(actions.pop(), Some(watch(accepted.token, READ_ONLY)));
    let query_id = match actions.pop() {
        Some(Action::Query { query_id, datagram }) => {
            assert_eq!(&datagram[..2], &query_id.to_be_bytes());
            query_id
        }
        other => panic!("expected a query, got {:?}", other),
    };
    assert_eq!(state_of(server, accepted.conn_id), Some(ClientState::Resolving));
    (accepted, query_id)
}

fn assert_table_empty(server: &Server) {
    assert_eq!(server.connection_count(), 0);
    assert_eq!(server.token_count(), 0);
}

#[test]
fn reserved_tokens_and_first_ids() {
    assert_eq!(SERVER, 0);
    assert_eq!(DNS, 1);
    assert_eq!(FIRST_TOKEN, 2);
    assert_eq!(FIRST_CONNECTION_ID, 1);
}

#[test]
fn new_server_is_empty() {
    let server = Server::new(upstream());
    assert_table_empty(&server);
    assert_eq!(server.dns_resolver().resolver_addr(), upstream());
    assert_eq!(server.route(2), None);
    assert!(server.connection(1).is_none());
}

#[test]
fn new_connection_starts_in_handshake() {
    let conn = Connection::new(5, peer(1));
    assert_eq!(conn.client_token, 5);
    assert_eq!(conn.client_addr, peer(1));
    assert_eq!(conn.target_token, None);
    assert_eq!(conn.state, ClientState::Handshake);
    assert!(conn.client_buf.is_empty());
    assert!(conn.client_to_target.is_empty());
    assert!(conn.target_to_client.is_empty());
    assert!(!conn.client_closed);
    assert!(!conn.target_closed);
    assert_eq!(conn.requested_endpoint, None);
    assert!(!conn.should_close());
}

#[test]
fn should_close_follows_the_half_close_policy() {
    let mut conn = Connection::new(2, peer(1));
    conn.client_closed = true;
    assert!(conn.should_close());
    conn.target_to_client = vec![1];
    assert!(!conn.should_close());
    conn.target_closed = true;
    assert!(conn.should_close());
    conn.client_to_target = vec![2];
    assert!(!conn.should_close());
    conn.client_closed = false;
    conn.target_to_client.clear();
    assert!(!conn.should_close());
    conn.client_to_target.clear();
    assert!(conn.should_close());
}

#[test]
fn accept_hands_out_increasing_ids_and_tokens() {
    let mut server = Server::new(upstream());
    let admitted = server.accept_connections(&vec![peer(1), peer(2), peer(3)]);
    assert_eq!(
        admitted,
        vec![
            Some(Accepted { conn_id: 1, token: 2 }),
            Some(Accepted { conn_id: 2, token: 3 }),
            Some(Accepted { conn_id: 3, token: 4 }),
        ]
    );
    assert_eq!(server.connection_count(), 3);
    assert_eq!(server.token_count(), 3);
    assert_eq!(server.route(3), Some((2, EndpointKind::Client)));
    assert_eq!(server.connection(2).unwrap().client_addr, peer(2));
    assert_eq!(server.route(SERVER), None);
    assert_eq!(server.route(DNS), None);
    assert!(server.accept_connections(&vec![]).is_empty());
}

#[test]
fn tokens_and_ids_are_not_reused() {
    let mut server = Server::new(upstream());
    let first = open_session(&mut server);
    server.handle_read(first.token, &ReadOutcome::Eof, 0);
    assert_table_empty(&server);
    let second = open_session(&mut server);
    assert_eq!(second, Accepted { conn_id: first.conn_id + 1, token: first.token + 1 });
}

#[test]
fn readable_client_is_read_for_a_greeting() {
    let mut server = Server::new(upstream());
    let accepted = open_session(&mut server);
    assert_eq!(
        server.handle_connection_event(accepted.token, READABLE),
        vec![Action::Read { token: accepted.token, max_len: 257 }]
    );
}

#[test]
fn unknown_token_is_ignored() {
    let mut server = Server::new(upstream());
    open_session(&mut server);
    let everything = Readiness { readable: true, writable: true, error: true };
    assert!(server.handle_connection_event(99, everything).is_empty());
    assert!(server.handle_read(99, &data(&[5, 1, 0]), 0).is_empty());
    assert!(server.handle_write(99, WriteOutcome::Written(3)).is_empty());
    assert!(server.handle_failure(99).is_empty());
    assert!(server.handle_query_failure(9).is_empty());
    assert_eq!(server.connection_count(), 1);
}

#[test]
fn greeting_is_answered_with_no_auth() {
    let mut server = Server::new(upstream());
    let accepted = greeted(&mut server);
    assert_eq!(state_of(&server, accepted.conn_id), Some(ClientState::Request));
    assert!(server.connection(accepted.conn_id).unwrap().client_buf.is_empty());
}

#[test]
fn greeting_is_accepted_for_every_method_count() {
    for count in 1..=255usize {
        let mut server = Server::new(upstream());
        let accepted = open_session(&mut server);
        let mut greeting = vec![0x05, count as u8];
        greeting.extend((0..count).map(|m| (m * 7 + count) as u8));
        let actions = server.handle_read(accepted.token, &ReadOutcome::Data(greeting), 0);
        assert_eq!(
            actions,
            vec![
                Action::Send { token: accepted.token, reply: Reply::Auth },
                watch(accepted.token, READ_ONLY),
            ]
        );
        assert_eq!(state_of(&server, accepted.conn_id), Some(ClientState::Request));
    }
}

#[test]
fn greeting_may_arrive_in_pieces() {
    let mut server = Server::new(upstream());
    let accepted = open_session(&mut server);
    assert_eq!(
        server.handle_read(accepted.token, &data(&[0x05]), 0),
        vec![watch(accepted.token, READ_ONLY)]
    );
    assert_eq!(
        server.handle_connection_event(accepted.token, READABLE),
        vec![Action::Read { token: accepted.token, max_len: 256 }]
    );
    assert_eq!(
        server.handle_read(accepted.token, &data(&[0x02, 0x00]), 0),
        vec![watch(accepted.token, READ_ONLY)]
    );
    assert_eq!(state_of(&server, accepted.conn_id), Some(ClientState::Handshake));
    assert_eq!(
        server.handle_read(accepted.token, &data(&[0x01]), 0),
        vec![
            Action::Send { token: accepted.token, reply: Reply::Auth },
            watch(accepted.token, READ_ONLY),
        ]
    );
}

#[test]
fn wrong_version_in_greeting_closes_without_reply() {
    for version in [0x00u8, 0x04, 0x06, 0xff] {
        let mut server = Server::new(upstream());
        let accepted = open_session(&mut server);
        let actions = server.handle_read(accepted.token, &data(&[version, 0x01, 0x00]), 0);
        assert_eq!(
            actions,
            vec![Action::Close {
                conn_id: accepted.conn_id,
                client_token: accepted.token,
                target_token: None,
            }]
        );
        assert_table_empty(&server);
    }
}

#[test]
fn would_block_changes_nothing() {
    let mut server = Server::new(upstream());
    let accepted = open_session(&mut server);
    assert_eq!(
        server.handle_read(accepted.token, &ReadOutcome::WouldBlock, 0),
        vec![watch(accepted.token, READ_ONLY)]
    );
    assert_eq!(state_of(&server, accepted.conn_id), Some(ClientState::Handshake));
}

#[test]
fn failed_read_closes_the_session() {
    let mut server = Server::new(upstream());
    let accepted = greeted(&mut server);
    assert_eq!(
        server.handle_read(accepted.token, &ReadOutcome::Failed, 0),
        vec![Action::Close {
            conn_id: accepted.conn_id,
            client_token: accepted.token,
            target_token: None,
        }]
    );
    assert_table_empty(&server);
}

#[test]
fn read_that_overruns_what_was_asked_closes_the_session() {
    let mut server = Server::new(upstream());
    let accepted = open_session(&mut server);
    let too_much = vec![0x05; 258];
    assert_eq!(
        server.handle_read(accepted.token, &ReadOutcome::Data(too_much), 0),
        vec![Action::Close {
            conn_id: accepted.conn_id,
            client_token: accepted.token,
            target_token: None,
        }]
    );
    assert_table_empty(&server);
}

#[test]
fn auth_only_session_closes_cleanly() {
    let mut server = Server::new(upstream());
    let accepted = greeted(&mut server);
    assert_eq!(Reply::Auth.bytes(), vec![0x05, 0x00]);
    assert_eq!(
        server.handle_connection_event(accepted.token, READABLE),
        vec![Action::Read { token: accepted.token, max_len: 512 }]
    );
    let actions = server.handle_read(accepted.token, &ReadOutcome::Eof, 0);
    assert_eq!(
        actions,
        vec![
            watch(accepted.token, READ_ONLY),
            Action::Close {
                conn_id: accepted.conn_id,
                client_token: accepted.token,
                target_token: None,
            },
        ]
    );
    assert_table_empty(&server);
}

#[test]
fn other_command_is_refused() {
    for command in [0x00u8, 0x02, 0x03, 0xff] {
        let mut server = Server::new(upstream());
        let accepted = greeted(&mut server);
        let request = [0x05, command, 0x00, 0x01, 0x7f, 0x00, 0x00, 0x01, 0x00, 0x09];
        let actions = server.handle_read(accepted.token, &data(&request), 0);
        assert_eq!(
            actions,
            vec![
                Action::Send { token: accepted.token, reply: Reply::Refused },
                Action::Close {
                    conn_id: accepted.conn_id,
                    client_token: accepted.token,
                    target_token: None,
                },
            ]
        );
        assert_table_empty(&server);
    }
}

#[test]
fn unsupported_address_type_and_version_are_refused() {
    for request in [[0x05u8, 0x01, 0x00, 0x04], [0x04, 0x01, 0x00, 0x01]] {
        let mut server = Server::new(upstream());
        let accepted = greeted(&mut server);
        let actions = server.handle_read(accepted.token, &data(&request), 0);
        assert_eq!(actions[0], Action::Send { token: accepted.token, reply: Reply::Refused });
        assert_eq!(actions.len(), 2);
        assert_table_empty(&server);
    }
}

#[test]
fn request_may_arrive_in_pieces() {
    let mut server = Server::new(upstream());
    let accepted = greeted(&mut server);
    assert_eq!(
        server.handle_read(accepted.token, &data(&[0x05, 0x01, 0x00, 0x01, 0x7f]), 0),
        vec![watch(accepted.token, READ_ONLY)]
    );
    assert_eq!(
        server.handle_connection_event(accepted.token, READABLE),
        vec![Action::Read { token: accepted.token, max_len: 507 }]
    );
    let actions = server.handle_read(accepted.token, &data(&[0x00, 0x00, 0x01, 0x00, 0x09]), 0);
    assert_eq!(
        actions[0],
        Action::Connect { token: accepted.token + 1, addr: SocketAddress::v4(127, 0, 0, 1, 9) }
    );
}

#[test]
fn ipv4_connect_refused() {
    let mut server = Server::new(upstream());
    let accepted = greeted(&mut server);
    let request = [0x05, 0x01, 0x00, 0x01, 0x7f, 0x00, 0x00, 0x01, 0x00, 0x01];
    let actions = server.handle_read(accepted.token, &data(&request), 0);
    let target = accepted.token + 1;
    assert_eq!(
        actions[0],
        Action::Connect { token: target, addr: SocketAddress::v4(127, 0, 0, 1, 1) }
    );
    assert_eq!(state_of(&server, accepted.conn_id), Some(ClientState::Connecting));
    assert_eq!(server.route(target), Some((accepted.conn_id, EndpointKind::Target)));
    assert_eq!(
        server.connection(accepted.conn_id).unwrap().requested_endpoint,
        Some("127.0.0.1:1".to_string())
    );
    let refused = server.handle_failure(target);
    assert_eq!(
        refused,
        vec![
            Action::Send { token: accepted.token, reply: Reply::Refused },
            Action::Close {
                conn_id: accepted.conn_id,
                client_token: accepted.token,
                target_token: Some(target),
            },
        ]
    );
    assert_eq!(Reply::Refused.bytes(), vec![0x05, 0x05, 0x00, 0x01, 0, 0, 0, 0, 0, 0]);
    assert_table_empty(&server);
}

#[test]
fn connect_error_signalled_by_the_reactor_is_refused() {
    let mut server = Server::new(upstream());
    let (accepted, target) = connecting_to_echo(&mut server);
    let readiness = Readiness { readable: true, writable: true, error: true };
    assert_eq!(
        server.handle_connection_event(target, readiness),
        vec![
            Action::Send { token: accepted.token, reply: Reply::Refused },
            Action::Close {
                conn_id: accepted.conn_id,
                client_token: accepted.token,
                target_token: Some(target),
            },
        ]
    );
    assert_table_empty(&server);
}

#[test]
fn client_is_not_read_while_connecting() {
    let mut server = Server::new(upstream());
    let (accepted, _) = connecting_to_echo(&mut server);
    assert!(server.handle_connection_event(accepted.token, READABLE).is_empty());
    assert_eq!(
        server.handle_connection_event(accepted.token, WRITABLE),
        vec![watch(accepted.token, READ_ONLY), watch(accepted.token + 1, READ_WRITE)]
    );
}

#[test]
fn ipv4_echo() {
    let mut server = Server::new(upstream());
    let (accepted, target) = tunneling(&mut server);
    assert_eq!(Reply::Success.bytes(), vec![0x05, 0x00, 0x00, 0x01, 0, 0, 0, 0, 0, 0]);

    assert_eq!(
        server.handle_connection_event(accepted.token, READABLE),
        vec![Action::Read { token: accepted.token, max_len: 8192 }]
    );
    assert_eq!(
        server.handle_read(accepted.token, &data(b"ping"), 0),
        vec![watch(accepted.token, READ_ONLY), watch(target, READ_WRITE)]
    );
    assert_eq!(
        server.handle_connection_event(target, WRITABLE),
        vec![Action::Write { token: target, bytes: b"ping".to_vec() }]
    );
    assert_eq!(
        server.handle_write(target, WriteOutcome::Written(4)),
        vec![watch(accepted.token, READ_ONLY), watch(target, READ_ONLY)]
    );

    assert_eq!(
        server.handle_connection_event(target, READABLE),
        vec![Action::Read { token: target, max_len: 8192 }]
    );
    assert_eq!(
        server.handle_read(target, &data(b"ping"), 0),
        vec![watch(accepted.token, READ_WRITE), watch(target, READ_ONLY)]
    );
    assert_eq!(
        server.handle_connection_event(accepted.token, WRITABLE),
        vec![Action::Write { token: accepted.token, bytes: b"ping".to_vec() }]
    );
    assert_eq!(
        server.handle_write(accepted.token, WriteOutcome::Written(4)),
        vec![watch(accepted.token, READ_ONLY), watch(target, READ_ONLY)]
    );
    let conn = server.connection(accepted.conn_id).unwrap();
    assert!(conn.client_to_target.is_empty());
    assert!(conn.target_to_client.is_empty());
}

#[test]
fn readable_and_writable_at_once_asks_for_both() {
    let mut server = Server::new(upstream());
    let (accepted, target) = tunneling(&mut server);
    server.handle_read(accepted.token, &data(b"abc"), 0);
    let both = Readiness { readable: true, writable: true, error: false };
    assert_eq!(
        server.handle_connection_event(target, both),
        vec![
            Action::Read { token: target, max_len: 8192 },
            Action::Write { token: target, bytes: b"abc".to_vec() },
        ]
    );
}

#[test]
fn domain_success() {
    let mut server = Server::new(upstream());
    let (accepted, query_id) = resolving(&mut server, 0);
    assert_eq!(
        server.connection(accepted.conn_id).unwrap().requested_endpoint,
        Some("x.test:9".to_string())
    );
    assert!(server.handle_connection_event(accepted.token, READABLE).is_empty());
    let reply = answer(query_id, "x.test", ResponseCode::NoError, &[(127, 0, 0, 1)]);
    let actions = server.handle_dns_socket(&vec![reply]);
    let target = accepted.token + 1;
    assert_eq!(
        actions,
        vec![Action::Connect { token: target, addr: SocketAddress::v4(127, 0, 0, 1, 9) }]
    );
    assert_eq!(state_of(&server, accepted.conn_id), Some(ClientState::Connecting));
    assert_eq!(server.dns_resolver().pending_count(), 0);
    let established = server.handle_connection_event(target, WRITABLE);
    assert_eq!(established[0], Action::Send { token: accepted.token, reply: Reply::Success });
    assert_eq!(&Reply::Success.bytes()[..4], &[0x05, 0x00, 0x00, 0x01]);
    server.handle_read(accepted.token, &data(b"ping"), 0);
    assert_eq!(
        server.handle_connection_event(target, WRITABLE),
        vec![Action::Write { token: target, bytes: b"ping".to_vec() }]
    );
}

#[test]
fn domain_failure() {
    let mut server = Server::new(upstream());
    let (accepted, query_id) = resolving(&mut server, 0);
    let reply = answer(query_id, "x.test", ResponseCode::NoError, &[]);
    assert_eq!(
        server.handle_dns_socket(&vec![reply]),
        vec![
            Action::Send { token: accepted.token, reply: Reply::Refused },
            Action::Close {
                conn_id: accepted.conn_id,
                client_token: accepted.token,
                target_token: None,
            },
        ]
    );
    assert_table_empty(&server);
    assert_eq!(server.dns_resolver().pending_count(), 0);
}

#[test]
fn domain_failure_on_error_code() {
    let mut server = Server::new(upstream());
    let (accepted, query_id) = resolving(&mut server, 0);
    let reply = answer(query_id, "x.test", ResponseCode::NXDomain, &[]);
    let actions = server.handle_dns_socket(&vec![reply]);
    assert_eq!(actions[0], Action::Send { token: accepted.token, reply: Reply::Refused });
    assert_table_empty(&server);
}

#[test]
fn resolver_timeout() {
    let mut server = Server::new(upstream());
    let (accepted, _) = resolving(&mut server, 10_000);
    assert!(server.handle_timeouts(10_000).is_empty());
    assert!(server.handle_timeouts(14_999).is_empty());
    assert_eq!(state_of(&server, accepted.conn_id), Some(ClientState::Resolving));
    let actions = server.handle_timeouts(15_000);
    assert_eq!(
        actions,
        vec![
            Action::Send { token: accepted.token, reply: Reply::Refused },
            Action::Close {
                conn_id: accepted.conn_id,
                client_token: accepted.token,
                target_token: None,
            },
        ]
    );
    assert_table_empty(&server);
    assert_eq!(server.dns_resolver().pending_count(), 0);
    assert!(server.handle_timeouts(16_000).is_empty());
}

#[test]
fn answer_after_timeout_is_dropped() {
    let mut server = Server::new(upstream());
    let (_, query_id) = resolving(&mut server, 0);
    assert_eq!(server.handle_timeouts(5000).len(), 2);
    let late = answer(query_id, "x.test", ResponseCode::NoError, &[(127, 0, 0, 1)]);
    assert!(server.handle_dns_socket(&vec![late]).is_empty());
    assert_table_empty(&server);
}

#[test]
fn answer_for_a_session_that_is_gone_is_dropped() {
    let mut server = Server::new(upstream());
    let (accepted, query_id) = resolving(&mut server, 0);
    assert_eq!(server.handle_failure(accepted.token).len(), 1);
    assert_table_empty(&server);
    assert_eq!(server.dns_resolver().pending_count(), 1);
    let reply = answer(query_id, "x.test", ResponseCode::NoError, &[(127, 0, 0, 1)]);
    assert!(server.handle_dns_socket(&vec![reply]).is_empty());
    assert_eq!(server.dns_resolver().pending_count(), 0);
}

#[test]
fn query_that_cannot_be_sent_is_refused() {
    let mut server = Server::new(upstream());
    let (accepted, query_id) = resolving(&mut server, 0);
    assert_eq!(
        server.handle_query_failure(query_id),
        vec![
            Action::Send { token: accepted.token, reply: Reply::Refused },
            Action::Close {
                conn_id: accepted.conn_id,
                client_token: accepted.token,
                target_token: None,
            },
        ]
    );
    assert_table_empty(&server);
    assert_eq!(server.dns_resolver().pending_count(), 0);
}

#[test]
fn invalid_domain_is_refused_at_once() {
    let mut server = Server::new(upstream());
    let accepted = greeted(&mut server);
    let label = vec![b'a'; 64];
    let mut request = vec![0x05, 0x01, 0x00, 0x03, 64];
    request.extend_from_slice(&label);
    request.extend_from_slice(&[0x00, 0x50]);
    let actions = server.handle_read(accepted.token, &ReadOutcome::Data(request), 0);
    assert_eq!(actions[0], Action::Send { token: accepted.token, reply: Reply::Refused });
    assert_table_empty(&server);
}

#[test]
fn several_sessions_resolve_independently() {
    let mut server = Server::new(upstream());
    let (first, first_query) = resolving(&mut server, 0);
    let (second, second_query) = resolving(&mut server, 1000);
    assert_ne!(first_query, second_query);
    let replies = vec![
        answer(second_query, "x.test", ResponseCode::NoError, &[(10, 0, 0, 2)]),
        answer(first_query, "x.test", ResponseCode::NoError, &[]),
    ];
    let actions = server.handle_dns_socket(&replies);
    assert_eq!(
        actions,
        vec![
            Action::Connect { token: second.token + 1, addr: SocketAddress::v4(10, 0, 0, 2, 9) },
            Action::Send { token: first.token, reply: Reply::Refused },
            Action::Close { conn_id: first.conn_id, client_token: first.token, target_token: None },
        ]
    );
    assert_eq!(server.connection_count(), 1);
    assert_eq!(server.token_count(), 2);
}

#[test]
fn only_expired_sessions_time_out() {
    let mut server = Server::new(upstream());
    let (old, _) = resolving(&mut server, 0);
    let (young, _) = resolving(&mut server, 3000);
    let actions = server.handle_timeouts(5000);
    assert_eq!(
        actions,
        vec![
            Action::Send { token: old.token, reply: Reply::Refused },
            Action::Close { conn_id: old.conn_id, client_token: old.token, target_token: None },
        ]
    );
    assert_eq!(state_of(&server, young.conn_id), Some(ClientState::Resolving));
    assert_eq!(server.handle_timeouts(8000).len(), 2);
    assert_table_empty(&server);
}

#[test]
fn no_leak_after_many_sessions() {
    let mut server = Server::new(upstream());
    for round in 0..40u64 {
        match round % 5 {
            0 => {
                let accepted = greeted(&mut server);
                server.handle_read(accepted.token, &ReadOutcome::Eof, round);
            }
            1 => {
                let (_, target) = connecting_to_echo(&mut server);
                server.handle_failure(target);
            }
            2 => {
                let (accepted, target) = tunneling(&mut server);
                server.handle_read(accepted.token, &data(b"bye"), round);
                server.handle_write(target, WriteOutcome::Written(3));
                server.handle_read(accepted.token, &ReadOutcome::Eof, round);
            }
            3 => {
                let (_, query_id) = resolving(&mut server, round);
                server.handle_dns_socket(&vec![answer(query_id, "x.test", ResponseCode::NoError, &[])]);
            }
            _ => {
                resolving(&mut server, round);
                server.handle_timeouts(round + 5000);
            }
        }
        assert_table_empty(&server);
        assert_eq!(server.dns_resolver().pending_count(), 0);
    }
}

#[test]
fn domain_resolution_of_localhost() {
    let mut server = Server::new(upstream());
    let accepted = greeted(&mut server);
    let mut request = vec![0x05, 0x01, 0x00, 0x03, 0x09];
    request.extend_from_slice(b"localhost");
    request.extend_from_slice(&[0x1f, 0x90]);
    let mut actions = server.handle_read(accepted.token, &ReadOutcome::Data(request), 0);
    assert_eq!(actions.pop(), Some(watch(accepted.token, READ_ONLY)));
    let query_id = match actions.pop() {
        Some(Action::Query { query_id, .. }) => query_id,
        other => panic!("expected a query, got {:?}", other),
    };
    let reply = answer(query_id, "localhost", ResponseCode::NoError, &[(127, 0, 0, 1)]);
    let target = accepted.token + 1;
    assert_eq!(
        server.handle_dns_socket(&vec![reply]),
        vec![Action::Connect { token: target, addr: SocketAddress::v4(127, 0, 0, 1, 8080) }]
    );
    assert_eq!(
        server.connection(accepted.conn_id).unwrap().requested_endpoint,
        Some("localhost:8080".to_string())
    );
    assert_eq!(
        server.handle_connection_event(target, WRITABLE)[0],
        Action::Send { token: accepted.token, reply: Reply::Success }
    );
}

#[test]
fn exactly_one_refusal_per_timed_out_session() {
    let mut server = Server::new(upstream());
    let sessions: Vec<(Accepted, u16)> = (0..5).map(|n| resolving(&mut server, n * 10)).collect();
    assert!(server.handle_timeouts(4999).is_empty());
    let actions = server.handle_timeouts(5040);
    for (accepted, _) in &sessions {
        let refusals = actions
            .iter()
            .filter(|a| **a == Action::Send { token: accepted.token, reply: Reply::Refused })
            .count();
        let closes = actions
            .iter()
            .filter(|a| matches!(a, Action::Close { conn_id, .. } if *conn_id == accepted.conn_id))
            .count();
        assert_eq!((refusals, closes), (1, 1));
    }
    assert_eq!(actions.len(), 10);
    assert_table_empty(&server);
}

#[test]
fn resolution_result_from_elsewhere_is_taken_in() {
    let mut server = Server::new(upstream());
    let (accepted, query_id) = resolving(&mut server, 0);
    let event = DnsEvent::Resolved {
        conn_id: accepted.conn_id,
        resolved_addr: SocketAddress::v4(203, 0, 113, 9, 9),
        display: "x.test:9".to_string(),
    };
    assert_eq!(
        server.handle_dns_event(&event),
        vec![Action::Connect {
            token: accepted.token + 1,
            addr: SocketAddress::v4(203, 0, 113, 9, 9)
        }]
    );
    assert_eq!(state_of(&server, accepted.conn_id), Some(ClientState::Connecting));
    assert_eq!(server.dns_resolver().pending_count(), 0);
    let late = answer(query_id, "x.test", ResponseCode::NoError, &[(127, 0, 0, 1)]);
    assert!(server.handle_dns_socket(&vec![late]).is_empty());
    assert!(server.handle_dns_event(&event).is_empty());
    assert_eq!(state_of(&server, accepted.conn_id), Some(ClientState::Connecting));
}

#[test]
fn failure_from_elsewhere_refuses_any_live_session() {
    let mut server = Server::new(upstream());
    let (waiting, _) = resolving(&mut server, 0);
    let (tunnel, target) = tunneling(&mut server);
    let fail = |conn_id| DnsEvent::Failed {
        conn_id,
        domain: "x.test".to_string(),
        reason: "gone".to_string(),
    };
    assert!(server.handle_dns_event(&fail(999)).is_empty());
    assert_eq!(server.connection_count(), 2);
    assert_eq!(server.token_count(), 3);
    assert_eq!(
        server.handle_dns_event(&fail(waiting.conn_id)),
        vec![
            Action::Send { token: waiting.token, reply: Reply::Refused },
            Action::Close {
                conn_id: waiting.conn_id,
                client_token: waiting.token,
                target_token: None,
            },
        ]
    );
    assert_eq!(server.dns_resolver().pending_count(), 0);
    assert_eq!(
        server.handle_dns_event(&fail(tunnel.conn_id)),
        vec![
            Action::Send { token: tunnel.token, reply: Reply::Refused },
            Action::Close {
                conn_id: tunnel.conn_id,
                client_token: tunnel.token,
                target_token: Some(target),
            },
        ]
    );
    assert_table_empty(&server);
    assert!(server.handle_dns_event(&fail(tunnel.conn_id)).is_empty());
}

#[test]
fn address_from_elsewhere_is_ignored_outside_resolving() {
    let mut server = Server::new(upstream());
    let (tunnel, _) = tunneling(&mut server);
    let event = DnsEvent::Resolved {
        conn_id: tunnel.conn_id,
        resolved_addr: SocketAddress::v4(203, 0, 113, 9, 9),
        display: "x.test:9".to_string(),
    };
    assert!(server.handle_dns_event(&event).is_empty());
    assert_eq!(state_of(&server, tunnel.conn_id), Some(ClientState::Tunneling));
    assert_eq!(server.token_count(), 2);
}

#[test]
fn reactor_may_wait_without_limit_unless_a_request_is_pending() {
    let mut server = Server::new(upstream());
    assert_eq!(server.poll_timeout_ms(), None);
    let (_, query_id) = resolving(&mut server, 0);
    assert_eq!(server.poll_timeout_ms(), Some(250));
    server.handle_query_failure(query_id);
    assert_eq!(server.poll_timeout_ms(), None);
}

#[test]
fn session_whose_query_id_was_taken_over_is_not_answered() {
    let mut server = Server::new(upstream());
    let (first, first_query) = resolving(&mut server, 0);
    assert_eq!(first_query, 1);
    for n in 0..65535u32 {
        let (other, query_id) = resolving(&mut server, 0);
        assert_eq!(query_id, (n as u16).wrapping_add(2));
        server.handle_query_failure(query_id);
        assert!(server.connection(other.conn_id).is_none());
    }
    let (second, second_query) = resolving(&mut server, 10);
    assert_eq!(second_query, first_query);
    assert_eq!(server.dns_resolver().pending_count(), 1);
    assert_eq!(server.dns_resolver().waiting_session(first_query), Some(second.conn_id));
    let reply = answer(first_query, "x.test", ResponseCode::NoError, &[(127, 0, 0, 1)]);
    assert_eq!(
        server.handle_dns_socket(&vec![reply]),
        vec![Action::Connect { token: second.token + 1, addr: SocketAddress::v4(127, 0, 0, 1, 9) }]
    );
    assert_eq!(state_of(&server, first.conn_id), Some(ClientState::Resolving));
    assert!(server.handle_timeouts(1_000_000).is_empty());
    assert_eq!(state_of(&server, first.conn_id), Some(ClientState::Resolving));
}
