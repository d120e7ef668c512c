//! Reactions to what was read from either side of a session.

use crate::connection::{Connection, ConnectionView, EndpointKind};
use crate::dns::{DnsResolver, DnsResolverView};
use crate::error::ProxyError;
use crate::event::{
    action_views, Action, ActionView, Reaction, ReactionView, ReadOutcome, ReadOutcomeView, Reply,
};
use crate::net::SocketAddress;
use crate::socks5::protocol::{
    format_host_endpoint, host_display, parse_greeting, parse_greeting_spec, parse_request,
    parse_request_spec, RequestInfo, RequestInfoView, BUFFER_SIZE, MAX_GREETING_SIZE,
    REQUEST_SCRATCH_SIZE,
};
use crate::socks5::state::ClientState;
use crate::util::{interest_updates, update_interests, TokenMap};
use vstd::prelude::*;

verus! {

broadcast use vstd::std_specs::hash::group_hash_axioms;

/// Everything a step of a session can touch, after the step.
pub struct StepView {
    pub conn: ConnectionView,
    pub token_map: Map<usize, (usize, EndpointKind)>,
    pub next_token: usize,
    pub dns: DnsResolverView,
    pub reaction: ReactionView,
}

/// Room left in a buffer of the given capacity.
pub open spec fn room(capacity: usize, used: nat) -> usize {
    if used < capacity {
        (capacity - used) as usize
    } else {
        0
    }
}

/// How many bytes to ask for when a side of the session is readable; zero
/// means not to read at all. The client is read for a greeting, for a
/// request, and while tunneling, never while the target is being resolved
/// or connected; the target is read from the moment it exists. A read never
/// asks for more than the receiving buffer has room for.
pub open spec fn read_size_spec(c: ConnectionView, endpoint: EndpointKind) -> usize {
    match endpoint {
        EndpointKind::Client => match c.state {
            ClientState::Handshake => room(MAX_GREETING_SIZE, c.client_buf.len()),
            ClientState::Request => room(REQUEST_SCRATCH_SIZE, c.client_buf.len()),
            ClientState::Tunneling => room(BUFFER_SIZE, c.client_to_target.len()),
            ClientState::Resolving => 0,
            ClientState::Connecting => 0,
        },
        EndpointKind::Target => match c.target_token {
            Some(_) => room(BUFFER_SIZE, c.target_to_client.len()),
            None => 0,
        },
    }
}

/// Whether `input` can be the outcome of the read that
/// [`read_size_spec`] asked for: it delivers no more than was asked.
pub open spec fn read_fits(c: ConnectionView, endpoint: EndpointKind, input: ReadOutcomeView) -> bool {
    input.len() <= read_size_spec(c, endpoint)
}

/// The refused reply on the client socket.
pub open spec fn refusal(c: ConnectionView) -> ActionView {
    ActionView::Send { token: c.client_token, reply: Reply::Refused }
}

/// A step that leaves everything but the session as it is.
pub open spec fn local_step(
    conn: ConnectionView,
    reaction: ReactionView,
    token_map: Map<usize, (usize, EndpointKind)>,
    next_token: usize,
    dns: DnsResolverView,
) -> StepView {
    StepView { conn, token_map, next_token, dns, reaction }
}

/// Greeting phase. End of stream marks the client closed. Bytes are added
/// to the scratch buffer; once the greeting is whole, a wrong version ends
/// the session without any reply, and a right one is answered with the
/// no-auth frame, whatever methods were offered, and the session moves on to
/// the request with an empty scratch buffer.
pub open spec fn handshake_step(c: ConnectionView, input: ReadOutcomeView) -> (
    ConnectionView,
    ReactionView,
) {
    match input {
        ReadOutcomeView::Eof => (ConnectionView { client_closed: true, ..c }, ReactionView::idle()),
        ReadOutcomeView::WouldBlock => (c, ReactionView::idle()),
        ReadOutcomeView::Failed => (c, ReactionView::fail(Seq::empty(), ProxyError::Io)),
        ReadOutcomeView::Data(d) => {
            let buf = c.client_buf + d;
            match parse_greeting_spec(buf) {
                Ok(false) => (ConnectionView { client_buf: buf, ..c }, ReactionView::idle()),
                Ok(true) => (
                    ConnectionView {
                        client_buf: Seq::empty(),
                        state: ClientState::Request,
                        ..c
                    },
                    ReactionView::go(
                        seq![ActionView::Send { token: c.client_token, reply: Reply::Auth }],
                    ),
                ),
                Err(e) => (
                    ConnectionView { client_buf: buf, ..c },
                    ReactionView::fail(Seq::empty(), e),
                ),
            }
        },
    }
}

/// Start of the outbound connection. The session notes what was asked
/// for, takes the next token for its target, enters `Connecting` with an
/// empty scratch buffer, and asks for the connect. Without a token left the
/// request is refused.
pub open spec fn connect_step(
    c: ConnectionView,
    conn_id: usize,
    addr: SocketAddress,
    display: Seq<char>,
    token_map: Map<usize, (usize, EndpointKind)>,
    next_token: usize,
    dns: DnsResolverView,
) -> StepView {
    let noted = ConnectionView { requested_endpoint: Some(display), ..c };
    if next_token == usize::MAX {
        local_step(
            noted,
            ReactionView::fail(seq![refusal(c)], ProxyError::TokensExhausted),
            token_map,
            next_token,
            dns,
        )
    } else {
        StepView {
            conn: ConnectionView {
                target_token: Some(next_token),
                state: ClientState::Connecting,
                client_buf: Seq::empty(),
                ..noted
            },
            token_map: token_map.insert(next_token, (conn_id, EndpointKind::Target)),
            next_token: (next_token + 1) as usize,
            dns,
            reaction: ReactionView::go(seq![ActionView::Connect { token: next_token, addr }]),
        }
    }
}

/// Start of a name resolution. The session notes what was asked for and
/// hands the name to the resolver; if that yields a query, the session
/// enters `Resolving` with an empty scratch buffer and asks for the query
/// to be sent, otherwise the request is refused.
pub open spec fn resolve_step(
    c: ConnectionView,
    conn_id: usize,
    domain: Seq<char>,
    port: u16,
    token_map: Map<usize, (usize, EndpointKind)>,
    next_token: usize,
    dns: DnsResolverView,
    now: u64,
) -> StepView {
    let noted = ConnectionView { requested_endpoint: Some(host_display(domain, port)), ..c };
    let (dns_after, outcome) = dns.resolve(domain, port, conn_id, now);
    match outcome {
        Ok((query_id, datagram)) => local_step(
            ConnectionView { state: ClientState::Resolving, client_buf: Seq::empty(), ..noted },
            ReactionView::go(seq![ActionView::Query { query_id, datagram }]),
            token_map,
            next_token,
            dns_after,
        ),
        Err(e) => local_step(
            noted,
            ReactionView::fail(seq![refusal(c)], e),
            token_map,
            next_token,
            dns_after,
        ),
    }
}

/// Request phase. End of stream marks the client closed. Bytes are added to
/// the scratch buffer; a request that is not whole waits for more, a
/// malformed or unsupported one is refused, a literal address starts the
/// outbound connection, and a domain name starts a resolution.
pub open spec fn request_step(
    c: ConnectionView,
    conn_id: usize,
    input: ReadOutcomeView,
    token_map: Map<usize, (usize, EndpointKind)>,
    next_token: usize,
    dns: DnsResolverView,
    now: u64,
) -> StepView {
    match input {
        ReadOutcomeView::Eof => local_step(
            ConnectionView { client_closed: true, ..c },
            ReactionView::idle(),
            token_map,
            next_token,
            dns,
        ),
        ReadOutcomeView::WouldBlock => local_step(
            c,
            ReactionView::idle(),
            token_map,
            next_token,
            dns,
        ),
        ReadOutcomeView::Failed => local_step(
            c,
            ReactionView::fail(Seq::empty(), ProxyError::Io),
            token_map,
            next_token,
            dns,
        ),
        ReadOutcomeView::Data(d) => {
            let buffered = ConnectionView { client_buf: c.client_buf + d, ..c };
            match parse_request_spec(buffered.client_buf) {
                Ok(None) => local_step(buffered, ReactionView::idle(), token_map, next_token, dns),
                Ok(Some(RequestInfoView::Resolved { addr, display })) => connect_step(
                    buffered,
                    conn_id,
                    addr,
                    display,
                    token_map,
                    next_token,
                    dns,
                ),
                Ok(Some(RequestInfoView::NeedsResolution { domain, port })) => resolve_step(
                    buffered,
                    conn_id,
                    domain,
                    port,
                    token_map,
                    next_token,
                    dns,
                    now,
                ),
                Err(e) => local_step(
                    buffered,
                    ReactionView::fail(seq![refusal(c)], e),
                    token_map,
                    next_token,
                    dns,
                ),
            }
        },
    }
}

/// Tunnel, client side. End of stream marks the client closed and has the
/// sending direction of the target shut down; bytes go to the tail of the
/// client-to-target buffer.
pub open spec fn client_data_step(c: ConnectionView, input: ReadOutcomeView) -> (
    ConnectionView,
    ReactionView,
) {
    match input {
        ReadOutcomeView::Eof => (
            ConnectionView { client_closed: true, ..c },
            ReactionView::go(
                match c.target_token {
                    Some(token) => seq![ActionView::ShutdownWrite { token }],
                    None => Seq::empty(),
                },
            ),
        ),
        ReadOutcomeView::Data(d) => (
            ConnectionView { client_to_target: c.client_to_target + d, ..c },
            ReactionView::idle(),
        ),
        ReadOutcomeView::WouldBlock => (c, ReactionView::idle()),
        ReadOutcomeView::Failed => (c, ReactionView::fail(Seq::empty(), ProxyError::Io)),
    }
}

/// Target side, in any state in which a target exists. End of stream marks
/// the target closed and has the sending direction of the client shut down;
/// bytes go to the tail of the target-to-client buffer. Without a target
/// nothing happens.
pub open spec fn target_data_step(c: ConnectionView, input: ReadOutcomeView) -> (
    ConnectionView,
    ReactionView,
) {
    if c.target_token is None {
        (c, ReactionView::idle())
    } else {
        match input {
            ReadOutcomeView::Eof => (
                ConnectionView { target_closed: true, ..c },
                ReactionView::go(seq![ActionView::ShutdownWrite { token: c.client_token }]),
            ),
            ReadOutcomeView::Data(d) => (
                ConnectionView { target_to_client: c.target_to_client + d, ..c },
                ReactionView::idle(),
            ),
            ReadOutcomeView::WouldBlock => (c, ReactionView::idle()),
            ReadOutcomeView::Failed => (c, ReactionView::fail(Seq::empty(), ProxyError::Io)),
        }
    }
}

/// Client side, by state. While the target is being resolved or connected
/// the client is not listened to.
pub open spec fn client_step(
    c: ConnectionView,
    conn_id: usize,
    input: ReadOutcomeView,
    token_map: Map<usize, (usize, EndpointKind)>,
    next_token: usize,
    dns: DnsResolverView,
    now: u64,
) -> StepView {
    match c.state {
        ClientState::Handshake => {
            let (conn, reaction) = handshake_step(c, input);
            local_step(conn, reaction, token_map, next_token, dns)
        },
        ClientState::Request => request_step(c, conn_id, input, token_map, next_token, dns, now),
        ClientState::Tunneling => {
            let (conn, reaction) = client_data_step(c, input);
            local_step(conn, reaction, token_map, next_token, dns)
        },
        ClientState::Connecting => local_step(c, ReactionView::idle(), token_map, next_token, dns),
        ClientState::Resolving => local_step(c, ReactionView::idle(), token_map, next_token, dns),
    }
}

/// The registrations that end a step: the interest policy for a session
/// that goes on, nothing for one that ends.
pub open spec fn with_interests(conn: ConnectionView, reaction: ReactionView) -> ReactionView {
    if reaction.error is None {
        ReactionView { actions: reaction.actions + interest_updates(conn), ..reaction }
    } else {
        reaction
    }
}

/// What the outcome of a read on one side of a session leads to: the step of
/// that side, then the interest policy.
pub open spec fn readable_step(
    c: ConnectionView,
    conn_id: usize,
    endpoint: EndpointKind,
    input: ReadOutcomeView,
    token_map: Map<usize, (usize, EndpointKind)>,
    next_token: usize,
    dns: DnsResolverView,
    now: u64,
) -> StepView {
    let step = match endpoint {
        EndpointKind::Client => client_step(c, conn_id, input, token_map, next_token, dns, now),
        EndpointKind::Target => {
            let (conn, reaction) = target_data_step(c, input);
            local_step(conn, reaction, token_map, next_token, dns)
        },
    };
    StepView { reaction: with_interests(step.conn, step.reaction), ..step }
}

fn room_in(capacity: usize, used: usize) -> (r: usize)
    ensures
        r == room(capacity, used as nat),
{
    if used < capacity {
        capacity - used
    } else {
        0
    }
}

/// How many bytes to ask for when `endpoint` of the session is readable.
pub fn read_size(conn: &Connection, endpoint: EndpointKind) -> (r: usize)
    ensures
        r == read_size_spec(conn@, endpoint),
{
    match endpoint {
        EndpointKind::Client => match conn.state {
            ClientState::Handshake => room_in(MAX_GREETING_SIZE, conn.client_buf.len()),
            ClientState::Request => room_in(REQUEST_SCRATCH_SIZE, conn.client_buf.len()),
            ClientState::Tunneling => room_in(BUFFER_SIZE, conn.client_to_target.len()),
            ClientState::Resolving => 0,
            ClientState::Connecting => 0,
        },
        EndpointKind::Target => match conn.target_token {
            Some(_) => room_in(BUFFER_SIZE, conn.target_to_client.len()),
            None => 0,
        },
    }
}

/// Handles what was read from the client during the greeting phase.
pub fn handle_handshake(conn: &mut Connection, input: &ReadOutcome) -> (r: Reaction)
    requires
        old(conn).wf(),
        old(conn).state == ClientState::Handshake,
    ensures
        (final(conn)@, r@) == handshake_step(old(conn)@, input@),
        (r.error is None) ==> final(conn).wf(),
{
    match input {
        ReadOutcome::Eof => {
            conn.client_closed = true;
            Reaction::idle()
        },
        ReadOutcome::WouldBlock => Reaction::idle(),
        ReadOutcome::Failed => Reaction::fail(ProxyError::Io),
        ReadOutcome::Data(data) => {
            conn.client_buf.extend_from_slice(data.as_slice());
            assert(conn.client_buf@ == old(conn).client_buf@ + data@);
            match parse_greeting(conn.client_buf.as_slice()) {
                Ok(false) => Reaction::idle(),
                Ok(true) => {
                    conn.client_buf.clear();
                    conn.state = ClientState::Request;
                    Reaction::one(Action::Send { token: conn.client_token, reply: Reply::Auth })
                },
                Err(e) => Reaction::fail(e),
            }
        },
    }
}

/// Starts the outbound connection of a session to `addr`.
pub fn start_connect(
    conn: &mut Connection,
    conn_id: usize,
    addr: SocketAddress,
    display: String,
    token_map: &mut TokenMap,
    next_token: &mut usize,
    dns: &DnsResolver,
) -> (r: Reaction)
    requires
        old(conn)@.can_connect(),
        old(conn).client_token < *old(next_token),
    ensures
        local_step(final(conn)@, r@, final(token_map)@, *final(next_token), dns@) == connect_step(
            old(conn)@,
            conn_id,
            addr,
            display@,
            old(token_map)@,
            *old(next_token),
            dns@,
        ),
        (r.error is None) ==> final(conn).wf(),
{
    conn.requested_endpoint = Some(display);
    if *next_token == usize::MAX {
        return Reaction::fail_with(
            Action::Send { token: conn.client_token, reply: Reply::Refused },
            ProxyError::TokensExhausted,
        );
    }
    let target_token = *next_token;
    *next_token = target_token + 1;
    token_map.insert(target_token, (conn_id, EndpointKind::Target));
    conn.target_token = Some(target_token);
    conn.state = ClientState::Connecting;
    conn.client_buf.clear();
    Reaction::one(Action::Connect { token: target_token, addr })
}

/// Handles what was read from the client during the request phase.
pub fn handle_request(
    conn: &mut Connection,
    conn_id: usize,
    input: &ReadOutcome,
    token_map: &mut TokenMap,
    next_token: &mut usize,
    dns_resolver: &mut DnsResolver,
    now: u64,
) -> (r: Reaction)
    requires
        old(conn).wf(),
        old(conn).state == ClientState::Request,
        old(conn).client_token < *old(next_token),
    ensures
        local_step(
            final(conn)@,
            r@,
            final(token_map)@,
            *final(next_token),
            final(dns_resolver)@,
        ) == request_step(
            old(conn)@,
            conn_id,
            input@,
            old(token_map)@,
            *old(next_token),
            old(dns_resolver)@,
            now,
        ),
        (r.error is None) ==> final(conn).wf(),
{
    match input {
        ReadOutcome::Eof => {
            conn.client_closed = true;
            Reaction::idle()
        },
        ReadOutcome::WouldBlock => Reaction::idle(),
        ReadOutcome::Failed => Reaction::fail(ProxyError::Io),
        ReadOutcome::Data(data) => {
            conn.client_buf.extend_from_slice(data.as_slice());
            assert(conn.client_buf@ == old(conn).client_buf@ + data@);
            match parse_request(conn.client_buf.as_slice()) {
                Ok(None) => Reaction::idle(),
                Ok(Some(RequestInfo::Resolved { addr, display })) => start_connect(
                    conn,
                    conn_id,
                    addr,
                    display,
                    token_map,
                    next_token,
                    dns_resolver,
                ),
                Ok(Some(RequestInfo::NeedsResolution { domain, port })) => {
                    conn.requested_endpoint = Some(format_host_endpoint(domain.as_str(), port));
                    match dns_resolver.resolve(domain, port, conn_id, now) {
                        Ok((query_id, datagram)) => {
                            conn.state = ClientState::Resolving;
                            conn.client_buf.clear();
                            Reaction::one(Action::Query { query_id, datagram })
                        },
                        Err(e) => Reaction::fail_with(
                            Action::Send { token: conn.client_token, reply: Reply::Refused },
                            e,
                        ),
                    }
                },
                Err(e) => Reaction::fail_with(
                    Action::Send { token: conn.client_token, reply: Reply::Refused },
                    e,
                ),
            }
        },
    }
}

/// Handles what was read from the client while tunneling.
pub fn handle_client_data(conn: &mut Connection, input: &ReadOutcome) -> (r: Reaction)
    requires
        old(conn).wf(),
        old(conn).state == ClientState::Tunneling,
        read_fits(old(conn)@, EndpointKind::Client, input@),
    ensures
        (final(conn)@, r@) == client_data_step(old(conn)@, input@),
        (r.error is None) ==> final(conn).wf(),
{
    match input {
        ReadOutcome::Eof => {
            conn.client_closed = true;
            match conn.target_token {
                Some(token) => Reaction::one(Action::ShutdownWrite { token }),
                None => Reaction::idle(),
            }
        },
        ReadOutcome::Data(data) => {
            conn.client_to_target.extend_from_slice(data.as_slice());
            assert(conn.client_to_target@ == old(conn).client_to_target@ + data@);
            Reaction::idle()
        },
        ReadOutcome::WouldBlock => Reaction::idle(),
        ReadOutcome::Failed => Reaction::fail(ProxyError::Io),
    }
}

/// Handles what was read from the target.
pub fn handle_target_readable(conn: &mut Connection, input: &ReadOutcome) -> (r: Reaction)
    requires
        old(conn).wf(),
        read_fits(old(conn)@, EndpointKind::Target, input@),
    ensures
        (final(conn)@, r@) == target_data_step(old(conn)@, input@),
        (r.error is None) ==> final(conn).wf(),
{
    if conn.target_token.is_none() {
        return Reaction::idle();
    }
    match input {
        ReadOutcome::Eof => {
            conn.target_closed = true;
            Reaction::one(Action::ShutdownWrite { token: conn.client_token })
        },
        ReadOutcome::Data(data) => {
            conn.target_to_client.extend_from_slice(data.as_slice());
            assert(conn.target_to_client@ == old(conn).target_to_client@ + data@);
            Reaction::idle()
        },
        ReadOutcome::WouldBlock => Reaction::idle(),
        ReadOutcome::Failed => Reaction::fail(ProxyError::Io),
    }
}

/// Handles what was read from the client, by the state of the session.
pub fn handle_client_readable(
    conn: &mut Connection,
    conn_id: usize,
    input: &ReadOutcome,
    token_map: &mut TokenMap,
    next_token: &mut usize,
    dns_resolver: &mut DnsResolver,
    now: u64,
) -> (r: Reaction)
    requires
        old(conn).wf(),
        old(conn).client_token < *old(next_token),
        read_fits(old(conn)@, EndpointKind::Client, input@),
    ensures
        local_step(
            final(conn)@,
            r@,
            final(token_map)@,
            *final(next_token),
            final(dns_resolver)@,
        ) == client_step(
            old(conn)@,
            conn_id,
            input@,
            old(token_map)@,
            *old(next_token),
            old(dns_resolver)@,
            now,
        ),
        (r.error is None) ==> final(conn).wf(),
{
    match conn.state {
        ClientState::Handshake => handle_handshake(conn, input),
        ClientState::Request => handle_request(
            conn,
            conn_id,
            input,
            token_map,
            next_token,
            dns_resolver,
            now,
        ),
        ClientState::Tunneling => handle_client_data(conn, input),
        ClientState::Connecting => Reaction::idle(),
        ClientState::Resolving => Reaction::idle(),
    }
}

/// Appends the interest policy to the reaction of a session that goes on.
pub fn finish_step(conn: &Connection, reaction: Reaction) -> (r: Reaction)
    ensures
        r@ == with_interests(conn@, reaction@),
{
    let mut reaction = reaction;
    if reaction.error.is_none() {
        update_interests(conn, &mut reaction.actions);
    }
    reaction
}

/// Handles the outcome of the read that was made because `endpoint` of the
/// session was readable.
pub fn handle_readable(
    conn: &mut Connection,
    conn_id: usize,
    endpoint: EndpointKind,
    input: &ReadOutcome,
    token_map: &mut TokenMap,
    next_token: &mut usize,
    dns_resolver: &mut DnsResolver,
    now: u64,
) -> (r: Reaction)
    requires
        old(conn).wf(),
        old(conn).client_token < *old(next_token),
        read_fits(old(conn)@, endpoint, input@),
    ensures
        local_step(
            final(conn)@,
            r@,
            final(token_map)@,
            *final(next_token),
            final(dns_resolver)@,
        ) == readable_step(
            old(conn)@,
            conn_id,
            endpoint,
            input@,
            old(token_map)@,
            *old(next_token),
            old(dns_resolver)@,
            now,
        ),
        (r.error is None) ==> final(conn).wf(),
{
    let reaction = match endpoint {
        EndpointKind::Client => handle_client_readable(
            conn,
            conn_id,
            input,
            token_map,
            next_token,
            dns_resolver,
            now,
        ),
        EndpointKind::Target => handle_target_readable(conn, input),
    };
    finish_step(conn, reaction)
}

} // verus!
