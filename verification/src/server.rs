//! The connection table and the engine that drives every session in it.

use crate::connection::{Connection, ConnectionView, EndpointKind};
use crate::dns::{
    datagram_views, event_views, Datagram, DatagramView, DnsEvent, DnsEventView, DnsResolver,
    DnsResolverView,
};
use crate::error::ProxyError;
use crate::event::{
    action_views, Action, ActionView, Reaction, ReactionView, ReadOutcome, ReadOutcomeView,
    Readiness, Reply, WriteOutcome,
};
use crate::handler::readable::{
    connect_step, handle_readable, local_step, read_fits, read_size, read_size_spec,
    readable_step, refusal, start_connect, StepView,
};
use crate::handler::writable::{
    handle_writable, writable_step, write_fits, write_request, write_request_spec,
};
use crate::net::SocketAddress;
use crate::socks5::state::ClientState;
use crate::util::{cleanup_connection, close_action, tokens_of, TokenMap};
use std::collections::HashMap;
use vstd::prelude::*;

verus! {

broadcast use vstd::std_specs::hash::group_hash_axioms;

/// Token under which the listening socket is registered.
pub const SERVER: usize = 0;

/// Token under which the resolver socket is registered.
pub const DNS: usize = 1;

/// First token handed to a session.
pub const FIRST_TOKEN: usize = 2;

/// First id handed to a session.
pub const FIRST_CONNECTION_ID: usize = 1;

/// The proxy: every live session, the index from tokens to sessions, the
/// counters that ids and tokens come from, and the resolver.
#[derive(Debug)]
pub struct Server {
    connections: HashMap<usize, Connection>,
    token_map: TokenMap,
    next_connection_id: usize,
    next_token: usize,
    dns_resolver: DnsResolver,
}

/// Mathematical value of a [`Server`].
pub struct ServerView {
    pub connections: Map<usize, ConnectionView>,
    pub token_map: Map<usize, (usize, EndpointKind)>,
    pub next_connection_id: usize,
    pub next_token: usize,
    pub dns: DnsResolverView,
}

/// What an accepted client was admitted as.
#[derive(Debug, Clone, Copy, PartialEq, Eq, Structural)]
pub struct Accepted {
    pub conn_id: usize,
    /// Token to register the client socket under, for readable readiness.
    pub token: usize,
}

impl View for Server {
    type V = ServerView;

    closed spec fn view(&self) -> ServerView {
        ServerView {
            connections: self.connections@.map_values(|c: Connection| c@),
            token_map: self.token_map@,
            next_connection_id: self.next_connection_id,
            next_token: self.next_token,
            dns: self.dns_resolver@,
        }
    }
}

impl ServerView {
    /// A proxy with no session, whose resolver is at `resolver_addr`.
    pub open spec fn fresh(resolver_addr: SocketAddress) -> ServerView {
        ServerView {
            connections: Map::empty(),
            token_map: Map::empty(),
            next_connection_id: FIRST_CONNECTION_ID,
            next_token: FIRST_TOKEN,
            dns: DnsResolverView::fresh(resolver_addr),
        }
    }

    /// Session `id` is sound in itself, is not due for teardown, was named
    /// from the counters, and is found under its tokens in the index.
    pub open spec fn session_ok(self, id: usize) -> bool {
        let c = self.connections[id];
        &&& c.wf()
        &&& !c.should_close()
        &&& id < self.next_connection_id
        &&& FIRST_TOKEN <= c.client_token < self.next_token
        &&& self.token_map.contains_key(c.client_token)
        &&& self.token_map[c.client_token] == (id, EndpointKind::Client)
        &&& c.target_token matches Some(t) ==> {
            &&& FIRST_TOKEN <= t < self.next_token
            &&& self.token_map.contains_key(t)
            &&& self.token_map[t] == (id, EndpointKind::Target)
        }
    }

    /// Token `t` of the index leads to a live session that holds it on the
    /// side the index says.
    pub open spec fn token_ok(self, t: usize) -> bool {
        let (id, kind) = self.token_map[t];
        &&& self.connections.contains_key(id)
        &&& match kind {
            EndpointKind::Client => self.connections[id].client_token == t,
            EndpointKind::Target => self.connections[id].target_token == Some(t),
        }
    }

    /// The request pending under `q` is for a session that was once
    /// admitted and that, if it is still live, is waiting for it.
    pub open spec fn query_ok(self, q: u16) -> bool {
        let id = self.dns.pending[q].conn_id;
        &&& id < self.next_connection_id
        &&& self.connections.contains_key(id) ==> self.connections[id].state
            == ClientState::Resolving
    }

    /// The invariant of the proxy, up to the sessions in `owed`, whose
    /// resolution has ended and whose event has not been handled yet.
    ///
    /// - Every session is sound and filed under its tokens, and every token
    ///   leads to the session that holds it: the index holds nothing else.
    /// - No two pending requests are for the same session, and a pending
    ///   request is only ever for a session that is waiting for it or gone.
    /// - No pending request is for a session in `owed`.
    ///
    /// A session in `Resolving` need not have a pending request: query ids
    /// wrap around, and a request is replaced by a later one that gets the
    /// same id.
    pub open spec fn wf_with(self, owed: Set<usize>) -> bool {
        &&& self.next_connection_id >= FIRST_CONNECTION_ID
        &&& self.next_token >= FIRST_TOKEN
        &&& forall|id: usize| #[trigger]
            self.connections.contains_key(id) ==> self.session_ok(id)
        &&& forall|t: usize| #[trigger] self.token_map.contains_key(t) ==> self.token_ok(t)
        &&& forall|q: u16| #[trigger] self.dns.pending.contains_key(q) ==> self.query_ok(q)
        &&& forall|q1: u16, q2: u16|
            #![trigger self.dns.pending.contains_key(q1), self.dns.pending.contains_key(q2)]
            self.dns.pending.contains_key(q1) && self.dns.pending.contains_key(q2)
                && self.dns.pending[q1].conn_id == self.dns.pending[q2].conn_id ==> q1 == q2
        &&& forall|q: u16| #[trigger]
            self.dns.pending.contains_key(q) ==> !owed.contains(self.dns.pending[q].conn_id)
    }

    /// The invariant of the proxy between any two of its operations.
    pub open spec fn wf(self) -> bool {
        self.wf_with(Set::empty())
    }

    /// Every session is sound and filed under its tokens.
    pub open spec fn sessions_sound(self) -> bool {
        forall|id: usize| #[trigger] self.connections.contains_key(id) ==> self.session_ok(id)
    }

    /// The session and side that `token` stands for, if it stands for one.
    pub open spec fn route(self, token: usize) -> Option<(usize, EndpointKind)> {
        if self.token_map.contains_key(token) && self.connections.contains_key(
            self.token_map[token].0,
        ) {
            Some(self.token_map[token])
        } else {
            None
        }
    }

    /// The proxy without session `id` and without any token that refers to
    /// it.
    pub open spec fn without(self, id: usize) -> ServerView {
        ServerView {
            connections: self.connections.remove(id),
            token_map: self.token_map.remove_keys(tokens_of(self.token_map, id)),
            ..self
        }
    }

    /// Teardown of session `id`: it leaves the proxy, and its sockets are to
    /// be closed after `before` has been performed.
    pub open spec fn close(self, id: usize, before: Seq<ActionView>) -> (
        ServerView,
        Seq<ActionView>,
    ) {
        (self.without(id), before.push(close_action(id, self.connections[id])))
    }

    /// Refusal of session `id`: the client is sent the refused reply, and
    /// the session is torn down.
    pub open spec fn refuse(self, id: usize) -> (ServerView, Seq<ActionView>) {
        self.close(id, seq![refusal(self.connections[id])])
    }

    /// The end of a step of session `id`: what the step changed is taken
    /// over; a session that failed or is due under the half-close policy is
    /// torn down, any other is kept as the step left it.
    pub open spec fn settle(self, id: usize, step: StepView) -> (ServerView, Seq<ActionView>) {
        let taken = ServerView {
            connections: self.connections.insert(id, step.conn),
            token_map: step.token_map,
            next_token: step.next_token,
            dns: step.dns,
            ..self
        };
        if step.reaction.error is Some || step.conn.should_close() {
            taken.close(id, step.reaction.actions)
        } else {
            (taken, step.reaction.actions)
        }
    }

    /// Admission of a client: it gets the next id and the next token and
    /// starts in the greeting phase. Nothing happens once either counter
    /// has run out.
    pub open spec fn accept(self, client_addr: SocketAddress) -> (ServerView, Option<Accepted>) {
        if self.next_token == usize::MAX || self.next_connection_id == usize::MAX {
            (self, None)
        } else {
            (
                ServerView {
                    connections: self.connections.insert(
                        self.next_connection_id,
                        ConnectionView::fresh(self.next_token, client_addr),
                    ),
                    token_map: self.token_map.insert(
                        self.next_token,
                        (self.next_connection_id, EndpointKind::Client),
                    ),
                    next_connection_id: (self.next_connection_id + 1) as usize,
                    next_token: (self.next_token + 1) as usize,
                    ..self
                },
                Some(Accepted { conn_id: self.next_connection_id, token: self.next_token }),
            )
        }
    }

    /// Admission of clients one after the other.
    pub open spec fn accept_all(self, peers: Seq<SocketAddress>) -> (
        ServerView,
        Seq<Option<Accepted>>,
    )
        decreases peers.len(),
    {
        if peers.len() == 0 {
            (self, Seq::empty())
        } else {
            let (before, admitted) = self.accept_all(peers.drop_last());
            let (after, last) = before.accept(peers.last());
            (after, admitted.push(last))
        }
    }

    /// The step of `self` as a value, for a session-local change.
    pub open spec fn step_of(self, conn: ConnectionView, reaction: ReactionView) -> StepView {
        local_step(conn, reaction, self.token_map, self.next_token, self.dns)
    }

    /// A socket became ready. A token that stands for nothing is ignored. A
    /// target that signals an error while connecting is unreachable: the
    /// session is refused. Otherwise a read is asked for if the socket is
    /// readable and the session has use and room for more bytes, and then,
    /// if the socket is writable, either the write that is due is asked
    /// for, or the session takes its writable step at once.
    pub open spec fn on_ready(self, token: usize, readiness: Readiness) -> (
        ServerView,
        Seq<ActionView>,
    ) {
        match self.route(token) {
            None => (self, Seq::empty()),
            Some((id, endpoint)) => {
                let c = self.connections[id];
                if endpoint == EndpointKind::Target && c.state == ClientState::Connecting
                    && readiness.error {
                    self.refuse(id)
                } else {
                    let reads = if readiness.readable && read_size_spec(c, endpoint) > 0 {
                        seq![ActionView::Read { token, max_len: read_size_spec(c, endpoint) }]
                    } else {
                        Seq::empty()
                    };
                    if !readiness.writable {
                        (self, reads)
                    } else {
                        match write_request_spec(c, endpoint) {
                            Some(write) => (self, reads.push(write)),
                            None => {
                                let (conn, reaction) = writable_step(
                                    c,
                                    endpoint,
                                    WriteOutcome::Idle,
                                );
                                let (after, actions) = self.settle(
                                    id,
                                    self.step_of(conn, reaction),
                                );
                                (after, reads + actions)
                            },
                        }
                    }
                }
            },
        }
    }

    /// A read that was asked for has ended. A token that stands for nothing
    /// any more is ignored. An outcome that delivers more than was asked
    /// for tears the session down. Otherwise the session takes its readable
    /// step.
    pub open spec fn on_read(self, token: usize, input: ReadOutcomeView, now: u64) -> (
        ServerView,
        Seq<ActionView>,
    ) {
        match self.route(token) {
            None => (self, Seq::empty()),
            Some((id, endpoint)) => {
                let c = self.connections[id];
                if !read_fits(c, endpoint, input) {
                    self.close(id, Seq::empty())
                } else {
                    self.settle(
                        id,
                        readable_step(
                            c,
                            id,
                            endpoint,
                            input,
                            self.token_map,
                            self.next_token,
                            self.dns,
                            now,
                        ),
                    )
                }
            },
        }
    }

    /// A write that was asked for has ended. A token that stands for
    /// nothing any more is ignored. An outcome that claims more than was
    /// offered tears the session down. Otherwise the session takes its
    /// writable step.
    pub open spec fn on_write(self, token: usize, outcome: WriteOutcome) -> (
        ServerView,
        Seq<ActionView>,
    ) {
        match self.route(token) {
            None => (self, Seq::empty()),
            Some((id, endpoint)) => {
                let c = self.connections[id];
                if !write_fits(c, endpoint, outcome) {
                    self.close(id, Seq::empty())
                } else {
                    let (conn, reaction) = writable_step(c, endpoint, outcome);
                    self.settle(id, self.step_of(conn, reaction))
                }
            },
        }
    }

    /// An operation on the socket under `token` has failed. If that socket
    /// is a target whose connect is in progress, the target is unreachable
    /// and the session is refused; any other session is simply torn down.
    pub open spec fn on_failure(self, token: usize) -> (ServerView, Seq<ActionView>) {
        match self.route(token) {
            None => (self, Seq::empty()),
            Some((id, endpoint)) => if endpoint == EndpointKind::Target
                && self.connections[id].state == ClientState::Connecting {
                self.refuse(id)
            } else {
                self.close(id, Seq::empty())
            },
        }
    }

    /// The query with this id could not be sent: its request is forgotten,
    /// and the session that was waiting for it, if still live, is refused.
    pub open spec fn on_query_failure(self, query_id: u16) -> (ServerView, Seq<ActionView>) {
        if !self.dns.pending.contains_key(query_id) {
            (self, Seq::empty())
        } else {
            let id = self.dns.pending[query_id].conn_id;
            let forgotten = ServerView { dns: self.dns.forget(query_id), ..self };
            if forgotten.connections.contains_key(id) {
                forgotten.refuse(id)
            } else {
                (forgotten, Seq::empty())
            }
        }
    }

    /// A resolution has ended. An event for a session that is gone is
    /// ignored. A failure refuses the session, in whatever state it is. An
    /// address starts the outbound connection of a session in `Resolving`
    /// and is ignored for a session in any other state.
    pub open spec fn on_dns_event(self, event: DnsEventView) -> (ServerView, Seq<ActionView>) {
        let id = event.conn_id();
        if !self.connections.contains_key(id) {
            (self, Seq::empty())
        } else {
            match event {
                DnsEventView::Failed { .. } => self.refuse(id),
                DnsEventView::Resolved { resolved_addr, display, .. } => if self.connections[id].state
                    != ClientState::Resolving {
                    (self, Seq::empty())
                } else {
                    self.settle(
                        id,
                        connect_step(
                            self.connections[id],
                            id,
                            resolved_addr,
                            display,
                            self.token_map,
                            self.next_token,
                            self.dns,
                        ),
                    )
                },
            }
        }
    }

    /// A resolution has ended, by whatever means: the requests still
    /// pending for its session are forgotten, and the event is handled.
    pub open spec fn on_event(self, event: DnsEventView) -> (ServerView, Seq<ActionView>) {
        (ServerView { dns: self.dns.without_session(event.conn_id()), ..self }).on_dns_event(event)
    }

    /// Resolutions that have ended, handled in order.
    pub open spec fn on_dns_events(self, events: Seq<DnsEventView>) -> (
        ServerView,
        Seq<ActionView>,
    )
        decreases events.len(),
    {
        if events.len() == 0 {
            (self, Seq::empty())
        } else {
            let (before, actions) = self.on_dns_events(events.drop_last());
            let (after, more) = before.on_dns_event(events.last());
            (after, actions + more)
        }
    }

    /// Datagrams have arrived on the resolver socket: the resolver takes
    /// them in, and the events that result are handled in order.
    pub open spec fn on_datagrams(self, datagrams: Seq<DatagramView>) -> (
        ServerView,
        Seq<ActionView>,
    ) {
        let (dns, events) = self.dns.receive_all(datagrams);
        (ServerView { dns, ..self }).on_dns_events(events)
    }

    /// Time has passed: the resolver drops the requests that have expired,
    /// here taken in the order `ids`, and each of their sessions is refused.
    pub open spec fn on_timeouts(self, now: u64, ids: Seq<u16>) -> (ServerView, Seq<ActionView>) {
        (ServerView { dns: self.dns.sweep(now), ..self }).on_dns_events(self.dns.timeouts(ids))
    }
}

impl Server {
    /// A proxy with no session, whose resolver is at `resolver_addr`.
    pub fn new(resolver_addr: SocketAddress) -> (server: Server)
        ensures
            server@ == ServerView::fresh(resolver_addr),
            server@.wf(),
    {
        let server = Server {
            connections: HashMap::new(),
            token_map: HashMap::new(),
            next_connection_id: FIRST_CONNECTION_ID,
            next_token: FIRST_TOKEN,
            dns_resolver: DnsResolver::new(resolver_addr),
        };
        assert(server@.connections =~= Map::empty());
        server
    }

    /// Number of live sessions.
    pub fn connection_count(&self) -> (r: usize)
        ensures
            r == self@.connections.dom().len(),
    {
        assert(self@.connections.dom() =~= self.connections@.dom());
        self.connections.len()
    }

    /// Number of tokens in the index.
    pub fn token_count(&self) -> (r: usize)
        ensures
            r == self@.token_map.dom().len(),
    {
        self.token_map.len()
    }

    /// How many milliseconds the reactor may wait for readiness before it
    /// calls [`Server::handle_timeouts`]; `None` lets it wait without limit.
    pub fn poll_timeout_ms(&self) -> (r: Option<u64>)
        ensures
            r == self@.dns.poll_timeout(),
    {
        self.dns_resolver.poll_timeout_ms()
    }

    /// The resolver's bookkeeping.
    pub fn dns_resolver(&self) -> (r: &DnsResolver)
        ensures
            r@ == self@.dns,
    {
        &self.dns_resolver
    }

    /// Session `conn_id`, if it is live.
    pub fn connection(&self, conn_id: usize) -> (r: Option<&Connection>)
        ensures
            match r {
                Some(c) => self@.connections.contains_key(conn_id) && c@
                    == self@.connections[conn_id],
                None => !self@.connections.contains_key(conn_id),
            },
    {
        self.connections.get(&conn_id)
    }

    /// The session and side that `token` stands for, if it stands for one.
    pub fn route(&self, token: usize) -> (r: Option<(usize, EndpointKind)>)
        ensures
            r == self@.route(token),
    {
        match self.token_map.get(&token) {
            Some(entry) => {
                let entry = *entry;
                if self.connections.contains_key(&entry.0) {
                    Some(entry)
                } else {
                    None
                }
            },
            None => None,
        }
    }

    /// Admits one accepted client.
    pub fn accept_connection(&mut self, client_addr: SocketAddress) -> (r: Option<Accepted>)
        requires
            old(self)@.wf(),
        ensures
            (final(self)@, r) == old(self)@.accept(client_addr),
            final(self)@.wf(),
    {
        proof {
            crate::invariants::lemma_accept_keeps_wf(self@, client_addr);
        }
        if self.next_token == usize::MAX || self.next_connection_id == usize::MAX {
            return None;
        }
        let token = self.next_token;
        let conn_id = self.next_connection_id;
        self.next_token = token + 1;
        self.next_connection_id = conn_id + 1;
        self.token_map.insert(token, (conn_id, EndpointKind::Client));
        self.connections.insert(conn_id, Connection::new(token, client_addr));
        assert(self@.connections =~= old(self)@.connections.insert(
            conn_id,
            ConnectionView::fresh(token, client_addr),
        ));
        Some(Accepted { conn_id, token })
    }

    /// Admits the clients that the listener has accepted, in order. Each
    /// entry of the result says what the client at the same place was
    /// admitted as; its socket is to be registered for readable readiness
    /// under the token given.
    pub fn accept_connections(&mut self, peers: &Vec<SocketAddress>) -> (r: Vec<Option<Accepted>>)
        requires
            old(self)@.wf(),
        ensures
            (final(self)@, r@) == old(self)@.accept_all(peers@),
            final(self)@.wf(),
    {
        let mut admitted: Vec<Option<Accepted>> = Vec::new();
        let mut i: usize = 0;
        while i < peers.len()
            invariant
                i <= peers.len(),
                self@.wf(),
                (self@, admitted@) == old(self)@.accept_all(peers@.take(i as int)),
            decreases peers.len() - i,
        {
            let accepted = self.accept_connection(peers[i]);
            admitted.push(accepted);
            proof {
                let prefix = peers@.take(i + 1);
                assert(prefix.drop_last() =~= peers@.take(i as int));
            }
            i += 1;
        }
        assert(peers@.take(i as int) =~= peers@);
        admitted
    }

    /// Tears session `conn_id` down after `actions`.
    fn close(&mut self, conn_id: usize, actions: Vec<Action>) -> (r: Vec<Action>)
        requires
            old(self)@.connections.contains_key(conn_id),
        ensures
            (final(self)@, action_views(r@)) == old(self)@.close(conn_id, action_views(actions@)),
    {
        let mut actions = actions;
        match cleanup_connection(conn_id, &mut self.connections, &mut self.token_map) {
            Some(action) => {
                actions.push(action);
            },
            None => {},
        }
        assert(self@.connections =~= old(self)@.connections.remove(conn_id));
        actions
    }

    /// Sends session `conn_id` the refused reply and tears it down.
    fn refuse(&mut self, conn_id: usize) -> (r: Vec<Action>)
        requires
            old(self)@.connections.contains_key(conn_id),
        ensures
            (final(self)@, action_views(r@)) == old(self)@.refuse(conn_id),
    {
        let mut actions: Vec<Action> = Vec::new();
        match self.connections.get(&conn_id) {
            Some(conn) => {
                let refused = Action::Send { token: conn.client_token, reply: Reply::Refused };
                actions.push(refused);
            },
            None => {},
        }
        self.close(conn_id, actions)
    }

    /// Ends a step of session `conn_id`, which was taken out of the table
    /// for it: the session goes back, and is torn down if it failed or is
    /// due under the half-close policy.
    fn settle(&mut self, conn_id: usize, conn: Connection, reaction: Reaction) -> (r: Vec<Action>)
        ensures
            (final(self)@, action_views(r@)) == old(self)@.settle(
                conn_id,
                old(self)@.step_of(conn@, reaction@),
            ),
    {
        let ends = reaction.error.is_some() || conn.should_close();
        self.connections.insert(conn_id, conn);
        assert(self@.connections =~= old(self)@.connections.insert(conn_id, conn@));
        if ends {
            self.close(conn_id, reaction.actions)
        } else {
            reaction.actions
        }
    }

    /// Reacts to the readiness that the reactor reported for `token`:
    /// answers with the read and the write to make, or takes the step that
    /// needs neither.
    pub fn handle_connection_event(&mut self, token: usize, readiness: Readiness) -> (r: Vec<
        Action,
    >)
        requires
            old(self)@.wf(),
        ensures
            (final(self)@, action_views(r@)) == old(self)@.on_ready(token, readiness),
            final(self)@.wf(),
    {
        proof {
            crate::invariants::lemma_on_ready_keeps_wf(self@, token, readiness);
        }
        let mut actions: Vec<Action> = Vec::new();
        let (conn_id, endpoint) = match self.route(token) {
            Some(routed) => routed,
            None => {
                return actions;
            },
        };
        let mut conn = match self.connections.remove(&conn_id) {
            Some(conn) => conn,
            None => {
                return actions;
            },
        };
        let unreachable = readiness.error && endpoint == EndpointKind::Target && conn.state
            == ClientState::Connecting;
        if unreachable {
            self.connections.insert(conn_id, conn);
            assert(self@ == old(self)@) by {
                assert(self@.connections =~= old(self)@.connections);
            }
            return self.refuse(conn_id);
        }
        if readiness.readable {
            let max_len = read_size(&conn, endpoint);
            if max_len > 0 {
                let read = Action::Read { token, max_len };
                actions.push(read);
            }
        }
        if !readiness.writable {
            self.connections.insert(conn_id, conn);
            assert(self@ == old(self)@) by {
                assert(self@.connections =~= old(self)@.connections);
            }
            return actions;
        }
        match write_request(&conn, endpoint) {
            Some(write) => {
                self.connections.insert(conn_id, conn);
                assert(self@ == old(self)@) by {
                    assert(self@.connections =~= old(self)@.connections);
                }
                actions.push(write);
                actions
            },
            None => {
                let reaction = handle_writable(&mut conn, endpoint, WriteOutcome::Idle);
                let ghost mid = self@;
                let mut more = self.settle(conn_id, conn, reaction);
                proof {
                    let step = old(self)@.step_of(conn@, reaction@);
                    assert(mid.connections.insert(conn_id, conn@) =~= old(self)@.connections.insert(
                        conn_id,
                        conn@,
                    ));
                    assert(mid.settle(conn_id, mid.step_of(conn@, reaction@)) == old(
                        self,
                    )@.settle(conn_id, step));
                }
                actions.append(&mut more);
                actions
            },
        }
    }

    /// Takes in the outcome of a read that was asked for on `token`.
    pub fn handle_read(&mut self, token: usize, input: &ReadOutcome, now: u64) -> (r: Vec<Action>)
        requires
            old(self)@.wf(),
        ensures
            (final(self)@, action_views(r@)) == old(self)@.on_read(token, input@, now),
            final(self)@.wf(),
    {
        proof {
            crate::invariants::lemma_on_read_keeps_wf(self@, token, input@, now);
        }
        let (conn_id, endpoint) = match self.route(token) {
            Some(routed) => routed,
            None => {
                let actions: Vec<Action> = Vec::new();
                return actions;
            },
        };
        let mut conn = match self.connections.remove(&conn_id) {
            Some(conn) => conn,
            None => {
                return Vec::new();
            },
        };
        let delivered = match input {
            ReadOutcome::Data(data) => data.len(),
            _ => 0,
        };
        if delivered > read_size(&conn, endpoint) {
            self.connections.insert(conn_id, conn);
            assert(self@ == old(self)@) by {
                assert(self@.connections =~= old(self)@.connections);
            }
            let actions: Vec<Action> = Vec::new();
            return self.close(conn_id, actions);
        }
        let reaction = handle_readable(
            &mut conn,
            conn_id,
            endpoint,
            input,
            &mut self.token_map,
            &mut self.next_token,
            &mut self.dns_resolver,
            now,
        );
        let ghost mid = self@;
        let actions = self.settle(conn_id, conn, reaction);
        proof {
            let c = old(self)@.connections[conn_id];
            let step = readable_step(
                c,
                conn_id,
                endpoint,
                input@,
                old(self)@.token_map,
                old(self)@.next_token,
                old(self)@.dns,
                now,
            );
            assert(mid.connections.insert(conn_id, conn@) =~= old(self)@.connections.insert(
                conn_id,
                conn@,
            ));
        }
        actions
    }

    /// Takes in the outcome of a write that was asked for on `token`.
    pub fn handle_write(&mut self, token: usize, outcome: WriteOutcome) -> (r: Vec<Action>)
        requires
            old(self)@.wf(),
        ensures
            (final(self)@, action_views(r@)) == old(self)@.on_write(token, outcome),
            final(self)@.wf(),
    {
        proof {
            crate::invariants::lemma_on_write_keeps_wf(self@, token, outcome);
        }
        let (conn_id, endpoint) = match self.route(token) {
            Some(routed) => routed,
            None => {
                let actions: Vec<Action> = Vec::new();
                return actions;
            },
        };
        let mut conn = match self.connections.remove(&conn_id) {
            Some(conn) => conn,
            None => {
                return Vec::new();
            },
        };
        let fits = match outcome {
            WriteOutcome::Written(n) => match write_request(&conn, endpoint) {
                Some(Action::Write { bytes, .. }) => n <= bytes.len(),
                _ => false,
            },
            _ => true,
        };
        if !fits {
            self.connections.insert(conn_id, conn);
            assert(self@ == old(self)@) by {
                assert(self@.connections =~= old(self)@.connections);
            }
            let actions: Vec<Action> = Vec::new();
            return self.close(conn_id, actions);
        }
        let reaction = handle_writable(&mut conn, endpoint, outcome);
        let ghost mid = self@;
        let actions = self.settle(conn_id, conn, reaction);
        proof {
            let step = old(self)@.step_of(conn@, reaction@);
            assert(mid.connections.insert(conn_id, conn@) =~= old(self)@.connections.insert(
                conn_id,
                conn@,
            ));
            assert(mid.settle(conn_id, mid.step_of(conn@, reaction@)) == old(self)@.settle(
                conn_id,
                step,
            ));
        }
        actions
    }

    /// Takes in that an operation on the socket under `token` has failed: a
    /// frame could not be sent, a registration could not be changed, or a
    /// connect could not be started.
    pub fn handle_failure(&mut self, token: usize) -> (r: Vec<Action>)
        requires
            old(self)@.wf(),
        ensures
            (final(self)@, action_views(r@)) == old(self)@.on_failure(token),
            final(self)@.wf(),
    {
        proof {
            crate::invariants::lemma_on_failure_keeps_wf(self@, token);
        }
        let actions: Vec<Action> = Vec::new();
        let (conn_id, endpoint) = match self.route(token) {
            Some(routed) => routed,
            None => {
                return actions;
            },
        };
        let connecting = match self.connections.get(&conn_id) {
            Some(conn) => conn.state == ClientState::Connecting,
            None => false,
        };
        if endpoint == EndpointKind::Target && connecting {
            self.refuse(conn_id)
        } else {
            self.close(conn_id, actions)
        }
    }

    /// Takes in that the query with this id could not be sent.
    pub fn handle_query_failure(&mut self, query_id: u16) -> (r: Vec<Action>)
        requires
            old(self)@.wf(),
        ensures
            (final(self)@, action_views(r@)) == old(self)@.on_query_failure(query_id),
            final(self)@.wf(),
    {
        proof {
            crate::invariants::lemma_on_query_failure_keeps_wf(self@, query_id);
        }
        let actions: Vec<Action> = Vec::new();
        match self.dns_resolver.abandon(query_id) {
            Some(request) => {
                if self.connections.contains_key(&request.conn_id) {
                    self.refuse(request.conn_id)
                } else {
                    actions
                }
            },
            None => {
                assert(self@.dns.pending =~= old(self)@.dns.pending);
                actions
            },
        }
    }

    /// Takes in the end of a resolution, however it was arrived at: what
    /// is still pending for the session of the event is forgotten, and the
    /// event is handled.
    pub fn handle_dns_event(&mut self, event: &DnsEvent) -> (r: Vec<Action>)
        requires
            old(self)@.wf(),
        ensures
            (final(self)@, action_views(r@)) == old(self)@.on_event(event@),
            final(self)@.wf(),
    {
        proof {
            crate::invariants::lemma_on_event_keeps_wf(self@, event@);
            crate::invariants::lemma_forgotten_owes(self@, event@.conn_id());
        }
        self.dns_resolver.forget_session(event.conn_id());
        assert(self@ == (ServerView {
            dns: old(self)@.dns.without_session(event@.conn_id()),
            ..old(self)@
        }));
        self.deliver(event)
    }

    /// Handles the end of a resolution.
    fn deliver(&mut self, event: &DnsEvent) -> (r: Vec<Action>)
        requires
            old(self)@.sessions_sound(),
        ensures
            (final(self)@, action_views(r@)) == old(self)@.on_dns_event(event@),
    {
        let actions: Vec<Action> = Vec::new();
        assert(action_views(actions@) =~= Seq::empty());
        let conn_id = event.conn_id();
        let state = match self.connections.get(&conn_id) {
            Some(conn) => conn.state,
            None => {
                return actions;
            },
        };
        match event {
            DnsEvent::Failed { .. } => self.refuse(conn_id),
            DnsEvent::Resolved { resolved_addr, display, .. } => {
                if state != ClientState::Resolving {
                    return actions;
                }
                let mut conn = match self.connections.remove(&conn_id) {
                    Some(conn) => conn,
                    None => {
                        return actions;
                    },
                };
                assert(old(self)@.connections.contains_key(conn_id));
                let reaction = start_connect(
                    &mut conn,
                    conn_id,
                    *resolved_addr,
                    display.clone(),
                    &mut self.token_map,
                    &mut self.next_token,
                    &self.dns_resolver,
                );
                let ghost mid = self@;
                let actions = self.settle(conn_id, conn, reaction);
                proof {
                    assert(mid.connections.insert(conn_id, conn@) =~= old(
                        self,
                    )@.connections.insert(conn_id, conn@));
                }
                actions
            },
        }
    }

    /// Handles resolutions that have ended, in order.
    fn handle_dns_events(&mut self, events: &Vec<DnsEvent>, Ghost(owed): Ghost<Set<usize>>) -> (r:
        Vec<Action>)
        requires
            old(self)@.wf_with(owed),
            forall|i: int|
                0 <= i < events.len() ==> owed.contains(#[trigger] event_views(events@)[i].conn_id()),
        ensures
            (final(self)@, action_views(r@)) == old(self)@.on_dns_events(event_views(events@)),
    {
        let mut actions: Vec<Action> = Vec::new();
        let ghost all = event_views(events@);
        let mut i: usize = 0;
        while i < events.len()
            invariant
                i <= events.len(),
                all == event_views(events@),
                old(self)@.wf_with(owed),
                forall|j: int| 0 <= j < all.len() ==> owed.contains(#[trigger] all[j].conn_id()),
                (self@, action_views(actions@)) == old(self)@.on_dns_events(all.take(i as int)),
            decreases events.len() - i,
        {
            proof {
                let seen = all.take(i as int);
                assert forall|j: int| 0 <= j < seen.len() implies owed.contains(
                    #[trigger] seen[j].conn_id(),
                ) by {}
                crate::invariants::lemma_on_dns_events(old(self)@, seen, owed);
            }
            let mut more = self.deliver(&events[i]);
            actions.append(&mut more);
            proof {
                let prefix = all.take(i + 1);
                assert(prefix.drop_last() =~= all.take(i as int));
            }
            i += 1;
        }
        assert(all.take(i as int) =~= all);
        actions
    }

    /// Takes in the datagrams that were received on the resolver socket,
    /// in order.
    pub fn handle_dns_socket(&mut self, datagrams: &Vec<Datagram>) -> (r: Vec<Action>)
        requires
            old(self)@.wf(),
        ensures
            (final(self)@, action_views(r@)) == old(self)@.on_datagrams(datagram_views(datagrams@)),
            final(self)@.wf(),
    {
        let events = self.dns_resolver.handle_responses(datagrams);
        let ghost owed = crate::invariants::sessions_of(event_views(events@));
        proof {
            let input = datagram_views(datagrams@);
            crate::invariants::lemma_on_datagrams_keeps_wf(old(self)@, input);
            crate::invariants::lemma_receive_all(old(self)@.dns, input);
            crate::invariants::lemma_answered_owes(old(self)@, self@.dns, event_views(events@));
        }
        self.handle_dns_events(&events, Ghost(owed))
    }

    /// Expires the requests that have been waiting too long at `now` and
    /// refuses their sessions. The order in which the expired requests are
    /// taken is not specified.
    pub fn handle_timeouts(&mut self, now: u64) -> (r: Vec<Action>)
        requires
            old(self)@.wf(),
        ensures
            exists|ids: Seq<u16>|
                {
                    &&& ids.no_duplicates()
                    &&& ids.to_set() == old(self)@.dns.expired_ids(now)
                    &&& (final(self)@, action_views(r@)) == #[trigger] old(self)@.on_timeouts(
                        now,
                        ids,
                    )
                },
            final(self)@.wf(),
    {
        let events = self.dns_resolver.cleanup_expired(now);
        let ghost owed = crate::invariants::sessions_of(event_views(events@));
        let ghost ids = choose|ids: Seq<u16>|
            {
                &&& ids.no_duplicates()
                &&& ids.to_set() == old(self)@.dns.expired_ids(now)
                &&& event_views(events@) == #[trigger] old(self)@.dns.timeouts(ids)
            };
        proof {
            crate::invariants::lemma_on_timeouts_keeps_wf(old(self)@, now, ids);
            crate::invariants::lemma_sweep(old(self)@.dns, now, ids);
            crate::invariants::lemma_answered_owes(old(self)@, self@.dns, event_views(events@));
        }
        self.handle_dns_events(&events, Ghost(owed))
    }
}

} // verus!
