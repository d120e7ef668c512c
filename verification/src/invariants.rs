//! Proofs that every operation of the proxy keeps its invariant.

use crate::connection::{ConnectionView, EndpointKind};
use crate::dns::{
    next_id, DatagramView, DnsEventView, DnsRequestView, DnsResolverView,
};
use crate::event::{ReadOutcomeView, Readiness, WriteOutcome};
use crate::handler::readable::{
    client_step, connect_step, read_fits, readable_step, request_step, resolve_step,
    target_data_step, StepView,
};
use crate::handler::writable::{writable_step, write_fits};
use crate::net::SocketAddress;
use crate::server::ServerView;
use crate::socks5::state::ClientState;
use crate::util::tokens_of;
use vstd::prelude::*;

verus! {

/// What starting a resolution does to the table of pending requests: on
/// success exactly one request is recorded, for the given session, under
/// the id that was next; on failure the table is as it was.
pub proof fn lemma_resolve(
    dns: DnsResolverView,
    domain: Seq<char>,
    port: u16,
    conn_id: usize,
    now: u64,
)
    ensures
        ({
            let (after, outcome) = dns.resolve(domain, port, conn_id, now);
            &&& after.resolver_addr == dns.resolver_addr
            &&& after.next_query_id == next_id(dns.next_query_id)
            &&& match outcome {
                Ok((id, _)) => {
                    &&& id == dns.next_query_id
                    &&& after.pending == dns.pending.insert(
                        id,
                        DnsRequestView { domain, port, conn_id, timestamp: now },
                    )
                },
                Err(_) => after.pending == dns.pending,
            }
        }),
{
}

impl StepView {
    /// The step left the index and the token counter alone.
    pub open spec fn keeps_tokens(self, s: ServerView, id: usize) -> bool {
        &&& self.token_map == s.token_map
        &&& self.next_token == s.next_token
        &&& self.conn.target_token == s.connections[id].target_token
    }

    /// The step gave the session, which had no target, the next token for
    /// its target and filed it in the index.
    pub open spec fn takes_token(self, s: ServerView, id: usize) -> bool {
        &&& s.connections[id].target_token is None
        &&& s.next_token < usize::MAX
        &&& self.conn.target_token == Some(s.next_token)
        &&& self.token_map == s.token_map.insert(s.next_token, (id, EndpointKind::Target))
        &&& self.next_token == s.next_token + 1
    }

    /// The step left the pending requests alone, and the session did not
    /// start to wait for one.
    pub open spec fn keeps_queries(self, s: ServerView, id: usize) -> bool {
        &&& self.dns.pending == s.dns.pending
        &&& self.conn.state == ClientState::Resolving ==> s.connections[id].state
            == ClientState::Resolving
    }

    /// The step recorded one pending request, for this session, in place of
    /// whatever was pending under its id, and the session, which was in the
    /// request phase, now waits for it.
    pub open spec fn adds_query(self, s: ServerView, id: usize) -> bool {
        &&& s.connections[id].state == ClientState::Request
        &&& self.conn.state == ClientState::Resolving
        &&& exists|q: u16, r: DnsRequestView|
            r.conn_id == id && #[trigger] s.dns.pending.insert(q, r) == self.dns.pending
    }

    /// The step is one that session `id` of `s` may take while the
    /// sessions in `owed` are owed an event: it keeps the client token;
    /// a session that goes on is sound; a target token, if one is taken, is
    /// the next one from the counter; a pending request, if one is added,
    /// is this session's; and a session leaves `Resolving` only if it goes
    /// away or is owed its event.
    pub open spec fn follows(self, s: ServerView, id: usize, owed: Set<usize>) -> bool {
        let c = s.connections[id];
        let ends = self.reaction.error is Some || self.conn.should_close();
        &&& self.conn.client_token == c.client_token
        &&& !ends ==> self.conn.wf()
        &&& self.keeps_tokens(s, id) || self.takes_token(s, id)
        &&& self.keeps_queries(s, id) || (self.adds_query(s, id) && !owed.contains(id))
        &&& (c.state == ClientState::Resolving && self.conn.state != ClientState::Resolving)
            ==> ends || owed.contains(id)
    }
}

/// Taking a session out keeps the invariant.
pub proof fn lemma_without_keeps_wf(s: ServerView, id: usize, owed: Set<usize>)
    requires
        s.wf_with(owed),
    ensures
        s.without(id).wf_with(owed),
{
    let after = s.without(id);
    assert forall|other: usize| #[trigger] after.connections.contains_key(other) implies
        after.session_ok(other) by {
        assert(s.connections.contains_key(other));
        assert(s.session_ok(other));
    }
    assert forall|t: usize| #[trigger] after.token_map.contains_key(t) implies after.token_ok(
        t,
    ) by {
        assert(s.token_map.contains_key(t));
        assert(s.token_ok(t));
    }
    assert forall|q: u16| #[trigger] after.dns.pending.contains_key(q) implies after.query_ok(
        q,
    ) by {
        assert(s.query_ok(q));
    }
}

/// Ending a step keeps the invariant, whatever became of the session.
pub proof fn lemma_settle_keeps_wf(s: ServerView, id: usize, step: StepView, owed: Set<usize>)
    requires
        s.wf_with(owed),
        s.connections.contains_key(id),
        step.follows(s, id, owed),
        step.dns.resolver_addr == s.dns.resolver_addr,
    ensures
        s.settle(id, step).0.wf_with(owed),
{
    let c = s.connections[id];
    let taken = ServerView {
        connections: s.connections.insert(id, step.conn),
        token_map: step.token_map,
        next_token: step.next_token,
        dns: step.dns,
        ..s
    };
    let ends = step.reaction.error is Some || step.conn.should_close();
    let after = s.settle(id, step).0;
    assert(s.session_ok(id));
    assert(after.next_token >= s.next_token);
    assert forall|other: usize| #[trigger] after.connections.contains_key(other) implies
        after.session_ok(other) by {
        if other != id {
            assert(s.connections.contains_key(other));
            assert(s.session_ok(other));
            let o = s.connections[other];
            assert(s.token_map.contains_key(o.client_token));
            assert(s.token_ok(o.client_token));
        }
    }
    assert forall|t: usize| #[trigger] after.token_map.contains_key(t) implies after.token_ok(
        t,
    ) by {
        if s.token_map.contains_key(t) {
            assert(s.token_ok(t));
        }
    }
    assert forall|q: u16| #[trigger] after.dns.pending.contains_key(q) implies after.query_ok(q)
        && !owed.contains(after.dns.pending[q].conn_id) by {
        if s.dns.pending.contains_key(q) {
            assert(s.query_ok(q));
        }
    }
    assert forall|q1: u16, q2: u16|
        #![trigger after.dns.pending.contains_key(q1), after.dns.pending.contains_key(q2)]
        after.dns.pending.contains_key(q1) && after.dns.pending.contains_key(q2)
            && after.dns.pending[q1].conn_id == after.dns.pending[q2].conn_id implies q1
        == q2 by {
        if s.dns.pending.contains_key(q1) {
            assert(s.query_ok(q1));
        }
        if s.dns.pending.contains_key(q2) {
            assert(s.query_ok(q2));
        }
    }
}

/// The readable step of a session is one it may take.
pub proof fn lemma_readable_step_follows(
    s: ServerView,
    id: usize,
    endpoint: EndpointKind,
    input: ReadOutcomeView,
    now: u64,
)
    requires
        s.wf(),
        s.connections.contains_key(id),
        read_fits(s.connections[id], endpoint, input),
    ensures
        ({
            let step = readable_step(
                s.connections[id],
                id,
                endpoint,
                input,
                s.token_map,
                s.next_token,
                s.dns,
                now,
            );
            step.follows(s, id, Set::empty()) && step.dns.resolver_addr == s.dns.resolver_addr
        }),
{
    let c = s.connections[id];
    let step = readable_step(c, id, endpoint, input, s.token_map, s.next_token, s.dns, now);
    assert(s.session_ok(id));
    if endpoint == EndpointKind::Client && c.state == ClientState::Request {
        if let ReadOutcomeView::Data(d) = input {
            let buf = c.client_buf + d;
            if let Ok(Some(crate::socks5::protocol::RequestInfoView::NeedsResolution {
                domain,
                port,
            })) = crate::socks5::protocol::parse_request_spec(buf) {
                lemma_resolve(s.dns, domain, port, id, now);
                let (after, outcome) = s.dns.resolve(domain, port, id, now);
                if let Ok((q, _)) = outcome {
                    let r = DnsRequestView { domain, port, conn_id: id, timestamp: now };
                    assert(s.dns.pending.insert(q, r) == step.dns.pending);
                    assert(step.adds_query(s, id));
                }
            }
        }
    }
}

/// The writable step of a session is one it may take.
pub proof fn lemma_writable_step_follows(
    s: ServerView,
    id: usize,
    endpoint: EndpointKind,
    outcome: WriteOutcome,
)
    requires
        s.wf(),
        s.connections.contains_key(id),
        write_fits(s.connections[id], endpoint, outcome),
    ensures
        ({
            let (conn, reaction) = writable_step(s.connections[id], endpoint, outcome);
            s.step_of(conn, reaction).follows(s, id, Set::empty())
        }),
{
    assert(s.session_ok(id));
}

/// Starting the outbound connection of a session that is owed the end of
/// its resolution is a step it may take.
pub proof fn lemma_connect_step_follows(
    s: ServerView,
    id: usize,
    addr: SocketAddress,
    display: Seq<char>,
    owed: Set<usize>,
)
    requires
        s.wf_with(owed),
        s.connections.contains_key(id),
        s.connections[id].state == ClientState::Resolving,
        owed.contains(id),
    ensures
        connect_step(
            s.connections[id],
            id,
            addr,
            display,
            s.token_map,
            s.next_token,
            s.dns,
        ).follows(s, id, owed),
{
    assert(s.session_ok(id));
}

/// The invariant up to some sessions is the invariant: being owed an
/// event only adds that no pending request is for the session.
pub proof fn lemma_owed_settled(s: ServerView, owed: Set<usize>)
    requires
        s.wf_with(owed),
    ensures
        s.wf(),
{
}

/// Admitting a client keeps the invariant.
pub proof fn lemma_accept_keeps_wf(s: ServerView, client_addr: SocketAddress)
    requires
        s.wf(),
    ensures
        s.accept(client_addr).0.wf(),
{
    let after = s.accept(client_addr).0;
    if after != s {
        let id = s.next_connection_id;
        let token = s.next_token;
        assert(!s.connections.contains_key(id)) by {
            if s.connections.contains_key(id) {
                assert(s.session_ok(id));
            }
        }
        assert(!s.token_map.contains_key(token)) by {
            if s.token_map.contains_key(token) {
                assert(s.token_ok(token));
                assert(s.session_ok(s.token_map[token].0));
            }
        }
        assert forall|other: usize| #[trigger] after.connections.contains_key(other) implies
            after.session_ok(other) by {
            if other != id {
                assert(s.session_ok(other));
            }
        }
        assert forall|t: usize| #[trigger] after.token_map.contains_key(t) implies
            after.token_ok(t) by {
            if t != token {
                assert(s.token_ok(t));
            }
        }
        assert forall|q: u16| #[trigger] after.dns.pending.contains_key(q) implies
            after.query_ok(q) by {
            assert(s.query_ok(q));
        }
    }
}

/// Admitting clients one after the other keeps the invariant.
pub proof fn lemma_accept_all_keeps_wf(s: ServerView, peers: Seq<SocketAddress>)
    requires
        s.wf(),
    ensures
        s.accept_all(peers).0.wf(),
        s.accept_all(peers).1.len() == peers.len(),
    decreases peers.len(),
{
    if peers.len() > 0 {
        lemma_accept_all_keeps_wf(s, peers.drop_last());
        lemma_accept_keeps_wf(s.accept_all(peers.drop_last()).0, peers.last());
    }
}

/// Reacting to readiness keeps the invariant.
pub proof fn lemma_on_ready_keeps_wf(s: ServerView, token: usize, readiness: Readiness)
    requires
        s.wf(),
    ensures
        s.on_ready(token, readiness).0.wf(),
{
    if let Some((id, endpoint)) = s.route(token) {
        let c = s.connections[id];
        lemma_without_keeps_wf(s, id, Set::empty());
        lemma_writable_step_follows(s, id, endpoint, WriteOutcome::Idle);
        let (conn, reaction) = writable_step(c, endpoint, WriteOutcome::Idle);
        lemma_settle_keeps_wf(s, id, s.step_of(conn, reaction), Set::empty());
    }
}

/// Taking in the outcome of a read keeps the invariant.
pub proof fn lemma_on_read_keeps_wf(s: ServerView, token: usize, input: ReadOutcomeView, now: u64)
    requires
        s.wf(),
    ensures
        s.on_read(token, input, now).0.wf(),
{
    if let Some((id, endpoint)) = s.route(token) {
        let c = s.connections[id];
        lemma_without_keeps_wf(s, id, Set::empty());
        if read_fits(c, endpoint, input) {
            lemma_readable_step_follows(s, id, endpoint, input, now);
            lemma_settle_keeps_wf(
                s,
                id,
                readable_step(c, id, endpoint, input, s.token_map, s.next_token, s.dns, now),
                Set::empty(),
            );
        }
    }
}

/// Taking in the outcome of a write keeps the invariant.
pub proof fn lemma_on_write_keeps_wf(s: ServerView, token: usize, outcome: WriteOutcome)
    requires
        s.wf(),
    ensures
        s.on_write(token, outcome).0.wf(),
{
    if let Some((id, endpoint)) = s.route(token) {
        let c = s.connections[id];
        lemma_without_keeps_wf(s, id, Set::empty());
        if write_fits(c, endpoint, outcome) {
            lemma_writable_step_follows(s, id, endpoint, outcome);
            let (conn, reaction) = writable_step(c, endpoint, outcome);
            lemma_settle_keeps_wf(s, id, s.step_of(conn, reaction), Set::empty());
        }
    }
}

/// Taking in a failed operation keeps the invariant.
pub proof fn lemma_on_failure_keeps_wf(s: ServerView, token: usize)
    requires
        s.wf(),
    ensures
        s.on_failure(token).0.wf(),
{
    if let Some((id, endpoint)) = s.route(token) {
        lemma_without_keeps_wf(s, id, Set::empty());
    }
}

/// Taking in a query that could not be sent keeps the invariant.
pub proof fn lemma_on_query_failure_keeps_wf(s: ServerView, query_id: u16)
    requires
        s.wf(),
    ensures
        s.on_query_failure(query_id).0.wf(),
{
    if s.dns.pending.contains_key(query_id) {
        let id = s.dns.pending[query_id].conn_id;
        let owed = set![id];
        let forgotten = ServerView { dns: s.dns.forget(query_id), ..s };
        assert(forgotten.wf_with(owed)) by {
            assert forall|other: usize| #[trigger] forgotten.connections.contains_key(other)
                implies forgotten.session_ok(other) by {
                assert(s.session_ok(other));
            }
            assert forall|t: usize| #[trigger] forgotten.token_map.contains_key(t) implies
                forgotten.token_ok(t) by {
                assert(s.token_ok(t));
            }
            assert forall|q: u16| #[trigger] forgotten.dns.pending.contains_key(q) implies
                forgotten.query_ok(q) && !owed.contains(forgotten.dns.pending[q].conn_id) by {
                assert(s.dns.pending.contains_key(q));
                assert(s.query_ok(q));
            }
        }
        lemma_without_keeps_wf(forgotten, id, owed);
        if forgotten.connections.contains_key(id) {
            lemma_owed_settled(forgotten.without(id), owed);
        } else {
            lemma_owed_settled(forgotten, owed);
        }
    }
}

/// Handling the end of a resolution keeps the invariant up to the sessions
/// that are owed an event, touches no session but the event's own, and
/// leaves that one out of `Resolving`.
pub proof fn lemma_on_dns_event(s: ServerView, event: DnsEventView, owed: Set<usize>)
    requires
        s.wf_with(owed),
        owed.contains(event.conn_id()),
    ensures
        ({
            let after = s.on_dns_event(event).0;
            &&& after.wf_with(owed)
            &&& after.dns == s.dns
            &&& !(after.connections.contains_key(event.conn_id())
                && after.connections[event.conn_id()].state == ClientState::Resolving)
            &&& forall|other: usize|
                other != event.conn_id() ==> (#[trigger] after.connections.contains_key(other)
                    <==> s.connections.contains_key(other)) && after.connections[other]
                    == s.connections[other]
        }),
{
    let id = event.conn_id();
    if s.connections.contains_key(id) && s.connections[id].state == ClientState::Resolving {
        lemma_without_keeps_wf(s, id, owed);
        match event {
            DnsEventView::Resolved { resolved_addr, display, .. } => {
                lemma_connect_step_follows(s, id, resolved_addr, display, owed);
                lemma_settle_keeps_wf(
                    s,
                    id,
                    connect_step(
                        s.connections[id],
                        id,
                        resolved_addr,
                        display,
                        s.token_map,
                        s.next_token,
                        s.dns,
                    ),
                    owed,
                );
            },
            DnsEventView::Failed { .. } => {},
        }
    }
}

/// Handling resolutions that have ended, in order, keeps the invariant up
/// to the sessions that are owed an event and leaves every session that got
/// its event out of `Resolving`.
pub proof fn lemma_on_dns_events(s: ServerView, events: Seq<DnsEventView>, owed: Set<usize>)
    requires
        s.wf_with(owed),
        forall|i: int| 0 <= i < events.len() ==> owed.contains(#[trigger] events[i].conn_id()),
    ensures
        ({
            let after = s.on_dns_events(events).0;
            &&& after.wf_with(owed)
            &&& after.dns == s.dns
            &&& forall|i: int|
                0 <= i < events.len() ==> !(after.connections.contains_key(
                    #[trigger] events[i].conn_id(),
                ) && after.connections[events[i].conn_id()].state == ClientState::Resolving)
            &&& forall|other: usize|
                (forall|i: int| 0 <= i < events.len() ==> other != #[trigger] events[i].conn_id())
                    ==> (#[trigger] after.connections.contains_key(other)
                    <==> s.connections.contains_key(other)) && after.connections[other]
                    == s.connections[other]
        }),
    decreases events.len(),
{
    if events.len() > 0 {
        let front = events.drop_last();
        let last = events.last();
        lemma_on_dns_events(s, front, owed);
        let before = s.on_dns_events(front).0;
        assert(owed.contains(events[events.len() - 1].conn_id()));
        lemma_on_dns_event(before, last, owed);
        let after = before.on_dns_event(last).0;
        assert forall|i: int| 0 <= i < events.len() implies !(after.connections.contains_key(
            #[trigger] events[i].conn_id(),
        ) && after.connections[events[i].conn_id()].state == ClientState::Resolving) by {
            if i < events.len() - 1 {
                assert(events[i] == front[i]);
                let id = front[i].conn_id();
                if id != last.conn_id() {
                    assert(after.connections.contains_key(id) <==> before.connections.contains_key(
                        id,
                    ));
                }
            }
        }
        assert forall|other: usize|
            (forall|i: int|
                0 <= i < events.len() ==> other != #[trigger] events[i].conn_id()) implies (
        #[trigger] after.connections.contains_key(other) <==> s.connections.contains_key(other))
            && after.connections[other] == s.connections[other] by {
            assert(other != events[events.len() - 1].conn_id());
            assert forall|i: int| 0 <= i < front.len() implies other
                != #[trigger] front[i].conn_id() by {
                assert(front[i] == events[i]);
            }
            assert(before.connections.contains_key(other) <==> s.connections.contains_key(other));
            assert(after.connections.contains_key(other) <==> before.connections.contains_key(
                other,
            ));
        }
    }
}

/// The sessions that a list of events is for.
pub open spec fn sessions_of(events: Seq<DnsEventView>) -> Set<usize> {
    Set::new(|id: usize| exists|i: int| 0 <= i < events.len() && #[trigger] events[i].conn_id() == id)
}

/// A request for session `id` is pending in `before` and not in `after`.
pub open spec fn lost_for(before: DnsResolverView, after: DnsResolverView, id: usize) -> bool {
    exists|q: u16| #[trigger]
        before.pending.contains_key(q) && !after.pending.contains_key(q)
            && before.pending[q].conn_id == id
}

/// The resolver after `after` has only lost requests that `before` had, and
/// the requests lost are exactly those that the events are for.
pub open spec fn answers(
    before: DnsResolverView,
    after: DnsResolverView,
    events: Seq<DnsEventView>,
) -> bool {
    &&& after.resolver_addr == before.resolver_addr
    &&& forall|q: u16| #[trigger]
        after.pending.contains_key(q) ==> before.pending.contains_key(q) && after.pending[q]
            == before.pending[q]
    &&& forall|q: u16| #[trigger]
        before.pending.contains_key(q) && !after.pending.contains_key(q) ==> sessions_of(
            events,
        ).contains(before.pending[q].conn_id)
    &&& forall|i: int|
        0 <= i < events.len() ==> lost_for(before, after, #[trigger] events[i].conn_id())
}

/// Taking datagrams in removes exactly the requests that the resulting
/// events are for.
pub proof fn lemma_receive_all(dns: DnsResolverView, datagrams: Seq<DatagramView>)
    ensures
        answers(dns, dns.receive_all(datagrams).0, dns.receive_all(datagrams).1),
    decreases datagrams.len(),
{
    let (after, events) = dns.receive_all(datagrams);
    if datagrams.len() > 0 {
        lemma_receive_all(dns, datagrams.drop_last());
        let (mid, front) = dns.receive_all(datagrams.drop_last());
        let (_, event) = mid.receive(datagrams.last());
        assert forall|q: u16| #[trigger]
            dns.pending.contains_key(q) && !after.pending.contains_key(q) implies sessions_of(
            events,
        ).contains(dns.pending[q].conn_id) by {
            if mid.pending.contains_key(q) {
                assert(event is Some);
                assert(events[events.len() - 1].conn_id() == dns.pending[q].conn_id);
            } else {
                let i = choose|i: int|
                    0 <= i < front.len() && #[trigger] front[i].conn_id()
                        == dns.pending[q].conn_id;
                assert(events[i] == front[i]);
            }
        }
        assert forall|i: int| 0 <= i < events.len() implies lost_for(
            dns,
            after,
            #[trigger] events[i].conn_id(),
        ) by {
            if i < front.len() {
                assert(events[i] == front[i]);
                assert(lost_for(dns, mid, front[i].conn_id()));
                let q = choose|q: u16| #[trigger]
                    dns.pending.contains_key(q) && !mid.pending.contains_key(q)
                        && dns.pending[q].conn_id == front[i].conn_id();
                assert(dns.pending.contains_key(q) && !after.pending.contains_key(q));
            } else {
                let q = crate::dns::reply_id(datagrams.last().0);
                assert(mid.pending.contains_key(q));
                assert(dns.pending.contains_key(q) && !after.pending.contains_key(q));
            }
        }
    }
}

/// Dropping the expired requests removes exactly the requests that the
/// timeout events are for.
pub proof fn lemma_sweep(dns: DnsResolverView, now: u64, ids: Seq<u16>)
    requires
        ids.to_set() == dns.expired_ids(now),
    ensures
        answers(dns, dns.sweep(now), dns.timeouts(ids)),
{
    let after = dns.sweep(now);
    let events = dns.timeouts(ids);
    assert(events.len() == ids.len());
    assert forall|q: u16| #[trigger] after.pending.contains_key(q) implies dns.pending.contains_key(
        q,
    ) && after.pending[q] == dns.pending[q] by {}
    assert forall|q: u16| #[trigger]
        dns.pending.contains_key(q) && !after.pending.contains_key(q) implies sessions_of(
        events,
    ).contains(dns.pending[q].conn_id) by {
        assert(dns.expired_ids(now).contains(q));
        assert(ids.to_set().contains(q));
        let i = choose|i: int| 0 <= i < ids.len() && ids[i] == q;
        assert(events[i].conn_id() == dns.pending[q].conn_id);
    }
    assert forall|i: int| 0 <= i < events.len() implies lost_for(
        dns,
        after,
        #[trigger] events[i].conn_id(),
    ) by {
        let q = ids[i];
        assert(ids.to_set().contains(q));
        assert(dns.pending.contains_key(q) && !after.pending.contains_key(q));
    }
}

/// Right after requests have left the resolver, the invariant holds up to
/// the sessions that their events are for.
pub proof fn lemma_answered_owes(s: ServerView, dns: DnsResolverView, events: Seq<DnsEventView>)
    requires
        s.wf(),
        answers(s.dns, dns, events),
    ensures
        (ServerView { dns, ..s }).wf_with(sessions_of(events)),
        forall|i: int|
            0 <= i < events.len() ==> sessions_of(events).contains(#[trigger] events[i].conn_id()),
{
    let owed = sessions_of(events);
    let mid = ServerView { dns, ..s };
    assert forall|id: usize| #[trigger] mid.connections.contains_key(id) implies mid.session_ok(
        id,
    ) by {
        assert(s.session_ok(id));
    }
    assert forall|t: usize| #[trigger] mid.token_map.contains_key(t) implies mid.token_ok(t) by {
        assert(s.token_ok(t));
    }
    assert forall|q: u16| #[trigger] mid.dns.pending.contains_key(q) implies mid.query_ok(q)
        && !owed.contains(mid.dns.pending[q].conn_id) by {
        assert(s.dns.pending.contains_key(q));
        assert(s.query_ok(q));
        if owed.contains(mid.dns.pending[q].conn_id) {
            let i = choose|i: int|
                0 <= i < events.len() && #[trigger] events[i].conn_id()
                    == mid.dns.pending[q].conn_id;
            assert(lost_for(s.dns, dns, events[i].conn_id()));
            let q2 = choose|q2: u16| #[trigger]
                s.dns.pending.contains_key(q2) && !dns.pending.contains_key(q2)
                    && s.dns.pending[q2].conn_id == events[i].conn_id();
            assert(s.dns.pending.contains_key(q) && s.dns.pending.contains_key(q2));
            assert(q == q2);
        }
    }
    assert forall|q1: u16, q2: u16|
        #![trigger mid.dns.pending.contains_key(q1), mid.dns.pending.contains_key(q2)]
        mid.dns.pending.contains_key(q1) && mid.dns.pending.contains_key(q2)
            && mid.dns.pending[q1].conn_id == mid.dns.pending[q2].conn_id implies q1 == q2 by {
        assert(s.dns.pending.contains_key(q1) && s.dns.pending.contains_key(q2));
    }
}

/// Handling the events of requests that have just left the resolver brings
/// the proxy back to its invariant.
pub proof fn lemma_answered_keeps_wf(s: ServerView, dns: DnsResolverView, events: Seq<DnsEventView>)
    requires
        s.wf(),
        answers(s.dns, dns, events),
    ensures
        (ServerView { dns, ..s }).on_dns_events(events).0.wf(),
{
    let owed = sessions_of(events);
    let mid = ServerView { dns, ..s };
    lemma_answered_owes(s, dns, events);
    lemma_on_dns_events(mid, events, owed);
    lemma_owed_settled(mid.on_dns_events(events).0, owed);
}

/// Taking in datagrams from the resolver socket keeps the invariant.
pub proof fn lemma_on_datagrams_keeps_wf(s: ServerView, datagrams: Seq<DatagramView>)
    requires
        s.wf(),
    ensures
        s.on_datagrams(datagrams).0.wf(),
{
    lemma_receive_all(s.dns, datagrams);
    let (dns, events) = s.dns.receive_all(datagrams);
    lemma_answered_keeps_wf(s, dns, events);
}

/// Expiring requests keeps the invariant, in whatever order the expired
/// requests are taken.
pub proof fn lemma_on_timeouts_keeps_wf(s: ServerView, now: u64, ids: Seq<u16>)
    requires
        s.wf(),
        ids.to_set() == s.dns.expired_ids(now),
    ensures
        s.on_timeouts(now, ids).0.wf(),
{
    lemma_sweep(s.dns, now, ids);
    lemma_answered_keeps_wf(s, s.dns.sweep(now), s.dns.timeouts(ids));
}

/// Right after the requests of a session have been forgotten, the
/// invariant holds up to that session.
pub proof fn lemma_forgotten_owes(s: ServerView, id: usize)
    requires
        s.wf(),
    ensures
        (ServerView { dns: s.dns.without_session(id), ..s }).wf_with(set![id]),
{
    let owed = set![id];
    let mid = ServerView { dns: s.dns.without_session(id), ..s };
    assert forall|other: usize| #[trigger] mid.connections.contains_key(other) implies
        mid.session_ok(other) by {
        assert(s.session_ok(other));
    }
    assert forall|t: usize| #[trigger] mid.token_map.contains_key(t) implies mid.token_ok(t) by {
        assert(s.token_ok(t));
    }
    assert forall|q: u16| #[trigger] mid.dns.pending.contains_key(q) implies mid.query_ok(q)
        && !owed.contains(mid.dns.pending[q].conn_id) by {
        assert(s.dns.pending.contains_key(q));
        assert(s.query_ok(q));
    }
    assert forall|q1: u16, q2: u16|
        #![trigger mid.dns.pending.contains_key(q1), mid.dns.pending.contains_key(q2)]
        mid.dns.pending.contains_key(q1) && mid.dns.pending.contains_key(q2)
            && mid.dns.pending[q1].conn_id == mid.dns.pending[q2].conn_id implies q1 == q2 by {
        assert(s.dns.pending.contains_key(q1) && s.dns.pending.contains_key(q2));
    }
}

/// Taking in the end of a resolution keeps the invariant.
pub proof fn lemma_on_event_keeps_wf(s: ServerView, event: DnsEventView)
    requires
        s.wf(),
    ensures
        s.on_event(event).0.wf(),
{
    let id = event.conn_id();
    let owed = set![id];
    let mid = ServerView { dns: s.dns.without_session(id), ..s };
    lemma_forgotten_owes(s, id);
    lemma_on_dns_event(mid, event, owed);
    lemma_owed_settled(mid.on_dns_event(event).0, owed);
}

} // verus!
