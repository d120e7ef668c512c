//! What the proxy guarantees, stated over its specification and proved.

use crate::connection::{
    lemma_partial_greeting_is_short, lemma_partial_request_is_short, ConnectionView, EndpointKind,
};
use crate::dns::{
    a_query, domain_name_accepted, next_id, DnsEventView, DnsRequestView, DnsResolverView,
    SWEEP_INTERVAL_MS,
};
use crate::event::{ActionView, Interest, ReadOutcomeView, Readiness, Reply, WriteOutcome};
use crate::handler::readable::{
    client_data_step, read_fits, read_size_spec, refusal, request_step, target_data_step,
};
use crate::handler::writable::{
    client_writable_step, pending_output_spec, target_writable_step, writable_step, write_fits,
};
use crate::invariants::{lemma_answered_owes, lemma_sweep, sessions_of};
use crate::net::{IpAddress, SocketAddress};
use crate::server::ServerView;
use crate::socks5::protocol::{
    be16, host_display, ipv4_display, ATYP_DOMAIN, ATYP_IPV4, BUFFER_SIZE, CMD_CONNECT,
    REQUEST_SCRATCH_SIZE, SOCKS_VERSION,
};
use crate::text::lossy_text;
use crate::util::{client_interest, tokens_of};
use crate::socks5::state::ClientState;
use crate::util::close_action;
use vstd::prelude::*;

verus! {

/// A greeting of the right version is answered with the two bytes `05 00`
/// and nothing else, whatever methods it offers and however many, and the
/// session moves on to the request phase. This holds for the read that
/// completes the greeting, whether or not part of it had arrived before.
pub proof fn theorem_handshake_acceptance(
    s: ServerView,
    token: usize,
    data: Seq<u8>,
    methods: Seq<u8>,
    now: u64,
)
    requires
        s.wf(),
        s.route(token) matches Some((id, endpoint)) && endpoint == EndpointKind::Client
            && s.connections[id].state == ClientState::Handshake && s.connections[id].client_buf
            + data == seq![SOCKS_VERSION, methods.len() as u8] + methods,
        methods.len() <= 255,
    ensures
        ({
            let id = s.route(token)->Some_0.0;
            let (after, actions) = s.on_read(token, ReadOutcomeView::Data(data), now);
            &&& actions == seq![
                ActionView::Send { token, reply: Reply::Auth },
                ActionView::Reregister {
                    token,
                    interest: Interest { readable: true, writable: false },
                },
            ]
            &&& Reply::Auth.frame() == seq![0x05u8, 0x00u8]
            &&& after.connections.contains_key(id)
            &&& after.connections[id].state == ClientState::Request
            &&& after.connections[id].client_buf == Seq::<u8>::empty()
        }),
{
    let id = s.route(token)->Some_0.0;
    let c = s.connections[id];
    let greeting = seq![SOCKS_VERSION, methods.len() as u8] + methods;
    assert(s.session_ok(id));
    assert(s.token_ok(token));
    assert(greeting.len() == 2 + methods.len());
    assert(greeting[0] == SOCKS_VERSION);
    assert(greeting[1] == methods.len() as u8);
    assert((c.client_buf + data).len() == c.client_buf.len() + data.len());
    let (after, actions) = s.on_read(token, ReadOutcomeView::Data(data), now);
    assert(actions =~= seq![
        ActionView::Send { token, reply: Reply::Auth },
        ActionView::Reregister { token, interest: Interest { readable: true, writable: false } },
    ]);
}

/// A whole greeting whose first byte is not the SOCKS5 version ends the
/// session: nothing is sent to the client, the only operation is the
/// closing of its socket, and the session is gone.
pub proof fn theorem_version_enforcement(s: ServerView, token: usize, data: Seq<u8>, now: u64)
    requires
        s.wf(),
        s.route(token) matches Some((id, endpoint)) && endpoint == EndpointKind::Client
            && s.connections[id].state == ClientState::Handshake && ({
            let greeting = s.connections[id].client_buf + data;
            &&& greeting.len() >= 2
            &&& greeting.len() >= 2 + greeting[1]
            &&& greeting[0] != SOCKS_VERSION
        }),
    ensures
        ({
            let id = s.route(token)->Some_0.0;
            let (after, actions) = s.on_read(token, ReadOutcomeView::Data(data), now);
            &&& actions == seq![
                ActionView::Close { conn_id: id, client_token: token, target_token: None },
            ]
            &&& !after.connections.contains_key(id)
            &&& !after.token_map.contains_key(token)
        }),
{
    let id = s.route(token)->Some_0.0;
    let c = s.connections[id];
    assert(s.session_ok(id));
    assert(s.token_ok(token));
    assert((c.client_buf + data).len() == c.client_buf.len() + data.len());
    let (after, actions) = s.on_read(token, ReadOutcomeView::Data(data), now);
    assert(actions =~= seq![
        ActionView::Close { conn_id: id, client_token: token, target_token: None },
    ]);
}

/// A request of the right version whose command is not CONNECT is refused:
/// the client is sent the refused reply, its socket is closed, and the
/// session is gone.
pub proof fn theorem_command_enforcement(s: ServerView, token: usize, data: Seq<u8>, now: u64)
    requires
        s.wf(),
        s.route(token) matches Some((id, endpoint)) && endpoint == EndpointKind::Client
            && s.connections[id].state == ClientState::Request && ({
            let request = s.connections[id].client_buf + data;
            &&& request.len() >= 4
            &&& request.len() <= REQUEST_SCRATCH_SIZE
            &&& request[0] == SOCKS_VERSION
            &&& request[1] != CMD_CONNECT
        }),
    ensures
        ({
            let id = s.route(token)->Some_0.0;
            let (after, actions) = s.on_read(token, ReadOutcomeView::Data(data), now);
            &&& actions == seq![
                ActionView::Send { token, reply: Reply::Refused },
                ActionView::Close { conn_id: id, client_token: token, target_token: None },
            ]
            &&& Reply::Refused.frame() == seq![
                0x05u8,
                0x05u8,
                0x00u8,
                0x01u8,
                0u8,
                0u8,
                0u8,
                0u8,
                0u8,
                0u8,
            ]
            &&& !after.connections.contains_key(id)
            &&& !after.token_map.contains_key(token)
        }),
{
    let id = s.route(token)->Some_0.0;
    let c = s.connections[id];
    assert(s.session_ok(id));
    assert(s.token_ok(token));
    assert((c.client_buf + data).len() == c.client_buf.len() + data.len());
    let (after, actions) = s.on_read(token, ReadOutcomeView::Data(data), now);
    assert(actions =~= seq![
        ActionView::Send { token, reply: Reply::Refused },
        ActionView::Close { conn_id: id, client_token: token, target_token: None },
    ]);
}

/// The index holds exactly the tokens of the live sessions: a token in it
/// leads to a live session that holds it, so once no session is left, no
/// token is left either.
pub proof fn theorem_no_leak(s: ServerView)
    requires
        s.wf(),
    ensures
        forall|t: usize| #[trigger]
            s.token_map.contains_key(t) ==> s.connections.contains_key(s.token_map[t].0),
        s.connections.dom() == Set::<usize>::empty() ==> s.token_map == Map::<
            usize,
            (usize, EndpointKind),
        >::empty(),
{
    assert forall|t: usize| #[trigger] s.token_map.contains_key(t) implies
        s.connections.contains_key(s.token_map[t].0) by {
        assert(s.token_ok(t));
    }
    if s.connections.dom() == Set::<usize>::empty() {
        assert forall|t: usize| !s.token_map.contains_key(t) by {
            if s.token_map.contains_key(t) {
                assert(s.connections.dom().contains(s.token_map[t].0));
            }
        }
        assert(s.token_map =~= Map::empty());
    }
}

/// A session that is torn down leaves nothing behind in the table or in the
/// index.
pub proof fn theorem_teardown_is_complete(s: ServerView, id: usize)
    ensures
        !s.without(id).connections.contains_key(id),
        forall|t: usize| #[trigger]
            s.without(id).token_map.contains_key(t) ==> s.without(id).token_map[t].0 != id,
{
}

/// Handling events leaves a session that none of them is for as it was,
/// and tears down a waiting session that a failure is for, with one refused
/// reply.
proof fn lemma_failure_refuses(
    s: ServerView,
    events: Seq<DnsEventView>,
    owed: Set<usize>,
    id: usize,
    k: int,
)
    requires
        s.wf_with(owed),
        forall|i: int| 0 <= i < events.len() ==> owed.contains(#[trigger] events[i].conn_id()),
        s.connections.contains_key(id),
        s.connections[id].state == ClientState::Resolving,
        0 <= k < events.len(),
        events[k] is Failed,
        events[k].conn_id() == id,
        forall|i: int| 0 <= i < events.len() && i != k ==> (#[trigger] events[i]).conn_id() != id,
    ensures
        ({
            let (after, actions) = s.on_dns_events(events);
            &&& !after.connections.contains_key(id)
            &&& actions.contains(refusal(s.connections[id]))
            &&& actions.contains(close_action(id, s.connections[id]))
        }),
    decreases events.len(),
{
    let front = events.drop_last();
    let last = events.last();
    let (before, actions) = s.on_dns_events(front);
    let (after, more) = before.on_dns_event(last);
    let all = actions + more;
    crate::invariants::lemma_on_dns_events(s, front, owed);
    assert forall|i: int| 0 <= i < front.len() implies owed.contains(
        #[trigger] front[i].conn_id(),
    ) by {
        assert(front[i] == events[i]);
    }
    assert(owed.contains(events[events.len() - 1].conn_id()));
    crate::invariants::lemma_on_dns_event(before, last, owed);
    if k == events.len() - 1 {
        assert forall|i: int| 0 <= i < front.len() implies id != #[trigger] front[i].conn_id() by {
            assert(front[i] == events[i]);
        }
        assert(before.connections.contains_key(id));
        assert(before.connections[id] == s.connections[id]);
        assert(more =~= seq![refusal(s.connections[id]), close_action(id, s.connections[id])]);
        assert(all[actions.len() as int] == refusal(s.connections[id]));
        assert(all[actions.len() as int + 1] == close_action(id, s.connections[id]));
    } else {
        assert(front[k] == events[k]);
        assert forall|i: int| 0 <= i < front.len() && i != k implies (#[trigger] front[i]).conn_id()
            != id by {
            assert(front[i] == events[i]);
        }
        lemma_failure_refuses(s, front, owed, id, k);
        assert(events[events.len() - 1].conn_id() != id);
        let a = choose|a: int| 0 <= a < actions.len() && actions[a] == refusal(s.connections[id]);
        assert(all[a] == actions[a]);
        let b = choose|b: int|
            0 <= b < actions.len() && actions[b] == close_action(id, s.connections[id]);
        assert(all[b] == actions[b]);
    }
}

/// Handling events leaves a session that none of them is for as it was.
proof fn lemma_untouched(s: ServerView, events: Seq<DnsEventView>, owed: Set<usize>, id: usize)
    requires
        s.wf_with(owed),
        forall|i: int| 0 <= i < events.len() ==> owed.contains(#[trigger] events[i].conn_id()),
        forall|i: int| 0 <= i < events.len() ==> (#[trigger] events[i]).conn_id() != id,
    ensures
        ({
            let after = s.on_dns_events(events).0;
            &&& after.connections.contains_key(id) <==> s.connections.contains_key(id)
            &&& after.connections[id] == s.connections[id]
        }),
{
    crate::invariants::lemma_on_dns_events(s, events, owed);
}

/// Number of frames that `actions` send on the socket under `token`.
pub open spec fn replies_to(actions: Seq<ActionView>, token: usize) -> nat
    decreases actions.len(),
{
    if actions.len() == 0 {
        0
    } else {
        let before = replies_to(actions.drop_last(), token);
        match actions.last() {
            ActionView::Send { token: t, .. } => if t == token {
                before + 1
            } else {
                before
            },
            _ => before,
        }
    }
}

/// Frames are counted piece by piece.
proof fn lemma_replies_add(a: Seq<ActionView>, b: Seq<ActionView>, token: usize)
    ensures
        replies_to(a + b, token) == replies_to(a, token) + replies_to(b, token),
    decreases b.len(),
{
    if b.len() == 0 {
        assert(a + b =~= a);
    } else {
        assert((a + b).drop_last() =~= a + b.drop_last());
        assert((a + b).last() == b.last());
        lemma_replies_add(a, b.drop_last(), token);
    }
}

/// A refusal sends one frame, to the client of the session refused.
proof fn lemma_replies_of_refusal(id: usize, c: ConnectionView, token: usize)
    ensures
        replies_to(seq![refusal(c), close_action(id, c)], token) == if c.client_token == token {
            1nat
        } else {
            0nat
        },
{
    let gone = seq![refusal(c), close_action(id, c)];
    let first = gone.drop_last();
    assert(first =~= seq![refusal(c)]);
    assert(first.drop_last() =~= Seq::<ActionView>::empty());
    assert(first.last() == refusal(c));
    assert(replies_to(first.drop_last(), token) == 0);
    assert(replies_to(first, token) == if c.client_token == token {
        1nat
    } else {
        0nat
    });
    assert(gone.last() == close_action(id, c));
}

/// Handling events admits no session and changes no client token.
proof fn lemma_sessions_persist(s: ServerView, events: Seq<DnsEventView>, id: usize)
    ensures
        ({
            let after = s.on_dns_events(events).0;
            after.connections.contains_key(id) ==> s.connections.contains_key(id)
                && after.connections[id].client_token == s.connections[id].client_token
        }),
    decreases events.len(),
{
    if events.len() > 0 {
        lemma_sessions_persist(s, events.drop_last(), id);
    }
}

/// Handling events sends the client of a session one frame if the session
/// is torn down over them, and none if it stays.
proof fn lemma_replies_count(
    s: ServerView,
    events: Seq<DnsEventView>,
    owed: Set<usize>,
    id: usize,
)
    requires
        s.wf_with(owed),
        forall|i: int| 0 <= i < events.len() ==> owed.contains(#[trigger] events[i].conn_id()),
        s.connections.contains_key(id),
    ensures
        ({
            let (after, actions) = s.on_dns_events(events);
            replies_to(actions, s.connections[id].client_token) == if after.connections.contains_key(
                id,
            ) {
                0nat
            } else {
                1nat
            }
        }),
    decreases events.len(),
{
    let token = s.connections[id].client_token;
    if events.len() > 0 {
        let front = events.drop_last();
        let last = events.last();
        assert forall|i: int| 0 <= i < front.len() implies owed.contains(
            #[trigger] front[i].conn_id(),
        ) by {
            assert(front[i] == events[i]);
        }
        assert(owed.contains(events[events.len() - 1].conn_id()));
        lemma_replies_count(s, front, owed, id);
        lemma_sessions_persist(s, front, id);
        lemma_sessions_persist(s, front, last.conn_id());
        crate::invariants::lemma_on_dns_events(s, front, owed);
        let (before, actions) = s.on_dns_events(front);
        let (after, more) = before.on_dns_event(last);
        lemma_replies_add(actions, more, token);
        let other = last.conn_id();
        assert(s.session_ok(id));
        if before.connections.contains_key(other) {
            assert(before.session_ok(other));
            assert(s.connections.contains_key(other));
            assert(s.session_ok(other));
            let c = before.connections[other];
            if other != id {
                assert(c.client_token != token);
            }
            let gone = seq![refusal(c), close_action(other, c)];
            lemma_replies_of_refusal(other, c, token);
            match last {
                DnsEventView::Resolved { resolved_addr, display, .. } => {
                    if c.state != ClientState::Resolving {
                        assert(more =~= Seq::<ActionView>::empty());
                    } else if before.next_token != usize::MAX {
                        let connect = ActionView::Connect {
                            token: before.next_token,
                            addr: resolved_addr,
                        };
                        assert(more =~= seq![connect]);
                        lemma_replies_add(Seq::empty(), seq![connect], token);
                        assert(seq![connect].drop_last() =~= Seq::<ActionView>::empty());
                    } else {
                        assert(more =~= gone);
                    }
                },
                DnsEventView::Failed { .. } => {
                    assert(more =~= gone);
                },
            }
        } else {
            assert(more =~= Seq::<ActionView>::empty());
        }
    }
}

/// A session that waits for an answer is refused when its request expires
/// and not before: a sweep at a time when the request is less than five
/// seconds old leaves the session and the request as they are; a sweep at a
/// time when it is five seconds old or older sends the client the refused
/// reply exactly once, closes its socket, and leaves neither the session
/// nor the request behind.
pub proof fn theorem_timeout(s: ServerView, now: u64, ids: Seq<u16>, q: u16)
    requires
        s.wf(),
        ids.no_duplicates(),
        ids.to_set() == s.dns.expired_ids(now),
        s.dns.pending.contains_key(q),
        s.connections.contains_key(s.dns.pending[q].conn_id),
    ensures
        ({
            let id = s.dns.pending[q].conn_id;
            let c = s.connections[id];
            let (after, actions) = s.on_timeouts(now, ids);
            &&& c.state == ClientState::Resolving
            &&& s.dns.pending[q].expired(now) ==> {
                &&& !after.connections.contains_key(id)
                &&& !after.dns.pending.contains_key(q)
                &&& actions.contains(refusal(c))
                &&& actions.contains(close_action(id, c))
                &&& replies_to(actions, c.client_token) == 1
            }
            &&& !s.dns.pending[q].expired(now) ==> {
                &&& after.connections.contains_key(id)
                &&& after.connections[id] == c
                &&& after.dns.pending.contains_key(q)
                &&& replies_to(actions, c.client_token) == 0
            }
        }),
{
    let id = s.dns.pending[q].conn_id;
    let events = s.dns.timeouts(ids);
    let swept = ServerView { dns: s.dns.sweep(now), ..s };
    let owed = sessions_of(events);
    assert(s.query_ok(q));
    lemma_sweep(s.dns, now, ids);
    lemma_answered_owes(s, s.dns.sweep(now), events);
    crate::invariants::lemma_on_dns_events(swept, events, owed);
    lemma_replies_count(swept, events, owed, id);
    if s.dns.pending[q].expired(now) {
        assert(s.dns.expired_ids(now).contains(q));
        assert(ids.to_set().contains(q));
        let k = choose|k: int| 0 <= k < ids.len() && ids[k] == q;
        assert(events[k].conn_id() == id);
        assert forall|i: int| 0 <= i < events.len() && i != k implies (#[trigger] events[i]).conn_id()
            != id by {
            assert(ids.to_set().contains(ids[i]));
            assert(s.dns.pending.contains_key(ids[i]));
            assert(ids[i] != ids[k]);
        }
        lemma_failure_refuses(swept, events, owed, id, k);
    } else {
        assert forall|i: int| 0 <= i < events.len() implies (#[trigger] events[i]).conn_id()
            != id by {
            assert(ids.to_set().contains(ids[i]));
            assert(s.dns.pending.contains_key(ids[i]));
            assert(s.dns.expired_ids(now).contains(ids[i]));
        }
        lemma_untouched(swept, events, owed, id);
    }
}

/// One thing that happens to the client-to-target direction of a tunnel.
pub enum Upstream {
    /// These bytes were read from the client.
    Read(Seq<u8>),
    /// The target took this many bytes of what was offered to it.
    Written(usize),
}

/// The session after the events of `trace`, in order, none ending it.
pub open spec fn upstream_run(c: ConnectionView, trace: Seq<Upstream>) -> ConnectionView
    decreases trace.len(),
{
    if trace.len() == 0 {
        c
    } else {
        let before = upstream_run(c, trace.drop_last());
        match trace.last() {
            Upstream::Read(d) => client_data_step(before, ReadOutcomeView::Data(d)).0,
            Upstream::Written(n) => target_writable_step(before, WriteOutcome::Written(n)).0,
        }
    }
}

/// Every event of `trace` is one that the session could meet at its turn:
/// a read brings no more than was asked for, and a write took no more than
/// was offered.
pub open spec fn upstream_fits(c: ConnectionView, trace: Seq<Upstream>) -> bool
    decreases trace.len(),
{
    if trace.len() == 0 {
        true
    } else {
        let before = upstream_run(c, trace.drop_last());
        &&& upstream_fits(c, trace.drop_last())
        &&& match trace.last() {
            Upstream::Read(d) => read_fits(before, EndpointKind::Client, ReadOutcomeView::Data(d)),
            Upstream::Written(n) => write_fits(
                before,
                EndpointKind::Target,
                WriteOutcome::Written(n),
            ),
        }
    }
}

/// The bytes read from the client over `trace`, in order.
pub open spec fn upstream_read(trace: Seq<Upstream>) -> Seq<u8>
    decreases trace.len(),
{
    if trace.len() == 0 {
        Seq::empty()
    } else {
        match trace.last() {
            Upstream::Read(d) => upstream_read(trace.drop_last()) + d,
            Upstream::Written(_) => upstream_read(trace.drop_last()),
        }
    }
}

/// The bytes that the target took over `trace`, in order: at each write,
/// the head of what the session offered it.
pub open spec fn upstream_delivered(c: ConnectionView, trace: Seq<Upstream>) -> Seq<u8>
    decreases trace.len(),
{
    if trace.len() == 0 {
        Seq::empty()
    } else {
        let before = upstream_run(c, trace.drop_last());
        match trace.last() {
            Upstream::Read(_) => upstream_delivered(c, trace.drop_last()),
            Upstream::Written(n) => upstream_delivered(c, trace.drop_last())
                + pending_output_spec(before, EndpointKind::Target)->Some_0.take(n as int),
        }
    }
}

/// The relay neither loses, repeats nor reorders: over any run of reads
/// from the client and writes to the target of an open tunnel, what the
/// target has taken, followed by what is still buffered, is what was
/// buffered at the start followed by what was read from the client. The
/// buffer never exceeds its capacity.
pub proof fn theorem_relay_integrity(c: ConnectionView, trace: Seq<Upstream>)
    requires
        c.wf(),
        c.state == ClientState::Tunneling,
        upstream_fits(c, trace),
    ensures
        ({
            let after = upstream_run(c, trace);
            &&& after.wf()
            &&& after.state == ClientState::Tunneling
            &&& upstream_delivered(c, trace) + after.client_to_target == c.client_to_target
                + upstream_read(trace)
            &&& after.target_to_client == c.target_to_client
        }),
    decreases trace.len(),
{
    if trace.len() > 0 {
        let front = trace.drop_last();
        theorem_relay_integrity(c, front);
        let before = upstream_run(c, front);
        let after = upstream_run(c, trace);
        match trace.last() {
            Upstream::Read(d) => {
                assert(upstream_delivered(c, trace) + after.client_to_target =~= (
                upstream_delivered(c, front) + before.client_to_target) + d);
                assert(c.client_to_target + upstream_read(trace) =~= (c.client_to_target
                    + upstream_read(front)) + d);
            },
            Upstream::Written(n) => {
                let offered = before.client_to_target;
                assert(offered =~= offered.take(n as int) + offered.skip(n as int));
                assert(upstream_delivered(c, trace) + after.client_to_target =~= upstream_delivered(
                    c,
                    front,
                ) + offered);
            },
        }
    } else {
        assert(upstream_delivered(c, trace) + c.client_to_target =~= c.client_to_target
            + upstream_read(trace));
    }
}

/// One thing that happens to the target-to-client direction of a tunnel.
pub enum Downstream {
    /// These bytes were read from the target.
    Read(Seq<u8>),
    /// The client took this many bytes of what was offered to it.
    Written(usize),
}

/// The session after the events of `trace`, in order, none ending it.
pub open spec fn downstream_run(c: ConnectionView, trace: Seq<Downstream>) -> ConnectionView
    decreases trace.len(),
{
    if trace.len() == 0 {
        c
    } else {
        let before = downstream_run(c, trace.drop_last());
        match trace.last() {
            Downstream::Read(d) => target_data_step(before, ReadOutcomeView::Data(d)).0,
            Downstream::Written(n) => client_writable_step(before, WriteOutcome::Written(n)).0,
        }
    }
}

/// Every event of `trace` is one that the session could meet at its turn.
pub open spec fn downstream_fits(c: ConnectionView, trace: Seq<Downstream>) -> bool
    decreases trace.len(),
{
    if trace.len() == 0 {
        true
    } else {
        let before = downstream_run(c, trace.drop_last());
        &&& downstream_fits(c, trace.drop_last())
        &&& match trace.last() {
            Downstream::Read(d) => read_fits(
                before,
                EndpointKind::Target,
                ReadOutcomeView::Data(d),
            ),
            Downstream::Written(n) => write_fits(
                before,
                EndpointKind::Client,
                WriteOutcome::Written(n),
            ),
        }
    }
}

/// The bytes read from the target over `trace`, in order.
pub open spec fn downstream_read(trace: Seq<Downstream>) -> Seq<u8>
    decreases trace.len(),
{
    if trace.len() == 0 {
        Seq::empty()
    } else {
        match trace.last() {
            Downstream::Read(d) => downstream_read(trace.drop_last()) + d,
            Downstream::Written(_) => downstream_read(trace.drop_last()),
        }
    }
}

/// The bytes that the client took over `trace`, in order.
pub open spec fn downstream_delivered(c: ConnectionView, trace: Seq<Downstream>) -> Seq<u8>
    decreases trace.len(),
{
    if trace.len() == 0 {
        Seq::empty()
    } else {
        let before = downstream_run(c, trace.drop_last());
        match trace.last() {
            Downstream::Read(_) => downstream_delivered(c, trace.drop_last()),
            Downstream::Written(n) => downstream_delivered(c, trace.drop_last())
                + pending_output_spec(before, EndpointKind::Client)->Some_0.take(n as int),
        }
    }
}

/// The same for the way back: what the client has taken, followed by what
/// is still buffered for it, is what was buffered at the start followed by
/// what was read from the target.
pub proof fn theorem_relay_integrity_back(c: ConnectionView, trace: Seq<Downstream>)
    requires
        c.wf(),
        c.state == ClientState::Tunneling,
        downstream_fits(c, trace),
    ensures
        ({
            let after = downstream_run(c, trace);
            &&& after.wf()
            &&& after.state == ClientState::Tunneling
            &&& downstream_delivered(c, trace) + after.target_to_client == c.target_to_client
                + downstream_read(trace)
            &&& after.client_to_target == c.client_to_target
        }),
    decreases trace.len(),
{
    if trace.len() > 0 {
        let front = trace.drop_last();
        theorem_relay_integrity_back(c, front);
        let before = downstream_run(c, front);
        let after = downstream_run(c, trace);
        match trace.last() {
            Downstream::Read(d) => {
                assert(downstream_delivered(c, trace) + after.target_to_client =~= (
                downstream_delivered(c, front) + before.target_to_client) + d);
                assert(c.target_to_client + downstream_read(trace) =~= (c.target_to_client
                    + downstream_read(front)) + d);
            },
            Downstream::Written(n) => {
                let offered = before.target_to_client;
                assert(offered =~= offered.take(n as int) + offered.skip(n as int));
                assert(downstream_delivered(c, trace) + after.target_to_client
                    =~= downstream_delivered(c, front) + offered);
            },
        }
    } else {
        assert(downstream_delivered(c, trace) + c.target_to_client =~= c.target_to_client
            + downstream_read(trace));
    }
}

/// When the client has closed its sending direction and everything it sent
/// has been handed to the target, the target's sending direction is shut
/// down, so that the target sees the end of the stream right after those
/// bytes; the session stays exactly as long as something is still owed to
/// the client.
pub proof fn theorem_half_close(c: ConnectionView)
    requires
        c.wf(),
        c.state == ClientState::Tunneling,
        c.client_to_target.len() == 0,
    ensures
        ({
            let (after, reaction) = client_data_step(c, ReadOutcomeView::Eof);
            &&& reaction.error is None
            &&& reaction.actions == seq![ActionView::ShutdownWrite { token: c.target_token->Some_0 }]
            &&& after.client_closed
            &&& after.target_to_client == c.target_to_client
            &&& after.should_close() <==> c.target_to_client.len() == 0 || c.target_closed
        }),
{
}

/// A session never holds more than it is allowed to: at most 8192 bytes in
/// each relay buffer and at most 512 bytes of a frame that is not whole yet.
pub proof fn theorem_resource_caps(c: ConnectionView)
    requires
        c.wf(),
    ensures
        c.client_to_target.len() <= BUFFER_SIZE,
        c.target_to_client.len() <= BUFFER_SIZE,
        c.client_buf.len() <= REQUEST_SCRATCH_SIZE,
        BUFFER_SIZE == 8192,
        REQUEST_SCRATCH_SIZE == 512,
{
    if c.state == ClientState::Handshake {
        lemma_partial_greeting_is_short(c.client_buf);
    } else if c.state == ClientState::Request {
        lemma_partial_request_is_short(c.client_buf);
    }
}

/// A session that waits for a greeting or a request can always take in at
/// least one more byte, so a client that keeps sending is never stalled
/// before its frame is whole.
pub proof fn theorem_frames_can_grow(c: ConnectionView)
    requires
        c.wf(),
        c.state == ClientState::Handshake || c.state == ClientState::Request,
    ensures
        read_size_spec(c, EndpointKind::Client) > 0,
{
    if c.state == ClientState::Handshake {
        lemma_partial_greeting_is_short(c.client_buf);
    } else {
        lemma_partial_request_is_short(c.client_buf);
    }
}

/// At most one pending request is for any one session, and a session that
/// a pending request is for is in `Resolving` if it is still live. (A
/// session in `Resolving` has its request pending unless a later query
/// has taken over its id.)
pub proof fn theorem_one_pending_request(s: ServerView, q1: u16, q2: u16)
    requires
        s.wf(),
        s.dns.pending.contains_key(q1),
        s.dns.pending.contains_key(q2),
        s.dns.pending[q1].conn_id == s.dns.pending[q2].conn_id,
    ensures
        q1 == q2,
        s.connections.contains_key(s.dns.pending[q1].conn_id) ==> s.connections[s.dns.pending[q1].conn_id].state
            == ClientState::Resolving,
{
    assert(s.query_ok(q1));
}

/// In a tunnel both sockets exist and are filed in the index; before the
/// outbound connection is started there is no target and nothing in the
/// relay buffers.
pub proof fn theorem_session_shape(s: ServerView, id: usize)
    requires
        s.wf(),
        s.connections.contains_key(id),
    ensures
        ({
            let c = s.connections[id];
            &&& s.route(c.client_token) == Some((id, EndpointKind::Client))
            &&& c.state == ClientState::Tunneling ==> c.target_token is Some && s.route(
                c.target_token->Some_0,
            ) == Some((id, EndpointKind::Target))
            &&& (c.state == ClientState::Handshake || c.state == ClientState::Request || c.state
                == ClientState::Resolving) ==> c.target_token is None && c.client_to_target.len()
                == 0 && c.target_to_client.len() == 0
        }),
{
    assert(s.session_ok(id));
}

/// A request for a literal IPv4 address starts the outbound connection,
/// as long as a token is left for the target: the session enters
/// `Connecting` with the next token for its target, the token is filed in
/// the index for this session's target side, the counter moves on by one,
/// the scratch buffer is empty, the endpoint asked for is noted, and the one
/// thing asked of the reactor is the connect to that address. Nothing is
/// sent to the client yet, and the resolver is not touched.
pub proof fn theorem_connect_starts(
    c: ConnectionView,
    conn_id: usize,
    data: Seq<u8>,
    frame: Seq<u8>,
    token_map: Map<usize, (usize, EndpointKind)>,
    next_token: usize,
    dns: DnsResolverView,
    now: u64,
)
    requires
        c.wf(),
        c.state == ClientState::Request,
        c.client_buf + data == frame,
        frame.len() >= 10,
        frame[0] == SOCKS_VERSION,
        frame[1] == CMD_CONNECT,
        frame[3] == ATYP_IPV4,
        next_token < usize::MAX,
    ensures
        ({
            let step = request_step(
                c,
                conn_id,
                ReadOutcomeView::Data(data),
                token_map,
                next_token,
                dns,
                now,
            );
            let port = be16(frame[8], frame[9]);
            let addr = SocketAddress {
                ip: IpAddress::V4(frame[4], frame[5], frame[6], frame[7]),
                port,
            };
            &&& step.reaction.error is None
            &&& step.reaction.actions == seq![ActionView::Connect { token: next_token, addr }]
            &&& step.conn == (ConnectionView {
                state: ClientState::Connecting,
                target_token: Some(next_token),
                client_buf: Seq::empty(),
                requested_endpoint: Some(
                    ipv4_display(frame[4], frame[5], frame[6], frame[7], port),
                ),
                ..c
            })
            &&& step.token_map == token_map.insert(next_token, (conn_id, EndpointKind::Target))
            &&& step.next_token == next_token + 1
            &&& step.dns == dns
        }),
{
}

/// A request for a domain name starts a resolution wherever the resolver
/// yields a query for it: the session enters `Resolving` with an empty
/// scratch buffer and no target, the request is pending for this domain,
/// port and session under the id that was next, the one thing asked of the
/// reactor is to send that query, nothing is sent to the client, and the
/// index and the token counter are as they were.
pub proof fn theorem_resolution_starts(
    c: ConnectionView,
    conn_id: usize,
    data: Seq<u8>,
    frame: Seq<u8>,
    token_map: Map<usize, (usize, EndpointKind)>,
    next_token: usize,
    dns: DnsResolverView,
    now: u64,
)
    requires
        c.wf(),
        c.state == ClientState::Request,
        c.client_buf + data == frame,
        frame.len() >= 5,
        frame.len() >= 5 + frame[4] + 2,
        frame[0] == SOCKS_VERSION,
        frame[1] == CMD_CONNECT,
        frame[3] == ATYP_DOMAIN,
    ensures
        ({
            let step = request_step(
                c,
                conn_id,
                ReadOutcomeView::Data(data),
                token_map,
                next_token,
                dns,
                now,
            );
            let len = frame[4] as int;
            let domain = lossy_text(frame.subrange(5, 5 + len));
            let port = be16(frame[5 + len], frame[5 + len + 1]);
            let query_id = dns.next_query_id;
            (domain_name_accepted(domain) && a_query(query_id, domain) is Some) ==> {
                &&& step.reaction.error is None
                &&& step.reaction.actions == seq![
                    ActionView::Query { query_id, datagram: a_query(query_id, domain)->Some_0 },
                ]
                &&& step.conn == (ConnectionView {
                    state: ClientState::Resolving,
                    client_buf: Seq::empty(),
                    requested_endpoint: Some(host_display(domain, port)),
                    ..c
                })
                &&& step.conn.target_token is None
                &&& step.dns == (DnsResolverView {
                    next_query_id: next_id(query_id),
                    pending: dns.pending.insert(
                        query_id,
                        DnsRequestView { domain, port, conn_id, timestamp: now },
                    ),
                    ..dns
                })
                &&& step.token_map == token_map
                &&& step.next_token == next_token
            }
        }),
{
}

/// A target that becomes writable while its connect is in progress is
/// connected: the client is sent the success frame, once, the session is in
/// `Tunneling`, the relay buffers are as they were, and both sockets are
/// then watched as the interest policy has it, which is for readable
/// readiness alone where nothing is buffered.
pub proof fn theorem_tunnel_opens(c: ConnectionView)
    requires
        c.wf(),
        c.state == ClientState::Connecting,
    ensures
        ({
            let (after, reaction) = target_writable_step(c, WriteOutcome::Idle);
            let (same, finished) = writable_step(c, EndpointKind::Target, WriteOutcome::Idle);
            let client_token = c.client_token;
            let target_token = c.target_token->Some_0;
            let readable = Interest { readable: true, writable: false };
            &&& reaction.error is None
            &&& reaction.actions == seq![
                ActionView::Send { token: client_token, reply: Reply::Success },
            ]
            &&& Reply::Success.frame() == seq![
                0x05u8,
                0x00u8,
                0x00u8,
                0x01u8,
                0u8,
                0u8,
                0u8,
                0u8,
                0u8,
                0u8,
            ]
            &&& after == (ConnectionView { state: ClientState::Tunneling, ..c })
            &&& same == after
            &&& finished.actions == seq![
                ActionView::Send { token: client_token, reply: Reply::Success },
                ActionView::Reregister { token: client_token, interest: client_interest(after) },
                ActionView::Reregister { token: target_token, interest: readable },
            ]
            &&& c.target_to_client.len() == 0 ==> client_interest(after) == readable
        }),
{
    let (after, reaction) = target_writable_step(c, WriteOutcome::Idle);
    let (same, finished) = writable_step(c, EndpointKind::Target, WriteOutcome::Idle);
    assert(finished.actions =~= seq![
        ActionView::Send { token: c.client_token, reply: Reply::Success },
        ActionView::Reregister { token: c.client_token, interest: client_interest(after) },
        ActionView::Reregister {
            token: c.target_token->Some_0,
            interest: Interest { readable: true, writable: false },
        },
    ]);
}

/// A connect that fails refuses the session, whether the reactor reports
/// the failure as an error on the connecting socket or as a connect that
/// could not be started: the client is sent the refused frame, both
/// sockets are closed, the session is gone, and the success frame is never
/// sent.
pub proof fn theorem_connect_error_refuses(s: ServerView, token: usize, readiness: Readiness)
    requires
        s.wf(),
        s.route(token) matches Some((id, endpoint)) && endpoint == EndpointKind::Target
            && s.connections[id].state == ClientState::Connecting,
        readiness.error,
    ensures
        ({
            let id = s.route(token)->Some_0.0;
            let c = s.connections[id];
            let refused = seq![
                ActionView::Send { token: c.client_token, reply: Reply::Refused },
                ActionView::Close {
                    conn_id: id,
                    client_token: c.client_token,
                    target_token: Some(token),
                },
            ];
            &&& s.on_ready(token, readiness) == s.on_failure(token)
            &&& s.on_failure(token).1 == refused
            &&& !s.on_failure(token).0.connections.contains_key(id)
            &&& !s.on_failure(token).0.token_map.contains_key(token)
            &&& !s.on_failure(token).0.token_map.contains_key(c.client_token)
        }),
{
    let id = s.route(token)->Some_0.0;
    let c = s.connections[id];
    assert(s.token_ok(token));
    assert(s.session_ok(id));
    assert(s.on_failure(token).1 =~= seq![
        ActionView::Send { token: c.client_token, reply: Reply::Refused },
        ActionView::Close { conn_id: id, client_token: c.client_token, target_token: Some(token) },
    ]);
}

/// An address for a session in `Resolving` starts its outbound connection,
/// as long as a token is left: the session enters `Connecting` with the
/// next token for its target, filed in the index, the counter moves on by
/// one, the endpoint is noted, the one thing asked of the reactor is the
/// connect, and nothing is sent to the client.
pub proof fn theorem_resolved_connects(
    s: ServerView,
    id: usize,
    addr: SocketAddress,
    display: Seq<char>,
)
    requires
        s.wf(),
        s.connections.contains_key(id),
        s.connections[id].state == ClientState::Resolving,
        s.next_token < usize::MAX,
    ensures
        ({
            let event = DnsEventView::Resolved { conn_id: id, resolved_addr: addr, display };
            let (after, actions) = s.on_event(event);
            let c = s.connections[id];
            &&& actions == seq![ActionView::Connect { token: s.next_token, addr }]
            &&& after.connections.contains_key(id)
            &&& after.connections[id] == (ConnectionView {
                state: ClientState::Connecting,
                target_token: Some(s.next_token),
                requested_endpoint: Some(display),
                ..c
            })
            &&& after.token_map == s.token_map.insert(s.next_token, (id, EndpointKind::Target))
            &&& after.next_token == s.next_token + 1
        }),
{
    assert(s.session_ok(id));
    let c = s.connections[id];
    assert(c.client_buf =~= Seq::<u8>::empty());
}

/// A failed resolution refuses the session it is for, in whatever state
/// that session is: the client is sent the refused frame, its sockets are
/// closed, and the session is gone. Where the session is gone already,
/// nothing is asked of the reactor, and the table and the index are as they
/// were.
pub proof fn theorem_failure_refuses(
    s: ServerView,
    id: usize,
    domain: Seq<char>,
    reason: Seq<char>,
)
    requires
        s.wf(),
    ensures
        ({
            let event = DnsEventView::Failed { conn_id: id, domain, reason };
            let (after, actions) = s.on_event(event);
            let c = s.connections[id];
            &&& s.connections.contains_key(id) ==> {
                &&& actions == seq![
                    ActionView::Send { token: c.client_token, reply: Reply::Refused },
                    ActionView::Close {
                        conn_id: id,
                        client_token: c.client_token,
                        target_token: c.target_token,
                    },
                ]
                &&& after.connections == s.connections.remove(id)
                &&& after.token_map == s.token_map.remove_keys(tokens_of(s.token_map, id))
            }
            &&& !s.connections.contains_key(id) ==> {
                &&& actions == Seq::<ActionView>::empty()
                &&& after.connections == s.connections
                &&& after.token_map == s.token_map
            }
        }),
{
    let event = DnsEventView::Failed { conn_id: id, domain, reason };
    let (after, actions) = s.on_event(event);
    if s.connections.contains_key(id) {
        let c = s.connections[id];
        assert(actions =~= seq![
            ActionView::Send { token: c.client_token, reply: Reply::Refused },
            ActionView::Close {
                conn_id: id,
                client_token: c.client_token,
                target_token: c.target_token,
            },
        ]);
    }
}

/// A request is given up within a second of its expiry when the reactor
/// waits no longer between sweeps than the resolver lets it: if a sweep at
/// `earlier` found the request not yet expired, and the next sweep comes
/// at `now`, no more than a second later, then at `now` the request is less
/// than six seconds old.
pub proof fn theorem_timeout_window(request: DnsRequestView, earlier: u64, now: u64)
    requires
        request.timestamp <= earlier <= now,
        !request.expired(earlier),
        now - earlier <= 1000,
    ensures
        now - request.timestamp < 6000,
        SWEEP_INTERVAL_MS <= 1000,
{
}

} // verus!
