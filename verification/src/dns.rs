//! Asynchronous resolution of A records: query construction, correlation of
//! replies with pending requests by query id, and expiry.

use crate::error::ProxyError;
use crate::net::{IpAddress, SocketAddress};
use crate::socks5::protocol::{format_host_endpoint, host_display};
use hickory_proto::op::{Message, MessageType, OpCode, Query};
use hickory_proto::rr::{Name, RData, RecordType};
use hickory_proto::serialize::binary::{BinDecodable, BinEncodable};
use std::collections::HashMap;
use vstd::prelude::*;
use vstd::std_specs::iter::IteratorSpec;
use vstd::string::*;

verus! {

broadcast use vstd::std_specs::hash::group_hash_axioms;

/// Milliseconds after which an unanswered query is given up.
pub const DNS_TIMEOUT_MS: u64 = 5000;

/// The port resolvers listen on.
pub const DNS_PORT: u16 = 53;

/// Longest that a reactor may wait for readiness while requests are
/// pending, in milliseconds, so that a request is given up well within a
/// second of its expiry.
pub const SWEEP_INTERVAL_MS: u64 = 250;

/// Opcode of a standard query.
pub const OPCODE_QUERY: u8 = 0;

/// Record type of an IPv4 host address.
pub const TYPE_A: u16 = 1;

/// Queries ask the resolver to recurse.
pub const RECURSION_DESIRED: bool = true;

/// A query that has been sent and not yet answered.
#[derive(Debug, PartialEq, Eq)]
pub struct DnsRequest {
    pub domain: String,
    pub port: u16,
    /// The session waiting for the answer.
    pub conn_id: usize,
    /// When the query was issued, in milliseconds on the caller's clock.
    pub timestamp: u64,
}

/// Mathematical value of a [`DnsRequest`].
pub struct DnsRequestView {
    pub domain: Seq<char>,
    pub port: u16,
    pub conn_id: usize,
    pub timestamp: u64,
}

impl View for DnsRequest {
    type V = DnsRequestView;

    open spec fn view(&self) -> DnsRequestView {
        DnsRequestView {
            domain: self.domain@,
            port: self.port,
            conn_id: self.conn_id,
            timestamp: self.timestamp,
        }
    }
}

/// What became of a query.
#[derive(Debug, PartialEq, Eq)]
pub enum DnsEvent {
    Resolved { conn_id: usize, resolved_addr: SocketAddress, display: String },
    Failed { conn_id: usize, domain: String, reason: String },
}

/// Mathematical value of a [`DnsEvent`].
pub enum DnsEventView {
    Resolved { conn_id: usize, resolved_addr: SocketAddress, display: Seq<char> },
    Failed { conn_id: usize, domain: Seq<char>, reason: Seq<char> },
}

impl View for DnsEvent {
    type V = DnsEventView;

    open spec fn view(&self) -> DnsEventView {
        match *self {
            DnsEvent::Resolved { conn_id, resolved_addr, display } => DnsEventView::Resolved {
                conn_id,
                resolved_addr,
                display: display@,
            },
            DnsEvent::Failed { conn_id, domain, reason } => DnsEventView::Failed {
                conn_id,
                domain: domain@,
                reason: reason@,
            },
        }
    }
}

impl DnsEventView {
    /// The session the event is for.
    pub open spec fn conn_id(self) -> usize {
        match self {
            DnsEventView::Resolved { conn_id, .. } => conn_id,
            DnsEventView::Failed { conn_id, .. } => conn_id,
        }
    }
}

impl DnsEvent {
    /// The session the event is for.
    pub fn conn_id(&self) -> (r: usize)
        ensures
            r == self@.conn_id(),
    {
        match self {
            DnsEvent::Resolved { conn_id, .. } => *conn_id,
            DnsEvent::Failed { conn_id, .. } => *conn_id,
        }
    }
}

/// The values of a list of events, in order.
pub open spec fn event_views(events: Seq<DnsEvent>) -> Seq<DnsEventView> {
    events.map_values(|e: DnsEvent| e@)
}

/// A datagram received on the resolver socket.
#[derive(Debug)]
pub struct Datagram {
    pub data: Vec<u8>,
    pub from: SocketAddress,
}

/// The parts of a decoded DNS message that the resolver looks at.
#[derive(Debug, PartialEq, Eq)]
pub struct DnsReply {
    pub id: u16,
    /// The response code as a number; zero means no error.
    pub response_code: u16,
    /// One entry per record of the answer section, in order: the address for
    /// an A record, nothing for any other record.
    pub answers: Vec<Option<(u8, u8, u8, u8)>>,
}

/// Whether the DNS library accepts `domain` as a name.
pub uninterp spec fn domain_name_accepted(domain: Seq<char>) -> bool;

/// The wire form that the DNS library gives a query message with this id,
/// opcode and recursion-desired flag and with one question, for records of
/// this type and of class IN under `domain`, if it can encode it.
pub uninterp spec fn query_datagram(
    query_id: u16,
    domain: Seq<char>,
    opcode: u8,
    recursion_desired: bool,
    record_type: u16,
) -> Option<Seq<u8>>;

/// The query that the resolver sends for `domain` under `query_id`: a
/// standard query that asks for recursion and for the A record.
pub open spec fn a_query(query_id: u16, domain: Seq<char>) -> Option<Seq<u8>> {
    query_datagram(query_id, domain, OPCODE_QUERY, RECURSION_DESIRED, TYPE_A)
}

/// Whether the DNS library can decode `datagram` as a message.
pub uninterp spec fn reply_decodes(datagram: Seq<u8>) -> bool;

/// The id in the header of the decoded message.
pub uninterp spec fn reply_id(datagram: Seq<u8>) -> u16;

/// The response code of the decoded message.
pub uninterp spec fn reply_response_code(datagram: Seq<u8>) -> u16;

/// The answer section of the decoded message, reduced to its A records.
pub uninterp spec fn reply_answers(datagram: Seq<u8>) -> Seq<Option<(u8, u8, u8, u8)>>;

/// Builds a query with `hickory_proto`: `Name::from_utf8` parses the
/// domain; `Message::new` and its setters give the message the id, the
/// type query, the opcode (`OpCode::from_u8`) and the recursion-desired
/// flag; `Query::query` and `Message::add_query` add the one question, for
/// the record type given (`RecordType::from`); `BinEncodable::to_bytes`
/// encodes the message.
///
/// The contract says nothing about the bytes themselves. It claims that
/// whether the name is accepted depends on the domain alone, that the
/// encoding depends on the arguments alone, and that a refused name is
/// reported as `InvalidDomain` and a failed encoding as `DnsEncode`.
#[verifier::external_body]
pub(crate) fn encode_query(
    query_id: u16,
    domain: &str,
    opcode: u8,
    recursion_desired: bool,
    record_type: u16,
) -> (r: Result<Vec<u8>, ProxyError>)
    ensures
        match r {
            Ok(bytes) => domain_name_accepted(domain@) && query_datagram(
                query_id,
                domain@,
                opcode,
                recursion_desired,
                record_type,
            ) == Some(bytes@),
            Err(e) => if domain_name_accepted(domain@) {
                e == ProxyError::DnsEncode && query_datagram(
                    query_id,
                    domain@,
                    opcode,
                    recursion_desired,
                    record_type,
                ) is None
            } else {
                e == ProxyError::InvalidDomain
            },
        },
{
    let name = match Name::from_utf8(domain) {
        Ok(n) => n,
        Err(_) => return Err(ProxyError::InvalidDomain),
    };
    let mut msg = Message::new();
    msg.set_id(query_id).set_message_type(MessageType::Query).set_op_code(
        OpCode::from_u8(opcode),
    ).set_recursion_desired(recursion_desired);
    msg.add_query(Query::query(name, RecordType::from(record_type)));
    match msg.to_bytes() {
        Ok(bytes) => Ok(bytes),
        Err(_) => Err(ProxyError::DnsEncode),
    }
}

/// Decodes a datagram with `hickory_proto`: `BinDecodable::from_bytes`
/// parses it as a `Message`; `Message::id` gives the id,
/// `Message::response_code` the response code, here turned into its number,
/// and `Message::answers` the answer section, of which `Record::data` is
/// kept for every A record and blanked for any other.
///
/// The contract says nothing about what a given datagram decodes to. It
/// claims that whether a datagram decodes, and what to, depends on its
/// bytes alone.
#[verifier::external_body]
pub(crate) fn decode_reply(datagram: &[u8]) -> (r: Option<DnsReply>)
    ensures
        match r {
            Some(reply) => {
                &&& reply_decodes(datagram@)
                &&& reply.id == reply_id(datagram@)
                &&& reply.response_code == reply_response_code(datagram@)
                &&& reply.answers@ == reply_answers(datagram@)
            },
            None => !reply_decodes(datagram@),
        },
{
    let msg = Message::from_bytes(datagram).ok()?;
    let answers = msg.answers().iter().map(
        |record| match record.data() {
            RData::A(a) => Some(<(u8, u8, u8, u8)>::from(a.0.octets())),
            _ => None,
        },
    ).collect();
    Some(DnsReply { id: msg.id(), response_code: u16::from(msg.response_code()), answers })
}

/// The first address in an answer section, if it holds one.
pub open spec fn first_address(answers: Seq<Option<(u8, u8, u8, u8)>>) -> Option<
    (u8, u8, u8, u8),
>
    decreases answers.len(),
{
    if answers.len() == 0 {
        None
    } else if answers[0] is Some {
        answers[0]
    } else {
        first_address(answers.skip(1))
    }
}

/// Reason given when a reply holds no address.
pub open spec fn reason_no_address() -> Seq<char> {
    "No A record in response"@
}

/// Reason given when the resolver answers with an address and an error
/// code.
pub open spec fn reason_error_code() -> Seq<char> {
    "DNS server returned an error"@
}

/// Reason given when no reply came in time.
pub open spec fn reason_timed_out() -> Seq<char> {
    "DNS query timed out"@
}

impl DnsRequestView {
    /// The request is at least [`DNS_TIMEOUT_MS`] old at `now`.
    pub open spec fn expired(self, now: u64) -> bool {
        now - self.timestamp >= DNS_TIMEOUT_MS
    }

    /// The failure reported for this request for the given reason.
    pub open spec fn failed(self, reason: Seq<char>) -> DnsEventView {
        DnsEventView::Failed { conn_id: self.conn_id, domain: self.domain, reason }
    }

    /// The event that a reply with this response code and answer section
    /// produces. A reply without an address is a failure for want of an
    /// address, whatever its code. A reply with an address is a failure if
    /// its code is not zero, and otherwise resolves to the first address
    /// with the requested port.
    pub open spec fn answered(
        self,
        response_code: u16,
        answers: Seq<Option<(u8, u8, u8, u8)>>,
    ) -> DnsEventView {
        match first_address(answers) {
            None => self.failed(reason_no_address()),
            Some(ip) => if response_code != 0 {
                self.failed(reason_error_code())
            } else {
                DnsEventView::Resolved {
                    conn_id: self.conn_id,
                    resolved_addr: SocketAddress {
                        ip: IpAddress::V4(ip.0, ip.1, ip.2, ip.3),
                        port: self.port,
                    },
                    display: host_display(self.domain, self.port),
                }
            },
        }
    }
}

/// Finds the first address in an answer section.
pub fn find_first_address(answers: &Vec<Option<(u8, u8, u8, u8)>>) -> (r: Option<
    (u8, u8, u8, u8),
>)
    ensures
        r == first_address(answers@),
{
    let mut i: usize = 0;
    assert(answers@.skip(0) =~= answers@);
    while i < answers.len()
        invariant
            i <= answers.len(),
            first_address(answers@) == first_address(answers@.skip(i as int)),
        decreases answers.len() - i,
    {
        let ghost rest = answers@.skip(i as int);
        match answers[i] {
            Some(ip) => {
                return Some(ip);
            },
            None => {
                assert(rest.skip(1) =~= answers@.skip(i + 1));
            },
        }
        i += 1;
    }
    None
}

impl DnsRequest {
    /// Turns an answered request into its event.
    pub fn answer(self, response_code: u16, answers: &Vec<Option<(u8, u8, u8, u8)>>) -> (r:
        DnsEvent)
        ensures
            r@ == self@.answered(response_code, answers@),
    {
        match find_first_address(answers) {
            None => DnsEvent::Failed {
                conn_id: self.conn_id,
                domain: self.domain,
                reason: String::from_str("No A record in response"),
            },
            Some(ip) => {
                if response_code != 0 {
                    return DnsEvent::Failed {
                        conn_id: self.conn_id,
                        domain: self.domain,
                        reason: String::from_str("DNS server returned an error"),
                    };
                }
                let display = format_host_endpoint(self.domain.as_str(), self.port);
                DnsEvent::Resolved {
                    conn_id: self.conn_id,
                    resolved_addr: SocketAddress {
                        ip: IpAddress::V4(ip.0, ip.1, ip.2, ip.3),
                        port: self.port,
                    },
                    display,
                }
            },
        }
    }

    /// Turns a request that got no reply in time into its event.
    pub fn time_out(self) -> (r: DnsEvent)
        ensures
            r@ == self@.failed(reason_timed_out()),
    {
        DnsEvent::Failed {
            conn_id: self.conn_id,
            domain: self.domain,
            reason: String::from_str("DNS query timed out"),
        }
    }

    /// Whether the request is at least [`DNS_TIMEOUT_MS`] old at `now`.
    pub fn is_expired(&self, now: u64) -> (r: bool)
        ensures
            r == self@.expired(now),
    {
        now >= self.timestamp && now - self.timestamp >= DNS_TIMEOUT_MS
    }
}

/// The resolver's bookkeeping: where queries go, which are in flight, and
/// the id the next one gets. The socket stays with the reactor.
#[derive(Debug)]
pub struct DnsResolver {
    resolver_addr: SocketAddress,
    pending_requests: HashMap<u16, DnsRequest>,
    next_query_id: u16,
}

/// Mathematical value of a [`DnsResolver`].
pub struct DnsResolverView {
    pub resolver_addr: SocketAddress,
    pub pending: Map<u16, DnsRequestView>,
    pub next_query_id: u16,
}

impl View for DnsResolver {
    type V = DnsResolverView;

    closed spec fn view(&self) -> DnsResolverView {
        DnsResolverView {
            resolver_addr: self.resolver_addr,
            pending: self.pending_requests@.map_values(|r: DnsRequest| r@),
            next_query_id: self.next_query_id,
        }
    }
}

/// The id after `id`, wrapping around at 16 bits.
pub open spec fn next_id(id: u16) -> u16 {
    if id == u16::MAX {
        0
    } else {
        (id + 1) as u16
    }
}

/// A datagram as the resolver sees it: payload and source.
pub type DatagramView = (Seq<u8>, SocketAddress);

/// The values of a list of datagrams, in order.
pub open spec fn datagram_views(datagrams: Seq<Datagram>) -> Seq<DatagramView> {
    datagrams.map_values(|d: Datagram| (d.data@, d.from))
}

impl DnsResolverView {
    /// A resolver with nothing in flight, whose first query gets id 1.
    pub open spec fn fresh(resolver_addr: SocketAddress) -> DnsResolverView {
        DnsResolverView { resolver_addr, pending: Map::empty(), next_query_id: 1 }
    }

    /// Takes the next query id: the id is `next_query_id` as it stands,
    /// whether or not a request is still pending under it, and the id after
    /// it comes next.
    pub open spec fn allocate(self) -> (DnsResolverView, u16) {
        (DnsResolverView { next_query_id: next_id(self.next_query_id), ..self }, self.next_query_id)
    }

    /// Records `request` as pending under `query_id`.
    pub open spec fn track(self, query_id: u16, request: DnsRequestView) -> DnsResolverView {
        DnsResolverView { pending: self.pending.insert(query_id, request), ..self }
    }

    /// Forgets whatever is pending under `query_id`.
    pub open spec fn forget(self, query_id: u16) -> DnsResolverView {
        DnsResolverView { pending: self.pending.remove(query_id), ..self }
    }

    /// Starts a resolution: takes the next id, has the query encoded, and
    /// records the request under that id, in place of whatever was pending
    /// there. The id stays used up when the name or the encoding is refused;
    /// nothing is recorded then.
    pub open spec fn resolve(
        self,
        domain: Seq<char>,
        port: u16,
        conn_id: usize,
        now: u64,
    ) -> (DnsResolverView, Result<(u16, Seq<u8>), ProxyError>) {
        let (next, id) = self.allocate();
        if !domain_name_accepted(domain) {
            (next, Err(ProxyError::InvalidDomain))
        } else {
            match a_query(id, domain) {
                None => (next, Err(ProxyError::DnsEncode)),
                Some(bytes) => (
                    next.track(id, DnsRequestView { domain, port, conn_id, timestamp: now }),
                    Ok((id, bytes)),
                ),
            }
        }
    }

    /// Takes in a decoded reply: if its id is pending, the request leaves
    /// the table and becomes an event; otherwise nothing happens.
    pub open spec fn receive_reply(
        self,
        id: u16,
        response_code: u16,
        answers: Seq<Option<(u8, u8, u8, u8)>>,
    ) -> (DnsResolverView, Option<DnsEventView>) {
        if self.pending.contains_key(id) {
            (self.forget(id), Some(self.pending[id].answered(response_code, answers)))
        } else {
            (self, None)
        }
    }

    /// Takes in one datagram: dropped unless it comes from the configured
    /// resolver and decodes as a DNS message, then handled as a reply.
    pub open spec fn receive(self, datagram: DatagramView) -> (
        DnsResolverView,
        Option<DnsEventView>,
    ) {
        if datagram.1 != self.resolver_addr || !reply_decodes(datagram.0) {
            (self, None)
        } else {
            self.receive_reply(
                reply_id(datagram.0),
                reply_response_code(datagram.0),
                reply_answers(datagram.0),
            )
        }
    }

    /// Takes in datagrams one after the other, collecting the events in the
    /// order of the datagrams that caused them.
    pub open spec fn receive_all(self, datagrams: Seq<DatagramView>) -> (
        DnsResolverView,
        Seq<DnsEventView>,
    )
        decreases datagrams.len(),
    {
        if datagrams.len() == 0 {
            (self, Seq::empty())
        } else {
            let (before, events) = self.receive_all(datagrams.drop_last());
            let (after, event) = before.receive(datagrams.last());
            match event {
                Some(e) => (after, events.push(e)),
                None => (after, events),
            }
        }
    }

    /// How long a reactor may wait for readiness before it has the expired
    /// requests swept: [`SWEEP_INTERVAL_MS`] while a request is pending, and
    /// without limit otherwise.
    pub open spec fn poll_timeout(self) -> Option<u64> {
        if self.pending.dom().len() > 0 {
            Some(SWEEP_INTERVAL_MS)
        } else {
            None
        }
    }

    /// The ids of the pending requests that have expired at `now`.
    pub open spec fn expired_ids(self, now: u64) -> Set<u16> {
        Set::new(|id: u16| self.pending.contains_key(id) && self.pending[id].expired(now))
    }

    /// The resolver without the requests that have expired at `now`.
    pub open spec fn sweep(self, now: u64) -> DnsResolverView {
        DnsResolverView { pending: self.pending.remove_keys(self.expired_ids(now)), ..self }
    }

    /// The ids of the pending requests that are for session `conn_id`.
    pub open spec fn queries_of(self, conn_id: usize) -> Set<u16> {
        Set::new(|id: u16| self.pending.contains_key(id) && self.pending[id].conn_id == conn_id)
    }

    /// The resolver without the requests that are for session `conn_id`.
    pub open spec fn without_session(self, conn_id: usize) -> DnsResolverView {
        DnsResolverView { pending: self.pending.remove_keys(self.queries_of(conn_id)), ..self }
    }

    /// The timeout events for the pending requests under `ids`, in order.
    pub open spec fn timeouts(self, ids: Seq<u16>) -> Seq<DnsEventView> {
        ids.map_values(|id: u16| self.pending[id].failed(reason_timed_out()))
    }
}

impl DnsResolver {
    /// A resolver that sends its queries to `resolver_addr`.
    pub fn new(resolver_addr: SocketAddress) -> (r: DnsResolver)
        ensures
            r@ == DnsResolverView::fresh(resolver_addr),
    {
        let r = DnsResolver {
            resolver_addr,
            pending_requests: HashMap::new(),
            next_query_id: 1,
        };
        assert(r@.pending =~= Map::empty());
        r
    }

    /// Where queries are sent and replies must come from.
    pub fn resolver_addr(&self) -> (r: SocketAddress)
        ensures
            r == self@.resolver_addr,
    {
        self.resolver_addr
    }

    /// Number of requests in flight.
    pub fn pending_count(&self) -> (r: usize)
        ensures
            r == self@.pending.dom().len(),
    {
        assert(self@.pending.dom() =~= self.pending_requests@.dom());
        self.pending_requests.len()
    }

    /// How many milliseconds a reactor may wait for readiness before it
    /// calls for a sweep; `None` lets it wait without limit.
    pub fn poll_timeout_ms(&self) -> (r: Option<u64>)
        ensures
            r == self@.poll_timeout(),
    {
        if self.pending_count() > 0 {
            Some(SWEEP_INTERVAL_MS)
        } else {
            None
        }
    }

    /// The session waiting under `query_id`, if that id is in flight.
    pub fn waiting_session(&self, query_id: u16) -> (r: Option<usize>)
        ensures
            r == if self@.pending.contains_key(query_id) {
                Some(self@.pending[query_id].conn_id)
            } else {
                None
            },
    {
        match self.pending_requests.get(&query_id) {
            Some(request) => Some(request.conn_id),
            None => None,
        }
    }

    /// Takes the next query id.
    pub fn take_query_id(&mut self) -> (r: u16)
        ensures
            (final(self)@, r) == old(self)@.allocate(),
    {
        let id = self.next_query_id;
        self.next_query_id = id.wrapping_add(1);
        id
    }

    /// Records `request` as pending under `query_id`, replacing whatever was
    /// pending under that id.
    pub fn track(&mut self, query_id: u16, request: DnsRequest)
        ensures
            final(self)@ == old(self)@.track(query_id, request@),
    {
        self.pending_requests.insert(query_id, request);
        assert(self@.pending =~= old(self)@.pending.insert(query_id, request@));
    }

    /// Forgets the request pending under `query_id`, as when its query could
    /// not be sent, and hands it back.
    pub fn abandon(&mut self, query_id: u16) -> (r: Option<DnsRequest>)
        ensures
            final(self)@ == old(self)@.forget(query_id),
            match r {
                Some(request) => old(self)@.pending.contains_key(query_id) && request@ == old(
                    self,
                )@.pending[query_id],
                None => !old(self)@.pending.contains_key(query_id),
            },
    {
        let r = self.pending_requests.remove(&query_id);
        assert(self@.pending =~= old(self)@.pending.remove(query_id));
        r
    }

    /// Starts resolving `domain` for session `conn_id` at time `now`. On
    /// success the request is pending under the id that was next, in place
    /// of whatever was pending under it, and the caller gets that id and the
    /// datagram to send to the resolver.
    pub fn resolve(&mut self, domain: String, port: u16, conn_id: usize, now: u64) -> (r: Result<
        (u16, Vec<u8>),
        ProxyError,
    >)
        ensures
            final(self)@ == old(self)@.resolve(domain@, port, conn_id, now).0,
            match r {
                Ok((id, bytes)) => old(self)@.resolve(domain@, port, conn_id, now).1 == Ok::<
                    (u16, Seq<u8>),
                    ProxyError,
                >((id, bytes@)),
                Err(e) => old(self)@.resolve(domain@, port, conn_id, now).1 == Err::<
                    (u16, Seq<u8>),
                    ProxyError,
                >(e),
            },
    {
        let query_id = self.take_query_id();
        match encode_query(
            query_id,
            domain.as_str(),
            OPCODE_QUERY,
            RECURSION_DESIRED,
            TYPE_A,
        ) {
            Ok(bytes) => {
                self.track(query_id, DnsRequest { domain, port, conn_id, timestamp: now });
                Ok((query_id, bytes))
            },
            Err(e) => Err(e),
        }
    }

    /// Takes in a decoded reply.
    pub fn handle_reply(&mut self, reply: &DnsReply) -> (r: Option<DnsEvent>)
        ensures
            final(self)@ == old(self)@.receive_reply(
                reply.id,
                reply.response_code,
                reply.answers@,
            ).0,
            match r {
                Some(e) => Some(e@),
                None => None,
            } == old(self)@.receive_reply(reply.id, reply.response_code, reply.answers@).1,
    {
        match self.pending_requests.remove(&reply.id) {
            Some(request) => {
                assert(self@.pending =~= old(self)@.pending.remove(reply.id));
                Some(request.answer(reply.response_code, &reply.answers))
            },
            None => {
                assert(self@.pending =~= old(self)@.pending);
                None
            },
        }
    }

    /// Takes in one datagram received on the resolver socket.
    pub fn handle_response(&mut self, datagram: &Datagram) -> (r: Option<DnsEvent>)
        ensures
            final(self)@ == old(self)@.receive((datagram.data@, datagram.from)).0,
            match r {
                Some(e) => Some(e@),
                None => None,
            } == old(self)@.receive((datagram.data@, datagram.from)).1,
    {
        if datagram.from != self.resolver_addr {
            return None;
        }
        match decode_reply(datagram.data.as_slice()) {
            Some(reply) => self.handle_reply(&reply),
            None => None,
        }
    }

    /// Takes in the datagrams received on the resolver socket, in order.
    pub fn handle_responses(&mut self, datagrams: &Vec<Datagram>) -> (events: Vec<DnsEvent>)
        ensures
            (final(self)@, event_views(events@)) == old(self)@.receive_all(
                datagram_views(datagrams@),
            ),
    {
        let mut events: Vec<DnsEvent> = Vec::new();
        let ghost all = datagram_views(datagrams@);
        let mut i: usize = 0;
        while i < datagrams.len()
            invariant
                i <= datagrams.len(),
                all == datagram_views(datagrams@),
                (self@, event_views(events@)) == old(self)@.receive_all(all.take(i as int)),
            decreases datagrams.len() - i,
        {
            let event = self.handle_response(&datagrams[i]);
            proof {
                let prefix = all.take(i + 1);
                assert(prefix.drop_last() =~= all.take(i as int));
            }
            match event {
                Some(e) => {
                    events.push(e);
                },
                None => {},
            }
            i += 1;
        }
        assert(all.take(i as int) =~= all);
        events
    }

    /// The ids of the requests in flight, each once, in no particular order.
    pub fn pending_ids(&self) -> (ids: Vec<u16>)
        ensures
            ids@.no_duplicates(),
            ids@.to_set() == self@.pending.dom(),
    {
        let mut ids: Vec<u16> = Vec::new();
        let ghost all: Seq<u16> = self.pending_requests.keys().remaining().unref();
        for id in it: self.pending_requests.keys()
            invariant
                it.seq().unref() == all,
                ids@ == all.take(it.index() as int),
                all.no_duplicates(),
                all.to_set() == self.pending_requests@.dom(),
        {
            ids.push(*id);
        }
        assert(ids@ =~= all);
        ids
    }

    /// Drops every request that has been waiting for [`DNS_TIMEOUT_MS`] or
    /// longer at `now` and reports a failure for each. The order of the
    /// events is not specified.
    pub fn cleanup_expired(&mut self, now: u64) -> (events: Vec<DnsEvent>)
        ensures
            final(self)@ == old(self)@.sweep(now),
            exists|ids: Seq<u16>|
                {
                    &&& ids.no_duplicates()
                    &&& ids.to_set() == old(self)@.expired_ids(now)
                    &&& event_views(events@) == #[trigger] old(self)@.timeouts(ids)
                },
    {
        let candidates = self.pending_ids();
        let mut events: Vec<DnsEvent> = Vec::new();
        let ghost before = self@;
        let ghost expired = before.expired_ids(now);
        let ghost mut ids: Seq<u16> = Seq::empty();
        let mut i: usize = 0;
        assert(self@.pending =~= before.pending.remove_keys(
            expired.intersect(candidates@.take(0).to_set()),
        ));
        while i < candidates.len()
            invariant
                i <= candidates.len(),
                before == old(self)@,
                expired == before.expired_ids(now),
                candidates@.no_duplicates(),
                candidates@.to_set() == before.pending.dom(),
                self@.resolver_addr == before.resolver_addr,
                self@.next_query_id == before.next_query_id,
                self@.pending == before.pending.remove_keys(
                    expired.intersect(candidates@.take(i as int).to_set()),
                ),
                ids.no_duplicates(),
                ids.to_set() == expired.intersect(candidates@.take(i as int).to_set()),
                event_views(events@) == before.timeouts(ids),
            decreases candidates.len() - i,
        {
            let id = candidates[i];
            let ghost done = candidates@.take(i as int);
            let ghost seen = event_views(events@);
            let ghost mid = self@;
            proof {
                assert(candidates@.take(i + 1) =~= done.push(id));
                done.lemma_push_to_set_commute(id);
                assert(!done.contains(id));
                assert(mid.pending.contains_key(id));
                assert(mid.pending[id] == before.pending[id]);
            }
            let is_expired = match self.pending_requests.get(&id) {
                Some(request) => request.is_expired(now),
                None => false,
            };
            if is_expired {
                match self.pending_requests.remove(&id) {
                    Some(request) => {
                        events.push(request.time_out());
                        proof {
                            let event = before.pending[id].failed(reason_timed_out());
                            assert(self@.pending =~= mid.pending.remove(id));
                            assert(self@.pending =~= before.pending.remove_keys(
                                expired.intersect(done.push(id).to_set()),
                            ));
                            ids.lemma_push_to_set_commute(id);
                            assert(event_views(events@) =~= seen.push(event));
                            assert(before.timeouts(ids.push(id)) =~= before.timeouts(ids).push(
                                event,
                            ));
                            ids = ids.push(id);
                        }
                    },
                    None => {},
                }
            }
            i += 1;
        }
        proof {
            assert(candidates@.take(i as int) =~= candidates@);
            assert(expired.intersect(before.pending.dom()) =~= expired);
        }
        events
    }

    /// Forgets every request that is for session `conn_id`.
    pub fn forget_session(&mut self, conn_id: usize)
        ensures
            final(self)@ == old(self)@.without_session(conn_id),
    {
        let candidates = self.pending_ids();
        let ghost before = self@;
        let ghost doomed = before.queries_of(conn_id);
        let mut i: usize = 0;
        assert(self@.pending =~= before.pending.remove_keys(
            doomed.intersect(candidates@.take(0).to_set()),
        ));
        while i < candidates.len()
            invariant
                i <= candidates.len(),
                before == old(self)@,
                doomed == before.queries_of(conn_id),
                candidates@.no_duplicates(),
                candidates@.to_set() == before.pending.dom(),
                self@.resolver_addr == before.resolver_addr,
                self@.next_query_id == before.next_query_id,
                self@.pending == before.pending.remove_keys(
                    doomed.intersect(candidates@.take(i as int).to_set()),
                ),
            decreases candidates.len() - i,
        {
            let id = candidates[i];
            let ghost done = candidates@.take(i as int);
            let ghost mid = self@;
            proof {
                assert(candidates@.take(i + 1) =~= done.push(id));
                done.lemma_push_to_set_commute(id);
                assert(!done.contains(id));
                assert(mid.pending.contains_key(id));
                assert(mid.pending[id] == before.pending[id]);
            }
            let waits = match self.pending_requests.get(&id) {
                Some(request) => request.conn_id == conn_id,
                None => false,
            };
            if waits {
                self.pending_requests.remove(&id);
                proof {
                    assert(self@.pending =~= mid.pending.remove(id));
                    assert(self@.pending =~= before.pending.remove_keys(
                        doomed.intersect(done.push(id).to_set()),
                    ));
                }
            }
            i += 1;
        }
        proof {
            assert(candidates@.take(i as int) =~= candidates@);
            assert(doomed.intersect(before.pending.dom()) =~= doomed);
        }
    }
}

} // verus!
