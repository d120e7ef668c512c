//! One SOCKS5 session.

use crate::error::ProxyError;
use crate::net::SocketAddress;
use crate::socks5::protocol::{
    parse_greeting_spec, parse_request_spec, RequestInfoView, BUFFER_SIZE, MAX_GREETING_SIZE,
    REQUEST_SCRATCH_SIZE,
};
use crate::socks5::state::ClientState;
use vstd::prelude::*;

verus! {

/// Which side of a session a token refers to.
#[derive(Copy, Clone, Debug, PartialEq, Eq, Structural)]
pub enum EndpointKind {
    Client,
    Target,
}

/// One SOCKS5 session. The two sockets themselves stay with the reactor,
/// which knows them by `client_token` and `target_token`.
#[derive(Debug)]
pub struct Connection {
    pub client_token: usize,
    pub client_addr: SocketAddress,
    /// Present from the moment the outbound connect has been started.
    pub target_token: Option<usize>,
    pub state: ClientState,
    /// Bytes of a greeting or request that is not whole yet.
    pub client_buf: Vec<u8>,
    /// Bytes read from the client and not yet written to the target.
    pub client_to_target: Vec<u8>,
    /// Bytes read from the target and not yet written to the client.
    pub target_to_client: Vec<u8>,
    pub client_closed: bool,
    pub target_closed: bool,
    /// `host:port` as asked for by the client.
    pub requested_endpoint: Option<String>,
}

/// Mathematical value of a [`Connection`].
pub struct ConnectionView {
    pub client_token: usize,
    pub client_addr: SocketAddress,
    pub target_token: Option<usize>,
    pub state: ClientState,
    pub client_buf: Seq<u8>,
    pub client_to_target: Seq<u8>,
    pub target_to_client: Seq<u8>,
    pub client_closed: bool,
    pub target_closed: bool,
    pub requested_endpoint: Option<Seq<char>>,
}

impl View for Connection {
    type V = ConnectionView;

    open spec fn view(&self) -> ConnectionView {
        ConnectionView {
            client_token: self.client_token,
            client_addr: self.client_addr,
            target_token: self.target_token,
            state: self.state,
            client_buf: self.client_buf@,
            client_to_target: self.client_to_target@,
            target_to_client: self.target_to_client@,
            client_closed: self.client_closed,
            target_closed: self.target_closed,
            requested_endpoint: match self.requested_endpoint {
                Some(s) => Some(s@),
                None => None,
            },
        }
    }
}

impl ConnectionView {
    /// A session as it is right after the client has been accepted.
    pub open spec fn fresh(client_token: usize, client_addr: SocketAddress) -> ConnectionView {
        ConnectionView {
            client_token,
            client_addr,
            target_token: None,
            state: ClientState::Handshake,
            client_buf: Seq::empty(),
            client_to_target: Seq::empty(),
            target_to_client: Seq::empty(),
            client_closed: false,
            target_closed: false,
            requested_endpoint: None,
        }
    }

    /// The session has nothing left to do for one of its directions: the
    /// client has closed and everything owed to it was delivered, or the
    /// target has closed and everything owed to it was delivered.
    pub open spec fn should_close(self) -> bool {
        (self.client_closed && self.target_to_client.len() == 0) || (self.target_closed
            && self.client_to_target.len() == 0)
    }

    /// The session has no target and nothing in its relay buffers, so an
    /// outbound connection can be started for it.
    pub open spec fn can_connect(self) -> bool {
        &&& self.target_token is None
        &&& self.client_to_target.len() == 0
        &&& self.target_to_client.len() == 0
        &&& !self.target_closed
    }

    /// Well-formedness of a session.
    ///
    /// - A target exists exactly in the states `Connecting` and `Tunneling`,
    ///   and its token differs from the client's.
    /// - The scratch buffer holds the start of a greeting in `Handshake`, the
    ///   start of a request in `Request`, never a whole frame, and is empty
    ///   afterwards.
    /// - Before a target exists the relay buffers are empty, and nothing is
    ///   taken from the client for the target before the tunnel is open.
    /// - No relay buffer exceeds its capacity.
    pub open spec fn wf(self) -> bool {
        &&& self.target_token is Some <==> (self.state == ClientState::Connecting || self.state
            == ClientState::Tunneling)
        &&& self.target_token != Some(self.client_token)
        &&& self.state == ClientState::Handshake ==> parse_greeting_spec(self.client_buf) == Ok::<
            bool,
            ProxyError,
        >(false)
        &&& self.state == ClientState::Request ==> parse_request_spec(self.client_buf) == Ok::<
            Option<RequestInfoView>,
            ProxyError,
        >(None)
        &&& (self.state != ClientState::Handshake && self.state != ClientState::Request)
            ==> self.client_buf.len() == 0
        &&& self.target_token is None ==> self.target_to_client.len() == 0 && !self.target_closed
        &&& self.state != ClientState::Tunneling ==> self.client_to_target.len() == 0
        &&& self.client_to_target.len() <= BUFFER_SIZE
        &&& self.target_to_client.len() <= BUFFER_SIZE
    }
}

/// A greeting that is not whole yet is shorter than the longest greeting.
pub proof fn lemma_partial_greeting_is_short(buf: Seq<u8>)
    requires
        parse_greeting_spec(buf) == Ok::<bool, ProxyError>(false),
    ensures
        buf.len() < MAX_GREETING_SIZE,
{
}

/// A request that is not whole yet leaves room in the scratch buffer.
pub proof fn lemma_partial_request_is_short(buf: Seq<u8>)
    requires
        parse_request_spec(buf) == Ok::<Option<RequestInfoView>, ProxyError>(None),
    ensures
        buf.len() < 262,
        buf.len() < REQUEST_SCRATCH_SIZE,
{
}

impl Connection {
    /// Well-formedness of the session; see [`ConnectionView::wf`].
    pub open spec fn wf(&self) -> bool {
        self@.wf()
    }

    /// A session for a client that has just been accepted and whose socket
    /// is registered under `client_token`.
    pub fn new(client_token: usize, client_addr: SocketAddress) -> (conn: Connection)
        ensures
            conn@ == ConnectionView::fresh(client_token, client_addr),
            conn.wf(),
    {
        Connection {
            client_token,
            client_addr,
            target_token: None,
            state: ClientState::Handshake,
            client_buf: Vec::new(),
            client_to_target: Vec::new(),
            target_to_client: Vec::new(),
            client_closed: false,
            target_closed: false,
            requested_endpoint: None,
        }
    }

    /// Whether the session is due for teardown under the half-close policy.
    pub fn should_close(&self) -> (r: bool)
        ensures
            r == self@.should_close(),
    {
        (self.client_closed && self.target_to_client.is_empty()) || (self.target_closed
            && self.client_to_target.is_empty())
    }
}

} // verus!
