//! The vocabulary between the proxy core and the reactor that drives it:
//! what the reactor reports, and what the core asks it to do.

use crate::error::ProxyError;
use crate::net::SocketAddress;
use crate::socks5::protocol::{
    auth_frame, create_auth_response, create_refused_response, create_success_response,
    reply_frame, REP_CONN_REFUSED, REP_SUCCESS,
};
use vstd::prelude::*;

verus! {

/// The readiness a socket is registered for.
#[derive(Debug, Clone, Copy, PartialEq, Eq, Structural)]
pub struct Interest {
    pub readable: bool,
    pub writable: bool,
}

/// What the reactor reported for one token.
#[derive(Debug, Clone, Copy, PartialEq, Eq, Structural)]
pub struct Readiness {
    pub readable: bool,
    pub writable: bool,
    /// The socket signalled an error condition.
    pub error: bool,
}

/// How one read on a socket ended.
#[derive(Debug, PartialEq, Eq)]
pub enum ReadOutcome {
    /// The read returned zero bytes: the peer closed its sending direction.
    Eof,
    /// The read returned these bytes.
    Data(Vec<u8>),
    /// Nothing to read right now.
    WouldBlock,
    /// The read failed.
    Failed,
}

/// Mathematical value of a [`ReadOutcome`].
pub enum ReadOutcomeView {
    Eof,
    Data(Seq<u8>),
    WouldBlock,
    Failed,
}

impl View for ReadOutcome {
    type V = ReadOutcomeView;

    open spec fn view(&self) -> ReadOutcomeView {
        match *self {
            ReadOutcome::Eof => ReadOutcomeView::Eof,
            ReadOutcome::Data(d) => ReadOutcomeView::Data(d@),
            ReadOutcome::WouldBlock => ReadOutcomeView::WouldBlock,
            ReadOutcome::Failed => ReadOutcomeView::Failed,
        }
    }
}

impl ReadOutcomeView {
    /// Number of bytes the read delivered.
    pub open spec fn len(self) -> nat {
        match self {
            ReadOutcomeView::Data(d) => d.len(),
            _ => 0,
        }
    }
}

/// How one write on a socket ended.
#[derive(Debug, Clone, Copy, PartialEq, Eq, Structural)]
pub enum WriteOutcome {
    /// Nothing was owed to the socket, so no write was made.
    Idle,
    /// The socket took this many bytes from the head of what was offered.
    Written(usize),
    /// The socket cannot take anything right now.
    WouldBlock,
    /// The write failed.
    Failed,
}

/// One of the three fixed frames the proxy sends to a client.
#[derive(Debug, Clone, Copy, PartialEq, Eq, Structural)]
pub enum Reply {
    /// Answer to the greeting: no authentication required.
    Auth,
    /// The tunnel is established.
    Success,
    /// The request is refused.
    Refused,
}

impl Reply {
    /// The bytes of the frame.
    pub open spec fn frame(self) -> Seq<u8> {
        match self {
            Reply::Auth => auth_frame(),
            Reply::Success => reply_frame(REP_SUCCESS),
            Reply::Refused => reply_frame(REP_CONN_REFUSED),
        }
    }

    /// The bytes to put on the wire for this frame.
    pub fn bytes(self) -> (r: Vec<u8>)
        ensures
            r@ == self.frame(),
    {
        let mut out: Vec<u8> = Vec::new();
        match self {
            Reply::Auth => {
                let frame = create_auth_response();
                out.extend_from_slice(frame.as_slice());
            },
            Reply::Success => {
                let frame = create_success_response();
                out.extend_from_slice(frame.as_slice());
            },
            Reply::Refused => {
                let frame = create_refused_response();
                out.extend_from_slice(frame.as_slice());
            },
        }
        out
    }
}

/// An operation the reactor is asked to perform. Tokens name sockets.
#[derive(Debug, PartialEq, Eq)]
pub enum Action {
    /// Read once, at most `max_len` bytes, and report the outcome.
    Read { token: usize, max_len: usize },
    /// Write `bytes` once, tolerating a partial write, and report the outcome.
    Write { token: usize, bytes: Vec<u8> },
    /// Write the whole frame; report only a failure.
    Send { token: usize, reply: Reply },
    /// Start a non-blocking connect to `addr` and register the new socket
    /// under `token` for writable readiness; report only a connect that
    /// could not be started.
    Connect { token: usize, addr: SocketAddress },
    /// Change the readiness a registered socket is watched for; report only
    /// a failure.
    Reregister { token: usize, interest: Interest },
    /// Shut down the sending direction of a socket; the result is ignored.
    ShutdownWrite { token: usize },
    /// Send a datagram to the resolver; report only a failure.
    Query { query_id: u16, datagram: Vec<u8> },
    /// Deregister and close the sockets of a session that has ended.
    Close { conn_id: usize, client_token: usize, target_token: Option<usize> },
}

/// Mathematical value of an [`Action`].
pub enum ActionView {
    Read { token: usize, max_len: usize },
    Write { token: usize, bytes: Seq<u8> },
    Send { token: usize, reply: Reply },
    Connect { token: usize, addr: SocketAddress },
    Reregister { token: usize, interest: Interest },
    ShutdownWrite { token: usize },
    Query { query_id: u16, datagram: Seq<u8> },
    Close { conn_id: usize, client_token: usize, target_token: Option<usize> },
}

impl View for Action {
    type V = ActionView;

    open spec fn view(&self) -> ActionView {
        match *self {
            Action::Read { token, max_len } => ActionView::Read { token, max_len },
            Action::Write { token, bytes } => ActionView::Write { token, bytes: bytes@ },
            Action::Send { token, reply } => ActionView::Send { token, reply },
            Action::Connect { token, addr } => ActionView::Connect { token, addr },
            Action::Reregister { token, interest } => ActionView::Reregister { token, interest },
            Action::ShutdownWrite { token } => ActionView::ShutdownWrite { token },
            Action::Query { query_id, datagram } => ActionView::Query {
                query_id,
                datagram: datagram@,
            },
            Action::Close { conn_id, client_token, target_token } => ActionView::Close {
                conn_id,
                client_token,
                target_token,
            },
        }
    }
}

/// The values of a list of actions, in order.
pub open spec fn action_views(actions: Seq<Action>) -> Seq<ActionView> {
    actions.map_values(|a: Action| a@)
}

/// What handling one event of a session produced: operations to perform, in
/// order, and the failure, if any, that ends the session.
#[derive(Debug, PartialEq, Eq)]
pub struct Reaction {
    pub actions: Vec<Action>,
    pub error: Option<ProxyError>,
}

/// Mathematical value of a [`Reaction`].
pub struct ReactionView {
    pub actions: Seq<ActionView>,
    pub error: Option<ProxyError>,
}

impl View for Reaction {
    type V = ReactionView;

    open spec fn view(&self) -> ReactionView {
        ReactionView { actions: action_views(self.actions@), error: self.error }
    }
}

impl ReactionView {
    /// Nothing to do and nothing wrong.
    pub open spec fn idle() -> ReactionView {
        ReactionView { actions: Seq::empty(), error: None }
    }

    /// These operations, and the session goes on.
    pub open spec fn go(actions: Seq<ActionView>) -> ReactionView {
        ReactionView { actions, error: None }
    }

    /// These operations, and the session ends with `error`.
    pub open spec fn fail(actions: Seq<ActionView>, error: ProxyError) -> ReactionView {
        ReactionView { actions, error: Some(error) }
    }
}

impl Reaction {
    pub fn idle() -> (r: Reaction)
        ensures
            r@ == ReactionView::idle(),
    {
        let r = Reaction { actions: Vec::new(), error: None };
        assert(r@.actions =~= Seq::empty());
        r
    }

    pub fn one(action: Action) -> (r: Reaction)
        ensures
            r@ == ReactionView::go(seq![action@]),
    {
        let mut actions = Vec::new();
        actions.push(action);
        let r = Reaction { actions, error: None };
        assert(r@.actions =~= seq![action@]);
        r
    }

    pub fn fail(error: ProxyError) -> (r: Reaction)
        ensures
            r@ == ReactionView::fail(Seq::empty(), error),
    {
        let r = Reaction { actions: Vec::new(), error: Some(error) };
        assert(r@.actions =~= Seq::empty());
        r
    }

    pub fn fail_with(action: Action, error: ProxyError) -> (r: Reaction)
        ensures
            r@ == ReactionView::fail(seq![action@], error),
    {
        let mut actions = Vec::new();
        actions.push(action);
        let r = Reaction { actions, error: Some(error) };
        assert(r@.actions =~= seq![action@]);
        r
    }
}

} // verus!
