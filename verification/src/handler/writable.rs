//! Reactions to a side of a session being ready for writing.

use crate::connection::{Connection, ConnectionView, EndpointKind};
use crate::error::ProxyError;
use crate::event::{Action, ActionView, Reaction, ReactionView, Reply, WriteOutcome};
use crate::handler::readable::{finish_step, with_interests};
use crate::socks5::state::ClientState;
use vstd::prelude::*;

verus! {

/// The bytes owed to a side of the session, if a write is due: while
/// tunneling, what the other side has sent and this side has not taken yet.
pub open spec fn pending_output_spec(c: ConnectionView, endpoint: EndpointKind) -> Option<
    Seq<u8>,
> {
    if c.state != ClientState::Tunneling {
        None
    } else {
        match endpoint {
            EndpointKind::Client => if c.target_to_client.len() > 0 {
                Some(c.target_to_client)
            } else {
                None
            },
            EndpointKind::Target => if c.target_token is Some && c.client_to_target.len() > 0 {
                Some(c.client_to_target)
            } else {
                None
            },
        }
    }
}

/// The write to ask for when a side of the session is writable.
pub open spec fn write_request_spec(c: ConnectionView, endpoint: EndpointKind) -> Option<
    ActionView,
> {
    match pending_output_spec(c, endpoint) {
        Some(bytes) => Some(
            ActionView::Write {
                token: match endpoint {
                    EndpointKind::Client => c.client_token,
                    EndpointKind::Target => c.target_token->Some_0,
                },
                bytes,
            },
        ),
        None => None,
    }
}

/// Whether `outcome` can be the outcome of the write that
/// [`write_request_spec`] asked for: a write took bytes only if some were
/// offered, and no more than were offered.
pub open spec fn write_fits(c: ConnectionView, endpoint: EndpointKind, outcome: WriteOutcome) -> bool {
    match outcome {
        WriteOutcome::Written(n) => match pending_output_spec(c, endpoint) {
            Some(bytes) => n <= bytes.len(),
            None => false,
        },
        _ => true,
    }
}

/// Client side. A failed write ends the session. While tunneling, the bytes
/// that the client took leave the head of the target-to-client buffer.
pub open spec fn client_writable_step(c: ConnectionView, outcome: WriteOutcome) -> (
    ConnectionView,
    ReactionView,
) {
    match outcome {
        WriteOutcome::Failed => (c, ReactionView::fail(Seq::empty(), ProxyError::Io)),
        WriteOutcome::Written(n) => if c.state == ClientState::Tunneling {
            (
                ConnectionView { target_to_client: c.target_to_client.skip(n as int), ..c },
                ReactionView::idle(),
            )
        } else {
            (c, ReactionView::idle())
        },
        _ => (c, ReactionView::idle()),
    }
}

/// Target side. A failed write ends the session. A target that becomes
/// writable while connecting is connected: the client is sent the success
/// reply and the tunnel is open. While tunneling, the bytes that the
/// target took leave the head of the client-to-target buffer.
pub open spec fn target_writable_step(c: ConnectionView, outcome: WriteOutcome) -> (
    ConnectionView,
    ReactionView,
) {
    match outcome {
        WriteOutcome::Failed => (c, ReactionView::fail(Seq::empty(), ProxyError::Io)),
        _ => match c.state {
            ClientState::Connecting => (
                ConnectionView { state: ClientState::Tunneling, ..c },
                ReactionView::go(
                    seq![ActionView::Send { token: c.client_token, reply: Reply::Success }],
                ),
            ),
            ClientState::Tunneling => match outcome {
                WriteOutcome::Written(n) => (
                    ConnectionView { client_to_target: c.client_to_target.skip(n as int), ..c },
                    ReactionView::idle(),
                ),
                _ => (c, ReactionView::idle()),
            },
            _ => (c, ReactionView::idle()),
        },
    }
}

/// What a side of the session being writable leads to, given the outcome of
/// the write that was made for it: the step of that side, then the interest
/// policy.
pub open spec fn writable_step(c: ConnectionView, endpoint: EndpointKind, outcome: WriteOutcome) -> (
    ConnectionView,
    ReactionView,
) {
    let (conn, reaction) = match endpoint {
        EndpointKind::Client => client_writable_step(c, outcome),
        EndpointKind::Target => target_writable_step(c, outcome),
    };
    (conn, with_interests(conn, reaction))
}

/// The write to ask for when `endpoint` of the session is writable, if one
/// is due.
pub fn write_request(conn: &Connection, endpoint: EndpointKind) -> (r: Option<Action>)
    ensures
        match r {
            Some(action) => Some(action@),
            None => None,
        } == write_request_spec(conn@, endpoint),
{
    match conn.state {
        ClientState::Tunneling => {},
        _ => {
            return None;
        },
    }
    match endpoint {
        EndpointKind::Client => {
            if conn.target_to_client.is_empty() {
                None
            } else {
                let bytes = conn.target_to_client.clone();
                Some(Action::Write { token: conn.client_token, bytes })
            }
        },
        EndpointKind::Target => match conn.target_token {
            Some(token) => {
                if conn.client_to_target.is_empty() {
                    None
                } else {
                    let bytes = conn.client_to_target.clone();
                    Some(Action::Write { token, bytes })
                }
            },
            None => None,
        },
    }
}

/// Handles the client being writable.
pub fn handle_client_writable(conn: &mut Connection, outcome: WriteOutcome) -> (r: Reaction)
    requires
        old(conn).wf(),
        write_fits(old(conn)@, EndpointKind::Client, outcome),
    ensures
        (final(conn)@, r@) == client_writable_step(old(conn)@, outcome),
        (r.error is None) ==> final(conn).wf(),
{
    match outcome {
        WriteOutcome::Failed => Reaction::fail(ProxyError::Io),
        WriteOutcome::Written(n) => {
            match conn.state {
                ClientState::Tunneling => {
                    let rest = conn.target_to_client.split_off(n);
                    conn.target_to_client = rest;
                },
                _ => {},
            }
            Reaction::idle()
        },
        _ => Reaction::idle(),
    }
}

/// Handles the target being writable.
pub fn handle_target_writable(conn: &mut Connection, outcome: WriteOutcome) -> (r: Reaction)
    requires
        old(conn).wf(),
        write_fits(old(conn)@, EndpointKind::Target, outcome),
    ensures
        (final(conn)@, r@) == target_writable_step(old(conn)@, outcome),
        (r.error is None) ==> final(conn).wf(),
{
    match outcome {
        WriteOutcome::Failed => {
            return Reaction::fail(ProxyError::Io);
        },
        _ => {},
    }
    match conn.state {
        ClientState::Connecting => {
            conn.state = ClientState::Tunneling;
            Reaction::one(Action::Send { token: conn.client_token, reply: Reply::Success })
        },
        ClientState::Tunneling => {
            match outcome {
                WriteOutcome::Written(n) => {
                    let rest = conn.client_to_target.split_off(n);
                    conn.client_to_target = rest;
                },
                _ => {},
            }
            Reaction::idle()
        },
        _ => Reaction::idle(),
    }
}

/// Handles `endpoint` of the session being writable, given the outcome of
/// the write that was made for it.
pub fn handle_writable(conn: &mut Connection, endpoint: EndpointKind, outcome: WriteOutcome) -> (r:
    Reaction)
    requires
        old(conn).wf(),
        write_fits(old(conn)@, endpoint, outcome),
    ensures
        (final(conn)@, r@) == writable_step(old(conn)@, endpoint, outcome),
        (r.error is None) ==> final(conn).wf(),
{
    let reaction = match endpoint {
        EndpointKind::Client => handle_client_writable(conn, outcome),
        EndpointKind::Target => handle_target_writable(conn, outcome),
    };
    finish_step(conn, reaction)
}

} // verus!
