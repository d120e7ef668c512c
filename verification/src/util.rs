//! Interest policy and teardown.

use crate::connection::{Connection, ConnectionView, EndpointKind};
use crate::event::{action_views, Action, ActionView, Interest};
use crate::socks5::state::ClientState;
use std::collections::HashMap;
use vstd::prelude::*;
use vstd::std_specs::iter::IteratorSpec;

verus! {

broadcast use vstd::std_specs::hash::group_hash_axioms;

/// The index from reactor tokens to the session and side they belong to.
pub type TokenMap = HashMap<usize, (usize, EndpointKind)>;

/// The readiness the client socket is to be watched for: always readable,
/// and writable exactly while something is owed to the client.
pub open spec fn client_interest(c: ConnectionView) -> Interest {
    Interest { readable: true, writable: c.target_to_client.len() > 0 }
}

/// The readiness the target socket is to be watched for: always readable,
/// and writable while the connect is in progress or something is owed to the
/// target.
pub open spec fn target_interest(c: ConnectionView) -> Interest {
    Interest {
        readable: true,
        writable: c.state == ClientState::Connecting || c.client_to_target.len() > 0,
    }
}

/// The registrations that put the interest policy into effect for a session:
/// one for the client, then one for the target if there is one.
pub open spec fn interest_updates(c: ConnectionView) -> Seq<ActionView> {
    let client = seq![
        ActionView::Reregister { token: c.client_token, interest: client_interest(c) },
    ];
    match c.target_token {
        Some(token) => client.push(
            ActionView::Reregister { token, interest: target_interest(c) },
        ),
        None => client,
    }
}

/// Appends to `actions` the registrations that the interest policy calls for.
pub fn update_interests(conn: &Connection, actions: &mut Vec<Action>)
    ensures
        action_views(final(actions)@) == action_views(old(actions)@) + interest_updates(conn@),
{
    let client = Action::Reregister {
        token: conn.client_token,
        interest: Interest { readable: true, writable: !conn.target_to_client.is_empty() },
    };
    actions.push(client);
    match conn.target_token {
        Some(token) => {
            let writable = match conn.state {
                ClientState::Connecting => true,
                _ => !conn.client_to_target.is_empty(),
            };
            let target = Action::Reregister {
                token,
                interest: Interest { readable: true, writable },
            };
            actions.push(target);
        },
        None => {},
    }
}

/// The tokens that the index maps to session `conn_id`.
pub open spec fn tokens_of(token_map: Map<usize, (usize, EndpointKind)>, conn_id: usize) -> Set<
    usize,
> {
    Set::new(|t: usize| token_map.contains_key(t) && token_map[t].0 == conn_id)
}

/// The operation that closes the sockets of a session.
pub open spec fn close_action(conn_id: usize, c: ConnectionView) -> ActionView {
    ActionView::Close { conn_id, client_token: c.client_token, target_token: c.target_token }
}

/// The tokens in the index, each once, in no particular order.
fn token_list(token_map: &TokenMap) -> (tokens: Vec<usize>)
    ensures
        tokens@.no_duplicates(),
        tokens@.to_set() == token_map@.dom(),
{
    let mut tokens: Vec<usize> = Vec::new();
    let ghost all: Seq<usize> = token_map.keys().remaining().unref();
    for token in it: token_map.keys()
        invariant
            it.seq().unref() == all,
            tokens@ == all.take(it.index() as int),
            all.no_duplicates(),
            all.to_set() == token_map@.dom(),
    {
        tokens.push(*token);
    }
    assert(tokens@ =~= all);
    tokens
}

/// Removes from the index every token that refers to session `conn_id`.
pub fn purge_tokens(conn_id: usize, token_map: &mut TokenMap)
    ensures
        final(token_map)@ == old(token_map)@.remove_keys(tokens_of(old(token_map)@, conn_id)),
{
    let tokens = token_list(token_map);
    let ghost before = token_map@;
    let ghost doomed = tokens_of(before, conn_id);
    let mut i: usize = 0;
    while i < tokens.len()
        invariant
            i <= tokens.len(),
            before == old(token_map)@,
            doomed == tokens_of(before, conn_id),
            tokens@.no_duplicates(),
            tokens@.to_set() == before.dom(),
            token_map@ == before.remove_keys(doomed.intersect(tokens@.take(i as int).to_set())),
        decreases tokens.len() - i,
    {
        let token = tokens[i];
        proof {
            let done = tokens@.take(i as int);
            assert(tokens@.take(i + 1) =~= done.push(token));
            done.lemma_push_to_set_commute(token);
            assert(!done.contains(token));
        }
        let refers = match token_map.get(&token) {
            Some(entry) => entry.0 == conn_id,
            None => false,
        };
        if refers {
            token_map.remove(&token);
        }
        i += 1;
    }
    assert(tokens@.take(i as int) =~= tokens@);
}

/// Tears a session down: takes it out of the table, purges the index of
/// every token that refers to it, and says which sockets to close. The index
/// is purged even when the table holds no such session.
pub fn cleanup_connection(
    conn_id: usize,
    connections: &mut HashMap<usize, Connection>,
    token_map: &mut TokenMap,
) -> (r: Option<Action>)
    ensures
        final(connections)@ == old(connections)@.remove(conn_id),
        final(token_map)@ == old(token_map)@.remove_keys(tokens_of(old(token_map)@, conn_id)),
        match r {
            Some(action) => old(connections)@.contains_key(conn_id) && action@ == close_action(
                conn_id,
                old(connections)@[conn_id]@,
            ),
            None => !old(connections)@.contains_key(conn_id),
        },
{
    let removed = connections.remove(&conn_id);
    purge_tokens(conn_id, token_map);
    match removed {
        Some(conn) => Some(
            Action::Close {
                conn_id,
                client_token: conn.client_token,
                target_token: conn.target_token,
            },
        ),
        None => None,
    }
}

} // verus!
