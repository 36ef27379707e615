//! Connection ends and their monotone handshake states.

use vstd::prelude::*;
use crate::identifiers::{ClientId, ConnectionId};

verus! {

/// The handshake state of a connection end. Transitions only ever move
/// forward: Uninitialized, then Init, then TryOpen, then Open.
#[derive(Clone, Copy, PartialEq, Eq, Structural, Debug)]
pub enum ConnectionState {
    Uninitialized,
    Init,
    TryOpen,
    Open,
}

/// Rank of a connection state in the forward order of the handshake.
pub open spec fn connection_state_rank(s: ConnectionState) -> int {
    match s {
        ConnectionState::Uninitialized => 0,
        ConnectionState::Init => 1,
        ConnectionState::TryOpen => 2,
        ConnectionState::Open => 3,
    }
}

/// `a` precedes or equals `b` in the forward order of the handshake.
pub open spec fn connection_state_le(a: ConnectionState, b: ConnectionState) -> bool {
    connection_state_rank(a) <= connection_state_rank(b)
}

/// One end of a connection: its handshake state, the local client it
/// verifies the counterparty through, the counterparty's identifiers, and
/// the negotiated version.
#[derive(Clone, Copy, PartialEq, Eq, Structural, Debug)]
pub struct ConnectionEnd {
    pub state: ConnectionState,
    pub client_id: ClientId,
    pub counterparty_client_id: ClientId,
    pub counterparty_connection_id: Option<ConnectionId>,
    pub version: u64,
}

/// The forward order on connection states is a partial order on ranks:
/// reflexive, transitive, antisymmetric.
pub proof fn lemma_connection_state_order(a: ConnectionState, b: ConnectionState, c: ConnectionState)
    ensures
        connection_state_le(a, a),
        connection_state_le(a, b) && connection_state_le(b, c) ==> connection_state_le(a, c),
        connection_state_le(a, b) && connection_state_le(b, a) ==> a == b,
{
}

} // verus!
