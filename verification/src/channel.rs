//! Channel ends, their ordering discipline, and their monotone handshake
//! states with terminal Closed.

use vstd::prelude::*;
use crate::identifiers::{ChannelId, ConnectionId, PortId};

verus! {

/// The handshake state of a channel end. Transitions only ever move
/// forward — Uninitialized, Init, TryOpen, Open — and Closed is terminal.
#[derive(Clone, Copy, PartialEq, Eq, Structural, Debug)]
pub enum ChannelState {
    Uninitialized,
    Init,
    TryOpen,
    Open,
    Closed,
}

/// The ordering discipline of packet delivery over a channel.
#[derive(Clone, Copy, PartialEq, Eq, Structural, Debug)]
pub enum Order {
    Unordered,
    Ordered,
}

/// Rank of a channel state in the forward order of the handshake;
/// Closed ranks above everything, as it can only come last.
pub open spec fn channel_state_rank(s: ChannelState) -> int {
    match s {
        ChannelState::Uninitialized => 0,
        ChannelState::Init => 1,
        ChannelState::TryOpen => 2,
        ChannelState::Open => 3,
        ChannelState::Closed => 4,
    }
}

/// `a` precedes or equals `b` in the forward order of the handshake.
pub open spec fn channel_state_le(a: ChannelState, b: ChannelState) -> bool {
    channel_state_rank(a) <= channel_state_rank(b)
}

/// One end of a channel: its handshake state and ordering, the port it is
/// bound to, the connection it runs over, the counterparty's identifiers,
/// and the application version string stand-in.
#[derive(Clone, Copy, PartialEq, Eq, Structural, Debug)]
pub struct ChannelEnd {
    pub state: ChannelState,
    pub ordering: Order,
    pub port_id: PortId,
    pub connection_id: ConnectionId,
    pub counterparty_port_id: PortId,
    pub counterparty_channel_id: Option<ChannelId>,
    pub version: u64,
}

/// The forward order on channel states is a partial order, and Closed is
/// its greatest element.
pub proof fn lemma_channel_state_order(a: ChannelState, b: ChannelState, c: ChannelState)
    ensures
        channel_state_le(a, a),
        channel_state_le(a, b) && channel_state_le(b, c) ==> channel_state_le(a, c),
        channel_state_le(a, b) && channel_state_le(b, a) ==> a == b,
        channel_state_le(ChannelState::Closed, a) ==> a == ChannelState::Closed,
{
}

} // verus!
