//! State paths, committed values and Merkle-proof stand-ins.
//!
//! A proof is always scoped to a `(Height, Path)` pair. Its cryptographic
//! content is out of scope here: the core only guarantees that a proof is
//! requested at the height the message declares, for the path the protocol
//! step prescribes, and that the verifying side consumes it only when its
//! light client already trusts that height.

use vstd::prelude::*;
use crate::channel::ChannelEnd;
use crate::client::{ClientState, ConsensusState};
use crate::connection::ConnectionEnd;
use crate::height::Height;
use crate::identifiers::{ChannelId, ClientId, ConnectionId, PortId};

verus! {

/// A canonical key identifying one committed value of a chain's store.
#[derive(Clone, Copy, PartialEq, Eq, Structural, Debug)]
pub enum Path {
    ClientState(ClientId),
    ClientConsensusState(ClientId, Height),
    Connection(ConnectionId),
    ChannelEnd(PortId, ChannelId),
}

/// A value committed at a path.
#[derive(Clone, Copy, PartialEq, Eq, Structural, Debug)]
pub enum CommittedValue {
    ClientState(ClientState),
    ConsensusState(ConsensusState),
    Connection(ConnectionEnd),
    Channel(ChannelEnd),
}

/// A proof of the value committed at `path` as of `height` on the proving
/// chain, opaque to the coordinator beyond being embeddable in a message.
#[derive(Clone, Copy, PartialEq, Eq, Structural, Debug)]
pub struct CommitmentProof {
    pub height: Height,
    pub path: Path,
    pub value: CommittedValue,
}

} // verus!
