//! The protocol messages: one variant per handshake step, each carrying
//! the identifiers, proofs, proof heights and signer of the step, and the
//! outcome events a chain emits when a message is applied.

use vstd::prelude::*;
use crate::channel::Order;
use crate::client::{ClientState, ConsensusState, Header};
use crate::height::Height;
use crate::identifiers::{ChannelId, ClientId, ConnectionId, PortId, Signer};
use crate::commitment::CommitmentProof;

verus! {

/// Creates a light client of a counterparty from its current client state
/// and the consensus state at that client state's latest height.
#[derive(Clone, Copy, PartialEq, Eq, Structural, Debug)]
pub struct MsgCreateClient {
    pub client_state: ClientState,
    pub consensus_state: ConsensusState,
    pub signer: Signer,
}

/// Updates a client with a new header of the counterparty.
#[derive(Clone, Copy, PartialEq, Eq, Structural, Debug)]
pub struct MsgUpdateClient {
    pub client_id: ClientId,
    pub client_message: Header,
    pub signer: Signer,
}

/// Starts a connection handshake on the initiating chain.
#[derive(Clone, Copy, PartialEq, Eq, Structural, Debug)]
pub struct MsgConnectionOpenInit {
    pub client_id_on_a: ClientId,
    pub counterparty_client_id: ClientId,
    pub version: u64,
    pub signer: Signer,
}

/// Continues a connection handshake on the responding chain, proving the
/// initiator's connection end, client state, and recorded consensus state.
#[derive(Clone, Copy, PartialEq, Eq, Structural, Debug)]
pub struct MsgConnectionOpenTry {
    pub client_id_on_b: ClientId,
    pub counterparty_client_id: ClientId,
    pub counterparty_connection_id: ConnectionId,
    pub proof_conn_end_on_a: CommitmentProof,
    pub proof_client_state_of_b_on_a: CommitmentProof,
    pub proof_consensus_state_of_b_on_a: CommitmentProof,
    pub proofs_height_on_a: Height,
    pub consensus_height_of_b_on_a: Height,
    pub version: u64,
    pub signer: Signer,
}

/// Acknowledges the responder's TryOpen end on the initiating chain.
#[derive(Clone, Copy, PartialEq, Eq, Structural, Debug)]
pub struct MsgConnectionOpenAck {
    pub conn_id_on_a: ConnectionId,
    pub conn_id_on_b: ConnectionId,
    pub proof_conn_end_on_b: CommitmentProof,
    pub proof_client_state_of_a_on_b: CommitmentProof,
    pub proof_consensus_state_of_a_on_b: CommitmentProof,
    pub proofs_height_on_b: Height,
    pub consensus_height_of_a_on_b: Height,
    pub version: u64,
    pub signer: Signer,
}

/// Confirms the initiator's Open end on the responding chain.
#[derive(Clone, Copy, PartialEq, Eq, Structural, Debug)]
pub struct MsgConnectionOpenConfirm {
    pub conn_id_on_b: ConnectionId,
    pub proof_conn_end_on_a: CommitmentProof,
    pub proof_height_on_a: Height,
    pub signer: Signer,
}

/// Starts a channel handshake on the initiating chain.
#[derive(Clone, Copy, PartialEq, Eq, Structural, Debug)]
pub struct MsgChannelOpenInit {
    pub port_id_on_a: PortId,
    pub connection_hops_on_a: ConnectionId,
    pub port_id_on_b: PortId,
    pub ordering: Order,
    pub version_proposal: u64,
    pub signer: Signer,
}

/// Continues a channel handshake on the responding chain, proving the
/// initiator's channel end.
#[derive(Clone, Copy, PartialEq, Eq, Structural, Debug)]
pub struct MsgChannelOpenTry {
    pub port_id_on_b: PortId,
    pub connection_hops_on_b: ConnectionId,
    pub port_id_on_a: PortId,
    pub chan_id_on_a: ChannelId,
    pub proof_chan_end_on_a: CommitmentProof,
    pub proof_height_on_a: Height,
    pub ordering: Order,
    pub version_supported_on_a: u64,
    pub signer: Signer,
}

/// Acknowledges the responder's TryOpen channel end on the initiating chain.
#[derive(Clone, Copy, PartialEq, Eq, Structural, Debug)]
pub struct MsgChannelOpenAck {
    pub port_id_on_a: PortId,
    pub chan_id_on_a: ChannelId,
    pub chan_id_on_b: ChannelId,
    pub port_id_on_b: PortId,
    pub version_on_b: u64,
    pub proof_chan_end_on_b: CommitmentProof,
    pub proof_height_on_b: Height,
    pub signer: Signer,
}

/// Confirms the initiator's Open channel end on the responding chain.
#[derive(Clone, Copy, PartialEq, Eq, Structural, Debug)]
pub struct MsgChannelOpenConfirm {
    pub port_id_on_b: PortId,
    pub chan_id_on_b: ChannelId,
    pub proof_chan_end_on_a: CommitmentProof,
    pub proof_height_on_a: Height,
    pub signer: Signer,
}

/// Closes a channel end on the chain that initiates the close.
#[derive(Clone, Copy, PartialEq, Eq, Structural, Debug)]
pub struct MsgChannelCloseInit {
    pub port_id_on_a: PortId,
    pub chan_id_on_a: ChannelId,
    pub signer: Signer,
}

/// Closes the counterpart end, proving the initiator's Closed end.
#[derive(Clone, Copy, PartialEq, Eq, Structural, Debug)]
pub struct MsgChannelCloseConfirm {
    pub port_id_on_b: PortId,
    pub chan_id_on_b: ChannelId,
    pub proof_chan_end_on_a: CommitmentProof,
    pub proof_height_on_a: Height,
    pub signer: Signer,
}

/// The protocol message envelope: one variant per step.
#[derive(Clone, Copy, PartialEq, Eq, Structural, Debug)]
pub enum Msg {
    CreateClient(MsgCreateClient),
    UpdateClient(MsgUpdateClient),
    ConnectionOpenInit(MsgConnectionOpenInit),
    ConnectionOpenTry(MsgConnectionOpenTry),
    ConnectionOpenAck(MsgConnectionOpenAck),
    ConnectionOpenConfirm(MsgConnectionOpenConfirm),
    ChannelOpenInit(MsgChannelOpenInit),
    ChannelOpenTry(MsgChannelOpenTry),
    ChannelOpenAck(MsgChannelOpenAck),
    ChannelOpenConfirm(MsgChannelOpenConfirm),
    ChannelCloseInit(MsgChannelCloseInit),
    ChannelCloseConfirm(MsgChannelCloseConfirm),
}

/// The outcome of a successfully applied message: exactly one event per
/// message, carrying the identifiers the step assigned or confirmed.
#[derive(Clone, Copy, PartialEq, Eq, Structural, Debug)]
pub enum IbcEvent {
    CreateClient(ClientId),
    UpdateClient(ClientId),
    OpenInitConnection(ConnectionId),
    OpenTryConnection(ConnectionId),
    OpenAckConnection(ConnectionId),
    OpenConfirmConnection(ConnectionId),
    OpenInitChannel(ChannelId),
    OpenTryChannel(ChannelId),
    OpenAckChannel(ChannelId),
    OpenConfirmChannel(ChannelId),
    CloseInitChannel(ChannelId),
    CloseConfirmChannel(ChannelId),
}

} // verus!
