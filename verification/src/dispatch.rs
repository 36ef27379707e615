//! Message dispatch: applying a protocol message to the receiving chain.
//!
//! For every message variant three spec-level notions are defined — the
//! referenced local store entries are *present*, the message is *valid*
//! against the store and the causal proof-height rules, and the *post*
//! relation describing the store after a successful application. `deliver`
//! is the single entry point: it applies the message, appends exactly one
//! outcome event, and commits a block, or fails leaving the chain
//! untouched.

use vstd::prelude::*;
use crate::chain::{Block, Chain, client_of, client_exists};
use crate::channel::{ChannelEnd, ChannelState, channel_state_le};
use crate::client::{Client, ClientState, ConsensusState, ConsensusStateRegistry, RegistryEntry};
use crate::commitment::{CommittedValue, Path};
use crate::connection::{ConnectionEnd, ConnectionState, connection_state_le};
use crate::errors::Error;
use crate::height::{Height, height_le, height_lt};
use crate::identifiers::{ChannelId, ClientId, ConnectionId, PortId};
use crate::message::{
    IbcEvent, Msg, MsgChannelCloseConfirm, MsgChannelCloseInit, MsgChannelOpenAck,
    MsgChannelOpenConfirm, MsgChannelOpenInit, MsgChannelOpenTry, MsgConnectionOpenAck,
    MsgConnectionOpenConfirm, MsgConnectionOpenInit, MsgConnectionOpenTry, MsgCreateClient,
    MsgUpdateClient,
};

verus! {

/// The connection end with identifier `id` on chain `c`.
pub open spec fn connection_at(c: Chain, id: ConnectionId) -> ConnectionEnd {
    c.connections@[id.0 as int]
}

/// A connection end with identifier `id` exists on chain `c`.
pub open spec fn connection_exists(c: Chain, id: ConnectionId) -> bool {
    id.0 < c.connections@.len()
}

/// The channel end with identifier `id` on chain `c`.
pub open spec fn channel_at(c: Chain, id: ChannelId) -> ChannelEnd {
    c.channels@[id.0 as int]
}

/// A channel end with identifier `id` bound to `port` exists on chain `c`.
pub open spec fn channel_exists(c: Chain, port: PortId, id: ChannelId) -> bool {
    id.0 < c.channels@.len() && c.channels@[id.0 as int].port_id == port
}

/// The host parameters, block history and event log of `post` are those of
/// `pre`: the store handlers touch neither.
pub open spec fn host_unchanged(pre: Chain, post: Chain) -> bool {
    &&& post.chain_id == pre.chain_id
    &&& post.block_time == pre.block_time
    &&& post.max_history_size == pre.max_history_size
    &&& post.latest_height == pre.latest_height
    &&& post.latest_timestamp == pre.latest_timestamp
    &&& post.blocks@ == pre.blocks@
    &&& post.events@ == pre.events@
}

// --- client messages ---

/// A client creation references nothing, so it is always applicable.
pub open spec fn create_client_present(c: Chain, m: MsgCreateClient) -> bool {
    true
}

/// The externally verified creation rules are opaque here: creation is
/// accepted as such.
pub open spec fn create_client_valid(c: Chain, m: MsgCreateClient) -> bool {
    true
}

/// A new client is appended: it trusts exactly the submitted client
/// state's latest height, with the submitted consensus state stored at
/// that height; nothing else changes.
pub open spec fn create_client_post(pre: Chain, m: MsgCreateClient, post: Chain) -> bool {
    &&& post.clients@.len() == pre.clients@.len() + 1
    &&& forall|i: int| 0 <= i < pre.clients@.len() ==> post.clients@[i] == pre.clients@[i]
    &&& post.clients@.last().client_state == m.client_state
    &&& post.clients@.last().registry.entries@ == seq![
        RegistryEntry { height: m.client_state.latest_height, state: m.consensus_state },
    ]
    &&& post.connections@ == pre.connections@
    &&& post.channels@ == pre.channels@
}

/// The updated client exists.
pub open spec fn update_client_present(c: Chain, m: MsgUpdateClient) -> bool {
    client_exists(c, m.client_id)
}

/// The update rule: the header must be newer than the latest trusted
/// height, and the header's trusted-height context must itself be a stored
/// consensus state.
pub open spec fn update_client_valid(c: Chain, m: MsgUpdateClient) -> bool {
    &&& height_lt(client_of(c, m.client_id).client_state.latest_height, m.client_message.height)
    &&& client_of(c, m.client_id).registry.contains_height(m.client_message.trusted_height)
}

/// The client's registry gains the header's consensus state at the
/// header's height, and the client state's latest height advances to it;
/// no other client and nothing else changes.
pub open spec fn update_client_post(pre: Chain, m: MsgUpdateClient, post: Chain) -> bool {
    &&& post.clients@.len() == pre.clients@.len()
    &&& forall|i: int|
        0 <= i < pre.clients@.len() && i != m.client_id.0 as int ==> post.clients@[i]
            == pre.clients@[i]
    &&& client_of(post, m.client_id).client_state.latest_height == m.client_message.height
    &&& client_of(post, m.client_id).registry.entries@ == client_of(
        pre,
        m.client_id,
    ).registry.entries@.push(
        RegistryEntry {
            height: m.client_message.height,
            state: ConsensusState {
                root: m.client_message.root,
                timestamp: m.client_message.timestamp,
            },
        },
    )
    &&& post.connections@ == pre.connections@
    &&& post.channels@ == pre.channels@
}

// --- connection handshake messages ---

/// The initiating client exists.
pub open spec fn conn_open_init_present(c: Chain, m: MsgConnectionOpenInit) -> bool {
    client_exists(c, m.client_id_on_a)
}

/// Nothing further constrains the first step: it consumes no proof.
pub open spec fn conn_open_init_valid(c: Chain, m: MsgConnectionOpenInit) -> bool {
    true
}

/// A fresh connection end in state Init is appended, remembering the local
/// client and the counterparty's client; the counterparty's connection is
/// not yet known.
pub open spec fn conn_open_init_post(pre: Chain, m: MsgConnectionOpenInit, post: Chain) -> bool {
    &&& post.clients@ == pre.clients@
    &&& post.channels@ == pre.channels@
    &&& post.connections@ == pre.connections@.push(
        ConnectionEnd {
            state: ConnectionState::Init,
            client_id: m.client_id_on_a,
            counterparty_client_id: m.counterparty_client_id,
            counterparty_connection_id: None,
            version: m.version,
        },
    )
}

/// The responding client exists.
pub open spec fn conn_open_try_present(c: Chain, m: MsgConnectionOpenTry) -> bool {
    client_exists(c, m.client_id_on_b)
}

/// The causal and proof rules of the second step: the local client for the
/// counterparty must already trust the proof height; each proof must be
/// scoped to that height at the prescribed path; the proven counterparty
/// connection end must be in Init and point back at the local client; the
/// proven client state must be at the claimed consensus height, which must
/// not lie beyond the local chain itself.
pub open spec fn conn_open_try_valid(c: Chain, m: MsgConnectionOpenTry) -> bool {
    &&& client_of(c, m.client_id_on_b).trusts(m.proofs_height_on_a)
    &&& m.proof_conn_end_on_a.height == m.proofs_height_on_a
    &&& m.proof_conn_end_on_a.path == Path::Connection(m.counterparty_connection_id)
    &&& match m.proof_conn_end_on_a.value {
        CommittedValue::Connection(ce) => {
            &&& ce.state == ConnectionState::Init
            &&& ce.counterparty_client_id == m.client_id_on_b
            &&& ce.client_id == m.counterparty_client_id
        },
        _ => false,
    }
    &&& m.proof_client_state_of_b_on_a.height == m.proofs_height_on_a
    &&& m.proof_client_state_of_b_on_a.path == Path::ClientState(m.counterparty_client_id)
    &&& match m.proof_client_state_of_b_on_a.value {
        CommittedValue::ClientState(cs) => cs.latest_height == m.consensus_height_of_b_on_a,
        _ => false,
    }
    &&& m.proof_consensus_state_of_b_on_a.height == m.proofs_height_on_a
    &&& m.proof_consensus_state_of_b_on_a.path == Path::ClientConsensusState(
        m.counterparty_client_id,
        m.consensus_height_of_b_on_a,
    )
    &&& m.proof_consensus_state_of_b_on_a.value is ConsensusState
    &&& height_le(m.consensus_height_of_b_on_a, c.latest_height)
}

/// A fresh connection end in state TryOpen is appended, now knowing both
/// sides' identifiers.
pub open spec fn conn_open_try_post(pre: Chain, m: MsgConnectionOpenTry, post: Chain) -> bool {
    &&& post.clients@ == pre.clients@
    &&& post.channels@ == pre.channels@
    &&& post.connections@ == pre.connections@.push(
        ConnectionEnd {
            state: ConnectionState::TryOpen,
            client_id: m.client_id_on_b,
            counterparty_client_id: m.counterparty_client_id,
            counterparty_connection_id: Some(m.counterparty_connection_id),
            version: m.version,
        },
    )
}

/// The acknowledged connection end exists.
pub open spec fn conn_open_ack_present(c: Chain, m: MsgConnectionOpenAck) -> bool {
    connection_exists(c, m.conn_id_on_a)
}

/// The third step: the local end must still be in Init; the local client
/// must trust the proof height; the proven counterparty end must be in
/// TryOpen and point back at this very connection and client; the proven
/// client state must be at the claimed consensus height, which must not
/// lie beyond the local chain itself.
pub open spec fn conn_open_ack_valid(c: Chain, m: MsgConnectionOpenAck) -> bool {
    let conn = connection_at(c, m.conn_id_on_a);
    &&& conn.state == ConnectionState::Init
    &&& client_of(c, conn.client_id).trusts(m.proofs_height_on_b)
    &&& m.proof_conn_end_on_b.height == m.proofs_height_on_b
    &&& m.proof_conn_end_on_b.path == Path::Connection(m.conn_id_on_b)
    &&& match m.proof_conn_end_on_b.value {
        CommittedValue::Connection(ce) => {
            &&& ce.state == ConnectionState::TryOpen
            &&& ce.counterparty_connection_id == Some(m.conn_id_on_a)
            &&& ce.counterparty_client_id == conn.client_id
            &&& ce.client_id == conn.counterparty_client_id
        },
        _ => false,
    }
    &&& m.proof_client_state_of_a_on_b.height == m.proofs_height_on_b
    &&& m.proof_client_state_of_a_on_b.path == Path::ClientState(conn.counterparty_client_id)
    &&& match m.proof_client_state_of_a_on_b.value {
        CommittedValue::ClientState(cs) => cs.latest_height == m.consensus_height_of_a_on_b,
        _ => false,
    }
    &&& m.proof_consensus_state_of_a_on_b.height == m.proofs_height_on_b
    &&& m.proof_consensus_state_of_a_on_b.path == Path::ClientConsensusState(
        conn.counterparty_client_id,
        m.consensus_height_of_a_on_b,
    )
    &&& m.proof_consensus_state_of_a_on_b.value is ConsensusState
    &&& height_le(m.consensus_height_of_a_on_b, c.latest_height)
}

/// The local end moves to Open and records the counterparty's connection
/// identifier and the negotiated version; everything else is untouched.
pub open spec fn conn_open_ack_post(pre: Chain, m: MsgConnectionOpenAck, post: Chain) -> bool {
    &&& post.clients@ == pre.clients@
    &&& post.channels@ == pre.channels@
    &&& post.connections@ == pre.connections@.update(
        m.conn_id_on_a.0 as int,
        ConnectionEnd {
            state: ConnectionState::Open,
            client_id: connection_at(pre, m.conn_id_on_a).client_id,
            counterparty_client_id: connection_at(pre, m.conn_id_on_a).counterparty_client_id,
            counterparty_connection_id: Some(m.conn_id_on_b),
            version: m.version,
        },
    )
}

/// The confirmed connection end exists.
pub open spec fn conn_open_confirm_present(c: Chain, m: MsgConnectionOpenConfirm) -> bool {
    connection_exists(c, m.conn_id_on_b)
}

/// The final step: the local end must be in TryOpen, the local client must
/// trust the proof height, and the proven counterparty end must be Open
/// and point back at this connection.
pub open spec fn conn_open_confirm_valid(c: Chain, m: MsgConnectionOpenConfirm) -> bool {
    let conn = connection_at(c, m.conn_id_on_b);
    &&& conn.state == ConnectionState::TryOpen
    &&& client_of(c, conn.client_id).trusts(m.proof_height_on_a)
    &&& m.proof_conn_end_on_a.height == m.proof_height_on_a
    &&& match conn.counterparty_connection_id {
        Some(cid) => m.proof_conn_end_on_a.path == Path::Connection(cid),
        None => false,
    }
    &&& match m.proof_conn_end_on_a.value {
        CommittedValue::Connection(ce) => {
            &&& ce.state == ConnectionState::Open
            &&& ce.counterparty_connection_id == Some(m.conn_id_on_b)
        },
        _ => false,
    }
}

/// The local end moves to Open; everything else is untouched.
pub open spec fn conn_open_confirm_post(
    pre: Chain,
    m: MsgConnectionOpenConfirm,
    post: Chain,
) -> bool {
    &&& post.clients@ == pre.clients@
    &&& post.channels@ == pre.channels@
    &&& post.connections@ == pre.connections@.update(
        m.conn_id_on_b.0 as int,
        ConnectionEnd {
            state: ConnectionState::Open,
            client_id: connection_at(pre, m.conn_id_on_b).client_id,
            counterparty_client_id: connection_at(pre, m.conn_id_on_b).counterparty_client_id,
            counterparty_connection_id: connection_at(
                pre,
                m.conn_id_on_b,
            ).counterparty_connection_id,
            version: connection_at(pre, m.conn_id_on_b).version,
        },
    )
}

// --- channel handshake messages ---

/// The connection the channel is to run over exists.
pub open spec fn chan_open_init_present(c: Chain, m: MsgChannelOpenInit) -> bool {
    connection_exists(c, m.connection_hops_on_a)
}

/// A channel handshake starts only over an Open connection.
pub open spec fn chan_open_init_valid(c: Chain, m: MsgChannelOpenInit) -> bool {
    connection_at(c, m.connection_hops_on_a).state == ConnectionState::Open
}

/// A fresh channel end in state Init is appended; the counterparty's
/// channel is not yet known.
pub open spec fn chan_open_init_post(pre: Chain, m: MsgChannelOpenInit, post: Chain) -> bool {
    &&& post.clients@ == pre.clients@
    &&& post.connections@ == pre.connections@
    &&& post.channels@ == pre.channels@.push(
        ChannelEnd {
            state: ChannelState::Init,
            ordering: m.ordering,
            port_id: m.port_id_on_a,
            connection_id: m.connection_hops_on_a,
            counterparty_port_id: m.port_id_on_b,
            counterparty_channel_id: None,
            version: m.version_proposal,
        },
    )
}

/// The connection the channel is to run over exists.
pub open spec fn chan_open_try_present(c: Chain, m: MsgChannelOpenTry) -> bool {
    connection_exists(c, m.connection_hops_on_b)
}

/// The second channel step: an Open connection, a trusted proof height,
/// and a proven counterparty end in Init with matching ordering and port.
pub open spec fn chan_open_try_valid(c: Chain, m: MsgChannelOpenTry) -> bool {
    let conn = connection_at(c, m.connection_hops_on_b);
    &&& conn.state == ConnectionState::Open
    &&& conn.client_id.0 < c.clients@.len()
    &&& client_of(c, conn.client_id).trusts(m.proof_height_on_a)
    &&& m.proof_chan_end_on_a.height == m.proof_height_on_a
    &&& m.proof_chan_end_on_a.path == Path::ChannelEnd(m.port_id_on_a, m.chan_id_on_a)
    &&& match m.proof_chan_end_on_a.value {
        CommittedValue::Channel(ce) => {
            &&& ce.state == ChannelState::Init
            &&& ce.ordering == m.ordering
            &&& ce.counterparty_port_id == m.port_id_on_b
        },
        _ => false,
    }
}

/// A fresh channel end in state TryOpen is appended, now knowing both
/// sides' identifiers.
pub open spec fn chan_open_try_post(pre: Chain, m: MsgChannelOpenTry, post: Chain) -> bool {
    &&& post.clients@ == pre.clients@
    &&& post.connections@ == pre.connections@
    &&& post.channels@ == pre.channels@.push(
        ChannelEnd {
            state: ChannelState::TryOpen,
            ordering: m.ordering,
            port_id: m.port_id_on_b,
            connection_id: m.connection_hops_on_b,
            counterparty_port_id: m.port_id_on_a,
            counterparty_channel_id: Some(m.chan_id_on_a),
            version: m.version_supported_on_a,
        },
    )
}

/// The acknowledged channel end exists at the given port.
pub open spec fn chan_open_ack_present(c: Chain, m: MsgChannelOpenAck) -> bool {
    channel_exists(c, m.port_id_on_a, m.chan_id_on_a)
}

/// The third channel step: the local end must still be in Init; the client
/// of its connection must trust the proof height; the proven counterparty
/// end must be in TryOpen and point back at this channel.
pub open spec fn chan_open_ack_valid(c: Chain, m: MsgChannelOpenAck) -> bool {
    let chan = channel_at(c, m.chan_id_on_a);
    let conn = connection_at(c, chan.connection_id);
    &&& chan.state == ChannelState::Init
    &&& conn.client_id.0 < c.clients@.len()
    &&& client_of(c, conn.client_id).trusts(m.proof_height_on_b)
    &&& m.proof_chan_end_on_b.height == m.proof_height_on_b
    &&& m.proof_chan_end_on_b.path == Path::ChannelEnd(m.port_id_on_b, m.chan_id_on_b)
    &&& match m.proof_chan_end_on_b.value {
        CommittedValue::Channel(ce) => {
            &&& ce.state == ChannelState::TryOpen
            &&& ce.counterparty_port_id == m.port_id_on_a
            &&& ce.counterparty_channel_id == Some(m.chan_id_on_a)
        },
        _ => false,
    }
}

/// The local end moves to Open and records the counterparty's channel
/// identifier and version; everything else is untouched.
pub open spec fn chan_open_ack_post(pre: Chain, m: MsgChannelOpenAck, post: Chain) -> bool {
    &&& post.clients@ == pre.clients@
    &&& post.connections@ == pre.connections@
    &&& post.channels@ == pre.channels@.update(
        m.chan_id_on_a.0 as int,
        ChannelEnd {
            state: ChannelState::Open,
            ordering: channel_at(pre, m.chan_id_on_a).ordering,
            port_id: channel_at(pre, m.chan_id_on_a).port_id,
            connection_id: channel_at(pre, m.chan_id_on_a).connection_id,
            counterparty_port_id: channel_at(pre, m.chan_id_on_a).counterparty_port_id,
            counterparty_channel_id: Some(m.chan_id_on_b),
            version: m.version_on_b,
        },
    )
}

/// The confirmed channel end exists at the given port.
pub open spec fn chan_open_confirm_present(c: Chain, m: MsgChannelOpenConfirm) -> bool {
    channel_exists(c, m.port_id_on_b, m.chan_id_on_b)
}

/// The final channel step: the local end must be in TryOpen, the client of
/// its connection must trust the proof height, and the proven counterparty
/// end must be Open and point back at this channel.
pub open spec fn chan_open_confirm_valid(c: Chain, m: MsgChannelOpenConfirm) -> bool {
    let chan = channel_at(c, m.chan_id_on_b);
    let conn = connection_at(c, chan.connection_id);
    &&& chan.state == ChannelState::TryOpen
    &&& conn.client_id.0 < c.clients@.len()
    &&& client_of(c, conn.client_id).trusts(m.proof_height_on_a)
    &&& m.proof_chan_end_on_a.height == m.proof_height_on_a
    &&& match chan.counterparty_channel_id {
        Some(cid) => m.proof_chan_end_on_a.path == Path::ChannelEnd(
            chan.counterparty_port_id,
            cid,
        ),
        None => false,
    }
    &&& match m.proof_chan_end_on_a.value {
        CommittedValue::Channel(ce) => {
            &&& ce.state == ChannelState::Open
            &&& ce.counterparty_channel_id == Some(m.chan_id_on_b)
        },
        _ => false,
    }
}

/// The local end moves to Open; everything else is untouched.
pub open spec fn chan_open_confirm_post(pre: Chain, m: MsgChannelOpenConfirm, post: Chain) -> bool {
    &&& post.clients@ == pre.clients@
    &&& post.connections@ == pre.connections@
    &&& post.channels@ == pre.channels@.update(
        m.chan_id_on_b.0 as int,
        ChannelEnd {
            state: ChannelState::Open,
            ordering: channel_at(pre, m.chan_id_on_b).ordering,
            port_id: channel_at(pre, m.chan_id_on_b).port_id,
            connection_id: channel_at(pre, m.chan_id_on_b).connection_id,
            counterparty_port_id: channel_at(pre, m.chan_id_on_b).counterparty_port_id,
            counterparty_channel_id: channel_at(pre, m.chan_id_on_b).counterparty_channel_id,
            version: channel_at(pre, m.chan_id_on_b).version,
        },
    )
}

/// The closed channel end exists at the given port.
pub open spec fn chan_close_init_present(c: Chain, m: MsgChannelCloseInit) -> bool {
    channel_exists(c, m.port_id_on_a, m.chan_id_on_a)
}

/// Only an Open channel can start a close.
pub open spec fn chan_close_init_valid(c: Chain, m: MsgChannelCloseInit) -> bool {
    channel_at(c, m.chan_id_on_a).state == ChannelState::Open
}

/// The local end moves to Closed; everything else is untouched.
pub open spec fn chan_close_init_post(pre: Chain, m: MsgChannelCloseInit, post: Chain) -> bool {
    &&& post.clients@ == pre.clients@
    &&& post.connections@ == pre.connections@
    &&& post.channels@ == pre.channels@.update(
        m.chan_id_on_a.0 as int,
        ChannelEnd {
            state: ChannelState::Closed,
            ordering: channel_at(pre, m.chan_id_on_a).ordering,
            port_id: channel_at(pre, m.chan_id_on_a).port_id,
            connection_id: channel_at(pre, m.chan_id_on_a).connection_id,
            counterparty_port_id: channel_at(pre, m.chan_id_on_a).counterparty_port_id,
            counterparty_channel_id: channel_at(pre, m.chan_id_on_a).counterparty_channel_id,
            version: channel_at(pre, m.chan_id_on_a).version,
        },
    )
}

/// The closed channel end exists at the given port.
pub open spec fn chan_close_confirm_present(c: Chain, m: MsgChannelCloseConfirm) -> bool {
    channel_exists(c, m.port_id_on_b, m.chan_id_on_b)
}

/// The confirming side closes only an Open channel, with a trusted proof
/// that the counterparty's end — this channel's counterparty — is Closed.
pub open spec fn chan_close_confirm_valid(c: Chain, m: MsgChannelCloseConfirm) -> bool {
    let chan = channel_at(c, m.chan_id_on_b);
    let conn = connection_at(c, chan.connection_id);
    &&& chan.state == ChannelState::Open
    &&& conn.client_id.0 < c.clients@.len()
    &&& client_of(c, conn.client_id).trusts(m.proof_height_on_a)
    &&& m.proof_chan_end_on_a.height == m.proof_height_on_a
    &&& match chan.counterparty_channel_id {
        Some(cid) => m.proof_chan_end_on_a.path == Path::ChannelEnd(
            chan.counterparty_port_id,
            cid,
        ),
        None => false,
    }
    &&& match m.proof_chan_end_on_a.value {
        CommittedValue::Channel(ce) => {
            &&& ce.state == ChannelState::Closed
            &&& ce.counterparty_channel_id == Some(m.chan_id_on_b)
        },
        _ => false,
    }
}

/// The local end moves to Closed; everything else is untouched.
pub open spec fn chan_close_confirm_post(
    pre: Chain,
    m: MsgChannelCloseConfirm,
    post: Chain,
) -> bool {
    &&& post.clients@ == pre.clients@
    &&& post.connections@ == pre.connections@
    &&& post.channels@ == pre.channels@.update(
        m.chan_id_on_b.0 as int,
        ChannelEnd {
            state: ChannelState::Closed,
            ordering: channel_at(pre, m.chan_id_on_b).ordering,
            port_id: channel_at(pre, m.chan_id_on_b).port_id,
            connection_id: channel_at(pre, m.chan_id_on_b).connection_id,
            counterparty_port_id: channel_at(pre, m.chan_id_on_b).counterparty_port_id,
            counterparty_channel_id: channel_at(pre, m.chan_id_on_b).counterparty_channel_id,
            version: channel_at(pre, m.chan_id_on_b).version,
        },
    )
}

// --- the message-level summary used by `deliver` ---

/// The store entries a message references all exist.
pub open spec fn msg_present(c: Chain, msg: Msg) -> bool {
    match msg {
        Msg::CreateClient(m) => create_client_present(c, m),
        Msg::UpdateClient(m) => update_client_present(c, m),
        Msg::ConnectionOpenInit(m) => conn_open_init_present(c, m),
        Msg::ConnectionOpenTry(m) => conn_open_try_present(c, m),
        Msg::ConnectionOpenAck(m) => conn_open_ack_present(c, m),
        Msg::ConnectionOpenConfirm(m) => conn_open_confirm_present(c, m),
        Msg::ChannelOpenInit(m) => chan_open_init_present(c, m),
        Msg::ChannelOpenTry(m) => chan_open_try_present(c, m),
        Msg::ChannelOpenAck(m) => chan_open_ack_present(c, m),
        Msg::ChannelOpenConfirm(m) => chan_open_confirm_present(c, m),
        Msg::ChannelCloseInit(m) => chan_close_init_present(c, m),
        Msg::ChannelCloseConfirm(m) => chan_close_confirm_present(c, m),
    }
}

/// A present message also passes its step's state and proof-height rules.
pub open spec fn msg_valid(c: Chain, msg: Msg) -> bool {
    match msg {
        Msg::CreateClient(m) => create_client_valid(c, m),
        Msg::UpdateClient(m) => update_client_valid(c, m),
        Msg::ConnectionOpenInit(m) => conn_open_init_valid(c, m),
        Msg::ConnectionOpenTry(m) => conn_open_try_valid(c, m),
        Msg::ConnectionOpenAck(m) => conn_open_ack_valid(c, m),
        Msg::ConnectionOpenConfirm(m) => conn_open_confirm_valid(c, m),
        Msg::ChannelOpenInit(m) => chan_open_init_valid(c, m),
        Msg::ChannelOpenTry(m) => chan_open_try_valid(c, m),
        Msg::ChannelOpenAck(m) => chan_open_ack_valid(c, m),
        Msg::ChannelOpenConfirm(m) => chan_open_confirm_valid(c, m),
        Msg::ChannelCloseInit(m) => chan_close_init_valid(c, m),
        Msg::ChannelCloseConfirm(m) => chan_close_confirm_valid(c, m),
    }
}

/// A message is applied exactly when it is present and valid.
pub open spec fn msg_enabled(c: Chain, msg: Msg) -> bool {
    msg_present(c, msg) && msg_valid(c, msg)
}

/// The error a rejected message reports: `NotFound` when a referenced
/// entry is missing, `ValidationFailure` when a rule rejects it.
pub open spec fn msg_error(c: Chain, msg: Msg) -> Error {
    if !msg_present(c, msg) {
        Error::NotFound
    } else {
        Error::ValidationFailure
    }
}

/// The one event a successfully applied message emits.
pub open spec fn msg_event(c: Chain, msg: Msg) -> IbcEvent {
    match msg {
        Msg::CreateClient(_) => IbcEvent::CreateClient(ClientId(c.clients@.len() as u64)),
        Msg::UpdateClient(m) => IbcEvent::UpdateClient(m.client_id),
        Msg::ConnectionOpenInit(_) => IbcEvent::OpenInitConnection(
            ConnectionId(c.connections@.len() as u64),
        ),
        Msg::ConnectionOpenTry(_) => IbcEvent::OpenTryConnection(
            ConnectionId(c.connections@.len() as u64),
        ),
        Msg::ConnectionOpenAck(m) => IbcEvent::OpenAckConnection(m.conn_id_on_a),
        Msg::ConnectionOpenConfirm(m) => IbcEvent::OpenConfirmConnection(m.conn_id_on_b),
        Msg::ChannelOpenInit(_) => IbcEvent::OpenInitChannel(ChannelId(c.channels@.len() as u64)),
        Msg::ChannelOpenTry(_) => IbcEvent::OpenTryChannel(ChannelId(c.channels@.len() as u64)),
        Msg::ChannelOpenAck(m) => IbcEvent::OpenAckChannel(m.chan_id_on_a),
        Msg::ChannelOpenConfirm(m) => IbcEvent::OpenConfirmChannel(m.chan_id_on_b),
        Msg::ChannelCloseInit(m) => IbcEvent::CloseInitChannel(m.chan_id_on_a),
        Msg::ChannelCloseConfirm(m) => IbcEvent::CloseConfirmChannel(m.chan_id_on_b),
    }
}

/// How the store of `post` relates to the store of `pre` after a
/// successful application of `msg`.
pub open spec fn msg_post(pre: Chain, msg: Msg, post: Chain) -> bool {
    match msg {
        Msg::CreateClient(m) => create_client_post(pre, m, post),
        Msg::UpdateClient(m) => update_client_post(pre, m, post),
        Msg::ConnectionOpenInit(m) => conn_open_init_post(pre, m, post),
        Msg::ConnectionOpenTry(m) => conn_open_try_post(pre, m, post),
        Msg::ConnectionOpenAck(m) => conn_open_ack_post(pre, m, post),
        Msg::ConnectionOpenConfirm(m) => conn_open_confirm_post(pre, m, post),
        Msg::ChannelOpenInit(m) => chan_open_init_post(pre, m, post),
        Msg::ChannelOpenTry(m) => chan_open_try_post(pre, m, post),
        Msg::ChannelOpenAck(m) => chan_open_ack_post(pre, m, post),
        Msg::ChannelOpenConfirm(m) => chan_open_confirm_post(pre, m, post),
        Msg::ChannelCloseInit(m) => chan_close_init_post(pre, m, post),
        Msg::ChannelCloseConfirm(m) => chan_close_confirm_post(pre, m, post),
    }
}

/// Causal rejection: a proof-consuming handshake step whose proof height
/// exceeds the height the verifying chain's client currently trusts is
/// never applied — `deliver` then fails, and the chain is unchanged.
pub proof fn lemma_causal_proof_rejected(c: Chain, msg: Msg)
    requires
        match msg {
            Msg::ConnectionOpenTry(m) => !client_of(c, m.client_id_on_b).trusts(
                m.proofs_height_on_a,
            ),
            Msg::ConnectionOpenAck(m) => conn_open_ack_present(c, m) && !client_of(
                c,
                connection_at(c, m.conn_id_on_a).client_id,
            ).trusts(m.proofs_height_on_b),
            Msg::ConnectionOpenConfirm(m) => conn_open_confirm_present(c, m) && !client_of(
                c,
                connection_at(c, m.conn_id_on_b).client_id,
            ).trusts(m.proof_height_on_a),
            Msg::ChannelOpenTry(m) => !client_of(
                c,
                connection_at(c, m.connection_hops_on_b).client_id,
            ).trusts(m.proof_height_on_a),
            Msg::ChannelOpenAck(m) => !client_of(
                c,
                connection_at(c, channel_at(c, m.chan_id_on_a).connection_id).client_id,
            ).trusts(m.proof_height_on_b),
            Msg::ChannelOpenConfirm(m) => !client_of(
                c,
                connection_at(c, channel_at(c, m.chan_id_on_b).connection_id).client_id,
            ).trusts(m.proof_height_on_a),
            Msg::ChannelCloseConfirm(m) => !client_of(
                c,
                connection_at(c, channel_at(c, m.chan_id_on_b).connection_id).client_id,
            ).trusts(m.proof_height_on_a),
            _ => false,
        },
    ensures
        !msg_enabled(c, msg),
{
}

impl Chain {
    /// Applies a client creation. Always succeeds.
    fn handle_create_client(&mut self, m: MsgCreateClient) -> (r: Result<IbcEvent, Error>)
        requires
            old(self).well_formed(),
        ensures
            final(self).well_formed(),
            host_unchanged(*old(self), *final(self)),
            r == Ok::<IbcEvent, Error>(
                IbcEvent::CreateClient(ClientId(old(self).clients@.len() as u64)),
            ),
            create_client_post(*old(self), m, *final(self)),
    {
        let id = ClientId(self.clients.len() as u64);
        let registry = ConsensusStateRegistry::new(m.client_state.latest_height, m.consensus_state);
        self.clients.push(Client { client_state: m.client_state, registry });
        Ok(IbcEvent::CreateClient(id))
    }

    /// Applies a client update under the update rule.
    fn handle_update_client(&mut self, m: MsgUpdateClient) -> (r: Result<IbcEvent, Error>)
        requires
            old(self).well_formed(),
        ensures
            final(self).well_formed(),
            host_unchanged(*old(self), *final(self)),
            r is Ok <==> update_client_present(*old(self), m) && update_client_valid(*old(self), m),
            match r {
                Ok(ev) => update_client_post(*old(self), m, *final(self)) && ev
                    == IbcEvent::UpdateClient(m.client_id),
                Err(e) => *final(self) == *old(self) && e == (
                    if !update_client_present(*old(self), m) {
                        Error::NotFound
                    } else {
                        Error::ValidationFailure
                    }
                ),
            },
    {
        if !(m.client_id.0 < self.clients.len() as u64) {
            return Err(Error::NotFound);
        }
        let idx = m.client_id.0 as usize;
        let latest = self.clients[idx].client_state.latest_height;
        if !latest.lt(&m.client_message.height) {
            return Err(Error::ValidationFailure);
        }
        let has_trusted = match self.clients[idx].registry.consensus_state(
            m.client_message.trusted_height,
        ) {
            Ok(_) => true,
            Err(_) => false,
        };
        if !has_trusted {
            return Err(Error::ValidationFailure);
        }
        let mut cl = self.clients.remove(idx);
        proof {
            let entries = cl.registry.entries@;
            assert forall|i: int| 0 <= i < entries.len() implies height_lt(
                (#[trigger] entries[i]).height,
                m.client_message.height,
            ) by {
                if i < entries.len() - 1 {
                    assert(height_lt(entries[i].height, entries[entries.len() - 1].height));
                }
            }
        }
        cl.registry.insert_latest(
            m.client_message.height,
            ConsensusState { root: m.client_message.root, timestamp: m.client_message.timestamp },
        );
        cl.client_state = ClientState { latest_height: m.client_message.height };
        let ghost cl_val = cl;
        self.clients.insert(idx, cl);
        proof {
            assert(self.clients@ =~= old(self).clients@.update(idx as int, cl_val));
        }
        Ok(IbcEvent::UpdateClient(m.client_id))
    }

    /// Applies the first connection-handshake step.
    fn handle_conn_open_init(&mut self, m: MsgConnectionOpenInit) -> (r: Result<IbcEvent, Error>)
        requires
            old(self).well_formed(),
        ensures
            final(self).well_formed(),
            host_unchanged(*old(self), *final(self)),
            r is Ok <==> conn_open_init_present(*old(self), m),
            match r {
                Ok(ev) => conn_open_init_post(*old(self), m, *final(self)) && ev
                    == IbcEvent::OpenInitConnection(
                    ConnectionId(old(self).connections@.len() as u64),
                ),
                Err(e) => *final(self) == *old(self) && e == Error::NotFound,
            },
    {
        if !(m.client_id_on_a.0 < self.clients.len() as u64) {
            return Err(Error::NotFound);
        }
        let id = ConnectionId(self.connections.len() as u64);
        self.connections.push(
            ConnectionEnd {
                state: ConnectionState::Init,
                client_id: m.client_id_on_a,
                counterparty_client_id: m.counterparty_client_id,
                counterparty_connection_id: None,
                version: m.version,
            },
        );
        Ok(IbcEvent::OpenInitConnection(id))
    }

    /// Applies the second connection-handshake step.
    fn handle_conn_open_try(&mut self, m: MsgConnectionOpenTry) -> (r: Result<IbcEvent, Error>)
        requires
            old(self).well_formed(),
        ensures
            final(self).well_formed(),
            host_unchanged(*old(self), *final(self)),
            r is Ok <==> conn_open_try_present(*old(self), m) && conn_open_try_valid(
                *old(self),
                m,
            ),
            match r {
                Ok(ev) => conn_open_try_post(*old(self), m, *final(self)) && ev
                    == IbcEvent::OpenTryConnection(
                    ConnectionId(old(self).connections@.len() as u64),
                ),
                Err(e) => *final(self) == *old(self) && e == (
                    if !conn_open_try_present(*old(self), m) {
                        Error::NotFound
                    } else {
                        Error::ValidationFailure
                    }
                ),
            },
    {
        if !(m.client_id_on_b.0 < self.clients.len() as u64) {
            return Err(Error::NotFound);
        }
        let cl_latest = self.clients[m.client_id_on_b.0 as usize].client_state.latest_height;
        let conn_value_ok = match m.proof_conn_end_on_a.value {
            CommittedValue::Connection(ce) => ce.state == ConnectionState::Init
                && ce.counterparty_client_id == m.client_id_on_b && ce.client_id
                == m.counterparty_client_id,
            _ => false,
        };
        let client_value_ok = match m.proof_client_state_of_b_on_a.value {
            CommittedValue::ClientState(cs) => cs.latest_height == m.consensus_height_of_b_on_a,
            _ => false,
        };
        let consensus_value_ok = match m.proof_consensus_state_of_b_on_a.value {
            CommittedValue::ConsensusState(_) => true,
            _ => false,
        };
        let ok = m.proofs_height_on_a.le(&cl_latest) && m.proof_conn_end_on_a.height
            == m.proofs_height_on_a && m.proof_conn_end_on_a.path == Path::Connection(
            m.counterparty_connection_id,
        ) && conn_value_ok && m.proof_client_state_of_b_on_a.height == m.proofs_height_on_a
            && m.proof_client_state_of_b_on_a.path == Path::ClientState(m.counterparty_client_id)
            && client_value_ok && m.proof_consensus_state_of_b_on_a.height == m.proofs_height_on_a
            && m.proof_consensus_state_of_b_on_a.path == Path::ClientConsensusState(
            m.counterparty_client_id,
            m.consensus_height_of_b_on_a,
        ) && consensus_value_ok && m.consensus_height_of_b_on_a.le(&self.latest_height);
        if !ok {
            return Err(Error::ValidationFailure);
        }
        let id = ConnectionId(self.connections.len() as u64);
        self.connections.push(
            ConnectionEnd {
                state: ConnectionState::TryOpen,
                client_id: m.client_id_on_b,
                counterparty_client_id: m.counterparty_client_id,
                counterparty_connection_id: Some(m.counterparty_connection_id),
                version: m.version,
            },
        );
        Ok(IbcEvent::OpenTryConnection(id))
    }

    /// Applies the third connection-handshake step.
    fn handle_conn_open_ack(&mut self, m: MsgConnectionOpenAck) -> (r: Result<IbcEvent, Error>)
        requires
            old(self).well_formed(),
        ensures
            final(self).well_formed(),
            host_unchanged(*old(self), *final(self)),
            r is Ok <==> conn_open_ack_present(*old(self), m) && conn_open_ack_valid(
                *old(self),
                m,
            ),
            match r {
                Ok(ev) => conn_open_ack_post(*old(self), m, *final(self)) && ev
                    == IbcEvent::OpenAckConnection(m.conn_id_on_a),
                Err(e) => *final(self) == *old(self) && e == (
                    if !conn_open_ack_present(*old(self), m) {
                        Error::NotFound
                    } else {
                        Error::ValidationFailure
                    }
                ),
            },
    {
        if !(m.conn_id_on_a.0 < self.connections.len() as u64) {
            return Err(Error::NotFound);
        }
        let idx = m.conn_id_on_a.0 as usize;
        let conn = self.connections[idx];
        assert(conn.client_id.0 < self.clients.len() as u64);
        let cl_latest = self.clients[conn.client_id.0 as usize].client_state.latest_height;
        let conn_value_ok = match m.proof_conn_end_on_b.value {
            CommittedValue::Connection(ce) => ce.state == ConnectionState::TryOpen && (
            match ce.counterparty_connection_id {
                Some(cid) => cid == m.conn_id_on_a,
                None => false,
            }) && ce.counterparty_client_id == conn.client_id && ce.client_id
                == conn.counterparty_client_id,
            _ => false,
        };
        let client_value_ok = match m.proof_client_state_of_a_on_b.value {
            CommittedValue::ClientState(cs) => cs.latest_height == m.consensus_height_of_a_on_b,
            _ => false,
        };
        let consensus_value_ok = match m.proof_consensus_state_of_a_on_b.value {
            CommittedValue::ConsensusState(_) => true,
            _ => false,
        };
        let ok = conn.state == ConnectionState::Init && m.proofs_height_on_b.le(&cl_latest)
            && m.proof_conn_end_on_b.height == m.proofs_height_on_b && m.proof_conn_end_on_b.path
            == Path::Connection(m.conn_id_on_b) && conn_value_ok
            && m.proof_client_state_of_a_on_b.height == m.proofs_height_on_b
            && m.proof_client_state_of_a_on_b.path == Path::ClientState(
            conn.counterparty_client_id,
        ) && client_value_ok && m.proof_consensus_state_of_a_on_b.height == m.proofs_height_on_b
            && m.proof_consensus_state_of_a_on_b.path == Path::ClientConsensusState(
            conn.counterparty_client_id,
            m.consensus_height_of_a_on_b,
        ) && consensus_value_ok && m.consensus_height_of_a_on_b.le(&self.latest_height);
        if !ok {
            return Err(Error::ValidationFailure);
        }
        self.connections[idx] = ConnectionEnd {
            state: ConnectionState::Open,
            client_id: conn.client_id,
            counterparty_client_id: conn.counterparty_client_id,
            counterparty_connection_id: Some(m.conn_id_on_b),
            version: m.version,
        };
        Ok(IbcEvent::OpenAckConnection(m.conn_id_on_a))
    }

    /// Applies the final connection-handshake step.
    fn handle_conn_open_confirm(&mut self, m: MsgConnectionOpenConfirm) -> (r: Result<
        IbcEvent,
        Error,
    >)
        requires
            old(self).well_formed(),
        ensures
            final(self).well_formed(),
            host_unchanged(*old(self), *final(self)),
            r is Ok <==> conn_open_confirm_present(*old(self), m) && conn_open_confirm_valid(
                *old(self),
                m,
            ),
            match r {
                Ok(ev) => conn_open_confirm_post(*old(self), m, *final(self)) && ev
                    == IbcEvent::OpenConfirmConnection(m.conn_id_on_b),
                Err(e) => *final(self) == *old(self) && e == (
                    if !conn_open_confirm_present(*old(self), m) {
                        Error::NotFound
                    } else {
                        Error::ValidationFailure
                    }
                ),
            },
    {
        if !(m.conn_id_on_b.0 < self.connections.len() as u64) {
            return Err(Error::NotFound);
        }
        let idx = m.conn_id_on_b.0 as usize;
        let conn = self.connections[idx];
        assert(conn.client_id.0 < self.clients.len() as u64);
        let cl_latest = self.clients[conn.client_id.0 as usize].client_state.latest_height;
        let path_ok = match conn.counterparty_connection_id {
            Some(cid) => m.proof_conn_end_on_a.path == Path::Connection(cid),
            None => false,
        };
        let value_ok = match m.proof_conn_end_on_a.value {
            CommittedValue::Connection(ce) => ce.state == ConnectionState::Open && (
            match ce.counterparty_connection_id {
                Some(cid) => cid == m.conn_id_on_b,
                None => false,
            }),
            _ => false,
        };
        let ok = conn.state == ConnectionState::TryOpen && m.proof_height_on_a.le(&cl_latest)
            && m.proof_conn_end_on_a.height == m.proof_height_on_a && path_ok && value_ok;
        if !ok {
            return Err(Error::ValidationFailure);
        }
        self.connections[idx] = ConnectionEnd {
            state: ConnectionState::Open,
            client_id: conn.client_id,
            counterparty_client_id: conn.counterparty_client_id,
            counterparty_connection_id: conn.counterparty_connection_id,
            version: conn.version,
        };
        Ok(IbcEvent::OpenConfirmConnection(m.conn_id_on_b))
    }

    /// Applies the first channel-handshake step.
    fn handle_chan_open_init(&mut self, m: MsgChannelOpenInit) -> (r: Result<IbcEvent, Error>)
        requires
            old(self).well_formed(),
        ensures
            final(self).well_formed(),
            host_unchanged(*old(self), *final(self)),
            r is Ok <==> chan_open_init_present(*old(self), m) && chan_open_init_valid(
                *old(self),
                m,
            ),
            match r {
                Ok(ev) => chan_open_init_post(*old(self), m, *final(self)) && ev
                    == IbcEvent::OpenInitChannel(ChannelId(old(self).channels@.len() as u64)),
                Err(e) => *final(self) == *old(self) && e == (
                    if !chan_open_init_present(*old(self), m) {
                        Error::NotFound
                    } else {
                        Error::ValidationFailure
                    }
                ),
            },
    {
        if !(m.connection_hops_on_a.0 < self.connections.len() as u64) {
            return Err(Error::NotFound);
        }
        if !(self.connections[m.connection_hops_on_a.0 as usize].state
            == ConnectionState::Open) {
            return Err(Error::ValidationFailure);
        }
        let id = ChannelId(self.channels.len() as u64);
        self.channels.push(
            ChannelEnd {
                state: ChannelState::Init,
                ordering: m.ordering,
                port_id: m.port_id_on_a,
                connection_id: m.connection_hops_on_a,
                counterparty_port_id: m.port_id_on_b,
                counterparty_channel_id: None,
                version: m.version_proposal,
            },
        );
        Ok(IbcEvent::OpenInitChannel(id))
    }

    /// Applies the second channel-handshake step.
    fn handle_chan_open_try(&mut self, m: MsgChannelOpenTry) -> (r: Result<IbcEvent, Error>)
        requires
            old(self).well_formed(),
        ensures
            final(self).well_formed(),
            host_unchanged(*old(self), *final(self)),
            r is Ok <==> chan_open_try_present(*old(self), m) && chan_open_try_valid(
                *old(self),
                m,
            ),
            match r {
                Ok(ev) => chan_open_try_post(*old(self), m, *final(self)) && ev
                    == IbcEvent::OpenTryChannel(ChannelId(old(self).channels@.len() as u64)),
                Err(e) => *final(self) == *old(self) && e == (
                    if !chan_open_try_present(*old(self), m) {
                        Error::NotFound
                    } else {
                        Error::ValidationFailure
                    }
                ),
            },
    {
        if !(m.connection_hops_on_b.0 < self.connections.len() as u64) {
            return Err(Error::NotFound);
        }
        let conn = self.connections[m.connection_hops_on_b.0 as usize];
        assert(conn.client_id.0 < self.clients.len() as u64);
        let cl_latest = self.clients[conn.client_id.0 as usize].client_state.latest_height;
        let value_ok = match m.proof_chan_end_on_a.value {
            CommittedValue::Channel(ce) => ce.state == ChannelState::Init && ce.ordering
                == m.ordering && ce.counterparty_port_id == m.port_id_on_b,
            _ => false,
        };
        let ok = conn.state == ConnectionState::Open && m.proof_height_on_a.le(&cl_latest)
            && m.proof_chan_end_on_a.height == m.proof_height_on_a && m.proof_chan_end_on_a.path
            == Path::ChannelEnd(m.port_id_on_a, m.chan_id_on_a) && value_ok;
        if !ok {
            return Err(Error::ValidationFailure);
        }
        let id = ChannelId(self.channels.len() as u64);
        self.channels.push(
            ChannelEnd {
                state: ChannelState::TryOpen,
                ordering: m.ordering,
                port_id: m.port_id_on_b,
                connection_id: m.connection_hops_on_b,
                counterparty_port_id: m.port_id_on_a,
                counterparty_channel_id: Some(m.chan_id_on_a),
                version: m.version_supported_on_a,
            },
        );
        Ok(IbcEvent::OpenTryChannel(id))
    }

    /// Applies the third channel-handshake step.
    fn handle_chan_open_ack(&mut self, m: MsgChannelOpenAck) -> (r: Result<IbcEvent, Error>)
        requires
            old(self).well_formed(),
        ensures
            final(self).well_formed(),
            host_unchanged(*old(self), *final(self)),
            r is Ok <==> chan_open_ack_present(*old(self), m) && chan_open_ack_valid(
                *old(self),
                m,
            ),
            match r {
                Ok(ev) => chan_open_ack_post(*old(self), m, *final(self)) && ev
                    == IbcEvent::OpenAckChannel(m.chan_id_on_a),
                Err(e) => *final(self) == *old(self) && e == (
                    if !chan_open_ack_present(*old(self), m) {
                        Error::NotFound
                    } else {
                        Error::ValidationFailure
                    }
                ),
            },
    {
        if !(m.chan_id_on_a.0 < self.channels.len() as u64) {
            return Err(Error::NotFound);
        }
        let idx = m.chan_id_on_a.0 as usize;
        let chan = self.channels[idx];
        if !(chan.port_id == m.port_id_on_a) {
            return Err(Error::NotFound);
        }
        assert(chan.connection_id.0 < self.connections.len() as u64);
        let conn = self.connections[chan.connection_id.0 as usize];
        assert(conn.client_id.0 < self.clients.len() as u64);
        let cl_latest = self.clients[conn.client_id.0 as usize].client_state.latest_height;
        let value_ok = match m.proof_chan_end_on_b.value {
            CommittedValue::Channel(ce) => ce.state == ChannelState::TryOpen
                && ce.counterparty_port_id == m.port_id_on_a && (
            match ce.counterparty_channel_id {
                Some(cid) => cid == m.chan_id_on_a,
                None => false,
            }),
            _ => false,
        };
        let ok = chan.state == ChannelState::Init && m.proof_height_on_b.le(&cl_latest)
            && m.proof_chan_end_on_b.height == m.proof_height_on_b && m.proof_chan_end_on_b.path
            == Path::ChannelEnd(m.port_id_on_b, m.chan_id_on_b) && value_ok;
        if !ok {
            return Err(Error::ValidationFailure);
        }
        self.channels[idx] = ChannelEnd {
            state: ChannelState::Open,
            ordering: chan.ordering,
            port_id: chan.port_id,
            connection_id: chan.connection_id,
            counterparty_port_id: chan.counterparty_port_id,
            counterparty_channel_id: Some(m.chan_id_on_b),
            version: m.version_on_b,
        };
        Ok(IbcEvent::OpenAckChannel(m.chan_id_on_a))
    }

    /// Applies the final channel-handshake step.
    fn handle_chan_open_confirm(&mut self, m: MsgChannelOpenConfirm) -> (r: Result<
        IbcEvent,
        Error,
    >)
        requires
            old(self).well_formed(),
        ensures
            final(self).well_formed(),
            host_unchanged(*old(self), *final(self)),
            r is Ok <==> chan_open_confirm_present(*old(self), m) && chan_open_confirm_valid(
                *old(self),
                m,
            ),
            match r {
                Ok(ev) => chan_open_confirm_post(*old(self), m, *final(self)) && ev
                    == IbcEvent::OpenConfirmChannel(m.chan_id_on_b),
                Err(e) => *final(self) == *old(self) && e == (
                    if !chan_open_confirm_present(*old(self), m) {
                        Error::NotFound
                    } else {
                        Error::ValidationFailure
                    }
                ),
            },
    {
        if !(m.chan_id_on_b.0 < self.channels.len() as u64) {
            return Err(Error::NotFound);
        }
        let idx = m.chan_id_on_b.0 as usize;
        let chan = self.channels[idx];
        if !(chan.port_id == m.port_id_on_b) {
            return Err(Error::NotFound);
        }
        assert(chan.connection_id.0 < self.connections.len() as u64);
        let conn = self.connections[chan.connection_id.0 as usize];
        assert(conn.client_id.0 < self.clients.len() as u64);
        let cl_latest = self.clients[conn.client_id.0 as usize].client_state.latest_height;
        let path_ok = match chan.counterparty_channel_id {
            Some(cid) => m.proof_chan_end_on_a.path == Path::ChannelEnd(
                chan.counterparty_port_id,
                cid,
            ),
            None => false,
        };
        let value_ok = match m.proof_chan_end_on_a.value {
            CommittedValue::Channel(ce) => ce.state == ChannelState::Open && (
            match ce.counterparty_channel_id {
                Some(cid) => cid == m.chan_id_on_b,
                None => false,
            }),
            _ => false,
        };
        let ok = chan.state == ChannelState::TryOpen && m.proof_height_on_a.le(&cl_latest)
            && m.proof_chan_end_on_a.height == m.proof_height_on_a && path_ok && value_ok;
        if !ok {
            return Err(Error::ValidationFailure);
        }
        self.channels[idx] = ChannelEnd {
            state: ChannelState::Open,
            ordering: chan.ordering,
            port_id: chan.port_id,
            connection_id: chan.connection_id,
            counterparty_port_id: chan.counterparty_port_id,
            counterparty_channel_id: chan.counterparty_channel_id,
            version: chan.version,
        };
        Ok(IbcEvent::OpenConfirmChannel(m.chan_id_on_b))
    }

    /// Applies the first step of a channel close.
    fn handle_chan_close_init(&mut self, m: MsgChannelCloseInit) -> (r: Result<IbcEvent, Error>)
        requires
            old(self).well_formed(),
        ensures
            final(self).well_formed(),
            host_unchanged(*old(self), *final(self)),
            r is Ok <==> chan_close_init_present(*old(self), m) && chan_close_init_valid(
                *old(self),
                m,
            ),
            match r {
                Ok(ev) => chan_close_init_post(*old(self), m, *final(self)) && ev
                    == IbcEvent::CloseInitChannel(m.chan_id_on_a),
                Err(e) => *final(self) == *old(self) && e == (
                    if !chan_close_init_present(*old(self), m) {
                        Error::NotFound
                    } else {
                        Error::ValidationFailure
                    }
                ),
            },
    {
        if !(m.chan_id_on_a.0 < self.channels.len() as u64) {
            return Err(Error::NotFound);
        }
        let idx = m.chan_id_on_a.0 as usize;
        let chan = self.channels[idx];
        if !(chan.port_id == m.port_id_on_a) {
            return Err(Error::NotFound);
        }
        if !(chan.state == ChannelState::Open) {
            return Err(Error::ValidationFailure);
        }
        self.channels[idx] = ChannelEnd {
            state: ChannelState::Closed,
            ordering: chan.ordering,
            port_id: chan.port_id,
            connection_id: chan.connection_id,
            counterparty_port_id: chan.counterparty_port_id,
            counterparty_channel_id: chan.counterparty_channel_id,
            version: chan.version,
        };
        Ok(IbcEvent::CloseInitChannel(m.chan_id_on_a))
    }

    /// Applies the second step of a channel close.
    fn handle_chan_close_confirm(&mut self, m: MsgChannelCloseConfirm) -> (r: Result<
        IbcEvent,
        Error,
    >)
        requires
            old(self).well_formed(),
        ensures
            final(self).well_formed(),
            host_unchanged(*old(self), *final(self)),
            r is Ok <==> chan_close_confirm_present(*old(self), m) && chan_close_confirm_valid(
                *old(self),
                m,
            ),
            match r {
                Ok(ev) => chan_close_confirm_post(*old(self), m, *final(self)) && ev
                    == IbcEvent::CloseConfirmChannel(m.chan_id_on_b),
                Err(e) => *final(self) == *old(self) && e == (
                    if !chan_close_confirm_present(*old(self), m) {
                        Error::NotFound
                    } else {
                        Error::ValidationFailure
                    }
                ),
            },
    {
        if !(m.chan_id_on_b.0 < self.channels.len() as u64) {
            return Err(Error::NotFound);
        }
        let idx = m.chan_id_on_b.0 as usize;
        let chan = self.channels[idx];
        if !(chan.port_id == m.port_id_on_b) {
            return Err(Error::NotFound);
        }
        assert(chan.connection_id.0 < self.connections.len() as u64);
        let conn = self.connections[chan.connection_id.0 as usize];
        assert(conn.client_id.0 < self.clients.len() as u64);
        let cl_latest = self.clients[conn.client_id.0 as usize].client_state.latest_height;
        let path_ok = match chan.counterparty_channel_id {
            Some(cid) => m.proof_chan_end_on_a.path == Path::ChannelEnd(
                chan.counterparty_port_id,
                cid,
            ),
            None => false,
        };
        let value_ok = match m.proof_chan_end_on_a.value {
            CommittedValue::Channel(ce) => ce.state == ChannelState::Closed && (
            match ce.counterparty_channel_id {
                Some(cid) => cid == m.chan_id_on_b,
                None => false,
            }),
            _ => false,
        };
        let ok = chan.state == ChannelState::Open && m.proof_height_on_a.le(&cl_latest)
            && m.proof_chan_end_on_a.height == m.proof_height_on_a && path_ok && value_ok;
        if !ok {
            return Err(Error::ValidationFailure);
        }
        self.channels[idx] = ChannelEnd {
            state: ChannelState::Closed,
            ordering: chan.ordering,
            port_id: chan.port_id,
            connection_id: chan.connection_id,
            counterparty_port_id: chan.counterparty_port_id,
            counterparty_channel_id: chan.counterparty_channel_id,
            version: chan.version,
        };
        Ok(IbcEvent::CloseConfirmChannel(m.chan_id_on_b))
    }

    /// Applies one protocol message. On success the store is transformed
    /// as the step prescribes, exactly one outcome event is appended to the
    /// event log, and one block is committed; on failure the chain is left
    /// exactly as it was, with `NotFound` for a missing store entry and
    /// `ValidationFailure` for a violated state or proof-height rule.
    /// Connection and channel states never move backward, and a Closed
    /// channel stays Closed.
    pub fn deliver(&mut self, msg: Msg) -> (r: Result<IbcEvent, Error>)
        requires
            old(self).well_formed(),
            old(self).latest_height.revision_height < u64::MAX,
            old(self).latest_timestamp + old(self).block_time <= u64::MAX,
        ensures
            final(self).well_formed(),
            final(self).chain_id == old(self).chain_id,
            final(self).block_time == old(self).block_time,
            final(self).max_history_size == old(self).max_history_size,
            r is Ok <==> msg_enabled(*old(self), msg),
            match r {
                Ok(ev) => {
                    &&& ev == msg_event(*old(self), msg)
                    &&& msg_post(*old(self), msg, *final(self))
                    &&& final(self).latest_height.revision_number == old(
                        self,
                    ).latest_height.revision_number
                    &&& final(self).latest_height.revision_height == old(
                        self,
                    ).latest_height.revision_height + 1
                    &&& final(self).latest_timestamp == old(self).latest_timestamp + old(
                        self,
                    ).block_time
                    &&& final(self).blocks@ == old(self).blocks@.push(
                        Block {
                            height: final(self).latest_height,
                            timestamp: final(self).latest_timestamp,
                            root: final(self).latest_height.revision_height,
                        },
                    )
                    &&& final(self).events@ == old(self).events@.push(ev)
                },
                Err(e) => *final(self) == *old(self) && e == msg_error(*old(self), msg),
            },
            final(self).connections@.len() >= old(self).connections@.len(),
            forall|i: int|
                0 <= i < old(self).connections@.len() ==> connection_state_le(
                    old(self).connections@[i].state,
                    final(self).connections@[i].state,
                ),
            final(self).channels@.len() >= old(self).channels@.len(),
            forall|i: int|
                0 <= i < old(self).channels@.len() ==> channel_state_le(
                    old(self).channels@[i].state,
                    final(self).channels@[i].state,
                ),
            forall|i: int|
                0 <= i < old(self).channels@.len() && old(self).channels@[i].state
                    == ChannelState::Closed ==> final(self).channels@[i].state
                    == ChannelState::Closed,
    {
        let res = match msg {
            Msg::CreateClient(m) => self.handle_create_client(m),
            Msg::UpdateClient(m) => self.handle_update_client(m),
            Msg::ConnectionOpenInit(m) => self.handle_conn_open_init(m),
            Msg::ConnectionOpenTry(m) => self.handle_conn_open_try(m),
            Msg::ConnectionOpenAck(m) => self.handle_conn_open_ack(m),
            Msg::ConnectionOpenConfirm(m) => self.handle_conn_open_confirm(m),
            Msg::ChannelOpenInit(m) => self.handle_chan_open_init(m),
            Msg::ChannelOpenTry(m) => self.handle_chan_open_try(m),
            Msg::ChannelOpenAck(m) => self.handle_chan_open_ack(m),
            Msg::ChannelOpenConfirm(m) => self.handle_chan_open_confirm(m),
            Msg::ChannelCloseInit(m) => self.handle_chan_close_init(m),
            Msg::ChannelCloseConfirm(m) => self.handle_chan_close_confirm(m),
        };
        match res {
            Ok(ev) => {
                self.events.push(ev);
                self.advance_block();
                Ok(ev)
            },
            Err(e) => Err(e),
        }
    }
}

} // verus!
