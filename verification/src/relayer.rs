//! The handshake coordinator: relayer steps between a pair of chains.
//!
//! All functions run one direction, from the chain called `a` to the chain
//! called `b`; for the opposite direction the same functions are called
//! with the two chains swapped. Every proof-consuming step gathers its
//! proofs at the current latest height of the source chain, builds the
//! message, dispatches it to the destination chain and matches the one
//! resulting event; a dispatch failure or an unexpected event is a fatal
//! `ProtocolViolation` naming the step, and nothing is retried.

use vstd::prelude::*;
use crate::chain::{Chain, client_of, client_exists};
use crate::channel::{ChannelState, Order};
use crate::client::{ClientState, Header};
use crate::commitment::Path;
use crate::connection::ConnectionState;
use crate::dispatch::{channel_at, channel_exists, connection_at, connection_exists};
use crate::errors::{Error, Step};
use crate::height::{Height, height_le, height_lt};
use crate::identifiers::{ChannelId, ClientId, ConnectionId, PortId, Signer};
use crate::message::{
    IbcEvent, Msg, MsgChannelCloseConfirm, MsgChannelCloseInit, MsgChannelOpenAck,
    MsgChannelOpenConfirm, MsgChannelOpenInit, MsgChannelOpenTry, MsgConnectionOpenAck,
    MsgConnectionOpenConfirm, MsgConnectionOpenInit, MsgConnectionOpenTry, MsgCreateClient,
    MsgUpdateClient,
};

verus! {

/// The default connection version offered and negotiated.
pub const DEFAULT_CONNECTION_VERSION: u64 = 1;

/// The empty channel version: version negotiation is passed through opaque.
pub const EMPTY_CHANNEL_VERSION: u64 = 0;

/// The later of the two chains' timestamps.
pub open spec fn max_ts(a: Chain, b: Chain) -> int {
    if a.latest_timestamp >= b.latest_timestamp {
        a.latest_timestamp as int
    } else {
        b.latest_timestamp as int
    }
}

/// How far the two chains' clocks are apart.
pub open spec fn ts_gap(a: Chain, b: Chain) -> int {
    if a.latest_timestamp >= b.latest_timestamp {
        a.latest_timestamp - b.latest_timestamp
    } else {
        b.latest_timestamp - a.latest_timestamp
    }
}

/// The larger of the two chains' block times.
pub open spec fn max_bt(a: Chain, b: Chain) -> int {
    if a.block_time >= b.block_time {
        a.block_time as int
    } else {
        b.block_time as int
    }
}

/// `post` is the same chain as `pre`, some blocks later: identity and
/// clock parameters are unchanged, history has only been appended to, and
/// height and timestamp have not moved backward.
pub open spec fn same_chain(pre: Chain, post: Chain) -> bool {
    &&& post.chain_id == pre.chain_id
    &&& post.block_time == pre.block_time
    &&& post.max_history_size == pre.max_history_size
    &&& post.blocks@.len() >= pre.blocks@.len()
    &&& post.blocks@[0] == pre.blocks@[0]
    &&& post.latest_height.revision_number == pre.latest_height.revision_number
    &&& post.latest_height.revision_height >= pre.latest_height.revision_height
    &&& post.latest_timestamp >= pre.latest_timestamp
}

/// The store of `post` is exactly the store of `pre`: no client,
/// connection end or channel end was touched.
pub open spec fn store_unchanged(pre: Chain, post: Chain) -> bool {
    &&& post.clients@ == pre.clients@
    &&& post.connections@ == pre.connections@
    &&& post.channels@ == pre.channels@
}

/// On a well-formed chain the latest height carries the chain's own
/// revision number.
pub proof fn lemma_latest_height_revision(c: Chain)
    requires
        c.well_formed(),
    ensures
        c.latest_height.revision_number == c.chain_id.revision_number,
{
    assert(c.blocks@[c.blocks@.len() - 1].height.revision_number == c.chain_id.revision_number);
    assert(c.latest_height == c.blocks@.last().height);
}

/// A well-formed chain holds a block at its own latest height.
pub proof fn lemma_own_latest_has_block(c: Chain)
    requires
        c.well_formed(),
    ensures
        c.has_block(c.latest_height),
{
    lemma_latest_height_revision(c);
    assert(c.blocks@[c.blocks@.len() - 1].height.revision_height
        == c.blocks@[0].height.revision_height + c.blocks@.len() - 1);
    assert(c.latest_height == c.blocks@.last().height);
}

/// A chain that has only appended blocks still holds every block it held.
pub proof fn lemma_has_block_preserved(pre: Chain, post: Chain, h: Height)
    requires
        pre.has_block(h),
        same_chain(pre, post),
    ensures
        post.has_block(h),
{
}

/// Implements relayer methods for a pair of chains. All methods run in one
/// direction, from `a` to `b`; for the opposite direction the same methods
/// are called with the two chains swapped.
pub struct TypedRelayer;

impl TypedRelayer {
    /// Creates on chain `a` a light client of chain `b`, from `b`'s
    /// current client state and its consensus state at `b`'s latest
    /// height. The new client trusts exactly `b`'s latest height.
    pub fn create_client_on_a(ctx_a: &mut Chain, ctx_b: &Chain, signer: Signer) -> (r: ClientId)
        requires
            old(ctx_a).well_formed(),
            ctx_b.well_formed(),
            old(ctx_a).latest_height.revision_height < u64::MAX,
            old(ctx_a).latest_timestamp + old(ctx_a).block_time <= u64::MAX,
        ensures
            final(ctx_a).well_formed(),
            same_chain(*old(ctx_a), *final(ctx_a)),
            r == (ClientId(old(ctx_a).clients@.len() as u64)),
            client_exists(*final(ctx_a), r),
            client_of(*final(ctx_a), r).client_state.latest_height == ctx_b.latest_height,
            client_of(*final(ctx_a), r).registry.entries@ =~= seq![
                crate::client::RegistryEntry {
                    height: ctx_b.latest_height,
                    state: crate::client::ConsensusState {
                        root: ctx_b.blocks@.last().root,
                        timestamp: ctx_b.latest_timestamp,
                    },
                },
            ],
            final(ctx_a).clients@.len() == old(ctx_a).clients@.len() + 1,
            forall|i: int|
                0 <= i < old(ctx_a).clients@.len() ==> final(ctx_a).clients@[i] == old(
                    ctx_a,
                ).clients@[i],
            final(ctx_a).connections@ == old(ctx_a).connections@,
            final(ctx_a).channels@ == old(ctx_a).channels@,
            final(ctx_a).latest_height.revision_height == old(
                ctx_a,
            ).latest_height.revision_height + 1,
            final(ctx_a).latest_timestamp == old(ctx_a).latest_timestamp + old(ctx_a).block_time,
            final(ctx_a).events@ == old(ctx_a).events@.push(IbcEvent::CreateClient(r)),
            ctx_b.has_block(client_of(*final(ctx_a), r).client_state.latest_height),
    {
        proof {
            assert(ctx_b.blocks@[ctx_b.blocks@.len() - 1].height.revision_height
                == ctx_b.blocks@[0].height.revision_height + ctx_b.blocks@.len() - 1);
            lemma_own_latest_has_block(*ctx_b);
        }
        let latest_block_of_b = match ctx_b.host_block(ctx_b.host_height()) {
            Some(b) => b,
            None => {
                proof {
                    assert(false);
                }
                return ClientId(0);
            },
        };
        let msg_for_a = Msg::CreateClient(
            MsgCreateClient {
                client_state: ClientState { latest_height: ctx_b.latest_height },
                consensus_state: crate::client::ConsensusState {
                    root: latest_block_of_b.root,
                    timestamp: latest_block_of_b.timestamp,
                },
                signer,
            },
        );
        let id = ClientId(ctx_a.clients.len() as u64);
        let res = ctx_a.deliver(msg_for_a);
        match res {
            Ok(IbcEvent::CreateClient(client_id_on_a)) => client_id_on_a,
            _ => {
                proof {
                    assert(false);
                }
                ClientId(0)
            },
        }
    }

    /// Advances whichever chain lags in timestamp, one block at a time,
    /// until its clock has caught up with the other chain's. The leading
    /// chain is untouched; the lagging chain ends at most one block time
    /// past the leader, having committed at most one block per nanosecond
    /// of the gap; neither store changes.
    pub fn sync_latest_timestamp(ctx_a: &mut Chain, ctx_b: &mut Chain)
        requires
            old(ctx_a).well_formed(),
            old(ctx_b).well_formed(),
            max_ts(*old(ctx_a), *old(ctx_b)) + max_bt(*old(ctx_a), *old(ctx_b)) <= u64::MAX,
            old(ctx_a).latest_height.revision_height + ts_gap(*old(ctx_a), *old(ctx_b))
                <= u64::MAX,
            old(ctx_b).latest_height.revision_height + ts_gap(*old(ctx_a), *old(ctx_b))
                <= u64::MAX,
        ensures
            final(ctx_a).well_formed(),
            final(ctx_b).well_formed(),
            same_chain(*old(ctx_a), *final(ctx_a)),
            same_chain(*old(ctx_b), *final(ctx_b)),
            store_unchanged(*old(ctx_a), *final(ctx_a)),
            store_unchanged(*old(ctx_b), *final(ctx_b)),
            final(ctx_a).events@ == old(ctx_a).events@,
            final(ctx_b).events@ == old(ctx_b).events@,
            old(ctx_a).latest_timestamp > old(ctx_b).latest_timestamp ==> {
                &&& *final(ctx_a) == *old(ctx_a)
                &&& final(ctx_b).latest_timestamp >= old(ctx_a).latest_timestamp
                &&& final(ctx_b).latest_timestamp < old(ctx_a).latest_timestamp + old(
                    ctx_b,
                ).block_time
                &&& final(ctx_b).latest_height.revision_height > old(
                    ctx_b,
                ).latest_height.revision_height
                &&& final(ctx_b).latest_height.revision_height - old(
                    ctx_b,
                ).latest_height.revision_height <= ts_gap(*old(ctx_a), *old(ctx_b))
            },
            old(ctx_a).latest_timestamp <= old(ctx_b).latest_timestamp ==> {
                &&& *final(ctx_b) == *old(ctx_b)
                &&& final(ctx_a).latest_timestamp >= old(ctx_b).latest_timestamp
                &&& final(ctx_a).latest_timestamp <= old(ctx_b).latest_timestamp + old(
                    ctx_a,
                ).block_time
                &&& final(ctx_a).latest_height.revision_height - old(
                    ctx_a,
                ).latest_height.revision_height <= ts_gap(*old(ctx_a), *old(ctx_b))
            },
            ts_gap(*final(ctx_a), *final(ctx_b)) < max_bt(*old(ctx_a), *old(ctx_b)),
            old(ctx_a).latest_timestamp == old(ctx_b).latest_timestamp ==> *final(ctx_a) == *old(
                ctx_a,
            ) && *final(ctx_b) == *old(ctx_b),
    {
        if ctx_a.latest_timestamp > ctx_b.latest_timestamp {
            while ctx_b.latest_timestamp < ctx_a.latest_timestamp
                invariant
                    ctx_b.well_formed(),
                    *ctx_a == *old(ctx_a),
                    ctx_a.latest_timestamp > old(ctx_b).latest_timestamp,
                    same_chain(*old(ctx_b), *ctx_b),
                    store_unchanged(*old(ctx_b), *ctx_b),
                    ctx_b.events@ == old(ctx_b).events@,
                    ctx_b.latest_timestamp < ctx_a.latest_timestamp + ctx_b.block_time,
                    ctx_b.latest_height.revision_height - old(ctx_b).latest_height.revision_height
                        <= (if ctx_b.latest_timestamp >= old(ctx_a).latest_timestamp {
                        ts_gap(*old(ctx_a), *old(ctx_b))
                    } else {
                        ctx_b.latest_timestamp - old(ctx_b).latest_timestamp
                    }),
                    ctx_b.latest_timestamp >= old(ctx_b).latest_timestamp,
                    ctx_b.block_time == old(ctx_b).block_time,
                    ctx_a.latest_timestamp + ctx_b.block_time <= u64::MAX,
                    old(ctx_b).latest_height.revision_height + ts_gap(*old(ctx_a), *old(ctx_b))
                        <= u64::MAX,
                    ctx_b.latest_timestamp != old(ctx_b).latest_timestamp
                        ==> ctx_b.latest_height.revision_height > old(
                        ctx_b,
                    ).latest_height.revision_height,
                decreases ctx_a.latest_timestamp + ctx_b.block_time - ctx_b.latest_timestamp,
            {
                ctx_b.advance_block();
            }
        } else {
            while ctx_a.latest_timestamp < ctx_b.latest_timestamp
                invariant
                    ctx_a.well_formed(),
                    *ctx_b == *old(ctx_b),
                    same_chain(*old(ctx_a), *ctx_a),
                    store_unchanged(*old(ctx_a), *ctx_a),
                    ctx_a.events@ == old(ctx_a).events@,
                    ctx_a.latest_timestamp < ctx_b.latest_timestamp + ctx_a.block_time,
                    ctx_a.latest_height.revision_height - old(ctx_a).latest_height.revision_height
                        <= (if ctx_a.latest_timestamp >= old(ctx_b).latest_timestamp {
                        ts_gap(*old(ctx_a), *old(ctx_b))
                    } else {
                        ctx_a.latest_timestamp - old(ctx_a).latest_timestamp
                    }),
                    ctx_a.latest_timestamp >= old(ctx_a).latest_timestamp,
                    ctx_a.block_time == old(ctx_a).block_time,
                    ctx_b.latest_timestamp + ctx_a.block_time <= u64::MAX,
                    old(ctx_a).latest_height.revision_height + ts_gap(*old(ctx_a), *old(ctx_b))
                        <= u64::MAX,
                    ctx_a.latest_timestamp != old(ctx_a).latest_timestamp
                        ==> ctx_a.latest_height.revision_height > old(
                        ctx_a,
                    ).latest_height.revision_height,
                    old(ctx_a).latest_timestamp == old(ctx_b).latest_timestamp ==> *ctx_a == *old(
                        ctx_a,
                    ),
                decreases ctx_b.latest_timestamp + ctx_a.block_time - ctx_a.latest_timestamp,
            {
                ctx_a.advance_block();
            }
        }
    }

    /// Updates the client `client_id_on_a` on chain `a` with chain `b`'s
    /// latest block as the new header, supplying the block at the client's
    /// current trusted height as context. Succeeds exactly when `b` has
    /// moved past the trusted height; a rejected update is a fatal
    /// `ProtocolViolation`.
    pub fn update_client_on_a(
        ctx_a: &mut Chain,
        ctx_b: &Chain,
        client_id_on_a: ClientId,
        signer: Signer,
    ) -> (r: Result<(), Error>)
        requires
            old(ctx_a).well_formed(),
            ctx_b.well_formed(),
            client_exists(*old(ctx_a), client_id_on_a),
            ctx_b.has_block(
                client_of(*old(ctx_a), client_id_on_a).client_state.latest_height,
            ),
            old(ctx_a).latest_height.revision_height < u64::MAX,
            old(ctx_a).latest_timestamp + old(ctx_a).block_time <= u64::MAX,
        ensures
            final(ctx_a).well_formed(),
            same_chain(*old(ctx_a), *final(ctx_a)),
            r is Ok <==> height_lt(
                client_of(*old(ctx_a), client_id_on_a).client_state.latest_height,
                ctx_b.latest_height,
            ),
            match r {
                Ok(_) => {
                    &&& final(ctx_a).clients@.len() == old(ctx_a).clients@.len()
                    &&& forall|i: int|
                        0 <= i < old(ctx_a).clients@.len() && i != client_id_on_a.0 as int
                            ==> final(ctx_a).clients@[i] == old(ctx_a).clients@[i]
                    &&& client_of(*final(ctx_a), client_id_on_a).client_state.latest_height
                        == ctx_b.latest_height
                    &&& client_of(*final(ctx_a), client_id_on_a).registry.entries@ == client_of(
                        *old(ctx_a),
                        client_id_on_a,
                    ).registry.entries@.push(
                        crate::client::RegistryEntry {
                            height: ctx_b.latest_height,
                            state: crate::client::ConsensusState {
                                root: ctx_b.blocks@.last().root,
                                timestamp: ctx_b.latest_timestamp,
                            },
                        },
                    )
                    &&& final(ctx_a).connections@ == old(ctx_a).connections@
                    &&& final(ctx_a).channels@ == old(ctx_a).channels@
                    &&& final(ctx_a).latest_height.revision_height == old(
                        ctx_a,
                    ).latest_height.revision_height + 1
                    &&& final(ctx_a).latest_timestamp == old(ctx_a).latest_timestamp + old(
                        ctx_a,
                    ).block_time
                    &&& final(ctx_a).events@ == old(ctx_a).events@.push(
                        IbcEvent::UpdateClient(client_id_on_a),
                    )
                },
                Err(e) => *final(ctx_a) == *old(ctx_a) && e == Error::ProtocolViolation(
                    Step::UpdateClient,
                ),
            },
    {
        assert(client_id_on_a.0 < ctx_a.clients.len() as u64);
        let trusted_height = ctx_a.clients[client_id_on_a.0 as usize].client_state.latest_height;
        let latest_height_of_b = ctx_b.host_height();
        proof {
            assert(ctx_b.blocks@[ctx_b.blocks@.len() - 1].height.revision_height
                == ctx_b.blocks@[0].height.revision_height + ctx_b.blocks@.len() - 1);
        }
        let latest_block_of_b = match ctx_b.host_block(latest_height_of_b) {
            Some(blk) => blk,
            None => {
                proof {
                    assert(false);
                }
                return Err(Error::ProtocolViolation(Step::UpdateClient));
            },
        };
        let previous_block_of_b = match ctx_b.host_block(trusted_height) {
            Some(blk) => blk,
            None => {
                proof {
                    assert(false);
                }
                return Err(Error::ProtocolViolation(Step::UpdateClient));
            },
        };
        let msg_for_a = Msg::UpdateClient(
            MsgUpdateClient {
                client_id: client_id_on_a,
                client_message: Header {
                    height: latest_block_of_b.height,
                    timestamp: latest_block_of_b.timestamp,
                    root: latest_block_of_b.root,
                    trusted_height: previous_block_of_b.height,
                },
                signer,
            },
        );
        proof {
            let cl = client_of(*old(ctx_a), client_id_on_a);
            assert(cl.well_formed());
            assert(cl.registry.entries@[cl.registry.entries@.len() - 1].height
                == cl.client_state.latest_height);
            assert(crate::client::registry_lookup(
                cl.registry.entries@,
                cl.client_state.latest_height,
            ) is Some);
        }
        let res = ctx_a.deliver(msg_for_a);
        match res {
            Ok(IbcEvent::UpdateClient(_)) => Ok(()),
            Ok(_) => {
                proof {
                    assert(false);
                }
                Err(Error::ProtocolViolation(Step::UpdateClient))
            },
            Err(_) => Err(Error::ProtocolViolation(Step::UpdateClient)),
        }
    }

    /// Synchronizes the two chains' clocks, then updates the client
    /// `client_id_on_a` on chain `a` with chain `b`'s latest block.
    /// Success is owed whenever `b` is already past the client's trusted
    /// height or lags behind `a` in time — the sync then advances `b`.
    pub fn update_client_on_a_with_sync(
        ctx_a: &mut Chain,
        ctx_b: &mut Chain,
        client_id_on_a: ClientId,
        signer: Signer,
    ) -> (r: Result<(), Error>)
        requires
            old(ctx_a).well_formed(),
            old(ctx_b).well_formed(),
            client_exists(*old(ctx_a), client_id_on_a),
            old(ctx_b).has_block(
                client_of(*old(ctx_a), client_id_on_a).client_state.latest_height,
            ),
            max_ts(*old(ctx_a), *old(ctx_b)) + 2 * max_bt(*old(ctx_a), *old(ctx_b)) <= u64::MAX,
            old(ctx_a).latest_height.revision_height + ts_gap(*old(ctx_a), *old(ctx_b)) + 1
                <= u64::MAX,
            old(ctx_b).latest_height.revision_height + ts_gap(*old(ctx_a), *old(ctx_b))
                <= u64::MAX,
        ensures
            final(ctx_a).well_formed(),
            final(ctx_b).well_formed(),
            same_chain(*old(ctx_a), *final(ctx_a)),
            same_chain(*old(ctx_b), *final(ctx_b)),
            store_unchanged(*old(ctx_b), *final(ctx_b)),
            final(ctx_b).events@ == old(ctx_b).events@,
            r is Ok <==> height_lt(
                client_of(*old(ctx_a), client_id_on_a).client_state.latest_height,
                old(ctx_b).latest_height,
            ) || old(ctx_a).latest_timestamp > old(ctx_b).latest_timestamp,
            match r {
                Ok(_) => {
                    &&& final(ctx_a).clients@.len() == old(ctx_a).clients@.len()
                    &&& forall|i: int|
                        0 <= i < old(ctx_a).clients@.len() && i != client_id_on_a.0 as int
                            ==> final(ctx_a).clients@[i] == old(ctx_a).clients@[i]
                    &&& client_of(*final(ctx_a), client_id_on_a).client_state.latest_height
                        == final(ctx_b).latest_height
                    &&& final(ctx_a).connections@ == old(ctx_a).connections@
                    &&& final(ctx_a).channels@ == old(ctx_a).channels@
                    &&& final(ctx_a).events@ == old(ctx_a).events@.push(
                        IbcEvent::UpdateClient(client_id_on_a),
                    )
                },
                Err(e) => {
                    &&& store_unchanged(*old(ctx_a), *final(ctx_a))
                    &&& final(ctx_a).events@ == old(ctx_a).events@
                    &&& e == Error::ProtocolViolation(Step::UpdateClient)
                },
            },
            // arithmetic bounds for chaining composite steps
            final(ctx_a).latest_timestamp <= max_ts(*old(ctx_a), *old(ctx_b)) + 2 * max_bt(
                *old(ctx_a),
                *old(ctx_b),
            ),
            final(ctx_b).latest_timestamp <= max_ts(*old(ctx_a), *old(ctx_b)) + max_bt(
                *old(ctx_a),
                *old(ctx_b),
            ),
            ts_gap(*final(ctx_a), *final(ctx_b)) <= 2 * max_bt(*old(ctx_a), *old(ctx_b)),
            final(ctx_a).latest_height.revision_height <= old(ctx_a).latest_height.revision_height
                + ts_gap(*old(ctx_a), *old(ctx_b)) + 1,
            final(ctx_b).latest_height.revision_height <= old(ctx_b).latest_height.revision_height
                + ts_gap(*old(ctx_a), *old(ctx_b)),
    {
        Self::sync_latest_timestamp(ctx_a, ctx_b);
        Self::update_client_on_a(ctx_a, ctx_b, client_id_on_a, signer)
    }

    /// Starts the connection handshake on chain `a`: dispatches OpenInit
    /// and returns the connection identifier assigned there. Succeeds
    /// exactly when the named client exists on `a`.
    pub fn connection_open_init_on_a(
        ctx_a: &mut Chain,
        client_id_on_a: ClientId,
        client_id_on_b: ClientId,
        signer: Signer,
    ) -> (r: Result<ConnectionId, Error>)
        requires
            old(ctx_a).well_formed(),
            old(ctx_a).latest_height.revision_height < u64::MAX,
            old(ctx_a).latest_timestamp + old(ctx_a).block_time <= u64::MAX,
        ensures
            final(ctx_a).well_formed(),
            same_chain(*old(ctx_a), *final(ctx_a)),
            r is Ok <==> client_exists(*old(ctx_a), client_id_on_a),
            match r {
                Ok(id) => {
                    &&& id == (ConnectionId(old(ctx_a).connections@.len() as u64))
                    &&& final(ctx_a).connections@ == old(ctx_a).connections@.push(
                        crate::connection::ConnectionEnd {
                            state: ConnectionState::Init,
                            client_id: client_id_on_a,
                            counterparty_client_id: client_id_on_b,
                            counterparty_connection_id: None,
                            version: DEFAULT_CONNECTION_VERSION,
                        },
                    )
                    &&& final(ctx_a).clients@ == old(ctx_a).clients@
                    &&& final(ctx_a).channels@ == old(ctx_a).channels@
                    &&& final(ctx_a).latest_height.revision_height == old(
                        ctx_a,
                    ).latest_height.revision_height + 1
                    &&& final(ctx_a).latest_timestamp == old(ctx_a).latest_timestamp + old(
                        ctx_a,
                    ).block_time
                    &&& final(ctx_a).events@ == old(ctx_a).events@.push(
                        IbcEvent::OpenInitConnection(id),
                    )
                },
                Err(e) => *final(ctx_a) == *old(ctx_a) && e == Error::ProtocolViolation(
                    Step::ConnectionOpenInit,
                ),
            },
    {
        let msg_for_a = Msg::ConnectionOpenInit(
            MsgConnectionOpenInit {
                client_id_on_a,
                counterparty_client_id: client_id_on_b,
                version: DEFAULT_CONNECTION_VERSION,
                signer,
            },
        );
        match ctx_a.deliver(msg_for_a) {
            Ok(IbcEvent::OpenInitConnection(conn_id_on_a)) => Ok(conn_id_on_a),
            Ok(_) => {
                proof {
                    assert(false);
                }
                Err(Error::ProtocolViolation(Step::ConnectionOpenInit))
            },
            Err(_) => Err(Error::ProtocolViolation(Step::ConnectionOpenInit)),
        }
    }

    /// Continues the connection handshake on chain `b`: gathers proofs of
    /// `a`'s connection end, client state and recorded consensus state at
    /// `a`'s latest height, dispatches OpenTry to `b`, and returns the
    /// connection identifier assigned on `b`. Succeeds exactly when `b`'s
    /// client exists and already trusts `a`'s latest height, `a`'s end is
    /// in Init pointing back at `b`'s client, and the consensus height
    /// recorded on `a` does not lie beyond `b` itself.
    pub fn connection_open_try_on_b(
        ctx_b: &mut Chain,
        ctx_a: &Chain,
        conn_id_on_a: ConnectionId,
        client_id_on_a: ClientId,
        client_id_on_b: ClientId,
        signer: Signer,
    ) -> (r: Result<ConnectionId, Error>)
        requires
            old(ctx_b).well_formed(),
            ctx_a.well_formed(),
            connection_exists(*ctx_a, conn_id_on_a),
            client_exists(*ctx_a, client_id_on_a),
            old(ctx_b).latest_height.revision_height < u64::MAX,
            old(ctx_b).latest_timestamp + old(ctx_b).block_time <= u64::MAX,
        ensures
            final(ctx_b).well_formed(),
            same_chain(*old(ctx_b), *final(ctx_b)),
            r is Ok <==> {
                &&& client_exists(*old(ctx_b), client_id_on_b)
                &&& client_of(*old(ctx_b), client_id_on_b).trusts(ctx_a.latest_height)
                &&& connection_at(*ctx_a, conn_id_on_a).state == ConnectionState::Init
                &&& connection_at(*ctx_a, conn_id_on_a).counterparty_client_id == client_id_on_b
                &&& connection_at(*ctx_a, conn_id_on_a).client_id == client_id_on_a
                &&& height_le(
                    client_of(*ctx_a, client_id_on_a).client_state.latest_height,
                    old(ctx_b).latest_height,
                )
            },
            match r {
                Ok(id) => {
                    &&& id == (ConnectionId(old(ctx_b).connections@.len() as u64))
                    &&& final(ctx_b).connections@ == old(ctx_b).connections@.push(
                        crate::connection::ConnectionEnd {
                            state: ConnectionState::TryOpen,
                            client_id: client_id_on_b,
                            counterparty_client_id: client_id_on_a,
                            counterparty_connection_id: Some(conn_id_on_a),
                            version: DEFAULT_CONNECTION_VERSION,
                        },
                    )
                    &&& final(ctx_b).clients@ == old(ctx_b).clients@
                    &&& final(ctx_b).channels@ == old(ctx_b).channels@
                    &&& final(ctx_b).latest_height.revision_height == old(
                        ctx_b,
                    ).latest_height.revision_height + 1
                    &&& final(ctx_b).latest_timestamp == old(ctx_b).latest_timestamp + old(
                        ctx_b,
                    ).block_time
                    &&& final(ctx_b).events@ == old(ctx_b).events@.push(
                        IbcEvent::OpenTryConnection(id),
                    )
                },
                Err(e) => *final(ctx_b) == *old(ctx_b) && e == Error::ProtocolViolation(
                    Step::ConnectionOpenTry,
                ),
            },
    {
        let proofs_height_on_a = ctx_a.host_height();
        assert(client_id_on_a.0 < ctx_a.clients.len() as u64);
        let client_state_of_b_on_a = ctx_a.clients[client_id_on_a.0 as usize].client_state;
        let consensus_height_of_b_on_a = client_state_of_b_on_a.latest_height;
        let proof_conn_end_on_a = match ctx_a.get_proof(
            proofs_height_on_a,
            Path::Connection(conn_id_on_a),
        ) {
            Ok(p) => p,
            Err(_) => {
                proof {
                    assert(false);
                }
                return Err(Error::ProtocolViolation(Step::ConnectionOpenTry));
            },
        };
        let proof_client_state_of_b_on_a = match ctx_a.get_proof(
            proofs_height_on_a,
            Path::ClientState(client_id_on_a),
        ) {
            Ok(p) => p,
            Err(_) => {
                proof {
                    assert(false);
                }
                return Err(Error::ProtocolViolation(Step::ConnectionOpenTry));
            },
        };
        proof {
            let cl = client_of(*ctx_a, client_id_on_a);
            assert(cl.well_formed());
            assert(cl.registry.entries@[cl.registry.entries@.len() - 1].height
                == cl.client_state.latest_height);
            assert(crate::client::registry_lookup(
                cl.registry.entries@,
                cl.client_state.latest_height,
            ) is Some);
        }
        let proof_consensus_state_of_b_on_a = match ctx_a.get_proof(
            proofs_height_on_a,
            Path::ClientConsensusState(client_id_on_a, consensus_height_of_b_on_a),
        ) {
            Ok(p) => p,
            Err(_) => {
                proof {
                    assert(false);
                }
                return Err(Error::ProtocolViolation(Step::ConnectionOpenTry));
            },
        };
        let msg_for_b = Msg::ConnectionOpenTry(
            MsgConnectionOpenTry {
                client_id_on_b,
                counterparty_client_id: client_id_on_a,
                counterparty_connection_id: conn_id_on_a,
                proof_conn_end_on_a,
                proof_client_state_of_b_on_a,
                proof_consensus_state_of_b_on_a,
                proofs_height_on_a,
                consensus_height_of_b_on_a,
                version: DEFAULT_CONNECTION_VERSION,
                signer,
            },
        );
        match ctx_b.deliver(msg_for_b) {
            Ok(IbcEvent::OpenTryConnection(conn_id_on_b)) => Ok(conn_id_on_b),
            Ok(_) => {
                proof {
                    assert(false);
                }
                Err(Error::ProtocolViolation(Step::ConnectionOpenTry))
            },
            Err(_) => Err(Error::ProtocolViolation(Step::ConnectionOpenTry)),
        }
    }

    /// Acknowledges on chain `a` the TryOpen end that `b` created: gathers
    /// proofs at `b`'s latest height and dispatches OpenAck. Succeeds
    /// exactly when `a`'s end is still in Init, `a`'s client already
    /// trusts `b`'s latest height, `b`'s end is in TryOpen pointing back
    /// at `a`'s connection, and the consensus height recorded on `b` does
    /// not lie beyond `a` itself; on success `a`'s end is Open.
    pub fn connection_open_ack_on_a(
        ctx_a: &mut Chain,
        ctx_b: &Chain,
        conn_id_on_a: ConnectionId,
        conn_id_on_b: ConnectionId,
        client_id_on_b: ClientId,
        signer: Signer,
    ) -> (r: Result<(), Error>)
        requires
            old(ctx_a).well_formed(),
            ctx_b.well_formed(),
            connection_exists(*ctx_b, conn_id_on_b),
            client_exists(*ctx_b, client_id_on_b),
            old(ctx_a).latest_height.revision_height < u64::MAX,
            old(ctx_a).latest_timestamp + old(ctx_a).block_time <= u64::MAX,
        ensures
            final(ctx_a).well_formed(),
            same_chain(*old(ctx_a), *final(ctx_a)),
            r is Ok <==> {
                &&& connection_exists(*old(ctx_a), conn_id_on_a)
                &&& connection_at(*old(ctx_a), conn_id_on_a).state == ConnectionState::Init
                &&& client_of(
                    *old(ctx_a),
                    connection_at(*old(ctx_a), conn_id_on_a).client_id,
                ).trusts(ctx_b.latest_height)
                &&& connection_at(*ctx_b, conn_id_on_b).state == ConnectionState::TryOpen
                &&& connection_at(*ctx_b, conn_id_on_b).counterparty_connection_id == Some(
                    conn_id_on_a,
                )
                &&& connection_at(*ctx_b, conn_id_on_b).counterparty_client_id == connection_at(
                    *old(ctx_a),
                    conn_id_on_a,
                ).client_id
                &&& connection_at(*ctx_b, conn_id_on_b).client_id == connection_at(
                    *old(ctx_a),
                    conn_id_on_a,
                ).counterparty_client_id
                &&& connection_at(*old(ctx_a), conn_id_on_a).counterparty_client_id
                    == client_id_on_b
                &&& height_le(
                    client_of(*ctx_b, client_id_on_b).client_state.latest_height,
                    old(ctx_a).latest_height,
                )
            },
            match r {
                Ok(_) => {
                    &&& final(ctx_a).connections@ == old(ctx_a).connections@.update(
                        conn_id_on_a.0 as int,
                        crate::connection::ConnectionEnd {
                            state: ConnectionState::Open,
                            client_id: connection_at(*old(ctx_a), conn_id_on_a).client_id,
                            counterparty_client_id: connection_at(
                                *old(ctx_a),
                                conn_id_on_a,
                            ).counterparty_client_id,
                            counterparty_connection_id: Some(conn_id_on_b),
                            version: DEFAULT_CONNECTION_VERSION,
                        },
                    )
                    &&& final(ctx_a).clients@ == old(ctx_a).clients@
                    &&& final(ctx_a).channels@ == old(ctx_a).channels@
                    &&& final(ctx_a).latest_height.revision_height == old(
                        ctx_a,
                    ).latest_height.revision_height + 1
                    &&& final(ctx_a).latest_timestamp == old(ctx_a).latest_timestamp + old(
                        ctx_a,
                    ).block_time
                    &&& final(ctx_a).events@ == old(ctx_a).events@.push(
                        IbcEvent::OpenAckConnection(conn_id_on_a),
                    )
                },
                Err(e) => *final(ctx_a) == *old(ctx_a) && e == Error::ProtocolViolation(
                    Step::ConnectionOpenAck,
                ),
            },
    {
        let proofs_height_on_b = ctx_b.host_height();
        assert(client_id_on_b.0 < ctx_b.clients.len() as u64);
        let client_state_of_a_on_b = ctx_b.clients[client_id_on_b.0 as usize].client_state;
        let consensus_height_of_a_on_b = client_state_of_a_on_b.latest_height;
        let proof_conn_end_on_b = match ctx_b.get_proof(
            proofs_height_on_b,
            Path::Connection(conn_id_on_b),
        ) {
            Ok(p) => p,
            Err(_) => {
                proof {
                    assert(false);
                }
                return Err(Error::ProtocolViolation(Step::ConnectionOpenAck));
            },
        };
        let proof_client_state_of_a_on_b = match ctx_b.get_proof(
            proofs_height_on_b,
            Path::ClientState(client_id_on_b),
        ) {
            Ok(p) => p,
            Err(_) => {
                proof {
                    assert(false);
                }
                return Err(Error::ProtocolViolation(Step::ConnectionOpenAck));
            },
        };
        proof {
            let cl = client_of(*ctx_b, client_id_on_b);
            assert(cl.well_formed());
            assert(cl.registry.entries@[cl.registry.entries@.len() - 1].height
                == cl.client_state.latest_height);
            assert(crate::client::registry_lookup(
                cl.registry.entries@,
                cl.client_state.latest_height,
            ) is Some);
        }
        let proof_consensus_state_of_a_on_b = match ctx_b.get_proof(
            proofs_height_on_b,
            Path::ClientConsensusState(client_id_on_b, consensus_height_of_a_on_b),
        ) {
            Ok(p) => p,
            Err(_) => {
                proof {
                    assert(false);
                }
                return Err(Error::ProtocolViolation(Step::ConnectionOpenAck));
            },
        };
        let msg_for_a = Msg::ConnectionOpenAck(
            MsgConnectionOpenAck {
                conn_id_on_a,
                conn_id_on_b,
                proof_conn_end_on_b,
                proof_client_state_of_a_on_b,
                proof_consensus_state_of_a_on_b,
                proofs_height_on_b,
                consensus_height_of_a_on_b,
                version: DEFAULT_CONNECTION_VERSION,
                signer,
            },
        );
        match ctx_a.deliver(msg_for_a) {
            Ok(IbcEvent::OpenAckConnection(_)) => Ok(()),
            Ok(_) => {
                proof {
                    assert(false);
                }
                Err(Error::ProtocolViolation(Step::ConnectionOpenAck))
            },
            Err(_) => Err(Error::ProtocolViolation(Step::ConnectionOpenAck)),
        }
    }

    /// Confirms on chain `b` the Open end that `a` now holds: proves `a`'s
    /// connection end at `a`'s latest height and dispatches OpenConfirm.
    /// Succeeds exactly when `b`'s end is in TryOpen pointing at `a`'s
    /// connection, `b`'s client already trusts `a`'s latest height, and
    /// `a`'s end is Open pointing back; on success `b`'s end is Open.
    pub fn connection_open_confirm_on_b(
        ctx_b: &mut Chain,
        ctx_a: &Chain,
        conn_id_on_a: ConnectionId,
        conn_id_on_b: ConnectionId,
        signer: Signer,
    ) -> (r: Result<(), Error>)
        requires
            old(ctx_b).well_formed(),
            ctx_a.well_formed(),
            connection_exists(*ctx_a, conn_id_on_a),
            old(ctx_b).latest_height.revision_height < u64::MAX,
            old(ctx_b).latest_timestamp + old(ctx_b).block_time <= u64::MAX,
        ensures
            final(ctx_b).well_formed(),
            same_chain(*old(ctx_b), *final(ctx_b)),
            r is Ok <==> {
                &&& connection_exists(*old(ctx_b), conn_id_on_b)
                &&& connection_at(*old(ctx_b), conn_id_on_b).state == ConnectionState::TryOpen
                &&& client_of(
                    *old(ctx_b),
                    connection_at(*old(ctx_b), conn_id_on_b).client_id,
                ).trusts(ctx_a.latest_height)
                &&& connection_at(*old(ctx_b), conn_id_on_b).counterparty_connection_id == Some(
                    conn_id_on_a,
                )
                &&& connection_at(*ctx_a, conn_id_on_a).state == ConnectionState::Open
                &&& connection_at(*ctx_a, conn_id_on_a).counterparty_connection_id == Some(
                    conn_id_on_b,
                )
            },
            match r {
                Ok(_) => {
                    &&& final(ctx_b).connections@ == old(ctx_b).connections@.update(
                        conn_id_on_b.0 as int,
                        crate::connection::ConnectionEnd {
                            state: ConnectionState::Open,
                            client_id: connection_at(*old(ctx_b), conn_id_on_b).client_id,
                            counterparty_client_id: connection_at(
                                *old(ctx_b),
                                conn_id_on_b,
                            ).counterparty_client_id,
                            counterparty_connection_id: connection_at(
                                *old(ctx_b),
                                conn_id_on_b,
                            ).counterparty_connection_id,
                            version: connection_at(*old(ctx_b), conn_id_on_b).version,
                        },
                    )
                    &&& final(ctx_b).clients@ == old(ctx_b).clients@
                    &&& final(ctx_b).channels@ == old(ctx_b).channels@
                    &&& final(ctx_b).latest_height.revision_height == old(
                        ctx_b,
                    ).latest_height.revision_height + 1
                    &&& final(ctx_b).latest_timestamp == old(ctx_b).latest_timestamp + old(
                        ctx_b,
                    ).block_time
                    &&& final(ctx_b).events@ == old(ctx_b).events@.push(
                        IbcEvent::OpenConfirmConnection(conn_id_on_b),
                    )
                },
                Err(e) => *final(ctx_b) == *old(ctx_b) && e == Error::ProtocolViolation(
                    Step::ConnectionOpenConfirm,
                ),
            },
    {
        let proof_height_on_a = ctx_a.host_height();
        let proof_conn_end_on_a = match ctx_a.get_proof(
            proof_height_on_a,
            Path::Connection(conn_id_on_a),
        ) {
            Ok(p) => p,
            Err(_) => {
                proof {
                    assert(false);
                }
                return Err(Error::ProtocolViolation(Step::ConnectionOpenConfirm));
            },
        };
        let msg_for_b = Msg::ConnectionOpenConfirm(
            MsgConnectionOpenConfirm {
                conn_id_on_b,
                proof_conn_end_on_a,
                proof_height_on_a,
                signer,
            },
        );
        match ctx_b.deliver(msg_for_b) {
            Ok(IbcEvent::OpenConfirmConnection(_)) => Ok(()),
            Ok(_) => {
                proof {
                    assert(false);
                }
                Err(Error::ProtocolViolation(Step::ConnectionOpenConfirm))
            },
            Err(_) => Err(Error::ProtocolViolation(Step::ConnectionOpenConfirm)),
        }
    }

    /// Starts the channel handshake on chain `a` over an existing Open
    /// connection: dispatches OpenInit and returns the channel identifier
    /// assigned there. The ordering is fixed to Unordered and the version
    /// proposal passed through empty.
    pub fn channel_open_init_on_a(
        ctx_a: &mut Chain,
        conn_id_on_a: ConnectionId,
        port_id_on_a: PortId,
        port_id_on_b: PortId,
        signer: Signer,
    ) -> (r: Result<ChannelId, Error>)
        requires
            old(ctx_a).well_formed(),
            old(ctx_a).latest_height.revision_height < u64::MAX,
            old(ctx_a).latest_timestamp + old(ctx_a).block_time <= u64::MAX,
        ensures
            final(ctx_a).well_formed(),
            same_chain(*old(ctx_a), *final(ctx_a)),
            r is Ok <==> connection_exists(*old(ctx_a), conn_id_on_a) && connection_at(
                *old(ctx_a),
                conn_id_on_a,
            ).state == ConnectionState::Open,
            match r {
                Ok(id) => {
                    &&& id == (ChannelId(old(ctx_a).channels@.len() as u64))
                    &&& final(ctx_a).channels@ == old(ctx_a).channels@.push(
                        crate::channel::ChannelEnd {
                            state: ChannelState::Init,
                            ordering: Order::Unordered,
                            port_id: port_id_on_a,
                            connection_id: conn_id_on_a,
                            counterparty_port_id: port_id_on_b,
                            counterparty_channel_id: None,
                            version: EMPTY_CHANNEL_VERSION,
                        },
                    )
                    &&& final(ctx_a).clients@ == old(ctx_a).clients@
                    &&& final(ctx_a).connections@ == old(ctx_a).connections@
                    &&& final(ctx_a).latest_height.revision_height == old(
                        ctx_a,
                    ).latest_height.revision_height + 1
                    &&& final(ctx_a).latest_timestamp == old(ctx_a).latest_timestamp + old(
                        ctx_a,
                    ).block_time
                    &&& final(ctx_a).events@ == old(ctx_a).events@.push(
                        IbcEvent::OpenInitChannel(id),
                    )
                },
                Err(e) => *final(ctx_a) == *old(ctx_a) && e == Error::ProtocolViolation(
                    Step::ChannelOpenInit,
                ),
            },
    {
        let msg_for_a = Msg::ChannelOpenInit(
            MsgChannelOpenInit {
                port_id_on_a,
                connection_hops_on_a: conn_id_on_a,
                port_id_on_b,
                ordering: Order::Unordered,
                version_proposal: EMPTY_CHANNEL_VERSION,
                signer,
            },
        );
        match ctx_a.deliver(msg_for_a) {
            Ok(IbcEvent::OpenInitChannel(chan_id_on_a)) => Ok(chan_id_on_a),
            Ok(_) => {
                proof {
                    assert(false);
                }
                Err(Error::ProtocolViolation(Step::ChannelOpenInit))
            },
            Err(_) => Err(Error::ProtocolViolation(Step::ChannelOpenInit)),
        }
    }

    /// Continues the channel handshake on chain `b`: proves `a`'s channel
    /// end at `a`'s latest height and dispatches OpenTry. Succeeds exactly
    /// when `b`'s connection is Open, its client already trusts `a`'s
    /// latest height, and `a`'s end is an Unordered Init end pointing at
    /// `b`'s port.
    pub fn channel_open_try_on_b(
        ctx_b: &mut Chain,
        ctx_a: &Chain,
        conn_id_on_b: ConnectionId,
        chan_id_on_a: ChannelId,
        port_id_on_a: PortId,
        port_id_on_b: PortId,
        signer: Signer,
    ) -> (r: Result<ChannelId, Error>)
        requires
            old(ctx_b).well_formed(),
            ctx_a.well_formed(),
            channel_exists(*ctx_a, port_id_on_a, chan_id_on_a),
            old(ctx_b).latest_height.revision_height < u64::MAX,
            old(ctx_b).latest_timestamp + old(ctx_b).block_time <= u64::MAX,
        ensures
            final(ctx_b).well_formed(),
            same_chain(*old(ctx_b), *final(ctx_b)),
            r is Ok <==> {
                &&& connection_exists(*old(ctx_b), conn_id_on_b)
                &&& connection_at(*old(ctx_b), conn_id_on_b).state == ConnectionState::Open
                &&& client_of(
                    *old(ctx_b),
                    connection_at(*old(ctx_b), conn_id_on_b).client_id,
                ).trusts(ctx_a.latest_height)
                &&& channel_at(*ctx_a, chan_id_on_a).state == ChannelState::Init
                &&& channel_at(*ctx_a, chan_id_on_a).ordering == Order::Unordered
                &&& channel_at(*ctx_a, chan_id_on_a).counterparty_port_id == port_id_on_b
            },
            match r {
                Ok(id) => {
                    &&& id == (ChannelId(old(ctx_b).channels@.len() as u64))
                    &&& final(ctx_b).channels@ == old(ctx_b).channels@.push(
                        crate::channel::ChannelEnd {
                            state: ChannelState::TryOpen,
                            ordering: Order::Unordered,
                            port_id: port_id_on_b,
                            connection_id: conn_id_on_b,
                            counterparty_port_id: port_id_on_a,
                            counterparty_channel_id: Some(chan_id_on_a),
                            version: EMPTY_CHANNEL_VERSION,
                        },
                    )
                    &&& final(ctx_b).clients@ == old(ctx_b).clients@
                    &&& final(ctx_b).connections@ == old(ctx_b).connections@
                    &&& final(ctx_b).latest_height.revision_height == old(
                        ctx_b,
                    ).latest_height.revision_height + 1
                    &&& final(ctx_b).latest_timestamp == old(ctx_b).latest_timestamp + old(
                        ctx_b,
                    ).block_time
                    &&& final(ctx_b).events@ == old(ctx_b).events@.push(
                        IbcEvent::OpenTryChannel(id),
                    )
                },
                Err(e) => *final(ctx_b) == *old(ctx_b) && e == Error::ProtocolViolation(
                    Step::ChannelOpenTry,
                ),
            },
    {
        let proof_height_on_a = ctx_a.host_height();
        let proof_chan_end_on_a = match ctx_a.get_proof(
            proof_height_on_a,
            Path::ChannelEnd(port_id_on_a, chan_id_on_a),
        ) {
            Ok(p) => p,
            Err(_) => {
                proof {
                    assert(false);
                }
                return Err(Error::ProtocolViolation(Step::ChannelOpenTry));
            },
        };
        let msg_for_b = Msg::ChannelOpenTry(
            MsgChannelOpenTry {
                port_id_on_b,
                connection_hops_on_b: conn_id_on_b,
                port_id_on_a,
                chan_id_on_a,
                proof_chan_end_on_a,
                proof_height_on_a,
                ordering: Order::Unordered,
                version_supported_on_a: EMPTY_CHANNEL_VERSION,
                signer,
            },
        );
        match ctx_b.deliver(msg_for_b) {
            Ok(IbcEvent::OpenTryChannel(chan_id_on_b)) => Ok(chan_id_on_b),
            Ok(_) => {
                proof {
                    assert(false);
                }
                Err(Error::ProtocolViolation(Step::ChannelOpenTry))
            },
            Err(_) => Err(Error::ProtocolViolation(Step::ChannelOpenTry)),
        }
    }

    /// Acknowledges on chain `a` the TryOpen channel end that `b` created:
    /// proves `b`'s end at `b`'s latest height and dispatches OpenAck; on
    /// success `a`'s end is Open and records `b`'s channel identifier.
    pub fn channel_open_ack_on_a(
        ctx_a: &mut Chain,
        ctx_b: &Chain,
        chan_id_on_a: ChannelId,
        port_id_on_a: PortId,
        chan_id_on_b: ChannelId,
        port_id_on_b: PortId,
        signer: Signer,
    ) -> (r: Result<(), Error>)
        requires
            old(ctx_a).well_formed(),
            ctx_b.well_formed(),
            channel_exists(*ctx_b, port_id_on_b, chan_id_on_b),
            old(ctx_a).latest_height.revision_height < u64::MAX,
            old(ctx_a).latest_timestamp + old(ctx_a).block_time <= u64::MAX,
        ensures
            final(ctx_a).well_formed(),
            same_chain(*old(ctx_a), *final(ctx_a)),
            r is Ok <==> {
                &&& channel_exists(*old(ctx_a), port_id_on_a, chan_id_on_a)
                &&& channel_at(*old(ctx_a), chan_id_on_a).state == ChannelState::Init
                &&& client_of(
                    *old(ctx_a),
                    connection_at(
                        *old(ctx_a),
                        channel_at(*old(ctx_a), chan_id_on_a).connection_id,
                    ).client_id,
                ).trusts(ctx_b.latest_height)
                &&& channel_at(*ctx_b, chan_id_on_b).state == ChannelState::TryOpen
                &&& channel_at(*ctx_b, chan_id_on_b).counterparty_port_id == port_id_on_a
                &&& channel_at(*ctx_b, chan_id_on_b).counterparty_channel_id == Some(chan_id_on_a)
            },
            match r {
                Ok(_) => {
                    &&& final(ctx_a).channels@ == old(ctx_a).channels@.update(
                        chan_id_on_a.0 as int,
                        crate::channel::ChannelEnd {
                            state: ChannelState::Open,
                            ordering: channel_at(*old(ctx_a), chan_id_on_a).ordering,
                            port_id: channel_at(*old(ctx_a), chan_id_on_a).port_id,
                            connection_id: channel_at(*old(ctx_a), chan_id_on_a).connection_id,
                            counterparty_port_id: channel_at(
                                *old(ctx_a),
                                chan_id_on_a,
                            ).counterparty_port_id,
                            counterparty_channel_id: Some(chan_id_on_b),
                            version: EMPTY_CHANNEL_VERSION,
                        },
                    )
                    &&& final(ctx_a).clients@ == old(ctx_a).clients@
                    &&& final(ctx_a).connections@ == old(ctx_a).connections@
                    &&& final(ctx_a).latest_height.revision_height == old(
                        ctx_a,
                    ).latest_height.revision_height + 1
                    &&& final(ctx_a).latest_timestamp == old(ctx_a).latest_timestamp + old(
                        ctx_a,
                    ).block_time
                    &&& final(ctx_a).events@ == old(ctx_a).events@.push(
                        IbcEvent::OpenAckChannel(chan_id_on_a),
                    )
                },
                Err(e) => *final(ctx_a) == *old(ctx_a) && e == Error::ProtocolViolation(
                    Step::ChannelOpenAck,
                ),
            },
    {
        let proof_height_on_b = ctx_b.host_height();
        let proof_chan_end_on_b = match ctx_b.get_proof(
            proof_height_on_b,
            Path::ChannelEnd(port_id_on_b, chan_id_on_b),
        ) {
            Ok(p) => p,
            Err(_) => {
                proof {
                    assert(false);
                }
                return Err(Error::ProtocolViolation(Step::ChannelOpenAck));
            },
        };
        let msg_for_a = Msg::ChannelOpenAck(
            MsgChannelOpenAck {
                port_id_on_a,
                chan_id_on_a,
                chan_id_on_b,
                port_id_on_b,
                version_on_b: EMPTY_CHANNEL_VERSION,
                proof_chan_end_on_b,
                proof_height_on_b,
                signer,
            },
        );
        match ctx_a.deliver(msg_for_a) {
            Ok(IbcEvent::OpenAckChannel(_)) => Ok(()),
            Ok(_) => {
                proof {
                    assert(false);
                }
                Err(Error::ProtocolViolation(Step::ChannelOpenAck))
            },
            Err(_) => Err(Error::ProtocolViolation(Step::ChannelOpenAck)),
        }
    }

    /// Confirms on chain `b` the Open channel end that `a` now holds:
    /// proves `a`'s end at `a`'s latest height and dispatches OpenConfirm;
    /// on success `b`'s end is Open.
    pub fn channel_open_confirm_on_b(
        ctx_b: &mut Chain,
        ctx_a: &Chain,
        chan_id_on_a: ChannelId,
        port_id_on_a: PortId,
        chan_id_on_b: ChannelId,
        port_id_on_b: PortId,
        signer: Signer,
    ) -> (r: Result<(), Error>)
        requires
            old(ctx_b).well_formed(),
            ctx_a.well_formed(),
            channel_exists(*ctx_a, port_id_on_a, chan_id_on_a),
            old(ctx_b).latest_height.revision_height < u64::MAX,
            old(ctx_b).latest_timestamp + old(ctx_b).block_time <= u64::MAX,
        ensures
            final(ctx_b).well_formed(),
            same_chain(*old(ctx_b), *final(ctx_b)),
            r is Ok <==> {
                &&& channel_exists(*old(ctx_b), port_id_on_b, chan_id_on_b)
                &&& channel_at(*old(ctx_b), chan_id_on_b).state == ChannelState::TryOpen
                &&& client_of(
                    *old(ctx_b),
                    connection_at(
                        *old(ctx_b),
                        channel_at(*old(ctx_b), chan_id_on_b).connection_id,
                    ).client_id,
                ).trusts(ctx_a.latest_height)
                &&& channel_at(*old(ctx_b), chan_id_on_b).counterparty_port_id == port_id_on_a
                &&& channel_at(*old(ctx_b), chan_id_on_b).counterparty_channel_id == Some(
                    chan_id_on_a,
                )
                &&& channel_at(*ctx_a, chan_id_on_a).state == ChannelState::Open
                &&& channel_at(*ctx_a, chan_id_on_a).counterparty_channel_id == Some(chan_id_on_b)
            },
            match r {
                Ok(_) => {
                    &&& final(ctx_b).channels@ == old(ctx_b).channels@.update(
                        chan_id_on_b.0 as int,
                        crate::channel::ChannelEnd {
                            state: ChannelState::Open,
                            ordering: channel_at(*old(ctx_b), chan_id_on_b).ordering,
                            port_id: channel_at(*old(ctx_b), chan_id_on_b).port_id,
                            connection_id: channel_at(*old(ctx_b), chan_id_on_b).connection_id,
                            counterparty_port_id: channel_at(
                                *old(ctx_b),
                                chan_id_on_b,
                            ).counterparty_port_id,
                            counterparty_channel_id: channel_at(
                                *old(ctx_b),
                                chan_id_on_b,
                            ).counterparty_channel_id,
                            version: channel_at(*old(ctx_b), chan_id_on_b).version,
                        },
                    )
                    &&& final(ctx_b).clients@ == old(ctx_b).clients@
                    &&& final(ctx_b).connections@ == old(ctx_b).connections@
                    &&& final(ctx_b).latest_height.revision_height == old(
                        ctx_b,
                    ).latest_height.revision_height + 1
                    &&& final(ctx_b).latest_timestamp == old(ctx_b).latest_timestamp + old(
                        ctx_b,
                    ).block_time
                    &&& final(ctx_b).events@ == old(ctx_b).events@.push(
                        IbcEvent::OpenConfirmChannel(chan_id_on_b),
                    )
                },
                Err(e) => *final(ctx_b) == *old(ctx_b) && e == Error::ProtocolViolation(
                    Step::ChannelOpenConfirm,
                ),
            },
    {
        let proof_height_on_a = ctx_a.host_height();
        let proof_chan_end_on_a = match ctx_a.get_proof(
            proof_height_on_a,
            Path::ChannelEnd(port_id_on_a, chan_id_on_a),
        ) {
            Ok(p) => p,
            Err(_) => {
                proof {
                    assert(false);
                }
                return Err(Error::ProtocolViolation(Step::ChannelOpenConfirm));
            },
        };
        let msg_for_b = Msg::ChannelOpenConfirm(
            MsgChannelOpenConfirm {
                port_id_on_b,
                chan_id_on_b,
                proof_chan_end_on_a,
                proof_height_on_a,
                signer,
            },
        );
        match ctx_b.deliver(msg_for_b) {
            Ok(IbcEvent::OpenConfirmChannel(_)) => Ok(()),
            Ok(_) => {
                proof {
                    assert(false);
                }
                Err(Error::ProtocolViolation(Step::ChannelOpenConfirm))
            },
            Err(_) => Err(Error::ProtocolViolation(Step::ChannelOpenConfirm)),
        }
    }

    /// Starts closing a channel on chain `a`: dispatches CloseInit; on
    /// success `a`'s end is Closed. Succeeds exactly when the channel is
    /// Open at the given port.
    pub fn channel_close_init_on_a(
        ctx_a: &mut Chain,
        chan_id_on_a: ChannelId,
        port_id_on_a: PortId,
        signer: Signer,
    ) -> (r: Result<(), Error>)
        requires
            old(ctx_a).well_formed(),
            old(ctx_a).latest_height.revision_height < u64::MAX,
            old(ctx_a).latest_timestamp + old(ctx_a).block_time <= u64::MAX,
        ensures
            final(ctx_a).well_formed(),
            same_chain(*old(ctx_a), *final(ctx_a)),
            r is Ok <==> channel_exists(*old(ctx_a), port_id_on_a, chan_id_on_a) && channel_at(
                *old(ctx_a),
                chan_id_on_a,
            ).state == ChannelState::Open,
            match r {
                Ok(_) => {
                    &&& final(ctx_a).channels@ == old(ctx_a).channels@.update(
                        chan_id_on_a.0 as int,
                        crate::channel::ChannelEnd {
                            state: ChannelState::Closed,
                            ordering: channel_at(*old(ctx_a), chan_id_on_a).ordering,
                            port_id: channel_at(*old(ctx_a), chan_id_on_a).port_id,
                            connection_id: channel_at(*old(ctx_a), chan_id_on_a).connection_id,
                            counterparty_port_id: channel_at(
                                *old(ctx_a),
                                chan_id_on_a,
                            ).counterparty_port_id,
                            counterparty_channel_id: channel_at(
                                *old(ctx_a),
                                chan_id_on_a,
                            ).counterparty_channel_id,
                            version: channel_at(*old(ctx_a), chan_id_on_a).version,
                        },
                    )
                    &&& final(ctx_a).clients@ == old(ctx_a).clients@
                    &&& final(ctx_a).connections@ == old(ctx_a).connections@
                    &&& final(ctx_a).latest_height.revision_height == old(
                        ctx_a,
                    ).latest_height.revision_height + 1
                    &&& final(ctx_a).latest_timestamp == old(ctx_a).latest_timestamp + old(
                        ctx_a,
                    ).block_time
                    &&& final(ctx_a).events@ == old(ctx_a).events@.push(
                        IbcEvent::CloseInitChannel(chan_id_on_a),
                    )
                },
                Err(e) => *final(ctx_a) == *old(ctx_a) && e == Error::ProtocolViolation(
                    Step::ChannelCloseInit,
                ),
            },
    {
        let msg_for_a = Msg::ChannelCloseInit(
            MsgChannelCloseInit { port_id_on_a, chan_id_on_a, signer },
        );
        match ctx_a.deliver(msg_for_a) {
            Ok(IbcEvent::CloseInitChannel(_)) => Ok(()),
            Ok(_) => {
                proof {
                    assert(false);
                }
                Err(Error::ProtocolViolation(Step::ChannelCloseInit))
            },
            Err(_) => Err(Error::ProtocolViolation(Step::ChannelCloseInit)),
        }
    }

    /// Closes the counterpart end on chain `b`: proves `a`'s Closed end at
    /// `a`'s latest height and dispatches CloseConfirm; on success `b`'s
    /// end is Closed too.
    pub fn channel_close_confirm_on_b(
        ctx_b: &mut Chain,
        ctx_a: &Chain,
        chan_id_on_a: ChannelId,
        port_id_on_a: PortId,
        chan_id_on_b: ChannelId,
        port_id_on_b: PortId,
        signer: Signer,
    ) -> (r: Result<(), Error>)
        requires
            old(ctx_b).well_formed(),
            ctx_a.well_formed(),
            channel_exists(*ctx_a, port_id_on_a, chan_id_on_a),
            old(ctx_b).latest_height.revision_height < u64::MAX,
            old(ctx_b).latest_timestamp + old(ctx_b).block_time <= u64::MAX,
        ensures
            final(ctx_b).well_formed(),
            same_chain(*old(ctx_b), *final(ctx_b)),
            r is Ok <==> {
                &&& channel_exists(*old(ctx_b), port_id_on_b, chan_id_on_b)
                &&& channel_at(*old(ctx_b), chan_id_on_b).state == ChannelState::Open
                &&& client_of(
                    *old(ctx_b),
                    connection_at(
                        *old(ctx_b),
                        channel_at(*old(ctx_b), chan_id_on_b).connection_id,
                    ).client_id,
                ).trusts(ctx_a.latest_height)
                &&& channel_at(*old(ctx_b), chan_id_on_b).counterparty_port_id == port_id_on_a
                &&& channel_at(*old(ctx_b), chan_id_on_b).counterparty_channel_id == Some(
                    chan_id_on_a,
                )
                &&& channel_at(*ctx_a, chan_id_on_a).state == ChannelState::Closed
                &&& channel_at(*ctx_a, chan_id_on_a).counterparty_channel_id == Some(chan_id_on_b)
            },
            match r {
                Ok(_) => {
                    &&& final(ctx_b).channels@ == old(ctx_b).channels@.update(
                        chan_id_on_b.0 as int,
                        crate::channel::ChannelEnd {
                            state: ChannelState::Closed,
                            ordering: channel_at(*old(ctx_b), chan_id_on_b).ordering,
                            port_id: channel_at(*old(ctx_b), chan_id_on_b).port_id,
                            connection_id: channel_at(*old(ctx_b), chan_id_on_b).connection_id,
                            counterparty_port_id: channel_at(
                                *old(ctx_b),
                                chan_id_on_b,
                            ).counterparty_port_id,
                            counterparty_channel_id: channel_at(
                                *old(ctx_b),
                                chan_id_on_b,
                            ).counterparty_channel_id,
                            version: channel_at(*old(ctx_b), chan_id_on_b).version,
                        },
                    )
                    &&& final(ctx_b).clients@ == old(ctx_b).clients@
                    &&& final(ctx_b).connections@ == old(ctx_b).connections@
                    &&& final(ctx_b).latest_height.revision_height == old(
                        ctx_b,
                    ).latest_height.revision_height + 1
                    &&& final(ctx_b).latest_timestamp == old(ctx_b).latest_timestamp + old(
                        ctx_b,
                    ).block_time
                    &&& final(ctx_b).events@ == old(ctx_b).events@.push(
                        IbcEvent::CloseConfirmChannel(chan_id_on_b),
                    )
                },
                Err(e) => *final(ctx_b) == *old(ctx_b) && e == Error::ProtocolViolation(
                    Step::ChannelCloseConfirm,
                ),
            },
    {
        let proof_height_on_a = ctx_a.host_height();
        let proof_chan_end_on_a = match ctx_a.get_proof(
            proof_height_on_a,
            Path::ChannelEnd(port_id_on_a, chan_id_on_a),
        ) {
            Ok(p) => p,
            Err(_) => {
                proof {
                    assert(false);
                }
                return Err(Error::ProtocolViolation(Step::ChannelCloseConfirm));
            },
        };
        let msg_for_b = Msg::ChannelCloseConfirm(
            MsgChannelCloseConfirm {
                port_id_on_b,
                chan_id_on_b,
                proof_chan_end_on_a,
                proof_height_on_a,
                signer,
            },
        );
        match ctx_b.deliver(msg_for_b) {
            Ok(IbcEvent::CloseConfirmChannel(_)) => Ok(()),
            Ok(_) => {
                proof {
                    assert(false);
                }
                Err(Error::ProtocolViolation(Step::ChannelCloseConfirm))
            },
            Err(_) => Err(Error::ProtocolViolation(Step::ChannelCloseConfirm)),
        }
    }

    /// Runs the full connection handshake between the two chains, in the
    /// fixed order OpenInit, sync and update `b`'s client, OpenTry, sync
    /// and update `a`'s client, OpenAck, sync and update `b`'s client,
    /// OpenConfirm, sync and update `a`'s client. Given a client on each
    /// chain whose trusted height lies in the counterparty's history, it
    /// always terminates with a connection end in state Open on both
    /// chains, each recording the other's connection identifier.
    #[verifier::rlimit(100)]
    #[verifier::spinoff_prover]
    pub fn create_connection_on_a(
        ctx_a: &mut Chain,
        ctx_b: &mut Chain,
        client_id_on_a: ClientId,
        client_id_on_b: ClientId,
        signer: Signer,
    ) -> (r: Result<(ConnectionId, ConnectionId), Error>)
        requires
            old(ctx_a).well_formed(),
            old(ctx_b).well_formed(),
            client_exists(*old(ctx_a), client_id_on_a),
            client_exists(*old(ctx_b), client_id_on_b),
            old(ctx_b).has_block(
                client_of(*old(ctx_a), client_id_on_a).client_state.latest_height,
            ),
            old(ctx_a).has_block(
                client_of(*old(ctx_b), client_id_on_b).client_state.latest_height,
            ),
            max_ts(*old(ctx_a), *old(ctx_b)) + 16 * max_bt(*old(ctx_a), *old(ctx_b))
                <= u64::MAX,
            old(ctx_a).latest_height.revision_height + ts_gap(*old(ctx_a), *old(ctx_b)) + 16
                * max_bt(*old(ctx_a), *old(ctx_b)) + 8 <= u64::MAX,
            old(ctx_b).latest_height.revision_height + ts_gap(*old(ctx_a), *old(ctx_b)) + 16
                * max_bt(*old(ctx_a), *old(ctx_b)) + 8 <= u64::MAX,
        ensures
            final(ctx_a).well_formed(),
            final(ctx_b).well_formed(),
            same_chain(*old(ctx_a), *final(ctx_a)),
            same_chain(*old(ctx_b), *final(ctx_b)),
            r is Ok,
            match r {
                Ok((conn_id_on_a, conn_id_on_b)) => {
                    &&& conn_id_on_a == (ConnectionId(old(ctx_a).connections@.len() as u64))
                    &&& conn_id_on_b == (ConnectionId(old(ctx_b).connections@.len() as u64))
                    &&& connection_exists(*final(ctx_a), conn_id_on_a)
                    &&& connection_exists(*final(ctx_b), conn_id_on_b)
                    &&& connection_at(*final(ctx_a), conn_id_on_a) == (
                    crate::connection::ConnectionEnd {
                        state: ConnectionState::Open,
                        client_id: client_id_on_a,
                        counterparty_client_id: client_id_on_b,
                        counterparty_connection_id: Some(conn_id_on_b),
                        version: DEFAULT_CONNECTION_VERSION,
                    })
                    &&& connection_at(*final(ctx_b), conn_id_on_b) == (
                    crate::connection::ConnectionEnd {
                        state: ConnectionState::Open,
                        client_id: client_id_on_b,
                        counterparty_client_id: client_id_on_a,
                        counterparty_connection_id: Some(conn_id_on_a),
                        version: DEFAULT_CONNECTION_VERSION,
                    })
                    &&& final(ctx_a).connections@.len() == old(ctx_a).connections@.len() + 1
                    &&& final(ctx_b).connections@.len() == old(ctx_b).connections@.len() + 1
                    &&& final(ctx_a).channels@ == old(ctx_a).channels@
                    &&& final(ctx_b).channels@ == old(ctx_b).channels@
                    &&& final(ctx_a).clients@.len() == old(ctx_a).clients@.len()
                    &&& final(ctx_b).clients@.len() == old(ctx_b).clients@.len()
                    &&& client_of(*final(ctx_a), client_id_on_a).client_state.latest_height
                        == final(ctx_b).latest_height
                    &&& height_le(
                        client_of(*final(ctx_b), client_id_on_b).client_state.latest_height,
                        final(ctx_a).latest_height,
                    )
                },
                Err(_) => false,
            },
            // what the next composite needs: the clients still exist, each
            // trusted height is a retained block of the counterparty, and
            // clocks and heights grew by a bounded amount
            client_exists(*final(ctx_a), client_id_on_a),
            client_exists(*final(ctx_b), client_id_on_b),
            final(ctx_b).has_block(
                client_of(*final(ctx_a), client_id_on_a).client_state.latest_height,
            ),
            final(ctx_a).has_block(
                client_of(*final(ctx_b), client_id_on_b).client_state.latest_height,
            ),
            final(ctx_a).latest_timestamp <= max_ts(*old(ctx_a), *old(ctx_b)) + 12 * max_bt(
                *old(ctx_a),
                *old(ctx_b),
            ),
            final(ctx_b).latest_timestamp <= max_ts(*old(ctx_a), *old(ctx_b)) + 12 * max_bt(
                *old(ctx_a),
                *old(ctx_b),
            ),
            ts_gap(*final(ctx_a), *final(ctx_b)) <= 2 * max_bt(*old(ctx_a), *old(ctx_b)),
            final(ctx_a).latest_height.revision_height <= old(ctx_a).latest_height.revision_height
                + ts_gap(*old(ctx_a), *old(ctx_b)) + 12 * max_bt(*old(ctx_a), *old(ctx_b)) + 4,
            final(ctx_b).latest_height.revision_height <= old(ctx_b).latest_height.revision_height
                + ts_gap(*old(ctx_a), *old(ctx_b)) + 12 * max_bt(*old(ctx_a), *old(ctx_b)) + 4,
            // the fixed message order of the handshake, as each chain's
            // event log records it
            final(ctx_a).events@ == old(ctx_a).events@ + seq![
                IbcEvent::OpenInitConnection(ConnectionId(old(ctx_a).connections@.len() as u64)),
                IbcEvent::UpdateClient(client_id_on_a),
                IbcEvent::OpenAckConnection(ConnectionId(old(ctx_a).connections@.len() as u64)),
                IbcEvent::UpdateClient(client_id_on_a),
            ],
            final(ctx_b).events@ == old(ctx_b).events@ + seq![
                IbcEvent::UpdateClient(client_id_on_b),
                IbcEvent::OpenTryConnection(ConnectionId(old(ctx_b).connections@.len() as u64)),
                IbcEvent::UpdateClient(client_id_on_b),
                IbcEvent::OpenConfirmConnection(ConnectionId(old(ctx_b).connections@.len() as u64)),
            ],
    {
        let ghost trusted_a0 = client_of(*old(ctx_a), client_id_on_a).client_state.latest_height;
        let ghost trusted_b0 = client_of(*old(ctx_b), client_id_on_b).client_state.latest_height;
        let ghost m0: int = max_ts(*old(ctx_a), *old(ctx_b));
        let ghost g0: int = ts_gap(*old(ctx_a), *old(ctx_b));
        let ghost bb: int = max_bt(*old(ctx_a), *old(ctx_b));
        let conn_id_on_a = match Self::connection_open_init_on_a(
            ctx_a,
            client_id_on_a,
            client_id_on_b,
            signer,
        ) {
            Ok(id) => id,
            Err(_) => {
                proof {
                    assert(false);
                }
                return Err(Error::ProtocolViolation(Step::ConnectionOpenInit));
            },
        };
        let ghost a1 = *ctx_a;
        proof {
            lemma_latest_height_revision(*old(ctx_a));
            lemma_latest_height_revision(a1);
            assert(old(ctx_a).connections.len() == old(ctx_a).connections@.len());
            assert(height_lt(trusted_b0, a1.latest_height));
            assert(a1.has_block(trusted_b0));
        }
        if Self::update_client_on_a_with_sync(ctx_b, ctx_a, client_id_on_b, signer).is_err() {
            proof {
                assert(false);
            }
            return Err(Error::ProtocolViolation(Step::UpdateClient));
        }
        let ghost a2 = *ctx_a;
        let ghost b2 = *ctx_b;
        proof {
            lemma_latest_height_revision(*old(ctx_b));
            lemma_latest_height_revision(b2);
            assert(b2.connections.len() == b2.connections@.len());
            assert(old(ctx_b).connections.len() == old(ctx_b).connections@.len());
            assert(a2.latest_timestamp <= m0 + 2 * bb);
            assert(b2.latest_timestamp <= m0 + 3 * bb);
            assert(ts_gap(a2, b2) <= 2 * bb);
            assert(a2.latest_height.revision_height
                <= old(ctx_a).latest_height.revision_height + g0 + bb + 1);
            assert(b2.latest_height.revision_height
                <= old(ctx_b).latest_height.revision_height + g0 + bb + 1);
            assert(client_of(b2, client_id_on_b).client_state.latest_height == a2.latest_height);
            assert(client_of(a2, client_id_on_a).client_state.latest_height == trusted_a0);
            assert(height_le(trusted_a0, b2.latest_height));
        }
        let conn_id_on_b = match Self::connection_open_try_on_b(
            ctx_b,
            ctx_a,
            conn_id_on_a,
            client_id_on_a,
            client_id_on_b,
            signer,
        ) {
            Ok(id) => id,
            Err(_) => {
                proof {
                    assert(false);
                }
                return Err(Error::ProtocolViolation(Step::ConnectionOpenTry));
            },
        };
        let ghost b3 = *ctx_b;
        proof {
            lemma_latest_height_revision(b3);
            assert(b3.latest_height.revision_height >= b2.latest_height.revision_height + 1);
            assert(height_lt(trusted_a0, b3.latest_height));
            assert(b3.has_block(trusted_a0));
            assert(b3.latest_timestamp <= m0 + 4 * bb);
            assert(ts_gap(a2, b3) <= 3 * bb);
            assert(b3.latest_height.revision_height
                <= old(ctx_b).latest_height.revision_height + g0 + bb + 2);
        }
        if Self::update_client_on_a_with_sync(ctx_a, ctx_b, client_id_on_a, signer).is_err() {
            proof {
                assert(false);
            }
            return Err(Error::ProtocolViolation(Step::UpdateClient));
        }
        let ghost a4 = *ctx_a;
        let ghost b4 = *ctx_b;
        proof {
            lemma_latest_height_revision(a4);
            lemma_latest_height_revision(b4);
            assert(client_of(a4, client_id_on_a).client_state.latest_height == b4.latest_height);
            assert(connection_at(a4, conn_id_on_a).state == ConnectionState::Init);
            assert(connection_at(b4, conn_id_on_b).state == ConnectionState::TryOpen);
            assert(height_le(
                client_of(b4, client_id_on_b).client_state.latest_height,
                a4.latest_height,
            ));
            assert(a4.latest_timestamp <= m0 + 6 * bb);
            assert(b4.latest_timestamp <= m0 + 5 * bb);
            assert(ts_gap(a4, b4) <= 2 * bb);
            assert(a4.latest_height.revision_height
                <= old(ctx_a).latest_height.revision_height + g0 + 4 * bb + 2);
            assert(b4.latest_height.revision_height
                <= old(ctx_b).latest_height.revision_height + g0 + 4 * bb + 2);
        }
        if Self::connection_open_ack_on_a(
            ctx_a,
            ctx_b,
            conn_id_on_a,
            conn_id_on_b,
            client_id_on_b,
            signer,
        ).is_err() {
            proof {
                assert(false);
            }
            return Err(Error::ProtocolViolation(Step::ConnectionOpenAck));
        }
        let ghost a5 = *ctx_a;
        proof {
            lemma_latest_height_revision(a5);
            assert(client_of(b4, client_id_on_b).client_state.latest_height == a2.latest_height);
            assert(a5.latest_height.revision_height >= a2.latest_height.revision_height + 1);
            assert(height_lt(
                client_of(*ctx_b, client_id_on_b).client_state.latest_height,
                a5.latest_height,
            ));
            assert(a5.has_block(client_of(*ctx_b, client_id_on_b).client_state.latest_height));
            assert(a5.latest_timestamp <= m0 + 7 * bb);
            assert(ts_gap(a5, b4) <= 3 * bb);
            assert(a5.latest_height.revision_height
                <= old(ctx_a).latest_height.revision_height + g0 + 4 * bb + 3);
        }
        if Self::update_client_on_a_with_sync(ctx_b, ctx_a, client_id_on_b, signer).is_err() {
            proof {
                assert(false);
            }
            return Err(Error::ProtocolViolation(Step::UpdateClient));
        }
        let ghost a6 = *ctx_a;
        let ghost b6 = *ctx_b;
        proof {
            lemma_latest_height_revision(a6);
            lemma_latest_height_revision(b6);
            assert(client_of(b6, client_id_on_b).client_state.latest_height == a6.latest_height);
            assert(connection_at(a6, conn_id_on_a).state == ConnectionState::Open);
            assert(connection_at(b6, conn_id_on_b).state == ConnectionState::TryOpen);
            assert(a6.latest_timestamp <= m0 + 8 * bb);
            assert(b6.latest_timestamp <= m0 + 9 * bb);
            assert(ts_gap(a6, b6) <= 2 * bb);
            assert(a6.latest_height.revision_height
                <= old(ctx_a).latest_height.revision_height + g0 + 7 * bb + 3);
            assert(b6.latest_height.revision_height
                <= old(ctx_b).latest_height.revision_height + g0 + 7 * bb + 3);
        }
        if Self::connection_open_confirm_on_b(ctx_b, ctx_a, conn_id_on_a, conn_id_on_b, signer)
            .is_err() {
            proof {
                assert(false);
            }
            return Err(Error::ProtocolViolation(Step::ConnectionOpenConfirm));
        }
        let ghost b7 = *ctx_b;
        proof {
            lemma_latest_height_revision(b7);
            assert(client_of(a6, client_id_on_a).client_state.latest_height == b4.latest_height);
            assert(b7.latest_height.revision_height >= b4.latest_height.revision_height + 1);
            assert(height_lt(
                client_of(*ctx_a, client_id_on_a).client_state.latest_height,
                b7.latest_height,
            ));
            assert(b7.has_block(client_of(*ctx_a, client_id_on_a).client_state.latest_height));
            assert(b7.latest_timestamp <= m0 + 10 * bb);
            assert(ts_gap(a6, b7) <= 3 * bb);
            assert(b7.latest_height.revision_height
                <= old(ctx_b).latest_height.revision_height + g0 + 7 * bb + 4);
        }
        if Self::update_client_on_a_with_sync(ctx_a, ctx_b, client_id_on_a, signer).is_err() {
            proof {
                assert(false);
            }
            return Err(Error::ProtocolViolation(Step::UpdateClient));
        }
        proof {
            assert(ctx_a.latest_timestamp <= m0 + 12 * bb);
            assert(ctx_b.latest_timestamp <= m0 + 11 * bb);
            assert(ts_gap(*ctx_a, *ctx_b) <= 2 * bb);
            assert(ctx_a.latest_height.revision_height
                <= old(ctx_a).latest_height.revision_height + g0 + 10 * bb + 4);
            assert(ctx_b.latest_height.revision_height
                <= old(ctx_b).latest_height.revision_height + g0 + 10 * bb + 4);
            lemma_own_latest_has_block(*ctx_b);
            lemma_own_latest_has_block(a6);
            lemma_has_block_preserved(a6, *ctx_a, a6.latest_height);
            assert(ctx_a.events@ =~= old(ctx_a).events@ + seq![
                IbcEvent::OpenInitConnection(ConnectionId(old(ctx_a).connections@.len() as u64)),
                IbcEvent::UpdateClient(client_id_on_a),
                IbcEvent::OpenAckConnection(ConnectionId(old(ctx_a).connections@.len() as u64)),
                IbcEvent::UpdateClient(client_id_on_a),
            ]);
            assert(ctx_b.events@ =~= old(ctx_b).events@ + seq![
                IbcEvent::UpdateClient(client_id_on_b),
                IbcEvent::OpenTryConnection(ConnectionId(old(ctx_b).connections@.len() as u64)),
                IbcEvent::UpdateClient(client_id_on_b),
                IbcEvent::OpenConfirmConnection(ConnectionId(old(ctx_b).connections@.len() as u64)),
            ]);
        }
        Ok((conn_id_on_a, conn_id_on_b))
    }

    /// Runs the full channel handshake between the two chains over an
    /// already Open connection, in the fixed order OpenInit, sync and
    /// update `b`'s client, OpenTry, sync and update `a`'s client,
    /// OpenAck, sync and update `b`'s client, OpenConfirm, sync and update
    /// `a`'s client. It always terminates with an Unordered channel end in
    /// state Open on both chains, each recording the other's channel
    /// identifier and port.
    #[verifier::rlimit(100)]
    #[verifier::spinoff_prover]
    pub fn create_channel_on_a(
        ctx_a: &mut Chain,
        ctx_b: &mut Chain,
        client_id_on_a: ClientId,
        conn_id_on_a: ConnectionId,
        port_id_on_a: PortId,
        client_id_on_b: ClientId,
        conn_id_on_b: ConnectionId,
        port_id_on_b: PortId,
        signer: Signer,
    ) -> (r: Result<(ChannelId, ChannelId), Error>)
        requires
            old(ctx_a).well_formed(),
            old(ctx_b).well_formed(),
            client_exists(*old(ctx_a), client_id_on_a),
            client_exists(*old(ctx_b), client_id_on_b),
            old(ctx_b).has_block(
                client_of(*old(ctx_a), client_id_on_a).client_state.latest_height,
            ),
            old(ctx_a).has_block(
                client_of(*old(ctx_b), client_id_on_b).client_state.latest_height,
            ),
            connection_exists(*old(ctx_a), conn_id_on_a),
            connection_at(*old(ctx_a), conn_id_on_a).state == ConnectionState::Open,
            connection_at(*old(ctx_a), conn_id_on_a).client_id == client_id_on_a,
            connection_exists(*old(ctx_b), conn_id_on_b),
            connection_at(*old(ctx_b), conn_id_on_b).state == ConnectionState::Open,
            connection_at(*old(ctx_b), conn_id_on_b).client_id == client_id_on_b,
            max_ts(*old(ctx_a), *old(ctx_b)) + 16 * max_bt(*old(ctx_a), *old(ctx_b))
                <= u64::MAX,
            old(ctx_a).latest_height.revision_height + ts_gap(*old(ctx_a), *old(ctx_b)) + 16
                * max_bt(*old(ctx_a), *old(ctx_b)) + 8 <= u64::MAX,
            old(ctx_b).latest_height.revision_height + ts_gap(*old(ctx_a), *old(ctx_b)) + 16
                * max_bt(*old(ctx_a), *old(ctx_b)) + 8 <= u64::MAX,
        ensures
            final(ctx_a).well_formed(),
            final(ctx_b).well_formed(),
            same_chain(*old(ctx_a), *final(ctx_a)),
            same_chain(*old(ctx_b), *final(ctx_b)),
            r is Ok,
            match r {
                Ok((chan_id_on_a, chan_id_on_b)) => {
                    &&& chan_id_on_a == (ChannelId(old(ctx_a).channels@.len() as u64))
                    &&& chan_id_on_b == (ChannelId(old(ctx_b).channels@.len() as u64))
                    &&& channel_exists(*final(ctx_a), port_id_on_a, chan_id_on_a)
                    &&& channel_exists(*final(ctx_b), port_id_on_b, chan_id_on_b)
                    &&& channel_at(*final(ctx_a), chan_id_on_a) == (crate::channel::ChannelEnd {
                        state: ChannelState::Open,
                        ordering: Order::Unordered,
                        port_id: port_id_on_a,
                        connection_id: conn_id_on_a,
                        counterparty_port_id: port_id_on_b,
                        counterparty_channel_id: Some(chan_id_on_b),
                        version: EMPTY_CHANNEL_VERSION,
                    })
                    &&& channel_at(*final(ctx_b), chan_id_on_b) == (crate::channel::ChannelEnd {
                        state: ChannelState::Open,
                        ordering: Order::Unordered,
                        port_id: port_id_on_b,
                        connection_id: conn_id_on_b,
                        counterparty_port_id: port_id_on_a,
                        counterparty_channel_id: Some(chan_id_on_a),
                        version: EMPTY_CHANNEL_VERSION,
                    })
                    &&& final(ctx_a).channels@.len() == old(ctx_a).channels@.len() + 1
                    &&& final(ctx_b).channels@.len() == old(ctx_b).channels@.len() + 1
                    &&& final(ctx_a).connections@ == old(ctx_a).connections@
                    &&& final(ctx_b).connections@ == old(ctx_b).connections@
                    &&& final(ctx_a).clients@.len() == old(ctx_a).clients@.len()
                    &&& final(ctx_b).clients@.len() == old(ctx_b).clients@.len()
                    &&& client_of(*final(ctx_a), client_id_on_a).client_state.latest_height
                        == final(ctx_b).latest_height
                    &&& height_le(
                        client_of(*final(ctx_b), client_id_on_b).client_state.latest_height,
                        final(ctx_a).latest_height,
                    )
                },
                Err(_) => false,
            },
            // what a following tear-down needs: the clients still exist,
            // each trusted height is a retained block of the counterparty,
            // and clocks and heights grew by a bounded amount
            client_exists(*final(ctx_a), client_id_on_a),
            client_exists(*final(ctx_b), client_id_on_b),
            final(ctx_b).has_block(
                client_of(*final(ctx_a), client_id_on_a).client_state.latest_height,
            ),
            final(ctx_a).has_block(
                client_of(*final(ctx_b), client_id_on_b).client_state.latest_height,
            ),
            final(ctx_a).latest_timestamp <= max_ts(*old(ctx_a), *old(ctx_b)) + 12 * max_bt(
                *old(ctx_a),
                *old(ctx_b),
            ),
            final(ctx_b).latest_timestamp <= max_ts(*old(ctx_a), *old(ctx_b)) + 12 * max_bt(
                *old(ctx_a),
                *old(ctx_b),
            ),
            ts_gap(*final(ctx_a), *final(ctx_b)) <= 2 * max_bt(*old(ctx_a), *old(ctx_b)),
            final(ctx_a).latest_height.revision_height <= old(ctx_a).latest_height.revision_height
                + ts_gap(*old(ctx_a), *old(ctx_b)) + 12 * max_bt(*old(ctx_a), *old(ctx_b)) + 4,
            final(ctx_b).latest_height.revision_height <= old(ctx_b).latest_height.revision_height
                + ts_gap(*old(ctx_a), *old(ctx_b)) + 12 * max_bt(*old(ctx_a), *old(ctx_b)) + 4,
            // the fixed message order of the handshake, as each chain's
            // event log records it
            final(ctx_a).events@ == old(ctx_a).events@ + seq![
                IbcEvent::OpenInitChannel(ChannelId(old(ctx_a).channels@.len() as u64)),
                IbcEvent::UpdateClient(client_id_on_a),
                IbcEvent::OpenAckChannel(ChannelId(old(ctx_a).channels@.len() as u64)),
                IbcEvent::UpdateClient(client_id_on_a),
            ],
            final(ctx_b).events@ == old(ctx_b).events@ + seq![
                IbcEvent::UpdateClient(client_id_on_b),
                IbcEvent::OpenTryChannel(ChannelId(old(ctx_b).channels@.len() as u64)),
                IbcEvent::UpdateClient(client_id_on_b),
                IbcEvent::OpenConfirmChannel(ChannelId(old(ctx_b).channels@.len() as u64)),
            ],
    {
        let ghost trusted_a0 = client_of(*old(ctx_a), client_id_on_a).client_state.latest_height;
        let ghost trusted_b0 = client_of(*old(ctx_b), client_id_on_b).client_state.latest_height;
        let ghost m0: int = max_ts(*old(ctx_a), *old(ctx_b));
        let ghost g0: int = ts_gap(*old(ctx_a), *old(ctx_b));
        let ghost bb: int = max_bt(*old(ctx_a), *old(ctx_b));
        let chan_id_on_a = match Self::channel_open_init_on_a(
            ctx_a,
            conn_id_on_a,
            port_id_on_a,
            port_id_on_b,
            signer,
        ) {
            Ok(id) => id,
            Err(_) => {
                proof {
                    assert(false);
                }
                return Err(Error::ProtocolViolation(Step::ChannelOpenInit));
            },
        };
        let ghost a1 = *ctx_a;
        proof {
            lemma_latest_height_revision(*old(ctx_a));
            lemma_latest_height_revision(a1);
            assert(old(ctx_a).channels.len() == old(ctx_a).channels@.len());
            assert(height_lt(trusted_b0, a1.latest_height));
            assert(a1.has_block(trusted_b0));
        }
        if Self::update_client_on_a_with_sync(ctx_b, ctx_a, client_id_on_b, signer).is_err() {
            proof {
                assert(false);
            }
            return Err(Error::ProtocolViolation(Step::UpdateClient));
        }
        let ghost a2 = *ctx_a;
        let ghost b2 = *ctx_b;
        proof {
            lemma_latest_height_revision(*old(ctx_b));
            lemma_latest_height_revision(b2);
            assert(b2.channels.len() == b2.channels@.len());
            assert(client_of(b2, client_id_on_b).client_state.latest_height == a2.latest_height);
            assert(channel_at(a2, chan_id_on_a).state == ChannelState::Init);
            assert(connection_at(b2, conn_id_on_b).state == ConnectionState::Open);
            assert(a2.latest_timestamp <= m0 + 2 * bb);
            assert(b2.latest_timestamp <= m0 + 3 * bb);
            assert(ts_gap(a2, b2) <= 2 * bb);
            assert(a2.latest_height.revision_height
                <= old(ctx_a).latest_height.revision_height + g0 + bb + 1);
            assert(b2.latest_height.revision_height
                <= old(ctx_b).latest_height.revision_height + g0 + bb + 1);
        }
        let chan_id_on_b = match Self::channel_open_try_on_b(
            ctx_b,
            ctx_a,
            conn_id_on_b,
            chan_id_on_a,
            port_id_on_a,
            port_id_on_b,
            signer,
        ) {
            Ok(id) => id,
            Err(_) => {
                proof {
                    assert(false);
                }
                return Err(Error::ProtocolViolation(Step::ChannelOpenTry));
            },
        };
        let ghost b3 = *ctx_b;
        proof {
            lemma_latest_height_revision(b3);
            assert(b3.latest_height.revision_height >= b2.latest_height.revision_height + 1);
            assert(height_lt(trusted_a0, b3.latest_height));
            assert(b3.has_block(trusted_a0));
        }
        if Self::update_client_on_a_with_sync(ctx_a, ctx_b, client_id_on_a, signer).is_err() {
            proof {
                assert(false);
            }
            return Err(Error::ProtocolViolation(Step::UpdateClient));
        }
        let ghost a4 = *ctx_a;
        let ghost b4 = *ctx_b;
        proof {
            lemma_latest_height_revision(a4);
            lemma_latest_height_revision(b4);
            assert(client_of(a4, client_id_on_a).client_state.latest_height == b4.latest_height);
            assert(channel_at(a4, chan_id_on_a).state == ChannelState::Init);
            assert(channel_at(a4, chan_id_on_a).connection_id == conn_id_on_a);
            assert(connection_at(a4, conn_id_on_a).client_id == client_id_on_a);
            assert(channel_at(b4, chan_id_on_b).state == ChannelState::TryOpen);
            assert(b3.latest_timestamp <= m0 + 4 * bb);
            assert(a4.latest_timestamp <= m0 + 6 * bb);
            assert(b4.latest_timestamp <= m0 + 5 * bb);
            assert(ts_gap(a4, b4) <= 2 * bb);
            assert(a4.latest_height.revision_height
                <= old(ctx_a).latest_height.revision_height + g0 + 4 * bb + 2);
            assert(b4.latest_height.revision_height
                <= old(ctx_b).latest_height.revision_height + g0 + 4 * bb + 2);
        }
        if Self::channel_open_ack_on_a(
            ctx_a,
            ctx_b,
            chan_id_on_a,
            port_id_on_a,
            chan_id_on_b,
            port_id_on_b,
            signer,
        ).is_err() {
            proof {
                assert(false);
            }
            return Err(Error::ProtocolViolation(Step::ChannelOpenAck));
        }
        let ghost a5 = *ctx_a;
        proof {
            lemma_latest_height_revision(a5);
            assert(client_of(b4, client_id_on_b).client_state.latest_height == a2.latest_height);
            assert(a5.latest_height.revision_height >= a2.latest_height.revision_height + 1);
            assert(height_lt(
                client_of(*ctx_b, client_id_on_b).client_state.latest_height,
                a5.latest_height,
            ));
            assert(a5.has_block(client_of(*ctx_b, client_id_on_b).client_state.latest_height));
        }
        if Self::update_client_on_a_with_sync(ctx_b, ctx_a, client_id_on_b, signer).is_err() {
            proof {
                assert(false);
            }
            return Err(Error::ProtocolViolation(Step::UpdateClient));
        }
        let ghost a6 = *ctx_a;
        let ghost b6 = *ctx_b;
        proof {
            lemma_latest_height_revision(a6);
            lemma_latest_height_revision(b6);
            assert(client_of(b6, client_id_on_b).client_state.latest_height == a6.latest_height);
            assert(channel_at(a6, chan_id_on_a).state == ChannelState::Open);
            assert(channel_at(b6, chan_id_on_b).state == ChannelState::TryOpen);
            assert(channel_at(b6, chan_id_on_b).connection_id == conn_id_on_b);
            assert(connection_at(b6, conn_id_on_b).client_id == client_id_on_b);
            assert(a5.latest_timestamp <= m0 + 7 * bb);
            assert(a6.latest_timestamp <= m0 + 8 * bb);
            assert(b6.latest_timestamp <= m0 + 9 * bb);
            assert(ts_gap(a6, b6) <= 2 * bb);
            assert(a5.latest_height.revision_height
                <= old(ctx_a).latest_height.revision_height + g0 + 4 * bb + 3);
            assert(a6.latest_height.revision_height
                <= old(ctx_a).latest_height.revision_height + g0 + 7 * bb + 3);
            assert(b6.latest_height.revision_height
                <= old(ctx_b).latest_height.revision_height + g0 + 7 * bb + 3);
        }
        if Self::channel_open_confirm_on_b(
            ctx_b,
            ctx_a,
            chan_id_on_a,
            port_id_on_a,
            chan_id_on_b,
            port_id_on_b,
            signer,
        ).is_err() {
            proof {
                assert(false);
            }
            return Err(Error::ProtocolViolation(Step::ChannelOpenConfirm));
        }
        let ghost b7 = *ctx_b;
        proof {
            lemma_latest_height_revision(b7);
            assert(client_of(a6, client_id_on_a).client_state.latest_height == b4.latest_height);
            assert(b7.latest_height.revision_height >= b4.latest_height.revision_height + 1);
            assert(height_lt(
                client_of(*ctx_a, client_id_on_a).client_state.latest_height,
                b7.latest_height,
            ));
            assert(b7.has_block(client_of(*ctx_a, client_id_on_a).client_state.latest_height));
            assert(b7.latest_timestamp <= m0 + 10 * bb);
            assert(b7.latest_height.revision_height
                <= old(ctx_b).latest_height.revision_height + g0 + 7 * bb + 4);
        }
        if Self::update_client_on_a_with_sync(ctx_a, ctx_b, client_id_on_a, signer).is_err() {
            proof {
                assert(false);
            }
            return Err(Error::ProtocolViolation(Step::UpdateClient));
        }
        proof {
            assert(ctx_a.latest_timestamp <= m0 + 12 * bb);
            assert(ctx_b.latest_timestamp <= m0 + 11 * bb);
            assert(ts_gap(*ctx_a, *ctx_b) <= 2 * bb);
            assert(ctx_a.latest_height.revision_height
                <= old(ctx_a).latest_height.revision_height + g0 + 10 * bb + 4);
            assert(ctx_b.latest_height.revision_height
                <= old(ctx_b).latest_height.revision_height + g0 + 10 * bb + 4);
            lemma_own_latest_has_block(*ctx_b);
            lemma_own_latest_has_block(a6);
            lemma_has_block_preserved(a6, *ctx_a, a6.latest_height);
            assert(ctx_a.events@ =~= old(ctx_a).events@ + seq![
                IbcEvent::OpenInitChannel(ChannelId(old(ctx_a).channels@.len() as u64)),
                IbcEvent::UpdateClient(client_id_on_a),
                IbcEvent::OpenAckChannel(ChannelId(old(ctx_a).channels@.len() as u64)),
                IbcEvent::UpdateClient(client_id_on_a),
            ]);
            assert(ctx_b.events@ =~= old(ctx_b).events@ + seq![
                IbcEvent::UpdateClient(client_id_on_b),
                IbcEvent::OpenTryChannel(ChannelId(old(ctx_b).channels@.len() as u64)),
                IbcEvent::UpdateClient(client_id_on_b),
                IbcEvent::OpenConfirmChannel(ChannelId(old(ctx_b).channels@.len() as u64)),
            ]);
        }
        Ok((chan_id_on_a, chan_id_on_b))
    }

    /// Tears down an Open channel: CloseInit on chain `a`, sync and update
    /// `b`'s client, CloseConfirm on chain `b`, sync and update `a`'s
    /// client. It always terminates with both channel ends Closed.
    #[verifier::rlimit(100)]
    #[verifier::spinoff_prover]
    pub fn close_channel_on_a(
        ctx_a: &mut Chain,
        ctx_b: &mut Chain,
        client_id_on_a: ClientId,
        chan_id_on_a: ChannelId,
        port_id_on_a: PortId,
        client_id_on_b: ClientId,
        chan_id_on_b: ChannelId,
        port_id_on_b: PortId,
        signer: Signer,
    ) -> (r: Result<(), Error>)
        requires
            old(ctx_a).well_formed(),
            old(ctx_b).well_formed(),
            client_exists(*old(ctx_a), client_id_on_a),
            client_exists(*old(ctx_b), client_id_on_b),
            old(ctx_b).has_block(
                client_of(*old(ctx_a), client_id_on_a).client_state.latest_height,
            ),
            old(ctx_a).has_block(
                client_of(*old(ctx_b), client_id_on_b).client_state.latest_height,
            ),
            channel_exists(*old(ctx_a), port_id_on_a, chan_id_on_a),
            channel_at(*old(ctx_a), chan_id_on_a).state == ChannelState::Open,
            channel_at(*old(ctx_a), chan_id_on_a).counterparty_channel_id == Some(chan_id_on_b),
            channel_exists(*old(ctx_b), port_id_on_b, chan_id_on_b),
            channel_at(*old(ctx_b), chan_id_on_b).state == ChannelState::Open,
            channel_at(*old(ctx_b), chan_id_on_b).counterparty_port_id == port_id_on_a,
            channel_at(*old(ctx_b), chan_id_on_b).counterparty_channel_id == Some(chan_id_on_a),
            connection_at(
                *old(ctx_b),
                channel_at(*old(ctx_b), chan_id_on_b).connection_id,
            ).client_id == client_id_on_b,
            max_ts(*old(ctx_a), *old(ctx_b)) + 16 * max_bt(*old(ctx_a), *old(ctx_b))
                <= u64::MAX,
            old(ctx_a).latest_height.revision_height + ts_gap(*old(ctx_a), *old(ctx_b)) + 16
                * max_bt(*old(ctx_a), *old(ctx_b)) + 8 <= u64::MAX,
            old(ctx_b).latest_height.revision_height + ts_gap(*old(ctx_a), *old(ctx_b)) + 16
                * max_bt(*old(ctx_a), *old(ctx_b)) + 8 <= u64::MAX,
        ensures
            final(ctx_a).well_formed(),
            final(ctx_b).well_formed(),
            same_chain(*old(ctx_a), *final(ctx_a)),
            same_chain(*old(ctx_b), *final(ctx_b)),
            r is Ok,
            channel_exists(*final(ctx_a), port_id_on_a, chan_id_on_a),
            channel_exists(*final(ctx_b), port_id_on_b, chan_id_on_b),
            channel_at(*final(ctx_a), chan_id_on_a).state == ChannelState::Closed,
            channel_at(*final(ctx_b), chan_id_on_b).state == ChannelState::Closed,
            final(ctx_a).channels@.len() == old(ctx_a).channels@.len(),
            final(ctx_b).channels@.len() == old(ctx_b).channels@.len(),
            final(ctx_a).connections@ == old(ctx_a).connections@,
            final(ctx_b).connections@ == old(ctx_b).connections@,
            // the clients still exist, each trusted height is a retained
            // block of the counterparty, and clocks and heights grew by a
            // bounded amount
            client_exists(*final(ctx_a), client_id_on_a),
            client_exists(*final(ctx_b), client_id_on_b),
            client_of(*final(ctx_a), client_id_on_a).client_state.latest_height
                == final(ctx_b).latest_height,
            height_le(
                client_of(*final(ctx_b), client_id_on_b).client_state.latest_height,
                final(ctx_a).latest_height,
            ),
            final(ctx_b).has_block(
                client_of(*final(ctx_a), client_id_on_a).client_state.latest_height,
            ),
            final(ctx_a).has_block(
                client_of(*final(ctx_b), client_id_on_b).client_state.latest_height,
            ),
            final(ctx_a).latest_timestamp <= max_ts(*old(ctx_a), *old(ctx_b)) + 6 * max_bt(
                *old(ctx_a),
                *old(ctx_b),
            ),
            final(ctx_b).latest_timestamp <= max_ts(*old(ctx_a), *old(ctx_b)) + 6 * max_bt(
                *old(ctx_a),
                *old(ctx_b),
            ),
            ts_gap(*final(ctx_a), *final(ctx_b)) <= 2 * max_bt(*old(ctx_a), *old(ctx_b)),
            final(ctx_a).latest_height.revision_height <= old(ctx_a).latest_height.revision_height
                + ts_gap(*old(ctx_a), *old(ctx_b)) + 4 * max_bt(*old(ctx_a), *old(ctx_b)) + 2,
            final(ctx_b).latest_height.revision_height <= old(ctx_b).latest_height.revision_height
                + ts_gap(*old(ctx_a), *old(ctx_b)) + 4 * max_bt(*old(ctx_a), *old(ctx_b)) + 2,
            // the fixed message order of the close, as each chain's event
            // log records it
            final(ctx_a).events@ == old(ctx_a).events@ + seq![
                IbcEvent::CloseInitChannel(chan_id_on_a),
                IbcEvent::UpdateClient(client_id_on_a),
            ],
            final(ctx_b).events@ == old(ctx_b).events@ + seq![
                IbcEvent::UpdateClient(client_id_on_b),
                IbcEvent::CloseConfirmChannel(chan_id_on_b),
            ],
    {
        let ghost trusted_a0 = client_of(*old(ctx_a), client_id_on_a).client_state.latest_height;
        let ghost trusted_b0 = client_of(*old(ctx_b), client_id_on_b).client_state.latest_height;
        let ghost m0: int = max_ts(*old(ctx_a), *old(ctx_b));
        let ghost g0: int = ts_gap(*old(ctx_a), *old(ctx_b));
        let ghost bb: int = max_bt(*old(ctx_a), *old(ctx_b));
        if Self::channel_close_init_on_a(ctx_a, chan_id_on_a, port_id_on_a, signer).is_err() {
            proof {
                assert(false);
            }
            return Err(Error::ProtocolViolation(Step::ChannelCloseInit));
        }
        let ghost a1 = *ctx_a;
        proof {
            lemma_latest_height_revision(*old(ctx_a));
            lemma_latest_height_revision(a1);
            assert(height_lt(trusted_b0, a1.latest_height));
            assert(a1.has_block(trusted_b0));
        }
        if Self::update_client_on_a_with_sync(ctx_b, ctx_a, client_id_on_b, signer).is_err() {
            proof {
                assert(false);
            }
            return Err(Error::ProtocolViolation(Step::UpdateClient));
        }
        let ghost a2 = *ctx_a;
        let ghost b2 = *ctx_b;
        proof {
            lemma_latest_height_revision(*old(ctx_b));
            lemma_latest_height_revision(b2);
            assert(client_of(b2, client_id_on_b).client_state.latest_height == a2.latest_height);
            assert(channel_at(a2, chan_id_on_a).state == ChannelState::Closed);
            assert(channel_at(b2, chan_id_on_b).state == ChannelState::Open);
            assert(a2.latest_timestamp <= m0 + 2 * bb);
            assert(b2.latest_timestamp <= m0 + 3 * bb);
            assert(ts_gap(a2, b2) <= 2 * bb);
            assert(a2.latest_height.revision_height
                <= old(ctx_a).latest_height.revision_height + g0 + bb + 1);
            assert(b2.latest_height.revision_height
                <= old(ctx_b).latest_height.revision_height + g0 + bb + 1);
        }
        if Self::channel_close_confirm_on_b(
            ctx_b,
            ctx_a,
            chan_id_on_a,
            port_id_on_a,
            chan_id_on_b,
            port_id_on_b,
            signer,
        ).is_err() {
            proof {
                assert(false);
            }
            return Err(Error::ProtocolViolation(Step::ChannelCloseConfirm));
        }
        let ghost b3 = *ctx_b;
        proof {
            lemma_latest_height_revision(b3);
            assert(b3.latest_height.revision_height >= b2.latest_height.revision_height + 1);
            assert(height_lt(trusted_a0, b3.latest_height));
            assert(b3.has_block(trusted_a0));
            assert(b3.latest_timestamp <= m0 + 4 * bb);
            assert(ts_gap(a2, b3) <= 3 * bb);
            assert(b3.latest_height.revision_height
                <= old(ctx_b).latest_height.revision_height + g0 + bb + 2);
        }
        if Self::update_client_on_a_with_sync(ctx_a, ctx_b, client_id_on_a, signer).is_err() {
            proof {
                assert(false);
            }
            return Err(Error::ProtocolViolation(Step::UpdateClient));
        }
        proof {
            assert(ctx_a.latest_timestamp <= m0 + 6 * bb);
            assert(ctx_b.latest_timestamp <= m0 + 5 * bb);
            assert(ts_gap(*ctx_a, *ctx_b) <= 2 * bb);
            assert(ctx_a.latest_height.revision_height
                <= old(ctx_a).latest_height.revision_height + g0 + 4 * bb + 2);
            assert(ctx_b.latest_height.revision_height
                <= old(ctx_b).latest_height.revision_height + g0 + 4 * bb + 2);
            lemma_own_latest_has_block(*ctx_b);
            lemma_own_latest_has_block(a2);
            lemma_has_block_preserved(a2, *ctx_a, a2.latest_height);
            assert(client_of(*ctx_b, client_id_on_b).client_state.latest_height
                == a2.latest_height);
            assert(ctx_a.events@ =~= old(ctx_a).events@ + seq![
                IbcEvent::CloseInitChannel(chan_id_on_a),
                IbcEvent::UpdateClient(client_id_on_a),
            ]);
            assert(ctx_b.events@ =~= old(ctx_b).events@ + seq![
                IbcEvent::UpdateClient(client_id_on_b),
                IbcEvent::CloseConfirmChannel(chan_id_on_b),
            ]);
        }
        Ok(())
    }
}

} // verus!
