//! A chain as the handshake coordinator sees it: its identity and clock,
//! its committed block history, and its store of clients, connection ends,
//! channel ends, together with the append-only event log.

use vstd::prelude::*;
use crate::channel::ChannelEnd;
use crate::client::{Client, ClientState, ConsensusState, RegistryEntry};
use crate::connection::ConnectionEnd;
use crate::errors::Error;
use crate::height::Height;
use crate::identifiers::{ChainId, ClientId};
use crate::message::IbcEvent;
use crate::commitment::{CommitmentProof, CommittedValue, Path};

verus! {

/// Nanoseconds between blocks unless configured otherwise.
pub const DEFAULT_BLOCK_TIME_NANOS: u64 = 3_000_000_000;

/// How many recent blocks a chain is asked to retain by default.
pub const DEFAULT_MAX_HISTORY_SIZE: u64 = 5;

/// The revision height a freshly configured chain starts at.
pub const DEFAULT_STARTING_REVISION_HEIGHT: u64 = 5;

/// The first nanosecond of 2023-01-01 UTC: the default starting timestamp.
pub const DEFAULT_GENESIS_TIMESTAMP_NANOS: u64 = 1_672_531_200_000_000_000;

/// One committed block: its height, its timestamp, and a stand-in for the
/// commitment root of the store as of that block.
#[derive(Clone, Copy, PartialEq, Eq, Structural, Debug)]
pub struct Block {
    pub height: Height,
    pub timestamp: u64,
    pub root: u64,
}

/// Configuration for constructing a chain: every field has a documented
/// default, and the whole record is validated eagerly when the chain is
/// built.
#[derive(Clone, Copy, PartialEq, Eq, Structural, Debug)]
pub struct MockContextConfig {
    /// Identity of the chain; its revision number must match the starting
    /// height's.
    pub host_id: ChainId,
    /// Nanoseconds between consecutive blocks; must not be zero.
    pub block_time: u64,
    /// Blocks the chain retains; must not be zero.
    pub max_history_size: u64,
    /// The height the chain starts at; its revision height must not be
    /// zero.
    pub latest_height: Height,
    /// The timestamp of the starting block, in nanoseconds.
    pub latest_timestamp: u64,
}

/// A configuration passes eager validation: non-zero history size, a
/// non-zero starting revision height, a chain identity whose revision
/// matches the starting height's, a non-zero block time, and room for at
/// least one further block timestamp.
pub open spec fn config_valid(c: MockContextConfig) -> bool {
    &&& c.max_history_size != 0
    &&& c.latest_height.revision_height != 0
    &&& c.host_id.revision_number == c.latest_height.revision_number
    &&& c.block_time >= 1
    &&& c.latest_timestamp + c.block_time <= u64::MAX
}

impl Default for MockContextConfig {
    /// The documented defaults: revision 0, three-second blocks, five
    /// retained blocks, starting height 5, starting timestamp at the first
    /// nanosecond of 2023.
    fn default() -> (r: MockContextConfig)
        ensures
            r == (MockContextConfig {
                host_id: ChainId { revision_number: 0 },
                block_time: DEFAULT_BLOCK_TIME_NANOS,
                max_history_size: DEFAULT_MAX_HISTORY_SIZE,
                latest_height: Height {
                    revision_number: 0,
                    revision_height: DEFAULT_STARTING_REVISION_HEIGHT,
                },
                latest_timestamp: DEFAULT_GENESIS_TIMESTAMP_NANOS,
            }),
            config_valid(r),
    {
        MockContextConfig {
            host_id: ChainId { revision_number: 0 },
            block_time: DEFAULT_BLOCK_TIME_NANOS,
            max_history_size: DEFAULT_MAX_HISTORY_SIZE,
            latest_height: Height {
                revision_number: 0,
                revision_height: DEFAULT_STARTING_REVISION_HEIGHT,
            },
            latest_timestamp: DEFAULT_GENESIS_TIMESTAMP_NANOS,
        }
    }
}

/// One chain's entire state: identity and clock parameters, the block
/// history, the store of clients, connection ends and channel ends, and
/// the append-only event log.
#[derive(Clone, Debug)]
pub struct Chain {
    pub chain_id: ChainId,
    pub block_time: u64,
    pub max_history_size: u64,
    pub latest_height: Height,
    pub latest_timestamp: u64,
    pub blocks: Vec<Block>,
    pub clients: Vec<Client>,
    pub connections: Vec<ConnectionEnd>,
    pub channels: Vec<ChannelEnd>,
    pub events: Vec<IbcEvent>,
}

/// The client with identifier `id` on chain `c`.
pub open spec fn client_of(c: Chain, id: ClientId) -> Client {
    c.clients@[id.0 as int]
}

/// A client with identifier `id` exists on chain `c`.
pub open spec fn client_exists(c: Chain, id: ClientId) -> bool {
    id.0 < c.clients@.len()
}

/// The value committed at `path` in the current store of `c`, if any.
pub open spec fn value_at(c: Chain, path: Path) -> Option<CommittedValue> {
    match path {
        Path::ClientState(id) => if client_exists(c, id) {
            Some(CommittedValue::ClientState(client_of(c, id).client_state))
        } else {
            None
        },
        Path::ClientConsensusState(id, h) => if client_exists(c, id) {
            match crate::client::registry_lookup(client_of(c, id).registry.entries@, h) {
                Some(cs) => Some(CommittedValue::ConsensusState(cs)),
                None => None,
            }
        } else {
            None
        },
        Path::Connection(id) => if id.0 < c.connections@.len() {
            Some(CommittedValue::Connection(c.connections@[id.0 as int]))
        } else {
            None
        },
        Path::ChannelEnd(port, id) => if id.0 < c.channels@.len()
            && c.channels@[id.0 as int].port_id == port {
            Some(CommittedValue::Channel(c.channels@[id.0 as int]))
        } else {
            None
        },
    }
}

impl Chain {
    /// Structural invariant of a chain: a positive block time; a non-empty
    /// history of consecutive blocks in the chain's own revision whose last
    /// block carries the current height and timestamp; well-formed clients;
    /// and store references that stay within the store (every connection
    /// end names an existing client, every channel end an existing
    /// connection end).
    pub open spec fn well_formed(&self) -> bool {
        &&& self.block_time >= 1
        &&& self.blocks@.len() >= 1
        &&& forall|i: int|
            0 <= i < self.blocks@.len()
                ==> (#[trigger] self.blocks@[i]).height.revision_number
                == self.chain_id.revision_number
        &&& forall|i: int|
            0 <= i < self.blocks@.len()
                ==> (#[trigger] self.blocks@[i]).height.revision_height
                == self.blocks@[0].height.revision_height + i
        &&& self.latest_height == self.blocks@.last().height
        &&& self.latest_timestamp == self.blocks@.last().timestamp
        &&& forall|i: int|
            0 <= i < self.clients@.len() ==> (#[trigger] self.clients@[i]).well_formed()
        &&& forall|i: int|
            0 <= i < self.connections@.len()
                ==> (#[trigger] self.connections@[i]).client_id.0 < self.clients@.len()
        &&& forall|i: int|
            0 <= i < self.channels@.len()
                ==> (#[trigger] self.channels@[i]).connection_id.0 < self.connections@.len()
    }

    /// The height of the oldest retained block.
    pub open spec fn first_height(&self) -> Height {
        self.blocks@[0].height
    }

    /// The chain has a block at exactly `h`.
    pub open spec fn has_block(&self, h: Height) -> bool {
        &&& h.revision_number == self.chain_id.revision_number
        &&& self.first_height().revision_height <= h.revision_height
        &&& h.revision_height <= self.latest_height.revision_height
    }

    /// The block committed at `h`, as a spec-level lookup.
    pub open spec fn block_at(&self, h: Height) -> Block {
        self.blocks@[h.revision_height - self.first_height().revision_height]
    }

    /// Builds a chain from a validated configuration: one starting block,
    /// no clients, no connections, no channels, an empty event log.
    /// Rejects an invalid configuration with `ConfigInvalid`.
    pub fn new(config: MockContextConfig) -> (r: Result<Chain, Error>)
        ensures
            match r {
                Ok(c) => {
                    &&& config_valid(config)
                    &&& c.well_formed()
                    &&& c.chain_id == config.host_id
                    &&& c.block_time == config.block_time
                    &&& c.max_history_size == config.max_history_size
                    &&& c.latest_height == config.latest_height
                    &&& c.latest_timestamp == config.latest_timestamp
                    &&& c.blocks@ == seq![
                        Block {
                            height: config.latest_height,
                            timestamp: config.latest_timestamp,
                            root: config.latest_height.revision_height,
                        },
                    ]
                    &&& c.clients@.len() == 0
                    &&& c.connections@.len() == 0
                    &&& c.channels@.len() == 0
                    &&& c.events@.len() == 0
                },
                Err(e) => e == Error::ConfigInvalid && !config_valid(config),
            },
    {
        if config.max_history_size == 0 {
            return Err(Error::ConfigInvalid);
        }
        if config.latest_height.revision_height == 0 {
            return Err(Error::ConfigInvalid);
        }
        if config.host_id.revision_number != config.latest_height.revision_number {
            return Err(Error::ConfigInvalid);
        }
        if config.block_time == 0 {
            return Err(Error::ConfigInvalid);
        }
        if config.latest_timestamp > u64::MAX - config.block_time {
            return Err(Error::ConfigInvalid);
        }
        let blocks = vec![
            Block {
                height: config.latest_height,
                timestamp: config.latest_timestamp,
                root: config.latest_height.revision_height,
            },
        ];
        proof {
            assert(blocks@ =~= seq![
                Block {
                    height: config.latest_height,
                    timestamp: config.latest_timestamp,
                    root: config.latest_height.revision_height,
                },
            ]);
        }
        Ok(Chain {
            chain_id: config.host_id,
            block_time: config.block_time,
            max_history_size: config.max_history_size,
            latest_height: config.latest_height,
            latest_timestamp: config.latest_timestamp,
            blocks,
            clients: Vec::new(),
            connections: Vec::new(),
            channels: Vec::new(),
            events: Vec::new(),
        })
    }

    /// The current height of the local chain.
    pub fn host_height(&self) -> (r: Height)
        ensures
            r == self.latest_height,
    {
        self.latest_height
    }

    /// The current timestamp of the local chain.
    pub fn host_timestamp(&self) -> (r: u64)
        ensures
            r == self.latest_timestamp,
    {
        self.latest_timestamp
    }

    /// Commits one more block: the height advances by one, the timestamp by
    /// one block time; nothing in the store changes.
    pub fn advance_block(&mut self)
        requires
            old(self).well_formed(),
            old(self).latest_height.revision_height < u64::MAX,
            old(self).latest_timestamp + old(self).block_time <= u64::MAX,
        ensures
            final(self).well_formed(),
            final(self).chain_id == old(self).chain_id,
            final(self).block_time == old(self).block_time,
            final(self).max_history_size == old(self).max_history_size,
            final(self).latest_height.revision_number
                == old(self).latest_height.revision_number,
            final(self).latest_height.revision_height
                == old(self).latest_height.revision_height + 1,
            final(self).latest_timestamp == old(self).latest_timestamp + old(self).block_time,
            final(self).blocks@ == old(self).blocks@.push(
                Block {
                    height: final(self).latest_height,
                    timestamp: final(self).latest_timestamp,
                    root: final(self).latest_height.revision_height,
                },
            ),
            final(self).clients@ == old(self).clients@,
            final(self).connections@ == old(self).connections@,
            final(self).channels@ == old(self).channels@,
            final(self).events@ == old(self).events@,
    {
        let next_height = Height {
            revision_number: self.latest_height.revision_number,
            revision_height: self.latest_height.revision_height + 1,
        };
        let next_timestamp = self.latest_timestamp + self.block_time;
        self.blocks.push(
            Block {
                height: next_height,
                timestamp: next_timestamp,
                root: next_height.revision_height,
            },
        );
        self.latest_height = next_height;
        self.latest_timestamp = next_timestamp;
    }

    /// The committed block at exactly `h`, or nothing when `h` is outside
    /// the retained history.
    pub fn host_block(&self, h: Height) -> (r: Option<Block>)
        requires
            self.well_formed(),
        ensures
            match r {
                Some(b) => self.has_block(h) && b == self.block_at(h),
                None => !self.has_block(h),
            },
    {
        let first_rh = self.blocks[0].height.revision_height;
        if h.revision_number == self.chain_id.revision_number && first_rh <= h.revision_height
            && h.revision_height <= self.latest_height.revision_height {
            let n = self.blocks.len();
            proof {
                assert(self.blocks@.last() == self.blocks@[n - 1]);
                assert(self.blocks@[n - 1].height.revision_height == first_rh + n - 1);
                assert(h.revision_height - first_rh <= n - 1);
            }
            let idx = (h.revision_height - first_rh) as usize;
            proof {
                assert(idx == h.revision_height - first_rh);
                assert(0 <= idx < self.blocks@.len());
            }
            Some(self.blocks[idx])
        } else {
            None
        }
    }

    /// The client state of `client_id`, or `NotFound`.
    pub fn client_state(&self, client_id: ClientId) -> (r: Result<ClientState, Error>)
        ensures
            match r {
                Ok(cs) => client_exists(*self, client_id) && cs == client_of(
                    *self,
                    client_id,
                ).client_state,
                Err(e) => e == Error::NotFound && !client_exists(*self, client_id),
            },
    {
        if client_id.0 < self.clients.len() as u64 {
            Ok(self.clients[client_id.0 as usize].client_state)
        } else {
            Err(Error::NotFound)
        }
    }

    /// The consensus state stored for `client_id` at exactly `height`, or
    /// `NotFound`.
    pub fn consensus_state(&self, client_id: ClientId, height: Height) -> (r: Result<
        ConsensusState,
        Error,
    >)
        requires
            self.well_formed(),
        ensures
            match r {
                Ok(cs) => client_exists(*self, client_id) && crate::client::registry_lookup(
                    client_of(*self, client_id).registry.entries@,
                    height,
                ) == Some(cs),
                Err(e) => e == Error::NotFound && (!client_exists(*self, client_id)
                    || crate::client::registry_lookup(
                    client_of(*self, client_id).registry.entries@,
                    height,
                ) is None),
            },
    {
        if client_id.0 < self.clients.len() as u64 {
            self.clients[client_id.0 as usize].registry.consensus_state(height)
        } else {
            Err(Error::NotFound)
        }
    }

    /// All heights at which a consensus state is stored for `client_id`,
    /// in increasing order, or `NotFound` for an unknown client.
    pub fn consensus_state_heights(&self, client_id: ClientId) -> (r: Result<Vec<Height>, Error>)
        requires
            self.well_formed(),
        ensures
            match r {
                Ok(hs) => {
                    &&& client_exists(*self, client_id)
                    &&& hs@.len() == client_of(*self, client_id).registry.entries@.len()
                    &&& forall|i: int|
                        0 <= i < hs@.len() ==> hs@[i] == client_of(
                            *self,
                            client_id,
                        ).registry.entries@[i].height
                    &&& forall|i: int, j: int|
                        0 <= i < j < hs@.len() ==> crate::height::height_lt(hs@[i], hs@[j])
                },
                Err(e) => e == Error::NotFound && !client_exists(*self, client_id),
            },
    {
        if client_id.0 < self.clients.len() as u64 {
            Ok(self.clients[client_id.0 as usize].registry.consensus_state_heights())
        } else {
            Err(Error::NotFound)
        }
    }

    /// The consensus state at the smallest stored height strictly greater
    /// than `height` for `client_id`, or nothing; `NotFound` for an unknown
    /// client.
    pub fn next_consensus_state(&self, client_id: ClientId, height: Height) -> (r: Result<
        Option<RegistryEntry>,
        Error,
    >)
        requires
            self.well_formed(),
        ensures
            match r {
                Ok(e) => client_exists(*self, client_id) && crate::client::is_next_result(
                    client_of(*self, client_id).registry.entries@,
                    height,
                    e,
                ),
                Err(e) => e == Error::NotFound && !client_exists(*self, client_id),
            },
    {
        if client_id.0 < self.clients.len() as u64 {
            Ok(self.clients[client_id.0 as usize].registry.next_consensus_state(height))
        } else {
            Err(Error::NotFound)
        }
    }

    /// The consensus state at the greatest stored height strictly less
    /// than `height` for `client_id`, or nothing; `NotFound` for an unknown
    /// client.
    pub fn prev_consensus_state(&self, client_id: ClientId, height: Height) -> (r: Result<
        Option<RegistryEntry>,
        Error,
    >)
        requires
            self.well_formed(),
        ensures
            match r {
                Ok(e) => client_exists(*self, client_id) && crate::client::is_prev_result(
                    client_of(*self, client_id).registry.entries@,
                    height,
                    e,
                ),
                Err(e) => e == Error::NotFound && !client_exists(*self, client_id),
            },
    {
        if client_id.0 < self.clients.len() as u64 {
            Ok(self.clients[client_id.0 as usize].registry.prev_consensus_state(height))
        } else {
            Err(Error::NotFound)
        }
    }

    /// A proof of the value committed at `path`, scoped to `height`. The
    /// store can only prove its current commitment: the height must be the
    /// chain's latest, and a value must exist at the path.
    pub fn get_proof(&self, height: Height, path: Path) -> (r: Result<CommitmentProof, Error>)
        requires
            self.well_formed(),
        ensures
            match r {
                Ok(p) => {
                    &&& height == self.latest_height
                    &&& value_at(*self, path) == Some(p.value)
                    &&& p.height == height
                    &&& p.path == path
                },
                Err(e) => e == Error::NotFound && (height != self.latest_height || value_at(
                    *self,
                    path,
                ) is None),
            },
    {
        if !(height.revision_number == self.latest_height.revision_number
            && height.revision_height == self.latest_height.revision_height) {
            return Err(Error::NotFound);
        }
        match path {
            Path::ClientState(id) => {
                match self.client_state(id) {
                    Ok(cs) => Ok(CommitmentProof {
                        height,
                        path,
                        value: CommittedValue::ClientState(cs),
                    }),
                    Err(e) => Err(e),
                }
            },
            Path::ClientConsensusState(id, h) => {
                match self.consensus_state(id, h) {
                    Ok(cs) => Ok(CommitmentProof {
                        height,
                        path,
                        value: CommittedValue::ConsensusState(cs),
                    }),
                    Err(e) => Err(e),
                }
            },
            Path::Connection(id) => {
                if id.0 < self.connections.len() as u64 {
                    Ok(CommitmentProof {
                        height,
                        path,
                        value: CommittedValue::Connection(self.connections[id.0 as usize]),
                    })
                } else {
                    Err(Error::NotFound)
                }
            },
            Path::ChannelEnd(port, id) => {
                if id.0 < self.channels.len() as u64 {
                    let ce = self.channels[id.0 as usize];
                    if ce.port_id.0 == port.0 {
                        Ok(CommitmentProof { height, path, value: CommittedValue::Channel(ce) })
                    } else {
                        Err(Error::NotFound)
                    }
                } else {
                    Err(Error::NotFound)
                }
            },
        }
    }
}

} // verus!
