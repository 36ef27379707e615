//! Identifiers for chains, clients, connections, channels, ports and
//! signers. Clients, connections and channels are assigned sequentially by
//! the chain that creates them, so an identifier is the index it was
//! assigned; a port and a signer are plain numeric names chosen by callers.

use vstd::prelude::*;

verus! {

/// Identity of a chain; the revision number must match the revision number
/// of every height in that chain's history.
#[derive(Clone, Copy, PartialEq, Eq, Structural, Debug)]
pub struct ChainId {
    pub revision_number: u64,
}

/// A light client on some chain, named by the order of its creation there.
#[derive(Clone, Copy, PartialEq, Eq, Structural, Debug)]
pub struct ClientId(pub u64);

/// A connection end on some chain, named by the order of its creation there.
#[derive(Clone, Copy, PartialEq, Eq, Structural, Debug)]
pub struct ConnectionId(pub u64);

/// A channel end on some chain, named by the order of its creation there.
#[derive(Clone, Copy, PartialEq, Eq, Structural, Debug)]
pub struct ChannelId(pub u64);

/// A port: the application endpoint a channel is bound to.
#[derive(Clone, Copy, PartialEq, Eq, Structural, Debug)]
pub struct PortId(pub u64);

/// The account submitting a message.
#[derive(Clone, Copy, PartialEq, Eq, Structural, Debug)]
pub struct Signer(pub u64);

impl PortId {
    /// The conventional port of the token-transfer application.
    pub fn transfer() -> (r: PortId)
        ensures
            r == (PortId(0u64)),
    {
        PortId(0)
    }
}

} // verus!
