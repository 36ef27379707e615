//! Light-client state: consensus states, the height-indexed registry with
//! exact, successor and predecessor lookup, and the per-client record.

use vstd::prelude::*;
use crate::height::{Height, height_lt, height_le};
use crate::errors::Error;

verus! {

/// A consensus state of the counterparty as recorded by a light client:
/// an opaque commitment root and the block's timestamp.
#[derive(Clone, Copy, PartialEq, Eq, Structural, Debug)]
pub struct ConsensusState {
    pub root: u64,
    pub timestamp: u64,
}

/// The client's own record: the latest counterparty height it trusts.
#[derive(Clone, Copy, PartialEq, Eq, Structural, Debug)]
pub struct ClientState {
    pub latest_height: Height,
}

/// A header submitted to update a client: the new block's height, timestamp
/// and commitment root, together with an already-trusted height supplied as
/// context for the update rule.
#[derive(Clone, Copy, PartialEq, Eq, Structural, Debug)]
pub struct Header {
    pub height: Height,
    pub timestamp: u64,
    pub root: u64,
    pub trusted_height: Height,
}

/// One record of the registry: a consensus state at its height.
#[derive(Clone, Copy, PartialEq, Eq, Structural, Debug)]
pub struct RegistryEntry {
    pub height: Height,
    pub state: ConsensusState,
}

/// Per-client store mapping heights to consensus states, kept in strictly
/// increasing height order, supporting exact, successor and predecessor
/// lookup. It tolerates gaps — not every height has a state.
#[derive(Clone, Debug)]
pub struct ConsensusStateRegistry {
    pub entries: Vec<RegistryEntry>,
}

/// The heights of a registry's entries are strictly increasing.
pub open spec fn registry_sorted(s: Seq<RegistryEntry>) -> bool {
    forall|i: int, j: int| 0 <= i < j < s.len() ==> height_lt(s[i].height, s[j].height)
}

/// The consensus state stored at exactly `h`, if any, as a spec-level
/// lookup. With strictly increasing heights the witness is unique.
pub open spec fn registry_lookup(s: Seq<RegistryEntry>, h: Height) -> Option<ConsensusState> {
    if exists|i: int| 0 <= i < s.len() && (#[trigger] s[i]).height == h {
        Some(s[choose|i: int| 0 <= i < s.len() && (#[trigger] s[i]).height == h].state)
    } else {
        None
    }
}

/// What a successor query must return: the state at the least stored height
/// strictly greater than `q`, or nothing when no stored height exceeds `q`.
pub open spec fn is_next_result(s: Seq<RegistryEntry>, q: Height, r: Option<RegistryEntry>) -> bool {
    match r {
        Some(e) => {
            &&& exists|i: int| 0 <= i < s.len() && s[i] == e
            &&& height_lt(q, e.height)
            &&& forall|i: int|
                0 <= i < s.len() && height_lt(q, #[trigger] s[i].height)
                    ==> height_le(e.height, s[i].height)
        },
        None => forall|i: int| 0 <= i < s.len() ==> height_le(#[trigger] s[i].height, q),
    }
}

/// What a predecessor query must return: the state at the greatest stored
/// height strictly less than `q`, or nothing when no stored height is
/// below `q`.
pub open spec fn is_prev_result(s: Seq<RegistryEntry>, q: Height, r: Option<RegistryEntry>) -> bool {
    match r {
        Some(e) => {
            &&& exists|i: int| 0 <= i < s.len() && s[i] == e
            &&& height_lt(e.height, q)
            &&& forall|i: int|
                0 <= i < s.len() && height_lt(#[trigger] s[i].height, q)
                    ==> height_le(s[i].height, e.height)
        },
        None => forall|i: int| 0 <= i < s.len() ==> height_le(q, #[trigger] s[i].height),
    }
}

impl ConsensusStateRegistry {
    /// The registry's records are strictly increasing in height.
    pub open spec fn well_formed(&self) -> bool {
        registry_sorted(self.entries@)
    }

    /// An entry at exactly `h` is stored.
    pub open spec fn contains_height(&self, h: Height) -> bool {
        registry_lookup(self.entries@, h) is Some
    }

    /// The registry of a client created with one consensus state.
    pub fn new(height: Height, state: ConsensusState) -> (r: ConsensusStateRegistry)
        ensures
            r.well_formed(),
            r.entries@ == seq![RegistryEntry { height, state }],
    {
        let entries = vec![RegistryEntry { height, state }];
        proof {
            assert(entries@ =~= seq![RegistryEntry { height, state }]);
        }
        ConsensusStateRegistry { entries }
    }

    /// Records a consensus state above every stored height, as a client
    /// update does.
    pub fn insert_latest(&mut self, height: Height, state: ConsensusState)
        requires
            old(self).well_formed(),
            forall|i: int|
                0 <= i < old(self).entries@.len()
                    ==> height_lt((#[trigger] old(self).entries@[i]).height, height),
        ensures
            final(self).well_formed(),
            final(self).entries@ == old(self).entries@.push(RegistryEntry { height, state }),
    {
        self.entries.push(RegistryEntry { height, state });
    }

    /// The stored state at exactly `height`, or `NotFound` if no state
    /// exists at that height.
    pub fn consensus_state(&self, height: Height) -> (r: Result<ConsensusState, Error>)
        requires
            self.well_formed(),
        ensures
            match r {
                Ok(cs) => registry_lookup(self.entries@, height) == Some(cs),
                Err(e) => e == Error::NotFound && registry_lookup(self.entries@, height) is None,
            },
    {
        let n = self.entries.len();
        let mut k: usize = 0;
        while k < n
            invariant
                self.well_formed(),
                n == self.entries@.len(),
                0 <= k <= n,
                forall|i: int| 0 <= i < k ==> (#[trigger] self.entries@[i]).height != height,
            decreases n - k,
        {
            let e = self.entries[k];
            if e.height.revision_number == height.revision_number
                && e.height.revision_height == height.revision_height {
                proof {
                    let s = self.entries@;
                    assert(s[k as int].height == height);
                    let j = choose|i: int| 0 <= i < s.len() && (#[trigger] s[i]).height == height;
                    if j < k as int {
                        assert(height_lt(s[j].height, s[k as int].height));
                    } else if j > k as int {
                        assert(height_lt(s[k as int].height, s[j].height));
                    }
                }
                return Ok(e.state);
            }
            k = k + 1;
        }
        Err(Error::NotFound)
    }

    /// All heights at which a state is stored, in increasing order.
    pub fn consensus_state_heights(&self) -> (r: Vec<Height>)
        requires
            self.well_formed(),
        ensures
            r@.len() == self.entries@.len(),
            forall|i: int| 0 <= i < r@.len() ==> r@[i] == self.entries@[i].height,
            forall|i: int, j: int| 0 <= i < j < r@.len() ==> height_lt(r@[i], r@[j]),
    {
        let n = self.entries.len();
        let mut out: Vec<Height> = Vec::new();
        let mut k: usize = 0;
        while k < n
            invariant
                n == self.entries@.len(),
                0 <= k <= n,
                out@.len() == k,
                forall|i: int| 0 <= i < k ==> out@[i] == self.entries@[i].height,
            decreases n - k,
        {
            out.push(self.entries[k].height);
            k = k + 1;
        }
        out
    }

    /// The state at the least stored height strictly greater than `height`,
    /// or nothing when `height` is at or above every stored height.
    pub fn next_consensus_state(&self, height: Height) -> (r: Option<RegistryEntry>)
        requires
            self.well_formed(),
        ensures
            is_next_result(self.entries@, height, r),
    {
        let n = self.entries.len();
        let mut k: usize = 0;
        while k < n
            invariant
                self.well_formed(),
                n == self.entries@.len(),
                0 <= k <= n,
                forall|i: int| 0 <= i < k ==> height_le((#[trigger] self.entries@[i]).height, height),
            decreases n - k,
        {
            let e = self.entries[k];
            if height.lt(&e.height) {
                proof {
                    assert forall|i: int|
                        0 <= i < self.entries@.len()
                            && height_lt(height, (#[trigger] self.entries@[i]).height)
                        implies height_le(e.height, self.entries@[i].height) by {
                        if i < k {
                        } else {
                        }
                    }
                }
                return Some(e);
            }
            k = k + 1;
        }
        None
    }

    /// The state at the greatest stored height strictly less than `height`,
    /// or nothing when `height` is at or below every stored height.
    pub fn prev_consensus_state(&self, height: Height) -> (r: Option<RegistryEntry>)
        requires
            self.well_formed(),
        ensures
            is_prev_result(self.entries@, height, r),
    {
        let n = self.entries.len();
        let mut best: Option<RegistryEntry> = None;
        let mut k: usize = 0;
        while k < n
            invariant
                self.well_formed(),
                n == self.entries@.len(),
                0 <= k <= n,
                match best {
                    Some(e) => {
                        &&& exists|i: int| 0 <= i < k && self.entries@[i] == e
                        &&& height_lt(e.height, height)
                        &&& forall|i: int|
                            0 <= i < k && height_lt((#[trigger] self.entries@[i]).height, height)
                                ==> height_le(self.entries@[i].height, e.height)
                    },
                    None => forall|i: int|
                        0 <= i < k ==> height_le(height, (#[trigger] self.entries@[i]).height),
                },
            decreases n - k,
        {
            let e = self.entries[k];
            if e.height.lt(&height) {
                proof {
                    assert(self.entries@[k as int] == e);
                }
                best = Some(e);
            }
            k = k + 1;
        }
        best
    }
}

/// Query results are a function of the stored records alone: two results
/// that both satisfy the successor characterization against equal stores
/// and equal query heights are equal, and likewise for the predecessor
/// characterization. Repeated queries with no intervening writes therefore
/// return identical results.
pub proof fn lemma_query_results_deterministic(
    s: Seq<RegistryEntry>,
    q: Height,
    r1: Option<RegistryEntry>,
    r2: Option<RegistryEntry>,
)
    requires
        registry_sorted(s),
        is_next_result(s, q, r1) && is_next_result(s, q, r2) || is_prev_result(s, q, r1)
            && is_prev_result(s, q, r2),
    ensures
        r1 == r2,
{
    if is_next_result(s, q, r1) && is_next_result(s, q, r2) {
        match (r1, r2) {
            (Some(e1), Some(e2)) => {
                assert(height_le(e1.height, e2.height));
                assert(height_le(e2.height, e1.height));
                let i1 = choose|i: int| 0 <= i < s.len() && s[i] == e1;
                let i2 = choose|i: int| 0 <= i < s.len() && s[i] == e2;
                if i1 < i2 {
                    assert(height_lt(s[i1].height, s[i2].height));
                } else if i2 < i1 {
                    assert(height_lt(s[i2].height, s[i1].height));
                }
            },
            (Some(e1), None) => {
                let i1 = choose|i: int| 0 <= i < s.len() && s[i] == e1;
                assert(height_le(s[i1].height, q));
            },
            (None, Some(e2)) => {
                let i2 = choose|i: int| 0 <= i < s.len() && s[i] == e2;
                assert(height_le(s[i2].height, q));
            },
            (None, None) => {},
        }
    } else {
        match (r1, r2) {
            (Some(e1), Some(e2)) => {
                assert(height_le(e1.height, e2.height));
                assert(height_le(e2.height, e1.height));
                let i1 = choose|i: int| 0 <= i < s.len() && s[i] == e1;
                let i2 = choose|i: int| 0 <= i < s.len() && s[i] == e2;
                if i1 < i2 {
                    assert(height_lt(s[i1].height, s[i2].height));
                } else if i2 < i1 {
                    assert(height_lt(s[i2].height, s[i1].height));
                }
            },
            (Some(e1), None) => {
                let i1 = choose|i: int| 0 <= i < s.len() && s[i] == e1;
                assert(height_le(q, s[i1].height));
            },
            (None, Some(e2)) => {
                let i2 = choose|i: int| 0 <= i < s.len() && s[i] == e2;
                assert(height_le(q, s[i2].height));
            },
            (None, None) => {},
        }
    }
}

/// A light client as stored on its host chain: the client state and the
/// registry of consensus states it has accepted.
#[derive(Clone, Debug)]
pub struct Client {
    pub client_state: ClientState,
    pub registry: ConsensusStateRegistry,
}

impl Client {
    /// The registry is non-empty and strictly increasing, and the client
    /// state's latest height is exactly the greatest stored height.
    pub open spec fn well_formed(&self) -> bool {
        &&& self.registry.well_formed()
        &&& self.registry.entries@.len() > 0
        &&& self.registry.entries@.last().height == self.client_state.latest_height
    }

    /// The client trusts `h`: `h` is at or below the latest trusted height.
    pub open spec fn trusts(&self, h: Height) -> bool {
        height_le(h, self.client_state.latest_height)
    }
}

} // verus!
