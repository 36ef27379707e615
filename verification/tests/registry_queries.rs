use ibc_handshake::client::{ConsensusState, ConsensusStateRegistry};
use ibc_handshake::errors::Error;
use ibc_handshake::height::Height;

fn state(root: u64) -> ConsensusState {
    ConsensusState { root, timestamp: 1_000 + root }
}

fn registry_with_gaps() -> ConsensusStateRegistry {
    // heights 2, 5, 9: the registry tolerates gaps
    let mut r = ConsensusStateRegistry::new(Height::new(0, 2), state(2));
    r.insert_latest(Height::new(0, 5), state(5));
    r.insert_latest(Height::new(0, 9), state(9));
    r
}

#[test]
fn exact_lookup_finds_only_stored_heights() {
    let r = registry_with_gaps();
    assert_eq!(r.consensus_state(Height::new(0, 5)), Ok(state(5)));
    assert_eq!(r.consensus_state(Height::new(0, 2)), Ok(state(2)));
    assert_eq!(r.consensus_state(Height::new(0, 9)), Ok(state(9)));
    assert_eq!(r.consensus_state(Height::new(0, 4)), Err(Error::NotFound));
    assert_eq!(r.consensus_state(Height::new(1, 5)), Err(Error::NotFound));
}

#[test]
fn heights_are_listed_in_increasing_order() {
    let r = registry_with_gaps();
    let hs = r.consensus_state_heights();
    assert_eq!(hs, vec![Height::new(0, 2), Height::new(0, 5), Height::new(0, 9)]);
}

#[test]
fn next_returns_smallest_stored_height_above_query() {
    let r = registry_with_gaps();
    assert_eq!(r.next_consensus_state(Height::new(0, 1)).map(|e| e.height), Some(Height::new(0, 2)));
    assert_eq!(r.next_consensus_state(Height::new(0, 2)).map(|e| e.height), Some(Height::new(0, 5)));
    assert_eq!(r.next_consensus_state(Height::new(0, 3)).map(|e| e.height), Some(Height::new(0, 5)));
    assert_eq!(r.next_consensus_state(Height::new(0, 5)).map(|e| e.height), Some(Height::new(0, 9)));
    assert_eq!(r.next_consensus_state(Height::new(0, 8)).map(|e| e.state), Some(state(9)));
    assert!(r.next_consensus_state(Height::new(0, 9)).is_none());
    assert!(r.next_consensus_state(Height::new(0, 100)).is_none());
}

#[test]
fn prev_returns_greatest_stored_height_below_query() {
    let r = registry_with_gaps();
    assert!(r.prev_consensus_state(Height::new(0, 1)).is_none());
    assert!(r.prev_consensus_state(Height::new(0, 2)).is_none());
    assert_eq!(r.prev_consensus_state(Height::new(0, 3)).map(|e| e.height), Some(Height::new(0, 2)));
    assert_eq!(r.prev_consensus_state(Height::new(0, 9)).map(|e| e.height), Some(Height::new(0, 5)));
    assert_eq!(r.prev_consensus_state(Height::new(0, 100)).map(|e| e.state), Some(state(9)));
}

#[test]
fn repeated_queries_return_identical_results() {
    let r = registry_with_gaps();
    let q = Height::new(0, 6);
    assert_eq!(r.next_consensus_state(q), r.next_consensus_state(q));
    assert_eq!(r.prev_consensus_state(q), r.prev_consensus_state(q));
    assert_eq!(r.consensus_state_heights(), r.consensus_state_heights());
    assert_eq!(r.consensus_state(q), r.consensus_state(q));
}

#[test]
fn bracketing_a_header_height_with_prev_and_next() {
    // the nearest trusted bracket around an unseen height, as a
    // bisection or misbehaviour check would need it
    let r = registry_with_gaps();
    let header_height = Height::new(0, 7);
    let below = r.prev_consensus_state(header_height).unwrap();
    let above = r.next_consensus_state(header_height).unwrap();
    assert_eq!(below.height, Height::new(0, 5));
    assert_eq!(above.height, Height::new(0, 9));
}
