use ibc_handshake::chain::{Chain, MockContextConfig, DEFAULT_BLOCK_TIME_NANOS};
use ibc_handshake::commitment::Path;
use ibc_handshake::channel::ChannelState;
use ibc_handshake::client::Header;
use ibc_handshake::connection::ConnectionState;
use ibc_handshake::errors::{Error, Step};
use ibc_handshake::height::Height;
use ibc_handshake::identifiers::{ChainId, ClientId, PortId, Signer};
use ibc_handshake::message::{IbcEvent, Msg, MsgUpdateClient};
use ibc_handshake::relayer::TypedRelayer;

fn chain() -> Chain {
    Chain::new(MockContextConfig::default()).expect("default config is valid")
}

fn signer() -> Signer {
    Signer(7)
}

#[test]
fn default_config_builds_a_chain_at_height_five() {
    let c = chain();
    assert_eq!(c.latest_height, Height::new(0, 5));
    assert_eq!(c.block_time, DEFAULT_BLOCK_TIME_NANOS);
    assert!(c.clients.is_empty());
    assert!(c.connections.is_empty());
    assert!(c.channels.is_empty());
    assert!(c.events.is_empty());
}

#[test]
fn config_with_zero_history_size_is_rejected() {
    let mut cfg = MockContextConfig::default();
    cfg.max_history_size = 0;
    assert!(matches!(Chain::new(cfg), Err(Error::ConfigInvalid)));
}

#[test]
fn config_with_zero_revision_height_is_rejected() {
    let mut cfg = MockContextConfig::default();
    cfg.latest_height = Height::new(0, 0);
    assert!(matches!(Chain::new(cfg), Err(Error::ConfigInvalid)));
}

#[test]
fn config_with_revision_mismatch_is_rejected() {
    let mut cfg = MockContextConfig::default();
    cfg.host_id = ChainId { revision_number: 1 };
    assert!(matches!(Chain::new(cfg), Err(Error::ConfigInvalid)));
}

#[test]
fn config_with_zero_block_time_is_rejected() {
    let mut cfg = MockContextConfig::default();
    cfg.block_time = 0;
    assert!(matches!(Chain::new(cfg), Err(Error::ConfigInvalid)));
}

#[test]
fn config_with_timestamp_overflow_is_rejected() {
    let mut cfg = MockContextConfig::default();
    cfg.latest_timestamp = u64::MAX;
    assert!(matches!(Chain::new(cfg), Err(Error::ConfigInvalid)));
}

#[test]
fn create_client_trusts_counterparty_latest_height() {
    let mut a = chain();
    let b = chain();
    let cid = TypedRelayer::create_client_on_a(&mut a, &b, signer());
    assert_eq!(cid, ClientId(0));
    assert_eq!(a.client_state(cid).unwrap().latest_height, b.latest_height);
    assert_eq!(a.events.last(), Some(&IbcEvent::CreateClient(cid)));
    // creating the client committed one block on a
    assert_eq!(a.latest_height, Height::new(0, 6));
    let heights = a.consensus_state_heights(cid).unwrap();
    assert_eq!(heights, vec![b.latest_height]);
}

#[test]
fn missing_client_and_missing_height_report_not_found() {
    let a = chain();
    assert_eq!(a.client_state(ClientId(3)), Err(Error::NotFound));
    assert!(matches!(
        a.consensus_state(ClientId(0), Height::new(0, 5)),
        Err(Error::NotFound)
    ));
    let mut b = chain();
    let cid = TypedRelayer::create_client_on_a(&mut b, &a, signer());
    assert!(matches!(
        b.consensus_state(cid, Height::new(0, 1)),
        Err(Error::NotFound)
    ));
}

#[test]
fn stale_header_update_is_a_validation_failure() {
    let mut a = chain();
    let b = chain();
    let cid = TypedRelayer::create_client_on_a(&mut a, &b, signer());
    // a header at the height the client already trusts is not newer
    let blk = b.host_block(b.host_height()).unwrap();
    let msg = Msg::UpdateClient(MsgUpdateClient {
        client_id: cid,
        client_message: Header {
            height: blk.height,
            timestamp: blk.timestamp,
            root: blk.root,
            trusted_height: blk.height,
        },
        signer: signer(),
    });
    assert_eq!(a.deliver(msg), Err(Error::ValidationFailure));
}

#[test]
fn update_client_follows_counterparty_progress() {
    let mut a = chain();
    let mut b = chain();
    let cid = TypedRelayer::create_client_on_a(&mut a, &b, signer());
    b.advance_block();
    b.advance_block();
    TypedRelayer::update_client_on_a(&mut a, &b, cid, signer()).expect("b has moved on");
    assert_eq!(a.client_state(cid).unwrap().latest_height, b.latest_height);
    let heights = a.consensus_state_heights(cid).unwrap();
    assert_eq!(heights.len(), 2);
    assert_eq!(heights[1], b.latest_height);
}

#[test]
fn sync_aligns_the_lagging_chain() {
    let mut a = chain();
    let mut behind = MockContextConfig::default();
    behind.latest_timestamp = MockContextConfig::default().latest_timestamp - 10 * DEFAULT_BLOCK_TIME_NANOS;
    let mut b = Chain::new(behind).unwrap();
    TypedRelayer::sync_latest_timestamp(&mut a, &mut b);
    assert!(b.latest_timestamp >= a.latest_timestamp);
    assert!(b.latest_timestamp < a.latest_timestamp + b.block_time);
    // a led, so a is untouched
    assert_eq!(a.latest_height, Height::new(0, 5));
    assert_eq!(b.latest_height, Height::new(0, 15));
}

#[test]
fn connection_establishment_opens_both_ends() {
    let mut a = chain();
    let mut b = chain();
    let s = signer();
    let client_on_a = TypedRelayer::create_client_on_a(&mut a, &b, s);
    let client_on_b = TypedRelayer::create_client_on_a(&mut b, &a, s);
    let (conn_a, conn_b) =
        TypedRelayer::create_connection_on_a(&mut a, &mut b, client_on_a, client_on_b, s)
            .expect("connection handshake completes");
    let end_a = a.connections[conn_a.0 as usize];
    let end_b = b.connections[conn_b.0 as usize];
    assert_eq!(end_a.state, ConnectionState::Open);
    assert_eq!(end_b.state, ConnectionState::Open);
    assert_eq!(end_a.counterparty_connection_id, Some(conn_b));
    assert_eq!(end_b.counterparty_connection_id, Some(conn_a));
    assert_eq!(end_a.client_id, client_on_a);
    assert_eq!(end_b.client_id, client_on_b);
    assert_eq!(end_a.counterparty_client_id, client_on_b);
    assert_eq!(end_b.counterparty_client_id, client_on_a);
}

#[test]
fn channel_establishment_then_close_on_both_ends() {
    let mut a = chain();
    let mut b = chain();
    let s = signer();
    let client_on_a = TypedRelayer::create_client_on_a(&mut a, &b, s);
    let client_on_b = TypedRelayer::create_client_on_a(&mut b, &a, s);
    let (conn_a, conn_b) =
        TypedRelayer::create_connection_on_a(&mut a, &mut b, client_on_a, client_on_b, s)
            .expect("connection handshake completes");
    let port = PortId::transfer();
    let (chan_a, chan_b) = TypedRelayer::create_channel_on_a(
        &mut a,
        &mut b,
        client_on_a,
        conn_a,
        port,
        client_on_b,
        conn_b,
        port,
        s,
    )
    .expect("channel handshake completes");
    assert_eq!(a.channels[chan_a.0 as usize].state, ChannelState::Open);
    assert_eq!(b.channels[chan_b.0 as usize].state, ChannelState::Open);
    assert_eq!(a.channels[chan_a.0 as usize].counterparty_channel_id, Some(chan_b));
    assert_eq!(b.channels[chan_b.0 as usize].counterparty_channel_id, Some(chan_a));
    TypedRelayer::close_channel_on_a(
        &mut a,
        &mut b,
        client_on_a,
        chan_a,
        port,
        client_on_b,
        chan_b,
        port,
        s,
    )
    .expect("channel close completes");
    assert_eq!(a.channels[chan_a.0 as usize].state, ChannelState::Closed);
    assert_eq!(b.channels[chan_b.0 as usize].state, ChannelState::Closed);
}

#[test]
fn skipping_update_before_open_try_fails() {
    let mut a = chain();
    let mut b = chain();
    let s = signer();
    let client_on_a = TypedRelayer::create_client_on_a(&mut a, &b, s);
    let client_on_b = TypedRelayer::create_client_on_a(&mut b, &a, s);
    let conn_a = TypedRelayer::connection_open_init_on_a(&mut a, client_on_a, client_on_b, s)
        .expect("client exists");
    // no sync and no client update: b's client still trusts a height below
    // a's latest, so the proof height exceeds what b trusts
    let r = TypedRelayer::connection_open_try_on_b(&mut b, &a, conn_a, client_on_a, client_on_b, s);
    assert_eq!(r, Err(Error::ProtocolViolation(Step::ConnectionOpenTry)));
    // the failed step left b's store untouched
    assert!(b.connections.is_empty());
}

#[test]
fn skipping_update_before_open_ack_fails() {
    let mut a = chain();
    let mut b = chain();
    let s = signer();
    let client_on_a = TypedRelayer::create_client_on_a(&mut a, &b, s);
    let client_on_b = TypedRelayer::create_client_on_a(&mut b, &a, s);
    let conn_a = TypedRelayer::connection_open_init_on_a(&mut a, client_on_a, client_on_b, s)
        .expect("client exists");
    TypedRelayer::update_client_on_a_with_sync(&mut b, &mut a, client_on_b, s)
        .expect("a has moved on");
    let conn_b =
        TypedRelayer::connection_open_try_on_b(&mut b, &a, conn_a, client_on_a, client_on_b, s)
            .expect("b trusts a's latest height");
    // no sync and no update of a's client: b advanced during OpenTry
    let r = TypedRelayer::connection_open_ack_on_a(&mut a, &b, conn_a, conn_b, client_on_b, s);
    assert_eq!(r, Err(Error::ProtocolViolation(Step::ConnectionOpenAck)));
    assert_eq!(a.connections[conn_a.0 as usize].state, ConnectionState::Init);
}

#[test]
fn skipping_update_before_open_confirm_fails() {
    let mut a = chain();
    let mut b = chain();
    let s = signer();
    let client_on_a = TypedRelayer::create_client_on_a(&mut a, &b, s);
    let client_on_b = TypedRelayer::create_client_on_a(&mut b, &a, s);
    let conn_a = TypedRelayer::connection_open_init_on_a(&mut a, client_on_a, client_on_b, s)
        .expect("client exists");
    TypedRelayer::update_client_on_a_with_sync(&mut b, &mut a, client_on_b, s)
        .expect("a has moved on");
    let conn_b =
        TypedRelayer::connection_open_try_on_b(&mut b, &a, conn_a, client_on_a, client_on_b, s)
            .expect("b trusts a's latest height");
    TypedRelayer::update_client_on_a_with_sync(&mut a, &mut b, client_on_a, s)
        .expect("b has moved on");
    TypedRelayer::connection_open_ack_on_a(&mut a, &b, conn_a, conn_b, client_on_b, s)
        .expect("a trusts b's latest height");
    // no sync and no update of b's client: a advanced during OpenAck
    let r = TypedRelayer::connection_open_confirm_on_b(&mut b, &a, conn_a, conn_b, s);
    assert_eq!(r, Err(Error::ProtocolViolation(Step::ConnectionOpenConfirm)));
    assert_eq!(b.connections[conn_b.0 as usize].state, ConnectionState::TryOpen);
}

#[test]
fn closed_channel_is_terminal() {
    let mut a = chain();
    let mut b = chain();
    let s = signer();
    let client_on_a = TypedRelayer::create_client_on_a(&mut a, &b, s);
    let client_on_b = TypedRelayer::create_client_on_a(&mut b, &a, s);
    let (conn_a, conn_b) =
        TypedRelayer::create_connection_on_a(&mut a, &mut b, client_on_a, client_on_b, s)
            .expect("connection handshake completes");
    let port = PortId::transfer();
    let (chan_a, chan_b) = TypedRelayer::create_channel_on_a(
        &mut a,
        &mut b,
        client_on_a,
        conn_a,
        port,
        client_on_b,
        conn_b,
        port,
        s,
    )
    .expect("channel handshake completes");
    TypedRelayer::close_channel_on_a(
        &mut a,
        &mut b,
        client_on_a,
        chan_a,
        port,
        client_on_b,
        chan_b,
        port,
        s,
    )
    .expect("channel close completes");
    // closing again fails and both ends stay Closed
    let again = TypedRelayer::channel_close_init_on_a(&mut a, chan_a, port, s);
    assert_eq!(again, Err(Error::ProtocolViolation(Step::ChannelCloseInit)));
    assert_eq!(a.channels[chan_a.0 as usize].state, ChannelState::Closed);
    assert_eq!(b.channels[chan_b.0 as usize].state, ChannelState::Closed);
}

#[test]
fn states_never_regress_over_the_whole_flow() {
    fn rank(s: ConnectionState) -> u8 {
        match s {
            ConnectionState::Uninitialized => 0,
            ConnectionState::Init => 1,
            ConnectionState::TryOpen => 2,
            ConnectionState::Open => 3,
        }
    }
    let mut a = chain();
    let mut b = chain();
    let s = signer();
    let client_on_a = TypedRelayer::create_client_on_a(&mut a, &b, s);
    let client_on_b = TypedRelayer::create_client_on_a(&mut b, &a, s);
    let conn_a = TypedRelayer::connection_open_init_on_a(&mut a, client_on_a, client_on_b, s)
        .expect("client exists");
    let mut last = rank(a.connections[conn_a.0 as usize].state);
    TypedRelayer::update_client_on_a_with_sync(&mut b, &mut a, client_on_b, s).unwrap();
    let conn_b =
        TypedRelayer::connection_open_try_on_b(&mut b, &a, conn_a, client_on_a, client_on_b, s)
            .unwrap();
    assert!(rank(a.connections[conn_a.0 as usize].state) >= last);
    last = rank(a.connections[conn_a.0 as usize].state);
    TypedRelayer::update_client_on_a_with_sync(&mut a, &mut b, client_on_a, s).unwrap();
    TypedRelayer::connection_open_ack_on_a(&mut a, &b, conn_a, conn_b, client_on_b, s).unwrap();
    assert!(rank(a.connections[conn_a.0 as usize].state) >= last);
    last = rank(a.connections[conn_a.0 as usize].state);
    TypedRelayer::update_client_on_a_with_sync(&mut b, &mut a, client_on_b, s).unwrap();
    TypedRelayer::connection_open_confirm_on_b(&mut b, &a, conn_a, conn_b, s).unwrap();
    assert!(rank(a.connections[conn_a.0 as usize].state) >= last);
    assert_eq!(b.connections[conn_b.0 as usize].state, ConnectionState::Open);
}

#[test]
fn every_delivered_message_appends_exactly_one_event() {
    let mut a = chain();
    let mut b = chain();
    let s = signer();
    let client_on_a = TypedRelayer::create_client_on_a(&mut a, &b, s);
    assert_eq!(a.events.len(), 1);
    let client_on_b = TypedRelayer::create_client_on_a(&mut b, &a, s);
    assert_eq!(b.events.len(), 1);
    let conn_a = TypedRelayer::connection_open_init_on_a(&mut a, client_on_a, client_on_b, s)
        .expect("client exists");
    assert_eq!(a.events.len(), 2);
    assert_eq!(a.events.last(), Some(&IbcEvent::OpenInitConnection(conn_a)));
    // a failed step appends nothing
    let before = b.events.len();
    let _ = TypedRelayer::connection_open_try_on_b(&mut b, &a, conn_a, client_on_a, client_on_b, s);
    assert_eq!(b.events.len(), before);
}

#[test]
fn get_proof_is_scoped_to_the_latest_height() {
    let mut a = chain();
    let b = chain();
    let cid = TypedRelayer::create_client_on_a(&mut a, &b, signer());
    let stale = Height::new(0, 5);
    assert!(matches!(
        a.get_proof(stale, Path::ClientState(cid)),
        Err(Error::NotFound)
    ));
    let p = a.get_proof(a.host_height(), Path::ClientState(cid)).unwrap();
    assert_eq!(p.height, a.host_height());
    assert_eq!(p.path, Path::ClientState(cid));
}

#[test]
fn sync_advances_this_side_when_it_lags() {
    let mut behind = MockContextConfig::default();
    behind.latest_timestamp = MockContextConfig::default().latest_timestamp - 5 * DEFAULT_BLOCK_TIME_NANOS;
    let mut a = Chain::new(behind).unwrap();
    let mut b = chain();
    TypedRelayer::sync_latest_timestamp(&mut a, &mut b);
    assert!(a.latest_timestamp >= b.latest_timestamp);
    // b led, so b is untouched
    assert_eq!(b.latest_height, Height::new(0, 5));
    assert_eq!(a.latest_height, Height::new(0, 10));
}

#[test]
fn sync_leaves_aligned_chains_alone() {
    let mut a = chain();
    let mut b = chain();
    TypedRelayer::sync_latest_timestamp(&mut a, &mut b);
    assert_eq!(a.latest_height, Height::new(0, 5));
    assert_eq!(b.latest_height, Height::new(0, 5));
    assert_eq!(a.latest_timestamp, b.latest_timestamp);
}

#[test]
fn update_with_sync_fails_when_counterparty_has_not_moved() {
    // b leads in time, so the sync advances a, not b; b's latest height
    // then still equals the height a's client already trusts, and the
    // update has no newer header to submit
    let mut ahead = MockContextConfig::default();
    ahead.latest_timestamp = MockContextConfig::default().latest_timestamp + 100 * DEFAULT_BLOCK_TIME_NANOS;
    let mut b = Chain::new(ahead).unwrap();
    let mut a = chain();
    let cid = TypedRelayer::create_client_on_a(&mut a, &b, signer());
    let r = TypedRelayer::update_client_on_a_with_sync(&mut a, &mut b, cid, signer());
    assert_eq!(r, Err(Error::ProtocolViolation(Step::UpdateClient)));
    assert_eq!(b.latest_height, Height::new(0, 5));
}

#[test]
fn channel_proof_requires_the_right_port() {
    let mut a = chain();
    let mut b = chain();
    let s = signer();
    let client_on_a = TypedRelayer::create_client_on_a(&mut a, &b, s);
    let client_on_b = TypedRelayer::create_client_on_a(&mut b, &a, s);
    let (conn_a, _conn_b) =
        TypedRelayer::create_connection_on_a(&mut a, &mut b, client_on_a, client_on_b, s)
            .expect("connection handshake completes");
    let chan_a = TypedRelayer::channel_open_init_on_a(
        &mut a,
        conn_a,
        PortId::transfer(),
        PortId::transfer(),
        s,
    )
    .expect("connection is open");
    let wrong_port = PortId(9);
    assert!(matches!(
        a.get_proof(a.host_height(), Path::ChannelEnd(wrong_port, chan_a)),
        Err(Error::NotFound)
    ));
    assert!(a
        .get_proof(a.host_height(), Path::ChannelEnd(PortId::transfer(), chan_a))
        .is_ok());
}

#[test]
fn composites_deliver_messages_in_the_fixed_order() {
    let mut a = chain();
    let mut b = chain();
    let s = signer();
    let client_on_a = TypedRelayer::create_client_on_a(&mut a, &b, s);
    let client_on_b = TypedRelayer::create_client_on_a(&mut b, &a, s);
    let a_before = a.events.len();
    let b_before = b.events.len();
    let (conn_a, conn_b) =
        TypedRelayer::create_connection_on_a(&mut a, &mut b, client_on_a, client_on_b, s)
            .expect("connection handshake completes");
    assert_eq!(
        a.events[a_before..],
        [
            IbcEvent::OpenInitConnection(conn_a),
            IbcEvent::UpdateClient(client_on_a),
            IbcEvent::OpenAckConnection(conn_a),
            IbcEvent::UpdateClient(client_on_a),
        ]
    );
    assert_eq!(
        b.events[b_before..],
        [
            IbcEvent::UpdateClient(client_on_b),
            IbcEvent::OpenTryConnection(conn_b),
            IbcEvent::UpdateClient(client_on_b),
            IbcEvent::OpenConfirmConnection(conn_b),
        ]
    );
    let port = PortId::transfer();
    let a_before = a.events.len();
    let b_before = b.events.len();
    let (chan_a, chan_b) = TypedRelayer::create_channel_on_a(
        &mut a,
        &mut b,
        client_on_a,
        conn_a,
        port,
        client_on_b,
        conn_b,
        port,
        s,
    )
    .expect("channel handshake completes");
    assert_eq!(
        a.events[a_before..],
        [
            IbcEvent::OpenInitChannel(chan_a),
            IbcEvent::UpdateClient(client_on_a),
            IbcEvent::OpenAckChannel(chan_a),
            IbcEvent::UpdateClient(client_on_a),
        ]
    );
    assert_eq!(
        b.events[b_before..],
        [
            IbcEvent::UpdateClient(client_on_b),
            IbcEvent::OpenTryChannel(chan_b),
            IbcEvent::UpdateClient(client_on_b),
            IbcEvent::OpenConfirmChannel(chan_b),
        ]
    );
    let a_before = a.events.len();
    let b_before = b.events.len();
    TypedRelayer::close_channel_on_a(
        &mut a,
        &mut b,
        client_on_a,
        chan_a,
        port,
        client_on_b,
        chan_b,
        port,
        s,
    )
    .expect("channel close completes");
    assert_eq!(
        a.events[a_before..],
        [
            IbcEvent::CloseInitChannel(chan_a),
            IbcEvent::UpdateClient(client_on_a),
        ]
    );
    assert_eq!(
        b.events[b_before..],
        [
            IbcEvent::UpdateClient(client_on_b),
            IbcEvent::CloseConfirmChannel(chan_b),
        ]
    );
}
