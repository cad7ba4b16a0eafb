use arbitrage_detector::binance::BinanceContainer;
use arbitrage_detector::coinbase::CoinBaseContainer;
use arbitrage_detector::conn::{Action, ConnectError, ConnectionState, SubscribeError, SupEvent, TerminateReason};
use arbitrage_detector::consumer::SocketConsumer;
use arbitrage_detector::policy::ReconnectPolicy;

fn bytes(s: &str) -> Vec<u8> {
    s.as_bytes().to_vec()
}

#[test]
fn binance_registry_tracks_subscriptions() {
    let mut c = BinanceContainer::new();
    let btc = bytes("btcusdt");
    let eth = bytes("ethusdt");

    let acts = c.add_symbol(&btc).unwrap();
    assert_eq!(
        acts,
        vec![Action::OpenSocket {
            conn: 0,
            endpoint: bytes("wss://stream.binance.com:9443/ws/btcusdt@ticker"),
        }]
    );
    // Subscribing twice is a no-op.
    assert_eq!(c.add_symbol(&btc).unwrap(), vec![]);
    assert_eq!(c.add_symbol(&eth).unwrap().len(), 1);
    assert!(c.symbol_state(&btc).is_some());
    assert!(c.symbol_state(&eth).is_some());

    // Unsubscribing removes exactly that symbol; the other stays.
    let acts = c.remove_symbol(&btc);
    assert_eq!(acts, vec![]);  // no reader was running yet
    assert!(c.symbol_state(&btc).is_none());
    assert!(c.symbol_state(&eth).is_some());
    // Removing an unknown symbol is a no-op.
    assert_eq!(c.remove_symbol(&bytes("dogeusdt")), vec![]);
    // Re-subscribing opens a fresh connection.
    let acts = c.add_symbol(&btc).unwrap();
    assert_eq!(acts.len(), 1);
    assert!(matches!(acts[0], Action::OpenSocket { conn: 2, .. }));
}

#[test]
fn binance_frame_flow_resets_attempts_and_delivers() {
    let mut c = BinanceContainer::new();
    let btc = bytes("btcusdt");
    c.add_symbol(&btc).unwrap();
    assert_eq!(c.on_opened(0), vec![]);
    assert_eq!(c.symbol_state(&btc), Some(ConnectionState::Streaming));

    // A disconnect, then a successful reconnect.
    let acts = c.on_terminate(0, TerminateReason::TransportError);
    assert_eq!(acts.len(), 1);
    assert!(matches!(
        acts[0],
        Action::Reopen { conn: 0, delay_ms: 1000, .. }
    ));
    assert_eq!(
        c.symbol_state(&btc),
        Some(ConnectionState::Reconnecting { attempt: 1 })
    );
    assert_eq!(c.on_opened(0), vec![]);
    assert_eq!(c.conns[0].attempts, 1);

    // A successfully decoded frame resets the attempt counter.
    c.on_frame(0, &bytes("{\"c\":\"100.5\"}"));
    assert_eq!(c.conns[0].attempts, 0);
    let u = c.next_update().unwrap();
    assert_eq!(u.symbol, bytes("BTCUSDT"));
    assert_eq!(u.price.mantissa, 1005);
    assert_eq!(u.price.scale, 1);
    assert!(c.next_update().is_none());
}

#[test]
fn malformed_frame_leaves_connection_streaming() {
    let mut c = BinanceContainer::new();
    let btc = bytes("btcusdt");
    c.add_symbol(&btc).unwrap();
    c.on_opened(0);
    let events_before = c.events.len();
    c.on_frame(0, &bytes("{\"c\":"));
    assert_eq!(c.symbol_state(&btc), Some(ConnectionState::Streaming));
    assert_eq!(c.conns[0].attempts, 0);
    assert_eq!(c.bus.len(), 0);
    assert_eq!(c.events.len(), events_before + 1);
    assert_eq!(c.events[events_before], SupEvent::DecodeFailure { conn: 0 });
}

#[test]
fn binance_gives_up_after_max_attempts() {
    let mut c = BinanceContainer::with_policy(ReconnectPolicy {
        base_delay_ms: 100,
        max_attempts: 2,
    });
    let btc = bytes("btcusdt");
    c.add_symbol(&btc).unwrap();
    // The first open fails twice, with growing delays, then exhausts.
    let acts = c.on_open_failed(0, ConnectError::Refused);
    assert!(matches!(acts[0], Action::Reopen { delay_ms: 100, .. }));
    assert_eq!(c.conns[0].attempts, 1);
    let acts = c.on_open_failed(0, ConnectError::Refused);
    assert!(matches!(acts[0], Action::Reopen { delay_ms: 200, .. }));
    assert_eq!(c.conns[0].attempts, 2);
    let acts = c.on_open_failed(0, ConnectError::Refused);
    assert_eq!(acts, vec![]);
    assert!(matches!(
        c.symbol_state(&btc),
        Some(ConnectionState::Failed { .. })
    ));
    // The failure is observable and recorded, and the counter never
    // exceeded the limit.
    assert!(c.events.contains(&SupEvent::GaveUp { conn: 0 }));
    assert!(c
        .events
        .contains(&SupEvent::OpenFailed { conn: 0, err: ConnectError::Refused }));
    assert!(c.conns[0].attempts <= 2);
}

#[test]
fn one_terminal_event_per_opened_reader() {
    let mut c = BinanceContainer::new();
    c.add_symbol(&bytes("btcusdt")).unwrap();
    c.add_symbol(&bytes("ethusdt")).unwrap();
    c.on_opened(0);
    c.on_opened(1);
    assert_eq!(c.opened, 2);
    assert_eq!(c.live_readers(), 2);

    c.on_terminate(0, TerminateReason::PeerClose);
    // A duplicate terminal report for the same reader is not consumed.
    let before = c.terminated;
    c.on_terminate(0, TerminateReason::PeerClose);
    assert_eq!(c.terminated, before);

    c.on_terminate(1, TerminateReason::TransportError);
    assert_eq!(c.live_readers(), 0);
    assert_eq!(c.opened, c.terminated);
}

#[test]
fn shutdown_drains_and_is_idempotent() {
    let mut c = BinanceContainer::new();
    let btc = bytes("btcusdt");
    let eth = bytes("ethusdt");
    c.add_symbol(&btc).unwrap();
    c.add_symbol(&eth).unwrap();
    c.on_opened(0);
    c.on_opened(1);
    c.on_frame(0, &bytes("{\"c\":\"1.5\"}"));

    let acts = c.shutdown();
    assert_eq!(
        acts,
        vec![
            Action::CloseSocket { conn: 0 },
            Action::JoinReader { conn: 0 },
            Action::CloseSocket { conn: 1 },
            Action::JoinReader { conn: 1 },
        ]
    );
    assert!(c.shutdown_flag);
    assert!(c.bus.is_closed());
    assert_eq!(c.symbol_state(&btc), None);

    // The readers observe cancellation and deliver their terminals.
    c.on_terminate(0, TerminateReason::Cancelled);
    c.on_terminate(1, TerminateReason::Cancelled);
    assert_eq!(c.live_readers(), 0);
    assert_eq!(c.opened, c.terminated);

    // After shutdown no new update is accepted and no new subscription
    // is taken, but what was queued before is still delivered.
    c.on_frame(0, &bytes("{\"c\":\"9\"}"));
    assert_eq!(c.bus.len(), 1);
    assert_eq!(c.add_symbol(&btc), Err(SubscribeError::ShuttingDown));
    let u = c.next_update().unwrap();
    assert_eq!(u.price.mantissa, 15);

    // Calling shutdown again is safe and finds nothing left to stop.
    let acts = c.shutdown();
    assert_eq!(acts, vec![]);
}

#[test]
fn coinbase_last_symbol_tears_down_and_resubscribe_reopens() {
    let mut c = CoinBaseContainer::new();
    let btc = bytes("BTC-USD");
    let eth = bytes("ETH-USD");

    // First symbol opens the shared connection.
    let acts = c.add_symbol(&btc).unwrap();
    assert_eq!(
        acts,
        vec![Action::OpenSocket {
            conn: 0,
            endpoint: bytes("wss://ws-feed.exchange.coinbase.com"),
        }]
    );
    // On open, the subscribe control frame lists the full set.
    let acts = c.on_opened(0);
    assert_eq!(
        acts,
        vec![Action::SendText {
            conn: 0,
            payload: bytes(
                "{\"type\":\"subscribe\",\"channels\":[{\"name\":\"ticker\",\"product_ids\":[\"BTC-USD\"]}]}"
            ),
        }]
    );
    // A second symbol while streaming re-subscribes with the full set.
    let acts = c.add_symbol(&eth).unwrap();
    assert_eq!(
        acts,
        vec![Action::SendText {
            conn: 0,
            payload: bytes(
                "{\"type\":\"subscribe\",\"channels\":[{\"name\":\"ticker\",\"product_ids\":[\"BTC-USD\",\"ETH-USD\"]}]}"
            ),
        }]
    );
    // Removing one of two sends an unsubscribe for just that symbol.
    let acts = c.remove_symbol(&btc);
    assert_eq!(
        acts,
        vec![Action::SendText {
            conn: 0,
            payload: bytes(
                "{\"type\":\"unsubscribe\",\"channels\":[{\"name\":\"ticker\",\"product_ids\":[\"BTC-USD\"]}]}"
            ),
        }]
    );
    // Removing the last symbol tears the shared connection down.
    let acts = c.remove_symbol(&eth);
    assert_eq!(
        acts,
        vec![Action::CloseSocket { conn: 0 }, Action::JoinReader { conn: 0 }]
    );
    assert!(!c.has_socket_connection());
    c.on_terminate(0, TerminateReason::Cancelled);
    assert_eq!(c.opened, c.terminated);

    // Subscribing again reopens cleanly with a fresh connection.
    let acts = c.add_symbol(&btc).unwrap();
    assert_eq!(
        acts,
        vec![Action::OpenSocket {
            conn: 1,
            endpoint: bytes("wss://ws-feed.exchange.coinbase.com"),
        }]
    );
    assert!(c.has_socket_connection());
}

#[test]
fn coinbase_frames_reach_the_consumer() {
    let mut c = CoinBaseContainer::new();
    c.add_symbol(&bytes("BTC-USD")).unwrap();
    c.on_opened(0);
    c.on_frame(
        0,
        &bytes("{\"type\":\"ticker\",\"product_id\":\"BTC-USD\",\"price\":\"65000.50\"}"),
    );
    // A heartbeat is ignored, not an error.
    c.on_frame(0, &bytes("{\"type\":\"heartbeat\"}"));
    let u = c.on_symbol_update().unwrap();
    assert_eq!(u.symbol, bytes("BTCUSD"));
    assert_eq!(u.price.mantissa, 6500050);
    assert_eq!(u.price.scale, 2);
    assert!(c.on_symbol_update().is_none());
}

#[test]
fn coinbase_reconnect_uses_policy_and_resubscribes() {
    let mut c = CoinBaseContainer::with_policy(ReconnectPolicy {
        base_delay_ms: 500,
        max_attempts: 3,
    });
    c.add_symbol(&bytes("BTC-USD")).unwrap();
    c.on_opened(0);
    let acts = c.on_terminate(0, TerminateReason::TransportError);
    assert_eq!(acts.len(), 1);
    assert!(matches!(
        acts[0],
        Action::Reopen { conn: 0, delay_ms: 500, .. }
    ));
    // Reopening sends the subscribe frame again.
    let acts = c.on_opened(0);
    assert_eq!(acts.len(), 1);
    assert!(matches!(acts[0], Action::SendText { conn: 0, .. }));
}

#[test]
fn consumer_collects_symbols_and_updates() {
    let mut sc = SocketConsumer::new();
    sc.add_symbol(&bytes("btcusdt"));
    sc.add_symbol(&bytes("ethusdt"));
    let acts = sc.start_binance_price_monitoring().unwrap();
    assert_eq!(acts.len(), 2);
    sc.binance_container.on_opened(0);
    sc.binance_container.on_frame(0, &bytes("{\"c\":\"3.5\"}"));
    let u = sc.next_update().unwrap();
    assert_eq!(u.symbol, bytes("BTCUSDT"));
    assert!(sc.next_update().is_none());
}
