use arbitrage_detector::config::Config;
use arbitrage_detector::error::AppError;
use arbitrage_detector::logger::{LogLevel, Logger};
use arbitrage_detector::models::{ApiResponse, ExchangeId, Topology};
use arbitrage_detector::policy::{ReconnectDecision, ReconnectPolicy};
use arbitrage_detector::AppState;

#[test]
fn backoff_is_linear_in_the_attempt() {
    let p = ReconnectPolicy { base_delay_ms: 1000, max_attempts: 5 };
    assert_eq!(p.decide(1), ReconnectDecision::RetryAfter { delay_ms: 1000 });
    assert_eq!(p.decide(2), ReconnectDecision::RetryAfter { delay_ms: 2000 });
    assert_eq!(p.decide(5), ReconnectDecision::RetryAfter { delay_ms: 5000 });
    assert_eq!(p.decide(6), ReconnectDecision::GiveUp);
    assert_eq!(p.decide(0), ReconnectDecision::GiveUp);
}

#[test]
fn backoff_is_monotone_in_the_attempt() {
    let p = ReconnectPolicy { base_delay_ms: 250, max_attempts: 100 };
    let mut last: u64 = 0;
    for a in 1..=100u32 {
        let d = p.backoff_ms(a);
        assert!(d >= last);
        last = d;
    }
}

#[test]
fn zero_max_attempts_means_never_retry() {
    let p = ReconnectPolicy { base_delay_ms: 1000, max_attempts: 0 };
    assert_eq!(p.decide(1), ReconnectDecision::GiveUp);
    assert_eq!(p.decide(2), ReconnectDecision::GiveUp);
}

#[test]
fn backoff_saturates_instead_of_overflowing() {
    let p = ReconnectPolicy { base_delay_ms: u64::MAX, max_attempts: 10 };
    assert_eq!(p.decide(2), ReconnectDecision::RetryAfter { delay_ms: u64::MAX });
}

#[test]
fn exchange_topologies() {
    assert_eq!(ExchangeId::Binance.topology(), Topology::PerSymbol);
    assert_eq!(ExchangeId::Coinbase.topology(), Topology::Multiplexed);
}

fn test_config() -> Config {
    Config {
        server_host: "127.0.0.1".to_string(),
        server_port: 3000,
        log_level: Some("info".to_string()),
        binance_socket_url: "wss://stream.binance.com:9443/ws/{}@ticker".to_string(),
        max_reconnect_attempts: 5,
    }
}

#[test]
fn server_address_joins_host_and_port() {
    let c = test_config();
    assert_eq!(c.server_address(), "127.0.0.1:3000");
    let mut c2 = test_config();
    c2.server_port = 65535;
    assert_eq!(c2.server_address(), "127.0.0.1:65535");
    c2.server_port = 0;
    assert_eq!(c2.server_address(), "127.0.0.1:0");
}

#[test]
fn default_config_values() {
    let c = Config::default();
    assert_eq!(c.server_host, "127.0.0.1");
    assert_eq!(c.server_port, 3000);
    assert_eq!(c.log_level, Some("info".to_string()));
    assert_eq!(c.binance_socket_url, "wss://stream.binance.com:9443/ws/{}@ticker");
    assert_eq!(c.max_reconnect_attempts, 5);
    assert_eq!(Logger::default().entries.len(), 0);
}

#[test]
fn app_state_wraps_config_and_logger() {
    let s = AppState::new(test_config());
    assert_eq!(s.config.server_port, 3000);
    assert_eq!(s.logger.entries.len(), 0);
}

#[test]
fn api_response_envelopes() {
    let ok: ApiResponse<u32> = ApiResponse::success(7);
    assert!(ok.success);
    assert_eq!(ok.data, Some(7));
    assert!(ok.message.is_none());

    let err: ApiResponse<u32> = ApiResponse::error("boom".to_string());
    assert!(!err.success);
    assert!(err.data.is_none());
    assert_eq!(err.message, Some("boom".to_string()));
}

#[test]
fn app_error_codes_and_messages() {
    let e = AppError::InternalServerError("a".to_string());
    assert_eq!(e.status_code(), 500);
    assert_eq!(e.message(), "a");
    assert_eq!(AppError::BadRequest("b".to_string()).status_code(), 400);
    assert_eq!(AppError::NotFound("c".to_string()).status_code(), 404);
    assert_eq!(AppError::ConfigError("d".to_string()).status_code(), 500);
    assert_eq!(AppError::ConfigError("d".to_string()).message(), "d");
}

#[test]
fn logger_records_leveled_entries_in_order() {
    let mut l = Logger::new();
    l.info("starting");
    l.warn("slow");
    l.error("broken");
    l.debug("detail");
    l.trace("fine");
    assert_eq!(l.entries.len(), 5);
    assert_eq!(l.entries[0].level, LogLevel::Info);
    assert_eq!(l.entries[0].message, "starting");
    assert_eq!(l.entries[1].level, LogLevel::Warn);
    assert_eq!(l.entries[2].level, LogLevel::Error);
    assert_eq!(l.entries[2].message, "broken");
    assert_eq!(l.entries[3].level, LogLevel::Debug);
    assert_eq!(l.entries[4].level, LogLevel::Trace);
}
