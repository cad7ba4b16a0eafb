use arbitrage_detector::decode::{decode_binance, decode_coinbase, parse_price, DecodeOutcome};
use arbitrage_detector::models::{ExchangeId, Price, PriceUpdate};

fn bytes(s: &str) -> Vec<u8> {
    s.as_bytes().to_vec()
}

#[test]
fn binance_ticker_frame_decodes() {
    let out = decode_binance(&bytes("btcusdt"), &bytes("{\"c\":\"65000.50\"}"));
    assert_eq!(
        out,
        DecodeOutcome::Update(PriceUpdate {
            symbol: bytes("BTCUSDT"),
            price: Price { mantissa: 6500050, scale: 2 },
            source: ExchangeId::Binance,
        })
    );
}

#[test]
fn coinbase_ticker_frame_decodes() {
    let frame = bytes("{\"type\":\"ticker\",\"product_id\":\"BTC-USD\",\"price\":\"65000.50\"}");
    let out = decode_coinbase(&frame);
    assert_eq!(
        out,
        DecodeOutcome::Update(PriceUpdate {
            symbol: bytes("BTCUSD"),
            price: Price { mantissa: 6500050, scale: 2 },
            source: ExchangeId::Coinbase,
        })
    );
}

#[test]
fn malformed_json_is_reported() {
    assert_eq!(
        decode_binance(&bytes("btcusdt"), &bytes("{\"c\":\"65000.50\"")),
        DecodeOutcome::Malformed
    );
    assert_eq!(decode_binance(&bytes("btcusdt"), &bytes("not json")), DecodeOutcome::Malformed);
    assert_eq!(decode_coinbase(&bytes("[1,2,3]")), DecodeOutcome::Malformed);
    assert_eq!(decode_coinbase(&bytes("")), DecodeOutcome::Malformed);
}

#[test]
fn binance_frame_without_price_is_ignored() {
    assert_eq!(decode_binance(&bytes("btcusdt"), &bytes("{\"x\":\"1\"}")), DecodeOutcome::Ignored);
    assert_eq!(decode_binance(&bytes("btcusdt"), &bytes("{\"c\":12}")), DecodeOutcome::Ignored);
    assert_eq!(
        decode_binance(&bytes("btcusdt"), &bytes("{\"c\":\"abc\"}")),
        DecodeOutcome::Ignored
    );
    assert_eq!(decode_binance(&bytes("btcusdt"), &bytes("{}")), DecodeOutcome::Ignored);
}

#[test]
fn coinbase_non_ticker_frames_are_ignored() {
    let ack = bytes("{\"type\":\"subscriptions\",\"channels\":[{\"name\":\"ticker\"}]}");
    assert_eq!(decode_coinbase(&ack), DecodeOutcome::Ignored);
    let heartbeat = bytes("{\"type\":\"heartbeat\",\"sequence\":123}");
    assert_eq!(decode_coinbase(&heartbeat), DecodeOutcome::Ignored);
    let no_type = bytes("{\"price\":\"1.5\"}");
    assert_eq!(decode_coinbase(&no_type), DecodeOutcome::Ignored);
}

#[test]
fn coinbase_missing_product_id_becomes_unknown() {
    let frame = bytes("{\"type\":\"ticker\",\"price\":\"1.5\"}");
    assert_eq!(
        decode_coinbase(&frame),
        DecodeOutcome::Update(PriceUpdate {
            symbol: bytes("unknown"),
            price: Price { mantissa: 15, scale: 1 },
            source: ExchangeId::Coinbase,
        })
    );
}

#[test]
fn integer_price_has_scale_zero() {
    let out = decode_binance(&bytes("ethusdt"), &bytes("{\"c\":\"42\"}"));
    assert_eq!(
        out,
        DecodeOutcome::Update(PriceUpdate {
            symbol: bytes("ETHUSDT"),
            price: Price { mantissa: 42, scale: 0 },
            source: ExchangeId::Binance,
        })
    );
}

#[test]
fn unparseable_prices_are_ignored() {
    // Too many digits for the mantissa.
    let big = bytes("{\"c\":\"99999999999999999999999\"}");
    assert_eq!(decode_binance(&bytes("btcusdt"), &big), DecodeOutcome::Ignored);
    // Empty integer or fractional part, or a second point.
    for p in [".5", "5.", "1.2.3", "", "-1.5", "1e5"] {
        let frame = bytes(&format!("{{\"c\":\"{}\"}}", p));
        assert_eq!(decode_binance(&bytes("btcusdt"), &frame), DecodeOutcome::Ignored);
    }
}

#[test]
fn parse_price_exact_values() {
    assert_eq!(parse_price(&bytes("65000.50")), Some(Price { mantissa: 6500050, scale: 2 }));
    assert_eq!(parse_price(&bytes("0.00000001")), Some(Price { mantissa: 1, scale: 8 }));
    assert_eq!(parse_price(&bytes("7")), Some(Price { mantissa: 7, scale: 0 }));
    assert_eq!(
        parse_price(&bytes("18446744073709551615")),
        Some(Price { mantissa: u64::MAX, scale: 0 })
    );
    assert_eq!(parse_price(&bytes("18446744073709551616")), None);
    assert_eq!(parse_price(&bytes(" 1")), None);
}

#[test]
fn only_top_level_fields_are_read() {
    let frame = bytes("{\"a\":{\"c\":\"9\"},\"b\":[1,2,{\"c\":\"8\"}],\"c\":\"3.14\"}");
    assert_eq!(
        decode_binance(&bytes("btcusdt"), &frame),
        DecodeOutcome::Update(PriceUpdate {
            symbol: bytes("BTCUSDT"),
            price: Price { mantissa: 314, scale: 2 },
            source: ExchangeId::Binance,
        })
    );
}

#[test]
fn escaped_strings_are_scanned_correctly() {
    let frame = bytes("{\"note\":\"a\\\"b\",\"c\":\"2.5\"}");
    assert_eq!(
        decode_binance(&bytes("solusdt"), &frame),
        DecodeOutcome::Update(PriceUpdate {
            symbol: bytes("SOLUSDT"),
            price: Price { mantissa: 25, scale: 1 },
            source: ExchangeId::Binance,
        })
    );
}

#[test]
fn whitespace_around_tokens_is_tolerated() {
    let frame = bytes("  {  \"c\"  :  \"1.5\"  }  ");
    assert_eq!(
        decode_binance(&bytes("btcusdt"), &frame),
        DecodeOutcome::Update(PriceUpdate {
            symbol: bytes("BTCUSDT"),
            price: Price { mantissa: 15, scale: 1 },
            source: ExchangeId::Binance,
        })
    );
}

#[test]
fn trailing_garbage_is_malformed() {
    let frame = bytes("{\"c\":\"1\"} x");
    assert_eq!(decode_binance(&bytes("btcusdt"), &frame), DecodeOutcome::Malformed);
}

#[test]
fn first_occurrence_of_a_key_wins() {
    let frame = bytes("{\"c\":\"1.5\",\"c\":\"9\"}");
    assert_eq!(
        decode_binance(&bytes("btcusdt"), &frame),
        DecodeOutcome::Update(PriceUpdate {
            symbol: bytes("BTCUSDT"),
            price: Price { mantissa: 15, scale: 1 },
            source: ExchangeId::Binance,
        })
    );
}
