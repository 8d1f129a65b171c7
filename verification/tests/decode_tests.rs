use ws_socket::decode::{decode_frame, DecodeOutcome};
use ws_socket::errors::ProtocolFault;
use ws_socket::price::PRICE_SCALE;
use ws_socket::types::RequestParamType;

fn expect_tick(outcome: DecodeOutcome) -> (String, u128) {
    match outcome {
        DecodeOutcome::Tick(t) => (t.key, t.price),
        other => panic!("expected a tick, got {:?}", other),
    }
}

#[test]
fn binance_tick_frame_normalizes() {
    let frame = r#"{"s":"BTCUSDT","c":"100.0","E":123}"#;
    let (key, price) = expect_tick(decode_frame(RequestParamType::Binance, frame));
    assert_eq!(key, "BTCUSDT");
    assert_eq!(price, 100 * PRICE_SCALE);
}

#[test]
fn binance_error_envelope_is_fatal() {
    let frame = r#"{"result":"error","id":1}"#;
    assert!(matches!(
        decode_frame(RequestParamType::Binance, frame),
        DecodeOutcome::Fatal(ProtocolFault::ErrorEnvelope)
    ));
}

#[test]
fn binance_ack_without_symbol_is_ignorable() {
    let frame = r#"{"result":null,"id":1}"#;
    assert!(matches!(
        decode_frame(RequestParamType::Binance, frame),
        DecodeOutcome::Ignorable
    ));
}

#[test]
fn garbage_frame_is_fatal() {
    assert!(matches!(
        decode_frame(RequestParamType::Binance, "not json at all"),
        DecodeOutcome::Fatal(ProtocolFault::Unparseable)
    ));
    assert!(matches!(
        decode_frame(RequestParamType::Okex, "{truncated"),
        DecodeOutcome::Fatal(ProtocolFault::Unparseable)
    ));
}

#[test]
fn non_numeric_price_is_fatal_not_zero() {
    let frame = r#"{"s":"BTCUSDT","c":"not-a-number"}"#;
    assert!(matches!(
        decode_frame(RequestParamType::Binance, frame),
        DecodeOutcome::Fatal(ProtocolFault::BadPrice)
    ));
}

#[test]
fn coinbase_tick_frame_normalizes() {
    let frame = r#"{"type":"ticker","product_id":"BTC-USDT","price":"102.0"}"#;
    let (key, price) = expect_tick(decode_frame(RequestParamType::Coinbase, frame));
    assert_eq!(key, "BTCUSDT");
    assert_eq!(price, 102 * PRICE_SCALE);
}

#[test]
fn coinbase_error_envelope_is_fatal() {
    let frame = r#"{"type":"error","reason":"bad subscription"}"#;
    assert!(matches!(
        decode_frame(RequestParamType::Coinbase, frame),
        DecodeOutcome::Fatal(ProtocolFault::ErrorEnvelope)
    ));
}

#[test]
fn coinbase_subscriptions_ack_is_ignorable() {
    let frame = r#"{"type":"subscriptions","channels":[]}"#;
    assert!(matches!(
        decode_frame(RequestParamType::Coinbase, frame),
        DecodeOutcome::Ignorable
    ));
}

#[test]
fn coinbase_dashless_ident_is_fatal_shape() {
    let frame = r#"{"type":"ticker","product_id":"BTCUSDT","price":"1.0"}"#;
    assert!(matches!(
        decode_frame(RequestParamType::Coinbase, frame),
        DecodeOutcome::Fatal(ProtocolFault::BadShape)
    ));
}

#[test]
fn okex_tick_frame_normalizes() {
    let frame = r#"{"arg":{"channel":"tickers"},"data":[{"instId":"ETH-USDT","last":"99.5"}]}"#;
    let (key, price) = expect_tick(decode_frame(RequestParamType::Okex, frame));
    assert_eq!(key, "ETHUSDT");
    assert_eq!(price, 99 * PRICE_SCALE + PRICE_SCALE / 2);
}

#[test]
fn okex_error_envelope_is_fatal() {
    let frame = r#"{"event":"error","msg":"channel does not exist"}"#;
    assert!(matches!(
        decode_frame(RequestParamType::Okex, frame),
        DecodeOutcome::Fatal(ProtocolFault::ErrorEnvelope)
    ));
}

#[test]
fn okex_subscribe_ack_is_ignorable() {
    let frame = r#"{"event":"subscribe","arg":{"channel":"tickers"}}"#;
    assert!(matches!(
        decode_frame(RequestParamType::Okex, frame),
        DecodeOutcome::Ignorable
    ));
}

#[test]
fn okex_empty_data_is_ignorable() {
    let frame = r#"{"arg":{"channel":"tickers"},"data":[]}"#;
    assert!(matches!(
        decode_frame(RequestParamType::Okex, frame),
        DecodeOutcome::Ignorable
    ));
}
