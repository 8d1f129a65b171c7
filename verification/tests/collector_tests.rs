use ws_socket::cache::Aggregate;
use ws_socket::collector::{
    message_parser, Collector, Feed, Phase, SocketMessage, StepOutcome, StreamItem,
};
use ws_socket::errors::WSError;
use ws_socket::pairs::Pair;
use ws_socket::price::PRICE_SCALE;
use ws_socket::types::RequestParamType;

fn three_feeds() -> Vec<Feed> {
    vec![
        Feed { name: String::from("binance"), kind: RequestParamType::Binance },
        Feed { name: String::from("coinbase"), kind: RequestParamType::Coinbase },
        Feed { name: String::from("okex"), kind: RequestParamType::Okex },
    ]
}

fn collecting(pairs: &[&str]) -> Collector {
    let parsed: Vec<Pair> = pairs
        .iter()
        .map(|t| Pair::parse(t).expect("valid token"))
        .collect();
    let mut c = Collector::new(three_feeds(), &parsed);
    assert_eq!(c.phase, Phase::Connecting);
    c.on_connected();
    assert_eq!(c.phase, Phase::Subscribing);
    c.on_subscribed();
    assert_eq!(c.phase, Phase::Collecting);
    c
}

#[test]
fn end_to_end_two_feeds_average() {
    let mut c = collecting(&["btc_usdt"]);
    let from_binance = String::from(r#"{"s":"BTCUSDT","c":"100.0"}"#);
    let from_coinbase =
        String::from(r#"{"type":"ticker","product_id":"BTC-USDT","price":"102.0"}"#);
    assert_eq!(c.on_event(0, StreamItem::Text(from_binance)), StepOutcome::Continue);
    assert_eq!(c.on_event(1, StreamItem::Text(from_coinbase)), StepOutcome::Continue);
    // feed 3 sends nothing at all: absence of data is not an error
    assert_eq!(c.on_timer(), StepOutcome::Continue);
    assert_eq!(c.on_timer(), StepOutcome::Finished);
    assert_eq!(c.phase, Phase::Finalizing);
    let key = String::from("BTCUSDT");
    let entry = c.cache.get(&key).expect("requested pair");
    assert_eq!(entry.aggregate, Aggregate::Mean(101 * PRICE_SCALE));
    assert_eq!(entry.prices.len(), 2);
    c.on_persisted();
    assert_eq!(c.phase, Phase::Done);
}

#[test]
fn samples_keep_their_source_names() {
    let mut c = collecting(&["btc_usdt"]);
    let frame = String::from(r#"{"s":"BTCUSDT","c":"50.0"}"#);
    assert_eq!(c.on_event(0, StreamItem::Text(frame)), StepOutcome::Continue);
    let key = String::from("BTCUSDT");
    let entry = c.cache.get(&key).expect("requested pair");
    assert_eq!(entry.prices.len(), 1);
    assert_eq!(entry.prices[0].name, "binance");
    assert_eq!(entry.prices[0].price, 50 * PRICE_SCALE);
}

#[test]
fn error_envelope_aborts_and_no_snapshot_is_finalized() {
    let mut c = collecting(&["btc_usdt"]);
    let frame = String::from(r#"{"type":"error","reason":"bad channel"}"#);
    assert_eq!(c.on_event(1, StreamItem::Text(frame)), StepOutcome::Aborted);
    assert_eq!(c.phase, Phase::Aborted);
    match c.error {
        Some(WSError::Protocol { ref feed, .. }) => assert_eq!(feed, "coinbase"),
        ref other => panic!("expected a protocol error, got {:?}", other),
    }
    // nothing was finalized: the entry still holds the pending marker
    let key = String::from("BTCUSDT");
    let entry = c.cache.get(&key).expect("requested pair");
    assert_eq!(entry.aggregate, Aggregate::Pending);
}

#[test]
fn both_ready_feeds_are_processed_in_the_same_window() {
    let mut c = collecting(&["btc_usdt"]);
    // two feeds have frames ready in the same scheduling turn; the host
    // processes one event per turn, in either order
    let first = String::from(r#"{"s":"BTCUSDT","c":"100.0"}"#);
    let second = String::from(r#"{"type":"ticker","product_id":"BTC-USDT","price":"102.0"}"#);
    assert_eq!(c.on_event(0, StreamItem::Text(first)), StepOutcome::Continue);
    assert_eq!(c.on_event(1, StreamItem::Text(second)), StepOutcome::Continue);
    let key = String::from("BTCUSDT");
    let entry = c.cache.get(&key).expect("requested pair");
    // both were evaluated: neither feed starved the other
    assert_eq!(entry.prices.len(), 2);
    let total: u128 = entry.prices.iter().map(|s| s.price).sum();
    assert_eq!(total, 202 * PRICE_SCALE);
}

#[test]
fn stream_ending_while_collecting_aborts() {
    let mut c = collecting(&["btc_usdt"]);
    assert_eq!(c.on_event(2, StreamItem::Closed), StepOutcome::Aborted);
    assert_eq!(c.phase, Phase::Aborted);
    match c.error {
        Some(WSError::Transport { ref feed }) => assert_eq!(feed, "okex"),
        ref other => panic!("expected a transport error, got {:?}", other),
    }
}

#[test]
fn non_text_frame_aborts() {
    let mut c = collecting(&["btc_usdt"]);
    assert_eq!(c.on_event(0, StreamItem::NonText), StepOutcome::Aborted);
    assert_eq!(c.phase, Phase::Aborted);
}

#[test]
fn tick_for_unrequested_pair_is_an_integrity_abort() {
    let mut c = collecting(&["btc_usdt"]);
    let frame = String::from(r#"{"s":"DOGEUSDT","c":"1.0"}"#);
    assert_eq!(c.on_event(0, StreamItem::Text(frame)), StepOutcome::Aborted);
    match c.error {
        Some(WSError::Integrity { ref feed, ref key }) => {
            assert_eq!(feed, "binance");
            assert_eq!(key, "DOGEUSDT");
        },
        ref other => panic!("expected an integrity error, got {:?}", other),
    }
}

#[test]
fn connect_failure_aborts_before_collecting() {
    let pairs = vec![Pair::parse("btc_usdt").unwrap()];
    let mut c = Collector::new(three_feeds(), &pairs);
    c.on_connect_failure(String::from("binance"));
    assert_eq!(c.phase, Phase::Aborted);
    assert_eq!(c.error, Some(WSError::Transport { feed: String::from("binance") }));
}

#[test]
fn message_parser_accepts_only_text() {
    let feed = String::from("binance");
    let ok = message_parser(&feed, Ok(SocketMessage::Text(String::from("hi"))));
    assert_eq!(ok, Ok(String::from("hi")));
    let other = message_parser(&feed, Ok(SocketMessage::Other));
    assert_eq!(other, Err(WSError::Transport { feed: feed.clone() }));
    let err = message_parser(&feed, Err(String::from("broken pipe")));
    assert_eq!(err, Err(WSError::Transport { feed: feed.clone() }));
}
