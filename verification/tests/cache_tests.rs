use ws_socket::cache::{Aggregate, CacheMap};
use ws_socket::pairs::Pair;
use ws_socket::price::PRICE_SCALE;

fn pairs_of(tokens: &[&str]) -> Vec<Pair> {
    tokens
        .iter()
        .map(|t| Pair::parse(t).expect("valid token"))
        .collect()
}

#[test]
fn init_makes_one_empty_entry_per_pair() {
    let cache = CacheMap::init(&pairs_of(&["btc_usdt", "eth_usdt"]));
    assert_eq!(cache.len(), 2);
    for i in 0..cache.len() {
        let rec = cache.record_at(i);
        assert_eq!(rec.entry.prices.len(), 0);
        assert_eq!(rec.entry.aggregate, Aggregate::Pending);
    }
    assert_eq!(cache.record_at(0).key, "BTCUSDT");
    assert_eq!(cache.record_at(1).key, "ETHUSDT");
}

#[test]
fn init_collapses_duplicate_pairs() {
    let cache = CacheMap::init(&pairs_of(&["btc_usdt", "btc_usdt"]));
    assert_eq!(cache.len(), 1);
}

#[test]
fn finalize_takes_the_mean_of_all_samples() {
    let mut cache = CacheMap::init(&pairs_of(&["btc_usdt"]));
    let key = String::from("BTCUSDT");
    assert!(cache.record(&key, String::from("A"), 10 * PRICE_SCALE));
    assert!(cache.record(&key, String::from("B"), 20 * PRICE_SCALE));
    assert!(cache.record(&key, String::from("A"), 30 * PRICE_SCALE));
    assert!(cache.finalize().is_ok());
    let entry = cache.get(&key).expect("requested pair");
    assert_eq!(entry.aggregate, Aggregate::Mean(20 * PRICE_SCALE));
    assert_eq!(entry.prices.len(), 3);
    assert_eq!(entry.prices[0].name, "A");
    assert_eq!(entry.prices[1].name, "B");
}

#[test]
fn two_samples_average_exactly() {
    let mut cache = CacheMap::init(&pairs_of(&["btc_usdt"]));
    let key = String::from("BTCUSDT");
    assert!(cache.record(&key, String::from("A"), 10 * PRICE_SCALE));
    assert!(cache.record(&key, String::from("B"), 30 * PRICE_SCALE));
    assert!(cache.finalize().is_ok());
    let entry = cache.get(&key).expect("requested pair");
    assert_eq!(entry.aggregate, Aggregate::Mean(20 * PRICE_SCALE));
}

#[test]
fn zero_samples_yield_the_no_data_marker() {
    let mut cache = CacheMap::init(&pairs_of(&["btc_usdt", "eth_usdt"]));
    let btc = String::from("BTCUSDT");
    assert!(cache.record(&btc, String::from("A"), PRICE_SCALE));
    assert!(cache.finalize().is_ok());
    let eth = String::from("ETHUSDT");
    let entry = cache.get(&eth).expect("requested pair");
    assert_eq!(entry.aggregate, Aggregate::NoData);
    assert!(!matches!(entry.aggregate, Aggregate::Mean(_)));
}

#[test]
fn sum_overflow_fails_finalize_and_leaves_the_cache() {
    let mut cache = CacheMap::init(&pairs_of(&["btc_usdt"]));
    let key = String::from("BTCUSDT");
    assert!(cache.record(&key, String::from("A"), u128::MAX));
    assert!(cache.record(&key, String::from("B"), 2));
    assert!(cache.finalize().is_err());
    let entry = cache.get(&key).expect("requested pair");
    assert_eq!(entry.aggregate, Aggregate::Pending);
}

#[test]
fn recording_an_unrequested_key_is_refused() {
    let mut cache = CacheMap::init(&pairs_of(&["btc_usdt"]));
    let stray = String::from("DOGEUSDT");
    assert!(!cache.record(&stray, String::from("A"), PRICE_SCALE));
    assert_eq!(cache.record_at(0).entry.prices.len(), 0);
}
