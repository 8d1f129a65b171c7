use ws_socket::errors::WSError;
use ws_socket::pairs::{check_pairs, pair_key, parse_pairs, Pair};

#[test]
fn check_valid_pairs() {
    let signle = check_pairs("btc_usdt");
    assert!(signle);
    let multiple = check_pairs("btc_usdt,eth_usdt");
    assert!(multiple);
}

#[test]
fn check_invalid_pairs_() {
    let single = check_pairs("btcusdt");
    assert!(!single);
    let multiple = check_pairs("btcusdt,eth_usdt");
    assert!(!multiple);
}

#[test]
fn parse_accepts_two_nonempty_components() {
    let p = Pair::parse("btc_usdt").expect("valid token");
    assert_eq!(p.base, "BTC");
    assert_eq!(p.quote, "USDT");
    assert_eq!(p.key(), "BTCUSDT");
}

#[test]
fn parse_rejects_malformed_tokens() {
    assert!(Pair::parse("btcusdt").is_none());
    assert!(Pair::parse("btc_").is_none());
    assert!(Pair::parse("_usdt").is_none());
    assert!(Pair::parse("").is_none());
    assert!(Pair::parse("a_b_c").is_none());
}

#[test]
fn empty_components_rejected_in_lists() {
    assert!(!check_pairs("btc_"));
    assert!(!check_pairs("btc_usdt,"));
    assert!(!check_pairs(""));
}

#[test]
fn parse_pairs_is_all_or_nothing() {
    let ps = parse_pairs("btc_usdt,eth_usdt").expect("all tokens valid");
    assert_eq!(ps.len(), 2);
    assert_eq!(ps[0].key(), "BTCUSDT");
    assert_eq!(ps[1].key(), "ETHUSDT");
    match parse_pairs("btc_usdt,ethusdt") {
        Err(WSError::InvalidPair { token }) => assert_eq!(token, "ethusdt"),
        other => panic!("expected the offending token to be named, got {:?}", other),
    }
}

#[test]
fn key_same_from_dash_and_underscore_forms() {
    let from_feed = pair_key("BTC-USDT");
    let from_user = Pair::parse("btc_usdt").expect("valid token").key();
    assert_eq!(from_feed, from_user);
    assert_eq!(from_feed, "BTCUSDT");
    let lower_feed = pair_key("btc-usdt");
    assert_eq!(lower_feed, from_user);
}

#[test]
fn pair_key_uses_first_two_components() {
    assert_eq!(pair_key("eth-usdt"), "ETHUSDT");
    assert_eq!(pair_key("a-b-c"), "AB");
}
