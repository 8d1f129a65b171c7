use ws_socket::helpers::{
    binance_req_url, create_req_params, extend_binance_params, extend_coinbase_params,
    extend_okex_params,
};
use ws_socket::types::{BinanceReqParam, CoinbaseReqParam, OkexReqParam, RequestParamType};

fn tokens(list: &[&str]) -> Vec<String> {
    list.iter().map(|t| String::from(*t)).collect()
}

#[test]
fn binance_url_gains_one_query_per_pair() {
    let url = binance_req_url("wss://example.net:9443", &tokens(&["btc_usdt", "eth_usdt"]));
    assert_eq!(url, "wss://example.net:9443/ws/btcusdt@ticker/ethusdt@ticker");
}

#[test]
fn binance_url_skips_malformed_tokens() {
    let url = binance_req_url("wss://example.net", &tokens(&["btcusdt", "eth_usdt"]));
    assert_eq!(url, "wss://example.net/ws/ethusdt@ticker");
}

#[test]
fn req_params_follow_each_feeds_convention() {
    let pairs = tokens(&["btc_usdt", "eth_usdt"]);
    assert_eq!(
        create_req_params(RequestParamType::Binance, &pairs),
        vec!["BTCUSDTticker", "ETHUSDTticker"]
    );
    assert_eq!(
        create_req_params(RequestParamType::Coinbase, &pairs),
        vec!["BTC-USDT", "ETH-USDT"]
    );
    assert_eq!(
        create_req_params(RequestParamType::Okex, &pairs),
        vec!["BTC-USDT", "ETH-USDT"]
    );
}

#[test]
fn req_params_skip_malformed_tokens() {
    let pairs = tokens(&["nodash", "btc_usdt"]);
    assert_eq!(
        create_req_params(RequestParamType::Okex, &pairs),
        vec!["BTC-USDT"]
    );
}

#[test]
fn skeletons_gain_the_built_identifiers() {
    let mut binance = BinanceReqParam {
        method: String::from("SUBSCRIBE"),
        params: vec![],
        id: 1,
    };
    extend_binance_params(&mut binance, &tokens(&["BTCUSDTticker"]));
    assert_eq!(binance.method, "SUBSCRIBE");
    assert_eq!(binance.id, 1);
    assert_eq!(binance.params, vec!["BTCUSDTticker"]);

    let mut coinbase = CoinbaseReqParam {
        kind: String::from("subscribe"),
        channels: vec![String::from("ticker")],
        product_ids: vec![],
    };
    extend_coinbase_params(&mut coinbase, &tokens(&["BTC-USDT"]));
    assert_eq!(coinbase.kind, "subscribe");
    assert_eq!(coinbase.channels, vec!["ticker"]);
    assert_eq!(coinbase.product_ids, vec!["BTC-USDT"]);

    let mut okex = OkexReqParam { op: String::from("subscribe"), args: vec![] };
    extend_okex_params(&mut okex, &tokens(&["BTC-USDT", "ETH-USDT"]));
    assert_eq!(okex.op, "subscribe");
    assert_eq!(okex.args.len(), 2);
    assert_eq!(okex.args[0].channel, "tickers");
    assert_eq!(okex.args[0].inst_id, "BTC-USDT");
    assert_eq!(okex.args[1].inst_id, "ETH-USDT");
}
