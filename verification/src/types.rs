//! Plain data carried between the host program and the library: run
//! arguments, feed connection records, subscription request skeletons,
//! and the feeds' inbound tick shapes.

use vstd::prelude::*;

verus! {

/// Run arguments: `mode` selects collecting or reading back, `pairs`
/// is the comma-separated pair list required when collecting.
#[derive(Clone, Debug)]
pub struct Args {
    pub mode: String,
    pub pairs: String,
}

/// Connection record of one feed, read from configuration: display
/// name, connection target, and the feed's subscription skeleton.
#[derive(Clone, Debug)]
pub struct WebSocket {
    pub name: String,
    pub ws_base_url: String,
    pub req_param: String,
}

/// Which feed's conventions a request or frame follows.
#[derive(Clone, Copy, Debug, PartialEq, Eq, Structural)]
pub enum RequestParamType {
    Binance,
    Coinbase,
    Okex,
}

/// Binance subscription skeleton: per-pair idents go into `params`.
#[derive(Clone, Debug)]
pub struct BinanceReqParam {
    pub method: String,
    pub params: Vec<String>,
    pub id: i32,
}

/// Coinbase subscription skeleton: per-pair idents go into
/// `product_ids`.  `kind` is the message type field of the wire form.
#[derive(Clone, Debug)]
pub struct CoinbaseReqParam {
    pub kind: String,
    pub channels: Vec<String>,
    pub product_ids: Vec<String>,
}

/// Okex subscription skeleton: per-pair arguments go into `args`.
#[derive(Clone, Debug)]
pub struct OkexReqParam {
    pub op: String,
    pub args: Vec<OkexReqParamArg>,
}

/// One Okex subscription argument: a channel and an instrument ident.
#[derive(Clone, Debug)]
pub struct OkexReqParamArg {
    pub channel: String,
    pub inst_id: String,
}

/// A Binance tick: symbol (no separator) and price string.
#[derive(Clone, Debug)]
pub struct BinanceResponse {
    pub s: String,
    pub c: String,
}

/// A Coinbase tick: dash-joined product ident and price string.
#[derive(Clone, Debug)]
pub struct CoinbaseResponse {
    pub product_id: String,
    pub price: String,
}

/// One Okex tick datum: dash-joined instrument ident and last price.
#[derive(Clone, Debug)]
pub struct OkexResponseChild {
    pub inst_id: String,
    pub last: String,
}

/// An Okex tick frame: a list of tick data, the first of which counts.
#[derive(Clone, Debug)]
pub struct OkexResponse {
    pub data: Vec<OkexResponseChild>,
}

} // verus!
