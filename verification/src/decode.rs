//! Frame decoding: each feed's wire shape is classified into exactly
//! one of tick, ignorable, or fatal protocol fault.  JSON parsing and
//! field extraction go through the trusted wrappers of `json`, whose
//! results are named functions of the frame text; every decision on
//! the extracted fields is verified here, and `decode_post` pins the
//! outcome of every frame in terms of those names.

use vstd::prelude::*;
use vstd::string::*;

use crate::errors::ProtocolFault;
use crate::json::{
    data0_field_of, field_of, json_data0_field, json_ok, json_parses, json_str_field,
};
use crate::pairs::{pair_key, spec_pair_key};
use crate::price::{parse_price, price_nanos, price_valid};
use crate::text::{split_char, split_on};
use crate::types::{BinanceResponse, CoinbaseResponse, OkexResponse, OkexResponseChild, RequestParamType};

verus! {

/// One normalized price update: the canonical pair key and the price
/// in billionths.
#[derive(Clone, Debug)]
pub struct Tick {
    pub key: String,
    pub price: u128,
}

/// The three-way outcome of decoding one inbound frame.
#[derive(Clone, Debug)]
pub enum DecodeOutcome {
    /// A genuine price update.
    Tick(Tick),
    /// Well-formed but not a price update: dropped, the run continues.
    Ignorable,
    /// The feed broke its wire contract: fatal for the run.
    Fatal(ProtocolFault),
}

/// A price string both parses and fits the fixed-point range.
pub open spec fn price_ok(c: Seq<char>) -> bool {
    price_valid(c) && price_nanos(c) <= u128::MAX
}

/// The classification a Binance tick's fields demand: an empty symbol
/// means the frame was not a tick; a tick with a bad price is fatal;
/// otherwise the symbol is the key verbatim and the price is exact.
pub open spec fn binance_outcome(s: Seq<char>, c: Seq<char>, r: DecodeOutcome) -> bool {
    match r {
        DecodeOutcome::Ignorable => s.len() == 0,
        DecodeOutcome::Tick(t) => {
            &&& s.len() > 0
            &&& price_ok(c)
            &&& t.key@ == s
            &&& t.price == price_nanos(c)
        },
        DecodeOutcome::Fatal(f) => {
            &&& s.len() > 0
            &&& f is BadPrice
            &&& !price_ok(c)
        },
    }
}

/// The classification a Coinbase tick's fields demand: an empty
/// product ident means the frame was not a tick; a bad price is fatal;
/// an ident without a dash has no recognizable shape; otherwise the
/// key is the canonical form of the ident and the price is exact.
pub open spec fn coinbase_outcome(pid: Seq<char>, price: Seq<char>, r: DecodeOutcome) -> bool {
    match r {
        DecodeOutcome::Ignorable => pid.len() == 0,
        DecodeOutcome::Tick(t) => {
            &&& pid.len() > 0
            &&& price_ok(price)
            &&& split_on(pid, '-').len() >= 2
            &&& t.key@ == spec_pair_key(pid)
            &&& t.price == price_nanos(price)
        },
        DecodeOutcome::Fatal(f) => {
            &&& pid.len() > 0
            &&& (f is BadPrice ==> !price_ok(price))
            &&& (f is BadShape ==> price_ok(price) && split_on(pid, '-').len() < 2)
            &&& (f is BadPrice || f is BadShape)
        },
    }
}

/// The classification an Okex datum's fields demand: a bad price is
/// fatal, an ident without a dash has no recognizable shape, and a
/// present datum is never ignorable; otherwise the key is the
/// canonical form of the ident and the price is exact.
pub open spec fn okex_fields_outcome(inst: Seq<char>, last: Seq<char>, r: DecodeOutcome) -> bool {
    match r {
        DecodeOutcome::Ignorable => false,
        DecodeOutcome::Tick(t) => {
            &&& price_ok(last)
            &&& split_on(inst, '-').len() >= 2
            &&& t.key@ == spec_pair_key(inst)
            &&& t.price == price_nanos(last)
        },
        DecodeOutcome::Fatal(f) => {
            &&& (f is BadPrice ==> !price_ok(last))
            &&& (f is BadShape ==> price_ok(last) && split_on(inst, '-').len() < 2)
            &&& (f is BadPrice || f is BadShape)
        },
    }
}

/// Classify a Binance frame's extracted fields.
pub fn binance_tick(resp: &BinanceResponse) -> (r: DecodeOutcome)
    ensures
        binance_outcome(resp.s@, resp.c@, r),
{
    if resp.s.as_str().is_empty() {
        return DecodeOutcome::Ignorable;
    }
    match parse_price(resp.c.as_str()) {
        Ok(price) => DecodeOutcome::Tick(Tick { key: resp.s.clone(), price }),
        Err(_) => DecodeOutcome::Fatal(ProtocolFault::BadPrice),
    }
}

/// Classify a Coinbase frame's extracted fields.
pub fn coinbase_tick(resp: &CoinbaseResponse) -> (r: DecodeOutcome)
    ensures
        coinbase_outcome(resp.product_id@, resp.price@, r),
{
    if resp.product_id.as_str().is_empty() {
        return DecodeOutcome::Ignorable;
    }
    match parse_price(resp.price.as_str()) {
        Ok(price) => {
            let parts = split_char(resp.product_id.as_str(), '-');
            if parts.len() >= 2 {
                let key = pair_key(resp.product_id.as_str());
                DecodeOutcome::Tick(Tick { key, price })
            } else {
                DecodeOutcome::Fatal(ProtocolFault::BadShape)
            }
        },
        Err(_) => DecodeOutcome::Fatal(ProtocolFault::BadPrice),
    }
}

/// Classify an Okex frame's extracted data list.  An empty list means
/// the frame was not a tick; only the first datum counts.
pub fn okex_tick(resp: &OkexResponse) -> (r: DecodeOutcome)
    ensures
        resp.data@.len() == 0 ==> r is Ignorable,
        resp.data@.len() > 0 ==> okex_fields_outcome(
            resp.data@[0].inst_id@,
            resp.data@[0].last@,
            r,
        ),
{
    if resp.data.len() == 0 {
        return DecodeOutcome::Ignorable;
    }
    let child = &resp.data[0];
    match parse_price(child.last.as_str()) {
        Ok(price) => {
            let parts = split_char(child.inst_id.as_str(), '-');
            if parts.len() >= 2 {
                let key = pair_key(child.inst_id.as_str());
                DecodeOutcome::Tick(Tick { key, price })
            } else {
                DecodeOutcome::Fatal(ProtocolFault::BadShape)
            }
        },
        Err(_) => DecodeOutcome::Fatal(ProtocolFault::BadPrice),
    }
}

/// The top-level field that carries each feed's error discriminator.
pub open spec fn err_field_key(kind: RequestParamType) -> Seq<char> {
    match kind {
        RequestParamType::Binance => "result"@,
        RequestParamType::Coinbase => "type"@,
        RequestParamType::Okex => "event"@,
    }
}

/// The frame carries its feed's error envelope: the discriminator
/// field is present and holds the string `error`.
pub open spec fn has_error_envelope(kind: RequestParamType, frame: Seq<char>) -> bool {
    field_of(frame, err_field_key(kind)) == Some("error"@)
}

/// The classification a parseable, non-envelope frame demands: with
/// both tick fields present it classifies by the feed's rules, and
/// with either missing it is ignorable.
pub open spec fn tick_fields_post(kind: RequestParamType, frame: Seq<char>, r: DecodeOutcome) -> bool {
    match kind {
        RequestParamType::Binance => match (field_of(frame, "s"@), field_of(frame, "c"@)) {
            (Some(s), Some(c)) => binance_outcome(s, c, r),
            _ => r is Ignorable,
        },
        RequestParamType::Coinbase => match (
            field_of(frame, "product_id"@),
            field_of(frame, "price"@),
        ) {
            (Some(pid), Some(price)) => coinbase_outcome(pid, price, r),
            _ => r is Ignorable,
        },
        RequestParamType::Okex => match (
            data0_field_of(frame, "instId"@),
            data0_field_of(frame, "last"@),
        ) {
            (Some(inst), Some(last)) => okex_fields_outcome(inst, last, r),
            _ => r is Ignorable,
        },
    }
}

/// What `decode_frame` promises, over the named extraction results.
/// An unparseable frame is fatal, exactly; a parseable frame carrying
/// the feed's error envelope is fatal as such, exactly; any other
/// parseable frame classifies by `tick_fields_post`.
pub open spec fn decode_post(kind: RequestParamType, frame: Seq<char>, r: DecodeOutcome) -> bool {
    &&& ((r == DecodeOutcome::Fatal(ProtocolFault::Unparseable)) <==> !json_ok(frame))
    &&& (json_ok(frame) && has_error_envelope(kind, frame) ==> r == DecodeOutcome::Fatal(
        ProtocolFault::ErrorEnvelope,
    ))
    &&& (json_ok(frame) && !has_error_envelope(kind, frame) ==> tick_fields_post(kind, frame, r))
}

/// Decode one inbound text frame by the conventions of `kind`: the
/// feed's error envelope is checked first, then the tick fields are
/// extracted and classified.
pub fn decode_frame(kind: RequestParamType, frame: &str) -> (r: DecodeOutcome)
    ensures
        decode_post(kind, frame@, r),
{
    if !json_parses(frame) {
        return DecodeOutcome::Fatal(ProtocolFault::Unparseable);
    }
    let err_key = match kind {
        RequestParamType::Binance => "result",
        RequestParamType::Coinbase => "type",
        RequestParamType::Okex => "event",
    };
    proof {
        assert(err_key@ == err_field_key(kind));
    }
    if let Some(es) = json_str_field(frame, err_key) {
        if es == String::from_str("error") {
            return DecodeOutcome::Fatal(ProtocolFault::ErrorEnvelope);
        }
    }
    match kind {
        RequestParamType::Binance => {
            let s = json_str_field(frame, "s");
            let c = json_str_field(frame, "c");
            match (s, c) {
                (Some(s), Some(c)) => binance_tick(&BinanceResponse { s, c }),
                _ => DecodeOutcome::Ignorable,
            }
        },
        RequestParamType::Coinbase => {
            let product_id = json_str_field(frame, "product_id");
            let price = json_str_field(frame, "price");
            match (product_id, price) {
                (Some(product_id), Some(price)) => coinbase_tick(
                    &CoinbaseResponse { product_id, price },
                ),
                _ => DecodeOutcome::Ignorable,
            }
        },
        RequestParamType::Okex => {
            let inst = json_data0_field(frame, "instId");
            let last = json_data0_field(frame, "last");
            match (inst, last) {
                (Some(inst_id), Some(last)) => {
                    let mut data: Vec<OkexResponseChild> = Vec::new();
                    data.push(OkexResponseChild { inst_id, last });
                    okex_tick(&OkexResponse { data })
                },
                _ => DecodeOutcome::Ignorable,
            }
        },
    }
}

} // verus!
