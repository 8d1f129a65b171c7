//! Subscription building: the Binance stream URL and the per-pair
//! identifiers that go into each feed's subscription skeleton.  The
//! host program serializes the filled skeletons; everything that
//! decides what they contain is here.

use vstd::prelude::*;
use vstd::string::*;

use crate::text::{seq_views, spec_lower, spec_upper, split_char, split_on, to_lower, to_upper};
use crate::types::{BinanceReqParam, CoinbaseReqParam, OkexReqParam, OkexReqParamArg, RequestParamType};

verus! {

/// A token that contributes to a subscription: it splits on `_` into
/// exactly two components.  Empty components are tolerated here; the
/// strict list validation happens earlier and separately.
pub open spec fn two_components(t: Seq<char>) -> bool {
    split_on(t, '_').len() == 2
}

/// The query the Binance URL gains for one token: both components
/// lowercased around a leading slash, with the ticker channel suffix.
pub open spec fn spec_binance_query(t: Seq<char>) -> Seq<char> {
    let parts = split_on(t, '_');
    seq!['/'] + spec_lower(parts[0]) + spec_lower(parts[1]) + seq!['@', 't', 'i', 'c', 'k', 'e', 'r']
}

/// The queries contributed by a token list, in order; tokens that do
/// not split into two components contribute nothing.
pub open spec fn spec_binance_queries(tokens: Seq<Seq<char>>) -> Seq<char>
    decreases tokens.len(),
{
    if tokens.len() == 0 {
        Seq::empty()
    } else {
        spec_binance_queries(tokens.drop_last()) + (if two_components(tokens.last()) {
            spec_binance_query(tokens.last())
        } else {
            Seq::empty()
        })
    }
}

/// The Binance stream URL: the base, the `/ws` path, then one query
/// segment per requested pair.
pub fn binance_req_url(ws_base_url: &str, pairs: &Vec<String>) -> (r: String)
    ensures
        r@ == ws_base_url@ + seq!['/', 'w', 's'] + spec_binance_queries(seq_views(pairs@)),
{
    let mut url = ws_base_url.to_owned();
    url.append("/ws");
    proof {
        reveal_strlit("/ws");
        assert(url@ =~= ws_base_url@ + seq!['/', 'w', 's']);
        assert(seq_views(pairs@.take(0)) =~= Seq::<Seq<char>>::empty());
    }
    let mut i: usize = 0;
    while i < pairs.len()
        invariant
            0 <= i <= pairs.len(),
            url@ == ws_base_url@ + seq!['/', 'w', 's'] + spec_binance_queries(
                seq_views(pairs@.take(i as int)),
            ),
        decreases pairs.len() - i,
    {
        let parts = split_char(pairs[i].as_str(), '_');
        proof {
            assert(seq_views(parts@) == split_on(pairs@[i as int]@, '_'));
            assert(seq_views(pairs@.take(i + 1 as int)).drop_last() =~= seq_views(
                pairs@.take(i as int),
            ));
            assert(seq_views(pairs@.take(i + 1 as int)).last() == pairs@[i as int]@);
        }
        if parts.len() == 2 {
            proof {
                assert(seq_views(parts@)[0] == split_on(pairs@[i as int]@, '_')[0]);
                assert(seq_views(parts@)[1] == split_on(pairs@[i as int]@, '_')[1]);
            }
            url.append("/");
            let lo0 = to_lower(parts[0].as_str());
            url.append(lo0.as_str());
            let lo1 = to_lower(parts[1].as_str());
            url.append(lo1.as_str());
            url.append("@ticker");
            proof {
                reveal_strlit("/");
                reveal_strlit("@ticker");
                assert(url@ =~= ws_base_url@ + seq!['/', 'w', 's'] + spec_binance_queries(
                    seq_views(pairs@.take(i + 1 as int)),
                ));
            }
        }
        i += 1;
    }
    proof {
        assert(pairs@.take(pairs@.len() as int) =~= pairs@);
    }
    url
}

/// The per-pair identifier one token contributes for a feed: Binance
/// joins the uppercased components with a `ticker` suffix; Coinbase and
/// Okex join them with a dash.
pub open spec fn spec_req_param(rt: RequestParamType, t: Seq<char>) -> Seq<char> {
    let parts = split_on(t, '_');
    match rt {
        RequestParamType::Binance => spec_upper(parts[0]) + spec_upper(parts[1]) + seq![
            't',
            'i',
            'c',
            'k',
            'e',
            'r',
        ],
        RequestParamType::Okex => spec_upper(parts[0]) + seq!['-'] + spec_upper(parts[1]),
        RequestParamType::Coinbase => spec_upper(parts[0]) + seq!['-'] + spec_upper(parts[1]),
    }
}

/// The identifiers a token list contributes for a feed, in order;
/// tokens that do not split into two components contribute nothing.
pub open spec fn spec_req_params(rt: RequestParamType, tokens: Seq<Seq<char>>) -> Seq<Seq<char>>
    decreases tokens.len(),
{
    if tokens.len() == 0 {
        Seq::empty()
    } else {
        spec_req_params(rt, tokens.drop_last()) + (if two_components(tokens.last()) {
            seq![spec_req_param(rt, tokens.last())]
        } else {
            Seq::empty()
        })
    }
}

/// Build the per-pair identifiers of a feed's subscription, in the
/// order the pairs were supplied.
pub fn create_req_params(req_type: RequestParamType, pairs: &Vec<String>) -> (r: Vec<String>)
    ensures
        seq_views(r@) == spec_req_params(req_type, seq_views(pairs@)),
{
    let mut params: Vec<String> = Vec::new();
    proof {
        assert(seq_views(pairs@.take(0)) =~= Seq::<Seq<char>>::empty());
        assert(seq_views(params@) =~= Seq::<Seq<char>>::empty());
    }
    let mut i: usize = 0;
    while i < pairs.len()
        invariant
            0 <= i <= pairs.len(),
            seq_views(params@) == spec_req_params(req_type, seq_views(pairs@.take(i as int))),
        decreases pairs.len() - i,
    {
        let parts = split_char(pairs[i].as_str(), '_');
        proof {
            assert(seq_views(parts@) == split_on(pairs@[i as int]@, '_'));
            assert(seq_views(pairs@.take(i + 1 as int)).drop_last() =~= seq_views(
                pairs@.take(i as int),
            ));
            assert(seq_views(pairs@.take(i + 1 as int)).last() == pairs@[i as int]@);
        }
        if parts.len() == 2 {
            proof {
                assert(seq_views(parts@)[0] == split_on(pairs@[i as int]@, '_')[0]);
                assert(seq_views(parts@)[1] == split_on(pairs@[i as int]@, '_')[1]);
            }
            let up0 = to_upper(parts[0].as_str());
            let up1 = to_upper(parts[1].as_str());
            let param = match req_type {
                RequestParamType::Binance => {
                    let mut p = up0;
                    p.append(up1.as_str());
                    p.append("ticker");
                    proof {
                        reveal_strlit("ticker");
                    }
                    p
                },
                RequestParamType::Okex => {
                    let mut p = up0;
                    p.append("-");
                    p.append(up1.as_str());
                    proof {
                        reveal_strlit("-");
                    }
                    p
                },
                RequestParamType::Coinbase => {
                    let mut p = up0;
                    p.append("-");
                    p.append(up1.as_str());
                    proof {
                        reveal_strlit("-");
                    }
                    p
                },
            };
            proof {
                assert(param@ =~= spec_req_param(req_type, pairs@[i as int]@));
            }
            let ghost before = params@;
            params.push(param);
            proof {
                assert(seq_views(params@) =~= seq_views(before).push(param@));
                assert(seq_views(params@) =~= spec_req_params(
                    req_type,
                    seq_views(pairs@.take(i + 1 as int)),
                ));
            }
        }
        i += 1;
    }
    proof {
        assert(pairs@.take(pairs@.len() as int) =~= pairs@);
    }
    params
}

/// Append the built identifiers to a Binance skeleton's `params` list;
/// nothing else of the skeleton changes.
pub fn extend_binance_params(req: &mut BinanceReqParam, params: &Vec<String>)
    ensures
        final(req).method == old(req).method,
        final(req).id == old(req).id,
        final(req).params@ == old(req).params@ + params@,
{
    let mut i: usize = 0;
    proof {
        assert(req.params@ =~= old(req).params@ + params@.take(0));
    }
    while i < params.len()
        invariant
            0 <= i <= params.len(),
            req.method == old(req).method,
            req.id == old(req).id,
            req.params@ == old(req).params@ + params@.take(i as int),
        decreases params.len() - i,
    {
        req.params.push(params[i].clone());
        proof {
            assert(req.params@ =~= old(req).params@ + params@.take(i + 1 as int));
        }
        i += 1;
    }
    proof {
        assert(params@.take(params@.len() as int) =~= params@);
    }
}

/// Append the built identifiers to a Coinbase skeleton's
/// `product_ids` list; nothing else of the skeleton changes.
pub fn extend_coinbase_params(req: &mut CoinbaseReqParam, params: &Vec<String>)
    ensures
        final(req).kind == old(req).kind,
        final(req).channels == old(req).channels,
        final(req).product_ids@ == old(req).product_ids@ + params@,
{
    let mut i: usize = 0;
    proof {
        assert(req.product_ids@ =~= old(req).product_ids@ + params@.take(0));
    }
    while i < params.len()
        invariant
            0 <= i <= params.len(),
            req.kind == old(req).kind,
            req.channels == old(req).channels,
            req.product_ids@ == old(req).product_ids@ + params@.take(i as int),
        decreases params.len() - i,
    {
        req.product_ids.push(params[i].clone());
        proof {
            assert(req.product_ids@ =~= old(req).product_ids@ + params@.take(i + 1 as int));
        }
        i += 1;
    }
    proof {
        assert(params@.take(params@.len() as int) =~= params@);
    }
}

/// Append one `tickers`-channel argument per built identifier to an
/// Okex skeleton's `args` list; nothing else of the skeleton changes.
pub fn extend_okex_params(req: &mut OkexReqParam, params: &Vec<String>)
    ensures
        final(req).op == old(req).op,
        final(req).args@.len() == old(req).args@.len() + params@.len(),
        forall|j: int|
            0 <= j < old(req).args@.len() ==> final(req).args@[j] == old(req).args@[j],
        forall|j: int|
            0 <= j < params@.len() ==> {
                &&& (#[trigger] final(req).args@[old(req).args@.len() + j]).channel@ == seq![
                    't',
                    'i',
                    'c',
                    'k',
                    'e',
                    'r',
                    's',
                ]
                &&& final(req).args@[old(req).args@.len() + j].inst_id == params@[j]
            },
{
    let mut i: usize = 0;
    while i < params.len()
        invariant
            0 <= i <= params.len(),
            req.op == old(req).op,
            req.args@.len() == old(req).args@.len() + i,
            forall|j: int| 0 <= j < old(req).args@.len() ==> req.args@[j] == old(req).args@[j],
            forall|j: int|
                0 <= j < i ==> {
                    &&& (#[trigger] req.args@[old(req).args@.len() + j]).channel@ == seq![
                        't',
                        'i',
                        'c',
                        'k',
                        'e',
                        'r',
                        's',
                    ]
                    &&& req.args@[old(req).args@.len() + j].inst_id == params@[j]
                },
        decreases params.len() - i,
    {
        let channel = String::from_str("tickers");
        proof {
            reveal_strlit("tickers");
            assert(channel@ =~= seq!['t', 'i', 'c', 'k', 'e', 'r', 's']);
        }
        req.args.push(OkexReqParamArg { channel, inst_id: params[i].clone() });
        i += 1;
    }
}

} // verus!
