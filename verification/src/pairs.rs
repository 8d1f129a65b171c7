//! Trading-pair tokens: validation of raw `BASE_QUOTE` input and the
//! canonical cache key shared by user input and feed identifiers.

use vstd::prelude::*;
use vstd::string::*;

use crate::errors::WSError;
use crate::text::{
    lemma_split_step, lemma_split_whole, seq_views, spec_upper, split_char, split_on, to_upper,
};

verus! {

/// A raw token is valid when it splits on `_` into exactly two
/// non-empty components.
pub open spec fn valid_pair_token(t: Seq<char>) -> bool {
    let parts = split_on(t, '_');
    parts.len() == 2 && parts[0].len() > 0 && parts[1].len() > 0
}

/// Canonical key of a raw `BASE_QUOTE` token: both components
/// uppercased and concatenated with no separator.
pub open spec fn spec_token_key(t: Seq<char>) -> Seq<char> {
    let parts = split_on(t, '_');
    spec_upper(parts[0]) + spec_upper(parts[1])
}

/// Canonical key of a feed's dash-joined identifier: the first two
/// dash-separated components uppercased and concatenated.
pub open spec fn spec_pair_key(s: Seq<char>) -> Seq<char> {
    let parts = split_on(s, '-');
    spec_upper(parts[0]) + spec_upper(parts[1])
}

/// A canonical trading-pair identity: uppercase base and quote symbols.
#[derive(Clone, Debug)]
pub struct Pair {
    pub base: String,
    pub quote: String,
}

impl Pair {
    /// The cache key: base and quote concatenated with no separator.
    pub open spec fn spec_key(self) -> Seq<char> {
        self.base@ + self.quote@
    }

    /// Parse a raw `BASE_QUOTE` token; accepts exactly the valid tokens.
    pub fn parse(token: &str) -> (r: Option<Pair>)
        ensures
            match r {
                Some(p) => valid_pair_token(token@) && p.base@ == spec_upper(
                    split_on(token@, '_')[0],
                ) && p.quote@ == spec_upper(split_on(token@, '_')[1]),
                None => !valid_pair_token(token@),
            },
    {
        let parts = split_char(token, '_');
        if parts.len() == 2 {
            let b = &parts[0];
            let q = &parts[1];
            if !b.as_str().is_empty() && !q.as_str().is_empty() {
                proof {
                    assert(seq_views(parts@)[0] == split_on(token@, '_')[0]);
                    assert(seq_views(parts@)[1] == split_on(token@, '_')[1]);
                }
                return Some(
                    Pair { base: to_upper(b.as_str()), quote: to_upper(q.as_str()) },
                );
            }
        }
        proof {
            assert(split_on(token@, '_').len() == seq_views(parts@).len());
            if split_on(token@, '_').len() == 2 {
                assert(seq_views(parts@)[0] == split_on(token@, '_')[0]);
                assert(seq_views(parts@)[1] == split_on(token@, '_')[1]);
            }
        }
        None
    }

    pub fn key(&self) -> (r: String)
        ensures
            r@ == self.spec_key(),
    {
        let b = self.base.clone();
        b.concat(self.quote.as_str())
    }
}

/// A comma-separated pair list is accepted exactly when every token is
/// a valid `BASE_QUOTE` token.
pub fn check_pairs(pairs: &str) -> (r: bool)
    ensures
        r <==> (forall|j: int|
            0 <= j < split_on(pairs@, ',').len() ==> valid_pair_token(
                #[trigger] split_on(pairs@, ',')[j],
            )),
{
    let tokens = split_char(pairs, ',');
    let mut ok = true;
    let mut i: usize = 0;
    while i < tokens.len()
        invariant
            0 <= i <= tokens.len(),
            seq_views(tokens@) == split_on(pairs@, ','),
            ok <==> (forall|j: int|
                0 <= j < i ==> valid_pair_token(#[trigger] split_on(pairs@, ',')[j])),
        decreases tokens.len() - i,
    {
        proof {
            assert(seq_views(tokens@)[i as int] == tokens@[i as int]@);
        }
        if Pair::parse(tokens[i].as_str()).is_none() {
            ok = false;
        }
        i += 1;
    }
    ok
}

/// Validate the whole comma-separated list before anything else
/// happens: all tokens parse, or the run is refused naming the first
/// offending token.
pub fn parse_pairs(pairs: &str) -> (r: Result<Vec<Pair>, WSError>)
    ensures
        match r {
            Ok(ps) => {
                &&& forall|j: int|
                    0 <= j < split_on(pairs@, ',').len() ==> valid_pair_token(
                        #[trigger] split_on(pairs@, ',')[j],
                    )
                &&& ps@.len() == split_on(pairs@, ',').len()
                &&& forall|j: int|
                    0 <= j < ps@.len() ==> {
                        &&& (#[trigger] ps@[j]).base@ == spec_upper(
                            split_on(#[trigger] split_on(pairs@, ',')[j], '_')[0],
                        )
                        &&& ps@[j].quote@ == spec_upper(
                            split_on(split_on(pairs@, ',')[j], '_')[1],
                        )
                    }
            },
            Err(e) => {
                &&& (e matches WSError::InvalidPair { token } && (exists|j: int|
                    0 <= j < split_on(pairs@, ',').len() && !valid_pair_token(
                        #[trigger] split_on(pairs@, ',')[j],
                    ) && token@ == split_on(pairs@, ',')[j] && (forall|k: int|
                        0 <= k < j ==> valid_pair_token(#[trigger] split_on(pairs@, ',')[k]))))
            },
        },
{
    let tokens = split_char(pairs, ',');
    let mut ps: Vec<Pair> = Vec::new();
    let mut i: usize = 0;
    while i < tokens.len()
        invariant
            0 <= i <= tokens.len(),
            seq_views(tokens@) == split_on(pairs@, ','),
            ps@.len() == i,
            forall|j: int|
                0 <= j < i ==> valid_pair_token(#[trigger] split_on(pairs@, ',')[j]),
            forall|j: int|
                0 <= j < i ==> {
                    &&& (#[trigger] ps@[j]).base@ == spec_upper(
                        split_on(#[trigger] split_on(pairs@, ',')[j], '_')[0],
                    )
                    &&& ps@[j].quote@ == spec_upper(split_on(split_on(pairs@, ',')[j], '_')[1])
                },
        decreases tokens.len() - i,
    {
        proof {
            assert(seq_views(tokens@)[i as int] == tokens@[i as int]@);
        }
        match Pair::parse(tokens[i].as_str()) {
            Some(p) => {
                ps.push(p);
            },
            None => {
                return Err(WSError::InvalidPair { token: tokens[i].clone() });
            },
        }
        i += 1;
    }
    Ok(ps)
}

/// Canonical key of a feed's dash-joined identifier, e.g. `BTC-USDT`.
/// The identifier must have a dash: the key is built from the first two
/// dash-separated components, uppercased.
pub fn pair_key(string: &str) -> (r: String)
    requires
        split_on(string@, '-').len() >= 2,
    ensures
        r@ == spec_pair_key(string@),
{
    let parts = split_char(string, '-');
    proof {
        assert(seq_views(parts@)[0] == split_on(string@, '-')[0]);
        assert(seq_views(parts@)[1] == split_on(string@, '-')[1]);
    }
    let u0 = to_upper(parts[0].as_str());
    let u1 = to_upper(parts[1].as_str());
    u0.concat(u1.as_str())
}

/// The canonical key is the same whether it is derived from a raw
/// underscore token or from a feed's dash-joined identifier for the
/// same economic pair.
pub proof fn lemma_key_source_agreement(base: Seq<char>, quote: Seq<char>)
    requires
        base.len() > 0,
        quote.len() > 0,
        forall|j: int| 0 <= j < base.len() ==> base[j] != '-' && base[j] != '_',
        forall|j: int| 0 <= j < quote.len() ==> quote[j] != '-' && quote[j] != '_',
    ensures
        valid_pair_token(base + seq!['_'] + quote),
        spec_pair_key(base + seq!['-'] + quote) == spec_token_key(base + seq!['_'] + quote),
{
    lemma_split_step(base, quote, '-');
    lemma_split_whole(quote, '-');
    lemma_split_step(base, quote, '_');
    lemma_split_whole(quote, '_');
    assert(split_on(base + seq!['-'] + quote, '-') == seq![base] + seq![quote]);
    assert(split_on(base + seq!['_'] + quote, '_') == seq![base] + seq![quote]);
    assert((seq![base] + seq![quote])[0] == base);
    assert((seq![base] + seq![quote])[1] == quote);
}

} // verus!
